//! The library's laws: properties that relate several of its operations,
//! stated over the mathematical mirrors and proved once and for all.

use vstd::prelude::*;
use crate::bytes::{DOT, ClassId};
use crate::model::{
    SpecExtResource,
    SpecSubResource,
    SpecParameter,
    SpecNode,
    spec_add_child,
    spec_placeholder,
    spec_node_wf,
    child_index_from,
    lemma_child_index_from_some,
    lemma_child_index_from_none,
    spec_fill_in,
};
use crate::pattern::{PatId, pat};
use crate::render::{spec_render, spec_walk};
use crate::scan::{spec_classify, LineKind, has_prefix};
use crate::state::{
    SpecState,
    spec_consume,
    spec_resolve,
    spec_insert_ext,
    spec_insert_sub,
    lookup_ext,
    lookup_sub,
    ext_index_from,
    sub_index_from,
    ext_display,
    sub_display,
    spec_parse_lines,
};

verus! {

/// A node with nothing bound and no children renders to exactly its name and
/// a line break: the minimal scene of a lone root declaration produces the
/// root's display name and nothing else.
pub proof fn lemma_render_leaf(n: SpecNode)
    requires
        n.instance is None,
        n.parameters.len() == 0,
        n.connections.len() == 0,
        n.children.len() == 0,
    ensures
        spec_render(n) == n.name + pat(PatId::Newline),
{
    assert(spec_walk(n, Seq::empty()) =~= Seq::<u8>::empty());
    assert(spec_render(n) =~= n.name + pat(PatId::Newline));
}

/// Round-trip identity for the minimal scene: a parsed state holding exactly
/// one node declaration — a root with no parameters and nothing bound — and
/// no pending connections assembles and renders to exactly that root's name
/// and a line break.
pub proof fn lemma_lone_root_renders_name(st: SpecState, n: SpecNode)
    requires
        st.nodes == seq![n],
        st.conns.len() == 0,
        n.parent.len() == 0,
        n.children.len() == 0,
        n.parameters.len() == 0,
        n.connections.len() == 0,
        n.instance is None,
    ensures
        spec_render(crate::tree::spec_assemble(st)) == n.name + pat(PatId::Newline),
{
    let root0 = spec_placeholder(Seq::empty());
    let bound = SpecNode { connections: crate::tree::conns_for(st.conns, n), ..n };
    assert(crate::tree::conns_for(st.conns, n) =~= Seq::<crate::model::SpecConnection>::empty());
    let filled = spec_fill_in(root0, bound);
    let pool2 = crate::tree::conns_rest(st.conns, n);
    assert(crate::tree::spec_assemble_from(st.nodes, 1, pool2, filled) == filled);
    assert(crate::tree::spec_assemble(st) == filled);
    lemma_render_leaf(filled);
}

proof fn lemma_ext_index_from_some(rs: Seq<SpecExtResource>, id: Seq<u8>, i: int, j: int)
    requires
        ext_index_from(rs, id, i) == Some(j),
    ensures
        i <= j < rs.len(),
        rs[j].id == id,
        forall|k: int| i <= k < j ==> rs[k].id != id,
    decreases rs.len() - i,
{
    if 0 <= i < rs.len() && rs[i].id != id {
        lemma_ext_index_from_some(rs, id, i + 1, j);
    }
}

proof fn lemma_ext_index_update(rs: Seq<SpecExtResource>, r: SpecExtResource, i: int, j: int)
    requires
        0 <= j <= i < rs.len(),
        forall|k: int| j <= k < i ==> rs[k].id != r.id,
    ensures
        ext_index_from(rs.update(i, r), r.id, j) == Some(i),
    decreases i - j,
{
    if j < i {
        lemma_ext_index_update(rs, r, i, j + 1);
    }
}

proof fn lemma_ext_index_push(rs: Seq<SpecExtResource>, r: SpecExtResource, j: int)
    requires
        0 <= j <= rs.len(),
        forall|k: int| j <= k < rs.len() ==> rs[k].id != r.id,
    ensures
        ext_index_from(rs.push(r), r.id, j) == Some(rs.len() as int),
    decreases rs.len() - j,
{
    if j < rs.len() {
        lemma_ext_index_push(rs, r, j + 1);
    }
}

proof fn lemma_ext_index_from_none(rs: Seq<SpecExtResource>, id: Seq<u8>, i: int)
    requires
        0 <= i,
        ext_index_from(rs, id, i) is None,
    ensures
        forall|k: int| i <= k < rs.len() ==> rs[k].id != id,
    decreases rs.len() - i,
{
    if 0 <= i < rs.len() && rs[i].id != id {
        lemma_ext_index_from_none(rs, id, i + 1);
    }
}

/// Declaring an external resource makes it the one found under its id.
pub proof fn lemma_lookup_inserted_ext(rs: Seq<SpecExtResource>, r: SpecExtResource)
    ensures
        lookup_ext(spec_insert_ext(rs, r), r.id) == Some(r),
{
    match ext_index_from(rs, r.id, 0) {
        Some(i) => {
            lemma_ext_index_from_some(rs, r.id, 0, i);
            lemma_ext_index_update(rs, r, i, 0);
        },
        None => {
            lemma_ext_index_from_none(rs, r.id, 0);
            lemma_ext_index_push(rs, r, 0);
        },
    }
}

proof fn lemma_sub_index_from_some(rs: Seq<SpecSubResource>, id: Seq<u8>, i: int, j: int)
    requires
        sub_index_from(rs, id, i) == Some(j),
    ensures
        i <= j < rs.len(),
        rs[j].id == id,
        forall|k: int| i <= k < j ==> rs[k].id != id,
    decreases rs.len() - i,
{
    if 0 <= i < rs.len() && rs[i].id != id {
        lemma_sub_index_from_some(rs, id, i + 1, j);
    }
}

proof fn lemma_sub_index_update(rs: Seq<SpecSubResource>, r: SpecSubResource, i: int, j: int)
    requires
        0 <= j <= i < rs.len(),
        forall|k: int| j <= k < i ==> rs[k].id != r.id,
    ensures
        sub_index_from(rs.update(i, r), r.id, j) == Some(i),
    decreases i - j,
{
    if j < i {
        lemma_sub_index_update(rs, r, i, j + 1);
    }
}

proof fn lemma_sub_index_push(rs: Seq<SpecSubResource>, r: SpecSubResource, j: int)
    requires
        0 <= j <= rs.len(),
        forall|k: int| j <= k < rs.len() ==> rs[k].id != r.id,
    ensures
        sub_index_from(rs.push(r), r.id, j) == Some(rs.len() as int),
    decreases rs.len() - j,
{
    if j < rs.len() {
        lemma_sub_index_push(rs, r, j + 1);
    }
}

proof fn lemma_sub_index_from_none(rs: Seq<SpecSubResource>, id: Seq<u8>, i: int)
    requires
        0 <= i,
        sub_index_from(rs, id, i) is None,
    ensures
        forall|k: int| i <= k < rs.len() ==> rs[k].id != id,
    decreases rs.len() - i,
{
    if 0 <= i < rs.len() && rs[i].id != id {
        lemma_sub_index_from_none(rs, id, i + 1);
    }
}

/// Declaring a sub-resource makes it the one found under its id.
pub proof fn lemma_lookup_inserted_sub(rs: Seq<SpecSubResource>, r: SpecSubResource)
    ensures
        lookup_sub(spec_insert_sub(rs, r), r.id) == Some(r),
{
    match sub_index_from(rs, r.id, 0) {
        Some(i) => {
            lemma_sub_index_from_some(rs, r.id, 0, i);
            lemma_sub_index_update(rs, r, i, 0);
        },
        None => {
            lemma_sub_index_from_none(rs, r.id, 0);
            lemma_sub_index_push(rs, r, 0);
        },
    }
}

/// The one line of a minimal scene file: a node declaration carrying only a
/// name.
pub open spec fn minimal_node_line(name: Seq<u8>) -> Seq<u8> {
    pat(PatId::NodePrefix) + name + seq![crate::bytes::QUOTE, crate::bytes::RBRACKET]
}

proof fn lemma_find_quote(s: Seq<u8>, j: int, k: int)
    requires
        0 <= j <= k < s.len(),
        s[k] == crate::bytes::QUOTE,
        forall|m: int| j <= m < k ==> s[m] != crate::bytes::QUOTE,
    ensures
        crate::bytes::find_from(s, seq![crate::bytes::QUOTE], j) == Some(k),
    decreases k - j,
{
    let q = seq![crate::bytes::QUOTE];
    assert(q[0] == crate::bytes::QUOTE);
    if j < k {
        assert(s.subrange(j, j + 1)[0] == s[j]);
        assert(s.subrange(j, j + 1) =~= seq![s[j]]);
        assert(!crate::bytes::occurs_at(s, q, j));
        lemma_find_quote(s, j + 1, k);
    } else {
        assert(s.subrange(k, k + 1)[0] == s[k]);
        assert(s.subrange(k, k + 1) =~= q);
    }
}

/// Round-trip identity, end to end: a file holding a single node declaration
/// with a quote-free name parses, assembles and renders to exactly that name
/// and a line break — the root's display name and nothing else.
pub proof fn lemma_minimal_file_round_trip(name: Seq<u8>)
    requires
        name.len() > 0,
        forall|m: int| 0 <= m < name.len() ==> name[m] != crate::bytes::QUOTE,
    ensures
        crate::spec_scene_text(seq![minimal_node_line(name)]) == name + pat(PatId::Newline),
{
    let s = minimal_node_line(name);
    let np = pat(PatId::NodePrefix);
    assert(s.len() == 14 + name.len());
    assert forall|m: int| 0 <= m < name.len() implies s[12 + m] == name[m] by {
        assert(s[12 + m] == (np + name)[12 + m]);
    }
    assert(s[s.len() - 2] == crate::bytes::QUOTE);
    assert(s[s.len() - 1] == crate::bytes::RBRACKET);
    // the line matches no earlier directive shape: the opening bytes differ
    assert(s[1] == 110);
    if has_prefix(s, pat(PatId::ExtPrefix)) {
        assert(s.subrange(0, pat(PatId::ExtPrefix).len() as int)[1] == 101);
        assert(false);
    }
    assert(!crate::scan::is_ext_line(s));
    if has_prefix(s, pat(PatId::SubPrefix)) {
        assert(s.subrange(0, pat(PatId::SubPrefix).len() as int)[1] == 115);
        assert(false);
    }
    assert(crate::scan::sub_line_parts(s) is None);
    // it is a node declaration of that name with no attributes
    assert(s.subrange(0, 12) =~= np);
    assert(has_prefix(s, np));
    lemma_find_quote(s, 12, 12 + name.len() as int);
    let q: int = 12 + name.len() as int;
    assert(crate::bytes::capture_at(s, 12) == Some((s.subrange(12, q), q)));
    assert(s.subrange(12, q) =~= name);
    let rem = s.subrange(q + 1, s.len() - 1);
    assert(rem =~= Seq::<u8>::empty());
    assert(crate::scan::node_line_parts(s) == Some((name, rem)));
    assert(crate::scan::attr_capture_from(rem, pat(PatId::TypeAttr), 0) is None);
    assert(crate::scan::attr_capture_from(rem, pat(PatId::ParentAttr), 0) is None);
    assert(crate::scan::attr_capture_from(rem, pat(PatId::IndexAttr), 0) is None);
    assert(crate::scan::paren_ref_first_from(rem, pat(PatId::InstAttr), ClassId::Digit, 0)
        is None);
    let n = SpecNode {
        name: name,
        kind: Seq::empty(),
        parent: Seq::empty(),
        index: -1,
        instance: None,
        parameters: Seq::empty(),
        children: Seq::empty(),
        connections: Seq::empty(),
        declared: true,
    };
    assert(spec_classify(s) == (LineKind::NodeDecl {
        name: name,
        kind: Seq::empty(),
        parent: Seq::empty(),
        index: -1,
        instance: None,
    }));
    // one consumed line gives a state holding exactly that node
    let st0 = crate::state::spec_init_state();
    let st1 = spec_consume(st0, s);
    assert(st1.nodes =~= seq![n]);
    assert(spec_parse_lines(seq![s], 1, st1) == st1);
    assert(seq![s][0] == s);
    assert(spec_parse_lines(seq![s], 0, st0) == st1);
    lemma_lone_root_renders_name(st1, n);
}

/// Consuming an external-resource declaration line leaves the declared
/// resource as the one its id finds in the table.
pub proof fn lemma_declared_ext_found(st: SpecState, line: Seq<u8>, r: SpecExtResource)
    requires
        spec_classify(line) == (LineKind::Ext { res: r }),
    ensures
        lookup_ext(spec_consume(st, line).exts, r.id) == Some(r),
{
    lemma_lookup_inserted_ext(st.exts, r);
}

/// Consuming a sub-resource declaration line leaves a fresh entry of the
/// declared type, with no parameters yet, as the one its id finds, and points
/// the current-sub-resource cursor at it.
pub proof fn lemma_declared_sub_found(st: SpecState, line: Seq<u8>, kind: Seq<u8>, id: Seq<u8>)
    requires
        spec_classify(line) == (LineKind::Sub { kind: kind, id: id }),
    ensures
        lookup_sub(spec_consume(st, line).subs, id) == Some(
            SpecSubResource { kind: kind, id: id, parameters: Seq::empty() },
        ),
        spec_consume(st, line).last_sub_id == id,
{
    lemma_lookup_inserted_sub(
        st.subs,
        SpecSubResource { kind: kind, id: id, parameters: Seq::empty() },
    );
}

/// A node-parameter value that references a declared external resource by id
/// resolves to a display string carrying both the resource's type and its
/// path, with no nested sub-parameters.
pub proof fn lemma_ext_reference_resolves(
    val: Seq<u8>,
    exts: Seq<SpecExtResource>,
    subs: Seq<SpecSubResource>,
    r: SpecExtResource,
)
    requires
        has_prefix(val, pat(PatId::ExtWord)),
        crate::scan::paren_ref_last_down(val, pat(PatId::ExtParen), ClassId::IdChar, val.len() - 1)
            == Some(r.id),
        lookup_ext(exts, r.id) == Some(r),
    ensures
        spec_resolve(val, exts, subs) == (ext_display(r), Seq::<SpecParameter>::empty()),
        ext_display(r) == pat(PatId::LParen) + r.kind + pat(PatId::RParenSp) + r.path,
{
}

/// A node-parameter value that references a declared sub-resource by id
/// resolves to a type-tagged display string, and its nested sub-parameters
/// are exactly the sub-resource's parameter list, in order.
pub proof fn lemma_sub_reference_resolves(
    val: Seq<u8>,
    exts: Seq<SpecExtResource>,
    subs: Seq<SpecSubResource>,
    r: SpecSubResource,
)
    requires
        has_prefix(val, pat(PatId::SubWord)),
        crate::scan::paren_ref_last_down(val, pat(PatId::SubParen), ClassId::IdChar, val.len() - 1)
            == Some(r.id),
        lookup_sub(subs, r.id) == Some(r),
    ensures
        spec_resolve(val, exts, subs) == (sub_display(r), r.parameters),
        sub_display(r) == pat(PatId::LParen) + r.kind + pat(PatId::RParen),
{
    if has_prefix(val, pat(PatId::ExtWord)) {
        assert(val.subrange(0, pat(PatId::ExtWord).len() as int)[0] == 69);
        assert(val.subrange(0, pat(PatId::SubWord).len() as int)[0] == 83);
        assert(false);
    }
}

/// A node declared with a two-segment parent path whose ancestors were never
/// declared is still placed: both missing ancestors are synthesized as
/// structural placeholder nodes, appended after the existing children, with
/// the node attached below them.
pub proof fn lemma_missing_ancestors(tree: SpecNode, x: Seq<u8>, y: Seq<u8>, node: SpecNode)
    requires
        x.len() > 0,
        y.len() > 0,
        child_index_from(tree.children, x, 0) is None,
    ensures
        spec_add_child(tree, seq![x, y], node) == (SpecNode {
            children: tree.children.push(
                SpecNode {
                    children: seq![
                        (SpecNode { children: seq![node], ..spec_placeholder(y) }),
                    ],
                    ..spec_placeholder(x)
                },
            ),
            ..tree
        }),
{
    let segs = seq![x, y];
    assert(segs.drop_first() =~= seq![y]);
    assert(seq![y].drop_first() =~= Seq::<Seq<u8>>::empty());
    let px = spec_placeholder(x);
    let py = spec_placeholder(y);
    assert(child_index_from(px.children, y, 0) is None);
    assert(child_index_from(py.children, node.name, 0) is None);
    let c0 = spec_add_child(py, seq![y].drop_first(), node);
    assert(py.children.push(node) =~= seq![node]);
    assert(c0 == SpecNode { children: seq![node], ..py });
    let c1 = spec_add_child(px, segs.drop_first(), node);
    assert(px.children.push(c0) =~= seq![c0]);
    assert(c1 == SpecNode { children: seq![c0], ..px });
    assert(spec_add_child(tree, segs, node) == SpecNode {
        children: tree.children.push(c1),
        ..tree
    });
}

/// A connection line whose target is `.` is recorded with its target bound
/// to the name of the first declared node (the root declaration), wherever
/// the `.` stood in the line's text.
pub proof fn lemma_dot_target_binds_root(st: SpecState, line: Seq<u8>)
    requires
        st.nodes.len() > 0,
        (spec_classify(line) matches LineKind::Conn { to, .. } && to == seq![DOT]),
    ensures
        spec_consume(st, line).conns.len() == st.conns.len() + 1,
        spec_consume(st, line).conns.last().to == st.nodes[0].name,
{
}

/// Every node of a freshly parsed state is flat: it was created by a
/// declaration line and carries no children yet.
pub open spec fn flat_nodes(nodes: Seq<SpecNode>) -> bool {
    forall|i: int| 0 <= i < nodes.len() ==> (#[trigger] nodes[i]).children.len() == 0
}

/// Consuming a line never gives a node of the flat list children.
pub proof fn lemma_consume_keeps_flat(st: SpecState, line: Seq<u8>)
    requires
        flat_nodes(st.nodes),
    ensures
        flat_nodes(spec_consume(st, line).nodes),
{
    let nodes2 = spec_consume(st, line).nodes;
    assert forall|i: int| 0 <= i < nodes2.len() implies (#[trigger] nodes2[i]).children.len()
        == 0 by {
        if i < st.nodes.len() {
            assert(st.nodes[i].children.len() == 0);
        }
        if st.nodes.len() > 0 {
            assert(st.nodes[st.nodes.len() - 1].children.len() == 0);
        }
    }
}

/// Parsing any run of lines keeps the flat list flat.
pub proof fn lemma_parse_keeps_flat(lines: Seq<Seq<u8>>, i: int, st: SpecState)
    requires
        flat_nodes(st.nodes),
    ensures
        flat_nodes(spec_parse_lines(lines, i, st).nodes),
    decreases lines.len() - i,
{
    if 0 <= i < lines.len() {
        lemma_consume_keeps_flat(st, lines[i]);
        lemma_parse_keeps_flat(lines, i + 1, spec_consume(st, lines[i]));
    }
}

/// Folding flat nodes into a well-formed root keeps the tree well-formed.
pub proof fn lemma_assemble_from_wf(
    nodes: Seq<SpecNode>,
    i: int,
    pool: Seq<crate::model::SpecConnection>,
    root: SpecNode,
)
    requires
        spec_node_wf(root),
        flat_nodes(nodes),
    ensures
        spec_node_wf(crate::tree::spec_assemble_from(nodes, i, pool, root)),
    decreases nodes.len() - i,
{
    if 0 <= i < nodes.len() {
        let n = nodes[i];
        assert(n.children.len() == 0);
        let bound = SpecNode { connections: crate::tree::conns_for(pool, n), ..n };
        let pool2 = crate::tree::conns_rest(pool, n);
        assert(spec_node_wf(bound));
        if n.parent.len() == 0 {
            let filled = spec_fill_in(root, bound);
            assert forall|a: int|
                0 <= a < filled.children.len() implies spec_node_wf(
                #[trigger] filled.children[a],
            ) by {
                assert(filled.children[a] == root.children[a]);
                assert(spec_node_wf(root.children[a]));
            }
            assert(spec_node_wf(filled));
            lemma_assemble_from_wf(nodes, i + 1, pool2, filled);
        } else {
            lemma_add_child_wf(root, crate::tree::parent_segs(n.parent), bound);
            lemma_assemble_from_wf(
                nodes,
                i + 1,
                pool2,
                spec_add_child(root, crate::tree::parent_segs(n.parent), bound),
            );
        }
    }
}

/// The tree assembled from any parsed file is well-formed: everywhere in it,
/// sibling names are pairwise distinct, as an ordered name-keyed child
/// collection demands.
pub proof fn lemma_parsed_tree_wf(lines: Seq<Seq<u8>>)
    ensures
        spec_node_wf(
            crate::tree::spec_assemble(
                crate::state::spec_parse_lines(lines, 0, crate::state::spec_init_state()),
            ),
        ),
{
    let st0 = crate::state::spec_init_state();
    assert(flat_nodes(st0.nodes));
    lemma_parse_keeps_flat(lines, 0, st0);
    let stf = crate::state::spec_parse_lines(lines, 0, st0);
    assert(spec_node_wf(spec_placeholder(Seq::empty())));
    lemma_assemble_from_wf(stf.nodes, 0, stf.conns, spec_placeholder(Seq::empty()));
}

/// Tree insertion preserves well-formedness: sibling names stay pairwise
/// distinct everywhere, and the root keeps its name. Placeholders are
/// created only for absent names, a clashing declared name is not inserted
/// twice, and filling in a placeholder keeps its key.
pub proof fn lemma_add_child_wf(tree: SpecNode, segs: Seq<Seq<u8>>, node: SpecNode)
    requires
        spec_node_wf(tree),
        spec_node_wf(node),
    ensures
        spec_node_wf(spec_add_child(tree, segs, node)),
        spec_add_child(tree, segs, node).name == tree.name,
    decreases segs.len(),
{
    let t2 = spec_add_child(tree, segs, node);
    if segs.len() == 0 {
        match child_index_from(tree.children, node.name, 0) {
            Some(i) => {
                lemma_child_index_from_some(tree.children, node.name, 0, i);
                if !tree.children[i].declared {
                    let filled = spec_fill_in(tree.children[i], node);
                    assert(filled.name == tree.children[i].name);
                    assert(spec_node_wf(tree.children[i]));
                    assert forall|a: int|
                        0 <= a < filled.children.len() implies spec_node_wf(
                        #[trigger] filled.children[a],
                    ) by {
                        assert(filled.children[a] == tree.children[i].children[a]);
                        assert(spec_node_wf(tree.children[i].children[a]));
                    }
                    assert(spec_node_wf(filled));
                    assert forall|a: int, b: int|
                        0 <= a < b < t2.children.len() implies t2.children[a].name
                        != t2.children[b].name by {
                        assert(tree.children[a].name != tree.children[b].name);
                    }
                }
            },
            None => {
                lemma_child_index_from_none(tree.children, node.name, 0);
                assert forall|a: int|
                    0 <= a < t2.children.len() implies #[trigger] spec_node_wf(
                    t2.children[a],
                ) by {
                    if a < tree.children.len() {
                        assert(spec_node_wf(tree.children[a]));
                    }
                }
            },
        }
    } else if segs[0].len() == 0 {
        lemma_add_child_wf(tree, segs.drop_first(), node);
    } else {
        match child_index_from(tree.children, segs[0], 0) {
            Some(i) => {
                lemma_child_index_from_some(tree.children, segs[0], 0, i);
                assert(spec_node_wf(tree.children[i]));
                lemma_add_child_wf(tree.children[i], segs.drop_first(), node);
                let c2 = spec_add_child(tree.children[i], segs.drop_first(), node);
                assert(c2.name == tree.children[i].name);
                assert forall|a: int, b: int|
                    0 <= a < b < t2.children.len() implies t2.children[a].name
                    != t2.children[b].name by {
                    assert(tree.children[a].name != tree.children[b].name);
                }
                assert forall|a: int|
                    0 <= a < t2.children.len() implies #[trigger] spec_node_wf(
                    t2.children[a],
                ) by {
                    if a != i {
                        assert(spec_node_wf(tree.children[a]));
                    }
                }
            },
            None => {
                lemma_child_index_from_none(tree.children, segs[0], 0);
                assert(spec_node_wf(spec_placeholder(segs[0])));
                lemma_add_child_wf(spec_placeholder(segs[0]), segs.drop_first(), node);
                let c2 = spec_add_child(spec_placeholder(segs[0]), segs.drop_first(), node);
                assert(c2.name == segs[0]);
                assert forall|a: int|
                    0 <= a < t2.children.len() implies #[trigger] spec_node_wf(
                    t2.children[a],
                ) by {
                    if a < tree.children.len() {
                        assert(spec_node_wf(tree.children[a]));
                    }
                }
            },
        }
    }
}

} // verus!
