//! The renderer: a depth-first walk that prints, at each node, the bound
//! instance line, the parameter lines (each followed by its nested
//! sub-parameters), the bound connections, and then the children, each
//! preceded by a branch glyph. Among a node's children the last one takes
//! the terminal connector and stops the vertical guide; every other child
//! takes the through connector and extends the guide. Content lines above
//! children take the guide exactly when children remain below them.

use vstd::prelude::*;
use crate::bytes::{SPACE, append_bytes, bytes_eq};
use crate::model::{Node, SpecNode, node_view, lemma_children_view};
use crate::pattern::{PatId, pat, mk_pat};
use crate::state::ext_display;

verus! {

broadcast use vstd::std_specs::vec::group_vec_axioms;

/// A run of `n` spaces (none for a negative count).
pub open spec fn spaces(n: int) -> Seq<u8> {
    Seq::new(
        if n < 0 {
            0
        } else {
            n as nat
        },
        |i: int| SPACE,
    )
}

/// The continuation column printed before a node's own content lines: blank
/// when the node has no children, the vertical guide when children follow.
pub open spec fn content_guide(n: SpecNode) -> Seq<u8> {
    if n.children.len() == 0 {
        pat(PatId::Blank4)
    } else {
        pat(PatId::Guide)
    }
}

/// The display suffix of a child: nothing when the child's type equals its
/// name or is empty, otherwise the type in parentheses.
pub open spec fn kind_suffix(c: SpecNode) -> Seq<u8> {
    if c.name == c.kind || c.kind.len() == 0 {
        Seq::empty()
    } else {
        pat(PatId::SpLParen) + c.kind + pat(PatId::RParen)
    }
}

/// The bound-instance line of a node, printed only for non-root nodes that
/// instance an external resource.
pub open spec fn instance_part(n: SpecNode, prefix: Seq<u8>) -> Seq<u8> {
    match n.instance {
        Some(r) => if n.parent.len() > 0 {
            prefix + content_guide(n) + pat(PatId::Star) + ext_display(r) + pat(PatId::Newline)
        } else {
            Seq::empty()
        },
        None => Seq::empty(),
    }
}

/// One nested sub-parameter line: indented under the parameter key, the last
/// sub-parameter takes the terminal connector.
pub open spec fn sub_line(prefix: Seq<u8>, key: Seq<u8>, subs: Seq<crate::model::SpecParameter>, k: int) -> Seq<u8> {
    prefix + pat(PatId::Blank6) + spaces(key.len() + 2 as int) + (if k == subs.len() - 1 {
        pat(PatId::Ell)
    } else {
        pat(PatId::Tee)
    }) + subs[k].key + pat(PatId::ColonSp) + subs[k].val + pat(PatId::Newline)
}

/// The first `j` sub-parameter lines.
pub open spec fn sub_lines_upto(
    prefix: Seq<u8>,
    key: Seq<u8>,
    subs: Seq<crate::model::SpecParameter>,
    j: int,
) -> Seq<u8>
    decreases j,
{
    if j <= 0 {
        Seq::empty()
    } else {
        sub_lines_upto(prefix, key, subs, j - 1) + sub_line(prefix, key, subs, j - 1)
    }
}

/// One parameter block: the `key: value` line and all its sub-parameters.
pub open spec fn param_block(n: SpecNode, prefix: Seq<u8>, k: int) -> Seq<u8> {
    prefix + content_guide(n) + pat(PatId::Star) + n.parameters[k].key + pat(PatId::ColonSp)
        + n.parameters[k].val + pat(PatId::Newline) + sub_lines_upto(
        prefix,
        n.parameters[k].key,
        n.parameters[k].sub_params,
        n.parameters[k].sub_params.len() as int,
    )
}

/// The first `j` parameter blocks.
pub open spec fn param_blocks_upto(n: SpecNode, prefix: Seq<u8>, j: int) -> Seq<u8>
    decreases j,
{
    if j <= 0 {
        Seq::empty()
    } else {
        param_blocks_upto(n, prefix, j - 1) + param_block(n, prefix, j - 1)
    }
}

/// One bound-connection line.
pub open spec fn conn_line(n: SpecNode, prefix: Seq<u8>, k: int) -> Seq<u8> {
    prefix + content_guide(n) + pat(PatId::ConnLabel) + n.connections[k].from + pat(PatId::Colon)
        + n.connections[k].signal + pat(PatId::ArrowMid) + n.connections[k].to + pat(PatId::Colon)
        + n.connections[k].method + pat(PatId::ParenPair) + pat(PatId::Newline)
}

/// The first `j` connection lines.
pub open spec fn conn_lines_upto(n: SpecNode, prefix: Seq<u8>, j: int) -> Seq<u8>
    decreases j,
{
    if j <= 0 {
        Seq::empty()
    } else {
        conn_lines_upto(n, prefix, j - 1) + conn_line(n, prefix, j - 1)
    }
}

/// The subtree text of a node: instance line, parameter blocks, connection
/// lines, then each child's branch line and subtree.
pub open spec fn spec_walk(n: SpecNode, prefix: Seq<u8>) -> Seq<u8>
    decreases n, 1int, 0int,
{
    instance_part(n, prefix) + param_blocks_upto(n, prefix, n.parameters.len() as int)
        + conn_lines_upto(n, prefix, n.connections.len() as int) + child_blocks_upto(
        n.children,
        prefix,
        n.children.len() as int,
    )
}

/// The first `j` child blocks: each is the child's branch line (terminal
/// connector on the last child, through connector otherwise) followed by
/// the child's subtree with the prefix extended by a blank column (last
/// child) or the vertical guide (otherwise).
pub open spec fn child_blocks_upto(cs: Seq<SpecNode>, prefix: Seq<u8>, j: int) -> Seq<u8>
    decreases cs, 0int, j,
{
    if j <= 0 || j > cs.len() {
        Seq::empty()
    } else {
        let c = cs[j - 1];
        let last = j - 1 == cs.len() - 1;
        child_blocks_upto(cs, prefix, j - 1) + (prefix + (if last {
            pat(PatId::Ell)
        } else {
            pat(PatId::Tee)
        }) + c.name + kind_suffix(c) + pat(PatId::Newline)) + spec_walk(
            c,
            prefix + (if last {
                pat(PatId::Blank4)
            } else {
                pat(PatId::Guide)
            }),
        )
    }
}

/// The whole rendered text: the root's display name, its instanced resource
/// if any, then the root's subtree with an empty prefix.
pub open spec fn spec_render(n: SpecNode) -> Seq<u8> {
    n.name + (match n.instance {
        Some(r) => pat(PatId::SpLParen) + r.kind + pat(PatId::RParenSp) + r.path + pat(
            PatId::Newline,
        ),
        None => pat(PatId::Newline),
    }) + spec_walk(n, Seq::empty())
}

/// Append one fixed pattern.
fn emit_pat(out: &mut Vec<u8>, id: PatId)
    ensures
        final(out)@ == old(out)@ + pat(id),
{
    let p = mk_pat(id);
    append_bytes(out, p.as_slice());
}

/// Append `k + 2` spaces: the indentation that aligns a sub-parameter list
/// under a parameter key of length `k`.
fn emit_pad(out: &mut Vec<u8>, k: usize)
    ensures
        final(out)@ == old(out)@ + spaces(k as int + 2),
{
    let mut j: usize = 0;
    proof {
        assert(out@ =~= old(out)@ + spaces(0));
    }
    while j < k
        invariant
            0 <= j <= k,
            out@ == old(out)@ + spaces(j as int),
        decreases k - j,
    {
        out.push(SPACE);
        proof {
            assert(old(out)@ + spaces(j + 1 as int) =~= (old(out)@ + spaces(j as int)).push(
                SPACE,
            ));
        }
        j = j + 1;
    }
    out.push(SPACE);
    out.push(SPACE);
    proof {
        assert(old(out)@ + spaces(k as int + 2) =~= ((old(out)@ + spaces(k as int)).push(
            SPACE,
        )).push(SPACE));
    }
}

/// Append the subtree text of `node`, as [`spec_walk`] describes.
#[verifier::rlimit(80)]
pub fn walk(node: &Node, prefix: &[u8], out: &mut Vec<u8>)
    ensures
        final(out)@ == old(out)@ + spec_walk(node_view(*node), prefix@),
    decreases *node,
{
    let ghost nv = node_view(*node);
    let ghost base = old(out)@;
    proof {
        lemma_children_view(node.children@);
    }
    let has_children = node.children.len() > 0;
    // (i) the bound external-resource instance line
    if node.parent.len() > 0 {
        match &node.instance {
            Some(res) => {
                append_bytes(out, prefix);
                if has_children {
                    emit_pat(out, PatId::Guide);
                } else {
                    emit_pat(out, PatId::Blank4);
                }
                emit_pat(out, PatId::Star);
                emit_pat(out, PatId::LParen);
                append_bytes(out, res.kind.as_slice());
                emit_pat(out, PatId::RParenSp);
                append_bytes(out, res.path.as_slice());
                emit_pat(out, PatId::Newline);
            },
            None => {},
        }
    }
    proof {
        assert(out@ =~= base + instance_part(nv, prefix@));
    }
    // (ii) the parameter lines, each with its nested sub-parameters
    let ghost base_params = out@;
    let mut i: usize = 0;
    while i < node.parameters.len()
        invariant
            0 <= i <= node.parameters@.len(),
            nv == node_view(*node),
            has_children == (nv.children.len() > 0),
            nv.parameters.len() == node.parameters@.len(),
            out@ == base_params + param_blocks_upto(nv, prefix@, i as int),
        decreases node.parameters@.len() - i,
    {
        let ghost stage = out@;
        append_bytes(out, prefix);
        if has_children {
            emit_pat(out, PatId::Guide);
        } else {
            emit_pat(out, PatId::Blank4);
        }
        emit_pat(out, PatId::Star);
        append_bytes(out, node.parameters[i].key.as_slice());
        emit_pat(out, PatId::ColonSp);
        append_bytes(out, node.parameters[i].val.as_slice());
        emit_pat(out, PatId::Newline);
        proof {
            assert(out@ =~= stage + (prefix@ + content_guide(nv) + pat(PatId::Star)
                + nv.parameters[i as int].key + pat(PatId::ColonSp) + nv.parameters[i as int].val
                + pat(PatId::Newline)));
        }
        let ghost base_subs = out@;
        let mut j: usize = 0;
        while j < node.parameters[i].sub_params.len()
            invariant
                0 <= i < node.parameters@.len(),
                0 <= j <= node.parameters@[i as int].sub_params@.len(),
                nv == node_view(*node),
                nv.parameters.len() == node.parameters@.len(),
                nv.parameters[i as int].sub_params.len()
                    == node.parameters@[i as int].sub_params@.len(),
                out@ == base_subs + sub_lines_upto(
                    prefix@,
                    nv.parameters[i as int].key,
                    nv.parameters[i as int].sub_params,
                    j as int,
                ),
            decreases node.parameters@[i as int].sub_params@.len() - j,
        {
            let ghost sstage = out@;
            append_bytes(out, prefix);
            emit_pat(out, PatId::Blank6);
            emit_pad(out, node.parameters[i].key.len());
            if j == node.parameters[i].sub_params.len() - 1 {
                emit_pat(out, PatId::Ell);
            } else {
                emit_pat(out, PatId::Tee);
            }
            append_bytes(out, node.parameters[i].sub_params[j].key.as_slice());
            emit_pat(out, PatId::ColonSp);
            append_bytes(out, node.parameters[i].sub_params[j].val.as_slice());
            emit_pat(out, PatId::Newline);
            proof {
                assert(out@ =~= sstage + sub_line(
                    prefix@,
                    nv.parameters[i as int].key,
                    nv.parameters[i as int].sub_params,
                    j as int,
                ));
            }
            j = j + 1;
        }
        proof {
            assert(out@ =~= base_params + param_blocks_upto(nv, prefix@, i + 1));
        }
        i = i + 1;
    }
    // (iii) the bound connections
    let ghost base_conns = out@;
    let mut i: usize = 0;
    while i < node.connections.len()
        invariant
            0 <= i <= node.connections@.len(),
            nv == node_view(*node),
            has_children == (nv.children.len() > 0),
            nv.connections.len() == node.connections@.len(),
            out@ == base_conns + conn_lines_upto(nv, prefix@, i as int),
        decreases node.connections@.len() - i,
    {
        let ghost stage = out@;
        append_bytes(out, prefix);
        if has_children {
            emit_pat(out, PatId::Guide);
        } else {
            emit_pat(out, PatId::Blank4);
        }
        emit_pat(out, PatId::ConnLabel);
        append_bytes(out, node.connections[i].from.as_slice());
        emit_pat(out, PatId::Colon);
        append_bytes(out, node.connections[i].signal.as_slice());
        emit_pat(out, PatId::ArrowMid);
        append_bytes(out, node.connections[i].to.as_slice());
        emit_pat(out, PatId::Colon);
        append_bytes(out, node.connections[i].method.as_slice());
        emit_pat(out, PatId::ParenPair);
        emit_pat(out, PatId::Newline);
        proof {
            assert(out@ =~= stage + conn_line(nv, prefix@, i as int));
        }
        i = i + 1;
    }
    // (iv) the children, each with a branch glyph and its subtree
    let ghost base_children = out@;
    let mut i: usize = 0;
    while i < node.children.len()
        invariant
            0 <= i <= node.children@.len(),
            nv == node_view(*node),
            nv.children.len() == node.children@.len(),
            forall|k: int|
                0 <= k < node.children@.len() ==> nv.children[k] == node_view(
                    #[trigger] node.children@[k],
                ),
            out@ == base_children + child_blocks_upto(nv.children, prefix@, i as int),
        decreases node.children@.len() - i,
    {
        let ghost stage = out@;
        let last = i == node.children.len() - 1;
        append_bytes(out, prefix);
        if last {
            emit_pat(out, PatId::Ell);
        } else {
            emit_pat(out, PatId::Tee);
        }
        append_bytes(out, node.children[i].name.as_slice());
        let same = bytes_eq(
            node.children[i].name.as_slice(),
            node.children[i].kind.as_slice(),
        );
        if !(same || node.children[i].kind.len() == 0) {
            emit_pat(out, PatId::SpLParen);
            append_bytes(out, node.children[i].kind.as_slice());
            emit_pat(out, PatId::RParen);
        }
        emit_pat(out, PatId::Newline);
        proof {
            assert(out@ =~= stage + (prefix@ + (if last {
                pat(PatId::Ell)
            } else {
                pat(PatId::Tee)
            }) + nv.children[i as int].name + kind_suffix(nv.children[i as int]) + pat(
                PatId::Newline,
            )));
        }
        let mut np = crate::state::copy_bytes(prefix);
        if last {
            emit_pat(&mut np, PatId::Blank4);
        } else {
            emit_pat(&mut np, PatId::Guide);
        }
        walk(&node.children[i], np.as_slice(), out);
        proof {
            assert(out@ =~= base_children + child_blocks_upto(nv.children, prefix@, i + 1));
        }
        i = i + 1;
    }
    proof {
        assert(out@ =~= base + spec_walk(nv, prefix@));
    }
}

/// Render the whole tree, as [`spec_render`] describes.
pub fn render(root: &Node) -> (out: Vec<u8>)
    ensures
        out@ == spec_render(node_view(*root)),
{
    let mut out: Vec<u8> = Vec::new();
    let ghost nv = node_view(*root);
    append_bytes(&mut out, root.name.as_slice());
    match &root.instance {
        Some(res) => {
            emit_pat(&mut out, PatId::SpLParen);
            append_bytes(&mut out, res.kind.as_slice());
            emit_pat(&mut out, PatId::RParenSp);
            append_bytes(&mut out, res.path.as_slice());
            emit_pat(&mut out, PatId::Newline);
        },
        None => {
            emit_pat(&mut out, PatId::Newline);
        },
    }
    let pfx: Vec<u8> = Vec::new();
    walk(root, pfx.as_slice(), &mut out);
    proof {
        assert(pfx@ =~= Seq::<u8>::empty());
        assert(out@ =~= spec_render(nv));
    }
    out
}

} // verus!
