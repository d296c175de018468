//! The parsing state: the two id-keyed resource tables, the pending
//! connection list, the flat node list, the current sub-resource cursor, and
//! the routing mode for bare assignment lines. One `consume_line` call folds
//! one line of the file into the state; `parse_scene` folds a whole file.
//!
//! Routing of bare `key = value` lines is a one-way switch: until the first
//! node declaration they extend the most recently declared sub-resource, from
//! the first node declaration on they extend the most recently declared node,
//! with the value resolved eagerly through the resource tables.

use vstd::prelude::*;
use crate::bytes::{DOT, append_bytes, bytes_eq, copy_range};
use crate::model::{
    ExtResource,
    SpecExtResource,
    SubResource,
    SpecSubResource,
    Parameter,
    SpecParameter,
    NodeParameter,
    SpecNodeParameter,
    Connection,
    SpecConnection,
    Node,
    SpecNode,
    ext_view,
    sub_view,
    param_view,
    params_view,
    nparam_view,
    nparams_view,
    conn_view,
    conns_view,
    node_view,
    children_view,
    lemma_children_view,
    lemma_children_view_push,
    lemma_children_view_update,
};
use crate::pattern::{PatId, pat, mk_pat};
use crate::scan::{Directive, LineKind, classify, spec_classify, has_prefix};
use crate::scan::{paren_ref_last_down, paren_ref_last};
use crate::bytes::ClassId;

verus! {

broadcast use vstd::std_specs::vec::group_vec_axioms;

/// Where a bare assignment line is routed: to the most recent sub-resource
/// before any node has been declared, to the most recent node afterwards.
#[derive(Clone, Copy, PartialEq, Eq, Structural)]
pub enum ParseMode {
    /// No node declared yet: assignments extend the current sub-resource.
    SubResources,
    /// At least one node declared: assignments extend the latest node.
    Nodes,
}

/// The state accumulated while scanning the file line by line.
pub struct ParserState {
    pub ext_resources: Vec<ExtResource>,
    pub sub_resources: Vec<SubResource>,
    pub connections: Vec<Connection>,
    pub nodes: Vec<Node>,
    pub last_sub_id: Vec<u8>,
    pub mode: ParseMode,
}

/// Mathematical mirror of [`ParserState`].
pub struct SpecState {
    pub exts: Seq<SpecExtResource>,
    pub subs: Seq<SpecSubResource>,
    pub conns: Seq<SpecConnection>,
    pub nodes: Seq<SpecNode>,
    pub last_sub_id: Seq<u8>,
    pub mode: ParseMode,
}

pub open spec fn exts_view(rs: Seq<ExtResource>) -> Seq<SpecExtResource> {
    rs.map_values(|r: ExtResource| ext_view(r))
}

pub open spec fn subs_view(rs: Seq<SubResource>) -> Seq<SpecSubResource> {
    rs.map_values(|r: SubResource| sub_view(r))
}

pub open spec fn state_view(st: ParserState) -> SpecState {
    SpecState {
        exts: exts_view(st.ext_resources@),
        subs: subs_view(st.sub_resources@),
        conns: conns_view(st.connections@),
        nodes: children_view(st.nodes@),
        last_sub_id: st.last_sub_id@,
        mode: st.mode,
    }
}

/// The state the scan starts from: empty tables, empty cursor, assignments
/// routed to sub-resources.
pub open spec fn spec_init_state() -> SpecState {
    SpecState {
        exts: Seq::empty(),
        subs: Seq::empty(),
        conns: Seq::empty(),
        nodes: Seq::empty(),
        last_sub_id: Seq::empty(),
        mode: ParseMode::SubResources,
    }
}

/// The state is internally consistent: the routing mode says whether any
/// node has been declared.
pub open spec fn state_wf(st: SpecState) -> bool {
    (st.mode == ParseMode::Nodes) == (st.nodes.len() > 0)
}

/// The first position among the external resources, at or after `i`, whose
/// id is `id`.
pub open spec fn ext_index_from(rs: Seq<SpecExtResource>, id: Seq<u8>, i: int) -> Option<int>
    decreases rs.len() - i,
{
    if !(0 <= i < rs.len()) {
        None
    } else if rs[i].id == id {
        Some(i)
    } else {
        ext_index_from(rs, id, i + 1)
    }
}

/// The first position among the sub-resources, at or after `i`, whose id is
/// `id`.
pub open spec fn sub_index_from(rs: Seq<SpecSubResource>, id: Seq<u8>, i: int) -> Option<int>
    decreases rs.len() - i,
{
    if !(0 <= i < rs.len()) {
        None
    } else if rs[i].id == id {
        Some(i)
    } else {
        sub_index_from(rs, id, i + 1)
    }
}

/// The external resource declared under `id`, if any.
pub open spec fn lookup_ext(rs: Seq<SpecExtResource>, id: Seq<u8>) -> Option<SpecExtResource> {
    match ext_index_from(rs, id, 0) {
        Some(i) => Some(rs[i]),
        None => None,
    }
}

/// The sub-resource declared under `id`, if any.
pub open spec fn lookup_sub(rs: Seq<SpecSubResource>, id: Seq<u8>) -> Option<SpecSubResource> {
    match sub_index_from(rs, id, 0) {
        Some(i) => Some(rs[i]),
        None => None,
    }
}

/// Insertion keyed by id: a resource whose id is already present replaces
/// the entry in place, a new id is appended.
pub open spec fn spec_insert_ext(rs: Seq<SpecExtResource>, r: SpecExtResource) -> Seq<
    SpecExtResource,
> {
    match ext_index_from(rs, r.id, 0) {
        Some(i) => rs.update(i, r),
        None => rs.push(r),
    }
}

/// Insertion of a sub-resource, keyed by id like [`spec_insert_ext`].
pub open spec fn spec_insert_sub(rs: Seq<SpecSubResource>, r: SpecSubResource) -> Seq<
    SpecSubResource,
> {
    match sub_index_from(rs, r.id, 0) {
        Some(i) => rs.update(i, r),
        None => rs.push(r),
    }
}

/// Append a parameter to the sub-resource declared under `id`; when no
/// sub-resource carries that id the table is unchanged.
pub open spec fn spec_sub_append(rs: Seq<SpecSubResource>, id: Seq<u8>, p: SpecParameter) -> Seq<
    SpecSubResource,
> {
    match sub_index_from(rs, id, 0) {
        Some(i) => rs.update(
            i,
            SpecSubResource { parameters: rs[i].parameters.push(p), ..rs[i] },
        ),
        None => rs,
    }
}

/// The display form of a resolved external-resource reference: the
/// resource's type tag in parentheses, a space, and its path.
pub open spec fn ext_display(r: SpecExtResource) -> Seq<u8> {
    pat(PatId::LParen) + r.kind + pat(PatId::RParenSp) + r.path
}

/// The display form of a resolved sub-resource reference: the resource's
/// type tag in parentheses.
pub open spec fn sub_display(r: SpecSubResource) -> Seq<u8> {
    pat(PatId::LParen) + r.kind + pat(PatId::RParen)
}

/// Resolution of a node-parameter value through the resource tables: a value
/// opening with the external-resource reference word is replaced by the
/// referenced resource's display form (the rightmost parenthesized id in the
/// value names the resource); one opening with the sub-resource reference
/// word is replaced by that resource's display form and carries the
/// resource's parameter list as nested sub-parameters; any other value is
/// kept verbatim. An id that is absent from its table resolves to the empty
/// value.
pub open spec fn spec_resolve(
    val: Seq<u8>,
    exts: Seq<SpecExtResource>,
    subs: Seq<SpecSubResource>,
) -> (Seq<u8>, Seq<SpecParameter>) {
    if has_prefix(val, pat(PatId::ExtWord)) {
        (
            match paren_ref_last_down(val, pat(PatId::ExtParen), ClassId::IdChar, val.len() - 1) {
                Some(id) => match lookup_ext(exts, id) {
                    Some(r) => ext_display(r),
                    None => Seq::empty(),
                },
                None => Seq::empty(),
            },
            Seq::empty(),
        )
    } else if has_prefix(val, pat(PatId::SubWord)) {
        match paren_ref_last_down(val, pat(PatId::SubParen), ClassId::IdChar, val.len() - 1) {
            Some(id) => match lookup_sub(subs, id) {
                Some(r) => (sub_display(r), r.parameters),
                None => (Seq::empty(), Seq::empty()),
            },
            None => (Seq::empty(), Seq::empty()),
        }
    } else {
        (val, Seq::empty())
    }
}

/// One line folded into the state. An external-resource declaration inserts
/// into its table; a sub-resource declaration inserts an empty-parameter
/// entry and sets the cursor; a node declaration appends a node (binding the
/// instanced resource by id, absent ids fail closed to no instance) and
/// switches the routing mode; an assignment extends the cursor's
/// sub-resource or the latest node according to the mode, resolving node
/// values through the tables; a connection is appended to the pending pool,
/// a `.` target rewritten to the first declared node's name (kept verbatim
/// when no node is declared yet); any other line leaves the state unchanged.
pub open spec fn spec_consume(st: SpecState, line: Seq<u8>) -> SpecState {
    match spec_classify(line) {
        LineKind::Ext { res } => SpecState { exts: spec_insert_ext(st.exts, res), ..st },
        LineKind::Sub { kind, id } => SpecState {
            subs: spec_insert_sub(
                st.subs,
                SpecSubResource { kind: kind, id: id, parameters: Seq::empty() },
            ),
            last_sub_id: id,
            ..st
        },
        LineKind::NodeDecl { name, kind, parent, index, instance } => SpecState {
            nodes: st.nodes.push(
                SpecNode {
                    name: name,
                    kind: kind,
                    parent: parent,
                    index: index,
                    instance: match instance {
                        Some(iid) => lookup_ext(st.exts, iid),
                        None => None,
                    },
                    parameters: Seq::empty(),
                    children: Seq::empty(),
                    connections: Seq::empty(),
                    declared: true,
                },
            ),
            mode: ParseMode::Nodes,
            ..st
        },
        LineKind::Assign { key, val } => match st.mode {
            ParseMode::SubResources => SpecState {
                subs: spec_sub_append(st.subs, st.last_sub_id, SpecParameter { key, val }),
                ..st
            },
            ParseMode::Nodes => {
                if st.nodes.len() > 0 {
                    let (v, sp) = spec_resolve(val, st.exts, st.subs);
                    let last = st.nodes[st.nodes.len() - 1];
                    SpecState {
                        nodes: st.nodes.update(
                            st.nodes.len() - 1,
                            SpecNode {
                                parameters: last.parameters.push(
                                    SpecNodeParameter { key: key, val: v, sub_params: sp },
                                ),
                                ..last
                            },
                        ),
                        ..st
                    }
                } else {
                    st
                }
            },
        },
        LineKind::Conn { signal, from, to, method } => SpecState {
            conns: st.conns.push(
                SpecConnection {
                    signal: signal,
                    from: from,
                    to: if to == seq![DOT] && st.nodes.len() > 0 {
                        st.nodes[0].name
                    } else {
                        to
                    },
                    method: method,
                },
            ),
            ..st
        },
        LineKind::Other => st,
    }
}

/// The lines from position `i` on, folded left over `spec_consume`.
pub open spec fn spec_parse_lines(lines: Seq<Seq<u8>>, i: int, st: SpecState) -> SpecState
    decreases lines.len() - i,
{
    if !(0 <= i < lines.len()) {
        st
    } else {
        spec_parse_lines(lines, i + 1, spec_consume(st, lines[i]))
    }
}

/// View of a list of lines.
pub open spec fn lines_view(ls: Seq<Vec<u8>>) -> Seq<Seq<u8>> {
    ls.map_values(|v: Vec<u8>| v@)
}

/// Copy of a byte buffer.
pub fn copy_bytes(s: &[u8]) -> (r: Vec<u8>)
    ensures
        r@ == s@,
{
    let r = copy_range(s, 0, s.len());
    proof {
        assert(s@.subrange(0, s@.len() as int) =~= s@);
    }
    r
}

/// Copy of a parameter list.
pub fn dup_params(ps: &Vec<Parameter>) -> (r: Vec<Parameter>)
    ensures
        params_view(r@) == params_view(ps@),
{
    let mut r: Vec<Parameter> = Vec::new();
    let mut i: usize = 0;
    while i < ps.len()
        invariant
            0 <= i <= ps@.len(),
            r@.len() == i,
            forall|k: int| 0 <= k < i ==> param_view(#[trigger] r@[k]) == param_view(ps@[k]),
        decreases ps@.len() - i,
    {
        let p = Parameter {
            key: copy_bytes(ps[i].key.as_slice()),
            val: copy_bytes(ps[i].val.as_slice()),
        };
        r.push(p);
        i = i + 1;
    }
    proof {
        assert(params_view(r@) =~= params_view(ps@));
    }
    r
}

/// The position of the external resource declared under `id`, if any.
pub fn find_ext_index(rs: &Vec<ExtResource>, id: &[u8]) -> (r: Option<usize>)
    ensures
        match r {
            Some(i) => Some(i as int) == ext_index_from(exts_view(rs@), id@, 0) && i < rs@.len(),
            None => ext_index_from(exts_view(rs@), id@, 0) is None,
        },
{
    let ghost g = exts_view(rs@);
    let mut i: usize = 0;
    loop
        invariant
            0 <= i,
            g == exts_view(rs@),
            g.len() == rs@.len(),
            forall|k: int| 0 <= k < rs@.len() ==> g[k] == ext_view(rs@[k]),
            ext_index_from(g, id@, 0) == ext_index_from(g, id@, i as int),
        decreases rs@.len() + 1 - i,
    {
        if i >= rs.len() {
            return None;
        }
        if bytes_eq(rs[i].id.as_slice(), id) {
            return Some(i);
        }
        i = i + 1;
    }
}

/// The position of the sub-resource declared under `id`, if any.
pub fn find_sub_index(rs: &Vec<SubResource>, id: &[u8]) -> (r: Option<usize>)
    ensures
        match r {
            Some(i) => Some(i as int) == sub_index_from(subs_view(rs@), id@, 0) && i < rs@.len(),
            None => sub_index_from(subs_view(rs@), id@, 0) is None,
        },
{
    let ghost g = subs_view(rs@);
    let mut i: usize = 0;
    loop
        invariant
            0 <= i,
            g == subs_view(rs@),
            g.len() == rs@.len(),
            forall|k: int| 0 <= k < rs@.len() ==> g[k] == sub_view(rs@[k]),
            sub_index_from(g, id@, 0) == sub_index_from(g, id@, i as int),
        decreases rs@.len() + 1 - i,
    {
        if i >= rs.len() {
            return None;
        }
        if bytes_eq(rs[i].id.as_slice(), id) {
            return Some(i);
        }
        i = i + 1;
    }
}

/// The external resource declared under `id`, if any.
pub fn find_ext<'a>(rs: &'a Vec<ExtResource>, id: &[u8]) -> (r: Option<&'a ExtResource>)
    ensures
        match r {
            Some(x) => lookup_ext(exts_view(rs@), id@) == Some(ext_view(*x)),
            None => lookup_ext(exts_view(rs@), id@) is None,
        },
{
    let ghost g = exts_view(rs@);
    let mut i: usize = 0;
    loop
        invariant
            0 <= i,
            g == exts_view(rs@),
            g.len() == rs@.len(),
            forall|k: int| 0 <= k < rs@.len() ==> g[k] == ext_view(rs@[k]),
            ext_index_from(g, id@, 0) == ext_index_from(g, id@, i as int),
        decreases rs@.len() + 1 - i,
    {
        if i >= rs.len() {
            return None;
        }
        if bytes_eq(rs[i].id.as_slice(), id) {
            return Some(&rs[i]);
        }
        i = i + 1;
    }
}

/// The sub-resource declared under `id`, if any.
pub fn find_sub<'a>(rs: &'a Vec<SubResource>, id: &[u8]) -> (r: Option<&'a SubResource>)
    ensures
        match r {
            Some(x) => lookup_sub(subs_view(rs@), id@) == Some(sub_view(*x)),
            None => lookup_sub(subs_view(rs@), id@) is None,
        },
{
    let ghost g = subs_view(rs@);
    let mut i: usize = 0;
    loop
        invariant
            0 <= i,
            g == subs_view(rs@),
            g.len() == rs@.len(),
            forall|k: int| 0 <= k < rs@.len() ==> g[k] == sub_view(rs@[k]),
            sub_index_from(g, id@, 0) == sub_index_from(g, id@, i as int),
        decreases rs@.len() + 1 - i,
    {
        if i >= rs.len() {
            return None;
        }
        if bytes_eq(rs[i].id.as_slice(), id) {
            return Some(&rs[i]);
        }
        i = i + 1;
    }
}

/// Resolve a node-parameter value through the resource tables, as
/// [`spec_resolve`] describes.
pub fn resolve_value(val: &[u8], exts: &Vec<ExtResource>, subs: &Vec<SubResource>) -> (r: (
    Vec<u8>,
    Vec<Parameter>,
))
    ensures
        (r.0@, params_view(r.1@)) == spec_resolve(val@, exts_view(exts@), subs_view(subs@)),
{
    let ext_word = mk_pat(PatId::ExtWord);
    let sub_word = mk_pat(PatId::SubWord);
    if crate::bytes::occurs_check(val, ext_word.as_slice(), 0) {
        let ext_paren = mk_pat(PatId::ExtParen);
        match paren_ref_last(val, ext_paren.as_slice(), ClassId::IdChar) {
            Some(id) => match find_ext(exts, id.as_slice()) {
                Some(res) => {
                    let mut out: Vec<u8> = Vec::new();
                    let lp = mk_pat(PatId::LParen);
                    let rp_sp = mk_pat(PatId::RParenSp);
                    append_bytes(&mut out, lp.as_slice());
                    append_bytes(&mut out, res.kind.as_slice());
                    append_bytes(&mut out, rp_sp.as_slice());
                    append_bytes(&mut out, res.path.as_slice());
                    proof {
                        assert(params_view(Seq::<Parameter>::empty()) =~= Seq::<
                            SpecParameter,
                        >::empty());
                    }
                    (out, Vec::new())
                },
                None => {
                    proof {
                        assert(params_view(Seq::<Parameter>::empty()) =~= Seq::<
                            SpecParameter,
                        >::empty());
                    }
                    (Vec::new(), Vec::new())
                },
            },
            None => {
                proof {
                    assert(params_view(Seq::<Parameter>::empty()) =~= Seq::<
                        SpecParameter,
                    >::empty());
                }
                (Vec::new(), Vec::new())
            },
        }
    } else if crate::bytes::occurs_check(val, sub_word.as_slice(), 0) {
        let sub_paren = mk_pat(PatId::SubParen);
        match paren_ref_last(val, sub_paren.as_slice(), ClassId::IdChar) {
            Some(id) => match find_sub(subs, id.as_slice()) {
                Some(res) => {
                    let mut out: Vec<u8> = Vec::new();
                    let lp = mk_pat(PatId::LParen);
                    let rp = mk_pat(PatId::RParen);
                    append_bytes(&mut out, lp.as_slice());
                    append_bytes(&mut out, res.kind.as_slice());
                    append_bytes(&mut out, rp.as_slice());
                    let sp = dup_params(&res.parameters);
                    (out, sp)
                },
                None => {
                    proof {
                        assert(params_view(Seq::<Parameter>::empty()) =~= Seq::<
                            SpecParameter,
                        >::empty());
                    }
                    (Vec::new(), Vec::new())
                },
            },
            None => {
                proof {
                    assert(params_view(Seq::<Parameter>::empty()) =~= Seq::<
                        SpecParameter,
                    >::empty());
                }
                (Vec::new(), Vec::new())
            },
        }
    } else {
        proof {
            assert(params_view(Seq::<Parameter>::empty()) =~= Seq::<SpecParameter>::empty());
        }
        (copy_bytes(val), Vec::new())
    }
}

impl ParserState {
    /// The empty state the scan starts from.
    pub fn init() -> (st: ParserState)
        ensures
            state_view(st) == spec_init_state(),
            state_wf(state_view(st)),
    {
        let st = ParserState {
            ext_resources: Vec::new(),
            sub_resources: Vec::new(),
            connections: Vec::new(),
            nodes: Vec::new(),
            last_sub_id: Vec::new(),
            mode: ParseMode::SubResources,
        };
        proof {
            assert(exts_view(st.ext_resources@) =~= Seq::<SpecExtResource>::empty());
            assert(subs_view(st.sub_resources@) =~= Seq::<SpecSubResource>::empty());
            assert(conns_view(st.connections@) =~= Seq::<SpecConnection>::empty());
            assert(children_view(st.nodes@) =~= Seq::<SpecNode>::empty());
        }
        st
    }

    /// Fold one line of the file into the state, as [`spec_consume`]
    /// describes; the routing-mode consistency of the state is preserved.
    pub fn consume_line(&mut self, line: &[u8])
        requires
            state_wf(state_view(*old(self))),
        ensures
            state_view(*final(self)) == spec_consume(state_view(*old(self)), line@),
            state_wf(state_view(*final(self))),
    {
        let ghost st0 = state_view(*old(self));
        match classify(line) {
            Directive::Ext { res } => {
                let ghost g = exts_view(self.ext_resources@);
                match find_ext_index(&self.ext_resources, res.id.as_slice()) {
                    Some(i) => {
                        self.ext_resources.remove(i);
                        self.ext_resources.insert(i, res);
                        proof {
                            assert(self.ext_resources@ =~= old(self).ext_resources@.update(
                                i as int,
                                res,
                            ));
                            assert(exts_view(self.ext_resources@) =~= g.update(
                                i as int,
                                ext_view(res),
                            ));
                        }
                    },
                    None => {
                        self.ext_resources.push(res);
                        proof {
                            assert(exts_view(self.ext_resources@) =~= g.push(ext_view(res)));
                        }
                    },
                }
            },
            Directive::Sub { kind, id } => {
                let cursor_id = copy_bytes(id.as_slice());
                let res = SubResource { kind, id, parameters: Vec::new() };
                proof {
                    assert(params_view(res.parameters@) =~= Seq::<SpecParameter>::empty());
                }
                let ghost g = subs_view(self.sub_resources@);
                match find_sub_index(&self.sub_resources, res.id.as_slice()) {
                    Some(i) => {
                        self.sub_resources.remove(i);
                        self.sub_resources.insert(i, res);
                        proof {
                            assert(self.sub_resources@ =~= old(self).sub_resources@.update(
                                i as int,
                                res,
                            ));
                            assert(subs_view(self.sub_resources@) =~= g.update(
                                i as int,
                                sub_view(res),
                            ));
                        }
                    },
                    None => {
                        self.sub_resources.push(res);
                        proof {
                            assert(subs_view(self.sub_resources@) =~= g.push(sub_view(res)));
                        }
                    },
                }
                self.last_sub_id = cursor_id;
            },
            Directive::NodeDecl { name, kind, parent, index, instance } => {
                let instance_res: Option<ExtResource> = match instance {
                    Some(iid) => match find_ext(&self.ext_resources, iid.as_slice()) {
                        Some(res) => Some(
                            ExtResource {
                                path: copy_bytes(res.path.as_slice()),
                                kind: copy_bytes(res.kind.as_slice()),
                                id: copy_bytes(res.id.as_slice()),
                                uid: copy_bytes(res.uid.as_slice()),
                            },
                        ),
                        None => None,
                    },
                    None => None,
                };
                let node = Node {
                    name,
                    kind,
                    parent,
                    index,
                    instance: instance_res,
                    parameters: Vec::new(),
                    children: Vec::new(),
                    connections: Vec::new(),
                    declared: true,
                };
                proof {
                    assert(nparams_view(node.parameters@) =~= Seq::<SpecNodeParameter>::empty());
                    assert(children_view(node.children@) =~= Seq::<SpecNode>::empty());
                    assert(conns_view(node.connections@) =~= Seq::<SpecConnection>::empty());
                }
                self.nodes.push(node);
                self.mode = ParseMode::Nodes;
                proof {
                    lemma_children_view_push(old(self).nodes@, node);
                    lemma_children_view(old(self).nodes@);
                }
            },
            Directive::Assign { key, val } => {
                match self.mode {
                    ParseMode::SubResources => {
                        let p = Parameter { key, val };
                        let ghost g = subs_view(self.sub_resources@);
                        if let Some(i) = find_sub_index(
                            &self.sub_resources,
                            self.last_sub_id.as_slice(),
                        ) {
                            let mut res = self.sub_resources.remove(i);
                            let ghost resv = sub_view(res);
                            res.parameters.push(p);
                            proof {
                                assert(params_view(res.parameters@) =~= resv.parameters.push(
                                    param_view(p),
                                ));
                            }
                            self.sub_resources.insert(i, res);
                            proof {
                                assert(self.sub_resources@ =~= old(self).sub_resources@.update(
                                    i as int,
                                    res,
                                ));
                                assert(subs_view(self.sub_resources@) =~= g.update(
                                    i as int,
                                    sub_view(res),
                                ));
                            }
                        }
                    },
                    ParseMode::Nodes => {
                        let (v, sp) = resolve_value(
                            val.as_slice(),
                            &self.ext_resources,
                            &self.sub_resources,
                        );
                        let np = NodeParameter { key, val: v, sub_params: sp };
                        proof {
                            lemma_children_view(self.nodes@);
                        }
                        let mut nd = match self.nodes.pop() {
                            Some(nd) => nd,
                            None => {
                                proof {
                                    assert(false);
                                }
                                unreached()
                            },
                        };
                        let ghost ndv = node_view(nd);
                        nd.parameters.push(np);
                        proof {
                            assert(nparams_view(nd.parameters@) =~= ndv.parameters.push(
                                nparam_view(np),
                            ));
                        }
                        self.nodes.push(nd);
                        proof {
                            assert(self.nodes@ =~= old(self).nodes@.update(
                                old(self).nodes@.len() - 1,
                                nd,
                            ));
                            lemma_children_view_update(
                                old(self).nodes@,
                                old(self).nodes@.len() - 1,
                                nd,
                            );
                        }
                    },
                }
            },
            Directive::Conn { signal, from, to, method } => {
                let mut dotv: Vec<u8> = Vec::new();
                dotv.push(DOT);
                proof {
                    assert(dotv@ =~= seq![DOT]);
                }
                let to2: Vec<u8> = if bytes_eq(to.as_slice(), dotv.as_slice())
                    && self.nodes.len() > 0 {
                    proof {
                        lemma_children_view(self.nodes@);
                    }
                    copy_bytes(self.nodes[0].name.as_slice())
                } else {
                    to
                };
                let c = Connection { signal, from, to: to2, method };
                let ghost g = conns_view(self.connections@);
                self.connections.push(c);
                proof {
                    assert(conns_view(self.connections@) =~= g.push(conn_view(c)));
                    lemma_children_view(self.nodes@);
                }
            },
            Directive::Other => {},
        }
    }
}

/// Fold a whole file, line by line, into a finished parsing state.
pub fn parse_scene(lines: &Vec<Vec<u8>>) -> (st: ParserState)
    ensures
        state_view(st) == spec_parse_lines(lines_view(lines@), 0, spec_init_state()),
        state_wf(state_view(st)),
{
    let ghost gl = lines_view(lines@);
    let mut st = ParserState::init();
    let mut i: usize = 0;
    while i < lines.len()
        invariant
            0 <= i <= lines@.len(),
            gl == lines_view(lines@),
            gl.len() == lines@.len(),
            forall|k: int| 0 <= k < gl.len() ==> gl[k] == lines@[k]@,
            state_wf(state_view(st)),
            spec_parse_lines(gl, 0, spec_init_state()) == spec_parse_lines(
                gl,
                i as int,
                state_view(st),
            ),
        decreases lines@.len() - i,
    {
        st.consume_line(lines[i].as_slice());
        i = i + 1;
    }
    st
}

} // verus!
