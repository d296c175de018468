//! The data model: external resources, sub-resources, parameters, connections
//! and the node tree, each with a mathematical mirror type (`Spec...`) whose
//! fields are sequences. Contracts throughout the crate speak of the mirrors.
//!
//! A node's children are held in insertion order in a `Vec`, keyed by the
//! child's name: the well-formedness predicate `spec_node_wf` states that the
//! names of the children of any node are pairwise distinct, which insertion
//! (`add_child`) establishes by inserting a node only where its name is absent.

use vstd::prelude::*;
use crate::bytes::bytes_eq;

verus! {

broadcast use vstd::std_specs::vec::group_vec_axioms;

/// A declared reference to content outside the file.
pub struct ExtResource {
    pub path: Vec<u8>,
    pub kind: Vec<u8>,
    pub id: Vec<u8>,
    pub uid: Vec<u8>,
}

/// Mathematical mirror of [`ExtResource`].
pub struct SpecExtResource {
    pub path: Seq<u8>,
    pub kind: Seq<u8>,
    pub id: Seq<u8>,
    pub uid: Seq<u8>,
}

pub open spec fn ext_view(r: ExtResource) -> SpecExtResource {
    SpecExtResource { path: r.path@, kind: r.kind@, id: r.id@, uid: r.uid@ }
}

/// A flat key/value pair of a sub-resource's parameter list.
pub struct Parameter {
    pub key: Vec<u8>,
    pub val: Vec<u8>,
}

/// Mathematical mirror of [`Parameter`].
pub struct SpecParameter {
    pub key: Seq<u8>,
    pub val: Seq<u8>,
}

pub open spec fn param_view(p: Parameter) -> SpecParameter {
    SpecParameter { key: p.key@, val: p.val@ }
}

pub open spec fn params_view(ps: Seq<Parameter>) -> Seq<SpecParameter> {
    ps.map_values(|p: Parameter| param_view(p))
}

/// An inline resource defined by a typed block with its own parameter list.
pub struct SubResource {
    pub kind: Vec<u8>,
    pub id: Vec<u8>,
    pub parameters: Vec<Parameter>,
}

/// Mathematical mirror of [`SubResource`].
pub struct SpecSubResource {
    pub kind: Seq<u8>,
    pub id: Seq<u8>,
    pub parameters: Seq<SpecParameter>,
}

pub open spec fn sub_view(r: SubResource) -> SpecSubResource {
    SpecSubResource { kind: r.kind@, id: r.id@, parameters: params_view(r.parameters@) }
}

/// A key/value pair attached to a node, with the value already resolved
/// through the resource tables, plus the sub-parameters inlined from a
/// referenced sub-resource.
pub struct NodeParameter {
    pub key: Vec<u8>,
    pub val: Vec<u8>,
    pub sub_params: Vec<Parameter>,
}

/// Mathematical mirror of [`NodeParameter`].
pub struct SpecNodeParameter {
    pub key: Seq<u8>,
    pub val: Seq<u8>,
    pub sub_params: Seq<SpecParameter>,
}

pub open spec fn nparam_view(p: NodeParameter) -> SpecNodeParameter {
    SpecNodeParameter { key: p.key@, val: p.val@, sub_params: params_view(p.sub_params@) }
}

pub open spec fn nparams_view(ps: Seq<NodeParameter>) -> Seq<SpecNodeParameter> {
    ps.map_values(|p: NodeParameter| nparam_view(p))
}

/// A declared signal-to-method wiring between two nodes.
pub struct Connection {
    pub signal: Vec<u8>,
    pub from: Vec<u8>,
    pub to: Vec<u8>,
    pub method: Vec<u8>,
}

/// Mathematical mirror of [`Connection`].
pub struct SpecConnection {
    pub signal: Seq<u8>,
    pub from: Seq<u8>,
    pub to: Seq<u8>,
    pub method: Seq<u8>,
}

pub open spec fn conn_view(c: Connection) -> SpecConnection {
    SpecConnection { signal: c.signal@, from: c.from@, to: c.to@, method: c.method@ }
}

pub open spec fn conns_view(cs: Seq<Connection>) -> Seq<SpecConnection> {
    cs.map_values(|c: Connection| conn_view(c))
}

/// A node of the scene tree. `declared` distinguishes nodes that come from a
/// declaration line from structural placeholders synthesized for missing
/// intermediate ancestors in a parent path.
pub struct Node {
    pub name: Vec<u8>,
    pub kind: Vec<u8>,
    pub parent: Vec<u8>,
    pub index: i32,
    pub instance: Option<ExtResource>,
    pub parameters: Vec<NodeParameter>,
    pub children: Vec<Node>,
    pub connections: Vec<Connection>,
    pub declared: bool,
}

/// Mathematical mirror of [`Node`].
pub struct SpecNode {
    pub name: Seq<u8>,
    pub kind: Seq<u8>,
    pub parent: Seq<u8>,
    pub index: int,
    pub instance: Option<SpecExtResource>,
    pub parameters: Seq<SpecNodeParameter>,
    pub children: Seq<SpecNode>,
    pub connections: Seq<SpecConnection>,
    pub declared: bool,
}

pub open spec fn node_view(n: Node) -> SpecNode
    decreases n,
{
    SpecNode {
        name: n.name@,
        kind: n.kind@,
        parent: n.parent@,
        index: n.index as int,
        instance: match n.instance {
            Some(r) => Some(ext_view(r)),
            None => None,
        },
        parameters: nparams_view(n.parameters@),
        children: children_view(n.children@),
        connections: conns_view(n.connections@),
        declared: n.declared,
    }
}

pub open spec fn children_view(cs: Seq<Node>) -> Seq<SpecNode>
    decreases cs,
{
    if cs.len() == 0 {
        Seq::empty()
    } else {
        seq![node_view(cs[0])] + children_view(cs.drop_first())
    }
}

/// `children_view` maps `node_view` over the sequence, element by element.
pub proof fn lemma_children_view(cs: Seq<Node>)
    ensures
        children_view(cs).len() == cs.len(),
        forall|i: int| 0 <= i < cs.len() ==> children_view(cs)[i] == node_view(cs[i]),
        forall|i: int| 0 <= i < cs.len() ==> children_view(cs)[i] == node_view(#[trigger] cs[i]),
    decreases cs,
{
    if cs.len() > 0 {
        lemma_children_view(cs.drop_first());
    }
}

/// Appending a node appends its view.
pub proof fn lemma_children_view_push(cs: Seq<Node>, n: Node)
    ensures
        children_view(cs.push(n)) == children_view(cs).push(node_view(n)),
{
    lemma_children_view(cs);
    lemma_children_view(cs.push(n));
    assert(children_view(cs.push(n)) =~= children_view(cs).push(node_view(n)));
}

/// Replacing a node replaces its view.
pub proof fn lemma_children_view_update(cs: Seq<Node>, i: int, n: Node)
    requires
        0 <= i < cs.len(),
    ensures
        children_view(cs.update(i, n)) == children_view(cs).update(i, node_view(n)),
{
    lemma_children_view(cs);
    lemma_children_view(cs.update(i, n));
    assert(children_view(cs.update(i, n)) =~= children_view(cs).update(i, node_view(n)));
}

/// Well-formedness of a tree: among the children of every node, names are
/// pairwise distinct (the children are an ordered mapping keyed by name).
pub open spec fn spec_node_wf(n: SpecNode) -> bool
    decreases n,
{
    &&& (forall|i: int, j: int|
        0 <= i < j < n.children.len() ==> n.children[i].name != n.children[j].name)
    &&& (forall|i: int|
        0 <= i < n.children.len() ==> spec_node_wf(#[trigger] n.children[i]))
}

/// The first position among `cs`, at or after `i`, of a node named `name`.
pub open spec fn child_index_from(cs: Seq<SpecNode>, name: Seq<u8>, i: int) -> Option<int>
    decreases cs.len() - i,
{
    if !(0 <= i < cs.len()) {
        None
    } else if cs[i].name == name {
        Some(i)
    } else {
        child_index_from(cs, name, i + 1)
    }
}

/// What a found child position means.
pub proof fn lemma_child_index_from_some(cs: Seq<SpecNode>, name: Seq<u8>, i: int, j: int)
    requires
        child_index_from(cs, name, i) == Some(j),
    ensures
        i <= j < cs.len(),
        cs[j].name == name,
        forall|k: int| i <= k < j ==> cs[k].name != name,
    decreases cs.len() - i,
{
    if 0 <= i < cs.len() && cs[i].name != name {
        lemma_child_index_from_some(cs, name, i + 1, j);
    }
}

/// When no child position is found, no node in range carries the name.
pub proof fn lemma_child_index_from_none(cs: Seq<SpecNode>, name: Seq<u8>, i: int)
    requires
        0 <= i,
        child_index_from(cs, name, i) is None,
    ensures
        forall|k: int| i <= k < cs.len() ==> cs[k].name != name,
    decreases cs.len() - i,
{
    if 0 <= i < cs.len() && cs[i].name != name {
        lemma_child_index_from_none(cs, name, i + 1);
    }
}

/// A structural placeholder node synthesized for a path segment that was
/// never separately declared: empty type, parameters and children.
pub open spec fn spec_placeholder(name: Seq<u8>) -> SpecNode {
    SpecNode {
        name: name,
        kind: Seq::empty(),
        parent: Seq::empty(),
        index: -1,
        instance: None,
        parameters: Seq::empty(),
        children: Seq::empty(),
        connections: Seq::empty(),
        declared: false,
    }
}

/// A declaration arriving for a name already held by a placeholder fills the
/// placeholder in: the declaration supplies every field, the children
/// accumulated under the placeholder are kept.
pub open spec fn spec_fill_in(holder: SpecNode, node: SpecNode) -> SpecNode {
    SpecNode { children: holder.children, ..node }
}

/// Insertion of a declared node under the ancestor path `segs`, descending
/// from `tree`. Empty path segments are skipped. Missing intermediate
/// ancestors are synthesized as placeholders, appended in encounter order.
/// At the final position, insertion is keyed by the node's own name: a name
/// already held by a declared node is kept unchanged (the first declaration
/// wins), a placeholder of that name is filled in, and an absent name is
/// appended.
pub open spec fn spec_add_child(tree: SpecNode, segs: Seq<Seq<u8>>, node: SpecNode) -> SpecNode
    decreases segs.len(),
{
    if segs.len() == 0 {
        match child_index_from(tree.children, node.name, 0) {
            Some(i) => {
                if tree.children[i].declared {
                    tree
                } else {
                    SpecNode {
                        children: tree.children.update(i, spec_fill_in(tree.children[i], node)),
                        ..tree
                    }
                }
            },
            None => SpecNode { children: tree.children.push(node), ..tree },
        }
    } else if segs[0].len() == 0 {
        spec_add_child(tree, segs.drop_first(), node)
    } else {
        match child_index_from(tree.children, segs[0], 0) {
            Some(i) => SpecNode {
                children: tree.children.update(
                    i,
                    spec_add_child(tree.children[i], segs.drop_first(), node),
                ),
                ..tree
            },
            None => SpecNode {
                children: tree.children.push(
                    spec_add_child(spec_placeholder(segs[0]), segs.drop_first(), node),
                ),
                ..tree
            },
        }
    }
}

/// View of a list of path segments.
pub open spec fn segs_view(ps: Seq<Vec<u8>>) -> Seq<Seq<u8>> {
    ps.map_values(|v: Vec<u8>| v@)
}

impl ExtResource {
    /// An external resource from its four declaration fields.
    pub fn new(path: Vec<u8>, kind: Vec<u8>, uid: Vec<u8>, id: Vec<u8>) -> (r: ExtResource)
        ensures
            r.path@ == path@,
            r.kind@ == kind@,
            r.uid@ == uid@,
            r.id@ == id@,
    {
        ExtResource { path, kind, id, uid }
    }
}

impl SubResource {
    /// A sub-resource of the given type, with no parameters yet; the id is
    /// assigned by the declaration that introduces the block.
    pub fn new(kind: Vec<u8>) -> (r: SubResource)
        ensures
            r.kind@ == kind@,
            r.id@ == Seq::<u8>::empty(),
            r.parameters@ == Seq::<Parameter>::empty(),
    {
        SubResource { kind, id: Vec::new(), parameters: Vec::new() }
    }
}

impl Connection {
    /// A connection from its four declaration fields.
    pub fn new(signal: Vec<u8>, from: Vec<u8>, to: Vec<u8>, method: Vec<u8>) -> (r: Connection)
        ensures
            r.signal@ == signal@,
            r.from@ == from@,
            r.to@ == to@,
            r.method@ == method@,
    {
        Connection { signal, from, to, method }
    }
}

impl Node {
    /// A fresh node of the given name with the declaration defaults: empty
    /// type and parent, sibling index -1, nothing bound, no children. The
    /// caller marks it declared when it comes from a declaration line.
    pub fn new(name: Vec<u8>) -> (r: Node)
        ensures
            node_view(r) == spec_fill_in(spec_placeholder(name@), spec_placeholder(name@)),
            node_view(r) == spec_placeholder(name@),
    {
        let r = Node {
            name,
            kind: Vec::new(),
            parent: Vec::new(),
            index: -1,
            instance: None,
            parameters: Vec::new(),
            children: Vec::new(),
            connections: Vec::new(),
            declared: false,
        };
        proof {
            assert(nparams_view(r.parameters@) =~= Seq::<SpecNodeParameter>::empty());
            assert(children_view(r.children@) =~= Seq::<SpecNode>::empty());
            assert(conns_view(r.connections@) =~= Seq::<SpecConnection>::empty());
        }
        r
    }

    /// The position of the child named `name`, if one exists.
    pub fn find_child(&self, name: &[u8]) -> (r: Option<usize>)
        ensures
            match r {
                Some(i) => Some(i as int) == child_index_from(
                    node_view(*self).children,
                    name@,
                    0,
                ),
                None => child_index_from(node_view(*self).children, name@, 0) is None,
            },
    {
        proof {
            lemma_children_view(self.children@);
        }
        let ghost cs = node_view(*self).children;
        let mut i: usize = 0;
        loop
            invariant
                0 <= i,
                cs == node_view(*self).children,
                cs.len() == self.children@.len(),
                forall|k: int| 0 <= k < cs.len() ==> cs[k] == node_view(self.children@[k]),
                child_index_from(cs, name@, 0) == child_index_from(cs, name@, i as int),
            decreases self.children@.len() + 1 - i,
        {
            if i >= self.children.len() {
                return None;
            }
            if bytes_eq(self.children[i].name.as_slice(), name) {
                return Some(i);
            }
            i = i + 1;
        }
    }

    /// Insert `node` under the ancestor path `parents`, as
    /// [`spec_add_child`] describes.
    pub fn add_child(&mut self, node: Node, parents: Vec<Vec<u8>>)
        ensures
            node_view(*final(self)) == spec_add_child(node_view(*old(self)), segs_view(parents@), node_view(node)),
        decreases parents@.len(),
    {
        let ghost tree0 = node_view(*old(self));
        let ghost segs = segs_view(parents@);
        if parents.len() > 0 {
            let mut parents = parents;
            let seg = parents.remove(0);
            proof {
                assert(segs_view(parents@) =~= segs.drop_first());
            }
            if seg.len() == 0 {
                self.add_child(node, parents);
                return ;
            }
            match self.find_child(seg.as_slice()) {
                Some(i) => {
                    proof {
                        lemma_child_index_from_some(tree0.children, seg@, 0, i as int);
                        lemma_children_view(self.children@);
                    }
                    let mut c = self.children.remove(i);
                    c.add_child(node, parents);
                    self.children.insert(i, c);
                    proof {
                        assert(self.children@ =~= old(self).children@.update(i as int, c));
                        lemma_children_view_update(old(self).children@, i as int, c);
                    }
                },
                None => {
                    let mut c = Node::new(seg);
                    c.add_child(node, parents);
                    self.children.push(c);
                    proof {
                        lemma_children_view_push(old(self).children@, c);
                    }
                },
            }
        } else {
            proof {
                assert(segs =~= Seq::<Seq<u8>>::empty());
            }
            match self.find_child(node.name.as_slice()) {
                Some(i) => {
                    proof {
                        lemma_child_index_from_some(tree0.children, node.name@, 0, i as int);
                        lemma_children_view(self.children@);
                    }
                    if !self.children[i].declared {
                        let holder = self.children.remove(i);
                        let mut filled = node;
                        filled.children = holder.children;
                        self.children.insert(i, filled);
                        proof {
                            assert(self.children@ =~= old(self).children@.update(
                                i as int,
                                filled,
                            ));
                            lemma_children_view_update(old(self).children@, i as int, filled);
                        }
                    }
                },
                None => {
                    self.children.push(node);
                    proof {
                        lemma_children_view_push(old(self).children@, node);
                    }
                },
            }
        }
    }
}

} // verus!
