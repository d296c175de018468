//! Tree assembly: the flat node list of a finished parse is folded, in file
//! order, into a rooted tree. For each node, the pending connections that
//! name it are bound to it and leave the pool (a connection binds at most
//! once, to the first node in file order that matches it — either the
//! connection's origin equals the node's name, or the origin is `.` and the
//! node is the root declaration); then the node is placed: an empty parent
//! path makes it the root (filling in the root slot, keeping any children
//! already accumulated there), a `.` parent makes it a direct child of the
//! root, and any other parent path is split on `/` and descended, missing
//! ancestors synthesized as placeholders.

use vstd::prelude::*;
use crate::bytes::{DOT, SLASH, bytes_eq};
use crate::model::{
    Connection,
    SpecConnection,
    Node,
    SpecNode,
    conn_view,
    conns_view,
    node_view,
    children_view,
    lemma_children_view,
    spec_add_child,
    spec_fill_in,
    spec_placeholder,
    segs_view,
};
use crate::scan::{split_from, pieces_view, split_by};
use crate::state::{ParserState, SpecState, state_view};

verus! {

broadcast use vstd::std_specs::vec::group_vec_axioms;

/// A pending connection names this node: its origin is the node's name, or
/// its origin is `.` and the node is the root declaration (empty parent).
pub open spec fn conn_matches(c: SpecConnection, n: SpecNode) -> bool {
    c.from == n.name || (c.from == seq![DOT] && n.parent.len() == 0)
}

/// The pending connections that bind to `n`, in pool order.
pub open spec fn conns_for(pool: Seq<SpecConnection>, n: SpecNode) -> Seq<SpecConnection>
    decreases pool.len(),
{
    if pool.len() == 0 {
        Seq::empty()
    } else {
        (if conn_matches(pool[0], n) {
            seq![pool[0]]
        } else {
            Seq::empty()
        }) + conns_for(pool.drop_first(), n)
    }
}

/// The pending connections that remain in the pool after `n` took its own.
pub open spec fn conns_rest(pool: Seq<SpecConnection>, n: SpecNode) -> Seq<SpecConnection>
    decreases pool.len(),
{
    if pool.len() == 0 {
        Seq::empty()
    } else {
        (if conn_matches(pool[0], n) {
            Seq::empty()
        } else {
            seq![pool[0]]
        }) + conns_rest(pool.drop_first(), n)
    }
}

/// The ancestor path of a declared parent attribute: `.` denotes a direct
/// child of the root (no ancestors), anything else is split on `/`.
pub open spec fn parent_segs(parent: Seq<u8>) -> Seq<Seq<u8>> {
    if parent == seq![DOT] {
        Seq::empty()
    } else {
        split_from(parent, seq![SLASH], 0)
    }
}

/// The nodes from position `i` on, folded into the tree: each takes its
/// connections from the pool and is placed by its parent path.
pub open spec fn spec_assemble_from(
    nodes: Seq<SpecNode>,
    i: int,
    pool: Seq<SpecConnection>,
    root: SpecNode,
) -> SpecNode
    decreases nodes.len() - i,
{
    if !(0 <= i < nodes.len()) {
        root
    } else {
        let n = nodes[i];
        let bound = SpecNode { connections: conns_for(pool, n), ..n };
        let pool2 = conns_rest(pool, n);
        if n.parent.len() == 0 {
            spec_assemble_from(nodes, i + 1, pool2, spec_fill_in(root, bound))
        } else {
            spec_assemble_from(
                nodes,
                i + 1,
                pool2,
                spec_add_child(root, parent_segs(n.parent), bound),
            )
        }
    }
}

/// The tree assembled from a finished parsing state, starting from an empty
/// placeholder root.
pub open spec fn spec_assemble(st: SpecState) -> SpecNode {
    spec_assemble_from(st.nodes, 0, st.conns, spec_placeholder(Seq::empty()))
}

/// Split the pool into the connections binding to `n` and the rest, both in
/// pool order.
fn drain_matching(pool: Vec<Connection>, n: &Node) -> (r: (Vec<Connection>, Vec<Connection>))
    ensures
        conns_view(r.0@) == conns_for(conns_view(pool@), node_view(*n)),
        conns_view(r.1@) == conns_rest(conns_view(pool@), node_view(*n)),
{
    let ghost gpool = conns_view(pool@);
    let ghost nv = node_view(*n);
    let mut dotv: Vec<u8> = Vec::new();
    dotv.push(DOT);
    proof {
        assert(dotv@ =~= seq![DOT]);
    }
    let mut pool = pool;
    let mut taken: Vec<Connection> = Vec::new();
    let mut rest: Vec<Connection> = Vec::new();
    proof {
        assert(conns_view(taken@) =~= Seq::<SpecConnection>::empty());
        assert(conns_view(rest@) =~= Seq::<SpecConnection>::empty());
        assert(conns_view(pool@) =~= gpool.skip(0));
        assert(conns_for(gpool, nv) =~= conns_view(taken@) + conns_for(gpool.skip(0), nv));
        assert(conns_rest(gpool, nv) =~= conns_view(rest@) + conns_rest(gpool.skip(0), nv));
    }
    let ghost total = gpool.len();
    let ghost mut j: int = 0;
    while pool.len() > 0
        invariant
            0 <= j <= total,
            total == gpool.len(),
            nv == node_view(*n),
            dotv@ == seq![DOT],
            pool@.len() == total - j,
            conns_view(pool@) == gpool.skip(j),
            conns_for(gpool, nv) == conns_view(taken@) + conns_for(gpool.skip(j), nv),
            conns_rest(gpool, nv) == conns_view(rest@) + conns_rest(gpool.skip(j), nv),
        decreases pool@.len(),
    {
        let c = pool.remove(0);
        proof {
            assert(conns_view(pool@) =~= gpool.skip(j).drop_first());
            assert(gpool.skip(j).drop_first() =~= gpool.skip(j + 1));
            assert(gpool.skip(j)[0] == conn_view(c));
        }
        let is_match = bytes_eq(c.from.as_slice(), n.name.as_slice()) || (bytes_eq(
            c.from.as_slice(),
            dotv.as_slice(),
        ) && n.parent.len() == 0);
        proof {
            assert(is_match == conn_matches(conn_view(c), nv));
        }
        if is_match {
            let ghost tprev = conns_view(taken@);
            taken.push(c);
            proof {
                assert(conns_view(taken@) =~= tprev.push(conn_view(c)));
                assert(conns_view(taken@) + conns_for(gpool.skip(j + 1), nv) =~= tprev + (seq![
                    conn_view(c),
                ] + conns_for(gpool.skip(j + 1), nv)));
            }
        } else {
            let ghost rprev = conns_view(rest@);
            rest.push(c);
            proof {
                assert(conns_view(rest@) =~= rprev.push(conn_view(c)));
                assert(conns_view(rest@) + conns_rest(gpool.skip(j + 1), nv) =~= rprev + (seq![
                    conn_view(c),
                ] + conns_rest(gpool.skip(j + 1), nv)));
            }
        }
        proof {
            j = j + 1;
        }
    }
    proof {
        assert(gpool.skip(j) =~= Seq::<SpecConnection>::empty());
        assert(conns_view(taken@) + conns_for(gpool.skip(j), nv) =~= conns_view(taken@));
        assert(conns_view(rest@) + conns_rest(gpool.skip(j), nv) =~= conns_view(rest@));
    }
    (taken, rest)
}

/// Assemble the tree from a finished parsing state, as [`spec_assemble`]
/// describes.
pub fn assemble(st: ParserState) -> (root: Node)
    ensures
        node_view(root) == spec_assemble(state_view(st)),
{
    let ghost st0 = state_view(st);
    let mut dotv: Vec<u8> = Vec::new();
    dotv.push(DOT);
    let mut slashv: Vec<u8> = Vec::new();
    slashv.push(SLASH);
    proof {
        assert(dotv@ =~= seq![DOT]);
        assert(slashv@ =~= seq![SLASH]);
    }
    let mut nodes = st.nodes;
    let mut pool = st.connections;
    let mut root = Node::new(Vec::new());
    let ghost gnodes = st0.nodes;
    let ghost total = gnodes.len();
    proof {
        lemma_children_view(nodes@);
        assert(children_view(nodes@) =~= gnodes.skip(0));
        assert(node_view(root) == spec_placeholder(Seq::<u8>::empty()));
    }
    let ghost mut i: int = 0;
    while nodes.len() > 0
        invariant
            0 <= i <= total,
            total == gnodes.len(),
            nodes@.len() == total - i,
            children_view(nodes@) == gnodes.skip(i),
            dotv@ == seq![DOT],
            slashv@ == seq![SLASH],
            spec_assemble_from(gnodes, 0, st0.conns, spec_placeholder(Seq::<u8>::empty()))
                == spec_assemble_from(
                gnodes,
                i,
                conns_view(pool@),
                node_view(root),
            ),
        decreases nodes@.len(),
    {
        let ghost prev = nodes@;
        let ghost gpool = conns_view(pool@);
        let ghost groot = node_view(root);
        proof {
            lemma_children_view(prev);
        }
        let mut n = nodes.remove(0);
        proof {
            assert(nodes@ =~= prev.drop_first());
            lemma_children_view(nodes@);
            assert(children_view(nodes@) =~= gnodes.skip(i + 1));
            assert(node_view(n) == gnodes.skip(i)[0]);
            assert(node_view(n) == gnodes[i]);
        }
        let ghost nv = node_view(n);
        let (bound, rest) = drain_matching(pool, &n);
        pool = rest;
        n.connections = bound;
        proof {
            assert(node_view(n) == SpecNode { connections: conns_for(gpool, nv), ..nv });
        }
        if n.parent.len() == 0 {
            let prev_root = root;
            root = n;
            root.children = prev_root.children;
            proof {
                assert(node_view(root) == spec_fill_in(
                    groot,
                    SpecNode { connections: conns_for(gpool, nv), ..nv },
                ));
            }
        } else {
            let parents: Vec<Vec<u8>> = if bytes_eq(n.parent.as_slice(), dotv.as_slice()) {
                Vec::new()
            } else {
                split_by(n.parent.as_slice(), slashv.as_slice())
            };
            proof {
                if nv.parent == seq![DOT] {
                    assert(segs_view(parents@) =~= parent_segs(nv.parent));
                } else {
                    assert(segs_view(parents@) =~= pieces_view(parents@));
                    assert(segs_view(parents@) =~= parent_segs(nv.parent));
                }
            }
            root.add_child(n, parents);
        }
        proof {
            i = i + 1;
        }
    }
    proof {
        assert(spec_assemble_from(gnodes, i, conns_view(pool@), node_view(root))
            == node_view(root));
    }
    root
}

} // verus!
