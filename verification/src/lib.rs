//! Verified parser and renderer for a text-based hierarchical scene-description
//! format. Lines are classified into directives, resource declarations are
//! collected into id-keyed tables, node parameters that reference resources
//! are resolved eagerly through those tables, the flat node list is assembled
//! into a rooted tree from parent-path strings, and the tree is rendered as
//! box-drawing text.

use vstd::prelude::*;

pub mod bytes;
pub mod laws;
pub mod model;
pub mod pattern;
pub mod render;
pub mod scan;
pub mod state;
pub mod tree;

verus! {

/// The rendered tree text of a whole scene file, given as its lines.
pub open spec fn spec_scene_text(lines: Seq<Seq<u8>>) -> Seq<u8> {
    crate::render::spec_render(
        crate::tree::spec_assemble(
            crate::state::spec_parse_lines(lines, 0, crate::state::spec_init_state()),
        ),
    )
}

/// Parse the lines of a scene file, assemble the node tree, and render it.
pub fn scene_tree_text(lines: &Vec<Vec<u8>>) -> (out: Vec<u8>)
    ensures
        out@ == spec_scene_text(crate::state::lines_view(lines@)),
{
    let st = crate::state::parse_scene(lines);
    let root = crate::tree::assemble(st);
    crate::render::render(&root)
}

} // verus!
