//! Per-entity components: rendering data, the player marker, and the
//! per-entity vision state.

use vstd::prelude::*;

use crate::coordinate::Coordinate;
use crate::map_tile::TileColor;

verus! {

/// How an entity is drawn by a renderer.
#[derive(Clone, Copy, Debug, PartialEq, Eq, Structural)]
pub struct Renderable {
    pub glyph: u16,
    pub foreground_color: TileColor,
    pub background_color: TileColor,
}

/// Marks the distinguished player entity.
#[derive(Clone, Copy, Debug, PartialEq, Eq, Structural)]
pub struct Player {}

/// Per-entity vision state: the tiles visible this frame, the vision radius
/// (fixed at creation), and whether a recompute is pending.
pub struct Viewshed {
    pub visible_tiles: Vec<Coordinate>,
    pub range: usize,
    pub dirty: bool,
}

impl Viewshed {
    /// A fresh viewshed with the given radius, no visible tiles yet, and a
    /// recompute pending.
    pub fn new(range: usize) -> (v: Viewshed)
        ensures
            v.visible_tiles@ == Seq::<Coordinate>::empty(),
            v.range == range,
            v.dirty,
    {
        Viewshed { visible_tiles: Vec::new(), range, dirty: true }
    }
}

} // verus!
