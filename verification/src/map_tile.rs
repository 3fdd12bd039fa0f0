//! Per-cell tile data: cosmetic glyph and colors, the static `passable` /
//! `opaque` properties fixed at generation time, and the runtime `visible` /
//! `revealed` visibility state.

use vstd::prelude::*;

verus! {

/// An RGB color with 8-bit channels, used only by renderers.
#[derive(Clone, Copy, Debug, PartialEq, Eq, Structural)]
pub struct TileColor {
    pub r: u8,
    pub g: u8,
    pub b: u8,
}

/// One allocated cell of the tile grid.
///
/// `passable` and `opaque` never change after generation and wall derivation;
/// `visible` and `revealed` are runtime state written by the visibility engine.
#[derive(Clone, Copy, Debug, PartialEq, Eq, Structural)]
pub struct MapTile {
    pub glyph: u16,
    pub foreground_color: TileColor,
    pub background_color: TileColor,
    pub passable: bool,
    pub opaque: bool,
    pub visible: bool,
    pub revealed: bool,
}

/// How a renderer must draw a tile: never-revealed tiles are hidden,
/// revealed-but-not-currently-visible tiles are dimmed, visible tiles are
/// drawn in full color.
#[derive(Clone, Copy, Debug, PartialEq, Eq, Structural)]
pub enum RenderState {
    Hidden,
    Dimmed,
    Full,
}

impl MapTile {
    pub fn new(
        glyph: u16,
        foreground_color: TileColor,
        background_color: TileColor,
        passable: bool,
        opaque: bool,
        visible: bool,
        revealed: bool,
    ) -> (t: MapTile)
        ensures
            t == (MapTile { glyph, foreground_color, background_color, passable, opaque, visible, revealed }),
    {
        MapTile { glyph, foreground_color, background_color, passable, opaque, visible, revealed }
    }

    /// The rendering policy for an allocated tile.
    pub fn render_state(&self) -> (r: RenderState)
        ensures
            r == RenderState::Hidden <==> !self.revealed,
            r == RenderState::Full <==> self.revealed && self.visible,
            r == RenderState::Dimmed <==> self.revealed && !self.visible,
    {
        if !self.revealed {
            RenderState::Hidden
        } else if self.visible {
            RenderState::Full
        } else {
            RenderState::Dimmed
        }
    }
}

} // verus!
