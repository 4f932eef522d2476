//! The whole-number parts of a map file in the universal tabletop format.

use crate::maps::MapGrid;
use vstd::prelude::*;

verus! {

/// Where the map begins, in cells.
#[derive(Clone, Copy, Debug, PartialEq, Eq, Structural, Default)]
pub struct MapOrigin {
    pub x: i64,
    pub y: i64,
}

/// How far the map reaches, in cells.
#[derive(Clone, Copy, Debug, PartialEq, Eq, Structural, Default)]
pub struct MapSize {
    pub x: i64,
    pub y: i64,
}

#[derive(Clone, Copy, Debug, PartialEq, Eq, Structural, Default)]
pub struct Resolution {
    pub map_origin: MapOrigin,
    pub map_size: MapSize,
    pub pixels_per_grid: i64,
}

#[derive(Clone, Debug, PartialEq, Eq, Default)]
pub struct Environment {
    pub baked_lighting: bool,
    pub ambient_light: String,
}

impl Resolution {
    /// The grid of a map of this resolution.
    pub fn grid(&self) -> (grid: MapGrid)
        ensures
            grid == (MapGrid {
                pixels_per: self.pixels_per_grid,
                width: self.map_size.x,
                height: self.map_size.y,
            }),
    {
        MapGrid {
            pixels_per: self.pixels_per_grid,
            width: self.map_size.x,
            height: self.map_size.y,
        }
    }
}

} // verus!
