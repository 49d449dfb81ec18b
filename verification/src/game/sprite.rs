//! Where the sprites of terrain tiles lie in the texture atlases.

use vstd::prelude::*;

verus! {

/// A texture atlas of the game's assets.
#[derive(Debug, Clone, Copy, PartialEq, Eq, Hash, Structural)]
pub enum Atlas {
    BaseOverworld,
    BaseItems,
}

/// A kind of terrain tile.
#[derive(Debug, Clone, Copy, PartialEq, Eq, Hash, Structural)]
pub enum Terrain {
    GrassPlain,
    GrassVariant1,
    GrassVariant2,
    GrassVariant3,
    GrassVariant4,
    GrassVariant5,
    GrassVariant6,
    GrassVariant7,
    GrassFlowersRoundYellowBig,
    GrassFlowersRoundYellowSmall,
    GrassFlowersRoundCyanBig,
    GrassFlowersRoundCyanSmall,
    GrassFlowersRoundMagentaBig,
    GrassFlowersRoundMagentaSmall,
    GrassFlowersRoundWhiteBig,
    GrassFlowersRoundWhiteSmall,
    GrassFlowersCrossWhiteBig,
    GrassFlowersCrossWhiteSmall,
    GrassFlowersCrossYellowBig,
    GrassFlowersCrossYellowSmall,
    GrassFlowersCrossCyanBig,
    GrassFlowersCrossCyanSmall,
    GrassFlowersCrossMagentaBig,
    GrassFlowersCrossMagentaSmall,
    GrassShroomsRedBig,
    GrassShroomsBrownBig,
    GrassShroomsRedSmall,
    GrassShroomsBrownSmall,
}

/// The position of a terrain kind in the order of declaration.
pub open spec fn terrain_index(t: Terrain) -> nat {
    match t {
        Terrain::GrassPlain => 0,
        Terrain::GrassVariant1 => 1,
        Terrain::GrassVariant2 => 2,
        Terrain::GrassVariant3 => 3,
        Terrain::GrassVariant4 => 4,
        Terrain::GrassVariant5 => 5,
        Terrain::GrassVariant6 => 6,
        Terrain::GrassVariant7 => 7,
        Terrain::GrassFlowersRoundYellowBig => 8,
        Terrain::GrassFlowersRoundYellowSmall => 9,
        Terrain::GrassFlowersRoundCyanBig => 10,
        Terrain::GrassFlowersRoundCyanSmall => 11,
        Terrain::GrassFlowersRoundMagentaBig => 12,
        Terrain::GrassFlowersRoundMagentaSmall => 13,
        Terrain::GrassFlowersRoundWhiteBig => 14,
        Terrain::GrassFlowersRoundWhiteSmall => 15,
        Terrain::GrassFlowersCrossWhiteBig => 16,
        Terrain::GrassFlowersCrossWhiteSmall => 17,
        Terrain::GrassFlowersCrossYellowBig => 18,
        Terrain::GrassFlowersCrossYellowSmall => 19,
        Terrain::GrassFlowersCrossCyanBig => 20,
        Terrain::GrassFlowersCrossCyanSmall => 21,
        Terrain::GrassFlowersCrossMagentaBig => 22,
        Terrain::GrassFlowersCrossMagentaSmall => 23,
        Terrain::GrassShroomsRedBig => 24,
        Terrain::GrassShroomsBrownBig => 25,
        Terrain::GrassShroomsRedSmall => 26,
        Terrain::GrassShroomsBrownSmall => 27,
    }
}

/// The terrain kinds in the order in which they are declared.
pub open spec fn terrains_in_order() -> Seq<Terrain> {
    seq![
        Terrain::GrassPlain,
        Terrain::GrassVariant1,
        Terrain::GrassVariant2,
        Terrain::GrassVariant3,
        Terrain::GrassVariant4,
        Terrain::GrassVariant5,
        Terrain::GrassVariant6,
        Terrain::GrassVariant7,
        Terrain::GrassFlowersRoundYellowBig,
        Terrain::GrassFlowersRoundYellowSmall,
        Terrain::GrassFlowersRoundCyanBig,
        Terrain::GrassFlowersRoundCyanSmall,
        Terrain::GrassFlowersRoundMagentaBig,
        Terrain::GrassFlowersRoundMagentaSmall,
        Terrain::GrassFlowersRoundWhiteBig,
        Terrain::GrassFlowersRoundWhiteSmall,
        Terrain::GrassFlowersCrossWhiteBig,
        Terrain::GrassFlowersCrossWhiteSmall,
        Terrain::GrassFlowersCrossYellowBig,
        Terrain::GrassFlowersCrossYellowSmall,
        Terrain::GrassFlowersCrossCyanBig,
        Terrain::GrassFlowersCrossCyanSmall,
        Terrain::GrassFlowersCrossMagentaBig,
        Terrain::GrassFlowersCrossMagentaSmall,
        Terrain::GrassShroomsRedBig,
        Terrain::GrassShroomsBrownBig,
        Terrain::GrassShroomsRedSmall,
        Terrain::GrassShroomsBrownSmall,
    ]
}

/// The index of a terrain kind is its place in the order of declaration:
/// the kinds declared one after another have consecutive indices, and so
/// consecutive cells of the atlas grid, four to a row.
pub proof fn lemma_terrain_order(i: int)
    requires
        0 <= i < 28,
    ensures
        terrains_in_order().len() == 28,
        terrain_index(terrains_in_order()[i]) == i,
{
    let order = terrains_in_order();
    assert(order.len() == 28);
    assert(terrain_index(order[i]) == i) by {
        if i == 0 {
        } else if i == 1 {
        } else if i == 2 {
        } else if i == 3 {
        } else if i == 4 {
        } else if i == 5 {
        } else if i == 6 {
        } else if i == 7 {
        } else if i == 8 {
        } else if i == 9 {
        } else if i == 10 {
        } else if i == 11 {
        } else if i == 12 {
        } else if i == 13 {
        } else if i == 14 {
        } else if i == 15 {
        } else if i == 16 {
        } else if i == 17 {
        } else if i == 18 {
        } else if i == 19 {
        } else if i == 20 {
        } else if i == 21 {
        } else if i == 22 {
        } else if i == 23 {
        } else if i == 24 {
        } else if i == 25 {
        } else if i == 26 {
        } else if i == 27 {
        }
    }
}

/// Every terrain kind stands in the order of declaration, at its index.
pub proof fn lemma_terrain_listed(t: Terrain)
    ensures
        terrain_index(t) < 28,
        terrains_in_order()[terrain_index(t) as int] == t,
{
}

/// A cell of the 8-pixel grid of an atlas.
#[derive(Debug, Clone, Copy, PartialEq, Eq, Structural)]
pub struct GridCell {
    pub atlas: Atlas,
    pub x: u32,
    pub y: u32,
}

impl Terrain {
    /// The grid cell of the tile's sprite: the overworld atlas holds the
    /// terrain kinds row by row, four to a row, in order of declaration.
    pub fn sprite_cell(&self) -> (r: GridCell)
        ensures
            r.atlas == Atlas::BaseOverworld,
            r.x == terrain_index(*self) % 4,
            r.y == terrain_index(*self) / 4,
    {
        let (x, y): (u32, u32) = match self {
            Terrain::GrassPlain => (0, 0),
            Terrain::GrassVariant1 => (1, 0),
            Terrain::GrassVariant2 => (2, 0),
            Terrain::GrassVariant3 => (3, 0),
            Terrain::GrassVariant4 => (0, 1),
            Terrain::GrassVariant5 => (1, 1),
            Terrain::GrassVariant6 => (2, 1),
            Terrain::GrassVariant7 => (3, 1),
            Terrain::GrassFlowersRoundYellowBig => (0, 2),
            Terrain::GrassFlowersRoundYellowSmall => (1, 2),
            Terrain::GrassFlowersRoundCyanBig => (2, 2),
            Terrain::GrassFlowersRoundCyanSmall => (3, 2),
            Terrain::GrassFlowersRoundMagentaBig => (0, 3),
            Terrain::GrassFlowersRoundMagentaSmall => (1, 3),
            Terrain::GrassFlowersRoundWhiteBig => (2, 3),
            Terrain::GrassFlowersRoundWhiteSmall => (3, 3),
            Terrain::GrassFlowersCrossWhiteBig => (0, 4),
            Terrain::GrassFlowersCrossWhiteSmall => (1, 4),
            Terrain::GrassFlowersCrossYellowBig => (2, 4),
            Terrain::GrassFlowersCrossYellowSmall => (3, 4),
            Terrain::GrassFlowersCrossCyanBig => (0, 5),
            Terrain::GrassFlowersCrossCyanSmall => (1, 5),
            Terrain::GrassFlowersCrossMagentaBig => (2, 5),
            Terrain::GrassFlowersCrossMagentaSmall => (3, 5),
            Terrain::GrassShroomsRedBig => (0, 6),
            Terrain::GrassShroomsBrownBig => (1, 6),
            Terrain::GrassShroomsRedSmall => (2, 6),
            Terrain::GrassShroomsBrownSmall => (3, 6),
        };
        GridCell { atlas: Atlas::BaseOverworld, x, y }
    }
}

} // verus!
