//! A grid of tiles, one element on each.
use vstd::prelude::*;

verus! {

/// What occupies a tile.
#[derive(Debug, Clone, Copy, PartialEq, Eq, Hash, Structural)]
pub enum Element {
    Empty,
    Wall,
    Player,
    Enemy,
    Projectile,
    PowerUp,
    Explosion,
    Obstacle,
    Trap,
    Portal,
    Collectible,
    Hazard,
    Platform,
    Ladder,
    Door,
    Key,
    Chest,
    Spawner,
    Checkpoint,
    Finish,
}

#[derive(Debug, Clone, Copy, PartialEq, Eq, Structural)]
pub struct Tile {
    pub element: Element,
}

/// A `width` by `height` grid, stored row after row.
pub struct TileMap {
    width: usize,
    height: usize,
    tiles: Vec<Tile>,
}

impl TileMap {
    pub closed spec fn width_spec(&self) -> nat {
        self.width as nat
    }

    pub closed spec fn height_spec(&self) -> nat {
        self.height as nat
    }

    /// The tiles, row after row.
    pub closed spec fn tiles_spec(&self) -> Seq<Tile> {
        self.tiles@
    }

    /// A map of the given size with every tile empty.
    pub fn new(width: usize, height: usize) -> (r: Self)
        requires
            width * height <= usize::MAX,
        ensures
            r.width_spec() == width,
            r.height_spec() == height,
            r.tiles_spec().len() == width * height,
            forall|i: int|
                0 <= i < r.tiles_spec().len() ==> (#[trigger] r.tiles_spec()[i]).element
                    == Element::Empty,
    {
        let n = width * height;
        let mut tiles: Vec<Tile> = Vec::new();
        let mut i: usize = 0;
        while i < n
            invariant
                i <= n,
                tiles@.len() == i,
                forall|j: int| 0 <= j < i ==> (#[trigger] tiles@[j]).element == Element::Empty,
            decreases n - i,
        {
            tiles.push(Tile { element: Element::Empty });
            i = i + 1;
        }
        TileMap { width, height, tiles }
    }
}

} // verus!
