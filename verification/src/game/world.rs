//! The part of the world that the client holds, by chunk, and the
//! decisions the client draws it by.

use vstd::prelude::*;

verus! {

/// How many chunks beyond the visible rectangle stay loaded, on each side.
pub const CHUNK_RETAIN_PADDING: i32 = 20;

/// What the world draws besides terrain and objects.
#[derive(Debug, Clone, Copy, PartialEq, Eq, Structural)]
pub struct WorldDrawSettings {
    pub chunk_borders: bool,
    pub object_collisions: bool,
}

/// The position of a chunk in the grid of chunks.
#[derive(Debug, Clone, Copy, PartialEq, Eq, Hash, Structural)]
pub struct ChunkCoords {
    pub x: i32,
    pub y: i32,
}

/// A rectangle of chunk positions, both corners included.
#[derive(Debug, Clone, Copy, PartialEq, Eq, Structural)]
pub struct ChunkRect {
    pub min: ChunkCoords,
    pub max: ChunkCoords,
}

/// Which sides of an owned chunk border a chunk that is not owned, and so
/// carry the outline of the territory.
#[derive(Debug, Clone, Copy, PartialEq, Eq, Structural)]
pub struct OutlineEdges {
    pub top: bool,
    pub bottom: bool,
    pub left: bool,
    pub right: bool,
}

impl ChunkCoords {
    pub fn new(x: i32, y: i32) -> (r: Self)
        ensures
            r == (ChunkCoords { x, y }),
    {
        ChunkCoords { x, y }
    }
}

/// Whether `owned` holds `pos`.
pub fn contains_chunk(owned: &[ChunkCoords], pos: ChunkCoords) -> (r: bool)
    ensures
        r == owned@.contains(pos),
{
    let n = owned.len();
    let mut i: usize = 0;
    while i < n
        invariant
            n == owned@.len(),
            i <= n,
            forall|j: int| 0 <= j < i ==> owned@[j] != pos,
        decreases n - i,
    {
        if owned[i] == pos {
            return true;
        }
        i = i + 1;
    }
    false
}

/// The sides of the chunk at `pos` whose neighbour is not in `owned`
/// (`top` is the neighbour at `y - 1`, `left` the one at `x - 1`).
pub fn outline_edges(owned: &[ChunkCoords], pos: ChunkCoords) -> (r: OutlineEdges)
    requires
        i32::MIN < pos.x < i32::MAX,
        i32::MIN < pos.y < i32::MAX,
    ensures
        r.top == !owned@.contains(ChunkCoords { x: pos.x, y: (pos.y - 1) as i32 }),
        r.bottom == !owned@.contains(ChunkCoords { x: pos.x, y: (pos.y + 1) as i32 }),
        r.left == !owned@.contains(ChunkCoords { x: (pos.x - 1) as i32, y: pos.y }),
        r.right == !owned@.contains(ChunkCoords { x: (pos.x + 1) as i32, y: pos.y }),
{
    OutlineEdges {
        top: !contains_chunk(owned, ChunkCoords::new(pos.x, pos.y - 1)),
        bottom: !contains_chunk(owned, ChunkCoords::new(pos.x, pos.y + 1)),
        left: !contains_chunk(owned, ChunkCoords::new(pos.x - 1, pos.y)),
        right: !contains_chunk(owned, ChunkCoords::new(pos.x + 1, pos.y)),
    }
}

/// Whether a chunk at `pos` lies within `rect` widened by the retain
/// padding on every side.
pub open spec fn within_retain_range(pos: ChunkCoords, rect: ChunkRect) -> bool {
    &&& rect.min.x - CHUNK_RETAIN_PADDING <= pos.x <= rect.max.x + CHUNK_RETAIN_PADDING
    &&& rect.min.y - CHUNK_RETAIN_PADDING <= pos.y <= rect.max.y + CHUNK_RETAIN_PADDING
}

/// Whether the padded rectangle can be computed without overflow.
pub open spec fn padding_fits(rect: ChunkRect) -> bool {
    &&& rect.min.x >= i32::MIN + CHUNK_RETAIN_PADDING
    &&& rect.min.y >= i32::MIN + CHUNK_RETAIN_PADDING
    &&& rect.max.x <= i32::MAX - CHUNK_RETAIN_PADDING
    &&& rect.max.y <= i32::MAX - CHUNK_RETAIN_PADDING
}

/// Whether a loaded chunk at `pos` stays loaded while `rect` is visible.
pub fn retains_chunk(pos: ChunkCoords, rect: ChunkRect) -> (r: bool)
    requires
        padding_fits(rect),
    ensures
        r == within_retain_range(pos, rect),
{
    let safe_min_x = rect.min.x - CHUNK_RETAIN_PADDING;
    let safe_max_x = rect.max.x + CHUNK_RETAIN_PADDING;
    let safe_min_y = rect.min.y - CHUNK_RETAIN_PADDING;
    let safe_max_y = rect.max.y + CHUNK_RETAIN_PADDING;
    pos.x >= safe_min_x && pos.x <= safe_max_x && pos.y >= safe_min_y && pos.y <= safe_max_y
}


/// A chunk is kept exactly when each of its coordinates lies within 20
/// chunks of the visible rectangle's extent along that axis: its x against
/// the rectangle's x bounds, its y against the rectangle's y bounds. Every
/// chunk of the visible rectangle is kept.
pub proof fn lemma_retain_range(pos: ChunkCoords, rect: ChunkRect)
    ensures
        within_retain_range(pos, rect) <==> (rect.min.x - 20 <= pos.x && pos.x <= rect.max.x + 20
            && rect.min.y - 20 <= pos.y && pos.y <= rect.max.y + 20),
        (rect.min.x <= pos.x <= rect.max.x && rect.min.y <= pos.y <= rect.max.y)
            ==> within_retain_range(pos, rect),
{
}

/// Whether `owned` holds the chunk at (`x`, `y`).
pub open spec fn owns(owned: Seq<ChunkCoords>, x: i32, y: i32) -> bool {
    owned.contains(ChunkCoords { x, y })
}

/// Whether some chunk of `range` (corners included) is missing from
/// `owned`.
pub open spec fn range_leaves(owned: Seq<ChunkCoords>, range: ChunkRect) -> bool {
    exists|x: i32, y: i32|
        range.min.x <= x <= range.max.x && range.min.y <= y <= range.max.y && !#[trigger] owns(
            owned,
            x,
            y,
        )
}

/// Whether some chunk of `range` (corners included) lies outside the
/// territory `owned`; an object covering such a chunk cannot be placed.
pub fn leaves_territory(owned: &[ChunkCoords], range: ChunkRect) -> (r: bool)
    ensures
        r == range_leaves(owned@, range),
{
    let mut y: i64 = range.min.y as i64;
    while y <= range.max.y as i64
        invariant
            range.min.y <= y,
            y <= range.max.y + 1 || y == range.min.y,
            forall|xx: i32, yy: i32|
                range.min.x <= xx <= range.max.x && range.min.y <= yy < y ==> #[trigger] owns(
                    owned@,
                    xx,
                    yy,
                ),
        decreases range.max.y + 1 - y,
    {
        let mut x: i64 = range.min.x as i64;
        while x <= range.max.x as i64
            invariant
                range.min.y <= y <= range.max.y,
                range.min.x <= x,
                x <= range.max.x + 1 || x == range.min.x,
                forall|xx: i32, yy: i32|
                    range.min.x <= xx <= range.max.x && range.min.y <= yy < y ==> #[trigger] owns(
                        owned@,
                        xx,
                        yy,
                    ),
                forall|xx: i32| range.min.x <= xx < x ==> #[trigger] owns(owned@, xx, y as i32),
            decreases range.max.x + 1 - x,
        {
            let pos = ChunkCoords::new(x as i32, y as i32);
            if !contains_chunk(owned, pos) {
                assert(!owns(owned@, x as i32, y as i32));
                return true;
            }
            x = x + 1;
        }
        assert forall|xx: i32, yy: i32|
            range.min.x <= xx <= range.max.x && range.min.y <= yy < y + 1 implies #[trigger] owns(
            owned@,
            xx,
            yy,
        ) by {
            if yy == y {
                assert(xx < x);
                assert(owns(owned@, xx, y as i32));
                assert(yy == y as i32);
            }
        }
        y = y + 1;
    }
    false
}

} // verus!
