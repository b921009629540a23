//! Offset hex-grid coordinate math: tile positions, their six neighbors,
//! bounded "reachable within N steps" expansion, border-edge extraction
//! from a tile set, and the hex distance used by the path query.
//!
//! The grid uses offset columns: which diagonal neighbor a step reaches
//! depends on the parity of the column.

use vstd::prelude::*;
use crate::distances::{
    dm_bounded, dm_contains, dm_find, dm_get, dm_insert, dm_wf, lemma_dm_find_from,
    lemma_dm_insert_bounded, lemma_dm_insert_get, lemma_dm_insert_wf, Distances,
};

verus! {

/// Coordinate unit of the hex grid.
pub type MapUnit = i16;

/// Largest coordinate magnitude the geometry works with; keeps all
/// neighbor arithmetic inside `MapUnit`.
pub const MAX_MAP_DIM: i16 = 30000;

/// One of the six edges of a hex tile.
#[derive(Clone, Copy, Debug, PartialEq, Eq, Structural)]
pub enum TileEdge {
    TopLeft,
    Top,
    TopRight,
    BottomRight,
    Bottom,
    BottomLeft,
}

impl TileEdge {
    pub open spec fn spec_clockwise(self) -> TileEdge {
        match self {
            TileEdge::TopLeft => TileEdge::Top,
            TileEdge::Top => TileEdge::TopRight,
            TileEdge::TopRight => TileEdge::BottomRight,
            TileEdge::BottomRight => TileEdge::Bottom,
            TileEdge::Bottom => TileEdge::BottomLeft,
            TileEdge::BottomLeft => TileEdge::TopLeft,
        }
    }

    pub fn clockwise(self) -> (r: Self)
        ensures
            r == self.spec_clockwise(),
    {
        match self {
            TileEdge::TopLeft => TileEdge::Top,
            TileEdge::Top => TileEdge::TopRight,
            TileEdge::TopRight => TileEdge::BottomRight,
            TileEdge::BottomRight => TileEdge::Bottom,
            TileEdge::Bottom => TileEdge::BottomLeft,
            TileEdge::BottomLeft => TileEdge::TopLeft,
        }
    }

    pub open spec fn spec_counterclockwise(self) -> TileEdge {
        match self {
            TileEdge::TopLeft => TileEdge::BottomLeft,
            TileEdge::BottomLeft => TileEdge::Bottom,
            TileEdge::Bottom => TileEdge::BottomRight,
            TileEdge::BottomRight => TileEdge::TopRight,
            TileEdge::TopRight => TileEdge::Top,
            TileEdge::Top => TileEdge::TopLeft,
        }
    }

    pub fn counterclockwise(self) -> (r: Self)
        ensures
            r == self.spec_counterclockwise(),
            r.spec_clockwise() == self,
    {
        match self {
            TileEdge::TopLeft => TileEdge::BottomLeft,
            TileEdge::BottomLeft => TileEdge::Bottom,
            TileEdge::Bottom => TileEdge::BottomRight,
            TileEdge::BottomRight => TileEdge::TopRight,
            TileEdge::TopRight => TileEdge::Top,
            TileEdge::Top => TileEdge::TopLeft,
        }
    }

    /// Position of the edge counting clockwise from the top-left one.
    pub open spec fn spec_index(self) -> usize {
        match self {
            TileEdge::TopLeft => 0usize,
            TileEdge::Top => 1usize,
            TileEdge::TopRight => 2usize,
            TileEdge::BottomRight => 3usize,
            TileEdge::Bottom => 4usize,
            TileEdge::BottomLeft => 5usize,
        }
    }

    pub fn index(self) -> (r: usize)
        ensures
            r == self.spec_index(),
    {
        match self {
            TileEdge::TopLeft => 0,
            TileEdge::Top => 1,
            TileEdge::TopRight => 2,
            TileEdge::BottomRight => 3,
            TileEdge::Bottom => 4,
            TileEdge::BottomLeft => 5,
        }
    }

    /// The canonical form of an upper edge; lower edges have none and are
    /// represented through the neighboring tile's upper edge instead.
    pub open spec fn spec_canonical(self) -> Option<CanonicalTileEdge> {
        match self {
            TileEdge::TopLeft => Some(CanonicalTileEdge::TopLeft),
            TileEdge::Top => Some(CanonicalTileEdge::Top),
            TileEdge::TopRight => Some(CanonicalTileEdge::TopRight),
            _ => None,
        }
    }

    pub fn canonical(self) -> (r: Option<CanonicalTileEdge>)
        ensures
            r == self.spec_canonical(),
    {
        match self {
            TileEdge::TopLeft => Some(CanonicalTileEdge::TopLeft),
            TileEdge::Top => Some(CanonicalTileEdge::Top),
            TileEdge::TopRight => Some(CanonicalTileEdge::TopRight),
            _ => None,
        }
    }
}

/// One of the three upper edges of a tile; every edge of the grid is the
/// canonical edge of exactly one tile.
#[derive(Clone, Copy, Debug, PartialEq, Eq, Structural)]
pub enum CanonicalTileEdge {
    TopLeft,
    Top,
    TopRight,
}

impl CanonicalTileEdge {
    pub open spec fn spec_general(self) -> TileEdge {
        match self {
            CanonicalTileEdge::TopLeft => TileEdge::TopLeft,
            CanonicalTileEdge::Top => TileEdge::Top,
            CanonicalTileEdge::TopRight => TileEdge::TopRight,
        }
    }

    pub fn general(self) -> (r: TileEdge)
        ensures
            r == self.spec_general(),
    {
        match self {
            CanonicalTileEdge::TopLeft => TileEdge::TopLeft,
            CanonicalTileEdge::Top => TileEdge::Top,
            CanonicalTileEdge::TopRight => TileEdge::TopRight,
        }
    }
}

/// A position on the offset hex grid.
#[derive(Clone, Copy, Debug, PartialEq, Eq, Structural)]
pub struct TilePosition {
    pub x: MapUnit,
    pub y: MapUnit,
}

/// An edge of the grid, named by the tile whose canonical edge it is.
#[derive(Clone, Copy, Debug, PartialEq, Eq, Structural)]
pub struct EdgePosition(pub TilePosition, pub CanonicalTileEdge);

impl TilePosition {
    /// Coordinates small enough that every neighbor fits in `MapUnit`.
    pub open spec fn in_range(self) -> bool {
        -MAX_MAP_DIM <= self.x <= MAX_MAP_DIM && -MAX_MAP_DIM <= self.y <= MAX_MAP_DIM
    }

    /// Within a `width` by `height` map.
    pub open spec fn in_bounds(self, width: MapUnit, height: MapUnit) -> bool {
        0 <= self.x < width && 0 <= self.y < height
    }

    pub fn new(x: MapUnit, y: MapUnit) -> (r: Self)
        ensures
            r == (TilePosition { x, y }),
    {
        TilePosition { x, y }
    }

    pub open spec fn spec_x_even(self) -> bool {
        (self.x as int) % 2 == 0
    }

    pub fn x_even(self) -> (r: bool)
        ensures
            r == self.spec_x_even(),
    {
        self.x % 2 == 0
    }

    pub open spec fn spec_y_even(self) -> bool {
        (self.y as int) % 2 == 0
    }

    pub fn y_even(self) -> (r: bool)
        ensures
            r == self.spec_y_even(),
    {
        self.y % 2 == 0
    }

    pub open spec fn spec_top(self) -> TilePosition {
        TilePosition { x: self.x, y: (self.y - 1) as i16 }
    }

    pub fn top(self) -> (r: Self)
        requires
            self.in_range(),
        ensures
            r == self.spec_top(),
    {
        TilePosition { x: self.x, y: self.y - 1 }
    }

    pub open spec fn spec_bottom(self) -> TilePosition {
        TilePosition { x: self.x, y: (self.y + 1) as i16 }
    }

    pub fn bottom(self) -> (r: Self)
        requires
            self.in_range(),
        ensures
            r == self.spec_bottom(),
    {
        TilePosition { x: self.x, y: self.y + 1 }
    }

    pub open spec fn spec_top_left(self) -> TilePosition {
        if self.spec_x_even() {
            TilePosition { x: (self.x - 1) as i16, y: (self.y - 1) as i16 }
        } else {
            TilePosition { x: (self.x - 1) as i16, y: self.y }
        }
    }

    pub fn top_left(self) -> (r: Self)
        requires
            self.in_range(),
        ensures
            r == self.spec_top_left(),
    {
        if self.x_even() {
            TilePosition { x: self.x - 1, y: self.y - 1 }
        } else {
            TilePosition { x: self.x - 1, y: self.y }
        }
    }

    pub open spec fn spec_bottom_left(self) -> TilePosition {
        if self.spec_x_even() {
            TilePosition { x: (self.x - 1) as i16, y: self.y }
        } else {
            TilePosition { x: (self.x - 1) as i16, y: (self.y + 1) as i16 }
        }
    }

    pub fn bottom_left(self) -> (r: Self)
        requires
            self.in_range(),
        ensures
            r == self.spec_bottom_left(),
    {
        if self.x_even() {
            TilePosition { x: self.x - 1, y: self.y }
        } else {
            TilePosition { x: self.x - 1, y: self.y + 1 }
        }
    }

    pub open spec fn spec_top_right(self) -> TilePosition {
        if self.spec_x_even() {
            TilePosition { x: (self.x + 1) as i16, y: (self.y - 1) as i16 }
        } else {
            TilePosition { x: (self.x + 1) as i16, y: self.y }
        }
    }

    pub fn top_right(self) -> (r: Self)
        requires
            self.in_range(),
        ensures
            r == self.spec_top_right(),
    {
        if self.x_even() {
            TilePosition { x: self.x + 1, y: self.y - 1 }
        } else {
            TilePosition { x: self.x + 1, y: self.y }
        }
    }

    pub open spec fn spec_bottom_right(self) -> TilePosition {
        if self.spec_x_even() {
            TilePosition { x: (self.x + 1) as i16, y: self.y }
        } else {
            TilePosition { x: (self.x + 1) as i16, y: (self.y + 1) as i16 }
        }
    }

    pub fn bottom_right(self) -> (r: Self)
        requires
            self.in_range(),
        ensures
            r == self.spec_bottom_right(),
    {
        if self.x_even() {
            TilePosition { x: self.x + 1, y: self.y }
        } else {
            TilePosition { x: self.x + 1, y: self.y + 1 }
        }
    }

    /// The position across the given edge.
    pub open spec fn spec_neighbor(self, edge: TileEdge) -> TilePosition {
        match edge {
            TileEdge::TopLeft => self.spec_top_left(),
            TileEdge::Top => self.spec_top(),
            TileEdge::TopRight => self.spec_top_right(),
            TileEdge::BottomRight => self.spec_bottom_right(),
            TileEdge::Bottom => self.spec_bottom(),
            TileEdge::BottomLeft => self.spec_bottom_left(),
        }
    }

    pub fn neighbor(self, edge: TileEdge) -> (r: Self)
        requires
            self.in_range(),
        ensures
            r == self.spec_neighbor(edge),
    {
        match edge {
            TileEdge::TopLeft => self.top_left(),
            TileEdge::Top => self.top(),
            TileEdge::TopRight => self.top_right(),
            TileEdge::BottomRight => self.bottom_right(),
            TileEdge::Bottom => self.bottom(),
            TileEdge::BottomLeft => self.bottom_left(),
        }
    }

    /// The six neighbors in a fixed order, before any bounds filtering.
    pub open spec fn spec_neighbor_list(self) -> Seq<TilePosition> {
        seq![
            self.spec_top(),
            self.spec_bottom(),
            self.spec_top_left(),
            self.spec_top_right(),
            self.spec_bottom_left(),
            self.spec_bottom_right(),
        ]
    }

    /// The six neighbors in a fixed order, keeping those inside the map.
    pub open spec fn spec_direct_neighbors(self, width: MapUnit, height: MapUnit) -> Seq<
        TilePosition,
    > {
        self.spec_neighbor_list().filter(|p: TilePosition| p.in_bounds(width, height))
    }

    pub fn direct_neighbors(self, width: MapUnit, height: MapUnit) -> (r: Vec<TilePosition>)
        requires
            self.in_range(),
        ensures
            r@ == self.spec_direct_neighbors(width, height),
    {
        let all: [TilePosition; 6] = [
            self.top(),
            self.bottom(),
            self.top_left(),
            self.top_right(),
            self.bottom_left(),
            self.bottom_right(),
        ];
        let mut r: Vec<TilePosition> = Vec::new();
        let mut i: usize = 0;
        while i < 6
            invariant
                0 <= i <= 6,
                all@ == self.spec_neighbor_list(),
                r@ == self.spec_neighbor_list().take(i as int).filter(
                    |p: TilePosition| p.in_bounds(width, height),
                ),
            decreases 6 - i,
        {
            let p = all[i];
            proof {
                assert(self.spec_neighbor_list().take(i + 1 as int).drop_last()
                    == self.spec_neighbor_list().take(i as int));
                reveal_with_fuel(Seq::filter, 2);
            }
            if p.x >= 0 && p.y >= 0 && p.x < width && p.y < height {
                r.push(p);
            }
            i += 1;
        }
        proof {
            assert(self.spec_neighbor_list().take(6) =~= self.spec_neighbor_list());
        }
        r
    }

    /// Hex-step distance on the unbounded grid, by doubled coordinates:
    /// each column keeps its x, rows are doubled with odd columns shifted
    /// down by one.
    pub open spec fn spec_distance_to(self, other: TilePosition) -> int {
        let r1 = 2 * self.y + (if self.spec_x_even() { 0int } else { 1int });
        let r2 = 2 * other.y + (if other.spec_x_even() { 0int } else { 1int });
        let dx = if self.x >= other.x { self.x - other.x } else { other.x - self.x };
        let dy = if r1 >= r2 { r1 - r2 } else { r2 - r1 };
        if dy > dx { dx + (dy - dx) / 2 } else { dx }
    }

    pub fn distance_to(self, other: TilePosition) -> (r: i32)
        requires
            self.in_range(),
            other.in_range(),
        ensures
            r == self.spec_distance_to(other),
    {
        let x1: i32 = self.x as i32;
        let y1: i32 = self.y as i32;
        let x2: i32 = other.x as i32;
        let y2: i32 = other.y as i32;
        let r1: i32 = 2 * y1 + (if self.x_even() { 0 } else { 1 });
        let r2: i32 = 2 * y2 + (if other.x_even() { 0 } else { 1 });
        let dx: i32 = if x1 >= x2 { x1 - x2 } else { x2 - x1 };
        let dy: i32 = if r1 >= r2 { r1 - r2 } else { r2 - r1 };
        if dy > dx { dx + (dy - dx) / 2 } else { dx }
    }
}

/// Distance table after recording, for each candidate from `i` on that
/// lies inside the map, a distance of one step.
pub open spec fn spec_ins_list(
    acc: Seq<(TilePosition, MapUnit)>,
    list: Seq<TilePosition>,
    i: int,
    width: MapUnit,
    height: MapUnit,
) -> Seq<(TilePosition, MapUnit)>
    decreases list.len() - i,
{
    if i < 0 || i >= list.len() {
        acc
    } else {
        let acc2 = if list[i].in_bounds(width, height) {
            dm_insert(acc, list[i], 1)
        } else {
            acc
        };
        spec_ins_list(acc2, list, i + 1, width, height)
    }
}

/// Distance table of the one-step neighborhood: the in-map neighbors at
/// distance one, and the tile itself at distance zero when `inclusive`.
pub open spec fn spec_nad1(
    p: TilePosition,
    width: MapUnit,
    height: MapUnit,
    inclusive: bool,
) -> Seq<(TilePosition, MapUnit)> {
    let base = spec_ins_list(
        Seq::<(TilePosition, MapUnit)>::empty(),
        p.spec_neighbor_list(),
        0,
        width,
        height,
    );
    if inclusive {
        dm_insert(base, p, 0)
    } else {
        base
    }
}

/// Accumulator after recording, for each one-step entry from `j` on whose
/// position is not already reached, the distance through the frontier tile.
pub open spec fn spec_expand_inner(
    prev: Seq<(TilePosition, MapUnit)>,
    inner: Seq<(TilePosition, MapUnit)>,
    j: int,
    base: MapUnit,
    acc: Seq<(TilePosition, MapUnit)>,
) -> Seq<(TilePosition, MapUnit)>
    decreases inner.len() - j,
{
    if j < 0 || j >= inner.len() {
        acc
    } else {
        let acc2 = if dm_contains(prev, inner[j].0) {
            acc
        } else {
            dm_insert(acc, inner[j].0, (base + inner[j].1) as i16)
        };
        spec_expand_inner(prev, inner, j + 1, base, acc2)
    }
}

/// Accumulator after expanding every reached tile from `i` on by one step.
pub open spec fn spec_expand_outer(
    prev: Seq<(TilePosition, MapUnit)>,
    i: int,
    acc: Seq<(TilePosition, MapUnit)>,
    width: MapUnit,
    height: MapUnit,
    inclusive: bool,
) -> Seq<(TilePosition, MapUnit)>
    decreases prev.len() - i,
{
    if i < 0 || i >= prev.len() {
        acc
    } else {
        let inner = spec_nad1(prev[i].0, width, height, inclusive);
        let acc2 = spec_expand_inner(prev, inner, 0, prev[i].1, acc);
        spec_expand_outer(prev, i + 1, acc2, width, height, inclusive)
    }
}

/// One ring of expansion around a reached set: what was reached stays (for
/// inclusive queries), and every in-map neighbor of a reached tile that is
/// not itself reached is recorded one step further out.
pub open spec fn spec_expand(
    prev: Seq<(TilePosition, MapUnit)>,
    width: MapUnit,
    height: MapUnit,
    inclusive: bool,
) -> Seq<(TilePosition, MapUnit)> {
    let acc = if inclusive {
        prev
    } else {
        Seq::<(TilePosition, MapUnit)>::empty()
    };
    spec_expand_outer(prev, 0, acc, width, height, inclusive)
}

/// Distance table of the tiles within `distance` steps (inclusive) or at
/// exactly `distance` steps (exclusive), built by repeated one-step
/// expansion of the inclusive ball.
pub open spec fn spec_neighbors_at_distance(
    p: TilePosition,
    width: MapUnit,
    height: MapUnit,
    distance: int,
    inclusive: bool,
) -> Seq<(TilePosition, MapUnit)>
    decreases distance,
{
    if distance <= 0 {
        if inclusive {
            seq![(p, 0 as MapUnit)]
        } else {
            Seq::<(TilePosition, MapUnit)>::empty()
        }
    } else if distance == 1 {
        spec_nad1(p, width, height, inclusive)
    } else {
        spec_expand(
            spec_neighbors_at_distance(p, width, height, distance - 1, true),
            width,
            height,
            inclusive,
        )
    }
}

/// Recording one-step candidates keeps the table well formed and bounded.
proof fn lemma_ins_list_props(
    acc: Seq<(TilePosition, MapUnit)>,
    list: Seq<TilePosition>,
    i: int,
    width: MapUnit,
    height: MapUnit,
    maxv: int,
)
    requires
        dm_wf(acc),
        dm_bounded(acc, maxv),
        1 <= maxv,
        0 <= width <= MAX_MAP_DIM,
        0 <= height <= MAX_MAP_DIM,
    ensures
        dm_wf(spec_ins_list(acc, list, i, width, height)),
        dm_bounded(spec_ins_list(acc, list, i, width, height), maxv),
    decreases list.len() - i,
{
    if 0 <= i < list.len() {
        if list[i].in_bounds(width, height) {
            lemma_dm_insert_wf(acc, list[i], 1);
            lemma_dm_insert_bounded(acc, list[i], 1, maxv);
            lemma_ins_list_props(dm_insert(acc, list[i], 1), list, i + 1, width, height, maxv);
        } else {
            lemma_ins_list_props(acc, list, i + 1, width, height, maxv);
        }
    }
}

/// The one-step neighborhood is well formed and bounded by one step.
proof fn lemma_nad1_props(
    p: TilePosition,
    width: MapUnit,
    height: MapUnit,
    inclusive: bool,
    maxv: int,
)
    requires
        p.in_range(),
        0 <= width <= MAX_MAP_DIM,
        0 <= height <= MAX_MAP_DIM,
        1 <= maxv,
    ensures
        dm_wf(spec_nad1(p, width, height, inclusive)),
        dm_bounded(spec_nad1(p, width, height, inclusive), maxv),
{
    let base = spec_ins_list(
        Seq::<(TilePosition, MapUnit)>::empty(),
        p.spec_neighbor_list(),
        0,
        width,
        height,
    );
    lemma_ins_list_props(
        Seq::<(TilePosition, MapUnit)>::empty(),
        p.spec_neighbor_list(),
        0,
        width,
        height,
        maxv,
    );
    if inclusive {
        lemma_dm_insert_wf(base, p, 0);
        lemma_dm_insert_bounded(base, p, 0, maxv);
    }
}

/// Expanding one frontier tile keeps the table well formed and bounded.
proof fn lemma_expand_inner_props(
    prev: Seq<(TilePosition, MapUnit)>,
    inner: Seq<(TilePosition, MapUnit)>,
    j: int,
    base: MapUnit,
    acc: Seq<(TilePosition, MapUnit)>,
    maxv: int,
)
    requires
        dm_wf(acc),
        dm_bounded(acc, maxv),
        dm_bounded(inner, 1),
        0 <= base,
        base + 1 <= maxv,
        maxv <= MAX_MAP_DIM,
    ensures
        dm_wf(spec_expand_inner(prev, inner, j, base, acc)),
        dm_bounded(spec_expand_inner(prev, inner, j, base, acc), maxv),
    decreases inner.len() - j,
{
    if 0 <= j < inner.len() {
        if dm_contains(prev, inner[j].0) {
            lemma_expand_inner_props(prev, inner, j + 1, base, acc, maxv);
        } else {
            assert(0 <= inner[j].1 <= 1 && inner[j].0.in_range());
            let v = (base + inner[j].1) as i16;
            assert(0 <= v <= maxv);
            let acc2 = dm_insert(acc, inner[j].0, v);
            lemma_dm_insert_wf(acc, inner[j].0, v);
            lemma_dm_insert_bounded(acc, inner[j].0, v, maxv);
            lemma_expand_inner_props(prev, inner, j + 1, base, acc2, maxv);
        }
    }
}

/// Expanding the whole frontier keeps the table well formed and bounded.
proof fn lemma_expand_outer_props(
    prev: Seq<(TilePosition, MapUnit)>,
    i: int,
    acc: Seq<(TilePosition, MapUnit)>,
    width: MapUnit,
    height: MapUnit,
    inclusive: bool,
    maxv: int,
)
    requires
        dm_wf(acc),
        dm_bounded(acc, maxv),
        dm_bounded(prev, maxv - 1),
        0 <= width <= MAX_MAP_DIM,
        0 <= height <= MAX_MAP_DIM,
        1 <= maxv <= MAX_MAP_DIM,
    ensures
        dm_wf(spec_expand_outer(prev, i, acc, width, height, inclusive)),
        dm_bounded(spec_expand_outer(prev, i, acc, width, height, inclusive), maxv),
    decreases prev.len() - i,
{
    if 0 <= i < prev.len() {
        let inner = spec_nad1(prev[i].0, width, height, inclusive);
        lemma_nad1_props(prev[i].0, width, height, inclusive, 1);
        let acc2 = spec_expand_inner(prev, inner, 0, prev[i].1, acc);
        lemma_expand_inner_props(prev, inner, 0, prev[i].1, acc, maxv);
        lemma_expand_outer_props(prev, i + 1, acc2, width, height, inclusive, maxv);
    }
}

/// The distance table within `distance` steps is well formed and each of
/// its entries lies within `distance` steps.
pub proof fn lemma_nad_props(
    p: TilePosition,
    width: MapUnit,
    height: MapUnit,
    distance: int,
    inclusive: bool,
)
    requires
        p.in_range(),
        0 <= width <= MAX_MAP_DIM,
        0 <= height <= MAX_MAP_DIM,
        0 <= distance <= MAX_MAP_DIM,
    ensures
        dm_wf(spec_neighbors_at_distance(p, width, height, distance, inclusive)),
        dm_bounded(
            spec_neighbors_at_distance(p, width, height, distance, inclusive),
            if distance == 0 { 0 } else { distance },
        ),
    decreases distance,
{
    if distance <= 0 {
        let s = spec_neighbors_at_distance(p, width, height, distance, inclusive);
        assert(dm_wf(s));
        assert(dm_bounded(s, 0));
    } else if distance == 1 {
        lemma_nad1_props(p, width, height, inclusive, 1);
    } else {
        let prev = spec_neighbors_at_distance(p, width, height, distance - 1, true);
        lemma_nad_props(p, width, height, distance - 1, true);
        assert(dm_bounded(prev, distance - 1));
        let acc = if inclusive {
            prev
        } else {
            Seq::<(TilePosition, MapUnit)>::empty()
        };
        assert(dm_bounded(acc, distance));
        lemma_expand_outer_props(prev, 0, acc, width, height, inclusive, distance);
    }
}

/// Expanding one frontier tile never loses a reached tile.
proof fn lemma_expand_inner_contains(
    prev: Seq<(TilePosition, MapUnit)>,
    inner: Seq<(TilePosition, MapUnit)>,
    j: int,
    base: MapUnit,
    acc: Seq<(TilePosition, MapUnit)>,
    q: TilePosition,
)
    requires
        dm_wf(acc),
        dm_contains(acc, q),
    ensures
        dm_contains(spec_expand_inner(prev, inner, j, base, acc), q),
    decreases inner.len() - j,
{
    if 0 <= j < inner.len() {
        if dm_contains(prev, inner[j].0) {
            lemma_expand_inner_contains(prev, inner, j + 1, base, acc, q);
        } else {
            let v = (base + inner[j].1) as i16;
            crate::distances::lemma_dm_insert_contains(acc, inner[j].0, v, q);
            lemma_dm_insert_wf(acc, inner[j].0, v);
            lemma_expand_inner_contains(prev, inner, j + 1, base, dm_insert(acc, inner[j].0, v), q);
        }
    }
}

/// Expanding the whole frontier never loses a reached tile.
proof fn lemma_expand_outer_contains(
    prev: Seq<(TilePosition, MapUnit)>,
    i: int,
    acc: Seq<(TilePosition, MapUnit)>,
    width: MapUnit,
    height: MapUnit,
    inclusive: bool,
    q: TilePosition,
)
    requires
        dm_wf(acc),
        dm_contains(acc, q),
    ensures
        dm_contains(spec_expand_outer(prev, i, acc, width, height, inclusive), q),
    decreases prev.len() - i,
{
    if 0 <= i < prev.len() {
        let inner = spec_nad1(prev[i].0, width, height, inclusive);
        let acc2 = spec_expand_inner(prev, inner, 0, prev[i].1, acc);
        lemma_expand_inner_contains(prev, inner, 0, prev[i].1, acc, q);
        lemma_expand_inner_wf(prev, inner, 0, prev[i].1, acc);
        lemma_expand_outer_contains(prev, i + 1, acc2, width, height, inclusive, q);
    }
}

/// Expanding one frontier tile keeps the table well formed, with no
/// bound on the recorded distances.
proof fn lemma_expand_inner_wf(
    prev: Seq<(TilePosition, MapUnit)>,
    inner: Seq<(TilePosition, MapUnit)>,
    j: int,
    base: MapUnit,
    acc: Seq<(TilePosition, MapUnit)>,
)
    requires
        dm_wf(acc),
    ensures
        dm_wf(spec_expand_inner(prev, inner, j, base, acc)),
    decreases inner.len() - j,
{
    if 0 <= j < inner.len() {
        if dm_contains(prev, inner[j].0) {
            lemma_expand_inner_wf(prev, inner, j + 1, base, acc);
        } else {
            let v = (base + inner[j].1) as i16;
            lemma_dm_insert_wf(acc, inner[j].0, v);
            lemma_expand_inner_wf(prev, inner, j + 1, base, dm_insert(acc, inner[j].0, v));
        }
    }
}

/// One hex step is symmetric: a tile is its own neighbors' neighbor.
pub proof fn lemma_neighbor_symmetric(p: TilePosition, q: TilePosition)
    requires
        p.in_range(),
        p.spec_neighbor_list().contains(q),
    ensures
        q.spec_neighbor_list().contains(p),
{
    let l = q.spec_neighbor_list();
    if q == p.spec_top() {
        assert(l[1] == p);
    } else if q == p.spec_bottom() {
        assert(l[0] == p);
    } else if q == p.spec_top_left() {
        assert(l[5] == p);
    } else if q == p.spec_top_right() {
        assert(l[4] == p);
    } else if q == p.spec_bottom_left() {
        assert(l[3] == p);
    } else {
        assert(q == p.spec_bottom_right());
        assert(l[2] == p);
    }
}

/// An inclusive distance table is centered: the center is recorded at
/// zero steps, and every other entry is an in-map tile at one step or
/// more.
pub open spec fn dm_centered(
    s: Seq<(TilePosition, MapUnit)>,
    width: MapUnit,
    height: MapUnit,
    center: TilePosition,
) -> bool {
    &&& forall|i: int|
        0 <= i < s.len() ==> ({
            let e = #[trigger] s[i];
            (e.0 == center && e.1 == 0) || (e.0 != center && e.0.in_bounds(width, height) && e.1
                >= 1)
        })
    &&& dm_get(s, center) == Some(0 as i16)
}

/// Some neighbor of `q` is recorded one step closer in `tref`.
pub open spec fn dm_step_down(
    tref: Seq<(TilePosition, MapUnit)>,
    q: TilePosition,
    d: MapUnit,
) -> bool {
    exists|n: TilePosition|
        #[trigger] q.spec_neighbor_list().contains(n) && dm_get(tref, n) == Some((d - 1) as i16)
}

/// Every reached tile other than the center has a neighbor recorded one
/// step closer in `tref`.
pub open spec fn dm_all_step_down(
    t: Seq<(TilePosition, MapUnit)>,
    tref: Seq<(TilePosition, MapUnit)>,
) -> bool {
    forall|i: int|
        0 <= i < t.len() ==> ((#[trigger] t[i]).1 >= 1 ==> dm_step_down(tref, t[i].0, t[i].1))
}

/// Every entry of the one-step table is the center at zero steps or one
/// of its in-map neighbors at one step.
proof fn lemma_ins_list_entries(
    acc: Seq<(TilePosition, MapUnit)>,
    list: Seq<TilePosition>,
    i: int,
    width: MapUnit,
    height: MapUnit,
    f: TilePosition,
)
    requires
        dm_wf(acc),
        list == f.spec_neighbor_list(),
        forall|j: int|
            0 <= j < acc.len() ==> ({
                let e = #[trigger] acc[j];
                f.spec_neighbor_list().contains(e.0) && e.0.in_bounds(width, height) && e.1 == 1
            }),
    ensures
        dm_wf(spec_ins_list(acc, list, i, width, height)),
        forall|j: int|
            0 <= j < spec_ins_list(acc, list, i, width, height).len() ==> ({
                let e = #[trigger] spec_ins_list(acc, list, i, width, height)[j];
                f.spec_neighbor_list().contains(e.0) && e.0.in_bounds(width, height) && e.1 == 1
            }),
    decreases list.len() - i,
{
    if 0 <= i < list.len() {
        if list[i].in_bounds(width, height) {
            assert(f.spec_neighbor_list()[i] == list[i]);
            crate::distances::lemma_dm_insert_all(
                acc,
                list[i],
                1,
                |e: (TilePosition, MapUnit)|
                    f.spec_neighbor_list().contains(e.0) && e.0.in_bounds(width, height) && e.1
                        == 1,
            );
            lemma_dm_insert_wf(acc, list[i], 1);
            lemma_ins_list_entries(dm_insert(acc, list[i], 1), list, i + 1, width, height, f);
        } else {
            lemma_ins_list_entries(acc, list, i + 1, width, height, f);
        }
    }
}

/// The center differs from each of its six neighbors.
proof fn lemma_neighbors_are_not_center(p: TilePosition)
    requires
        p.in_range(),
    ensures
        forall|n: TilePosition| #[trigger] p.spec_neighbor_list().contains(n) ==> n != p,
{
    assert forall|n: TilePosition| #[trigger] p.spec_neighbor_list().contains(n) implies n
        != p by {
        assert(p.spec_neighbor_list()[0] == p.spec_top());
    }
}

/// The inclusive one-step table is centered, and every one-step entry
/// really is a neighbor of the center.
proof fn lemma_nad1_centered(p: TilePosition, width: MapUnit, height: MapUnit)
    requires
        p.in_range(),
        0 <= width <= MAX_MAP_DIM,
        0 <= height <= MAX_MAP_DIM,
    ensures
        dm_centered(spec_nad1(p, width, height, true), width, height, p),
        forall|j: int|
            0 <= j < spec_nad1(p, width, height, true).len() ==> ({
                let e = #[trigger] spec_nad1(p, width, height, true)[j];
                e.0 == p || (p.spec_neighbor_list().contains(e.0) && e.1 == 1)
            }),
{
    let base = spec_ins_list(
        Seq::<(TilePosition, MapUnit)>::empty(),
        p.spec_neighbor_list(),
        0,
        width,
        height,
    );
    lemma_ins_list_entries(
        Seq::<(TilePosition, MapUnit)>::empty(),
        p.spec_neighbor_list(),
        0,
        width,
        height,
        p,
    );
    lemma_neighbors_are_not_center(p);
    let t = dm_insert(base, p, 0);
    crate::distances::lemma_dm_insert_get(base, p, 0, p);
    crate::distances::lemma_dm_find_from(base, p, 0);
    let f = crate::distances::dm_find(base, p);
    assert(f == -1) by {
        if f >= 0 {
            assert(base[f].0 == p);
        }
    }
    assert(t == base.push((p, 0 as i16)));
    assert forall|j: int| 0 <= j < t.len() implies ({
        let e = #[trigger] t[j];
        (e.0 == p && e.1 == 0) || (e.0 != p && e.0.in_bounds(width, height) && e.1 >= 1)
    }) by {
        if j < base.len() {
            assert(t[j] == base[j]);
        }
    }
}

/// A tile already reached keeps its recorded distance through one
/// frontier tile's expansion.
proof fn lemma_expand_inner_keeps(
    prev: Seq<(TilePosition, MapUnit)>,
    inner: Seq<(TilePosition, MapUnit)>,
    j: int,
    base: MapUnit,
    acc: Seq<(TilePosition, MapUnit)>,
    k: TilePosition,
)
    requires
        dm_wf(acc),
        dm_contains(prev, k),
    ensures
        dm_get(spec_expand_inner(prev, inner, j, base, acc), k) == dm_get(acc, k),
    decreases inner.len() - j,
{
    if 0 <= j < inner.len() {
        if dm_contains(prev, inner[j].0) {
            lemma_expand_inner_keeps(prev, inner, j + 1, base, acc, k);
        } else {
            let v = (base + inner[j].1) as i16;
            assert(inner[j].0 != k);
            lemma_dm_insert_get(acc, inner[j].0, v, k);
            lemma_dm_insert_wf(acc, inner[j].0, v);
            lemma_expand_inner_keeps(prev, inner, j + 1, base, dm_insert(acc, inner[j].0, v), k);
        }
    }
}

/// A tile already reached keeps its recorded distance through a whole
/// ring of expansion.
proof fn lemma_expand_outer_keeps(
    prev: Seq<(TilePosition, MapUnit)>,
    i: int,
    acc: Seq<(TilePosition, MapUnit)>,
    width: MapUnit,
    height: MapUnit,
    inclusive: bool,
    k: TilePosition,
)
    requires
        dm_wf(acc),
        dm_contains(prev, k),
    ensures
        dm_get(spec_expand_outer(prev, i, acc, width, height, inclusive), k) == dm_get(acc, k),
    decreases prev.len() - i,
{
    if 0 <= i < prev.len() {
        let inner = spec_nad1(prev[i].0, width, height, inclusive);
        lemma_expand_inner_keeps(prev, inner, 0, prev[i].1, acc, k);
        lemma_expand_inner_wf(prev, inner, 0, prev[i].1, acc);
        lemma_expand_outer_keeps(
            prev,
            i + 1,
            spec_expand_inner(prev, inner, 0, prev[i].1, acc),
            width,
            height,
            inclusive,
            k,
        );
    }
}

/// One frontier tile's expansion keeps the table centered and keeps
/// every entry one step from a closer one, the frontier tile itself
/// serving as the new entries' closer neighbor.
proof fn lemma_expand_inner_step(
    prev: Seq<(TilePosition, MapUnit)>,
    inner: Seq<(TilePosition, MapUnit)>,
    j: int,
    base: MapUnit,
    acc: Seq<(TilePosition, MapUnit)>,
    width: MapUnit,
    height: MapUnit,
    center: TilePosition,
    f: TilePosition,
)
    requires
        dm_wf(acc),
        0 <= width <= MAX_MAP_DIM,
        0 <= height <= MAX_MAP_DIM,
        f.in_range(),
        inner == spec_nad1(f, width, height, true),
        dm_get(prev, f) == Some(base),
        0 <= base <= MAX_MAP_DIM - 1,
        dm_contains(prev, center),
        forall|m: int|
            0 <= m < acc.len() ==> ({
                let e = #[trigger] acc[m];
                (e.0 == center && e.1 == 0) || (e.0 != center && e.0.in_bounds(width, height)
                    && e.1 >= 1)
            }),
        dm_all_step_down(acc, prev),
    ensures
        dm_wf(spec_expand_inner(prev, inner, j, base, acc)),
        forall|m: int|
            0 <= m < spec_expand_inner(prev, inner, j, base, acc).len() ==> ({
                let e = #[trigger] spec_expand_inner(prev, inner, j, base, acc)[m];
                (e.0 == center && e.1 == 0) || (e.0 != center && e.0.in_bounds(width, height)
                    && e.1 >= 1)
            }),
        dm_all_step_down(spec_expand_inner(prev, inner, j, base, acc), prev),
    decreases inner.len() - j,
{
    lemma_nad1_centered(f, width, height);
    if 0 <= j < inner.len() {
        if dm_contains(prev, inner[j].0) {
            lemma_expand_inner_step(prev, inner, j + 1, base, acc, width, height, center, f);
        } else {
            let n = inner[j].0;
            let v = (base + inner[j].1) as i16;
            assert(n != f && n != center);
            assert(f.spec_neighbor_list().contains(n) && inner[j].1 == 1);
            lemma_neighbor_symmetric(f, n);
            assert(dm_step_down(prev, n, v)) by {
                assert(n.spec_neighbor_list().contains(f) && dm_get(prev, f) == Some(
                    ((v - 1) as i16),
                ));
            }
            crate::distances::lemma_dm_insert_all(
                acc,
                n,
                v,
                |e: (TilePosition, MapUnit)|
                    (e.0 == center && e.1 == 0) || (e.0 != center && e.0.in_bounds(width, height)
                        && e.1 >= 1),
            );
            crate::distances::lemma_dm_insert_all(
                acc,
                n,
                v,
                |e: (TilePosition, MapUnit)| e.1 >= 1 ==> dm_step_down(prev, e.0, e.1),
            );
            lemma_dm_insert_wf(acc, n, v);
            lemma_expand_inner_step(
                prev,
                inner,
                j + 1,
                base,
                dm_insert(acc, n, v),
                width,
                height,
                center,
                f,
            );
        }
    }
}

/// A whole ring of expansion keeps the table centered and keeps every
/// entry one step from a closer one.
proof fn lemma_expand_outer_step(
    prev: Seq<(TilePosition, MapUnit)>,
    i: int,
    acc: Seq<(TilePosition, MapUnit)>,
    width: MapUnit,
    height: MapUnit,
    center: TilePosition,
    bound: int,
)
    requires
        dm_wf(prev),
        dm_wf(acc),
        dm_bounded(prev, bound),
        0 <= bound <= MAX_MAP_DIM - 1,
        0 <= width <= MAX_MAP_DIM,
        0 <= height <= MAX_MAP_DIM,
        dm_contains(prev, center),
        forall|m: int|
            0 <= m < acc.len() ==> ({
                let e = #[trigger] acc[m];
                (e.0 == center && e.1 == 0) || (e.0 != center && e.0.in_bounds(width, height)
                    && e.1 >= 1)
            }),
        dm_all_step_down(acc, prev),
    ensures
        dm_wf(spec_expand_outer(prev, i, acc, width, height, true)),
        forall|m: int|
            0 <= m < spec_expand_outer(prev, i, acc, width, height, true).len() ==> ({
                let e = #[trigger] spec_expand_outer(prev, i, acc, width, height, true)[m];
                (e.0 == center && e.1 == 0) || (e.0 != center && e.0.in_bounds(width, height)
                    && e.1 >= 1)
            }),
        dm_all_step_down(spec_expand_outer(prev, i, acc, width, height, true), prev),
    decreases prev.len() - i,
{
    if 0 <= i < prev.len() {
        let f = prev[i].0;
        let base = prev[i].1;
        crate::distances::lemma_dm_entry_get(prev, i);
        let inner = spec_nad1(f, width, height, true);
        lemma_expand_inner_step(prev, inner, 0, base, acc, width, height, center, f);
        lemma_expand_outer_step(
            prev,
            i + 1,
            spec_expand_inner(prev, inner, 0, base, acc),
            width,
            height,
            center,
            bound,
        );
    }
}

/// The inclusive distance table is centered, and every reached tile
/// other than the center has a neighbor recorded exactly one step
/// closer — walking the table step by step always reaches the center.
pub proof fn lemma_nad_centered_step_down(
    p: TilePosition,
    width: MapUnit,
    height: MapUnit,
    d: int,
)
    requires
        p.in_range(),
        0 <= width <= MAX_MAP_DIM,
        0 <= height <= MAX_MAP_DIM,
        1 <= d <= MAX_MAP_DIM,
    ensures
        dm_centered(spec_neighbors_at_distance(p, width, height, d, true), width, height, p),
        dm_all_step_down(
            spec_neighbors_at_distance(p, width, height, d, true),
            spec_neighbors_at_distance(p, width, height, d, true),
        ),
    decreases d,
{
    lemma_nad_props(p, width, height, d, true);
    if d == 1 {
        let t = spec_nad1(p, width, height, true);
        lemma_nad1_centered(p, width, height);
        assert forall|i: int| 0 <= i < t.len() implies ((#[trigger] t[i]).1 >= 1
            ==> dm_step_down(t, t[i].0, t[i].1)) by {
            if t[i].1 >= 1 {
                let q = t[i].0;
                assert(p.spec_neighbor_list().contains(q) && t[i].1 == 1);
                lemma_neighbor_symmetric(p, q);
                assert(q.spec_neighbor_list().contains(p) && dm_get(t, p) == Some(0 as i16));
            }
        }
    } else {
        let prev = spec_neighbors_at_distance(p, width, height, d - 1, true);
        let t = spec_neighbors_at_distance(p, width, height, d, true);
        lemma_nad_centered_step_down(p, width, height, d - 1);
        lemma_nad_props(p, width, height, d - 1, true);
        crate::distances::lemma_dm_find_from(prev, p, 0);
        assert(dm_contains(prev, p));
        lemma_expand_outer_step(prev, 0, prev, width, height, p, d - 1);
        assert(t == spec_expand_outer(prev, 0, prev, width, height, true));
        // The center keeps its zero through the ring.
        lemma_expand_outer_keeps(prev, 0, prev, width, height, true, p);
        // Every closer neighbor found in the old table is still recorded,
        // with the same distance, in the new one.
        assert forall|i: int| 0 <= i < t.len() implies ((#[trigger] t[i]).1 >= 1
            ==> dm_step_down(t, t[i].0, t[i].1)) by {
            if t[i].1 >= 1 {
                let q = t[i].0;
                let v = t[i].1;
                assert(dm_step_down(prev, q, v));
                let n = choose|n: TilePosition|
                    #[trigger] q.spec_neighbor_list().contains(n) && dm_get(prev, n) == Some(
                        (v - 1) as i16,
                    );
                crate::distances::lemma_dm_find_from(prev, n, 0);
                lemma_expand_outer_keeps(prev, 0, prev, width, height, true, n);
                assert(q.spec_neighbor_list().contains(n) && dm_get(t, n) == Some((v - 1) as i16));
            }
        }
    }
}

/// Range-query monotonicity: on the same map, every tile reached within
/// `d1` steps of a start tile is also reached within `d2 >= d1` steps,
/// for inclusive queries.
pub proof fn lemma_range_query_monotone(
    p: TilePosition,
    width: MapUnit,
    height: MapUnit,
    d1: int,
    d2: int,
)
    requires
        p.in_range(),
        0 <= width <= MAX_MAP_DIM,
        0 <= height <= MAX_MAP_DIM,
        0 <= d1 <= d2 <= MAX_MAP_DIM,
    ensures
        forall|q: TilePosition|
            dm_contains(#[trigger] spec_neighbors_at_distance(p, width, height, d1, true), q)
                ==> dm_contains(spec_neighbors_at_distance(p, width, height, d2, true), q),
    decreases d2 - d1,
{
    if d1 == d2 {
        return ;
    }
    lemma_range_query_monotone(p, width, height, d1, d2 - 1);
    let prev = spec_neighbors_at_distance(p, width, height, d2 - 1, true);
    lemma_nad_props(p, width, height, d2 - 1, true);
    let cur = spec_neighbors_at_distance(p, width, height, d2, true);
    assert forall|q: TilePosition| dm_contains(prev, q) implies dm_contains(cur, q) by {
        if d2 == 1 {
            // Within zero steps only the tile itself is reached, and the
            // inclusive one-step table records it too.
            assert(prev == seq![(p, 0 as MapUnit)]);
            crate::distances::lemma_dm_find_from(prev, q, 0);
            assert(q == p);
            let base = spec_ins_list(
                Seq::<(TilePosition, MapUnit)>::empty(),
                p.spec_neighbor_list(),
                0,
                width,
                height,
            );
            lemma_ins_list_props(
                Seq::<(TilePosition, MapUnit)>::empty(),
                p.spec_neighbor_list(),
                0,
                width,
                height,
                1,
            );
            crate::distances::lemma_dm_insert_get(base, p, 0, p);
        } else {
            assert(cur == spec_expand(prev, width, height, true));
            lemma_expand_outer_contains(prev, 0, prev, width, height, true, q);
        }
    }
}

impl TilePosition {
    /// The one-step distance table around this tile.
    fn one_step(self, width: MapUnit, height: MapUnit, inclusive: bool) -> (r: Distances)
        requires
            self.in_range(),
            0 <= width <= MAX_MAP_DIM,
            0 <= height <= MAX_MAP_DIM,
        ensures
            r@ == spec_nad1(self, width, height, inclusive),
    {
        let all: [TilePosition; 6] = [
            self.top(),
            self.bottom(),
            self.top_left(),
            self.top_right(),
            self.bottom_left(),
            self.bottom_right(),
        ];
        let mut acc = Distances::new();
        let ghost target = spec_ins_list(
            Seq::<(TilePosition, MapUnit)>::empty(),
            self.spec_neighbor_list(),
            0,
            width,
            height,
        );
        let mut i: usize = 0;
        while i < 6
            invariant
                0 <= i <= 6,
                all@ == self.spec_neighbor_list(),
                spec_ins_list(acc@, all@, i as int, width, height) == target,
            decreases 6 - i,
        {
            let p = all[i];
            if p.x >= 0 && p.y >= 0 && p.x < width && p.y < height {
                acc.insert(p, 1);
            }
            i += 1;
        }
        if inclusive {
            acc.insert(self, 0);
        }
        acc
    }

    /// One ring of expansion around an already-reached set of tiles.
    fn neighbors_for_positions(
        positions: &Distances,
        width: MapUnit,
        height: MapUnit,
        inclusive: bool,
    ) -> (r: Distances)
        requires
            dm_wf(positions@),
            dm_bounded(positions@, MAX_MAP_DIM - 1),
            0 <= width <= MAX_MAP_DIM,
            0 <= height <= MAX_MAP_DIM,
        ensures
            r@ == spec_expand(positions@, width, height, inclusive),
    {
        let mut acc = if inclusive {
            positions.duplicate()
        } else {
            Distances::new()
        };
        let ghost target = spec_expand_outer(positions@, 0, acc@, width, height, inclusive);
        let mut i: usize = 0;
        while i < positions.entries.len()
            invariant
                0 <= i <= positions@.len(),
                dm_wf(positions@),
                dm_bounded(positions@, MAX_MAP_DIM - 1),
                0 <= width <= MAX_MAP_DIM,
                0 <= height <= MAX_MAP_DIM,
                spec_expand_outer(positions@, i as int, acc@, width, height, inclusive) == target,
            decreases positions@.len() - i,
        {
            let (p, base) = positions.entries[i];
            assert(positions@[i as int].0 == p && positions@[i as int].1 == base);
            let inner = p.one_step(width, height, inclusive);
            proof {
                lemma_nad1_props(p, width, height, inclusive, 1);
            }
            let ghost acc_in = acc@;
            let mut j: usize = 0;
            while j < inner.entries.len()
                invariant
                    0 <= j <= inner@.len(),
                    inner@ == spec_nad1(p, width, height, inclusive),
                    dm_bounded(inner@, 1),
                    0 <= base <= MAX_MAP_DIM - 1,
                    spec_expand_inner(positions@, inner@, j as int, base, acc@)
                        == spec_expand_inner(positions@, inner@, 0, base, acc_in),
                decreases inner@.len() - j,
            {
                let (n, nd) = inner.entries[j];
                assert(inner@[j as int].0 == n && inner@[j as int].1 == nd);
                if !positions.contains(n) {
                    acc.insert(n, base + nd);
                }
                j += 1;
            }
            proof {
                assert(acc@ == spec_expand_inner(positions@, inner@, 0, base, acc_in));
            }
            i += 1;
        }
        acc
    }

    /// The distance table of every tile reachable within `distance` steps
    /// (`inclusive`) or at exactly `distance` steps (not `inclusive`),
    /// with the number of steps recorded for each tile.
    pub fn neighbors_at_distance(
        self,
        map_width: MapUnit,
        map_height: MapUnit,
        distance: MapUnit,
        inclusive: bool,
    ) -> (r: Distances)
        requires
            self.in_range(),
            0 <= map_width <= MAX_MAP_DIM,
            0 <= map_height <= MAX_MAP_DIM,
            0 <= distance <= MAX_MAP_DIM,
        ensures
            r@ == spec_neighbors_at_distance(self, map_width, map_height, distance as int, inclusive),
            dm_wf(r@),
        decreases distance,
    {
        proof {
            lemma_nad_props(self, map_width, map_height, distance as int, inclusive);
        }
        if distance == 0 {
            let mut d = Distances::new();
            if inclusive {
                d.insert(self, 0);
                proof {
                    assert(d@ =~= seq![(self, 0 as MapUnit)]);
                }
            }
            d
        } else if distance == 1 {
            self.one_step(map_width, map_height, inclusive)
        } else {
            let prev = self.neighbors_at_distance(map_width, map_height, distance - 1, true);
            proof {
                lemma_nad_props(self, map_width, map_height, distance - 1, true);
            }
            Self::neighbors_for_positions(&prev, map_width, map_height, inclusive)
        }
    }
}

/// The canonical name of one edge of tile `t`: upper edges are the
/// tile's own canonical edges, lower edges are named through the
/// neighbor that shares them.
pub open spec fn spec_edge_between(t: TilePosition, e: TileEdge) -> EdgePosition {
    match e {
        TileEdge::TopLeft => EdgePosition(t, CanonicalTileEdge::TopLeft),
        TileEdge::Top => EdgePosition(t, CanonicalTileEdge::Top),
        TileEdge::TopRight => EdgePosition(t, CanonicalTileEdge::TopRight),
        TileEdge::BottomRight => EdgePosition(t.spec_bottom_right(), CanonicalTileEdge::TopLeft),
        TileEdge::Bottom => EdgePosition(t.spec_bottom(), CanonicalTileEdge::Top),
        TileEdge::BottomLeft => EdgePosition(t.spec_bottom_left(), CanonicalTileEdge::TopRight),
    }
}

/// The border edges contributed by one tile of a set: each of its six
/// edges whose far side is not in the set, in a fixed edge order.
pub open spec fn spec_border_edges_for(tiles: Seq<TilePosition>, t: TilePosition) -> Seq<
    EdgePosition,
> {
    let e0 = if !tiles.contains(t.spec_neighbor(TileEdge::TopLeft)) {
        seq![spec_edge_between(t, TileEdge::TopLeft)]
    } else {
        Seq::<EdgePosition>::empty()
    };
    let e1 = if !tiles.contains(t.spec_neighbor(TileEdge::Top)) {
        seq![spec_edge_between(t, TileEdge::Top)]
    } else {
        Seq::<EdgePosition>::empty()
    };
    let e2 = if !tiles.contains(t.spec_neighbor(TileEdge::TopRight)) {
        seq![spec_edge_between(t, TileEdge::TopRight)]
    } else {
        Seq::<EdgePosition>::empty()
    };
    let e3 = if !tiles.contains(t.spec_neighbor(TileEdge::BottomRight)) {
        seq![spec_edge_between(t, TileEdge::BottomRight)]
    } else {
        Seq::<EdgePosition>::empty()
    };
    let e4 = if !tiles.contains(t.spec_neighbor(TileEdge::Bottom)) {
        seq![spec_edge_between(t, TileEdge::Bottom)]
    } else {
        Seq::<EdgePosition>::empty()
    };
    let e5 = if !tiles.contains(t.spec_neighbor(TileEdge::BottomLeft)) {
        seq![spec_edge_between(t, TileEdge::BottomLeft)]
    } else {
        Seq::<EdgePosition>::empty()
    };
    e0 + e1 + e2 + e3 + e4 + e5
}

/// The border of a tile set: every tile's border edges, walked from `i`
/// on, in tile order.
pub open spec fn spec_borders_from(tiles: Seq<TilePosition>, i: int) -> Seq<EdgePosition>
    decreases tiles.len() - i,
{
    if i < 0 || i >= tiles.len() {
        Seq::<EdgePosition>::empty()
    } else {
        spec_border_edges_for(tiles, tiles[i]) + spec_borders_from(tiles, i + 1)
    }
}

/// The border of a tile set: each edge that separates a tile in the set
/// from one outside it, named canonically, in a deterministic order.
pub open spec fn spec_borders(tiles: Seq<TilePosition>) -> Seq<EdgePosition> {
    spec_borders_from(tiles, 0)
}

/// Whether the list holds the given position.
fn list_contains_pos(tiles: &Vec<TilePosition>, p: TilePosition) -> (r: bool)
    ensures
        r == tiles@.contains(p),
{
    let mut i: usize = 0;
    while i < tiles.len()
        invariant
            0 <= i <= tiles@.len(),
            forall|j: int| 0 <= j < i ==> tiles@[j] != p,
        decreases tiles@.len() - i,
    {
        if tiles[i].x == p.x && tiles[i].y == p.y {
            proof {
                assert(tiles@[i as int] == p);
            }
            return true;
        }
        i += 1;
    }
    false
}

impl TilePosition {
    /// The border edges this tile contributes to the border of a set.
    fn border_edges_for(tiles: &Vec<TilePosition>, t: TilePosition) -> (r: Vec<EdgePosition>)
        requires
            t.in_range(),
        ensures
            r@ == spec_border_edges_for(tiles@, t),
    {
        let mut r: Vec<EdgePosition> = Vec::new();
        if !list_contains_pos(tiles, t.top_left()) {
            r.push(EdgePosition(t, CanonicalTileEdge::TopLeft));
        }
        if !list_contains_pos(tiles, t.top()) {
            r.push(EdgePosition(t, CanonicalTileEdge::Top));
        }
        if !list_contains_pos(tiles, t.top_right()) {
            r.push(EdgePosition(t, CanonicalTileEdge::TopRight));
        }
        if !list_contains_pos(tiles, t.bottom_right()) {
            r.push(EdgePosition(t.bottom_right(), CanonicalTileEdge::TopLeft));
        }
        if !list_contains_pos(tiles, t.bottom()) {
            r.push(EdgePosition(t.bottom(), CanonicalTileEdge::Top));
        }
        if !list_contains_pos(tiles, t.bottom_left()) {
            r.push(EdgePosition(t.bottom_left(), CanonicalTileEdge::TopRight));
        }
        proof {
            assert(r@ =~= spec_border_edges_for(tiles@, t));
        }
        r
    }

    /// The border of a set of tiles: every edge between a tile in the
    /// set and one outside it, named canonically.
    pub fn borders(tiles: &Vec<TilePosition>) -> (r: Vec<EdgePosition>)
        requires
            forall|i: int| 0 <= i < tiles@.len() ==> (#[trigger] tiles@[i]).in_range(),
        ensures
            r@ == spec_borders(tiles@),
    {
        let mut r: Vec<EdgePosition> = Vec::new();
        let mut i: usize = 0;
        while i < tiles.len()
            invariant
                0 <= i <= tiles@.len(),
                forall|j: int| 0 <= j < tiles@.len() ==> (#[trigger] tiles@[j]).in_range(),
                r@ + spec_borders_from(tiles@, i as int) == spec_borders(tiles@),
            decreases tiles@.len() - i,
        {
            let mut es = Self::border_edges_for(tiles, tiles[i]);
            proof {
                assert((r@ + es@) + spec_borders_from(tiles@, i + 1 as int) =~= r@ + (es@
                    + spec_borders_from(tiles@, i + 1 as int)));
            }
            r.append(&mut es);
            i += 1;
        }
        proof {
            assert(r@ + spec_borders_from(tiles@, tiles@.len() as int) =~= r@);
        }
        r
    }
}

impl EdgePosition {
    /// The two tiles this edge separates, each with the edge as seen from
    /// that tile.
    pub open spec fn spec_boundary_tile_and_edges(self) -> (
        (TilePosition, TileEdge),
        (TilePosition, TileEdge),
    ) {
        let EdgePosition(tile, edge) = self;
        match edge {
            CanonicalTileEdge::TopLeft => (
                (tile.spec_top_left(), TileEdge::BottomRight),
                (tile, TileEdge::TopLeft),
            ),
            CanonicalTileEdge::Top => ((tile.spec_top(), TileEdge::Bottom), (tile, TileEdge::Top)),
            CanonicalTileEdge::TopRight => (
                (tile.spec_top_right(), TileEdge::BottomLeft),
                (tile, TileEdge::TopRight),
            ),
        }
    }

    pub fn boundary_tile_and_edges(self) -> (r: ((TilePosition, TileEdge), (TilePosition, TileEdge)))
        requires
            self.0.in_range(),
        ensures
            r == self.spec_boundary_tile_and_edges(),
    {
        let EdgePosition(tile, edge) = self;
        match edge {
            CanonicalTileEdge::TopLeft => (
                (tile.top_left(), TileEdge::BottomRight),
                (tile, TileEdge::TopLeft),
            ),
            CanonicalTileEdge::Top => ((tile.top(), TileEdge::Bottom), (tile, TileEdge::Top)),
            CanonicalTileEdge::TopRight => (
                (tile.top_right(), TileEdge::BottomLeft),
                (tile, TileEdge::TopRight),
            ),
        }
    }

    /// The edge one step to the upper left along the edge's own tile ring.
    pub open spec fn spec_top_left(self) -> EdgePosition {
        let EdgePosition(tile, edge) = self;
        match edge {
            CanonicalTileEdge::TopLeft => EdgePosition(
                tile.spec_top_left(),
                CanonicalTileEdge::TopRight,
            ),
            CanonicalTileEdge::Top => EdgePosition(tile.spec_top_left(), CanonicalTileEdge::TopRight),
            CanonicalTileEdge::TopRight => EdgePosition(tile, CanonicalTileEdge::Top),
        }
    }

    pub fn top_left(self) -> (r: Self)
        requires
            self.0.in_range(),
        ensures
            r == self.spec_top_left(),
    {
        let EdgePosition(tile, edge) = self;
        match edge {
            CanonicalTileEdge::TopLeft => EdgePosition(tile.top_left(), CanonicalTileEdge::TopRight),
            CanonicalTileEdge::Top => EdgePosition(tile.top_left(), CanonicalTileEdge::TopRight),
            CanonicalTileEdge::TopRight => EdgePosition(tile, CanonicalTileEdge::Top),
        }
    }

    pub open spec fn spec_top_right(self) -> EdgePosition {
        let EdgePosition(tile, edge) = self;
        match edge {
            CanonicalTileEdge::TopLeft => EdgePosition(tile, CanonicalTileEdge::Top),
            CanonicalTileEdge::Top => EdgePosition(tile.spec_top_right(), CanonicalTileEdge::TopLeft),
            CanonicalTileEdge::TopRight => EdgePosition(
                tile.spec_top_right(),
                CanonicalTileEdge::TopLeft,
            ),
        }
    }

    pub fn top_right(self) -> (r: Self)
        requires
            self.0.in_range(),
        ensures
            r == self.spec_top_right(),
    {
        let EdgePosition(tile, edge) = self;
        match edge {
            CanonicalTileEdge::TopLeft => EdgePosition(tile, CanonicalTileEdge::Top),
            CanonicalTileEdge::Top => EdgePosition(tile.top_right(), CanonicalTileEdge::TopLeft),
            CanonicalTileEdge::TopRight => EdgePosition(tile.top_right(), CanonicalTileEdge::TopLeft),
        }
    }

    pub open spec fn spec_bottom_left(self) -> EdgePosition {
        let EdgePosition(tile, edge) = self;
        match edge {
            CanonicalTileEdge::TopLeft => EdgePosition(
                tile.spec_bottom_left(),
                CanonicalTileEdge::Top,
            ),
            CanonicalTileEdge::Top => EdgePosition(tile, CanonicalTileEdge::TopLeft),
            CanonicalTileEdge::TopRight => EdgePosition(
                tile.spec_bottom_right(),
                CanonicalTileEdge::TopLeft,
            ),
        }
    }

    pub fn bottom_left(self) -> (r: Self)
        requires
            self.0.in_range(),
        ensures
            r == self.spec_bottom_left(),
    {
        let EdgePosition(tile, edge) = self;
        match edge {
            CanonicalTileEdge::TopLeft => EdgePosition(tile.bottom_left(), CanonicalTileEdge::Top),
            CanonicalTileEdge::Top => EdgePosition(tile, CanonicalTileEdge::TopLeft),
            CanonicalTileEdge::TopRight => EdgePosition(
                tile.bottom_right(),
                CanonicalTileEdge::TopLeft,
            ),
        }
    }

    pub open spec fn spec_bottom_right(self) -> EdgePosition {
        let EdgePosition(tile, edge) = self;
        match edge {
            CanonicalTileEdge::TopLeft => EdgePosition(
                tile.spec_bottom_left(),
                CanonicalTileEdge::TopRight,
            ),
            CanonicalTileEdge::Top => EdgePosition(tile, CanonicalTileEdge::TopRight),
            CanonicalTileEdge::TopRight => EdgePosition(
                tile.spec_bottom_right(),
                CanonicalTileEdge::Top,
            ),
        }
    }

    pub fn bottom_right(self) -> (r: Self)
        requires
            self.0.in_range(),
        ensures
            r == self.spec_bottom_right(),
    {
        let EdgePosition(tile, edge) = self;
        match edge {
            CanonicalTileEdge::TopLeft => EdgePosition(
                tile.bottom_left(),
                CanonicalTileEdge::TopRight,
            ),
            CanonicalTileEdge::Top => EdgePosition(tile, CanonicalTileEdge::TopRight),
            CanonicalTileEdge::TopRight => EdgePosition(tile.bottom_right(), CanonicalTileEdge::Top),
        }
    }
}

} // verus!
