//! The map: a fixed dense grid of tiles, created once at world
//! generation; its width and height never change.

use vstd::prelude::*;
use crate::map_position::{
    spec_edge_between, EdgePosition, MapUnit, TileEdge, TilePosition, MAX_MAP_DIM,
};
use crate::tile::{Tile, TileType};
use crate::yields::YieldValue;

verus! {

/// The spec-level shape of the map: a column-major grid of tiles.
#[verifier::ext_equal]
pub struct GameMapModel {
    pub width: MapUnit,
    pub height: MapUnit,
    pub tiles: Seq<Seq<Tile>>,
}

/// The tile of the model at an in-bounds position.
pub open spec fn spec_tile_at(m: GameMapModel, p: TilePosition) -> Tile {
    m.tiles[p.x as int][p.y as int]
}

/// The model with the tile at an in-bounds position replaced.
pub open spec fn spec_set_tile(m: GameMapModel, p: TilePosition, t: Tile) -> GameMapModel {
    GameMapModel {
        tiles: m.tiles.update(p.x as int, m.tiles[p.x as int].update(p.y as int, t)),
        ..m
    }
}

/// The blank all-plains map the world starts from.
pub open spec fn spec_new_map(width: MapUnit, height: MapUnit) -> GameMapModel {
    GameMapModel {
        width,
        height,
        tiles: Seq::new(
            width as nat,
            |x: int|
                Seq::new(
                    height as nat,
                    |y: int| Tile::spec_new(
                        TilePosition { x: x as i16, y: y as i16 },
                        TileType::Plains,
                    ),
                ),
        ),
    }
}

/// The map with a river on each in-bounds side of an edge, and whether
/// any tile was changed.
pub open spec fn spec_add_river(m: GameMapModel, pos: EdgePosition) -> (GameMapModel, bool) {
    let ((t1, e1), (t2, e2)) = pos.spec_boundary_tile_and_edges();
    let (m1, mod1) = if t1.in_bounds(m.width, m.height) {
        (
            spec_set_tile(
                m,
                t1,
                Tile { rivers: spec_tile_at(m, t1).rivers.spec_with(e1), ..spec_tile_at(m, t1) },
            ),
            true,
        )
    } else {
        (m, false)
    };
    if t2.in_bounds(m1.width, m1.height) {
        (
            spec_set_tile(
                m1,
                t2,
                Tile { rivers: spec_tile_at(m1, t2).rivers.spec_with(e2), ..spec_tile_at(m1, t2) },
            ),
            true,
        )
    } else {
        (m1, mod1)
    }
}

/// How far the path query searches: the sum of the map's dimensions
/// bounds any route it could return, capped at the geometry's range.
pub open spec fn spec_path_limit(width: MapUnit, height: MapUnit) -> int {
    if width + height > MAX_MAP_DIM {
        MAX_MAP_DIM as int
    } else {
        width + height
    }
}

/// Two positions are one hex step apart.
pub open spec fn spec_adjacent(p: TilePosition, q: TilePosition) -> bool {
    ||| q == p.spec_top()
    ||| q == p.spec_bottom()
    ||| q == p.spec_top_left()
    ||| q == p.spec_top_right()
    ||| q == p.spec_bottom_left()
    ||| q == p.spec_bottom_right()
}

/// A fixed `width` by `height` dense grid of tiles, column major.
pub struct GameMap {
    pub width: MapUnit,
    pub height: MapUnit,
    pub tiles: Vec<Vec<Tile>>,
}

impl GameMap {
    pub open spec fn model(&self) -> GameMapModel {
        GameMapModel {
            width: self.width,
            height: self.height,
            tiles: self.tiles@.map_values(|col: Vec<Tile>| col@),
        }
    }

    /// The grid is full, every tile knows its position, its dimensions
    /// fit the geometry's range, and every tile is well formed.
    pub open spec fn wf(&self) -> bool {
        &&& 0 <= self.width <= MAX_MAP_DIM
        &&& 0 <= self.height <= MAX_MAP_DIM
        &&& self.model().tiles.len() == self.width
        &&& forall|x: int|
            0 <= x < self.width ==> (#[trigger] self.model().tiles[x]).len() == self.height
        &&& forall|x: int, y: int|
            0 <= x < self.width && 0 <= y < self.height ==> (#[trigger] self.model().tiles[x][y]).position
                == (TilePosition { x: x as i16, y: y as i16 })
                && self.model().tiles[x][y].wf()
    }

    /// The blank all-plains map.
    pub fn new(width: MapUnit, height: MapUnit) -> (r: Self)
        requires
            0 <= width <= MAX_MAP_DIM,
            0 <= height <= MAX_MAP_DIM,
        ensures
            r.model() == spec_new_map(width, height),
            r.wf(),
            r.width == width,
            r.height == height,
    {
        let ghost target = spec_new_map(width, height);
        let mut tile_cols: Vec<Vec<Tile>> = Vec::new();
        let mut x: MapUnit = 0;
        while x < width
            invariant
                0 <= x <= width,
                width <= MAX_MAP_DIM,
                height <= MAX_MAP_DIM,
                0 <= height,
                target == spec_new_map(width, height),
                tile_cols@.len() == x,
                forall|i: int|
                    0 <= i < x ==> (#[trigger] tile_cols@[i])@ == target.tiles[i],
            decreases width - x,
        {
            let mut col: Vec<Tile> = Vec::new();
            let mut y: MapUnit = 0;
            while y < height
                invariant
                    0 <= y <= height,
                    height <= MAX_MAP_DIM,
                    -MAX_MAP_DIM <= x <= MAX_MAP_DIM,
                    col@.len() == y,
                    forall|j: int|
                        0 <= j < y ==> (#[trigger] col@[j]) == Tile::spec_new(
                            TilePosition { x, y: j as i16 },
                            TileType::Plains,
                        ),
                decreases height - y,
            {
                col.push(Tile::new(TilePosition { x, y }, TileType::Plains));
                y += 1;
            }
            proof {
                assert(col@ =~= target.tiles[x as int]);
            }
            tile_cols.push(col);
            x += 1;
        }
        let r = GameMap { width, height, tiles: tile_cols };
        proof {
            assert(r.model().tiles =~= target.tiles);
            assert(r.wf());
        }
        r
    }

    pub fn width(&self) -> (r: MapUnit)
        ensures
            r == self.width,
    {
        self.width
    }

    pub fn height(&self) -> (r: MapUnit)
        ensures
            r == self.height,
    {
        self.height
    }

    pub fn has_tile(&self, position: TilePosition) -> (r: bool)
        ensures
            r == position.in_bounds(self.width, self.height),
    {
        position.x >= 0 && position.y >= 0 && position.x < self.width && position.y < self.height
    }

    /// The tile at an in-bounds position.
    pub fn tile(&self, position: TilePosition) -> (r: &Tile)
        requires
            self.wf(),
            position.in_bounds(self.width, self.height),
        ensures
            *r == spec_tile_at(self.model(), position),
    {
        &self.tiles[position.x as usize][position.y as usize]
    }

    pub fn try_tile(&self, position: TilePosition) -> (r: Option<&Tile>)
        requires
            self.wf(),
        ensures
            match r {
                Some(t) => position.in_bounds(self.width, self.height) && *t == spec_tile_at(
                    self.model(),
                    position,
                ),
                None => !position.in_bounds(self.width, self.height),
            },
    {
        if self.has_tile(position) {
            Some(self.tile(position))
        } else {
            None
        }
    }

    /// Replace the tile at an in-bounds position.
    pub fn set_tile(&mut self, position: TilePosition, tile: Tile)
        requires
            old(self).wf(),
            position.in_bounds(old(self).width, old(self).height),
            tile.position == position,
            tile.wf(),
        ensures
            final(self).model() == spec_set_tile(old(self).model(), position, tile),
            final(self).wf(),
            final(self).width == old(self).width,
            final(self).height == old(self).height,
    {
        let x = position.x as usize;
        let mut col = self.tiles.remove(x);
        proof {
            assert(col@ == old(self).model().tiles[position.x as int]);
            assert(col@.len() == old(self).height);
        }
        col[position.y as usize] = tile;
        self.tiles.insert(x, col);
        proof {
            assert(self.model().tiles =~= spec_set_tile(old(self).model(), position, tile).tiles);
        }
    }

    /// Mark a river on each in-bounds side of the given edge; reports
    /// whether any tile changed.
    pub fn add_river(&mut self, pos: EdgePosition) -> (r: bool)
        requires
            old(self).wf(),
            pos.0.in_range(),
        ensures
            (final(self).model(), r) == spec_add_river(old(self).model(), pos),
            final(self).wf(),
            final(self).width == old(self).width,
            final(self).height == old(self).height,
    {
        let ((t1, e1), (t2, e2)) = pos.boundary_tile_and_edges();
        let mut modified = false;
        if self.has_tile(t1) {
            let tile = *self.tile(t1);
            self.set_tile(t1, Tile { rivers: tile.rivers.with(e1), ..tile });
            modified = true;
        }
        if self.has_tile(t2) {
            let tile = *self.tile(t2);
            self.set_tile(t2, Tile { rivers: tile.rivers.with(e2), ..tile });
            modified = true;
        }
        modified
    }

    /// A shortest route between two tiles: the range query measures
    /// every tile's distance from the goal, and the route walks from the
    /// start, one step closer at a time. A route is returned whenever
    /// the range query (bounded by `spec_path_limit`) reaches the start:
    /// it begins at `start`, ends at `goal`, stays on the map, moves one
    /// hex step at a time, and its step count equals the recorded
    /// distance. This is the path query; movement legality uses the
    /// range query directly.
    pub fn shortest_path(&self, start: TilePosition, goal: TilePosition) -> (r: Option<
        Vec<TilePosition>,
    >)
        requires
            self.wf(),
        ensures
            match r {
                Some(path) => {
                    &&& path@.len() >= 1
                    &&& path@[0] == start
                    &&& path@[path@.len() - 1] == goal
                    &&& forall|i: int|
                        0 <= i < path@.len() ==> (#[trigger] path@[i]).in_bounds(
                            self.width,
                            self.height,
                        )
                    &&& forall|i: int|
                        0 <= i < path@.len() - 1 ==> spec_adjacent(
                            #[trigger] path@[i],
                            path@[i + 1],
                        )
                    &&& path@.len() == 1 + crate::distances::dm_get(
                        crate::map_position::spec_neighbors_at_distance(
                            goal,
                            self.width,
                            self.height,
                            spec_path_limit(self.width, self.height),
                            true,
                        ),
                        start,
                    )->Some_0
                },
                None => true,
            },
            start.in_bounds(self.width, self.height) && goal.in_bounds(self.width, self.height)
                && crate::distances::dm_contains(
                crate::map_position::spec_neighbors_at_distance(
                    goal,
                    self.width,
                    self.height,
                    spec_path_limit(self.width, self.height),
                    true,
                ),
                start,
            ) ==> r is Some,
    {
        if !self.has_tile(start) || !self.has_tile(goal) {
            return None;
        }
        let ghost limit_spec = spec_path_limit(self.width, self.height);
        let ghost table = crate::map_position::spec_neighbors_at_distance(
            goal,
            self.width,
            self.height,
            limit_spec,
            true,
        );
        proof {
            crate::map_position::lemma_nad_centered_step_down(
                goal,
                self.width,
                self.height,
                limit_spec,
            );
            crate::map_position::lemma_nad_props(goal, self.width, self.height, limit_spec, true);
        }
        if start.x == goal.x && start.y == goal.y {
            let mut path: Vec<TilePosition> = Vec::new();
            path.push(start);
            proof {
                // The center is recorded at zero steps, so the one-tile
                // route has the recorded length.
                assert(crate::distances::dm_get(table, start) == Some(0 as i16));
            }
            return Some(path);
        }
        let span: i32 = self.width as i32 + self.height as i32;
        let limit: MapUnit = if span > MAX_MAP_DIM as i32 {
            MAX_MAP_DIM
        } else {
            span as MapUnit
        };
        proof {
            assert(limit as int == limit_spec);
        }
        let dist = goal.neighbors_at_distance(self.width, self.height, limit, true);
        proof {
            assert(dist@ == table);
            crate::distances::lemma_dm_find_from(dist@, start, 0);
        }
        let d0 = match dist.get(start) {
            Some(d) => d,
            None => { return None; },
        };
        let mut path: Vec<TilePosition> = Vec::new();
        path.push(start);
        let mut cur = start;
        let mut dcur = d0;
        while dcur > 0
            invariant
                self.wf(),
                start.in_bounds(self.width, self.height),
                goal.in_bounds(self.width, self.height),
                start != goal,
                cur.in_bounds(self.width, self.height),
                0 <= dcur <= MAX_MAP_DIM,
                dist@ == table,
                crate::distances::dm_wf(dist@),
                crate::distances::dm_bounded(dist@, spec_path_limit(self.width, self.height)),
                crate::map_position::dm_centered(dist@, self.width, self.height, goal),
                crate::map_position::dm_all_step_down(dist@, dist@),
                crate::distances::dm_get(dist@, start) == Some(d0),
                crate::distances::dm_get(dist@, cur) == Some(dcur),
                path@.len() == 1 + d0 - dcur,
                path@.len() >= 1,
                path@[0] == start,
                path@[path@.len() - 1] == cur,
                forall|i: int|
                    0 <= i < path@.len() ==> (#[trigger] path@[i]).in_bounds(
                        self.width,
                        self.height,
                    ),
                forall|i: int|
                    0 <= i < path@.len() - 1 ==> spec_adjacent(#[trigger] path@[i], path@[i + 1]),
            decreases dcur,
        {
            let candidates: [TilePosition; 6] = [
                cur.top(),
                cur.bottom(),
                cur.top_left(),
                cur.top_right(),
                cur.bottom_left(),
                cur.bottom_right(),
            ];
            let mut found: Option<TilePosition> = None;
            let mut i: usize = 0;
            while i < 6
                invariant
                    0 <= i <= 6,
                    self.wf(),
                    cur.in_range(),
                    0 < dcur,
                    candidates@ == cur.spec_neighbor_list(),
                    crate::distances::dm_wf(dist@),
                    match found {
                        Some(n) => spec_adjacent(cur, n) && n.in_bounds(self.width, self.height)
                            && crate::distances::dm_get(dist@, n) == Some((dcur - 1) as i16),
                        None => forall|j: int|
                            0 <= j < i ==> !((#[trigger] candidates@[j]).in_bounds(
                                self.width,
                                self.height,
                            ) && crate::distances::dm_get(dist@, candidates@[j]) == Some(
                                (dcur - 1) as i16,
                            )),
                    },
                decreases 6 - i,
            {
                if found.is_none() {
                    let n = candidates[i];
                    if self.has_tile(n) {
                        proof {
                            crate::distances::lemma_dm_find_from(dist@, n, 0);
                        }
                        match dist.get(n) {
                            Some(dn) => {
                                if dn == dcur - 1 {
                                    proof {
                                        assert(candidates@[i as int] == n);
                                        assert(spec_adjacent(cur, n));
                                    }
                                    found = Some(n);
                                }
                            },
                            None => {},
                        }
                    }
                }
                i += 1;
            }
            match found {
                Some(n) => {
                    let ghost walked = path@;
                    path.push(n);
                    proof {
                        assert(path@ == walked.push(n));
                        assert(path@[0] == walked[0]);
                        assert(path@[path@.len() - 1] == n);
                        assert forall|m: int|
                            0 <= m < path@.len() implies (#[trigger] path@[m]).in_bounds(
                            self.width,
                            self.height,
                        ) by {
                            if m < walked.len() {
                                assert(path@[m] == walked[m]);
                            }
                        }
                        assert forall|m: int|
                            0 <= m < path@.len() - 1 implies spec_adjacent(
                            #[trigger] path@[m],
                            path@[m + 1],
                        ) by {
                            if m < walked.len() - 1 {
                                assert(path@[m] == walked[m] && path@[m + 1] == walked[m + 1]);
                            } else {
                                assert(path@[m] == cur && path@[m + 1] == n);
                            }
                        }
                    }
                    cur = n;
                    dcur = dcur - 1;
                },
                None => {
                    proof {
                        // The table always records a neighbor one step
                        // closer, and that neighbor is on the map, so the
                        // scan cannot have missed it.
                        crate::distances::lemma_dm_find_from(dist@, cur, 0);
                        let fc = crate::distances::dm_find(dist@, cur);
                        assert(dist@[fc] == (cur, dcur));
                        assert(crate::map_position::dm_step_down(dist@, cur, dcur));
                        let n = choose|n: TilePosition|
                            #[trigger] cur.spec_neighbor_list().contains(n)
                                && crate::distances::dm_get(dist@, n) == Some((dcur - 1) as i16);
                        crate::distances::lemma_dm_find_from(dist@, n, 0);
                        let fnn = crate::distances::dm_find(dist@, n);
                        assert(dist@[fnn] == (n, (dcur - 1) as i16));
                        assert(n.in_bounds(self.width, self.height));
                        let k = choose|k: int|
                            0 <= k < cur.spec_neighbor_list().len()
                                && cur.spec_neighbor_list()[k] == n;
                        assert(candidates@[k] == n);
                        assert(false);
                    }
                    return None;
                },
            }
        }
        proof {
            // Only the goal is recorded at zero steps.
            crate::distances::lemma_dm_find_from(dist@, cur, 0);
            let fc = crate::distances::dm_find(dist@, cur);
            assert(dist@[fc] == (cur, 0 as i16));
            assert(cur == goal);
        }
        if cur.x == goal.x && cur.y == goal.y {
            Some(path)
        } else {
            proof {
                assert(false);
            }
            None
        }
    }

    /// Total yields of the tile at an in-bounds position.
    pub fn tile_total_yields(&self, position: TilePosition) -> (r: YieldValue)
        requires
            self.wf(),
            position.in_bounds(self.width, self.height),
        ensures
            r.0 == spec_tile_at(self.model(), position).spec_yields().spec_total(),
    {
        self.tile(position).yields().total()
    }

    /// Compare two tiles for sorting by decreasing total yields: negative
    /// when the second yields less than the first, zero when equal,
    /// positive when it yields more.
    pub fn cmp_tile_yields_decreasing(&self, a: TilePosition, b: TilePosition) -> (r: i8)
        requires
            self.wf(),
            a.in_bounds(self.width, self.height),
            b.in_bounds(self.width, self.height),
        ensures
            r < 0 <==> spec_tile_at(self.model(), b).spec_yields().spec_total() < spec_tile_at(
                self.model(),
                a,
            ).spec_yields().spec_total(),
            r == 0 <==> spec_tile_at(self.model(), b).spec_yields().spec_total() == spec_tile_at(
                self.model(),
                a,
            ).spec_yields().spec_total(),
    {
        let ay = self.tile_total_yields(a);
        let by = self.tile_total_yields(b);
        if by.0 < ay.0 {
            -1
        } else if by.0 == ay.0 {
            0
        } else {
            1
        }
    }
}

} // verus!
