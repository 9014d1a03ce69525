//! The world: a square grid of chunks owning food, and the live cells.
//!
//! A chunk is a fixed-size square of the map owning the food spawned in it
//! and local environmental parameters. A position maps to chunk coordinates
//! by dividing by the chunk size; spatial queries scan the three-by-three
//! block of chunks around a position.

use vstd::prelude::*;
use crate::fixed::{
    FX_ONE, FX_LIM, fx_add_s, fx_sub_s, fx_mul_s, fx_div_s, fx_add, fx_sub, fx_mul, fx_div,
};
use crate::brain::{Brain, IMMUNE_NEURON_COUNT, immune_outputs_preserved};
use crate::rng::rand_fraction;
use crate::trig::TAU_FX;

verus! {

/// Numeric parameters of the simulation, handed to the tick by reference.
pub struct SimulationSettings {
    /// Radius of a cell.
    pub cell_radius: i64,
    /// Radius of a food item.
    pub food_radius: i64,
    pub base_energy_drain: i64,
    pub neuron_energy_drain: i64,
    pub connection_energy_drain: i64,
    pub age_energy_drain: i64,
    pub energy_required_for_split: i64,
    pub rotation_speed_max: i64,
    pub acceleration_max: i64,
    /// Intended seconds between ticks; read by the external scheduler only.
    pub tick_delta_seconds: i64,
    pub child_cooldown: u32,
    /// Whether the simulation is paused; read by the external scheduler only.
    pub is_paused: bool,
}

impl Default for SimulationSettings {
    /// The standard parameter set.
    fn default() -> (r: Self)
        ensures
            r.cell_radius == 5 * FX_ONE,
            r.food_radius == 3 * FX_ONE,
            r.base_energy_drain == 26214,
            r.neuron_energy_drain == 655,
            r.connection_energy_drain == 262,
            r.age_energy_drain == 5,
            r.energy_required_for_split == 10 * FX_ONE,
            r.rotation_speed_max == FX_ONE,
            r.acceleration_max == 111411,
            r.tick_delta_seconds == 1311,
            r.child_cooldown == 10,
            r.is_paused == true,
    {
        SimulationSettings {
            cell_radius: 5 * FX_ONE,
            food_radius: 3 * FX_ONE,
            base_energy_drain: 26214,
            neuron_energy_drain: 655,
            connection_energy_drain: 262,
            age_energy_drain: 5,
            energy_required_for_split: 10 * FX_ONE,
            rotation_speed_max: FX_ONE,
            acceleration_max: 111411,
            tick_delta_seconds: 1311,
            child_cooldown: 10,
            is_paused: true,
        }
    }
}

/// Per-chunk environmental parameters.
#[derive(Debug, Clone, Copy, PartialEq, Eq, Structural)]
pub struct ChunkSettings {
    /// Expected food spawned per tick; values above one spawn several.
    pub spawn_chance: i64,
    /// Energy each spawned food item carries.
    pub spawned_food_energy: i64,
    /// Velocity kept per tick is one minus this; zero means no damping.
    pub velocity_damping: i64,
}

/// The standard chunk parameters.
pub open spec fn default_chunk_settings() -> ChunkSettings {
    ChunkSettings { spawn_chance: 1180, spawned_food_energy: 13107200, velocity_damping: 26214 }
}

impl Default for ChunkSettings {
    /// The standard chunk parameters.
    fn default() -> (r: Self)
        ensures
            r == default_chunk_settings(),
    {
        ChunkSettings { spawn_chance: 1180, spawned_food_energy: 200 * FX_ONE, velocity_damping: 26214 }
    }
}

/// A point of the map, in fixed-point world units.
#[derive(Debug, Clone, Copy, PartialEq, Eq, Structural)]
pub struct Position {
    pub x: i64,
    pub y: i64,
}

/// A velocity, in fixed-point world units per tick.
#[derive(Debug, Clone, Copy, PartialEq, Eq, Structural)]
pub struct Velocity {
    pub x: i64,
    pub y: i64,
}

/// One food item; it never moves, and is removed once its energy is zero.
#[derive(Debug, Clone, Copy, PartialEq, Eq, Structural)]
pub struct Food {
    pub position: Position,
    pub energy: i64,
}

/// Age and offspring statistics of one cell.
#[derive(Debug, Clone, Copy, PartialEq, Eq, Structural, Default)]
pub struct CellStats {
    pub age: u32,
    pub child_count: u32,
}

/// One chunk: its center, the food it owns, and its parameters.
#[derive(Debug)]
pub struct Chunk {
    pub position: Position,
    pub foods: Vec<Food>,
    pub settings: ChunkSettings,
}

/// One agent: kinematic state, energy, reproduction cooldown, statistics and
/// its own brain (never shared; a child's brain is a deep copy).
#[derive(Debug)]
pub struct Cell {
    pub position: Position,
    pub rotation: i64,
    pub velocity: Velocity,
    pub energy: i64,
    pub child_cooldown: u32,
    pub stats: CellStats,
    pub brain: Brain,
}

/// The world: the chunk grid and the live cells.
#[derive(Debug)]
pub struct World {
    /// Side length of a chunk, in fixed-point world units.
    pub chunk_size: i64,
    /// Side length of the map, in chunks.
    pub map_size: usize,
    /// Row-major grid: the chunk at `(x, y)` is entry `x * map_size + y`.
    pub chunks: Vec<Chunk>,
    pub cells: Vec<Cell>,
}

/// Squared Euclidean distance between two points (squared to avoid roots).
pub open spec fn dist_sq_s(a: Position, b: Position) -> int {
    let dx = fx_sub_s(b.x as int, a.x as int);
    let dy = fx_sub_s(b.y as int, a.y as int);
    fx_add_s(fx_mul_s(dx, dx), fx_mul_s(dy, dy))
}

/// Squared Euclidean distance, exactly `dist_sq_s`; never negative.
pub fn dist_sq(a: Position, b: Position) -> (r: i64)
    ensures
        r == dist_sq_s(a, b),
        r >= 0,
{
    let dx = fx_sub(b.x, a.x);
    let dy = fx_sub(b.y, a.y);
    fx_add(fx_mul(dx, dx), fx_mul(dy, dy))
}

/// The center of the chunk at grid coordinates `(x, y)`.
pub open spec fn chunk_center(chunk_size: int, x: int, y: int) -> Position {
    Position {
        x: (x * chunk_size + chunk_size / 2) as i64,
        y: (y * chunk_size + chunk_size / 2) as i64,
    }
}

/// A position drawn somewhere within the chunk square of side `cs` around
/// `center`: the center plus, per axis, a fixed-point fraction in
/// `[-1/2, 1/2)` of the chunk side.
pub open spec fn within_chunk_square(p: Position, center: Position, cs: int) -> bool {
    exists|dx: int, dy: int|
        {
            &&& -32768 <= dx < 32768
            &&& -32768 <= dy < 32768
            &&& p.x as int == fx_add_s(center.x as int, fx_mul_s(dx, cs))
            &&& p.y as int == fx_add_s(center.y as int, fx_mul_s(dy, cs))
        }
}

/// Number of food items the whole part of a spawn chance always yields: the
/// spawning loop runs while the remaining chance strictly exceeds one.
pub open spec fn spawn_whole(s: int) -> int {
    if s <= FX_ONE as int {
        0
    } else {
        (s - 1) / (FX_ONE as int)
    }
}

/// Step `s` (`0..9`) of the three-by-three neighborhood scan around chunk
/// `(cx, cy)` targets grid offsets `(s / 3 - 1, s % 3 - 1)`; it is valid when
/// the target lies on the grid (the block is clipped at the edges, not
/// wrapped). The scan deliberately covers the full Moore neighborhood —
/// offsets `-1`, `0` and `+1` per axis; a scan over `-1` and `0` alone would
/// silently bias sensing and feeding toward lower coordinates.
pub open spec fn nbr_valid(ms: int, cx: int, cy: int, s: int) -> bool {
    let dx = s / 3;
    let dy = s % 3;
    1 <= cx + dx <= ms && 1 <= cy + dy <= ms
}

/// Row-major chunk index targeted by step `s` of the neighborhood scan.
pub open spec fn nbr_index(ms: int, cx: int, cy: int, s: int) -> int {
    let dx = s / 3;
    let dy = s % 3;
    (cx + dx - 1) * ms + (cy + dy - 1)
}

/// Row-major indexing is a bijection between grid coordinates and
/// `[0, ms * ms)`.
pub proof fn lemma_grid_index(ms: int, x: int, y: int)
    requires
        0 <= x < ms,
        0 <= y < ms,
    ensures
        0 <= x * ms + y < ms * ms,
        (x * ms + y) / ms == x,
        (x * ms + y) % ms == y,
{
    assert(0 <= x * ms + y < ms * ms && (x * ms + y) / ms == x && (x * ms + y) % ms == y)
        by (nonlinear_arith)
        requires
            0 <= x < ms,
            0 <= y < ms,
    ;
}

/// The chunks done after step `s + 1` of the neighborhood scan are those done
/// after step `s`, plus step `s`'s target if the step is valid.
pub proof fn lemma_nbr_done_step(ms: int, cx: int, cy: int, t: int, s: int)
    requires
        1 <= ms,
        0 <= t < ms * ms,
        0 <= s < 9,
    ensures
        nbr_done(ms, cx, cy, t, s + 1) <==> (nbr_done(ms, cx, cy, t, s) || (nbr_valid(
            ms,
            cx,
            cy,
            s,
        ) && t == nbr_index(ms, cx, cy, s))),
{
    let x = t / ms;
    let y = t % ms;
    vstd::arithmetic::div_mod::lemma_fundamental_div_mod(t, ms);
    vstd::arithmetic::div_mod::lemma_mod_bound(t, ms);
    assert(0 <= x < ms) by (nonlinear_arith)
        requires
            0 <= t < ms * ms,
            1 <= ms,
            x == t / ms,
            y == t % ms,
            t == ms * x + y,
            0 <= y < ms,
    ;
    vstd::arithmetic::div_mod::lemma_fundamental_div_mod(s, 3);
    vstd::arithmetic::div_mod::lemma_mod_bound(s, 3);
    let dx = x - cx + 1;
    let dy = y - cy + 1;
    if nbr_done(ms, cx, cy, t, s + 1) && !nbr_done(ms, cx, cy, t, s) {
        assert(dx * 3 + dy == s);
        assert(s / 3 == dx && s % 3 == dy) by (nonlinear_arith)
            requires
                s == dx * 3 + dy,
                0 <= dy < 3,
                0 <= dx,
                s / 3 * 3 + s % 3 == s,
                0 <= s % 3 < 3,
                s / 3 >= 0,
        ;
        assert(nbr_valid(ms, cx, cy, s));
        assert(x * ms == ms * x) by (nonlinear_arith);
        assert(nbr_index(ms, cx, cy, s) == t);
    }
    if nbr_valid(ms, cx, cy, s) && t == nbr_index(ms, cx, cy, s) {
        let sx = cx + s / 3 - 1;
        let sy = cy + s % 3 - 1;
        lemma_grid_index(ms, sx, sy);
        assert(x == sx && y == sy);
        assert(nbr_done(ms, cx, cy, t, s + 1));
    }
}

/// Running minimum over the first `k` food items: starting from `best` (a
/// position and a squared distance), each food strictly closer to `pos` than
/// the best so far replaces it, in order.
pub open spec fn scan_foods(foods: Seq<Food>, pos: Position, best: (Position, int), k: int) -> (
    Position,
    int,
)
    decreases k,
{
    if k <= 0 {
        best
    } else {
        let prev = scan_foods(foods, pos, best, k - 1);
        let d = dist_sq_s(foods[k - 1].position, pos);
        if d < prev.1 {
            (foods[k - 1].position, d)
        } else {
            prev
        }
    }
}

/// Running minimum over the first `s` steps of the neighborhood scan, seeded
/// with the origin and `FX_LIM` (standing in for "no food seen").
pub open spec fn scan_chunks(
    chunks: Seq<Chunk>,
    ms: int,
    cx: int,
    cy: int,
    pos: Position,
    s: int,
) -> (Position, int)
    decreases s,
{
    if s <= 0 {
        (Position { x: 0, y: 0 }, FX_LIM as int)
    } else {
        let prev = scan_chunks(chunks, ms, cx, cy, pos, s - 1);
        if nbr_valid(ms, cx, cy, s - 1) {
            let f = chunks[nbr_index(ms, cx, cy, s - 1)].foods@;
            scan_foods(f, pos, prev, f.len() as int)
        } else {
            prev
        }
    }
}

/// The nearest-food answer for `pos` in the neighborhood of chunk `(cx, cy)`:
/// the position of the closest food and its squared distance, or the origin
/// and `FX_LIM` when the neighborhood holds no food closer than that.
pub open spec fn nearest_food_s(chunks: Seq<Chunk>, ms: int, cx: int, cy: int, pos: Position) -> (
    Position,
    int,
) {
    scan_chunks(chunks, ms, cx, cy, pos, 9)
}

/// Energy accumulated by eating: starting from `acc`, the energy of each of
/// the first `k` food items within squared distance `r2` of `pos` is added in
/// order (with clipping, like the executable addition).
pub open spec fn eat_gain(foods: Seq<Food>, pos: Position, r2: int, acc: int, k: int) -> int
    decreases k,
{
    if k <= 0 {
        acc
    } else {
        let prev = eat_gain(foods, pos, r2, acc, k - 1);
        if dist_sq_s(foods[k - 1].position, pos) < r2 {
            fx_add_s(prev, foods[k - 1].energy as int)
        } else {
            prev
        }
    }
}

/// A food list after an agent at `pos` ate everything within squared
/// distance `r2`: eaten items keep their position with zero energy.
pub open spec fn eaten_foods(a: Seq<Food>, b: Seq<Food>, pos: Position, r2: int) -> bool {
    &&& b.len() == a.len()
    &&& forall|j: int|
        0 <= j < a.len() ==> (#[trigger] b[j]) == if dist_sq_s(a[j].position, pos) < r2 {
            Food { position: a[j].position, energy: 0 }
        } else {
            a[j]
        }
}

/// Energy accumulated over the first `s` steps of the neighborhood scan,
/// eating from each valid chunk's food list in step order.
pub open spec fn eat_world_gain(
    chunks: Seq<Chunk>,
    ms: int,
    cx: int,
    cy: int,
    pos: Position,
    r2: int,
    acc: int,
    s: int,
) -> int
    decreases s,
{
    if s <= 0 {
        acc
    } else {
        let prev = eat_world_gain(chunks, ms, cx, cy, pos, r2, acc, s - 1);
        if nbr_valid(ms, cx, cy, s - 1) {
            let f = chunks[nbr_index(ms, cx, cy, s - 1)].foods@;
            eat_gain(f, pos, r2, prev, f.len() as int)
        } else {
            prev
        }
    }
}

/// Eating over a food list with nothing in range gains nothing.
proof fn lemma_eat_gain_none(foods: Seq<Food>, pos: Position, r2: int, acc: int, k: int)
    requires
        forall|q: int| 0 <= q < k ==> dist_sq_s((#[trigger] foods[q]).position, pos) >= r2,
    ensures
        eat_gain(foods, pos, r2, acc, k) == acc,
    decreases k,
{
    if k > 0 {
        lemma_eat_gain_none(foods, pos, r2, acc, k - 1);
    }
}

/// Eating over a food list with exactly one item in range gains exactly that
/// item's energy.
proof fn lemma_eat_gain_single(foods: Seq<Food>, pos: Position, r2: int, acc: int, k: int, fq: int)
    requires
        0 <= fq < k,
        dist_sq_s(foods[fq].position, pos) < r2,
        forall|q: int|
            0 <= q < k && q != fq ==> dist_sq_s((#[trigger] foods[q]).position, pos) >= r2,
    ensures
        eat_gain(foods, pos, r2, acc, k) == fx_add_s(acc, foods[fq].energy as int),
    decreases k,
{
    if k - 1 == fq {
        lemma_eat_gain_none(foods, pos, r2, acc, k - 1);
    } else {
        lemma_eat_gain_single(foods, pos, r2, acc, k - 1, fq);
    }
}

/// Food conservation: when exactly one food item in the scanned three-by-three
/// neighborhood lies within pickup range, the feed step hands the agent
/// exactly that item's energy (added with clipping) — and, by `eaten_foods`,
/// zeroes exactly that item. Energy is neither created nor destroyed.
pub proof fn lemma_eat_single_food(
    chunks: Seq<Chunk>,
    ms: int,
    cx: int,
    cy: int,
    pos: Position,
    r2: int,
    acc: int,
    fs: int,
    fq: int,
)
    requires
        1 <= ms,
        chunks.len() == ms * ms,
        0 <= cx < ms,
        0 <= cy < ms,
        0 <= fs < 9,
        nbr_valid(ms, cx, cy, fs),
        0 <= fq < chunks[nbr_index(ms, cx, cy, fs)].foods@.len(),
        dist_sq_s(chunks[nbr_index(ms, cx, cy, fs)].foods@[fq].position, pos) < r2,
        forall|si: int, q: int|
            0 <= si < 9 && nbr_valid(ms, cx, cy, si) && 0 <= q < chunks[nbr_index(
                ms,
                cx,
                cy,
                si,
            )].foods@.len() && !(si == fs && q == fq) ==> dist_sq_s(
                (#[trigger] chunks[nbr_index(ms, cx, cy, si)].foods@[q]).position,
                pos,
            ) >= r2,
    ensures
        eat_world_gain(chunks, ms, cx, cy, pos, r2, acc, 9) == fx_add_s(
            acc,
            chunks[nbr_index(ms, cx, cy, fs)].foods@[fq].energy as int,
        ),
{
    assert forall|si: int| 0 <= si < 9 && nbr_valid(ms, cx, cy, si) implies 0 <= #[trigger] nbr_index(
        ms,
        cx,
        cy,
        si,
    ) < chunks.len() by {
        vstd::arithmetic::div_mod::lemma_fundamental_div_mod(si, 3);
        vstd::arithmetic::div_mod::lemma_mod_bound(si, 3);
        lemma_grid_index(ms, cx + si / 3 - 1, cy + si % 3 - 1);
    }
    lemma_eat_world_shift(chunks, ms, cx, cy, pos, r2, acc, acc, 0, fs);
    let f = chunks[nbr_index(ms, cx, cy, fs)].foods@;
    lemma_eat_gain_single(f, pos, r2, acc, f.len() as int, fq);
    assert(eat_world_gain(chunks, ms, cx, cy, pos, r2, acc, fs + 1) == fx_add_s(
        acc,
        f[fq].energy as int,
    ));
    lemma_eat_world_shift(
        chunks,
        ms,
        cx,
        cy,
        pos,
        r2,
        acc,
        fx_add_s(acc, f[fq].energy as int),
        fs + 1,
        9,
    );
}

/// Scanning onward from a step where two accumulators agree keeps them equal
/// when the remaining chunks hold nothing in range.
proof fn lemma_eat_world_shift(
    chunks: Seq<Chunk>,
    ms: int,
    cx: int,
    cy: int,
    pos: Position,
    r2: int,
    acc: int,
    base: int,
    lo: int,
    hi: int,
)
    requires
        0 <= lo <= hi,
        eat_world_gain(chunks, ms, cx, cy, pos, r2, acc, lo) == base,
        forall|si: int, q: int|
            lo <= si < hi && nbr_valid(ms, cx, cy, si) && 0 <= nbr_index(ms, cx, cy, si)
                < chunks.len() && 0 <= q < chunks[nbr_index(ms, cx, cy, si)].foods@.len()
                ==> dist_sq_s(
                (#[trigger] chunks[nbr_index(ms, cx, cy, si)].foods@[q]).position,
                pos,
            ) >= r2,
        forall|si: int|
            lo <= si < hi && nbr_valid(ms, cx, cy, si) ==> 0 <= #[trigger] nbr_index(
                ms,
                cx,
                cy,
                si,
            ) < chunks.len(),
    ensures
        eat_world_gain(chunks, ms, cx, cy, pos, r2, acc, hi) == base,
    decreases hi - lo,
{
    if hi > lo {
        lemma_eat_world_shift(chunks, ms, cx, cy, pos, r2, acc, base, lo, hi - 1);
        if nbr_valid(ms, cx, cy, hi - 1) {
            let f = chunks[nbr_index(ms, cx, cy, hi - 1)].foods@;
            lemma_eat_gain_none(
                f,
                pos,
                r2,
                eat_world_gain(chunks, ms, cx, cy, pos, r2, acc, hi - 1),
                f.len() as int,
            );
        }
    }
}

/// Chunk `t` lies in the three-by-three neighborhood of `(cx, cy)`, and its
/// scan step is below `s`.
pub open spec fn nbr_done(ms: int, cx: int, cy: int, t: int, s: int) -> bool {
    let dx = t / ms - cx + 1;
    let dy = t % ms - cy + 1;
    0 <= dx < 3 && 0 <= dy < 3 && dx * 3 + dy < s
}

/// A food list with the depleted items (energy at or below zero) removed, in
/// order.
pub open spec fn live_foods(s: Seq<Food>) -> Seq<Food>
    decreases s.len(),
{
    if s.len() == 0 {
        Seq::empty()
    } else {
        let rest = live_foods(s.drop_last());
        if s.last().energy <= 0 {
            rest
        } else {
            rest.push(s.last())
        }
    }
}

/// Unfolds `live_foods` across a push.
proof fn lemma_live_foods_push(s: Seq<Food>, f: Food)
    ensures
        live_foods(s.push(f)) == if f.energy <= 0 {
            live_foods(s)
        } else {
            live_foods(s).push(f)
        },
{
    assert(s.push(f).drop_last() =~= s);
}

/// Cleanup never grows a food list, and keeps everything in a wholly
/// positive tail: at least the tail's length survives.
pub proof fn lemma_live_foods_count(s: Seq<Food>, len0: int)
    requires
        0 <= len0 <= s.len(),
        forall|q: int| len0 <= q < s.len() ==> (#[trigger] s[q]).energy > 0,
    ensures
        live_foods(s).len() <= s.len(),
        live_foods(s).len() >= s.len() - len0,
    decreases s.len(),
{
    if s.len() > 0 {
        if s.len() <= len0 {
            lemma_live_foods_count(s.drop_last(), s.len() - 1);
        } else {
            lemma_live_foods_count(s.drop_last(), len0);
            assert(s.last().energy > 0);
        }
    }
}

/// Every food item that survives the cleanup has positive energy.
proof fn lemma_live_foods_pos(s: Seq<Food>)
    ensures
        forall|q: int| 0 <= q < live_foods(s).len() ==> (#[trigger] live_foods(s)[q]).energy > 0,
    decreases s.len(),
{
    if s.len() > 0 {
        lemma_live_foods_pos(s.drop_last());
        let rest = live_foods(s.drop_last());
        assert forall|q: int| 0 <= q < live_foods(s).len() implies (#[trigger] live_foods(
            s,
        )[q]).energy > 0 by {
            if s.last().energy > 0 {
                if q < rest.len() {
                    assert(live_foods(s)[q] == rest[q]);
                } else {
                    assert(live_foods(s)[q] == s.last());
                }
            }
        }
    }
}

/// A cell list with the depleted cells (energy at or below zero) removed, in
/// order.
pub open spec fn live_cells(s: Seq<Cell>) -> Seq<Cell>
    decreases s.len(),
{
    if s.len() == 0 {
        Seq::empty()
    } else {
        let rest = live_cells(s.drop_last());
        if s.last().energy <= 0 {
            rest
        } else {
            rest.push(s.last())
        }
    }
}

/// Every surviving cell was in the original list.
proof fn lemma_live_cells_elems(s: Seq<Cell>)
    ensures
        forall|i: int|
            0 <= i < live_cells(s).len() ==> exists|j: int|
                0 <= j < s.len() && #[trigger] live_cells(s)[i] == s[j],
    decreases s.len(),
{
    if s.len() > 0 {
        lemma_live_cells_elems(s.drop_last());
        let prev = live_cells(s.drop_last());
        assert forall|i: int| 0 <= i < live_cells(s).len() implies exists|j: int|
            0 <= j < s.len() && #[trigger] live_cells(s)[i] == s[j] by {
            if i < prev.len() {
                let j = choose|j: int| 0 <= j < s.drop_last().len() && prev[i] == s.drop_last()[j];
                assert(s.drop_last()[j] == s[j]);
                assert(live_cells(s)[i] == s[j]);
            } else {
                assert(live_cells(s)[i] == s[s.len() - 1]);
            }
        }
    }
}

/// The per-chunk settings the apply-chunk-settings command writes into the
/// chunk whose center is `pos`: the spawn chance interpolated left to right
/// across the grid, the damping interpolated bottom to top, and the food
/// energy taken as given.
pub open spec fn interpolated_settings(
    cs: int,
    ms: int,
    pos: Position,
    left: int,
    right: int,
    bottom: int,
    top: int,
    food_energy: i64,
) -> ChunkSettings {
    let xi = fx_div_s(pos.x as int, cs);
    let yi = fx_div_s(pos.y as int, cs);
    ChunkSettings {
        spawn_chance: fx_add_s(
            left,
            fx_div_s(fx_mul_s(fx_sub_s(right, left), xi), ms * (FX_ONE as int)),
        ) as i64,
        spawned_food_energy: food_energy,
        velocity_damping: fx_add_s(
            bottom,
            fx_div_s(fx_mul_s(fx_sub_s(top, bottom), yi), ms * (FX_ONE as int)),
        ) as i64,
    }
}

impl World {
    /// Side length of the map in world units.
    pub open spec fn extent(&self) -> int {
        self.map_size as int * self.chunk_size as int
    }

    /// `p` lies on the map.
    pub open spec fn in_bounds(&self, p: Position) -> bool {
        0 <= p.x < self.extent() && 0 <= p.y < self.extent()
    }

    /// World invariant: a nonempty square grid with bounded sizes (so all
    /// coordinate arithmetic stays below the fixed-point clipping bound), one
    /// chunk per grid entry, and every live cell well-formed and on the map.
    pub open spec fn wf(&self) -> bool {
        &&& 1 <= self.map_size <= 1024
        &&& 1 <= self.chunk_size <= 0x1_0000_0000
        &&& self.chunks@.len() == self.map_size as int * self.map_size as int
        &&& forall|i: int|
            0 <= i < self.cells@.len() ==> {
                &&& (#[trigger] self.cells@[i]).brain.wf()
                &&& (self.in_bounds(self.cells@[i].position) || self.cells@[i].energy <= 0)
            }
    }

    /// A fresh world: `map_size * map_size` chunks of side `chunk_size` with
    /// default settings, no food, and no cells.
    pub fn new(map_size: usize, chunk_size: i64) -> (r: World)
        requires
            1 <= map_size <= 1024,
            1 <= chunk_size <= 0x1_0000_0000,
        ensures
            r.wf(),
            r.map_size == map_size,
            r.chunk_size == chunk_size,
            r.cells@.len() == 0,
            r.chunks@.len() == map_size as int * map_size as int,
            forall|i: int|
                0 <= i < r.chunks@.len() ==> {
                    &&& (#[trigger] r.chunks@[i]).position == chunk_center(
                        chunk_size as int,
                        i / (map_size as int),
                        i % (map_size as int),
                    )
                    &&& r.chunks@[i].foods@.len() == 0
                    &&& r.chunks@[i].settings == default_chunk_settings()
                },
    {
        proof {
            assert((map_size as int) * (map_size as int) <= 1024 * 1024) by (nonlinear_arith)
                requires
                    1 <= map_size <= 1024,
            ;
        }
        let total = map_size * map_size;
        let mut chunks: Vec<Chunk> = Vec::new();
        let mut i: usize = 0;
        while i < total
            invariant
                1 <= map_size <= 1024,
                1 <= chunk_size <= 0x1_0000_0000,
                total == map_size * map_size,
                i <= total,
                chunks@.len() == i,
                forall|k: int|
                    0 <= k < i ==> {
                        &&& (#[trigger] chunks@[k]).position == chunk_center(
                            chunk_size as int,
                            k / (map_size as int),
                            k % (map_size as int),
                        )
                        &&& chunks@[k].foods@.len() == 0
                        &&& chunks@[k].settings == default_chunk_settings()
                    },
            decreases total - i,
        {
            let x = i / map_size;
            let y = i % map_size;
            proof {
                let ii = i as int;
                let ms = map_size as int;
                let xx = x as int;
                let yy = y as int;
                assert(xx <= 1023 && yy <= 1023) by (nonlinear_arith)
                    requires
                        xx == ii / ms,
                        yy == ii % ms,
                        0 <= ii < ms * ms,
                        1 <= ms <= 1024,
                ;
                assert((x as int) * (chunk_size as int) <= 1023 * 0x1_0000_0000int)
                    by (nonlinear_arith)
                    requires
                        0 <= x <= 1023,
                        1 <= chunk_size <= 0x1_0000_0000,
                ;
                assert((y as int) * (chunk_size as int) <= 1023 * 0x1_0000_0000int)
                    by (nonlinear_arith)
                    requires
                        0 <= y <= 1023,
                        1 <= chunk_size <= 0x1_0000_0000,
                ;
            }
            let px = (x as i64) * chunk_size + chunk_size / 2;
            let py = (y as i64) * chunk_size + chunk_size / 2;
            chunks.push(
                Chunk {
                    position: Position { x: px, y: py },
                    foods: Vec::new(),
                    settings: ChunkSettings::default(),
                },
            );
            i += 1;
        }
        World { chunk_size, map_size, chunks, cells: Vec::new() }
    }

    /// Grid coordinates of the chunk containing `p`: each axis divided by the
    /// chunk size, rounded down.
    pub fn chunk_coords(&self, p: Position) -> (r: (usize, usize))
        requires
            self.wf(),
            self.in_bounds(p),
        ensures
            r.0 as int == p.x as int / self.chunk_size as int,
            r.1 as int == p.y as int / self.chunk_size as int,
            r.0 < self.map_size,
            r.1 < self.map_size,
    {
        let cx = (p.x / self.chunk_size) as usize;
        let cy = (p.y / self.chunk_size) as usize;
        proof {
            let px = p.x as int;
            let py = p.y as int;
            let cs = self.chunk_size as int;
            let ms = self.map_size as int;
            assert((px / cs < ms) && (py / cs < ms)) by (nonlinear_arith)
                requires
                    0 <= px < ms * cs,
                    0 <= py < ms * cs,
                    1 <= cs,
            ;
        }
        (cx, cy)
    }

    /// The position of the food nearest to `pos` among the food owned by the
    /// three-by-three block of chunks around `(cx, cy)`, with its squared
    /// distance; the origin and `FX_LIM` when none is nearer than that.
    pub fn nearest_food(&self, cx: usize, cy: usize, pos: Position) -> (r: (Position, i64))
        requires
            self.wf(),
            cx < self.map_size,
            cy < self.map_size,
        ensures
            r.0 == nearest_food_s(
                self.chunks@,
                self.map_size as int,
                cx as int,
                cy as int,
                pos,
            ).0,
            r.1 as int == nearest_food_s(
                self.chunks@,
                self.map_size as int,
                cx as int,
                cy as int,
                pos,
            ).1,
            0 <= r.1 <= FX_LIM,
    {
        let ms = self.map_size;
        let mut best_pos = Position { x: 0, y: 0 };
        let mut best_d: i64 = FX_LIM;
        let mut s: usize = 0;
        while s < 9
            invariant
                self.wf(),
                cx < ms,
                cy < ms,
                ms == self.map_size,
                s <= 9,
                best_pos == scan_chunks(
                    self.chunks@,
                    ms as int,
                    cx as int,
                    cy as int,
                    pos,
                    s as int,
                ).0,
                best_d as int == scan_chunks(
                    self.chunks@,
                    ms as int,
                    cx as int,
                    cy as int,
                    pos,
                    s as int,
                ).1,
                0 <= best_d <= FX_LIM,
            decreases 9 - s,
        {
            let dx = s / 3;
            let dy = s % 3;
            if cx + dx >= 1 && cx + dx <= ms && cy + dy >= 1 && cy + dy <= ms {
                proof {
                    lemma_grid_index(ms as int, (cx + dx - 1) as int, (cy + dy - 1) as int);
                    assert((ms as int) * (ms as int) <= 1024 * 1024) by (nonlinear_arith)
                        requires
                            ms <= 1024,
                    ;
                }
                let t = (cx + dx - 1) * ms + (cy + dy - 1);
                let m = self.chunks[t].foods.len();
                let ghost prev = (best_pos, best_d as int);
                let ghost tf = self.chunks@[t as int].foods@;
                let mut j: usize = 0;
                while j < m
                    invariant
                        self.wf(),
                        t < self.chunks@.len(),
                        tf == self.chunks@[t as int].foods@,
                        m == tf.len(),
                        j <= m,
                        best_pos == scan_foods(tf, pos, prev, j as int).0,
                        best_d as int == scan_foods(tf, pos, prev, j as int).1,
                        0 <= best_d <= FX_LIM,
                        prev.1 <= FX_LIM,
                    decreases m - j,
                {
                    let f = self.chunks[t].foods[j];
                    let d = dist_sq(f.position, pos);
                    if d < best_d {
                        best_d = d;
                        best_pos = f.position;
                    }
                    j += 1;
                }
            }
            s += 1;
        }
        (best_pos, best_d)
    }

    /// Eats every food item within squared distance `r2` of `pos` in the
    /// three-by-three block of chunks around `(cx, cy)`: each such item's
    /// full remaining energy is added (in scan order, with clipping) to
    /// `energy` and the item's energy is zeroed; everything else — other
    /// chunks, cells, positions, settings — is untouched.
    pub fn consume_food(&mut self, cx: usize, cy: usize, pos: Position, r2: i64, energy: i64) -> (r:
        i64)
        requires
            old(self).wf(),
            cx < old(self).map_size,
            cy < old(self).map_size,
        ensures
            final(self).wf(),
            final(self).map_size == old(self).map_size,
            final(self).chunk_size == old(self).chunk_size,
            final(self).cells@ == old(self).cells@,
            final(self).chunks@.len() == old(self).chunks@.len(),
            forall|t: int|
                0 <= t < old(self).chunks@.len() ==> {
                    &&& (#[trigger] final(self).chunks@[t]).position == old(self).chunks@[t].position
                    &&& final(self).chunks@[t].settings == old(self).chunks@[t].settings
                    &&& if nbr_done(old(self).map_size as int, cx as int, cy as int, t, 9) {
                        eaten_foods(
                            old(self).chunks@[t].foods@,
                            final(self).chunks@[t].foods@,
                            pos,
                            r2 as int,
                        )
                    } else {
                        final(self).chunks@[t] == old(self).chunks@[t]
                    }
                },
            r as int == eat_world_gain(
                old(self).chunks@,
                old(self).map_size as int,
                cx as int,
                cy as int,
                pos,
                r2 as int,
                energy as int,
                9,
            ),
    {
        let ms = self.map_size;
        let ghost chunks0 = self.chunks@;
        let mut acc: i64 = energy;
        let mut s: usize = 0;
        while s < 9
            invariant
                self.wf(),
                cx < ms,
                cy < ms,
                ms == self.map_size,
                self.map_size == old(self).map_size,
                self.chunk_size == old(self).chunk_size,
                self.cells@ == old(self).cells@,
                chunks0 == old(self).chunks@,
                self.chunks@.len() == chunks0.len(),
                chunks0.len() == (ms as int) * (ms as int),
                s <= 9,
                forall|t: int|
                    0 <= t < chunks0.len() ==> {
                        &&& (#[trigger] self.chunks@[t]).position == chunks0[t].position
                        &&& self.chunks@[t].settings == chunks0[t].settings
                        &&& if nbr_done(ms as int, cx as int, cy as int, t, s as int) {
                            eaten_foods(chunks0[t].foods@, self.chunks@[t].foods@, pos, r2 as int)
                        } else {
                            self.chunks@[t] == chunks0[t]
                        }
                    },
                acc as int == eat_world_gain(
                    chunks0,
                    ms as int,
                    cx as int,
                    cy as int,
                    pos,
                    r2 as int,
                    energy as int,
                    s as int,
                ),
            decreases 9 - s,
        {
            let dx = s / 3;
            let dy = s % 3;
            if cx + dx >= 1 && cx + dx <= ms && cy + dy >= 1 && cy + dy <= ms {
                proof {
                    lemma_grid_index(ms as int, (cx + dx - 1) as int, (cy + dy - 1) as int);
                    assert((ms as int) * (ms as int) <= 1024 * 1024) by (nonlinear_arith)
                        requires
                            ms <= 1024,
                    ;
                }
                let t = (cx + dx - 1) * ms + (cy + dy - 1);
                let m = self.chunks[t].foods.len();
                let ghost tf = chunks0[t as int].foods@;
                let ghost mid = self.chunks@;
                proof {
                    assert(self.chunks@[t as int] == chunks0[t as int]);
                }
                let mut j: usize = 0;
                while j < m
                    invariant
                        self.wf(),
                        ms == self.map_size,
                        self.map_size == old(self).map_size,
                        self.chunk_size == old(self).chunk_size,
                        self.cells@ == old(self).cells@,
                        mid.len() == chunks0.len(),
                        t < self.chunks@.len(),
                        self.chunks@.len() == mid.len(),
                        m == tf.len(),
                        j <= m,
                        tf == mid[t as int].foods@,
                        forall|u: int|
                            0 <= u < mid.len() && u != t ==> (#[trigger] self.chunks@[u]) == mid[u],
                        self.chunks@[t as int].position == mid[t as int].position,
                        self.chunks@[t as int].settings == mid[t as int].settings,
                        self.chunks@[t as int].foods@.len() == m,
                        forall|q: int|
                            0 <= q < j ==> (#[trigger] self.chunks@[t as int].foods@[q])
                                == if dist_sq_s(tf[q].position, pos) < r2 as int {
                                Food { position: tf[q].position, energy: 0 }
                            } else {
                                tf[q]
                            },
                        forall|q: int|
                            j <= q < m ==> (#[trigger] self.chunks@[t as int].foods@[q]) == tf[q],
                        acc as int == eat_gain(
                            tf,
                            pos,
                            r2 as int,
                            eat_world_gain(
                                chunks0,
                                ms as int,
                                cx as int,
                                cy as int,
                                pos,
                                r2 as int,
                                energy as int,
                                s as int,
                            ),
                            j as int,
                        ),
                    decreases m - j,
                {
                    let f = self.chunks[t].foods[j];
                    let d = dist_sq(f.position, pos);
                    if d < r2 {
                        acc = fx_add(acc, f.energy);
                        self.chunks[t].foods[j].energy = 0;
                    }
                    j += 1;
                }
                proof {
                    let msi = ms as int;
                    let cxi = cx as int;
                    let cyi = cy as int;
                    let si = s as int;
                    let ti = t as int;
                    assert(nbr_valid(msi, cxi, cyi, si));
                    assert(nbr_index(msi, cxi, cyi, si) == ti);
                    assert forall|u: int| 0 <= u < chunks0.len() implies (#[trigger] nbr_done(
                        msi,
                        cxi,
                        cyi,
                        u,
                        si + 1,
                    ) == (nbr_done(msi, cxi, cyi, u, si) || u == ti)) by {
                        lemma_nbr_done_step(msi, cxi, cyi, u, si);
                    }
                }
            } else {
                proof {
                    let msi = ms as int;
                    let cxi = cx as int;
                    let cyi = cy as int;
                    let si = s as int;
                    assert(!nbr_valid(msi, cxi, cyi, si));
                    assert forall|u: int| 0 <= u < chunks0.len() implies (#[trigger] nbr_done(
                        msi,
                        cxi,
                        cyi,
                        u,
                        si + 1,
                    ) == nbr_done(msi, cxi, cyi, u, si)) by {
                        lemma_nbr_done_step(msi, cxi, cyi, u, si);
                    }
                }
            }
            s += 1;
        }
        acc
    }

    /// Spawns this tick's food in the chunk at `t`: one item per whole unit
    /// of the chunk's spawn chance, and one more with probability its
    /// fractional remainder, each at a uniformly random offset within the
    /// chunk and carrying the chunk's configured food energy. Existing food
    /// and everything else stay as they were.
    pub fn spawn_food_for_chunk(&mut self, t: usize)
        requires
            old(self).wf(),
            t < old(self).chunks@.len(),
        ensures
            final(self).wf(),
            final(self).map_size == old(self).map_size,
            final(self).chunk_size == old(self).chunk_size,
            final(self).cells@ == old(self).cells@,
            final(self).chunks@.len() == old(self).chunks@.len(),
            forall|u: int|
                0 <= u < old(self).chunks@.len() && u != t ==> (#[trigger] final(self).chunks@[u])
                    == old(self).chunks@[u],
            final(self).chunks@[t as int].position == old(self).chunks@[t as int].position,
            final(self).chunks@[t as int].settings == old(self).chunks@[t as int].settings,
            final(self).chunks@[t as int].foods@.len() >= old(self).chunks@[t as int].foods@.len(),
            forall|q: int|
                0 <= q < old(self).chunks@[t as int].foods@.len() ==> (#[trigger] final(self).chunks@[t as int].foods@[q]) == old(self).chunks@[t as int].foods@[q],
            forall|q: int|
                old(self).chunks@[t as int].foods@.len() <= q
                    && q < final(self).chunks@[t as int].foods@.len()
                    ==> (#[trigger] final(self).chunks@[t as int].foods@[q]).energy
                    == old(self).chunks@[t as int].settings.spawned_food_energy,
            forall|q: int|
                old(self).chunks@[t as int].foods@.len() <= q
                    && q < final(self).chunks@[t as int].foods@.len() ==> within_chunk_square(
                    (#[trigger] final(self).chunks@[t as int].foods@[q]).position,
                    old(self).chunks@[t as int].position,
                    old(self).chunk_size as int,
                ),
            ({
                let s = old(self).chunks@[t as int].settings.spawn_chance as int;
                let len0 = old(self).chunks@[t as int].foods@.len() as int;
                let grown = final(self).chunks@[t as int].foods@.len() as int;
                &&& len0 + spawn_whole(s) <= grown <= len0 + spawn_whole(s) + 1
                &&& s <= 0 ==> grown == len0
                &&& s - spawn_whole(s) * (FX_ONE as int) >= FX_ONE ==> grown == len0 + spawn_whole(
                    s,
                ) + 1
            }),
    {
        let ghost c0 = self.chunks@;
        let ghost len0 = self.chunks@[t as int].foods@.len() as int;
        let ghost s0 = self.chunks@[t as int].settings.spawn_chance as int;
        let ghost cs = self.chunk_size as int;
        let mut to_place = self.chunks[t].settings.spawn_chance;
        while to_place > FX_ONE
            invariant
                old(self).wf(),
                t < self.chunks@.len(),
                c0 == old(self).chunks@,
                self.map_size == old(self).map_size,
                self.chunk_size == old(self).chunk_size,
                cs == self.chunk_size as int,
                self.cells@ == old(self).cells@,
                self.chunks@.len() == c0.len(),
                self.wf(),
                forall|u: int|
                    0 <= u < c0.len() && u != t ==> (#[trigger] self.chunks@[u]) == c0[u],
                self.chunks@[t as int].position == c0[t as int].position,
                self.chunks@[t as int].settings == c0[t as int].settings,
                len0 == c0[t as int].foods@.len(),
                s0 == c0[t as int].settings.spawn_chance as int,
                self.chunks@[t as int].foods@.len() >= len0,
                to_place as int == s0 - (self.chunks@[t as int].foods@.len() - len0) * (
                FX_ONE as int),
                spawn_whole(s0) == self.chunks@[t as int].foods@.len() - len0 + spawn_whole(
                    to_place as int,
                ),
                forall|q: int|
                    0 <= q < len0 ==> (#[trigger] self.chunks@[t as int].foods@[q]) == c0[t
                        as int].foods@[q],
                forall|q: int|
                    len0 <= q < self.chunks@[t as int].foods@.len() ==> (#[trigger] self.chunks@[t
                        as int].foods@[q]).energy == c0[t as int].settings.spawned_food_energy,
                forall|q: int|
                    len0 <= q < self.chunks@[t as int].foods@.len() ==> within_chunk_square(
                        (#[trigger] self.chunks@[t as int].foods@[q]).position,
                        c0[t as int].position,
                        cs,
                    ),
            decreases to_place,
        {
            let ghost pre = self.chunks@;
            let ghost tp = to_place as int;
            self.spawn_one_food(t);
            proof {
                Self::lemma_spawn_step(pre, self.chunks@, c0, t as int, len0, cs);
                if tp - FX_ONE > FX_ONE {
                    vstd::arithmetic::div_mod::lemma_div_plus_one(
                        tp - (FX_ONE as int) - 1,
                        FX_ONE as int,
                    );
                }
            }
            to_place = to_place - FX_ONE;
        }
        let roll = rand_fraction();
        if roll < to_place {
            let ghost pre = self.chunks@;
            self.spawn_one_food(t);
            proof {
                Self::lemma_spawn_step(pre, self.chunks@, c0, t as int, len0, cs);
            }
        }
    }

    /// One spawning step preserves the original prefix of the chunk's food
    /// list and keeps every newly added item at the chunk's configured food
    /// energy.
    proof fn lemma_spawn_step(pre: Seq<Chunk>, post: Seq<Chunk>, c0: Seq<Chunk>, t: int, len0: int, cs: int)
        requires
            0 <= t < c0.len(),
            pre.len() == c0.len(),
            post.len() == c0.len(),
            0 <= len0 <= pre[t].foods@.len(),
            pre[t].settings == c0[t].settings,
            pre[t].position == c0[t].position,
            forall|q: int| 0 <= q < len0 ==> (#[trigger] pre[t].foods@[q]) == c0[t].foods@[q],
            forall|q: int|
                len0 <= q < pre[t].foods@.len() ==> (#[trigger] pre[t].foods@[q]).energy
                    == c0[t].settings.spawned_food_energy,
            forall|q: int|
                len0 <= q < pre[t].foods@.len() ==> within_chunk_square(
                    (#[trigger] pre[t].foods@[q]).position,
                    c0[t].position,
                    cs,
                ),
            post[t].foods@.len() == pre[t].foods@.len() + 1,
            forall|q: int|
                0 <= q < pre[t].foods@.len() ==> (#[trigger] post[t].foods@[q])
                    == pre[t].foods@[q],
            post[t].foods@.last().energy == pre[t].settings.spawned_food_energy,
            within_chunk_square(post[t].foods@.last().position, pre[t].position, cs),
        ensures
            forall|q: int| 0 <= q < len0 ==> (#[trigger] post[t].foods@[q]) == c0[t].foods@[q],
            forall|q: int|
                len0 <= q < post[t].foods@.len() ==> (#[trigger] post[t].foods@[q]).energy
                    == c0[t].settings.spawned_food_energy,
            forall|q: int|
                len0 <= q < post[t].foods@.len() ==> within_chunk_square(
                    (#[trigger] post[t].foods@[q]).position,
                    c0[t].position,
                    cs,
                ),
    {
        assert forall|q: int|
            len0 <= q < post[t].foods@.len() implies (#[trigger] post[t].foods@[q]).energy
            == c0[t].settings.spawned_food_energy && within_chunk_square(
            post[t].foods@[q].position,
            c0[t].position,
            cs,
        ) by {
            if q < pre[t].foods@.len() {
                assert(post[t].foods@[q] == pre[t].foods@[q]);
            } else {
                assert(post[t].foods@[q] == post[t].foods@.last());
            }
        }
    }

    /// Spawns one food item in the chunk at `t`, at a uniformly random offset
    /// within the chunk, carrying the chunk's configured food energy.
    fn spawn_one_food(&mut self, t: usize)
        requires
            old(self).wf(),
            t < old(self).chunks@.len(),
        ensures
            final(self).wf(),
            final(self).map_size == old(self).map_size,
            final(self).chunk_size == old(self).chunk_size,
            final(self).cells@ == old(self).cells@,
            final(self).chunks@.len() == old(self).chunks@.len(),
            forall|u: int|
                0 <= u < old(self).chunks@.len() && u != t ==> (#[trigger] final(self).chunks@[u])
                    == old(self).chunks@[u],
            final(self).chunks@[t as int].position == old(self).chunks@[t as int].position,
            final(self).chunks@[t as int].settings == old(self).chunks@[t as int].settings,
            final(self).chunks@[t as int].foods@.len() == old(self).chunks@[t as int].foods@.len()
                + 1,
            forall|q: int|
                0 <= q < old(self).chunks@[t as int].foods@.len() ==> (#[trigger] final(self).chunks@[t as int].foods@[q]) == old(self).chunks@[t as int].foods@[q],
            final(self).chunks@[t as int].foods@.last().energy == old(self).chunks@[t as int].settings.spawned_food_energy,
            within_chunk_square(
                final(self).chunks@[t as int].foods@.last().position,
                old(self).chunks@[t as int].position,
                old(self).chunk_size as int,
            ),
    {
        let fx = rand_fraction();
        let fy = rand_fraction();
        let dx = fx_sub(fx, 32768);
        let dy = fx_sub(fy, 32768);
        let px = fx_add(self.chunks[t].position.x, fx_mul(dx, self.chunk_size));
        let py = fx_add(self.chunks[t].position.y, fx_mul(dy, self.chunk_size));
        let energy = self.chunks[t].settings.spawned_food_energy;
        self.chunks[t].foods.push(Food { position: Position { x: px, y: py }, energy });
        proof {
            assert(-32768 <= dx < 32768 && -32768 <= dy < 32768);
        }
    }

    /// Spawns this tick's food in every chunk, each according to its own
    /// spawn chance: one item per whole unit, one more with probability the
    /// fractional remainder, each at a random offset within its chunk and
    /// carrying that chunk's configured food energy. Existing food and
    /// everything else stay as they were.
    pub fn spawn_food(&mut self)
        requires
            old(self).wf(),
        ensures
            final(self).wf(),
            final(self).map_size == old(self).map_size,
            final(self).chunk_size == old(self).chunk_size,
            final(self).cells@ == old(self).cells@,
            final(self).chunks@.len() == old(self).chunks@.len(),
            forall|t: int|
                0 <= t < old(self).chunks@.len() ==> {
                    &&& (#[trigger] final(self).chunks@[t]).position == old(self).chunks@[t].position
                    &&& final(self).chunks@[t].settings == old(self).chunks@[t].settings
                    &&& ({
                        let s = old(self).chunks@[t].settings.spawn_chance as int;
                        let len0 = old(self).chunks@[t].foods@.len() as int;
                        let grown = final(self).chunks@[t].foods@.len() as int;
                        &&& len0 + spawn_whole(s) <= grown <= len0 + spawn_whole(s) + 1
                        &&& s <= 0 ==> grown == len0
                        &&& s - spawn_whole(s) * (FX_ONE as int) >= FX_ONE ==> grown == len0
                            + spawn_whole(s) + 1
                    })
                    &&& forall|q: int|
                        0 <= q < old(self).chunks@[t].foods@.len()
                            ==> (#[trigger] final(self).chunks@[t].foods@[q])
                            == old(self).chunks@[t].foods@[q]
                    &&& forall|q: int|
                        old(self).chunks@[t].foods@.len() <= q
                            && q < final(self).chunks@[t].foods@.len()
                            ==> (#[trigger] final(self).chunks@[t].foods@[q]).energy
                            == old(self).chunks@[t].settings.spawned_food_energy
                    &&& forall|q: int|
                        old(self).chunks@[t].foods@.len() <= q
                            && q < final(self).chunks@[t].foods@.len() ==> within_chunk_square(
                            (#[trigger] final(self).chunks@[t].foods@[q]).position,
                            old(self).chunks@[t].position,
                            old(self).chunk_size as int,
                        )
                },
    {
        let ghost c0 = self.chunks@;
        let ghost cs = self.chunk_size as int;
        let n = self.chunks.len();
        let mut t: usize = 0;
        while t < n
            invariant
                self.wf(),
                c0 == old(self).chunks@,
                n == c0.len(),
                t <= n,
                self.map_size == old(self).map_size,
                self.chunk_size == old(self).chunk_size,
                cs == self.chunk_size as int,
                self.cells@ == old(self).cells@,
                self.chunks@.len() == n,
                forall|u: int| t <= u < n ==> (#[trigger] self.chunks@[u]) == c0[u],
                forall|u: int|
                    0 <= u < t ==> {
                        &&& (#[trigger] self.chunks@[u]).position == c0[u].position
                        &&& self.chunks@[u].settings == c0[u].settings
                        &&& ({
                            let s = c0[u].settings.spawn_chance as int;
                            let len0 = c0[u].foods@.len() as int;
                            let grown = self.chunks@[u].foods@.len() as int;
                            &&& len0 + spawn_whole(s) <= grown <= len0 + spawn_whole(s) + 1
                            &&& s <= 0 ==> grown == len0
                            &&& s - spawn_whole(s) * (FX_ONE as int) >= FX_ONE ==> grown == len0
                                + spawn_whole(s) + 1
                        })
                        &&& forall|q: int|
                            0 <= q < c0[u].foods@.len() ==> (#[trigger] self.chunks@[u].foods@[q])
                                == c0[u].foods@[q]
                        &&& forall|q: int|
                            c0[u].foods@.len() <= q && q < self.chunks@[u].foods@.len()
                                ==> (#[trigger] self.chunks@[u].foods@[q]).energy
                                == c0[u].settings.spawned_food_energy
                        &&& forall|q: int|
                            c0[u].foods@.len() <= q && q < self.chunks@[u].foods@.len()
                                ==> within_chunk_square(
                                (#[trigger] self.chunks@[u].foods@[q]).position,
                                c0[u].position,
                                cs,
                            )
                    },
            decreases n - t,
        {
            self.spawn_food_for_chunk(t);
            t += 1;
        }
    }

    /// Removes every depleted food item (energy at or below zero) from every
    /// chunk, keeping the rest in order; nothing else changes.
    pub fn despawn_food(&mut self)
        requires
            old(self).wf(),
        ensures
            final(self).wf(),
            final(self).map_size == old(self).map_size,
            final(self).chunk_size == old(self).chunk_size,
            final(self).cells@ == old(self).cells@,
            final(self).chunks@.len() == old(self).chunks@.len(),
            forall|t: int|
                0 <= t < old(self).chunks@.len() ==> {
                    &&& (#[trigger] final(self).chunks@[t]).position == old(self).chunks@[t].position
                    &&& final(self).chunks@[t].settings == old(self).chunks@[t].settings
                    &&& final(self).chunks@[t].foods@ == live_foods(old(self).chunks@[t].foods@)
                    &&& forall|q: int|
                        0 <= q < final(self).chunks@[t].foods@.len()
                            ==> (#[trigger] final(self).chunks@[t].foods@[q]).energy > 0
                },
    {
        let ghost c0 = self.chunks@;
        let n = self.chunks.len();
        let mut t: usize = 0;
        while t < n
            invariant
                old(self).wf(),
                self.wf(),
                c0 == old(self).chunks@,
                n == c0.len(),
                t <= n,
                self.map_size == old(self).map_size,
                self.chunk_size == old(self).chunk_size,
                self.cells@ == old(self).cells@,
                self.chunks@.len() == n,
                forall|u: int| t <= u < n ==> (#[trigger] self.chunks@[u]) == c0[u],
                forall|u: int|
                    0 <= u < t ==> {
                        &&& (#[trigger] self.chunks@[u]).position == c0[u].position
                        &&& self.chunks@[u].settings == c0[u].settings
                        &&& self.chunks@[u].foods@ == live_foods(c0[u].foods@)
                        &&& forall|q: int|
                            0 <= q < self.chunks@[u].foods@.len() ==> (#[trigger] self.chunks@[u].foods@[q]).energy > 0
                    },
            decreases n - t,
        {
            let m = self.chunks[t].foods.len();
            let ghost f0 = self.chunks@[t as int].foods@;
            let mut kept: Vec<Food> = Vec::new();
            let mut j: usize = 0;
            while j < m
                invariant
                    t < self.chunks@.len(),
                    f0 == self.chunks@[t as int].foods@,
                    m == f0.len(),
                    j <= m,
                    kept@ == live_foods(f0.take(j as int)),
                decreases m - j,
            {
                let f = self.chunks[t].foods[j];
                proof {
                    f0.lemma_take_succ_push(j as int);
                    lemma_live_foods_push(f0.take(j as int), f);
                }
                if f.energy > 0 {
                    kept.push(f);
                }
                j += 1;
            }
            proof {
                f0.lemma_take_len();
                lemma_live_foods_pos(f0);
            }
            self.chunks[t].foods = kept;
            t += 1;
        }
    }

    /// Removes every depleted cell (energy at or below zero), keeping the
    /// rest in order, and reports how many died; nothing else changes.
    pub fn despawn_cells(&mut self) -> (died: usize)
        requires
            old(self).wf(),
        ensures
            final(self).wf(),
            final(self).map_size == old(self).map_size,
            final(self).chunk_size == old(self).chunk_size,
            final(self).chunks@ == old(self).chunks@,
            final(self).cells@ == live_cells(old(self).cells@),
            died == old(self).cells@.len() - final(self).cells@.len(),
            forall|i: int|
                0 <= i < final(self).cells@.len() ==> (#[trigger] final(self).cells@[i]).energy > 0,
            forall|i: int|
                0 <= i < final(self).cells@.len() ==> exists|j: int|
                    0 <= j < old(self).cells@.len() && (#[trigger] final(self).cells@[i]) == old(
                        self,
                    ).cells@[j],
    {
        let ghost c0 = self.cells@;
        let n = self.cells.len();
        let mut kept: Vec<Cell> = Vec::new();
        // Drain from the back so each element can be moved out, then restore
        // the order by draining the survivors from the back again.
        let mut reversed: Vec<Cell> = Vec::new();
        while self.cells.len() > 0
            invariant
                self.map_size == old(self).map_size,
                self.chunk_size == old(self).chunk_size,
                self.chunks@ == old(self).chunks@,
                c0 == old(self).cells@,
                self.cells@.len() + reversed@.len() == c0.len(),
                self.cells@ == c0.take(self.cells@.len() as int),
                forall|k: int|
                    0 <= k < reversed@.len() ==> (#[trigger] reversed@[k]) == c0[c0.len() - 1 - k],
            decreases self.cells@.len(),
        {
            let ghost before = self.cells@;
            let c = self.cells.pop().unwrap();
            proof {
                assert(before.take(before.len() - 1) =~= self.cells@);
                assert(c0.take(self.cells@.len() as int) =~= self.cells@);
            }
            reversed.push(c);
        }
        let ghost r0 = reversed@;
        while reversed.len() > 0
            invariant
                self.map_size == old(self).map_size,
                self.chunk_size == old(self).chunk_size,
                self.chunks@ == old(self).chunks@,
                self.cells@.len() == 0,
                c0 == old(self).cells@,
                reversed@.len() <= r0.len(),
                r0.len() == c0.len(),
                reversed@ == r0.take(reversed@.len() as int),
                forall|k: int| 0 <= k < r0.len() ==> r0[k] == c0[c0.len() - 1 - k],
                kept@ == live_cells(c0.take(c0.len() - reversed@.len())),
            decreases reversed@.len(),
        {
            let ghost before = reversed@;
            let c = reversed.pop().unwrap();
            proof {
                assert(before.take(before.len() - 1) =~= reversed@);
                assert(r0.take(reversed@.len() as int) =~= reversed@);
                let p = c0.len() - before.len();
                assert(c == r0[before.len() - 1]);
                assert(c == c0[p]);
                c0.lemma_take_succ_push(p as int);
                lemma_live_cells_push(c0.take(p as int), c0[p as int]);
            }
            if c.energy > 0 {
                kept.push(c);
            }
        }
        proof {
            assert(c0.take(c0.len() as int) == c0) by {
                c0.lemma_take_len();
            }
            lemma_live_cells_elems(c0);
            lemma_live_cells_len(c0);
        }
        let died = n - kept.len();
        self.cells = kept;
        died
    }

    /// Empties the requested stores: all food, all cells, or both; the grid,
    /// its settings, and whatever was not requested stay as they were.
    pub fn clear(&mut self, clear_food: bool, clear_cells: bool)
        requires
            old(self).wf(),
        ensures
            final(self).wf(),
            final(self).map_size == old(self).map_size,
            final(self).chunk_size == old(self).chunk_size,
            final(self).chunks@.len() == old(self).chunks@.len(),
            clear_cells ==> final(self).cells@.len() == 0,
            !clear_cells ==> final(self).cells@ == old(self).cells@,
            forall|t: int|
                0 <= t < old(self).chunks@.len() ==> {
                    &&& (#[trigger] final(self).chunks@[t]).position == old(self).chunks@[t].position
                    &&& final(self).chunks@[t].settings == old(self).chunks@[t].settings
                    &&& if clear_food {
                        final(self).chunks@[t].foods@.len() == 0
                    } else {
                        final(self).chunks@[t] == old(self).chunks@[t]
                    }
                },
    {
        if clear_food {
            let ghost c0 = self.chunks@;
            let n = self.chunks.len();
            let mut t: usize = 0;
            while t < n
                invariant
                    self.wf(),
                    c0 == old(self).chunks@,
                    n == c0.len(),
                    t <= n,
                    self.map_size == old(self).map_size,
                    self.chunk_size == old(self).chunk_size,
                    self.cells@ == old(self).cells@,
                    self.chunks@.len() == n,
                    forall|u: int| t <= u < n ==> (#[trigger] self.chunks@[u]) == c0[u],
                    forall|u: int|
                        0 <= u < t ==> {
                            &&& (#[trigger] self.chunks@[u]).position == c0[u].position
                            &&& self.chunks@[u].settings == c0[u].settings
                            &&& self.chunks@[u].foods@.len() == 0
                        },
                decreases n - t,
            {
                self.chunks[t].foods = Vec::new();
                t += 1;
            }
        }
        if clear_cells {
            self.cells = Vec::new();
        }
    }

    /// Writes interpolated settings into every chunk: spawn chance runs left
    /// to right across the grid, velocity damping bottom to top, and every
    /// chunk gets the given food energy; nothing else changes.
    pub fn apply_chunk_settings(
        &mut self,
        spawn_chance_left: i64,
        spawn_chance_right: i64,
        velocity_damping_bottom: i64,
        velocity_damping_top: i64,
        food_energy: i64,
    )
        requires
            old(self).wf(),
        ensures
            final(self).wf(),
            final(self).map_size == old(self).map_size,
            final(self).chunk_size == old(self).chunk_size,
            final(self).cells@ == old(self).cells@,
            final(self).chunks@.len() == old(self).chunks@.len(),
            forall|t: int|
                0 <= t < old(self).chunks@.len() ==> {
                    &&& (#[trigger] final(self).chunks@[t]).position == old(self).chunks@[t].position
                    &&& final(self).chunks@[t].foods@ == old(self).chunks@[t].foods@
                    &&& final(self).chunks@[t].settings == interpolated_settings(
                        old(self).chunk_size as int,
                        old(self).map_size as int,
                        old(self).chunks@[t].position,
                        spawn_chance_left as int,
                        spawn_chance_right as int,
                        velocity_damping_bottom as int,
                        velocity_damping_top as int,
                        food_energy,
                    )
                },
    {
        let ghost c0 = self.chunks@;
        let n = self.chunks.len();
        let ms_fx = (self.map_size as i64) * FX_ONE;
        let mut t: usize = 0;
        while t < n
            invariant
                self.wf(),
                c0 == old(self).chunks@,
                n == c0.len(),
                t <= n,
                self.map_size == old(self).map_size,
                self.chunk_size == old(self).chunk_size,
                self.cells@ == old(self).cells@,
                self.chunks@.len() == n,
                ms_fx == old(self).map_size as int * (FX_ONE as int),
                forall|u: int| t <= u < n ==> (#[trigger] self.chunks@[u]) == c0[u],
                forall|u: int|
                    0 <= u < t ==> {
                        &&& (#[trigger] self.chunks@[u]).position == c0[u].position
                        &&& self.chunks@[u].foods@ == c0[u].foods@
                        &&& self.chunks@[u].settings == interpolated_settings(
                            old(self).chunk_size as int,
                            old(self).map_size as int,
                            c0[u].position,
                            spawn_chance_left as int,
                            spawn_chance_right as int,
                            velocity_damping_bottom as int,
                            velocity_damping_top as int,
                            food_energy,
                        )
                    },
            decreases n - t,
        {
            let xi = fx_div(self.chunks[t].position.x, self.chunk_size);
            let yi = fx_div(self.chunks[t].position.y, self.chunk_size);
            let spawn_chance = fx_add(
                spawn_chance_left,
                fx_div(fx_mul(fx_sub(spawn_chance_right, spawn_chance_left), xi), ms_fx),
            );
            let velocity_damping = fx_add(
                velocity_damping_bottom,
                fx_div(fx_mul(fx_sub(velocity_damping_top, velocity_damping_bottom), yi), ms_fx),
            );
            self.chunks[t].settings = ChunkSettings {
                spawn_chance,
                spawned_food_energy: food_energy,
                velocity_damping,
            };
            t += 1;
        }
    }

    /// Spawns `count` fresh cells, each at a uniformly random position on the
    /// map with a uniformly random heading, the given energy, zero velocity,
    /// zero age, and a once-mutated fresh brain; existing cells and the grid
    /// stay as they were.
    pub fn spawn_cells(&mut self, count: usize, energy: i64)
        requires
            old(self).wf(),
        ensures
            final(self).wf(),
            final(self).map_size == old(self).map_size,
            final(self).chunk_size == old(self).chunk_size,
            final(self).chunks@ == old(self).chunks@,
            final(self).cells@.len() == old(self).cells@.len() + count,
            final(self).cells@.take(old(self).cells@.len() as int) == old(self).cells@,
            forall|i: int|
                old(self).cells@.len() <= i < final(self).cells@.len() ==> {
                    &&& (#[trigger] final(self).cells@[i]).energy == energy
                    &&& final(self).cells@[i].child_cooldown == 0
                    &&& final(self).cells@[i].stats.age == 0
                    &&& final(self).cells@[i].stats.child_count == 0
                    &&& final(self).cells@[i].velocity == (Velocity { x: 0, y: 0 })
                    &&& final(self).cells@[i].brain.wf()
                    &&& 0 <= final(self).cells@[i].rotation < TAU_FX
                    &&& final(self).in_bounds(final(self).cells@[i].position)
                    &&& forall|k: int|
                        0 <= k < IMMUNE_NEURON_COUNT
                            ==> (#[trigger] final(self).cells@[i].brain.view_neurons()[k]).output
                            == 0
                },
    {
        let ghost s0 = self.cells@;
        proof {
            assert((self.map_size as int) * (self.chunk_size as int) <= 1024 * 0x1_0000_0000int
                && (self.map_size as int) * (self.chunk_size as int) >= 1) by (nonlinear_arith)
                requires
                    1 <= self.map_size <= 1024,
                    1 <= self.chunk_size <= 0x1_0000_0000,
            ;
        }
        let ext = (self.map_size as i64) * self.chunk_size;
        let mut k: usize = 0;
        while k < count
            invariant
                self.wf(),
                k <= count,
                s0 == old(self).cells@,
                self.map_size == old(self).map_size,
                self.chunk_size == old(self).chunk_size,
                self.chunks@ == old(self).chunks@,
                ext == self.extent(),
                1 <= ext <= 0x400_0000_0000,
                self.cells@.len() == s0.len() + k,
                self.cells@.take(s0.len() as int) == s0,
                forall|i: int|
                    s0.len() <= i < self.cells@.len() ==> {
                        &&& (#[trigger] self.cells@[i]).energy == energy
                        &&& self.cells@[i].child_cooldown == 0
                        &&& self.cells@[i].stats.age == 0
                        &&& self.cells@[i].stats.child_count == 0
                        &&& self.cells@[i].velocity == (Velocity { x: 0, y: 0 })
                        &&& self.cells@[i].brain.wf()
                        &&& 0 <= self.cells@[i].rotation < TAU_FX
                        &&& self.in_bounds(self.cells@[i].position)
                        &&& forall|k: int|
                            0 <= k < IMMUNE_NEURON_COUNT
                                ==> (#[trigger] self.cells@[i].brain.view_neurons()[k]).output == 0
                    },
            decreases count - k,
        {
            let mut brain = Brain::new();
            let ghost fresh = brain.view_neurons();
            brain.mutate();
            proof {
                assert(immune_outputs_preserved(fresh, brain.view_neurons()));
            }
            let px = rand_coordinate(ext);
            let py = rand_coordinate(ext);
            let rot = rand_coordinate(TAU_FX);
            let ghost before = self.cells@;
            self.cells.push(
                Cell {
                    position: Position { x: px, y: py },
                    rotation: rot,
                    velocity: Velocity { x: 0, y: 0 },
                    energy,
                    child_cooldown: 0,
                    stats: CellStats { age: 0, child_count: 0 },
                    brain,
                },
            );
            proof {
                assert(self.cells@.take(s0.len() as int) =~= s0);
            }
            k += 1;
        }
    }
}

/// Unfolds `live_cells` across a push.
proof fn lemma_live_cells_push(s: Seq<Cell>, c: Cell)
    ensures
        live_cells(s.push(c)) == if c.energy <= 0 {
            live_cells(s)
        } else {
            live_cells(s).push(c)
        },
{
    assert(s.push(c).drop_last() =~= s);
}

/// Surviving cells are no more numerous than the original list, and all have
/// positive energy.
proof fn lemma_live_cells_len(s: Seq<Cell>)
    ensures
        live_cells(s).len() <= s.len(),
        forall|i: int| 0 <= i < live_cells(s).len() ==> (#[trigger] live_cells(s)[i]).energy > 0,
    decreases s.len(),
{
    if s.len() > 0 {
        lemma_live_cells_len(s.drop_last());
    }
}

/// A uniformly random coordinate in `[0, ext)`.
fn rand_coordinate(ext: i64) -> (r: i64)
    requires
        1 <= ext <= FX_LIM,
    ensures
        0 <= r < ext,
{
    let f = rand_fraction();
    let r = fx_mul(f, ext);
    proof {
        assert(0 <= fx_mul_s(f as int, ext as int) < ext as int) by (nonlinear_arith)
            requires
                0 <= f < FX_ONE,
                FX_ONE == 65536,
                1 <= ext <= FX_LIM,
                FX_LIM == 0x4000_0000_0000,
    ;
    }
    r
}

} // verus!
