//! One generation step.
//!
//! Every live cell runs the sense → think → act → feed → reproduce →
//! metabolize cycle against a read-only view of the grid; food pickup is
//! applied immediately, so an agent earlier in iteration order can empty a
//! contested item before a later one sees it (a mild, accepted iteration-order
//! dependency). Afterwards each chunk rolls for new food and everything at
//! zero energy is removed.

use vstd::prelude::*;
use crate::fixed::{
    FX_ONE, fx_clip_s, fx_abs_s, fx_add_s, fx_sub_s, fx_mul_s, fx_half_s, fx_clip, fx_abs, fx_add,
    fx_sub, fx_mul, fx_half,
};
use crate::brain::{Neuron, write_spec, post_tick_s, neurons_wf, conn_sat, immune_outputs_preserved};
use crate::trig::{sin_s, angle_to_s, cos_s, cos_fx, sin_fx, angle_to};
use crate::world::{
    World, Cell, CellStats, Chunk, Position, Velocity, SimulationSettings, nearest_food_s,
    eat_world_gain, nbr_done, eaten_foods, lemma_grid_index, spawn_whole,
};

verus! {

/// Scale of the oscillator input: one tenth of a unit per tick of age.
pub const OSCILLATOR_STEP: i64 = 6554;

/// A plain count as a fixed-point scalar, capped so the conversion cannot
/// leave the clipping range.
pub open spec fn count_fx_s(n: int) -> int {
    if n > 0x4000_0000 {
        0x4000_0000 * (FX_ONE as int)
    } else {
        n * (FX_ONE as int)
    }
}

/// A plain count as a fixed-point scalar, exactly `count_fx_s`.
pub fn count_to_fx(n: usize) -> (r: i64)
    ensures
        r == count_fx_s(n as int),
{
    if n > 0x4000_0000 {
        0x4000_0000 * FX_ONE
    } else {
        (n as i64) * FX_ONE
    }
}

/// Age as a fixed-point scalar.
pub open spec fn age_fx_s(age: int) -> int {
    fx_clip_s(age * (FX_ONE as int))
}

/// The cell's brain with the five sensory values written into the reserved
/// input neurons: the bearing from the cell to the nearest food minus the
/// cell's heading, the squared distance to that food, the cell's age, its
/// energy, and a periodic oscillator driven by age.
pub open spec fn sensed_neurons(chunks: Seq<Chunk>, ms: int, cs: int, cell: Cell) -> Seq<Neuron> {
    let cx = cell.position.x as int / cs;
    let cy = cell.position.y as int / cs;
    let nf = nearest_food_s(chunks, ms, cx, cy, cell.position);
    let angle = fx_sub_s(
        angle_to_s(
            fx_sub_s(nf.0.y as int, cell.position.y as int),
            fx_sub_s(nf.0.x as int, cell.position.x as int),
        ),
        cell.rotation as int,
    );
    let age = age_fx_s(cell.stats.age as int);
    let osc = sin_s(fx_mul_s(age, OSCILLATOR_STEP as int));
    write_spec(
        write_spec(
            write_spec(
                write_spec(write_spec(cell.brain.view_neurons(), 0, angle as i64), 1, nf.1 as i64),
                2,
                age as i64,
            ),
            3,
            cell.energy,
        ),
        4,
        osc as i64,
    )
}

/// The cell's brain after sensing and one synchronous think step; the parent
/// keeps exactly this brain through the rest of its step.
pub open spec fn thought_neurons(chunks: Seq<Chunk>, ms: int, cs: int, cell: Cell) -> Seq<Neuron> {
    post_tick_s(sensed_neurons(chunks, ms, cs, cell))
}

/// The deterministic kinematics of one step, from the three actuator outputs
/// of the thought brain: the new heading, the pre-damping velocity, the new
/// position, and the energy after paying for the change of kinetic energy.
pub open spec fn step_motion(chunks: Seq<Chunk>, ms: int, cs: int, cell: Cell, st: SimulationSettings) -> (
    int,
    (int, int),
    (int, int),
    int,
) {
    let ns2 = thought_neurons(chunks, ms, cs, cell);
    let rot = fx_add_s(cell.rotation as int, fx_mul_s(ns2[5].output as int, st.rotation_speed_max as int));
    let acc = ns2[6].output as int;
    let vx = fx_add_s(
        cell.velocity.x as int,
        fx_mul_s(fx_mul_s(cos_s(rot), acc), st.acceleration_max as int),
    );
    let vy = fx_add_s(
        cell.velocity.y as int,
        fx_mul_s(fx_mul_s(sin_s(rot), acc), st.acceleration_max as int),
    );
    let kin_old = fx_add_s(
        fx_mul_s(cell.velocity.x as int, cell.velocity.x as int),
        fx_mul_s(cell.velocity.y as int, cell.velocity.y as int),
    );
    let kin_new = fx_add_s(fx_mul_s(vx, vx), fx_mul_s(vy, vy));
    let cost = fx_clip_s(fx_abs_s(fx_clip_s(fx_sub_s(kin_new, kin_old))));
    let en = fx_sub_s(cell.energy as int, cost);
    let px = fx_add_s(cell.position.x as int, vx);
    let py = fx_add_s(cell.position.y as int, vy);
    (rot, (vx, vy), (px, py), en)
}

/// Per-tick upkeep: the base drain, plus drains proportional to the brain's
/// neuron count, its connection count, and the cell's age.
pub open spec fn upkeep_s(nc: int, cc: int, age: int, st: SimulationSettings) -> int {
    fx_add_s(
        fx_add_s(
            fx_add_s(
                st.base_energy_drain as int,
                fx_mul_s(count_fx_s(nc), st.neuron_energy_drain as int),
            ),
            fx_mul_s(count_fx_s(cc), st.connection_energy_drain as int),
        ),
        fx_mul_s(age_fx_s(age), st.age_energy_drain as int),
    )
}

/// Writing an output neuron leaves the graph invariant intact.
proof fn lemma_write_wf(ns: Seq<Neuron>, id: int, v: i64)
    requires
        neurons_wf(ns),
    ensures
        neurons_wf(write_spec(ns, id, v)),
{
}

impl World {
    /// The sense → think → act → feed → reproduce → metabolize cycle of one
    /// cell. Everything but the child's mutated brain is a function of the
    /// pre-step state: the brain senses and thinks (`thought_neurons`), the
    /// actuator outputs drive heading, velocity, position and the kinetic
    /// energy cost (`step_motion`); a cell that leaves the map is set to zero
    /// energy and stops there; otherwise the chunk's damping applies, food in
    /// collision range is eaten (`eat_world_gain`), a reproduction-willing,
    /// energetic, cooled-down cell splits its energy in half with a child
    /// carrying a deep-copied, once-mutated brain whose reserved outputs
    /// still equal the parent's post-think outputs, and upkeep, aging and
    /// the cooldown countdown close the step.
    pub fn step_cell(&mut self, cell: &mut Cell, st: &SimulationSettings) -> (child: Option<Cell>)
        requires
            old(self).wf(),
            old(cell).brain.wf(),
            old(self).in_bounds(old(cell).position),
        ensures
            final(self).wf(),
            final(self).map_size == old(self).map_size,
            final(self).chunk_size == old(self).chunk_size,
            final(self).cells@ == old(self).cells@,
            final(self).chunks@.len() == old(self).chunks@.len(),
            final(cell).brain.wf(),
            ({
                let ms = old(self).map_size as int;
                let cs = old(self).chunk_size as int;
                let chunks = old(self).chunks@;
                let c0 = *old(cell);
                let ns2 = thought_neurons(chunks, ms, cs, c0);
                let m = step_motion(chunks, ms, cs, c0, *st);
                let oob = !(0 <= m.2.0 < ms * cs) || !(0 <= m.2.1 < ms * cs);
                let cx = c0.position.x as int / cs;
                let cy = c0.position.y as int / cs;
                let damp = chunks[cx * ms + cy].settings.velocity_damping as int;
                let rsum = fx_add_s(st.cell_radius as int, st.food_radius as int);
                let r2 = fx_mul_s(rsum, rsum);
                let npos = Position { x: m.2.0 as i64, y: m.2.1 as i64 };
                let en2 = eat_world_gain(chunks, ms, cx, cy, npos, r2, m.3, 9);
                let nc = c0.brain.view_neurons().len() as int;
                let cc = conn_sat(c0.brain.view_neurons(), nc);
                let splits = ns2[7].output >= 0 && en2 > st.energy_required_for_split as int
                    && c0.child_cooldown == 0;
                let en3 = if splits {
                    fx_half_s(en2)
                } else {
                    en2
                };
                &&& final(cell).brain.view_neurons() == ns2
                &&& final(cell).rotation as int == m.0
                &&& final(cell).position.x as int == m.2.0
                &&& final(cell).position.y as int == m.2.1
                &&& if oob {
                    &&& final(cell).energy == 0
                    &&& final(cell).velocity.x as int == m.1.0
                    &&& final(cell).velocity.y as int == m.1.1
                    &&& final(cell).child_cooldown == c0.child_cooldown
                    &&& final(cell).stats == c0.stats
                    &&& final(self).chunks@ == old(self).chunks@
                    &&& child is None
                } else {
                    &&& final(cell).velocity.x as int == fx_mul_s(
                        m.1.0,
                        fx_sub_s(FX_ONE as int, damp),
                    )
                    &&& final(cell).velocity.y as int == fx_mul_s(
                        m.1.1,
                        fx_sub_s(FX_ONE as int, damp),
                    )
                    &&& forall|t: int|
                        0 <= t < chunks.len() ==> {
                            &&& (#[trigger] final(self).chunks@[t]).position == chunks[t].position
                            &&& final(self).chunks@[t].settings == chunks[t].settings
                            &&& if nbr_done(ms, cx, cy, t, 9) {
                                eaten_foods(
                                    chunks[t].foods@,
                                    final(self).chunks@[t].foods@,
                                    npos,
                                    r2,
                                )
                            } else {
                                final(self).chunks@[t] == chunks[t]
                            }
                        }
                    &&& (child is Some <==> splits)
                    &&& final(cell).energy as int == fx_sub_s(
                        en3,
                        upkeep_s(nc, cc, c0.stats.age as int, *st),
                    )
                    &&& final(cell).stats.age as int == (if c0.stats.age < u32::MAX {
                        c0.stats.age as int + 1
                    } else {
                        u32::MAX as int
                    })
                    &&& if splits {
                        &&& final(cell).stats.child_count as int == (if c0.stats.child_count
                            < u32::MAX {
                            c0.stats.child_count as int + 1
                        } else {
                            u32::MAX as int
                        })
                        &&& final(cell).child_cooldown as int == (if st.child_cooldown > 0 {
                            st.child_cooldown as int - 1
                        } else {
                            0
                        })
                        &&& child->Some_0.position == npos
                        &&& child->Some_0.rotation as int == m.0
                        &&& child->Some_0.velocity == (Velocity { x: 0, y: 0 })
                        &&& child->Some_0.energy as int == en3
                        &&& child->Some_0.child_cooldown == st.child_cooldown
                        &&& child->Some_0.stats == (CellStats { age: 0, child_count: 0 })
                        &&& child->Some_0.brain.wf()
                        &&& immune_outputs_preserved(ns2, child->Some_0.brain.view_neurons())
                    } else {
                        &&& final(cell).stats.child_count == c0.stats.child_count
                        &&& final(cell).child_cooldown as int == (if c0.child_cooldown > 0 {
                            c0.child_cooldown as int - 1
                        } else {
                            0
                        })
                    }
                }
            }),
    {
        let ghost c0 = *cell;
        let ghost chunks0 = self.chunks@;
        let ghost ms = self.map_size as int;
        let ghost cs = self.chunk_size as int;
        let nc = cell.brain.neurons().len();
        let cc = cell.brain.count_connections();
        let (cx, cy) = self.chunk_coords(cell.position);
        // Sense.
        let nf = self.nearest_food(cx, cy, cell.position);
        let rel_y = fx_sub(nf.0.y, cell.position.y);
        let rel_x = fx_sub(nf.0.x, cell.position.x);
        let angle = fx_sub(angle_to(rel_y, rel_x), cell.rotation);
        let age_fx = fx_clip((cell.stats.age as i64) * FX_ONE);
        let osc = sin_fx(fx_mul(age_fx, OSCILLATOR_STEP));
        let en0 = cell.energy;
        cell.brain.write_neuron(0, angle);
        cell.brain.write_neuron(1, nf.1);
        cell.brain.write_neuron(2, age_fx);
        cell.brain.write_neuron(3, en0);
        cell.brain.write_neuron(4, osc);
        proof {
            assert(cell.brain.view_neurons() == sensed_neurons(chunks0, ms, cs, c0));
            lemma_write_wf(write_spec(write_spec(write_spec(write_spec(c0.brain.view_neurons(), 0, angle), 1, nf.1), 2, age_fx), 3, en0), 4, osc);
            lemma_write_wf(write_spec(write_spec(write_spec(c0.brain.view_neurons(), 0, angle), 1, nf.1), 2, age_fx), 3, en0);
            lemma_write_wf(write_spec(write_spec(c0.brain.view_neurons(), 0, angle), 1, nf.1), 2, age_fx);
            lemma_write_wf(write_spec(c0.brain.view_neurons(), 0, angle), 1, nf.1);
            lemma_write_wf(c0.brain.view_neurons(), 0, angle);
        }
        // Think.
        cell.brain.tick();
        proof {
            assert(cell.brain.view_neurons() == thought_neurons(chunks0, ms, cs, c0));
        }
        // Act.
        let rot_out = cell.brain.read_neuron(5).unwrap();
        let acc_out = cell.brain.read_neuron(6).unwrap();
        let want_out = cell.brain.read_neuron(7).unwrap();
        let new_rot = fx_add(cell.rotation, fx_mul(rot_out, st.rotation_speed_max));
        cell.rotation = new_rot;
        let nvx = fx_add(
            cell.velocity.x,
            fx_mul(fx_mul(cos_fx(new_rot), acc_out), st.acceleration_max),
        );
        let nvy = fx_add(
            cell.velocity.y,
            fx_mul(fx_mul(sin_fx(new_rot), acc_out), st.acceleration_max),
        );
        let kin_old = fx_add(
            fx_mul(cell.velocity.x, cell.velocity.x),
            fx_mul(cell.velocity.y, cell.velocity.y),
        );
        let kin_new = fx_add(fx_mul(nvx, nvx), fx_mul(nvy, nvy));
        cell.energy = fx_sub(cell.energy, fx_abs(fx_sub(kin_new, kin_old)));
        cell.velocity = Velocity { x: nvx, y: nvy };
        cell.position = Position {
            x: fx_add(cell.position.x, nvx),
            y: fx_add(cell.position.y, nvy),
        };
        proof {
            assert((self.map_size as int) * (self.chunk_size as int) <= 1024 * 0x1_0000_0000int)
                by (nonlinear_arith)
                requires
                    1 <= self.map_size <= 1024,
                    1 <= self.chunk_size <= 0x1_0000_0000,
            ;
        }
        let ext = (self.map_size as i64) * self.chunk_size;
        if cell.position.x < 0 || cell.position.y < 0 || cell.position.x >= ext
            || cell.position.y >= ext {
            cell.energy = 0;
            return None;
        }
        // Apply the chunk's damping (the chunk the cell started the step in).
        proof {
            lemma_grid_index(ms, cx as int, cy as int);
            assert((self.map_size as int) * (self.map_size as int) <= 1024 * 1024)
                by (nonlinear_arith)
                requires
                    1 <= self.map_size <= 1024,
            ;
        }
        let t = cx * self.map_size + cy;
        let damp = self.chunks[t].settings.velocity_damping;
        cell.velocity = Velocity {
            x: fx_mul(cell.velocity.x, fx_sub(FX_ONE, damp)),
            y: fx_mul(cell.velocity.y, fx_sub(FX_ONE, damp)),
        };
        // Feed.
        let rsum = fx_add(st.cell_radius, st.food_radius);
        let r2 = fx_mul(rsum, rsum);
        let en2 = self.consume_food(cx, cy, cell.position, r2, cell.energy);
        cell.energy = en2;
        // Reproduce.
        let mut child: Option<Cell> = None;
        if want_out >= 0 && cell.energy > st.energy_required_for_split && cell.child_cooldown == 0 {
            if cell.stats.child_count < u32::MAX {
                cell.stats.child_count = cell.stats.child_count + 1;
            }
            cell.child_cooldown = st.child_cooldown;
            let mut child_brain = cell.brain.clone();
            proof {
                assert(child_brain.wf());
            }
            child_brain.mutate();
            proof {
                assert(immune_outputs_preserved(cell.brain.view_neurons(), child_brain.view_neurons()));
            }
            let new_energy = fx_half(cell.energy);
            cell.energy = new_energy;
            child = Some(
                Cell {
                    position: cell.position,
                    rotation: cell.rotation,
                    velocity: Velocity { x: 0, y: 0 },
                    energy: new_energy,
                    child_cooldown: st.child_cooldown,
                    stats: CellStats { age: 0, child_count: 0 },
                    brain: child_brain,
                },
            );
        }
        // Metabolize.
        let upkeep = fx_add(
            fx_add(
                fx_add(st.base_energy_drain, fx_mul(count_to_fx(nc), st.neuron_energy_drain)),
                fx_mul(count_to_fx(cc), st.connection_energy_drain),
            ),
            fx_mul(age_fx, st.age_energy_drain),
        );
        cell.energy = fx_sub(cell.energy, upkeep);
        if cell.stats.age < u32::MAX {
            cell.stats.age = cell.stats.age + 1;
        }
        if cell.child_cooldown > 0 {
            cell.child_cooldown = cell.child_cooldown - 1;
        }
        child
    }

    /// One full generation step: every cell runs its cycle in order, each
    /// chunk rolls for new food, depleted food and cells are removed, and the
    /// children born this tick are appended (they are not ticked or culled
    /// until the next step). Reports the tick's census.
    #[verifier::rlimit(100)]
    pub fn tick_world(&mut self, st: &SimulationSettings) -> (stats: TickStats)
        requires
            old(self).wf(),
        ensures
            final(self).wf(),
            final(self).map_size == old(self).map_size,
            final(self).chunk_size == old(self).chunk_size,
            final(self).chunks@.len() == old(self).chunks@.len(),
            stats.cell_count == old(self).cells@.len(),
            stats.cells_died <= old(self).cells@.len(),
            final(self).cells@.len() + stats.cells_died == old(self).cells@.len()
                + stats.cells_born,
            forall|t: int, q: int|
                0 <= t < final(self).chunks@.len() && 0 <= q < final(self).chunks@[t].foods@.len()
                    ==> (#[trigger] final(self).chunks@[t].foods@[q]).energy > 0,
            forall|i: int|
                0 <= i < old(self).cells@.len() - stats.cells_died ==> {
                    &&& (#[trigger] final(self).cells@[i]).energy > 0
                    &&& final(self).cells@[i].stats.age >= 1
                },
            forall|i: int|
                old(self).cells@.len() - stats.cells_died <= i && i < final(self).cells@.len()
                    ==> {
                    &&& (#[trigger] final(self).cells@[i]).stats == (CellStats {
                        age: 0,
                        child_count: 0,
                    })
                    &&& final(self).cells@[i].child_cooldown == st.child_cooldown
                    &&& final(self).cells@[i].velocity == (Velocity { x: 0, y: 0 })
                },
            forall|t: int|
                0 <= t < old(self).chunks@.len() ==> {
                    &&& (#[trigger] final(self).chunks@[t]).position == old(self).chunks@[t].position
                    &&& final(self).chunks@[t].settings == old(self).chunks@[t].settings
                    &&& (old(self).chunks@[t].settings.spawned_food_energy > 0
                        ==> final(self).chunks@[t].foods@.len() >= spawn_whole(
                        old(self).chunks@[t].settings.spawn_chance as int,
                    ))
                    &&& final(self).chunks@[t].foods@.len() <= old(self).chunks@[t].foods@.len()
                        + spawn_whole(old(self).chunks@[t].settings.spawn_chance as int) + 1
                },
    {
        let mut stats = TickStats {
            cell_count: 0,
            cells_born: 0,
            cells_died: 0,
            children_count_sum: 0,
            neuron_count_sum: 0,
            connection_count_sum: 0,
        };
        let n = self.cells.len();
        let mut born: Vec<Cell> = Vec::new();
        let mut i: usize = 0;
        while i < n
            invariant
                self.wf(),
                self.map_size == old(self).map_size,
                self.chunk_size == old(self).chunk_size,
                self.chunks@.len() == old(self).chunks@.len(),
                self.cells@.len() == n,
                i <= n,
                stats.cell_count == i,
                forall|t: int|
                    0 <= t < old(self).chunks@.len() ==> {
                        &&& (#[trigger] self.chunks@[t]).position == old(self).chunks@[t].position
                        &&& self.chunks@[t].settings == old(self).chunks@[t].settings
                        &&& self.chunks@[t].foods@.len() == old(self).chunks@[t].foods@.len()
                    },
                forall|k: int|
                    0 <= k < i ==> ((#[trigger] self.cells@[k]).energy <= 0 || self.cells@[k].stats.age
                        >= 1),
                forall|k: int|
                    0 <= k < born@.len() ==> {
                        &&& (#[trigger] born@[k]).brain.wf()
                        &&& self.in_bounds(born@[k].position)
                        &&& born@[k].stats == (CellStats { age: 0, child_count: 0 })
                        &&& born@[k].child_cooldown == st.child_cooldown
                        &&& born@[k].velocity == (Velocity { x: 0, y: 0 })
                    },
            decreases n - i,
        {
            let mut cell = self.cells.remove(i);
            stats.cell_count = stats.cell_count + 1;
            stats.children_count_sum = sat_add_u64(
                stats.children_count_sum,
                cell.stats.child_count as u64,
            );
            stats.neuron_count_sum = sat_add_u64(
                stats.neuron_count_sum,
                cell.brain.neurons().len() as u64,
            );
            stats.connection_count_sum = sat_add_u64(
                stats.connection_count_sum,
                cell.brain.count_connections() as u64,
            );
            // A cell off the map is already dead (the invariant allows it
            // only at non-positive energy) and is culled below without
            // running its cycle.
            let child = if self.is_on_map(cell.position) {
                self.step_cell(&mut cell, st)
            } else {
                None
            };
            self.cells.insert(i, cell);
            match child {
                Some(c) => {
                    born.push(c);
                },
                None => {},
            }
            i += 1;
        }
        stats.cells_born = born.len();
        let ghost after_cells = self.chunks@;
        self.spawn_food();
        let ghost after_spawn = self.chunks@;
        self.despawn_food();
        proof {
            assert forall|t: int| 0 <= t < old(self).chunks@.len() implies {
                &&& (#[trigger] self.chunks@[t]).position == old(self).chunks@[t].position
                &&& self.chunks@[t].settings == old(self).chunks@[t].settings
                &&& (old(self).chunks@[t].settings.spawned_food_energy > 0 ==> self.chunks@[t].foods@.len()
                    >= spawn_whole(old(self).chunks@[t].settings.spawn_chance as int))
                &&& self.chunks@[t].foods@.len() <= old(self).chunks@[t].foods@.len() + spawn_whole(
                    old(self).chunks@[t].settings.spawn_chance as int,
                ) + 1
            } by {
                if old(self).chunks@[t].settings.spawned_food_energy > 0 {
                    let base = after_cells[t].foods@.len() as int;
                    crate::world::lemma_live_foods_count(after_spawn[t].foods@, base);
                } else {
                    crate::world::lemma_live_foods_count(
                        after_spawn[t].foods@,
                        after_spawn[t].foods@.len() as int,
                    );
                }
            }
        }
        let ghost stepped = self.cells@;
        let died = self.despawn_cells();
        stats.cells_died = died;
        proof {
            assert forall|i: int| 0 <= i < self.cells@.len() implies (#[trigger] self.cells@[i]).energy
                > 0 && self.cells@[i].stats.age >= 1 by {
                let j = choose|j: int| 0 <= j < stepped.len() && self.cells@[i] == stepped[j];
                assert(stepped[j].energy <= 0 || stepped[j].stats.age >= 1);
            }
        }
        let ghost live_len = self.cells@.len();
        let ghost chunks_after = self.chunks@;
        let mut b: usize = 0;
        let born_total = born.len();
        while b < born_total
            invariant
                self.wf(),
                self.map_size == old(self).map_size,
                self.chunk_size == old(self).chunk_size,
                self.chunks@ == chunks_after,
                chunks_after.len() == old(self).chunks@.len(),
                b <= born_total,
                born@.len() == born_total - b,
                self.cells@.len() == live_len + b,
                forall|i: int|
                    0 <= i < live_len ==> ((#[trigger] self.cells@[i]).energy > 0
                        && self.cells@[i].stats.age >= 1),
                forall|i: int|
                    live_len <= i < self.cells@.len() ==> {
                        &&& (#[trigger] self.cells@[i]).stats == (CellStats {
                            age: 0,
                            child_count: 0,
                        })
                        &&& self.cells@[i].child_cooldown == st.child_cooldown
                        &&& self.cells@[i].velocity == (Velocity { x: 0, y: 0 })
                    },
                forall|t0: int, q: int|
                    0 <= t0 < chunks_after.len() && 0 <= q < chunks_after[t0].foods@.len()
                        ==> (#[trigger] chunks_after[t0].foods@[q]).energy > 0,
                forall|k: int|
                    0 <= k < born@.len() ==> {
                        &&& (#[trigger] born@[k]).brain.wf()
                        &&& self.in_bounds(born@[k].position)
                        &&& born@[k].stats == (CellStats { age: 0, child_count: 0 })
                        &&& born@[k].child_cooldown == st.child_cooldown
                        &&& born@[k].velocity == (Velocity { x: 0, y: 0 })
                    },
            decreases born_total - b,
        {
            let c = born.remove(0);
            self.cells.push(c);
            b += 1;
        }
        stats
    }

    /// `p` lies on the map (the executable bounds check).
    pub fn is_on_map(&self, p: Position) -> (r: bool)
        requires
            self.wf(),
        ensures
            r == self.in_bounds(p),
    {
        proof {
            assert((self.map_size as int) * (self.chunk_size as int) <= 1024 * 0x1_0000_0000int)
                by (nonlinear_arith)
                requires
                    1 <= self.map_size <= 1024,
                    1 <= self.chunk_size <= 0x1_0000_0000,
            ;
        }
        let ext = (self.map_size as i64) * self.chunk_size;
        0 <= p.x && p.x < ext && 0 <= p.y && p.y < ext
    }
}

/// The census one tick reports: how many cells ran, were born and died, and
/// the sums (saturating) of their child counts, neuron counts and connection
/// counts, for an external statistics display.
pub struct TickStats {
    pub cell_count: usize,
    pub cells_born: usize,
    pub cells_died: usize,
    pub children_count_sum: u64,
    pub neuron_count_sum: u64,
    pub connection_count_sum: u64,
}

/// Saturating addition of two counters.
fn sat_add_u64(a: u64, b: u64) -> (r: u64)
    ensures
        r as int == if a as int + b as int > u64::MAX as int {
            u64::MAX as int
        } else {
            a as int + b as int
        },
{
    if b > u64::MAX - a {
        u64::MAX
    } else {
        a + b
    }
}

impl SimulationSettings {
    /// Flips the paused flag: the toggle-pause command.
    pub fn toggle_pause(&mut self)
        ensures
            final(self).is_paused == !old(self).is_paused,
            final(self).cell_radius == old(self).cell_radius,
            final(self).food_radius == old(self).food_radius,
            final(self).base_energy_drain == old(self).base_energy_drain,
            final(self).neuron_energy_drain == old(self).neuron_energy_drain,
            final(self).connection_energy_drain == old(self).connection_energy_drain,
            final(self).age_energy_drain == old(self).age_energy_drain,
            final(self).energy_required_for_split == old(self).energy_required_for_split,
            final(self).rotation_speed_max == old(self).rotation_speed_max,
            final(self).acceleration_max == old(self).acceleration_max,
            final(self).tick_delta_seconds == old(self).tick_delta_seconds,
            final(self).child_cooldown == old(self).child_cooldown,
    {
        self.is_paused = !self.is_paused;
    }

    /// Whether the external scheduler should run a tick now: the simulation
    /// is not paused and the accumulated elapsed time (in fixed-point
    /// seconds) has reached the configured interval.
    pub fn tick_due(&self, elapsed_seconds: i64) -> (r: bool)
        ensures
            r == (!self.is_paused && elapsed_seconds >= self.tick_delta_seconds),
    {
        !self.is_paused && elapsed_seconds >= self.tick_delta_seconds
    }

    /// Replaces every parameter with those of `new`, keeping only the paused
    /// flag: the apply-simulation-settings command.
    pub fn apply_simulation_settings(&mut self, new: SimulationSettings)
        ensures
            final(self).is_paused == old(self).is_paused,
            final(self).cell_radius == new.cell_radius,
            final(self).food_radius == new.food_radius,
            final(self).base_energy_drain == new.base_energy_drain,
            final(self).neuron_energy_drain == new.neuron_energy_drain,
            final(self).connection_energy_drain == new.connection_energy_drain,
            final(self).age_energy_drain == new.age_energy_drain,
            final(self).energy_required_for_split == new.energy_required_for_split,
            final(self).rotation_speed_max == new.rotation_speed_max,
            final(self).acceleration_max == new.acceleration_max,
            final(self).tick_delta_seconds == new.tick_delta_seconds,
            final(self).child_cooldown == new.child_cooldown,
    {
        let paused = self.is_paused;
        *self = new;
        self.is_paused = paused;
    }
}

} // verus!
