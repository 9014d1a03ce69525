use ursuppe::brain::Brain;
use ursuppe::fixed::FX_ONE;
use ursuppe::world::{
    Cell, CellStats, ChunkSettings, Food, Position, SimulationSettings, Velocity, World,
};

/// A 4 x 4 world of 50-unit chunks with nothing random left in it: no food
/// spawning anywhere.
fn quiet_world() -> World {
    let mut world = World::new(4, 50 * FX_ONE);
    for i in 0..world.chunks.len() {
        world.chunks[i].settings = ChunkSettings {
            spawn_chance: 0,
            spawned_food_energy: 200 * FX_ONE,
            velocity_damping: 26214,
        };
    }
    world
}

fn cell_at(x: i64, y: i64, energy: i64, cooldown: u32) -> Cell {
    Cell {
        position: Position { x, y },
        rotation: 0,
        velocity: Velocity { x: 0, y: 0 },
        energy,
        child_cooldown: cooldown,
        stats: CellStats { age: 0, child_count: 0 },
        brain: Brain::new(),
    }
}

fn settings_without_drains() -> SimulationSettings {
    let mut st = SimulationSettings::default();
    st.base_energy_drain = 0;
    st.neuron_energy_drain = 0;
    st.connection_energy_drain = 0;
    st.age_energy_drain = 0;
    st.is_paused = false;
    st
}

#[test]
fn world_new_chunk_centers_test() {
    let world = World::new(4, 50 * FX_ONE);
    assert_eq!(world.chunks.len(), 16);
    assert_eq!(world.cells.len(), 0);
    // Row-major: chunk (x, y) sits at index x * 4 + y, centered in its square.
    let c = &world.chunks[2 * 4 + 1];
    assert_eq!(c.position.x, 2 * 50 * FX_ONE + 25 * FX_ONE);
    assert_eq!(c.position.y, 50 * FX_ONE + 25 * FX_ONE);
    assert_eq!(c.foods.len(), 0);
}

#[test]
fn chunk_coords_test() {
    let world = World::new(4, 50 * FX_ONE);
    let (cx, cy) = world.chunk_coords(Position { x: 120 * FX_ONE, y: 49 * FX_ONE });
    assert_eq!(cx, 2);
    assert_eq!(cy, 0);
}

#[test]
fn nearest_food_picks_closer_test() {
    let mut world = quiet_world();
    // Agent in chunk (2, 2); two food items in the same chunk.
    let pos = Position { x: 100 * FX_ONE, y: 100 * FX_ONE };
    let near = Position { x: 104 * FX_ONE, y: 100 * FX_ONE };
    let far = Position { x: 110 * FX_ONE, y: 100 * FX_ONE };
    let t = 2 * 4 + 2;
    world.chunks[t].foods.push(Food { position: far, energy: FX_ONE });
    world.chunks[t].foods.push(Food { position: near, energy: FX_ONE });
    let (fp, d) = world.nearest_food(2, 2, pos);
    assert_eq!(fp, near);
    assert_eq!(d, 16 * FX_ONE);
}

#[test]
fn food_conservation_test() {
    // An agent with a food item inside collision range ends the tick with its
    // energy increased by exactly the food's energy (drains are zero), and
    // the food is gone.
    let mut world = quiet_world();
    let e0 = 5 * FX_ONE;
    let f0 = 7 * FX_ONE;
    world.cells.push(cell_at(100 * FX_ONE, 100 * FX_ONE, e0, 0));
    let t = 2 * 4 + 2;
    world.chunks[t].foods.push(
        Food { position: Position { x: 105 * FX_ONE, y: 100 * FX_ONE }, energy: f0 },
    );
    let mut st = settings_without_drains();
    // Keep the agent from splitting so only feeding changes its energy.
    st.energy_required_for_split = 1000 * FX_ONE;
    let stats = world.tick_world(&st);
    assert_eq!(stats.cell_count, 1);
    assert_eq!(stats.cells_born, 0);
    assert_eq!(world.cells.len(), 1);
    assert_eq!(world.cells[0].energy, e0 + f0);
    // The emptied food item was removed at cleanup.
    assert_eq!(world.chunks[t].foods.len(), 0);
}

#[test]
fn reproduction_conservation_test() {
    // A willing, energetic, cooled-down parent splits: both parent and child
    // end at exactly half the parent's energy (drains are zero), cooldowns
    // are reset, and the child's statistics start at zero.
    let mut world = quiet_world();
    let e0 = 100 * FX_ONE;
    world.cells.push(cell_at(100 * FX_ONE, 100 * FX_ONE, e0, 0));
    let mut st = settings_without_drains();
    st.energy_required_for_split = 10 * FX_ONE;
    st.child_cooldown = 7;
    // No torque or thrust: a fresh brain outputs zero on every actuator.
    st.rotation_speed_max = 0;
    st.acceleration_max = 0;
    let stats = world.tick_world(&st);
    assert_eq!(stats.cells_born, 1);
    assert_eq!(world.cells.len(), 2);
    let parent = &world.cells[0];
    let child = &world.cells[1];
    assert_eq!(parent.energy, e0 / 2);
    assert_eq!(child.energy, e0 / 2);
    // The parent's cooldown was reset and already counted down once; the
    // child starts at the full configured cooldown.
    assert_eq!(parent.child_cooldown, 6);
    assert_eq!(child.child_cooldown, 7);
    assert_eq!(parent.stats.child_count, 1);
    assert_eq!(child.stats.child_count, 0);
    assert_eq!(child.stats.age, 0);
    assert_eq!(child.position, parent.position);
    // The child's brain went through one mutation of a deep copy: it is a
    // well-formed graph of its own, and mutation never touches the reserved
    // outputs, so they still equal the parent's post-think outputs.
    assert!(child.brain.neurons().len() >= ursuppe::brain::IMMUNE_NEURON_COUNT);
    for k in 0..ursuppe::brain::IMMUNE_NEURON_COUNT {
        assert_eq!(child.brain.read_neuron(k), parent.brain.read_neuron(k));
    }
}

#[test]
fn inert_agent_upkeep_test() {
    // A 4 x 4 grid of 50-unit chunks, one agent in the middle with a brain of
    // only immune neurons, one food item 10 units away: after one tick the
    // agent has not turned or moved, and its energy fell by exactly the base
    // drain plus the neuron drain of its eight neurons.
    let mut world = quiet_world();
    let e0 = 100 * FX_ONE;
    world.cells.push(cell_at(100 * FX_ONE, 100 * FX_ONE, e0, 5));
    let t = 2 * 4 + 2;
    world.chunks[t].foods.push(
        Food { position: Position { x: 110 * FX_ONE, y: 100 * FX_ONE }, energy: 3 * FX_ONE },
    );
    let st = {
        let mut st = SimulationSettings::default();
        st.is_paused = false;
        st
    };
    let stats = world.tick_world(&st);
    assert_eq!(stats.cell_count, 1);
    assert_eq!(stats.cells_born, 0);
    assert_eq!(stats.cells_died, 0);
    let agent = &world.cells[0];
    assert_eq!(agent.rotation, 0);
    assert_eq!(agent.velocity, Velocity { x: 0, y: 0 });
    assert_eq!(agent.position, Position { x: 100 * FX_ONE, y: 100 * FX_ONE });
    // base drain 0.4 plus 8 * 0.01 neuron drain, in fixed point.
    let upkeep = 26214 + 8 * 655;
    assert_eq!(agent.energy, e0 - upkeep);
    // The food was out of collision range (10 > 5 + 3) and is still there.
    assert_eq!(world.chunks[t].foods.len(), 1);
    assert_eq!(world.chunks[t].foods[0].energy, 3 * FX_ONE);
    assert_eq!(agent.stats.age, 1);
    assert_eq!(agent.child_cooldown, 4);
}

#[test]
fn out_of_bounds_is_terminal_test() {
    // An agent moving off the map is set to zero energy and removed at
    // cleanup.
    let mut world = quiet_world();
    let mut cell = cell_at(FX_ONE, 100 * FX_ONE, 50 * FX_ONE, 0);
    cell.velocity = Velocity { x: -10 * FX_ONE, y: 0 };
    world.cells.push(cell);
    let mut st = settings_without_drains();
    st.energy_required_for_split = 1000 * FX_ONE;
    let stats = world.tick_world(&st);
    assert_eq!(stats.cells_died, 1);
    assert_eq!(world.cells.len(), 0);
}

#[test]
fn spawn_food_whole_and_fractional_test() {
    // A spawn chance of 2.5 spawns two items always and a third with
    // probability one half, each carrying the configured energy.
    let mut world = quiet_world();
    world.chunks[0].settings = ChunkSettings {
        spawn_chance: 2 * FX_ONE + FX_ONE / 2,
        spawned_food_energy: 9 * FX_ONE,
        velocity_damping: 0,
    };
    world.spawn_food_for_chunk(0);
    let n = world.chunks[0].foods.len();
    assert!(n == 2 || n == 3);
    for f in &world.chunks[0].foods {
        assert_eq!(f.energy, 9 * FX_ONE);
    }
}

#[test]
fn despawn_food_removes_depleted_test() {
    let mut world = quiet_world();
    let p = Position { x: 10 * FX_ONE, y: 10 * FX_ONE };
    world.chunks[0].foods.push(Food { position: p, energy: 0 });
    world.chunks[0].foods.push(Food { position: p, energy: 3 });
    world.chunks[0].foods.push(Food { position: p, energy: -1 });
    world.despawn_food();
    assert_eq!(world.chunks[0].foods.len(), 1);
    assert_eq!(world.chunks[0].foods[0].energy, 3);
}

#[test]
fn despawn_cells_counts_dead_test() {
    let mut world = quiet_world();
    world.cells.push(cell_at(10 * FX_ONE, 10 * FX_ONE, 5 * FX_ONE, 0));
    world.cells.push(cell_at(20 * FX_ONE, 10 * FX_ONE, 0, 0));
    world.cells.push(cell_at(30 * FX_ONE, 10 * FX_ONE, -3, 0));
    let died = world.despawn_cells();
    assert_eq!(died, 2);
    assert_eq!(world.cells.len(), 1);
    assert_eq!(world.cells[0].energy, 5 * FX_ONE);
}

#[test]
fn clear_world_test() {
    let mut world = quiet_world();
    world.cells.push(cell_at(10 * FX_ONE, 10 * FX_ONE, FX_ONE, 0));
    world.chunks[3].foods.push(
        Food { position: Position { x: FX_ONE, y: FX_ONE }, energy: FX_ONE },
    );
    world.clear(true, false);
    assert_eq!(world.chunks[3].foods.len(), 0);
    assert_eq!(world.cells.len(), 1);
    world.clear(false, true);
    assert_eq!(world.cells.len(), 0);
}

#[test]
fn apply_chunk_settings_interpolates_test() {
    let mut world = World::new(2, 50 * FX_ONE);
    world.apply_chunk_settings(0, 2 * FX_ONE, 0, 2 * FX_ONE, 9 * FX_ONE);
    // Chunk (0, y): center x = 25, index fraction 0.5, so 0.5 of the way
    // from 0 to 2 over two columns: 0 + 2 * 0.5 / 2 = 0.5.
    assert_eq!(world.chunks[0].settings.spawn_chance, FX_ONE / 2);
    // Chunk (1, y): center x = 75, fraction 1.5: 2 * 1.5 / 2 = 1.5.
    assert_eq!(world.chunks[2].settings.spawn_chance, FX_ONE + FX_ONE / 2);
    // Damping interpolates along y the same way.
    assert_eq!(world.chunks[0].settings.velocity_damping, FX_ONE / 2);
    assert_eq!(world.chunks[1].settings.velocity_damping, FX_ONE + FX_ONE / 2);
    assert_eq!(world.chunks[3].settings.spawned_food_energy, 9 * FX_ONE);
}

#[test]
fn spawn_cells_test() {
    let mut world = quiet_world();
    world.spawn_cells(5, 42 * FX_ONE);
    assert_eq!(world.cells.len(), 5);
    let ext = 4 * 50 * FX_ONE;
    for c in &world.cells {
        assert_eq!(c.energy, 42 * FX_ONE);
        assert_eq!(c.child_cooldown, 0);
        assert_eq!(c.stats.age, 0);
        assert!(0 <= c.position.x && c.position.x < ext);
        assert!(0 <= c.position.y && c.position.y < ext);
    }
}

#[test]
fn scheduler_helpers_test() {
    let mut st = SimulationSettings::default();
    assert!(st.is_paused);
    assert!(!st.tick_due(10 * FX_ONE));
    st.toggle_pause();
    assert!(!st.is_paused);
    assert!(st.tick_due(1311));
    assert!(!st.tick_due(1310));
    st.toggle_pause();
    assert!(st.is_paused);
}

#[test]
fn spawn_food_all_chunks_test() {
    // With a whole-number spawn chance every chunk gains exactly that many
    // items per roll plus at most one more.
    let mut world = quiet_world();
    for i in 0..world.chunks.len() {
        world.chunks[i].settings = ChunkSettings {
            spawn_chance: FX_ONE,
            spawned_food_energy: 4 * FX_ONE,
            velocity_damping: 0,
        };
    }
    world.spawn_food();
    for c in &world.chunks {
        // Chance 1.0: the whole part spawns nothing (the loop needs chance
        // strictly above one), the fractional roll of exactly 1.0 almost
        // always fires; either way at most one item appears.
        assert!(c.foods.len() <= 1);
        for f in &c.foods {
            assert_eq!(f.energy, 4 * FX_ONE);
        }
    }
}

#[test]
fn apply_simulation_settings_keeps_pause_test() {
    let mut st = SimulationSettings::default();
    assert!(st.is_paused);
    let mut new = SimulationSettings::default();
    new.cell_radius = 9 * FX_ONE;
    new.is_paused = false;
    st.apply_simulation_settings(new);
    assert_eq!(st.cell_radius, 9 * FX_ONE);
    // The paused flag is owned by the scheduler and survives the command.
    assert!(st.is_paused);
}

#[test]
fn relative_angle_sense_test() {
    // The bearing written into input neuron 0 is measured from the agent, not
    // from the world origin: with the nearest food straight ahead along +x,
    // the relative bearing is zero, so a brain that steers by it does not
    // turn — even though the food's bearing from the origin is far from zero.
    let mut world = quiet_world();
    let neurons: Vec<(i64, i64)> = vec![(0, 0); ursuppe::brain::IMMUNE_NEURON_COUNT];
    let mut connections: Vec<Vec<(usize, i64)>> =
        vec![Vec::new(); ursuppe::brain::IMMUNE_NEURON_COUNT];
    // Output neuron 5 (rotation) reads input neuron 0 (bearing) at weight one.
    connections[5].push((0, FX_ONE));
    let brain = Brain::import(&neurons, &connections).unwrap();
    let mut cell = cell_at(100 * FX_ONE, 100 * FX_ONE, 50 * FX_ONE, 5);
    cell.brain = brain;
    world.cells.push(cell);
    let t = 2 * 4 + 2;
    world.chunks[t].foods.push(
        Food { position: Position { x: 104 * FX_ONE, y: 100 * FX_ONE }, energy: FX_ONE },
    );
    let mut st = settings_without_drains();
    // Keep the food out of pickup range and the actuators otherwise quiet.
    st.cell_radius = FX_ONE;
    st.food_radius = FX_ONE;
    st.acceleration_max = 0;
    st.energy_required_for_split = 1000 * FX_ONE;
    world.tick_world(&st);
    assert_eq!(world.cells[0].rotation, 0);
    assert_eq!(world.cells[0].position, Position { x: 100 * FX_ONE, y: 100 * FX_ONE });
}

#[test]
fn spawn_food_whole_chance_is_deterministic_test() {
    // A spawn chance that is a whole number spawns exactly that many items:
    // the loop covers all but the last, and a remainder of exactly one makes
    // the fractional roll certain.
    let mut world = quiet_world();
    world.chunks[5].settings = ChunkSettings {
        spawn_chance: 2 * FX_ONE,
        spawned_food_energy: 3 * FX_ONE,
        velocity_damping: 0,
    };
    world.spawn_food_for_chunk(5);
    assert_eq!(world.chunks[5].foods.len(), 2);
}
