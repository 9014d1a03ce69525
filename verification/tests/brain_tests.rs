use ursuppe::brain::{Brain, IMMUNE_NEURON_COUNT};
use ursuppe::fixed::FX_ONE;

#[test]
fn brain_new_immune_neuron_count_test() {
    // Neues Brain erstellen
    let brain = Brain::new();

    // Garantieren, dass ein neues Brain die richtige Anzahl an Neuronen hat
    assert_eq!(brain.neurons().len(), IMMUNE_NEURON_COUNT);
}

#[test]
fn brain_mutate_immune_neuron_count_test() {
    // Neues Brain erstellen
    let mut brain = Brain::new();

    // Brain 10000 mal mutieren lassen
    for _ in 0..10000 {
        brain.mutate();

        // Garantieren, dass das Brain nie weniger als die Mindestanzahl an Neuronen hat
        assert!(brain.neurons().len() >= IMMUNE_NEURON_COUNT);
    }
}

#[test]
fn brain_read_neuron_write_neuron_test() {
    // Neues Brain erstellen
    let mut brain = Brain::new();

    if IMMUNE_NEURON_COUNT > 0 {
        // Garantieren, dass es das Neuron 0 gibt und es mit dem Standartwert 0 initialisiert wurde
        assert_eq!(brain.read_neuron(0), Some(0));
    }

    // Garantieren, dass read_neuron None zurück gibt, falls das gewünschte Neuron nicht existiert
    assert_eq!(brain.read_neuron(IMMUNE_NEURON_COUNT), None);

    if IMMUNE_NEURON_COUNT > 0 {
        brain.write_neuron(0, 5 * FX_ONE);
        // Garantieren, dass das gerade beschriebene Neuron 0 jetzt den neuen Wert enthält
        assert_eq!(brain.read_neuron(0), Some(5 * FX_ONE));
    }
}

#[test]
fn brain_mutate_valid_sources_test() {
    // Every connection's source index stays below the neuron count through
    // many mutations, and one pass moves the neuron count by at most four.
    let mut brain = Brain::new();
    for _ in 0..500 {
        let before = brain.neurons().len() as i64;
        brain.mutate();
        let len = brain.neurons().len();
        assert!((len as i64 - before).abs() <= 4);
        for neuron in brain.neurons() {
            for input in &neuron.inputs {
                assert!(input.neuron_id < len);
            }
        }
    }
}

#[test]
fn brain_tick_two_neuron_cycle_test() {
    // A feeds B and B feeds A; one tick computes both outputs purely from the
    // pre-tick state. A starts at output 2, B at output 1.
    let mut neurons: Vec<(i64, i64)> = vec![(0, 2 * FX_ONE), (0, FX_ONE)];
    let mut connections: Vec<Vec<(usize, i64)>> = vec![
        vec![(1, FX_ONE)],   // A reads B with weight 1
        vec![(0, -32768)],   // B reads A with weight -1/2
    ];
    for _ in 2..IMMUNE_NEURON_COUNT {
        neurons.push((0, 0));
        connections.push(Vec::new());
    }
    let mut brain = Brain::import(&neurons, &connections).unwrap();
    brain.tick();
    // A: act(0 + 1 * 1) = 1/2 in fixed point.
    assert_eq!(brain.read_neuron(0), Some(32768));
    // B: act(0 + (-1/2) * 2) = act(-1) = -1/2; it must read A's old output
    // (2), not A's new output (1/2).
    assert_eq!(brain.read_neuron(1), Some(-32768));
}

#[test]
fn brain_tick_no_connections_fixed_point_test() {
    // A fresh graph has no connections and zero biases: every tick leaves
    // every output at zero, for arbitrarily many ticks.
    let mut brain = Brain::new();
    for _ in 0..50 {
        brain.tick();
        for i in 0..IMMUNE_NEURON_COUNT {
            assert_eq!(brain.read_neuron(i), Some(0));
        }
    }
}

#[test]
fn brain_clone_is_deep_test() {
    let mut brain = Brain::new();
    brain.mutate();
    brain.write_neuron(0, 123456);
    let copy = brain.clone();
    assert_eq!(copy.export_neurons(), brain.export_neurons());
    assert_eq!(copy.export_connections(), brain.export_connections());
    // Writing the copy must not touch the original.
    let mut copy2 = copy.clone();
    copy2.write_neuron(0, -1);
    assert_eq!(brain.read_neuron(0), Some(123456));
}

#[test]
fn brain_export_import_round_trip_test() {
    let mut brain = Brain::new();
    for _ in 0..20 {
        brain.mutate();
    }
    let neurons = brain.export_neurons();
    let connections = brain.export_connections();
    let rebuilt = Brain::import(&neurons, &connections).unwrap();
    assert_eq!(rebuilt.export_neurons(), neurons);
    assert_eq!(rebuilt.export_connections(), connections);
}

#[test]
fn brain_import_rejects_bad_source_test() {
    // A connection pointing past the end of the neuron list is rejected.
    let neurons: Vec<(i64, i64)> = vec![(0, 0); IMMUNE_NEURON_COUNT];
    let mut connections: Vec<Vec<(usize, i64)>> = vec![Vec::new(); IMMUNE_NEURON_COUNT];
    connections[0].push((IMMUNE_NEURON_COUNT, FX_ONE));
    assert!(Brain::import(&neurons, &connections).is_none());
    // Too few neurons are rejected as well.
    let short: Vec<(i64, i64)> = vec![(0, 0); IMMUNE_NEURON_COUNT - 1];
    let short_conns: Vec<Vec<(usize, i64)>> = vec![Vec::new(); IMMUNE_NEURON_COUNT - 1];
    assert!(Brain::import(&short, &short_conns).is_none());
}

#[test]
fn brain_count_connections_test() {
    let neurons: Vec<(i64, i64)> = vec![(0, 0); IMMUNE_NEURON_COUNT];
    let mut connections: Vec<Vec<(usize, i64)>> = vec![Vec::new(); IMMUNE_NEURON_COUNT];
    connections[0].push((0, 1));
    connections[3].push((2, 5));
    connections[3].push((7, -5));
    let brain = Brain::import(&neurons, &connections).unwrap();
    assert_eq!(brain.count_connections(), 3);
}
