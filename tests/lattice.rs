use cube_life::codec::encode;
use cube_life::lattice::Lattice;
use cube_life::rules::{GameRules, State};
use cube_life::simulation::Simulation;
use rand::rngs::StdRng;
use rand::SeedableRng;

fn standard_rules() -> GameRules {
    GameRules { reproduction: 4..5, underpopulation: 0..2, continuation: 2..5, overpopulation: 5..28 }
}

fn slot(x: u8, y: u8, z: u8, n: u8) -> usize {
    (z as usize * n as usize + y as usize) * n as usize + x as usize
}

fn states_with(n: u8, active: &[(u8, u8, u8)]) -> Vec<State> {
    let total = n as usize * n as usize * n as usize;
    let mut states = vec![State::Inactive; total];
    for &(x, y, z) in active {
        states[slot(x, y, z, n)] = State::Active;
    }
    states
}

fn reference_count(states: &[State], n: u8, x: u8, y: u8, z: u8) -> u8 {
    let mut c = 0;
    for dz in -1i16..=1 {
        for dy in -1i16..=1 {
            for dx in -1i16..=1 {
                let (a, b, d) = (x as i16 + dx, y as i16 + dy, z as i16 + dz);
                if (dx, dy, dz) == (0, 0, 0) || a < 0 || b < 0 || d < 0 {
                    continue;
                }
                if a >= n as i16 || b >= n as i16 || d >= n as i16 {
                    continue;
                }
                if states[slot(a as u8, b as u8, d as u8, n)] == State::Active {
                    c += 1;
                }
            }
        }
    }
    c
}

#[test]
fn lookup_by_identifier() {
    let n = 3;
    let lattice = Lattice::from_states(n, states_with(n, &[(1, 2, 0)]));
    assert_eq!(lattice.room_size(), 3);
    assert_eq!(lattice.state(encode(1, 2, 0)), State::Active);
    assert_eq!(lattice.state(encode(2, 1, 0)), State::Inactive);
    assert_eq!(lattice.active_neighbors(encode(1, 2, 0)), 0);
    assert_eq!(lattice.neighbors(encode(0, 0, 0)).len(), 7);
}

#[test]
fn counts_reflect_the_snapshot() {
    let n = 4;
    let active = [(1, 1, 1), (2, 1, 1), (1, 2, 1), (2, 2, 2), (0, 0, 0), (3, 3, 3)];
    let initial = states_with(n, &active);
    let mut lattice = Lattice::from_states(n, initial.clone());
    lattice.count_neighbors();
    for x in 0..n {
        for y in 0..n {
            for z in 0..n {
                let id = encode(x, y, z);
                assert_eq!(lattice.active_neighbors(id), reference_count(&initial, n, x, y, z));
                assert_eq!(lattice.state(id), initial[slot(x, y, z, n)]);
            }
        }
    }
    assert_eq!(lattice.active_neighbors(encode(1, 1, 1)), 4);
}

#[test]
fn step_is_synchronous() {
    let n = 4;
    let rules = standard_rules();
    let active = [(1, 1, 1), (2, 1, 1), (1, 2, 1), (2, 2, 1), (1, 1, 2)];
    let initial = states_with(n, &active);
    let mut lattice = Lattice::from_states(n, initial.clone());
    lattice.step(&rules);
    for x in 0..n {
        for y in 0..n {
            for z in 0..n {
                let c = reference_count(&initial, n, x, y, z);
                let expected = rules.next_state(initial[slot(x, y, z, n)], c);
                assert_eq!(lattice.state(encode(x, y, z)), expected);
            }
        }
    }
}

#[test]
fn inactive_lattice_is_a_fixed_point() {
    let n = 5;
    let mut lattice = Lattice::from_states(n, states_with(n, &[]));
    lattice.step(&standard_rules());
    for x in 0..n {
        for y in 0..n {
            for z in 0..n {
                assert_eq!(lattice.state(encode(x, y, z)), State::Inactive);
            }
        }
    }
}

#[test]
fn lone_cell_dies_of_underpopulation() {
    let n = 3;
    let mut lattice = Lattice::from_states(n, states_with(n, &[(1, 1, 1)]));
    lattice.step(&standard_rules());
    assert_eq!(lattice.state(encode(1, 1, 1)), State::Inactive);
    assert_eq!(lattice.active_neighbors(encode(0, 0, 0)), 1);
}

#[test]
fn four_neighbors_give_birth() {
    let n = 3;
    let active = [(0, 0, 0), (1, 0, 0), (0, 1, 0), (1, 1, 0)];
    let mut lattice = Lattice::from_states(n, states_with(n, &active));
    lattice.step(&standard_rules());
    assert_eq!(lattice.state(encode(0, 0, 1)), State::Active);
    assert_eq!(lattice.state(encode(0, 0, 0)), State::Active);
    assert_eq!(lattice.active_neighbors(encode(0, 0, 1)), 4);
}

#[test]
fn update_steps_only_when_timer_fires() {
    let n = 3;
    let lattice = Lattice::from_states(n, states_with(n, &[(1, 1, 1)]));
    let mut sim = Simulation::new(standard_rules(), 600, lattice);
    assert!(!sim.update(300));
    assert!(!sim.update(299));
    assert_eq!(sim.lattice().state(encode(1, 1, 1)), State::Active);
    assert_eq!(sim.lattice().active_neighbors(encode(0, 0, 0)), 0);
    assert!(sim.update(1));
    assert_eq!(sim.lattice().state(encode(1, 1, 1)), State::Inactive);
    assert_eq!(sim.timer().elapsed(), 0);
    assert!(!sim.update(599));
}

#[test]
fn random_start_has_a_few_active_cells() {
    let mut rng = StdRng::seed_from_u64(7);
    let n = 15u8;
    let sim = Simulation::new_random(standard_rules(), 600, n, &mut rng);
    let mut active = 0;
    for x in 0..n {
        for y in 0..n {
            for z in 0..n {
                if sim.lattice().state(encode(x, y, z)) == State::Active {
                    active += 1;
                }
            }
        }
    }
    assert!(active > 0);
    assert!(active < 3375 / 4);
    assert_eq!(sim.rules().reproduction, 4..5);
}
