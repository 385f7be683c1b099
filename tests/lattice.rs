use ising_model::agent::SpinAgent;
use ising_model::env::{IsingEnvironment, LatticeError, MAX_SIZE};

fn lattice_of(rows: &[&[i8]], j_coupling: i32) -> IsingEnvironment {
    let size = rows.len();
    let mut env = IsingEnvironment::new(size, 1000, j_coupling).unwrap();
    for i in 0..size {
        for j in 0..size {
            env.lattice[i][j].spin = rows[i][j];
        }
    }
    env
}

fn uniform_lattice(size: usize, spin: i8, j_coupling: i32) -> IsingEnvironment {
    let mut env = IsingEnvironment::new(size, 1000, j_coupling).unwrap();
    for row in env.lattice.iter_mut() {
        for agent in row.iter_mut() {
            agent.spin = spin;
        }
    }
    env
}

fn exponential_budget(temperature: f64) -> u64 {
    let u: f64 = rand::random::<f64>();
    (-temperature * u.ln()).floor() as u64
}

#[test]
fn flip_reverses_spin() {
    let mut agent = SpinAgent { spin: 1 };
    agent.flip();
    assert_eq!(agent.spin, -1);
    agent.flip();
    assert_eq!(agent.spin, 1);
}

#[test]
fn new_spin_is_up_or_down_and_fair() {
    let mut ups = 0;
    for _ in 0..20000 {
        let agent = SpinAgent::new();
        assert!(agent.spin == 1 || agent.spin == -1);
        if agent.spin == 1 {
            ups += 1;
        }
    }
    let fraction = ups as f64 / 20000.0;
    assert!(fraction > 0.47 && fraction < 0.53, "fraction of up spins {}", fraction);
}

#[test]
fn new_rejects_empty_lattice() {
    assert_eq!(IsingEnvironment::new(0, 2000, 1000).err(), Some(LatticeError::EmptyLattice));
}

#[test]
fn new_rejects_oversized_lattice() {
    assert_eq!(
        IsingEnvironment::new(MAX_SIZE + 1, 2000, 1000).err(),
        Some(LatticeError::LatticeTooLarge)
    );
}

#[test]
fn new_rejects_zero_temperature() {
    assert_eq!(
        IsingEnvironment::new(4, 0, 1000).err(),
        Some(LatticeError::NonPositiveTemperature)
    );
}

#[test]
fn new_fills_every_cell_with_a_spin() {
    for size in 1..=12 {
        let env = IsingEnvironment::new(size, 2000, -500).unwrap();
        assert_eq!(env.size, size);
        assert_eq!(env.temperature, 2000);
        assert_eq!(env.j_coupling, -500);
        assert_eq!(env.lattice.len(), size);
        for row in env.lattice.iter() {
            assert_eq!(row.len(), size);
            for agent in row.iter() {
                assert!(agent.spin == 1 || agent.spin == -1);
            }
        }
        assert!(env.energy_history.is_empty());
        assert!(env.magnetization_history.is_empty());
    }
}

#[test]
fn new_lattices_are_half_up_on_average() {
    let mut ups = 0usize;
    let mut cells = 0usize;
    for _ in 0..200 {
        let env = IsingEnvironment::new(10, 2000, 1000).unwrap();
        for row in env.lattice.iter() {
            for agent in row.iter() {
                cells += 1;
                if agent.spin == 1 {
                    ups += 1;
                }
            }
        }
    }
    let fraction = ups as f64 / cells as f64;
    assert!(fraction > 0.48 && fraction < 0.52, "fraction of up spins {}", fraction);
}

#[test]
fn neighbors_wrap_at_every_edge() {
    let env = IsingEnvironment::new(5, 1000, 1000).unwrap();
    assert_eq!(env.neighbors(0, 0), [(4, 0), (1, 0), (0, 4), (0, 1)]);
    assert_eq!(env.neighbors(4, 4), [(3, 4), (0, 4), (4, 3), (4, 0)]);
    assert_eq!(env.neighbors(2, 3), [(1, 3), (3, 3), (2, 2), (2, 4)]);
    for i in 0..5 {
        for j in 0..5 {
            for (ni, nj) in env.neighbors(i, j) {
                assert!(ni < 5 && nj < 5);
            }
        }
    }
}

#[test]
fn neighbors_on_a_single_site_are_itself() {
    let env = IsingEnvironment::new(1, 1000, 1000).unwrap();
    assert_eq!(env.neighbors(0, 0), [(0, 0); 4]);
}

#[test]
fn site_energy_of_aligned_and_opposed_sites() {
    let env = uniform_lattice(3, 1, 1000);
    assert_eq!(env.calculate_site_energy(1, 1), -4000);
    let env = lattice_of(&[&[1, 1, 1], &[1, -1, 1], &[1, 1, 1]], 1000);
    assert_eq!(env.calculate_site_energy(1, 1), -4000 * -1);
    assert_eq!(env.calculate_site_energy(0, 1), -1000 * (1 + 1 + 1 - 1));
}

#[test]
fn total_energy_of_aligned_two_by_two() {
    let env = uniform_lattice(2, 1, 1);
    assert_eq!(env.calculate_site_energy(0, 0), -4);
    assert_eq!(env.calculate_total_energy(), -8);
}

#[test]
fn total_energy_of_checkerboard_two_by_two() {
    let env = lattice_of(&[&[1, -1], &[-1, 1]], 1);
    assert_eq!(env.calculate_total_energy(), 8);
}

#[test]
fn total_energy_is_half_the_site_energies() {
    let lattices: [&[&[i8]]; 3] = [
        &[&[1, -1, 1], &[1, 1, -1], &[-1, -1, 1]],
        &[&[1, 1, 1, 1], &[1, -1, -1, 1], &[1, -1, 1, 1], &[-1, 1, 1, 1]],
        &[&[-1]],
    ];
    for rows in lattices {
        let env = lattice_of(rows, 750);
        let mut sum = 0i64;
        for i in 0..env.size {
            for j in 0..env.size {
                sum += env.calculate_site_energy(i, j);
            }
        }
        assert_eq!(sum % 2, 0);
        assert_eq!(env.calculate_total_energy(), sum / 2);
    }
}

#[test]
fn total_energy_of_aligned_three_by_three_with_negative_coupling() {
    let env = uniform_lattice(3, -1, -1000);
    assert_eq!(env.calculate_total_energy(), 18 * 1000);
}

#[test]
fn magnetization_of_uniform_lattices() {
    for size in 1..=6 {
        let up = uniform_lattice(size, 1, 1000);
        let m = up.calculate_magnetization();
        assert_eq!(m as f64 / (size * size) as f64, 1.0);
        let down = uniform_lattice(size, -1, 1000);
        let m = down.calculate_magnetization();
        assert_eq!(m as f64 / (size * size) as f64, -1.0);
    }
}

#[test]
fn magnetization_of_balanced_two_by_two() {
    let env = lattice_of(&[&[1, -1], &[-1, 1]], 1000);
    assert_eq!(env.calculate_magnetization(), 0);
    assert_eq!(env.calculate_magnetization() as f64 / 4.0, 0.0);
    let env = lattice_of(&[&[1, 1], &[-1, -1]], 1000);
    assert_eq!(env.calculate_magnetization(), 0);
}

#[test]
fn step_appends_one_entry_to_each_history() {
    let mut env = IsingEnvironment::new(6, 2000, 1000).unwrap();
    for n in 1..=50 {
        let before: Vec<Vec<i8>> =
            env.lattice.iter().map(|r| r.iter().map(|a| a.spin).collect()).collect();
        env.step(exponential_budget(2000.0));
        assert_eq!(env.energy_history.len(), n);
        assert_eq!(env.magnetization_history.len(), n);
        assert_eq!(*env.energy_history.last().unwrap(), env.calculate_total_energy());
        assert_eq!(*env.magnetization_history.last().unwrap(), env.calculate_magnetization());
        let mut changed = 0;
        for i in 0..6 {
            for j in 0..6 {
                if env.lattice[i][j].spin != before[i][j] {
                    changed += 1;
                }
            }
        }
        assert!(changed <= 1);
    }
}

#[test]
fn step_at_keeps_an_energy_lowering_flip() {
    let mut env = lattice_of(&[&[1, 1, 1], &[1, -1, 1], &[1, 1, 1]], 1000);
    env.step_at(1, 1, 0);
    assert_eq!(env.lattice[1][1].spin, 1);
    assert_eq!(env.energy_history, vec![-18000]);
    assert_eq!(env.magnetization_history, vec![9]);
}

#[test]
fn step_at_rejects_uphill_flip_beyond_budget() {
    let mut env = uniform_lattice(2, 1, 1);
    env.step_at(0, 0, 7);
    assert_eq!(env.lattice[0][0].spin, 1);
    assert_eq!(env.energy_history, vec![-8]);
    assert_eq!(env.magnetization_history, vec![4]);
    env.step_at(0, 0, 0);
    assert_eq!(env.lattice[0][0].spin, 1);
}

#[test]
fn step_at_accepts_uphill_flip_within_budget() {
    let mut env = uniform_lattice(2, 1, 1);
    env.step_at(0, 0, 8);
    assert_eq!(env.lattice[0][0].spin, -1);
    assert_eq!(env.energy_history, vec![0]);
    assert_eq!(env.magnetization_history, vec![2]);
    let mut env = uniform_lattice(2, 1, 1);
    env.step_at(1, 0, u64::MAX);
    assert_eq!(env.lattice[1][0].spin, -1);
}

#[test]
fn step_at_on_a_single_site_always_flips() {
    let mut env = uniform_lattice(1, 1, 1000);
    env.step_at(0, 0, 0);
    assert_eq!(env.lattice[0][0].spin, -1);
    assert_eq!(env.energy_history, vec![-2000]);
    assert_eq!(env.magnetization_history, vec![-1]);
}

#[test]
fn acceptance_tends_to_one_at_high_temperature() {
    let mut accepted = 0;
    for _ in 0..2000 {
        let mut env = uniform_lattice(2, 1, 1000);
        env.step_at(0, 0, exponential_budget(1.0e9));
        if env.lattice[0][0].spin == -1 {
            accepted += 1;
        }
    }
    assert!(accepted > 1980, "accepted {}", accepted);
}

#[test]
fn acceptance_tends_to_zero_at_low_temperature() {
    let mut accepted = 0;
    for _ in 0..2000 {
        let mut env = uniform_lattice(2, 1, 1000);
        env.step_at(0, 0, exponential_budget(1.0));
        if env.lattice[0][0].spin == -1 {
            accepted += 1;
        }
    }
    assert_eq!(accepted, 0);
}

#[test]
fn end_to_end_two_by_two_aligned() {
    let mut env = IsingEnvironment::new(2, 1, 1).unwrap();
    for row in env.lattice.iter_mut() {
        for agent in row.iter_mut() {
            agent.spin = 1;
        }
    }
    env.temperature = 1;
    assert_eq!(env.calculate_total_energy(), -8);
    assert_eq!(env.calculate_magnetization(), 4);
}

#[test]
fn from_coin_maps_heads_up_and_tails_down() {
    assert_eq!(SpinAgent::from_coin(true).spin, 1);
    assert_eq!(SpinAgent::from_coin(false).spin, -1);
}

#[test]
fn from_coins_sets_each_cell_from_its_coin() {
    let up = vec![vec![true, false, false], vec![false, true, true], vec![true, true, false]];
    let env = IsingEnvironment::from_coins(3, 1500, -250, &up).unwrap();
    assert_eq!(env.size, 3);
    assert_eq!(env.temperature, 1500);
    assert_eq!(env.j_coupling, -250);
    for i in 0..3 {
        for j in 0..3 {
            assert_eq!(env.lattice[i][j].spin, if up[i][j] { 1 } else { -1 });
        }
    }
    assert!(env.energy_history.is_empty());
    assert!(env.magnetization_history.is_empty());
    assert_eq!(env.calculate_magnetization(), 1);
}

#[test]
fn from_coins_rejects_like_new() {
    let empty: Vec<Vec<bool>> = Vec::new();
    assert_eq!(
        IsingEnvironment::from_coins(0, 1000, 1000, &empty).err(),
        Some(LatticeError::EmptyLattice)
    );
    let up = vec![vec![true, true], vec![true, true]];
    assert_eq!(
        IsingEnvironment::from_coins(2, 0, 1000, &up).err(),
        Some(LatticeError::NonPositiveTemperature)
    );
}
