use crate::agent::{random_bool, SpinAgent};
use vstd::arithmetic::div_mod::{lemma_mod_multiples_vanish, lemma_small_mod};
use vstd::prelude::*;

verus! {

/// Largest side length accepted: with it every energy and spin sum of the
/// lattice stays well inside `i64`.
pub const MAX_SIZE: usize = 16384;

/// Largest magnitude of one site's energy: four bonds of strength `|J|`.
pub open spec fn site_energy_bound() -> int {
    0x2_0000_0000int
}

/// Why a lattice could not be built.
#[derive(Clone, Copy, Debug, PartialEq, Eq, Structural)]
pub enum LatticeError {
    /// The side length is zero.
    EmptyLattice,
    /// The side length exceeds `MAX_SIZE`.
    LatticeTooLarge,
    /// The temperature is zero.
    NonPositiveTemperature,
}

/// The index before `k` on a ring of `n` positions.
pub open spec fn prev_index(k: int, n: int) -> int {
    if k == 0 {
        n - 1
    } else {
        k - 1
    }
}

/// The index after `k` on a ring of `n` positions.
pub open spec fn next_index(k: int, n: int) -> int {
    if k == n - 1 {
        0
    } else {
        k + 1
    }
}

/// A `size` x `size` torus of spins with the interaction parameters and the
/// recorded observables.
///
/// Energies are integers in the unit that `j_coupling` and `temperature` are
/// given in (Boltzmann's constant is one). The magnetization is recorded as
/// the net spin, the sum of all spin values: the mean spin is that sum divided
/// by `size * size`.
pub struct IsingEnvironment {
    pub lattice: Vec<Vec<SpinAgent>>,
    pub size: usize,
    pub temperature: u64,
    pub j_coupling: i32,
    pub energy_history: Vec<i64>,
    pub magnetization_history: Vec<i64>,
}

impl IsingEnvironment {
    /// The grid is `size` x `size`, every cell holds `+1` or `-1`, and the two
    /// histories have one entry per completed step each.
    pub open spec fn wf(&self) -> bool {
        &&& 0 < self.size <= MAX_SIZE
        &&& self.lattice@.len() == self.size
        &&& forall|i: int| 0 <= i < self.size ==> (#[trigger] self.lattice@[i])@.len() == self.size
        &&& forall|i: int, j: int|
            0 <= i < self.size && 0 <= j < self.size ==> (#[trigger] self.lattice@[i]@[j]).wf()
        &&& self.energy_history@.len() == self.magnetization_history@.len()
    }

    /// The spin value at row `i`, column `j`.
    pub open spec fn spin_at(&self, i: int, j: int) -> int {
        self.lattice@[i]@[j].spin as int
    }

    /// Sum of the four periodic neighbours' spins of `(i, j)`.
    pub open spec fn neighbor_sum(&self, i: int, j: int) -> int {
        let n = self.size as int;
        self.spin_at(prev_index(i, n), j) + self.spin_at(next_index(i, n), j) + self.spin_at(
            i,
            prev_index(j, n),
        ) + self.spin_at(i, next_index(j, n))
    }

    /// Local energy `-J * s(i, j) * (sum of the neighbours' spins)`.
    pub open spec fn site_energy(&self, i: int, j: int) -> int {
        -(self.j_coupling as int) * (self.spin_at(i, j) * self.neighbor_sum(i, j))
    }

    /// Change of the local energy of `(i, j)` when its spin is flipped. On a
    /// single-site lattice the site is its own neighbour four times and the
    /// change is zero; otherwise the neighbours stay and the sign turns.
    pub open spec fn flip_delta(&self, i: int, j: int) -> int {
        if self.size == 1 {
            0
        } else {
            2 * (self.j_coupling as int) * (self.spin_at(i, j) * self.neighbor_sum(i, j))
        }
    }

    /// `self` is what one Metropolis trial at `(i, j)` makes of `before` when
    /// the heat bath lends `budget` energy: the flip is kept exactly when it
    /// raises the site's energy by no more than `budget`, no other spin
    /// changes, and the observables of the resulting lattice are appended.
    pub open spec fn is_trial_of(&self, before: Self, i: int, j: int, budget: int) -> bool {
        let accepted = before.flip_delta(i, j) <= budget;
        &&& self.wf()
        &&& self.size == before.size
        &&& self.temperature == before.temperature
        &&& self.j_coupling == before.j_coupling
        &&& forall|a: int, b: int|
            0 <= a < self.size && 0 <= b < self.size && (a != i || b != j) ==> #[trigger] self.spin_at(a, b)
                == before.spin_at(a, b)
        &&& self.spin_at(i, j) == if accepted {
            -before.spin_at(i, j)
        } else {
            before.spin_at(i, j)
        }
        &&& self.energy_history@ == before.energy_history@.push(self.total_energy() as i64)
        &&& self.magnetization_history@ == before.magnetization_history@.push(self.net_spin() as i64)
    }

    /// Neighbour coordinates of `(i, j)` in the order up, down, left, right,
    /// wrapping around the edges.
    pub fn neighbors(&self, i: usize, j: usize) -> (r: [(usize, usize); 4])
        requires
            self.wf(),
            i < self.size,
            j < self.size,
        ensures
            r@[0] == (prev_index(i as int, self.size as int) as usize, j),
            r@[1] == (next_index(i as int, self.size as int) as usize, j),
            r@[2] == (i, prev_index(j as int, self.size as int) as usize),
            r@[3] == (i, next_index(j as int, self.size as int) as usize),
            forall|k: int| 0 <= k < 4 ==> #[trigger] r@[k].0 < self.size && r@[k].1 < self.size,
    {
        let n = self.size;
        proof {
            lemma_wrap(i as int, n as int);
            lemma_wrap(j as int, n as int);
        }
        [((i + n - 1) % n, j), ((i + 1) % n, j), (i, (j + n - 1) % n), (i, (j + 1) % n)]
    }

    /// Local energy of the site `(i, j)`.
    pub fn calculate_site_energy(&self, i: usize, j: usize) -> (r: i64)
        requires
            self.wf(),
            i < self.size,
            j < self.size,
        ensures
            r == self.site_energy(i as int, j as int),
            -site_energy_bound() <= r <= site_energy_bound(),
    {
        let nb = self.neighbors(i, j);
        let current_spin = self.lattice[i][j].spin as i64;
        let (ui, uj) = nb[0];
        let (di, dj) = nb[1];
        let (li, lj) = nb[2];
        let (ri, rj) = nb[3];
        proof {
            assert(nb@[0].0 < self.size && nb@[0].1 < self.size);
            assert(nb@[1].0 < self.size && nb@[1].1 < self.size);
            assert(nb@[2].0 < self.size && nb@[2].1 < self.size);
            assert(nb@[3].0 < self.size && nb@[3].1 < self.size);
            assert(self.lattice@[ui as int]@[uj as int].wf());
            assert(self.lattice@[di as int]@[dj as int].wf());
            assert(self.lattice@[li as int]@[lj as int].wf());
            assert(self.lattice@[ri as int]@[rj as int].wf());
        }
        let sum: i64 = self.lattice[ui][uj].spin as i64 + self.lattice[di][dj].spin as i64
            + self.lattice[li][lj].spin as i64 + self.lattice[ri][rj].spin as i64;
        proof {
            let s = current_spin as int;
            let j_c = self.j_coupling as int;
            assert(self.lattice@[i as int]@[j as int].wf());
            assert(sum == self.neighbor_sum(i as int, j as int));
            assert(-4 <= s * sum <= 4) by (nonlinear_arith)
                requires
                    s == 1 || s == -1,
                    -4 <= sum <= 4,
            ;
            let x = s * sum;
            assert(-site_energy_bound() <= -j_c * x <= site_energy_bound()) by (nonlinear_arith)
                requires
                    -4 <= x <= 4,
                    -0x8000_0000 <= j_c < 0x8000_0000,
            ;
        }
        -(self.j_coupling as i64) * (current_spin * sum)
    }

    /// Sum of the local energies of the first `k` sites of row `i`.
    pub open spec fn row_energy(&self, i: int, k: int) -> int
        decreases k,
    {
        if k <= 0 {
            0
        } else {
            self.row_energy(i, k - 1) + self.site_energy(i, k - 1)
        }
    }

    /// Sum of the local energies of all sites in the first `k` rows.
    pub open spec fn grid_energy(&self, k: int) -> int
        decreases k,
    {
        if k <= 0 {
            0
        } else {
            self.grid_energy(k - 1) + self.row_energy(k - 1, self.size as int)
        }
    }

    /// Sum of the local energies of all sites; every bond is counted from
    /// both of its ends.
    pub open spec fn site_energy_sum(&self) -> int {
        self.grid_energy(self.size as int)
    }

    /// Total energy of the lattice: each bond counted once.
    pub open spec fn total_energy(&self) -> int {
        self.site_energy_sum() / 2
    }

    /// Sum of the spins of the first `k` sites of row `i`.
    pub open spec fn row_spin(&self, i: int, k: int) -> int
        decreases k,
    {
        if k <= 0 {
            0
        } else {
            self.row_spin(i, k - 1) + self.spin_at(i, k - 1)
        }
    }

    /// Sum of the spins of all sites in the first `k` rows.
    pub open spec fn grid_spin(&self, k: int) -> int
        decreases k,
    {
        if k <= 0 {
            0
        } else {
            self.grid_spin(k - 1) + self.row_spin(k - 1, self.size as int)
        }
    }

    /// Net spin: the sum of all spin values. The magnetization is this sum
    /// divided by the number of sites.
    pub open spec fn net_spin(&self) -> int {
        self.grid_spin(self.size as int)
    }

    /// A site's local energy is bounded by four bonds and is even: the
    /// sum of four spins of one unit each is even.
    proof fn lemma_site_energy(&self, i: int, j: int)
        requires
            self.wf(),
            0 <= i < self.size,
            0 <= j < self.size,
        ensures
            -site_energy_bound() <= self.site_energy(i, j) <= site_energy_bound(),
            self.site_energy(i, j) % 2 == 0,
    {
        let n = self.size as int;
        lemma_wrap(i, n);
        lemma_wrap(j, n);
        assert(self.lattice@[i]@[j].wf());
        assert(self.lattice@[prev_index(i, n)]@[j].wf());
        assert(self.lattice@[next_index(i, n)]@[j].wf());
        assert(self.lattice@[i]@[prev_index(j, n)].wf());
        assert(self.lattice@[i]@[next_index(j, n)].wf());
        let s = self.spin_at(i, j);
        let ns = self.neighbor_sum(i, j);
        let j_c = self.j_coupling as int;
        assert(ns % 2 == 0);
        let x = s * ns;
        if s == 1 {
            assert(x == ns);
        } else {
            assert(x == -ns);
        }
        assert(-site_energy_bound() <= -j_c * x <= site_energy_bound()) by (nonlinear_arith)
            requires
                -4 <= x <= 4,
                -0x8000_0000 <= j_c < 0x8000_0000,
        ;
        let m = x / 2;
        assert(-j_c * x == 2 * (-j_c * m)) by (nonlinear_arith)
            requires
                x == 2 * m,
        ;
    }

    /// Bounds and parity of a partial row sum of local energies.
    proof fn lemma_row_energy(&self, i: int, k: int)
        requires
            self.wf(),
            0 <= i < self.size,
            0 <= k <= self.size,
        ensures
            -(k * site_energy_bound()) <= self.row_energy(i, k) <= k * site_energy_bound(),
            self.row_energy(i, k) % 2 == 0,
        decreases k,
    {
        if k > 0 {
            self.lemma_row_energy(i, k - 1);
            self.lemma_site_energy(i, k - 1);
        }
    }

    /// Bounds and parity of the local energies summed over the first `k` rows.
    proof fn lemma_grid_energy(&self, k: int)
        requires
            self.wf(),
            0 <= k <= self.size,
        ensures
            -(k * (self.size * site_energy_bound())) <= self.grid_energy(k) <= k * (self.size
                * site_energy_bound()),
            self.grid_energy(k) % 2 == 0,
        decreases k,
    {
        if k > 0 {
            self.lemma_grid_energy(k - 1);
            self.lemma_row_energy(k - 1, self.size as int);
            let r = self.size * site_energy_bound();
            assert((k - 1) * r + r == k * r) by (nonlinear_arith);
        }
    }

    /// A partial sum of local energies over whole rows before `i` and the
    /// first `j` sites of row `i` fits in `i64`.
    proof fn lemma_energy_partial_bound(&self, i: int, j: int)
        requires
            self.wf(),
            0 <= i < self.size,
            0 <= j <= self.size,
        ensures
            -0x2000_0000_0000_0000 <= self.grid_energy(i) + self.row_energy(i, j)
                <= 0x2000_0000_0000_0000,
    {
        self.lemma_grid_energy(i);
        self.lemma_row_energy(i, j);
        let n = self.size as int;
        let b = site_energy_bound();
        assert(i * (n * b) + j * b <= 0x2000_0000_0000_0000) by (nonlinear_arith)
            requires
                0 <= i < n,
                0 <= j <= n,
                n <= 16384,
                b == 0x2_0000_0000,
        ;
    }

    /// Bounds of partial spin sums.
    proof fn lemma_row_spin(&self, i: int, k: int)
        requires
            self.wf(),
            0 <= i < self.size,
            0 <= k <= self.size,
        ensures
            -k <= self.row_spin(i, k) <= k,
        decreases k,
    {
        if k > 0 {
            self.lemma_row_spin(i, k - 1);
            assert(self.lattice@[i]@[k - 1].wf());
        }
    }

    /// Bounds of the spins summed over the first `k` rows.
    proof fn lemma_grid_spin(&self, k: int)
        requires
            self.wf(),
            0 <= k <= self.size,
        ensures
            -(k * self.size) <= self.grid_spin(k) <= k * self.size,
        decreases k,
    {
        if k > 0 {
            self.lemma_grid_spin(k - 1);
            self.lemma_row_spin(k - 1, self.size as int);
            assert((k - 1) * self.size + self.size == k * self.size) by (nonlinear_arith);
        }
    }

    /// A partial spin sum fits comfortably in `i64`.
    proof fn lemma_spin_partial_bound(&self, i: int, j: int)
        requires
            self.wf(),
            0 <= i < self.size,
            0 <= j <= self.size,
        ensures
            -0x1000_0000 <= self.grid_spin(i) + self.row_spin(i, j) <= 0x1000_0000,
    {
        self.lemma_grid_spin(i);
        self.lemma_row_spin(i, j);
        let n = self.size as int;
        assert(i * n + j <= 0x1000_0000) by (nonlinear_arith)
            requires
                0 <= i < n,
                0 <= j <= n,
                n <= 16384,
        ;
    }

    /// Total energy: half the sum of all local energies, since every bond
    /// is counted from both of its ends. The sum is even, so the halving is
    /// exact.
    pub fn calculate_total_energy(&self) -> (r: i64)
        requires
            self.wf(),
        ensures
            r == self.total_energy(),
            2 * r == self.site_energy_sum(),
    {
        let mut total_energy: i64 = 0;
        let mut i: usize = 0;
        while i < self.size
            invariant
                self.wf(),
                0 <= i <= self.size,
                total_energy == self.grid_energy(i as int),
            decreases self.size - i,
        {
            let mut j: usize = 0;
            while j < self.size
                invariant
                    self.wf(),
                    0 <= i < self.size,
                    0 <= j <= self.size,
                    total_energy == self.grid_energy(i as int) + self.row_energy(i as int, j as int),
                decreases self.size - j,
            {
                proof {
                    self.lemma_energy_partial_bound(i as int, j as int + 1);
                }
                total_energy = total_energy + self.calculate_site_energy(i, j);
                j = j + 1;
            }
            i = i + 1;
        }
        proof {
            self.lemma_grid_energy(self.size as int);
        }
        total_energy / 2
    }

    /// Net spin of the lattice, the sum of all spin values; the
    /// magnetization, the mean spin, is this divided by `size * size`.
    pub fn calculate_magnetization(&self) -> (r: i64)
        requires
            self.wf(),
        ensures
            r == self.net_spin(),
            -(self.size * self.size) <= r <= self.size * self.size,
    {
        let mut total_spin: i64 = 0;
        let mut i: usize = 0;
        while i < self.size
            invariant
                self.wf(),
                0 <= i <= self.size,
                total_spin == self.grid_spin(i as int),
            decreases self.size - i,
        {
            let mut j: usize = 0;
            while j < self.size
                invariant
                    self.wf(),
                    0 <= i < self.size,
                    0 <= j <= self.size,
                    total_spin == self.grid_spin(i as int) + self.row_spin(i as int, j as int),
                decreases self.size - j,
            {
                proof {
                    self.lemma_spin_partial_bound(i as int, j as int + 1);
                    assert(self.lattice@[i as int]@[j as int].wf());
                }
                total_spin = total_spin + self.lattice[i][j].spin as i64;
                j = j + 1;
            }
            i = i + 1;
        }
        proof {
            self.lemma_grid_spin(self.size as int);
        }
        total_spin
    }

    /// Builds a `size` x `size` lattice whose cell `(i, j)` points up
    /// exactly when the coin `up[i][j]` is `true`, with the given temperature
    /// and coupling, and empty histories.
    pub fn from_coins(size: usize, temperature: u64, j_coupling: i32, up: &Vec<Vec<bool>>) -> (r:
        Result<Self, LatticeError>)
        requires
            up@.len() == size,
            forall|i: int| 0 <= i < size ==> (#[trigger] up@[i])@.len() == size,
        ensures
            size == 0 ==> r == Err::<Self, LatticeError>(LatticeError::EmptyLattice),
            size > MAX_SIZE ==> r == Err::<Self, LatticeError>(LatticeError::LatticeTooLarge),
            0 < size <= MAX_SIZE && temperature == 0 ==> r == Err::<Self, LatticeError>(
                LatticeError::NonPositiveTemperature,
            ),
            r is Ok <==> 0 < size <= MAX_SIZE && temperature > 0,
            r is Ok ==> ({
                let env = r->Ok_0;
                &&& env.wf()
                &&& env.size == size
                &&& env.temperature == temperature
                &&& env.j_coupling == j_coupling
                &&& env.energy_history@.len() == 0
                &&& env.magnetization_history@.len() == 0
                &&& forall|i: int, j: int|
                    0 <= i < size && 0 <= j < size ==> #[trigger] env.spin_at(i, j) == if up@[i]@[j] {
                        1int
                    } else {
                        -1int
                    }
            }),
    {
        if size == 0 {
            return Err(LatticeError::EmptyLattice);
        }
        if size > MAX_SIZE {
            return Err(LatticeError::LatticeTooLarge);
        }
        if temperature == 0 {
            return Err(LatticeError::NonPositiveTemperature);
        }
        let mut lattice: Vec<Vec<SpinAgent>> = Vec::new();
        let mut i: usize = 0;
        while i < size
            invariant
                0 <= i <= size,
                up@.len() == size,
                forall|a: int| 0 <= a < size ==> (#[trigger] up@[a])@.len() == size,
                lattice@.len() == i,
                forall|a: int| 0 <= a < i ==> (#[trigger] lattice@[a])@.len() == size,
                forall|a: int, b: int|
                    0 <= a < i && 0 <= b < size ==> (#[trigger] lattice@[a]@[b]).wf()
                        && lattice@[a]@[b].spin as int == if up@[a]@[b] {
                        1int
                    } else {
                        -1int
                    },
            decreases size - i,
        {
            let mut row: Vec<SpinAgent> = Vec::new();
            let mut j: usize = 0;
            assert(up@[i as int]@.len() == size);
            while j < size
                invariant
                    0 <= j <= size,
                    0 <= i < size,
                    up@.len() == size,
                    up@[i as int]@.len() == size,
                    row@.len() == j,
                    forall|b: int|
                        0 <= b < j ==> (#[trigger] row@[b]).wf() && row@[b].spin as int == if up@[i as int]@[b] {
                            1int
                        } else {
                            -1int
                        },
                decreases size - j,
            {
                row.push(SpinAgent::from_coin(up[i][j]));
                j = j + 1;
            }
            lattice.push(row);
            i = i + 1;
        }
        Ok(IsingEnvironment {
            lattice,
            size,
            temperature,
            j_coupling,
            energy_history: Vec::new(),
            magnetization_history: Vec::new(),
        })
    }

    /// Builds a `size` x `size` lattice of independent random spins, each up
    /// or down with probability one half (one fair coin per cell, see
    /// `from_coins`), with the given temperature and coupling, and empty
    /// histories.
    pub fn new(size: usize, temperature: u64, j_coupling: i32) -> (r: Result<Self, LatticeError>)
        ensures
            size == 0 ==> r == Err::<Self, LatticeError>(LatticeError::EmptyLattice),
            size > MAX_SIZE ==> r == Err::<Self, LatticeError>(LatticeError::LatticeTooLarge),
            0 < size <= MAX_SIZE && temperature == 0 ==> r == Err::<Self, LatticeError>(
                LatticeError::NonPositiveTemperature,
            ),
            r is Ok <==> 0 < size <= MAX_SIZE && temperature > 0,
            r is Ok ==> ({
                let env = r->Ok_0;
                &&& env.wf()
                &&& env.size == size
                &&& env.temperature == temperature
                &&& env.j_coupling == j_coupling
                &&& env.energy_history@.len() == 0
                &&& env.magnetization_history@.len() == 0
            }),
    {
        if size == 0 {
            return Err(LatticeError::EmptyLattice);
        }
        if size > MAX_SIZE {
            return Err(LatticeError::LatticeTooLarge);
        }
        if temperature == 0 {
            return Err(LatticeError::NonPositiveTemperature);
        }
        let mut up: Vec<Vec<bool>> = Vec::new();
        let mut i: usize = 0;
        while i < size
            invariant
                0 <= i <= size,
                up@.len() == i,
                forall|a: int| 0 <= a < i ==> (#[trigger] up@[a])@.len() == size,
            decreases size - i,
        {
            let mut row: Vec<bool> = Vec::new();
            let mut j: usize = 0;
            while j < size
                invariant
                    0 <= j <= size,
                    row@.len() == j,
                decreases size - j,
            {
                row.push(random_bool());
                j = j + 1;
            }
            up.push(row);
            i = i + 1;
        }
        IsingEnvironment::from_coins(size, temperature, j_coupling, &up)
    }

    /// One Metropolis trial at the site `(i, j)`. The heat bath lends
    /// `thermal_budget` energy to the trial: the flip is kept when the local
    /// energy change is at most that, so a flip that does not raise the energy
    /// is always kept. Drawing the budget from an exponential distribution with
    /// mean `temperature` makes this Metropolis' rule, which keeps a flip that
    /// raises the energy by `delta` with probability `exp(-delta / temperature)`.
    /// Both histories then record the lattice's total energy and net spin.
    pub fn step_at(&mut self, i: usize, j: usize, thermal_budget: u64)
        requires
            old(self).wf(),
            i < old(self).size,
            j < old(self).size,
        ensures
            final(self).is_trial_of(*old(self), i as int, j as int, thermal_budget as int),
            old(self).flip_delta(i as int, j as int) <= 0 ==> final(self).spin_at(i as int, j as int)
                == -old(self).spin_at(i as int, j as int),
            thermal_budget == 0 && old(self).flip_delta(i as int, j as int) > 0 ==> final(self).spin_at(
                i as int,
                j as int,
            ) == old(self).spin_at(i as int, j as int),
    {
        let ghost before = *self;
        let energy_before = self.calculate_site_energy(i, j);
        self.lattice[i][j].flip();
        proof {
            self.lemma_single_change(before, i as int, j as int);
            self.lemma_flip_delta(before, i as int, j as int);
        }
        let energy_after = self.calculate_site_energy(i, j);
        let delta_e = energy_after - energy_before;
        if delta_e > 0 && delta_e as u64 > thermal_budget {
            let ghost flipped = *self;
            self.lattice[i][j].flip();
            proof {
                self.lemma_single_change(flipped, i as int, j as int);
            }
        }
        let ghost settled = *self;
        let total_energy = self.calculate_total_energy();
        let magnetization = self.calculate_magnetization();
        self.energy_history.push(total_energy);
        self.magnetization_history.push(magnetization);
        proof {
            self.lemma_same_lattice(settled);
        }
    }

    /// `self` differs from `before` only in the spin at `(i, j)`, which it
    /// holds reversed; it is then well formed and all other spins agree.
    proof fn lemma_single_change(&self, before: Self, i: int, j: int)
        requires
            before.wf(),
            0 <= i < before.size,
            0 <= j < before.size,
            self.size == before.size,
            self.energy_history == before.energy_history,
            self.magnetization_history == before.magnetization_history,
            self.lattice@.len() == before.lattice@.len(),
            forall|a: int| 0 <= a < self.size && a != i ==> #[trigger] self.lattice@[a] == before.lattice@[a],
            self.lattice@[i]@.len() == before.lattice@[i]@.len(),
            forall|b: int| 0 <= b < self.size && b != j ==> #[trigger] self.lattice@[i]@[b] == before.lattice@[i]@[b],
            self.lattice@[i]@[j].spin == -before.lattice@[i]@[j].spin,
        ensures
            self.wf(),
            forall|a: int, b: int|
                0 <= a < self.size && 0 <= b < self.size && (a != i || b != j) ==> #[trigger] self.spin_at(a, b)
                    == before.spin_at(a, b),
            self.spin_at(i, j) == -before.spin_at(i, j),
    {
        assert(before.lattice@[i]@[j].wf());
        assert forall|a: int, b: int| 0 <= a < self.size && 0 <= b < self.size implies (
        #[trigger] self.lattice@[a]@[b]).wf() by {
            assert(before.lattice@[a]@[b].wf());
        }
    }

    /// Recomputing the local energy of `(i, j)` after its spin was reversed
    /// gives the old local energy plus `flip_delta`.
    proof fn lemma_flip_delta(&self, before: Self, i: int, j: int)
        requires
            before.wf(),
            self.wf(),
            0 <= i < before.size,
            0 <= j < before.size,
            self.size == before.size,
            self.j_coupling == before.j_coupling,
            forall|a: int, b: int|
                0 <= a < self.size && 0 <= b < self.size && (a != i || b != j) ==> #[trigger] self.spin_at(a, b)
                    == before.spin_at(a, b),
            self.spin_at(i, j) == -before.spin_at(i, j),
        ensures
            self.site_energy(i, j) - before.site_energy(i, j) == before.flip_delta(i, j),
    {
        let n = self.size as int;
        lemma_wrap(i, n);
        lemma_wrap(j, n);
        assert(before.lattice@[i]@[j].wf());
        let s = before.spin_at(i, j);
        let j_c = self.j_coupling as int;
        if n == 1 {
            assert(before.neighbor_sum(i, j) == 4 * s);
            assert(self.neighbor_sum(i, j) == -4 * s);
            let t = self.spin_at(i, j);
            assert(t * (-4 * s) == 4 && s * (4 * s) == 4) by (nonlinear_arith)
                requires
                    s == 1 || s == -1,
                    t == -s,
            ;
        } else {
            let ns = before.neighbor_sum(i, j);
            assert(self.neighbor_sum(i, j) == ns);
            let x = s * ns;
            let t = self.spin_at(i, j);
            assert(t * ns == -x) by (nonlinear_arith)
                requires
                    t == -s,
                    x == s * ns,
            ;
            assert(-j_c * (-x) - (-j_c * x) == 2 * j_c * x) by (nonlinear_arith);
        }
    }

    /// Partial row sums agree between two lattices with the same cells.
    proof fn lemma_same_rows(&self, other: Self, i: int, k: int)
        requires
            self.lattice == other.lattice,
            self.size == other.size,
            self.j_coupling == other.j_coupling,
        ensures
            self.row_energy(i, k) == other.row_energy(i, k),
            self.row_spin(i, k) == other.row_spin(i, k),
        decreases k,
    {
        if k > 0 {
            self.lemma_same_rows(other, i, k - 1);
        }
    }

    /// Partial grid sums agree between two lattices with the same cells.
    proof fn lemma_same_grid(&self, other: Self, k: int)
        requires
            self.lattice == other.lattice,
            self.size == other.size,
            self.j_coupling == other.j_coupling,
        ensures
            self.grid_energy(k) == other.grid_energy(k),
            self.grid_spin(k) == other.grid_spin(k),
        decreases k,
    {
        if k > 0 {
            self.lemma_same_grid(other, k - 1);
            self.lemma_same_rows(other, k - 1, self.size as int);
        }
    }

    /// The observables depend on the cells, the size and the coupling alone.
    proof fn lemma_same_lattice(&self, other: Self)
        requires
            self.lattice == other.lattice,
            self.size == other.size,
            self.j_coupling == other.j_coupling,
        ensures
            self.total_energy() == other.total_energy(),
            self.net_spin() == other.net_spin(),
    {
        self.lemma_same_grid(other, self.size as int);
    }

    /// One Metropolis trial at a site drawn uniformly at random, with the
    /// heat bath lending `thermal_budget` energy (see `step_at`).
    pub fn step(&mut self, thermal_budget: u64)
        requires
            old(self).wf(),
        ensures
            exists|i: int, j: int|
                0 <= i < old(self).size && 0 <= j < old(self).size && final(self).is_trial_of(
                    *old(self),
                    i,
                    j,
                    thermal_budget as int,
                ),
    {
        let i = random_index(self.size);
        let j = random_index(self.size);
        self.step_at(i, j, thermal_budget);
    }

    /// A whole row of a lattice whose spins all equal `v` sums to `v * k`
    /// over its first `k` sites.
    proof fn lemma_uniform_rows_full(&self, v: int, i: int, k: int)
        requires
            self.wf(),
            0 <= i < self.size,
            0 <= k <= self.size,
            forall|a: int, b: int| 0 <= a < self.size && 0 <= b < self.size ==> #[trigger] self.spin_at(a, b) == v,
        ensures
            self.row_spin(i, k) == v * k,
        decreases k,
    {
        if k > 0 {
            self.lemma_uniform_rows_full(v, i, k - 1);
            assert(self.spin_at(i, k - 1) == v);
            assert(v * (k - 1) + v == v * k) by (nonlinear_arith);
        } else {
            assert(v * k == 0) by (nonlinear_arith)
                requires
                    k == 0,
            ;
        }
    }

    /// On a lattice whose spins all point the same way, the net spin is that
    /// direction times the number of sites: the magnetization is exactly `1`
    /// when all spins are up and exactly `-1` when all are down.
    pub proof fn lemma_uniform_magnetization(&self, v: int)
        requires
            self.wf(),
            v == 1 || v == -1,
            forall|a: int, b: int| 0 <= a < self.size && 0 <= b < self.size ==> #[trigger] self.spin_at(a, b) == v,
        ensures
            self.net_spin() == v * (self.size * self.size),
    {
        self.lemma_uniform_grid(v, self.size as int);
    }

    /// Spin sums over the first `k` rows of a lattice whose spins all equal `v`.
    proof fn lemma_uniform_grid(&self, v: int, k: int)
        requires
            self.wf(),
            0 <= k <= self.size,
            forall|a: int, b: int| 0 <= a < self.size && 0 <= b < self.size ==> #[trigger] self.spin_at(a, b) == v,
        ensures
            self.grid_spin(k) == v * (k * self.size),
        decreases k,
    {
        if k > 0 {
            self.lemma_uniform_grid(v, k - 1);
            self.lemma_uniform_rows_full(v, k - 1, self.size as int);
            assert(v * ((k - 1) * self.size) + v * self.size == v * (k * self.size)) by (nonlinear_arith);
        } else {
            assert(v * (k * self.size) == 0) by (nonlinear_arith)
                requires
                    k == 0,
            ;
        }
    }
}

/// Relies on `rand::Rng::gen_range` over the thread-local generator: a value
/// drawn from `0..n`. It panics on an empty range, hence `n > 0`.
#[verifier::external_body]
fn random_index(n: usize) -> (r: usize)
    requires
        n > 0,
    ensures
        r < n,
{
    rand::Rng::gen_range(&mut rand::thread_rng(), 0..n)
}

/// Stepping back or forward by one on a ring of `n` positions with `%`
/// lands on the neighbouring index.
proof fn lemma_wrap(k: int, n: int)
    requires
        0 <= k < n,
    ensures
        (k + n - 1) % n == prev_index(k, n),
        (k + 1) % n == next_index(k, n),
        0 <= prev_index(k, n) < n,
        0 <= next_index(k, n) < n,
{
    lemma_mod_multiples_vanish(1, k - 1, n);
    if k > 0 {
        lemma_small_mod((k - 1) as nat, n as nat);
    } else {
        lemma_small_mod((n - 1) as nat, n as nat);
    }
    if k == n - 1 {
        lemma_mod_multiples_vanish(1, 0, n);
        lemma_small_mod(0, n as nat);
    } else {
        lemma_small_mod((k + 1) as nat, n as nat);
    }
}

} // verus!
