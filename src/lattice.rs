//! The lattice store: every cell's state, its active-neighbour count and its
//! neighbour list, kept in flat vectors indexed in order of `z`, `y`, `x`.
use vstd::prelude::*;
use std::collections::HashMap;
use crate::codec::{decode, decode_spec};
use crate::neighbors::{in_lattice, is_cell_id, neighbor_ids, neighbor_seq};
use crate::rules::{GameRules, State, next_states};

verus! {

broadcast use vstd::std_specs::hash::group_hash_axioms;

/// The number of cells of a lattice of edge `n`.
pub open spec fn cell_count(n: int) -> int {
    n * n * n
}

/// The slot that holds cell `(x, y, z)`.
pub open spec fn index_spec(x: int, y: int, z: int, n: int) -> int {
    (z * n + y) * n + x
}

/// The coordinates of the cell held in slot `i`.
pub open spec fn coords_of(i: int, n: int) -> (int, int, int) {
    (i % n, (i / n) % n, i / (n * n))
}

/// The slot that holds the cell named by `id`.
pub open spec fn index_of_id(id: u32, n: int) -> int {
    let (x, y, z) = decode_spec(id as int);
    index_spec(x, y, z, n)
}

/// How many of the cells named in `ids` are active in `states`.
pub open spec fn active_count(states: Seq<State>, ids: Seq<u32>, n: int) -> nat
    decreases ids.len(),
{
    if ids.len() == 0 {
        0
    } else {
        active_count(states, ids.drop_last(), n) + if states[index_of_id(ids.last(), n)]
            == State::Active {
            1nat
        } else {
            0nat
        }
    }
}

/// What a lattice holds.
pub struct LatticeView {
    pub room_size: nat,
    pub states: Seq<State>,
    pub counts: Seq<u8>,
    pub neighbors: Seq<Seq<u32>>,
}

/// The active-neighbour count of every cell, read from the states of `v`.
pub open spec fn neighbor_counts(v: LatticeView) -> Seq<u8> {
    Seq::new(
        v.states.len(),
        |i: int| active_count(v.states, v.neighbors[i], v.room_size as int) as u8,
    )
}

/// A lattice of edge at least 1 whose three vectors cover all of its cells,
/// each with its own neighbour list.
pub open spec fn lattice_wf(v: LatticeView) -> bool {
    let n = v.room_size as int;
    &&& 1 <= n <= 255
    &&& v.states.len() == cell_count(n)
    &&& v.counts.len() == cell_count(n)
    &&& v.neighbors.len() == cell_count(n)
    &&& forall|i: int|
        0 <= i < cell_count(n) ==> {
            let (x, y, z) = coords_of(i, n);
            #[trigger] v.neighbors[i] == neighbor_seq(x, y, z, n)
        }
    &&& forall|i: int| 0 <= i < cell_count(n) ==> (#[trigger] v.neighbors[i]).len() <= 26
    &&& forall|i: int, id: u32|
        0 <= i < cell_count(n) && #[trigger] v.neighbors[i].contains(id) ==> is_cell_id(id, n)
}

/// A per-tick cache agrees with the states of `v`.
pub open spec fn cache_agrees(m: Map<u32, State>, v: LatticeView) -> bool {
    forall|id: u32|
        #[trigger] m.contains_key(id) ==> is_cell_id(id, v.room_size as int) && m[id]
            == v.states[index_of_id(id, v.room_size as int)]
}

proof fn lemma_cell_count_bound(n: int)
    requires
        1 <= n <= 255,
    ensures
        n <= cell_count(n) < 0x100_0000,
{
    assert(n <= n * n * n < 0x100_0000) by (nonlinear_arith)
        requires 1 <= n <= 255;
}

/// A cell's slot lies in the store, and its coordinates read back from it.
pub proof fn lemma_index_of_cell(x: int, y: int, z: int, n: int)
    requires
        in_lattice(x, y, z, n),
    ensures
        0 <= index_spec(x, y, z, n) < cell_count(n),
        0 <= z * n + y < n * n,
        coords_of(index_spec(x, y, z, n), n) == (x, y, z),
{
    let i = index_spec(x, y, z, n);
    let w = z * n + y;
    assert(0 <= w < n * n) by (nonlinear_arith)
        requires w == z * n + y, 0 <= y < n, 0 <= z < n;
    assert(0 <= i < n * n * n) by (nonlinear_arith)
        requires i == w * n + x, 0 <= w < n * n, 0 <= x < n;
    vstd::arithmetic::div_mod::lemma_fundamental_div_mod_converse(i, n, w, x);
    vstd::arithmetic::div_mod::lemma_fundamental_div_mod_converse(w, n, z, y);
    assert(i == z * (n * n) + (y * n + x)) by (nonlinear_arith)
        requires i == (z * n + y) * n + x;
    assert(0 <= y * n + x < n * n) by (nonlinear_arith)
        requires 0 <= y < n, 0 <= x < n;
    vstd::arithmetic::div_mod::lemma_fundamental_div_mod_converse(i, n * n, z, y * n + x);
}

/// The coordinates of a slot of the store name a cell held in that slot.
pub proof fn lemma_coords_of_slot(i: int, n: int)
    requires
        1 <= n,
        0 <= i < cell_count(n),
    ensures
        in_lattice(coords_of(i, n).0, coords_of(i, n).1, coords_of(i, n).2, n),
        index_spec(coords_of(i, n).0, coords_of(i, n).1, coords_of(i, n).2, n) == i,
{
    let (x, y, z) = coords_of(i, n);
    let w = i / n;
    assert(n * n > 0) by (nonlinear_arith)
        requires n >= 1;
    vstd::arithmetic::div_mod::lemma_fundamental_div_mod(i, n);
    vstd::arithmetic::div_mod::lemma_fundamental_div_mod(w, n);
    vstd::arithmetic::div_mod::lemma_div_denominator(i, n, n);
    assert(w / n == z);
    assert(0 <= w) by (nonlinear_arith)
        requires w == i / n, 0 <= i, n >= 1;
    assert(w < n * n) by (nonlinear_arith)
        requires i == n * w + x, 0 <= x, i < n * n * n, n >= 1;
    assert(z < n) by (nonlinear_arith)
        requires w == n * z + y, 0 <= y, w < n * n, n >= 1;
    assert(0 <= z) by (nonlinear_arith)
        requires z == w / n, 0 <= w, n >= 1;
    assert(i == (z * n + y) * n + x) by (nonlinear_arith)
        requires i == n * w + x, w == n * z + y;
}

/// The cubic grid of cells, each with its state, its cached active-neighbour
/// count and its neighbour list.
pub struct Lattice {
    room_size: u8,
    states: Vec<State>,
    counts: Vec<u8>,
    neighbors: Vec<Vec<u32>>,
}

impl View for Lattice {
    type V = LatticeView;

    closed spec fn view(&self) -> LatticeView {
        LatticeView {
            room_size: self.room_size as nat,
            states: self.states@,
            counts: self.counts@,
            neighbors: Seq::new(self.neighbors@.len(), |i: int| self.neighbors@[i]@),
        }
    }
}

impl Lattice {
    /// The lattice is well formed.
    pub open spec fn wf(&self) -> bool {
        lattice_wf(self@)
    }

    /// A lattice of edge `room_size` whose cells start in `states`, taken in
    /// order of `z`, then `y`, then `x`, with all counts at zero.
    pub fn from_states(room_size: u8, states: Vec<State>) -> (r: Lattice)
        requires
            1 <= room_size <= 255,
            states@.len() == cell_count(room_size as int),
        ensures
            r.wf(),
            r@.room_size == room_size as nat,
            r@.states == states@,
            r@.counts == Seq::new(states@.len(), |i: int| 0u8),
    {
        let ghost n = room_size as int;
        proof {
            lemma_cell_count_bound(n);
        }
        let total: usize = states.len();
        let mut counts: Vec<u8> = Vec::with_capacity(total);
        let mut neighbors: Vec<Vec<u32>> = Vec::with_capacity(total);
        let mut i: usize = 0;
        while i < total
            invariant
                n == room_size as int,
                1 <= n <= 255,
                total == cell_count(n),
                0 <= i <= total,
                counts@ == Seq::new(i as nat, |k: int| 0u8),
                neighbors@.len() == i,
                forall|k: int|
                    0 <= k < i ==> {
                        let (x, y, z) = coords_of(k, n);
                        (#[trigger] neighbors@[k])@ == neighbor_seq(x, y, z, n)
                    },
                forall|k: int| 0 <= k < i ==> (#[trigger] neighbors@[k])@.len() <= 26,
                forall|k: int, id: u32|
                    0 <= k < i && #[trigger] neighbors@[k]@.contains(id) ==> is_cell_id(id, n),
            decreases total - i,
        {
            let side = room_size as usize;
            proof {
                lemma_coords_of_slot(i as int, n);
                assert(side * side <= 255 * 255) by (nonlinear_arith)
                    requires side <= 255;
            }
            let x = (i % side) as u8;
            let y = ((i / side) % side) as u8;
            let z = (i / (side * side)) as u8;
            let ids = neighbor_ids(x, y, z, room_size);
            counts.push(0);
            neighbors.push(ids);
            proof {
                assert(counts@ =~= Seq::new((i + 1) as nat, |k: int| 0u8));
            }
            i = i + 1;
        }
        let r = Lattice { room_size, states, counts, neighbors };
        proof {
            assert(r@.neighbors.len() == total);
            assert forall|k: int| 0 <= k < cell_count(n) implies #[trigger] r@.neighbors[k]
                == neighbors@[k]@ by {}
            assert(r@.counts =~= Seq::new(states@.len(), |i: int| 0u8));
        }
        r
    }

    /// The edge length of the lattice.
    pub fn room_size(&self) -> (r: u8)
        ensures
            r as nat == self@.room_size,
    {
        self.room_size
    }

    fn slot(&self, id: u32) -> (i: usize)
        requires
            self.wf(),
            is_cell_id(id, self@.room_size as int),
        ensures
            i as int == index_of_id(id, self@.room_size as int),
            i < self@.states.len(),
    {
        let (x, y, z) = decode(id);
        proof {
            lemma_index_of_cell(x as int, y as int, z as int, self.room_size as int);
            lemma_cell_count_bound(self.room_size as int);
        }
        let n = self.room_size as usize;
        proof {
            assert(0 <= z * n <= z * n + y) by (nonlinear_arith)
                requires 0 <= y, 0 <= z, 0 <= n;
            assert(n * n <= 255 * 255) by (nonlinear_arith)
                requires n <= 255;
            assert((z * n + y) * n <= (z * n + y) * n + x) by (nonlinear_arith)
                requires 0 <= x, 0 <= z * n + y;
        }
        (z as usize * n + y as usize) * n + x as usize
    }

    /// The state of the cell named by `id`.
    pub fn state(&self, id: u32) -> (s: State)
        requires
            self.wf(),
            is_cell_id(id, self@.room_size as int),
        ensures
            s == self@.states[index_of_id(id, self@.room_size as int)],
    {
        let i = self.slot(id);
        self.states[i]
    }

    /// The active-neighbour count last computed for the cell named by `id`.
    pub fn active_neighbors(&self, id: u32) -> (c: u8)
        requires
            self.wf(),
            is_cell_id(id, self@.room_size as int),
        ensures
            c == self@.counts[index_of_id(id, self@.room_size as int)],
    {
        let i = self.slot(id);
        self.counts[i]
    }

    /// The neighbour list of the cell named by `id`.
    pub fn neighbors(&self, id: u32) -> (r: Vec<u32>)
        requires
            self.wf(),
            is_cell_id(id, self@.room_size as int),
        ensures
            r@ == self@.neighbors[index_of_id(id, self@.room_size as int)],
    {
        let i = self.slot(id);
        self.neighbors[i].clone()
    }

    /// Counts the active neighbours of the cell in slot `i`, reading states
    /// through the per-tick cache and filling it.
    fn active_around(&self, i: usize, cache: &mut HashMap<u32, State>) -> (c: u8)
        requires
            self.wf(),
            i < self@.states.len(),
            cache_agrees(old(cache)@, self@),
        ensures
            c as nat == active_count(self@.states, self@.neighbors[i as int], self@.room_size as int),
            c <= 26,
            cache_agrees(final(cache)@, self@),
    {
        let ghost n = self.room_size as int;
        let ids = &self.neighbors[i];
        assert(ids@ == self@.neighbors[i as int]);
        let mut c: u8 = 0;
        let mut j: usize = 0;
        while j < ids.len()
            invariant
                self.wf(),
                n == self@.room_size,
                i < self@.states.len(),
                ids@ == self@.neighbors[i as int],
                0 <= j <= ids@.len(),
                ids@.len() <= 26,
                c <= j,
                c as nat == active_count(self@.states, ids@.take(j as int), n),
                cache_agrees(cache@, self@),
            decreases ids@.len() - j,
        {
            let id = ids[j];
            assert(self@.neighbors[i as int].contains(id));
            let s = match cache.get(&id) {
                Some(s) => *s,
                None => {
                    let s = self.state(id);
                    cache.insert(id, s);
                    s
                },
            };
            if s == State::Active {
                c = c + 1;
            }
            proof {
                assert(ids@.take(j + 1).drop_last() =~= ids@.take(j as int));
            }
            j = j + 1;
        }
        assert(ids@.take(j as int) =~= ids@);
        c
    }

    /// Recomputes every cell's active-neighbour count from the current states,
    /// which it leaves as they are.
    pub fn count_neighbors(&mut self)
        requires
            old(self).wf(),
        ensures
            final(self).wf(),
            final(self)@.room_size == old(self)@.room_size,
            final(self)@.states == old(self)@.states,
            final(self)@.neighbors == old(self)@.neighbors,
            final(self)@.counts == neighbor_counts(old(self)@),
    {
        let mut cache: HashMap<u32, State> = HashMap::new();
        let total = self.counts.len();
        let mut i: usize = 0;
        while i < total
            invariant
                self.wf(),
                self@.room_size == old(self)@.room_size,
                self@.states == old(self)@.states,
                self@.neighbors == old(self)@.neighbors,
                total == self@.counts.len(),
                0 <= i <= total,
                forall|k: int| 0 <= k < i ==> #[trigger] self@.counts[k] == neighbor_counts(old(self)@)[k],
                cache_agrees(cache@, self@),
            decreases total - i,
        {
            let c = self.active_around(i, &mut cache);
            self.counts.set(i, c);
            i = i + 1;
        }
        assert(self@.counts =~= neighbor_counts(old(self)@));
    }

    /// Moves every cell to the state that the rules give for its current state
    /// and its stored active-neighbour count.
    pub fn apply_rules(&mut self, rules: &GameRules)
        requires
            old(self).wf(),
        ensures
            final(self).wf(),
            final(self)@.room_size == old(self)@.room_size,
            final(self)@.counts == old(self)@.counts,
            final(self)@.neighbors == old(self)@.neighbors,
            final(self)@.states == next_states(*rules, old(self)@.states, old(self)@.counts),
    {
        let total = self.states.len();
        let mut i: usize = 0;
        while i < total
            invariant
                self.wf(),
                self@.room_size == old(self)@.room_size,
                self@.counts == old(self)@.counts,
                self@.neighbors == old(self)@.neighbors,
                total == self@.states.len(),
                total == old(self)@.states.len(),
                total == old(self)@.counts.len(),
                0 <= i <= total,
                forall|k: int| i <= k < total ==> #[trigger] self@.states[k] == old(self)@.states[k],
                forall|k: int|
                    0 <= k < i ==> #[trigger] self@.states[k] == next_states(
                        *rules,
                        old(self)@.states,
                        old(self)@.counts,
                    )[k],
            decreases total - i,
        {
            let s = rules.next_state(self.states[i], self.counts[i]);
            self.states.set(i, s);
            i = i + 1;
        }
        assert(self@.states =~= next_states(*rules, old(self)@.states, old(self)@.counts));
    }

    /// One synchronous step: every count is taken from the states before the
    /// step, and only then does every cell move to its next state.
    pub fn step(&mut self, rules: &GameRules)
        requires
            old(self).wf(),
        ensures
            final(self).wf(),
            final(self)@.room_size == old(self)@.room_size,
            final(self)@.neighbors == old(self)@.neighbors,
            final(self)@.counts == neighbor_counts(old(self)@),
            final(self)@.states == next_states(*rules, old(self)@.states, neighbor_counts(old(self)@)),
    {
        self.count_neighbors();
        self.apply_rules(rules);
    }
}

} // verus!
