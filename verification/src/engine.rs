//! The automaton engine: cell state, the per-cell transition decision,
//! neighbour symbol counts, and the synchronous full-grid update.
//!
//! The three continuous attributes of a cell are IEEE-754 binary64
//! values carried as bit patterns. Their arithmetic evolution (the
//! trigonometric mixing factors, the cross-coupled fractional-part
//! increments and the cube-root colour factor) is computed by the
//! caller and handed in as one `CellUpdate` per cell; everything the
//! update rule decides — whether the symbol mutates, which glyph
//! replaces it, and that the whole next generation is a function of
//! the previous snapshot alone — is verified here.

use vstd::prelude::*;
use crate::alphabet::{alphabet, symbol_at};
use crate::grid::get_neighbors;
use crate::scalar::{clamp_unit, clamp_unit_spec, lt_bits, lt_spec};

verus! {

/// One cell of the grid: a glyph and three continuous scalars, each
/// scalar held as the bit pattern of an IEEE-754 binary64 value.
#[derive(Clone, Copy, PartialEq, Eq, Structural, Debug)]
pub struct Cell {
    pub character: char,
    pub energy: u64,
    pub phase: u64,
    pub quasicrystal_value: u64,
}

/// The per-cell inputs of one transition: the two random draws of the
/// symbol mutation, the unclamped mutation probability, and the three
/// already-evolved scalars, all binary64 bit patterns except the drawn
/// alphabet position.
#[derive(Clone, Copy, PartialEq, Eq, Structural, Debug)]
pub struct CellUpdate {
    /// Unclamped mutation probability `0.02 + 0.08 * quasicrystal_factor`.
    pub raw_probability: u64,
    /// A uniform draw in `[0, 1)` deciding the Bernoulli trial.
    pub unit_draw: u64,
    /// A uniform draw of an alphabet position, used on an accepted mutation.
    pub symbol_draw: usize,
    /// Next `energy` value, already evolved by the caller.
    pub energy: u64,
    /// Next `phase` value, already evolved by the caller.
    pub phase: u64,
    /// Next `quasicrystal_value`, already evolved by the caller.
    pub quasicrystal_value: u64,
}

/// The per-cell inputs of start-up: a drawn alphabet position and
/// three uniform scalars.
#[derive(Clone, Copy, PartialEq, Eq, Structural, Debug)]
pub struct InitDraw {
    pub symbol_draw: usize,
    pub energy: u64,
    pub phase: u64,
    pub quasicrystal_value: u64,
}

/// The character is one of the 20 glyphs of the closed alphabet.
pub open spec fn in_alphabet(c: char) -> bool {
    exists|t: int| 0 <= t < 20 && alphabet()[t] == c
}

/// Every cell of the generation carries a glyph of the alphabet.
pub open spec fn wf_grid(g: Seq<Cell>) -> bool {
    forall|k: int| 0 <= k < g.len() ==> in_alphabet((#[trigger] g[k]).character)
}

/// The Bernoulli trial of the symbol mutation succeeds exactly when
/// the uniform draw falls strictly below the clamped probability.
pub open spec fn mutation_happens(u: CellUpdate) -> bool {
    lt_spec(u.unit_draw, clamp_unit_spec(u.raw_probability))
}

/// The next symbol: the drawn glyph on an accepted mutation (which may
/// coincide with the current one), the current glyph otherwise.
pub open spec fn next_character_spec(current: char, u: CellUpdate) -> char {
    if mutation_happens(u) {
        alphabet()[u.symbol_draw as int]
    } else {
        current
    }
}

/// The next state of one cell.
pub open spec fn next_cell_spec(c: Cell, u: CellUpdate) -> Cell {
    Cell {
        character: next_character_spec(c.character, u),
        energy: u.energy,
        phase: u.phase,
        quasicrystal_value: u.quasicrystal_value,
    }
}

/// The whole next generation, cell by cell from the previous snapshot.
pub open spec fn step_spec(prev: Seq<Cell>, updates: Seq<CellUpdate>) -> Seq<Cell> {
    Seq::new(prev.len(), |k: int| next_cell_spec(prev[k], updates[k]))
}

/// Every drawn alphabet position is a valid one.
pub open spec fn valid_updates(updates: Seq<CellUpdate>) -> bool {
    forall|k: int| 0 <= k < updates.len() ==> (#[trigger] updates[k]).symbol_draw < 20
}

/// Number of occurrences of a character in a sequence.
pub open spec fn count_char(s: Seq<char>, c: char) -> nat
    decreases s.len(),
{
    if s.len() == 0 {
        0
    } else {
        count_char(s.drop_last(), c) + if s.last() == c {
            1nat
        } else {
            0nat
        }
    }
}

proof fn lemma_count_char_take_succ(s: Seq<char>, c: char, i: int)
    requires
        0 <= i < s.len(),
    ensures
        count_char(s.take(i + 1), c) == count_char(s.take(i), c) + if s[i] == c {
            1int
        } else {
            0int
        },
{
    assert(s.take(i + 1).drop_last() =~= s.take(i));
    assert(s.take(i + 1).last() == s[i]);
}

/// Sum of the occurrence counts of the first `t` alphabet glyphs.
pub open spec fn count_prefix(s: Seq<char>, t: int) -> int
    decreases t,
{
    if t <= 0 {
        0
    } else {
        count_prefix(s, t - 1) + count_char(s, alphabet()[t - 1])
    }
}

proof fn lemma_count_prefix_empty(s: Seq<char>, t: int)
    requires
        s.len() == 0,
        0 <= t,
    ensures
        count_prefix(s, t) == 0,
    decreases t,
{
    if t > 0 {
        lemma_count_prefix_empty(s, t - 1);
    }
}

proof fn lemma_count_prefix_drop_last(s: Seq<char>, t: int)
    requires
        0 < s.len(),
        0 <= t <= 20,
    ensures
        count_prefix(s, t) == count_prefix(s.drop_last(), t) + (if exists|q: int|
            0 <= q < t && alphabet()[q] == s.last() {
            1int
        } else {
            0int
        }),
    decreases t,
{
    if t > 0 {
        lemma_count_prefix_drop_last(s, t - 1);
        crate::alphabet::lemma_alphabet_distinct();
        if alphabet()[t - 1] == s.last() {
            if exists|q: int| 0 <= q < t - 1 && alphabet()[q] == s.last() {
                let q = choose|q: int| 0 <= q < t - 1 && alphabet()[q] == s.last();
                assert(alphabet()[q] != alphabet()[t - 1]);
                assert(false);
            }
            assert(exists|q: int| 0 <= q < t && alphabet()[q] == s.last());
        } else {
            assert((exists|q: int| 0 <= q < t && alphabet()[q] == s.last()) == (exists|q: int|
                0 <= q < t - 1 && alphabet()[q] == s.last()));
        }
    }
}

/// Over a neighbourhood made of alphabet glyphs, the per-glyph
/// occurrence counts sum to the neighbourhood's size — always exactly 8
/// for a Moore neighbourhood on the torus.
pub proof fn lemma_counts_sum_to_length(s: Seq<char>)
    requires
        forall|i: int| 0 <= i < s.len() ==> in_alphabet(#[trigger] s[i]),
    ensures
        count_prefix(s, 20) == s.len(),
    decreases s.len(),
{
    if s.len() == 0 {
        lemma_count_prefix_empty(s, 20);
    } else {
        let s0 = s.drop_last();
        assert(forall|i: int| 0 <= i < s0.len() ==> in_alphabet(#[trigger] s0[i]));
        lemma_counts_sum_to_length(s0);
        lemma_count_prefix_drop_last(s, 20);
        assert(in_alphabet(s.last()));
    }
}

/// The symbol-frequency table over a neighbourhood: for each alphabet
/// position, how many of the given characters carry that glyph. The
/// automaton computes this aggregate each tick and hands it to the
/// transition rule, which at present does not read it.
pub fn count_neighbors(symbols: &Vec<char>) -> (counts: Vec<usize>)
    ensures
        counts@.len() == 20,
        forall|t: int|
            0 <= t < 20 ==> #[trigger] counts@[t] == count_char(symbols@, alphabet()[t]),
{
    let mut counts: Vec<usize> = Vec::new();
    let mut t: usize = 0;
    while t < 20
        invariant
            t <= 20,
            counts@.len() == t,
            forall|q: int|
                0 <= q < t ==> #[trigger] counts@[q] == count_char(symbols@, alphabet()[q]),
        decreases 20 - t,
    {
        let target = symbol_at(t);
        let mut n: usize = 0;
        let mut i: usize = 0;
        while i < symbols.len()
            invariant
                i <= symbols@.len(),
                n <= i,
                n == count_char(symbols@.take(i as int), target),
            decreases symbols@.len() - i,
        {
            proof {
                lemma_count_char_take_succ(symbols@, target, i as int);
            }
            if symbols[i] == target {
                n = n + 1;
            }
            i = i + 1;
        }
        proof {
            assert(symbols@.take(symbols@.len() as int) =~= symbols@);
        }
        counts.push(n);
        t = t + 1;
    }
    counts
}

/// The transition of one cell: decides the Bernoulli symbol mutation
/// on the clamped probability and assembles the next state from the
/// evolved scalars. The neighbour symbol frequencies are handed
/// through for parity with the automaton's interface, but the rule
/// does not read them.
pub fn determine_new_state(
    current: &Cell,
    _neighbor_counts: &Vec<usize>,
    update: &CellUpdate,
) -> (next: Cell)
    requires
        update.symbol_draw < 20,
    ensures
        next == next_cell_spec(*current, *update),
{
    let p = clamp_unit(update.raw_probability);
    let character = if lt_bits(update.unit_draw, p) {
        symbol_at(update.symbol_draw)
    } else {
        current.character
    };
    Cell {
        character,
        energy: update.energy,
        phase: update.phase,
        quasicrystal_value: update.quasicrystal_value,
    }
}

/// One synchronous tick of the whole grid: every output cell is
/// computed from the single previous snapshot — no cell ever observes
/// another cell's already-updated value — and the output has exactly
/// the length of the input. The next generation is a pure function of
/// the previous generation and the per-cell updates: replaying the
/// same inputs yields a bit-identical grid.
pub fn apply_exotic_automata(
    side: usize,
    prev: &Vec<Cell>,
    updates: &Vec<CellUpdate>,
) -> (next: Vec<Cell>)
    requires
        3 <= side,
        (side as int) * (side as int) <= usize::MAX as int,
        prev@.len() == side * side,
        updates@.len() == prev@.len(),
        valid_updates(updates@),
    ensures
        next@.len() == prev@.len(),
        next@ == step_spec(prev@, updates@),
        forall|k: int|
            0 <= k < prev@.len() ==> #[trigger] next@[k] == next_cell_spec(
                prev@[k],
                updates@[k],
            ),
{
    let mut next: Vec<Cell> = Vec::new();
    let mut i: usize = 0;
    while i < side
        invariant
            3 <= side,
            (side as int) * (side as int) <= usize::MAX as int,
            prev@.len() == side * side,
            updates@.len() == prev@.len(),
            valid_updates(updates@),
            i <= side,
            next@.len() == i * side,
            forall|k: int|
                0 <= k < next@.len() ==> #[trigger] next@[k] == next_cell_spec(
                    prev@[k],
                    updates@[k],
                ),
        decreases side - i,
    {
        let mut j: usize = 0;
        proof {
            assert((i as int) * (side as int) + (side as int) <= (side as int) * (side as int))
                by (nonlinear_arith)
                requires
                    (i as int) < (side as int),
            ;
        }
        while j < side
            invariant
                3 <= side,
                (side as int) * (side as int) <= usize::MAX as int,
                prev@.len() == side * side,
                updates@.len() == prev@.len(),
                valid_updates(updates@),
                i < side,
                j <= side,
                (i as int) * (side as int) + (side as int) <= (side as int) * (side as int),
                next@.len() == i * side + j,
                forall|k: int|
                    0 <= k < next@.len() ==> #[trigger] next@[k] == next_cell_spec(
                        prev@[k],
                        updates@[k],
                    ),
            decreases side - j,
        {
            let idx = i * side + j;
            let nbrs = get_neighbors(side, i, j);
            let mut nbr_chars: Vec<char> = Vec::new();
            let mut k: usize = 0;
            while k < 8
                invariant
                    nbrs@.len() == 8,
                    forall|q: int| 0 <= q < 8 ==> #[trigger] nbrs@[q] < side * side,
                    prev@.len() == side * side,
                    k <= 8,
                    nbr_chars@.len() == k,
                decreases 8 - k,
            {
                let n = nbrs[k];
                nbr_chars.push(prev[n].character);
                k = k + 1;
            }
            let counts = count_neighbors(&nbr_chars);
            proof {
                assert(updates@[idx as int].symbol_draw < 20);
            }
            let cell = determine_new_state(&prev[idx], &counts, &updates[idx]);
            next.push(cell);
            j = j + 1;
        }
        proof {
            assert((i as int) * (side as int) + (side as int) == ((i + 1) as int) * (side as int))
                by (nonlinear_arith);
        }
        i = i + 1;
    }
    proof {
        assert(next@ =~= step_spec(prev@, updates@));
    }
    next
}

/// Start-up of the grid: one cell per draw, each given the drawn glyph
/// and the three uniform scalars — so a grid built from `side * side`
/// draws has length exactly `side * side`.
pub fn initialize_grid(draws: &Vec<InitDraw>) -> (grid: Vec<Cell>)
    requires
        forall|k: int| 0 <= k < draws@.len() ==> (#[trigger] draws@[k]).symbol_draw < 20,
    ensures
        grid@.len() == draws@.len(),
        forall|k: int|
            0 <= k < draws@.len() ==> #[trigger] grid@[k] == (Cell {
                character: alphabet()[draws@[k].symbol_draw as int],
                energy: draws@[k].energy,
                phase: draws@[k].phase,
                quasicrystal_value: draws@[k].quasicrystal_value,
            }),
{
    let mut grid: Vec<Cell> = Vec::new();
    let mut i: usize = 0;
    while i < draws.len()
        invariant
            i <= draws@.len(),
            grid@.len() == i,
            forall|k: int| 0 <= k < draws@.len() ==> (#[trigger] draws@[k]).symbol_draw < 20,
            forall|k: int|
                0 <= k < i ==> #[trigger] grid@[k] == (Cell {
                    character: alphabet()[draws@[k].symbol_draw as int],
                    energy: draws@[k].energy,
                    phase: draws@[k].phase,
                    quasicrystal_value: draws@[k].quasicrystal_value,
                }),
        decreases draws@.len() - i,
    {
        let d = draws[i];
        let cell = Cell {
            character: symbol_at(d.symbol_draw),
            energy: d.energy,
            phase: d.phase,
            quasicrystal_value: d.quasicrystal_value,
        };
        grid.push(cell);
        i = i + 1;
    }
    grid
}

/// The tick is a pure function of the previous generation and the
/// per-cell inputs: replaying the identical draws against the
/// identical snapshot yields a bit-identical next generation.
pub proof fn lemma_step_deterministic(
    prev1: Seq<Cell>,
    updates1: Seq<CellUpdate>,
    prev2: Seq<Cell>,
    updates2: Seq<CellUpdate>,
)
    requires
        prev1 == prev2,
        updates1 == updates2,
    ensures
        step_spec(prev1, updates1) == step_spec(prev2, updates2),
{
}

/// The probability driving the Bernoulli symbol mutation is always a
/// genuine probability: for every unclamped input — however extreme
/// the quasicrystal factor behind it, short of NaN — the clamped value
/// lies in `[0, 1]`.
pub proof fn lemma_mutation_probability_in_range(u: CellUpdate)
    requires
        !crate::scalar::is_nan_bits(u.raw_probability),
    ensures
        crate::scalar::in_unit_interval(clamp_unit_spec(u.raw_probability)),
{
    crate::scalar::lemma_clamp_unit_in_range(u.raw_probability);
}

/// The alphabet is closed under the update rule: when every cell of a
/// generation carries an alphabet glyph and every drawn position is
/// valid, so does every cell of the next generation — a mutation
/// installs a drawn alphabet glyph, and anything else keeps the
/// current one.
pub proof fn lemma_step_preserves_alphabet(prev: Seq<Cell>, updates: Seq<CellUpdate>)
    requires
        updates.len() == prev.len(),
        wf_grid(prev),
        valid_updates(updates),
    ensures
        wf_grid(step_spec(prev, updates)),
{
    let next = step_spec(prev, updates);
    assert forall|k: int| 0 <= k < next.len() implies in_alphabet(
        (#[trigger] next[k]).character,
    ) by {
        if mutation_happens(updates[k]) {
            let t = updates[k].symbol_draw as int;
            assert(0 <= t < 20 && alphabet()[t] == next[k].character);
        } else {
            assert(prev[k].character == next[k].character);
        }
    }
}

/// Start-up only installs alphabet glyphs: a grid built from valid
/// draws is well formed.
pub proof fn lemma_initialize_is_well_formed(draws: Seq<InitDraw>, grid: Seq<Cell>)
    requires
        grid.len() == draws.len(),
        forall|k: int| 0 <= k < draws.len() ==> (#[trigger] draws[k]).symbol_draw < 20,
        forall|k: int|
            0 <= k < draws.len() ==> (#[trigger] grid[k]).character == alphabet()[
                draws[k].symbol_draw as int
            ],
    ensures
        wf_grid(grid),
{
    assert forall|k: int| 0 <= k < grid.len() implies in_alphabet(
        (#[trigger] grid[k]).character,
    ) by {
        let t = draws[k].symbol_draw as int;
        assert(0 <= t < 20 && alphabet()[t] == grid[k].character);
    }
}

/// A fully symmetric generation stays symmetric for one synchronous
/// pass: when every cell equals every other and every per-cell input
/// equals every other, all cells of the next generation are pairwise
/// identical.
pub proof fn lemma_uniform_step_stays_uniform(prev: Seq<Cell>, updates: Seq<CellUpdate>)
    requires
        updates.len() == prev.len(),
        forall|k: int| 0 <= k < prev.len() ==> #[trigger] prev[k] == prev[0],
        forall|k: int| 0 <= k < updates.len() ==> #[trigger] updates[k] == updates[0],
    ensures
        forall|k1: int, k2: int|
            0 <= k1 < prev.len() && 0 <= k2 < prev.len() ==> step_spec(prev, updates)[k1]
                == step_spec(prev, updates)[k2],
{
    assert forall|k1: int, k2: int|
        0 <= k1 < prev.len() && 0 <= k2 < prev.len() implies step_spec(prev, updates)[k1]
        == step_spec(prev, updates)[k2] by {
        assert(prev[k1] == prev[0]);
        assert(prev[k2] == prev[0]);
        assert(updates[k1] == updates[0]);
        assert(updates[k2] == updates[0]);
    }
}

} // verus!
