use cycles::engine::{
    apply_exotic_automata, count_neighbors, determine_new_state, initialize_grid, Cell,
    CellUpdate, InitDraw,
};

const ALPHABET: [char; 20] = [
    '凧', '矢', '日', '星', '空', '風', '雨', '雪', '山', '川', '火', '水', '木', '金', '土', '月',
    '花', '鳥', '魚', '龍',
];

fn cell(character: char, energy: f64, phase: f64, quasi: f64) -> Cell {
    Cell {
        character,
        energy: energy.to_bits(),
        phase: phase.to_bits(),
        quasicrystal_value: quasi.to_bits(),
    }
}

fn update(raw_p: f64, unit: f64, draw: usize, e: f64, p: f64, q: f64) -> CellUpdate {
    CellUpdate {
        raw_probability: raw_p.to_bits(),
        unit_draw: unit.to_bits(),
        symbol_draw: draw,
        energy: e.to_bits(),
        phase: p.to_bits(),
        quasicrystal_value: q.to_bits(),
    }
}

fn varied_grid(n: usize) -> Vec<Cell> {
    (0..n)
        .map(|k| {
            cell(
                ALPHABET[k % 20],
                k as f64 * 0.001,
                0.9 - k as f64 * 0.002,
                (k as f64 * 0.37).fract(),
            )
        })
        .collect()
}

fn varied_updates(n: usize) -> Vec<CellUpdate> {
    (0..n)
        .map(|k| {
            update(
                0.02 + (k as f64) * 0.01,
                (k as f64 * 0.13).fract(),
                (k * 7) % 20,
                (k as f64 * 0.11).fract(),
                (k as f64 * 0.17).fract(),
                (k as f64 * 0.19).fract(),
            )
        })
        .collect()
}

#[test]
fn step_output_has_the_length_of_its_input() {
    for side in [3usize, 21] {
        let n = side * side;
        let next = apply_exotic_automata(side, &varied_grid(n), &varied_updates(n));
        assert_eq!(next.len(), n);
    }
}

#[test]
fn initialize_output_has_one_cell_per_draw() {
    let draws: Vec<InitDraw> = (0..441)
        .map(|k| InitDraw {
            symbol_draw: k % 20,
            energy: (k as f64 * 0.003).to_bits(),
            phase: (k as f64 * 0.005).to_bits(),
            quasicrystal_value: (k as f64 * 0.007).to_bits(),
        })
        .collect();
    let grid = initialize_grid(&draws);
    assert_eq!(grid.len(), 441);
    for (c, d) in grid.iter().zip(draws.iter()) {
        assert_eq!(c.character, ALPHABET[d.symbol_draw]);
        assert_eq!(c.energy, d.energy);
        assert_eq!(c.phase, d.phase);
        assert_eq!(c.quasicrystal_value, d.quasicrystal_value);
    }
}

#[test]
fn replaying_identical_draws_gives_a_bit_identical_grid() {
    let prev = varied_grid(9);
    let updates = varied_updates(9);
    let first = apply_exotic_automata(3, &prev, &updates);
    let second = apply_exotic_automata(3, &prev, &updates);
    assert_eq!(first, second);
    // The previous generation is untouched: the next one is computed
    // from a single immutable snapshot.
    assert_eq!(prev, varied_grid(9));
}

#[test]
fn a_symmetric_generation_stays_symmetric_for_one_pass() {
    // Every cell identical (scalars 0.5) and every per-cell input
    // identical: after one synchronous pass all cells must still be
    // pairwise identical.
    let prev: Vec<Cell> = (0..9).map(|_| cell('山', 0.5, 0.5, 0.5)).collect();
    let quasicrystal_factor = (0.5f64 * std::f64::consts::PI).tan().abs();
    let raw_p = 0.02 + quasicrystal_factor * 0.08;
    let updates: Vec<CellUpdate> =
        (0..9).map(|_| update(raw_p, 0.3, 4, 0.25, 0.75, 0.125)).collect();
    let next = apply_exotic_automata(3, &prev, &updates);
    for c in &next {
        assert_eq!(*c, next[0]);
    }
    // Near the asymptote the probability clamps to 1, so the mutation
    // is certain and every cell takes the drawn glyph.
    assert_eq!(next[0].character, ALPHABET[4]);
}

#[test]
fn a_step_only_ever_installs_alphabet_glyphs() {
    let prev = varied_grid(9);
    let updates = varied_updates(9);
    let next = apply_exotic_automata(3, &prev, &updates);
    for c in &next {
        assert!(ALPHABET.contains(&c.character));
    }
}

#[test]
fn mutation_is_decided_strictly_below_the_clamped_probability() {
    let counts = vec![0usize; 20];
    let c = cell('凧', 0.1, 0.2, 0.3);

    // Probability clamps to 0: no draw mutates.
    let u = update(-1.0, 0.0, 3, 0.4, 0.5, 0.6);
    assert_eq!(determine_new_state(&c, &counts, &u).character, '凧');

    // Probability clamps to 1: every unit draw below 1 mutates.
    let u = update(2.0, 0.999_999, 3, 0.4, 0.5, 0.6);
    assert_eq!(determine_new_state(&c, &counts, &u).character, ALPHABET[3]);

    // The comparison is strict: a draw equal to the probability keeps
    // the symbol.
    let u = update(0.5, 0.5, 3, 0.4, 0.5, 0.6);
    assert_eq!(determine_new_state(&c, &counts, &u).character, '凧');

    // The drawn glyph may coincide with the current one.
    let u = update(2.0, 0.0, 0, 0.4, 0.5, 0.6);
    assert_eq!(determine_new_state(&c, &counts, &u).character, '凧');
}

#[test]
fn scalars_pass_through_bit_for_bit() {
    let counts = vec![0usize; 20];
    let c = cell('火', 0.1, 0.2, 0.3);
    // An exotic pattern (a NaN payload) must survive untouched: the
    // engine never reinterprets the scalar bits it hands on.
    let odd = 0x7FF8_0000_0000_0001u64;
    let u = CellUpdate {
        raw_probability: (0.0f64).to_bits(),
        unit_draw: (0.5f64).to_bits(),
        symbol_draw: 9,
        energy: odd,
        phase: (-0.25f64).to_bits(),
        quasicrystal_value: (0.75f64).to_bits(),
    };
    let next = determine_new_state(&c, &counts, &u);
    assert_eq!(next.energy, odd);
    assert_eq!(next.phase, (-0.25f64).to_bits());
    assert_eq!(next.quasicrystal_value, (0.75f64).to_bits());
}

#[test]
fn neighbor_counts_sum_to_the_neighborhood_size() {
    let symbols = vec!['山', '山', '川', '火', '火', '火', '龍', '凧'];
    let counts = count_neighbors(&symbols);
    assert_eq!(counts.len(), 20);
    assert_eq!(counts.iter().sum::<usize>(), 8);
    assert_eq!(counts[8], 2); // 山
    assert_eq!(counts[9], 1); // 川
    assert_eq!(counts[10], 3); // 火
    assert_eq!(counts[19], 1); // 龍
    assert_eq!(counts[0], 1); // 凧
}

#[test]
fn characters_outside_the_alphabet_are_counted_nowhere() {
    let symbols = vec!['A', '山', 'B'];
    let counts = count_neighbors(&symbols);
    assert_eq!(counts.iter().sum::<usize>(), 1);
    assert_eq!(counts[8], 1);
}
