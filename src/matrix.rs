//! A model of the switch matrix, and what a scan of it reports.
use crate::scan::{
    decoded_row, first_key, found_keys, key_at, levels_of, pattern_of, Scan, Step,
};
use vstd::prelude::*;

verus! {

/// The rows that read pressed while column `col` alone is strobed:
/// those whose switch in that column is closed.
pub open spec fn strobed_rows(closed: spec_fn(int, int) -> bool, col: int) -> Seq<bool> {
    Seq::new(4, |row: int| closed(row, col))
}

/// The row pattern that each column yields when strobed, column 0 first.
pub open spec fn column_samples(closed: spec_fn(int, int) -> bool) -> Seq<u8> {
    Seq::new(4, |col: int| pattern_of(strobed_rows(closed, col)))
}

/// The rows that read pressed with no column strobed on its own: those
/// with a closed switch in any column.
pub open spec fn idle_rows(closed: spec_fn(int, int) -> bool) -> Seq<bool> {
    Seq::new(4, |row: int| exists|col: int| 0 <= col < 4 && #[trigger] closed(row, col))
}

/// What the any-key check reports for the matrix.
pub open spec fn any_key(closed: spec_fn(int, int) -> bool) -> bool {
    pattern_of(idle_rows(closed)) != 0
}

/// The matrix with the one switch at (`row`, `col`) closed.
pub open spec fn only_switch(row: int, col: int) -> spec_fn(int, int) -> bool {
    |r: int, c: int| r == row && c == col
}

/// A pattern of four rows is zero exactly when no row is pressed, and it
/// always fits in four bits.
pub proof fn lemma_pattern_zero(pressed: Seq<bool>)
    requires
        pressed.len() == 4,
    ensures
        pattern_of(pressed) < 16,
        pattern_of(pressed) == 0 <==> (forall|i: int| 0 <= i < 4 ==> !#[trigger] pressed[i]),
{
    if !(forall|i: int| 0 <= i < 4 ==> !#[trigger] pressed[i]) {
        let i = choose|i: int| 0 <= i < 4 && pressed[i];
        assert(pressed[i]);
    }
}

/// A pattern decodes to some row exactly when it is not zero.
pub proof fn lemma_decodes_iff_nonzero(bits: u8)
    requires
        bits < 16,
    ensures
        decoded_row(bits) is Some <==> bits != 0,
{
}

/// Once a single-key scan has found a key, sampling further columns does not change it.
pub proof fn lemma_first_key_stable(keymap: [[u8; 4]; 4], samples: Seq<u8>, n: int, m: int)
    requires
        0 <= n <= m <= samples.len(),
        first_key(keymap, samples.take(n)) is Some,
    ensures
        first_key(keymap, samples.take(m)) == first_key(keymap, samples.take(n)),
    decreases m - n,
{
    if m > n {
        lemma_first_key_stable(keymap, samples, n, m - 1);
        assert(samples.take(m).drop_last() =~= samples.take(m - 1));
    }
}

/// No key is found over some samples exactly when none of them decodes.
proof fn lemma_none_found(keymap: [[u8; 4]; 4], samples: Seq<u8>)
    ensures
        first_key(keymap, samples) is None <==> (forall|i: int|
            0 <= i < samples.len() ==> #[trigger] decoded_row(samples[i]) is None),
        found_keys(keymap, samples).len() == 0 <==> first_key(keymap, samples) is None,
    decreases samples.len(),
{
    if samples.len() > 0 {
        let before = samples.drop_last();
        lemma_none_found(keymap, before);
        crate::scan::lemma_found_keys_len(keymap, before);
        assert forall|i: int| 0 <= i < before.len() implies before[i] == samples[i] by {}
        if first_key(keymap, samples) is None {
            assert forall|i: int| 0 <= i < samples.len() implies #[trigger] decoded_row(
                samples[i],
            ) is None by {
                if i < before.len() {
                    assert(decoded_row(before[i]) is None);
                }
            }
        }
    }
}

/// The any-key check reports nothing exactly when no column of the matrix
/// decodes to a row: then a single-key scan finds no key, and a multi-key
/// scan no keys.
pub proof fn lemma_any_key_agrees(keymap: [[u8; 4]; 4], closed: spec_fn(int, int) -> bool)
    ensures
        !any_key(closed) <==> first_key(keymap, column_samples(closed)) is None,
        !any_key(closed) <==> found_keys(keymap, column_samples(closed)).len() == 0,
{
    let samples = column_samples(closed);
    lemma_none_found(keymap, samples);
    lemma_pattern_zero(idle_rows(closed));
    assert forall|col: int| 0 <= col < 4 implies (#[trigger] decoded_row(samples[col]) is None
        <==> forall|row: int| 0 <= row < 4 ==> !#[trigger] closed(row, col)) by {
        lemma_pattern_zero(strobed_rows(closed, col));
        lemma_decodes_iff_nonzero(samples[col]);
        if !(forall|row: int| 0 <= row < 4 ==> !#[trigger] closed(row, col)) {
            let row = choose|row: int| 0 <= row < 4 && #[trigger] closed(row, col);
            assert(strobed_rows(closed, col)[row]);
        }
    }
    if any_key(closed) {
        let row = choose|row: int| 0 <= row < 4 && #[trigger] idle_rows(closed)[row];
        let col = choose|col: int| 0 <= col < 4 && #[trigger] closed(row, col);
        assert(decoded_row(samples[col]) is Some);
    } else {
        assert forall|col: int| 0 <= col < 4 implies #[trigger] decoded_row(samples[col]) is None by {
            assert forall|row: int| 0 <= row < 4 implies !#[trigger] closed(row, col) by {
                assert(!idle_rows(closed)[row]);
            }
        }
    }
}

/// With only the switch at (`row`, `col`) closed, the any-key check sees it,
/// a single-key scan reads `keymap[row][col]`, and a multi-key scan finds
/// that key alone.
pub proof fn lemma_single_press(keymap: [[u8; 4]; 4], row: int, col: int)
    requires
        0 <= row < 4,
        0 <= col < 4,
    ensures
        any_key(only_switch(row, col)),
        first_key(keymap, column_samples(only_switch(row, col))) == Some(keymap[row][col]),
        found_keys(keymap, column_samples(only_switch(row, col))) == seq![keymap[row][col]],
{
    let closed = only_switch(row, col);
    let samples = column_samples(closed);
    assert(idle_rows(closed)[row]);
    lemma_pattern_zero(idle_rows(closed));
    assert forall|c: int| 0 <= c < 4 implies #[trigger] samples[c] == (if c == col {
        pattern_of(strobed_rows(closed, col))
    } else {
        0u8
    }) by {
        if c != col {
            lemma_pattern_zero(strobed_rows(closed, c));
        }
    }
    let p = strobed_rows(closed, col);
    assert(decoded_row(pattern_of(p)) == Some(row)) by {
        assert(p[row] && forall|r: int| 0 <= r < 4 && r != row ==> !#[trigger] p[r]);
    }
    assert(key_at(keymap, col, samples[col]) == Some(keymap[row][col]));
    assert(samples.take(4) =~= samples);
    let k = keymap[row][col];
    assert forall|c: int| 0 <= c <= 4 implies #[trigger] first_key(keymap, samples.take(c)) == (if c
        <= col {
        None
    } else {
        Some(k)
    }) && found_keys(keymap, samples.take(c)) == (if c <= col {
        seq![]
    } else {
        seq![k]
    }) by {
        lemma_prefix_scan(keymap, samples, col, c);
    }
}

proof fn lemma_prefix_scan(keymap: [[u8; 4]; 4], samples: Seq<u8>, col: int, c: int)
    requires
        samples.len() == 4,
        0 <= col < 4,
        0 <= c <= 4,
        key_at(keymap, col, samples[col]) is Some,
        forall|i: int| 0 <= i < 4 && i != col ==> #[trigger] samples[i] == 0u8,
    ensures
        first_key(keymap, samples.take(c)) == (if c <= col {
            None
        } else {
            key_at(keymap, col, samples[col])
        }),
        found_keys(keymap, samples.take(c)) == (if c <= col {
            seq![]
        } else {
            seq![key_at(keymap, col, samples[col])->0]
        }),
    decreases c,
{
    if c > 0 {
        lemma_prefix_scan(keymap, samples, col, c - 1);
        assert(samples.take(c).drop_last() =~= samples.take(c - 1));
        assert(samples.take(c).last() == samples[c - 1]);
    }
}

/// A single-key scan that is fed the matrix's samples ends with the key
/// that the full four-column scan gives: stopping at the first key found
/// changes nothing.
pub proof fn lemma_single_scan_reads_matrix(s: Scan, closed: spec_fn(int, int) -> bool)
    requires
        s.wf(),
        s.is_done(),
        !s.all_columns(),
        s.any_pressed() == any_key(closed),
        s.samples() == column_samples(closed).take(s.samples().len() as int),
    ensures
        first_key(s.keymap(), s.samples()) == first_key(s.keymap(), column_samples(closed)),
{
    let all = column_samples(closed);
    s.lemma_wf_bounds();
    lemma_any_key_agrees(s.keymap(), closed);
    assert(all.take(4) =~= all);
    if !s.any_pressed() {
    } else if s.samples().len() < 4 {
        lemma_first_key_stable(s.keymap(), all, s.samples().len() as int, 4);
    }
}

/// A multi-key scan that is fed the matrix's samples collects the keys of
/// all four columns.
pub proof fn lemma_multi_scan_reads_matrix(s: Scan, closed: spec_fn(int, int) -> bool)
    requires
        s.wf(),
        s.is_done(),
        s.all_columns(),
        s.any_pressed() == any_key(closed),
        s.samples() == column_samples(closed).take(s.samples().len() as int),
    ensures
        found_keys(s.keymap(), s.samples()) == found_keys(s.keymap(), column_samples(closed)),
{
    let all = column_samples(closed);
    s.lemma_wf_bounds();
    lemma_any_key_agrees(s.keymap(), closed);
    assert(all.take(4) =~= all);
    if !s.any_pressed() {
        let f = found_keys(s.keymap(), all);
        assert(f =~= Seq::<u8>::empty());
    }
}

/// Every scan ends: once a scan is over its next step releases the columns,
/// which drives all four back to the idle high level, and no scan samples
/// more than four columns.
pub proof fn lemma_scan_ends_idle(s: Scan)
    requires
        s.wf(),
    ensures
        s.samples().len() <= 4,
        s.samples().len() == 4 ==> s.is_done(),
        levels_of(Step::Release) == seq![true, true, true, true],
{
    s.lemma_wf_bounds();
}

} // verus!
