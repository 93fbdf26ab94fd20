use matrix_keypad::{
    column_levels, decode_row, read_key, row_pattern, Keys, Scan, Step, DEFAULT_KEYMAP,
};

const CUSTOM_KEYMAP: [[u8; 4]; 4] = [
    [10, 11, 12, 13],
    [20, 21, 22, 23],
    [30, 31, 32, 33],
    [40, 41, 42, 43],
];

/// What one scan did against a matrix of closed switches (`closed[row][col]`).
struct Run {
    scan: Scan,
    strobed: Vec<usize>,
    last_levels: [bool; 4],
}

fn any_key(closed: &[[bool; 4]; 4]) -> bool {
    let rows = [
        closed[0].iter().any(|c| *c),
        closed[1].iter().any(|c| *c),
        closed[2].iter().any(|c| *c),
        closed[3].iter().any(|c| *c),
    ];
    row_pattern(rows) != 0
}

fn drive(mut scan: Scan, closed: &[[bool; 4]; 4]) -> Run {
    let mut strobed = Vec::new();
    let last_levels;
    loop {
        let step = scan.next_step();
        let levels = column_levels(step);
        match step {
            Step::Strobe(col) => {
                assert!(!levels[col]);
                strobed.push(col);
                let rows = [closed[0][col], closed[1][col], closed[2][col], closed[3][col]];
                scan.record(row_pattern(rows));
            }
            Step::Release => {
                last_levels = levels;
                break;
            }
        }
    }
    Run { scan, strobed, last_levels }
}

fn read(keymap: [[u8; 4]; 4], closed: &[[bool; 4]; 4]) -> Run {
    drive(Scan::single(keymap, any_key(closed)), closed)
}

fn read_multi(keymap: [[u8; 4]; 4], closed: &[[bool; 4]; 4]) -> Run {
    drive(Scan::multi(keymap, any_key(closed)), closed)
}

fn press(switches: &[(usize, usize)]) -> [[bool; 4]; 4] {
    let mut closed = [[false; 4]; 4];
    for &(row, col) in switches {
        closed[row][col] = true;
    }
    closed
}

#[test]
fn as_array_fills_slots_in_order() {
    assert_eq!(Keys::One(7).as_array(), [Some(7), None, None, None]);
    assert_eq!(Keys::Two(7, 3).as_array(), [Some(7), Some(3), None, None]);
    assert_eq!(Keys::Three(7, 3, 9).as_array(), [Some(7), Some(3), Some(9), None]);
    assert_eq!(Keys::Four(7, 3, 9, 0).as_array(), [Some(7), Some(3), Some(9), Some(0)]);
}

#[test]
fn includes_matches_held_keys() {
    assert!(Keys::One(5).includes(5));
    assert!(!Keys::One(5).includes(6));
    assert!(Keys::Two(1, 2).includes(2));
    assert!(!Keys::Two(1, 2).includes(3));
    assert!(Keys::Three(1, 2, 3).includes(3));
    assert!(!Keys::Three(1, 2, 3).includes(0));
    assert!(Keys::Four(1, 2, 3, 4).includes(4));
    assert!(Keys::Four(1, 2, 3, 4).includes(1));
    assert!(!Keys::Four(1, 2, 3, 4).includes(5));
}

#[test]
fn decode_row_by_highest_bit() {
    assert_eq!(decode_row(0), None);
    assert_eq!(decode_row(1), Some(0));
    assert_eq!(decode_row(2), Some(1));
    assert_eq!(decode_row(3), Some(1));
    assert_eq!(decode_row(4), Some(2));
    assert_eq!(decode_row(7), Some(2));
    assert_eq!(decode_row(8), Some(3));
    assert_eq!(decode_row(15), Some(3));
    assert_eq!(decode_row(16), None);
}

#[test]
fn row_pattern_sets_bit_per_row() {
    assert_eq!(row_pattern([false, false, false, false]), 0);
    assert_eq!(row_pattern([true, false, false, false]), 1);
    assert_eq!(row_pattern([false, true, true, false]), 6);
    assert_eq!(row_pattern([false, false, false, true]), 8);
    assert_eq!(row_pattern([true, true, true, true]), 15);
}

#[test]
fn read_key_maps_through_keymap() {
    assert_eq!(read_key(&DEFAULT_KEYMAP, 0, 1), Some(0x1));
    assert_eq!(read_key(&DEFAULT_KEYMAP, 3, 8), Some(0xC));
    assert_eq!(read_key(&DEFAULT_KEYMAP, 1, 3), Some(0x5));
    assert_eq!(read_key(&CUSTOM_KEYMAP, 2, 4), Some(32));
    assert_eq!(read_key(&DEFAULT_KEYMAP, 2, 0), None);
}

#[test]
fn column_levels_strobe_one_low() {
    assert_eq!(column_levels(Step::Strobe(0)), [false, true, true, true]);
    assert_eq!(column_levels(Step::Strobe(2)), [true, true, false, true]);
    assert_eq!(column_levels(Step::Release), [true, true, true, true]);
}

#[test]
fn default_keymap_is_hex_pad() {
    assert_eq!(DEFAULT_KEYMAP[0], [0x1, 0x2, 0x3, 0xF]);
    assert_eq!(DEFAULT_KEYMAP[1], [0x4, 0x5, 0x6, 0xE]);
    assert_eq!(DEFAULT_KEYMAP[2], [0x7, 0x8, 0x9, 0xD]);
    assert_eq!(DEFAULT_KEYMAP[3], [0xA, 0x0, 0xB, 0xC]);
}

#[test]
fn single_press_reads_its_key() {
    for keymap in [DEFAULT_KEYMAP, CUSTOM_KEYMAP] {
        for row in 0..4 {
            for col in 0..4 {
                let closed = press(&[(row, col)]);
                assert_eq!(read(keymap, &closed).scan.key(), Some(keymap[row][col]));
                assert_eq!(read_multi(keymap, &closed).scan.keys(), Some(Keys::One(keymap[row][col])));
            }
        }
    }
}

#[test]
fn any_key_check_agrees_with_scans() {
    let none = press(&[]);
    assert!(!any_key(&none));
    assert_eq!(read(DEFAULT_KEYMAP, &none).scan.key(), None);
    assert_eq!(read_multi(DEFAULT_KEYMAP, &none).scan.keys(), None);
    let one = press(&[(3, 2)]);
    assert!(any_key(&one));
    assert_eq!(read(DEFAULT_KEYMAP, &one).scan.key(), Some(0xB));
    assert!(read_multi(DEFAULT_KEYMAP, &one).scan.keys().is_some());
}

#[test]
fn multi_distinct_columns_in_column_order() {
    let closed = press(&[(2, 2), (0, 0)]);
    let run = read_multi(DEFAULT_KEYMAP, &closed);
    assert_eq!(run.scan.keys(), Some(Keys::Two(0x1, 0x9)));
    assert_eq!(run.strobed, vec![0, 1, 2, 3]);
}

#[test]
fn multi_same_column_keeps_higher_row() {
    let closed = press(&[(0, 1), (1, 1)]);
    let run = read_multi(DEFAULT_KEYMAP, &closed);
    assert_eq!(run.scan.keys(), Some(Keys::One(0x5)));
    assert_eq!(read(DEFAULT_KEYMAP, &closed).scan.key(), Some(0x5));
}

#[test]
fn idle_matrix_reads_nothing_and_stays_high() {
    let run = read(DEFAULT_KEYMAP, &press(&[]));
    assert_eq!(run.scan.key(), None);
    assert!(run.strobed.is_empty());
    assert_eq!(run.last_levels, [true, true, true, true]);
}

#[test]
fn columns_end_high_after_every_scan() {
    let cases: [&[(usize, usize)]; 4] = [&[], &[(1, 3)], &[(0, 0), (3, 3)], &[(2, 1), (0, 2)]];
    for switches in cases {
        let closed = press(switches);
        assert_eq!(read(DEFAULT_KEYMAP, &closed).last_levels, [true, true, true, true]);
        assert_eq!(read_multi(DEFAULT_KEYMAP, &closed).last_levels, [true, true, true, true]);
    }
}

#[test]
fn single_scan_stops_at_first_key() {
    let closed = press(&[(1, 2), (3, 0)]);
    let run = read(DEFAULT_KEYMAP, &closed);
    assert_eq!(run.scan.key(), Some(0xA));
    assert_eq!(run.strobed, vec![0]);
}

#[test]
fn single_scan_without_key_strobes_all_columns() {
    let mut scan = Scan::single(DEFAULT_KEYMAP, true);
    for col in 0..4 {
        assert_eq!(scan.next_step(), Step::Strobe(col));
        scan.record(0);
    }
    assert_eq!(scan.next_step(), Step::Release);
    assert_eq!(scan.key(), None);
}

#[test]
fn multi_scan_four_keys() {
    let closed = press(&[(0, 0), (1, 1), (2, 2), (3, 3)]);
    let run = read_multi(DEFAULT_KEYMAP, &closed);
    assert_eq!(run.scan.keys(), Some(Keys::Four(0x1, 0x5, 0x9, 0xC)));
    let closed = press(&[(3, 0), (1, 1), (0, 3)]);
    assert_eq!(read_multi(CUSTOM_KEYMAP, &closed).scan.keys(), Some(Keys::Three(40, 21, 13)));
}
