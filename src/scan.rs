use crate::keys::{keys_of, Keys};
use vstd::prelude::*;

verus! {

/// The telephone-style hex keymap, row-major: `DEFAULT_KEYMAP[row][col]`.
pub const DEFAULT_KEYMAP: [[u8; 4]; 4] = [
    [0x1, 0x2, 0x3, 0xF],
    [0x4, 0x5, 0x6, 0xE],
    [0x7, 0x8, 0x9, 0xD],
    [0xA, 0x0, 0xB, 0xC],
];

/// The 4-bit pattern of sampled rows: bit `r` is set when row `r` reads pressed.
pub open spec fn pattern_of(pressed: Seq<bool>) -> u8 {
    ((if pressed[0] { 1u8 } else { 0u8 }) + (if pressed[1] { 2u8 } else { 0u8 }) + (if pressed[2] {
        4u8
    } else {
        0u8
    }) + (if pressed[3] { 8u8 } else { 0u8 })) as u8
}

/// The row that a sampled pattern decodes to. Decoding goes by the highest
/// set bit, so of several rows pressed in one column only the highest counts.
pub open spec fn decoded_row(bits: u8) -> Option<int> {
    if 8 <= bits <= 15 {
        Some(3)
    } else if 4 <= bits <= 7 {
        Some(2)
    } else if 2 <= bits <= 3 {
        Some(1)
    } else if bits == 1 {
        Some(0)
    } else {
        None
    }
}

/// The key that column `col` yields when its rows sample as `bits`.
pub open spec fn key_at(keymap: [[u8; 4]; 4], col: int, bits: u8) -> Option<u8> {
    match decoded_row(bits) {
        Some(row) => Some(keymap[row][col]),
        None => None,
    }
}

/// The level of each column output while a step is carried out: `true` is
/// high, the idle level; a strobed column alone is driven low.
pub open spec fn levels_of(step: Step) -> Seq<bool> {
    match step {
        Step::Strobe(col) => Seq::new(4, |i: int| i != col),
        Step::Release => seq![true, true, true, true],
    }
}

/// What the driver does next with the column outputs.
#[derive(Debug, Clone, Copy, PartialEq, Eq, Structural)]
pub enum Step {
    /// Drive this column low and the others high, then sample the rows.
    Strobe(usize),
    /// Drive every column high: the scan is over.
    Release,
}

/// Combine four row samples, row 0 first, into a 4-bit pattern.
pub fn row_pattern(pressed: [bool; 4]) -> (r: u8)
    ensures
        r == pattern_of(pressed@),
        r < 16,
        r == 0 <==> !pressed@.contains(true),
{
    let mut r: u8 = 0;
    if pressed[0] {
        r = r + 1;
    }
    if pressed[1] {
        r = r + 2;
    }
    if pressed[2] {
        r = r + 4;
    }
    if pressed[3] {
        r = r + 8;
    }
    proof {
        if pressed@.contains(true) {
            let i = choose|i: int| 0 <= i < 4 && pressed@[i] == true;
            assert(pressed@[i]);
        } else {
            assert(!pressed@[0] && !pressed@[1] && !pressed@[2] && !pressed@[3]);
        }
    }
    r
}

/// The row index that a sampled pattern decodes to, if any.
pub fn decode_row(bits: u8) -> (r: Option<usize>)
    ensures
        r matches Some(row) ==> decoded_row(bits) == Some(row as int),
        r is None ==> decoded_row(bits) is None,
{
    if 8 <= bits && bits <= 15 {
        Some(3)
    } else if 4 <= bits && bits <= 7 {
        Some(2)
    } else if bits == 2 || bits == 3 {
        Some(1)
    } else if bits == 1 {
        Some(0)
    } else {
        None
    }
}

/// The key at the row decoded from `bits` in column `col` of `keymap`.
pub fn read_key(keymap: &[[u8; 4]; 4], col: usize, bits: u8) -> (r: Option<u8>)
    requires
        col < 4,
    ensures
        r == key_at(*keymap, col as int, bits),
{
    match decode_row(bits) {
        Some(row) => Some(keymap[row][col]),
        None => None,
    }
}

/// The levels to drive on the four column outputs, column 0 first.
pub fn column_levels(step: Step) -> (r: [bool; 4])
    requires
        step matches Step::Strobe(col) ==> col < 4,
    ensures
        r@ == levels_of(step),
{
    let r = match step {
        Step::Strobe(col) => [col != 0, col != 1, col != 2, col != 3],
        Step::Release => [true, true, true, true],
    };
    assert(r@ =~= levels_of(step));
    r
}

/// The key a single-key scan reports after sampling columns `0..samples.len()`:
/// that of the first column whose pattern decodes.
pub open spec fn first_key(keymap: [[u8; 4]; 4], samples: Seq<u8>) -> Option<u8>
    decreases samples.len(),
{
    if samples.len() == 0 {
        None
    } else {
        match first_key(keymap, samples.drop_last()) {
            Some(k) => Some(k),
            None => key_at(keymap, samples.len() - 1, samples.last()),
        }
    }
}

/// The keys a multi-key scan collects after sampling columns
/// `0..samples.len()`: one for each column whose pattern decodes, in column order.
pub open spec fn found_keys(keymap: [[u8; 4]; 4], samples: Seq<u8>) -> Seq<u8>
    decreases samples.len(),
{
    if samples.len() == 0 {
        seq![]
    } else {
        let before = found_keys(keymap, samples.drop_last());
        match key_at(keymap, samples.len() - 1, samples.last()) {
            Some(k) => before.push(k),
            None => before,
        }
    }
}

/// A scan never collects more keys than it sampled columns.
pub proof fn lemma_found_keys_len(keymap: [[u8; 4]; 4], samples: Seq<u8>)
    ensures
        found_keys(keymap, samples).len() <= samples.len(),
    decreases samples.len(),
{
    if samples.len() > 0 {
        lemma_found_keys_len(keymap, samples.drop_last());
    }
}

/// The decisions of one scan of the matrix, fed with the row pattern that
/// each strobed column yields. A single-key scan stops at the first column
/// that decodes to a row; a multi-key scan strobes all four columns. Either
/// ends at once when the initial any-key check saw nothing.
pub struct Scan {
    keymap: [[u8; 4]; 4],
    all_columns: bool,
    any_pressed: bool,
    next_col: usize,
    found: Option<u8>,
    buf: [u8; 4],
    count: usize,
    samples: Ghost<Seq<u8>>,
}

impl Scan {
    /// The keymap the scan resolves keys through.
    pub closed spec fn keymap(&self) -> [[u8; 4]; 4] {
        self.keymap
    }

    /// Whether the scan strobes every column rather than stopping at the first key.
    pub closed spec fn all_columns(&self) -> bool {
        self.all_columns
    }

    /// The result of the any-key check that the scan started from.
    pub closed spec fn any_pressed(&self) -> bool {
        self.any_pressed
    }

    /// The row patterns recorded so far, column 0 first.
    pub closed spec fn samples(&self) -> Seq<u8> {
        self.samples@
    }

    /// Whether the scan is over: nothing was pressed, all four columns were
    /// sampled, or a single-key scan has found its key.
    pub open spec fn is_done(&self) -> bool {
        ||| !self.any_pressed()
        ||| self.samples().len() >= 4
        ||| (!self.all_columns() && first_key(self.keymap(), self.samples()) is Some)
    }

    pub closed spec fn wf(&self) -> bool {
        &&& self.samples@.len() <= 4
        &&& self.next_col == self.samples@.len()
        &&& !self.any_pressed ==> self.samples@.len() == 0
        &&& self.found == first_key(self.keymap, self.samples@)
        &&& self.count == found_keys(self.keymap, self.samples@).len()
        &&& self.buf@.take(self.count as int) == found_keys(self.keymap, self.samples@)
    }

    /// A well-formed scan has sampled at most four columns, and none when
    /// the any-key check saw nothing.
    pub proof fn lemma_wf_bounds(&self)
        requires
            self.wf(),
        ensures
            self.samples().len() <= 4,
            !self.any_pressed() ==> self.samples() == Seq::<u8>::empty(),
    {
        if !self.any_pressed {
            assert(self.samples@ =~= Seq::<u8>::empty());
        }
    }

    fn start(keymap: [[u8; 4]; 4], all_columns: bool, any_pressed: bool) -> (r: Scan)
        ensures
            r.wf(),
            r.samples() == Seq::<u8>::empty(),
            r.keymap() == keymap,
            r.all_columns() == all_columns,
            r.any_pressed() == any_pressed,
    {
        let r = Scan {
            keymap,
            all_columns,
            any_pressed,
            next_col: 0,
            found: None,
            buf: [0u8; 4],
            count: 0,
            samples: Ghost(Seq::empty()),
        };
        assert(r.buf@.take(0) =~= Seq::<u8>::empty());
        r
    }

    /// A scan for the first key pressed, after an any-key check that gave `any_pressed`.
    pub fn single(keymap: [[u8; 4]; 4], any_pressed: bool) -> (r: Scan)
        ensures
            r.wf(),
            r.samples() == Seq::<u8>::empty(),
            r.keymap() == keymap,
            !r.all_columns(),
            r.any_pressed() == any_pressed,
    {
        Scan::start(keymap, false, any_pressed)
    }

    /// A scan for every key pressed, one per column, after an any-key check
    /// that gave `any_pressed`.
    pub fn multi(keymap: [[u8; 4]; 4], any_pressed: bool) -> (r: Scan)
        ensures
            r.wf(),
            r.samples() == Seq::<u8>::empty(),
            r.keymap() == keymap,
            r.all_columns(),
            r.any_pressed() == any_pressed,
    {
        Scan::start(keymap, true, any_pressed)
    }

    /// What to do next: strobe the next column, or release all columns when
    /// the scan is over.
    pub fn next_step(&self) -> (r: Step)
        requires
            self.wf(),
        ensures
            r == (if self.is_done() {
                Step::Release
            } else {
                Step::Strobe(self.samples().len() as usize)
            }),
            r matches Step::Strobe(col) ==> col < 4,
    {
        if !self.any_pressed || self.next_col >= 4 || (!self.all_columns && self.found.is_some()) {
            Step::Release
        } else {
            Step::Strobe(self.next_col)
        }
    }

    /// Record the row pattern sampled while the column of `next_step` was strobed.
    pub fn record(&mut self, bits: u8)
        requires
            old(self).wf(),
            !old(self).is_done(),
        ensures
            final(self).wf(),
            final(self).samples() == old(self).samples().push(bits),
            final(self).keymap() == old(self).keymap(),
            final(self).all_columns() == old(self).all_columns(),
            final(self).any_pressed() == old(self).any_pressed(),
    {
        let col = self.next_col;
        let ghost before = self.samples@;
        let ghost after = before.push(bits);
        assert(after.drop_last() =~= before);
        proof {
            lemma_found_keys_len(self.keymap, before);
        }
        let key = read_key(&self.keymap, col, bits);
        if let Some(k) = key {
            if self.found.is_none() {
                self.found = Some(k);
            }
            let ghost old_buf = self.buf@;
            self.buf[self.count] = k;
            assert(self.buf@.take(self.count as int + 1) =~= old_buf.take(self.count as int).push(k));
            self.count = self.count + 1;
        }
        self.next_col = col + 1;
        self.samples = Ghost(after);
    }

    /// The key of a single-key scan: the first one found, if any.
    pub fn key(&self) -> (r: Option<u8>)
        requires
            self.wf(),
        ensures
            r == first_key(self.keymap(), self.samples()),
    {
        self.found
    }

    /// The keys of a multi-key scan, in column order; `None` when none was found.
    pub fn keys(&self) -> (r: Option<Keys>)
        requires
            self.wf(),
        ensures
            r == keys_of(found_keys(self.keymap(), self.samples())),
    {
        let ghost found = found_keys(self.keymap, self.samples@);
        proof {
            lemma_found_keys_len(self.keymap, self.samples@);
        }
        assert forall|i: int| 0 <= i < self.count implies found[i] == self.buf@[i] by {
            assert(self.buf@.take(self.count as int)[i] == self.buf@[i]);
        }
        if self.count == 1 {
            Some(Keys::One(self.buf[0]))
        } else if self.count == 2 {
            Some(Keys::Two(self.buf[0], self.buf[1]))
        } else if self.count == 3 {
            Some(Keys::Three(self.buf[0], self.buf[1], self.buf[2]))
        } else if self.count == 4 {
            Some(Keys::Four(self.buf[0], self.buf[1], self.buf[2], self.buf[3]))
        } else {
            None
        }
    }
}

} // verus!
