use vstd::prelude::*;

verus! {

/// One or more keys pressed simultaneously, in the order the scan found them.
#[derive(Debug, Clone, Copy, PartialEq, Eq, Structural)]
pub enum Keys {
    One(u8),
    Two(u8, u8),
    Three(u8, u8, u8),
    Four(u8, u8, u8, u8),
}

impl Keys {
    /// The held keys, in discovery order.
    pub open spec fn view(self) -> Seq<u8> {
        match self {
            Keys::One(k0) => seq![k0],
            Keys::Two(k0, k1) => seq![k0, k1],
            Keys::Three(k0, k1, k2) => seq![k0, k1, k2],
            Keys::Four(k0, k1, k2, k3) => seq![k0, k1, k2, k3],
        }
    }

    /// The number of keys held.
    pub open spec fn arity(self) -> nat {
        self@.len()
    }

    /// Slot `i` of the array view: the `i`-th key while `i` is below the arity.
    pub open spec fn slot(self, i: int) -> Option<u8> {
        if i < self.arity() {
            Some(self@[i])
        } else {
            None
        }
    }

    /// The keys as an array of four slots, the unused ones empty.
    pub fn as_array(&self) -> (r: [Option<u8>; 4])
        ensures
            forall|i: int| 0 <= i < 4 ==> #[trigger] r[i] == self.slot(i),
    {
        match *self {
            Keys::One(k0) => [Some(k0), None, None, None],
            Keys::Two(k0, k1) => [Some(k0), Some(k1), None, None],
            Keys::Three(k0, k1, k2) => [Some(k0), Some(k1), Some(k2), None],
            Keys::Four(k0, k1, k2, k3) => [Some(k0), Some(k1), Some(k2), Some(k3)],
        }
    }

    /// Whether `key` is among the keys held.
    pub fn includes(&self, key: u8) -> (r: bool)
        ensures
            r == self@.contains(key),
    {
        let r = match *self {
            Keys::One(k0) => k0 == key,
            Keys::Two(k0, k1) => k0 == key || k1 == key,
            Keys::Three(k0, k1, k2) => k0 == key || k1 == key || k2 == key,
            Keys::Four(k0, k1, k2, k3) => k0 == key || k1 == key || k2 == key || k3 == key,
        };
        proof {
            let v = self@;
            if r {
                if v[0] == key {
                    assert(v.contains(key));
                } else if v.len() > 1 && v[1] == key {
                    assert(v.contains(key));
                } else if v.len() > 2 && v[2] == key {
                    assert(v.contains(key));
                } else {
                    assert(v[3] == key);
                    assert(v.contains(key));
                }
            }
        }
        r
    }
}

/// The `Keys` value that holds exactly `s`, or `None` when `s` is empty or
/// longer than four.
pub open spec fn keys_of(s: Seq<u8>) -> Option<Keys> {
    if s.len() == 1 {
        Some(Keys::One(s[0]))
    } else if s.len() == 2 {
        Some(Keys::Two(s[0], s[1]))
    } else if s.len() == 3 {
        Some(Keys::Three(s[0], s[1], s[2]))
    } else if s.len() == 4 {
        Some(Keys::Four(s[0], s[1], s[2], s[3]))
    } else {
        None
    }
}

} // verus!
