use vstd::prelude::*;

verus! {

/// The key vector with every key released.
pub open spec fn no_keys() -> Seq<bool> {
    Seq::new(16, |i: int| false)
}

/// The lowest pressed key code at or above `k`, if any.
pub open spec fn first_key_from(keys: Seq<bool>, k: int) -> Option<int>
    decreases 16 - k,
{
    if k < 0 || k >= 16 {
        None
    } else if keys[k] {
        Some(k)
    } else {
        first_key_from(keys, k + 1)
    }
}

/// Sixteen boolean key states, indexed by logical key code 0 to 15. An
/// external input source sets and clears them; the dispatcher only reads
/// them.
pub struct Keypad {
    pub keys: [bool; 16],
}

impl Keypad {
    /// A keypad with every key released.
    pub fn new() -> (r: Keypad)
        ensures
            r.keys@ == no_keys(),
    {
        let r = Keypad { keys: [false; 16] };
        proof {
            assert(r.keys@ =~= no_keys());
        }
        r
    }

    /// The lowest pressed key code, if any key is down.
    pub fn first_pressed(&self) -> (r: Option<u8>)
        ensures
            match first_key_from(self.keys@, 0) {
                Some(k) => r == Some(k as u8),
                None => r == None::<u8>,
            },
    {
        let mut k: usize = 0;
        while k < 16
            invariant
                k <= 16,
                first_key_from(self.keys@, 0) == first_key_from(self.keys@, k as int),
            decreases 16 - k,
        {
            if self.keys[k] {
                return Some(k as u8);
            }
            k = k + 1;
        }
        None
    }
}

} // verus!
