//! A small linear-congruential generator and the random filler text of
//! the demo panel.

use vstd::prelude::*;

use std::collections::hash_map::RandomState;
use std::hash::{BuildHasher, Hash, Hasher};

use crate::text::chars_to_string;

verus! {

/// Relies on `std::collections::hash_map::RandomState` and
/// `std::time::SystemTime`: hashing the current instant with a
/// per-process randomly seeded hasher yields an arbitrary value. Nothing
/// is promised of the result.
#[verifier::external_body]
fn entropy_seed() -> u64 {
    let random_state = RandomState::new();
    let mut hasher = random_state.build_hasher();
    std::time::SystemTime::now().hash(&mut hasher);
    hasher.finish()
}

/// A linear-congruential generator over the full 64-bit range.
pub struct SimpleRng {
    pub state: u64,
}

impl SimpleRng {
    /// A generator seeded from process entropy; nothing is known of the
    /// seed.
    pub fn new() -> Self {
        SimpleRng { state: entropy_seed() }
    }

    /// Advances the state by one step and returns it.
    pub fn next(&mut self) -> (r: u64)
        ensures
            final(self).state == vstd::wrapping::u64_specs::wrapping_add(
                vstd::wrapping::u64_specs::wrapping_mul(old(self).state, 6364136223846793005u64),
                1u64,
            ),
            r == final(self).state,
    {
        self.state = self.state.wrapping_mul(6364136223846793005).wrapping_add(1);
        self.state
    }

    /// Draws a value below `max`.
    pub fn next_range(&mut self, max: usize) -> (r: usize)
        requires
            max > 0,
        ensures
            r < max,
            final(self).state == vstd::wrapping::u64_specs::wrapping_add(
                vstd::wrapping::u64_specs::wrapping_mul(old(self).state, 6364136223846793005u64),
                1u64,
            ),
    {
        (self.next() % (max as u64)) as usize
    }
}

/// The characters the random filler text draws from.
pub open spec fn filler_alphabet() -> Seq<char> {
    "abcdefghijklmnopqrstuvwxyzABCDEFGHIJKLMNOPQRSTUVWXYZ0123456789 "@
}

/// A string of `length` characters drawn from the filler alphabet.
pub fn generate_random_text(length: usize) -> (r: String)
    ensures
        r@.len() == length,
        forall|i: int| 0 <= i < r@.len() ==> filler_alphabet().contains(#[trigger] r@[i]),
{
    let mut rng = SimpleRng::new();
    let chars = "abcdefghijklmnopqrstuvwxyzABCDEFGHIJKLMNOPQRSTUVWXYZ0123456789 ";
    let chars_vec = crate::text::str_to_chars(chars);
    let n = chars_vec.len();
    proof {
        assert(n == filler_alphabet().len());
        assert(n > 0) by {
            reveal_strlit("abcdefghijklmnopqrstuvwxyzABCDEFGHIJKLMNOPQRSTUVWXYZ0123456789 ");
        }
    }
    let mut out: Vec<char> = Vec::new();
    for k in 0..length
        invariant
            n == chars_vec@.len(),
            n > 0,
            chars_vec@ == filler_alphabet(),
            out@.len() == k,
            forall|i: int| 0 <= i < out@.len() ==> filler_alphabet().contains(#[trigger] out@[i]),
    {
        let idx = rng.next_range(n);
        out.push(chars_vec[idx]);
    }
    chars_to_string(&out)
}

} // verus!
