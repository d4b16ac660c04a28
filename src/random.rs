//! The random source that generation and the per-tick heuristics draw from.

use vstd::prelude::*;
use rand::Rng;
use rand::seq::SliceRandom;

verus! {

#[verifier::external_type_specification]
#[verifier::external_body]
pub struct ExStdRng(rand::rngs::StdRng);

/// Relies on `rand::Rng::gen_range` (rand 0.7): a value in `[low, high)`;
/// it panics only when `low >= high`.
#[verifier::external_body]
pub(crate) fn random_range(rng: &mut rand::rngs::StdRng, low: usize, high: usize) -> (r: usize)
    requires
        low < high,
    ensures
        low <= r < high,
{
    rng.gen_range(low, high)
}

/// Relies on `rand::seq::SliceRandom::choose` (rand 0.7): one of the
/// items, or `None` exactly when there is none.
#[verifier::external_body]
pub(crate) fn choose_item<T: Copy>(rng: &mut rand::rngs::StdRng, items: &Vec<T>) -> (r: Option<T>)
    ensures
        r is Some <==> items@.len() > 0,
        r is Some ==> items@.contains(r->0),
{
    items.as_slice().choose(rng).copied()
}

/// Relies on std's `FromIterator<char>` for `String`: the characters, in order.
#[verifier::external_body]
pub(crate) fn chars_to_string(chars: &Vec<char>) -> (r: String)
    ensures
        r@ == chars@,
{
    chars.iter().collect()
}

} // verus!
