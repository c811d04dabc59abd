//! The random draws that a wave is made from, taken from the `rand` crate.
//!
//! Nothing here is proved: each function states what `rand` documents of
//! the call it makes, and the rest of the library is verified against
//! those statements.

use vstd::prelude::*;
use rand::rngs::ThreadRng;
use rand::seq::SliceRandom;
use rand::Rng;

verus! {

/// `rand::rngs::ThreadRng`, the generator that the draws are taken from.
/// Its state is not modelled.
#[verifier::external_type_specification]
#[verifier::external_body]
pub struct ExThreadRng(ThreadRng);

/// Calls `rand::thread_rng`, which hands out the calling thread's
/// generator. Nothing is claimed of it. The generator is seeded from the
/// operating system on first use, and `rand` panics if that source fails.
#[verifier::external_body]
pub(crate) fn thread_rng() -> ThreadRng {
    rand::thread_rng()
}

/// Calls `rand::Rng::gen_range` on 64-bit integers. `rand` documents the
/// result as lying in the half-open range from `low` to `high`, and panics
/// unless `low < high`; which value of the range comes out is left open.
#[verifier::external_body]
pub(crate) fn gen_range(rng: &mut ThreadRng, low: i64, high: i64) -> (drawn: i64)
    requires
        low < high,
    ensures
        low <= drawn < high,
{
    rng.gen_range(low, high)
}

/// Calls `rand::seq::SliceRandom::choose` on the columns in `columns`.
/// `rand` documents the result as one element of the slice, or `None` if
/// the slice is empty; which element comes out is left open.
#[verifier::external_body]
pub(crate) fn choose_column(rng: &mut ThreadRng, columns: &Vec<u32>) -> (picked: Option<u32>)
    ensures
        picked is None <==> columns@.len() == 0,
        picked matches Some(column) ==> columns@.contains(column),
{
    columns.choose(rng).copied()
}

} // verus!
