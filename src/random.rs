//! Draws from the random collaborators: a number in a range, a sample of
//! names, and a fresh session token.
use rand::seq::SliceRandom;
use rand::Rng;
use crate::util::string_views;
use vstd::prelude::*;

verus! {

/// Relies on rand's `Rng::gen_range` (rand 0.7) on the thread-local generator:
/// a value in `[low, high)`; it panics when `low >= high`.
#[verifier::external_body]
pub(crate) fn random_in_range(low: usize, high: usize) -> (r: usize)
    requires
        low < high,
    ensures
        low <= r < high,
{
    rand::thread_rng().gen_range(low, high)
}

/// Relies on rand's `SliceRandom::choose_multiple` (rand 0.7): `amount` of
/// `items` (all of them when there are fewer), taken without repetition from
/// distinct positions.
#[verifier::external_body]
pub(crate) fn choose_multiple(items: &Vec<String>, amount: usize) -> (r: Vec<String>)
    ensures
        r@.len() == if amount < items@.len() {
            amount as int
        } else {
            items@.len() as int
        },
        forall|k: int| 0 <= k < r@.len() ==> items@.contains(#[trigger] r@[k]),
        string_views(items@).no_duplicates() ==> string_views(r@).no_duplicates(),
{
    items.choose_multiple(&mut rand::thread_rng(), amount).cloned().collect()
}

/// Relies on `nanoid::format` with nanoid's default random source and its
/// URL-safe alphabet of 64 ASCII symbols: an id of `size` characters. With a
/// `size` of 0 it never returns.
#[verifier::external_body]
pub(crate) fn generate_id(size: usize) -> (r: String)
    requires
        size > 0,
    ensures
        r@.len() == size,
{
    nanoid::format(nanoid::rngs::default, &nanoid::alphabet::SAFE, size)
}

} // verus!
