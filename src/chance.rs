//! The random draws the manager makes: engagement weights, read/write rolls,
//! weighted batches and fresh workout ids.

use vstd::prelude::*;
use crate::schedule::DRAW_SCALE;

verus! {

/// Engagement weights are uniform in `0..WEIGHT_SCALE`.
pub const WEIGHT_SCALE: u32 = 16777216;

/// Relies on `rand::Rng::gen_range` over `thread_rng`: a value of the
/// half-open range, which must not be empty.
#[verifier::external_body]
pub(crate) fn uniform_below(bound: u32) -> (r: u32)
    requires
        bound > 0,
    ensures
        r < bound,
{
    rand::Rng::gen_range(&mut rand::thread_rng(), 0..bound)
}

/// Relies on `rand::seq::index::sample_weighted` over `thread_rng`: for
/// `amount <= length` and weights that are never negative or NaN (integers
/// never are) it returns `Ok` with exactly `amount` distinct indices of
/// `0..length`.
#[verifier::external_body]
fn sample_weighted_indices(weights: &Vec<u32>, amount: usize) -> (r: Option<Vec<usize>>)
    requires
        amount <= weights@.len(),
    ensures
        r matches Some(v) && v@.len() == amount && v@.no_duplicates()
            && forall|k: int| 0 <= k < v@.len() ==> v@[k] < weights@.len(),
{
    match rand::seq::index::sample_weighted(&mut rand::thread_rng(), weights.len(), |i| weights[i], amount) {
        Ok(v) => Some(v.into_vec()),
        Err(_) => None,
    }
}

/// Relies on `uuid::Uuid::new_v4`: a random id; nothing is promised of it.
#[verifier::external_body]
pub(crate) fn random_uuid() -> (r: u128) {
    uuid::Uuid::new_v4().as_u128()
}

/// A roll for the read/write choice, uniform in `0..DRAW_SCALE`.
pub fn roll_draw() -> (r: u32)
    ensures
        r < DRAW_SCALE,
{
    uniform_below(DRAW_SCALE)
}

/// `n` engagement weights, each below `WEIGHT_SCALE`.
pub fn random_weights(n: usize) -> (r: Vec<u32>)
    ensures
        r@.len() == n,
        forall|k: int| 0 <= k < n ==> r@[k] < WEIGHT_SCALE,
{
    let mut r: Vec<u32> = Vec::new();
    let mut i: usize = 0;
    while i < n
        invariant
            i <= n,
            r@.len() == i,
            forall|k: int| 0 <= k < i ==> r@[k] < WEIGHT_SCALE,
        decreases n - i,
    {
        r.push(uniform_below(WEIGHT_SCALE));
        i = i + 1;
    }
    r
}

/// `n` fresh random workout ids.
pub fn random_ids(n: usize) -> (r: Vec<u128>)
    ensures
        r@.len() == n,
{
    let mut r: Vec<u128> = Vec::new();
    let mut i: usize = 0;
    while i < n
        invariant
            i <= n,
            r@.len() == i,
        decreases n - i,
    {
        r.push(random_uuid());
        i = i + 1;
    }
    r
}

/// Draws `min(amount, weights.len())` distinct indices of `weights`, each
/// with a chance that grows with its weight.
pub fn weighted_batch(weights: &Vec<u32>, amount: usize) -> (r: Vec<usize>)
    ensures
        r@.len() == if amount <= weights@.len() { amount } else { weights@.len() as usize },
        r@.no_duplicates(),
        forall|k: int| 0 <= k < r@.len() ==> r@[k] < weights@.len(),
{
    let n = if amount <= weights.len() { amount } else { weights.len() };
    match sample_weighted_indices(weights, n) {
        Some(v) => v,
        None => Vec::new(),
    }
}

} // verus!
