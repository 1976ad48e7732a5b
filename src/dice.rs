//! Random draws: dice rolls and shuffle keys.

use rand::Rng;
use vstd::prelude::*;

verus! {

/// Upper bound (exclusive) of a shuffle key.
pub const MAX_SHUFFLE_KEY: i32 = 10000000;

/// Relies on rand's `thread_rng().gen_range(low, high)`: a value in
/// `[low, high)`; it panics when `low >= high`.
#[verifier::external_body]
pub(crate) fn random_in(low: i32, high: i32) -> (r: i32)
    requires
        low < high,
    ensures
        low <= r < high,
{
    rand::thread_rng().gen_range(low, high)
}

/// Rolls one six-sided die.
pub fn get_dice_roll_6() -> (r: i32)
    ensures
        1 <= r <= 6,
{
    random_in(1, 7)
}

/// Rolls two six-sided dice and returns their sum.
pub fn get_dice_roll_12() -> (r: i32)
    ensures
        2 <= r <= 12,
{
    let first = random_in(1, 7);
    let second = random_in(1, 7);
    first + second
}

/// Draws `n` shuffle keys, each in `[1, MAX_SHUFFLE_KEY)`.
pub fn shuffle_keys(n: usize) -> (keys: Vec<i32>)
    ensures
        keys.len() == n,
        forall|i: int| 0 <= i < n ==> 1 <= #[trigger] keys@[i] < MAX_SHUFFLE_KEY,
{
    let mut keys: Vec<i32> = Vec::new();
    for i in 0..n
        invariant
            keys.len() == i,
            forall|j: int| 0 <= j < i ==> 1 <= #[trigger] keys@[j] < MAX_SHUFFLE_KEY,
    {
        let k = random_in(1, MAX_SHUFFLE_KEY);
        keys.push(k);
    }
    keys
}

} // verus!
