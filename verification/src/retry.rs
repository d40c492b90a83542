//! The retry executor's decision rules. The fallible operation itself is
//! outside work (a network call); these functions fix how many attempts
//! are made and which attempt's result is returned.
use vstd::prelude::*;

verus! {

/// Index of the first successful attempt at or after `i`.
pub open spec fn first_success_from(outcomes: Seq<bool>, i: int) -> Option<int>
    decreases outcomes.len() - i,
{
    if i < 0 || i >= outcomes.len() {
        None
    } else if outcomes[i] {
        Some(i)
    } else {
        first_success_from(outcomes, i + 1)
    }
}

/// After another failure, whether a further attempt is allowed: attempts
/// are numbered 1..=max, so a new one starts only while fewer than `max`
/// have completed.
pub fn should_retry(attempts_completed: usize, max_attempts: usize) -> (r: bool)
    ensures
        r == (attempts_completed < max_attempts),
{
    attempts_completed < max_attempts
}

/// What the retry executor returns, given the outcome each sequential
/// attempt would have (true = success): the index of the first success —
/// always the first one, never a later one — or `None` when every allowed
/// attempt fails, in which case the last attempt's error surfaces.
pub fn retry_resolution(outcomes: &Vec<bool>, max_attempts: usize) -> (r: Option<usize>)
    requires
        outcomes@.len() == max_attempts,
    ensures
        match r {
            Some(i) => first_success_from(outcomes@, 0) == Some(i as int),
            None => first_success_from(outcomes@, 0) is None,
        },
{
    let mut i: usize = 0;
    while i < outcomes.len()
        invariant
            i <= outcomes.len(),
            first_success_from(outcomes@, 0) == first_success_from(outcomes@, i as int),
        decreases outcomes.len() - i,
    {
        if outcomes[i] {
            return Some(i);
        }
        i += 1;
    }
    None
}

} // verus!
