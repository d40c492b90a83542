//! Segment-fetch planning: which referenced chunks actually need a
//! network call (resume skips files already on disk), and the progress
//! arithmetic of the fetch phase.
use vstd::prelude::*;

verus! {

use vstd::arithmetic::div_mod::lemma_div_by_multiple;
use vstd::arithmetic::div_mod::lemma_div_is_ordered;
use vstd::arithmetic::mul::lemma_mul_inequality;

/// The positions whose local file is absent, in playlist order: exactly
/// the chunks a (re-)run fetches.
pub open spec fn missing_indices(local_exists: Seq<bool>) -> Seq<usize>
    decreases local_exists.len(),
{
    if local_exists.len() == 0 {
        Seq::empty()
    } else {
        missing_indices(local_exists.drop_last()) + (if !local_exists.last() {
            seq![(local_exists.len() - 1) as usize]
        } else {
            Seq::empty()
        })
    }
}

/// Law: over a directory where every referenced chunk already exists, a
/// re-run plans zero network calls. The rewritten playlist is a pure
/// function of the source playlist, so the re-run also reproduces it
/// byte for byte.
pub proof fn lemma_resume_makes_no_fetches(local_exists: Seq<bool>)
    requires
        forall|j: int| 0 <= j < local_exists.len() ==> local_exists[j],
    ensures
        missing_indices(local_exists) == Seq::<usize>::empty(),
    decreases local_exists.len(),
{
    if local_exists.len() > 0 {
        lemma_resume_makes_no_fetches(local_exists.drop_last());
        assert(missing_indices(local_exists) =~= Seq::<usize>::empty());
    }
}

/// Plans the fetch pass: the indices of the chunks to download, skipping
/// every chunk whose local file already exists.
pub fn plan_fetches(local_exists: &Vec<bool>) -> (r: Vec<usize>)
    ensures
        r@ == missing_indices(local_exists@),
        (forall|j: int| 0 <= j < local_exists@.len() ==> local_exists@[j]) ==> r@.len() == 0,
{
    let mut r: Vec<usize> = Vec::new();
    let mut i: usize = 0;
    while i < local_exists.len()
        invariant
            i <= local_exists.len(),
            r@ == missing_indices(local_exists@.subrange(0, i as int)),
        decreases local_exists.len() - i,
    {
        if !local_exists[i] {
            r.push(i);
        }
        assert(local_exists@.subrange(0, i + 1 as int).drop_last() =~= local_exists@.subrange(
            0,
            i as int,
        ));
        assert(r@ =~= missing_indices(local_exists@.subrange(0, i + 1 as int)));
        i += 1;
    }
    assert(local_exists@.subrange(0, local_exists@.len() as int) =~= local_exists@);
    proof {
        if forall|j: int| 0 <= j < local_exists@.len() ==> local_exists@[j] {
            lemma_resume_makes_no_fetches(local_exists@);
        }
    }
    r
}

/// Percent of the fetch phase after `done` of `total` chunks are on disk.
pub fn fetch_percent(done: usize, total: usize) -> (r: u64)
    requires
        0 < total,
        done <= total,
    ensures
        r == done as int * 100 / total as int,
        r <= 100,
{
    proof {
        lemma_mul_inequality(done as int, total as int, 100);
        lemma_div_is_ordered(done as int * 100, total as int * 100, total as int);
        lemma_div_by_multiple(100, total as int);
        assert(total as int * 100 == 100 * (total as int)) by (nonlinear_arith);
        assert(done as int * 100 / total as int <= 100);
    }
    ((done as u128 * 100) / (total as u128)) as u64
}

/// Expected chunk count of a playlist with `line_count` lines: the lines
/// beyond the eight header lines come in directive/URI pairs.
pub fn expected_segment_count(line_count: usize) -> (r: usize)
    ensures
        r == if line_count > 8 {
            (line_count - 8) as int / 2
        } else {
            0int
        },
{
    if line_count > 8 {
        (line_count - 8) / 2
    } else {
        0
    }
}

/// The fetch phase occupies the first half of a task's percent scale; the
/// mux phase reports the second half.
pub fn scale_segment_phase(percent: u64) -> (r: u64)
    requires
        percent <= 100,
    ensures
        r == percent / 2,
        r <= 50,
{
    percent / 2
}

} // verus!
