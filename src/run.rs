//! How many matchers run, and the totals of a run.
use vstd::prelude::*;

verus! {

/// Relies on `num_cpus::get`: the number of logical processors available, which
/// its documentation promises is at least 1.
#[verifier::external_body]
fn available_processors() -> (r: usize)
    ensures
        r >= 1,
{
    num_cpus::get()
}

pub open spec fn spec_worker_count(requested: Option<usize>, available: usize) -> usize {
    match requested {
        Some(k) => if k < available { k } else { available },
        None => available,
    }
}

/// The number of matchers: the number requested, capped by the processors
/// available, or all of them when none is requested.
pub fn worker_count(requested: Option<usize>, available: usize) -> (r: usize)
    ensures
        r == spec_worker_count(requested, available),
{
    match requested {
        Some(k) => if k < available { k } else { available },
        None => available,
    }
}

/// [`worker_count`] against the processors of this machine.
pub fn thread_count(requested: Option<usize>) -> (r: usize)
    ensures
        exists|available: usize| available >= 1 && r == spec_worker_count(requested, available),
        requested matches Some(k) ==> r <= k,
        requested matches Some(k) && k >= 1 ==> r >= 1,
        requested is None ==> r >= 1,
{
    let available = available_processors();
    worker_count(requested, available)
}

/// The sum of `counts`.
pub open spec fn total(counts: Seq<usize>) -> int
    decreases counts.len(),
{
    if counts.len() == 0 {
        0
    } else {
        total(counts.drop_last()) + counts.last()
    }
}

/// How many of `counts` are not zero.
pub open spec fn non_zero(counts: Seq<usize>) -> int
    decreases counts.len(),
{
    if counts.len() == 0 {
        0
    } else {
        non_zero(counts.drop_last()) + if counts.last() > 0 { 1int } else { 0int }
    }
}

/// The totals of a run: files changed and replacements made.
pub struct RunTotals {
    pub files_changed: usize,
    pub replacements: usize,
}

proof fn lemma_total_monotone(counts: Seq<usize>, i: int)
    requires
        0 <= i <= counts.len(),
    ensures
        total(counts.subrange(0, i)) <= total(counts),
        non_zero(counts.subrange(0, i)) <= i,
    decreases counts.len() - i,
{
    if i < counts.len() {
        lemma_total_monotone(counts, i + 1);
        assert(counts.subrange(0, i + 1).drop_last() =~= counts.subrange(0, i));
    } else {
        assert(counts.subrange(0, i) =~= counts);
    }
    lemma_non_zero_bound(counts.subrange(0, i));
}

proof fn lemma_non_zero_bound(counts: Seq<usize>)
    ensures
        non_zero(counts) <= counts.len(),
    decreases counts.len(),
{
    if counts.len() > 0 {
        lemma_non_zero_bound(counts.drop_last());
    }
}

/// Totals the replacement counts of the files of a run, one count per file:
/// the replacements are the sum of the counts and the files changed are those
/// with a count above zero. `None` where the sum does not fit in a `usize`.
pub fn tally(counts: &[usize]) -> (r: Option<RunTotals>)
    ensures
        r is Some <==> total(counts@) <= usize::MAX,
        r matches Some(t) ==> t.replacements == total(counts@) && t.files_changed == non_zero(counts@),
{
    let mut files_changed: usize = 0;
    let mut replacements: usize = 0;
    let mut i: usize = 0;
    while i < counts.len()
        invariant
            i <= counts.len(),
            replacements == total(counts@.subrange(0, i as int)),
            files_changed == non_zero(counts@.subrange(0, i as int)),
            files_changed <= i,
        decreases counts.len() - i,
    {
        assert(counts@.subrange(0, i + 1).drop_last() =~= counts@.subrange(0, i as int));
        if counts[i] > usize::MAX - replacements {
            proof {
                lemma_total_monotone(counts@, i + 1);
            }
            return None;
        }
        replacements = replacements + counts[i];
        if counts[i] > 0 {
            files_changed = files_changed + 1;
        }
        i = i + 1;
    }
    assert(counts@.subrange(0, i as int) =~= counts@);
    Some(RunTotals { files_changed, replacements })
}

} // verus!
