use vstd::prelude::*;

use crate::job::{postings_view, Job, JobView};

verus! {

broadcast use vstd::seq_lib::group_filter_ensures;

/// Keeps a posting exactly when no posting of `previous` equals it.
pub open spec fn unseen_in(previous: Seq<JobView>) -> spec_fn(JobView) -> bool {
    |j: JobView| !previous.contains(j)
}

/// The postings of `current`, in their order, that appear nowhere in `previous`.
pub open spec fn new_postings(current: Seq<JobView>, previous: Seq<JobView>) -> Seq<JobView> {
    current.filter(unseen_in(previous))
}

/// Does `previous` hold a posting structurally equal to `job`?
pub fn seen_before(job: &Job, previous: &[Job]) -> (r: bool)
    ensures
        r == postings_view(previous@).contains(job@),
{
    let ghost prev = previous@.map_values(|p: Job| p@);
    let mut k: usize = 0;
    while k < previous.len()
        invariant
            k <= previous@.len(),
            prev == previous@.map_values(|p: Job| p@),
            forall|m: int| 0 <= m < k ==> prev[m] != job@,
        decreases previous@.len() - k,
    {
        if previous[k].same_as(job) {
            assert(prev[k as int] == job@);
            return true;
        }
        k = k + 1;
    }
    proof {
        if prev.contains(job@) {
            let m = choose|m: int| 0 <= m < prev.len() && prev[m] == job@;
            assert(prev[m] != job@);
        }
    }
    false
}

/// The postings of `current` that were not listed in `previous`, in the order
/// of `current`. Copies of one posting in `current` are all kept; the order of
/// `previous` does not matter.
pub fn diff(current: &[Job], previous: &[Job]) -> (r: Vec<Job>)
    ensures
        postings_view(r@) == new_postings(postings_view(current@), postings_view(previous@)),
{
    let ghost cur = current@.map_values(|j: Job| j@);
    let ghost prev = previous@.map_values(|j: Job| j@);
    let mut out: Vec<Job> = Vec::new();
    let mut i: usize = 0;
    while i < current.len()
        invariant
            i <= current@.len(),
            cur == current@.map_values(|j: Job| j@),
            prev == previous@.map_values(|j: Job| j@),
            out@.map_values(|j: Job| j@) == cur.take(i as int).filter(unseen_in(prev)),
        decreases current@.len() - i,
    {
        let seen = seen_before(&current[i], previous);
        proof {
            assert(cur.take(i + 1) == cur.take(i as int).push(cur[i as int]));
            cur.take(i as int).lemma_filter_push(cur[i as int], unseen_in(prev));
        }
        if !seen {
            let copy = current[i].duplicate();
            out.push(copy);
            assert(out@.map_values(|j: Job| j@) == cur.take(i as int).filter(unseen_in(prev)).push(
                cur[i as int],
            ));
        }
        i = i + 1;
    }
    assert(cur.take(current@.len() as int) == cur);
    out
}

/// Against an empty previous snapshot every current posting is new, in order.
pub proof fn lemma_diff_against_nothing(current: Seq<JobView>)
    ensures
        new_postings(current, Seq::empty()) == current,
    decreases current.len(),
{
    reveal(Seq::filter);
    if current.len() > 0 {
        lemma_diff_against_nothing(current.drop_last());
        assert(current.drop_last().push(current.last()) == current);
    }
}

/// With nothing listed now there is nothing new, whatever was listed before.
pub proof fn lemma_diff_of_nothing(previous: Seq<JobView>)
    ensures
        new_postings(Seq::empty(), previous) == Seq::<JobView>::empty(),
{
    reveal(Seq::filter);
}

/// A listing whose postings were all listed before yields nothing new.
proof fn lemma_all_seen(current: Seq<JobView>, previous: Seq<JobView>)
    requires
        forall|i: int| 0 <= i < current.len() ==> previous.contains(#[trigger] current[i]),
    ensures
        new_postings(current, previous) == Seq::<JobView>::empty(),
    decreases current.len(),
{
    reveal(Seq::filter);
    if current.len() > 0 {
        let rest = current.drop_last();
        assert forall|i: int| 0 <= i < rest.len() implies previous.contains(#[trigger] rest[i]) by {
            assert(rest[i] == current[i]);
        }
        lemma_all_seen(rest, previous);
        assert(previous.contains(current[current.len() - 1]));
    }
}

/// Comparing a listing with itself yields nothing new.
pub proof fn lemma_diff_with_itself(postings: Seq<JobView>)
    ensures
        new_postings(postings, postings) == Seq::<JobView>::empty(),
{
    assert forall|i: int| 0 <= i < postings.len() implies postings.contains(#[trigger] postings[i]) by {}
    lemma_all_seen(postings, postings);
}

/// Every posting reported as new is listed in `current` and absent from `previous`.
pub proof fn lemma_diff_members(current: Seq<JobView>, previous: Seq<JobView>, job: JobView)
    requires
        new_postings(current, previous).contains(job),
    ensures
        current.contains(job),
        !previous.contains(job),
{
    let out = new_postings(current, previous);
    current.lemma_filter_contains_rev(unseen_in(previous), job);
    let i = choose|i: int| 0 <= i < out.len() && out[i] == job;
    assert(unseen_in(previous)(out[i]));
}

/// The two postings differ in exactly one of their six fields.
pub open spec fn one_field_changed(a: JobView, b: JobView) -> bool {
    let differences = seq![
        a.title != b.title,
        a.company != b.company,
        a.location != b.location,
        a.link != b.link,
        a.logo_url != b.logo_url,
        a.posted != b.posted,
    ];
    differences.filter(|d: bool| d).len() == 1
}

/// When one field of the posting at `index` changes between two runs, the
/// changed posting is reported as new: its old version does not hide it.
/// (It is hidden only by an equal posting elsewhere in the previous listing.)
pub proof fn lemma_changed_posting_is_new(
    previous: Seq<JobView>,
    index: int,
    changed: JobView,
)
    requires
        0 <= index < previous.len(),
        one_field_changed(previous[index], changed),
        forall|k: int| 0 <= k < previous.len() && k != index ==> previous[k] != changed,
    ensures
        new_postings(previous.update(index, changed), previous).contains(changed),
{
    let old_job = previous[index];
    if old_job == changed {
        reveal_with_fuel(Seq::filter, 7);
        assert(false);
    }
    assert(!previous.contains(changed));
    let current = previous.update(index, changed);
    assert(current[index] == changed);
    current.lemma_filter_contains(unseen_in(previous), index);
}

} // verus!
