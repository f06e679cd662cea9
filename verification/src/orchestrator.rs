//! The per-resolution provider-selection and elimination state machine,
//! and the aggregate result of a whole run.
//!
//! For each requested resolution the orchestrator starts from the full
//! provider list, picks a candidate uniformly at random, and consumes
//! the provider's answer: success resolves the resolution, `NotFound`
//! eliminates the provider for this resolution only, and any other
//! failure aborts the run.  The surrounding application performs the
//! fetches and feeds each answer into `CandidateSet::step`.

use vstd::prelude::*;

use vstd::multiset::Multiset;

use crate::error::DownloadError;
use crate::pic::Pic;
use crate::provider::Provider;
use crate::rng::random_below;

verus! {

/// Every provider, in the fixed registration order.
pub open spec fn all_providers() -> Seq<Provider> {
    seq![Provider::Wallhaven, Provider::Wstock]
}

/// The candidate/eliminated split is a partition of the full provider
/// list: together the two sides hold each provider exactly once.
pub open spec fn partitions_providers(avail: Seq<Provider>, elim: Seq<Provider>) -> bool {
    avail.to_multiset().add(elim.to_multiset()) == all_providers().to_multiset()
}

/// The not-yet-tried providers for one resolution, beside those this
/// resolution has eliminated through a `NotFound` answer.
pub struct CandidateSet {
    /// Providers that may still be picked for the current resolution.
    pub available: Vec<Provider>,
    /// Providers eliminated for the current resolution.
    pub eliminated: Vec<Provider>,
}

/// What the orchestrator does after one provider answer.
pub enum StepResult {
    /// The provider succeeded: the resolution is resolved with these
    /// pictures.
    Resolved(Vec<Pic>),
    /// The provider had no content: it is eliminated and another
    /// candidate is to be tried.
    Retry,
    /// Every provider reported `NotFound`: the run aborts.
    Exhausted,
    /// A hard failure: the run aborts at once.
    Aborted(DownloadError),
}

impl CandidateSet {
    pub open spec fn wf(&self) -> bool {
        partitions_providers(self.available@, self.eliminated@)
    }

    /// A fresh set for one resolution: every provider is a candidate
    /// again, whatever earlier resolutions eliminated.
    pub fn new() -> (s: CandidateSet)
        ensures
            s.wf(),
            s.available@ == all_providers(),
            s.eliminated@ == Seq::<Provider>::empty(),
    {
        let mut available: Vec<Provider> = Vec::new();
        available.push(Provider::Wallhaven);
        available.push(Provider::Wstock);
        let s = CandidateSet { available, eliminated: Vec::new() };
        proof {
            broadcast use vstd::seq_lib::group_to_multiset_ensures;
            broadcast use vstd::multiset::group_multiset_axioms;

            assert(s.available@ =~= all_providers());
            assert(s.eliminated@.to_multiset() =~= Multiset::<Provider>::empty());
            assert(s.available@.to_multiset().add(s.eliminated@.to_multiset())
                =~= all_providers().to_multiset());
        }
        s
    }

    /// How many candidates are left.
    pub fn len(&self) -> (n: usize)
        ensures
            n == self.available@.len(),
    {
        self.available.len()
    }

    /// Pick a uniformly random untried provider: its index and identity.
    pub fn pick(&self) -> (r: (usize, Provider))
        requires
            self.available@.len() >= 1,
        ensures
            r.0 < self.available@.len(),
            r.1 == self.available@[r.0 as int],
    {
        let idx = random_below(self.available.len());
        (idx, self.available[idx])
    }

    /// Consume the answer of the candidate at `idx`.
    ///
    /// Success resolves the resolution with exactly the returned
    /// pictures and leaves the set untouched; `NotFound` moves the
    /// picked provider from the candidates to the eliminated side, and
    /// reports exhaustion exactly when no candidate is left; any other
    /// error aborts, untouched.  No other outcome exists.
    pub fn step(&mut self, idx: usize, outcome: Result<Vec<Pic>, DownloadError>) -> (r:
        StepResult)
        requires
            old(self).wf(),
            idx < old(self).available@.len(),
        ensures
            final(self).wf(),
            outcome matches Ok(pics) ==> r == StepResult::Resolved(pics) && *final(self)
                == *old(self),
            outcome matches Err(e) ==> (if e is NotFound {
                &&& final(self).available@ == old(self).available@.remove(idx as int)
                &&& final(self).eliminated@ == old(self).eliminated@.push(
                    old(self).available@[idx as int],
                )
                &&& r == (if final(self).available@.len() > 0 {
                    StepResult::Retry
                } else {
                    StepResult::Exhausted
                })
            } else {
                r == StepResult::Aborted(e) && *final(self) == *old(self)
            }),
    {
        match outcome {
            Ok(pics) => StepResult::Resolved(pics),
            Err(e) => match e {
                DownloadError::NotFound => {
                    let p = self.available.remove(idx);
                    self.eliminated.push(p);
                    proof {
                        broadcast use vstd::seq_lib::group_to_multiset_ensures;
                        broadcast use vstd::multiset::group_multiset_axioms;

                        assert(self.available@.to_multiset().add(self.eliminated@.to_multiset())
                            =~= all_providers().to_multiset());
                    }
                    if self.available.len() > 0 {
                        StepResult::Retry
                    } else {
                        StepResult::Exhausted
                    }
                },
                other => StepResult::Aborted(other),
            },
        }
    }
}

/// A candidate was never eliminated: a provider removed for this
/// resolution is not offered again for it.
pub proof fn lemma_candidate_not_eliminated(s: &CandidateSet, i: int)
    requires
        s.wf(),
        0 <= i < s.available@.len(),
    ensures
        !s.eliminated@.contains(s.available@[i]),
{
    broadcast use vstd::seq_lib::group_to_multiset_ensures;
    broadcast use vstd::multiset::group_multiset_axioms;

    let p = s.available@[i];
    assert(s.available@.contains(p));
    if s.eliminated@.contains(p) {
        lemma_all_providers_once(p);
        assert(s.available@.to_multiset().count(p) >= 1);
        assert(s.eliminated@.to_multiset().count(p) >= 1);
        assert(false);
    }
}

/// Exhaustion means every provider was eliminated — each reported
/// `NotFound` for this resolution.
pub proof fn lemma_exhausted_all_eliminated(s: &CandidateSet)
    requires
        s.wf(),
        s.available@.len() == 0,
    ensures
        forall|p: Provider| all_providers().contains(p) ==> s.eliminated@.contains(p),
{
    lemma_exhausted_partition(s.available@, s.eliminated@);
}

proof fn lemma_exhausted_partition(avail: Seq<Provider>, elim: Seq<Provider>)
    requires
        partitions_providers(avail, elim),
        avail.len() == 0,
    ensures
        forall|p: Provider| all_providers().contains(p) ==> elim.contains(p),
{
    broadcast use vstd::seq_lib::group_to_multiset_ensures;
    broadcast use vstd::multiset::group_multiset_axioms;

    assert forall|p: Provider| all_providers().contains(p) implies elim.contains(p) by {
        assert(all_providers().to_multiset().count(p) > 0);
        assert(avail.to_multiset().count(p) == 0);
        assert(elim.to_multiset().count(p) > 0);
    }
}

/// The indices of a run of `NotFound` answers are in range step by
/// step.
pub open spec fn valid_run(avail: Seq<Provider>, idxs: Seq<int>) -> bool
    decreases idxs.len(),
{
    if idxs.len() == 0 {
        true
    } else {
        0 <= idxs.first() < avail.len() && valid_run(avail.remove(idxs.first()), idxs.drop_first())
    }
}

/// The candidate/eliminated split after a run of `NotFound` answers at
/// the given indices.
pub open spec fn eliminate_run(avail: Seq<Provider>, elim: Seq<Provider>, idxs: Seq<int>) -> (
    Seq<Provider>,
    Seq<Provider>,
)
    decreases idxs.len(),
{
    if idxs.len() == 0 {
        (avail, elim)
    } else {
        eliminate_run(avail.remove(idxs.first()), elim.push(avail[idxs.first()]), idxs.drop_first())
    }
}

/// Provider elimination is monotonic and scoped to one resolution's
/// run: across any run of `NotFound` answers, what was eliminated stays
/// eliminated, no provider is eliminated twice, the candidates shrink
/// by exactly one per answer, and when they run out every provider has
/// been eliminated.  (A later resolution starts over from
/// `CandidateSet::new`, where every provider is a candidate again.)
pub proof fn lemma_elimination_run(avail: Seq<Provider>, elim: Seq<Provider>, idxs: Seq<int>)
    requires
        partitions_providers(avail, elim),
        valid_run(avail, idxs),
    ensures
        partitions_providers(eliminate_run(avail, elim, idxs).0, eliminate_run(avail, elim, idxs).1),
        eliminate_run(avail, elim, idxs).1.len() == elim.len() + idxs.len(),
        eliminate_run(avail, elim, idxs).0.len() == avail.len() - idxs.len(),
        forall|k: int|
            0 <= k < elim.len() ==> eliminate_run(avail, elim, idxs).1[k] == elim[k],
        eliminate_run(avail, elim, idxs).1.no_duplicates(),
        eliminate_run(avail, elim, idxs).0.len() == 0 ==> forall|p: Provider|
            all_providers().contains(p) ==> eliminate_run(avail, elim, idxs).1.contains(p),
    decreases idxs.len(),
{
    broadcast use vstd::seq_lib::group_to_multiset_ensures;
    broadcast use vstd::multiset::group_multiset_axioms;

    let (a2, e2) = eliminate_run(avail, elim, idxs);
    if idxs.len() == 0 {
        assert forall|x: Provider| elim.to_multiset().contains(x) implies elim.to_multiset().count(
            x,
        ) == 1 by {
            lemma_all_providers_once(x);
        }
        elim.lemma_multiset_has_no_duplicates_conv();
        if avail.len() == 0 {
            lemma_exhausted_partition(avail, elim);
        }
    } else {
        let i = idxs.first();
        let a1 = avail.remove(i);
        let e1 = elim.push(avail[i]);
        assert(a1.to_multiset().add(e1.to_multiset()) =~= all_providers().to_multiset());
        lemma_elimination_run(a1, e1, idxs.drop_first());
        assert forall|k: int| 0 <= k < elim.len() implies e2[k] == elim[k] by {
            assert(e1[k] == elim[k]);
            assert(e2[k] == e1[k]);
        }
    }
}

/// One provider answer, stripped to what drives the machine.
pub enum Answer {
    Success,
    NotFound,
    Hard,
}

/// How one resolution's fetch ends.
#[derive(PartialEq, Eq, Structural)]
pub enum RunEnd {
    Resolved,
    Exhausted,
    Aborted,
    Unfinished,
}

/// The answers of one resolution's fetch are consumed as the machine
/// consumes them: each picks one of the candidates left at its turn,
/// and only a `NotFound` answer lets another follow.
pub open spec fn valid_answers(avail: Seq<Provider>, answers: Seq<(int, Answer)>) -> bool
    decreases answers.len(),
{
    if answers.len() == 0 {
        true
    } else {
        let (i, a) = answers.first();
        &&& 0 <= i < avail.len()
        &&& match a {
            Answer::NotFound => valid_answers(avail.remove(i), answers.drop_first()),
            _ => answers.len() == 1,
        }
    }
}

/// The end of one resolution's fetch after consuming `answers`.
pub open spec fn run_end(avail: Seq<Provider>, answers: Seq<(int, Answer)>) -> RunEnd
    decreases answers.len(),
{
    if answers.len() == 0 {
        RunEnd::Unfinished
    } else {
        let (i, a) = answers.first();
        match a {
            Answer::Success => RunEnd::Resolved,
            Answer::Hard => RunEnd::Aborted,
            Answer::NotFound => {
                if avail.len() == 1 {
                    RunEnd::Exhausted
                } else {
                    run_end(avail.remove(i), answers.drop_first())
                }
            },
        }
    }
}

/// For one resolution, no termination path exists but these three:
/// - `Resolved`: exactly one provider succeeds — the one `Success` is
///   the last answer consumed, everything before it was a `NotFound`
///   elimination;
/// - `Exhausted`: every answer was `NotFound` and every candidate gave
///   one, so the run aborts with no provider left;
/// - `Aborted`: a hard failure ends the run at once, with only
///   `NotFound` answers before it.
/// A run still unfinished has consumed nothing but `NotFound`, fewer
/// than there are candidates.
pub proof fn lemma_run_terminal(avail: Seq<Provider>, answers: Seq<(int, Answer)>)
    requires
        avail.len() >= 1,
        valid_answers(avail, answers),
    ensures
        run_end(avail, answers) == RunEnd::Resolved ==> answers.last().1 == Answer::Success
            && forall|q: int|
            0 <= q < answers.len() - 1 ==> (#[trigger] answers[q]).1 == Answer::NotFound,
        run_end(avail, answers) == RunEnd::Aborted ==> answers.last().1 == Answer::Hard
            && forall|q: int|
            0 <= q < answers.len() - 1 ==> (#[trigger] answers[q]).1 == Answer::NotFound,
        run_end(avail, answers) == RunEnd::Exhausted ==> answers.len() == avail.len() && forall|
            q: int,
        |
            0 <= q < answers.len() ==> (#[trigger] answers[q]).1 == Answer::NotFound,
        run_end(avail, answers) == RunEnd::Unfinished ==> answers.len() < avail.len() && forall|
            q: int,
        |
            0 <= q < answers.len() ==> (#[trigger] answers[q]).1 == Answer::NotFound,
    decreases answers.len(),
{
    if answers.len() > 0 {
        let (i, a) = answers.first();
        match a {
            Answer::Success => {},
            Answer::Hard => {},
            Answer::NotFound => {
                if avail.len() > 1 {
                    let avail2 = avail.remove(i);
                    let rest = answers.drop_first();
                    lemma_run_terminal(avail2, rest);
                    if rest.len() > 0 {
                        assert(answers.last() == rest.last());
                    }
                    let e = run_end(avail, answers);
                    if e == RunEnd::Resolved || e == RunEnd::Aborted {
                        assert forall|q: int| 0 <= q < answers.len() - 1 implies (
                        #[trigger] answers[q]).1 == Answer::NotFound by {
                            if q > 0 {
                                assert(answers[q] == rest[q - 1]);
                            }
                        }
                    } else {
                        assert forall|q: int| 0 <= q < answers.len() implies (
                        #[trigger] answers[q]).1 == Answer::NotFound by {
                            if q > 0 {
                                assert(answers[q] == rest[q - 1]);
                            }
                        }
                    }
                } else {
                    // The one remaining candidate answered NotFound:
                    // nothing can validly follow, so this answer is the
                    // whole run.
                    let rest = answers.drop_first();
                    if rest.len() > 0 {
                        assert(!valid_answers(avail.remove(i), rest));
                    }
                    assert(answers.len() == 1);
                }
            },
        }
    }
}

/// The aggregate of one run: an entry per successfully resolved
/// resolution, in the order the resolutions were requested, each with
/// the pictures its one successful provider returned.
pub struct ResultMap {
    pub entries: Vec<(String, Vec<Pic>)>,
}

/// Total number of pictures across all entries.
pub open spec fn total_of(entries: Seq<(String, Vec<Pic>)>) -> int
    decreases entries.len(),
{
    if entries.len() == 0 {
        0
    } else {
        total_of(entries.drop_last()) + entries.last().1@.len()
    }
}

pub proof fn lemma_total_prefix_le(entries: Seq<(String, Vec<Pic>)>, i: int)
    requires
        0 <= i <= entries.len(),
    ensures
        total_of(entries.subrange(0, i)) <= total_of(entries),
    decreases entries.len() - i,
{
    if i == entries.len() {
        assert(entries.subrange(0, i) =~= entries);
    } else {
        assert(entries.subrange(0, i + 1).drop_last() =~= entries.subrange(0, i));
        lemma_total_prefix_le(entries, i + 1);
    }
}

impl ResultMap {
    pub fn new() -> (m: ResultMap)
        ensures
            m.entries@ == Seq::<(String, Vec<Pic>)>::empty(),
    {
        let m = ResultMap { entries: Vec::new() };
        proof {
            assert(m.entries@ =~= Seq::<(String, Vec<Pic>)>::empty());
        }
        m
    }

    /// Record a resolved resolution.  Entries are appended, never
    /// overwritten: the orchestrator visits each resolution once.
    pub fn record(&mut self, resolution: String, pics: Vec<Pic>)
        ensures
            final(self).entries@ == old(self).entries@.push((resolution, pics)),
    {
        self.entries.push((resolution, pics));
    }

    /// The total count of fetched pictures, when it fits a `usize`.
    pub fn total_pics(&self) -> (n: Option<usize>)
        ensures
            match n {
                Some(v) => v == total_of(self.entries@),
                None => total_of(self.entries@) > usize::MAX,
            },
    {
        let mut acc: usize = 0;
        let mut i: usize = 0;
        let count = self.entries.len();
        while i < count
            invariant
                i <= count,
                count == self.entries@.len(),
                acc == total_of(self.entries@.subrange(0, i as int)),
            decreases count - i,
        {
            let len = self.entries[i].1.len();
            proof {
                assert(self.entries@.subrange(0, i + 1).drop_last() =~= self.entries@.subrange(
                    0,
                    i as int,
                ));
            }
            if len > usize::MAX - acc {
                proof {
                    lemma_total_prefix_le(self.entries@, i + 1);
                }
                return None;
            }
            acc = acc + len;
            i += 1;
        }
        proof {
            assert(self.entries@.subrange(0, count as int) =~= self.entries@);
        }
        Some(acc)
    }
}

/// Each provider stands exactly once in the full list.
proof fn lemma_all_providers_once(p: Provider)
    ensures
        all_providers().to_multiset().count(p) == 1,
{
    broadcast use vstd::seq_lib::group_to_multiset_ensures;
    broadcast use vstd::multiset::group_multiset_axioms;

    let all = all_providers();
    assert(all =~= Seq::<Provider>::empty().push(Provider::Wallhaven).push(Provider::Wstock));
    assert(Seq::<Provider>::empty().to_multiset() =~= Multiset::<Provider>::empty());
    assert(all.to_multiset() =~= Multiset::<Provider>::empty().insert(Provider::Wallhaven).insert(
        Provider::Wstock,
    ));
}

} // verus!
