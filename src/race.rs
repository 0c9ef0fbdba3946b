use vstd::prelude::*;

use crate::error::YubicoError;

verus! {

/// A per-host failure that does not rule out success from another host: a
/// replayed request, or a status code outside 200..=299.
pub open spec fn is_soft(o: Result<(), YubicoError>) -> bool {
    o matches Err(YubicoError::ReplayedRequest) || o matches Err(YubicoError::HTTPStatusCode(_))
}

/// The first outcome that decides the race (a success or a hard failure),
/// if any.
pub open spec fn first_decisive(os: Seq<Result<(), YubicoError>>) -> Option<Result<(), YubicoError>>
    decreases os.len(),
{
    if os.len() == 0 {
        None
    } else if !is_soft(os[0]) {
        Some(os[0])
    } else {
        first_decisive(os.drop_first())
    }
}

/// The errors that soft outcomes carry.
pub open spec fn soft_errors(os: Seq<Result<(), YubicoError>>) -> Seq<YubicoError> {
    os.map_values(|o: Result<(), YubicoError>| o->Err_0)
}

/// The result of a race whose hosts answered `os`, in completion order: the
/// first success or hard failure, else all the soft failures together.
pub open spec fn race_verdict(os: Seq<Result<(), YubicoError>>, r: Result<(), YubicoError>) -> bool {
    match first_decisive(os) {
        Some(o) => r == o,
        None => r matches Err(YubicoError::MultipleErrors(es)) && es@ == soft_errors(os),
    }
}

/// The decisions of a race in progress: the soft failures seen so far, in
/// the order they came.
pub struct Race {
    pub errors: Vec<YubicoError>,
}

impl Race {
    /// A race in which no host has answered yet.
    pub fn start() -> (r: Race)
        ensures
            r.errors@.len() == 0,
    {
        Race { errors: Vec::new() }
    }

    /// Takes the next host's outcome. A soft failure is recorded and the race
    /// goes on (`None`); anything else ends it with that outcome.
    pub fn record(&mut self, outcome: Result<(), YubicoError>) -> (r: Option<Result<(), YubicoError>>)
        ensures
            is_soft(outcome) ==> r is None && final(self).errors@ == old(self).errors@.push(outcome->Err_0),
            !is_soft(outcome) ==> r == Some(outcome) && final(self).errors@ == old(self).errors@,
    {
        match outcome {
            Err(YubicoError::ReplayedRequest) => {
                self.errors.push(YubicoError::ReplayedRequest);
                None
            },
            Err(YubicoError::HTTPStatusCode(code)) => {
                self.errors.push(YubicoError::HTTPStatusCode(code));
                None
            },
            other => Some(other),
        }
    }

    /// Ends a race in which every host failed softly.
    pub fn finish(self) -> (r: YubicoError)
        ensures
            r matches YubicoError::MultipleErrors(es) && es@ == self.errors@,
    {
        YubicoError::MultipleErrors(self.errors)
    }
}

/// Decides a race from the hosts' outcomes in completion order. Outcomes
/// after the deciding one are never looked at.
pub fn race_outcome(outcomes: Vec<Result<(), YubicoError>>) -> (r: Result<(), YubicoError>)
    ensures
        race_verdict(outcomes@, r),
{
    let ghost os = outcomes@;
    let n: usize = outcomes.len();
    let mut rest = outcomes;
    let mut race = Race::start();
    let mut i: usize = 0;
    assert(os.subrange(0, os.len() as int) =~= os);
    assert(os.subrange(0, 0) =~= seq![]);
    assert(soft_errors(os.subrange(0, 0)) =~= seq![]);
    while rest.len() > 0
        invariant
            i <= os.len(),
            os.len() == n,
            os == outcomes@,
            i + rest@.len() == os.len(),
            rest@ == os.subrange(i as int, os.len() as int),
            first_decisive(os) == first_decisive(rest@),
            race.errors@ == soft_errors(os.subrange(0, i as int)),
        decreases rest@.len(),
    {
        let ghost before = rest@;
        let o = rest.remove(0);
        assert(before.drop_first() =~= rest@);
        match race.record(o) {
            Some(done) => {
                assert(before[0] == o);
                assert(first_decisive(before) == Some(o));
                return done;
            },
            None => {},
        }
        i = i + 1;
        assert(soft_errors(os.subrange(0, i as int)) =~= soft_errors(os.subrange(0, i - 1 as int)).push(
            o->Err_0,
        ));
    }
    assert(os.subrange(0, i as int) =~= os);
    Err(race.finish())
}

/// When every host reports a replayed request, the race fails with all of
/// them together, one entry per host, and not with any one alone.
pub proof fn lemma_all_replayed(os: Seq<Result<(), YubicoError>>, r: Result<(), YubicoError>)
    requires
        race_verdict(os, r),
        forall|i: int| 0 <= i < os.len() ==> #[trigger] os[i] matches Err(YubicoError::ReplayedRequest),
    ensures
        r matches Err(YubicoError::MultipleErrors(es)) && es@.len() == os.len() && forall|i: int|
            0 <= i < os.len() ==> #[trigger] es@[i] matches YubicoError::ReplayedRequest,
{
    lemma_all_soft_undecided(os);
}

proof fn lemma_all_soft_undecided(os: Seq<Result<(), YubicoError>>)
    requires
        forall|i: int| 0 <= i < os.len() ==> is_soft(#[trigger] os[i]),
    ensures
        first_decisive(os) is None,
    decreases os.len(),
{
    if os.len() > 0 {
        assert(is_soft(os[0]));
        let tail = os.drop_first();
        assert forall|i: int| 0 <= i < tail.len() implies is_soft(#[trigger] tail[i]) by {
            assert(tail[i] == os[i + 1]);
        }
        lemma_all_soft_undecided(tail);
    }
}

/// A hard failure from the first host to answer ends the race with that
/// failure, whatever the others answer.
pub proof fn lemma_first_hard_failure_wins(os: Seq<Result<(), YubicoError>>, r: Result<(), YubicoError>)
    requires
        race_verdict(os, r),
        os.len() > 0,
        os[0] is Err,
        !is_soft(os[0]),
    ensures
        r == os[0],
{
}

/// A success ends the race as soon as every host before it failed softly.
pub proof fn lemma_success_after_soft_failures(os: Seq<Result<(), YubicoError>>, j: int, r: Result<(), YubicoError>)
    requires
        race_verdict(os, r),
        0 <= j < os.len(),
        os[j] is Ok,
        forall|i: int| 0 <= i < j ==> is_soft(#[trigger] os[i]),
    ensures
        r is Ok,
{
    lemma_decided_at(os, j);
}

proof fn lemma_decided_at(os: Seq<Result<(), YubicoError>>, j: int)
    requires
        0 <= j < os.len(),
        !is_soft(os[j]),
        forall|i: int| 0 <= i < j ==> is_soft(#[trigger] os[i]),
    ensures
        first_decisive(os) == Some(os[j]),
    decreases j,
{
    if j > 0 {
        assert(is_soft(os[0]));
        let tail = os.drop_first();
        assert forall|i: int| 0 <= i < j - 1 implies is_soft(#[trigger] tail[i]) by {
            assert(tail[i] == os[i + 1]);
        }
        lemma_decided_at(tail, j - 1);
    }
}

} // verus!
