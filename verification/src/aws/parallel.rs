//! Running many queries with a bound on how many are in flight at once,
//! and handing their outcomes back in the order of the queries.
//!
//! The caller starts and awaits the queries. Here it is decided which
//! query may start, and the outcomes are put in order.

use crate::aws::athena::QueryError;
use vstd::prelude::*;

verus! {

/// Number of the first `started` queries that have not finished.
pub open spec fn unfinished_count(finished: Seq<bool>, started: int) -> nat
    decreases started,
{
    if started <= 0 {
        0
    } else {
        unfinished_count(finished, started - 1) + if !finished[started - 1] {
            1nat
        } else {
            0nat
        }
    }
}

/// Marking an unfinished query as finished leaves one less unfinished.
proof fn lemma_finish_one(finished: Seq<bool>, started: int, index: int)
    requires
        0 <= index < started <= finished.len(),
        !finished[index],
    ensures
        unfinished_count(finished.update(index, true), started) + 1 == unfinished_count(
            finished,
            started,
        ),
    decreases started,
{
    if index < started - 1 {
        lemma_finish_one(finished, started - 1, index);
    } else {
        lemma_finish_other(finished, started - 1, index);
    }
}

/// Marking a query as finished does not change the count among the
/// queries before it.
proof fn lemma_finish_other(finished: Seq<bool>, started: int, index: int)
    requires
        0 <= started <= index < finished.len(),
    ensures
        unfinished_count(finished.update(index, true), started) == unfinished_count(
            finished,
            started,
        ),
    decreases started,
{
    if started > 0 {
        lemma_finish_other(finished, started - 1, index);
    }
}

/// What is known of an [`Admission`] in specifications.
pub ghost struct AdmissionView {
    /// How many queries may be in flight at once.
    pub limit: nat,
    /// How many queries were admitted: the queries are admitted in their
    /// order, so these are the first ones.
    pub started: nat,
    /// For every query, whether it has finished.
    pub finished: Seq<bool>,
}

impl AdmissionView {
    /// Number of queries in flight: admitted and not finished.
    pub open spec fn in_flight(self) -> nat {
        unfinished_count(self.finished, self.started as int)
    }

    /// Whether every query was admitted and has finished.
    pub open spec fn all_finished(self) -> bool {
        self.started == self.finished.len() && self.in_flight() == 0
    }
}

/// The admission control of a run of queries: it admits the queries in
/// their order, and never more at once than its limit allows.
#[derive(Debug)]
pub struct Admission {
    limit: usize,
    started: usize,
    in_flight: usize,
    finished: Vec<bool>,
}

impl View for Admission {
    type V = AdmissionView;

    closed spec fn view(&self) -> AdmissionView {
        AdmissionView {
            limit: self.limit as nat,
            started: self.started as nat,
            finished: self.finished@,
        }
    }
}

impl Admission {
    #[verifier::type_invariant]
    spec fn well_formed(self) -> bool {
        &&& self.started <= self.finished@.len()
        &&& self.in_flight == unfinished_count(self.finished@, self.started as int)
        &&& self.in_flight <= self.limit
        &&& forall|i: int| self.started <= i < self.finished@.len() ==> !self.finished@[i]
    }

    /// The admission control of `total` queries of which at most `limit`
    /// may be in flight at once. No query is admitted yet.
    pub fn new(total: usize, limit: usize) -> (admission: Self)
        ensures
            admission@.limit == limit,
            admission@.started == 0,
            admission@.finished == Seq::new(total as nat, |i: int| false),
    {
        let mut finished: Vec<bool> = Vec::new();
        let mut i: usize = 0;
        while i < total
            invariant
                i <= total,
                finished@ =~= Seq::new(i as nat, |j: int| false),
            decreases total - i,
        {
            finished.push(false);
            i = i + 1;
        }
        Admission { limit, started: 0, in_flight: 0, finished }
    }

    /// Number of queries in flight. It never exceeds the limit.
    pub fn in_flight(&self) -> (n: usize)
        ensures
            n == self@.in_flight(),
            n <= self@.limit,
            self@.started <= self@.finished.len(),
    {
        proof {
            use_type_invariant(self);
        }
        self.in_flight
    }

    /// Admits the next query, if there is one and the limit allows it, and
    /// gives its position among the queries.
    pub fn start_next(&mut self) -> (admitted: Option<usize>)
        ensures
            match admitted {
                Some(index) => {
                    &&& old(self)@.started < old(self)@.finished.len()
                    &&& old(self)@.in_flight() < old(self)@.limit
                    &&& index == old(self)@.started
                    &&& final(self)@ == (AdmissionView {
                        started: old(self)@.started + 1,
                        ..old(self)@
                    })
                    &&& final(self)@.in_flight() == old(self)@.in_flight() + 1
                },
                None => {
                    &&& old(self)@.started >= old(self)@.finished.len() || old(self)@.in_flight()
                        >= old(self)@.limit
                    &&& final(self)@ == old(self)@
                },
            },
    {
        proof {
            use_type_invariant(&*self);
        }
        if self.started < self.finished.len() && self.in_flight < self.limit {
            let mut current = Admission { limit: 0, started: 0, in_flight: 0, finished: Vec::new() };
            core::mem::swap(self, &mut current);
            let Admission { limit, started, in_flight, finished } = current;
            *self = Admission { limit, started: started + 1, in_flight: in_flight + 1, finished };
            Some(started)
        } else {
            None
        }
    }

    /// Records that the query at position `index` has finished, which
    /// frees its place. Returns whether the query was in flight; where it
    /// was not, nothing changes.
    pub fn complete(&mut self, index: usize) -> (was_in_flight: bool)
        ensures
            was_in_flight == (index < old(self)@.started && !old(self)@.finished[index as int]),
            was_in_flight ==> final(self)@ == (AdmissionView {
                finished: old(self)@.finished.update(index as int, true),
                ..old(self)@
            }) && final(self)@.in_flight() + 1 == old(self)@.in_flight(),
            !was_in_flight ==> final(self)@ == old(self)@,
    {
        proof {
            use_type_invariant(&*self);
        }
        if index < self.started && !self.finished[index] {
            proof {
                lemma_finish_one(self.finished@, self.started as int, index as int);
            }
            let mut current = Admission { limit: 0, started: 0, in_flight: 0, finished: Vec::new() };
            core::mem::swap(self, &mut current);
            let Admission { limit, started, in_flight, finished } = current;
            let mut finished = finished;
            finished.set(index, true);
            *self = Admission { limit, started, in_flight: in_flight - 1, finished };
            true
        } else {
            false
        }
    }

    /// Whether every query was admitted and has finished.
    pub fn all_finished(&self) -> (done: bool)
        ensures
            done == self@.all_finished(),
    {
        proof {
            use_type_invariant(self);
        }
        self.started == self.finished.len() && self.in_flight == 0
    }
}

/// The first failure among the outcomes, in their order: the error of the
/// first query that failed, or `TaskFailed` for the first query of which
/// there is no outcome, whichever comes first.
pub open spec fn first_failure_of<T>(outcomes: Seq<Option<Result<T, QueryError>>>) -> Option<
    QueryError,
>
    decreases outcomes.len(),
{
    if outcomes.len() == 0 {
        None
    } else {
        match outcomes.first() {
            Some(Ok(_)) => first_failure_of(outcomes.drop_first()),
            Some(Err(e)) => Some(e),
            None => Some(QueryError::TaskFailed),
        }
    }
}

/// Gathers the outcomes of a run, which stand in the order of the queries:
/// where every query gave a value, the values in that order; else the
/// first failure in that order. The queries after a failed one have run
/// nevertheless.
pub fn collect_in_order<T>(outcomes: Vec<Option<Result<T, QueryError>>>) -> (r: Result<
    Vec<T>,
    QueryError,
>)
    ensures
        match r {
            Ok(values) => {
                &&& first_failure_of(outcomes@) is None
                &&& values@.len() == outcomes@.len()
                &&& forall|i: int|
                    0 <= i < values@.len() ==> outcomes@[i] == Some(
                        Ok::<T, QueryError>(#[trigger] values@[i]),
                    )
            },
            Err(e) => first_failure_of(outcomes@) == Some(e),
        },
{
    let mut values: Vec<T> = Vec::new();
    let ghost all = outcomes@;
    assert(all.skip(0) == all);
    for outcome in it: outcomes.into_iter()
        invariant
            it.seq() == all,
            first_failure_of(all) == first_failure_of(all.skip(it.index() as int)),
            values@.len() == it.index(),
            forall|i: int|
                0 <= i < values@.len() ==> all[i] == Some(Ok::<T, QueryError>(#[trigger] values@[i])),
    {
        proof {
            assert(all.skip(it.index() as int).drop_first() == all.skip(it.index() + 1));
        }
        match outcome {
            Some(Ok(value)) => {
                values.push(value);
            },
            Some(Err(e)) => {
                return Err(e);
            },
            None => {
                return Err(QueryError::TaskFailed);
            },
        }
    }
    Ok(values)
}

/// The outcome of one query of a run: what its task gave, or `TaskFailed`
/// where the task ended without an outcome.
pub open spec fn outcome_of<T>(slot: Option<Result<T, QueryError>>) -> Result<T, QueryError> {
    match slot {
        Some(outcome) => outcome,
        None => Err(QueryError::TaskFailed),
    }
}

/// Hands out the outcomes of a run one by one, in the order of the
/// queries, so that a failed query does not hide the others.
pub fn outcomes_in_order<T>(slots: Vec<Option<Result<T, QueryError>>>) -> (outcomes: Vec<
    Result<T, QueryError>,
>)
    ensures
        outcomes@.len() == slots@.len(),
        forall|i: int| 0 <= i < outcomes@.len() ==> #[trigger] outcomes@[i] == outcome_of(slots@[i]),
{
    let mut outcomes: Vec<Result<T, QueryError>> = Vec::new();
    let ghost all = slots@;
    for slot in it: slots.into_iter()
        invariant
            it.seq() == all,
            outcomes@.len() == it.index(),
            forall|i: int| 0 <= i < outcomes@.len() ==> #[trigger] outcomes@[i] == outcome_of(all[i]),
    {
        let outcome = match slot {
            Some(outcome) => outcome,
            None => Err(QueryError::TaskFailed),
        };
        outcomes.push(outcome);
    }
    outcomes
}

/// What is known of a [`BoundedRun`] in specifications.
pub ghost struct BoundedRunView<I, T> {
    /// Which queries were started and which have finished.
    pub admission: AdmissionView,
    /// What the run was made with: the input of every query, in the order
    /// of the queries.
    pub inputs: Seq<I>,
    /// For every query, the outcome that was recorded for it, if any.
    pub slots: Seq<Option<Result<T, QueryError>>>,
}

/// A run of queries of which only so many are in flight at once. It hands
/// out the queries in their order, each with its position, takes the
/// outcome of each under that position, and gives the outcomes back in the
/// order of the queries, whatever the order in which they came.
pub struct BoundedRun<I, T> {
    admission: Admission,
    /// The inputs of the queries that are not started yet, the next one
    /// last.
    waiting: Vec<I>,
    slots: Vec<Option<Result<T, QueryError>>>,
    inputs: Ghost<Seq<I>>,
}

impl<I, T> View for BoundedRun<I, T> {
    type V = BoundedRunView<I, T>;

    closed spec fn view(&self) -> BoundedRunView<I, T> {
        BoundedRunView { admission: self.admission@, inputs: self.inputs@, slots: self.slots@ }
    }
}

impl<I, T> BoundedRunView<I, T> {
    /// Whether the view is one that a run can have: there is a place for
    /// the outcome of every query, and an outcome is recorded exactly for
    /// the queries that have finished.
    pub open spec fn well_formed(self) -> bool {
        &&& self.slots.len() == self.inputs.len()
        &&& self.admission.finished.len() == self.inputs.len()
        &&& self.admission.started <= self.inputs.len()
        &&& self.admission.in_flight() <= self.admission.limit
        &&& forall|i: int|
            0 <= i < self.slots.len() ==> ((#[trigger] self.slots[i]) is Some
                <==> self.admission.finished[i])
    }
}

impl<I, T> BoundedRun<I, T> {
    #[verifier::type_invariant]
    spec fn holds(self) -> bool {
        &&& self@.well_formed()
        &&& self.waiting@.len() + self.admission@.started == self.inputs@.len()
        &&& forall|k: int|
            0 <= k < self.waiting@.len() ==> #[trigger] self.waiting@[k] == self.inputs@[
                self.inputs@.len() - 1 - k
            ]
    }

    /// The run of one query for every input, of which at most `limit` may
    /// be in flight at once. No query is started yet and no outcome
    /// recorded.
    pub fn new(inputs: Vec<I>, limit: usize) -> (run: Self)
        ensures
            run@.inputs == inputs@,
            run@.admission.limit == limit,
            run@.admission.started == 0,
            run@.admission.finished == Seq::new(inputs@.len(), |i: int| false),
            run@.slots == Seq::new(inputs@.len(), |i: int| None::<Result<T, QueryError>>),
            run@.well_formed(),
    {
        let ghost all = inputs@;
        let total = inputs.len();
        let mut rest = inputs;
        let mut waiting: Vec<I> = Vec::new();
        let mut slots: Vec<Option<Result<T, QueryError>>> = Vec::new();
        while rest.len() > 0
            invariant
                rest@ == all.take(rest@.len() as int),
                rest@.len() <= all.len(),
                waiting@.len() + rest@.len() == all.len(),
                slots@ =~= Seq::new(waiting@.len(), |i: int| None::<Result<T, QueryError>>),
                forall|k: int|
                    0 <= k < waiting@.len() ==> #[trigger] waiting@[k] == all[all.len() - 1 - k],
            decreases rest@.len(),
        {
            match rest.pop() {
                Some(input) => {
                    assert(rest@ =~= all.take(rest@.len() as int));
                    waiting.push(input);
                    slots.push(None);
                },
                None => {},
            }
        }
        let admission = Admission::new(total, limit);
        assert(unfinished_count(admission@.finished, 0) == 0);
        BoundedRun { admission, waiting, slots, inputs: Ghost(all) }
    }

    /// Number of queries in flight. It never exceeds the limit.
    pub fn in_flight(&self) -> (n: usize)
        ensures
            n == self@.admission.in_flight(),
            n <= self@.admission.limit,
            self@.well_formed(),
    {
        proof {
            use_type_invariant(self);
        }
        self.admission.in_flight()
    }

    /// Starts the next query, if there is one and the limit allows it, and
    /// hands out its position among the queries together with its input.
    pub fn start_next(&mut self) -> (started: Option<(usize, I)>)
        ensures
            final(self)@.well_formed(),
            match started {
                Some((index, input)) => {
                    &&& old(self)@.admission.started < old(self)@.inputs.len()
                    &&& old(self)@.admission.in_flight() < old(self)@.admission.limit
                    &&& index == old(self)@.admission.started
                    &&& input == old(self)@.inputs[index as int]
                    &&& final(self)@ == (BoundedRunView {
                        admission: AdmissionView {
                            started: old(self)@.admission.started + 1,
                            ..old(self)@.admission
                        },
                        ..old(self)@
                    })
                },
                None => {
                    &&& old(self)@.admission.started >= old(self)@.inputs.len()
                        || old(self)@.admission.in_flight() >= old(self)@.admission.limit
                    &&& final(self)@ == old(self)@
                },
            },
    {
        proof {
            use_type_invariant(&*self);
        }
        let mut current = BoundedRun {
            admission: Admission::new(0, 0),
            waiting: Vec::new(),
            slots: Vec::new(),
            inputs: Ghost(Seq::empty()),
        };
        core::mem::swap(self, &mut current);
        let BoundedRun { admission, waiting, slots, inputs } = current;
        let mut admission = admission;
        let mut waiting = waiting;
        let taken = match admission.start_next() {
            Some(index) => match waiting.pop() {
                Some(input) => Some((index, input)),
                None => None,
            },
            None => None,
        };
        *self = BoundedRun { admission, waiting, slots, inputs };
        taken
    }

    /// Records the outcome of the query at position `index`, which frees
    /// its place. Returns whether the query was in flight; where it was
    /// not, be it that it was never started or that its outcome is there
    /// already, nothing changes.
    pub fn record(&mut self, index: usize, outcome: Result<T, QueryError>) -> (was_in_flight: bool)
        ensures
            final(self)@.well_formed(),
            was_in_flight == (index < old(self)@.admission.started
                && !old(self)@.admission.finished[index as int]),
            was_in_flight ==> final(self)@ == (BoundedRunView {
                admission: AdmissionView {
                    finished: old(self)@.admission.finished.update(index as int, true),
                    ..old(self)@.admission
                },
                slots: old(self)@.slots.update(index as int, Some(outcome)),
                ..old(self)@
            }),
            !was_in_flight ==> final(self)@ == old(self)@,
    {
        proof {
            use_type_invariant(&*self);
        }
        let mut current = BoundedRun {
            admission: Admission::new(0, 0),
            waiting: Vec::new(),
            slots: Vec::new(),
            inputs: Ghost(Seq::empty()),
        };
        core::mem::swap(self, &mut current);
        let BoundedRun { admission, waiting, slots, inputs } = current;
        let mut admission = admission;
        let mut slots = slots;
        let was_in_flight = admission.complete(index);
        if was_in_flight {
            slots.set(index, Some(outcome));
        }
        *self = BoundedRun { admission, waiting, slots, inputs };
        was_in_flight
    }

    /// Whether every query was started and has finished. The outcome of
    /// every query is recorded then.
    pub fn all_finished(&self) -> (done: bool)
        ensures
            done == self@.admission.all_finished(),
            done ==> forall|i: int| 0 <= i < self@.slots.len() ==> (#[trigger] self@.slots[i]) is Some,
    {
        proof {
            use_type_invariant(self);
        }
        let done = self.admission.all_finished();
        proof {
            if done {
                lemma_none_unfinished(self.admission@.finished, self.admission@.started as int);
            }
        }
        done
    }

    /// Ends the run and gives what became of every query, in the order of
    /// the queries: the outcome at a position is the one that was recorded
    /// under that position, or `TaskFailed` where none was.
    pub fn into_outcomes(self) -> (outcomes: Vec<Result<T, QueryError>>)
        ensures
            outcomes@.len() == self@.inputs.len(),
            forall|i: int|
                0 <= i < outcomes@.len() ==> #[trigger] outcomes@[i] == outcome_of(self@.slots[i]),
    {
        proof {
            use_type_invariant(&self);
        }
        let BoundedRun { slots, .. } = self;
        outcomes_in_order(slots)
    }

    /// Ends the run and gives the values of the queries in the order of
    /// the queries, or the first failure in that order.
    pub fn into_values(self) -> (r: Result<Vec<T>, QueryError>)
        ensures
            match r {
                Ok(values) => {
                    &&& first_failure_of(self@.slots) is None
                    &&& values@.len() == self@.inputs.len()
                    &&& forall|i: int|
                        0 <= i < values@.len() ==> self@.slots[i] == Some(
                            Ok::<T, QueryError>(#[trigger] values@[i]),
                        )
                },
                Err(e) => first_failure_of(self@.slots) == Some(e),
            },
    {
        proof {
            use_type_invariant(&self);
        }
        let BoundedRun { slots, .. } = self;
        collect_in_order(slots)
    }
}

/// Where none of the first `started` queries is unfinished, each of them
/// has finished.
proof fn lemma_none_unfinished(finished: Seq<bool>, started: int)
    requires
        0 <= started <= finished.len(),
        unfinished_count(finished, started) == 0,
    ensures
        forall|i: int| 0 <= i < started ==> finished[i],
    decreases started,
{
    if started > 0 {
        lemma_none_unfinished(finished, started - 1);
    }
}

} // verus!
