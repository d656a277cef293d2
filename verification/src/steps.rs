//! Steps that are taken one after the other, as long as none fails.

use vstd::prelude::*;

verus! {

/// Steps yet to be taken, in order. The next one is given out only for the
/// outcome of the one before it.
#[derive(Debug)]
pub struct Steps<S> {
    rest: Vec<S>,
}

impl<S> View for Steps<S> {
    type V = Seq<S>;

    closed spec fn view(&self) -> Seq<S> {
        self.rest@
    }
}

/// What follows `outcome` where `rest` is yet to be taken: what is left then,
/// and the error, or the next step, or the end. After an error nothing is left.
pub open spec fn step_after<S, E>(rest: Seq<S>, outcome: Result<(), E>) -> (
    Seq<S>,
    Result<Option<S>, E>,
) {
    match outcome {
        Err(error) => (Seq::empty(), Err(error)),
        Ok(_) => if rest.len() == 0 {
            (rest, Ok(None))
        } else {
            (rest.skip(1), Ok(Some(rest[0])))
        },
    }
}

impl<S> Steps<S> {
    /// All of `steps`, none of them taken.
    pub fn new(steps: Vec<S>) -> (result: Steps<S>)
        ensures
            result@ == steps@,
    {
        Steps { rest: steps }
    }

    /// Takes the outcome of the last step, which is a success before the first,
    /// and gives the next. An error comes back as it is, and ends the steps.
    pub fn after<E>(&mut self, outcome: Result<(), E>) -> (next: Result<Option<S>, E>)
        ensures
            final(self)@ == step_after(old(self)@, outcome).0,
            next == step_after(old(self)@, outcome).1,
    {
        match outcome {
            Err(error) => {
                self.rest.clear();
                Err(error)
            },
            Ok(_) => {
                if self.rest.len() == 0 {
                    Ok(None)
                } else {
                    let step: S = self.rest.remove(0);
                    assert(self.rest@ =~= old(self).rest@.skip(1));
                    Ok(Some(step))
                }
            },
        }
    }
}

/// Taking steps to the end: those that are taken, and what comes of all of them.
/// `outcome` is that of the step before, and `later` holds those of the steps to
/// come.
pub open spec fn taken_after<S, E>(
    rest: Seq<S>,
    outcome: Result<(), E>,
    later: Seq<Result<(), E>>,
) -> (Seq<S>, Result<(), E>)
    decreases rest.len(),
{
    let (left, next) = step_after(rest, outcome);
    match next {
        Err(error) => (Seq::empty(), Err(error)),
        Ok(None) => (Seq::empty(), Ok(())),
        Ok(Some(step)) => if left.len() < rest.len() {
            let (taken, result) = taken_after(left, later[0], later.skip(1));
            (seq![step] + taken, result)
        } else {
            (Seq::empty(), Ok(()))
        },
    }
}

/// Taking `steps` from the first on, where the step at each position comes to
/// the outcome at that position.
pub open spec fn taken<S, E>(steps: Seq<S>, outcomes: Seq<Result<(), E>>) -> (
    Seq<S>,
    Result<(), E>,
) {
    taken_after(steps, Ok::<(), E>(()), outcomes)
}

/// The outcome at `at` is a failure, and those before it are not.
pub open spec fn first_failure<E>(outcomes: Seq<Result<(), E>>, at: int) -> bool {
    &&& 0 <= at < outcomes.len()
    &&& outcomes[at] is Err
    &&& forall|i: int| 0 <= i < at ==> (#[trigger] outcomes[i]) is Ok
}

/// Taking `steps` succeeds exactly if each of them does, and then all are taken.
/// Otherwise the first that fails is the last that is taken, and its error is the
/// result.
pub open spec fn end_at_first_failure<S, E>(steps: Seq<S>, outcomes: Seq<Result<(), E>>) -> bool {
    let (done, result) = taken(steps, outcomes);
    &&& result is Ok <==> forall|i: int| 0 <= i < steps.len() ==> (#[trigger] outcomes[i]) is Ok
    &&& result is Ok ==> done == steps
    &&& forall|at: int| #[trigger]
        first_failure(outcomes, at) && at < steps.len() ==> done == steps.take(at + 1) && result
            == outcomes[at]
}

/// Steps of any kind end at the first failure.
pub proof fn law_steps_end_at_first_failure<S, E>(steps: Seq<S>, outcomes: Seq<Result<(), E>>)
    requires
        steps.len() <= outcomes.len(),
    ensures
        end_at_first_failure(steps, outcomes),
{
    if forall|i: int| 0 <= i < steps.len() ==> (#[trigger] outcomes[i]) is Ok {
        lemma_all_taken_without_failure(steps, outcomes);
    } else {
        let some = choose|i: int| 0 <= i < steps.len() && !((#[trigger] outcomes[i]) is Ok);
        let first = lemma_there_is_a_first_failure(outcomes, some);
        lemma_first_failure_ends(steps, outcomes, first);
    }
    assert forall|at: int| #[trigger] first_failure(outcomes, at) && at < steps.len() implies taken(
        steps,
        outcomes,
    ) == (steps.take(at + 1), outcomes[at]) by {
        lemma_first_failure_ends(steps, outcomes, at);
    }
}

proof fn lemma_first_failure_ends<S, E>(
    steps: Seq<S>,
    outcomes: Seq<Result<(), E>>,
    at: int,
)
    requires
        at < steps.len() <= outcomes.len(),
        first_failure(outcomes, at),
    ensures
        taken(steps, outcomes) == (steps.take(at + 1), outcomes[at]),
    decreases steps.len(),
{
    let rest = steps.skip(1);
    let later = outcomes.skip(1);
    if at == 0 {
        assert(taken_after(rest, outcomes[0], later) == (Seq::<S>::empty(), outcomes[0]));
        assert(seq![steps[0]] + Seq::<S>::empty() =~= steps.take(1));
    } else {
        assert(outcomes[0] is Ok);
        assert(taken_after(rest, outcomes[0], later) == taken(rest, later));
        assert forall|i: int| 0 <= i < at - 1 implies (#[trigger] later[i]) is Ok by {
            assert(later[i] == outcomes[i + 1]);
        }
        lemma_first_failure_ends(rest, later, at - 1);
        assert(seq![steps[0]] + rest.take(at) =~= steps.take(at + 1));
    }
}

proof fn lemma_all_taken_without_failure<S, E>(steps: Seq<S>, outcomes: Seq<Result<(), E>>)
    requires
        steps.len() <= outcomes.len(),
        forall|i: int| 0 <= i < steps.len() ==> (#[trigger] outcomes[i]) is Ok,
    ensures
        taken(steps, outcomes) == (steps, Ok::<(), E>(())),
    decreases steps.len(),
{
    if steps.len() == 0 {
        assert(steps =~= Seq::<S>::empty());
    } else {
        let rest = steps.skip(1);
        let later = outcomes.skip(1);
        assert(outcomes[0] is Ok);
        assert(taken_after(rest, outcomes[0], later) == taken(rest, later));
        assert forall|i: int| 0 <= i < rest.len() implies (#[trigger] later[i]) is Ok by {
            assert(later[i] == outcomes[i + 1]);
        }
        lemma_all_taken_without_failure(rest, later);
        assert(seq![steps[0]] + rest =~= steps);
    }
}

/// Where some outcome is a failure, there is a first one.
proof fn lemma_there_is_a_first_failure<E>(outcomes: Seq<Result<(), E>>, at: int) -> (first: int)
    requires
        0 <= at < outcomes.len(),
        outcomes[at] is Err,
    ensures
        first <= at,
        first_failure(outcomes, first),
    decreases at,
{
    if exists|i: int| 0 <= i < at && (#[trigger] outcomes[i]) is Err {
        let earlier = choose|i: int| 0 <= i < at && (#[trigger] outcomes[i]) is Err;
        lemma_there_is_a_first_failure(outcomes, earlier)
    } else {
        at
    }
}

/// A failure comes back as it is and leaves nothing to be taken. A success gives
/// the next step and keeps those behind it, or ends where there is none.
pub proof fn law_steps_are_given_out_in_order<S, E>(rest: Seq<S>, outcome: Result<(), E>)
    ensures
        ({
            let (left, next) = step_after(rest, outcome);
            &&& outcome matches Err(error) ==> next == Err::<Option<S>, E>(error) && left.len() == 0
            &&& outcome is Ok ==> (match next {
                Ok(Some(step)) => seq![step] + left == rest,
                Ok(None) => rest.len() == 0 && left.len() == 0,
                Err(_) => false,
            })
        }),
{
    if outcome is Ok && rest.len() > 0 {
        assert(seq![rest[0]] + rest.skip(1) =~= rest);
    }
}

} // verus!
