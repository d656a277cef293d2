//! Signals: when the server is asked to stop, and what an interrupt does.

use vstd::prelude::*;

verus! {

/// How often the interrupt flag is looked at.
pub const INTERRUPT_POLL_MS: u64 = 100;

/// What the wait for a shutdown request can see.
#[derive(Clone, Copy, Debug, PartialEq, Eq, Structural)]
pub enum StopSignal {
    /// Ctrl-C at the terminal.
    CtrlC,
    /// The platform's request to terminate.
    Terminate,
    /// A look at the interrupt flag.
    Poll { interrupted: bool },
}

/// Whether a signal is a request to shut down. A look at an unset interrupt
/// flag is none: the wait goes on.
pub fn requests_shutdown(signal: StopSignal) -> (requested: bool)
    ensures
        requested == (signal != StopSignal::Poll { interrupted: false }),
{
    match signal {
        StopSignal::CtrlC | StopSignal::Terminate => true,
        StopSignal::Poll { interrupted } => interrupted,
    }
}

/// What the handler of an interrupt sees, `J` being what names a job.
#[derive(Debug)]
pub enum InterruptEvent<'a, J> {
    /// The interrupt came.
    Raised,
    /// These jobs of the engine are active.
    Jobs(&'a Vec<J>),
}

/// What the handler of an interrupt does.
#[derive(Debug)]
pub enum InterruptAction<J> {
    /// Set the interrupt flag.
    SetFlag,
    /// Find out which jobs of the engine are active. Where that cannot be found
    /// out, the interrupt is dealt with.
    ListJobs,
    /// Kill a job of the engine and forget it.
    Kill(J),
}

/// The steps on an event: the flag is set before the jobs are looked at, and
/// every one of them is killed, in order.
pub open spec fn interrupt_steps<J>(event: InterruptEvent<J>) -> Seq<InterruptAction<J>> {
    match event {
        InterruptEvent::Raised => seq![InterruptAction::SetFlag, InterruptAction::ListJobs],
        InterruptEvent::Jobs(jobs) => kills(jobs@),
    }
}

/// The steps that kill `jobs`, in order.
pub open spec fn kills<J>(jobs: Seq<J>) -> Seq<InterruptAction<J>> {
    jobs.map_values(|job: J| InterruptAction::Kill(job))
}

/// What to do when an interrupt comes, and then when its jobs are known.
pub fn on_interrupt<J: Copy>(event: InterruptEvent<J>) -> (actions: Vec<InterruptAction<J>>)
    ensures
        actions@ == interrupt_steps(event),
{
    let mut actions: Vec<InterruptAction<J>> = Vec::new();
    match event {
        InterruptEvent::Raised => {
            actions.push(InterruptAction::SetFlag);
            actions.push(InterruptAction::ListJobs);
        },
        InterruptEvent::Jobs(jobs) => {
            let mut i: usize = 0;
            while i < jobs.len()
                invariant
                    i <= jobs@.len(),
                    actions@ =~= kills(jobs@.take(i as int)),
                decreases jobs@.len() - i,
            {
                actions.push(InterruptAction::Kill(jobs[i]));
                i += 1;
            }
            assert(jobs@.take(i as int) =~= jobs@);
        },
    }
    assert(actions@ =~= interrupt_steps(event));
    actions
}

/// An interrupt sets the flag before it looks at the jobs, and kills none of them
/// then. Once they are known, each is killed, in order and once, and nothing else
/// is done.
pub proof fn law_interrupt_stops_every_job<J>(jobs: &Vec<J>)
    ensures
        ({
            let raised = interrupt_steps::<J>(InterruptEvent::Raised);
            let known = interrupt_steps(InterruptEvent::Jobs(jobs));
            &&& raised.len() == 2 && raised[0] is SetFlag && raised[1] is ListJobs
            &&& known.len() == jobs@.len()
            &&& forall|i: int|
                0 <= i < jobs@.len() ==> #[trigger] known[i] == InterruptAction::Kill(jobs@[i])
        }),
{
}

} // verus!
