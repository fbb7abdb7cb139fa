//! The run lifecycle: Building ends when the application is built; Running
//! drives every scheduled task concurrently; Terminated is reached when all
//! tasks complete, when a shutdown signal arrives, or when a task fails.
//!
//! The chosen failure policy is cancel-on-first-failure: the first reported
//! task failure becomes the terminal result at once — however many siblings
//! are still running — and the step tells the driver to stop them. A shutdown
//! signal likewise terminates, gracefully, with a stop for every task.

use vstd::prelude::*;

use crate::errors::BootError;
use crate::errors::ErrView;

verus! {

/// How a run ended.
#[derive(PartialEq, Eq, Debug)]
pub enum RunOutcome {
    /// Every scheduled task completed.
    AllCompleted,
    /// A task failed; its failure is the terminal result of the whole run.
    Failed { task: u64, detail: String },
    /// An external shutdown signal ended the run.
    ShutDown,
}

/// The mathematical value of a [`RunOutcome`].
pub enum OutcomeView {
    AllCompleted,
    Failed { task: u64, detail: Seq<char> },
    ShutDown,
}

impl View for RunOutcome {
    type V = OutcomeView;

    open spec fn view(&self) -> OutcomeView {
        match self {
            RunOutcome::AllCompleted => OutcomeView::AllCompleted,
            RunOutcome::Failed { task, detail } => OutcomeView::Failed {
                task: *task,
                detail: detail@,
            },
            RunOutcome::ShutDown => OutcomeView::ShutDown,
        }
    }
}

/// The state of a run: the tasks still pending, or the terminal outcome.
#[derive(PartialEq, Eq, Debug)]
pub enum RunState {
    Running { pending: Vec<u64> },
    Terminated { outcome: RunOutcome },
}

/// The mathematical value of a [`RunState`].
pub enum StateView {
    Running { pending: Seq<u64> },
    Terminated { outcome: OutcomeView },
}

impl View for RunState {
    type V = StateView;

    open spec fn view(&self) -> StateView {
        match self {
            RunState::Running { pending } => StateView::Running { pending: pending@ },
            RunState::Terminated { outcome } => StateView::Terminated { outcome: outcome@ },
        }
    }
}

/// One event the driver reports to the state machine.
#[derive(PartialEq, Eq, Debug)]
pub enum TaskEvent {
    TaskCompleted { task: u64 },
    TaskFailed { task: u64, detail: String },
    Shutdown,
}

/// The mathematical value of a [`TaskEvent`].
pub enum EventView {
    TaskCompleted { task: u64 },
    TaskFailed { task: u64, detail: Seq<char> },
    Shutdown,
}

impl View for TaskEvent {
    type V = EventView;

    open spec fn view(&self) -> EventView {
        match self {
            TaskEvent::TaskCompleted { task } => EventView::TaskCompleted { task: *task },
            TaskEvent::TaskFailed { task, detail } => EventView::TaskFailed {
                task: *task,
                detail: detail@,
            },
            TaskEvent::Shutdown => EventView::Shutdown,
        }
    }
}

/// What the driver must do after a step.
#[derive(Clone, Copy, PartialEq, Eq, Structural, Debug)]
pub enum StepAction {
    /// Keep waiting for the remaining tasks.
    KeepWaiting,
    /// Give every still-running task its chance to end gracefully.
    StopSiblings,
}

/// `s` with the first occurrence of `t` removed, if any.
pub open spec fn spec_remove_first(s: Seq<u64>, t: u64) -> Seq<u64>
    decreases s.len(),
{
    if s.len() == 0 {
        s
    } else if s.first() == t {
        s.drop_first()
    } else {
        seq![s.first()] + spec_remove_first(s.drop_first(), t)
    }
}

/// One step of the lifecycle. A completion shrinks the pending set and
/// terminates with `AllCompleted` when it empties; the first failure is
/// terminal at once, whatever is still pending; a shutdown signal is terminal
/// and graceful. A terminated run absorbs every further event.
pub open spec fn spec_step(s: StateView, e: EventView) -> (StateView, StepAction) {
    match s {
        StateView::Terminated { .. } => (s, StepAction::KeepWaiting),
        StateView::Running { pending } => match e {
            EventView::TaskCompleted { task } => {
                let left = spec_remove_first(pending, task);
                if left.len() == 0 {
                    (
                        StateView::Terminated { outcome: OutcomeView::AllCompleted },
                        StepAction::KeepWaiting,
                    )
                } else {
                    (StateView::Running { pending: left }, StepAction::KeepWaiting)
                }
            },
            EventView::TaskFailed { task, detail } => (
                StateView::Terminated { outcome: OutcomeView::Failed { task, detail } },
                StepAction::StopSiblings,
            ),
            EventView::Shutdown => (
                StateView::Terminated { outcome: OutcomeView::ShutDown },
                StepAction::StopSiblings,
            ),
        },
    }
}

/// Removes the first occurrence of `t` from `pending`.
pub fn remove_first(pending: &Vec<u64>, t: u64) -> (r: Vec<u64>)
    ensures
        r@ == spec_remove_first(pending@, t),
{
    let mut i: usize = 0;
    while i < pending.len()
        invariant
            i <= pending.len(),
            forall|j: int| 0 <= j < i ==> pending@[j] != t,
        decreases pending.len() - i,
    {
        if pending[i] == t {
            let mut out: Vec<u64> = Vec::new();
            let mut j: usize = 0;
            while j < pending.len()
                invariant
                    i < pending.len(),
                    j <= pending.len(),
                    pending@[i as int] == t,
                    forall|y: int| 0 <= y < i ==> pending@[y] != t,
                    out@ =~= if j <= i {
                        pending@.subrange(0, j as int)
                    } else {
                        pending@.subrange(0, i as int) + pending@.subrange(i + 1, j as int)
                    },
                decreases pending.len() - j,
            {
                if j != i {
                    out.push(pending[j]);
                }
                proof {
                    if j + 1 <= i {
                        assert(out@ =~= pending@.subrange(0, j + 1));
                    } else if j == i {
                        assert(out@ =~= pending@.subrange(0, i as int) + pending@.subrange(
                            i + 1,
                            j + 1,
                        ));
                    } else {
                        assert(out@ =~= pending@.subrange(0, i as int) + pending@.subrange(
                            i + 1,
                            j + 1,
                        ));
                    }
                }
                j += 1;
            }
            proof {
                lemma_remove_first_split(pending@, t, i as int);
                assert(out@ =~= pending@.subrange(0, i as int) + pending@.subrange(
                    i + 1,
                    pending@.len() as int,
                ));
            }
            return out;
        }
        i += 1;
    }
    let mut out: Vec<u64> = Vec::new();
    let mut j: usize = 0;
    while j < pending.len()
        invariant
            j <= pending.len(),
            out@ =~= pending@.subrange(0, j as int),
        decreases pending.len() - j,
    {
        out.push(pending[j]);
        proof {
            assert(out@ =~= pending@.subrange(0, j + 1));
        }
        j += 1;
    }
    proof {
        assert(out@ =~= pending@);
        lemma_remove_first_absent(pending@, t);
    }
    out
}

/// When `t` does not occur, removing it changes nothing.
proof fn lemma_remove_first_absent(s: Seq<u64>, t: u64)
    requires
        forall|j: int| 0 <= j < s.len() ==> s[j] != t,
    ensures
        spec_remove_first(s, t) == s,
    decreases s.len(),
{
    if s.len() > 0 {
        lemma_remove_first_absent(s.drop_first(), t);
        assert(seq![s.first()] + s.drop_first() =~= s);
    }
}

/// When `t` first occurs at `i`, removing it splices out that position.
proof fn lemma_remove_first_split(s: Seq<u64>, t: u64, i: int)
    requires
        0 <= i < s.len(),
        s[i] == t,
        forall|j: int| 0 <= j < i ==> s[j] != t,
    ensures
        spec_remove_first(s, t) == s.subrange(0, i) + s.subrange(i + 1, s.len() as int),
    decreases i,
{
    if i == 0 {
        assert(s.first() == t);
        assert(s.drop_first() =~= s.subrange(0, 0) + s.subrange(1, s.len() as int));
    } else {
        assert(s.first() != t);
        lemma_remove_first_split(s.drop_first(), t, i - 1);
        assert(s.drop_first().subrange(0, i - 1) =~= s.subrange(1, i));
        assert(s.drop_first().subrange(i, s.len() - 1) =~= s.subrange(i + 1, s.len() as int));
        assert(seq![s.first()] + (s.subrange(1, i) + s.subrange(i + 1, s.len() as int))
            =~= s.subrange(0, i) + s.subrange(i + 1, s.len() as int));
    }
}

/// Performs one lifecycle step on an owned state.
pub fn lifecycle_step(state: RunState, event: TaskEvent) -> (r: (RunState, StepAction))
    ensures
        (r.0@, r.1) == spec_step(state@, event@),
{
    match state {
        RunState::Terminated { outcome } => (RunState::Terminated { outcome }, StepAction::KeepWaiting),
        RunState::Running { pending } => match event {
            TaskEvent::TaskCompleted { task } => {
                let left = remove_first(&pending, task);
                if left.len() == 0 {
                    (
                        RunState::Terminated { outcome: RunOutcome::AllCompleted },
                        StepAction::KeepWaiting,
                    )
                } else {
                    (RunState::Running { pending: left }, StepAction::KeepWaiting)
                }
            },
            TaskEvent::TaskFailed { task, detail } => (
                RunState::Terminated { outcome: RunOutcome::Failed { task, detail } },
                StepAction::StopSiblings,
            ),
            TaskEvent::Shutdown => (
                RunState::Terminated { outcome: RunOutcome::ShutDown },
                StepAction::StopSiblings,
            ),
        },
    }
}

/// The mathematical values of an event list, in order.
pub open spec fn events_deep(s: Seq<TaskEvent>) -> Seq<EventView> {
    s.map(|i: int, e: TaskEvent| e@)
}

/// The state a run reaches after the events from `i` on, in order.
pub open spec fn spec_drive(s: StateView, events: Seq<EventView>, i: int) -> StateView
    decreases events.len() - i,
{
    if i < 0 || i >= events.len() {
        s
    } else {
        spec_drive(spec_step(s, events[i]).0, events, i + 1)
    }
}

/// An exact copy of an event.
pub fn clone_event(e: &TaskEvent) -> (r: TaskEvent)
    ensures
        r@ == e@,
{
    match e {
        TaskEvent::TaskCompleted { task } => TaskEvent::TaskCompleted { task: *task },
        TaskEvent::TaskFailed { task, detail } => TaskEvent::TaskFailed {
            task: *task,
            detail: detail.clone(),
        },
        TaskEvent::Shutdown => TaskEvent::Shutdown,
    }
}

/// Replays a run: steps the state machine over the reported events, in order.
/// Once the run terminates, every later event is absorbed.
pub fn drive(state: RunState, events: &Vec<TaskEvent>) -> (r: RunState)
    ensures
        r@ == spec_drive(state@, events_deep(events@), 0),
{
    let ghost ev = events_deep(events@);
    let ghost s0 = state@;
    let mut state = state;
    let mut i: usize = 0;
    while i < events.len()
        invariant
            i <= events.len(),
            ev == events_deep(events@),
            ev.len() == events.len(),
            spec_drive(s0, ev, 0) == spec_drive(state@, ev, i as int),
        decreases events.len() - i,
    {
        proof {
            assert(ev[i as int] == events@[i as int]@);
        }
        let event = clone_event(&events[i]);
        let (next, _action) = lifecycle_step(state, event);
        state = next;
        i += 1;
    }
    state
}

/// The textual completion of a run, or its terminal error: a completed or
/// shut-down run reports a message; a failed task becomes `TaskFailure`.
pub fn run_report(outcome: RunOutcome) -> (r: Result<String, BootError>)
    ensures
        match outcome@ {
            OutcomeView::AllCompleted => r is Ok && r->Ok_0@ == "all scheduled tasks completed"@,
            OutcomeView::ShutDown => r is Ok && r->Ok_0@ == "shut down after signal"@,
            OutcomeView::Failed { task, detail } => r is Err && r->Err_0@ == (ErrView::TaskFailure {
                task,
                detail,
            }),
        },
{
    match outcome {
        RunOutcome::AllCompleted => Ok("all scheduled tasks completed".to_owned()),
        RunOutcome::ShutDown => Ok("shut down after signal".to_owned()),
        RunOutcome::Failed { task, detail } => Err(BootError::TaskFailure { task, detail }),
    }
}

/// A failure is reported at once: from any running state, a task's failure is
/// the terminal result of the whole run in one step, with a stop for every
/// sibling — however many tasks are still pending, even ones that would run
/// forever.
pub proof fn lemma_failure_reported_immediately(pending: Seq<u64>, task: u64, detail: Seq<char>)
    ensures
        spec_step(
            StateView::Running { pending },
            EventView::TaskFailed { task, detail },
        ) == (
            StateView::Terminated { outcome: OutcomeView::Failed { task, detail } },
            StepAction::StopSiblings,
        ),
{
}

} // verus!
