//! The connection backends of macOS, and how work is run beside the main run loop there.

use crate::connection::ConnectionError;
use crate::rfcomm::IOBluetoothRfcommBackend;
use vstd::prelude::*;

verus! {

/// The connection backends that the platform has.
#[derive(Debug, Clone, Copy)]
pub struct PlatformConnectionBackends;

impl Default for PlatformConnectionBackends {
    fn default() -> (backends: PlatformConnectionBackends)
        ensures
            backends == PlatformConnectionBackends,
    {
        PlatformConnectionBackends
    }
}

impl PlatformConnectionBackends {
    /// The RFCOMM backend, which is always there.
    pub fn rfcomm(&self) -> (backend: Result<IOBluetoothRfcommBackend, ConnectionError>)
        ensures
            backend == Ok::<IOBluetoothRfcommBackend, ConnectionError>(IOBluetoothRfcommBackend),
    {
        Ok(IOBluetoothRfcommBackend)
    }
}

/// What happens while some work runs on a thread of its own beside the main run loop. The work
/// gives a `T`, or panics with a `P`.
pub enum RunLoopEvent<T, P> {
    /// The main thread was asked to run the work.
    Called,
    /// The thread of the work was spawned.
    WorkerSpawned,
    /// The work returned or panicked, and all that it held has been dropped.
    WorkEnded,
    /// The main run loop was stopped.
    MainRunLoopEnded,
    /// The thread of the work was joined, with this outcome.
    WorkerJoined(Result<T, P>),
}

/// What has to be done next.
pub enum RunLoopAction<T, P> {
    /// Spawn a thread that runs the work.
    SpawnWorker,
    /// Let the main run loop go until it is stopped.
    RunMainRunLoop,
    /// Stop the main run loop.
    StopMainRunLoop,
    /// Join the thread of the work.
    JoinWorker,
    /// Return the result of the work.
    Return(T),
    /// Go on with the panic of the work.
    ResumePanic(P),
}

/// What each event asks for.
pub open spec fn run_loop_action<T, P>(event: RunLoopEvent<T, P>) -> RunLoopAction<T, P> {
    match event {
        RunLoopEvent::Called => RunLoopAction::SpawnWorker,
        RunLoopEvent::WorkerSpawned => RunLoopAction::RunMainRunLoop,
        RunLoopEvent::WorkEnded => RunLoopAction::StopMainRunLoop,
        RunLoopEvent::MainRunLoopEnded => RunLoopAction::JoinWorker,
        RunLoopEvent::WorkerJoined(Ok(result)) => RunLoopAction::Return(result),
        RunLoopEvent::WorkerJoined(Err(panic)) => RunLoopAction::ResumePanic(panic),
    }
}

/// The event on the main thread that follows an action there, where the work ends with `outcome`.
pub open spec fn following_event<T, P>(
    action: RunLoopAction<T, P>,
    outcome: Result<T, P>,
) -> Option<RunLoopEvent<T, P>> {
    match action {
        RunLoopAction::SpawnWorker => Some(RunLoopEvent::WorkerSpawned),
        RunLoopAction::RunMainRunLoop => Some(RunLoopEvent::MainRunLoopEnded),
        RunLoopAction::JoinWorker => Some(RunLoopEvent::WorkerJoined(outcome)),
        _ => None,
    }
}

/// The first `n` actions on the main thread from `event` on, where the work ends with `outcome`.
pub open spec fn main_thread_actions<T, P>(
    event: RunLoopEvent<T, P>,
    outcome: Result<T, P>,
    n: nat,
) -> Seq<RunLoopAction<T, P>>
    decreases n,
{
    if n == 0 {
        Seq::empty()
    } else {
        let action = run_loop_action(event);
        match following_event(action, outcome) {
            None => seq![action],
            Some(next) => seq![action] + main_thread_actions(next, outcome, (n - 1) as nat),
        }
    }
}

/// Runs work on a thread of its own while the main run loop goes, one step at a time: says what an
/// event asks for.
pub fn run_with_main_run_loop<T, P>(event: RunLoopEvent<T, P>) -> (action: RunLoopAction<T, P>)
    ensures
        action == run_loop_action(event),
        event is Called <==> action is SpawnWorker,
        event is WorkerSpawned <==> action is RunMainRunLoop,
        event is WorkEnded <==> action is StopMainRunLoop,
        event is MainRunLoopEnded <==> action is JoinWorker,
        event matches RunLoopEvent::WorkerJoined(Ok(result)) ==> action == RunLoopAction::<
            T,
            P,
        >::Return(result),
        event matches RunLoopEvent::WorkerJoined(Err(panic)) ==> action == RunLoopAction::<
            T,
            P,
        >::ResumePanic(panic),
{
    match event {
        RunLoopEvent::Called => RunLoopAction::SpawnWorker,
        RunLoopEvent::WorkerSpawned => RunLoopAction::RunMainRunLoop,
        RunLoopEvent::WorkEnded => RunLoopAction::StopMainRunLoop,
        RunLoopEvent::MainRunLoopEnded => RunLoopAction::JoinWorker,
        RunLoopEvent::WorkerJoined(Ok(result)) => RunLoopAction::Return(result),
        RunLoopEvent::WorkerJoined(Err(panic)) => RunLoopAction::ResumePanic(panic),
    }
}

/// The main thread spawns the work, lets the run loop go until it is stopped, joins the work, and
/// then, and only then, ends as the work ended: with its result, or with its panic. However many
/// steps it is given, it takes no others.
pub proof fn law_main_thread_ends_as_the_work_ended<T, P>(outcome: Result<T, P>, n: nat)
    requires
        n >= 4,
    ensures
        main_thread_actions(RunLoopEvent::Called, outcome, n) == seq![
            RunLoopAction::SpawnWorker,
            RunLoopAction::RunMainRunLoop,
            RunLoopAction::JoinWorker,
            match outcome {
                Ok(result) => RunLoopAction::Return(result),
                Err(panic) => RunLoopAction::ResumePanic(panic),
            },
        ],
{
    reveal_with_fuel(main_thread_actions, 4);
}

/// The work is spawned only when the main thread is asked to run it, the run loop goes only once the
/// work was spawned, the work is joined only once the run loop has ended, and its result or its
/// panic is what it was joined with.
pub proof fn law_each_step_waits_for_the_one_before<T, P>(
    event: RunLoopEvent<T, P>,
    result: T,
    panic: P,
)
    ensures
        run_loop_action(event) is SpawnWorker <==> event is Called,
        run_loop_action(event) is RunMainRunLoop <==> event is WorkerSpawned,
        run_loop_action(event) is JoinWorker <==> event is MainRunLoopEnded,
        run_loop_action(event) == RunLoopAction::<T, P>::Return(result) <==> event
            == RunLoopEvent::<T, P>::WorkerJoined(Ok(result)),
        run_loop_action(event) == RunLoopAction::<T, P>::ResumePanic(panic) <==> event
            == RunLoopEvent::<T, P>::WorkerJoined(Err(panic)),
{
}

/// The main run loop is stopped when the work has ended, whether or not it panicked, and for no
/// other reason.
pub proof fn law_run_loop_goes_until_the_work_ends<T, P>(event: RunLoopEvent<T, P>)
    ensures
        run_loop_action(event) is StopMainRunLoop <==> event is WorkEnded,
{
}

} // verus!
