use openscq30::{
    run_with_main_run_loop, PlatformConnectionBackends, RunLoopAction, RunLoopEvent,
};

type Event = RunLoopEvent<u32, String>;
type Act = RunLoopAction<u32, String>;

#[test]
fn rfcomm_backend_is_always_there() {
    assert!(PlatformConnectionBackends::default().rfcomm().is_ok());
}

#[test]
fn main_thread_spawns_runs_the_loop_and_joins() {
    assert!(matches!(run_with_main_run_loop(Event::Called), Act::SpawnWorker));
    assert!(matches!(run_with_main_run_loop(Event::WorkerSpawned), Act::RunMainRunLoop));
    assert!(matches!(run_with_main_run_loop(Event::MainRunLoopEnded), Act::JoinWorker));
}

#[test]
fn end_of_the_work_stops_the_loop() {
    assert!(matches!(run_with_main_run_loop(Event::WorkEnded), Act::StopMainRunLoop));
}

#[test]
fn main_thread_ends_as_the_work_ended() {
    assert!(matches!(run_with_main_run_loop(Event::WorkerJoined(Ok(5))), Act::Return(5)));
    match run_with_main_run_loop(Event::WorkerJoined(Err("boom".into()))) {
        Act::ResumePanic(panic) => assert_eq!(panic, "boom"),
        _ => panic!("the panic of the work is lost"),
    }
}
