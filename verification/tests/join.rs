use std::cell::Cell;
use std::rc::Rc;

use mock_thread::notify::Notify;
use mock_thread::outcome::Outcome;
use mock_thread::thread::{spawn, Phase};

#[test]
fn spawn_returns_before_the_body_runs() {
    let ran = Rc::new(Cell::new(false));
    let seen = ran.clone();
    let handle = spawn(move || seen.set(true));
    assert_eq!(handle.phase(), Phase::Spawned);
    assert!(!ran.get());
    assert_eq!(handle.join(), Outcome::Completed(()));
    assert!(ran.get());
}

#[test]
fn run_moves_the_thread_to_finished() {
    let mut handle = spawn(|| 7u32);
    handle.run();
    assert_eq!(handle.phase(), Phase::Finished);
    assert_eq!(handle.join(), Outcome::Completed(7));
}

#[test]
fn join_gives_a_pending_body_its_turn() {
    let handle = spawn(|| 2u64 + 3);
    assert_eq!(handle.join(), Outcome::Completed(5));
}

#[test]
fn body_runs_exactly_once() {
    let runs = Rc::new(Cell::new(0u32));
    let counter = runs.clone();
    let mut handle = spawn(move || counter.set(counter.get() + 1));
    handle.run();
    assert_eq!(runs.get(), 1);
    assert_eq!(handle.join(), Outcome::Completed(()));
    assert_eq!(runs.get(), 1);
}

#[test]
fn start_and_finish_report_what_the_scheduler_saw() {
    let mut handle = spawn(|| 10i32);
    let body = handle.start();
    assert_eq!(handle.phase(), Phase::Running);
    let value = body();
    handle.finish(Outcome::Completed(value + 1));
    assert_eq!(handle.phase(), Phase::Finished);
    assert_eq!(handle.join(), Outcome::Completed(11));
}

#[test]
fn panicked_body_is_joined_with_its_payload() {
    let mut handle = spawn(|| 1u8);
    let body = handle.start();
    drop(body);
    handle.finish(Outcome::Panicked("boom".to_string()));
    assert_eq!(handle.phase(), Phase::Finished);
    match handle.join() {
        Outcome::Panicked(message) => assert_eq!(message, "boom"),
        Outcome::Completed(_) => panic!("the body did not complete"),
    }
}

#[test]
fn scenario_thread_runs_to_completion_immediately() {
    let shared = Rc::new(Cell::new(0i32));
    let writer = shared.clone();
    let mut a = spawn(move || {
        writer.set(42);
        "done"
    });
    a.run();
    assert_eq!(a.join(), Outcome::Completed("done"));
    assert_eq!(shared.get(), 42);
}

#[test]
fn scenario_thread_is_interleaved_with_unrelated_work() {
    let shared = Rc::new(Cell::new(0i32));
    let writer = shared.clone();
    let a = spawn(move || {
        writer.set(42);
        "done"
    });

    let unrelated = Rc::new(Cell::new(0u32));
    let worker = unrelated.clone();
    let mut b = spawn(move || worker.set(worker.get() + 5));
    b.run();
    assert_eq!(unrelated.get(), 5);
    assert_eq!(shared.get(), 0);
    assert_eq!(b.join(), Outcome::Completed(()));
    assert_eq!(a.phase(), Phase::Spawned);

    assert_eq!(a.join(), Outcome::Completed("done"));
    assert_eq!(shared.get(), 42);
}

#[test]
fn outcome_is_set_when_join_returns_under_each_schedule() {
    for schedule in 0..3u8 {
        let counter = Rc::new(Cell::new(0u64));
        let writer = counter.clone();
        let mut handle = spawn(move || {
            writer.set(1000);
            writer.get()
        });
        let mut other = spawn(|| 0u64);
        match schedule {
            0 => {
                handle.run();
                other.run();
            }
            1 => {
                other.run();
                handle.run();
            }
            _ => {
                other.run();
            }
        }
        assert_eq!(other.join(), Outcome::Completed(0));
        assert_eq!(handle.join(), Outcome::Completed(1000));
        assert_eq!(counter.get(), 1000);
    }
}

#[test]
fn join_handle_renders_as_its_type_name() {
    let handle = spawn(|| 0u8);
    assert_eq!(handle.fmt(), "JoinHandle");
    let mut finished = spawn(|| 0u8);
    finished.run();
    assert_eq!(finished.fmt(), "JoinHandle");
}

#[test]
fn notify_is_not_fired_when_made() {
    assert!(!Notify::new(true).wait());
    assert!(!Notify::new(false).wait());
}

#[test]
fn notify_releases_the_waiter_and_stays_fired() {
    let mut signal = Notify::new(true);
    assert!(!signal.wait());
    signal.notify();
    assert!(signal.wait());
    signal.notify();
    assert!(signal.wait());
    assert!(signal.wait());
}
