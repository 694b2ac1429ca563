//! Spawning and joining logical threads.
//!
//! A spawned body does not run on an operating-system thread. It waits in its
//! [`JoinHandle`] until the scheduler gives it a turn, runs to completion,
//! leaves its outcome in the handle's result cell and only then fires the
//! handle's signal. Joining waits for the signal and drains the cell.

use crate::notify::Notify;
use crate::outcome::Outcome;
use vstd::prelude::*;

verus! {

/// Where a logical thread stands between `spawn` and `join`.
#[derive(Debug, Clone, Copy, PartialEq, Eq, Structural)]
pub enum Phase {
    /// The body has not been given a turn yet.
    Spawned,
    /// The body was handed to the scheduler and has not ended yet.
    Running,
    /// The body ended: the result cell holds its outcome and the signal has fired.
    Finished,
}

/// What a [`JoinHandle`] stands for: the body that is still to run, the shared
/// result cell, and whether the completion signal has fired.
pub struct HandleView<T, F> {
    pub body: Option<F>,
    pub cell: Option<Outcome<T>>,
    pub notified: bool,
}

/// One step that the scheduler takes on a logical thread.
pub enum Step<T> {
    /// The body is taken out of the handle to be run.
    Start,
    /// The body ended and its outcome is written into the result cell.
    Publish(Outcome<T>),
    /// The completion signal fires.
    Signal,
}

impl<T, F> HandleView<T, F> {
    /// A logical thread that was spawned with `body` and has not run.
    pub open spec fn spawned(body: F) -> Self {
        HandleView { body: Some(body), cell: None, notified: false }
    }

    pub open spec fn is_spawned(self) -> bool {
        self.body is Some && self.cell is None && !self.notified
    }

    pub open spec fn is_running(self) -> bool {
        self.body is None && self.cell is None && !self.notified
    }

    pub open spec fn is_finished(self) -> bool {
        self.body is None && self.cell is Some && self.notified
    }

    /// The signal has fired only if the result cell is populated.
    pub open spec fn ordered(self) -> bool {
        self.notified ==> self.cell is Some
    }

    /// The scheduler can take `step` now. The body starts once, the cell is
    /// written once, and the signal fires only over a populated cell.
    pub open spec fn enabled(self, step: Step<T>) -> bool {
        match step {
            Step::Start => self.is_spawned(),
            Step::Publish(_) => self.is_running(),
            Step::Signal => self.cell is Some,
        }
    }

    /// The state that `step` leads to.
    pub open spec fn step(self, step: Step<T>) -> Self {
        match step {
            Step::Start => HandleView { body: None, ..self },
            Step::Publish(outcome) => HandleView { cell: Some(outcome), ..self },
            Step::Signal => HandleView { notified: true, ..self },
        }
    }

    /// The state after `steps`, taken in order; `None` if one of them was not
    /// enabled when its turn came.
    pub open spec fn after(self, steps: Seq<Step<T>>) -> Option<Self>
        decreases steps.len(),
    {
        if steps.len() == 0 {
            Some(self)
        } else {
            match self.after(steps.drop_last()) {
                Some(before) => if before.enabled(steps.last()) {
                    Some(before.step(steps.last()))
                } else {
                    None
                },
                None => None,
            }
        }
    }

    /// The state after the body has ended with `outcome`: the cell is written
    /// first, then the signal fires.
    pub open spec fn finished_with(self, outcome: Outcome<T>) -> Self {
        self.step(Step::Publish(outcome)).step(Step::Signal)
    }
}

/// Whatever steps the scheduler takes on a spawned thread, and in whatever
/// order it tries them, the completion signal has fired only if the result
/// cell is populated.
pub proof fn lemma_cell_populated_before_notify<T, F>(body: F, steps: Seq<Step<T>>)
    ensures
        HandleView::<T, F>::spawned(body).after(steps) matches Some(view) ==> view.ordered(),
    decreases steps.len(),
{
    if steps.len() > 0 {
        lemma_cell_populated_before_notify::<T, F>(body, steps.drop_last());
    }
}

/// Once the result cell holds an outcome, no further step of the scheduler
/// changes it: the cell is written exactly once.
pub proof fn lemma_cell_written_once<T, F>(view: HandleView<T, F>, steps: Seq<Step<T>>)
    requires
        view.cell is Some,
    ensures
        view.after(steps) matches Some(later) ==> later.cell == view.cell,
    decreases steps.len(),
{
    if steps.len() > 0 {
        lemma_cell_written_once(view, steps.drop_last());
    }
}

/// The joining side of a logical thread.
pub struct JoinHandle<T, F> {
    body: Option<F>,
    result: Option<Outcome<T>>,
    notify: Notify,
}

impl<T, F> View for JoinHandle<T, F> {
    type V = HandleView<T, F>;

    closed spec fn view(&self) -> HandleView<T, F> {
        HandleView { body: self.body, cell: self.result, notified: self.notify.is_notified() }
    }
}

/// `outcome` is what `body` leaves when it returns normally.
pub open spec fn completed_by<T, F: FnOnce() -> T>(body: F, outcome: Outcome<T>) -> bool {
    outcome matches Outcome::Completed(value) && body.ensures((), value)
}

/// Creates a logical thread whose body is `f` and returns at once; `f` has not
/// run yet. The scheduler runs it later, through the handle.
pub fn spawn<F, T>(f: F) -> (handle: JoinHandle<T, F>) where F: FnOnce() -> T
    requires
        f.requires(()),
    ensures
        handle.wf(),
        handle@ == HandleView::<T, F>::spawned(f),
        handle.signal().is_pre_armed(),
{
    let result = None;
    let notify = Notify::new(true);
    JoinHandle { body: Some(f), result, notify }
}

impl<T, F: FnOnce() -> T> JoinHandle<T, F> {
    /// The completion signal that the handle owns.
    pub closed spec fn signal(&self) -> Notify {
        self.notify
    }

    /// The handle is in one of the three phases, and a body that is still to
    /// run can be called.
    pub open spec fn wf(&self) -> bool {
        &&& self@.is_spawned() || self@.is_running() || self@.is_finished()
        &&& self@.body matches Some(body) ==> body.requires(())
    }

    /// The debug rendering: the name of the type and nothing of its state.
    pub fn fmt(&self) -> (text: String)
        ensures
            text@ == "JoinHandle"@,
    {
        "JoinHandle".to_owned()
    }

    /// The phase the logical thread is in.
    pub fn phase(&self) -> (phase: Phase)
        requires
            self.wf(),
        ensures
            phase == Phase::Spawned <==> self@.is_spawned(),
            phase == Phase::Running <==> self@.is_running(),
            phase == Phase::Finished <==> self@.is_finished(),
    {
        if self.body.is_some() {
            Phase::Spawned
        } else if self.notify.wait() {
            Phase::Finished
        } else {
            Phase::Running
        }
    }

    /// Hands the body to the scheduler, which is to run it and report how it
    /// ended with [`finish`](Self::finish).
    pub fn start(&mut self) -> (body: F)
        requires
            old(self).wf(),
            old(self)@.is_spawned(),
        ensures
            final(self).wf(),
            old(self)@.body == Some(body),
            body.requires(()),
            final(self)@ == old(self)@.step(Step::Start),
            final(self).signal() == old(self).signal(),
    {
        self.body.take().unwrap()
    }

    /// Writes the outcome into the result cell. The signal stays as it was.
    fn publish(&mut self, outcome: Outcome<T>)
        requires
            old(self)@.is_running(),
        ensures
            final(self)@ == old(self)@.step(Step::Publish(outcome)),
            final(self).signal() == old(self).signal(),
    {
        self.result = Some(outcome);
    }

    /// Fires the completion signal. The cell must hold the outcome already.
    fn signal_completion(&mut self)
        requires
            old(self)@.enabled(Step::Signal),
        ensures
            final(self)@ == old(self)@.step(Step::Signal),
            final(self).signal().is_pre_armed() == old(self).signal().is_pre_armed(),
    {
        self.notify.notify();
    }

    /// Records how the body ended: the outcome goes into the result cell, and
    /// then the signal fires.
    pub fn finish(&mut self, outcome: Outcome<T>)
        requires
            old(self).wf(),
            old(self)@.is_running(),
        ensures
            final(self).wf(),
            final(self)@ == old(self)@.finished_with(outcome),
            final(self).signal().is_pre_armed() == old(self).signal().is_pre_armed(),
    {
        self.publish(outcome);
        self.signal_completion();
    }

    /// One scheduling turn for this logical thread: the body runs to
    /// completion, its value goes into the result cell, and the signal fires.
    pub fn run(&mut self)
        requires
            old(self).wf(),
            old(self)@.is_spawned(),
        ensures
            final(self).wf(),
            final(self)@ == old(self)@.step(Step::Start).finished_with(final(self)@.cell.unwrap()),
            completed_by(old(self)@.body.unwrap(), final(self)@.cell.unwrap()),
            final(self).signal().is_pre_armed() == old(self).signal().is_pre_armed(),
    {
        let body = self.start();
        let value = body();
        self.finish(Outcome::Completed(value));
    }

    /// Takes the outcome out of the result cell, leaving it empty.
    fn take(&mut self) -> (outcome: Outcome<T>)
        requires
            old(self)@.cell is Some,
        ensures
            old(self)@.cell == Some(outcome),
            final(self)@ == (HandleView { cell: None::<Outcome<T>>, ..old(self)@ }),
    {
        self.result.take().unwrap()
    }

    /// Waits for the logical thread to end and returns its outcome.
    ///
    /// A waiter that finds the signal not fired yields to the scheduler, which
    /// gives the spawned body its turn. The handle is consumed, so the cell is
    /// drained at most once.
    pub fn join(self) -> (outcome: Outcome<T>)
        requires
            self.wf(),
            !self@.is_running(),
        ensures
            self@.is_finished() ==> self@.cell == Some(outcome),
            self@.is_spawned() ==> completed_by(self@.body.unwrap(), outcome),
    {
        let mut handle = self;
        while !handle.notify.wait()
            invariant
                handle.wf(),
                !handle@.is_running(),
                handle@ == self@ || (self@.is_spawned() && handle@.is_finished()
                    && completed_by(self@.body.unwrap(), handle@.cell.unwrap())),
            decreases
                (if handle@.is_spawned() { 1nat } else { 0nat }),
        {
            handle.run();
        }
        handle.take()
    }
}

} // verus!
