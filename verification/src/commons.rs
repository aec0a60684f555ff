use vstd::prelude::*;
use std::time::{Duration, Instant};
use crate::clock::{as_nanos, duration_nanos, elapsed, now};

verus! {

/// Priority class of a unit of work. It is fixed when the unit is spawned and
/// selects the lane on which every runnable of that unit is queued.
#[derive(Debug, Clone, Copy, PartialEq, Eq, Structural)]
pub enum FutureType {
    High,
    Low,
}

/// What one call of `poll` reports: the final value, or a suspension.
#[derive(Debug)]
pub enum Progress<T> {
    Ready(T),
    Pending,
}

/// The resumption context handed to `poll`.
///
/// A unit that wants to be polled again at once calls `wake_by_ref` before it
/// returns `Pending`. A unit that waits for an outside event keeps the copy of
/// the handle that `handle` gives and returns `Pending` without waking; whoever
/// observes the event hands that copy to the executor's `wake`.
pub struct Resumer {
    id: u64,
    woken: bool,
}

/// A copyable token that names the unit of work to resume.
#[derive(Debug, Clone, Copy, PartialEq, Eq, Structural)]
pub struct ResumptionHandle {
    pub id: u64,
}

impl Resumer {
    /// The task that is being polled.
    pub closed spec fn task(&self) -> u64 {
        self.id
    }

    /// Whether the unit has asked to be queued again.
    pub closed spec fn is_woken(&self) -> bool {
        self.woken
    }

    /// A fresh context for one poll of task `id`; nothing has been woken yet.
    pub fn new(id: u64) -> (cx: Resumer)
        ensures
            cx.task() == id,
            !cx.is_woken(),
    {
        Resumer { id, woken: false }
    }

    /// Asks for the unit that is being polled to be queued again.
    pub fn wake_by_ref(&mut self)
        ensures
            final(self).task() == old(self).task(),
            final(self).is_woken(),
    {
        self.woken = true;
    }

    /// A handle by which some other actor can resume the unit later.
    pub fn handle(&self) -> (h: ResumptionHandle)
        ensures
            h.id == self.task(),
    {
        ResumptionHandle { id: self.id }
    }

    /// Reads the wake request back.
    pub fn woken(&self) -> (w: bool)
        ensures
            w == self.is_woken(),
    {
        self.woken
    }
}

/// The suspension contract of every schedulable computation.
///
/// `poll` either produces the final value, or returns `Pending` after it has
/// arranged for its resumption. What a unit does in one poll it states as
/// `polled`. A unit may promise more: that it is `bounded`, which is to be
/// ready with `outcome` after `pendings_left` polls that return `Pending`, and
/// that it is `resuming`, which is to ask for its own resumption in every such
/// poll.
///
/// A unit that says nothing of itself can always be polled and promises
/// nothing: it need only provide `poll`.
pub trait UnitOfWork: Sized {
    type Output;

    /// What must hold of the unit for it to be polled; a poll that returns
    /// `Pending` keeps it.
    open spec fn pollable(&self) -> bool {
        true
    }

    /// What one poll does, told as a relation: whether a poll with a fresh
    /// resumption context can turn `self` into `after` and report `p`,
    /// having asked for the unit's resumption exactly if `resumed`.
    open spec fn polled(&self, after: Self, resumed: bool, p: Progress<Self::Output>) -> bool {
        true
    }

    /// Whether the unit is ready after finitely many polls, whoever resumes
    /// it in between.
    open spec fn bounded(&self) -> bool {
        false
    }

    /// For a bounded unit, the number of polls that still return `Pending`.
    open spec fn pendings_left(&self) -> nat {
        0
    }

    /// For a bounded unit, the value that its first `Ready` carries.
    open spec fn outcome(&self) -> Self::Output {
        arbitrary()
    }

    /// Whether the unit asks for its own resumption in every poll that
    /// returns `Pending`.
    open spec fn resuming(&self) -> bool {
        false
    }

    fn poll(&mut self, cx: &mut Resumer) -> (p: Progress<Self::Output>)
        requires
            old(self).pollable(),
        ensures
            final(cx).task() == old(cx).task(),
            p is Pending ==> final(self).pollable(),
            !old(cx).is_woken() ==> old(self).polled(*final(self), final(cx).is_woken(), p),
            old(self).bounded() ==> match p {
                Progress::Ready(v) => old(self).pendings_left() == 0 && v == old(self).outcome(),
                Progress::Pending => {
                    &&& old(self).pendings_left() > 0
                    &&& final(self).bounded()
                    &&& final(self).pendings_left() == old(self).pendings_left() - 1
                    &&& final(self).outcome() == old(self).outcome()
                },
            },
            old(self).resuming() && p is Pending ==> final(cx).is_woken() && final(self).resuming(),
    ;
}

/// Sizing of the worker pool: how many workers watch which lanes.
#[derive(Debug, Clone, Copy, PartialEq, Eq, Structural)]
pub struct Runtime {
    pub high_num: usize,
    pub low_num: usize,
}

impl Runtime {
    /// The default sizing for a machine with `core_num` units of parallelism:
    /// all but two of them serve the high lane, one worker serves the low lane.
    pub fn new(core_num: usize) -> (rt: Runtime)
        requires
            core_num >= 2,
        ensures
            rt.high_num == core_num - 2,
            rt.low_num == 1,
    {
        Runtime { high_num: core_num - 2, low_num: 1 }
    }

    /// The same sizing with `num` high-lane workers.
    pub fn with_high_num(self, num: usize) -> (rt: Runtime)
        ensures
            rt.high_num == num,
            rt.low_num == self.low_num,
    {
        Runtime { high_num: num, low_num: self.low_num }
    }

    /// The same sizing with `num` low-lane workers.
    pub fn with_low_num(self, num: usize) -> (rt: Runtime)
        ensures
            rt.high_num == self.high_num,
            rt.low_num == num,
    {
        Runtime { high_num: self.high_num, low_num: num }
    }
}

/// A unit that is ready, with `true`, once a given time has passed since it
/// was made. Until then every poll resumes the unit at once.
pub struct AsyncSleep {
    start_time: Instant,
    duration: Duration,
}

impl AsyncSleep {
    /// The moment at which the sleep began.
    pub closed spec fn started(&self) -> Instant {
        self.start_time
    }

    /// The time to sleep, in nanoseconds.
    pub closed spec fn wanted(&self) -> u128 {
        duration_nanos(self.duration)
    }

    /// A sleep of `duration` that began at `start`.
    pub fn starting_at(start: Instant, duration: Duration) -> (sleep: AsyncSleep)
        ensures
            sleep.started() == start,
            sleep.wanted() == duration_nanos(duration),
    {
        AsyncSleep { start_time: start, duration }
    }

    /// A sleep of `duration` that begins now, whenever that is.
    pub fn new(duration: Duration) -> (sleep: AsyncSleep)
        ensures
            sleep.wanted() == duration_nanos(duration),
    {
        AsyncSleep::starting_at(now(), duration)
    }

    /// One poll, taken when `elapsed` has passed since the unit was made:
    /// ready with `true` if that is at least the time to sleep; else the unit
    /// resumes itself and stays pending.
    pub fn poll_after(&self, elapsed: Duration, cx: &mut Resumer) -> (p: Progress<bool>)
        ensures
            final(cx).task() == old(cx).task(),
            duration_nanos(elapsed) >= self.wanted() ==> p == Progress::Ready(true),
            duration_nanos(elapsed) >= self.wanted() ==> final(cx).is_woken()
                == old(cx).is_woken(),
            duration_nanos(elapsed) < self.wanted() ==> p is Pending && final(cx).is_woken(),
    {
        if as_nanos(&elapsed) >= as_nanos(&self.duration) {
            Progress::Ready(true)
        } else {
            cx.wake_by_ref();
            Progress::Pending
        }
    }
}

/// How many polls a sleep takes depends on the clock, so it is not bounded;
/// but it resumes itself whenever it is pending, and a sleep of no time at
/// all is ready at its first poll.
impl UnitOfWork for AsyncSleep {
    type Output = bool;

    open spec fn polled(&self, after: Self, resumed: bool, p: Progress<bool>) -> bool {
        &&& after == *self
        &&& (p == Progress::Ready(true) && !resumed) || (p is Pending && resumed)
        &&& self.wanted() == 0 ==> p == Progress::Ready(true)
    }

    open spec fn resuming(&self) -> bool {
        true
    }

    /// Reads the clock and polls with the time that has passed. Whatever the
    /// clock says, the unit is either ready with `true` or has resumed
    /// itself; and it is ready if there is no time to sleep.
    fn poll(&mut self, cx: &mut Resumer) -> (p: Progress<bool>)
        ensures
            *final(self) == *old(self),
            p is Ready ==> p == Progress::Ready(true) && final(cx).is_woken() == old(cx).is_woken(),
            p is Pending ==> final(cx).is_woken(),
            old(self).wanted() == 0 ==> p == Progress::Ready(true),
    {
        let passed = elapsed(&self.start_time);
        self.poll_after(passed, cx)
    }
}

/// A unit that never finishes: every poll resumes it and returns `Pending`.
#[derive(Debug, Clone, Copy)]
pub struct BackgroundProcess;

impl UnitOfWork for BackgroundProcess {
    type Output = ();

    open spec fn polled(&self, after: Self, resumed: bool, p: Progress<()>) -> bool {
        p is Pending && resumed
    }

    open spec fn resuming(&self) -> bool {
        true
    }

    fn poll(&mut self, cx: &mut Resumer) -> (p: Progress<()>)
        ensures
            p is Pending,
            final(cx).is_woken(),
    {
        cx.wake_by_ref();
        Progress::Pending
    }
}

} // verus!
