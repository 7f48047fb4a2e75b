//! The task wakers that timers and registrations hold, and the calls made on them.
//!
//! A waker is opaque: nothing here looks into it. What the calls on wakers
//! return is handed on in values that only those calls make, each with a record
//! of the wakers it was made from, so that the code above can state which waker
//! it compared, kept or scheduled.
use vstd::prelude::*;

use core::task::Waker;

verus! {

/// `core::task::Waker`, held and handed on but never looked into.
#[verifier::external_type_specification]
#[verifier::external_body]
pub struct ExWaker(core::task::Waker);

/// A waker held on behalf of a task, with the waker it was made from: itself,
/// or the one it clones (which wakes the same task).
pub struct KeptWaker {
    waker: Waker,
    source: Ghost<Waker>,
}

impl KeptWaker {
    /// The waker held.
    pub closed spec fn waker_spec(self) -> Waker {
        self.waker
    }

    /// The waker it was made from.
    pub closed spec fn source(self) -> Waker {
        self.source@
    }

    /// Holds `waker` itself.
    pub fn own(waker: Waker) -> (r: KeptWaker)
        ensures
            r.waker_spec() == waker,
            r.source() == waker,
    {
        KeptWaker { waker, source: Ghost(waker) }
    }

    /// The waker held.
    pub fn waker(&self) -> (r: &Waker)
        ensures
            *r == self.waker_spec(),
    {
        &self.waker
    }
}

/// Calls `Waker::clone`. The clone wakes the same task as `waker`; that no clause
/// can state, but the result records `waker` as its source.
#[verifier::external_body]
pub(crate) fn clone_waker(waker: &Waker) -> (r: KeptWaker)
    ensures
        r.source() == *waker,
{
    KeptWaker { waker: waker.clone(), source: Ghost(*waker) }
}

/// What `Waker::will_wake` answered for a kept waker and the waker of a task
/// that asks to be woken: only `will_wake` makes one.
pub struct WakeCheck {
    same_task: bool,
    kept: Ghost<Waker>,
    polling: Ghost<Waker>,
}

impl WakeCheck {
    /// The answer: `true` where both wakers are known to wake the same task.
    pub closed spec fn same_task(self) -> bool {
        self.same_task
    }

    /// The kept waker that was asked.
    pub closed spec fn kept(self) -> Waker {
        self.kept@
    }

    /// The waker it was compared with.
    pub closed spec fn polling(self) -> Waker {
        self.polling@
    }

    /// The answer: `true` where both wakers are known to wake the same task.
    pub fn is_same_task(&self) -> (r: bool)
        ensures
            r == self.same_task(),
    {
        self.same_task
    }
}

/// Whether a comparison was made and answered that the wakers wake the same task.
pub open spec fn answered_same(check: Option<WakeCheck>) -> bool {
    check matches Some(c) && c.same_task()
}

/// `check` is the comparison of the waker kept (if any) with `polling`: made
/// where one was kept, and absent where none was.
pub open spec fn is_check_of(check: Option<WakeCheck>, kept: Option<Waker>, polling: Waker) -> bool {
    match kept {
        Some(k) => check matches Some(c) && c.kept() == k && c.polling() == polling,
        None => check is None,
    }
}

/// Calls `Waker::will_wake`. Its documentation promises only that `true` means
/// both wake the same task, and allows `false` where they do; the answer
/// compares addresses, so no clause states it. The result records which two
/// wakers were compared.
#[verifier::external_body]
pub(crate) fn will_wake(waker: &Waker, other: &Waker) -> (r: WakeCheck)
    ensures
        r.kept() == *waker,
        r.polling() == *other,
{
    WakeCheck { same_task: waker.will_wake(other), kept: Ghost(*waker), polling: Ghost(*other) }
}

/// Evidence that a waker was handed to the timer queue: only `schedule_wake`
/// makes one.
pub struct Scheduled {
    tick: u64,
    waker: Ghost<Waker>,
}

impl Scheduled {
    /// The driver tick at which the waker is to be woken.
    pub closed spec fn tick_spec(self) -> u64 {
        self.tick
    }

    /// The waker handed to the queue.
    pub closed spec fn waker_spec(self) -> Waker {
        self.waker@
    }

    /// The driver tick at which the waker is to be woken.
    pub fn tick(&self) -> (r: u64)
        ensures
            r == self.tick_spec(),
    {
        self.tick
    }
}

/// The tick recorded by an optional piece of evidence.
pub open spec fn scheduled_tick(s: Option<Scheduled>) -> Option<u64> {
    match s {
        Some(x) => Some(x.tick_spec()),
        None => None,
    }
}

/// The waker recorded by an optional piece of evidence.
pub open spec fn scheduled_waker(s: Option<Scheduled>) -> Option<Waker> {
    match s {
        Some(x) => Some(x.waker_spec()),
        None => None,
    }
}

/// Calls `embassy_time_queue_driver::schedule_wake`, which asks the timer queue
/// to wake `waker` once the driver's tick count reaches `at`. The call has no
/// result; what it returns records the tick and the waker it was handed.
#[verifier::external_body]
pub(crate) fn schedule_wake(at: u64, waker: &Waker) -> (r: Scheduled)
    ensures
        r.tick_spec() == at,
        r.waker_spec() == *waker,
{
    embassy_time_queue_driver::schedule_wake(at, waker);
    Scheduled { tick: at, waker: Ghost(*waker) }
}

} // verus!
