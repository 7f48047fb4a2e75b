//! The registry of file descriptors that a `select`-based reactor watches.
//!
//! Each registration records, for reading and for writing, whether readiness was
//! observed and not yet fetched, and the waker of the task waiting for it.
//! `Registrations::set_fds` turns the registry into the descriptor sets to wait on,
//! and `Registrations::update_events` records what the wait reported, handing
//! back the wakers it took for the caller to wake.
use vstd::prelude::*;

use core::task::Waker;

use crate::platform::{FdSetSize, fd_setsize, known_fd_setsize};
use crate::task::{WakeCheck, answered_same, is_check_of, will_wake};

verus! {

/// The number of descriptors that can be registered at once.
pub const MAX_REGISTRATIONS: usize = 20;

/// The direction of readiness that a task waits for.
#[derive(Clone, Copy, Debug, PartialEq, Eq, Structural)]
pub enum Event {
    Read,
    Write,
}

/// Why a request on the registry is refused.
#[derive(Clone, Copy, Debug, PartialEq, Eq, Structural)]
pub enum ErrorKind {
    /// A negative descriptor, the notification descriptor, or one already registered.
    InvalidInput,
    /// A descriptor beyond what a descriptor set holds, or a full registry.
    OutOfMemory,
    /// A descriptor that is not registered.
    NotFound,
}

/// The other direction.
pub open spec fn other(event: Event) -> Event {
    match event {
        Event::Read => Event::Write,
        Event::Write => Event::Read,
    }
}

/// One registered descriptor.
pub struct Registration {
    pub fd: i32,
    pub read_ready: bool,
    pub write_ready: bool,
    pub read_waker: Option<Waker>,
    pub write_waker: Option<Waker>,
}

impl Registration {
    /// Readiness observed in the given direction and not yet fetched.
    pub open spec fn ready(self, event: Event) -> bool {
        match event {
            Event::Read => self.read_ready,
            Event::Write => self.write_ready,
        }
    }

    /// The waker of the task waiting in the given direction.
    pub open spec fn waker(self, event: Event) -> Option<Waker> {
        match event {
            Event::Read => self.read_waker,
            Event::Write => self.write_waker,
        }
    }

    /// A registration with nothing observed and nobody waiting.
    pub open spec fn fresh(fd: i32) -> Registration {
        Registration { fd, read_ready: false, write_ready: false, read_waker: None, write_waker: None }
    }

    /// `new` is `old` with the readiness in `event` fetched.
    pub open spec fn consumed(old: Registration, new: Registration, event: Event) -> bool {
        &&& new.fd == old.fd
        &&& !new.ready(event)
        &&& new.ready(other(event)) == old.ready(other(event))
        &&& new.read_waker == old.read_waker
        &&& new.write_waker == old.write_waker
    }

    /// `new` is `old` with a task waiting in `event` and that readiness cleared.
    pub open spec fn armed(old: Registration, new: Registration, event: Event) -> bool {
        &&& new.fd == old.fd
        &&& !new.ready(event)
        &&& new.ready(other(event)) == old.ready(other(event))
        &&& new.waker(event) is Some
        &&& new.waker(other(event)) == old.waker(other(event))
    }

    /// `self` after a wait that reported the descriptors in `fds`: readiness is
    /// recorded, and the wakers of the reported directions are taken.
    pub open spec fn observed(self, fds: Fds) -> Registration {
        let read = fds.contains(self.fd, Event::Read);
        let write = fds.contains(self.fd, Event::Write);
        Registration {
            fd: self.fd,
            read_ready: self.read_ready || read,
            write_ready: self.write_ready || write,
            read_waker: if read {
                None
            } else {
                self.read_waker
            },
            write_waker: if write {
                None
            } else {
                self.write_waker
            },
        }
    }

    /// The wakers that a wait reporting the descriptors in `fds` takes from
    /// `self`, for reading and for writing.
    pub open spec fn taken(self, fds: Fds) -> (Option<Waker>, Option<Waker>) {
        (
            if fds.contains(self.fd, Event::Read) {
                self.read_waker
            } else {
                None
            },
            if fds.contains(self.fd, Event::Write) {
                self.write_waker
            } else {
                None
            },
        )
    }

    fn new(fd: i32) -> (r: Registration)
        ensures
            r == Registration::fresh(fd),
    {
        Registration { fd, read_ready: false, write_ready: false, read_waker: None, write_waker: None }
    }
}

/// The registrations hold `fd` at index `i`.
pub open spec fn fd_at(regs: Seq<Registration>, fd: i32, i: int) -> bool {
    0 <= i < regs.len() && regs[i].fd == fd
}

/// The registrations hold `fd`.
pub open spec fn has_fd(regs: Seq<Registration>, fd: i32) -> bool {
    exists|i: int| #[trigger] fd_at(regs, fd, i)
}

/// No descriptor is registered twice.
pub open spec fn unique_fds(regs: Seq<Registration>) -> bool {
    forall|i: int, j: int|
        0 <= i < regs.len() && 0 <= j < regs.len() && i != j ==> #[trigger] regs[i].fd
            != #[trigger] regs[j].fd
}

/// The set of registered descriptors.
pub open spec fn fd_set_of(regs: Seq<Registration>) -> Set<i32> {
    Set::new(|fd: i32| has_fd(regs, fd))
}

/// `s` with the element at `i` replaced by the last one, and the last one dropped.
pub open spec fn swap_remove_spec(s: Seq<Registration>, i: int) -> Seq<Registration> {
    s.update(i, s.last()).drop_last()
}

/// The larger of an optional descriptor and a descriptor.
pub open spec fn max_with(max: Option<i32>, fd: i32) -> i32 {
    match max {
        Some(m) => if m >= fd {
            m
        } else {
            fd
        },
        None => fd,
    }
}

/// The largest of the notification descriptor and the registered descriptors.
pub open spec fn max_fd(regs: Seq<Registration>, event_fd: Option<i32>) -> Option<i32>
    decreases regs.len(),
{
    if regs.len() == 0 {
        event_fd
    } else {
        Some(max_with(max_fd(regs.drop_last(), event_fd), regs.last().fd))
    }
}

/// What registering `fd` answers, given the registrations, the notification
/// descriptor and the size of a descriptor set.
pub open spec fn register_result(
    regs: Seq<Registration>,
    event_fd: Option<i32>,
    fd_limit: usize,
    fd: i32,
) -> Result<(), ErrorKind> {
    if fd < 0 || event_fd == Some(fd) {
        Err(ErrorKind::InvalidInput)
    } else if fd >= fd_limit {
        Err(ErrorKind::OutOfMemory)
    } else if has_fd(regs, fd) {
        Err(ErrorKind::InvalidInput)
    } else if regs.len() >= MAX_REGISTRATIONS {
        Err(ErrorKind::OutOfMemory)
    } else {
        Ok(())
    }
}

/// Registering a descriptor adds exactly it to the set of registered descriptors.
pub proof fn law_register_adds(regs: Seq<Registration>, fd: i32)
    ensures
        fd_set_of(regs.push(Registration::fresh(fd))) == fd_set_of(regs).insert(fd),
{
    let after = regs.push(Registration::fresh(fd));
    assert forall|f: i32| fd_set_of(after).contains(f) <==> fd_set_of(regs).insert(fd).contains(f) by {
        if f == fd {
            assert(fd_at(after, fd, regs.len() as int));
        } else {
            if has_fd(after, f) {
                let i = choose|i: int| #[trigger] fd_at(after, f, i);
                assert(fd_at(regs, f, i));
            }
            if has_fd(regs, f) {
                let i = choose|i: int| #[trigger] fd_at(regs, f, i);
                assert(fd_at(after, f, i));
            }
        }
    }
    assert(fd_set_of(after) =~= fd_set_of(regs).insert(fd));
}

/// Deregistering a registered descriptor removes exactly it from the set of
/// registered descriptors, and no descriptor is registered twice after it.
pub proof fn law_deregister_removes(regs: Seq<Registration>, fd: i32, i: int)
    requires
        unique_fds(regs),
        fd_at(regs, fd, i),
    ensures
        fd_set_of(swap_remove_spec(regs, i)) == fd_set_of(regs).remove(fd),
        unique_fds(swap_remove_spec(regs, i)),
{
    let after = swap_remove_spec(regs, i);
    let last = regs.len() - 1;
    assert forall|j: int| 0 <= j < after.len() implies #[trigger] after[j] == regs[if j == i {
        last
    } else {
        j
    }] by {}
    assert forall|f: i32| fd_set_of(after).contains(f) <==> fd_set_of(regs).remove(fd).contains(f) by {
        if has_fd(after, f) {
            let j = choose|j: int| #[trigger] fd_at(after, f, j);
            let k = if j == i {
                last
            } else {
                j
            };
            assert(fd_at(regs, f, k));
            assert(k != i);
            assert(regs[k].fd != regs[i].fd);
        }
        if has_fd(regs, f) && f != fd {
            let k = choose|k: int| #[trigger] fd_at(regs, f, k);
            assert(k != i);
            if k == last {
                assert(fd_at(after, f, i));
            } else {
                assert(fd_at(after, f, k));
            }
        }
    }
    assert(fd_set_of(after) =~= fd_set_of(regs).remove(fd));
    assert forall|a: int, b: int|
        0 <= a < after.len() && 0 <= b < after.len() && a != b implies #[trigger] after[a].fd
        != #[trigger] after[b].fd by {
        let ka = if a == i {
            last
        } else {
            a
        };
        let kb = if b == i {
            last
        } else {
            b
        };
        assert(after[a] == regs[ka]);
        assert(after[b] == regs[kb]);
    }
}

/// Deregistering the descriptor registered last leaves the registrations as they
/// were before it was registered.
pub proof fn law_register_then_deregister(regs: Seq<Registration>, fd: i32, i: int)
    requires
        !has_fd(regs, fd),
        fd_at(regs.push(Registration::fresh(fd)), fd, i),
    ensures
        swap_remove_spec(regs.push(Registration::fresh(fd)), i) == regs,
{
    if i < regs.len() {
        assert(fd_at(regs, fd, i));
    }
    assert(swap_remove_spec(regs.push(Registration::fresh(fd)), i) =~= regs);
}

/// After a wait reported `fd` in `event` (`after` is what `update_events` leaves
/// of `before`), a fetch of `fd` in `event` answers `true` and nobody waits there
/// any more.
pub proof fn law_reported_then_fetched(
    before: Seq<Registration>,
    after: Seq<Registration>,
    fds: Fds,
    fd: i32,
    event: Event,
    i: int,
)
    requires
        after.len() == before.len(),
        forall|j: int| 0 <= j < before.len() ==> #[trigger] after[j] == before[j].observed(fds),
        fd_at(before, fd, i),
        fds.contains(fd, event),
    ensures
        fd_at(after, fd, i),
        after[i].ready(event),
        after[i].waker(event) is None,
{
    assert(after[i] == before[i].observed(fds));
}

/// Readiness is reported once: where a fetch of `fd` in `event` turned `first`
/// into `second`, and a second fetch turned `second` into `third`, the second
/// fetch answers `false` and changes nothing.
pub proof fn law_fetch_twice(
    first: Seq<Registration>,
    second: Seq<Registration>,
    third: Seq<Registration>,
    fd: i32,
    event: Event,
    i: int,
)
    requires
        fd_at(first, fd, i),
        Registrations::changed_at(first, second, i),
        Registration::consumed(first[i], second[i], event),
        Registrations::changed_at(second, third, i),
        Registration::consumed(second[i], third[i], event),
    ensures
        fd_at(second, fd, i),
        !second[i].ready(event),
        third == second,
{
    assert(third[i] == second[i]);
    assert(third =~= second);
}

/// A wait's report changes a registration only in the directions it reports: in
/// each such direction the descriptor becomes ready and the waiting task's waker
/// is taken; in a direction it does not report, readiness and waker stay as they
/// were. The descriptor stays.
pub proof fn law_report_per_direction(reg: Registration, fds: Fds, event: Event)
    ensures
        reg.observed(fds).fd == reg.fd,
        reg.observed(fds).ready(event) == (reg.ready(event) || fds.contains(reg.fd, event)),
        reg.observed(fds).waker(event) == (if fds.contains(reg.fd, event) {
            None
        } else {
            reg.waker(event)
        }),
        !fds.contains(reg.fd, event) ==> reg.observed(fds).ready(event) == reg.ready(event),
{
}

/// A descriptor that is neither negative, nor the notification descriptor, nor
/// registered, is registered exactly where it lies below the size of a
/// descriptor set and the registry has room; one at or beyond that size is
/// refused as out of memory.
pub proof fn law_register_below_set_size(regs: Registrations, fd: i32)
    requires
        regs.wf(),
        fd >= 0,
        regs.event_fd_of() != Some(fd),
        !has_fd(regs.regs(), fd),
    ensures
        (register_result(regs.regs(), regs.event_fd_of(), regs.fd_limit(), fd) is Ok) == (fd
            < regs.fd_limit() && regs.regs().len() < MAX_REGISTRATIONS),
        fd >= regs.fd_limit() ==> register_result(regs.regs(), regs.event_fd_of(), regs.fd_limit(), fd)
            == Err::<(), ErrorKind>(ErrorKind::OutOfMemory),
{
}

/// A new registry registers every descriptor from 0 up to below the size of a
/// descriptor set, whatever that size is on the target (at least 64), and
/// refuses those from that size up as out of memory.
pub proof fn law_new_registers_below_set_size(regs: Registrations, fd: i32)
    requires
        regs.wf(),
        regs.regs() == Seq::<Registration>::empty(),
        regs.event_fd_of() is None,
        known_fd_setsize(regs.fd_limit()),
        0 <= fd,
    ensures
        fd < regs.fd_limit() ==> register_result(regs.regs(), regs.event_fd_of(), regs.fd_limit(), fd)
            == Ok::<(), ErrorKind>(()),
        fd < 64 ==> register_result(regs.regs(), regs.event_fd_of(), regs.fd_limit(), fd) == Ok::<
            (),
            ErrorKind,
        >(()),
        fd >= regs.fd_limit() ==> register_result(regs.regs(), regs.event_fd_of(), regs.fd_limit(), fd)
            == Err::<(), ErrorKind>(ErrorKind::OutOfMemory),
{
    assert(!fd_at(regs.regs(), fd, 0));
}

/// A task that asks to wait on a registered descriptor that is not ready
/// (`before` and `after` the registry around `fetch_or_set`, `r` its answer):
/// the new waker is kept; the waker kept before, if any, is what was compared
/// with it, and unless `Waker::will_wake` found both to wake the same task, it is
/// handed back to be woken. Nothing is handed back where none was kept.
pub proof fn law_displaced_waker_handed_back(
    before: Registrations,
    after: Registrations,
    fd: i32,
    event: Event,
    waker: Waker,
    r: Result<(bool, Option<Waker>), ErrorKind>,
    i: int,
)
    requires
        fd_at(before.regs(), fd, i),
        !before.regs()[i].ready(event),
        Registrations::waited(before, after, i, event, waker, r),
    ensures
        after.regs()[i].waker(event) == Some(waker),
        !after.regs()[i].ready(event),
        before.regs()[i].waker(event) is None ==> r == Ok::<(bool, Option<Waker>), ErrorKind>(
            (false, None),
        ),
        before.regs()[i].waker(event) matches Some(k) ==> (after.last_compared() matches Some(c)
            && c.kept() == k && c.polling() == waker && r == Ok::<(bool, Option<Waker>), ErrorKind>(
            (false, if c.same_task() {
                None
            } else {
                Some(k)
            }),
        )),
{
}

/// The wakers present among `w`, in order.
pub open spec fn present(w: (Option<Waker>, Option<Waker>)) -> Seq<Waker> {
    let first = match w.0 {
        Some(a) => seq![a],
        None => Seq::<Waker>::empty(),
    };
    let second = match w.1 {
        Some(b) => seq![b],
        None => Seq::<Waker>::empty(),
    };
    first + second
}

/// The wakers that a wait reporting the descriptors in `fds` takes from the
/// registrations, in order.
pub open spec fn taken_wakers(regs: Seq<Registration>, fds: Fds) -> Seq<Waker>
    decreases regs.len(),
{
    if regs.len() == 0 {
        Seq::<Waker>::empty()
    } else {
        taken_wakers(regs.drop_last(), fds) + present(regs.last().taken(fds))
    }
}

/// The most wakers a wait can take: one per direction of each registration.
pub const WAKER_CAPACITY: usize = 2 * MAX_REGISTRATIONS;

/// `heapless::Vec<Registration, MAX_REGISTRATIONS>`, held and changed only through
/// the calls below.
#[verifier::external_type_specification]
#[verifier::external_body]
#[verifier::reject_recursive_types(T)]
pub struct ExHeaplessVec<T, const N: usize>(heapless::Vec<T, N>);

/// The registrations that a fixed-capacity vector holds, in order.
pub uninterp spec fn slots(v: heapless::Vec<Registration, MAX_REGISTRATIONS>) -> Seq<Registration>;

/// Calls `heapless::Vec::new`: an empty vector.
#[verifier::external_body]
fn slots_new() -> (v: heapless::Vec<Registration, MAX_REGISTRATIONS>)
    ensures
        slots(v) == Seq::<Registration>::empty(),
{
    heapless::Vec::new()
}

/// The wakers that a fixed-capacity vector holds, in order.
pub uninterp spec fn taken(v: heapless::Vec<Waker, WAKER_CAPACITY>) -> Seq<Waker>;

/// Calls `heapless::Vec::new`: an empty vector of wakers.
#[verifier::external_body]
fn wakers_new() -> (v: heapless::Vec<Waker, WAKER_CAPACITY>)
    ensures
        taken(v) == Seq::<Waker>::empty(),
{
    heapless::Vec::new()
}

/// Calls `heapless::Vec::push` on a vector of wakers: appends `item` where the
/// vector holds fewer than its capacity, else hands `item` back and leaves the
/// vector as it was.
#[verifier::external_body]
fn wakers_push(v: &mut heapless::Vec<Waker, WAKER_CAPACITY>, item: Waker) -> (r: Result<(), Waker>)
    ensures
        r == (if taken(*old(v)).len() < WAKER_CAPACITY {
            Ok::<(), Waker>(())
        } else {
            Err::<(), Waker>(item)
        }),
        taken(*final(v)) == (if taken(*old(v)).len() < WAKER_CAPACITY {
            taken(*old(v)).push(item)
        } else {
            taken(*old(v))
        }),
{
    v.push(item)
}

/// Calls `heapless::Vec::push`: appends `item` where the vector holds fewer than
/// its capacity, else hands `item` back and leaves the vector as it was.
#[verifier::external_body]
fn slots_push(v: &mut heapless::Vec<Registration, MAX_REGISTRATIONS>, item: Registration) -> (r:
    Result<(), Registration>)
    ensures
        r == (if slots(*old(v)).len() < MAX_REGISTRATIONS {
            Ok::<(), Registration>(())
        } else {
            Err::<(), Registration>(item)
        }),
        slots(*final(v)) == (if slots(*old(v)).len() < MAX_REGISTRATIONS {
            slots(*old(v)).push(item)
        } else {
            slots(*old(v))
        }),
{
    v.push(item)
}

/// Calls `heapless::Vec::swap_remove`: removes the element at `index`, moving the
/// last one into its place, and returns it.
#[verifier::external_body]
fn slots_swap_remove(v: &mut heapless::Vec<Registration, MAX_REGISTRATIONS>, index: usize) -> (r:
    Registration)
    requires
        index < slots(*old(v)).len(),
    ensures
        r == slots(*old(v))[index as int],
        slots(*final(v)) == swap_remove_spec(slots(*old(v)), index as int),
{
    v.swap_remove(index)
}

/// Calls `heapless::Vec::as_slice`: the elements, in order.
#[verifier::external_body]
fn slots_as_slice(v: &heapless::Vec<Registration, MAX_REGISTRATIONS>) -> (r: &[Registration])
    ensures
        r@ == slots(*v),
{
    v.as_slice()
}

/// Calls `heapless::Vec::as_mut_slice`: the elements, in order, as a slice whose
/// changes are the vector's.
#[verifier::external_body]
fn slots_as_mut_slice(v: &mut heapless::Vec<Registration, MAX_REGISTRATIONS>) -> (r:
    &mut [Registration])
    ensures
        r@ == slots(*old(v)),
        slots(*final(v)) == final(r)@,
{
    v.as_mut_slice()
}


/// The number of descriptors a wait watches in one direction at most: every
/// registered one and the notification descriptor.
pub const FD_CAPACITY: usize = MAX_REGISTRATIONS + 1;

/// `s` with `fd` added where it is not in it yet.
pub open spec fn with_fd(s: Seq<i32>, fd: i32) -> Seq<i32> {
    if s.contains(fd) {
        s
    } else {
        s.push(fd)
    }
}

/// The descriptor sets that a wait watches for reading and for writing, each
/// held in a fixed array.
pub struct Fds {
    read: [i32; FD_CAPACITY],
    read_len: usize,
    write: [i32; FD_CAPACITY],
    write_len: usize,
}

impl Fds {
    #[verifier::type_invariant]
    spec fn lengths_fit(self) -> bool {
        self.read_len <= FD_CAPACITY && self.write_len <= FD_CAPACITY
    }

    /// The descriptors in the set for `event`, in the order they were added.
    pub closed spec fn entries(self, event: Event) -> Seq<i32> {
        match event {
            Event::Read => self.read@.take(
                if self.read_len <= FD_CAPACITY {
                    self.read_len as int
                } else {
                    FD_CAPACITY as int
                },
            ),
            Event::Write => self.write@.take(
                if self.write_len <= FD_CAPACITY {
                    self.write_len as int
                } else {
                    FD_CAPACITY as int
                },
            ),
        }
    }

    /// The set for `event` holds `fd`.
    pub open spec fn contains(self, fd: i32, event: Event) -> bool {
        self.entries(event).contains(fd)
    }

    /// The number of descriptors in the set for `event`.
    pub open spec fn count(self, event: Event) -> nat {
        self.entries(event).len()
    }

    /// Both sets are empty.
    pub open spec fn is_empty(self) -> bool {
        self.entries(Event::Read).len() == 0 && self.entries(Event::Write).len() == 0
    }

    /// Two empty sets.
    pub fn new() -> (r: Fds)
        ensures
            r.is_empty(),
    {
        Fds { read: [0; FD_CAPACITY], read_len: 0, write: [0; FD_CAPACITY], write_len: 0 }
    }

    /// Empties both sets.
    pub fn zero(&mut self)
        ensures
            final(self).is_empty(),
    {
        proof {
            use_type_invariant(&*self);
        }
        self.read_len = 0;
        self.write_len = 0;
    }

    /// Does the set for `event` hold `fd`?
    pub fn is_set(&self, fd: i32, event: Event) -> (r: bool)
        ensures
            r == self.contains(fd, event),
    {
        let v = self.fds(event);
        let mut i: usize = 0;
        while i < v.len()
            invariant
                i <= v@.len(),
                v@ == self.entries(event),
                forall|j: int| 0 <= j < i ==> v@[j] != fd,
            decreases v@.len() - i,
        {
            if v[i] == fd {
                assert(v@[i as int] == fd);
                return true;
            }
            i = i + 1;
        }
        false
    }

    /// Adds `fd` to the set for `event`, where it is not there yet and the set
    /// has room (`FD_CAPACITY` descriptors: all that a wait watches). Returns
    /// whether the set holds `fd` afterwards.
    pub fn set(&mut self, fd: i32, event: Event) -> (held: bool)
        ensures
            held == (old(self).contains(fd, event) || old(self).count(event) < FD_CAPACITY),
            final(self).entries(event) == (if held {
                with_fd(old(self).entries(event), fd)
            } else {
                old(self).entries(event)
            }),
            final(self).entries(other(event)) == old(self).entries(other(event)),
    {
        proof {
            use_type_invariant(&*self);
        }
        if self.is_set(fd, event) {
            return true;
        }
        if self.fds(event).len() >= FD_CAPACITY {
            return false;
        }
        match event {
            Event::Read => {
                let len = self.read_len;
                self.read[len] = fd;
                self.read_len = len + 1;
                assert(self.entries(Event::Read) =~= old(self).entries(Event::Read).push(fd));
            },
            Event::Write => {
                let len = self.write_len;
                self.write[len] = fd;
                self.write_len = len + 1;
                assert(self.entries(Event::Write) =~= old(self).entries(Event::Write).push(fd));
            },
        }
        true
    }

    /// The descriptors in the set for `event`, in the order they were added.
    pub fn fds(&self, event: Event) -> (r: &[i32])
        ensures
            r@ == self.entries(event),
    {
        proof {
            use_type_invariant(self);
        }
        match event {
            Event::Read => self.read.as_slice().split_at(self.read_len).0,
            Event::Write => self.write.as_slice().split_at(self.write_len).0,
        }
    }
}

/// Adding `fd` to a sequence keeps what it held and adds `fd` alone.
pub proof fn lemma_with_fd_contains(s: Seq<i32>, fd: i32, f: i32)
    ensures
        with_fd(s, fd).contains(f) == (s.contains(f) || f == fd),
        with_fd(s, fd).len() <= s.len() + 1,
{
    if !s.contains(fd) {
        let t = s.push(fd);
        assert(t[s.len() as int] == fd);
        if s.contains(f) {
            let k = choose|k: int| 0 <= k < s.len() && s[k] == f;
            assert(t[k] == f);
        }
        if t.contains(f) && f != fd {
            let k = choose|k: int| 0 <= k < t.len() && t[k] == f;
            assert(s[k] == f);
        }
    }
}

/// The registered descriptors, the notification descriptor that wakes a wait,
/// the number of descriptors a descriptor set holds, and what the latest request
/// to wait found when it compared the waker kept with the new one.
pub struct Registrations {
    vec: heapless::Vec<Registration, MAX_REGISTRATIONS>,
    event_fd: Option<i32>,
    fd_limit: FdSetSize,
    compared: Option<WakeCheck>,
}

impl Registrations {
    /// The registrations, in order.
    pub closed spec fn regs(self) -> Seq<Registration> {
        slots(self.vec)
    }

    /// The notification descriptor, if one is attached.
    pub closed spec fn event_fd_of(self) -> Option<i32> {
        self.event_fd
    }

    /// The number of descriptors a descriptor set holds.
    pub closed spec fn fd_limit(self) -> usize {
        self.fd_limit.size_spec()
    }

    /// What `Waker::will_wake` answered when the latest request to wait
    /// compared the waker kept with the new one; none where it found none kept.
    pub closed spec fn last_compared(self) -> Option<WakeCheck> {
        self.compared
    }

    /// At most `MAX_REGISTRATIONS` registrations, each of a descriptor below the
    /// limit, none twice.
    pub open spec fn wf(self) -> bool {
        &&& self.regs().len() <= MAX_REGISTRATIONS
        &&& unique_fds(self.regs())
        &&& forall|i: int| 0 <= i < self.regs().len() ==> 0 <= #[trigger] self.regs()[i].fd
            < self.fd_limit()
    }

    /// An empty registry without a notification descriptor.
    pub fn new() -> (r: Registrations)
        ensures
            r.wf(),
            r.regs() == Seq::<Registration>::empty(),
            r.event_fd_of() is None,
            64 <= r.fd_limit() <= 65536,
            known_fd_setsize(r.fd_limit()),
            r.last_compared() is None,
    {
        Registrations { vec: slots_new(), event_fd: None, fd_limit: fd_setsize(), compared: None }
    }

    /// The notification descriptor, if one is attached.
    pub fn event_fd(&self) -> (r: Option<i32>)
        ensures
            r == self.event_fd_of(),
    {
        self.event_fd
    }

    /// What `Waker::will_wake` answered when the latest request to wait compared
    /// the waker kept with the new one; none where it found none kept.
    pub fn last_check(&self) -> (r: &Option<WakeCheck>)
        ensures
            *r == self.last_compared(),
    {
        &self.compared
    }

    /// The number of registrations.
    pub fn len(&self) -> (r: usize)
        ensures
            r == self.regs().len(),
    {
        slots_as_slice(&self.vec).len()
    }

    /// Attaches the notification descriptor `fd`.
    pub fn attach_notification(&mut self, fd: i32)
        requires
            old(self).wf(),
            old(self).event_fd_of() is None,
        ensures
            final(self).wf(),
            final(self).regs() == old(self).regs(),
            final(self).fd_limit() == old(self).fd_limit(),
            final(self).event_fd_of() == Some(fd),
    {
        self.event_fd = Some(fd);
    }

    /// Detaches the notification descriptor, handing it back.
    pub fn detach_notification(&mut self) -> (r: Option<i32>)
        requires
            old(self).wf(),
        ensures
            final(self).wf(),
            final(self).regs() == old(self).regs(),
            final(self).fd_limit() == old(self).fd_limit(),
            final(self).event_fd_of() is None,
            r == old(self).event_fd_of(),
    {
        self.event_fd.take()
    }

    /// The index of the registration of `fd`, if it is registered.
    fn position(&self, fd: i32) -> (r: Option<usize>)
        requires
            self.wf(),
        ensures
            r matches Some(i) ==> fd_at(self.regs(), fd, i as int),
            r is None ==> !has_fd(self.regs(), fd),
    {
        let s = slots_as_slice(&self.vec);
        let mut i: usize = 0;
        while i < s.len()
            invariant
                i <= s@.len(),
                s@ == self.regs(),
                forall|j: int| 0 <= j < i ==> s@[j].fd != fd,
            decreases s@.len() - i,
        {
            if s[i].fd == fd {
                return Some(i);
            }
            i = i + 1;
        }
        assert forall|j: int| !fd_at(self.regs(), fd, j) by {
            if 0 <= j < s@.len() {
                assert(s@[j].fd != fd);
            }
        }
        None
    }

    /// Registers `fd`, with nothing observed and nobody waiting.
    pub fn register(&mut self, fd: i32) -> (r: Result<(), ErrorKind>)
        requires
            old(self).wf(),
        ensures
            final(self).wf(),
            final(self).event_fd_of() == old(self).event_fd_of(),
            final(self).fd_limit() == old(self).fd_limit(),
            r == register_result(old(self).regs(), old(self).event_fd_of(), old(self).fd_limit(), fd),
            r is Ok ==> final(self).regs() == old(self).regs().push(Registration::fresh(fd)),
            r is Err ==> final(self).regs() == old(self).regs(),
    {
        let clash = match self.event_fd {
            Some(event_fd) => event_fd == fd,
            None => false,
        };
        if fd < 0 || clash {
            return Err(ErrorKind::InvalidInput);
        }
        if fd as usize >= self.fd_limit.size() {
            return Err(ErrorKind::OutOfMemory);
        }
        if self.position(fd).is_some() {
            return Err(ErrorKind::InvalidInput);
        }
        let ghost before = self.regs();
        match slots_push(&mut self.vec, Registration::new(fd)) {
            Ok(()) => {
                assert(self.regs() == before.push(Registration::fresh(fd)));
                assert forall|i: int, j: int|
                    0 <= i < self.regs().len() && 0 <= j < self.regs().len() && i != j implies
                    #[trigger] self.regs()[i].fd != #[trigger] self.regs()[j].fd by {
                    if i == before.len() as int {
                        assert(!fd_at(before, fd, j));
                    } else if j == before.len() as int {
                        assert(!fd_at(before, fd, i));
                    }
                }
                Ok(())
            },
            Err(_) => Err(ErrorKind::OutOfMemory),
        }
    }

    /// Deregisters `fd`, moving the last registration into its place.
    pub fn deregister(&mut self, fd: i32) -> (r: Result<(), ErrorKind>)
        requires
            old(self).wf(),
        ensures
            final(self).wf(),
            final(self).event_fd_of() == old(self).event_fd_of(),
            final(self).fd_limit() == old(self).fd_limit(),
            !has_fd(old(self).regs(), fd) ==> r == Err::<(), ErrorKind>(ErrorKind::NotFound)
                && final(self).regs() == old(self).regs(),
            forall|i: int| #[trigger]
                fd_at(old(self).regs(), fd, i) ==> r is Ok && final(self).regs() == swap_remove_spec(
                    old(self).regs(),
                    i,
                ),
    {
        let index = match self.position(fd) {
            Some(i) => i,
            None => return Err(ErrorKind::NotFound),
        };
        let ghost before = self.regs();
        let _removed = slots_swap_remove(&mut self.vec, index);
        proof {
            let after = self.regs();
            assert forall|i: int| #[trigger] fd_at(before, fd, i) implies i == index as int by {
                if i != index as int {
                    assert(before[i].fd != before[index as int].fd);
                }
            }
            assert forall|i: int| 0 <= i < after.len() implies (#[trigger] after[i] == before[i]
                || (i == index as int && after[i] == before.last())) by {}
            assert forall|i: int, j: int|
                0 <= i < after.len() && 0 <= j < after.len() && i != j implies #[trigger] after[i].fd
                != #[trigger] after[j].fd by {
                let last = before.len() - 1;
                let bi = if i == index as int {
                    last
                } else {
                    i
                };
                let bj = if j == index as int {
                    last
                } else {
                    j
                };
                assert(after[i] == before[bi]);
                assert(after[j] == before[bj]);
            }
            assert forall|i: int| 0 <= i < after.len() implies 0 <= #[trigger] after[i].fd
                < self.fd_limit() by {
                if i == index as int {
                    assert(after[i] == before[before.len() - 1]);
                } else {
                    assert(after[i] == before[i]);
                }
            }
        }
        Ok(())
    }

    /// Records that the task of `waker` waits on `fd` in `event`: that readiness is
    /// cleared and `waker` is kept. Hands back the waker it displaces for the
    /// caller to wake, unless that wakes the same task as `waker`: what
    /// `Waker::will_wake` answered, recorded as the latest comparison (see `arm`).
    pub fn set(&mut self, fd: i32, event: Event, waker: Waker) -> (r: Result<Option<Waker>, ErrorKind>)
        requires
            old(self).wf(),
        ensures
            final(self).wf(),
            final(self).event_fd_of() == old(self).event_fd_of(),
            final(self).fd_limit() == old(self).fd_limit(),
            !has_fd(old(self).regs(), fd) ==> r == Err::<Option<Waker>, ErrorKind>(
                ErrorKind::NotFound,
            ) && final(self).regs() == old(self).regs(),
            forall|i: int| #[trigger]
                fd_at(old(self).regs(), fd, i) ==> is_check_of(
                    final(self).last_compared(),
                    old(self).regs()[i].waker(event),
                    waker,
                ) && Self::is_armed(
                    old(self).regs(),
                    final(self).regs(),
                    i,
                    event,
                    waker,
                    answered_same(final(self).last_compared()),
                    r,
                ),
    {
        let index = match self.position(fd) {
            Some(i) => i,
            None => return Err(ErrorKind::NotFound),
        };
        let s = slots_as_slice(&self.vec);
        let current = match event {
            Event::Read => &s[index].read_waker,
            Event::Write => &s[index].write_waker,
        };
        let compared = match current {
            Some(current) => Some(will_wake(current, &waker)),
            None => None,
        };
        let same_task = match &compared {
            Some(c) => c.is_same_task(),
            None => false,
        };
        let ghost before = self.regs();
        let r = self.arm(fd, event, waker, same_task);
        self.compared = compared;
        proof {
            assert(fd_at(before, fd, index as int));
            self.lemma_unique_index(before, fd, index as int);
            assert(Self::is_armed(before, self.regs(), index as int, event, waker, same_task, r));
        }
        r
    }

    /// `new` is `old` with the task of `waker` waiting on the registration at
    /// `i` in `event`, and `r` the waker to wake: the one displaced, unless none
    /// was or it wakes the same task (`same_task`).
    pub open spec fn is_armed(
        old: Seq<Registration>,
        new: Seq<Registration>,
        i: int,
        event: Event,
        waker: Waker,
        same_task: bool,
        r: Result<Option<Waker>, ErrorKind>,
    ) -> bool {
        &&& Self::changed_at(old, new, i)
        &&& Registration::armed(old[i], new[i], event)
        &&& new[i].waker(event) == Some(waker)
        &&& r == Ok::<Option<Waker>, ErrorKind>(
            if same_task {
                None
            } else {
                old[i].waker(event)
            },
        )
    }

    /// Records that the task of `waker` waits on `fd` in `event`, where
    /// `same_task` is whether the waker kept there now wakes the same task as
    /// `waker` (what `Waker::will_wake` answers). Hands back the displaced waker
    /// to wake: none where `same_task` holds.
    pub fn arm(&mut self, fd: i32, event: Event, waker: Waker, same_task: bool) -> (r: Result<
        Option<Waker>,
        ErrorKind,
    >)
        requires
            old(self).wf(),
        ensures
            final(self).wf(),
            final(self).event_fd_of() == old(self).event_fd_of(),
            final(self).fd_limit() == old(self).fd_limit(),
            !has_fd(old(self).regs(), fd) ==> r == Err::<Option<Waker>, ErrorKind>(
                ErrorKind::NotFound,
            ) && final(self).regs() == old(self).regs(),
            forall|i: int| #[trigger]
                fd_at(old(self).regs(), fd, i) ==> Self::is_armed(
                    old(self).regs(),
                    final(self).regs(),
                    i,
                    event,
                    waker,
                    same_task,
                    r,
                ),
    {
        let index = match self.position(fd) {
            Some(i) => i,
            None => return Err(ErrorKind::NotFound),
        };
        let ghost before = self.regs();
        let displaced = self.arm_slot(index, event, waker);
        proof {
            self.lemma_unique_index(before, fd, index as int);
        }
        if same_task {
            Ok(None)
        } else {
            Ok(displaced)
        }
    }

    /// `new` is `old` with at most the registration at `i` changed, and its
    /// descriptor kept.
    pub open spec fn changed_at(old: Seq<Registration>, new: Seq<Registration>, i: int) -> bool {
        &&& new.len() == old.len()
        &&& forall|j: int| 0 <= j < old.len() && j != i ==> #[trigger] new[j] == old[j]
        &&& new[i].fd == old[i].fd
    }

    /// An index that holds `fd` is the only one.
    proof fn lemma_unique_index(self, regs: Seq<Registration>, fd: i32, index: int)
        requires
            unique_fds(regs),
            fd_at(regs, fd, index),
        ensures
            forall|i: int| #[trigger] fd_at(regs, fd, i) ==> i == index,
    {
        assert forall|i: int| #[trigger] fd_at(regs, fd, i) implies i == index by {
            if i != index {
                assert(regs[i].fd != regs[index].fd);
            }
        }
    }

    /// Keeps `waker` for `event` at registration `index` and clears that
    /// readiness, handing back the waker kept before.
    fn arm_slot(&mut self, index: usize, event: Event, waker: Waker) -> (r: Option<Waker>)
        requires
            old(self).wf(),
            index < old(self).regs().len(),
        ensures
            final(self).wf(),
            final(self).event_fd_of() == old(self).event_fd_of(),
            final(self).fd_limit() == old(self).fd_limit(),
            Self::changed_at(old(self).regs(), final(self).regs(), index as int),
            Registration::armed(old(self).regs()[index as int], final(self).regs()[index as int], event),
            final(self).regs()[index as int].waker(event) == Some(waker),
            r == old(self).regs()[index as int].waker(event),
    {
        let s = slots_as_mut_slice(&mut self.vec);
        let reg = &mut s[index];
        match event {
            Event::Read => {
                reg.read_ready = false;
                let previous = reg.read_waker.take();
                reg.read_waker = Some(waker);
                previous
            },
            Event::Write => {
                reg.write_ready = false;
                let previous = reg.write_waker.take();
                reg.write_waker = Some(waker);
                previous
            },
        }
    }

    /// Fetches the readiness of `fd` in `event`, clearing it.
    pub fn fetch(&mut self, fd: i32, event: Event) -> (r: Result<bool, ErrorKind>)
        requires
            old(self).wf(),
        ensures
            final(self).wf(),
            final(self).event_fd_of() == old(self).event_fd_of(),
            final(self).fd_limit() == old(self).fd_limit(),
            !has_fd(old(self).regs(), fd) ==> r == Err::<bool, ErrorKind>(ErrorKind::NotFound)
                && final(self).regs() == old(self).regs(),
            forall|i: int| #[trigger]
                fd_at(old(self).regs(), fd, i) ==> r == Ok::<bool, ErrorKind>(
                    old(self).regs()[i].ready(event),
                ) && Self::changed_at(old(self).regs(), final(self).regs(), i)
                    && Registration::consumed(old(self).regs()[i], final(self).regs()[i], event),
    {
        let index = match self.position(fd) {
            Some(i) => i,
            None => return Err(ErrorKind::NotFound),
        };
        let ghost before = self.regs();
        let ready = self.consume_slot(index, event);
        proof {
            self.lemma_unique_index(before, fd, index as int);
        }
        Ok(ready)
    }

    /// Clears the readiness in `event` at registration `index`, handing it back.
    fn consume_slot(&mut self, index: usize, event: Event) -> (r: bool)
        requires
            old(self).wf(),
            index < old(self).regs().len(),
        ensures
            final(self).wf(),
            final(self).event_fd_of() == old(self).event_fd_of(),
            final(self).fd_limit() == old(self).fd_limit(),
            Self::changed_at(old(self).regs(), final(self).regs(), index as int),
            Registration::consumed(old(self).regs()[index as int], final(self).regs()[index as int], event),
            r == old(self).regs()[index as int].ready(event),
    {
        let s = slots_as_mut_slice(&mut self.vec);
        let reg = &mut s[index];
        match event {
            Event::Read => {
                let ready = reg.read_ready;
                reg.read_ready = false;
                ready
            },
            Event::Write => {
                let ready = reg.write_ready;
                reg.write_ready = false;
                ready
            },
        }
    }

    /// Fetches the readiness of `fd` in `event`; where there is none, records
    /// that the task of `waker` waits for it (as `set` does). `Ok((false,
    /// to_wake))` means that it waits, `to_wake` being what `set` hands back.
    pub fn fetch_or_set(&mut self, fd: i32, event: Event, waker: Waker) -> (r: Result<
        (bool, Option<Waker>),
        ErrorKind,
    >)
        requires
            old(self).wf(),
        ensures
            final(self).wf(),
            final(self).event_fd_of() == old(self).event_fd_of(),
            final(self).fd_limit() == old(self).fd_limit(),
            !has_fd(old(self).regs(), fd) ==> r == Err::<(bool, Option<Waker>), ErrorKind>(
                ErrorKind::NotFound,
            ) && final(self).regs() == old(self).regs(),
            forall|i: int| #[trigger]
                fd_at(old(self).regs(), fd, i) ==> (if old(self).regs()[i].ready(event) {
                    r == Ok::<(bool, Option<Waker>), ErrorKind>((true, None))
                        && Self::changed_at(old(self).regs(), final(self).regs(), i)
                        && Registration::consumed(old(self).regs()[i], final(self).regs()[i], event)
                } else {
                    Self::waited(*old(self), *final(self), i, event, waker, r)
                }),
    {
        let ghost before = self.regs();
        match self.fetch(fd, event) {
            Err(e) => Err(e),
            Ok(true) => Ok((true, None)),
            Ok(false) => {
                let ghost middle = self.regs();
                proof {
                    assert forall|i: int| #[trigger] fd_at(before, fd, i) implies middle == before by {
                        assert(Self::changed_at(before, middle, i));
                        assert(middle[i] == before[i]);
                        assert(middle =~= before);
                    }
                }
                match self.set(fd, event, waker) {
                    Err(e) => {
                        proof {
                            assert forall|i: int| #[trigger] fd_at(before, fd, i) implies false by {
                                assert(fd_at(middle, fd, i));
                            }
                        }
                        Err(e)
                    },
                    Ok(to_wake) => {
                        let r: Result<(bool, Option<Waker>), ErrorKind> = Ok((false, to_wake));
                        proof {
                            assert forall|i: int| #[trigger] fd_at(before, fd, i) implies Self::waited(
                                *old(self),
                                *self,
                                i,
                                event,
                                waker,
                                r,
                            ) by {
                                assert(fd_at(middle, fd, i));
                            }
                        }
                        r
                    },
                }
            },
        }
    }

    /// `new` is `old` with the task of `waker` waiting on the registration at `i`
    /// in `event`, after `fetch_or_set` found no readiness there: `r` answers
    /// `false` with the waker to wake, where the kept waker was compared with
    /// `waker` (see `is_armed`).
    pub open spec fn waited(
        old: Registrations,
        new: Registrations,
        i: int,
        event: Event,
        waker: Waker,
        r: Result<(bool, Option<Waker>), ErrorKind>,
    ) -> bool {
        &&& r is Ok
        &&& !r.unwrap().0
        &&& is_check_of(new.last_compared(), old.regs()[i].waker(event), waker)
        &&& Self::is_armed(
            old.regs(),
            new.regs(),
            i,
            event,
            waker,
            answered_same(new.last_compared()),
            Ok::<Option<Waker>, ErrorKind>(r.unwrap().1),
        )
    }

    /// Fills `fds` with what a wait watches: the notification descriptor for
    /// reading, and each registered descriptor in each direction a task waits for.
    /// Returns the largest of the notification descriptor and all registered
    /// descriptors, or none where there are none.
    pub fn set_fds(&self, fds: &mut Fds) -> (r: Option<i32>)
        requires
            self.wf(),
        ensures
            r == max_fd(self.regs(), self.event_fd_of()),
            forall|fd: i32, event: Event| #[trigger]
                final(fds).contains(fd, event) == ((event == Event::Read && self.event_fd_of()
                    == Some(fd)) || exists|i: int| #[trigger]
                    fd_at(self.regs(), fd, i) && self.regs()[i].waker(event) is Some),
            forall|fd: i32, event: Event| #[trigger]
                final(fds).contains(fd, event) ==> (r matches Some(m) && fd <= m),
    {
        fds.zero();
        let mut max: Option<i32> = None;
        let ghost empty = *fds;
        match self.event_fd {
            Some(event_fd) => {
                fds.set(event_fd, Event::Read);
                max = Some(event_fd);
            },
            None => {},
        }
        let s = slots_as_slice(&self.vec);
        let ghost regs = self.regs();
        proof {
            assert forall|fd: i32, event: Event| #[trigger]
                fds.contains(fd, event) == ((event == Event::Read && self.event_fd_of()
                    == Some(fd)) || exists|j: int| #[trigger]
                    fd_at(regs.take(0), fd, j) && regs[j].waker(event) is Some) by {
                if let Some(e) = self.event_fd_of() {
                    lemma_with_fd_contains(empty.entries(Event::Read), e, fd);
                }
                assert(!empty.entries(event).contains(fd));
            }
            if let Some(e) = self.event_fd_of() {
                lemma_with_fd_contains(empty.entries(Event::Read), e, e);
            }
        }
        let mut i: usize = 0;
        while i < s.len()
            invariant
                s@ == regs,
                regs == self.regs(),
                regs.len() <= MAX_REGISTRATIONS,
                i <= s@.len(),
                max == max_fd(regs.take(i as int), self.event_fd_of()),
                fds.count(Event::Read) <= i + 1,
                fds.count(Event::Write) <= i,
                forall|fd: i32, event: Event| #[trigger]
                    fds.contains(fd, event) == ((event == Event::Read && self.event_fd_of()
                        == Some(fd)) || exists|j: int| #[trigger]
                        fd_at(regs.take(i as int), fd, j) && regs[j].waker(event) is Some),
            decreases s@.len() - i,
        {
            let reg = &s[i];
            let ghost before = *fds;
            if reg.read_waker.is_some() {
                proof {
                    lemma_with_fd_contains(before.entries(Event::Read), reg.fd, reg.fd);
                }
                fds.set(reg.fd, Event::Read);
            }
            let ghost mid = *fds;
            if reg.write_waker.is_some() {
                proof {
                    lemma_with_fd_contains(mid.entries(Event::Write), reg.fd, reg.fd);
                }
                fds.set(reg.fd, Event::Write);
            }
            proof {
                assert forall|f: i32, e: Event| #[trigger] fds.contains(f, e) == (before.contains(
                    f,
                    e,
                ) || (f == regs[i as int].fd && regs[i as int].waker(e) is Some)) by {
                    lemma_with_fd_contains(before.entries(e), regs[i as int].fd, f);
                    lemma_with_fd_contains(mid.entries(e), regs[i as int].fd, f);
                }
            }
            max = Some(
                match max {
                    Some(m) => if m >= reg.fd {
                        m
                    } else {
                        reg.fd
                    },
                    None => reg.fd,
                },
            );
            proof {
                let next = regs.take(i + 1);
                assert(next.drop_last() == regs.take(i as int));
                assert(next.last() == regs[i as int]);
                assert forall|fd: i32, event: Event| #[trigger]
                    fds.contains(fd, event) == ((event == Event::Read && self.event_fd_of()
                        == Some(fd)) || exists|j: int| #[trigger]
                        fd_at(next, fd, j) && regs[j].waker(event) is Some) by {
                    assert(before.contains(fd, event) == ((event == Event::Read && self.event_fd_of()
                        == Some(fd)) || exists|j: int| #[trigger]
                        fd_at(regs.take(i as int), fd, j) && regs[j].waker(event) is Some));
                    if fd == regs[i as int].fd && regs[i as int].waker(event) is Some {
                        assert(fd_at(next, fd, i as int));
                    }
                    if exists|j: int| #[trigger] fd_at(regs.take(i as int), fd, j) && regs[j].waker(
                        event,
                    ) is Some {
                        let j = choose|j: int| #[trigger]
                            fd_at(regs.take(i as int), fd, j) && regs[j].waker(event) is Some;
                        assert(fd_at(next, fd, j));
                    }
                    if exists|j: int| #[trigger] fd_at(next, fd, j) && regs[j].waker(event) is Some {
                        let j = choose|j: int| #[trigger] fd_at(next, fd, j) && regs[j].waker(
                            event,
                        ) is Some;
                        if j < i {
                            assert(fd_at(regs.take(i as int), fd, j));
                        }
                    }
                }
            }
            i = i + 1;
        }
        proof {
            assert(regs.take(s@.len() as int) == regs);
            Self::lemma_max_fd_bounds(regs, self.event_fd_of());
            assert forall|fd: i32, event: Event| #[trigger]
                fds.contains(fd, event) implies (max matches Some(m) && fd <= m) by {
                if exists|j: int| #[trigger] fd_at(regs, fd, j) && regs[j].waker(event) is Some {
                    let j = choose|j: int| #[trigger] fd_at(regs, fd, j) && regs[j].waker(event) is Some;
                    assert(regs[j].fd <= max_fd(regs, self.event_fd_of()).unwrap());
                }
            }
        }
        max
    }

    /// The largest descriptor is at least the notification descriptor and every
    /// registered one.
    pub proof fn lemma_max_fd_bounds(regs: Seq<Registration>, event_fd: Option<i32>)
        ensures
            event_fd matches Some(e) ==> (max_fd(regs, event_fd) matches Some(m) && e <= m),
            forall|i: int| 0 <= i < regs.len() ==> (max_fd(regs, event_fd) matches Some(m)
                && #[trigger] regs[i].fd <= m),
            max_fd(regs, event_fd) is None <==> (regs.len() == 0 && event_fd is None),
        decreases regs.len(),
    {
        if regs.len() > 0 {
            let init = regs.drop_last();
            Self::lemma_max_fd_bounds(init, event_fd);
            assert forall|i: int| 0 <= i < regs.len() implies (max_fd(regs, event_fd) matches Some(
                m) && #[trigger] regs[i].fd <= m) by {
                if i < regs.len() - 1 {
                    assert(regs[i] == init[i]);
                }
            }
        }
    }

    /// Records what a wait reported in `fds`: each registered descriptor found in
    /// a set becomes ready in that direction, and the waker waiting there is
    /// taken. Hands back the taken wakers, in registration order (reading before
    /// writing), for the caller to wake.
    pub fn update_events(&mut self, fds: &Fds) -> (woken: heapless::Vec<Waker, WAKER_CAPACITY>)
        requires
            old(self).wf(),
        ensures
            final(self).wf(),
            final(self).event_fd_of() == old(self).event_fd_of(),
            final(self).fd_limit() == old(self).fd_limit(),
            final(self).regs().len() == old(self).regs().len(),
            forall|i: int| 0 <= i < old(self).regs().len() ==> #[trigger] final(self).regs()[i]
                == old(self).regs()[i].observed(*fds),
            forall|i: int, event: Event|
                0 <= i < old(self).regs().len() ==> (#[trigger] final(self).regs()[i].ready(event)
                    == (old(self).regs()[i].ready(event) || fds.contains(old(self).regs()[i].fd, event))
                    && final(self).regs()[i].fd == old(self).regs()[i].fd
                    && final(self).regs()[i].waker(event) == (if fds.contains(
                    old(self).regs()[i].fd,
                    event,
                ) {
                    None
                } else {
                    old(self).regs()[i].waker(event)
                })),
            taken(woken) == taken_wakers(old(self).regs(), *fds),
    {
        let n = self.len();
        let ghost start = self.regs();
        let mut woken = wakers_new();
        let mut i: usize = 0;
        while i < n
            invariant
                self.wf(),
                self.event_fd_of() == old(self).event_fd_of(),
                self.fd_limit() == old(self).fd_limit(),
                start == old(self).regs(),
                n == start.len(),
                n <= MAX_REGISTRATIONS,
                i <= n,
                self.regs().len() == n,
                forall|j: int| 0 <= j < i ==> #[trigger] self.regs()[j] == start[j].observed(*fds),
                forall|j: int| i <= j < n ==> #[trigger] self.regs()[j] == start[j],
                taken(woken) == taken_wakers(start.take(i as int), *fds),
                taken(woken).len() <= 2 * i,
            decreases n - i,
        {
            let ghost reg = start[i as int];
            let (read, write) = self.observe_slot(i, fds);
            proof {
                let next = start.take(i + 1);
                assert(next.drop_last() == start.take(i as int));
                assert(next.last() == reg);
            }
            match read {
                Some(w) => {
                    let _ = wakers_push(&mut woken, w);
                },
                None => {},
            }
            match write {
                Some(w) => {
                    let _ = wakers_push(&mut woken, w);
                },
                None => {},
            }
            proof {
                assert(taken(woken) =~= taken_wakers(start.take(i + 1), *fds));
            }
            i = i + 1;
        }
        proof {
            assert(start.take(n as int) == start);
            assert forall|i: int, event: Event|
                0 <= i < start.len() implies (#[trigger] self.regs()[i].ready(event) == (
                start[i].ready(event) || fds.contains(start[i].fd, event)) && self.regs()[i].fd
                == start[i].fd && self.regs()[i].waker(event) == if fds.contains(
                start[i].fd,
                event,
            ) {
                None
            } else {
                start[i].waker(event)
            }) by {
                law_report_per_direction(start[i], *fds, event);
            }
        }
        woken
    }

    /// Records what a wait reported for registration `index`, handing back the
    /// wakers taken for reading and for writing.
    fn observe_slot(&mut self, index: usize, fds: &Fds) -> (r: (Option<Waker>, Option<Waker>))
        requires
            old(self).wf(),
            index < old(self).regs().len(),
        ensures
            final(self).wf(),
            final(self).event_fd_of() == old(self).event_fd_of(),
            final(self).fd_limit() == old(self).fd_limit(),
            Self::changed_at(old(self).regs(), final(self).regs(), index as int),
            final(self).regs()[index as int] == old(self).regs()[index as int].observed(*fds),
            final(self).regs()[index as int].read_ready == (old(self).regs()[index as int].read_ready
                || fds.contains(old(self).regs()[index as int].fd, Event::Read)),
            final(self).regs()[index as int].write_ready == (old(self).regs()[index as int].write_ready
                || fds.contains(old(self).regs()[index as int].fd, Event::Write)),
            r == old(self).regs()[index as int].taken(*fds),
    {
        let s = slots_as_mut_slice(&mut self.vec);
        let reg = &mut s[index];
        let read = if fds.is_set(reg.fd, Event::Read) {
            reg.read_ready = true;
            reg.read_waker.take()
        } else {
            None
        };
        let write = if fds.is_set(reg.fd, Event::Write) {
            reg.write_ready = true;
            reg.write_waker.take()
        } else {
            None
        };
        (read, write)
    }
}

} // verus!
