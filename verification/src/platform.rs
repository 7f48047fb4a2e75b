//! What the time driver and the C library report: the driver's tick count and
//! tick rate, and the number of descriptors a descriptor set holds.
//!
//! The tick count depends on the time and the set size on the target, so each is
//! handed on in a value that only the call reading it makes: code elsewhere can
//! carry such a reading, and cannot make one up.
use vstd::prelude::*;

verus! {

/// The tick rate of the time driver as this crate builds it: its `std` feature
/// selects one million ticks per second, and the driver defines its rate once.
pub open spec fn driver_tick_hz() -> u64 {
    1_000_000
}

/// A reading of the time driver's tick count: only `driver_now` makes one.
pub struct DriverNow {
    ticks: u64,
}

impl DriverNow {
    /// The tick count read.
    pub closed spec fn ticks_spec(self) -> u64 {
        self.ticks
    }

    /// The tick count read.
    pub fn ticks(&self) -> (r: u64)
        ensures
            r == self.ticks_spec(),
    {
        self.ticks
    }
}

/// Calls `embassy_time_driver::now`: the driver's current tick count. It depends
/// on the time, so no clause states it; the result is the reading.
#[verifier::external_body]
pub(crate) fn driver_now() -> (r: DriverNow) {
    DriverNow { ticks: embassy_time_driver::now() }
}

/// Reads `embassy_time_driver::TICK_HZ`, the driver's ticks per second: one
/// million, which the `std` feature of `embassy-time` selects (a second
/// `tick-hz-*` feature would define the constant twice).
#[verifier::external_body]
pub(crate) fn tick_hz() -> (hz: u64)
    ensures
        hz == driver_tick_hz(),
{
    embassy_time_driver::TICK_HZ
}

/// The values that `libc::FD_SETSIZE` has on the targets that libc knows.
pub open spec fn known_fd_setsize(n: usize) -> bool {
    n == 64 || n == 256 || n == 1024 || n == 65534 || n == 65536
}

/// The number of descriptors a descriptor set holds on this target: only
/// `fd_setsize` makes one.
pub struct FdSetSize {
    size: usize,
}

impl FdSetSize {
    /// The number of descriptors a set holds.
    pub closed spec fn size_spec(self) -> usize {
        self.size
    }

    /// The number of descriptors a set holds.
    pub fn size(&self) -> (r: usize)
        ensures
            r == self.size_spec(),
    {
        self.size
    }
}

/// Reads `libc::FD_SETSIZE`, the number of descriptors a descriptor set holds.
/// Its value depends on the target; each target's value in libc is one of those
/// that `known_fd_setsize` lists.
#[verifier::external_body]
pub(crate) fn fd_setsize() -> (r: FdSetSize)
    ensures
        known_fd_setsize(r.size_spec()),
{
    FdSetSize { size: libc::FD_SETSIZE }
}

} // verus!
