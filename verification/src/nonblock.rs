//! The non-blocking result convention shared by every capability operation.

use vstd::prelude::*;

verus! {

/// Three-way outcome of a non-blocking storage operation.
///
/// `Ready` carries the operation's value, `WouldBlock` means the device is
/// busy and the call must be re-issued later, and `Error` terminates the
/// operation. Callers are responsible for re-polling on `WouldBlock`; no
/// timer, executor or interrupt is implied.
#[derive(Debug)]
pub enum NbResult<T, E> {
    /// The operation completed with this value.
    Ready(T),
    /// The device is busy; retry the same call later.
    WouldBlock,
    /// The operation failed and must not be blindly retried.
    Error(E),
}

} // verus!
