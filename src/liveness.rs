//! The liveness flags that every session shares, and the status message built
//! from them.
use vstd::prelude::*;

verus! {

/// Whether a device and whether a viewer are connected. Every session flips
/// its own flag when it starts and when it ends.
#[derive(Clone, Copy, Debug, PartialEq, Eq, Structural)]
pub struct ConnectionState {
    pub arduino_connected: bool,
    pub frontend_connected: bool,
}

/// The connectivity that viewers are told of. The relay itself is up whenever
/// it can send one, so `backend_connected` is always true.
#[derive(Clone, Copy, Debug, PartialEq, Eq, Structural)]
pub struct ConnectionStatus {
    pub arduino_connected: bool,
    pub backend_connected: bool,
}

/// The state at startup: nothing connected.
pub open spec fn initial_state() -> ConnectionState {
    ConnectionState { arduino_connected: false, frontend_connected: false }
}

/// `s` with the device flag set to `on`.
pub open spec fn with_device(s: ConnectionState, on: bool) -> ConnectionState {
    ConnectionState { arduino_connected: on, ..s }
}

/// `s` with the viewer flag set to `on`.
pub open spec fn with_viewer(s: ConnectionState, on: bool) -> ConnectionState {
    ConnectionState { frontend_connected: on, ..s }
}

/// The status message that reports the device flag of `s`.
pub open spec fn status_of(s: ConnectionState) -> ConnectionStatus {
    ConnectionStatus { arduino_connected: s.arduino_connected, backend_connected: true }
}

impl ConnectionState {
    /// The state at startup.
    pub fn new() -> (r: ConnectionState)
        ensures
            r == initial_state(),
    {
        ConnectionState { arduino_connected: false, frontend_connected: false }
    }

    /// Records that a device session started (`on`) or ended, and returns the
    /// status message to broadcast for that change.
    pub fn set_device_connected(&mut self, on: bool) -> (r: ConnectionStatus)
        ensures
            *final(self) == with_device(*old(self), on),
            r == status_of(*final(self)),
            r.arduino_connected == on,
    {
        self.arduino_connected = on;
        ConnectionStatus { arduino_connected: on, backend_connected: true }
    }

    /// Records that a viewer session started (`on`) or ended.
    pub fn set_viewer_connected(&mut self, on: bool)
        ensures
            *final(self) == with_viewer(*old(self), on),
    {
        self.frontend_connected = on;
    }

    /// The status message that tells a viewer whether a device is connected now.
    pub fn status(&self) -> (r: ConnectionStatus)
        ensures
            r == status_of(*self),
    {
        ConnectionStatus { arduino_connected: self.arduino_connected, backend_connected: true }
    }
}

/// A viewer that joins before any device has connected, or after a device has
/// left, is told that no device is connected; one that joins while a device is
/// connected is told that it is. Viewers that come and go in between change
/// nothing of this.
pub proof fn lemma_greeting_reports_device(s: ConnectionState, others: bool)
    ensures
        !status_of(with_viewer(initial_state(), true)).arduino_connected,
        !status_of(with_viewer(with_viewer(with_device(s, false), others), true)).arduino_connected,
        status_of(with_viewer(with_viewer(with_device(s, true), others), true)).arduino_connected,
{
}

} // verus!
