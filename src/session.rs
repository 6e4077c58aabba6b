//! The decisions of the device and viewer sessions: from the session's phase
//! and what just happened to the next phase and what to do.
use vstd::prelude::*;
use crate::codec::{
    classify_device_line, decode_reading, device_line_kind, frame, is_command, is_command_text,
    int_text, record_of, sensor_fields, DeviceLine, SensorRecord, Timestamp, FIELD_COUNT,
};

verus! {

/// Where a session is in its life.
#[derive(Clone, Copy, Debug, PartialEq, Eq, Structural)]
pub enum Phase {
    Connecting,
    Active,
    Terminated,
}

/// What a device session sees.
pub enum DeviceEvent {
    /// The connection was accepted.
    Opened,
    /// A line came from the device.
    Line(String),
    /// A viewer's command came from the command hub.
    Command(String),
    /// Writing to the device failed.
    WriteFailed,
    /// The device closed its side.
    Closed,
}

/// What a device session does next.
pub enum DeviceAction {
    /// Set the device flag to this value and broadcast the status it gives.
    Announce(bool),
    /// Publish this record to the viewers.
    Publish(SensorRecord),
    /// A sensor line with too few fields: warn and drop it.
    Reject,
    /// The device said it is ready: note it.
    Ready,
    /// Write this text to the device.
    Forward(String),
    /// Nothing.
    Ignore,
}

/// The phase of a device session after `e`.
pub open spec fn device_next(p: Phase, e: DeviceEvent) -> Phase {
    match e {
        DeviceEvent::Opened => if p == Phase::Connecting {
            Phase::Active
        } else {
            p
        },
        DeviceEvent::WriteFailed | DeviceEvent::Closed => Phase::Terminated,
        _ => p,
    }
}

/// `a` is what a device session in phase `p` does on `e`, at time `now`.
pub open spec fn device_reaction(p: Phase, e: DeviceEvent, now: Timestamp, a: DeviceAction) -> bool {
    match e {
        DeviceEvent::Opened => if p == Phase::Connecting {
            a == DeviceAction::Announce(true)
        } else {
            a == DeviceAction::Ignore
        },
        DeviceEvent::Line(l) => if p != Phase::Active {
            a == DeviceAction::Ignore
        } else {
            match device_line_kind(l@) {
                DeviceLine::Sensor => if sensor_fields(l@).len() >= FIELD_COUNT {
                    a matches DeviceAction::Publish(rec) && record_of(rec, l@, now)
                } else {
                    a == DeviceAction::Reject
                },
                DeviceLine::Ready => a == DeviceAction::Ready,
                DeviceLine::Other => a == DeviceAction::Ignore,
            }
        },
        DeviceEvent::Command(c) => if p == Phase::Active {
            a matches DeviceAction::Forward(w) && w@ == c@.push('\n')
        } else {
            a == DeviceAction::Ignore
        },
        DeviceEvent::WriteFailed | DeviceEvent::Closed => if p == Phase::Active {
            a == DeviceAction::Announce(false)
        } else {
            a == DeviceAction::Ignore
        },
    }
}

/// The session with the one device.
pub struct DeviceSession {
    pub phase: Phase,
}

/// Relies on chrono::Utc::now: the system time as seconds and nanoseconds
/// since the Unix epoch. chrono panics on a clock set before the epoch, so a
/// returned time is not before it, and its nanoseconds stay under a second.
#[verifier::external_body]
fn current_time() -> (r: Timestamp)
    ensures
        r.secs >= 0,
        r.nanos < 1_000_000_000,
{
    let now = chrono::Utc::now();
    Timestamp { secs: now.timestamp(), nanos: now.timestamp_subsec_nanos() }
}

impl DeviceSession {
    /// A session whose connection is not yet accepted.
    pub fn new() -> (r: DeviceSession)
        ensures
            r.phase == Phase::Connecting,
    {
        DeviceSession { phase: Phase::Connecting }
    }

    /// Takes `e`, which happened at `now`, and says what to do.
    pub fn step(&mut self, e: DeviceEvent, now: Timestamp) -> (a: DeviceAction)
        ensures
            final(self).phase == device_next(old(self).phase, e),
            device_reaction(old(self).phase, e, now, a),
    {
        let p = self.phase;
        match e {
            DeviceEvent::Opened => {
                if p == Phase::Connecting {
                    self.phase = Phase::Active;
                    DeviceAction::Announce(true)
                } else {
                    DeviceAction::Ignore
                }
            },
            DeviceEvent::Line(l) => {
                if p != Phase::Active {
                    return DeviceAction::Ignore;
                }
                match classify_device_line(l.as_str()) {
                    DeviceLine::Sensor => match decode_reading(l.as_str(), now) {
                        Some(rec) => DeviceAction::Publish(rec),
                        None => DeviceAction::Reject,
                    },
                    DeviceLine::Ready => DeviceAction::Ready,
                    DeviceLine::Other => DeviceAction::Ignore,
                }
            },
            DeviceEvent::Command(c) => {
                if p == Phase::Active {
                    DeviceAction::Forward(frame(c.as_str()))
                } else {
                    DeviceAction::Ignore
                }
            },
            DeviceEvent::WriteFailed | DeviceEvent::Closed => {
                self.phase = Phase::Terminated;
                if p == Phase::Active {
                    DeviceAction::Announce(false)
                } else {
                    DeviceAction::Ignore
                }
            },
        }
    }

    /// Takes `e`, stamped with the time of its arrival, and says what to do.
    pub fn handle(&mut self, e: DeviceEvent) -> (a: DeviceAction)
        ensures
            final(self).phase == device_next(old(self).phase, e),
            exists|now: Timestamp| #[trigger] device_reaction(old(self).phase, e, now, a),
    {
        let now = current_time();
        let a = self.step(e, now);
        assert(device_reaction(old(self).phase, e, now, a));
        a
    }
}

/// What a viewer session sees.
pub enum ViewerEvent {
    /// The connection was accepted.
    Opened,
    /// A message came from the sensor hub.
    Broadcast(String),
    /// The sensor hub dropped messages that this viewer had not taken yet.
    Lagged,
    /// A line came from the viewer.
    Line(String),
    /// Writing to the viewer failed.
    WriteFailed,
    /// The viewer closed its side.
    Closed,
}

/// What a viewer session does next.
pub enum ViewerAction {
    /// Set the viewer flag and send this viewer alone the current status.
    Join,
    /// Write this text to the viewer.
    Deliver(String),
    /// Publish this command to the device through the command hub.
    Relay(String),
    /// A viewer line that is no command: note it and drop it.
    Discard,
    /// Clear the viewer flag.
    Leave,
    /// Nothing.
    Ignore,
}

/// The phase of a viewer session after `e`.
pub open spec fn viewer_next(p: Phase, e: ViewerEvent) -> Phase {
    match e {
        ViewerEvent::Opened => if p == Phase::Connecting {
            Phase::Active
        } else {
            p
        },
        ViewerEvent::WriteFailed | ViewerEvent::Closed => Phase::Terminated,
        _ => p,
    }
}

/// `a` is what a viewer session in phase `p` does on `e`.
pub open spec fn viewer_reaction(p: Phase, e: ViewerEvent, a: ViewerAction) -> bool {
    match e {
        ViewerEvent::Opened => if p == Phase::Connecting {
            a == ViewerAction::Join
        } else {
            a == ViewerAction::Ignore
        },
        ViewerEvent::Broadcast(m) => if p == Phase::Active {
            a matches ViewerAction::Deliver(w) && w@ == m@.push('\n')
        } else {
            a == ViewerAction::Ignore
        },
        ViewerEvent::Lagged => a == ViewerAction::Ignore,
        ViewerEvent::Line(l) => if p != Phase::Active {
            a == ViewerAction::Ignore
        } else if is_command_text(l@) {
            a matches ViewerAction::Relay(c) && c@ == l@
        } else {
            a == ViewerAction::Discard
        },
        ViewerEvent::WriteFailed | ViewerEvent::Closed => if p == Phase::Active {
            a == ViewerAction::Leave
        } else {
            a == ViewerAction::Ignore
        },
    }
}

/// The session with one viewer.
pub struct ViewerSession {
    pub phase: Phase,
}

impl ViewerSession {
    /// A session whose connection is not yet accepted.
    pub fn new() -> (r: ViewerSession)
        ensures
            r.phase == Phase::Connecting,
    {
        ViewerSession { phase: Phase::Connecting }
    }

    /// Takes `e` and says what to do.
    pub fn step(&mut self, e: ViewerEvent) -> (a: ViewerAction)
        ensures
            final(self).phase == viewer_next(old(self).phase, e),
            viewer_reaction(old(self).phase, e, a),
    {
        let p = self.phase;
        match e {
            ViewerEvent::Opened => {
                if p == Phase::Connecting {
                    self.phase = Phase::Active;
                    ViewerAction::Join
                } else {
                    ViewerAction::Ignore
                }
            },
            ViewerEvent::Broadcast(m) => {
                if p == Phase::Active {
                    ViewerAction::Deliver(frame(m.as_str()))
                } else {
                    ViewerAction::Ignore
                }
            },
            ViewerEvent::Lagged => ViewerAction::Ignore,
            ViewerEvent::Line(l) => {
                if p != Phase::Active {
                    ViewerAction::Ignore
                } else if is_command(l.as_str()) {
                    ViewerAction::Relay(l)
                } else {
                    ViewerAction::Discard
                }
            },
            ViewerEvent::WriteFailed | ViewerEvent::Closed => {
                self.phase = Phase::Terminated;
                if p == Phase::Active {
                    ViewerAction::Leave
                } else {
                    ViewerAction::Ignore
                }
            },
        }
    }
}

/// A device session publishes a record only for a sensor line of at least
/// nine fields: a shorter line never reaches the viewers.
pub proof fn lemma_short_lines_never_published(p: Phase, e: DeviceEvent, now: Timestamp, a: DeviceAction)
    requires
        device_reaction(p, e, now, a),
        a is Publish,
    ensures
        e matches DeviceEvent::Line(l) && device_line_kind(l@) == DeviceLine::Sensor
            && sensor_fields(l@).len() >= FIELD_COUNT,
{
}

/// An active device session publishes every sensor line of at least nine
/// fields, whatever those fields hold; a status code that spells no integer
/// comes out as 0.
pub proof fn lemma_malformed_fields_still_published(l: String, now: Timestamp, a: DeviceAction)
    requires
        device_line_kind(l@) == DeviceLine::Sensor,
        sensor_fields(l@).len() >= FIELD_COUNT,
        device_reaction(Phase::Active, DeviceEvent::Line(l), now, a),
    ensures
        a matches DeviceAction::Publish(rec) && record_of(rec, l@, now),
        a matches DeviceAction::Publish(rec) && (int_text(sensor_fields(l@)[7]) is None ==> rec.state == 0),
        a matches DeviceAction::Publish(rec) && (int_text(sensor_fields(l@)[8]) is None ==> rec.level == 0),
{
}

/// A command line from an active viewer goes to the command hub as it is,
/// and an active device session writes it to the device, newline-terminated;
/// any other viewer line goes nowhere.
pub proof fn lemma_commands_reach_device(
    l: String,
    va: ViewerAction,
    c: String,
    now: Timestamp,
    da: DeviceAction,
)
    requires
        viewer_reaction(Phase::Active, ViewerEvent::Line(l), va),
        c@ == l@,
        device_reaction(Phase::Active, DeviceEvent::Command(c), now, da),
    ensures
        is_command_text(l@) ==> (va matches ViewerAction::Relay(r) && r@ == l@),
        is_command_text(l@) ==> (da matches DeviceAction::Forward(w) && w@ == l@.push('\n')),
        !is_command_text(l@) ==> va == ViewerAction::Discard,
{
}

/// The phases of a set of viewer sessions after those at the positions in
/// `gone` have closed.
pub open spec fn after_closing(phases: Seq<Phase>, gone: Set<int>) -> Seq<Phase> {
    phases.map(|i: int, p: Phase| if gone.contains(i) {
        viewer_next(p, ViewerEvent::Closed)
    } else {
        p
    })
}

/// When some of a group of active viewer sessions close, every other one
/// stays active and writes the next broadcast message to its viewer.
pub proof fn lemma_other_viewers_keep_receiving(phases: Seq<Phase>, gone: Set<int>, m: String)
    requires
        forall|i: int| 0 <= i < phases.len() ==> phases[i] == Phase::Active,
    ensures
        after_closing(phases, gone).len() == phases.len(),
        forall|i: int|
            0 <= i < phases.len() && !gone.contains(i) ==> #[trigger] after_closing(phases, gone)[i]
                == Phase::Active,
        forall|i: int, a: ViewerAction|
            0 <= i < phases.len() && !gone.contains(i) && #[trigger] viewer_reaction(
                after_closing(phases, gone)[i],
                ViewerEvent::Broadcast(m),
                a,
            ) ==> (a matches ViewerAction::Deliver(w) && w@ == m@.push('\n')),
{
}

} // verus!
