//! The input capture funnel: heterogeneous OS input events normalized into
//! one `{event, data}` schema before they reach the event-log writer.
//!
//! The OS listener threads live with the caller; they hand the observed
//! values in, and get back fully formed events. Absolute positions and raw
//! deltas keep distinct kinds, so consumers disambiguate by kind, not by
//! source. Numeric readings arrive pre-rendered as text, as some of them
//! are fractional.

use vstd::prelude::*;

verus! {

use vstd::string::StringExecFns;
use crate::logger::{json_quoted, json_quote, envelope_str, render_envelope, Logger};
use crate::numfmt::{dec_str, u64_to_dec};

/// One normalized input event: a kind tag and a JSON payload.
#[derive(Clone, Debug)]
pub struct InputEvent {
    pub event: String,
    pub data: String,
}

impl InputEvent {
    /// An event with the given kind and JSON payload.
    pub fn new(event: &str, data: String) -> (r: InputEvent)
        ensures
            r.event@ == event@,
            r.data == data,
    {
        InputEvent { event: event.to_owned(), data }
    }

    /// The event as one log line with the given timestamp.
    pub fn to_log_entry(&self, time_ms: i64) -> (r: String)
        ensures
            r@ == envelope_str(self.event@, self.data@, time_ms as int),
    {
        render_envelope(self.event.as_str(), self.data.as_str(), time_ms)
    }
}

/// The payload of an absolute position or delta: `{"x":X,"y":Y}`.
pub open spec fn xy_payload(x: Seq<char>, y: Seq<char>) -> Seq<char> {
    "{\"x\":"@ + x + ",\"y\":"@ + y + "}"@
}

fn render_xy_payload(x_text: &str, y_text: &str) -> (r: String)
    ensures
        r@ == xy_payload(x_text@, y_text@),
{
    let mut s = String::new();
    s.append("{\"x\":");
    s.append(x_text);
    s.append(",\"y\":");
    s.append(y_text);
    s.append("}");
    proof {
        assert(s@ =~= xy_payload(x_text@, y_text@));
    }
    s
}

/// An absolute cursor position from the global listener.
pub fn mouse_move_event(x_text: &str, y_text: &str) -> (r: InputEvent)
    ensures
        r.event@ == "mousemove"@,
        r.data@ == xy_payload(x_text@, y_text@),
{
    InputEvent::new("mousemove", render_xy_payload(x_text, y_text))
}

/// A raw movement delta from the low-level device listener.
pub fn mouse_delta_event(x_text: &str, y_text: &str) -> (r: InputEvent)
    ensures
        r.event@ == "mousedelta"@,
        r.data@ == xy_payload(x_text@, y_text@),
{
    InputEvent::new("mousedelta", render_xy_payload(x_text, y_text))
}

/// The payload of a key event: `{"key":"NAME"}`.
pub open spec fn key_payload(name: Seq<char>) -> Seq<char> {
    "{\"key\":"@ + json_quoted(name) + "}"@
}

/// A key press or release, by the listener's debug name for the key.
pub fn key_event(pressed: bool, key_name: &str) -> (r: InputEvent)
    ensures
        pressed ==> r.event@ == "keydown"@,
        !pressed ==> r.event@ == "keyup"@,
        r.data@ == key_payload(key_name@),
{
    let mut data = String::new();
    data.append("{\"key\":");
    let quoted = json_quote(key_name);
    data.append(quoted.as_str());
    data.append("}");
    proof {
        assert(data@ =~= key_payload(key_name@));
    }
    if pressed {
        InputEvent::new("keydown", data)
    } else {
        InputEvent::new("keyup", data)
    }
}

/// The payload of a mouse button event: `{"button":"NAME"}`.
pub open spec fn button_payload(name: Seq<char>) -> Seq<char> {
    "{\"button\":"@ + json_quoted(name) + "}"@
}

/// A mouse button press or release, by the listener's debug name for the
/// button.
pub fn button_event(pressed: bool, button_name: &str) -> (r: InputEvent)
    ensures
        pressed ==> r.event@ == "mousedown"@,
        !pressed ==> r.event@ == "mouseup"@,
        r.data@ == button_payload(button_name@),
{
    let mut data = String::new();
    data.append("{\"button\":");
    let quoted = json_quote(button_name);
    data.append(quoted.as_str());
    data.append("}");
    proof {
        assert(data@ =~= button_payload(button_name@));
    }
    if pressed {
        InputEvent::new("mousedown", data)
    } else {
        InputEvent::new("mouseup", data)
    }
}

/// The payload of a wheel event: `{"delta":D}`.
pub open spec fn wheel_payload(delta: Seq<char>) -> Seq<char> {
    "{\"delta\":"@ + delta + "}"@
}

/// A scroll wheel movement.
pub fn wheel_event(delta_text: &str) -> (r: InputEvent)
    ensures
        r.event@ == "mousewheel"@,
        r.data@ == wheel_payload(delta_text@),
{
    let mut data = String::new();
    data.append("{\"delta\":");
    data.append(delta_text);
    data.append("}");
    proof {
        assert(data@ =~= wheel_payload(delta_text@));
    }
    InputEvent::new("mousewheel", data)
}

/// The payload of a joystick button event: `{"id":N,"button":M}`.
pub open spec fn joystick_button_payload(id: int, button: int) -> Seq<char> {
    "{\"id\":"@ + dec_str(id) + ",\"button\":"@ + dec_str(button) + "}"@
}

/// A joystick button press or release.
pub fn joystick_button_event(pressed: bool, id: u64, button: u64) -> (r: InputEvent)
    ensures
        pressed ==> r.event@ == "joystickdown"@,
        !pressed ==> r.event@ == "joystickup"@,
        r.data@ == joystick_button_payload(id as int, button as int),
{
    let mut data = String::new();
    data.append("{\"id\":");
    let ids = u64_to_dec(id);
    data.append(ids.as_str());
    data.append(",\"button\":");
    let bs = u64_to_dec(button);
    data.append(bs.as_str());
    data.append("}");
    proof {
        assert(data@ =~= joystick_button_payload(id as int, button as int));
    }
    if pressed {
        InputEvent::new("joystickdown", data)
    } else {
        InputEvent::new("joystickup", data)
    }
}

/// The payload of a joystick axis event: `{"id":N,"axis":"A","value":V}`.
pub open spec fn joystick_axis_payload(id: int, axis: Seq<char>, value: Seq<char>) -> Seq<char> {
    "{\"id\":"@ + dec_str(id) + ",\"axis\":"@ + json_quoted(axis) + ",\"value\":"@ + value + "}"@
}

/// A joystick axis reading, by the listener's debug name for the axis.
pub fn joystick_axis_event(id: u64, axis_name: &str, value_text: &str) -> (r: InputEvent)
    ensures
        r.event@ == "joystickaxis"@,
        r.data@ == joystick_axis_payload(id as int, axis_name@, value_text@),
{
    let mut data = String::new();
    data.append("{\"id\":");
    let ids = u64_to_dec(id);
    data.append(ids.as_str());
    data.append(",\"axis\":");
    let quoted = json_quote(axis_name);
    data.append(quoted.as_str());
    data.append(",\"value\":");
    data.append(value_text);
    data.append("}");
    proof {
        assert(data@ =~= joystick_axis_payload(id as int, axis_name@, value_text@));
    }
    InputEvent::new("joystickaxis", data)
}

/// Cooperative handle over the listener threads. Stopping clears the flag
/// the threads poll; a thread blocked in an OS listen loop is not joined,
/// it just stops forwarding.
pub struct InputListener {
    running: bool,
}

impl InputListener {
    pub closed spec fn is_running(&self) -> bool {
        self.running
    }

    pub fn new() -> (r: InputListener)
        ensures
            r.is_running(),
    {
        InputListener { running: true }
    }

    pub fn stop(&mut self)
        ensures
            !final(self).is_running(),
    {
        self.running = false;
    }
}

/// Whether global input capture works without asking the OS first; only
/// the Apple platform gates it behind a permission prompt.
pub fn has_input_permissions(on_macos: bool) -> (r: bool)
    ensures
        r == !on_macos,
{
    !on_macos
}

/// Forward one normalized event into the log writer with the given
/// timestamp; a no-op after the writer closed.
pub fn log_input(logger: &mut Logger, event: &InputEvent, time_ms: i64) -> (r: Option<String>)
    ensures
        final(logger).is_open() == old(logger).is_open(),
        old(logger).is_open() ==> (r matches Some(l) && l@ == envelope_str(
            event.event@,
            event.data@,
            time_ms as int,
        ) && final(logger).history() == old(logger).history().push(l@)),
        !old(logger).is_open() ==> r is None && final(logger).history() == old(logger).history(),
{
    let line = event.to_log_entry(time_ms);
    logger.log_event(line)
}

} // verus!
