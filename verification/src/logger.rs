//! The event-log writer: the single serialization point of a session.
//!
//! The writer decides which lines are appended; the file handle and the lock
//! around it live with the caller. Once closed, every further event is a
//! silent no-op — producers may race the shutdown by design.

use vstd::prelude::*;

verus! {

use vstd::string::StringExecFns;
use crate::numfmt::{dec_int_str, i64_to_dec};

/// What a string looks like quoted as a JSON string value.
pub uninterp spec fn json_quoted(s: Seq<char>) -> Seq<char>;

/// Relies on serde_json::to_string on a `&str` value: the quoted, escaped
/// JSON form of the string. The result depends on the characters alone.
#[verifier::external_body]
pub(crate) fn json_quote(s: &str) -> (r: String)
    ensures
        r@ == json_quoted(s@),
{
    match serde_json::to_string(s) {
        Ok(quoted) => quoted,
        Err(_) => String::new(),
    }
}

/// Relies on chrono::Local::now and timestamp_millis: the wall clock, in
/// milliseconds since the epoch. Nothing is promised of the value.
#[verifier::external_body]
pub(crate) fn now_millis() -> i64 {
    chrono::Local::now().timestamp_millis()
}

/// One event-log line: a self-contained JSON object with the event kind, a
/// kind-specific payload, and a millisecond timestamp.
pub open spec fn envelope_str(kind: Seq<char>, payload: Seq<char>, time: int) -> Seq<char> {
    "{\"event\":"@ + json_quoted(kind) + ",\"data\":"@ + payload + ",\"time\":"@ + dec_int_str(
        time,
    ) + "}"@
}

/// Render one event-log line. `payload` must already be JSON text.
pub fn render_envelope(kind: &str, payload: &str, time_ms: i64) -> (r: String)
    ensures
        r@ == envelope_str(kind@, payload@, time_ms as int),
{
    let mut s = String::new();
    s.append("{\"event\":");
    let quoted = json_quote(kind);
    s.append(quoted.as_str());
    s.append(",\"data\":");
    s.append(payload);
    s.append(",\"time\":");
    let t = i64_to_dec(time_ms);
    s.append(t.as_str());
    s.append("}");
    proof {
        assert(s@ =~= envelope_str(kind@, payload@, time_ms as int));
    }
    s
}

/// The append-only log writer of one session.
///
/// It records, in ghost state, every line it has accepted, in arrival
/// order. After `close`, nothing is accepted and nothing is returned to
/// write: a late event is dropped silently rather than failing.
pub struct Logger {
    open: bool,
    history: Ghost<Seq<Seq<char>>>,
}

impl Logger {
    /// The writer still accepts events.
    pub closed spec fn is_open(&self) -> bool {
        self.open
    }

    /// Every line accepted so far, in arrival order.
    pub closed spec fn history(&self) -> Seq<Seq<char>> {
        self.history@
    }

    /// A fresh writer for a new session directory.
    pub fn new() -> (r: Logger)
        ensures
            r.is_open(),
            r.history() == Seq::<Seq<char>>::empty(),
    {
        Logger { open: true, history: Ghost(Seq::empty()) }
    }

    /// Accept one line. Returns the line to append while the writer is
    /// open; after close, the event is dropped and nothing is written.
    pub fn log_event(&mut self, line: String) -> (r: Option<String>)
        ensures
            final(self).is_open() == old(self).is_open(),
            old(self).is_open() ==> r == Some(line) && final(self).history() == old(
                self,
            ).history().push(line@),
            !old(self).is_open() ==> r is None && final(self).history() == old(self).history(),
    {
        if self.open {
            proof {
                self.history@ = self.history@.push(line@);
            }
            Some(line)
        } else {
            None
        }
    }

    /// Stop accepting events. The lines already accepted stay on record.
    pub fn close(&mut self)
        ensures
            !final(self).is_open(),
            final(self).history() == old(self).history(),
    {
        self.open = false;
    }
}

} // verus!
