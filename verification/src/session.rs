//! The recording-session orchestrator: one state machine owning the capture
//! backend, the event-log writer, the input funnel and the accessibility
//! poller as a single unit with consistent start/stop semantics.
//!
//! The orchestrator decides; the caller performs. Each sub-resource
//! transition is a method whose contract pins down when it may run, so the
//! fixed start order (backend, log writer, funnel, poller) and the fixed
//! teardown order (funnel, poller, log writer, backend) are enforced by the
//! verifier, not by convention.

use vstd::prelude::*;

verus! {

use vstd::string::StringExecFns;
use crate::textparse::{seq_char_le, lemma_seq_char_le_total, lemma_seq_char_le_trans};
use crate::logger::{Logger, json_quoted, json_quote, envelope_str, now_millis, render_envelope};

/// Geometry of the primary display.
#[derive(Clone, Copy, Debug, PartialEq, Eq, Structural)]
pub struct MonitorInfo {
    pub width: u32,
    pub height: u32,
}

/// Reward metadata attached to a quest; opaque to the recorder.
#[derive(Clone, Copy, Debug, PartialEq, Eq, Structural)]
pub struct QuestReward {
    pub time: i64,
    pub max_reward: i64,
}

/// Quest metadata carried through a session unchanged.
#[derive(Clone, Debug)]
pub struct Quest {
    pub title: String,
    pub app: String,
    pub icon_url: String,
    pub objectives: Vec<String>,
    pub content: String,
    pub pool_id: Option<String>,
    pub reward: Option<QuestReward>,
}

/// The session record persisted beside the artifacts.
#[derive(Clone, Debug)]
pub struct RecordingMeta {
    pub id: String,
    pub timestamp: String,
    pub duration_seconds: u64,
    pub status: String,
    pub reason: Option<String>,
    pub title: String,
    pub description: String,
    pub platform: String,
    pub arch: String,
    pub version: String,
    pub locale: String,
    pub primary_monitor: MonitorInfo,
    pub quest: Option<Quest>,
}

impl RecordingMeta {
    /// The record written when a session starts: status `recording`, no
    /// duration yet, titled after the quest when there is one.
    pub fn new(
        id: String,
        timestamp: String,
        platform: String,
        arch: String,
        version: String,
        locale: String,
        primary_monitor: MonitorInfo,
        quest: Option<Quest>,
        quest_title: Option<String>,
    ) -> (r: RecordingMeta)
        requires
            quest_title is Some <==> quest is Some,
            quest matches Some(q) ==> quest_title matches Some(t) && t@ == q.title@,
        ensures
            r.id == id,
            r.timestamp == timestamp,
            r.duration_seconds == 0,
            r.status@ == "recording"@,
            r.reason is None,
            quest matches Some(q) ==> r.title@ == q.title@,
            quest is None ==> r.title@ == "Recording Session"@,
            r.description@ == ""@,
            r.platform == platform,
            r.arch == arch,
            r.version == version,
            r.locale == locale,
            r.primary_monitor == primary_monitor,
            r.quest == quest,
    {
        let title: String = match quest_title {
            Option::Some(t) => t,
            Option::None => "Recording Session".to_owned(),
        };
        RecordingMeta {
            id,
            timestamp,
            duration_seconds: 0,
            status: "recording".to_owned(),
            reason: None,
            title,
            description: "".to_owned(),
            platform,
            arch,
            version,
            locale,
            primary_monitor,
            quest,
        }
    }

    /// The single mutation at stop: duration, completion, optional reason.
    pub fn finalize(&mut self, duration_seconds: u64, reason: Option<String>)
        ensures
            final(self).duration_seconds == duration_seconds,
            final(self).status@ == "completed"@,
            final(self).reason == reason,
            final(self).id == old(self).id,
            final(self).timestamp == old(self).timestamp,
            final(self).title == old(self).title,
            final(self).description == old(self).description,
            final(self).platform == old(self).platform,
            final(self).arch == old(self).arch,
            final(self).version == old(self).version,
            final(self).locale == old(self).locale,
            final(self).primary_monitor == old(self).primary_monitor,
            final(self).quest == old(self).quest,
    {
        self.duration_seconds = duration_seconds;
        self.status = "completed".to_owned();
        self.reason = reason;
    }

    /// Mark a session whose start failed: whatever else the record says, its
    /// status no longer reads `recording`.
    pub fn mark_failed(&mut self)
        ensures
            final(self).status@ == "failed"@,
            final(self).status@ != "recording"@,
            final(self).id == old(self).id,
    {
        self.status = "failed".to_owned();
        proof {
            reveal_strlit("failed");
            reveal_strlit("recording");
            assert("failed"@.len() != "recording"@.len());
        }
    }
}

/// Where a session stands.
#[derive(Clone, Copy, Debug, PartialEq, Eq, Structural)]
pub enum SessionStatus {
    /// No session; ready to start one.
    Idle,
    /// `start` is bringing sub-resources up, in order.
    Starting,
    /// All sub-resources run; events are flowing.
    Recording,
    /// `stop` is tearing sub-resources down, in order.
    Stopping,
}

/// The errors a session start or stop can surface.
#[derive(Clone, Copy, Debug, PartialEq, Eq, Structural)]
pub enum OrchestratorError {
    /// A session is already running; no second backend is spawned.
    AlreadyRecording,
    /// There is no session to stop.
    NoSession,
    /// The capture backend left a missing or zero-byte video file.
    EmptyOutput,
}

/// What a failed start must undo: exactly the resources brought up so far,
/// and the metadata record, which must stop reading `recording`.
#[derive(Clone, Copy, Debug, PartialEq, Eq, Structural)]
pub struct Rollback {
    pub stop_funnel: bool,
    pub stop_poller: bool,
    pub close_logger: bool,
    pub kill_backend: bool,
    pub mark_meta_failed: bool,
}

/// The session state machine.
pub struct Orchestrator {
    phase: SessionStatus,
    backend_on: bool,
    log_open: bool,
    funnel_on: bool,
    poller_on: bool,
    current_id: Option<String>,
}

impl Orchestrator {
    pub closed spec fn status(&self) -> SessionStatus {
        self.phase
    }

    pub closed spec fn backend_running(&self) -> bool {
        self.backend_on
    }

    pub closed spec fn log_open(&self) -> bool {
        self.log_open
    }

    pub closed spec fn funnel_running(&self) -> bool {
        self.funnel_on
    }

    pub closed spec fn poller_running(&self) -> bool {
        self.poller_on
    }

    pub closed spec fn current_session(&self) -> Option<String> {
        self.current_id
    }

    /// When idle, nothing is held: no orphaned subprocess or thread.
    pub open spec fn inv(&self) -> bool {
        self.status() is Idle ==> !self.backend_running() && !self.log_open()
            && !self.funnel_running() && !self.poller_running() && self.current_session() is None
    }

    pub fn new() -> (r: Orchestrator)
        ensures
            r.status() is Idle,
            r.inv(),
    {
        Orchestrator {
            phase: SessionStatus::Idle,
            backend_on: false,
            log_open: false,
            funnel_on: false,
            poller_on: false,
            current_id: None,
        }
    }

    /// Claim the single session slot. While a session is starting, running
    /// or stopping, a second start fails with `AlreadyRecording` and changes
    /// nothing — in particular, no second capture backend is spawned.
    pub fn begin_start(&mut self, session_id: String) -> (r: Result<(), OrchestratorError>)
        requires
            old(self).inv(),
        ensures
            final(self).inv(),
            !(old(self).status() is Idle) ==> {
                &&& r == Err::<(), OrchestratorError>(OrchestratorError::AlreadyRecording)
                &&& final(self).status() == old(self).status()
                &&& final(self).backend_running() == old(self).backend_running()
                &&& final(self).log_open() == old(self).log_open()
                &&& final(self).funnel_running() == old(self).funnel_running()
                &&& final(self).poller_running() == old(self).poller_running()
                &&& final(self).current_session() == old(self).current_session()
            },
            old(self).status() is Idle ==> {
                &&& r is Ok
                &&& final(self).status() is Starting
                &&& !final(self).backend_running()
                &&& !final(self).log_open()
                &&& !final(self).funnel_running()
                &&& !final(self).poller_running()
                &&& final(self).current_session() == Some(session_id)
            },
    {
        match self.phase {
            SessionStatus::Idle => {
                self.phase = SessionStatus::Starting;
                self.current_id = Some(session_id);
                Ok(())
            },
            _ => Err(OrchestratorError::AlreadyRecording),
        }
    }

    /// The capture backend spawned and passed its health check.
    pub fn backend_started(&mut self)
        requires
            old(self).status() is Starting,
            !old(self).backend_running(),
        ensures
            final(self).inv(),
            final(self).status() is Starting,
            final(self).backend_running(),
            final(self).log_open() == old(self).log_open(),
            final(self).funnel_running() == old(self).funnel_running(),
            final(self).poller_running() == old(self).poller_running(),
            final(self).current_session() == old(self).current_session(),
    {
        self.backend_on = true;
    }

    /// The event-log writer opened, after the backend.
    pub fn logger_opened(&mut self)
        requires
            old(self).status() is Starting,
            old(self).backend_running(),
            !old(self).log_open(),
        ensures
            final(self).inv(),
            final(self).status() is Starting,
            final(self).backend_running(),
            final(self).log_open(),
            final(self).funnel_running() == old(self).funnel_running(),
            final(self).poller_running() == old(self).poller_running(),
            final(self).current_session() == old(self).current_session(),
    {
        self.log_open = true;
    }

    /// The input funnel started, after the log writer.
    pub fn funnel_started(&mut self)
        requires
            old(self).status() is Starting,
            old(self).backend_running(),
            old(self).log_open(),
            !old(self).funnel_running(),
        ensures
            final(self).inv(),
            final(self).status() is Starting,
            final(self).backend_running(),
            final(self).log_open(),
            final(self).funnel_running(),
            final(self).poller_running() == old(self).poller_running(),
            final(self).current_session() == old(self).current_session(),
    {
        self.funnel_on = true;
    }

    /// The accessibility poller started, after the funnel.
    pub fn poller_started(&mut self)
        requires
            old(self).status() is Starting,
            old(self).backend_running(),
            old(self).log_open(),
            old(self).funnel_running(),
            !old(self).poller_running(),
        ensures
            final(self).inv(),
            final(self).status() is Starting,
            final(self).backend_running(),
            final(self).log_open(),
            final(self).funnel_running(),
            final(self).poller_running(),
            final(self).current_session() == old(self).current_session(),
    {
        self.poller_on = true;
    }

    /// All sub-resources run: the session is recording.
    pub fn complete_start(&mut self)
        requires
            old(self).status() is Starting,
            old(self).backend_running(),
            old(self).log_open(),
            old(self).funnel_running(),
            old(self).poller_running(),
        ensures
            final(self).inv(),
            final(self).status() is Recording,
            final(self).backend_running(),
            final(self).log_open(),
            final(self).funnel_running(),
            final(self).poller_running(),
            final(self).current_session() == old(self).current_session(),
    {
        self.phase = SessionStatus::Recording;
    }

    /// A start step failed: roll back exactly what was brought up, in
    /// particular close the log writer if and only if it was opened, and
    /// rewrite the metadata so its status does not read `recording`. The
    /// orchestrator returns to idle with nothing held.
    pub fn abort_start(&mut self) -> (r: Rollback)
        requires
            old(self).status() is Starting,
        ensures
            final(self).inv(),
            final(self).status() is Idle,
            !final(self).backend_running(),
            !final(self).log_open(),
            !final(self).funnel_running(),
            !final(self).poller_running(),
            final(self).current_session() is None,
            r.stop_funnel == old(self).funnel_running(),
            r.stop_poller == old(self).poller_running(),
            r.close_logger == old(self).log_open(),
            r.kill_backend == old(self).backend_running(),
            r.mark_meta_failed,
    {
        let r = Rollback {
            stop_funnel: self.funnel_on,
            stop_poller: self.poller_on,
            close_logger: self.log_open,
            kill_backend: self.backend_on,
            mark_meta_failed: true,
        };
        self.phase = SessionStatus::Idle;
        self.backend_on = false;
        self.log_open = false;
        self.funnel_on = false;
        self.poller_on = false;
        self.current_id = None;
        r
    }

    /// Enter the teardown phase. Only a recording session can be stopped.
    pub fn begin_stop(&mut self) -> (r: Result<(), OrchestratorError>)
        requires
            old(self).inv(),
        ensures
            final(self).inv(),
            old(self).status() is Recording ==> {
                &&& r is Ok
                &&& final(self).status() is Stopping
                &&& final(self).backend_running() == old(self).backend_running()
                &&& final(self).log_open() == old(self).log_open()
                &&& final(self).funnel_running() == old(self).funnel_running()
                &&& final(self).poller_running() == old(self).poller_running()
                &&& final(self).current_session() == old(self).current_session()
            },
            !(old(self).status() is Recording) ==> {
                &&& r == Err::<(), OrchestratorError>(OrchestratorError::NoSession)
                &&& final(self).status() == old(self).status()
                &&& final(self).backend_running() == old(self).backend_running()
                &&& final(self).log_open() == old(self).log_open()
                &&& final(self).funnel_running() == old(self).funnel_running()
                &&& final(self).poller_running() == old(self).poller_running()
                &&& final(self).current_session() == old(self).current_session()
            },
    {
        match self.phase {
            SessionStatus::Recording => {
                self.phase = SessionStatus::Stopping;
                Ok(())
            },
            _ => Err(OrchestratorError::NoSession),
        }
    }

    /// Teardown step one: the input funnel no longer emits.
    pub fn funnel_stopped(&mut self)
        requires
            old(self).status() is Stopping,
        ensures
            final(self).inv(),
            final(self).status() is Stopping,
            !final(self).funnel_running(),
            final(self).backend_running() == old(self).backend_running(),
            final(self).log_open() == old(self).log_open(),
            final(self).poller_running() == old(self).poller_running(),
            final(self).current_session() == old(self).current_session(),
    {
        self.funnel_on = false;
    }

    /// Teardown step two: the accessibility poller was told to stop, after
    /// the funnel.
    pub fn poller_stopped(&mut self)
        requires
            old(self).status() is Stopping,
            !old(self).funnel_running(),
        ensures
            final(self).inv(),
            final(self).status() is Stopping,
            !final(self).funnel_running(),
            !final(self).poller_running(),
            final(self).backend_running() == old(self).backend_running(),
            final(self).log_open() == old(self).log_open(),
            final(self).current_session() == old(self).current_session(),
    {
        self.poller_on = false;
    }

    /// Teardown step three: the event-log writer closed, after both event
    /// sources quiesced.
    pub fn logger_closed(&mut self)
        requires
            old(self).status() is Stopping,
            !old(self).funnel_running(),
            !old(self).poller_running(),
        ensures
            final(self).inv(),
            final(self).status() is Stopping,
            !final(self).funnel_running(),
            !final(self).poller_running(),
            !final(self).log_open(),
            final(self).backend_running() == old(self).backend_running(),
            final(self).current_session() == old(self).current_session(),
    {
        self.log_open = false;
    }

    /// Teardown step four: the capture backend was stopped last, and its
    /// output artifact inspected. A missing or zero-byte video is a hard
    /// `EmptyOutput` error, even though every other resource stopped
    /// cleanly; the session still ends and the orchestrator returns to idle.
    pub fn finish_stop(&mut self, output_exists: bool, output_size: u64) -> (r: Result<
        String,
        OrchestratorError,
    >)
        requires
            old(self).status() is Stopping,
            !old(self).funnel_running(),
            !old(self).poller_running(),
            !old(self).log_open(),
        ensures
            final(self).inv(),
            final(self).status() is Idle,
            !final(self).backend_running(),
            !final(self).log_open(),
            !final(self).funnel_running(),
            !final(self).poller_running(),
            final(self).current_session() is None,
            !output_exists || output_size == 0 ==> r == Err::<String, OrchestratorError>(
                OrchestratorError::EmptyOutput,
            ),
            (output_exists && output_size > 0 && old(self).current_session() is Some) ==> r
                == Ok::<String, OrchestratorError>(old(self).current_session()->Some_0),
            output_exists && output_size > 0 && old(self).current_session() is None ==> r
                == Err::<String, OrchestratorError>(OrchestratorError::NoSession),
    {
        let id = self.current_id.take();
        self.phase = SessionStatus::Idle;
        self.backend_on = false;
        self.log_open = false;
        self.funnel_on = false;
        self.poller_on = false;
        if !output_exists || output_size == 0 {
            Err(OrchestratorError::EmptyOutput)
        } else {
            match id {
                Option::Some(id) => Ok(id),
                Option::None => Err(OrchestratorError::NoSession),
            }
        }
    }

    /// Where the session stands right now.
    pub fn current_status(&self) -> (r: SessionStatus)
        ensures
            r == self.status(),
    {
        self.phase
    }

    /// Whether a session is currently recording.
    pub fn is_recording(&self) -> (r: bool)
        ensures
            r == (self.status() is Recording),
    {
        match self.phase {
            SessionStatus::Recording => true,
            _ => false,
        }
    }
}


/// The event kind of one line of encoder diagnostics.
pub open spec fn ffmpeg_kind(is_stderr: bool) -> Seq<char> {
    if is_stderr {
        "ffmpeg_stderr"@
    } else {
        "ffmpeg_stdout"@
    }
}

/// The payload of one line of encoder diagnostics: `{"output":"LINE"}`.
pub open spec fn ffmpeg_payload(output: Seq<char>) -> Seq<char> {
    "{\"output\":"@ + json_quoted(output) + "}"@
}

/// Forward one line of encoder diagnostics into the log writer, stamped
/// with the wall clock; a silent no-op once the writer has closed.
pub fn log_ffmpeg(logger: &mut Logger, output: &str, is_stderr: bool) -> (r: Option<String>)
    ensures
        final(logger).is_open() == old(logger).is_open(),
        old(logger).is_open() ==> (r matches Some(l) && (exists|t: int|
            l@ == envelope_str(ffmpeg_kind(is_stderr), ffmpeg_payload(output@), t))
            && final(logger).history() == old(logger).history().push(l@)),
        !old(logger).is_open() ==> r is None && final(logger).history() == old(logger).history(),
{
    let time = now_millis();
    let mut payload = String::new();
    payload.append("{\"output\":");
    let quoted = json_quote(output);
    payload.append(quoted.as_str());
    payload.append("}");
    proof {
        assert(payload@ =~= ffmpeg_payload(output@));
    }
    let line = if is_stderr {
        render_envelope("ffmpeg_stderr", payload.as_str(), time)
    } else {
        render_envelope("ffmpeg_stdout", payload.as_str(), time)
    };
    proof {
        assert(line@ == envelope_str(ffmpeg_kind(is_stderr), ffmpeg_payload(output@), time as int));
    }
    logger.log_event(line)
}


/// The records ordered newest first, by their sortable timestamps.
pub open spec fn newest_first(ms: Seq<RecordingMeta>) -> bool {
    forall|i: int, j: int|
        0 <= i <= j < ms.len() ==> seq_char_le(#[trigger] ms[j].timestamp@, #[trigger] ms[i].timestamp@)
}

/// Order session records newest first, as a permutation of the input.
pub fn sort_recordings_newest_first(metas: Vec<RecordingMeta>) -> (out: Vec<RecordingMeta>)
    ensures
        newest_first(out@),
        out@.to_multiset() == metas@.to_multiset(),
{
    broadcast use vstd::seq_lib::group_to_multiset_ensures;

    let mut rest = metas;
    let mut out: Vec<RecordingMeta> = Vec::new();
    proof {
        assert(out@.to_multiset().add(rest@.to_multiset()) =~= metas@.to_multiset());
    }
    while rest.len() > 0
        invariant
            newest_first(out@),
            out@.to_multiset().add(rest@.to_multiset()) == metas@.to_multiset(),
            forall|a: int, b: int|
                0 <= a < out@.len() && 0 <= b < rest@.len() ==> seq_char_le(
                    #[trigger] rest@[b].timestamp@,
                    #[trigger] out@[a].timestamp@,
                ),
        decreases rest.len(),
    {
        // the newest remaining record
        proof {
            lemma_seq_char_le_total(rest@[0].timestamp@, rest@[0].timestamp@);
        }
        let mut m: usize = 0;
        let mut k: usize = 1;
        while k < rest.len()
            invariant
                0 <= m < k <= rest.len(),
                rest.len() > 0,
                forall|x: int|
                    0 <= x < k ==> seq_char_le(
                        #[trigger] rest@[x].timestamp@,
                        rest@[m as int].timestamp@,
                    ),
            decreases rest.len() - k,
        {
            let newer = str_le_meta(&rest[m], &rest[k]);
            if newer {
                proof {
                    assert forall|x: int|
                        0 <= x < k + 1 implies seq_char_le(
                        #[trigger] rest@[x].timestamp@,
                        rest@[k as int].timestamp@,
                    ) by {
                        if x < k {
                            lemma_seq_char_le_trans(
                                rest@[x].timestamp@,
                                rest@[m as int].timestamp@,
                                rest@[k as int].timestamp@,
                            );
                        } else {
                            lemma_seq_char_le_total(
                                rest@[k as int].timestamp@,
                                rest@[k as int].timestamp@,
                            );
                        }
                    }
                }
                m = k;
            } else {
                proof {
                    lemma_seq_char_le_total(
                        rest@[m as int].timestamp@,
                        rest@[k as int].timestamp@,
                    );
                }
            }
            k += 1;
        }
        let ghost old_out = out@;
        let ghost old_rest = rest@;
        let r = rest.remove(m);
        out.push(r);
        proof {
            broadcast use vstd::seq_lib::group_to_multiset_ensures;

            assert(out@ =~= old_out.push(r));
            assert(old_out.push(r).to_multiset() =~= old_out.to_multiset().insert(r));
            assert(rest@ =~= old_rest.remove(m as int));
            assert(r == old_rest[m as int]);
            assert(old_rest.remove(m as int).to_multiset() =~= old_rest.to_multiset().remove(r));
            assert(old_rest.contains(old_rest[m as int]));
            assert(old_rest.to_multiset().count(r) > 0);
            assert(out@.to_multiset().add(rest@.to_multiset()) =~= old_out.to_multiset().add(
                old_rest.to_multiset(),
            ));
            assert forall|b: int|
                0 <= b < rest@.len() implies seq_char_le(
                #[trigger] rest@[b].timestamp@,
                r.timestamp@,
            ) by {
                if b < m {
                    assert(rest@[b] == old_rest[b]);
                } else {
                    assert(rest@[b] == old_rest[b + 1]);
                }
            }
        }
    }
    proof {
        assert(rest@.to_multiset() =~= vstd::multiset::Multiset::<RecordingMeta>::empty());
        assert(out@.to_multiset().add(rest@.to_multiset()) =~= out@.to_multiset());
    }
    out
}

/// Is the first record's timestamp at or before the second's?
fn str_le_meta(a: &RecordingMeta, b: &RecordingMeta) -> (r: bool)
    ensures
        r == seq_char_le(a.timestamp@, b.timestamp@),
{
    crate::textparse::str_le(a.timestamp.as_str(), b.timestamp.as_str())
}

} // verus!
