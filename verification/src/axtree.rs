//! The accessibility poller: a supervised loop that repeatedly runs a
//! short-lived tree-dump process, tags each JSON line of its output, and
//! forwards it to the event-log writer.
//!
//! The loop treats every invocation as disposable: a crash of one dump run
//! never surfaces to the caller, the loop just backs off and spawns the
//! next one while the flag stays set.

use vstd::prelude::*;

verus! {

use crate::logger::Logger;

/// The fixed backoff between two dump runs, in milliseconds.
pub const AX_POLL_BACKOFF_MS: u64 = 2000;

/// What a dumped line becomes in the log: `None` when the line is not a
/// JSON object, otherwise the same object re-serialized with its `event`
/// field set to `axtree`.
pub uninterp spec fn axtree_tagged(s: Seq<char>) -> Option<Seq<char>>;

/// Relies on serde_json::from_str, Map::insert and Value::to_string: the
/// line parsed as a JSON object, its `event` field set to `axtree`, and the
/// object written back out. The result depends on the characters alone.
#[verifier::external_body]
fn tag_axtree_line(line: &str) -> (r: Option<String>)
    ensures
        match r {
            Some(t) => axtree_tagged(line@) == Some(t@),
            None => axtree_tagged(line@) is None,
        },
{
    match serde_json::from_str::<serde_json::Value>(line) {
        Ok(mut v) => match v.as_object_mut() {
            Some(obj) => {
                obj.insert(
                    "event".to_string(),
                    serde_json::Value::String("axtree".to_string()),
                );
                Some(v.to_string())
            },
            None => None,
        },
        Err(_) => None,
    }
}

/// Forward one line of dump output into the log writer: tagged when it is
/// a JSON object, dropped otherwise, and dropped silently once the writer
/// has closed.
pub fn process_dump_line(logger: &mut Logger, line: &str) -> (r: Option<String>)
    ensures
        final(logger).is_open() == old(logger).is_open(),
        (old(logger).is_open() && axtree_tagged(line@) is Some) ==> (r matches Some(l) && l@
            == axtree_tagged(line@)->Some_0 && final(logger).history() == old(
            logger,
        ).history().push(axtree_tagged(line@)->Some_0)),
        axtree_tagged(line@) is None ==> r is None && final(logger).history() == old(
            logger,
        ).history(),
        !old(logger).is_open() ==> r is None && final(logger).history() == old(logger).history(),
{
    match tag_axtree_line(line) {
        Option::Some(tagged) => logger.log_event(tagged),
        Option::None => None,
    }
}

/// The supervised loop's next move after a dump run finished.
#[derive(Clone, Copy, Debug, PartialEq, Eq, Structural)]
pub enum PollStep {
    /// Spawn the next dump process.
    SpawnDump,
    /// Wait out the backoff, then come around again.
    Backoff,
    /// The flag was cleared: leave the loop.
    Exit,
}

/// Cancellation flag of the poller thread.
pub struct PollerState {
    running: bool,
}

impl PollerState {
    pub closed spec fn is_running(&self) -> bool {
        self.running
    }

    pub fn new() -> (r: PollerState)
        ensures
            !r.is_running(),
    {
        PollerState { running: false }
    }

    /// Set the flag; the loop will keep spawning dump runs.
    pub fn start(&mut self)
        ensures
            final(self).is_running(),
    {
        self.running = true;
    }

    /// At the top of the loop: spawn another run, or leave.
    pub fn next_run(&self) -> (r: PollStep)
        ensures
            self.is_running() ==> r is SpawnDump,
            !self.is_running() ==> r is Exit,
    {
        if self.running {
            PollStep::SpawnDump
        } else {
            PollStep::Exit
        }
    }

    /// After a run exited: back off before the next one, or leave without
    /// sleeping.
    pub fn after_run(&self) -> (r: PollStep)
        ensures
            self.is_running() ==> r is Backoff,
            !self.is_running() ==> r is Exit,
    {
        if self.running {
            PollStep::Backoff
        } else {
            PollStep::Exit
        }
    }
}

/// Clear the poller flag. The in-flight dump run, if any, still finishes;
/// the loop exits at its next check.
pub fn stop_dump_tree_polling(poller: &mut PollerState) -> (r: Result<(), ()>)
    ensures
        r is Ok,
        !final(poller).is_running(),
{
    poller.running = false;
    Ok(())
}

} // verus!
