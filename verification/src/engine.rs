//! The remote command engine's data model and decisions: engine selection,
//! shell command construction, job bookkeeping, and the sanitation applied
//! to everything a child process prints.
//!
//! Spawning processes and locking shared state stay with the caller.

use vstd::prelude::*;

verus! {

use vstd::string::StringExecFns;
use vstd::string::StrSliceExecFns;
use crate::numfmt::{dec_str, u64_to_dec};
use crate::redact::views_of;

/// Where commands run.
#[derive(Clone, Copy, Debug, PartialEq, Eq, Structural)]
pub enum EngineType {
    Native,
    WSL,
    SSH,
}

/// Connection settings of the SSH engine.
#[derive(Clone, Debug)]
pub struct SSHConfig {
    pub host: String,
    pub port: u16,
    pub username: String,
    pub password: Option<String>,
    pub private_key_path: Option<String>,
}

impl Default for SSHConfig {
    /// Local host on the standard port, with no credentials yet.
    fn default() -> (r: SSHConfig)
        ensures
            r.host@ == "localhost"@,
            r.port == 22,
            r.username@ == ""@,
            r.password is None,
            r.private_key_path is None,
    {
        SSHConfig {
            host: "localhost".to_owned(),
            port: 22,
            username: "".to_owned(),
            password: None,
            private_key_path: None,
        }
    }
}

/// Distribution selection of the WSL engine.
#[derive(Clone, Debug)]
pub struct WSLConfig {
    pub distro: String,
}

impl Default for WSLConfig {
    /// The default distribution.
    fn default() -> (r: WSLConfig)
        ensures
            r.distro@ == ""@,
    {
        WSLConfig { distro: "".to_owned() }
    }
}

/// The engine choice with its per-engine settings.
#[derive(Clone, Debug)]
pub struct EngineConfig {
    pub engine_type: EngineType,
    pub wsl_config: Option<WSLConfig>,
    pub ssh_config: Option<SSHConfig>,
}

impl Default for EngineConfig {
    /// Native execution, with both remote configurations at their
    /// defaults.
    fn default() -> (r: EngineConfig)
        ensures
            r.engine_type is Native,
            r.wsl_config matches Some(w) && w.distro@ == ""@,
            r.ssh_config matches Some(s) && s.host@ == "localhost"@ && s.port == 22,
    {
        EngineConfig {
            engine_type: EngineType::Native,
            wsl_config: Some(Default::default()),
            ssh_config: Some(Default::default()),
        }
    }
}

/// Where one submitted command stands.
#[derive(Clone, Copy, Debug, PartialEq, Eq, Structural)]
pub enum JobStatus {
    Running,
    Success,
    Failed,
}

/// One submitted command and what it produced.
#[derive(Clone, Debug)]
pub struct CommandJob {
    pub id: String,
    pub command: String,
    pub status: JobStatus,
    pub output: String,
    pub error: String,
}

impl CommandJob {
    /// A job starts running, with nothing captured yet.
    pub fn new(id: String, command: String) -> (r: CommandJob)
        ensures
            r.id == id,
            r.command == command,
            r.status is Running,
            r.output@ == ""@,
            r.error@ == ""@,
    {
        CommandJob {
            id,
            command,
            status: JobStatus::Running,
            output: "".to_owned(),
            error: "".to_owned(),
        }
    }
}

/// The engine's reported condition.
#[derive(Clone, Debug)]
pub struct EngineStatus {
    pub running: bool,
    pub system_info: Option<String>,
    pub gpu_info: Option<String>,
    pub error: Option<String>,
}

impl Default for EngineStatus {
    /// Not running, nothing probed.
    fn default() -> (r: EngineStatus)
        ensures
            !r.running,
            r.system_info is None,
            r.gpu_info is None,
            r.error is None,
    {
        EngineStatus { running: false, system_info: None, gpu_info: None, error: None }
    }
}

/// The jobs that are still running.
pub open spec fn running_pred() -> spec_fn(CommandJob) -> bool {
    |j: CommandJob| j.status is Running
}

/// Filtering a list of jobs with pairwise-distinct ids keeps the ids
/// pairwise distinct.
proof fn lemma_filter_keeps_unique_ids(s: Seq<CommandJob>, pred: spec_fn(CommandJob) -> bool)
    requires
        forall|i: int, j: int| 0 <= i < j < s.len() ==> #[trigger] s[i].id@ != #[trigger] s[j].id@,
    ensures
        forall|a: int| 0 <= a < s.filter(pred).len() ==> s.contains(#[trigger] s.filter(pred)[a]),
        forall|a: int, b: int|
            0 <= a < b < s.filter(pred).len() ==> #[trigger] s.filter(pred)[a].id@
                != #[trigger] s.filter(pred)[b].id@,
    decreases s.len(),
{
    reveal(Seq::filter);
    if s.len() > 0 {
        let d = s.drop_last();
        let fd = d.filter(pred);
        let f = s.filter(pred);
        lemma_filter_keeps_unique_ids(d, pred);
        assert forall|a: int| 0 <= a < f.len() implies s.contains(#[trigger] f[a]) by {
            if a < fd.len() {
                assert(f[a] == fd[a]);
                let w = choose|w: int| 0 <= w < d.len() && d[w] == fd[a];
                assert(s[w] == fd[a]);
            } else {
                assert(f[a] == s.last());
                assert(s[s.len() - 1] == s.last());
            }
        }
        assert forall|a: int, b: int|
            0 <= a < b < f.len() implies #[trigger] f[a].id@ != #[trigger] f[b].id@ by {
            if b < fd.len() {
                assert(fd[a].id@ != fd[b].id@);
            } else {
                // b is the pushed last element; a comes from the front
                assert(f[a] == fd[a]);
                assert(d.contains(fd[a]));
                let w = choose|w: int| 0 <= w < d.len() && d[w] == fd[a];
                assert(s[w] == fd[a]);
                assert(s[w].id@ != s[s.len() - 1].id@);
                assert(f[b] == s.last());
            }
        }
    }
}

/// The sequence with every occurrence of `c` replaced by `rep`.
pub open spec fn replace_char_seq(s: Seq<char>, c: char, rep: Seq<char>) -> Seq<char>
    decreases s.len(),
{
    if s.len() == 0 {
        Seq::<char>::empty()
    } else {
        replace_char_seq(s.drop_last(), c, rep) + (if s.last() == c {
            rep
        } else {
            seq![s.last()]
        })
    }
}

proof fn lemma_replace_take_step(s: Seq<char>, c: char, rep: Seq<char>, i: int)
    requires
        0 <= i < s.len(),
    ensures
        replace_char_seq(s.take(i + 1), c, rep) == replace_char_seq(s.take(i), c, rep) + (if s[i]
            == c {
            rep
        } else {
            seq![s[i]]
        }),
{
    assert(s.take(i + 1).drop_last() =~= s.take(i));
    assert(s.take(i + 1).last() == s[i]);
}

/// Replace every occurrence of one character with a replacement text.
pub fn replace_char(s: &str, c: char, rep: &str) -> (r: String)
    ensures
        r@ == replace_char_seq(s@, c, rep@),
{
    let n = s.unicode_len();
    let mut out = String::new();
    let mut start: usize = 0;
    let mut i: usize = 0;
    while i < n
        invariant
            0 <= start <= i <= n == s@.len(),
            out@ + s@.subrange(start as int, i as int) == replace_char_seq(
                s@.take(i as int),
                c,
                rep@,
            ),
            forall|j: int| start <= j < i ==> #[trigger] s@[j] != c,
        decreases n - i,
    {
        let ch = s.get_char(i);
        proof {
            lemma_replace_take_step(s@, c, rep@, i as int);
        }
        if ch == c {
            let span = s.substring_char(start, i);
            out.append(span);
            out.append(rep);
            proof {
                assert(span@ == s@.subrange(start as int, i as int));
                assert(s@.subrange(i as int + 1, i as int + 1) =~= Seq::<char>::empty());
                assert(out@ + s@.subrange(i as int + 1, i as int + 1) =~= replace_char_seq(
                    s@.take(i as int + 1),
                    c,
                    rep@,
                ));
            }
            start = i + 1;
        } else {
            proof {
                assert(out@ + s@.subrange(start as int, i as int + 1) =~= (out@ + s@.subrange(
                    start as int,
                    i as int,
                )) + seq![s@[i as int]]);
            }
        }
        i += 1;
    }
    let tail = s.substring_char(start, n);
    out.append(tail);
    proof {
        assert(s@.take(n as int) =~= s@);
        assert(out@ =~= replace_char_seq(s@, c, rep@));
    }
    out
}

/// A string with its NUL characters removed.
pub open spec fn sanitized(s: Seq<char>) -> Seq<char> {
    replace_char_seq(s, '\0', Seq::<char>::empty())
}

/// Remove NUL characters, which shells and log sinks mangle.
pub fn sanitize_string(s: &str) -> (r: String)
    ensures
        r@ == sanitized(s@),
{
    proof {
        reveal_strlit("");
        assert(""@ =~= Seq::<char>::empty());
    }
    replace_char(s, '\0', "")
}

/// What a child process's raw output decodes to, by lossy UTF-8.
pub uninterp spec fn lossy_utf8(bytes: Seq<u8>) -> Seq<char>;

/// Relies on String::from_utf8_lossy: the bytes decoded as UTF-8, invalid
/// sequences replaced. The result depends on the bytes alone.
#[verifier::external_body]
fn utf8_lossy(bytes: &[u8]) -> (r: String)
    ensures
        r@ == lossy_utf8(bytes@),
{
    String::from_utf8_lossy(bytes).into_owned()
}

/// Decode captured process output and strip NUL characters.
pub fn safe_string_from_bytes(bytes: &[u8]) -> (r: String)
    ensures
        r@ == sanitized(lossy_utf8(bytes@)),
{
    let text = utf8_lossy(bytes);
    sanitize_string(text.as_str())
}

/// The submitted jobs, keyed by their unique ids.
pub struct JobBoard {
    jobs: Vec<CommandJob>,
}

impl JobBoard {
    pub closed spec fn jobs(&self) -> Seq<CommandJob> {
        self.jobs@
    }

    /// No two jobs share an id.
    pub open spec fn inv(&self) -> bool {
        forall|i: int, j: int|
            0 <= i < j < self.jobs().len() ==> #[trigger] self.jobs()[i].id@ != #[trigger] self.jobs()[j].id@
    }

    pub fn new() -> (r: JobBoard)
        ensures
            r.jobs() == Seq::<CommandJob>::empty(),
            r.inv(),
    {
        JobBoard { jobs: Vec::new() }
    }

    /// The position of the job with this id, if any.
    pub closed spec fn find_spec(&self, id: Seq<char>) -> Option<int> {
        if exists|i: int| 0 <= i < self.jobs().len() && #[trigger] self.jobs()[i].id@ == id {
            Some(choose|i: int| 0 <= i < self.jobs().len() && #[trigger] self.jobs()[i].id@ == id)
        } else {
            None
        }
    }

    /// Add a job under a fresh id.
    pub fn insert(&mut self, job: CommandJob) -> (r: bool)
        requires
            old(self).inv(),
        ensures
            final(self).inv(),
            r == !(exists|i: int|
                0 <= i < old(self).jobs().len() && #[trigger] old(self).jobs()[i].id@ == job.id@),
            r ==> final(self).jobs() == old(self).jobs().push(job),
            !r ==> final(self).jobs() == old(self).jobs(),
    {
        let mut i: usize = 0;
        while i < self.jobs.len()
            invariant
                0 <= i <= self.jobs@.len(),
                self.jobs@ == old(self).jobs(),
                old(self).inv(),
                forall|j: int| 0 <= j < i ==> #[trigger] self.jobs@[j].id@ != job.id@,
            decreases self.jobs@.len() - i,
        {
            let dup = {
                let existing = &self.jobs[i];
                existing.id == job.id
            };
            if dup {
                return false;
            }
            i += 1;
        }
        self.jobs.push(job);
        proof {
            assert forall|a: int, b: int|
                0 <= a < b < self.jobs@.len() implies #[trigger] self.jobs@[a].id@
                != #[trigger] self.jobs@[b].id@ by {
                if b < self.jobs@.len() - 1 {
                } else {
                    assert(self.jobs@[a].id@ != job.id@);
                }
            }
        }
        true
    }

    /// Read the job with this id.
    pub fn get<'a>(&'a self, id: &String) -> (r: Option<&'a CommandJob>)
        ensures
            match r {
                Some(job) => exists|i: int|
                    0 <= i < self.jobs().len() && #[trigger] self.jobs()[i] == *job && job.id@
                        == id@,
                None => forall|i: int|
                    0 <= i < self.jobs().len() ==> #[trigger] self.jobs()[i].id@ != id@,
            },
    {
        let mut i: usize = 0;
        while i < self.jobs.len()
            invariant
                0 <= i <= self.jobs@.len(),
                forall|j: int| 0 <= j < i ==> #[trigger] self.jobs@[j].id@ != id@,
            decreases self.jobs@.len() - i,
        {
            let found = {
                let existing = &self.jobs[i];
                existing.id == *id
            };
            if found {
                return Some(&self.jobs[i]);
            }
            i += 1;
        }
        None
    }

    /// Every job, in insertion order.
    pub fn all<'a>(&'a self) -> (r: &'a Vec<CommandJob>)
        ensures
            r@ == self.jobs(),
    {
        &self.jobs
    }

    /// Record how a job's command ended: captured output on success,
    /// captured error output on failure. Other jobs are untouched; an
    /// unknown id changes nothing.
    pub fn complete(&mut self, id: &String, success: bool, output: String, error: String) -> (r: bool)
        requires
            old(self).inv(),
        ensures
            final(self).inv(),
            final(self).jobs().len() == old(self).jobs().len(),
            r == (exists|i: int|
                0 <= i < old(self).jobs().len() && #[trigger] old(self).jobs()[i].id@ == id@),
            !r ==> final(self).jobs() == old(self).jobs(),
            r ==> exists|i: int|
                {
                    &&& 0 <= i < old(self).jobs().len()
                    &&& #[trigger] old(self).jobs()[i].id@ == id@
                    &&& final(self).jobs()[i].id == old(self).jobs()[i].id
                    &&& final(self).jobs()[i].command == old(self).jobs()[i].command
                    &&& final(self).jobs()[i].status == (if success {
                        JobStatus::Success
                    } else {
                        JobStatus::Failed
                    })
                    &&& (success ==> final(self).jobs()[i].output == output
                        && final(self).jobs()[i].error == old(self).jobs()[i].error)
                    &&& (!success ==> final(self).jobs()[i].error == error
                        && final(self).jobs()[i].output == old(self).jobs()[i].output)
                    &&& forall|j: int|
                        0 <= j < old(self).jobs().len() && j != i ==> final(self).jobs()[j]
                            == old(self).jobs()[j]
                },
    {
        let mut i: usize = 0;
        while i < self.jobs.len()
            invariant
                0 <= i <= self.jobs@.len(),
                self.jobs@ == old(self).jobs(),
                old(self).inv(),
                forall|j: int| 0 <= j < i ==> #[trigger] self.jobs@[j].id@ != id@,
            decreases self.jobs@.len() - i,
        {
            let found = {
                let existing = &self.jobs[i];
                existing.id == *id
            };
            if found {
                let old_job = &self.jobs[i];
                let updated = CommandJob {
                    id: old_job.id.clone(),
                    command: old_job.command.clone(),
                    status: if success {
                        JobStatus::Success
                    } else {
                        JobStatus::Failed
                    },
                    output: if success {
                        output
                    } else {
                        old_job.output.clone()
                    },
                    error: if success {
                        old_job.error.clone()
                    } else {
                        error
                    },
                };
                self.jobs.set(i, updated);
                proof {
                    assert(self.jobs@[i as int].id@ == id@);
                    assert forall|a: int, b: int|
                        0 <= a < b < self.jobs@.len() implies #[trigger] self.jobs@[a].id@
                        != #[trigger] self.jobs@[b].id@ by {
                        assert(old(self).jobs()[a].id@ != old(self).jobs()[b].id@);
                    }
                }
                return true;
            }
            i += 1;
        }
        false
    }

    /// Drop every finished job, keeping only the running ones, in order.
    pub fn clear_finished(&mut self)
        requires
            old(self).inv(),
        ensures
            final(self).inv(),
            final(self).jobs() == old(self).jobs().filter(running_pred()),
    {
        let mut kept: Vec<CommandJob> = Vec::new();
        let mut i: usize = 0;
        while i < self.jobs.len()
            invariant
                0 <= i <= self.jobs@.len(),
                self.jobs@ == old(self).jobs(),
                old(self).inv(),
                kept@ == old(self).jobs().take(i as int).filter(running_pred()),
            decreases self.jobs@.len() - i,
        {
            let ghost pre = kept@;
            let job = &self.jobs[i];
            let keep = match job.status {
                JobStatus::Running => true,
                _ => false,
            };
            if keep {
                let copy = CommandJob {
                    id: job.id.clone(),
                    command: job.command.clone(),
                    status: job.status,
                    output: job.output.clone(),
                    error: job.error.clone(),
                };
                proof {
                    assert(copy == old(self).jobs()[i as int]);
                }
                kept.push(copy);
            }
            proof {
                crate::redact::lemma_filter_take_step(old(self).jobs(), running_pred(), i as int);
            }
            i += 1;
        }
        proof {
            assert(old(self).jobs().take(old(self).jobs().len() as int) =~= old(self).jobs());
        }
        self.jobs = kept;
        proof {
            lemma_filter_keeps_unique_ids(old(self).jobs(), running_pred());
        }
    }
}


/// One planned invocation: a program and its argument list.
#[derive(Clone, Debug)]
pub struct ShellCommand {
    pub program: String,
    pub args: Vec<String>,
}

/// A command with its double quotes escaped, for embedding between double
/// quotes.
pub open spec fn quote_escaped(s: Seq<char>) -> Seq<char> {
    replace_char_seq(s, '"', "\\\""@)
}

/// Decide the program and arguments that run one shell command on the
/// selected engine.
///
/// Fails exactly on a WSL request away from Windows and on a remote engine
/// whose configuration is missing; every other case yields the invocation,
/// with NUL bytes stripped from everything interpolated.
pub fn plan_shell_command(
    cmd: &str,
    engine_type: EngineType,
    wsl_config: Option<&WSLConfig>,
    ssh_config: Option<&SSHConfig>,
    on_windows: bool,
) -> (r: Result<ShellCommand, String>)
    ensures
        match r {
            Ok(c) => match engine_type {
                EngineType::Native => {
                    if on_windows {
                        &&& c.program@ == "cmd"@
                        &&& views_of(c.args@) == seq!["/C"@, sanitized(cmd@)]
                    } else {
                        &&& c.program@ == "bash"@
                        &&& views_of(c.args@) == seq!["-c"@, cmd@]
                    }
                },
                EngineType::WSL => {
                    &&& on_windows
                    &&& wsl_config is Some
                    &&& c.program@ == "wsl"@
                    &&& {
                        let distro = sanitized(wsl_config->Some_0.distro@);
                        views_of(c.args@) == (if distro.len() > 0 {
                            seq!["-d"@, distro]
                        } else {
                            Seq::<Seq<char>>::empty()
                        }) + seq!["-e"@, "bash"@, "-c"@, cmd@]
                    }
                },
                EngineType::SSH => {
                    &&& ssh_config is Some
                    &&& {
                        let user_host = sanitized(ssh_config->Some_0.username@) + "@"@
                            + sanitized(ssh_config->Some_0.host@);
                        let port = dec_str(ssh_config->Some_0.port as int);
                        if on_windows {
                            &&& c.program@ == "cmd"@
                            &&& views_of(c.args@) == seq![
                                "/C"@,
                                "ssh "@ + user_host + " -p "@ + port + " \""@ + quote_escaped(
                                    cmd@,
                                ) + "\""@,
                            ]
                        } else {
                            &&& c.program@ == "ssh"@
                            &&& views_of(c.args@) == seq![user_host, "-p"@, port, cmd@]
                        }
                    }
                },
            },
            Err(e) => match engine_type {
                EngineType::Native => false,
                EngineType::WSL => {
                    if !on_windows {
                        e@ == "WSL is only supported on Windows"@
                    } else {
                        wsl_config is None && e@ == "WSL config is missing"@
                    }
                },
                EngineType::SSH => ssh_config is None && e@ == "SSH config is missing"@,
            },
        },
{
    match engine_type {
        EngineType::Native => {
            if on_windows {
                let mut args: Vec<String> = Vec::new();
                args.push("/C".to_owned());
                args.push(sanitize_string(cmd));
                proof {
                    assert(views_of(args@) =~= seq!["/C"@, sanitized(cmd@)]);
                }
                Ok(ShellCommand { program: "cmd".to_owned(), args })
            } else {
                let mut args: Vec<String> = Vec::new();
                args.push("-c".to_owned());
                args.push(cmd.to_owned());
                proof {
                    assert(views_of(args@) =~= seq!["-c"@, cmd@]);
                }
                Ok(ShellCommand { program: "bash".to_owned(), args })
            }
        },
        EngineType::WSL => {
            if !on_windows {
                return Err("WSL is only supported on Windows".to_owned());
            }
            match wsl_config {
                Option::None => Err("WSL config is missing".to_owned()),
                Option::Some(w) => {
                    let distro = sanitize_string(w.distro.as_str());
                    let mut args: Vec<String> = Vec::new();
                    let ghost distro_view = distro@;
                    if !distro.as_str().is_empty() {
                        args.push("-d".to_owned());
                        args.push(distro);
                    }
                    args.push("-e".to_owned());
                    args.push("bash".to_owned());
                    args.push("-c".to_owned());
                    args.push(cmd.to_owned());
                    proof {
                        if distro_view.len() > 0 {
                            assert(views_of(args@) =~= seq!["-d"@, distro_view] + seq![
                                "-e"@,
                                "bash"@,
                                "-c"@,
                                cmd@,
                            ]);
                        } else {
                            assert(views_of(args@) =~= Seq::<Seq<char>>::empty() + seq![
                                "-e"@,
                                "bash"@,
                                "-c"@,
                                cmd@,
                            ]);
                        }
                    }
                    Ok(ShellCommand { program: "wsl".to_owned(), args })
                },
            }
        },
        EngineType::SSH => {
            match ssh_config {
                Option::None => Err("SSH config is missing".to_owned()),
                Option::Some(c) => {
                    let mut user_host = sanitize_string(c.username.as_str());
                    user_host.append("@");
                    let host = sanitize_string(c.host.as_str());
                    user_host.append(host.as_str());
                    let port = u64_to_dec(c.port as u64);
                    if on_windows {
                        let mut one = String::new();
                        one.append("ssh ");
                        one.append(user_host.as_str());
                        one.append(" -p ");
                        one.append(port.as_str());
                        one.append(" \"");
                        let escaped = replace_char(cmd, '"', "\\\"");
                        one.append(escaped.as_str());
                        one.append("\"");
                        proof {
                            assert(one@ =~= "ssh "@ + (sanitized(c.username@) + "@"@ + sanitized(
                                c.host@,
                            )) + " -p "@ + dec_str(c.port as int) + " \""@ + quote_escaped(cmd@)
                                + "\""@);
                        }
                        let mut args: Vec<String> = Vec::new();
                        args.push("/C".to_owned());
                        args.push(one);
                        proof {
                            assert(views_of(args@) =~= seq![
                                "/C"@,
                                "ssh "@ + (sanitized(c.username@) + "@"@ + sanitized(c.host@))
                                    + " -p "@ + dec_str(c.port as int) + " \""@ + quote_escaped(
                                    cmd@,
                                ) + "\""@,
                            ]);
                        }
                        Ok(ShellCommand { program: "cmd".to_owned(), args })
                    } else {
                        let mut args: Vec<String> = Vec::new();
                        args.push(user_host);
                        args.push("-p".to_owned());
                        args.push(port);
                        args.push(cmd.to_owned());
                        proof {
                            assert(views_of(args@) =~= seq![
                                sanitized(c.username@) + "@"@ + sanitized(c.host@),
                                "-p"@,
                                dec_str(c.port as int),
                                cmd@,
                            ]);
                        }
                        Ok(ShellCommand { program: "ssh".to_owned(), args })
                    }
                },
            }
        },
    }
}

/// What one probe command produced: it ran and reported, or it could not
/// be spawned at all.
pub enum ProbeOutcome {
    Output { success: bool, stdout: String, stderr: String },
    SpawnFailed { error: String },
}

/// The probe commands that start the engine: one for system information,
/// one for GPU information.
pub fn engine_probe_commands(engine_type: EngineType, on_windows: bool) -> (r: (String, String))
    ensures
        engine_type is Native && on_windows ==> r.0@ == "ver"@ && r.1@
            == "where nvidia-smi && nvidia-smi || echo No GPU info available"@,
        engine_type is Native && !on_windows ==> r.0@ == "uname -a"@ && r.1@
            == "which nvidia-smi && nvidia-smi || echo 'No GPU info available'"@,
        engine_type is WSL ==> r.0@ == "uname -a"@ && r.1@ == "nvidia-smi"@,
        engine_type is SSH ==> r.0@ == "uname -a"@ && r.1@
            == "which nvidia-smi && nvidia-smi || echo 'No GPU info available'"@,
{
    match engine_type {
        EngineType::Native => {
            if on_windows {
                (
                    "ver".to_owned(),
                    "where nvidia-smi && nvidia-smi || echo No GPU info available".to_owned(),
                )
            } else {
                (
                    "uname -a".to_owned(),
                    "which nvidia-smi && nvidia-smi || echo 'No GPU info available'".to_owned(),
                )
            }
        },
        EngineType::WSL => ("uname -a".to_owned(), "nvidia-smi".to_owned()),
        EngineType::SSH => (
            "uname -a".to_owned(),
            "which nvidia-smi && nvidia-smi || echo 'No GPU info available'".to_owned(),
        ),
    }
}

/// The engine status after its two probes: a failed system probe fails the
/// start, while GPU problems only show up in the reported text.
pub fn engine_status_after_start(sys: ProbeOutcome, gpu: ProbeOutcome) -> (r: Result<
    EngineStatus,
    String,
>)
    ensures
        match sys {
            ProbeOutcome::SpawnFailed { error } => r == Err::<EngineStatus, String>(error),
            ProbeOutcome::Output { success, stdout, stderr } => {
                if !success {
                    r matches Err(e) && e@ == "System info command failed: "@ + stderr@
                } else {
                    r matches Ok(st) && st.running && st.system_info == Some(stdout) && st.error
                        is None && (match gpu {
                        ProbeOutcome::Output { success: gok, stdout: gout, stderr: gerr } => {
                            if gok {
                                st.gpu_info == Some(gout)
                            } else {
                                st.gpu_info matches Some(g) && g@
                                    == "GPU info command failed: "@ + gerr@
                            }
                        },
                        ProbeOutcome::SpawnFailed { error } => st.gpu_info matches Some(g) && g@
                            == "Failed to execute GPU info command: "@ + error@,
                    })
                }
            },
        },
{
    match sys {
        ProbeOutcome::SpawnFailed { error } => Err(error),
        ProbeOutcome::Output { success, stdout, stderr } => {
            if !success {
                let mut e = String::new();
                e.append("System info command failed: ");
                e.append(stderr.as_str());
                Err(e)
            } else {
                let gpu_info: Option<String> = match gpu {
                    ProbeOutcome::Output { success: gok, stdout: gout, stderr: gerr } => {
                        if gok {
                            Some(gout)
                        } else {
                            let mut g = String::new();
                            g.append("GPU info command failed: ");
                            g.append(gerr.as_str());
                            Some(g)
                        }
                    },
                    ProbeOutcome::SpawnFailed { error } => {
                        let mut g = String::new();
                        g.append("Failed to execute GPU info command: ");
                        g.append(error.as_str());
                        Some(g)
                    },
                };
                Ok(EngineStatus { running: true, system_info: Some(stdout), gpu_info, error: None })
            }
        },
    }
}

} // verus!
