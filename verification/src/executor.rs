//! Process execution requests and replies: the configuration a caller builds,
//! the closed error taxonomy, and the consolidated output of a finished or
//! still-running process.

use vstd::prelude::*;
use crate::pairs::{
    distinct_keys,
    lookup,
    lemma_lookup_push,
    lemma_lookup_update,
    lemma_lookup_absent,
    lemma_distinct_push,
    lemma_distinct_update,
};
use vstd::pervasive::VecAdditionalExecFns;

verus! {

/// A request to run one program: its name, ordered arguments, environment
/// (unique names), optional working directory, which standard streams to
/// capture or feed, and optional user/group/process-group ids.
#[derive(Debug, Clone)]
pub struct LinuxProcessConfiguration {
    pub program: String,
    pub args: Vec<String>,
    pub envs: Vec<(String, String)>,
    pub working_dir: Option<String>,
    pub redirect_stdout: bool,
    pub redirect_stdin: bool,
    pub redirect_stderr: bool,
    pub disable_extra_reads: bool,
    pub user_id: Option<u32>,
    pub group_id: Option<u32>,
    pub process_group_id: Option<u32>,
}

impl LinuxProcessConfiguration {
    /// The environment holds at most one binding per variable name.
    pub open spec fn wf(self) -> bool {
        distinct_keys(self.envs.deep_view())
    }

    /// Starts from a bare program name: no arguments, no environment, no
    /// working directory, nothing redirected, no ids requested.
    pub fn new(program: &str) -> (r: LinuxProcessConfiguration)
        ensures
            r.program@ == program@,
            r.args@.len() == 0,
            r.envs@.len() == 0,
            r.working_dir is None,
            !r.redirect_stdout,
            !r.redirect_stdin,
            !r.redirect_stderr,
            !r.disable_extra_reads,
            r.user_id is None,
            r.group_id is None,
            r.process_group_id is None,
            r.wf(),
    {
        LinuxProcessConfiguration {
            program: program.to_owned(),
            args: Vec::new(),
            envs: Vec::new(),
            working_dir: None,
            redirect_stdout: false,
            redirect_stdin: false,
            redirect_stderr: false,
            disable_extra_reads: false,
            user_id: None,
            group_id: None,
            process_group_id: None,
        }
    }

    /// Appends one argument.
    pub fn arg(self, argument: &str) -> (r: Self)
        ensures
            r.args.deep_view() == self.args.deep_view().push(argument@),
            r == (LinuxProcessConfiguration { args: r.args, ..self }),
    {
        let mut cfg = self;
        cfg.args.push(argument.to_owned());
        proof {
            assert(cfg.args.deep_view() =~= self.args.deep_view().push(argument@));
        }
        cfg
    }

    /// Moves every element of `arguments` to the end of the argument list,
    /// leaving `arguments` empty.
    pub fn args(self, arguments: &mut Vec<String>) -> (r: Self)
        ensures
            r.args@ == self.args@ + old(arguments)@,
            final(arguments)@.len() == 0,
            r == (LinuxProcessConfiguration { args: r.args, ..self }),
    {
        let mut cfg = self;
        cfg.args.append(arguments);
        cfg
    }

    /// Binds `key` to `value` in the environment, replacing any prior binding
    /// of the same name; every other binding is untouched.
    pub fn env(self, key: String, value: String) -> (r: Self)
        requires
            self.wf(),
        ensures
            r.wf(),
            lookup(r.envs.deep_view(), key@) == Some(value@),
            forall|k: Seq<char>|
                k != key@ ==> #[trigger] lookup(r.envs.deep_view(), k) == lookup(
                    self.envs.deep_view(),
                    k,
                ),
            r == (LinuxProcessConfiguration { envs: r.envs, ..self }),
    {
        let ghost dv = self.envs.deep_view();
        proof {
            assert forall|j: int| 0 <= j < dv.len() implies dv[j] == (
                self.envs@[j].0@,
                self.envs@[j].1@,
            ) by {}
        }
        let mut cfg = self;
        let n = cfg.envs.len();
        let mut i: usize = 0;
        while i < n
            invariant
                cfg == self,
                dv == self.envs.deep_view(),
                distinct_keys(dv),
                n == cfg.envs@.len(),
                0 <= i <= n,
                forall|j: int| 0 <= j < i ==> dv[j].0 != key@,
                forall|j: int|
                    0 <= j < dv.len() ==> dv[j] == (#[trigger] self.envs@[j].0@, self.envs@[j].1@),
            decreases n - i,
        {
            if cfg.envs[i].0 == key {
                proof {
                    assert(dv[i as int].0 == key@);
                }
                cfg.envs.set(i, (key, value));
                proof {
                    assert(cfg.envs.deep_view() =~= dv.update(i as int, (key@, value@)));
                    lemma_distinct_update(dv, i as int, (key@, value@));
                    lemma_lookup_update(dv, i as int, (key@, value@), key@);
                    assert forall|k: Seq<char>|
                        k != key@ implies #[trigger] lookup(cfg.envs.deep_view(), k) == lookup(
                        dv,
                        k,
                    ) by {
                        lemma_lookup_update(dv, i as int, (key@, value@), k);
                    }
                }
                return cfg;
            }
            i += 1;
        }
        cfg.envs.push((key, value));
        proof {
            assert(cfg.envs.deep_view() =~= dv.push((key@, value@)));
            lemma_lookup_absent(dv, key@);
            lemma_distinct_push(dv, (key@, value@));
            lemma_lookup_push(dv, (key@, value@), key@);
            assert forall|k: Seq<char>|
                k != key@ implies #[trigger] lookup(cfg.envs.deep_view(), k) == lookup(dv, k) by {
                lemma_lookup_push(dv, (key@, value@), k);
            }
        }
        cfg
    }

    /// Binds every pair of `environment`, replacing prior bindings of the same
    /// names; bindings of other names are untouched.
    pub fn envs(self, environment: &Vec<(String, String)>) -> (r: Self)
        requires
            self.wf(),
            distinct_keys(environment.deep_view()),
        ensures
            r.wf(),
            forall|k: Seq<char>|
                lookup(environment.deep_view(), k) is Some ==> #[trigger] lookup(
                    r.envs.deep_view(),
                    k,
                ) == lookup(environment.deep_view(), k),
            forall|k: Seq<char>|
                lookup(environment.deep_view(), k) is None ==> #[trigger] lookup(
                    r.envs.deep_view(),
                    k,
                ) == lookup(self.envs.deep_view(), k),
            r == (LinuxProcessConfiguration { envs: r.envs, ..self }),
    {
        let ghost orig = self.envs.deep_view();
        let ghost ev = environment.deep_view();
        proof {
            assert forall|j: int| 0 <= j < ev.len() implies ev[j] == (
                environment@[j].0@,
                environment@[j].1@,
            ) by {}
        }
        let mut cfg = self;
        let n = environment.len();
        let mut i: usize = 0;
        while i < n
            invariant
                cfg.wf(),
                cfg == (LinuxProcessConfiguration { envs: cfg.envs, ..self }),
                n == environment@.len(),
                ev == environment.deep_view(),
                distinct_keys(ev),
                orig == self.envs.deep_view(),
                0 <= i <= n,
                forall|j: int|
                    0 <= j < ev.len() ==> ev[j] == (
                        #[trigger] environment@[j].0@,
                        environment@[j].1@,
                    ),
                forall|k: Seq<char>|
                    lookup(ev.take(i as int), k) is Some ==> #[trigger] lookup(
                        cfg.envs.deep_view(),
                        k,
                    ) == lookup(ev.take(i as int), k),
                forall|k: Seq<char>|
                    lookup(ev.take(i as int), k) is None ==> #[trigger] lookup(
                        cfg.envs.deep_view(),
                        k,
                    ) == lookup(orig, k),
            decreases n - i,
        {
            let ghost pre = cfg.envs.deep_view();
            let key = environment[i].0.clone();
            let value = environment[i].1.clone();
            proof {
                assert(key@ == ev[i as int].0 && value@ == ev[i as int].1);
            }
            cfg = cfg.env(key, value);
            proof {
                assert(ev.take(i + 1) =~= ev.take(i as int).push(ev[i as int]));
                assert forall|k: Seq<char>| true implies {
                    &&& (lookup(ev.take(i + 1), k) is Some ==> #[trigger] lookup(
                        cfg.envs.deep_view(),
                        k,
                    ) == lookup(ev.take(i + 1), k))
                    &&& (lookup(ev.take(i + 1), k) is None ==> lookup(cfg.envs.deep_view(), k)
                        == lookup(orig, k))
                } by {
                    lemma_lookup_push(ev.take(i as int), ev[i as int], k);
                    if k == ev[i as int].0 {
                        assert(forall|j: int| 0 <= j < i ==> ev.take(i as int)[j] == ev[j]);
                        lemma_lookup_absent(ev.take(i as int), k);
                    }
                }
            }
            i += 1;
        }
        proof {
            assert(ev.take(n as int) =~= ev);
        }
        cfg
    }

    /// Empties the environment.
    pub fn clear_env(self) -> (r: Self)
        ensures
            r.envs@.len() == 0,
            r.wf(),
            r == (LinuxProcessConfiguration { envs: r.envs, ..self }),
    {
        let mut cfg = self;
        cfg.envs.clear();
        cfg
    }

    /// Sets the directory the process starts in.
    pub fn working_dir(self, working_dir: &str) -> (r: Self)
        ensures
            r.working_dir matches Some(d) && d@ == working_dir@,
            r == (LinuxProcessConfiguration { working_dir: r.working_dir, ..self }),
    {
        let mut cfg = self;
        cfg.working_dir = Some(working_dir.to_owned());
        cfg
    }

    /// Requests capture of the process's standard output.
    pub fn redirect_stdout(self) -> (r: Self)
        ensures
            r == (LinuxProcessConfiguration { redirect_stdout: true, ..self }),
    {
        LinuxProcessConfiguration { redirect_stdout: true, ..self }
    }

    /// Requests a writable standard input for the process.
    pub fn redirect_stdin(self) -> (r: Self)
        ensures
            r == (LinuxProcessConfiguration { redirect_stdin: true, ..self }),
    {
        LinuxProcessConfiguration { redirect_stdin: true, ..self }
    }

    /// Requests capture of the process's standard error.
    pub fn redirect_stderr(self) -> (r: Self)
        ensures
            r == (LinuxProcessConfiguration { redirect_stderr: true, ..self }),
    {
        LinuxProcessConfiguration { redirect_stderr: true, ..self }
    }

    /// Limits reading to the standard streams: extended-data streams other
    /// than standard error are drained and discarded instead of captured.
    pub fn disable_extra_reads(self) -> (r: Self)
        ensures
            r == (LinuxProcessConfiguration { disable_extra_reads: true, ..self }),
    {
        LinuxProcessConfiguration { disable_extra_reads: true, ..self }
    }

    /// Requests the process run under this user id.
    pub fn user_id(self, user_id: u32) -> (r: Self)
        ensures
            r == (LinuxProcessConfiguration { user_id: Some(user_id), ..self }),
    {
        LinuxProcessConfiguration { user_id: Some(user_id), ..self }
    }

    /// Requests the process run under this group id.
    pub fn group_id(self, group_id: u32) -> (r: Self)
        ensures
            r == (LinuxProcessConfiguration { group_id: Some(group_id), ..self }),
    {
        LinuxProcessConfiguration { group_id: Some(group_id), ..self }
    }

    /// Requests the process join this process group.
    pub fn process_group_id(self, process_group_id: u32) -> (r: Self)
        ensures
            r == (LinuxProcessConfiguration { process_group_id: Some(process_group_id), ..self }),
    {
        LinuxProcessConfiguration { process_group_id: Some(process_group_id), ..self }
    }
}

/// The closed set of failures a process operation can report. I/O and foreign
/// failures carry the underlying diagnostic text verbatim.
#[derive(Debug, Clone, PartialEq, Eq)]
pub enum LinuxProcessError {
    /// The backend cannot perform this operation at all.
    UnsupportedOperation,
    /// The backend cannot observe a process id for this process.
    ProcessIdNotFound,
    /// A write to or close of standard input without `redirect_stdin`.
    StdinNotPiped,
    /// Partial standard output requested without `redirect_stdout`.
    StdoutNotPiped,
    /// Partial standard error requested without `redirect_stderr`.
    StderrNotPiped,
    /// A redirected stream's underlying endpoint is missing.
    StreamPipedButNotFound,
    /// An OS- or peer-reported I/O failure.
    IO(String),
    /// A foreign failure from a dependency that fits no other kind.
    Other(String),
}

/// Everything captured from a process that has terminated and been awaited.
/// A stream's bytes are present exactly when its redirect was requested.
#[derive(Debug, Clone)]
pub struct LinuxProcessOutput {
    pub stdout: Option<Vec<u8>>,
    pub stderr: Option<Vec<u8>>,
    pub stdout_extended: Vec<(u32, Vec<u8>)>,
    pub status_code: Option<i64>,
}

/// A non-destructive snapshot of what has been captured so far from a process
/// that may still be running.
#[derive(Debug, Clone)]
pub struct LinuxProcessPartialOutput {
    pub stdout: Option<Vec<u8>>,
    pub stderr: Option<Vec<u8>>,
    pub stdout_extended: Vec<(u32, Vec<u8>)>,
}

} // verus!
