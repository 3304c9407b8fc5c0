//! The event-driven core of a running remote process: which channel
//! observations land in which capture buffer, how exit reports turn into a
//! status code, and which stdin and kill requests are permitted in which
//! state. An asynchronous reader owns the transport and feeds every
//! observation through a [`ProcessTracker`]; everything the tracker does is
//! specified by the pure transition function [`step`].

use vstd::prelude::*;
use crate::executor::{
    LinuxProcessConfiguration,
    LinuxProcessError,
    LinuxProcessOutput,
    LinuxProcessPartialOutput,
};
use crate::pairs::{distinct_keys, lemma_distinct_push, lemma_distinct_update, has_key};
use crate::bytes::{append_bytes, clone_bytes};

verus! {

/// Where a process stands in its life cycle. A kill request moves a running
/// process to `Signalled`; an exit report or channel close is terminal.
#[derive(Clone, Copy, Debug, PartialEq, Eq, Structural)]
pub enum ProcessState {
    Running,
    Signalled,
    Exited,
}

/// The SSH extended-data stream id that carries standard error.
pub const STDERR_EXTENDED_ID: u32 = 1;

/// One observation the channel reader can make about a process, or one
/// request the caller can make of it. Used to state what the tracker does.
pub enum ChannelEvent {
    /// Ordinary channel data: the process wrote to standard output.
    Data { data: Seq<u8> },
    /// Extended channel data: id 1 is standard error, other ids are extra
    /// streams the peer chose.
    ExtendedData { ext: u32, data: Seq<u8> },
    /// The peer reported a regular exit with this code.
    ExitStatus { status: u32 },
    /// The peer reported termination by this signal number.
    ExitSignal { signal: u32 },
    /// The caller asked for termination.
    KillRequested,
    /// The channel closed without any further report.
    Closed,
}

/// The abstract state of a tracked process.
pub struct TrackerView {
    pub redirect_stdout: bool,
    pub redirect_stdin: bool,
    pub redirect_stderr: bool,
    pub disable_extra_reads: bool,
    pub stdout: Seq<u8>,
    pub stderr: Seq<u8>,
    pub extended: Seq<(u32, Seq<u8>)>,
    pub stdin_open: bool,
    pub status_code: Option<i64>,
    pub state: ProcessState,
}

impl TrackerView {
    /// Extended streams are keyed by distinct ids, none of which is the
    /// standard-error id, and stdin can only be open when it was redirected.
    pub open spec fn wf(self) -> bool {
        &&& distinct_keys(self.extended)
        &&& forall|i: int|
            0 <= i < self.extended.len() ==> (#[trigger] self.extended[i]).0
                != STDERR_EXTENDED_ID
        &&& (self.stdin_open ==> self.redirect_stdin)
    }
}

/// The buffer sequence for extra stream `ext` after `data` arrives on it:
/// the bytes are appended to the existing entry, or a new entry is added at
/// the end for a first observation.
pub open spec fn ext_extend(s: Seq<(u32, Seq<u8>)>, ext: u32, data: Seq<u8>) -> Seq<
    (u32, Seq<u8>),
>
    decreases s.len(),
{
    if s.len() == 0 {
        seq![(ext, data)]
    } else if s[0].0 == ext {
        seq![(s[0].0, s[0].1 + data)] + s.drop_first()
    } else {
        seq![s[0]] + ext_extend(s.drop_first(), ext, data)
    }
}

/// A negated signal number, the status code reported for a process that was
/// terminated by a signal.
pub open spec fn signal_status(signal: u32) -> i64 {
    (-(signal as int)) as i64
}

/// What one event does to the tracked state. Ordinary data lands in the
/// stdout buffer only when stdout was redirected; extended data with id 1
/// lands in the stderr buffer only when stderr was redirected; other ids are
/// captured per stream unless extra reads are disabled, in which case they
/// are drained and dropped. An exit report stores the status code (negated
/// signal number for a signal) and is terminal; a close without a report is
/// terminal with the status left absent; a kill request marks a process that
/// has not yet exited as signalled.
pub open spec fn step(v: TrackerView, e: ChannelEvent) -> TrackerView {
    match e {
        ChannelEvent::Data { data } => {
            if v.redirect_stdout {
                TrackerView { stdout: v.stdout + data, ..v }
            } else {
                v
            }
        },
        ChannelEvent::ExtendedData { ext, data } => {
            if ext == STDERR_EXTENDED_ID {
                if v.redirect_stderr {
                    TrackerView { stderr: v.stderr + data, ..v }
                } else {
                    v
                }
            } else if !v.disable_extra_reads {
                TrackerView { extended: ext_extend(v.extended, ext, data), ..v }
            } else {
                v
            }
        },
        ChannelEvent::ExitStatus { status } => TrackerView {
            status_code: Some(status as i64),
            state: ProcessState::Exited,
            ..v
        },
        ChannelEvent::ExitSignal { signal } => TrackerView {
            status_code: Some(signal_status(signal)),
            state: ProcessState::Exited,
            ..v
        },
        ChannelEvent::KillRequested => {
            if v.state == ProcessState::Exited {
                v
            } else {
                TrackerView { state: ProcessState::Signalled, ..v }
            }
        },
        ChannelEvent::Closed => TrackerView { state: ProcessState::Exited, ..v },
    }
}

/// The state after a whole sequence of events, first to last.
pub open spec fn run(v: TrackerView, events: Seq<ChannelEvent>) -> TrackerView
    decreases events.len(),
{
    if events.len() == 0 {
        v
    } else {
        run(step(v, events[0]), events.drop_first())
    }
}

/// Extending the entry of a present id rewrites the sequence in place.
proof fn lemma_ext_extend_present(s: Seq<(u32, Seq<u8>)>, ext: u32, data: Seq<u8>, i: int)
    requires
        distinct_keys(s),
        0 <= i < s.len(),
        s[i].0 == ext,
    ensures
        ext_extend(s, ext, data) =~= s.update(i, (ext, s[i].1 + data)),
    decreases s.len(),
{
    if i == 0 {
        assert(ext_extend(s, ext, data) =~= s.update(0, (ext, s[0].1 + data)));
    } else {
        assert(s[0].0 != ext);
        assert(s.drop_first()[i - 1] == s[i]);
        lemma_ext_extend_present(s.drop_first(), ext, data, i - 1);
        assert(ext_extend(s, ext, data) =~= seq![s[0]] + s.drop_first().update(
            i - 1,
            (ext, s[i].1 + data),
        ));
        assert(seq![s[0]] + s.drop_first().update(i - 1, (ext, s[i].1 + data)) =~= s.update(
            i,
            (ext, s[i].1 + data),
        ));
    }
}

/// Extending the entry of an absent id appends a fresh entry.
proof fn lemma_ext_extend_absent(s: Seq<(u32, Seq<u8>)>, ext: u32, data: Seq<u8>)
    requires
        forall|i: int| 0 <= i < s.len() ==> (#[trigger] s[i]).0 != ext,
    ensures
        ext_extend(s, ext, data) =~= s.push((ext, data)),
    decreases s.len(),
{
    if s.len() > 0 {
        assert(forall|i: int|
            0 <= i < s.drop_first().len() ==> (#[trigger] s.drop_first()[i]).0 != ext);
        lemma_ext_extend_absent(s.drop_first(), ext, data);
        assert(ext_extend(s, ext, data) =~= seq![s[0]] + s.drop_first().push((ext, data)));
        assert(seq![s[0]] + s.drop_first().push((ext, data)) =~= s.push((ext, data)));
    }
}

/// Every step preserves well-formedness of the tracked state.
pub proof fn lemma_step_preserves_wf(v: TrackerView, e: ChannelEvent)
    requires
        v.wf(),
    ensures
        step(v, e).wf(),
{
    if let ChannelEvent::ExtendedData { ext, data } = e {
        if ext != STDERR_EXTENDED_ID && !v.disable_extra_reads {
            if has_key(v.extended, ext) {
                let i = choose|i: int| 0 <= i < v.extended.len() && v.extended[i].0 == ext;
                lemma_ext_extend_present(v.extended, ext, data, i);
                lemma_distinct_update(v.extended, i, (ext, v.extended[i].1 + data));
            } else {
                assert(forall|i: int|
                    0 <= i < v.extended.len() ==> (#[trigger] v.extended[i]).0 != ext);
                lemma_ext_extend_absent(v.extended, ext, data);
                lemma_distinct_push(v.extended, (ext, data));
            }
        }
    }
}

/// Law: well-formedness of the tracked state is an invariant of every run,
/// whatever the channel delivers.
pub proof fn law_run_preserves_wf(v: TrackerView, events: Seq<ChannelEvent>)
    requires
        v.wf(),
    ensures
        run(v, events).wf(),
    decreases events.len(),
{
    if events.len() > 0 {
        lemma_step_preserves_wf(v, events[0]);
        law_run_preserves_wf(step(v, events[0]), events.drop_first());
    }
}

/// A prefix of a prefix is a prefix.
proof fn lemma_prefix_transitive(a: Seq<u8>, b: Seq<u8>, c: Seq<u8>)
    requires
        a.is_prefix_of(b),
        b.is_prefix_of(c),
    ensures
        a.is_prefix_of(c),
{
    assert(a =~= c.take(a.len() as int)) by {
        assert(forall|i: int| 0 <= i < a.len() ==> a[i] == b[i] && b[i] == c[i]);
    }
}

/// No step shortens or rewrites captured standard output: it is only ever
/// appended to.
pub proof fn lemma_step_stdout_grows(v: TrackerView, e: ChannelEvent)
    ensures
        v.stdout.is_prefix_of(step(v, e).stdout),
{
    assert(v.stdout =~= v.stdout.take(v.stdout.len() as int));
    if let ChannelEvent::Data { data } = e {
        if v.redirect_stdout {
            assert(v.stdout =~= (v.stdout + data).take(v.stdout.len() as int));
        }
    }
}

/// Law: the standard output captured at any moment of a run is a prefix of
/// the standard output captured at any later moment, so every partial-output
/// snapshot taken during execution is a prefix of the final output.
pub proof fn law_partial_stdout_prefix(v: TrackerView, events: Seq<ChannelEvent>)
    ensures
        v.stdout.is_prefix_of(run(v, events).stdout),
    decreases events.len(),
{
    if events.len() == 0 {
        assert(v.stdout =~= v.stdout.take(v.stdout.len() as int));
    } else {
        let v2 = step(v, events[0]);
        lemma_step_stdout_grows(v, events[0]);
        law_partial_stdout_prefix(v2, events.drop_first());
        lemma_prefix_transitive(v.stdout, v2.stdout, run(v, events).stdout);
    }
}

/// The captured-so-far state of one process: which streams are captured,
/// their buffers, whether stdin is still open, and how the process ended if
/// it has.
pub struct ProcessTracker {
    pub redirect_stdout: bool,
    pub redirect_stdin: bool,
    pub redirect_stderr: bool,
    pub disable_extra_reads: bool,
    pub stdout: Vec<u8>,
    pub stderr: Vec<u8>,
    pub extended: Vec<(u32, Vec<u8>)>,
    pub stdin_open: bool,
    pub status_code: Option<i64>,
    pub state: ProcessState,
}

impl View for ProcessTracker {
    type V = TrackerView;

    open spec fn view(&self) -> TrackerView {
        TrackerView {
            redirect_stdout: self.redirect_stdout,
            redirect_stdin: self.redirect_stdin,
            redirect_stderr: self.redirect_stderr,
            disable_extra_reads: self.disable_extra_reads,
            stdout: self.stdout@,
            stderr: self.stderr@,
            extended: self.extended.deep_view(),
            stdin_open: self.stdin_open,
            status_code: self.status_code,
            state: self.state,
        }
    }
}

impl ProcessTracker {
    /// A fresh tracker for a process spawned from `config`: empty buffers,
    /// no status, running, with stdin open exactly when it was redirected.
    pub fn new(config: &LinuxProcessConfiguration) -> (r: ProcessTracker)
        ensures
            r@ == (TrackerView {
                redirect_stdout: config.redirect_stdout,
                redirect_stdin: config.redirect_stdin,
                redirect_stderr: config.redirect_stderr,
                disable_extra_reads: config.disable_extra_reads,
                stdout: Seq::<u8>::empty(),
                stderr: Seq::<u8>::empty(),
                extended: Seq::<(u32, Seq<u8>)>::empty(),
                stdin_open: config.redirect_stdin,
                status_code: None::<i64>,
                state: ProcessState::Running,
            }),
            r@.wf(),
    {
        let r = ProcessTracker {
            redirect_stdout: config.redirect_stdout,
            redirect_stdin: config.redirect_stdin,
            redirect_stderr: config.redirect_stderr,
            disable_extra_reads: config.disable_extra_reads,
            stdout: Vec::new(),
            stderr: Vec::new(),
            extended: Vec::new(),
            stdin_open: config.redirect_stdin,
            status_code: None,
            state: ProcessState::Running,
        };
        proof {
            assert(r.extended.deep_view() =~= Seq::<(u32, Seq<u8>)>::empty());
        }
        r
    }

    /// Ordinary channel data arrived: capture it as standard output when
    /// stdout is redirected, drop it otherwise.
    pub fn handle_data(&mut self, data: &[u8])
        ensures
            final(self)@ == step(old(self)@, (ChannelEvent::Data { data: data@ })),
    {
        if self.redirect_stdout {
            append_bytes(&mut self.stdout, data);
        }
    }

    /// Extended channel data arrived: id 1 is standard error and is captured
    /// when stderr is redirected; any other id is captured per stream unless
    /// extra reads are disabled, in which case the bytes are dropped after
    /// draining.
    pub fn handle_extended_data(&mut self, ext: u32, data: &[u8])
        requires
            old(self)@.wf(),
        ensures
            final(self)@.wf(),
            final(self)@ == step(old(self)@, (ChannelEvent::ExtendedData { ext, data: data@ })),
    {
        proof {
            lemma_step_preserves_wf(old(self)@, (ChannelEvent::ExtendedData { ext, data: data@ }));
        }
        if ext == STDERR_EXTENDED_ID {
            if self.redirect_stderr {
                append_bytes(&mut self.stderr, data);
            }
        } else if !self.disable_extra_reads {
            let ghost pre = self.extended.deep_view();
            let n = self.extended.len();
            let mut i: usize = 0;
            while i < n
                invariant
                    *self == *old(self),
                    pre == self.extended.deep_view(),
                    distinct_keys(pre),
                    old(self)@.wf(),
                    ext != STDERR_EXTENDED_ID,
                    !old(self).disable_extra_reads,
                    n == self.extended@.len(),
                    0 <= i <= n,
                    forall|j: int| 0 <= j < i ==> (#[trigger] pre[j]).0 != ext,
                decreases n - i,
            {
                proof {
                    assert(pre[i as int] == (self.extended@[i as int].0, self.extended@[
                        i as int].1@));
                }
                if self.extended[i].0 == ext {
                    let ghost vpre = self.extended@;
                    let entry = self.extended.remove(i);
                    let id0 = entry.0;
                    let mut buf = entry.1;
                    append_bytes(&mut buf, data);
                    self.extended.insert(i, (id0, buf));
                    proof {
                        assert(self.extended@ =~= vpre.update(i as int, (id0, buf)));
                        assert(self.extended.deep_view() =~~= pre.update(
                            i as int,
                            (ext, pre[i as int].1 + data@),
                        ));
                        lemma_ext_extend_present(pre, ext, data@, i as int);
                    }
                    return;
                }
                i += 1;
            }
            let mut fresh: Vec<u8> = Vec::new();
            append_bytes(&mut fresh, data);
            proof {
                assert(Seq::<u8>::empty() + data@ =~= data@);
            }
            self.extended.push((ext, fresh));
            proof {
                assert(self.extended.deep_view() =~~= pre.push((ext, data@)));
                lemma_ext_extend_absent(pre, ext, data@);
            }
        }
    }

    /// The peer reported a regular exit: store the code, the process is done.
    pub fn handle_exit_status(&mut self, status: u32)
        ensures
            final(self)@ == step(old(self)@, (ChannelEvent::ExitStatus { status })),
    {
        self.status_code = Some(status as i64);
        self.state = ProcessState::Exited;
    }

    /// The peer reported termination by a signal: store the negated signal
    /// number, the process is done.
    pub fn handle_exit_signal(&mut self, signal: u32)
        ensures
            final(self)@ == step(old(self)@, (ChannelEvent::ExitSignal { signal })),
    {
        let code: i64 = -(signal as i64);
        proof {
            assert(code == signal_status(signal));
        }
        self.status_code = Some(code);
        self.state = ProcessState::Exited;
    }

    /// The channel closed. Whatever status was reported before stands; a
    /// close without a report leaves the status absent.
    pub fn handle_close(&mut self)
        ensures
            final(self)@ == step(old(self)@, ChannelEvent::Closed),
    {
        self.state = ProcessState::Exited;
    }

    /// The caller asked for termination. Returns whether a signal should
    /// actually be delivered: a process that already exited is left alone
    /// and the request succeeds as a no-op.
    pub fn note_kill_requested(&mut self) -> (send_signal: bool)
        ensures
            final(self)@ == step(old(self)@, ChannelEvent::KillRequested),
            send_signal == (old(self).state != ProcessState::Exited),
    {
        if self.state == ProcessState::Exited {
            false
        } else {
            self.state = ProcessState::Signalled;
            true
        }
    }

    /// Whether a write to the process's standard input may proceed: stdin
    /// must have been redirected and not yet closed. The error in the other
    /// case is `StdinNotPiped`, also after `close_stdin`.
    pub fn check_stdin_writable(&self) -> (r: Result<(), LinuxProcessError>)
        ensures
            r is Ok <==> self.redirect_stdin && self.stdin_open,
            r is Err ==> r == Err::<(), LinuxProcessError>(LinuxProcessError::StdinNotPiped),
    {
        if self.redirect_stdin && self.stdin_open {
            Ok(())
        } else {
            Err(LinuxProcessError::StdinNotPiped)
        }
    }

    /// Closes the process's standard input. Returns whether an end-of-file
    /// still has to be signalled to the peer: true on the first close, false
    /// on every later one (the call is idempotent). Without `redirect_stdin`
    /// there is no stdin to close and the call fails with `StdinNotPiped`.
    pub fn close_stdin(&mut self) -> (r: Result<bool, LinuxProcessError>)
        ensures
            !old(self).redirect_stdin ==> r == Err::<bool, LinuxProcessError>(
                LinuxProcessError::StdinNotPiped,
            ) && *final(self) == *old(self),
            old(self).redirect_stdin ==> r == Ok::<bool, LinuxProcessError>(old(self).stdin_open)
                && final(self)@ == (TrackerView { stdin_open: false, ..old(self)@ }),
    {
        if !self.redirect_stdin {
            Err(LinuxProcessError::StdinNotPiped)
        } else {
            let was_open = self.stdin_open;
            self.stdin_open = false;
            Ok(was_open)
        }
    }

    /// A non-destructive snapshot of everything captured so far. A stream's
    /// bytes are present in the snapshot exactly when its redirect was
    /// requested.
    pub fn get_partial_output(&self) -> (r: Result<
        LinuxProcessPartialOutput,
        LinuxProcessError,
    >)
        ensures
            r matches Ok(p) && partial_reflects(self@, p),
    {
        let stdout = if self.redirect_stdout {
            Some(clone_bytes(&self.stdout))
        } else {
            None
        };
        let stderr = if self.redirect_stderr {
            Some(clone_bytes(&self.stderr))
        } else {
            None
        };
        let mut stdout_extended: Vec<(u32, Vec<u8>)> = Vec::new();
        let n = self.extended.len();
        let mut i: usize = 0;
        while i < n
            invariant
                n == self.extended@.len(),
                0 <= i <= n,
                stdout_extended.deep_view() == self.extended.deep_view().take(i as int),
            decreases n - i,
        {
            let id = self.extended[i].0;
            let bytes = clone_bytes(&self.extended[i].1);
            let ghost snap = stdout_extended.deep_view();
            stdout_extended.push((id, bytes));
            proof {
                assert(self.extended.deep_view()[i as int] == (
                    self.extended@[i as int].0,
                    self.extended@[i as int].1@,
                ));
                assert(stdout_extended.deep_view() =~= snap.push((id, bytes@)));
                assert(snap.push((id, bytes@)) =~= self.extended.deep_view().take(i + 1));
            }
            i += 1;
        }
        proof {
            assert(self.extended.deep_view().take(n as int) =~= self.extended.deep_view());
        }
        Ok(LinuxProcessPartialOutput { stdout, stderr, stdout_extended })
    }

    /// Consumes the tracker into the consolidated output of the process. A
    /// stream's bytes are present exactly when its redirect was requested,
    /// and the status code is whatever exit report was observed.
    pub fn into_output(self) -> (r: LinuxProcessOutput)
        ensures
            output_reflects(self@, r),
    {
        LinuxProcessOutput {
            stdout: if self.redirect_stdout {
                Some(self.stdout)
            } else {
                None
            },
            stderr: if self.redirect_stderr {
                Some(self.stderr)
            } else {
                None
            },
            stdout_extended: self.extended,
            status_code: self.status_code,
        }
    }
}

/// The snapshot `p` faithfully reports the captured state `v`.
pub open spec fn partial_reflects(v: TrackerView, p: LinuxProcessPartialOutput) -> bool {
    &&& if v.redirect_stdout {
        p.stdout matches Some(b) && b@ == v.stdout
    } else {
        p.stdout is None
    }
    &&& if v.redirect_stderr {
        p.stderr matches Some(b) && b@ == v.stderr
    } else {
        p.stderr is None
    }
    &&& p.stdout_extended.deep_view() == v.extended
}

/// The consolidated output `o` faithfully reports the final state `v`.
pub open spec fn output_reflects(v: TrackerView, o: LinuxProcessOutput) -> bool {
    &&& if v.redirect_stdout {
        o.stdout matches Some(b) && b@ == v.stdout
    } else {
        o.stdout is None
    }
    &&& if v.redirect_stderr {
        o.stderr matches Some(b) && b@ == v.stderr
    } else {
        o.stderr is None
    }
    &&& o.stdout_extended.deep_view() == v.extended
    &&& o.status_code == v.status_code
}

} // verus!
