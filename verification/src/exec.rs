use vstd::prelude::*;

use crate::channel::{extend_bytes, ChannelMsg};
use crate::error::{Error, ErrorKind};

verus! {

/// Mathematical state of the buffered message loop: everything observed on
/// the channel so far that the completion policy depends on.
#[verifier::ext_equal]
pub struct ExecModel {
    pub stdout: Seq<u8>,
    pub stderr: Seq<u8>,
    pub status: Option<u32>,
    pub eof: bool,
}

impl ExecModel {
    pub open spec fn init() -> ExecModel {
        ExecModel { stdout: Seq::empty(), stderr: Seq::empty(), status: None, eof: false }
    }

    /// Both the exit status and end-of-stream have been observed.
    pub open spec fn done(self) -> bool {
        self.status is Some && self.eof
    }

    /// The state after one more channel event.
    pub open spec fn step(self, msg: ChannelMsg) -> ExecModel {
        ExecModel {
            stdout: self.stdout + msg.stdout_part(),
            stderr: self.stderr + msg.stderr_part(),
            status: msg.status_after(self.status),
            eof: msg.eof_after(self.eof),
        }
    }

    /// The exit code under the rule that an absent status counts as success.
    pub open spec fn code(self) -> u32 {
        match self.status {
            Some(s) => s,
            None => 0,
        }
    }
}

/// Folds a channel transcript into the state of the message loop. The loop
/// stops consuming at the first point where both exit status and
/// end-of-stream have been observed, so the fold freezes there too:
/// events past that point do not alter the state.
pub open spec fn exec_fold(events: Seq<ChannelMsg>) -> ExecModel
    decreases events.len(),
{
    if events.len() == 0 {
        ExecModel::init()
    } else {
        let prev = exec_fold(events.drop_last());
        if prev.done() {
            prev
        } else {
            prev.step(events.last())
        }
    }
}

/// The observable result of a buffered execution.
pub enum ExecOutcome {
    /// Completed with exit status zero (or none): the buffered stdout.
    Success { stdout: Seq<u8> },
    /// Completed with a non-zero exit status and the captured error stream.
    Failed { status: u32, stderr: Seq<u8> },
    /// The transcript ended before both completion signals were observed.
    Malformed,
}

/// What `exec` must produce for a given transcript.
pub open spec fn exec_spec(events: Seq<ChannelMsg>) -> ExecOutcome {
    let m = exec_fold(events);
    if !m.done() {
        ExecOutcome::Malformed
    } else if m.code() == 0 {
        ExecOutcome::Success { stdout: m.stdout }
    } else {
        ExecOutcome::Failed { status: m.code(), stderr: m.stderr }
    }
}

/// Once the fold has completed, the rest of the transcript is ignored.
pub proof fn lemma_exec_fold_frozen(events: Seq<ChannelMsg>, i: int)
    requires
        0 <= i <= events.len(),
        exec_fold(events.take(i)).done(),
    ensures
        exec_fold(events) == exec_fold(events.take(i)),
    decreases events.len() - i,
{
    if i < events.len() {
        assert(events.take(i + 1).drop_last() =~= events.take(i));
        lemma_exec_fold_frozen(events, i + 1);
    } else {
        assert(events.take(i) =~= events);
    }
}

/// Executable state of the buffered message loop, mirroring `ExecModel`.
pub struct ExecState {
    pub stdout: Vec<u8>,
    pub stderr: Vec<u8>,
    pub status: Option<u32>,
    pub eof: bool,
}

impl ExecState {
    pub open spec fn model(self) -> ExecModel {
        ExecModel { stdout: self.stdout@, stderr: self.stderr@, status: self.status, eof: self.eof }
    }

    pub fn new() -> (r: ExecState)
        ensures
            r.model() == ExecModel::init(),
    {
        let r = ExecState { stdout: Vec::new(), stderr: Vec::new(), status: None, eof: false };
        proof {
            assert(r.model() =~= ExecModel::init());
        }
        r
    }

    /// Whether both completion signals have been observed.
    pub fn is_done(&self) -> (r: bool)
        ensures
            r == self.model().done(),
    {
        self.status.is_some() && self.eof
    }

    /// Consumes one channel event: accumulate stdout, accumulate stream-1
    /// extended data as stderr, record an exit status or end-of-stream, and
    /// ignore everything else. Returns whether the command is now complete.
    pub fn step(&mut self, msg: &ChannelMsg) -> (done: bool)
        ensures
            final(self).model() == old(self).model().step(*msg),
            done == final(self).model().done(),
    {
        match msg {
            ChannelMsg::Data { data } => {
                extend_bytes(&mut self.stdout, data);
            },
            ChannelMsg::ExtendedData { data, ext } => {
                if *ext == 1 {
                    extend_bytes(&mut self.stderr, data);
                }
            },
            ChannelMsg::ExitStatus { status } => {
                self.status = Some(*status);
            },
            ChannelMsg::Eof => {
                self.eof = true;
            },
            ChannelMsg::Close => {},
            ChannelMsg::Other => {},
        }
        proof {
            assert(self.model() =~= old(self).model().step(*msg));
        }
        self.status.is_some() && self.eof
    }

    /// Applies the completion policy to what was observed: exit status zero
    /// or absent returns the buffered stdout; a non-zero status returns the
    /// structured error carrying the status and the captured error stream.
    pub fn finish(self) -> (r: Result<Vec<u8>, Error>)
        ensures
            self.model().code() == 0 ==> (r matches Ok(out) && out@ == self.model().stdout),
            self.model().code() != 0 ==> (r matches Err(e) && (e.kind matches ErrorKind::ExitStatus {
                status,
                output,
            } && status == self.model().code() && output@ == self.model().stderr)),
    {
        let status = match self.status {
            Some(s) => s,
            None => 0,
        };
        if status != 0 {
            Err(
                Error {
                    message: "command exited with a non-zero status".to_owned(),
                    kind: ErrorKind::ExitStatus { status, output: self.stderr },
                },
            )
        } else {
            Ok(self.stdout)
        }
    }
}

/// Buffered execution over a full channel transcript: consume events until
/// both an exit status and end-of-stream have been observed (in either
/// order), then apply the completion policy. A transcript that ends before
/// completion is a protocol violation.
pub fn exec(events: &Vec<ChannelMsg>) -> (r: Result<Vec<u8>, Error>)
    ensures
        match exec_spec(events@) {
            ExecOutcome::Success { stdout } => r matches Ok(out) && out@ == stdout,
            ExecOutcome::Failed { status, stderr } => r matches Err(e) && (e.kind matches ErrorKind::ExitStatus {
                status: s,
                output,
            } && s == status && output@ == stderr),
            ExecOutcome::Malformed => r matches Err(e) && e.kind is Message && e.message@
                == "malformed end of stream"@,
        },
{
    let mut st = ExecState::new();
    let mut i: usize = 0;
    while i < events.len()
        invariant_except_break
            !st.model().done(),
        invariant
            i <= events@.len(),
            st.model() == exec_fold(events@.take(i as int)),
        ensures
            st.model().done() || i == events@.len(),
        decreases events@.len() - i,
    {
        let done = st.step(&events[i]);
        proof {
            assert(events@.take(i + 1).drop_last() =~= events@.take(i as int));
        }
        i += 1;
        if done {
            break;
        }
    }
    proof {
        if st.model().done() {
            lemma_exec_fold_frozen(events@, i as int);
        } else {
            assert(events@.take(i as int) =~= events@);
        }
    }
    if st.is_done() {
        st.finish()
    } else {
        Err(Error::new("malformed end of stream"))
    }
}

/// The concatenation, in arrival order, of every stdout chunk in a transcript.
pub open spec fn all_stdout(events: Seq<ChannelMsg>) -> Seq<u8>
    decreases events.len(),
{
    if events.len() == 0 {
        Seq::empty()
    } else {
        all_stdout(events.drop_last()) + events.last().stdout_part()
    }
}

/// Buffered execution succeeds exactly when the observed exit status is zero
/// or absent, and then its output is the concatenation of all stdout chunks
/// in arrival order; stated for transcripts that reach completion exactly at
/// their end.
pub proof fn lemma_exec_success_iff_zero_status(events: Seq<ChannelMsg>)
    requires
        exec_fold(events).done(),
        forall|i: int| 0 <= i < events.len() ==> !exec_fold(#[trigger] events.take(i)).done(),
    ensures
        exec_spec(events) is Success <==> exec_fold(events).code() == 0,
        exec_fold(events).stdout == all_stdout(events),
{
    lemma_exec_fold_collects_all_stdout(events);
}

/// While no proper prefix has completed, the fold never freezes, so it
/// accumulates the stdout of every event.
proof fn lemma_exec_fold_collects_all_stdout(events: Seq<ChannelMsg>)
    requires
        forall|i: int| 0 <= i < events.len() ==> !exec_fold(#[trigger] events.take(i)).done(),
    ensures
        exec_fold(events).stdout == all_stdout(events),
    decreases events.len(),
{
    if events.len() > 0 {
        let prefix = events.drop_last();
        assert forall|i: int| 0 <= i < prefix.len() implies !exec_fold(
            #[trigger] prefix.take(i),
        ).done() by {
            assert(prefix.take(i) =~= events.take(i));
        }
        lemma_exec_fold_collects_all_stdout(prefix);
        assert(events.take(events.len() - 1) =~= prefix);
        assert(!exec_fold(prefix).done());
    }
}

/// A transcript that delivers end-of-stream before the exit status yields
/// the same outcome as one that delivers them in the reverse order; stated
/// for prefixes during which no exit status has yet been observed.
pub proof fn lemma_exit_eof_order_irrelevant(prefix: Seq<ChannelMsg>, status: u32)
    requires
        exec_fold(prefix).status is None,
    ensures
        exec_spec(prefix + seq![ChannelMsg::Eof, ChannelMsg::ExitStatus { status }]) == exec_spec(
            prefix + seq![ChannelMsg::ExitStatus { status }, ChannelMsg::Eof],
        ),
{
    let eof = ChannelMsg::Eof;
    let exit = ChannelMsg::ExitStatus { status };
    let a = prefix + seq![eof, exit];
    let b = prefix + seq![exit, eof];
    let a1 = prefix.push(eof);
    let b1 = prefix.push(exit);
    let m = exec_fold(prefix);
    assert(!m.done());
    assert(a1.drop_last() =~= prefix);
    assert(b1.drop_last() =~= prefix);
    assert(exec_fold(a1) == m.step(eof));
    assert(exec_fold(b1) == m.step(exit));
    assert(a.drop_last() =~= a1);
    assert(a.last() == exit);
    assert(b.drop_last() =~= b1);
    assert(b.last() == eof);
    assert(!exec_fold(a1).done());
    assert(exec_fold(a) == m.step(eof).step(exit));
    if m.eof {
        assert(exec_fold(b1).done());
        assert(exec_fold(b) == m.step(exit));
    } else {
        assert(exec_fold(b) == m.step(exit).step(eof));
    }
    assert(exec_fold(a) =~= exec_fold(b));
}

} // verus!
