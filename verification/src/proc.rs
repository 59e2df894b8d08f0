use vstd::prelude::*;

use crate::channel::{extend_bytes, ChannelMsg};
use crate::error::{Error, ErrorKind};

verus! {

/// One observation made by the streaming message loop. Each turn the loop
/// first inspects the channel slot: if `interrupt` has emptied it the loop
/// stops at once, otherwise the next channel message is consumed.
pub enum ProcEvent {
    /// The slot still held the channel and this message arrived on it.
    Msg(ChannelMsg),
    /// The slot was found empty: a concurrent `interrupt` took the channel.
    Interrupted,
}

/// Mathematical state of the streaming message loop.
#[verifier::ext_equal]
pub struct RunModel {
    /// The stdout chunks delivered to the sink so far, in delivery order;
    /// chunk `k` is delivered with sequence index `k`.
    pub chunks: Seq<Seq<u8>>,
    pub stderr: Seq<u8>,
    pub status: Option<u32>,
    pub eof: bool,
    /// False once the loop has observed the empty slot.
    pub active: bool,
}

impl RunModel {
    pub open spec fn init() -> RunModel {
        RunModel {
            chunks: Seq::empty(),
            stderr: Seq::empty(),
            status: None,
            eof: false,
            active: true,
        }
    }

    /// Both completion signals were observed before any interruption.
    pub open spec fn completed(self) -> bool {
        self.status is Some && self.eof
    }

    /// The loop consumes no further events.
    pub open spec fn stopped(self) -> bool {
        !self.active || self.completed()
    }

    /// The exit code under the rule that an absent status counts as success.
    pub open spec fn code(self) -> u32 {
        match self.status {
            Some(s) => s,
            None => 0,
        }
    }

    /// The state after one more observation.
    pub open spec fn step(self, e: ProcEvent) -> RunModel {
        match e {
            ProcEvent::Interrupted => RunModel { active: false, ..self },
            ProcEvent::Msg(m) => RunModel {
                chunks: if m is Data {
                    self.chunks.push(m.stdout_part())
                } else {
                    self.chunks
                },
                stderr: self.stderr + m.stderr_part(),
                status: m.status_after(self.status),
                eof: m.eof_after(self.eof),
                active: self.active,
            },
        }
    }
}

/// Folds the loop's observations into its state, freezing at the first
/// point where the loop stops (completion or observed interruption).
pub open spec fn run_fold(events: Seq<ProcEvent>) -> RunModel
    decreases events.len(),
{
    if events.len() == 0 {
        RunModel::init()
    } else {
        let prev = run_fold(events.drop_last());
        if prev.stopped() {
            prev
        } else {
            prev.step(events.last())
        }
    }
}

/// The observable result of a streamed execution (the delivered chunks are
/// pinned separately, by `Proc::run`'s contract).
pub enum RunOutcome {
    /// Exit status zero or absent — in particular, any run cut short by an
    /// interruption before an exit status arrived.
    Success,
    /// Completed with a non-zero exit status and the captured error stream.
    Failed { status: u32, stderr: Seq<u8> },
    /// The observations ended before completion or interruption.
    Malformed,
}

/// What `run` must produce for a given sequence of observations.
pub open spec fn run_spec(events: Seq<ProcEvent>) -> RunOutcome {
    let m = run_fold(events);
    if !m.stopped() {
        RunOutcome::Malformed
    } else if m.code() == 0 {
        RunOutcome::Success
    } else {
        RunOutcome::Failed { status: m.code(), stderr: m.stderr }
    }
}

/// Once the fold has stopped, the rest of the observations are ignored.
pub proof fn lemma_run_fold_frozen(events: Seq<ProcEvent>, i: int)
    requires
        0 <= i <= events.len(),
        run_fold(events.take(i)).stopped(),
    ensures
        run_fold(events) == run_fold(events.take(i)),
    decreases events.len() - i,
{
    if i < events.len() {
        assert(events.take(i + 1).drop_last() =~= events.take(i));
        lemma_run_fold_frozen(events, i + 1);
    } else {
        assert(events.take(i) =~= events);
    }
}

/// What `interrupt` hands back to be closed: whatever the slot still held.
pub open spec fn interrupt_takes<C>(slot: Option<C>) -> Option<C> {
    slot
}

/// A started command: the command string and the mutually exclusive slot
/// holding its channel while the command is outstanding. The slot is
/// emptied exactly once — by `run`'s natural completion, or by `interrupt`
/// taking the channel to close it; whichever observes the populated slot
/// first wins, and the other sees it empty.
pub struct Proc<C> {
    pub command: String,
    pub channel: Option<C>,
}

impl<C> Proc<C> {
    /// Wraps an already-open channel and the command it will carry.
    pub fn new(command: String, channel: C) -> (p: Proc<C>)
        ensures
            p.command == command,
            p.channel == Some(channel),
    {
        Proc { command, channel: Some(channel) }
    }

    /// Takes the channel out of the slot, leaving it empty; the caller must
    /// close whatever is returned. Taking nothing is a no-op, so a second
    /// interruption, or one after `run` has already completed, closes
    /// nothing.
    pub fn interrupt(&mut self) -> (taken: Option<C>)
        ensures
            taken == interrupt_takes(old(self).channel),
            final(self).channel is None,
            final(self).command == old(self).command,
    {
        let mut taken: Option<C> = None;
        core::mem::swap(&mut self.channel, &mut taken);
        taken
    }

    /// Streams the command's output: consumes observations until completion
    /// (both exit status and end-of-stream), or until the slot is seen
    /// empty because `interrupt` won the race. Returns the stdout chunks in
    /// delivery order, chunk `k` carrying sequence index `k` and only
    /// stdout data ever being delivered, together with the outcome: exit
    /// status zero or absent (including every interrupted run that never
    /// saw a status) succeeds; a non-zero status is the structured error; a
    /// transcript that ends before the loop stops is a protocol violation.
    /// Natural completion empties the slot; the error path leaves it alone.
    pub fn run(&mut self, events: &Vec<ProcEvent>) -> (r: (Vec<(u64, Vec<u8>)>, Result<(), Error>))
        ensures
            final(self).command == old(self).command,
            old(self).channel is None ==> (final(self).channel is None && r.0@.len() == 0
                && r.1 is Ok),
            old(self).channel is Some ==> ({
                let m = run_fold(events@);
                &&& r.0@.len() == m.chunks.len()
                &&& (forall|k: int|
                    0 <= k < m.chunks.len() ==> r.0@[k].0 == k && #[trigger] r.0@[k].1@
                        == m.chunks[k])
                &&& match run_spec(events@) {
                    RunOutcome::Success => r.1 is Ok && final(self).channel is None,
                    RunOutcome::Failed { status, stderr } => (r.1 matches Err(e) && (
                    e.kind matches ErrorKind::ExitStatus {
                        status: s,
                        output,
                    } && s == status && output@ == stderr)) && final(self).channel is None,
                    RunOutcome::Malformed => (r.1 matches Err(e) && e.kind is Message && e.message@
                        == "malformed end of stream"@) && final(self).channel == old(self).channel,
                }
            }),
    {
        let mut chunks: Vec<(u64, Vec<u8>)> = Vec::new();
        if self.channel.is_none() {
            return (chunks, Ok(()));
        }
        let mut stderr: Vec<u8> = Vec::new();
        let mut status: Option<u32> = None;
        let mut eof: bool = false;
        let mut interrupted: bool = false;
        let mut i: usize = 0;
        while i < events.len()
            invariant_except_break
                !(RunModel {
                    chunks: chunks@.map_values(|c: (u64, Vec<u8>)| c.1@),
                    stderr: stderr@,
                    status,
                    eof,
                    active: !interrupted,
                }).stopped(),
            invariant
                i <= events@.len(),
                run_fold(events@.take(i as int)) == (RunModel {
                    chunks: chunks@.map_values(|c: (u64, Vec<u8>)| c.1@),
                    stderr: stderr@,
                    status,
                    eof,
                    active: !interrupted,
                }),
                forall|k: int| 0 <= k < chunks@.len() ==> (#[trigger] chunks@[k].0) == k,
                self == old(self),
                old(self).channel is Some,
            ensures
                (RunModel {
                    chunks: chunks@.map_values(|c: (u64, Vec<u8>)| c.1@),
                    stderr: stderr@,
                    status,
                    eof,
                    active: !interrupted,
                }).stopped() || i == events@.len(),
            decreases events@.len() - i,
        {
            let ghost pre = RunModel {
                chunks: chunks@.map_values(|c: (u64, Vec<u8>)| c.1@),
                stderr: stderr@,
                status,
                eof,
                active: !interrupted,
            };
            let mut stop = false;
            match &events[i] {
                ProcEvent::Interrupted => {
                    interrupted = true;
                    stop = true;
                },
                ProcEvent::Msg(m) => {
                    match m {
                        ChannelMsg::Data { data } => {
                            let mut copy: Vec<u8> = Vec::new();
                            extend_bytes(&mut copy, data);
                            let index = chunks.len() as u64;
                            chunks.push((index, copy));
                        },
                        ChannelMsg::ExtendedData { data, ext } => {
                            if *ext == 1 {
                                extend_bytes(&mut stderr, data);
                            }
                        },
                        ChannelMsg::ExitStatus { status: s } => {
                            status = Some(*s);
                            if eof {
                                stop = true;
                            }
                        },
                        ChannelMsg::Eof => {
                            eof = true;
                            if status.is_some() {
                                stop = true;
                            }
                        },
                        ChannelMsg::Close => {},
                        ChannelMsg::Other => {},
                    }
                },
            }
            proof {
                assert(events@.take(i + 1).drop_last() =~= events@.take(i as int));
                assert(run_fold(events@.take(i + 1)) =~= pre.step(events@[i as int]));
                assert(chunks@.map_values(|c: (u64, Vec<u8>)| c.1@) =~= pre.step(
                    events@[i as int],
                ).chunks);
            }
            i += 1;
            if stop {
                break;
            }
        }
        let ghost m = RunModel {
            chunks: chunks@.map_values(|c: (u64, Vec<u8>)| c.1@),
            stderr: stderr@,
            status,
            eof,
            active: !interrupted,
        };
        proof {
            if m.stopped() {
                lemma_run_fold_frozen(events@, i as int);
            } else {
                assert(events@.take(i as int) =~= events@);
            }
        }
        let done = match status {
            Some(_) => eof,
            None => false,
        };
        if !done && !interrupted {
            return (chunks, Err(Error::new("malformed end of stream")));
        }
        // Natural completion empties the slot (a later interrupt observes it
        // empty and closes nothing); an observed interruption means the
        // interrupter already holds the channel.
        let mut taken: Option<C> = None;
        core::mem::swap(&mut self.channel, &mut taken);
        let code = match status {
            Some(s) => s,
            None => 0,
        };
        if code != 0 {
            (
                chunks,
                Err(
                    Error {
                        message: "command exited with a non-zero status".to_owned(),
                        kind: ErrorKind::ExitStatus { status: code, output: stderr },
                    },
                ),
            )
        } else {
            (chunks, Ok(()))
        }
    }
}

/// Interrupting when the channel is already gone — after `run` completed
/// naturally, or after an earlier interruption — takes nothing, so nothing
/// is closed twice.
pub proof fn lemma_interrupt_after_done_is_noop<C>(slot: Option<C>)
    requires
        slot is None,
    ensures
        interrupt_takes(slot) is None,
{
}

/// Only stdout data reaches the sink: any other observation leaves the
/// delivered chunks unchanged.
pub proof fn lemma_only_stdout_reaches_sink(events: Seq<ProcEvent>, e: ProcEvent)
    requires
        !(e matches ProcEvent::Msg(m) && m is Data),
    ensures
        run_fold(events.push(e)).chunks == run_fold(events).chunks,
{
    assert(events.push(e).drop_last() =~= events);
}

/// Stdout chunks are delivered in arrival order: while the loop is live, a
/// data message appends exactly its bytes as the next chunk (and `run`'s
/// contract pins chunk `k` to sequence index `k`, so indices are 0, 1, 2, …
/// strictly increasing).
pub proof fn lemma_stdout_chunks_in_order(events: Seq<ProcEvent>, data: Vec<u8>)
    requires
        !run_fold(events).stopped(),
    ensures
        run_fold(events.push(ProcEvent::Msg(ChannelMsg::Data { data }))).chunks == run_fold(
            events,
        ).chunks.push(data@),
{
    assert(events.push(ProcEvent::Msg(ChannelMsg::Data { data })).drop_last() =~= events);
}

} // verus!
