//! Driving the external CLI: the command batch and its results, and the
//! decisions of the pseudo-terminal read loop (auto-confirming the
//! workspace-trust prompt a bounded number of times, with a minimum gap). The
//! terminal itself is opened and read by the caller, which feeds each event
//! in here.

use vstd::prelude::*;
use crate::text::{concat, concat3};
use crate::outcome::{is_workspace_trust_prompt, lower_of, trust_prompt};
use crate::report::strings_view;

verus! {

/// Times the trust prompt is answered at most.
pub const MAX_TRUST_ATTEMPTS: u8 = 3;

/// Milliseconds that must pass between two answers.
pub const TRUST_RETRY_GAP_MS: u64 = 400;

/// Milliseconds between two polls of the output channel.
pub const POLL_INTERVAL_MS: u64 = 200;

/// Milliseconds spent collecting the last output after the loop ends.
pub const DRAIN_MS: u64 = 300;

/// One sub-command: its arguments and a hard timeout in seconds.
pub struct ClaudeCommand {
    pub args: Vec<String>,
    pub timeout: u64,
}

pub struct ClaudeCommandOutput {
    pub command: String,
    pub output: String,
}

pub struct ClaudeCliResult {
    pub outputs: Vec<ClaudeCommandOutput>,
    pub raw_log: String,
}

/// The CLI, by the command that starts it.
pub struct ClaudeCli {
    command: String,
}

/// Words joined by single spaces.
pub open spec fn joined(ws: Seq<Seq<char>>) -> Seq<char>
    decreases ws.len(),
{
    if ws.len() == 0 {
        Seq::empty()
    } else if ws.len() == 1 {
        ws[0]
    } else {
        joined(ws.drop_last()) + " "@ + ws.last()
    }
}

/// The outputs one after another.
pub open spec fn concatenated(outs: Seq<Seq<char>>) -> Seq<char>
    decreases outs.len(),
{
    if outs.len() == 0 {
        Seq::empty()
    } else {
        concatenated(outs.drop_last()) + outs.last()
    }
}

/// `args` joined by spaces.
pub fn join_args(args: &Vec<String>) -> (r: String)
    ensures
        r@ == joined(strings_view(args@)),
{
    let ghost v = strings_view(args@);
    if args.len() == 0 {
        return String::new();
    }
    let mut out = args[0].clone();
    let mut i: usize = 1;
    assert(v.subrange(0, 1).drop_last() == Seq::<Seq<char>>::empty());
    assert(joined(v.subrange(0, 1)) == v[0]);
    while i < args.len()
        invariant
            v == strings_view(args@),
            1 <= i <= args@.len(),
            out@ == joined(v.subrange(0, i as int)),
        decreases args.len() - i,
    {
        out = concat3(out.as_str(), " ", args[i].as_str());
        assert(v.subrange(0, i + 1).drop_last() == v.subrange(0, i as int));
        i = i + 1;
    }
    assert(v.subrange(0, i as int) == v);
    out
}

impl ClaudeCli {
    pub fn new(command: String) -> (r: ClaudeCli)
        ensures
            r.spec_command() == command@,
    {
        ClaudeCli { command }
    }

    pub closed spec fn spec_command(&self) -> Seq<char> {
        self.command@
    }

    pub fn command(&self) -> (r: &str)
        ensures
            r@ == self.spec_command(),
    {
        self.command.as_str()
    }

    /// The result of a batch whose commands printed `outputs`, in order:
    /// each output under its command line, and all of them in one log.
    pub fn run(&self, commands: &Vec<ClaudeCommand>, outputs: Vec<String>) -> (r: ClaudeCliResult)
        requires
            commands@.len() == outputs@.len(),
        ensures
            r.outputs@.len() == commands@.len(),
            forall|i: int|
                0 <= i < commands@.len() ==> (#[trigger] r.outputs@[i]).command@ == joined(
                    strings_view(commands@[i].args@),
                ) && r.outputs@[i].output@ == outputs@[i]@,
            r.raw_log@ == concatenated(strings_view(outputs@)),
    {
        let ghost ov = strings_view(outputs@);
        let mut raw_log = String::new();
        let mut results: Vec<ClaudeCommandOutput> = Vec::new();
        let mut i: usize = 0;
        while i < commands.len()
            invariant
                commands@.len() == outputs@.len(),
                ov == strings_view(outputs@),
                0 <= i <= commands@.len(),
                results@.len() == i,
                forall|k: int|
                    0 <= k < i ==> (#[trigger] results@[k]).command@ == joined(
                        strings_view(commands@[k].args@),
                    ) && results@[k].output@ == outputs@[k]@,
                raw_log@ == concatenated(ov.subrange(0, i as int)),
            decreases commands.len() - i,
        {
            let output = outputs[i].clone();
            raw_log = concat(raw_log.as_str(), output.as_str());
            assert(ov.subrange(0, i + 1).drop_last() == ov.subrange(0, i as int));
            results.push(ClaudeCommandOutput { command: join_args(&commands[i].args), output });
            i = i + 1;
        }
        assert(ov.subrange(0, i as int) == ov);
        ClaudeCliResult { outputs: results, raw_log }
    }
}

/// The line terminator sent to confirm a prompt.
pub fn line_ending(windows: bool) -> (r: Vec<u8>)
    ensures
        r@ == if windows {
            seq![13u8, 10u8]
        } else {
            seq![10u8]
        },
{
    let mut v: Vec<u8> = Vec::new();
    if windows {
        v.push(13u8);
    }
    v.push(10u8);
    v
}

/// The state of one command's read loop.
pub struct PromptWatcher {
    buffer: String,
    trust_attempts: u8,
    last_trust_sent: Option<u64>,
    timeout_ms: u64,
}

impl PromptWatcher {
    pub closed spec fn output(&self) -> Seq<char> {
        self.buffer@
    }

    pub closed spec fn attempts(&self) -> u8 {
        self.trust_attempts
    }

    pub closed spec fn last_sent(&self) -> Option<u64> {
        self.last_trust_sent
    }

    pub closed spec fn limit(&self) -> u64 {
        self.timeout_ms
    }

    pub fn new(timeout_ms: u64) -> (r: PromptWatcher)
        ensures
            r.output().len() == 0,
            r.attempts() == 0,
            r.last_sent() is None,
            r.limit() == timeout_ms,
    {
        PromptWatcher { buffer: String::new(), trust_attempts: 0, last_trust_sent: None, timeout_ms }
    }

    /// Whether an answer may go out at `now_ms`: fewer than the maximum so far,
    /// and none within the last `TRUST_RETRY_GAP_MS`.
    pub open spec fn may_answer(attempts: u8, last: Option<u64>, now_ms: u64) -> bool {
        attempts < MAX_TRUST_ATTEMPTS && match last {
            None => true,
            Some(t) => now_ms >= t && now_ms - t >= TRUST_RETRY_GAP_MS,
        }
    }

    /// New output arrived at `now_ms`. Returns whether to answer the trust
    /// prompt now (send a line ending).
    pub fn on_output(&mut self, chunk: &str, now_ms: u64) -> (send: bool)
        ensures
            final(self).output() == old(self).output() + chunk@,
            send == (trust_prompt(lower_of(final(self).output())) && Self::may_answer(
                old(self).attempts(),
                old(self).last_sent(),
                now_ms,
            )),
            final(self).attempts() == if send {
                (old(self).attempts() + 1) as u8
            } else {
                old(self).attempts()
            },
            final(self).last_sent() == if send {
                Some(now_ms)
            } else {
                old(self).last_sent()
            },
            final(self).limit() == old(self).limit(),
    {
        self.buffer = concat(self.buffer.as_str(), chunk);
        if self.trust_attempts < MAX_TRUST_ATTEMPTS && is_workspace_trust_prompt(
            self.buffer.as_str(),
        ) {
            let gap_ok = match self.last_trust_sent {
                None => true,
                Some(t) => now_ms >= t && now_ms - t >= TRUST_RETRY_GAP_MS,
            };
            if gap_ok {
                self.trust_attempts = self.trust_attempts + 1;
                self.last_trust_sent = Some(now_ms);
                return true;
            }
        }
        false
    }

    /// Whether the read loop ends: the timeout has passed, the child has
    /// exited, or the output channel is closed. What follows is a drain.
    pub fn reading_done(&self, elapsed_ms: u64, child_exited: bool, disconnected: bool) -> (r:
        bool)
        ensures
            r == (elapsed_ms >= self.limit() || child_exited || disconnected),
    {
        elapsed_ms >= self.timeout_ms || child_exited || disconnected
    }

    /// Output collected while draining.
    pub fn on_drain(&mut self, chunk: &str)
        ensures
            final(self).output() == old(self).output() + chunk@,
            final(self).attempts() == old(self).attempts(),
            final(self).last_sent() == old(self).last_sent(),
            final(self).limit() == old(self).limit(),
    {
        self.buffer = concat(self.buffer.as_str(), chunk);
    }

    /// The captured output.
    pub fn into_output(self) -> (r: String)
        ensures
            r@ == self.output(),
    {
        self.buffer
    }
}

} // verus!
