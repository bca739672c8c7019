//! The command runner: draining one exec channel into a structured result.
//!
//! A command runs on a channel that delivers a stream of messages. The
//! runner folds that stream: bytes of the normal stream go to stdout,
//! bytes of extended stream 1 go to stderr, an exit-status message is
//! recorded, and the first end-of-file stops the fold. A channel that
//! closes without an exit status yields exit code 0 — a documented
//! leniency, kept because some remote shells omit the status.

use vstd::prelude::*;

use crate::output::CommandOutput;

verus! {

/// One message received on an exec channel.
pub enum ChannelEvent {
    /// Bytes of the normal (stdout) stream.
    Data { data: Vec<u8> },
    /// Bytes of an extended stream; stream 1 is stderr by convention.
    ExtendedData { data: Vec<u8>, ext: u32 },
    /// The remote command's exit status.
    ExitStatus { exit_status: u32 },
    /// End of file: nothing more will arrive.
    Eof,
    /// Any other channel message; the runner ignores it.
    Other,
}

/// Folds the events from position `i` on, with the streams and exit
/// status accumulated so far; stops at the first end-of-file.
pub open spec fn spec_drain(
    events: Seq<ChannelEvent>,
    i: int,
    out: Seq<u8>,
    err: Seq<u8>,
    exit: Option<u32>,
) -> (Seq<u8>, Seq<u8>, Option<u32>)
    decreases events.len() - i,
{
    if i < 0 || i >= events.len() {
        (out, err, exit)
    } else {
        match events[i] {
            ChannelEvent::Data { data } => spec_drain(events, i + 1, out + data@, err, exit),
            ChannelEvent::ExtendedData { data, ext } => if ext == 1 {
                spec_drain(events, i + 1, out, err + data@, exit)
            } else {
                spec_drain(events, i + 1, out, err, exit)
            },
            ChannelEvent::ExitStatus { exit_status } => spec_drain(
                events,
                i + 1,
                out,
                err,
                Some(exit_status),
            ),
            ChannelEvent::Eof => (out, err, exit),
            ChannelEvent::Other => spec_drain(events, i + 1, out, err, exit),
        }
    }
}

/// The streams and exit status a channel delivering `events` produces.
pub open spec fn spec_run(events: Seq<ChannelEvent>) -> (Seq<u8>, Seq<u8>, Option<u32>) {
    spec_drain(events, 0, Seq::empty(), Seq::empty(), None)
}

/// The exit code reported to the caller: the received status, or 0 when
/// the channel closed without one.
pub open spec fn spec_exit_code(exit: Option<u32>) -> u32 {
    match exit {
        Some(c) => c,
        None => 0,
    }
}

/// What `String::from_utf8_lossy` returns; the text depends on the bytes
/// alone.
pub uninterp spec fn lossy_of(bytes: Seq<u8>) -> Seq<char>;

/// Relies on `String::from_utf8_lossy`: the text decoded from the bytes,
/// with invalid sequences replaced by the replacement character; empty
/// input decodes to empty text.
#[verifier::external_body]
pub fn utf8_lossy(bytes: &Vec<u8>) -> (r: String)
    ensures
        r@ == lossy_of(bytes@),
        bytes@.len() == 0 ==> r@.len() == 0,
{
    String::from_utf8_lossy(bytes.as_slice()).to_string()
}

fn extend_bytes(dst: &mut Vec<u8>, src: &Vec<u8>)
    ensures
        final(dst)@ == old(dst)@ + src@,
{
    let mut i: usize = 0;
    while i < src.len()
        invariant
            0 <= i <= src@.len(),
            dst@ == old(dst)@ + src@.take(i as int),
        decreases src@.len() - i,
    {
        dst.push(src[i]);
        i = i + 1;
        proof {
            assert(dst@ =~= old(dst)@ + src@.take(i as int));
        }
    }
    proof {
        assert(dst@ =~= old(dst)@ + src@);
    }
}

/// The state of one channel being drained.
pub struct ChannelDrain {
    pub stdout: Vec<u8>,
    pub stderr: Vec<u8>,
    pub exit_code: Option<u32>,
    pub done: bool,
}

impl ChannelDrain {
    /// An empty drain: nothing received yet.
    pub fn new() -> (r: ChannelDrain)
        ensures
            r.stdout@ == Seq::<u8>::empty(),
            r.stderr@ == Seq::<u8>::empty(),
            r.exit_code is None,
            !r.done,
    {
        ChannelDrain { stdout: Vec::new(), stderr: Vec::new(), exit_code: None, done: false }
    }

    /// Feeds one channel message into the drain.
    pub fn step(&mut self, ev: &ChannelEvent)
        requires
            !old(self).done,
        ensures
            match *ev {
                ChannelEvent::Data { data } => {
                    &&& final(self).stdout@ == old(self).stdout@ + data@
                    &&& final(self).stderr == old(self).stderr
                    &&& final(self).exit_code == old(self).exit_code
                    &&& !final(self).done
                },
                ChannelEvent::ExtendedData { data, ext } => {
                    &&& final(self).stdout == old(self).stdout
                    &&& final(self).exit_code == old(self).exit_code
                    &&& !final(self).done
                    &&& (if ext == 1 {
                        final(self).stderr@ == old(self).stderr@ + data@
                    } else {
                        final(self).stderr == old(self).stderr
                    })
                },
                ChannelEvent::ExitStatus { exit_status } => {
                    &&& final(self).stdout == old(self).stdout
                    &&& final(self).stderr == old(self).stderr
                    &&& final(self).exit_code == Some(exit_status)
                    &&& !final(self).done
                },
                ChannelEvent::Eof => {
                    &&& final(self).stdout == old(self).stdout
                    &&& final(self).stderr == old(self).stderr
                    &&& final(self).exit_code == old(self).exit_code
                    &&& final(self).done
                },
                ChannelEvent::Other => *final(self) == *old(self),
            },
    {
        match ev {
            ChannelEvent::Data { data } => {
                extend_bytes(&mut self.stdout, data);
            },
            ChannelEvent::ExtendedData { data, ext } => {
                if *ext == 1 {
                    extend_bytes(&mut self.stderr, data);
                }
            },
            ChannelEvent::ExitStatus { exit_status } => {
                self.exit_code = Some(*exit_status);
            },
            ChannelEvent::Eof => {
                self.done = true;
            },
            ChannelEvent::Other => {},
        }
    }

    /// Assembles the final output: both streams decoded, and the exit
    /// status defaulted to 0 when none arrived.
    pub fn finish(self) -> (out: CommandOutput)
        ensures
            out.stdout@ == lossy_of(self.stdout@),
            out.stderr@ == lossy_of(self.stderr@),
            out.exit_code == spec_exit_code(self.exit_code),
    {
        let exit_code = match self.exit_code {
            Some(c) => c,
            None => 0,
        };
        CommandOutput {
            stdout: utf8_lossy(&self.stdout),
            stderr: utf8_lossy(&self.stderr),
            exit_code,
        }
    }
}

/// Drains a whole event list into a command output, stopping at the first
/// end-of-file, exactly as [`spec_run`] describes.
pub fn run_channel(events: &Vec<ChannelEvent>) -> (out: CommandOutput)
    ensures
        out.stdout@ == lossy_of(spec_run(events@).0),
        out.stderr@ == lossy_of(spec_run(events@).1),
        out.exit_code == spec_exit_code(spec_run(events@).2),
{
    let mut drain = ChannelDrain::new();
    let mut i: usize = 0;
    proof {
        assert(drain.stdout@ =~= Seq::<u8>::empty());
        assert(drain.stderr@ =~= Seq::<u8>::empty());
    }
    while i < events.len()
        invariant
            0 <= i <= events@.len(),
            !drain.done,
            spec_run(events@) == spec_drain(
                events@,
                i as int,
                drain.stdout@,
                drain.stderr@,
                drain.exit_code,
            ),
        decreases events@.len() - i,
    {
        drain.step(&events[i]);
        if drain.done {
            return drain.finish();
        }
        i = i + 1;
    }
    drain.finish()
}

/// The runner is stateless: what a run returns is a function of the
/// channel events alone. Two runs of the same command whose channels
/// deliver the same events produce the same streams and the same exit
/// status — nothing is cached from one run to the next.
pub proof fn lemma_run_stateless(e1: Seq<ChannelEvent>, e2: Seq<ChannelEvent>)
    requires
        e1 == e2,
    ensures
        spec_run(e1) == spec_run(e2),
        spec_exit_code(spec_run(e1).2) == spec_exit_code(spec_run(e2).2),
{
}

} // verus!
