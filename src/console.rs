use vstd::prelude::*;

use crate::checksum::{check_console_crc, crc32_iso_hdlc, parsed_crc};
use crate::error::ConsoleError;
use crate::frame::{fill_frames, fill_outcome, DutSpiFrame};
use crate::response::{
    copy_range, find_response, find_subsequence, first_occurrence, lemma_first_occurrence_bounds,
    response_in, Envelope, ResponseKind,
};

verus! {

/// What a console interaction is for: waiting for the sync marker only,
/// sending after it, or receiving a response after it.
#[derive(Clone, Copy, Debug, PartialEq, Eq, Structural)]
pub enum ConsoleMode {
    Wait,
    Send,
    Receive,
}

/// Where a console interaction stands.
#[derive(Clone, Copy, Debug, PartialEq, Eq, Structural)]
pub enum ConsolePhase {
    /// Reading until the sync marker appears.
    Syncing,
    /// Reading until a response marker appears.
    Interacting,
    /// The interaction has ended; its outcome was returned.
    Finished,
}

/// The decisions of one console interaction. The caller reads bytes from the
/// console link and hands each batch, with the current time, to `step`; the
/// session says whether to keep reading, or how the interaction ended. The
/// link itself stays with the caller and is untouched by any outcome.
pub struct ConsoleSession {
    pub mode: ConsoleMode,
    /// The sync marker; an empty marker is found at once.
    pub sync: Vec<u8>,
    pub timeout_ms: u64,
    pub phase: ConsolePhase,
    /// Bytes read in the current phase and not yet consumed.
    pub buffer: Vec<u8>,
    /// When the current phase began, in the caller's milliseconds.
    pub phase_start_ms: u64,
}

/// What the caller does next.
#[derive(Debug, PartialEq, Eq)]
pub enum ConsoleStep {
    /// Read more bytes and call `step` again.
    Continue,
    /// The sync marker was seen (`Wait` and `Send` modes); a `Send` caller
    /// now writes its bytes.
    Synced,
    /// A response marker was seen (`Receive` mode).
    Matched(Envelope),
    /// The interaction failed.
    Failed(ConsoleError),
}

/// At least `timeout` milliseconds have passed between `start` and `now`.
pub open spec fn timed_out(start: u64, now: u64, timeout: u64) -> bool {
    now >= start && now - start >= timeout
}

/// `s` and `r` are what looking for a response in `buf` gives, the phase
/// having started at `start`.
pub open spec fn interact_outcome(
    s: ConsoleSession,
    r: ConsoleStep,
    buf: Seq<u8>,
    start: u64,
    now: u64,
) -> bool {
    match response_in(buf) {
        Some(x) => r matches ConsoleStep::Matched(e) && e.parts() == x && s.phase
            == ConsolePhase::Finished,
        None => if timed_out(start, now, s.timeout_ms) {
            r == ConsoleStep::Failed(ConsoleError::Timeout) && s.phase == ConsolePhase::Finished
        } else {
            r == ConsoleStep::Continue && s.phase == ConsolePhase::Interacting && s.buffer@ == buf
                && s.phase_start_ms == start
        },
    }
}

/// `s` and `r` are what one step gives from `old` on the bytes `data` at
/// time `now`.
pub open spec fn step_outcome(
    old: ConsoleSession,
    s: ConsoleSession,
    r: ConsoleStep,
    data: Seq<u8>,
    now: u64,
) -> bool {
    let buf = old.buffer@ + data;
    &&& s.mode == old.mode
    &&& s.sync@ == old.sync@
    &&& s.timeout_ms == old.timeout_ms
    &&& old.phase == ConsolePhase::Syncing ==> match first_occurrence(buf, old.sync@, 0) {
        Some(i) => {
            let rest = buf.subrange(i + old.sync@.len(), buf.len() as int);
            if old.mode == ConsoleMode::Receive {
                interact_outcome(s, r, rest, now, now)
            } else {
                r == ConsoleStep::Synced && s.phase == ConsolePhase::Finished && s.buffer@ == rest
            }
        },
        None => if timed_out(old.phase_start_ms, now, old.timeout_ms) {
            r == ConsoleStep::Failed(ConsoleError::SyncTimeout) && s.phase
                == ConsolePhase::Finished
        } else {
            r == ConsoleStep::Continue && s.phase == ConsolePhase::Syncing && s.buffer@ == buf
                && s.phase_start_ms == old.phase_start_ms
        },
    }
    &&& old.phase == ConsolePhase::Interacting ==> interact_outcome(
        s,
        r,
        buf,
        old.phase_start_ms,
        now,
    )
}

pub(crate) fn append_bytes(buf: &mut Vec<u8>, data: &[u8])
    ensures
        final(buf)@ == old(buf)@ + data@,
{
    let mut i: usize = 0;
    while i < data.len()
        invariant
            i <= data@.len(),
            buf@ == old(buf)@ + data@.subrange(0, i as int),
        decreases data@.len() - i,
    {
        buf.push(data[i]);
        i = i + 1;
        assert(buf@ =~= old(buf)@ + data@.subrange(0, i as int));
    }
    assert(data@.subrange(0, i as int) =~= data@);
}

impl ConsoleSession {
    /// A session that starts by looking for `sync` at time `now_ms`.
    pub fn new(mode: ConsoleMode, sync: Vec<u8>, timeout_ms: u64, now_ms: u64) -> (r:
        ConsoleSession)
        ensures
            r.mode == mode,
            r.sync@ == sync@,
            r.timeout_ms == timeout_ms,
            r.phase == ConsolePhase::Syncing,
            r.buffer@ == Seq::<u8>::empty(),
            r.phase_start_ms == now_ms,
    {
        ConsoleSession {
            mode,
            sync,
            timeout_ms,
            phase: ConsolePhase::Syncing,
            buffer: Vec::new(),
            phase_start_ms: now_ms,
        }
    }

    pub fn is_finished(&self) -> (r: bool)
        ensures
            r == (self.phase == ConsolePhase::Finished),
    {
        self.phase == ConsolePhase::Finished
    }

    fn interact(&mut self, start: u64, now_ms: u64) -> (r: ConsoleStep)
        ensures
            interact_outcome(*final(self), r, old(self).buffer@, start, now_ms),
            final(self).mode == old(self).mode,
            final(self).sync@ == old(self).sync@,
            final(self).timeout_ms == old(self).timeout_ms,
    {
        match find_response(self.buffer.as_slice()) {
            Some(e) => {
                self.phase = ConsolePhase::Finished;
                ConsoleStep::Matched(e)
            },
            None => {
                if now_ms >= start && now_ms - start >= self.timeout_ms {
                    self.phase = ConsolePhase::Finished;
                    ConsoleStep::Failed(ConsoleError::Timeout)
                } else {
                    self.phase = ConsolePhase::Interacting;
                    self.phase_start_ms = start;
                    ConsoleStep::Continue
                }
            },
        }
    }

    /// Takes the bytes `data` read since the last step, at time `now_ms`,
    /// and decides what happens next, as `step_outcome` states: the sync
    /// marker is looked for first, and bytes after it count towards the
    /// response; each phase times out `timeout_ms` after it began.
    pub fn step(&mut self, data: &[u8], now_ms: u64) -> (r: ConsoleStep)
        requires
            old(self).phase != ConsolePhase::Finished,
        ensures
            step_outcome(*old(self), *final(self), r, data@, now_ms),
    {
        append_bytes(&mut self.buffer, data);
        if self.phase == ConsolePhase::Syncing {
            match find_subsequence(self.buffer.as_slice(), self.sync.as_slice()) {
                Some(i) => {
                    proof {
                        lemma_first_occurrence_bounds(self.buffer@, self.sync@, 0);
                    }
                    let blen = self.buffer.len();
                    assert(i + self.sync@.len() <= blen);
                    let rest = copy_range(self.buffer.as_slice(), i + self.sync.len(), blen);
                    self.buffer = rest;
                    if self.mode == ConsoleMode::Receive {
                        self.interact(now_ms, now_ms)
                    } else {
                        self.phase = ConsolePhase::Finished;
                        ConsoleStep::Synced
                    }
                },
                None => {
                    if now_ms >= self.phase_start_ms && now_ms - self.phase_start_ms
                        >= self.timeout_ms {
                        self.phase = ConsolePhase::Finished;
                        ConsoleStep::Failed(ConsoleError::SyncTimeout)
                    } else {
                        ConsoleStep::Continue
                    }
                },
            }
        } else {
            let start = self.phase_start_ms;
            self.interact(start, now_ms)
        }
    }
}

/// The result of a receive interaction whose response is `env`, once its CRC
/// verdict `crc_ok` is known: a bad CRC fails with `CrcMismatch`; a failure
/// response fails with `RemoteRejected` carrying its payload; a success
/// response is copied into `frames` as `fill_outcome` states. Only that last
/// case writes to `frames`.
pub fn accept_response(env: Envelope, crc_ok: bool, frames: &mut Vec<DutSpiFrame>) -> (r: Result<
    usize,
    ConsoleError,
>)
    ensures
        !crc_ok ==> r == Err::<usize, ConsoleError>(ConsoleError::CrcMismatch) && final(frames)@
            == old(frames)@,
        crc_ok && env.kind == ResponseKind::Failure ==> (r matches Err(
            ConsoleError::RemoteRejected(p),
        ) && p@ == env.payload@) && final(frames)@ == old(frames)@,
        crc_ok && env.kind == ResponseKind::Success ==> fill_outcome(
            old(frames)@,
            final(frames)@,
            env.payload@,
            r,
        ),
{
    if !crc_ok {
        return Err(ConsoleError::CrcMismatch);
    }
    match env.kind {
        ResponseKind::Failure => Err(ConsoleError::RemoteRejected(env.payload)),
        ResponseKind::Success => fill_frames(frames, env.payload.as_slice()),
    }
}

/// The CRC verdict on a response: it holds when checking is skipped, and
/// otherwise when the CRC field states the CRC-32 (ISO-HDLC) of the payload.
pub open spec fn crc_accepted(env: Envelope, skip_crc: bool) -> bool {
    skip_crc || parsed_crc(env.crc@) == Some(crc32_iso_hdlc(env.payload@))
}

/// Validates and delivers the response of a receive interaction: the CRC is
/// checked unless `skip_crc` is set, then `accept_response` decides. With
/// `skip_crc` set, a success response is delivered unmodified whatever its
/// CRC field says; no error leaves a partial write in `frames`.
pub fn finish_receive(env: Envelope, skip_crc: bool, frames: &mut Vec<DutSpiFrame>) -> (r: Result<
    usize,
    ConsoleError,
>)
    ensures
        !crc_accepted(env, skip_crc) ==> r == Err::<usize, ConsoleError>(ConsoleError::CrcMismatch)
            && final(frames)@ == old(frames)@,
        crc_accepted(env, skip_crc) && env.kind == ResponseKind::Failure ==> (r matches Err(
            ConsoleError::RemoteRejected(p),
        ) && p@ == env.payload@) && final(frames)@ == old(frames)@,
        crc_accepted(env, skip_crc) && env.kind == ResponseKind::Success ==> fill_outcome(
            old(frames)@,
            final(frames)@,
            env.payload@,
            r,
        ),
        r is Err ==> final(frames)@ == old(frames)@,
{
    let crc_ok = if skip_crc {
        true
    } else {
        check_console_crc(env.payload.as_slice(), env.crc.as_slice()).is_ok()
    };
    accept_response(env, crc_ok, frames)
}

} // verus!
