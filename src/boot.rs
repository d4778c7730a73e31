use vstd::prelude::*;
use vstd::string::StringExecFns;

use crate::console::timed_out;
use crate::error::BootError;
use crate::response::copy_range;

verus! {

/// What searching `hay` with the regular expression `pattern` gives: `None`
/// when the pattern does not compile, otherwise the leftmost-first match as
/// byte offsets `(start, end)`, if any.
pub uninterp spec fn regex_search(pattern: Seq<char>, hay: Seq<u8>) -> Option<Option<(int, int)>>;

/// Relies on `regex::bytes::Regex::new` (compiles the pattern, or fails on
/// an invalid one or one over the default size limit) and `Regex::find` (the
/// first match, whose start and end are byte offsets into the haystack with
/// `start <= end`). The pattern is compiled here so that the result is a
/// function of the pattern text and the haystack alone.
#[verifier::external_body]
fn regex_find(pattern: &str, hay: &[u8]) -> (r: Option<Option<(usize, usize)>>)
    ensures
        r is None ==> regex_search(pattern@, hay@) is None,
        r matches Some(None) ==> regex_search(pattern@, hay@) == Some(None::<(int, int)>),
        r matches Some(Some(m)) ==> regex_search(pattern@, hay@) == Some(
            Some((m.0 as int, m.1 as int)),
        ) && m.0 <= m.1 <= hay@.len(),
{
    match regex::bytes::Regex::new(pattern) {
        Ok(re) => Some(re.find(hay).map(|m| (m.start(), m.end()))),
        Err(_) => None,
    }
}

/// The pattern of the first-stage boot marker.
pub open spec fn rom_ext_pattern() -> Seq<char> {
    "(?:\\n| )ROM_EXT[: ](.*)\\r\\n"@
}

/// The pattern of the later boot stage: either failure marker, or the
/// caller's boot marker `marker` when one is given.
pub open spec fn boot_pattern(marker: Seq<char>) -> Seq<char> {
    if marker.len() == 0 {
        "(?s)(UDS certificate not valid|BFV:.*\\r\\n)"@
    } else {
        "(?s)(UDS certificate not valid|BFV:.*\\r\\n|"@ + marker + ")"@
    }
}

/// `"UDS certificate not valid"`, reported when the certificate check fails.
pub open spec fn uds_invalid_text() -> Seq<u8> {
    seq![
        85u8, 68u8, 83u8, 32u8, 99u8, 101u8, 114u8, 116u8, 105u8, 102u8, 105u8, 99u8, 97u8,
        116u8, 101u8, 32u8, 110u8, 111u8, 116u8, 32u8, 118u8, 97u8, 108u8, 105u8, 100u8,
    ]
}

/// `"BFV:"`, which opens a boot-fault report.
pub open spec fn boot_fault_tag() -> Seq<u8> {
    seq![66u8, 70u8, 86u8, 58u8]
}

/// What the boot check decides next.
#[derive(Clone, Copy, Debug, PartialEq, Eq, Structural)]
pub enum BootStep {
    /// Read more console output and call `step` again.
    Continue,
    /// The firmware has booted.
    Booted,
    Failed(BootError),
}

/// The verdict on the text matched by the later-stage pattern: the
/// certificate failure text, a boot-fault report, or else the caller's marker.
pub open spec fn boot_verdict(m: Seq<u8>) -> BootStep {
    if m == uds_invalid_text() {
        BootStep::Failed(BootError::InvalidUdsCertificate)
    } else if m.len() >= 4 && m.subrange(0, 4) == boot_fault_tag() {
        BootStep::Failed(BootError::BootFault)
    } else {
        BootStep::Booted
    }
}

/// Classifies the text matched by the later-stage pattern, as
/// `boot_verdict` states.
pub fn classify_boot_match(m: &[u8]) -> (r: BootStep)
    ensures
        r == boot_verdict(m@),
{
    let uds = vec![
        85u8, 68u8, 83u8, 32u8, 99u8, 101u8, 114u8, 116u8, 105u8, 102u8, 105u8, 99u8, 97u8,
        116u8, 101u8, 32u8, 110u8, 111u8, 116u8, 32u8, 118u8, 97u8, 108u8, 105u8, 100u8,
    ];
    let bfv = vec![66u8, 70u8, 86u8, 58u8];
    assert(uds@ =~= uds_invalid_text());
    assert(bfv@ =~= boot_fault_tag());
    if m.len() == uds.len() && crate::response::bytes_match_at(m, uds.as_slice(), 0) {
        assert(m@ =~= m@.subrange(0, uds@.len() as int));
        BootStep::Failed(BootError::InvalidUdsCertificate)
    } else if crate::response::bytes_match_at(m, bfv.as_slice(), 0) {
        proof {
            if m@ == uds_invalid_text() {
                assert(m@.subrange(0, m@.len() as int) =~= m@);
            }
        }
        BootStep::Failed(BootError::BootFault)
    } else {
        proof {
            if m@ == uds_invalid_text() {
                assert(m@.subrange(0, m@.len() as int) =~= m@);
            }
        }
        BootStep::Booted
    }
}

/// Where the boot check stands.
#[derive(Clone, Copy, Debug, PartialEq, Eq, Structural)]
pub enum BootPhase {
    /// Waiting for the first-stage (ROM_EXT) boot marker.
    RomExt,
    /// Waiting for a failure marker or the caller's boot marker.
    Firmware,
    Finished,
}

/// The decisions of the boot check that follows a reset. The caller reads
/// the console and hands each batch of bytes, with the current time, to
/// `step`. Without a caller marker, reaching the timeout in the later stage
/// with no failure seen counts as booted: only failures are looked for.
pub struct BootCheck {
    /// The caller's boot marker, a pattern; empty for none.
    pub marker: String,
    /// `boot_pattern(marker)`.
    pub pattern: String,
    pub timeout_ms: u64,
    pub phase: BootPhase,
    /// Bytes read in the current phase and not yet consumed.
    pub buffer: Vec<u8>,
    pub phase_start_ms: u64,
}

/// `s` and `r` are what the later stage decides on `buf`, that stage having
/// started at `start`.
pub open spec fn firmware_outcome(s: BootCheck, r: BootStep, buf: Seq<u8>, start: u64, now: u64) -> bool {
    match regex_search(boot_pattern(s.marker@), buf) {
        None => r == BootStep::Failed(BootError::InvalidPattern) && s.phase == BootPhase::Finished,
        Some(Some(m)) => r == boot_verdict(buf.subrange(m.0, m.1)) && s.phase
            == BootPhase::Finished,
        Some(None) => if timed_out(start, now, s.timeout_ms) {
            s.phase == BootPhase::Finished && r == if s.marker@.len() == 0 {
                BootStep::Booted
            } else {
                BootStep::Failed(BootError::Timeout)
            }
        } else {
            r == BootStep::Continue && s.phase == BootPhase::Firmware && s.buffer@ == buf
                && s.phase_start_ms == start
        },
    }
}

/// `s` and `r` are what one step gives from `old` on the bytes `data` at
/// time `now`. Bytes after the ROM_EXT marker count towards the later stage.
pub open spec fn boot_step_outcome(
    old: BootCheck,
    s: BootCheck,
    r: BootStep,
    data: Seq<u8>,
    now: u64,
) -> bool {
    let buf = old.buffer@ + data;
    &&& s.marker@ == old.marker@
    &&& s.pattern@ == old.pattern@
    &&& s.timeout_ms == old.timeout_ms
    &&& old.phase == BootPhase::RomExt ==> match regex_search(rom_ext_pattern(), buf) {
        None => r == BootStep::Failed(BootError::InvalidPattern) && s.phase
            == BootPhase::Finished,
        Some(Some(m)) => firmware_outcome(s, r, buf.subrange(m.1, buf.len() as int), now, now),
        Some(None) => if timed_out(old.phase_start_ms, now, old.timeout_ms) {
            r == BootStep::Failed(BootError::RomExtTimeout) && s.phase == BootPhase::Finished
        } else {
            r == BootStep::Continue && s.phase == BootPhase::RomExt && s.buffer@ == buf
                && s.phase_start_ms == old.phase_start_ms
        },
    }
    &&& old.phase == BootPhase::Firmware ==> firmware_outcome(
        s,
        r,
        buf,
        old.phase_start_ms,
        now,
    )
}

impl BootCheck {
    /// A boot check for the caller's `marker` (empty for none), starting at
    /// `now_ms`. The marker is checked first: one that makes the later-stage
    /// pattern invalid is refused.
    pub fn new(marker: &str, timeout_ms: u64, now_ms: u64) -> (r: Result<BootCheck, BootError>)
        ensures
            r is Err <==> regex_search(boot_pattern(marker@), Seq::<u8>::empty()) is None,
            r is Err ==> r == Err::<BootCheck, BootError>(BootError::InvalidPattern),
            r matches Ok(c) ==> {
                &&& c.marker@ == marker@
                &&& c.pattern@ == boot_pattern(marker@)
                &&& c.timeout_ms == timeout_ms
                &&& c.phase == BootPhase::RomExt
                &&& c.buffer@ == Seq::<u8>::empty()
                &&& c.phase_start_ms == now_ms
            },
    {
        let pattern = if marker.is_empty() {
            String::from_str("(?s)(UDS certificate not valid|BFV:.*\\r\\n)")
        } else {
            String::from_str("(?s)(UDS certificate not valid|BFV:.*\\r\\n|").concat(marker).concat(
                ")",
            )
        };
        let empty: Vec<u8> = Vec::new();
        match regex_find(pattern.as_str(), empty.as_slice()) {
            None => Err(BootError::InvalidPattern),
            Some(_) => Ok(
                BootCheck {
                    marker: String::from_str(marker),
                    pattern,
                    timeout_ms,
                    phase: BootPhase::RomExt,
                    buffer: Vec::new(),
                    phase_start_ms: now_ms,
                },
            ),
        }
    }

    pub fn is_finished(&self) -> (r: bool)
        ensures
            r == (self.phase == BootPhase::Finished),
    {
        self.phase == BootPhase::Finished
    }

    fn firmware_stage(&mut self, start: u64, now_ms: u64) -> (r: BootStep)
        requires
            old(self).pattern@ == boot_pattern(old(self).marker@),
        ensures
            firmware_outcome(*final(self), r, old(self).buffer@, start, now_ms),
            final(self).marker@ == old(self).marker@,
            final(self).pattern@ == old(self).pattern@,
            final(self).timeout_ms == old(self).timeout_ms,
    {
        match regex_find(self.pattern.as_str(), self.buffer.as_slice()) {
            None => {
                self.phase = BootPhase::Finished;
                BootStep::Failed(BootError::InvalidPattern)
            },
            Some(Some(m)) => {
                self.phase = BootPhase::Finished;
                let text = copy_range(self.buffer.as_slice(), m.0, m.1);
                classify_boot_match(text.as_slice())
            },
            Some(None) => {
                if now_ms >= start && now_ms - start >= self.timeout_ms {
                    self.phase = BootPhase::Finished;
                    if self.marker.as_str().is_empty() {
                        BootStep::Booted
                    } else {
                        BootStep::Failed(BootError::Timeout)
                    }
                } else {
                    self.phase = BootPhase::Firmware;
                    self.phase_start_ms = start;
                    BootStep::Continue
                }
            },
        }
    }

    /// Takes the console bytes `data` read since the last step, at time
    /// `now_ms`, and decides what happens next, as `boot_step_outcome`
    /// states.
    pub fn step(&mut self, data: &[u8], now_ms: u64) -> (r: BootStep)
        requires
            old(self).phase != BootPhase::Finished,
            old(self).pattern@ == boot_pattern(old(self).marker@),
        ensures
            boot_step_outcome(*old(self), *final(self), r, data@, now_ms),
            final(self).pattern@ == boot_pattern(final(self).marker@),
    {
        crate::console::append_bytes(&mut self.buffer, data);
        if self.phase == BootPhase::RomExt {
            match regex_find("(?:\\n| )ROM_EXT[: ](.*)\\r\\n", self.buffer.as_slice()) {
                None => {
                    self.phase = BootPhase::Finished;
                    BootStep::Failed(BootError::InvalidPattern)
                },
                Some(Some(m)) => {
                    let blen = self.buffer.len();
                    let rest = copy_range(self.buffer.as_slice(), m.1, blen);
                    self.buffer = rest;
                    self.firmware_stage(now_ms, now_ms)
                },
                Some(None) => {
                    if now_ms >= self.phase_start_ms && now_ms - self.phase_start_ms
                        >= self.timeout_ms {
                        self.phase = BootPhase::Finished;
                        BootStep::Failed(BootError::RomExtTimeout)
                    } else {
                        BootStep::Continue
                    }
                },
            }
        } else {
            let start = self.phase_start_ms;
            self.firmware_stage(start, now_ms)
        }
    }
}

} // verus!
