use vstd::prelude::*;

use crate::error::HwError;

verus! {

/// Number of 32-bit words in a life-cycle transition token.
pub const LC_TOKEN_WORDS: usize = 4;

/// A pin configuration applied before a reset.
#[derive(Clone, Copy, Debug, PartialEq, Eq, Structural)]
pub enum Strap {
    /// Boot the ROM into bootstrap mode.
    RomBootstrap,
    /// Route JTAG to the life-cycle controller TAP.
    PinmuxTapLc,
    /// Route JTAG to the CPU (RISC-V) TAP.
    PinmuxTapRiscv,
}

/// A JTAG test access port.
#[derive(Clone, Copy, Debug, PartialEq, Eq, Structural)]
pub enum JtagTap {
    RiscvTap,
    LcTap,
}

/// What a loaded SRAM program did.
#[derive(Clone, Copy, Debug, PartialEq, Eq, Structural)]
pub enum SramOutcome {
    /// Started, and not waited for.
    Executing,
    /// Finished successfully.
    Completed,
    /// Reported a failure.
    Fault,
    /// Did not finish in the time allowed.
    TimedOut,
}

/// One step of a sequence while the straps are applied.
#[derive(Clone, Copy, Debug, PartialEq, Eq)]
pub enum HwOp {
    /// Pulse the target's reset and wait for it to come up.
    ResetTarget,
    /// Open a JTAG connection to a TAP.
    Connect(JtagTap),
    /// Reset and halt the CPU over JTAG.
    HaltCpu,
    /// Load the SRAM program and jump to it; with `wait_ms`, wait that long
    /// for it to finish.
    LoadSramProgram { wait_ms: Option<u64> },
    /// Request a life-cycle transition; this consumes the JTAG connection
    /// and resets the target with the life-cycle TAP strapped.
    TriggerLcTransition { target: u32, token: Option<[u32; LC_TOKEN_WORDS]> },
    /// Read the life-cycle state register, which must read `expected`.
    ReadLcState { expected: u32 },
}

/// What the caller performs next.
#[derive(Clone, Copy, Debug, PartialEq, Eq)]
pub enum HwAction {
    ApplyStrap(Strap),
    Run(HwOp),
    Disconnect,
    RemoveStrap(Strap),
    /// The sequence is over: every strap applied has been removed and no
    /// connection is open.
    Finish(Result<(), HwError>),
}

/// How the last action went.
#[derive(Clone, Copy, Debug, PartialEq, Eq, Structural)]
pub enum HwEvent {
    Done,
    Failed,
    /// The life-cycle state register read this value.
    LcState(u32),
    /// The SRAM program did this.
    Sram(SramOutcome),
}

/// Which kind of action awaits its outcome.
#[derive(Clone, Copy, Debug, PartialEq, Eq, Structural)]
pub enum Awaiting {
    Forward,
    Disconnect,
    Remove,
}

/// A sequence that applies `straps` in order, runs `ops`, and then always
/// disconnects and removes the applied straps in reverse order, on success
/// and on failure alike. The first error is the one reported.
pub struct HwSession {
    pub straps: Vec<Strap>,
    pub ops: Vec<HwOp>,
    /// How many forward steps (straps, then ops) have been issued.
    pub issued: usize,
    /// Straps applied and not yet removed, in order of application.
    pub pending: Vec<Strap>,
    pub connected: bool,
    pub error: Option<HwError>,
    pub awaiting: Option<Awaiting>,
    /// Teardown has begun: no forward step is issued any more.
    pub tearing: bool,
    pub finished: bool,
}

/// The mutable part of a session.
pub struct HwState {
    pub issued: nat,
    pub pending: Seq<Strap>,
    pub connected: bool,
    pub error: Option<HwError>,
    pub awaiting: Option<Awaiting>,
    pub tearing: bool,
    pub finished: bool,
}

impl HwSession {
    pub open spec fn state(self) -> HwState {
        HwState {
            issued: self.issued as nat,
            pending: self.pending@,
            connected: self.connected,
            error: self.error,
            awaiting: self.awaiting,
            tearing: self.tearing,
            finished: self.finished,
        }
    }
}

/// Keeps the first error.
pub open spec fn record(error: Option<HwError>, e: HwError) -> Option<HwError> {
    if error is Some {
        error
    } else {
        Some(e)
    }
}

/// The error, if any, that event `ev` reports for operation `op`.
pub open spec fn op_error(op: HwOp, ev: HwEvent) -> Option<HwError> {
    match op {
        HwOp::ReadLcState { expected } => match ev {
            HwEvent::LcState(v) => if v == expected {
                None
            } else {
                Some(HwError::VerificationFailure { expected, actual: v })
            },
            _ => Some(HwError::TransportError),
        },
        HwOp::LoadSramProgram { .. } => match ev {
            HwEvent::Done => None,
            HwEvent::Sram(SramOutcome::Executing) => None,
            HwEvent::Sram(SramOutcome::Completed) => None,
            HwEvent::Sram(SramOutcome::Fault) => Some(HwError::ExecutionFault),
            HwEvent::Sram(SramOutcome::TimedOut) => Some(HwError::Timeout),
            _ => Some(HwError::TransportError),
        },
        _ => if ev == HwEvent::Done {
            None
        } else {
            Some(HwError::TransportError)
        },
    }
}

/// Whether the JTAG connection is open after operation `op` had event `ev`.
pub open spec fn connected_after(op: HwOp, ev: HwEvent, connected: bool) -> bool {
    match op {
        HwOp::Connect(_) => connected || ev == HwEvent::Done,
        HwOp::TriggerLcTransition { .. } => false,
        _ => connected,
    }
}

/// The state once the outcome `ev` of the awaited action is taken in.
pub open spec fn absorbed(straps: Seq<Strap>, ops: Seq<HwOp>, st: HwState, ev: HwEvent) -> HwState {
    match st.awaiting {
        None => st,
        Some(Awaiting::Forward) => {
            let k = st.issued - 1;
            if k < straps.len() {
                if ev == HwEvent::Done {
                    HwState { pending: st.pending.push(straps[k]), awaiting: None, ..st }
                } else {
                    HwState {
                        error: record(st.error, HwError::TransportError),
                        awaiting: None,
                        ..st
                    }
                }
            } else {
                let op = ops[k - straps.len()];
                HwState {
                    connected: connected_after(op, ev, st.connected),
                    error: match op_error(op, ev) {
                        Some(e) => record(st.error, e),
                        None => st.error,
                    },
                    awaiting: None,
                    ..st
                }
            }
        },
        Some(Awaiting::Disconnect) => HwState {
            connected: false,
            error: if ev == HwEvent::Done {
                st.error
            } else {
                record(st.error, HwError::TransportError)
            },
            awaiting: None,
            ..st
        },
        Some(Awaiting::Remove) => HwState {
            pending: st.pending.drop_last(),
            error: if ev == HwEvent::Done {
                st.error
            } else {
                record(st.error, HwError::TransportError)
            },
            awaiting: None,
            ..st
        },
    }
}

/// The next action from a state with no awaited outcome, and the state after
/// issuing it: the next forward step while nothing has failed, then
/// disconnect, then remove the pending straps last-applied first, then finish.
pub open spec fn chosen(straps: Seq<Strap>, ops: Seq<HwOp>, st: HwState) -> (HwState, HwAction) {
    if !st.tearing && st.error is None && st.issued < straps.len() + ops.len() {
        let k = st.issued;
        let next = HwState { issued: st.issued + 1, awaiting: Some(Awaiting::Forward), ..st };
        if k < straps.len() {
            (next, HwAction::ApplyStrap(straps[k as int]))
        } else {
            (next, HwAction::Run(ops[k - straps.len()]))
        }
    } else if st.connected {
        (HwState { tearing: true, awaiting: Some(Awaiting::Disconnect), ..st }, HwAction::Disconnect)
    } else if st.pending.len() > 0 {
        (
            HwState { tearing: true, awaiting: Some(Awaiting::Remove), ..st },
            HwAction::RemoveStrap(st.pending.last()),
        )
    } else {
        (
            HwState { tearing: true, finished: true, ..st },
            HwAction::Finish(
                match st.error {
                    Some(e) => Err(e),
                    None => Ok(()),
                },
            ),
        )
    }
}

/// One full step: take in `ev`, then choose.
pub open spec fn transition(straps: Seq<Strap>, ops: Seq<HwOp>, st: HwState, ev: HwEvent) -> (
    HwState,
    HwAction,
) {
    chosen(straps, ops, absorbed(straps, ops, st, ev))
}

/// The straps applied so far by the forward steps of state `st`.
pub open spec fn applied_count(straps: Seq<Strap>, st: HwState) -> int {
    let issued = st.issued as int;
    let n = if issued < straps.len() {
        issued
    } else {
        straps.len() as int
    };
    if st.awaiting == Some(Awaiting::Forward) && issued - 1 < straps.len() {
        n - 1
    } else {
        n
    }
}

/// The invariant of a session: the forward steps issued stay within the
/// plan; before teardown, nothing has failed and the pending straps are the
/// first ones of the plan; a connection is open only after all straps; a
/// finished session awaits nothing and holds no strap or connection.
pub open spec fn hw_wf(straps: Seq<Strap>, ops: Seq<HwOp>, st: HwState) -> bool {
    &&& straps.len() + ops.len() <= usize::MAX
    &&& st.issued <= straps.len() + ops.len()
    &&& st.awaiting == Some(Awaiting::Forward) ==> st.issued >= 1 && !st.tearing
    &&& st.awaiting == Some(Awaiting::Remove) ==> st.pending.len() > 0 && st.tearing
    &&& st.awaiting == Some(Awaiting::Disconnect) ==> st.tearing
    &&& !st.tearing ==> st.error is None && st.pending == straps.subrange(
        0,
        applied_count(straps, st),
    )
    &&& st.connected && !st.tearing ==> st.issued > straps.len()
    &&& st.finished ==> st.tearing && st.awaiting is None && st.pending.len() == 0
        && !st.connected
}

/// The state a new session starts in.
pub open spec fn initial_state() -> HwState {
    HwState {
        issued: 0,
        pending: Seq::empty(),
        connected: false,
        error: None,
        awaiting: None,
        tearing: false,
        finished: false,
    }
}

/// A new session satisfies the invariant.
pub proof fn lemma_initial_wf(straps: Seq<Strap>, ops: Seq<HwOp>)
    requires
        straps.len() + ops.len() <= usize::MAX,
    ensures
        hw_wf(straps, ops, initial_state()),
{
    assert(straps.subrange(0, 0) =~= Seq::<Strap>::empty());
}

/// Every step of an unfinished session keeps the invariant.
pub proof fn lemma_transition_wf(straps: Seq<Strap>, ops: Seq<HwOp>, st: HwState, ev: HwEvent)
    requires
        hw_wf(straps, ops, st),
        !st.finished,
    ensures
        hw_wf(straps, ops, transition(straps, ops, st, ev).0),
{
    let a = absorbed(straps, ops, st, ev);
    if st.awaiting == Some(Awaiting::Forward) && st.issued - 1 < straps.len() && ev
        == HwEvent::Done {
        assert(a.pending =~= straps.subrange(0, applied_count(straps, a)));
    }
    let (n, act) = chosen(straps, ops, a);
    if !a.tearing && a.error is None && a.issued < straps.len() + ops.len() {
        assert(n.pending =~= straps.subrange(0, applied_count(straps, n)));
    }
}

/// Teardown law: the session finishes only once every strap it applied has
/// been removed and its connection closed, and it reports the first error.
pub proof fn lemma_finish_releases_all(
    straps: Seq<Strap>,
    ops: Seq<HwOp>,
    st: HwState,
    ev: HwEvent,
)
    ensures
        ({
            let (n, act) = transition(straps, ops, st, ev);
            act is Finish ==> n.finished && n.pending.len() == 0 && !n.connected && (act
                == HwAction::Finish(
                match absorbed(straps, ops, st, ev).error {
                    Some(e) => Err(e),
                    None => Ok(()),
                },
            ))
        }),
{
}

/// Once an error is recorded it is never replaced, and no forward step is
/// issued any more.
pub proof fn lemma_error_kept(straps: Seq<Strap>, ops: Seq<HwOp>, st: HwState, ev: HwEvent)
    requires
        st.error is Some,
    ensures
        transition(straps, ops, st, ev).0.error == st.error,
        !(transition(straps, ops, st, ev).1 is ApplyStrap),
        !(transition(straps, ops, st, ev).1 is Run),
{
}

/// Strap discipline: an operation (a reset, a connection, ...) is issued
/// only while every strap of the plan is applied.
pub proof fn lemma_ops_run_strapped(straps: Seq<Strap>, ops: Seq<HwOp>, st: HwState, ev: HwEvent)
    requires
        hw_wf(straps, ops, st),
        !st.finished,
        transition(straps, ops, st, ev).1 is Run,
    ensures
        transition(straps, ops, st, ev).0.pending == straps,
{
    lemma_transition_wf(straps, ops, st, ev);
    let n = transition(straps, ops, st, ev).0;
    assert(straps.subrange(0, straps.len() as int) =~= straps);
}

impl HwSession {
    /// A session that will apply `straps` and then run `ops`.
    pub fn new(straps: Vec<Strap>, ops: Vec<HwOp>) -> (r: HwSession)
        requires
            straps@.len() + ops@.len() <= usize::MAX,
        ensures
            r.straps@ == straps@,
            r.ops@ == ops@,
            r.state() == initial_state(),
            hw_wf(r.straps@, r.ops@, r.state()),
    {
        proof {
            lemma_initial_wf(straps@, ops@);
        }
        HwSession {
            straps,
            ops,
            issued: 0,
            pending: Vec::new(),
            connected: false,
            error: None,
            awaiting: None,
            tearing: false,
            finished: false,
        }
    }

    pub fn is_finished(&self) -> (r: bool)
        ensures
            r == self.finished,
    {
        self.finished
    }

    fn absorb(&mut self, ev: HwEvent)
        requires
            hw_wf(old(self).straps@, old(self).ops@, old(self).state()),
        ensures
            final(self).state() == absorbed(
                old(self).straps@,
                old(self).ops@,
                old(self).state(),
                ev,
            ),
            final(self).straps@ == old(self).straps@,
            final(self).ops@ == old(self).ops@,
    {
        let awaiting = self.awaiting;
        match awaiting {
            None => {},
            Some(Awaiting::Forward) => {
                let k = self.issued - 1;
                if k < self.straps.len() {
                    if ev == HwEvent::Done {
                        let s = self.straps[k];
                        self.pending.push(s);
                    } else {
                        self.error = record_error(self.error, HwError::TransportError);
                    }
                } else {
                    let op = self.ops[k - self.straps.len()];
                    self.connected = match op {
                        HwOp::Connect(_) => self.connected || ev == HwEvent::Done,
                        HwOp::TriggerLcTransition { .. } => false,
                        _ => self.connected,
                    };
                    match op_failure(op, ev) {
                        Some(e) => {
                            self.error = record_error(self.error, e);
                        },
                        None => {},
                    }
                }
            },
            Some(Awaiting::Disconnect) => {
                self.connected = false;
                if ev != HwEvent::Done {
                    self.error = record_error(self.error, HwError::TransportError);
                }
            },
            Some(Awaiting::Remove) => {
                self.pending.pop();
                if ev != HwEvent::Done {
                    self.error = record_error(self.error, HwError::TransportError);
                }
            },
        }
        self.awaiting = None;
    }

    /// Takes in how the last action went (the first call's event is ignored)
    /// and returns the next action, as `transition` states.
    pub fn next(&mut self, ev: HwEvent) -> (r: HwAction)
        requires
            hw_wf(old(self).straps@, old(self).ops@, old(self).state()),
            !old(self).finished,
        ensures
            (final(self).state(), r) == transition(
                old(self).straps@,
                old(self).ops@,
                old(self).state(),
                ev,
            ),
            final(self).straps@ == old(self).straps@,
            final(self).ops@ == old(self).ops@,
            hw_wf(final(self).straps@, final(self).ops@, final(self).state()),
    {
        proof {
            lemma_transition_wf(self.straps@, self.ops@, self.state(), ev);
        }
        self.absorb(ev);
        let more = self.issued < self.straps.len() || self.issued - self.straps.len()
            < self.ops.len();
        if !self.tearing && self.error.is_none() && more {
            let k = self.issued;
            self.issued = self.issued + 1;
            self.awaiting = Some(Awaiting::Forward);
            if k < self.straps.len() {
                HwAction::ApplyStrap(self.straps[k])
            } else {
                HwAction::Run(self.ops[k - self.straps.len()])
            }
        } else if self.connected {
            self.tearing = true;
            self.awaiting = Some(Awaiting::Disconnect);
            HwAction::Disconnect
        } else if self.pending.len() > 0 {
            self.tearing = true;
            self.awaiting = Some(Awaiting::Remove);
            HwAction::RemoveStrap(self.pending[self.pending.len() - 1])
        } else {
            self.tearing = true;
            self.finished = true;
            HwAction::Finish(
                match self.error {
                    Some(e) => Err(e),
                    None => Ok(()),
                },
            )
        }
    }
}

fn record_error(error: Option<HwError>, e: HwError) -> (r: Option<HwError>)
    ensures
        r == record(error, e),
{
    if error.is_some() {
        error
    } else {
        Some(e)
    }
}

/// The error, if any, that event `ev` reports for operation `op`, as
/// `op_error` states.
pub fn op_failure(op: HwOp, ev: HwEvent) -> (r: Option<HwError>)
    ensures
        r == op_error(op, ev),
{
    match op {
        HwOp::ReadLcState { expected } => match ev {
            HwEvent::LcState(v) => if v == expected {
                None
            } else {
                Some(HwError::VerificationFailure { expected, actual: v })
            },
            _ => Some(HwError::TransportError),
        },
        HwOp::LoadSramProgram { .. } => match ev {
            HwEvent::Done => None,
            HwEvent::Sram(SramOutcome::Executing) => None,
            HwEvent::Sram(SramOutcome::Completed) => None,
            HwEvent::Sram(SramOutcome::Fault) => Some(HwError::ExecutionFault),
            HwEvent::Sram(SramOutcome::TimedOut) => Some(HwError::Timeout),
            _ => Some(HwError::TransportError),
        },
        _ => if ev == HwEvent::Done {
            None
        } else {
            Some(HwError::TransportError)
        },
    }
}

/// The straps and operations of loading an SRAM program: the CPU TAP strap;
/// reset, connect to the CPU TAP, halt the CPU, load and jump.
pub fn sram_load_session(wait_ms: Option<u64>) -> (r: HwSession)
    ensures
        r.straps@ == seq![Strap::PinmuxTapRiscv],
        r.ops@ == seq![
            HwOp::ResetTarget,
            HwOp::Connect(JtagTap::RiscvTap),
            HwOp::HaltCpu,
            HwOp::LoadSramProgram { wait_ms },
        ],
        r.state() == initial_state(),
        hw_wf(r.straps@, r.ops@, r.state()),
{
    let straps = vec![Strap::PinmuxTapRiscv];
    let ops = vec![
        HwOp::ResetTarget,
        HwOp::Connect(JtagTap::RiscvTap),
        HwOp::HaltCpu,
        HwOp::LoadSramProgram { wait_ms },
    ];
    assert(straps@ =~= seq![Strap::PinmuxTapRiscv]);
    assert(ops@ =~= seq![
        HwOp::ResetTarget,
        HwOp::Connect(JtagTap::RiscvTap),
        HwOp::HaltCpu,
        HwOp::LoadSramProgram { wait_ms },
    ]);
    HwSession::new(straps, ops)
}

} // verus!
