use vstd::prelude::*;

use arrayvec::ArrayVec;

use crate::error::HwError;
use crate::hw::{HwOp, HwSession, JtagTap, Strap, LC_TOKEN_WORDS};

verus! {

#[verifier::external_type_specification]
#[verifier::external_body]
#[verifier::reject_recursive_types(T)]
pub struct ExArrayVec<T, const CAP: usize>(ArrayVec<T, CAP>);

/// The words held by a token buffer, in order.
pub uninterp spec fn token_buffer_words(v: ArrayVec<u32, LC_TOKEN_WORDS>) -> Seq<u32>;

/// Relies on `arrayvec::ArrayVec::new`: a new vector holds nothing.
#[verifier::external_body]
fn token_buffer_new() -> (r: ArrayVec<u32, LC_TOKEN_WORDS>)
    ensures
        token_buffer_words(r) == Seq::<u32>::empty(),
{
    ArrayVec::new()
}

/// Relies on `arrayvec::ArrayVec::try_push`: below capacity the word is
/// appended and `Ok` returned; at capacity the vector is unchanged and an
/// error returned.
#[verifier::external_body]
fn token_buffer_push(v: &mut ArrayVec<u32, LC_TOKEN_WORDS>, w: u32) -> (r: bool)
    ensures
        r == (token_buffer_words(*old(v)).len() < LC_TOKEN_WORDS),
        r ==> token_buffer_words(*final(v)) == token_buffer_words(*old(v)).push(w),
        !r ==> token_buffer_words(*final(v)) == token_buffer_words(*old(v)),
{
    v.try_push(w).is_ok()
}

/// Relies on `arrayvec::ArrayVec::into_inner`: the backing array when the
/// vector is full, an error otherwise.
#[verifier::external_body]
fn token_buffer_into_array(v: ArrayVec<u32, LC_TOKEN_WORDS>) -> (r: Option<[u32; LC_TOKEN_WORDS]>)
    ensures
        r is Some <==> token_buffer_words(v).len() == LC_TOKEN_WORDS,
        r matches Some(a) ==> a@ == token_buffer_words(v),
{
    v.into_inner().ok()
}

/// Number of bytes of a life-cycle transition token.
pub const LC_TOKEN_BYTES: usize = 16;

/// Life-cycle states, as the life-cycle controller numbers them.
pub const LC_STATE_RAW: u32 = 0;
pub const LC_STATE_TEST_UNLOCKED0: u32 = 1;
pub const LC_STATE_TEST_LOCKED0: u32 = 2;
pub const LC_STATE_TEST_UNLOCKED7: u32 = 15;
pub const LC_STATE_DEV: u32 = 16;
pub const LC_STATE_PROD: u32 = 17;
pub const LC_STATE_PROD_END: u32 = 18;
pub const LC_STATE_RMA: u32 = 19;
pub const LC_STATE_SCRAP: u32 = 20;

/// States that a transition can be requested to: the test states, the
/// mission states, RMA and scrap (not raw, nor the controller's internal
/// states).
pub open spec fn is_transition_target(state: u32) -> bool {
    LC_STATE_TEST_UNLOCKED0 <= state <= LC_STATE_SCRAP
}

/// Targets that are entered with a token. The table follows the
/// life-cycle controller's transition rules: a test-unlocked state (odd
/// numbers up to `TEST_UNLOCKED7`) is entered with the raw-unlock or a
/// test-unlock token, the mission states (dev, prod, prod-end) with the
/// test-exit token, and RMA with the RMA token; test-locked states and scrap
/// take none. Whenever token bytes are given they are sent, whatever the
/// target.
pub open spec fn needs_token(state: u32) -> bool {
    (LC_STATE_TEST_UNLOCKED0 <= state <= LC_STATE_TEST_UNLOCKED7 && state % 2 == 1) || (
    LC_STATE_DEV <= state <= LC_STATE_RMA)
}

/// The life-cycle state register's redundant encoding of `state`: its five
/// bits repeated six times.
pub open spec fn redundant_encoding_of(state: u32) -> u32 {
    (state * 0x0210_8421) as u32
}

/// The word of a token held little-endian in bytes `4i .. 4i + 4`.
pub open spec fn le_word(b: Seq<u8>, i: int) -> u32 {
    (b[4 * i] + b[4 * i + 1] * 256 + b[4 * i + 2] * 65536 + b[4 * i + 3] * 16777216) as u32
}

/// The words of a token, each read little-endian from four bytes.
pub open spec fn token_words(b: Seq<u8>) -> Seq<u32> {
    Seq::new(LC_TOKEN_WORDS as nat, |i: int| le_word(b, i))
}

/// The register value that state `state` reads as.
pub fn redundant_encoding(state: u32) -> (r: u32)
    requires
        state < 32,
    ensures
        r == redundant_encoding_of(state),
        r == state + state * 32 + state * 1024 + state * 32768 + state * 1048576 + state
            * 33554432,
{
    state * 0x0210_8421
}

fn read_le_word(b: &[u8], i: usize) -> (r: u32)
    requires
        4 * i + 4 <= b@.len(),
    ensures
        r == le_word(b@, i as int),
{
    let blen = b.len();
    assert(4 * i + 4 <= blen);
    let w = b[4 * i] as u32 + b[4 * i + 1] as u32 * 256 + b[4 * i + 2] as u32 * 65536 + b[4 * i
        + 3] as u32 * 16777216;
    w
}

/// Decodes a caller's token: no bytes means no token; sixteen bytes are four
/// little-endian words; any other length is refused.
pub fn parse_token(token: &[u8]) -> (r: Result<Option<[u32; LC_TOKEN_WORDS]>, HwError>)
    ensures
        token@.len() == 0 ==> r == Ok::<Option<[u32; LC_TOKEN_WORDS]>, HwError>(None),
        token@.len() == LC_TOKEN_BYTES ==> (r matches Ok(Some(a)) && a@ == token_words(token@)),
        token@.len() != 0 && token@.len() != LC_TOKEN_BYTES ==> r == Err::<
            Option<[u32; LC_TOKEN_WORDS]>,
            HwError,
        >(HwError::ConfigurationError),
{
    if token.len() == 0 {
        return Ok(None);
    }
    if token.len() != LC_TOKEN_BYTES {
        return Err(HwError::ConfigurationError);
    }
    let mut buf = token_buffer_new();
    let mut i: usize = 0;
    while i < LC_TOKEN_WORDS
        invariant
            token@.len() == LC_TOKEN_BYTES,
            i <= LC_TOKEN_WORDS,
            token_buffer_words(buf) == token_words(token@).subrange(0, i as int),
        decreases LC_TOKEN_WORDS - i,
    {
        let w = read_le_word(token, i);
        let pushed = token_buffer_push(&mut buf, w);
        assert(pushed);
        i = i + 1;
        assert(token_buffer_words(buf) =~= token_words(token@).subrange(0, i as int));
    }
    assert(token_words(token@).subrange(0, i as int) =~= token_words(token@));
    match token_buffer_into_array(buf) {
        Some(a) => Ok(Some(a)),
        None => Err(HwError::ConfigurationError),
    }
}

/// The straps of a life-cycle transition: bootstrap mode, then the
/// life-cycle TAP.
pub open spec fn lc_straps() -> Seq<Strap> {
    seq![Strap::RomBootstrap, Strap::PinmuxTapLc]
}

/// `ops` are the operations of a life-cycle transition to `target` with the
/// token bytes `token`: reset, connect to the life-cycle TAP, trigger with
/// the decoded token (none for no bytes), connect afresh, and check that the
/// state register reads the target's redundant encoding.
pub open spec fn is_lc_plan(ops: Seq<HwOp>, target: u32, token: Seq<u8>) -> bool {
    &&& ops.len() == 5
    &&& ops[0] == HwOp::ResetTarget
    &&& ops[1] == HwOp::Connect(JtagTap::LcTap)
    &&& ops[2] matches HwOp::TriggerLcTransition { target: t, token: w }
    &&& ops[2]->TriggerLcTransition_target == target
    &&& (token.len() == 0 ==> ops[2]->TriggerLcTransition_token is None)
    &&& (token.len() != 0 ==> (ops[2]->TriggerLcTransition_token matches Some(a) && a@
        == token_words(token)))
    &&& ops[3] == HwOp::Connect(JtagTap::LcTap)
    &&& ops[4] == HwOp::ReadLcState { expected: redundant_encoding_of(target) }
}

/// Plans a life-cycle transition to `target` with the caller's `token`
/// bytes. Everything is checked before any hardware is touched: a target
/// that cannot be requested, or a token of a length other than 0 or 16, is a
/// `ConfigurationError`; a target that needs a token given none is
/// `MissingToken`. Otherwise the session applies both straps, runs
/// the operations of `is_lc_plan`, and tears down.
pub fn lc_transition_session(target: u32, token: &[u8]) -> (r: Result<HwSession, HwError>)
    ensures
        !is_transition_target(target) ==> r == Err::<HwSession, HwError>(
            HwError::ConfigurationError,
        ),
        is_transition_target(target) && token@.len() != 0 && token@.len() != LC_TOKEN_BYTES ==> r
            == Err::<HwSession, HwError>(HwError::ConfigurationError),
        is_transition_target(target) && token@.len() == 0 && needs_token(target) ==> r == Err::<
            HwSession,
            HwError,
        >(HwError::MissingToken),
        r is Ok <==> is_transition_target(target) && (token@.len() == LC_TOKEN_BYTES || (
        token@.len() == 0 && !needs_token(target))),
        r matches Ok(s) ==> s.straps@ == lc_straps() && is_lc_plan(s.ops@, target, token@)
            && s.state() == crate::hw::initial_state() && crate::hw::hw_wf(
            s.straps@,
            s.ops@,
            s.state(),
        ),
{
    if !(LC_STATE_TEST_UNLOCKED0 <= target && target <= LC_STATE_SCRAP) {
        return Err(HwError::ConfigurationError);
    }
    let words = match parse_token(token) {
        Ok(w) => w,
        Err(e) => {
            return Err(e);
        },
    };
    let requires_token = (LC_STATE_TEST_UNLOCKED0 <= target && target <= LC_STATE_TEST_UNLOCKED7
        && target % 2 == 1) || (LC_STATE_DEV <= target && target <= LC_STATE_RMA);
    if words.is_none() && requires_token {
        return Err(HwError::MissingToken);
    }
    let straps = vec![Strap::RomBootstrap, Strap::PinmuxTapLc];
    let ops = vec![
        HwOp::ResetTarget,
        HwOp::Connect(JtagTap::LcTap),
        HwOp::TriggerLcTransition { target, token: words },
        HwOp::Connect(JtagTap::LcTap),
        HwOp::ReadLcState { expected: redundant_encoding(target) },
    ];
    assert(straps@ =~= lc_straps());
    Ok(HwSession::new(straps, ops))
}

} // verus!
