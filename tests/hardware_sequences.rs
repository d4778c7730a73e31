use otlib_wrapper::error::HwError;
use otlib_wrapper::hw::{
    sram_load_session, HwAction, HwEvent, HwOp, HwSession, JtagTap, SramOutcome, Strap,
};
use otlib_wrapper::lifecycle::{
    lc_transition_session, parse_token, redundant_encoding, LC_STATE_DEV,
    LC_STATE_PROD, LC_STATE_RAW, LC_STATE_RMA, LC_STATE_SCRAP, LC_STATE_TEST_LOCKED0,
    LC_STATE_TEST_UNLOCKED0,
};

fn token() -> Vec<u8> {
    (1u8..=16).collect()
}

/// Drives a session, answering each action from `answer`; returns the actions seen.
fn drive(mut s: HwSession, answer: impl Fn(&HwAction) -> HwEvent) -> Vec<HwAction> {
    let mut seen = Vec::new();
    let mut ev = HwEvent::Done;
    while !s.is_finished() {
        let a = s.next(ev);
        seen.push(a);
        ev = answer(&a);
    }
    seen
}

#[test]
fn lc_transition_without_required_token_touches_nothing() {
    assert_eq!(lc_transition_session(LC_STATE_PROD, &[]).err(), Some(HwError::MissingToken));
    assert_eq!(lc_transition_session(LC_STATE_RMA, &[]).err(), Some(HwError::MissingToken));
    assert_eq!(
        lc_transition_session(LC_STATE_TEST_UNLOCKED0, &[]).err(),
        Some(HwError::MissingToken)
    );
}

#[test]
fn lc_transition_refuses_bad_requests() {
    assert_eq!(lc_transition_session(LC_STATE_RAW, &token()).err(), Some(HwError::ConfigurationError));
    assert_eq!(lc_transition_session(21, &token()).err(), Some(HwError::ConfigurationError));
    assert_eq!(lc_transition_session(LC_STATE_PROD, &[1, 2, 3]).err(), Some(HwError::ConfigurationError));
}

#[test]
fn lc_transition_to_tokenless_targets() {
    assert!(lc_transition_session(LC_STATE_TEST_LOCKED0, &[]).is_ok());
    assert!(lc_transition_session(LC_STATE_SCRAP, &[]).is_ok());
}

#[test]
fn token_words_are_little_endian() {
    assert_eq!(
        parse_token(&token()),
        Ok(Some([0x0403_0201, 0x0807_0605, 0x0c0b_0a09, 0x100f_0e0d]))
    );
    assert_eq!(parse_token(&[]), Ok(None));
    assert_eq!(parse_token(&[0; 17]), Err(HwError::ConfigurationError));
}

#[test]
fn redundant_encoding_repeats_state() {
    assert_eq!(redundant_encoding(0), 0);
    assert_eq!(redundant_encoding(1), 0x0210_8421);
    assert_eq!(redundant_encoding(LC_STATE_DEV), 16 * 0x0210_8421);
    assert_eq!(redundant_encoding(31), 0x3fff_ffff);
}

#[test]
fn lc_transition_succeeds_and_tears_down() {
    let s = lc_transition_session(LC_STATE_PROD, &token()).unwrap();
    let expected = redundant_encoding(LC_STATE_PROD);
    let seen = drive(s, |a| match a {
        HwAction::Run(HwOp::ReadLcState { .. }) => HwEvent::LcState(expected),
        _ => HwEvent::Done,
    });
    let words = Some([0x0403_0201, 0x0807_0605, 0x0c0b_0a09, 0x100f_0e0d]);
    assert_eq!(
        seen,
        vec![
            HwAction::ApplyStrap(Strap::RomBootstrap),
            HwAction::ApplyStrap(Strap::PinmuxTapLc),
            HwAction::Run(HwOp::ResetTarget),
            HwAction::Run(HwOp::Connect(JtagTap::LcTap)),
            HwAction::Run(HwOp::TriggerLcTransition { target: LC_STATE_PROD, token: words }),
            HwAction::Run(HwOp::Connect(JtagTap::LcTap)),
            HwAction::Run(HwOp::ReadLcState { expected }),
            HwAction::Disconnect,
            HwAction::RemoveStrap(Strap::PinmuxTapLc),
            HwAction::RemoveStrap(Strap::RomBootstrap),
            HwAction::Finish(Ok(())),
        ]
    );
}

#[test]
fn lc_state_mismatch_is_verification_failure_and_straps_removed() {
    let s = lc_transition_session(LC_STATE_DEV, &token()).unwrap();
    let expected = redundant_encoding(LC_STATE_DEV);
    let seen = drive(s, |a| match a {
        HwAction::Run(HwOp::ReadLcState { .. }) => HwEvent::LcState(redundant_encoding(1)),
        _ => HwEvent::Done,
    });
    let n = seen.len();
    assert_eq!(
        &seen[n - 4..],
        &[
            HwAction::Disconnect,
            HwAction::RemoveStrap(Strap::PinmuxTapLc),
            HwAction::RemoveStrap(Strap::RomBootstrap),
            HwAction::Finish(Err(HwError::VerificationFailure {
                expected,
                actual: redundant_encoding(1),
            })),
        ]
    );
}

#[test]
fn failed_second_strap_removes_first_only() {
    let s = lc_transition_session(LC_STATE_SCRAP, &[]).unwrap();
    let seen = drive(s, |a| match a {
        HwAction::ApplyStrap(Strap::PinmuxTapLc) => HwEvent::Failed,
        _ => HwEvent::Done,
    });
    assert_eq!(
        seen,
        vec![
            HwAction::ApplyStrap(Strap::RomBootstrap),
            HwAction::ApplyStrap(Strap::PinmuxTapLc),
            HwAction::RemoveStrap(Strap::RomBootstrap),
            HwAction::Finish(Err(HwError::TransportError)),
        ]
    );
}

#[test]
fn removal_failure_does_not_mask_first_error() {
    let s = lc_transition_session(LC_STATE_DEV, &token()).unwrap();
    let seen = drive(s, |a| match a {
        HwAction::Run(HwOp::ReadLcState { .. }) => HwEvent::LcState(0),
        HwAction::RemoveStrap(_) => HwEvent::Failed,
        _ => HwEvent::Done,
    });
    assert!(seen.contains(&HwAction::RemoveStrap(Strap::RomBootstrap)));
    assert_eq!(
        seen.last(),
        Some(&HwAction::Finish(Err(HwError::VerificationFailure {
            expected: redundant_encoding(LC_STATE_DEV),
            actual: 0,
        })))
    );
}

#[test]
fn trigger_failure_skips_disconnect() {
    let s = lc_transition_session(LC_STATE_SCRAP, &[]).unwrap();
    let seen = drive(s, |a| match a {
        HwAction::Run(HwOp::TriggerLcTransition { .. }) => HwEvent::Failed,
        _ => HwEvent::Done,
    });
    let n = seen.len();
    assert_eq!(
        &seen[n - 3..],
        &[
            HwAction::RemoveStrap(Strap::PinmuxTapLc),
            HwAction::RemoveStrap(Strap::RomBootstrap),
            HwAction::Finish(Err(HwError::TransportError)),
        ]
    );
}

#[test]
fn sram_load_completes() {
    let seen = drive(sram_load_session(Some(500)), |a| match a {
        HwAction::Run(HwOp::LoadSramProgram { .. }) => HwEvent::Sram(SramOutcome::Completed),
        _ => HwEvent::Done,
    });
    assert_eq!(
        seen,
        vec![
            HwAction::ApplyStrap(Strap::PinmuxTapRiscv),
            HwAction::Run(HwOp::ResetTarget),
            HwAction::Run(HwOp::Connect(JtagTap::RiscvTap)),
            HwAction::Run(HwOp::HaltCpu),
            HwAction::Run(HwOp::LoadSramProgram { wait_ms: Some(500) }),
            HwAction::Disconnect,
            HwAction::RemoveStrap(Strap::PinmuxTapRiscv),
            HwAction::Finish(Ok(())),
        ]
    );
}

#[test]
fn sram_fault_and_timeout_are_distinct() {
    for (outcome, err) in [
        (SramOutcome::Fault, HwError::ExecutionFault),
        (SramOutcome::TimedOut, HwError::Timeout),
    ] {
        let seen = drive(sram_load_session(Some(10)), |a| match a {
            HwAction::Run(HwOp::LoadSramProgram { .. }) => HwEvent::Sram(outcome),
            _ => HwEvent::Done,
        });
        let n = seen.len();
        assert_eq!(
            &seen[n - 3..],
            &[
                HwAction::Disconnect,
                HwAction::RemoveStrap(Strap::PinmuxTapRiscv),
                HwAction::Finish(Err(err)),
            ]
        );
    }
}

#[test]
fn sram_jump_without_wait_is_success() {
    let seen = drive(sram_load_session(None), |a| match a {
        HwAction::Run(HwOp::LoadSramProgram { .. }) => HwEvent::Sram(SramOutcome::Executing),
        _ => HwEvent::Done,
    });
    assert_eq!(seen.last(), Some(&HwAction::Finish(Ok(()))));
}

#[test]
fn connect_failure_is_transport_error() {
    let seen = drive(sram_load_session(None), |a| match a {
        HwAction::Run(HwOp::Connect(_)) => HwEvent::Failed,
        _ => HwEvent::Done,
    });
    assert_eq!(
        seen[seen.len() - 2..],
        [HwAction::RemoveStrap(Strap::PinmuxTapRiscv), HwAction::Finish(Err(HwError::TransportError))]
    );
}

#[test]
fn empty_plan_finishes_at_once() {
    let mut s = HwSession::new(Vec::new(), Vec::new());
    assert_eq!(s.next(HwEvent::Done), HwAction::Finish(Ok(())));
    assert!(s.is_finished());
}
