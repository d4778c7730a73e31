use otlib_wrapper::checksum::{check_console_crc, crc_field_matches, parse_crc_field};
use otlib_wrapper::console::{
    accept_response, finish_receive, ConsoleMode, ConsolePhase, ConsoleSession, ConsoleStep,
};
use otlib_wrapper::error::ConsoleError;
use otlib_wrapper::frame::{fill_frames, DutSpiFrame, CONSOLE_BUFFER_MAX_SIZE};
use otlib_wrapper::response::{find_response, find_subsequence, Envelope, ResponseKind};

fn crc_of(data: &[u8]) -> u32 {
    crc::Crc::<u32>::new(&crc::CRC_32_ISO_HDLC).checksum(data)
}

fn frames(n: usize) -> Vec<DutSpiFrame> {
    (0..n).map(|_| DutSpiFrame::new()).collect()
}

fn joined(frames: &[DutSpiFrame], n: usize) -> Vec<u8> {
    let mut out = Vec::new();
    for f in &frames[..n] {
        out.extend_from_slice(&f.payload[..f.size]);
    }
    out
}

fn receive(sync: &[u8], chunks: &[&[u8]]) -> ConsoleStep {
    let mut s = ConsoleSession::new(ConsoleMode::Receive, sync.to_vec(), 1000, 0);
    let mut last = ConsoleStep::Continue;
    for (i, c) in chunks.iter().enumerate() {
        last = s.step(c, i as u64);
        if s.is_finished() {
            break;
        }
    }
    last
}

#[test]
fn receive_success_frame_after_sync() {
    let payload = br#"{"id":42}"#;
    let line = format!("RESP_OK:{{\"id\":42}} CRC:{}\n", crc_of(payload));
    let step = receive(b"CP:", &[b"boot log\nCP:", line.as_bytes()]);
    let env = match step {
        ConsoleStep::Matched(e) => e,
        other => panic!("unexpected step {:?}", other),
    };
    assert_eq!(env.kind, ResponseKind::Success);
    assert_eq!(env.payload, payload.to_vec());
    let mut fs = frames(2);
    assert_eq!(finish_receive(env, false, &mut fs), Ok(1));
    assert_eq!(fs[0].size, 9);
    assert_eq!(&fs[0].payload[..9], payload);
    assert_eq!(fs[1].size, 0);
}

#[test]
fn receive_failure_frame_is_remote_rejected() {
    let line = format!("RESP_ERR:bad_input CRC:{}\n", crc_of(b"bad_input"));
    let step = receive(b"", &[line.as_bytes()]);
    let env = match step {
        ConsoleStep::Matched(e) => e,
        other => panic!("unexpected step {:?}", other),
    };
    assert_eq!(env.kind, ResponseKind::Failure);
    let mut fs = frames(1);
    let before = fs[0].payload;
    assert_eq!(
        finish_receive(env, false, &mut fs),
        Err(ConsoleError::RemoteRejected(b"bad_input".to_vec()))
    );
    assert_eq!(fs[0].payload, before);
}

#[test]
fn receive_times_out_and_link_stays_usable() {
    let mut s = ConsoleSession::new(ConsoleMode::Receive, Vec::new(), 100, 0);
    assert_eq!(s.step(b"noise", 0), ConsoleStep::Continue);
    assert_eq!(s.step(b"more noise\n", 99), ConsoleStep::Continue);
    assert_eq!(s.step(b"", 100), ConsoleStep::Failed(ConsoleError::Timeout));
    assert!(s.is_finished());
    let line = format!("RESP_OK:x CRC:{}\n", crc_of(b"x"));
    let mut again = ConsoleSession::new(ConsoleMode::Receive, Vec::new(), 100, 200);
    assert!(matches!(again.step(line.as_bytes(), 210), ConsoleStep::Matched(_)));
}

#[test]
fn sync_marker_missed_is_sync_timeout() {
    let mut s = ConsoleSession::new(ConsoleMode::Wait, b"CP:".to_vec(), 50, 0);
    assert_eq!(s.step(b"C", 0), ConsoleStep::Continue);
    assert_eq!(s.step(b"P", 20), ConsoleStep::Continue);
    assert_eq!(s.step(b"", 50), ConsoleStep::Failed(ConsoleError::SyncTimeout));
}

#[test]
fn sync_marker_split_across_reads() {
    let mut s = ConsoleSession::new(ConsoleMode::Send, b"CP:".to_vec(), 50, 0);
    assert_eq!(s.step(b"xxC", 0), ConsoleStep::Continue);
    assert_eq!(s.step(b"P:rest", 10), ConsoleStep::Synced);
    assert_eq!(s.phase, ConsolePhase::Finished);
    assert_eq!(s.buffer, b"rest".to_vec());
}

#[test]
fn empty_sync_marker_is_found_at_once() {
    let mut s = ConsoleSession::new(ConsoleMode::Send, Vec::new(), 0, 0);
    assert_eq!(s.step(b"", 0), ConsoleStep::Synced);
}

#[test]
fn response_in_same_read_as_sync_marker() {
    let line = format!("CP:RESP_OK:abc CRC:{}\n", crc_of(b"abc"));
    let step = receive(b"CP:", &[line.as_bytes()]);
    assert!(matches!(step, ConsoleStep::Matched(ref e) if e.payload == b"abc".to_vec()));
}

#[test]
fn response_before_sync_marker_is_ignored() {
    let line = format!("RESP_OK:old CRC:{}\nCP:", crc_of(b"old"));
    let mut s = ConsoleSession::new(ConsoleMode::Receive, b"CP:".to_vec(), 100, 0);
    assert_eq!(s.step(line.as_bytes(), 0), ConsoleStep::Continue);
    assert_eq!(s.phase, ConsolePhase::Interacting);
}

#[test]
fn skip_crc_accepts_wrong_crc_unmodified() {
    let line = b"RESP_OK:{\"a\":1} CRC:12345\n";
    let env = find_response(line).unwrap();
    let mut fs = frames(1);
    assert_eq!(finish_receive(env, true, &mut fs), Ok(1));
    assert_eq!(&fs[0].payload[..fs[0].size], b"{\"a\":1}");
}

#[test]
fn wrong_crc_is_crc_mismatch() {
    let env = find_response(b"RESP_OK:{\"a\":1} CRC:12345\n").unwrap();
    let mut fs = frames(1);
    assert_eq!(finish_receive(env, false, &mut fs), Err(ConsoleError::CrcMismatch));
    assert_eq!(fs[0].size, 0);
}

#[test]
fn crc_field_out_of_range_is_mismatch() {
    assert_eq!(parse_crc_field(b"4294967295"), Some(u32::MAX));
    assert_eq!(parse_crc_field(b"4294967296"), None);
    assert_eq!(parse_crc_field(b"99999999999999999999"), None);
    assert_eq!(parse_crc_field(b""), None);
    assert_eq!(parse_crc_field(b"12a"), None);
    assert_eq!(parse_crc_field(b"007"), Some(7));
    assert_eq!(check_console_crc(b"x", b"99999999999"), Err(ConsoleError::CrcMismatch));
}

#[test]
fn crc_field_with_leading_plus() {
    assert_eq!(parse_crc_field(b"+3421780262"), Some(3421780262));
    assert_eq!(parse_crc_field(b"+0"), Some(0));
    assert_eq!(parse_crc_field(b"+"), None);
    assert_eq!(parse_crc_field(b"++1"), None);
    assert_eq!(parse_crc_field(b"-1"), None);
    assert_eq!(parse_crc_field(b"1+"), None);
    assert_eq!(parse_crc_field(b"+4294967296"), None);
    assert_eq!(check_console_crc(b"123456789", b"+3421780262"), Ok(()));
    assert_eq!(check_console_crc(b"123456789", b"+"), Err(ConsoleError::CrcMismatch));
}

#[test]
fn crc32_check_value() {
    assert_eq!(check_console_crc(b"123456789", b"3421780262"), Ok(()));
    assert_eq!(check_console_crc(b"123456789", b"123456789"), Err(ConsoleError::CrcMismatch));
    assert!(crc_field_matches(b"3421780262", 0xCBF4_3926));
    assert!(!crc_field_matches(b"3421780261", 0xCBF4_3926));
}

#[test]
fn crc_is_deterministic_and_sees_single_byte_changes() {
    let p = br#"{"id":42,"name":"device"}"#.to_vec();
    let c = crc_of(&p);
    assert_eq!(c, crc_of(&p));
    let field = c.to_string();
    assert_eq!(check_console_crc(&p, field.as_bytes()), Ok(()));
    for i in 0..p.len() {
        for delta in [1u8, 0x80, 0xff] {
            let mut q = p.clone();
            q[i] = q[i].wrapping_add(delta);
            assert_ne!(crc_of(&q), c);
            assert_eq!(check_console_crc(&q, field.as_bytes()), Err(ConsoleError::CrcMismatch));
        }
    }
}

#[test]
fn accept_response_uses_given_verdict() {
    let env = Envelope { kind: ResponseKind::Success, payload: b"hi".to_vec(), crc: b"1".to_vec() };
    let mut fs = frames(1);
    assert_eq!(accept_response(env, true, &mut fs), Ok(1));
    let env = Envelope { kind: ResponseKind::Success, payload: b"hi".to_vec(), crc: b"1".to_vec() };
    assert_eq!(accept_response(env, false, &mut fs), Err(ConsoleError::CrcMismatch));
}

#[test]
fn parse_payload_containing_crc_text() {
    let env = find_response(b"RESP_OK:a CRC:1 CRC:22\n").unwrap();
    assert_eq!(env.payload, b"a CRC:1".to_vec());
    assert_eq!(env.crc, b"22".to_vec());
}

#[test]
fn parse_needs_digits_and_newline() {
    assert!(find_response(b"RESP_OK:a CRC:\n").is_none());
    assert!(find_response(b"RESP_OK:a CRC:12").is_none());
    assert!(find_response(b"RESP_OK:a CRC:12x\n").is_none());
    assert!(find_response(b"RESP_OK:a\n CRC:12\n").is_none());
    let env = find_response(b"RESP_OK: CRC:0\n").unwrap();
    assert_eq!(env.payload, Vec::<u8>::new());
}

#[test]
fn parse_skips_broken_line_for_later_one() {
    let env = find_response(b"RESP_OK:bad\nRESP_OK:good CRC:5\n").unwrap();
    assert_eq!(env.payload, b"good".to_vec());
}

#[test]
fn parse_success_wins_over_failure() {
    let env = find_response(b"RESP_ERR:e CRC:1\nRESP_OK:o CRC:2\n").unwrap();
    assert_eq!(env.kind, ResponseKind::Success);
    assert_eq!(env.payload, b"o".to_vec());
}

#[test]
fn find_subsequence_positions() {
    assert_eq!(find_subsequence(b"abcabc", b"ca"), Some(2));
    assert_eq!(find_subsequence(b"abc", b""), Some(0));
    assert_eq!(find_subsequence(b"ab", b"abc"), None);
    assert_eq!(find_subsequence(b"abc", b"bd"), None);
}

#[test]
fn chunking_exact_counts_and_reassembly() {
    for len in [0usize, 1, 2019, 2020, 2021, 4040, 4041, 6000] {
        let payload: Vec<u8> = (0..len).map(|i| (i % 251) as u8).collect();
        let expected = if len == 0 { 1 } else { (len + CONSOLE_BUFFER_MAX_SIZE - 1) / CONSOLE_BUFFER_MAX_SIZE };
        let mut fs = frames(expected + 1);
        let n = fill_frames(&mut fs, &payload).unwrap();
        assert_eq!(n, expected);
        for (i, f) in fs[..n].iter().enumerate() {
            if i + 1 < n {
                assert_eq!(f.size, CONSOLE_BUFFER_MAX_SIZE);
            } else {
                assert!(f.size <= CONSOLE_BUFFER_MAX_SIZE);
                assert_eq!(f.size == 0, len == 0);
            }
        }
        assert_eq!(fs[n].size, 0);
        assert_eq!(joined(&fs, n), payload);
    }
}

#[test]
fn chunking_keeps_stale_bytes_past_size() {
    let mut fs = frames(1);
    fs[0].payload[5] = 7;
    fs[0].size = 99;
    assert_eq!(fill_frames(&mut fs, b"abc"), Ok(1));
    assert_eq!(fs[0].size, 3);
    assert_eq!(&fs[0].payload[..3], b"abc");
    assert_eq!(fs[0].payload[5], 7);
}

#[test]
fn too_few_frames_writes_nothing() {
    let payload = vec![9u8; 2 * CONSOLE_BUFFER_MAX_SIZE + 1];
    let mut fs = frames(2);
    fs[0].payload[0] = 1;
    fs[1].size = 4;
    assert_eq!(
        fill_frames(&mut fs, &payload),
        Err(ConsoleError::InsufficientFrameCapacity { needed: 3, available: 2 })
    );
    assert_eq!(fs[0].payload[0], 1);
    assert_eq!(fs[0].payload[1], 0);
    assert_eq!(fs[1].size, 4);
    let mut none: Vec<DutSpiFrame> = Vec::new();
    assert_eq!(
        fill_frames(&mut none, b""),
        Err(ConsoleError::InsufficientFrameCapacity { needed: 1, available: 0 })
    );
}

#[test]
fn receive_rejects_long_payload_for_small_buffer() {
    let payload = vec![b'a'; CONSOLE_BUFFER_MAX_SIZE + 1];
    let mut line = b"RESP_OK:".to_vec();
    line.extend_from_slice(&payload);
    line.extend_from_slice(format!(" CRC:{}\n", crc_of(&payload)).as_bytes());
    let env = find_response(&line).unwrap();
    let mut fs = frames(1);
    assert_eq!(
        finish_receive(env, false, &mut fs),
        Err(ConsoleError::InsufficientFrameCapacity { needed: 2, available: 1 })
    );
    assert_eq!(fs[0].size, 0);
}
