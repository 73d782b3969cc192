use bastion_http::artifact_reader::{
    check_finished_part, ChunkBuffer, PartHashAlg, PartSpec, PartsNext, PartsState, ReadStep, PULL_MAX_BYTES,
};
use bastion_http::dashboard::{notification_time_text, trend_window, UTC_MAX_TS, UTC_MIN_TS};
use bastion_http::notification_destinations::{
    destination_path, destination_secret_kind, require_destination_found, test_message, NotifyChannel,
};

const ABC_BLAKE3: &str = "6437b3ac38465133ffb63b75273a8db548c558465d79db03fd359c6cd5bd9d85";

#[test]
fn trend_window_covers_the_last_seven_utc_days() {
    let w = trend_window(1_700_000_000);
    assert_eq!(w.start_ts, 1_699_401_600);
    assert_eq!(
        w.days,
        vec!["2023-11-08", "2023-11-09", "2023-11-10", "2023-11-11", "2023-11-12", "2023-11-13", "2023-11-14"]
    );
    let w = trend_window(86_400 * 10);
    assert_eq!(w.start_ts, 86_400 * 4);
    assert_eq!(w.days[0], "1970-01-05");
    assert_eq!(w.days[6], "1970-01-11");
}

#[test]
fn notification_time_is_utc_or_the_bare_timestamp() {
    assert!(notification_time_text(0).starts_with("1970-01-01 "));
    assert!(notification_time_text(UTC_MAX_TS).starts_with("9999-12-31 "));
    assert!(notification_time_text(UTC_MIN_TS).starts_with("-9999-01-01 "));
    assert_eq!(notification_time_text(UTC_MAX_TS + 1), (UTC_MAX_TS + 1).to_string());
    assert_eq!(notification_time_text(UTC_MIN_TS - 1), (UTC_MIN_TS - 1).to_string());
    assert_eq!(notification_time_text(i64::MAX), "9223372036854775807");
}

#[test]
fn destination_paths_are_checked() {
    let (c, n) = destination_path("wecom_bot", "  ops ").unwrap();
    assert_eq!((c, n.as_str()), (NotifyChannel::WecomBot, "ops"));
    assert_eq!(destination_path("email", "mail").unwrap().0, NotifyChannel::Email);
    let e = destination_path("sms", "x").unwrap_err();
    assert_eq!(e.code, "invalid_channel");
    let e = destination_path("email", "   ").unwrap_err();
    assert_eq!((e.status, e.code.as_str(), e.message.as_str()), (400, "invalid_name", "Destination name is required"));
    assert!(e.details.is_some());
    assert!(require_destination_found(true).is_ok());
    assert_eq!(require_destination_found(false).unwrap_err().status, 404);
    assert_eq!(destination_secret_kind(NotifyChannel::Email), "smtp");
    assert_eq!(destination_secret_kind(NotifyChannel::WecomBot), "wecom_bot");
}

#[test]
fn test_messages_name_destination_and_time() {
    let m = test_message(NotifyChannel::WecomBot, "ops", "T");
    assert_eq!(m.subject, None);
    assert_eq!(m.body, "**Bastion test notification**\n> Destination: ops\n> Time: T\n");
    let m = test_message(NotifyChannel::Email, "mail", "T");
    assert_eq!(m.subject.as_deref(), Some("Bastion test notification"));
    assert_eq!(m.body, "Bastion test notification\n\nDestination: mail\nTime: T\n");
}

#[test]
fn chunk_buffer_hands_out_bytes_in_order() {
    let mut b = ChunkBuffer::new();
    match b.step(0) {
        ReadStep::Data(d) => assert!(d.is_empty()),
        other => panic!("unexpected {:?}", other),
    }
    match b.step(5_000_000) {
        ReadStep::Pull(n) => assert_eq!(n, PULL_MAX_BYTES),
        other => panic!("unexpected {:?}", other),
    }
    b.fill(b"hello".to_vec(), false);
    let mut got = Vec::new();
    match b.step(3) {
        ReadStep::Data(d) => got.extend(d),
        other => panic!("unexpected {:?}", other),
    }
    match b.step(10) {
        ReadStep::Data(d) => got.extend(d),
        other => panic!("unexpected {:?}", other),
    }
    assert_eq!(got, b"hello".to_vec());
    match b.step(4) {
        ReadStep::Pull(n) => assert_eq!(n, 4),
        other => panic!("unexpected {:?}", other),
    }
    b.fill(b"!".to_vec(), true);
    match b.step(4) {
        ReadStep::Data(d) => assert_eq!(d, b"!".to_vec()),
        other => panic!("unexpected {:?}", other),
    }
    assert!(matches!(b.step(4), ReadStep::Eof));
}

fn part(name: &str, size: u64, hash: &str) -> PartSpec {
    PartSpec { name: name.to_string(), size, hash_alg: PartHashAlg::Blake3, hash: hash.to_string() }
}

#[test]
fn parts_are_opened_read_and_checked() {
    let mut s = PartsState::new(vec![part("p1", 3, ABC_BLAKE3), part("p2", 3, "00")]);
    match s.next() {
        PartsNext::Open(n) => assert_eq!(n, "p1"),
        other => panic!("unexpected {:?}", other),
    }
    s.opened(None, Some(3)).unwrap();
    assert!(matches!(s.next(), PartsNext::Read));
    s.took(b"ab").unwrap();
    s.took(b"c").unwrap();
    s.finish().unwrap();
    match s.next() {
        PartsNext::Open(n) => assert_eq!(n, "p2"),
        other => panic!("unexpected {:?}", other),
    }
    let e = s.opened(Some("disk gone"), None).unwrap_err();
    assert!(!e.invalid_data);
    assert_eq!(e.message, "agent open part p2 failed: disk gone");
    let e = s.opened(Some("  "), Some(4)).unwrap_err();
    assert!(e.invalid_data);
    assert_eq!(e.message, "part size mismatch for p2: expected 3, got 4");
    s.opened(Some(""), None).unwrap();
    s.took(b"abc").unwrap();
    let e = s.finish().unwrap_err();
    assert_eq!(e.message, format!("part hash mismatch for p2: expected 00, got {}", ABC_BLAKE3));
    assert!(matches!(s.next(), PartsNext::Finished));
}

#[test]
fn parts_refuse_extra_or_missing_bytes() {
    let mut s = PartsState::new(vec![part("p1", 2, ABC_BLAKE3)]);
    s.opened(None, None).unwrap();
    let e = s.took(b"abc").unwrap_err();
    assert_eq!(e.message, "part size overflow for p1: expected 2, got >2");
    let mut s = PartsState::new(vec![part("p1", 5, ABC_BLAKE3)]);
    s.opened(None, None).unwrap();
    s.took(b"abc").unwrap();
    assert_eq!(s.finish().unwrap_err().message, "part read size mismatch for p1: expected 5, got 3");
    assert!(s.finish().is_ok());
    let other = PartSpec { name: "p".to_string(), size: 0, hash_alg: PartHashAlg::Other("Sha256".to_string()), hash: String::new() };
    assert_eq!(check_finished_part(&other, 0, "").unwrap_err().message, "unsupported part hash algorithm: Sha256");
}

use bastion_http::run_stream::{on_live_event, on_status_check, on_stored_batch, on_stored_event, run_stream_start};

#[test]
fn run_streams_send_each_event_once_in_order() {
    let s = run_stream_start(Some(-5));
    assert_eq!(s.last_seq, 0);
    let s = run_stream_start(Some(7));
    assert_eq!(s.last_seq, 7);
    let s = on_stored_event(s, 9);
    let s = on_stored_batch(s, true);
    assert_eq!((s.last_seq, s.idle_after_end), (9, 0));
    let (s, sent) = on_live_event(s, 9);
    assert!(!sent);
    let (s, sent) = on_live_event(s, 10);
    assert!(sent);
    assert_eq!(s.last_seq, 10);
    let (s, sent) = on_live_event(s, 4);
    assert!(!sent);
    assert_eq!(s.last_seq, 10);
}

#[test]
fn run_streams_close_after_ten_checks_of_an_ended_run() {
    let mut s = run_stream_start(None);
    let mut closed_at = None;
    for i in 1..=20 {
        if i == 3 {
            let (next, stop) = on_status_check(s, false);
            assert!(!stop);
            assert_eq!(next.idle_after_end, 0);
            s = next;
            continue;
        }
        let (next, stop) = on_status_check(s, true);
        s = next;
        if stop {
            closed_at = Some(i);
            break;
        }
    }
    assert_eq!(closed_at, Some(13));
}
