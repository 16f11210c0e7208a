use luau_lifter::server::{
    announced_length_exceeds, decode_request_body, Base64Error, ServerConfig, format_bytes, outcome_response, RequestOutcome, format_limit, mib_setting, panic_message,
    port_setting, ReceiveState, ReceiveStep, MIB, RECEIVE_PROGRESS_BYTES,
};
use std::any::Any;

fn message_of(payload: Box<dyn Any + Send>) -> String {
    panic_message(
        payload.downcast_ref::<String>().cloned(),
        payload.downcast_ref::<&str>().copied(),
    )
}

#[test]
fn formats_diagnostic_sizes() {
    assert_eq!(format_bytes(12), "12 B");
    assert_eq!(format_bytes(1536), "1.50 KiB");
    assert_eq!(format_bytes(2 * MIB), "2.00 MiB");
    assert_eq!(format_limit(0), "unlimited");
}

#[test]
fn extracts_string_panic_messages() {
    assert_eq!(message_of(Box::new("boom")), "boom");
    assert_eq!(message_of(Box::new("boom".to_string())), "boom");
}

#[test]
fn unknown_panic_payloads_have_a_fixed_message() {
    assert_eq!(message_of(Box::new(42u32)), "unknown panic payload");
}

fn float_text(bytes: usize) -> String {
    if bytes >= MIB {
        format!("{:.2} MiB", bytes as f64 / MIB as f64)
    } else if bytes >= 1024 {
        format!("{:.2} KiB", bytes as f64 / 1024.0)
    } else {
        format!("{bytes} B")
    }
}

#[test]
fn byte_counts_match_float_formatting() {
    let mut samples: Vec<usize> = (0..5000).collect();
    samples.extend((1020..1100).map(|k| k * 1024 / 1000));
    for k in 0..4096usize {
        samples.push(1024 + k * 37);
        samples.push(MIB + k * 5243);
        samples.push(k * 1024 * 1024 / 800);
    }
    // ties at two decimals: x.xx5 exactly
    samples.extend([1029 + 1024, 1152, 1035, 1050, 1075, 1101, 1127]);
    samples.extend([
        usize::MAX,
        usize::MAX - 1,
        1usize << 53,
        (1usize << 53) + 1,
        (1usize << 53) + 3,
        (1usize << 54) + 2,
        (1usize << 54) + 6,
        (1usize << 63) + (1usize << 10),
        (1usize << 63) + (1usize << 10) + 1,
        (1usize << 63) + (3usize << 10),
        u32::MAX as usize,
        5 * MIB + MIB / 200,
        3 * MIB + MIB / 8,
        7 * MIB + 5 * MIB / 8,
    ]);
    let mut state: u64 = 0x9e37_79b9_7f4a_7c15;
    for _ in 0..20000 {
        state ^= state << 13;
        state ^= state >> 7;
        state ^= state << 17;
        let shift = (state % 64) as u32;
        samples.push((state >> shift) as usize);
    }
    for bytes in samples {
        assert_eq!(format_bytes(bytes), float_text(bytes), "bytes = {bytes}");
    }
}

#[test]
fn reads_mib_settings() {
    assert_eq!(mib_setting(None, 64), (64 * MIB, false));
    assert_eq!(mib_setting(Some("3"), 64), (3 * MIB, false));
    assert_eq!(mib_setting(Some("+3"), 64), (3 * MIB, false));
    assert_eq!(mib_setting(Some("0"), 64), (0, false));
    assert_eq!(mib_setting(Some(" 3"), 64), (64 * MIB, true));
    assert_eq!(mib_setting(Some("-1"), 8), (8 * MIB, true));
    assert_eq!(mib_setting(Some(""), 8), (8 * MIB, true));
    assert_eq!(mib_setting(Some("18446744073709551615"), 8), (usize::MAX, false));
    assert_eq!(mib_setting(Some("18446744073709551616"), 8), (8 * MIB, true));
}

#[test]
fn reads_port_settings() {
    assert_eq!(port_setting(None), (9002, false));
    assert_eq!(port_setting(Some("8080")), (8080, false));
    assert_eq!(port_setting(Some("0")), (9002, true));
    assert_eq!(port_setting(Some("65536")), (9002, true));
    assert_eq!(port_setting(Some("port")), (9002, true));
}

#[test]
fn refuses_announced_lengths_over_the_limit() {
    assert!(announced_length_exceeds(10, Some(11)));
    assert!(!announced_length_exceeds(10, Some(10)));
    assert!(!announced_length_exceeds(10, None));
    assert!(!announced_length_exceeds(0, Some(usize::MAX)));
}

#[test]
fn counts_body_chunks_against_the_limit() {
    let mut state = ReceiveState::new();
    assert_eq!(state.receive(100, 60), ReceiveStep::Accepted { report_progress: false });
    assert_eq!(state.receive(100, 40), ReceiveStep::Accepted { report_progress: false });
    assert_eq!(state.received, 100);
    assert_eq!(state.receive(100, 1), ReceiveStep::TooLarge);
    assert_eq!(state.received, 100);
}

#[test]
fn reports_progress_every_eight_mib() {
    let mut state = ReceiveState::new();
    assert_eq!(
        state.receive(0, RECEIVE_PROGRESS_BYTES - 1),
        ReceiveStep::Accepted { report_progress: false }
    );
    assert_eq!(state.receive(0, 1), ReceiveStep::Accepted { report_progress: true });
    assert_eq!(state.next_progress, 2 * RECEIVE_PROGRESS_BYTES);
    assert_eq!(
        state.receive(0, 3 * RECEIVE_PROGRESS_BYTES),
        ReceiveStep::Accepted { report_progress: true }
    );
    assert_eq!(state.next_progress, 5 * RECEIVE_PROGRESS_BYTES);
}

#[test]
fn decodes_base64_request_bodies() {
    assert_eq!(decode_request_body(b"CQMA").unwrap(), vec![9, 3, 0]);
    assert_eq!(decode_request_body(b"").unwrap(), Vec::<u8>::new());
    assert!(decode_request_body(b"CQMAC").is_err());
    assert!(decode_request_body(b"CQ!A").is_err());
}

#[test]
fn valid_mib_settings_ignore_the_default() {
    assert_eq!(mib_setting(Some("2"), usize::MAX), (2 * MIB, false));
    assert_eq!(mib_setting(Some("18446744073709551615"), usize::MAX), (usize::MAX, false));
}

#[test]
fn builds_responses_for_each_outcome() {
    assert_eq!(
        outcome_response(7, 64 * MIB, RequestOutcome::AnnouncedTooLarge),
        (413, "request 7 rejected: encoded body exceeds the 64.00 MiB limit".to_string())
    );
    assert_eq!(
        outcome_response(8, 1536, RequestOutcome::ReceivedTooLarge),
        (
            413,
            "request 8 rejected while receiving data: encoded body exceeded the 1.50 KiB limit"
                .to_string()
        )
    );
    assert_eq!(
        outcome_response(9, 0, RequestOutcome::InvalidBase64("Invalid byte 33, offset 2.".to_string())),
        (400, "request 9: invalid Base64 bytecode: Invalid byte 33, offset 2.".to_string())
    );
    assert_eq!(
        outcome_response(10, 0, RequestOutcome::BodyReadFailed("reset".to_string())),
        (400, "request 10: failed while reading body: reset".to_string())
    );
    assert_eq!(
        outcome_response(11, 0, RequestOutcome::Base64WorkerFailed("cancelled".to_string())),
        (500, "request 11: Base64 worker failed: cancelled".to_string())
    );
    assert_eq!(
        outcome_response(12, 0, RequestOutcome::DecompilerPanicked("boom".to_string())),
        (500, "request 12: decompiler panicked: boom".to_string())
    );
    assert_eq!(
        outcome_response(13, 0, RequestOutcome::DecompilerWorkerFailed("cancelled".to_string())),
        (500, "request 13: decompiler worker failed: cancelled".to_string())
    );
    assert_eq!(
        outcome_response(14, 0, RequestOutcome::Decompiled("local x = 1".to_string())),
        (200, "local x = 1".to_string())
    );
}

#[test]
fn names_base64_errors_as_base64_does() {
    let e = decode_request_body(b"CQ!A").unwrap_err();
    assert_eq!(e, Base64Error::InvalidByte { offset: 2, byte: b'!' });
    assert_eq!(e.message(), "Invalid byte 33, offset 2.");
    let e = decode_request_body(b"CQMAC").unwrap_err();
    assert_eq!(e, Base64Error::InvalidLength);
    assert_eq!(e.message(), "Encoded text cannot have a 6-bit remainder.");
    let e = decode_request_body(b"CR==").unwrap_err();
    assert_eq!(e, Base64Error::InvalidLastSymbol { offset: 1, byte: b'R' });
    assert_eq!(e.message(), "Invalid last symbol 82, offset 1.");
}

#[test]
fn warning_threshold_does_not_change_responses() {
    let quiet = ServerConfig { max_body_bytes: 1024, warn_bytes: 0 };
    let loud = ServerConfig { max_body_bytes: 1024, warn_bytes: 1 };
    for outcome in [RequestOutcome::ReceivedTooLarge, RequestOutcome::Decompiled("x".to_string())] {
        let again = match &outcome {
            RequestOutcome::ReceivedTooLarge => RequestOutcome::ReceivedTooLarge,
            _ => RequestOutcome::Decompiled("x".to_string()),
        };
        assert_eq!(quiet.response(3, outcome), loud.response(3, again));
    }
}
