use collections::connection::{
    ping_frame, HeartbeatAction, HeartbeatEvent, HeartbeatState, Inbound, WebSocketStream, PONG_TIMEOUT_SECS,
};
use collections::frame::{decode_frame, encode_frame, encode_websocket_message, FrameError, TEXT_FRAME};

#[test]
fn short_text_frame_round_trips_for_every_short_length() {
    for n in 0..126usize {
        let text: String = "x".repeat(n);
        let frame = encode_websocket_message(&text);
        assert_eq!(frame.len(), n + 2);
        let d = decode_frame(&frame).ok().unwrap();
        assert_eq!(d.opcode, 1);
        assert!(!d.masked);
        assert_eq!(d.length as usize, n);
        assert_eq!(d.payload, text.as_bytes().to_vec());
    }
}

#[test]
fn encode_small_frame_exact_bytes() {
    assert_eq!(encode_websocket_message("hi"), vec![0x81, 2, b'h', b'i']);
    assert_eq!(encode_websocket_message(""), vec![0x81, 0]);
}

#[test]
fn encode_medium_frame_uses_sixteen_bit_length() {
    let payload = vec![7u8; 126];
    let f = encode_frame(TEXT_FRAME, &payload);
    assert_eq!(&f[..4], &[0x81, 0x7e, 0x00, 0x7e]);
    assert_eq!(f.len(), 4 + 126);
    let payload = vec![1u8; 0xffff];
    let f = encode_frame(TEXT_FRAME, &payload);
    assert_eq!(&f[..4], &[0x81, 0x7e, 0xff, 0xff]);
}

#[test]
fn encode_large_frame_uses_big_endian_sixty_four_bit_length() {
    let payload = vec![0u8; 0x10203];
    let f = encode_frame(TEXT_FRAME, &payload);
    assert_eq!(&f[..10], &[0x81, 0x7f, 0, 0, 0, 0, 0, 0x01, 0x02, 0x03]);
    assert_eq!(f.len(), 10 + 0x10203);
}

#[test]
fn decode_rejects_short_extended_and_mismatched_frames() {
    assert!(matches!(decode_frame(&[0x81]), Err(FrameError::TooShort)));
    assert!(matches!(decode_frame(&[0x81, 0x7e, 0, 1, 0]), Err(FrameError::ExtendedLength)));
    assert!(matches!(decode_frame(&[0x81, 3, b'a']), Err(FrameError::LengthMismatch)));
}

#[test]
fn decode_unmasks_masked_payload() {
    let key = [1u8, 2, 3, 4];
    let text = b"hello";
    let mut f = vec![0x81, 0x80 | 5];
    f.extend_from_slice(&key);
    for (i, b) in text.iter().enumerate() {
        f.push(b ^ key[i % 4]);
    }
    let d = decode_frame(&f).ok().unwrap();
    assert!(d.masked);
    assert_eq!(d.length, 5);
    assert_eq!(d.payload, text.to_vec());
}

#[test]
fn ping_frame_bytes() {
    assert_eq!(ping_frame(), vec![0x89, 0]);
    assert_eq!(PONG_TIMEOUT_SECS, 10);
}

#[test]
fn heartbeat_fails_without_pong() {
    let (mut ws, first) = WebSocketStream::new(3);
    assert_eq!(first, HeartbeatAction::SendPing);
    assert_eq!(ws.heartbeat, HeartbeatState::AwaitingPong);
    assert_eq!(ws.step(HeartbeatEvent::DeadlineElapsed), HeartbeatAction::Fail);
    assert_eq!(ws.heartbeat, HeartbeatState::Failed);
    assert_eq!(ws.step(HeartbeatEvent::DeadlineElapsed), HeartbeatAction::Nothing);
    assert_eq!(ws.step(HeartbeatEvent::PongReceived), HeartbeatAction::Nothing);
    assert_eq!(ws.heartbeat, HeartbeatState::Failed);
}

#[test]
fn heartbeat_continues_while_pongs_arrive() {
    let (mut ws, _) = WebSocketStream::new(0);
    for _ in 0..100 {
        let pong = ws.send_bytes(&[0x8a, 0]);
        assert!(matches!(pong, Inbound::Pong));
        assert_eq!(ws.heartbeat, HeartbeatState::Idle);
        assert_eq!(ws.step(HeartbeatEvent::DeadlineElapsed), HeartbeatAction::SendPing);
        assert_eq!(ws.heartbeat, HeartbeatState::AwaitingPong);
    }
}

#[test]
fn inbound_frames_are_dispatched_by_opcode() {
    let (mut ws, _) = WebSocketStream::new(1);
    match ws.send_bytes(&[0x89, 2, b'o', b'k']) {
        Inbound::Reply(f) => assert_eq!(f, vec![0x8a, 2, b'o', b'k']),
        _ => panic!("ping not answered"),
    }
    assert!(matches!(ws.send_bytes(&[0x88, 0]), Inbound::Close));
    assert!(matches!(ws.send_bytes(&[0x81, 1, b'a']), Inbound::Data));
    assert!(matches!(ws.send_bytes(&[0x82, 0]), Inbound::Data));
    assert!(matches!(ws.send_bytes(&[0x80, 0]), Inbound::Data));
    assert!(matches!(ws.send_bytes(&[0x83, 0]), Inbound::Unrecognized(3)));
    assert!(matches!(ws.send_bytes(&[0x8a]), Inbound::Malformed(FrameError::TooShort)));
    assert_eq!(ws.heartbeat, HeartbeatState::AwaitingPong);
}
