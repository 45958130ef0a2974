//! How the primary and the other nodes talk to each other.
use mill_node::config::NodeId;
use mill_node::error::NodeError;
use mill_node::net::{IpAddr, SocketAddr};
use mill_node::rpc::codec::{encode_frame, FrameDecoder, FrameError, MAX_FRAME_SIZE};
use mill_node::rpc::protocol::{AuthRequest, AuthResponse};
use mill_node::rpc::reconnect::{
    connect, Connected, Reconnect, ReconnectAction, ReconnectEvent,
};
use mill_node::rpc::relay::{relay, RelayAction, RelayEvent};
use mill_node::rpc::router::{
    auth_write_failed, broadcast, do_auth, sent, CommandRouter, FirstAnswer,
};
use mill_node::rpc::server::{answer_failed, authenticate, FirstMessage, Handshake, RpcServer};
use mill_node::time::Duration;

#[test]
fn frames_round_trip() {
    let payload = vec![7u8; 300];
    let frame = encode_frame(&payload).unwrap();
    assert_eq!(&frame[0..4], &[0, 0, 1, 44]);
    let mut decoder = FrameDecoder::new();
    decoder.feed(&frame);
    assert_eq!(decoder.next_frame(), Ok(Some(payload)));
    assert_eq!(decoder.next_frame(), Ok(None));
    assert_eq!(decoder.finish(), Ok(()));
}

#[test]
fn oversize_frame_rejected_on_read() {
    let mut decoder = FrameDecoder::new();
    // A length header claiming a huge payload.
    let fake_len: u32 = MAX_FRAME_SIZE + 1;
    decoder.feed(&fake_len.to_be_bytes().to_vec());
    let err = decoder.next_frame().unwrap_err();
    assert_eq!(err, FrameError::TooLarge { len: fake_len as u64 });
    assert!(err.to_text().contains("16777217"));
}

#[test]
fn oversize_payloads_are_not_written() {
    let payload = vec![0u8; MAX_FRAME_SIZE as usize + 1];
    assert_eq!(
        encode_frame(&payload),
        Err(FrameError::TooLarge { len: MAX_FRAME_SIZE as u64 + 1 })
    );
    assert!(encode_frame(&vec![0u8; MAX_FRAME_SIZE as usize]).is_ok());
}

#[test]
fn eof_returns_none() {
    let mut decoder = FrameDecoder::new();
    assert_eq!(decoder.next_frame(), Ok(None));
    assert_eq!(decoder.finish(), Ok(()));
}

#[test]
fn streams_that_end_within_a_payload_are_truncated() {
    let mut decoder = FrameDecoder::new();
    decoder.feed(&vec![0, 0, 0, 3, 1]);
    assert_eq!(decoder.next_frame(), Ok(None));
    assert_eq!(decoder.finish(), Err(FrameError::Truncated));
}

#[test]
fn multiple_frames_round_trip() {
    let mut stream = vec![];
    for payload in [vec![1u8], vec![], vec![2, 3]] {
        stream.extend(encode_frame(&payload).unwrap());
    }
    // The bytes arrive one by one.
    let mut decoder = FrameDecoder::new();
    let mut frames = vec![];
    for byte in stream {
        decoder.feed(&vec![byte]);
        while let Some(frame) = decoder.next_frame().unwrap() {
            frames.push(frame);
        }
    }
    assert_eq!(frames, vec![vec![1], vec![], vec![2, 3]]);
}

fn node(name: &str) -> NodeId {
    NodeId(name.into())
}

#[test]
fn register_and_send() {
    let mut router = CommandRouter::new();
    router.register(node("node-1"), 16);
    assert_eq!(router.route(&node("node-1")), Ok(16));
    assert_eq!(sent(true), Ok(()));
    assert_eq!(sent(false), Err(NodeError::ChannelClosed));
}

#[test]
fn send_to_unknown_node_returns_unreachable() {
    let router = CommandRouter::new();
    let err = router.route(&node("ghost")).unwrap_err();
    assert!(matches!(err, NodeError::NodeUnreachable(ref s) if s == "ghost"));
}

#[test]
fn deregister_removes_node() {
    let mut router = CommandRouter::new();
    router.register(node("node-1"), 16);
    router.deregister(&node("node-1"));
    let err = router.route(&node("node-1")).unwrap_err();
    assert!(matches!(err, NodeError::NodeUnreachable(_)));
    assert_eq!(router.route_count(), 0);
}

#[test]
fn broadcast_sends_to_all() {
    let mut router = CommandRouter::new();
    router.register(node("a"), 1);
    router.register(node("b"), 2);
    assert_eq!(router.all_routes(), vec![1, 2]);
    assert_eq!(broadcast(&vec![true, true]), Ok(()));
}

#[test]
fn broadcast_continues_on_closed_channel() {
    // Every channel is tried, and the error comes at the end.
    assert_eq!(broadcast(&vec![false, true]), Err(NodeError::ChannelClosed));
    assert_eq!(broadcast(&vec![]), Ok(()));
}

#[test]
fn disconnecting_gives_the_connection_to_end() {
    let mut router = CommandRouter::new();
    router.wire(node("a"), 1, 100);
    assert_eq!(router.disconnect(&node("a")), Some(100));
    assert_eq!(router.disconnect(&node("a")), None);
    assert_eq!(router.route_count(), 0);
}

fn request(token: &str) -> FirstMessage {
    FirstMessage::Request(AuthRequest { token: token.into() })
}

#[test]
fn auth_handshake_success() {
    let expected = "secret".to_string();
    assert_eq!(
        authenticate(request("secret"), &expected),
        Handshake::Accept(AuthResponse { ok: true })
    );
}

#[test]
fn auth_rejection() {
    let expected = "secret".to_string();
    for wrong in ["wrong!", "secre", "secrets", ""] {
        match authenticate(request(wrong), &expected) {
            Handshake::Reject(answer, NodeError::BadRequest(words)) => {
                assert!(!answer.ok);
                assert_eq!(words, "invalid auth token");
            }
            other => panic!("unexpected outcome {other:?}"),
        }
    }
}

#[test]
fn connections_without_a_first_message_are_given_up() {
    let expected = "secret".to_string();
    assert_eq!(
        authenticate(FirstMessage::Closed, &expected),
        Handshake::Abort(NodeError::BadRequest("connection closed before auth".into()))
    );
    assert_eq!(
        authenticate(FirstMessage::Failed("reset".into()), &expected),
        Handshake::Abort(NodeError::BadRequest("auth read: reset".into()))
    );
    assert_eq!(
        answer_failed(&"reset".to_string()),
        NodeError::BadRequest("auth write: reset".into())
    );
}

#[test]
fn connect_auth_rejection() {
    let err = do_auth(FirstAnswer::Response(AuthResponse { ok: false })).unwrap_err();
    assert_eq!(err, NodeError::BadRequest("rpc: auth rejected".into()));
    assert!(do_auth(FirstAnswer::Response(AuthResponse { ok: true })).is_ok());
    assert_eq!(
        do_auth(FirstAnswer::Closed).unwrap_err(),
        NodeError::BadRequest("rpc: connection closed during auth".into())
    );
    assert_eq!(
        do_auth(FirstAnswer::Failed("x".into())).unwrap_err(),
        NodeError::BadRequest("rpc auth read: x".into())
    );
    assert_eq!(
        auth_write_failed(&"x".to_string()),
        NodeError::BadRequest("rpc auth write: x".into())
    );
}

#[test]
fn a_new_connection_takes_the_place_of_the_old_one() {
    let mut server = RpcServer::new();
    assert_eq!(server.accept(1), None);
    assert_eq!(server.accept(2), Some(1));
    // The end of the dropped one does not end the new one.
    server.closed(1);
    assert_eq!(server.current, Some(2));
    server.closed(2);
    assert_eq!(server.current, None);
}

#[test]
fn failed_connections_name_the_address() {
    let address = SocketAddr { ip: IpAddr::V4(0x0a00_0001), port: 4402 };
    assert_eq!(connect(address, Connected::Done), Ok(()));
    assert_eq!(
        connect(address, Connected::TimedOut),
        Err(NodeError::Bind {
            address: "10.0.0.1:4402".into(),
            source: "rpc connect timeout".into(),
        })
    );
    assert_eq!(
        connect(address, Connected::Failed("refused".into())),
        Err(NodeError::Bind { address: "10.0.0.1:4402".into(), source: "refused".into() })
    );
}

#[test]
fn waits_double_up_to_half_a_minute() {
    let (mut work, first) = Reconnect::begin();
    assert_eq!(first, ReconnectAction::Sleep(Duration::from_secs(1)));
    for seconds in [2, 4, 8, 16, 30, 30] {
        assert_eq!(work.step(ReconnectEvent::Slept), ReconnectAction::Connect);
        let action = work.step(ReconnectEvent::Connected { made: false });
        assert_eq!(action, ReconnectAction::Sleep(Duration::from_secs(seconds)));
    }
    work.step(ReconnectEvent::Slept);
    let action = work.step(ReconnectEvent::Connected { made: true });
    assert_eq!(action, ReconnectAction::Authenticate);
    let action = work.step(ReconnectEvent::Authenticated { accepted: true });
    assert_eq!(action, ReconnectAction::Wire);
}

#[test]
fn only_a_failed_write_loses_a_connection() {
    assert_eq!(relay(RelayEvent::Taken), RelayAction::Pass);
    assert_eq!(relay(RelayEvent::Passed), RelayAction::Take);
    assert_eq!(relay(RelayEvent::PassFailed), RelayAction::Stop { lost: true });
    assert_eq!(relay(RelayEvent::Ended), RelayAction::Stop { lost: false });
    assert_eq!(relay(RelayEvent::ReadFailed), RelayAction::Stop { lost: false });
    assert_eq!(relay(RelayEvent::Cancelled), RelayAction::Stop { lost: false });
}
