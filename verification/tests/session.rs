use rust_net::http::Pair;
use rust_net::websocket::cookie_header_value;
use rust_net::websocket::WsContext;
use rust_net::websocket::WsFrame;
use rust_net::websocket::WsMessage;
use rust_net::websocket::WsMessageData;
use rust_net::websocket::WsWriterMessage;

#[test]
fn scripted_sequence_in_order() {
    let mut s = WsContext::new();
    assert_eq!(s.get_message().message_type, 0);

    s.on_connect_ok();
    s.on_frame(WsFrame::Text(String::from("a")));
    s.on_frame(WsFrame::Binary(vec![1, 2, 3]));
    s.on_frame(WsFrame::Close);

    let m1 = s.get_message();
    assert_eq!(m1.message_type, 1);
    assert!(m1.data.is_empty());

    let m2 = s.get_message();
    assert_eq!(m2.message_type, 6);
    assert_eq!(m2.data, b"a".to_vec());

    let m3 = s.get_message();
    assert_eq!(m3.message_type, 7);
    assert_eq!(m3.data, vec![1, 2, 3]);

    let m4 = s.get_message();
    assert_eq!(m4.message_type, 3);
    assert_eq!(m4.data, b"close".to_vec());

    // no further events, ever
    assert_eq!(s.get_message().message_type, 0);
    assert_eq!(s.get_message().message_type, 0);
}

#[test]
fn handshake_failure_is_the_only_event() {
    let mut s = WsContext::new();
    s.on_connect_failed(String::from("bad gateway"));
    let m = s.get_message();
    assert_eq!(m.message_type, 2);
    assert_eq!(m.data, b"bad gateway".to_vec());
    assert_eq!(s.get_message().message_type, 0);
    // the connect task cannot resume twice
    s.on_connect_ok();
    assert_eq!(s.get_message().message_type, 0);
}

#[test]
fn events_stop_after_disconnect() {
    let mut s = WsContext::new();
    s.on_connect_ok();
    s.on_read_error(String::from("connection reset"));
    // frames observed after termination append nothing
    s.on_frame(WsFrame::Text(String::from("late")));
    s.on_frame(WsFrame::Ping);
    assert_eq!(s.get_message().message_type, 1);
    let m = s.get_message();
    assert_eq!(m.message_type, 3);
    assert_eq!(m.data, b"connection reset".to_vec());
    assert_eq!(s.get_message().message_type, 0);
}

#[test]
fn ping_pong_and_raw_frames() {
    let mut s = WsContext::new();
    s.on_connect_ok();
    s.on_frame(WsFrame::Ping);
    s.on_frame(WsFrame::Pong);
    s.on_frame(WsFrame::Raw);
    assert_eq!(s.get_message().message_type, 1);
    assert_eq!(s.get_message().message_type, 4);
    assert_eq!(s.get_message().message_type, 5);
    // a raw frame carries no event
    assert_eq!(s.get_message().message_type, 0);
}

#[test]
fn outbound_commands_flow_in_order() {
    let mut s = WsContext::new();
    // before connect success there is no channel: dropped silently
    s.send(vec![1]);
    assert!(s.next_command().is_none());

    s.on_connect_ok();
    s.send(vec![9, 9]);
    s.post_close();
    match s.next_command() {
        Some(WsWriterMessage::Send(data)) => assert_eq!(data, vec![9, 9]),
        _ => panic!("expected the send command first"),
    }
    assert!(matches!(s.next_command(), Some(WsWriterMessage::Close)));
    assert!(s.next_command().is_none());

    // the write loop acts on the close command
    s.on_close_command();
    assert_eq!(s.get_message().message_type, 1);
    let m = s.get_message();
    assert_eq!(m.message_type, 3);
    assert_eq!(m.data, b"proactively disconnected".to_vec());
}

#[test]
fn send_failure_ends_the_session() {
    let mut s = WsContext::new();
    s.on_connect_ok();
    s.on_send_failed(String::from("broken pipe"));
    assert_eq!(s.get_message().message_type, 1);
    let m = s.get_message();
    assert_eq!(m.message_type, 3);
    assert_eq!(m.data, b"broken pipe".to_vec());
    assert_eq!(s.get_message().message_type, 0);
}

#[test]
fn next_event_hands_out_values() {
    let mut s = WsContext::new();
    s.on_connect_ok();
    s.on_frame(WsFrame::Text(String::from("hi")));
    assert!(matches!(s.next_event(), Some(WsMessage::ConnectSuccess)));
    match s.next_event() {
        Some(WsMessage::RecvText(t)) => assert_eq!(t, "hi"),
        _ => panic!("expected the text event"),
    }
    assert!(s.next_event().is_none());
}

#[test]
fn message_data_packaging() {
    assert_eq!(WsMessageData::default().message_type, 0);
    assert!(WsMessageData::default().data.is_empty());

    let cases = [
        (WsMessage::ConnectSuccess, 1, Vec::new()),
        (WsMessage::ConnectFailed(String::from("x")), 2, b"x".to_vec()),
        (WsMessage::Disconnect(String::from("bye")), 3, b"bye".to_vec()),
        (WsMessage::RecvPing, 4, Vec::new()),
        (WsMessage::RecvPong, 5, Vec::new()),
        (WsMessage::RecvText(String::from("hello")), 6, b"hello".to_vec()),
        (WsMessage::RecvBinary(vec![0, 255]), 7, vec![0, 255]),
    ];
    for (msg, tag, payload) in cases {
        let d = WsMessageData::from(msg);
        assert_eq!(d.message_type, tag);
        assert_eq!(d.data, payload);
    }
}

#[test]
fn cookie_header_values_join_with_equals() {
    let pair = Pair {
        key: String::from("sid"),
        value: String::from("abc123"),
    };
    assert_eq!(cookie_header_value(&pair), "sid=abc123");
    let empty = Pair {
        key: String::from(""),
        value: String::from(""),
    };
    assert_eq!(cookie_header_value(&empty), "=");
}
