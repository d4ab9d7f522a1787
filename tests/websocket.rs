use fastrapi::upload::PyUploadFile;
use fastrapi::websocket::{
    client_state, pump_step, receive_bytes, receive_text, OpCode, PumpAction, PumpEvent,
    ReceiveError, WsMessage,
};

#[test]
fn echo_round_trip() {
    let inbound = pump_step(PumpEvent::Inbound(OpCode::Text, b"ping".to_vec()));
    assert!(!inbound.stop);
    let msg = match inbound.action {
        PumpAction::ToHandler(m) => m,
        _ => panic!("expected a message for the handler"),
    };
    let text = receive_text(Some(msg)).unwrap();
    assert_eq!(text, "ping");
    let out = pump_step(PumpEvent::Outbound(WsMessage::Text(text.into_bytes())));
    assert!(matches!(out.action, PumpAction::SendText(ref p) if p == b"ping"));
    assert!(!out.stop);
}

#[test]
fn close_ends_the_pump() {
    let step = pump_step(PumpEvent::Inbound(OpCode::Close, Vec::new()));
    assert!(matches!(step.action, PumpAction::ToHandler(WsMessage::Close)));
    assert!(step.stop);
    assert_eq!(receive_text(Some(WsMessage::Close)).unwrap_err(), ReceiveError::Closed);
    let out = pump_step(PumpEvent::Outbound(WsMessage::Close));
    assert!(matches!(out.action, PumpAction::SendClose));
    assert!(out.stop);
}

#[test]
fn pings_answered_locally() {
    let step = pump_step(PumpEvent::Inbound(OpCode::Ping, vec![1, 2]));
    assert!(matches!(step.action, PumpAction::Pong(ref p) if p == &vec![1, 2]));
    let pong = pump_step(PumpEvent::Inbound(OpCode::Pong, Vec::new()));
    assert!(matches!(pong.action, PumpAction::Ignore));
    assert!(pump_step(PumpEvent::HandlerGone).stop);
}

#[test]
fn receive_kinds() {
    assert_eq!(receive_text(Some(WsMessage::Binary(vec![1]))).unwrap_err(), ReceiveError::ExpectedText);
    assert_eq!(receive_text(Some(WsMessage::Text(vec![0xff]))).unwrap_err(), ReceiveError::InvalidUtf8);
    assert_eq!(receive_text(Some(WsMessage::Text("é".as_bytes().to_vec()))).unwrap(), "é");
    assert_eq!(receive_text(None).unwrap_err(), ReceiveError::Closed);
    assert_eq!(receive_bytes(Some(WsMessage::Binary(vec![3]))).unwrap(), vec![3]);
    assert_eq!(receive_bytes(Some(WsMessage::Text(vec![3]))).unwrap_err(), ReceiveError::ExpectedBinary);
    assert_eq!(client_state(true), 1);
    assert_eq!(client_state(false), 3);
}

#[test]
fn upload_file_cursor() {
    let mut f = PyUploadFile::new(Some("a.txt".to_string()), None, None);
    f.write(&b"hello".to_vec());
    assert_eq!(f.size, Some(5));
    assert_eq!(f.read(Some(2)), b"he".to_vec());
    assert_eq!(f.read(None), b"llo".to_vec());
    assert_eq!(f.read(Some(3)), Vec::<u8>::new());
    f.seek(1);
    assert_eq!(f.read(Some(-1)), b"ello".to_vec());
    f.seek(99);
    assert_eq!(f.read(None), Vec::<u8>::new());
    f.seek(-4);
    assert_eq!(f.read(Some(100)), b"hello".to_vec());
}
