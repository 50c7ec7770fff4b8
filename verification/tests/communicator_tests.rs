use repo_server_rs::communicator::{
    address, build_address, curve_keys, get_socket_type, local_id, message_frames_of,
    message_type_from_frame, plan_socket, proto_id_from_frame, receive_step,
    receive_string_message, start_receive, CommunicatorFactory, CredentialType, FrameEvent,
    MessageAttribute, MessageFactory, MessageState, MockCredentials, ProtoMessage, ReceivePhase,
    ReceiveStep, Response, SocketClassType, SocketConnectionSecurity, SocketKind, SocketOptions,
    UriScheme,
};

fn is_uuid_shaped(s: &str) -> bool {
    s.len() == 36
        && s.chars().enumerate().all(|(i, c)| {
            if i == 8 || i == 13 || i == 18 || i == 23 {
                c == '-'
            } else {
                c.is_ascii_hexdigit()
            }
        })
}

#[test]
fn test_message_factory() {
    let factory = MessageFactory::new();
    let version_request = factory.create_version_request();
    assert_eq!(version_request.message_type, 1);
    assert_eq!(version_request.proto_id, 1);
}

#[test]
fn version_request_is_empty_with_fresh_id() {
    let f = MessageFactory::new();
    let a = f.create_version_request();
    let b = f.create_version_request();
    assert!(a.payload.is_empty());
    assert!(matches!(a.state, MessageState::Request));
    assert!(is_uuid_shaped(&a.correlation_id));
    assert_ne!(a.correlation_id, b.correlation_id);
}

#[test]
fn version_reply_fields() {
    let r = MessageFactory::new().create_version_reply("c-1".to_string());
    assert_eq!(r.message_type, 2);
    assert_eq!(r.proto_id, 1);
    assert_eq!(r.correlation_id, "c-1");
    assert_eq!(
        r.payload,
        vec![
            0x08, 0xE8, 0x0F, 0x10, 12, 0x18, 1, 0x20, 0, 0x28, 0, 0x30, 1, 0x38, 0, 0x40, 0,
            0x48, 1, 0x50, 0, 0x58, 0
        ]
    );
}

#[test]
fn data_requests_repeat_strings() {
    let f = MessageFactory::new();
    let m = f.create_repo_data_delete_request(
        vec!["r1".to_string(), "r2".to_string()],
        vec!["p".to_string()],
    );
    assert_eq!(m.message_type, 3);
    assert_eq!(m.proto_id, 2);
    assert_eq!(m.payload, vec![0x0A, 2, b'r', b'1', 0x0A, 2, b'r', b'2', 0x12, 1, b'p']);
    let s = f.create_repo_data_get_size_request(vec![], vec!["ab".to_string()]);
    assert_eq!(s.message_type, 4);
    assert_eq!(s.payload, vec![0x12, 2, b'a', b'b']);
}

#[test]
fn path_requests_and_replies() {
    let f = MessageFactory::new();
    let c = f.create_repo_path_create_request("/x".to_string());
    assert_eq!((c.message_type, c.proto_id), (5, 2));
    assert_eq!(c.payload, vec![0x0A, 2, b'/', b'x']);
    let d = f.create_repo_path_delete_request(String::new());
    assert_eq!(d.message_type, 6);
    assert_eq!(d.payload, vec![0x0A, 0]);
    let a = f.create_ack_reply("k".to_string(), Some("ok".to_string()));
    assert_eq!((a.message_type, a.proto_id), (7, 2));
    assert_eq!(a.payload, vec![0x0A, 2, b'o', b'k']);
    assert!(f.create_ack_reply("k".to_string(), None).payload.is_empty());
    let n = f.create_nack_reply("k".to_string(), -1, "e".to_string());
    assert_eq!(n.message_type, 8);
    let mut expected = vec![0x08, 0xFF, 0xFF, 0xFF, 0xFF, 0xFF, 0xFF, 0xFF, 0xFF, 0xFF, 0x01];
    expected.extend_from_slice(&[0x12, 1, b'e']);
    assert_eq!(n.payload, expected);
    let n = f.create_nack_reply("k".to_string(), 3, String::new());
    assert_eq!(n.payload, vec![0x08, 3, 0x12, 0]);
}

#[test]
fn socket_options_default_and_addresses() {
    let mut o = SocketOptions::default();
    assert!(matches!(o.scheme, UriScheme::Inproc));
    assert!(matches!(o.class_type, SocketClassType::Server));
    assert!(o.port.is_none());
    o.host = "workers".to_string();
    assert_eq!(build_address(&o), Some("inproc://workers".to_string()));
    o.scheme = UriScheme::Tcp;
    assert_eq!(build_address(&o), None);
    assert_eq!(address(&o), "unknown");
    o.host = "localhost".to_string();
    o.port = Some(9000);
    assert_eq!(address(&o), "tcp://localhost:9000");
    assert_eq!(get_socket_type(&o), SocketKind::Router);
    o.class_type = SocketClassType::Client;
    assert_eq!(get_socket_type(&o), SocketKind::Dealer);
}

#[test]
fn credentials_and_curve_keys() {
    let creds = MockCredentials::new("pub".to_string(), "priv".to_string());
    assert_eq!(creds.get(CredentialType::PublicKey), Some("pub".to_string()));
    assert_eq!(creds.get(CredentialType::PrivateKey), Some("priv".to_string()));
    assert_eq!(creds.get(CredentialType::ServerKey), Some("pub".to_string()));
    assert!(creds.has(CredentialType::ServerKey));
    let mut o = SocketOptions::default();
    assert!(curve_keys(&o, &creds).is_none());
    o.connection_security = SocketConnectionSecurity::Secure;
    assert!(curve_keys(&o, &creds).is_none());
    o.class_type = SocketClassType::Client;
    let k = curve_keys(&o, &creds).unwrap();
    assert_eq!((k.server_key.as_str(), k.public_key.as_str(), k.secret_key.as_str()), ("pub", "pub", "priv"));
}

#[test]
fn local_identity() {
    let mut o = SocketOptions::default();
    assert!(is_uuid_shaped(&local_id(&o)));
    o.local_id = Some("me".to_string());
    assert_eq!(local_id(&o), "me");
}

#[test]
fn proto_message_attributes() {
    let m = ProtoMessage::new("cid".to_string(), MessageState::Response, vec![1], 2, 3);
    assert_eq!(m.get(MessageAttribute::CorrelationId), Some("cid".to_string()));
    assert_eq!(m.get(MessageAttribute::State), Some("Response".to_string()));
    assert_eq!(m.get(MessageAttribute::Key), None);
    assert!(m.attribute_exists(MessageAttribute::State));
    assert!(!m.attribute_exists(MessageAttribute::Id));
    let r = Response::default();
    assert!(!r.error && !r.time_out && r.message.is_none() && r.error_msg.is_empty());
    let _ = CommunicatorFactory::new();
}

#[test]
fn frames_round_trip() {
    let m = ProtoMessage::new("route".to_string(), MessageState::Request, vec![7, 7], 0x0102, 9);
    let server = message_frames_of(SocketClassType::Server, &m);
    assert_eq!(server, vec![b"route".to_vec(), vec![0x02, 0x01], vec![9], vec![7, 7]]);
    assert_eq!(message_type_from_frame(&server[1]), Ok(0x0102));
    assert_eq!(proto_id_from_frame(&server[2]), Ok(9));
    let client = message_frames_of(SocketClassType::Client, &m);
    assert_eq!(client.len(), 3);
    assert_eq!(message_type_from_frame(&client[0]), Ok(0x0102));
    assert_eq!(
        message_type_from_frame(&[1, 2, 3]),
        Err("Invalid message type frame size".to_string())
    );
    assert_eq!(proto_id_from_frame(&[]), Err("Invalid protocol ID frame size".to_string()));
}

fn feed(class: SocketClassType, frames: Vec<Vec<u8>>) -> Response {
    let mut st = start_receive(class);
    for f in frames {
        match receive_step(st, FrameEvent::Frame(f)) {
            ReceiveStep::Next(next) => st = next,
            ReceiveStep::Finished(r) => return r,
        }
    }
    panic!("receive did not finish");
}

#[test]
fn receive_reads_back_what_was_sent() {
    let m = ProtoMessage::new("peer-7".to_string(), MessageState::Request, vec![1, 2, 3], 591, 2);
    let r = feed(SocketClassType::Server, message_frames_of(SocketClassType::Server, &m));
    let got = r.message.unwrap();
    assert_eq!(got.correlation_id, "peer-7");
    assert_eq!((got.message_type, got.proto_id), (591, 2));
    assert_eq!(got.payload, vec![1, 2, 3]);
    assert!(!r.error && !r.time_out);
    let r = feed(SocketClassType::Client, message_frames_of(SocketClassType::Client, &m));
    let got = r.message.unwrap();
    assert!(is_uuid_shaped(&got.correlation_id));
    assert_eq!(got.payload, vec![1, 2, 3]);
}

#[test]
fn receive_failures() {
    let st = start_receive(SocketClassType::Server);
    assert_eq!(st.phase, ReceivePhase::CorrelationId);
    match receive_step(st.clone(), FrameEvent::Frame(vec![0xFF])) {
        ReceiveStep::Finished(r) => {
            assert!(r.error);
            assert_eq!(r.error_msg, "Failed to receive correlation ID");
        }
        _ => panic!("expected the receive to end"),
    }
    match receive_step(st.clone(), FrameEvent::TimedOut) {
        ReceiveStep::Finished(r) => assert!(r.time_out && !r.error),
        _ => panic!("expected the receive to end"),
    }
    let r = feed(SocketClassType::Client, vec![vec![1, 2, 3]]);
    assert_eq!(r.error_msg, "Invalid message type frame size");
    let r = feed(SocketClassType::Client, vec![vec![1, 2], vec![]]);
    assert_eq!(r.error_msg, "Invalid protocol ID frame size");
    let st = start_receive(SocketClassType::Client);
    match receive_step(st, FrameEvent::Failed("Resource busy".to_string())) {
        ReceiveStep::Finished(r) => assert_eq!(r.error_msg, "Error receiving message type: Resource busy"),
        _ => panic!("expected the receive to end"),
    }
}

#[test]
fn string_messages() {
    let r = receive_string_message(FrameEvent::Frame(b"hello".to_vec()));
    let m = r.message.unwrap();
    assert_eq!(m.payload, b"hello".to_vec());
    assert_eq!((m.message_type, m.proto_id), (0, 0));
    let r = receive_string_message(FrameEvent::Frame(vec![0xC3]));
    assert_eq!(r.error_msg, "Failed to receive string message");
    let r = receive_string_message(FrameEvent::Failed("x".to_string()));
    assert_eq!(r.error_msg, "Error receiving string message: x");
    assert!(receive_string_message(FrameEvent::TimedOut).time_out);
}

#[test]
fn socket_plans() {
    let creds = MockCredentials::new("pk".to_string(), "sk".to_string());
    let mut o = SocketOptions::default();
    o.host = "workers".to_string();
    let p = plan_socket(&o, &creds).unwrap();
    assert_eq!(p.kind, SocketKind::Router);
    assert!(p.bind);
    assert_eq!(p.address, "inproc://workers");
    assert!(p.identity.is_none() && p.curve.is_none());
    assert!(is_uuid_shaped(&p.local_id));
    o.scheme = UriScheme::Tcp;
    assert!(plan_socket(&o, &creds).is_none());
    o.port = Some(7512);
    o.class_type = SocketClassType::Client;
    o.connection_security = SocketConnectionSecurity::Secure;
    o.local_id = Some("client-1".to_string());
    let p = plan_socket(&o, &creds).unwrap();
    assert!(!p.bind);
    assert_eq!(p.address, "tcp://workers:7512");
    assert_eq!(p.identity.as_deref(), Some("client-1"));
    assert_eq!(p.local_id, "client-1");
    assert_eq!(p.curve.unwrap().secret_key, "sk");
}
