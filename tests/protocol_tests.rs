use argon2::password_hash::{PasswordHasher, SaltString};
use argon2::Argon2;
use bterminal::auth::{authenticate, verify_password};
use bterminal::server::candidate_ports;
use bterminal::assets::{missing_asset, static_target, MissingAsset, StaticTarget};
use bterminal::auth::{LoginRequest, UserResponse};
use bterminal::db::User;
use bterminal::history::History;
use bterminal::pty_manager::{
    group_signal_target, reader_step, shell_program, terminal_environment, Lifecycle, ReaderStep,
    ShutdownPlan,
};
use bterminal::session::{Session, SetSize};
use bterminal::wire::{is_control_message, outbound_step, ChannelEvent, Outbound, ServerFrame, EXIT_MESSAGE};
use bterminal::ws::{handle_client_message, ClientMessage, Connection, Inbound, NOT_FOUND_MESSAGE};
use bterminal::GlobalEvent;

fn text_of(frame: &ServerFrame) -> Option<&str> {
    match frame {
        ServerFrame::Text(s) => Some(s.as_str()),
        ServerFrame::Binary(_) => None,
    }
}

fn binary_of(frame: &ServerFrame) -> Option<&[u8]> {
    match frame {
        ServerFrame::Binary(b) => Some(b.as_slice()),
        ServerFrame::Text(_) => None,
    }
}

#[test]
fn test_ws_history_sent() {
    let session_id = "history-test".to_string();
    let _session = Session::new(session_id);
    let mut history = History::new();
    history.append(b"old data");
    let (mut conn, first) = Connection::attach(&history);
    let first = first.expect("Failed to connect");
    assert_eq!(binary_of(&first), Some(&b"old data"[..]));
    let live = conn.on_output(ChannelEvent::Output(b"new".to_vec())).unwrap();
    assert_eq!(binary_of(&live), Some(&b"new"[..]));
}

#[test]
fn attach_with_empty_history_sends_nothing_first() {
    let history = History::new();
    let (conn, first) = Connection::attach(&history);
    assert!(first.is_none());
    assert!(!conn.finished());
}

#[test]
fn outbound_control_message_goes_as_text() {
    let msg = SetSize { rows: 24, cols: 80 }.to_message();
    assert!(is_control_message(&msg));
    match outbound_step(ChannelEvent::Output(msg)) {
        Outbound::Send(f) => assert_eq!(text_of(&f), Some(r#"{"type":"SetSize","data":{"rows":24,"cols":80}}"#)),
        _ => panic!("expected a frame"),
    }
}

#[test]
fn outbound_plain_output_goes_as_binary() {
    match outbound_step(ChannelEvent::Output(b"hi\r\n".to_vec())) {
        Outbound::Send(f) => assert_eq!(binary_of(&f), Some(&b"hi\r\n"[..])),
        _ => panic!("expected a frame"),
    }
    let invalid = b"{\"type\":\xff".to_vec();
    match outbound_step(ChannelEvent::Output(invalid.clone())) {
        Outbound::Send(f) => assert_eq!(binary_of(&f), Some(invalid.as_slice())),
        _ => panic!("expected a frame"),
    }
    assert!(!is_control_message(b"{\"type\""));
}

#[test]
fn outbound_end_of_output_sends_exit() {
    match outbound_step(ChannelEvent::Output(Vec::new())) {
        Outbound::Finish(f) => assert_eq!(text_of(&f), Some(r#"{"type":"Exit"}"#)),
        _ => panic!("expected exit"),
    }
    match outbound_step(ChannelEvent::Closed) {
        Outbound::Finish(f) => assert_eq!(text_of(&f), Some(EXIT_MESSAGE)),
        _ => panic!("expected exit"),
    }
    assert!(matches!(outbound_step(ChannelEvent::Lagged(3)), Outbound::Skip));
}

#[test]
fn connection_skips_lag_and_finishes_on_sentinel() {
    let history = History::new();
    let (mut conn, _) = Connection::attach(&history);
    assert!(conn.on_output(ChannelEvent::Lagged(100)).is_none());
    assert!(!conn.finished());
    let f = conn.on_output(ChannelEvent::Output(b"after".to_vec())).unwrap();
    assert_eq!(binary_of(&f), Some(&b"after"[..]));
    let exit = conn.on_output(ChannelEvent::Output(Vec::new())).unwrap();
    assert_eq!(text_of(&exit), Some(r#"{"type":"Exit"}"#));
    assert!(conn.finished());
}

#[test]
fn client_input_becomes_bytes() {
    let mut session = Session::new("s".to_string());
    match handle_client_message(&mut session, 5, ClientMessage::Input("ls\n".to_string())) {
        Inbound::Write(b) => assert_eq!(b, b"ls\n".to_vec()),
        _ => panic!("expected write"),
    }
    match handle_client_message(&mut session, 5, ClientMessage::Input("é".to_string())) {
        Inbound::Write(b) => assert_eq!(b, vec![0xc3, 0xa9]),
        _ => panic!("expected write"),
    }
}

#[test]
fn client_resize_updates_viewport() {
    let mut session = Session::new("s".to_string());
    match handle_client_message(&mut session, 5, ClientMessage::Resize { rows: 30, cols: 100 }) {
        Inbound::Resized(n) => assert_eq!(n, Some(SetSize { rows: 30, cols: 100 })),
        _ => panic!("expected resize"),
    }
    assert_eq!(session.viewport(5), Some((30, 100)));
    assert_eq!(NOT_FOUND_MESSAGE, "Session not found");
}

#[test]
fn event_json_is_tagged() {
    let created = GlobalEvent::SessionCreated("s1".to_string());
    assert_eq!(created.to_json(), r#"{"type":"SessionCreated","data":"s1"}"#);
    let deleted = GlobalEvent::SessionDeleted("a\"b".to_string());
    assert_eq!(deleted.to_json(), r#"{"type":"SessionDeleted","data":"a\"b"}"#);
    let escaped = GlobalEvent::SessionCreated("x\\\n\u{1}\u{7f}é".to_string());
    assert_eq!(escaped.to_json(), "{\"type\":\"SessionCreated\",\"data\":\"x\\\\\\n\\u0001\u{7f}é\"}");
    assert_eq!(deleted.frame_json("7"), r#"{"type":"SessionDeleted","data":7}"#);
}

#[test]
fn shell_and_environment() {
    assert_eq!(shell_program(None), "bash");
    assert_eq!(shell_program(Some("/bin/zsh".to_string())), "/bin/zsh");
    let env = terminal_environment();
    assert_eq!(env[0], ("TERM".to_string(), "xterm-256color".to_string()));
    assert_eq!(env[1], ("COLORTERM".to_string(), "truecolor".to_string()));
    assert_eq!(env[2], ("LANG".to_string(), "C.UTF-8".to_string()));
}

#[test]
fn reader_chunks_and_sentinel() {
    let buf = [7u8; 1024];
    match reader_step(&buf, Some(3)) {
        ReaderStep::Forward(b) => assert_eq!(b, vec![7, 7, 7]),
        ReaderStep::Finish => panic!("expected data"),
    }
    assert!(matches!(reader_step(&buf, Some(0)), ReaderStep::Finish));
    assert!(matches!(reader_step(&buf, None), ReaderStep::Finish));
}

#[test]
fn shutdown_is_planned_once() {
    let mut life = Lifecycle::new();
    assert!(life.claim_reader());
    assert!(!life.claim_reader());
    match life.begin_shutdown(Some(1234)) {
        ShutdownPlan::KillAndReap { group } => assert_eq!(group, Some(-1234)),
        ShutdownPlan::AlreadyDone => panic!("first shutdown must act"),
    }
    assert!(matches!(life.begin_shutdown(Some(1234)), ShutdownPlan::AlreadyDone));
    assert_eq!(group_signal_target(0), None);
    assert_eq!(group_signal_target(0x8000_0000), None);
    assert_eq!(group_signal_target(1), Some(-1));
}

#[test]
fn test_static_handler_index() {
    assert!(matches!(static_target("/"), StaticTarget::Index));
    assert!(matches!(static_target("/index.html"), StaticTarget::Index));
}

#[test]
fn test_static_handler_missing_file_falls_back_to_index() {
    match static_target("/random-path") {
        StaticTarget::Asset(p) => {
            assert_eq!(p, "random-path");
            assert!(matches!(missing_asset(&p), MissingAsset::Index));
        }
        StaticTarget::Index => panic!("expected an asset path"),
    }
}

#[test]
fn test_static_handler_missing_file_with_extension_returns_404() {
    match static_target("//missing.css") {
        StaticTarget::Asset(p) => {
            assert_eq!(p, "missing.css");
            assert!(matches!(missing_asset(&p), MissingAsset::NotFound));
        }
        StaticTarget::Index => panic!("expected an asset path"),
    }
}

#[test]
fn user_response_hides_the_hash() {
    let user = User {
        id: 3,
        username: "testuser".to_string(),
        password_hash: "h".to_string(),
        role: "member".to_string(),
        must_change_password: true,
    };
    let r = UserResponse::from(user);
    assert_eq!((r.id, r.username.as_str(), r.role.as_str()), (3, "testuser", "member"));
    let login = LoginRequest { username: "testuser".to_string(), password: "password123".to_string() };
    assert_eq!(login.password, "password123");
}

#[test]
fn ports_are_tried_in_order() {
    assert_eq!(candidate_ports(Some(8080)), vec![8080, 3000, 0]);
    assert_eq!(candidate_ports(Some(3000)), vec![3000, 0]);
    assert_eq!(candidate_ports(None), vec![3000, 0]);
}

#[test]
fn password_verification_and_login() {
    let salt = SaltString::from_b64("c29tZXNhbHRzb21lc2FsdA").unwrap();
    let hash = Argon2::default().hash_password(b"password123", &salt).unwrap().to_string();
    assert!(verify_password("password123", &hash));
    assert!(!verify_password("newpassword123", &hash));
    assert!(!verify_password("password123", ""));
    assert!(!verify_password("password123", "not a hash"));
    let user = User {
        id: 1,
        username: "testuser".to_string(),
        password_hash: hash.clone(),
        role: "member".to_string(),
        must_change_password: true,
    };
    let ok = authenticate(Some(user), "password123").expect("valid credentials");
    assert_eq!(ok.username, "testuser");
    let user2 = User {
        id: 1,
        username: "testuser".to_string(),
        password_hash: hash,
        role: "member".to_string(),
        must_change_password: true,
    };
    assert!(authenticate(Some(user2), "wrong").is_none());
    assert!(authenticate(None, "password123").is_none());
}
