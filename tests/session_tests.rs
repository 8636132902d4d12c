use bterminal::api::CreateSessionRequest;
use bterminal::history::{History, HISTORY_CAP};
use bterminal::monitor::Monitor;
use bterminal::registry::SessionRegistry;
use bterminal::session::{Session, SetSize};
use bterminal::wire::ChannelEvent;
use bterminal::GlobalEvent;

fn min_of_clients(session: &Session, clients: &[u128]) -> (u16, u16) {
    let mut min_rows = u16::MAX;
    let mut min_cols = u16::MAX;
    for c in clients {
        if let Some((r, cl)) = session.viewport(*c) {
            if r < min_rows {
                min_rows = r;
            }
            if cl < min_cols {
                min_cols = cl;
            }
        }
    }
    (min_rows, min_cols)
}

#[test]
fn test_recalculate_pty_size_min_logic() {
    let mut session = Session::new("test-resize".to_string());
    let client1 = uuid::Uuid::new_v4().as_u128();
    let client2 = uuid::Uuid::new_v4().as_u128();
    let client3 = uuid::Uuid::new_v4().as_u128();

    session.update_client_size(client1, 40, 100);
    session.update_client_size(client2, 24, 80);
    session.update_client_size(client3, 60, 120);

    let (min_rows, min_cols) = min_of_clients(&session, &[client1, client2, client3]);
    assert_eq!(min_rows, 24);
    assert_eq!(min_cols, 80);
    assert_eq!(session.size(), (24, 80));

    session.remove_client(client2);
    let (min_rows_new, min_cols_new) = min_of_clients(&session, &[client1, client2, client3]);
    assert_eq!(min_rows_new, 40);
    assert_eq!(min_cols_new, 100);
    assert_eq!(session.size(), (40, 100));
}

#[test]
fn test_session_registry_methods() {
    let mut registry: SessionRegistry<Session> = SessionRegistry::new();
    let session_id = "test-reg".to_string();

    let (_, replaced) = registry.create_session(session_id.clone(), Session::new(session_id.clone()));
    assert!(replaced.is_none());

    let session = registry.get_session(&session_id);
    assert!(session.is_some());
    assert_eq!(session.unwrap().id(), &session_id);

    let sessions = registry.list_sessions();
    assert_eq!(sessions.len(), 1);
    assert_eq!(sessions[0].id, session_id);

    registry.remove_session(&session_id);
    assert!(registry.get_session(&session_id).is_none());
}

#[test]
fn test_create_and_list_sessions() {
    let mut registry: SessionRegistry<u32> = SessionRegistry::new();
    let req = CreateSessionRequest { id: "test-id".to_string() };
    registry.create_session(req.id.clone(), 1);
    let sessions = registry.list_sessions();
    assert_eq!(sessions.len(), 1);
    assert_eq!(sessions[0].id, "test-id");
}

#[test]
fn test_delete_session() {
    let mut registry: SessionRegistry<u32> = SessionRegistry::new();
    registry.create_session("delete-me".to_string(), 1);
    assert_eq!(registry.remove_session("delete-me"), Some(1));
    assert_eq!(registry.list_sessions().len(), 0);
}

#[test]
fn duplicate_create_hands_back_the_replaced_session() {
    let mut registry: SessionRegistry<u32> = SessionRegistry::new();
    assert_eq!(registry.create_session("dup".to_string(), 1), (0, None));
    assert_eq!(registry.create_session("dup".to_string(), 2), (1, Some(1)));
    assert_eq!(registry.get_session("dup"), Some(&2));
    assert_eq!(registry.list_sessions().len(), 1);
    assert_eq!(registry.remove_session("absent"), None);
}

#[test]
fn list_holds_each_session_once() {
    let mut registry: SessionRegistry<u32> = SessionRegistry::new();
    registry.create_session("a".to_string(), 1);
    registry.create_session("b".to_string(), 2);
    registry.create_session("c".to_string(), 3);
    registry.remove_session("b");
    let mut ids: Vec<String> = registry.list_sessions().into_iter().map(|i| i.id).collect();
    ids.sort();
    assert_eq!(ids, vec!["a".to_string(), "c".to_string()]);
}

#[test]
fn test_monitor_session_history_and_cleanup() {
    let mut registry: SessionRegistry<Session> = SessionRegistry::new();
    let session_id = "test-session".to_string();
    let (generation, _) = registry.create_session(session_id.clone(), Session::new(session_id.clone()));
    let mut history = History::new();
    let mut monitor = Monitor::new(session_id.clone(), generation);

    assert!(!monitor.step(ChannelEvent::Output(b"hello".to_vec()), &mut history));
    assert_eq!(history.snapshot().as_slice(), b"hello");

    assert!(monitor.step(ChannelEvent::Output(Vec::new()), &mut history));
    let (_, event) = monitor.retire(&mut registry).expect("Expected SessionDeleted event");
    assert!(registry.get_session(&session_id).is_none(), "Session should be removed after empty signal");
    match event {
        GlobalEvent::SessionDeleted(id) => assert_eq!(id, session_id),
        _ => panic!("Expected SessionDeleted event"),
    }
    assert!(monitor.retire(&mut registry).is_none());
}

#[test]
fn monitor_publishes_deletion_exactly_once() {
    let mut history = History::new();
    let mut monitor = Monitor::new("s1".to_string(), 0);
    assert!(!monitor.step(ChannelEvent::Output(b"a".to_vec()), &mut history));
    assert!(monitor.step(ChannelEvent::Closed, &mut history));
    assert!(monitor.finished());
    assert!(!monitor.step(ChannelEvent::Output(Vec::new()), &mut history));
    assert!(!monitor.step(ChannelEvent::Output(b"late".to_vec()), &mut history));
    assert_eq!(history.snapshot(), b"a".to_vec());
}

#[test]
fn monitor_of_replaced_session_spares_its_successor() {
    let mut registry: SessionRegistry<u32> = SessionRegistry::new();
    let (old_gen, _) = registry.create_session("s".to_string(), 1);
    let (new_gen, replaced) = registry.create_session("s".to_string(), 2);
    assert_eq!(replaced, Some(1));
    assert_ne!(old_gen, new_gen);
    let mut history = History::new();
    let mut old_monitor = Monitor::new("s".to_string(), old_gen);
    assert!(old_monitor.step(ChannelEvent::Output(Vec::new()), &mut history));
    assert!(old_monitor.retire(&mut registry).is_none());
    assert_eq!(registry.get_session("s"), Some(&2));
    assert_eq!(registry.remove_generation("s", old_gen), None);
    assert_eq!(registry.remove_generation("s", new_gen), Some(2));
    assert!(registry.get_session("s").is_none());
}

#[test]
fn monitor_after_explicit_delete_publishes_nothing() {
    let mut registry: SessionRegistry<u32> = SessionRegistry::new();
    let (generation, _) = registry.create_session("d".to_string(), 1);
    assert_eq!(registry.remove_session("d"), Some(1));
    let mut history = History::new();
    let mut monitor = Monitor::new("d".to_string(), generation);
    assert!(monitor.step(ChannelEvent::Closed, &mut history));
    assert!(monitor.retire(&mut registry).is_none());
    assert!(registry.can_register());
}

#[test]
fn monitor_continues_after_lag() {
    let mut history = History::new();
    let mut monitor = Monitor::new("lag".to_string(), 0);
    assert!(!monitor.step(ChannelEvent::Output(b"one ".to_vec()), &mut history));
    assert!(!monitor.step(ChannelEvent::Lagged(7), &mut history));
    assert!(!monitor.finished());
    assert!(!monitor.step(ChannelEvent::Output(b"two".to_vec()), &mut history));
    assert_eq!(history.snapshot(), b"one two".to_vec());
}

#[test]
fn history_keeps_most_recent_suffix() {
    let mut history = History::new();
    let mut all: Vec<u8> = Vec::new();
    for i in 0..250u32 {
        let chunk: Vec<u8> = (0..1000u32).map(|j| ((i * 7 + j) % 251) as u8).collect();
        history.append(&chunk);
        all.extend_from_slice(&chunk);
    }
    assert!(all.len() > HISTORY_CAP);
    assert_eq!(history.len(), 102_400);
    assert_eq!(history.snapshot().as_slice(), &all[all.len() - HISTORY_CAP..]);
}

#[test]
fn history_single_chunk_larger_than_cap() {
    let mut history = History::new();
    history.append(b"abc");
    let big: Vec<u8> = (0..200_000u32).map(|j| (j % 256) as u8).collect();
    history.append(&big);
    assert_eq!(history.len(), HISTORY_CAP);
    assert_eq!(history.snapshot().as_slice(), &big[big.len() - HISTORY_CAP..]);
}

#[test]
fn history_exactly_at_cap_is_untouched() {
    let mut history = History::new();
    let first = vec![1u8; HISTORY_CAP - 1];
    history.append(&first);
    history.append(&[2u8]);
    assert_eq!(history.len(), HISTORY_CAP);
    assert_eq!(history.snapshot()[0], 1);
    history.append(&[3u8]);
    assert_eq!(history.len(), HISTORY_CAP);
    let snap = history.snapshot();
    assert_eq!(snap[HISTORY_CAP - 1], 3);
    assert_eq!(snap[HISTORY_CAP - 2], 2);
    assert!(History::new().is_empty());
}

#[test]
fn first_client_at_initial_size_emits_nothing() {
    let mut session = Session::new("s".to_string());
    assert_eq!(session.size(), (24, 80));
    assert_eq!(session.update_client_size(1, 24, 80), None);
    assert_eq!(session.update_client_size(2, 30, 90), None);
    assert_eq!(session.update_client_size(3, 20, 100), Some(SetSize { rows: 20, cols: 80 }));
}

#[test]
fn removing_non_minimal_client_keeps_size() {
    let mut session = Session::new("s".to_string());
    session.update_client_size(1, 30, 100);
    session.update_client_size(2, 50, 120);
    assert_eq!(session.size(), (30, 100));
    assert_eq!(session.remove_client(2), None);
    assert_eq!(session.size(), (30, 100));
    assert_eq!(session.remove_client(99), None);
}

#[test]
fn removing_last_client_keeps_size() {
    let mut session = Session::new("s".to_string());
    session.update_client_size(1, 30, 100);
    assert_eq!(session.remove_client(1), None);
    assert!(!session.has_clients());
    assert_eq!(session.size(), (30, 100));
}

#[test]
fn tied_minimum_is_kept_when_one_holder_leaves() {
    let mut session = Session::new("s".to_string());
    session.update_client_size(1, 30, 100);
    session.update_client_size(2, 30, 110);
    assert_eq!(session.remove_client(1), Some(SetSize { rows: 30, cols: 110 }));
    assert_eq!(session.size(), (30, 110));
}

#[test]
fn end_to_end_viewport_scenario() {
    let mut session = Session::new("s1".to_string());
    let a: u128 = 11;
    let b: u128 = 22;
    let first = session.update_client_size(a, 40, 100);
    assert_eq!(first, Some(SetSize { rows: 40, cols: 100 }));
    let second = session.update_client_size(b, 24, 80);
    assert_eq!(second, Some(SetSize { rows: 24, cols: 80 }));
    assert_eq!(session.size(), (24, 80));
    let notice = session.remove_client(b).expect("size must grow");
    assert_eq!(session.size(), (40, 100));
    assert_eq!(notice, SetSize { rows: 40, cols: 100 });
    let bytes = notice.to_message();
    assert_eq!(String::from_utf8(bytes).unwrap(), r#"{"type":"SetSize","data":{"rows":40,"cols":100}}"#);
}
