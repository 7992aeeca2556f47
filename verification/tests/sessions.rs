use collab_engine::collaboration::error::CollaborationError;
use collab_engine::collaboration::session::SessionManager;
use uuid::Uuid;

const ROOM: u128 = 0x1000;
const OTHER_ROOM: u128 = 0x2000;
const ANN: u128 = 0xa;
const BOB: u128 = 0xb;

fn ids(sessions: &SessionManager<&'static str>, notebook_id: u128) -> Vec<u128> {
    sessions.get_sessions(notebook_id).iter().map(|session| session.id).collect()
}

fn user_ids(sessions: &SessionManager<&'static str>, user_id: u128) -> Vec<u128> {
    sessions.get_user_sessions(user_id).iter().map(|session| session.id).collect()
}

#[test]
fn an_empty_registry_lists_nothing() {
    let sessions: SessionManager<&'static str> = SessionManager::new();
    assert!(sessions.get_sessions(ROOM).is_empty());
    assert!(sessions.get_user_sessions(ANN).is_empty());
    assert!(sessions.get_session(&1).is_none());
    let sessions: SessionManager<&'static str> = SessionManager::default();
    assert!(sessions.get_sessions(ROOM).is_empty());
}

#[test]
fn register_enters_all_three_indices() {
    let mut sessions = SessionManager::new();
    assert_eq!(sessions.register(1, ROOM, ANN, "sink 1").unwrap(), 1);
    assert_eq!(sessions.register(2, ROOM, BOB, "sink 2").unwrap(), 2);
    assert_eq!(sessions.register(3, OTHER_ROOM, ANN, "sink 3").unwrap(), 3);
    assert_eq!(ids(&sessions, ROOM), vec![1, 2]);
    assert_eq!(ids(&sessions, OTHER_ROOM), vec![3]);
    assert_eq!(user_ids(&sessions, ANN), vec![1, 3]);
    assert_eq!(user_ids(&sessions, BOB), vec![2]);
    let session = sessions.get_session(&2).unwrap();
    assert_eq!(session.id, 2);
    assert_eq!(session.user_id, BOB);
    assert_eq!(session.notebook_id, ROOM);
    assert_eq!(session.sender, "sink 2");
}

#[test]
fn an_identifier_in_use_is_refused() {
    let mut sessions = SessionManager::new();
    sessions.register(1, ROOM, ANN, "first").unwrap();
    match sessions.register(1, OTHER_ROOM, BOB, "second") {
        Err(CollaborationError::Internal(text)) => assert_eq!(text, "Session identifier in use"),
        other => panic!("unexpected {:?}", other),
    }
    assert_eq!(ids(&sessions, ROOM), vec![1]);
    assert!(ids(&sessions, OTHER_ROOM).is_empty());
    assert!(user_ids(&sessions, BOB).is_empty());
    assert_eq!(sessions.get_session(&1).unwrap().sender, "first");
}

#[test]
fn remove_leaves_no_trace() {
    let mut sessions = SessionManager::new();
    sessions.register(1, ROOM, ANN, "a").unwrap();
    sessions.register(2, ROOM, BOB, "b").unwrap();
    sessions.register(3, ROOM, ANN, "c").unwrap();
    let removed = sessions.remove(&1).unwrap();
    assert_eq!(removed.id, 1);
    assert_eq!(removed.sender, "a");
    assert!(sessions.get_session(&1).is_none());
    assert_eq!(ids(&sessions, ROOM), vec![2, 3]);
    assert_eq!(user_ids(&sessions, ANN), vec![3]);
    // Removing it again finds nothing and changes nothing.
    assert!(sessions.remove(&1).is_none());
    assert_eq!(ids(&sessions, ROOM), vec![2, 3]);
    // Empty buckets go: the room and the users can come back afresh.
    sessions.remove(&2).unwrap();
    sessions.remove(&3).unwrap();
    assert!(ids(&sessions, ROOM).is_empty());
    assert!(user_ids(&sessions, ANN).is_empty());
    assert!(user_ids(&sessions, BOB).is_empty());
    sessions.register(1, ROOM, ANN, "again").unwrap();
    assert_eq!(ids(&sessions, ROOM), vec![1]);
}

#[test]
fn create_draws_a_random_version_four_identifier() {
    let mut sessions = SessionManager::new();
    let first = sessions.create(ROOM, ANN, "a").unwrap();
    let second = sessions.create(ROOM, ANN, "b").unwrap();
    assert_ne!(first, second);
    assert_eq!(Uuid::from_u128(first).get_version_num(), 4);
    assert_eq!(Uuid::from_u128(second).get_version_num(), 4);
    assert_eq!(first & 0x0000_0000_0000_f000_c000_0000_0000_0000, 0x0000_0000_0000_4000_8000_0000_0000_0000);
    assert_eq!(ids(&sessions, ROOM), vec![first, second]);
    assert_eq!(user_ids(&sessions, ANN), vec![first, second]);
    assert_eq!(sessions.get_session(&second).unwrap().sender, "b");
}
