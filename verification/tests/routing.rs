use collab_engine::collaboration::error::CollaborationError;
use collab_engine::collaboration::handler::CollaborationHandler;
use collab_engine::collaboration::message::CollaborationMessage;
use collab_engine::collaboration::message::CursorPosition;
use collab_engine::collaboration::message::Operation;
use collab_engine::collaboration::ot::OTError;
use collab_engine::collaboration::ot::OTOperation;
use collab_engine::collaboration::ot_handler::select_recipients;
use collab_engine::collaboration::ot_handler::Delivery;
use collab_engine::collaboration::ot_handler::OTHandler;
use collab_engine::collaboration::session::SessionManager;
use collab_engine::collaboration::state::CollaborationState;
use std::sync::mpsc::channel;
use std::sync::mpsc::Receiver;
use std::sync::mpsc::Sender;
use uuid::Uuid;

const ROOM: u128 = 0x1000;
const OTHER_ROOM: u128 = 0x2000;
const U1: u128 = 0xa1;
const U2: u128 = 0xa2;
const U3: u128 = 0xa3;

type Sink = Sender<String>;

fn describe(message: &CollaborationMessage) -> String {
    match message {
        CollaborationMessage::UserJoined { user_id, .. } => format!("joined {:x}", user_id),
        CollaborationMessage::UserLeft { user_id, .. } => format!("left {:x}", user_id),
        CollaborationMessage::CursorMove { user_id, position, .. } => {
            format!("cursor {:x} {}:{}", user_id, position.line, position.column)
        },
        CollaborationMessage::ContentUpdate { content, .. } => format!("content {}", content),
        CollaborationMessage::Operation { version, .. } => format!("operation {}", version),
        CollaborationMessage::OperationAck { user_id, version, .. } => {
            format!("ack {:x} {}", user_id, version)
        },
        CollaborationMessage::SyncRequest { version, .. } => format!("sync? {}", version),
        CollaborationMessage::SyncResponse { content, version, .. } => {
            format!("sync {:?} {}", content, version)
        },
    }
}

fn deliver(handler: &CollaborationHandler<Sink>, delivery: &Delivery) {
    let text = describe(&delivery.message);
    for id in &delivery.recipients {
        let session = handler.ot.sessions.get_session(id).unwrap();
        session.sender.send(text.clone()).unwrap();
    }
}

fn received(inbox: &Receiver<String>) -> Vec<String> {
    inbox.try_iter().collect()
}

fn new_handler() -> CollaborationHandler<Sink> {
    CollaborationHandler::new(CollaborationState::new(), SessionManager::new())
}

fn join(handler: &mut CollaborationHandler<Sink>, room: u128, user: u128) -> (u128, Receiver<String>) {
    let (sink, inbox) = channel();
    let connection = handler.connect(room, user, sink).unwrap();
    deliver(handler, &connection.joined);
    deliver(handler, &connection.sync);
    (connection.session_id, inbox)
}

#[test]
fn scenario_two_users_connect() {
    let mut handler = new_handler();
    let (sink, inbox1) = channel();
    let connection = handler.connect(ROOM, U1, sink).unwrap();
    // Nobody else is in the room: the notice goes to nobody, and that is no failure.
    assert!(connection.joined.recipients.is_empty());
    assert!(matches!(
        connection.joined.message,
        CollaborationMessage::UserJoined { user_id: U1, notebook_id: ROOM }
    ));
    assert_eq!(connection.sync.recipients, vec![connection.session_id]);
    match &connection.sync.message {
        CollaborationMessage::SyncResponse { notebook_id, content, version, operations, cursors } => {
            assert_eq!(*notebook_id, ROOM);
            assert_eq!(content, "");
            assert_eq!(*version, 0);
            assert!(operations.is_empty());
            assert!(cursors.is_none());
        },
        other => panic!("unexpected {:?}", other),
    }
    deliver(&handler, &connection.joined);
    deliver(&handler, &connection.sync);
    assert_eq!(received(&inbox1), vec!["sync \"\" 0".to_string()]);
    assert!(handler.ot.sessions.get_session(&connection.session_id).is_some());

    // The first user edits, then the second connects.
    let s1 = connection.session_id;
    handler
        .handle_message(
            s1,
            CollaborationMessage::Operation {
                user_id: U1,
                notebook_id: ROOM,
                operation: Operation::Insert { position: 0, text: "hi".to_string() },
                version: 0,
            },
        )
        .unwrap();
    let (_s2, inbox2) = join(&mut handler, ROOM, U2);
    assert_eq!(received(&inbox1), vec![format!("joined {:x}", U2)]);
    assert_eq!(received(&inbox2), vec!["sync \"hi\" 1".to_string()]);
}

#[test]
fn scenario_a_user_disconnects() {
    let mut handler = new_handler();
    let (s1, inbox1) = join(&mut handler, ROOM, U1);
    let (_s2, inbox2) = join(&mut handler, ROOM, U2);
    let (_s3, inbox3) = join(&mut handler, OTHER_ROOM, U3);
    handler
        .handle_message(
            s1,
            CollaborationMessage::CursorMove {
                user_id: U1,
                notebook_id: ROOM,
                position: CursorPosition { line: 1, column: 2, selection_start: None },
            },
        )
        .unwrap();
    assert!(handler.ot.state.get_cursors(ROOM).unwrap().contains_key(&U1));
    received(&inbox1);
    received(&inbox2);
    received(&inbox3);

    let disconnection = handler.disconnect(s1).unwrap();
    assert_eq!(disconnection.session.id, s1);
    assert_eq!(disconnection.session.user_id, U1);
    deliver(&handler, &disconnection.left);
    // Gone from all three indices.
    assert!(handler.ot.sessions.get_session(&s1).is_none());
    assert!(handler.ot.sessions.get_user_sessions(U1).is_empty());
    assert!(handler.ot.sessions.get_sessions(ROOM).iter().all(|session| session.id != s1));
    // Those who remain in the room are told; the other room is not.
    assert_eq!(received(&inbox2), vec![format!("left {:x}", U1)]);
    assert!(received(&inbox3).is_empty());
    assert!(received(&inbox1).is_empty());
    // The cursor is gone, the document is not.
    assert!(!handler.ot.state.get_cursors(ROOM).unwrap().contains_key(&U1));
    assert_eq!(handler.ot.state.get_document(ROOM), Some(("".to_string(), 0)));
    // A second disconnect finds no session.
    assert!(matches!(handler.disconnect(s1), Err(CollaborationError::SessionNotFound)));
}

#[test]
fn connect_keeps_a_room_that_exists() {
    let mut handler = new_handler();
    handler.ot.state.create_notebook(ROOM, "seeded");
    let (_s1, inbox1) = join(&mut handler, ROOM, U1);
    assert_eq!(received(&inbox1), vec!["sync \"seeded\" 0".to_string()]);
}

#[test]
fn a_second_session_of_the_same_user_is_not_told_of_the_join() {
    let mut handler = new_handler();
    let (_a, inbox_a) = join(&mut handler, ROOM, U1);
    let (_b, inbox_b) = join(&mut handler, ROOM, U2);
    received(&inbox_a);
    received(&inbox_b);
    let (_c, inbox_c) = join(&mut handler, ROOM, U1);
    assert!(received(&inbox_a).is_empty());
    assert_eq!(received(&inbox_b), vec![format!("joined {:x}", U1)]);
    assert_eq!(received(&inbox_c), vec!["sync \"\" 0".to_string()]);
}

#[test]
fn cursor_moves_go_to_the_others() {
    let mut handler = new_handler();
    let (s1, inbox1) = join(&mut handler, ROOM, U1);
    let (_s2, inbox2) = join(&mut handler, ROOM, U2);
    received(&inbox1);
    received(&inbox2);
    let delivery = handler
        .handle_message(
            s1,
            CollaborationMessage::CursorMove {
                // What the message names is not trusted: the session decides.
                user_id: U3,
                notebook_id: OTHER_ROOM,
                position: CursorPosition { line: 7, column: 9, selection_start: Some((7, 1)) },
            },
        )
        .unwrap()
        .unwrap();
    deliver(&handler, &delivery);
    assert!(received(&inbox1).is_empty());
    assert_eq!(received(&inbox2), vec![format!("cursor {:x} 7:9", U1)]);
    let cursors = handler.ot.state.get_cursors(ROOM).unwrap();
    assert_eq!(cursors[&U1].notebook_id, ROOM);
    assert_eq!(cursors[&U1].line, 7);
    assert_eq!(cursors[&U1].column, 9);
    assert_eq!(cursors[&U1].selection_start, Some((7, 1)));
}

#[test]
fn content_updates_go_to_the_others_with_the_new_version() {
    let mut handler = new_handler();
    let (s1, inbox1) = join(&mut handler, ROOM, U1);
    let (_s2, inbox2) = join(&mut handler, ROOM, U2);
    received(&inbox1);
    received(&inbox2);
    let delivery = handler
        .handle_message(
            s1,
            CollaborationMessage::ContentUpdate {
                user_id: U1,
                notebook_id: ROOM,
                content: "whole new text".to_string(),
            },
        )
        .unwrap()
        .unwrap();
    deliver(&handler, &delivery);
    assert!(received(&inbox1).is_empty());
    assert_eq!(received(&inbox2), vec!["sync \"whole new text\" 2".to_string()]);
    assert_eq!(handler.ot.state.get_document(ROOM), Some(("whole new text".to_string(), 2)));
}

#[test]
fn operations_are_transformed_applied_and_acknowledged_to_all() {
    let mut handler = new_handler();
    let (s1, inbox1) = join(&mut handler, ROOM, U1);
    let (s2, inbox2) = join(&mut handler, ROOM, U2);
    received(&inbox1);
    received(&inbox2);
    let submit = |handler: &mut CollaborationHandler<Sink>, session, text: &str| {
        handler
            .handle_message(
                session,
                CollaborationMessage::Operation {
                    user_id: 0,
                    notebook_id: 0,
                    operation: Operation::Insert { position: 0, text: text.to_string() },
                    version: 0,
                },
            )
            .unwrap()
            .unwrap()
    };
    let first = submit(&mut handler, s1, "hello");
    deliver(&handler, &first);
    // Both users based their insert on version 0; the second gives way.
    let second = submit(&mut handler, s2, "world ");
    deliver(&handler, &second);
    match &second.message {
        CollaborationMessage::OperationAck { user_id, notebook_id, operation, version } => {
            assert_eq!(*user_id, U2);
            assert_eq!(*notebook_id, ROOM);
            assert_eq!(*version, 2);
            match operation {
                Operation::Insert { position, text } => {
                    assert_eq!(*position, 5);
                    assert_eq!(text, "world ");
                },
                other => panic!("unexpected {:?}", other),
            }
        },
        other => panic!("unexpected {:?}", other),
    }
    assert_eq!(second.recipients, vec![s1, s2]);
    let expected = vec![format!("ack {:x} 1", U1), format!("ack {:x} 2", U2)];
    assert_eq!(received(&inbox1), expected);
    assert_eq!(received(&inbox2), expected);
    assert_eq!(handler.ot.state.get_document(ROOM), Some(("helloworld ".to_string(), 2)));
}

#[test]
fn a_failed_operation_reaches_nobody_and_changes_nothing() {
    let mut handler = new_handler();
    let (s1, _inbox1) = join(&mut handler, ROOM, U1);
    let result = handler.handle_message(
        s1,
        CollaborationMessage::Operation {
            user_id: U1,
            notebook_id: ROOM,
            operation: Operation::Insert { position: 1, text: "x".to_string() },
            version: 0,
        },
    );
    assert!(matches!(result, Err(CollaborationError::Operation(OTError::OutOfBounds))));
    let result = handler.handle_message(
        s1,
        CollaborationMessage::Operation {
            user_id: U1,
            notebook_id: ROOM,
            operation: Operation::Insert { position: 0, text: "x".to_string() },
            version: 1,
        },
    );
    assert!(matches!(result, Err(CollaborationError::Operation(OTError::VersionMismatch))));
    assert_eq!(handler.ot.state.get_document(ROOM), Some(("".to_string(), 0)));
}

#[test]
fn a_sync_request_is_answered_to_the_requesting_session_only() {
    let mut handler = new_handler();
    let (s1, inbox1) = join(&mut handler, ROOM, U1);
    let (_s1b, inbox1b) = join(&mut handler, ROOM, U1);
    let (_s2, inbox2) = join(&mut handler, ROOM, U2);
    handler.ot.state.apply_operation(ROOM, OTOperation::Insert { position: 0, text: "abc".to_string() }, U2).unwrap();
    handler
        .handle_message(
            s1,
            CollaborationMessage::CursorMove {
                user_id: U1,
                notebook_id: ROOM,
                position: CursorPosition { line: 1, column: 1, selection_start: None },
            },
        )
        .unwrap();
    received(&inbox1);
    received(&inbox1b);
    received(&inbox2);
    let delivery = handler
        .handle_message(s1, CollaborationMessage::SyncRequest { user_id: U1, notebook_id: ROOM, version: 0 })
        .unwrap()
        .unwrap();
    assert_eq!(delivery.recipients, vec![s1]);
    match &delivery.message {
        CollaborationMessage::SyncResponse { notebook_id, content, version, operations, cursors } => {
            assert_eq!(*notebook_id, ROOM);
            assert_eq!(content, "abc");
            assert_eq!(*version, 1);
            assert!(operations.is_empty());
            let cursors = cursors.as_ref().unwrap();
            assert_eq!(cursors.len(), 1);
            assert_eq!(cursors[&U1].line, 1);
        },
        other => panic!("unexpected {:?}", other),
    }
    deliver(&handler, &delivery);
    assert_eq!(received(&inbox1), vec!["sync \"abc\" 1".to_string()]);
    assert!(received(&inbox1b).is_empty());
    assert!(received(&inbox2).is_empty());
}

#[test]
fn other_messages_are_ignored_and_unknown_sessions_refused() {
    let mut handler = new_handler();
    let (s1, _inbox1) = join(&mut handler, ROOM, U1);
    for message in [
        CollaborationMessage::UserJoined { user_id: U2, notebook_id: ROOM },
        CollaborationMessage::UserLeft { user_id: U2, notebook_id: ROOM },
        CollaborationMessage::OperationAck {
            user_id: U2,
            notebook_id: ROOM,
            operation: Operation::Retain { length: 1 },
            version: 9,
        },
        CollaborationMessage::SyncResponse {
            notebook_id: ROOM,
            content: "forged".to_string(),
            version: 9,
            operations: Vec::new(),
            cursors: None,
        },
    ] {
        assert!(handler.handle_message(s1, message).unwrap().is_none());
    }
    assert_eq!(handler.ot.state.get_document(ROOM), Some(("".to_string(), 0)));
    let result = handler
        .handle_message(s1 ^ 1, CollaborationMessage::SyncRequest { user_id: U1, notebook_id: ROOM, version: 0 });
    assert!(matches!(result, Err(CollaborationError::SessionNotFound)));
}

#[test]
fn broadcast_skips_the_excluded_users() {
    let mut sessions: SessionManager<Sink> = SessionManager::new();
    let (sink, _inbox) = channel();
    sessions.register(1, ROOM, U1, sink.clone()).unwrap();
    sessions.register(2, ROOM, U2, sink.clone()).unwrap();
    sessions.register(3, ROOM, U1, sink.clone()).unwrap();
    sessions.register(4, ROOM, U3, sink.clone()).unwrap();
    sessions.register(5, OTHER_ROOM, U2, sink).unwrap();
    assert_eq!(select_recipients(&sessions, ROOM, &[]), vec![1, 2, 3, 4]);
    assert_eq!(select_recipients(&sessions, ROOM, &[U1]), vec![2, 4]);
    assert_eq!(select_recipients(&sessions, ROOM, &[U3, U2]), vec![1, 3]);
    assert_eq!(select_recipients(&sessions, OTHER_ROOM, &[U1]), vec![5]);
    assert!(select_recipients(&sessions, 0x3000, &[]).is_empty());
    let handler = CollaborationHandler::new(CollaborationState::new(), sessions);
    let delivery =
        handler.broadcast(ROOM, CollaborationMessage::UserLeft { user_id: U2, notebook_id: ROOM }, &[U2]);
    assert_eq!(delivery.recipients, vec![1, 3, 4]);
    assert!(matches!(delivery.message, CollaborationMessage::UserLeft { user_id: U2, notebook_id: ROOM }));
}

#[test]
fn test_handle_operation() {
    // Setup
    let mut state = CollaborationState::new();
    let mut sessions: SessionManager<Sink> = SessionManager::new();

    let notebook_id = Uuid::new_v4().as_u128();
    let user_id = Uuid::new_v4().as_u128();

    // Create a test session
    let (tx, rx) = channel();
    let session_id = sessions.create(notebook_id, user_id, tx).unwrap();

    // Create notebook
    state.create_notebook(notebook_id, "");
    let mut handler = OTHandler::new(state, sessions);

    // Test insert operation
    let insert_op = OTOperation::Insert { position: 0, text: "Hello".to_string() };

    let delivery = handler.handle_operation(notebook_id, user_id, insert_op, 0).unwrap();
    for id in &delivery.recipients {
        let session = handler.sessions.get_session(id).unwrap();
        session.sender.send(describe(&delivery.message)).unwrap();
    }

    // Verify document content
    let (content, _) = handler.state.get_document(notebook_id).unwrap();
    assert_eq!(content, "Hello");

    // Verify broadcast message
    assert_eq!(delivery.recipients, vec![session_id]);
    match &delivery.message {
        CollaborationMessage::OperationAck { user_id: acked_user, notebook_id: acked_room, version, .. } => {
            assert_eq!(*acked_room, notebook_id);
            assert_eq!(*acked_user, user_id);
            assert_eq!(*version, 1);
        },
        _ => panic!("Expected WebSocket message"),
    }
    assert_eq!(rx.try_iter().count(), 1);
}

#[test]
fn a_sync_request_for_a_missing_room_or_session_fails() {
    let mut state = CollaborationState::new();
    let mut sessions: SessionManager<Sink> = SessionManager::new();
    let (sink, _inbox) = channel();
    sessions.register(1, ROOM, U1, sink.clone()).unwrap();
    sessions.register(2, OTHER_ROOM, U1, sink).unwrap();
    state.create_notebook(ROOM, "abc");
    let handler = OTHandler::new(state, sessions);
    assert!(matches!(
        handler.handle_sync_request(OTHER_ROOM, 2, 0),
        Err(CollaborationError::NotebookNotFound)
    ));
    assert!(matches!(handler.handle_sync_request(ROOM, 9, 0), Err(CollaborationError::SessionNotFound)));
    assert!(matches!(handler.handle_sync_request(ROOM, 2, 0), Err(CollaborationError::SessionNotFound)));
    assert_eq!(handler.handle_sync_request(ROOM, 1, 7).unwrap().recipients, vec![1]);
}

#[test]
fn connecting_under_a_given_identifier() {
    let mut handler = new_handler();
    let (sink, _inbox) = channel();
    let first = handler.connect_as(7, ROOM, U1, sink.clone()).unwrap();
    assert_eq!(first.session_id, 7);
    assert!(first.joined.recipients.is_empty());
    assert_eq!(first.sync.recipients, vec![7]);
    let second = handler.connect_as(8, ROOM, U2, sink.clone()).unwrap();
    assert_eq!(second.joined.recipients, vec![7]);
    assert_eq!(second.sync.recipients, vec![8]);
    // An identifier in use is refused, and nothing changes.
    match handler.connect_as(7, OTHER_ROOM, U3, sink) {
        Err(CollaborationError::Internal(text)) => assert_eq!(text, "Session identifier in use"),
        other => panic!("unexpected {:?}", other.map(|connection| connection.session_id)),
    }
    assert!(handler.ot.state.get_document(OTHER_ROOM).is_none());
    assert_eq!(handler.ot.sessions.get_session(&7).unwrap().user_id, U1);
    assert_eq!(handler.ot.sessions.get_sessions(ROOM).len(), 2);
}
