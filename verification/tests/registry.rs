use collab_engine::collaboration::error::CollaborationError;
use collab_engine::collaboration::ot::OTError;
use collab_engine::collaboration::ot::OTOperation;
use collab_engine::collaboration::state::CollaborationState;
use collab_engine::collaboration::state::CursorPosition;
use collab_engine::collaboration::state::NotebookState;

const ROOM: u128 = 0x1000;
const OTHER_ROOM: u128 = 0x2000;
const ANN: u128 = 0xa;
const BOB: u128 = 0xb;

fn insert(position: usize, text: &str) -> OTOperation {
    OTOperation::Insert { position, text: text.to_string() }
}

fn cursor(line: u32, column: u32) -> CursorPosition {
    CursorPosition { notebook_id: ROOM, line, column, selection_start: None }
}

#[test]
fn a_new_registry_has_no_rooms() {
    let state = CollaborationState::new();
    assert!(state.get_document(ROOM).is_none());
    assert!(matches!(state.get_cursors(ROOM), Err(CollaborationError::NotebookNotFound)));
    let state = CollaborationState::default();
    assert!(state.get_document(ROOM).is_none());
}

#[test]
fn create_seeds_a_room_at_version_zero() {
    let mut state = CollaborationState::new();
    state.create_notebook(ROOM, "hello");
    assert_eq!(state.get_document(ROOM), Some(("hello".to_string(), 0)));
    assert!(state.get_document(OTHER_ROOM).is_none());
    assert!(state.get_cursors(ROOM).unwrap().is_empty());
}

#[test]
fn create_again_replaces_the_room() {
    let mut state = CollaborationState::new();
    state.create_notebook(ROOM, "first");
    state.apply_operation(ROOM, insert(5, "!"), ANN).unwrap();
    state.update_cursor(ROOM, ANN, cursor(1, 1)).unwrap();
    state.create_notebook(ROOM, "second");
    assert_eq!(state.get_document(ROOM), Some(("second".to_string(), 0)));
    assert!(state.get_cursors(ROOM).unwrap().is_empty());
}

#[test]
fn apply_returns_text_and_version() {
    let mut state = CollaborationState::new();
    state.create_notebook(ROOM, "ab");
    state.create_notebook(OTHER_ROOM, "zz");
    assert_eq!(state.apply_operation(ROOM, insert(1, "X"), ANN).unwrap(), ("aXb".to_string(), 1));
    assert_eq!(
        state.apply_operation(ROOM, OTOperation::Delete { position: 0, length: 2 }, BOB).unwrap(),
        ("b".to_string(), 2)
    );
    // The other room is not touched.
    assert_eq!(state.get_document(OTHER_ROOM), Some(("zz".to_string(), 0)));
}

#[test]
fn apply_fails_without_the_room_or_out_of_bounds() {
    let mut state = CollaborationState::new();
    assert!(matches!(
        state.apply_operation(ROOM, insert(0, "a"), ANN),
        Err(CollaborationError::NotebookNotFound)
    ));
    state.create_notebook(ROOM, "ab");
    assert!(matches!(
        state.apply_operation(ROOM, insert(3, "a"), ANN),
        Err(CollaborationError::Operation(OTError::OutOfBounds))
    ));
    assert!(matches!(
        state.apply_operation(ROOM, OTOperation::Delete { position: 0, length: 3 }, ANN),
        Err(CollaborationError::Operation(OTError::OutOfBounds))
    ));
    assert_eq!(state.get_document(ROOM), Some(("ab".to_string(), 0)));
}

#[test]
fn transform_goes_through_the_room_log() {
    let mut state = CollaborationState::new();
    assert!(matches!(
        state.transform_operation(ROOM, insert(0, "a"), 0),
        Err(CollaborationError::NotebookNotFound)
    ));
    state.create_notebook(ROOM, "");
    state.apply_operation(ROOM, insert(0, "hello"), ANN).unwrap();
    match state.transform_operation(ROOM, insert(0, "world "), 0).unwrap() {
        OTOperation::Insert { position, text } => {
            assert_eq!(position, 5);
            assert_eq!(text, "world ");
        },
        other => panic!("unexpected {:?}", other),
    }
    assert!(matches!(
        state.transform_operation(ROOM, insert(0, "a"), 2),
        Err(CollaborationError::Operation(OTError::VersionMismatch))
    ));
    assert!(matches!(
        state.transform_operation(
            ROOM,
            OTOperation::Delete { position: 1, length: 1 },
            0
        ),
        Err(CollaborationError::Operation(OTError::InvalidOperation))
    ));
    // Transforming changes nothing.
    assert_eq!(state.get_document(ROOM), Some(("hello".to_string(), 1)));
}

#[test]
fn cursors_are_last_write_wins() {
    let mut state = CollaborationState::new();
    assert!(matches!(
        state.update_cursor(ROOM, ANN, cursor(0, 0)),
        Err(CollaborationError::NotebookNotFound)
    ));
    state.create_notebook(ROOM, "text");
    state.update_cursor(ROOM, ANN, cursor(1, 2)).unwrap();
    state.update_cursor(ROOM, BOB, cursor(3, 4)).unwrap();
    state.update_cursor(
        ROOM,
        ANN,
        CursorPosition { notebook_id: ROOM, line: 5, column: 6, selection_start: Some((5, 1)) },
    )
    .unwrap();
    let cursors = state.get_cursors(ROOM).unwrap();
    assert_eq!(cursors.len(), 2);
    assert_eq!(cursors[&ANN].line, 5);
    assert_eq!(cursors[&ANN].column, 6);
    assert_eq!(cursors[&ANN].selection_start, Some((5, 1)));
    assert_eq!(cursors[&BOB].line, 3);
    // Cursors do not move the version.
    assert_eq!(state.get_document(ROOM), Some(("text".to_string(), 0)));
}

#[test]
fn remove_user_drops_the_cursor_only() {
    let mut state = CollaborationState::new();
    assert!(matches!(state.remove_user(ROOM, ANN), Err(CollaborationError::NotebookNotFound)));
    state.create_notebook(ROOM, "text");
    state.apply_operation(ROOM, insert(4, "!"), ANN).unwrap();
    state.update_cursor(ROOM, ANN, cursor(1, 2)).unwrap();
    state.update_cursor(ROOM, BOB, cursor(3, 4)).unwrap();
    state.remove_user(ROOM, ANN).unwrap();
    let cursors = state.get_cursors(ROOM).unwrap();
    assert_eq!(cursors.len(), 1);
    assert!(cursors.contains_key(&BOB));
    assert_eq!(state.get_document(ROOM), Some(("text!".to_string(), 1)));
    // Removing a user without a cursor is not a failure.
    state.remove_user(ROOM, ANN).unwrap();
}

#[test]
fn update_content_replaces_the_text_in_two_steps() {
    let mut state = CollaborationState::new();
    assert!(matches!(
        state.update_content(ROOM, ANN, "x"),
        Err(CollaborationError::NotebookNotFound)
    ));
    state.create_notebook(ROOM, "old text");
    state.apply_operation(ROOM, insert(0, ">"), BOB).unwrap();
    assert_eq!(state.update_content(ROOM, ANN, "new").unwrap(), 3);
    assert_eq!(state.get_document(ROOM), Some(("new".to_string(), 3)));
    assert_eq!(state.update_content(ROOM, ANN, "").unwrap(), 5);
    assert_eq!(state.get_document(ROOM), Some(("".to_string(), 5)));
}

#[test]
fn a_room_of_its_own() {
    let mut notebook = NotebookState::new("abc");
    assert_eq!(notebook.engine.get_document(), "abc");
    assert_eq!(notebook.engine.get_version(), 0);
    assert!(notebook.cursors.is_empty());
    notebook.engine.apply_operation(insert(0, "x"), ANN).unwrap();
    assert_eq!(notebook.engine.get_document(), "xabc");
}
