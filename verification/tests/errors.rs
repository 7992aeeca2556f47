use collab_engine::collaboration::error::CollaborationError;
use collab_engine::collaboration::message::CursorPosition;
use collab_engine::collaboration::message::Operation;
use collab_engine::collaboration::ot::OTError;
use collab_engine::collaboration::ot::OTOperation;

#[test]
fn failures_in_words() {
    assert_eq!(CollaborationError::SessionNotFound.message(), "Session not found");
    assert_eq!(CollaborationError::NotebookNotFound.message(), "Notebook not found");
    assert_eq!(CollaborationError::OperationConflict.message(), "Operation conflict");
    assert_eq!(CollaborationError::PermissionDenied.message(), "Permission denied");
    assert_eq!(
        CollaborationError::Internal("queue closed".to_string()).message(),
        "Internal server error: queue closed"
    );
    assert_eq!(CollaborationError::Operation(OTError::OutOfBounds).message(), "Operation out of bounds");
}

#[test]
fn failures_as_responses() {
    let parts = |e: CollaborationError| e.response_parts();
    assert_eq!(parts(CollaborationError::SessionNotFound), (404, "Session not found".to_string()));
    assert_eq!(parts(CollaborationError::NotebookNotFound), (404, "Notebook not found".to_string()));
    assert_eq!(parts(CollaborationError::OperationConflict), (409, "Operation conflict".to_string()));
    assert_eq!(parts(CollaborationError::PermissionDenied), (403, "Permission denied".to_string()));
    assert_eq!(
        parts(CollaborationError::Internal("boom".to_string())),
        (500, "Internal error: boom".to_string())
    );
    assert_eq!(
        parts(CollaborationError::Operation(OTError::VersionMismatch)),
        (409, "Version mismatch".to_string())
    );
    assert_eq!(
        parts(CollaborationError::Operation(OTError::OutOfBounds)),
        (400, "Operation out of bounds".to_string())
    );
    assert_eq!(
        parts(CollaborationError::Operation(OTError::InvalidOperation)),
        (400, "Invalid operation".to_string())
    );
}

#[test]
fn engine_failures_convert() {
    let failure: CollaborationError = OTError::InvalidOperation.into();
    assert!(matches!(failure, CollaborationError::Operation(OTError::InvalidOperation)));
}

#[test]
fn wire_and_engine_operations_convert() {
    let wire = Operation::Insert { position: 3, text: "abc".to_string() };
    match OTOperation::from(wire.clone()) {
        OTOperation::Insert { position, text } => {
            assert_eq!(position, 3);
            assert_eq!(text, "abc");
        },
        other => panic!("unexpected {:?}", other),
    }
    match Operation::from(OTOperation::Delete { position: 1, length: 2 }) {
        Operation::Delete { position, length } => {
            assert_eq!(position, 1);
            assert_eq!(length, 2);
        },
        other => panic!("unexpected {:?}", other),
    }
    assert!(matches!(
        OTOperation::from(Operation::Retain { length: 4 }),
        OTOperation::Retain { length: 4 }
    ));
}

#[test]
fn a_reported_cursor_is_placed_in_its_room() {
    let cursor = CursorPosition { line: 3, column: 4, selection_start: Some((1, 2)) }.in_notebook(77);
    assert_eq!(cursor.notebook_id, 77);
    assert_eq!(cursor.line, 3);
    assert_eq!(cursor.column, 4);
    assert_eq!(cursor.selection_start, Some((1, 2)));
}
