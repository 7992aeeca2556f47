//! The messages exchanged with clients, and the wire form of an operation.
use super::ot::Edit;
use super::ot::OTOperation;
use super::state;
use std::collections::HashMap;
use vstd::prelude::*;
use vstd::std_specs::convert::FromSpecImpl;

verus! {

/// A cursor as a client reports it: line, column and, where text is
/// selected, the other end of the selection.
#[derive(Debug, Clone, Copy)]
pub struct CursorPosition {
    pub line: u32,
    pub column: u32,
    pub selection_start: Option<(u32, u32)>,
}

impl CursorPosition {
    /// The cursor as the registry keeps it for the room `notebook_id`.
    pub open spec fn placed(self, notebook_id: u128) -> state::CursorPosition {
        state::CursorPosition {
            notebook_id,
            line: self.line,
            column: self.column,
            selection_start: self.selection_start,
        }
    }

    /// The cursor as the registry keeps it for the room `notebook_id`.
    pub fn in_notebook(&self, notebook_id: u128) -> (cursor: state::CursorPosition)
        ensures
            cursor == self.placed(notebook_id),
    {
        state::CursorPosition {
            notebook_id,
            line: self.line,
            column: self.column,
            selection_start: self.selection_start,
        }
    }
}

/// An edit in its wire form. It says what [`OTOperation`] says.
#[derive(Debug)]
pub enum Operation {
    Insert { position: usize, text: String },
    Delete { position: usize, length: usize },
    Retain { length: usize },
}

impl View for Operation {
    type V = Edit;

    open spec fn view(&self) -> Edit {
        match *self {
            Operation::Insert { position, text } => Edit::Insert {
                position: position as nat,
                text: text@,
            },
            Operation::Delete { position, length } => Edit::Delete {
                position: position as nat,
                length: length as nat,
            },
            Operation::Retain { length } => Edit::Retain { length: length as nat },
        }
    }
}

impl Clone for Operation {
    fn clone(&self) -> (copy: Self)
        ensures
            copy == *self,
    {
        match self {
            Operation::Insert { position, text } => Operation::Insert {
                position: *position,
                text: text.clone(),
            },
            Operation::Delete { position, length } => Operation::Delete {
                position: *position,
                length: *length,
            },
            Operation::Retain { length } => Operation::Retain { length: *length },
        }
    }
}

impl From<Operation> for OTOperation {
    fn from(operation: Operation) -> (engine_form: OTOperation) {
        match operation {
            Operation::Insert { position, text } => OTOperation::Insert { position, text },
            Operation::Delete { position, length } => OTOperation::Delete { position, length },
            Operation::Retain { length } => OTOperation::Retain { length },
        }
    }
}

impl FromSpecImpl<Operation> for OTOperation {
    open spec fn obeys_from_spec() -> bool {
        true
    }

    open spec fn from_spec(operation: Operation) -> OTOperation {
        match operation {
            Operation::Insert { position, text } => OTOperation::Insert { position, text },
            Operation::Delete { position, length } => OTOperation::Delete { position, length },
            Operation::Retain { length } => OTOperation::Retain { length },
        }
    }
}

impl From<OTOperation> for Operation {
    fn from(operation: OTOperation) -> (wire_form: Operation) {
        match operation {
            OTOperation::Insert { position, text } => Operation::Insert { position, text },
            OTOperation::Delete { position, length } => Operation::Delete { position, length },
            OTOperation::Retain { length } => Operation::Retain { length },
        }
    }
}

impl FromSpecImpl<OTOperation> for Operation {
    open spec fn obeys_from_spec() -> bool {
        true
    }

    open spec fn from_spec(operation: OTOperation) -> Operation {
        match operation {
            OTOperation::Insert { position, text } => Operation::Insert { position, text },
            OTOperation::Delete { position, length } => Operation::Delete { position, length },
            OTOperation::Retain { length } => Operation::Retain { length },
        }
    }
}

/// A message between a client and the core. `user_id` names the user that
/// the message is about, `notebook_id` the room.
#[derive(Debug)]
pub enum CollaborationMessage {
    /// A user has connected to the room.
    UserJoined { user_id: u128, notebook_id: u128 },
    /// A user has left the room.
    UserLeft { user_id: u128, notebook_id: u128 },
    /// A user's cursor has moved.
    CursorMove { user_id: u128, notebook_id: u128, position: CursorPosition },
    /// A user replaces the whole text.
    ContentUpdate { user_id: u128, notebook_id: u128, content: String },
    /// A user submits an operation that it based on `version`.
    Operation { user_id: u128, notebook_id: u128, operation: Operation, version: u64 },
    /// The engine has applied `operation`, in the form given here, and the
    /// document is now at `version`.
    OperationAck { user_id: u128, notebook_id: u128, operation: Operation, version: u64 },
    /// A user asks for the state of the room; it holds `version`.
    SyncRequest { user_id: u128, notebook_id: u128, version: u64 },
    /// The state of the room: its text and version, operations that are
    /// pending, and the cursors where they were asked for.
    SyncResponse {
        notebook_id: u128,
        content: String,
        version: u64,
        operations: Vec<Operation>,
        cursors: Option<HashMap<u128, state::CursorPosition>>,
    },
}

/// The mathematical form of a message.
pub ghost enum Notice {
    UserJoined { user_id: u128, notebook_id: u128 },
    UserLeft { user_id: u128, notebook_id: u128 },
    CursorMove { user_id: u128, notebook_id: u128, position: CursorPosition },
    ContentUpdate { user_id: u128, notebook_id: u128, content: Seq<char> },
    Operation { user_id: u128, notebook_id: u128, operation: Edit, version: u64 },
    OperationAck { user_id: u128, notebook_id: u128, operation: Edit, version: u64 },
    SyncRequest { user_id: u128, notebook_id: u128, version: u64 },
    SyncResponse {
        notebook_id: u128,
        content: Seq<char>,
        version: u64,
        operations: Seq<Edit>,
        cursors: Option<Map<u128, state::CursorPosition>>,
    },
}

impl View for CollaborationMessage {
    type V = Notice;

    open spec fn view(&self) -> Notice {
        match *self {
            CollaborationMessage::UserJoined { user_id, notebook_id } => Notice::UserJoined {
                user_id,
                notebook_id,
            },
            CollaborationMessage::UserLeft { user_id, notebook_id } => Notice::UserLeft {
                user_id,
                notebook_id,
            },
            CollaborationMessage::CursorMove { user_id, notebook_id, position } => Notice::CursorMove {
                user_id,
                notebook_id,
                position,
            },
            CollaborationMessage::ContentUpdate {
                user_id,
                notebook_id,
                content,
            } => Notice::ContentUpdate { user_id, notebook_id, content: content@ },
            CollaborationMessage::Operation {
                user_id,
                notebook_id,
                operation,
                version,
            } => Notice::Operation { user_id, notebook_id, operation: operation@, version },
            CollaborationMessage::OperationAck {
                user_id,
                notebook_id,
                operation,
                version,
            } => Notice::OperationAck { user_id, notebook_id, operation: operation@, version },
            CollaborationMessage::SyncRequest { user_id, notebook_id, version } => Notice::SyncRequest {
                user_id,
                notebook_id,
                version,
            },
            CollaborationMessage::SyncResponse {
                notebook_id,
                content,
                version,
                operations,
                cursors,
            } => Notice::SyncResponse {
                notebook_id,
                content: content@,
                version,
                operations: operations@.map_values(|operation: Operation| operation@),
                cursors: match cursors {
                    Some(by_user) => Some(by_user@),
                    None => None,
                },
            },
        }
    }
}

} // verus!
