//! Routing of operations and of requests for the state of a room.
//!
//! The handler decides: it changes the registries and says which message goes
//! to which sessions. Encoding a message and handing it to a session's sink
//! is left to the caller.
use super::error::CollaborationError;
use super::error::Failure;
use super::message::CollaborationMessage;
use super::message::Notice;
use super::message::Operation;
use super::ot::Edit;
use super::ot::OTOperation;
use super::session::Registry;
use super::session::SessionManager;
use super::state::CollaborationState;
use super::state::Room;
use vstd::prelude::*;

verus! {

/// A message and the sessions that it goes to, in the order of delivery.
#[derive(Debug)]
pub struct Delivery {
    pub message: CollaborationMessage,
    pub recipients: Vec<u128>,
}

/// The mathematical form of a delivery.
pub ghost struct Parcel {
    pub message: Notice,
    pub recipients: Seq<u128>,
}

impl View for Delivery {
    type V = Parcel;

    open spec fn view(&self) -> Parcel {
        Parcel { message: self.message@, recipients: self.recipients@ }
    }
}

/// The test that keeps the sessions of users who are not in `excluded`.
pub open spec fn not_excluded<S>(registry: Registry<S>, excluded: Seq<u128>) -> spec_fn(
    u128,
) -> bool {
    |id: u128| !excluded.contains(registry.sessions[id].user_id)
}

/// The sessions that a broadcast in the room reaches: the room's sessions,
/// oldest first, without those of the users in `excluded`.
pub open spec fn audience<S>(registry: Registry<S>, notebook_id: u128, excluded: Seq<u128>) -> Seq<
    u128,
> {
    registry.in_notebook(notebook_id).filter(not_excluded(registry, excluded))
}

/// What a step of the routing returned, taken by its view.
pub open spec fn reply(result: Result<Delivery, CollaborationError>) -> Result<Parcel, Failure> {
    match result {
        Ok(delivery) => Ok(delivery@),
        Err(e) => Err(e@),
    }
}

/// The outcome of an operation that `user_id` based on version `since`:
/// `after` are the rooms it leaves and `reply` is what the routing returns.
///
/// The operation fails with `NotebookNotFound` where the room does not
/// exist, and with the engine's failure where the transform fails or the
/// moved operation is refused; then the rooms are unchanged. Else the room's
/// document is the one that the submission leaves, and the moved operation
/// is acknowledged, with the new version, to every session of the room.
pub open spec fn operation_handled<S>(
    rooms: Map<u128, Room>,
    registry: Registry<S>,
    notebook_id: u128,
    user_id: u128,
    op: Edit,
    since: nat,
    after: Map<u128, Room>,
    reply: Result<Parcel, Failure>,
) -> bool {
    if !rooms.contains_key(notebook_id) {
        after == rooms && reply == Err::<Parcel, Failure>(Failure::NotebookNotFound)
    } else {
        match rooms[notebook_id].document.submit_refusal(op, user_id, since) {
            Some(e) => after == rooms && reply == Err::<Parcel, Failure>(Failure::Operation(e)),
            None => {
                &&& after.contains_key(notebook_id)
                &&& rooms[notebook_id].document.submitted(
                    op,
                    user_id,
                    since,
                    after[notebook_id].document,
                )
                &&& after == rooms.insert(
                    notebook_id,
                    rooms[notebook_id].with_document(after[notebook_id].document),
                )
                &&& reply == Ok::<Parcel, Failure>(
                    Parcel {
                        message: Notice::OperationAck {
                            user_id,
                            notebook_id,
                            operation: after[notebook_id].document.log.last().operation,
                            version: after[notebook_id].document.version as u64,
                        },
                        recipients: registry.in_notebook(notebook_id),
                    },
                )
            },
        }
    }
}

/// The answer to a request for the state of the room by the session
/// `session_id`: `NotebookNotFound` where the room does not exist, else
/// `SessionNotFound` where the session does not exist or is in another room,
/// else the room's text, version and cursors, with no pending operations,
/// for that session alone.
pub open spec fn sync_answer<S>(
    rooms: Map<u128, Room>,
    registry: Registry<S>,
    notebook_id: u128,
    session_id: u128,
) -> Result<Parcel, Failure> {
    if !rooms.contains_key(notebook_id) {
        Err(Failure::NotebookNotFound)
    } else if !registry.sessions.contains_key(session_id)
        || registry.sessions[session_id].notebook_id != notebook_id {
        Err(Failure::SessionNotFound)
    } else {
        Ok(
            Parcel {
                message: Notice::SyncResponse {
                    notebook_id,
                    content: rooms[notebook_id].document.text,
                    version: rooms[notebook_id].document.version as u64,
                    operations: Seq::empty(),
                    cursors: Some(rooms[notebook_id].cursors),
                },
                recipients: seq![session_id],
            },
        )
    }
}

/// Whether `user_id` occurs in `user_ids`.
pub fn is_listed(user_ids: &[u128], user_id: u128) -> (listed: bool)
    ensures
        listed == user_ids@.contains(user_id),
{
    let mut i: usize = 0;
    while i < user_ids.len()
        invariant
            i <= user_ids.len(),
            forall|j: int| 0 <= j < i ==> user_ids@[j] != user_id,
        decreases user_ids.len() - i,
    {
        if user_ids[i] == user_id {
            return true;
        }
        i += 1;
    }
    false
}

/// The sessions that a broadcast in the room reaches: the room's sessions,
/// oldest first, without those of the users in `exclude_user_ids`.
pub fn select_recipients<S>(
    sessions: &SessionManager<S>,
    notebook_id: u128,
    exclude_user_ids: &[u128],
) -> (recipients: Vec<u128>)
    ensures
        recipients@ == audience(sessions@, notebook_id, exclude_user_ids@),
{
    let present = sessions.get_sessions(notebook_id);
    let ghost ids = sessions@.in_notebook(notebook_id);
    let ghost keep = not_excluded(sessions@, exclude_user_ids@);
    let mut recipients: Vec<u128> = Vec::new();
    let mut i: usize = 0;
    proof {
        reveal(Seq::filter);
        assert(ids.take(0) =~= Seq::empty());
    }
    while i < present.len()
        invariant
            i <= present.len(),
            present@.len() == ids.len(),
            ids == sessions@.in_notebook(notebook_id),
            keep == not_excluded(sessions@, exclude_user_ids@),
            forall|j: int|
                0 <= j < present@.len() ==> *(#[trigger] present@[j]) == sessions@.sessions[ids[j]]
                    && present@[j].id == ids[j],
            recipients@ == ids.take(i as int).filter(keep),
        decreases present.len() - i,
    {
        let session = present[i];
        proof {
            assert(ids.take(i + 1) =~= ids.take(i as int).push(ids[i as int]));
            ids.take(i as int).lemma_filter_push(ids[i as int], keep);
        }
        if !is_listed(exclude_user_ids, session.user_id) {
            recipients.push(session.id);
        }
        i += 1;
    }
    proof {
        assert(ids.take(i as int) =~= ids);
    }
    recipients
}

/// The routing of operations: it owns the registry of documents and the
/// registry of sessions.
pub struct OTHandler<S> {
    pub state: CollaborationState,
    pub sessions: SessionManager<S>,
}

impl<S> OTHandler<S> {
    /// A handler over the two registries.
    pub fn new(state: CollaborationState, sessions: SessionManager<S>) -> (handler: Self)
        ensures
            handler.state == state,
            handler.sessions == sessions,
    {
        OTHandler { state, sessions }
    }

    /// `message` for every session of the room but those of the users in
    /// `exclude_user_ids`.
    pub fn broadcast(
        &self,
        notebook_id: u128,
        message: CollaborationMessage,
        exclude_user_ids: &[u128],
    ) -> (delivery: Delivery)
        ensures
            delivery.message == message,
            delivery.recipients@ == audience(self.sessions@, notebook_id, exclude_user_ids@),
    {
        Delivery {
            message,
            recipients: select_recipients(&self.sessions, notebook_id, exclude_user_ids),
        }
    }

    /// Takes an operation that `user_id` based on `version`: moves it past
    /// what the room's document has applied since, applies it, and
    /// acknowledges it to every session of the room, the sender's included,
    /// in its moved form and with the new version.
    ///
    /// `NotebookNotFound` where the room does not exist; the engine's
    /// failure where the transform fails or the moved operation is refused.
    /// On failure nothing changes and nothing is delivered.
    pub fn handle_operation(
        &mut self,
        notebook_id: u128,
        user_id: u128,
        operation: OTOperation,
        version: u64,
    ) -> (result: Result<Delivery, CollaborationError>)
        ensures
            final(self).sessions@ == old(self).sessions@,
            operation_handled(
                old(self).state@,
                old(self).sessions@,
                notebook_id,
                user_id,
                operation@,
                version as nat,
                final(self).state@,
                reply(result),
            ),
    {
        let transformed = match self.state.transform_operation(notebook_id, operation, version) {
            Ok(transformed) => transformed,
            Err(e) => {
                return Err(e);
            },
        };
        let new_version = match self.state.apply_operation(notebook_id, transformed.clone(), user_id) {
            Ok((_, new_version)) => new_version,
            Err(e) => {
                return Err(e);
            },
        };
        let message = CollaborationMessage::OperationAck {
            user_id,
            notebook_id,
            operation: Operation::from(transformed),
            version: new_version,
        };
        let nobody: Vec<u128> = Vec::new();
        let delivery = self.broadcast(notebook_id, message, nobody.as_slice());
        proof {
            lemma_nobody_excluded(self.sessions@, notebook_id);
        }
        Ok(delivery)
    }

    /// Answers a request for the state of the room: the room's text, version
    /// and cursors, with no pending operations, for the requesting session
    /// alone. The version that the requester holds, `since_version`, does not
    /// change the answer. Nothing changes.
    ///
    /// `NotebookNotFound` where the room does not exist; else
    /// `SessionNotFound` where the session does not exist or is in another
    /// room.
    pub fn handle_sync_request(&self, notebook_id: u128, session_id: u128, since_version: u64) -> (result:
        Result<Delivery, CollaborationError>)
        ensures
            reply(result) == sync_answer(self.state@, self.sessions@, notebook_id, session_id),
    {
        let (content, version) = match self.state.get_document(notebook_id) {
            Some(found) => found,
            None => {
                return Err(CollaborationError::NotebookNotFound);
            },
        };
        let cursors = match self.state.get_cursors(notebook_id) {
            Ok(cursors) => cursors,
            Err(e) => {
                return Err(e);
            },
        };
        match self.sessions.get_session(&session_id) {
            Some(session) => {
                if session.notebook_id != notebook_id {
                    return Err(CollaborationError::SessionNotFound);
                }
            },
            None => {
                return Err(CollaborationError::SessionNotFound);
            },
        }
        let operations: Vec<Operation> = Vec::new();
        let message = CollaborationMessage::SyncResponse {
            notebook_id,
            content,
            version,
            operations,
            cursors: Some(cursors),
        };
        let mut recipients: Vec<u128> = Vec::new();
        recipients.push(session_id);
        proof {
            assert(recipients@ =~= seq![session_id]);
            assert(operations@.map_values(|operation: Operation| operation@) =~= Seq::empty());
        }
        Ok(Delivery { message, recipients })
    }
}

/// A broadcast that excludes nobody reaches every session of the room.
pub proof fn lemma_nobody_excluded<S>(registry: Registry<S>, notebook_id: u128)
    ensures
        audience(registry, notebook_id, Seq::empty()) == registry.in_notebook(notebook_id),
{
    let ids = registry.in_notebook(notebook_id);
    let keep = not_excluded(registry, Seq::empty());
    lemma_filter_all(ids, keep);
}

/// A filter that every entry passes changes nothing.
pub proof fn lemma_filter_all(ids: Seq<u128>, keep: spec_fn(u128) -> bool)
    requires
        forall|i: int| 0 <= i < ids.len() ==> keep(#[trigger] ids[i]),
    ensures
        ids.filter(keep) == ids,
    decreases ids.len(),
{
    reveal(Seq::filter);
    if ids.len() > 0 {
        lemma_filter_all(ids.drop_last(), keep);
        assert(ids.drop_last().push(ids.last()) =~= ids);
    }
}

} // verus!
