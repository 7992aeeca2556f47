//! The decisions of a connection: what happens when a user connects, sends a
//! message, or leaves.
//!
//! Each step is a function from the registries and an event to the new
//! registries and the messages to deliver. Receiving frames, decoding them,
//! encoding the answers and writing them to a session's sink is left to the
//! caller, who owns the connection.
use super::error::CollaborationError;
use super::error::Failure;
use super::message::CollaborationMessage;
use super::message::Notice;
use super::message::Operation;
use super::ot::OTOperation;
use super::ot_handler::audience;
use super::ot_handler::not_excluded;
use super::ot_handler::operation_handled;
use super::ot_handler::sync_answer;
use super::ot_handler::Delivery;
use super::ot_handler::OTHandler;
use super::ot_handler::Parcel;
use super::session::lemma_remove_keeps_wf;
use super::session::version_four;
use super::session::Registry;
use super::session::Session;
use super::session::SessionManager;
use super::state::CollaborationState;
use super::state::Room;
use vstd::prelude::*;

verus! {

/// What a user's arrival leads to: the new session, the notice for the
/// others in the room, and the state of the room for the new session.
#[derive(Debug)]
pub struct Connection {
    pub session_id: u128,
    pub joined: Delivery,
    pub sync: Delivery,
}

/// What a user's departure leads to: the session that ended, with its sink,
/// and the notice for those who remain.
#[derive(Debug)]
pub struct Disconnection<S> {
    pub session: Session<S>,
    pub left: Delivery,
}

/// The rooms after a user has been referred to `notebook_id`: a room that
/// did not exist is there, empty and at version 0.
pub open spec fn with_room(rooms: Map<u128, Room>, notebook_id: u128) -> Map<u128, Room> {
    if rooms.contains_key(notebook_id) {
        rooms
    } else {
        rooms.insert(notebook_id, Room::seeded(Seq::empty()))
    }
}

/// The rooms after `user_id` has left `notebook_id`: the user's cursor is
/// gone from the room, if the room exists.
pub open spec fn without_cursor(rooms: Map<u128, Room>, notebook_id: u128, user_id: u128) -> Map<
    u128,
    Room,
> {
    if rooms.contains_key(notebook_id) {
        rooms.insert(
            notebook_id,
            rooms[notebook_id].with_cursors(rooms[notebook_id].cursors.remove(user_id)),
        )
    } else {
        rooms
    }
}

/// What the handling of a message returned, taken by its view.
pub open spec fn answer(result: Result<Option<Delivery>, CollaborationError>) -> Result<
    Option<Parcel>,
    Failure,
> {
    match result {
        Ok(Some(delivery)) => Ok(Some(delivery@)),
        Ok(None) => Ok(None),
        Err(e) => Err(e@),
    }
}

/// An answer that carries a delivery or a failure, without the option.
pub open spec fn delivered(answer: Result<Option<Parcel>, Failure>) -> Result<Parcel, Failure>
    recommends
        answer != Ok::<Option<Parcel>, Failure>(None),
{
    match answer {
        Ok(Some(parcel)) => Ok(parcel),
        Ok(None) => arbitrary(),
        Err(e) => Err(e),
    }
}

/// The outcome of a cursor report by `user_id` in the room: the cursor is
/// recorded in place of any earlier one, and the sessions of the other users
/// in the room are told, with the user's identifier attached.
/// `NotebookNotFound`, with nothing changed, where the room does not exist.
pub open spec fn cursor_moved<S>(
    rooms: Map<u128, Room>,
    registry: Registry<S>,
    notebook_id: u128,
    user_id: u128,
    position: super::message::CursorPosition,
    after: Map<u128, Room>,
    answer: Result<Option<Parcel>, Failure>,
) -> bool {
    if !rooms.contains_key(notebook_id) {
        after == rooms && answer == Err::<Option<Parcel>, Failure>(Failure::NotebookNotFound)
    } else {
        &&& after == rooms.insert(
            notebook_id,
            rooms[notebook_id].with_cursors(
                rooms[notebook_id].cursors.insert(user_id, position.placed(notebook_id)),
            ),
        )
        &&& answer == Ok::<Option<Parcel>, Failure>(
            Some(
                Parcel {
                    message: Notice::CursorMove { user_id, notebook_id, position },
                    recipients: audience(registry, notebook_id, seq![user_id]),
                },
            ),
        )
    }
}

/// The outcome of a replacement of the whole text by `user_id` in the room:
/// the room's document is the one that the replacement leaves, and the
/// sessions of the other users in the room get the new text and version.
/// `NotebookNotFound`, with nothing changed, where the room does not exist.
pub open spec fn content_replaced<S>(
    rooms: Map<u128, Room>,
    registry: Registry<S>,
    notebook_id: u128,
    user_id: u128,
    content: Seq<char>,
    after: Map<u128, Room>,
    answer: Result<Option<Parcel>, Failure>,
) -> bool {
    if !rooms.contains_key(notebook_id) {
        after == rooms && answer == Err::<Option<Parcel>, Failure>(Failure::NotebookNotFound)
    } else {
        &&& after.contains_key(notebook_id)
        &&& rooms[notebook_id].document.replaced(content, user_id, after[notebook_id].document)
        &&& after == rooms.insert(
            notebook_id,
            rooms[notebook_id].with_document(after[notebook_id].document),
        )
        &&& after[notebook_id].document.text == content
        &&& after[notebook_id].document.version == rooms[notebook_id].document.version + 2
        &&& answer == Ok::<Option<Parcel>, Failure>(
            Some(
                Parcel {
                    message: Notice::SyncResponse {
                        notebook_id,
                        content,
                        version: after[notebook_id].document.version as u64,
                        operations: Seq::empty(),
                        cursors: None,
                    },
                    recipients: audience(registry, notebook_id, seq![user_id]),
                },
            ),
        )
    }
}

/// The outcome of a message that arrived on the session `session_id`:
/// `after` are the rooms it leaves and `answer` is what the handler returns.
///
/// The user and the room are those of the session, whatever the message
/// itself names. `SessionNotFound`, with nothing changed, where there is no
/// such session. A cursor report, a replacement of the text, an operation
/// and a request for the state of the room are handled as their own
/// relations say; any other message changes nothing and is answered with
/// nothing.
pub open spec fn message_handled<S>(
    rooms: Map<u128, Room>,
    registry: Registry<S>,
    session_id: u128,
    message: Notice,
    after: Map<u128, Room>,
    answer: Result<Option<Parcel>, Failure>,
) -> bool {
    if !registry.sessions.contains_key(session_id) {
        after == rooms && answer == Err::<Option<Parcel>, Failure>(Failure::SessionNotFound)
    } else {
        let user_id = registry.sessions[session_id].user_id;
        let notebook_id = registry.sessions[session_id].notebook_id;
        match message {
            Notice::CursorMove { position, .. } => cursor_moved(
                rooms,
                registry,
                notebook_id,
                user_id,
                position,
                after,
                answer,
            ),
            Notice::ContentUpdate { content, .. } => content_replaced(
                rooms,
                registry,
                notebook_id,
                user_id,
                content,
                after,
                answer,
            ),
            Notice::Operation { operation, version, .. } => {
                &&& answer != Ok::<Option<Parcel>, Failure>(None)
                &&& operation_handled(
                    rooms,
                    registry,
                    notebook_id,
                    user_id,
                    operation,
                    version as nat,
                    after,
                    delivered(answer),
                )
            },
            Notice::SyncRequest { .. } => {
                &&& after == rooms
                &&& answer != Ok::<Option<Parcel>, Failure>(None)
                &&& delivered(answer) == sync_answer(rooms, registry, notebook_id, session_id)
            },
            _ => after == rooms && answer == Ok::<Option<Parcel>, Failure>(None),
        }
    }
}

/// The mathematical form of a [`Connection`].
pub ghost struct Arrival {
    pub session_id: u128,
    pub joined: Parcel,
    pub sync: Parcel,
}

/// What a connection attempt returned, taken by its view.
pub open spec fn arrival(result: Result<Connection, CollaborationError>) -> Result<Arrival, Failure> {
    match result {
        Ok(connection) => Ok(
            Arrival {
                session_id: connection.session_id,
                joined: connection.joined@,
                sync: connection.sync@,
            },
        ),
        Err(e) => Err(e@),
    }
}

/// The outcome of the arrival of `session`: `rooms_after` and
/// `registry_after` are what it leaves and `arrival` is what the handler
/// returns.
///
/// Where the identifier of the session is in use, the arrival fails with
/// `Internal` and nothing changes. Else the session is registered; its room
/// is there, created empty if it was not; the notice that the user joined
/// goes to the sessions that the other users had in the room; and the room's
/// text and version, with no pending operations and no cursors, go to the
/// new session alone.
pub open spec fn connected<S>(
    rooms: Map<u128, Room>,
    registry: Registry<S>,
    session: Session<S>,
    rooms_after: Map<u128, Room>,
    registry_after: Registry<S>,
    arrival: Result<Arrival, Failure>,
) -> bool {
    if registry.sessions.contains_key(session.id) {
        &&& rooms_after == rooms
        &&& registry_after == registry
        &&& arrival == Err::<Arrival, Failure>(Failure::Internal("Session identifier in use"@))
    } else {
        let room = with_room(rooms, session.notebook_id)[session.notebook_id];
        &&& rooms_after == with_room(rooms, session.notebook_id)
        &&& registry_after == registry.register(session)
        &&& arrival == Ok::<Arrival, Failure>(
            Arrival {
                session_id: session.id,
                joined: joined_notice(registry, session.notebook_id, session.user_id),
                sync: first_sync(room, session.notebook_id, session.id),
            },
        )
    }
}

/// The notice that `user_id` joined the room, made out to the sessions that
/// the other users have in it.
pub open spec fn joined_notice<S>(registry: Registry<S>, notebook_id: u128, user_id: u128) -> Parcel {
    Parcel {
        message: Notice::UserJoined { user_id, notebook_id },
        recipients: audience(registry, notebook_id, seq![user_id]),
    }
}

/// The notice that `user_id` left the room, made out to every session that
/// is in it.
pub open spec fn left_notice<S>(registry: Registry<S>, notebook_id: u128, user_id: u128) -> Parcel {
    Parcel {
        message: Notice::UserLeft { user_id, notebook_id },
        recipients: registry.in_notebook(notebook_id),
    }
}

/// The state of `room` as a new session gets it: its text and version,
/// with no pending operations and no cursors, for that session alone.
pub open spec fn first_sync(room: Room, notebook_id: u128, session_id: u128) -> Parcel {
    Parcel {
        message: Notice::SyncResponse {
            notebook_id,
            content: room.document.text,
            version: room.document.version as u64,
            operations: Seq::empty(),
            cursors: None,
        },
        recipients: seq![session_id],
    }
}

/// The connection handler: it owns, through its routing of operations, the
/// registry of documents and the registry of sessions.
pub struct CollaborationHandler<S> {
    pub ot: OTHandler<S>,
}

impl<S> CollaborationHandler<S> {
    /// The rooms, by identifier.
    pub open spec fn rooms(&self) -> Map<u128, Room> {
        self.ot.state@
    }

    /// The sessions.
    pub open spec fn registry(&self) -> Registry<S> {
        self.ot.sessions@
    }

    /// A handler over the two registries.
    pub fn new(state: CollaborationState, sessions: SessionManager<S>) -> (handler: Self)
        ensures
            handler.ot.state == state,
            handler.ot.sessions == sessions,
    {
        CollaborationHandler { ot: OTHandler::new(state, sessions) }
    }

    /// `message` for every session of the room but those of the users in
    /// `exclude_user_ids`.
    pub fn broadcast(
        &self,
        notebook_id: u128,
        message: CollaborationMessage,
        exclude_user_ids: &[u128],
    ) -> (delivery: Delivery)
        ensures
            delivery.message == message,
            delivery.recipients@ == audience(self.registry(), notebook_id, exclude_user_ids@),
    {
        self.ot.broadcast(notebook_id, message, exclude_user_ids)
    }

    /// What follows the registration of the session `session_id` of
    /// `user_id` in the room: the room is created, empty, if this is the
    /// first reference to it; the notice that the user joined is made out to
    /// the sessions of the other users in the room; and the room's text and
    /// version are made out to the new session.
    fn welcome(&mut self, session_id: u128, notebook_id: u128, user_id: u128) -> (connection:
        Connection)
        ensures
            final(self).registry() == old(self).registry(),
            final(self).rooms() == with_room(old(self).rooms(), notebook_id),
            connection.session_id == session_id,
            connection.joined@ == joined_notice(old(self).registry(), notebook_id, user_id),
            connection.sync@ == first_sync(final(self).rooms()[notebook_id], notebook_id, session_id),
    {
        let (content, version) = match self.ot.state.get_document(notebook_id) {
            Some(found) => found,
            None => {
                self.ot.state.create_notebook(notebook_id, "");
                proof {
                    reveal_strlit("");
                    assert(""@ =~= Seq::<char>::empty());
                }
                (String::new(), 0u64)
            },
        };
        let mut sender_only: Vec<u128> = Vec::new();
        sender_only.push(user_id);
        assert(sender_only@ =~= seq![user_id]);
        let joined = self.broadcast(
            notebook_id,
            CollaborationMessage::UserJoined { user_id, notebook_id },
            sender_only.as_slice(),
        );
        let operations: Vec<Operation> = Vec::new();
        let mut recipients: Vec<u128> = Vec::new();
        recipients.push(session_id);
        proof {
            assert(recipients@ =~= seq![session_id]);
            assert(operations@.map_values(|operation: Operation| operation@) =~= Seq::empty());
        }
        let sync = Delivery {
            message: CollaborationMessage::SyncResponse {
                notebook_id,
                content,
                version,
                operations,
                cursors: None,
            },
            recipients,
        };
        Connection { session_id, joined, sync }
    }

    /// A user connects to a room under the session identifier `session_id`.
    /// The session is registered; the room is created, empty, if this is the
    /// first reference to it; the sessions of the other users in the room are
    /// told that the user joined; and the new session gets the room's text
    /// and version, with no pending operations.
    ///
    /// `Internal`, with nothing changed, where the identifier is in use.
    pub fn connect_as(&mut self, session_id: u128, notebook_id: u128, user_id: u128, sender: S) -> (result:
        Result<Connection, CollaborationError>)
        ensures
            result is Ok <==> !old(self).registry().sessions.contains_key(session_id),
            connected(
                old(self).rooms(),
                old(self).registry(),
                (Session { id: session_id, user_id, notebook_id, sender }),
                final(self).rooms(),
                final(self).registry(),
                arrival(result),
            ),
    {
        match self.ot.sessions.register(session_id, notebook_id, user_id, sender) {
            Ok(_) => {},
            Err(e) => {
                return Err(e);
            },
        }
        let connection = self.welcome(session_id, notebook_id, user_id);
        proof {
            assert(seq![user_id][0] == user_id);
            lemma_audience_ignores_own_session(
                old(self).registry(),
                Session { id: session_id, user_id, notebook_id, sender },
                seq![user_id],
            );
        }
        Ok(connection)
    }

    /// A user connects to a room. As [`CollaborationHandler::connect_as`],
    /// under a fresh random identifier, which is returned with the
    /// connection.
    ///
    /// The identifier is drawn at random, in the form of version 4. Where
    /// the draw gives one that is in use, the connection is refused with
    /// `Internal` and nothing changes; so the user is connected whenever the
    /// registry holds no identifier of that form.
    pub fn connect(&mut self, notebook_id: u128, user_id: u128, sender: S) -> (result: Result<
        Connection,
        CollaborationError,
    >)
        ensures
            match result {
                Ok(connection) => {
                    &&& version_four(connection.session_id)
                    &&& !old(self).registry().sessions.contains_key(connection.session_id)
                    &&& connected(
                        old(self).rooms(),
                        old(self).registry(),
                        (Session { id: connection.session_id, user_id, notebook_id, sender }),
                        final(self).rooms(),
                        final(self).registry(),
                        arrival(result),
                    )
                },
                Err(e) => {
                    &&& e@ == Failure::Internal("Session identifier in use"@)
                    &&& final(self).registry() == old(self).registry()
                    &&& final(self).rooms() == old(self).rooms()
                    &&& exists|id: u128| #[trigger]
                        old(self).registry().sessions.contains_key(id) && version_four(id)
                },
            },
    {
        let session_id = match self.ot.sessions.create(notebook_id, user_id, sender) {
            Ok(session_id) => session_id,
            Err(e) => {
                return Err(e);
            },
        };
        let connection = self.welcome(session_id, notebook_id, user_id);
        proof {
            assert(seq![user_id][0] == user_id);
            lemma_audience_ignores_own_session(
                old(self).registry(),
                Session { id: session_id, user_id, notebook_id, sender },
                seq![user_id],
            );
        }
        Ok(connection)
    }

    /// Handles a message that arrived on the session `session_id`, and
    /// returns the message to deliver in answer, if any, with the sessions
    /// it goes to. The sessions themselves are left as they were.
    pub fn handle_message(&mut self, session_id: u128, message: CollaborationMessage) -> (result:
        Result<Option<Delivery>, CollaborationError>)
        ensures
            final(self).registry() == old(self).registry(),
            message_handled(
                old(self).rooms(),
                old(self).registry(),
                session_id,
                message@,
                final(self).rooms(),
                answer(result),
            ),
    {
        let (notebook_id, user_id) = match self.ot.sessions.get_session(&session_id) {
            Some(session) => (session.notebook_id, session.user_id),
            None => {
                return Err(CollaborationError::SessionNotFound);
            },
        };
        let mut sender_only: Vec<u128> = Vec::new();
        sender_only.push(user_id);
        assert(sender_only@ =~= seq![user_id]);
        match message {
            CollaborationMessage::CursorMove { position, .. } => {
                match self.ot.state.update_cursor(
                    notebook_id,
                    user_id,
                    position.in_notebook(notebook_id),
                ) {
                    Ok(_) => {},
                    Err(e) => {
                        return Err(e);
                    },
                }
                Ok(
                    Some(
                        self.broadcast(
                            notebook_id,
                            CollaborationMessage::CursorMove { user_id, notebook_id, position },
                            sender_only.as_slice(),
                        ),
                    ),
                )
            },
            CollaborationMessage::ContentUpdate { content, .. } => {
                let version = match self.ot.state.update_content(
                    notebook_id,
                    user_id,
                    content.as_str(),
                ) {
                    Ok(version) => version,
                    Err(e) => {
                        return Err(e);
                    },
                };
                let operations: Vec<Operation> = Vec::new();
                proof {
                    assert(operations@.map_values(|operation: Operation| operation@)
                        =~= Seq::empty());
                }
                Ok(
                    Some(
                        self.broadcast(
                            notebook_id,
                            CollaborationMessage::SyncResponse {
                                notebook_id,
                                content,
                                version,
                                operations,
                                cursors: None,
                            },
                            sender_only.as_slice(),
                        ),
                    ),
                )
            },
            CollaborationMessage::Operation { operation, version, .. } => {
                match self.ot.handle_operation(
                    notebook_id,
                    user_id,
                    OTOperation::from(operation),
                    version,
                ) {
                    Ok(delivery) => Ok(Some(delivery)),
                    Err(e) => Err(e),
                }
            },
            CollaborationMessage::SyncRequest { version, .. } => {
                match self.ot.handle_sync_request(notebook_id, session_id, version) {
                    Ok(delivery) => Ok(Some(delivery)),
                    Err(e) => Err(e),
                }
            },
            _ => Ok(None),
        }
    }

    /// A session ends. It is taken out of the registry, the cursor of its
    /// user is dropped from its room, and every session that remains in the
    /// room is told that the user left.
    ///
    /// `SessionNotFound`, with nothing changed, where there is no such
    /// session.
    pub fn disconnect(&mut self, session_id: u128) -> (result: Result<
        Disconnection<S>,
        CollaborationError,
    >)
        ensures
            match result {
                Ok(disconnection) => {
                    let session = disconnection.session;
                    &&& old(self).registry().sessions.contains_key(session_id)
                    &&& session == old(self).registry().sessions[session_id]
                    &&& final(self).registry() == old(self).registry().remove(session_id)
                    &&& final(self).rooms() == without_cursor(
                        old(self).rooms(),
                        session.notebook_id,
                        session.user_id,
                    )
                    &&& disconnection.left@ == left_notice(
                        final(self).registry(),
                        session.notebook_id,
                        session.user_id,
                    )
                    &&& !disconnection.left@.recipients.contains(session_id)
                },
                Err(e) => {
                    &&& e@ == Failure::SessionNotFound
                    &&& !old(self).registry().sessions.contains_key(session_id)
                    &&& final(self).registry() == old(self).registry()
                    &&& final(self).rooms() == old(self).rooms()
                },
            },
    {
        let session = match self.ot.sessions.remove(&session_id) {
            Some(session) => session,
            None => {
                return Err(CollaborationError::SessionNotFound);
            },
        };
        let _ = self.ot.state.remove_user(session.notebook_id, session.user_id);
        let nobody: Vec<u128> = Vec::new();
        let left = self.broadcast(
            session.notebook_id,
            CollaborationMessage::UserLeft {
                user_id: session.user_id,
                notebook_id: session.notebook_id,
            },
            nobody.as_slice(),
        );
        proof {
            super::ot_handler::lemma_nobody_excluded(self.registry(), session.notebook_id);
            lemma_remove_keeps_wf(old(self).registry(), session_id);
        }
        Ok(Disconnection { session, left })
    }
}

/// Two tests that agree on every entry of a sequence filter it alike.
pub proof fn lemma_filter_agrees(
    ids: Seq<u128>,
    keep: spec_fn(u128) -> bool,
    other: spec_fn(u128) -> bool,
)
    requires
        forall|i: int| 0 <= i < ids.len() ==> keep(#[trigger] ids[i]) == other(ids[i]),
    ensures
        ids.filter(keep) == ids.filter(other),
    decreases ids.len(),
{
    reveal(Seq::filter);
    if ids.len() > 0 {
        lemma_filter_agrees(ids.drop_last(), keep, other);
    }
}

/// A broadcast that excludes a user reaches the same sessions before and
/// after that user has registered a new session: "the others" are the same.
pub proof fn lemma_audience_ignores_own_session<S>(
    registry: Registry<S>,
    session: Session<S>,
    excluded: Seq<u128>,
)
    requires
        registry.wf(),
        !registry.sessions.contains_key(session.id),
        excluded.contains(session.user_id),
    ensures
        audience(registry.register(session), session.notebook_id, excluded) == audience(
            registry,
            session.notebook_id,
            excluded,
        ),
{
    let after = registry.register(session);
    let ids = registry.in_notebook(session.notebook_id);
    let keep = not_excluded(registry, excluded);
    let keep_after = not_excluded(after, excluded);
    assert(after.in_notebook(session.notebook_id) == ids.push(session.id));
    ids.lemma_filter_push(session.id, keep_after);
    assert forall|i: int| 0 <= i < ids.len() implies keep(#[trigger] ids[i]) == keep_after(
        ids[i],
    ) by {
        assert(registry.sessions.contains_key(registry.by_notebook[session.notebook_id][i]));
    }
    lemma_filter_agrees(ids, keep, keep_after);
}

} // verus!
