//! The registry of documents: one engine and one map of live cursors per room.
use super::error::CollaborationError;
use super::error::Failure;
use super::ot::Document;
use super::ot::Edit;
use super::ot::OTEngine;
use super::ot::OTError;
use super::ot::OTOperation;
use std::collections::HashMap;
use vstd::prelude::*;
use vstd::string::StringExecFns;

verus! {

broadcast use vstd::std_specs::hash::group_hash_axioms;

/// Where a user's cursor stands in a room's document. Cursors are not
/// versioned: the last one written wins.
#[derive(Debug, Clone, Copy)]
pub struct CursorPosition {
    pub notebook_id: u128,
    pub line: u32,
    pub column: u32,
    pub selection_start: Option<(u32, u32)>,
}

/// What the registry holds for one room.
pub struct NotebookState {
    pub engine: OTEngine,
    pub cursors: HashMap<u128, CursorPosition>,
}

/// The mathematical state of one room: its document and the cursor of each
/// user who has one.
pub ghost struct Room {
    pub document: Document,
    pub cursors: Map<u128, CursorPosition>,
}

impl Room {
    /// A room that has just been created with the text `seed`.
    pub open spec fn seeded(seed: Seq<char>) -> Room {
        Room { document: Document::seeded(seed), cursors: Map::empty() }
    }

    /// The room with its document replaced by `document`.
    pub open spec fn with_document(self, document: Document) -> Room {
        Room { document, cursors: self.cursors }
    }

    /// The room with its cursors replaced by `cursors`.
    pub open spec fn with_cursors(self, cursors: Map<u128, CursorPosition>) -> Room {
        Room { document: self.document, cursors }
    }
}

impl View for NotebookState {
    type V = Room;

    open spec fn view(&self) -> Room {
        Room { document: self.engine@, cursors: self.cursors@ }
    }
}

impl NotebookState {
    /// A room at version 0 that holds `initial_content` and no cursor.
    pub fn new(initial_content: &str) -> (notebook: Self)
        ensures
            notebook@ == Room::seeded(initial_content@),
    {
        NotebookState { engine: OTEngine::new(initial_content), cursors: HashMap::new() }
    }
}

/// The rooms of the process, by identifier.
pub struct CollaborationState {
    notebooks: HashMap<u128, NotebookState>,
}

impl View for CollaborationState {
    type V = Map<u128, Room>;

    closed spec fn view(&self) -> Map<u128, Room> {
        self.notebooks@.map_values(|notebook: NotebookState| notebook@)
    }
}

impl Default for CollaborationState {
    /// A registry without rooms.
    fn default() -> (state: Self)
        ensures
            state@ == Map::<u128, Room>::empty(),
    {
        CollaborationState::new()
    }
}

impl CollaborationState {
    /// A registry without rooms.
    pub fn new() -> (state: Self)
        ensures
            state@ == Map::<u128, Room>::empty(),
    {
        let state = CollaborationState { notebooks: HashMap::new() };
        assert(state@ =~= Map::<u128, Room>::empty());
        state
    }

    /// Seeds the room `notebook_id` with `initial_content`. A room that
    /// exists already is replaced: its text, version, log and cursors are
    /// lost.
    pub fn create_notebook(&mut self, notebook_id: u128, initial_content: &str)
        ensures
            final(self)@ == old(self)@.insert(notebook_id, Room::seeded(initial_content@)),
    {
        self.notebooks.insert(notebook_id, NotebookState::new(initial_content));
        assert(self@ =~= old(self)@.insert(notebook_id, Room::seeded(initial_content@)));
    }

    /// Applies `operation` for `client_id` to the room's document and
    /// returns the new text and version.
    ///
    /// `NotebookNotFound` where the room does not exist; the engine's
    /// refusal where it refuses. On failure nothing changes.
    pub fn apply_operation(
        &mut self,
        notebook_id: u128,
        operation: OTOperation,
        client_id: u128,
    ) -> (result: Result<(String, u64), CollaborationError>)
        ensures
            result is Ok <==> old(self)@.contains_key(notebook_id) && old(
                self,
            )@[notebook_id].document.refusal(operation@, client_id) is None,
            match result {
                Ok((text, version)) => {
                    &&& final(self)@.contains_key(notebook_id)
                    &&& old(self)@[notebook_id].document.applied(
                        operation@,
                        client_id,
                        final(self)@[notebook_id].document,
                    )
                    &&& final(self)@ == old(self)@.insert(
                        notebook_id,
                        old(self)@[notebook_id].with_document(final(self)@[notebook_id].document),
                    )
                    &&& text@ == final(self)@[notebook_id].document.text
                    &&& version == final(self)@[notebook_id].document.version
                },
                Err(e) => {
                    &&& final(self)@ == old(self)@
                    &&& e@ == if old(self)@.contains_key(notebook_id) {
                        Failure::Operation(
                            old(self)@[notebook_id].document.refusal(operation@, client_id)->Some_0,
                        )
                    } else {
                        Failure::NotebookNotFound
                    }
                },
            },
    {
        let mut notebook = match self.notebooks.remove(&notebook_id) {
            Some(notebook) => notebook,
            None => {
                assert(self@ =~= old(self)@);
                return Err(CollaborationError::NotebookNotFound);
            },
        };
        let applied = notebook.engine.apply_operation(operation, client_id);
        let result = match applied {
            Ok(version) => Ok((String::from_str(notebook.engine.get_document()), version)),
            Err(e) => Err(CollaborationError::Operation(e)),
        };
        let ghost room = notebook@;
        self.notebooks.insert(notebook_id, notebook);
        assert(self@ =~= old(self)@.insert(notebook_id, room));
        result
    }

    /// Moves `operation`, based on `since_version`, past what the room's
    /// document has applied since. The registry is left as it was.
    ///
    /// `NotebookNotFound` where the room does not exist; else what the
    /// engine's transform gives.
    pub fn transform_operation(
        &self,
        notebook_id: u128,
        operation: OTOperation,
        since_version: u64,
    ) -> (result: Result<OTOperation, CollaborationError>)
        ensures
            result is Ok <==> self@.contains_key(notebook_id) && self@[notebook_id].document.transform(
                operation@,
                since_version as nat,
            ) is Ok,
            match result {
                Ok(moved) => self@[notebook_id].document.transform(operation@, since_version as nat)
                    == Ok::<Edit, OTError>(moved@),
                Err(e) => e@ == if self@.contains_key(notebook_id) {
                    Failure::Operation(
                        self@[notebook_id].document.transform(
                            operation@,
                            since_version as nat,
                        )->Err_0,
                    )
                } else {
                    Failure::NotebookNotFound
                },
            },
    {
        match self.notebooks.get(&notebook_id) {
            Some(notebook) => match notebook.engine.transform_operation(&operation, since_version) {
                Ok(moved) => Ok(moved),
                Err(e) => Err(CollaborationError::Operation(e)),
            },
            None => Err(CollaborationError::NotebookNotFound),
        }
    }

    /// The room's text and version, or `None` where the room does not exist.
    /// The document of a room that exists is well-formed.
    pub fn get_document(&self, notebook_id: u128) -> (found: Option<(String, u64)>)
        ensures
            match found {
                Some((text, version)) => {
                    &&& self@.contains_key(notebook_id)
                    &&& self@[notebook_id].document.wf()
                    &&& text@ == self@[notebook_id].document.text
                    &&& version == self@[notebook_id].document.version
                },
                None => !self@.contains_key(notebook_id),
            },
    {
        match self.notebooks.get(&notebook_id) {
            Some(notebook) => Some(
                (String::from_str(notebook.engine.get_document()), notebook.engine.get_version()),
            ),
            None => None,
        }
    }

    /// Replaces the whole text of the room by `content` on behalf of
    /// `user_id` and returns the new version. The replacement is made of two
    /// operations of the engine, a deletion of everything and an insertion of
    /// `content`, so the version grows by two and the log still replays to
    /// the text. `NotebookNotFound` where the room does not exist.
    pub fn update_content(&mut self, notebook_id: u128, user_id: u128, content: &str) -> (result:
        Result<u64, CollaborationError>)
        ensures
            match result {
                Ok(version) => {
                    &&& old(self)@.contains_key(notebook_id)
                    &&& final(self)@.contains_key(notebook_id)
                    &&& old(self)@[notebook_id].document.replaced(
                        content@,
                        user_id,
                        final(self)@[notebook_id].document,
                    )
                    &&& final(self)@ == old(self)@.insert(
                        notebook_id,
                        old(self)@[notebook_id].with_document(final(self)@[notebook_id].document),
                    )
                    &&& final(self)@[notebook_id].document.text == content@
                    &&& version == old(self)@[notebook_id].document.version + 2
                    &&& version == final(self)@[notebook_id].document.version
                },
                Err(e) => {
                    &&& !old(self)@.contains_key(notebook_id)
                    &&& e@ == Failure::NotebookNotFound
                    &&& final(self)@ == old(self)@
                },
            },
    {
        let mut notebook = match self.notebooks.remove(&notebook_id) {
            Some(notebook) => notebook,
            None => {
                assert(self@ =~= old(self)@);
                return Err(CollaborationError::NotebookNotFound);
            },
        };
        let version = notebook.engine.replace_content(content, user_id);
        let ghost room = notebook@;
        self.notebooks.insert(notebook_id, notebook);
        assert(self@ =~= old(self)@.insert(notebook_id, room));
        Ok(version)
    }

    /// Records `position` as the cursor of `user_id` in the room, in place
    /// of any earlier one. `NotebookNotFound` where the room does not exist.
    pub fn update_cursor(&mut self, notebook_id: u128, user_id: u128, position: CursorPosition) -> (result:
        Result<(), CollaborationError>)
        ensures
            match result {
                Ok(_) => {
                    &&& old(self)@.contains_key(notebook_id)
                    &&& final(self)@ == old(self)@.insert(
                        notebook_id,
                        old(self)@[notebook_id].with_cursors(
                            old(self)@[notebook_id].cursors.insert(user_id, position),
                        ),
                    )
                },
                Err(e) => {
                    &&& !old(self)@.contains_key(notebook_id)
                    &&& e@ == Failure::NotebookNotFound
                    &&& final(self)@ == old(self)@
                },
            },
    {
        let mut notebook = match self.notebooks.remove(&notebook_id) {
            Some(notebook) => notebook,
            None => {
                assert(self@ =~= old(self)@);
                return Err(CollaborationError::NotebookNotFound);
            },
        };
        notebook.cursors.insert(user_id, position);
        let ghost room = notebook@;
        self.notebooks.insert(notebook_id, notebook);
        assert(self@ =~= old(self)@.insert(notebook_id, room));
        Ok(())
    }

    /// The cursors of the room, by user. `NotebookNotFound` where the room
    /// does not exist.
    pub fn get_cursors(&self, notebook_id: u128) -> (result: Result<
        HashMap<u128, CursorPosition>,
        CollaborationError,
    >)
        ensures
            match result {
                Ok(cursors) => {
                    &&& self@.contains_key(notebook_id)
                    &&& cursors@ == self@[notebook_id].cursors
                },
                Err(e) => {
                    &&& !self@.contains_key(notebook_id)
                    &&& e@ == Failure::NotebookNotFound
                },
            },
    {
        match self.notebooks.get(&notebook_id) {
            Some(notebook) => Ok(notebook.cursors.clone()),
            None => Err(CollaborationError::NotebookNotFound),
        }
    }

    /// Drops the cursor of `user_id` from the room; the document is not
    /// touched. `NotebookNotFound` where the room does not exist.
    pub fn remove_user(&mut self, notebook_id: u128, user_id: u128) -> (result: Result<
        (),
        CollaborationError,
    >)
        ensures
            match result {
                Ok(_) => {
                    &&& old(self)@.contains_key(notebook_id)
                    &&& final(self)@ == old(self)@.insert(
                        notebook_id,
                        old(self)@[notebook_id].with_cursors(
                            old(self)@[notebook_id].cursors.remove(user_id),
                        ),
                    )
                },
                Err(e) => {
                    &&& !old(self)@.contains_key(notebook_id)
                    &&& e@ == Failure::NotebookNotFound
                    &&& final(self)@ == old(self)@
                },
            },
    {
        let mut notebook = match self.notebooks.remove(&notebook_id) {
            Some(notebook) => notebook,
            None => {
                assert(self@ =~= old(self)@);
                return Err(CollaborationError::NotebookNotFound);
            },
        };
        notebook.cursors.remove(&user_id);
        let ghost room = notebook@;
        self.notebooks.insert(notebook_id, notebook);
        assert(self@ =~= old(self)@.insert(notebook_id, room));
        Ok(())
    }
}

} // verus!
