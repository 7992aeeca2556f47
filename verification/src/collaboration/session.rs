//! The registry of sessions: who is connected, to which room, and through
//! which sink messages reach them.
//!
//! The registry keeps three indices over one set of sessions: by session, by
//! user and by room. Its invariant says that the three agree.
use super::error::CollaborationError;
use super::error::Failure;
use std::collections::HashMap;
use vstd::prelude::*;
use vstd::string::StringExecFns;

verus! {

broadcast use vstd::std_specs::hash::group_hash_axioms;

/// One live connection: its identifier, the user behind it, the room it is
/// in, and the sink through which messages reach the client. The registry
/// never looks into the sink.
#[derive(Debug)]
pub struct Session<S> {
    pub id: u128,
    pub user_id: u128,
    pub notebook_id: u128,
    pub sender: S,
}

/// The sessions of the process.
pub struct SessionManager<S> {
    sessions: HashMap<u128, Session<S>>,
    user_sessions: HashMap<u128, Vec<u128>>,
    notebook_sessions: HashMap<u128, Vec<u128>>,
}

/// An index as the registry holds it, with each list taken by its view.
pub open spec fn entries(index: Map<u128, Vec<u128>>) -> Map<u128, Seq<u128>> {
    index.map_values(|ids: Vec<u128>| ids@)
}

impl<S> View for SessionManager<S> {
    type V = Registry<S>;

    closed spec fn view(&self) -> Registry<S> {
        Registry {
            sessions: self.sessions@,
            by_user: entries(self.user_sessions@),
            by_notebook: entries(self.notebook_sessions@),
        }
    }
}

/// The entries of `index` under `key`, oldest first; none where the key is
/// absent.
pub open spec fn bucket(index: Map<u128, Seq<u128>>, key: u128) -> Seq<u128> {
    if index.contains_key(key) {
        index[key]
    } else {
        Seq::empty()
    }
}

/// The test that keeps every identifier but `id`.
pub open spec fn other_than(id: u128) -> spec_fn(u128) -> bool {
    |candidate: u128| candidate != id
}

/// `index` with `id` appended to the entries under `key`.
pub open spec fn with_entry(index: Map<u128, Seq<u128>>, key: u128, id: u128) -> Map<
    u128,
    Seq<u128>,
> {
    index.insert(key, bucket(index, key).push(id))
}

/// `index` with `id` taken out of the entries under `key`, and without the
/// key where nothing is left under it.
pub open spec fn without_entry(index: Map<u128, Seq<u128>>, key: u128, id: u128) -> Map<
    u128,
    Seq<u128>,
> {
    let rest = bucket(index, key).filter(other_than(id));
    if rest.len() == 0 {
        index.remove(key)
    } else {
        index.insert(key, rest)
    }
}

/// `index` groups exactly the sessions of `sessions` by `key_of`: no key
/// without an entry, no entry twice, every entry a session of that key, and
/// every session among the entries of its key.
pub open spec fn groups<S>(
    index: Map<u128, Seq<u128>>,
    sessions: Map<u128, Session<S>>,
    key_of: spec_fn(Session<S>) -> u128,
) -> bool {
    &&& forall|key: u128| #[trigger]
        index.contains_key(key) ==> index[key].len() > 0 && index[key].no_duplicates()
    &&& forall|key: u128, i: int|
        index.contains_key(key) && 0 <= i < index[key].len() ==> sessions.contains_key(
            #[trigger] index[key][i],
        ) && key_of(sessions[index[key][i]]) == key
    &&& forall|id: u128| #[trigger]
        sessions.contains_key(id) ==> index.contains_key(key_of(sessions[id])) && index[key_of(
            sessions[id],
        )].contains(id)
}

/// The user of a session.
pub open spec fn user_of<S>() -> spec_fn(Session<S>) -> u128 {
    |session: Session<S>| session.user_id
}

/// The room of a session.
pub open spec fn notebook_of<S>() -> spec_fn(Session<S>) -> u128 {
    |session: Session<S>| session.notebook_id
}

/// The mathematical state of the registry.
pub ghost struct Registry<S> {
    /// The sessions by identifier.
    pub sessions: Map<u128, Session<S>>,
    /// For each user with a session, the user's sessions, oldest first.
    pub by_user: Map<u128, Seq<u128>>,
    /// For each room with a session, the room's sessions, oldest first.
    pub by_notebook: Map<u128, Seq<u128>>,
}

impl<S> Registry<S> {
    /// The registry without sessions.
    pub open spec fn empty() -> Registry<S> {
        Registry { sessions: Map::empty(), by_user: Map::empty(), by_notebook: Map::empty() }
    }

    /// The three indices agree.
    pub open spec fn wf(self) -> bool {
        &&& forall|id: u128| #[trigger]
            self.sessions.contains_key(id) ==> self.sessions[id].id == id
        &&& groups(self.by_user, self.sessions, user_of::<S>())
        &&& groups(self.by_notebook, self.sessions, notebook_of::<S>())
    }

    /// The sessions of the room, oldest first.
    pub open spec fn in_notebook(self, notebook_id: u128) -> Seq<u128> {
        bucket(self.by_notebook, notebook_id)
    }

    /// The sessions of the user, oldest first.
    pub open spec fn of_user(self, user_id: u128) -> Seq<u128> {
        bucket(self.by_user, user_id)
    }

    /// The registry with `session` entered in all three indices.
    pub open spec fn register(self, session: Session<S>) -> Registry<S> {
        Registry {
            sessions: self.sessions.insert(session.id, session),
            by_user: with_entry(self.by_user, session.user_id, session.id),
            by_notebook: with_entry(self.by_notebook, session.notebook_id, session.id),
        }
    }

    /// The registry with the session `id` taken out of all three indices; an
    /// index entry that is left empty goes too. Unchanged where there is no
    /// such session.
    pub open spec fn remove(self, id: u128) -> Registry<S> {
        if self.sessions.contains_key(id) {
            Registry {
                sessions: self.sessions.remove(id),
                by_user: without_entry(self.by_user, self.sessions[id].user_id, id),
                by_notebook: without_entry(self.by_notebook, self.sessions[id].notebook_id, id),
            }
        } else {
            self
        }
    }
}

/// Filtering keeps a sequence free of duplicates, and keeps exactly the
/// entries that pass the test.
pub proof fn lemma_filter_keeps_distinct(ids: Seq<u128>, keep: spec_fn(u128) -> bool)
    requires
        ids.no_duplicates(),
    ensures
        ids.filter(keep).no_duplicates(),
        forall|id: u128| #[trigger] ids.filter(keep).contains(id) <==> ids.contains(id) && keep(id),
    decreases ids.len(),
{
    reveal(Seq::filter);
    if ids.len() > 0 {
        let front = ids.drop_last();
        let last = ids.last();
        let kept = front.filter(keep);
        let all = ids.filter(keep);
        lemma_filter_keeps_distinct(front, keep);
        assert(!front.contains(last)) by {
            if front.contains(last) {
                let i = choose|i: int| 0 <= i < front.len() && front[i] == last;
                assert(ids[i] == ids[ids.len() - 1]);
            }
        }
        assert(!kept.contains(last));
        assert forall|id: u128| #[trigger] all.contains(id) <==> ids.contains(id) && keep(id) by {
            if all.contains(id) {
                let j = choose|j: int| 0 <= j < all.len() && all[j] == id;
                if j < kept.len() {
                    assert(kept[j] == id);
                    assert(kept.contains(id));
                    assert(front.contains(id));
                    let i = choose|i: int| 0 <= i < front.len() && front[i] == id;
                    assert(ids[i] == id);
                } else {
                    assert(id == last);
                    assert(ids[ids.len() - 1] == id);
                }
            }
            if ids.contains(id) && keep(id) {
                let i = choose|i: int| 0 <= i < ids.len() && ids[i] == id;
                if i == ids.len() - 1 {
                    assert(all[kept.len() as int] == id);
                } else {
                    assert(front[i] == id);
                    assert(front.contains(id));
                    assert(kept.contains(id));
                    let j = choose|j: int| 0 <= j < kept.len() && kept[j] == id;
                    assert(all[j] == id);
                }
            }
        }
    }
}

/// Entering a new session keeps an index in agreement with the sessions.
pub proof fn lemma_with_entry_groups<S>(
    index: Map<u128, Seq<u128>>,
    sessions: Map<u128, Session<S>>,
    key_of: spec_fn(Session<S>) -> u128,
    session: Session<S>,
)
    requires
        groups(index, sessions, key_of),
        !sessions.contains_key(session.id),
    ensures
        groups(
            with_entry(index, key_of(session), session.id),
            sessions.insert(session.id, session),
            key_of,
        ),
{
    let key = key_of(session);
    let id = session.id;
    let old_bucket = bucket(index, key);
    let new_index = with_entry(index, key, id);
    let new_sessions = sessions.insert(id, session);
    assert(!old_bucket.contains(id)) by {
        if old_bucket.contains(id) {
            let i = choose|i: int| 0 <= i < old_bucket.len() && old_bucket[i] == id;
            assert(sessions.contains_key(index[key][i]));
        }
    }
    assert forall|other: u128, i: int|
        new_index.contains_key(other) && 0 <= i < new_index[other].len() implies new_sessions.contains_key(
        #[trigger] new_index[other][i],
    ) && key_of(new_sessions[new_index[other][i]]) == other by {
        if other == key {
            if i < old_bucket.len() {
                assert(new_index[other][i] == index[key][i]);
            }
        } else {
            assert(new_index[other][i] == index[other][i]);
        }
    }
    assert forall|other: u128| #[trigger]
        new_sessions.contains_key(other) implies new_index.contains_key(
        key_of(new_sessions[other]),
    ) && new_index[key_of(new_sessions[other])].contains(other) by {
        if other == id {
            assert(new_index[key][old_bucket.len() as int] == id);
        } else {
            let k = key_of(sessions[other]);
            assert(index[k].contains(other));
            let i = choose|i: int| 0 <= i < index[k].len() && index[k][i] == other;
            assert(new_index[k][i] == other);
        }
    }
}

/// Taking a session out keeps an index in agreement with the sessions.
pub proof fn lemma_without_entry_groups<S>(
    index: Map<u128, Seq<u128>>,
    sessions: Map<u128, Session<S>>,
    key_of: spec_fn(Session<S>) -> u128,
    id: u128,
)
    requires
        groups(index, sessions, key_of),
        sessions.contains_key(id),
    ensures
        groups(without_entry(index, key_of(sessions[id]), id), sessions.remove(id), key_of),
{
    let key = key_of(sessions[id]);
    let old_bucket = index[key];
    let rest = old_bucket.filter(other_than(id));
    let new_index = without_entry(index, key, id);
    let new_sessions = sessions.remove(id);
    lemma_filter_keeps_distinct(old_bucket, other_than(id));
    assert forall|other: u128, i: int|
        new_index.contains_key(other) && 0 <= i < new_index[other].len() implies new_sessions.contains_key(
        #[trigger] new_index[other][i],
    ) && key_of(new_sessions[new_index[other][i]]) == other by {
        if other == key {
            let entry = rest[i];
            assert(rest.contains(entry));
            assert(old_bucket.contains(entry) && entry != id);
            let j = choose|j: int| 0 <= j < old_bucket.len() && old_bucket[j] == entry;
            assert(sessions.contains_key(index[key][j]));
        } else {
            assert(new_index[other][i] == index[other][i]);
            assert(index[other][i] != id);
        }
    }
    assert forall|other: u128| #[trigger]
        new_sessions.contains_key(other) implies new_index.contains_key(
        key_of(new_sessions[other]),
    ) && new_index[key_of(new_sessions[other])].contains(other) by {
        let k = key_of(sessions[other]);
        assert(index[k].contains(other));
        if k == key {
            assert(rest.contains(other));
        }
    }
}

/// Entering a new session keeps the registry well-formed.
pub proof fn lemma_register_keeps_wf<S>(registry: Registry<S>, session: Session<S>)
    requires
        registry.wf(),
        !registry.sessions.contains_key(session.id),
    ensures
        registry.register(session).wf(),
{
    lemma_with_entry_groups(registry.by_user, registry.sessions, user_of::<S>(), session);
    lemma_with_entry_groups(registry.by_notebook, registry.sessions, notebook_of::<S>(), session);
}

/// Taking a session out keeps the registry well-formed, and leaves no trace
/// of the session in any of the three indices.
pub proof fn lemma_remove_keeps_wf<S>(registry: Registry<S>, id: u128)
    requires
        registry.wf(),
    ensures
        registry.remove(id).wf(),
        !registry.remove(id).sessions.contains_key(id),
        forall|user: u128| !bucket(registry.remove(id).by_user, user).contains(id),
        forall|notebook: u128| !bucket(registry.remove(id).by_notebook, notebook).contains(id),
{
    if registry.sessions.contains_key(id) {
        lemma_without_entry_groups(registry.by_user, registry.sessions, user_of::<S>(), id);
        lemma_without_entry_groups(registry.by_notebook, registry.sessions, notebook_of::<S>(), id);
    }
    let after = registry.remove(id);
    assert forall|user: u128| !bucket(after.by_user, user).contains(id) by {
        if bucket(after.by_user, user).contains(id) {
            let i = choose|i: int|
                0 <= i < after.by_user[user].len() && after.by_user[user][i] == id;
            assert(after.sessions.contains_key(after.by_user[user][i]));
        }
    }
    assert forall|notebook: u128| !bucket(after.by_notebook, notebook).contains(id) by {
        if bucket(after.by_notebook, notebook).contains(id) {
            let i = choose|i: int|
                0 <= i < after.by_notebook[notebook].len() && after.by_notebook[notebook][i] == id;
            assert(after.sessions.contains_key(after.by_notebook[notebook][i]));
        }
    }
}

/// The identifier has the form of a random one: its version bits say 4 and
/// its variant bits say RFC 4122.
pub open spec fn version_four(id: u128) -> bool {
    id & 0x0000_0000_0000_f000_c000_0000_0000_0000u128
        == 0x0000_0000_0000_4000_8000_0000_0000_0000u128
}

/// `uuid::Uuid::new_v4` draws a random identifier of version 4, and
/// `Uuid::as_u128` gives its 128 bits as a number. Of the number only this
/// is claimed: the version bits say 4 and the variant bits say RFC 4122, as
/// `new_v4` sets them in every identifier; the other bits are random.
#[verifier::external_body]
fn fresh_session_id() -> (id: u128)
    ensures
        version_four(id),
{
    uuid::Uuid::new_v4().as_u128()
}

/// The identifiers of `ids` other than `id`, in their order.
fn keep_others(ids: &Vec<u128>, id: u128) -> (rest: Vec<u128>)
    ensures
        rest@ == ids@.filter(other_than(id)),
{
    let mut rest: Vec<u128> = Vec::new();
    let mut i: usize = 0;
    proof {
        reveal(Seq::filter);
        assert(ids@.take(0) =~= Seq::empty());
    }
    while i < ids.len()
        invariant
            i <= ids.len(),
            rest@ == ids@.take(i as int).filter(other_than(id)),
        decreases ids.len() - i,
    {
        proof {
            assert(ids@.take(i + 1) =~= ids@.take(i as int).push(ids@[i as int]));
            ids@.take(i as int).lemma_filter_push(ids@[i as int], other_than(id));
        }
        if ids[i] != id {
            rest.push(ids[i]);
        }
        i += 1;
    }
    proof {
        assert(ids@.take(i as int) =~= ids@);
    }
    rest
}

/// Appends `id` to the entries of `index` under `key`.
fn add_entry(index: &mut HashMap<u128, Vec<u128>>, key: u128, id: u128)
    ensures
        entries(final(index)@) == with_entry(entries(old(index)@), key, id),
{
    let mut ids: Vec<u128> = match index.remove(&key) {
        Some(ids) => ids,
        None => Vec::new(),
    };
    ids.push(id);
    index.insert(key, ids);
    assert(entries(index@) =~= with_entry(entries(old(index)@), key, id));
}

/// Takes `id` out of the entries of `index` under `key`, and the key with
/// it where nothing is left.
fn drop_entry(index: &mut HashMap<u128, Vec<u128>>, key: u128, id: u128)
    ensures
        entries(final(index)@) == without_entry(entries(old(index)@), key, id),
{
    match index.remove(&key) {
        Some(ids) => {
            let rest = keep_others(&ids, id);
            if rest.len() > 0 {
                index.insert(key, rest);
            }
        },
        None => {
            proof {
                reveal(Seq::filter);
            }
        },
    }
    assert(entries(index@) =~= without_entry(entries(old(index)@), key, id));
}

impl<S> Default for SessionManager<S> {
    /// A registry without sessions.
    fn default() -> (manager: Self)
        ensures
            manager@.wf(),
            manager@ == Registry::<S>::empty(),
    {
        SessionManager::new()
    }
}

impl<S> SessionManager<S> {
    /// The three indices of every registry agree, at every moment.
    #[verifier::type_invariant]
    spec fn inv(&self) -> bool {
        self@.wf()
    }

    /// A registry without sessions.
    pub fn new() -> (manager: Self)
        ensures
            manager@.wf(),
            manager@ == Registry::<S>::empty(),
    {
        let manager = SessionManager {
            sessions: HashMap::new(),
            user_sessions: HashMap::new(),
            notebook_sessions: HashMap::new(),
        };
        assert(manager@.by_user =~= Map::empty());
        assert(manager@.by_notebook =~= Map::empty());
        manager
    }

    /// Enters a session of `user_id` in the room `notebook_id` under the
    /// identifier `session_id`, in all three indices, and returns the
    /// identifier. An identifier that is in use is refused with `Internal`,
    /// and nothing changes.
    pub fn register(&mut self, session_id: u128, notebook_id: u128, user_id: u128, sender: S) -> (result:
        Result<u128, CollaborationError>)
        ensures
            old(self)@.wf(),
            final(self)@.wf(),
            match result {
                Ok(id) => {
                    &&& id == session_id
                    &&& !old(self)@.sessions.contains_key(session_id)
                    &&& final(self)@ == old(self)@.register(
                        Session { id: session_id, user_id, notebook_id, sender },
                    )
                },
                Err(e) => {
                    &&& old(self)@.sessions.contains_key(session_id)
                    &&& e@ == Failure::Internal("Session identifier in use"@)
                    &&& final(self)@ == old(self)@
                },
            },
    {
        proof {
            use_type_invariant(&*self);
        }
        if self.sessions.contains_key(&session_id) {
            return Err(CollaborationError::Internal(String::from_str("Session identifier in use")));
        }
        let session = Session { id: session_id, user_id, notebook_id, sender };
        proof {
            lemma_register_keeps_wf(self@, session);
        }
        let mut taken = SessionManager::new();
        std::mem::swap(self, &mut taken);
        let SessionManager { mut sessions, mut user_sessions, mut notebook_sessions } = taken;
        sessions.insert(session_id, session);
        add_entry(&mut user_sessions, user_id, session_id);
        add_entry(&mut notebook_sessions, notebook_id, session_id);
        *self = SessionManager { sessions, user_sessions, notebook_sessions };
        Ok(session_id)
    }

    /// Creates a session of `user_id` in the room `notebook_id` under a
    /// fresh random identifier, and returns the identifier.
    ///
    /// The identifier is drawn at random, in the form of version 4. Where
    /// the draw gives one that is in use, the session is refused with
    /// `Internal` and nothing changes; so the session is created whenever
    /// the registry holds no identifier of that form.
    pub fn create(&mut self, notebook_id: u128, user_id: u128, sender: S) -> (result: Result<
        u128,
        CollaborationError,
    >)
        ensures
            old(self)@.wf(),
            final(self)@.wf(),
            match result {
                Ok(id) => {
                    &&& version_four(id)
                    &&& !old(self)@.sessions.contains_key(id)
                    &&& final(self)@ == old(self)@.register(
                        Session { id, user_id, notebook_id, sender },
                    )
                },
                Err(e) => {
                    &&& e@ == Failure::Internal("Session identifier in use"@)
                    &&& final(self)@ == old(self)@
                    &&& exists|id: u128| #[trigger]
                        old(self)@.sessions.contains_key(id) && version_four(id)
                },
            },
    {
        let session_id: u128 = fresh_session_id();
        let result = self.register(session_id, notebook_id, user_id, sender);
        proof {
            if result is Err {
                assert(old(self)@.sessions.contains_key(session_id) && version_four(session_id));
            }
        }
        result
    }

    /// Takes the session out of all three indices and returns it; an index
    /// entry that is left empty goes too. `None`, and nothing changes,
    /// where there is no such session.
    pub fn remove(&mut self, session_id: &u128) -> (removed: Option<Session<S>>)
        ensures
            old(self)@.wf(),
            final(self)@.wf(),
            final(self)@ == old(self)@.remove(*session_id),
            removed == if old(self)@.sessions.contains_key(*session_id) {
                Some(old(self)@.sessions[*session_id])
            } else {
                None
            },
    {
        proof {
            use_type_invariant(&*self);
            lemma_remove_keeps_wf(self@, *session_id);
        }
        if !self.sessions.contains_key(session_id) {
            return None;
        }
        let mut taken = SessionManager::new();
        std::mem::swap(self, &mut taken);
        let SessionManager { mut sessions, mut user_sessions, mut notebook_sessions } = taken;
        let removed = sessions.remove(session_id);
        match &removed {
            Some(session) => {
                drop_entry(&mut user_sessions, session.user_id, *session_id);
                drop_entry(&mut notebook_sessions, session.notebook_id, *session_id);
            },
            None => {},
        }
        *self = SessionManager { sessions, user_sessions, notebook_sessions };
        removed
    }

    /// The session with the given identifier, if there is one.
    pub fn get_session(&self, session_id: &u128) -> (found: Option<&Session<S>>)
        ensures
            self@.wf(),
            match found {
                Some(session) => self@.sessions.contains_key(*session_id) && *session
                    == self@.sessions[*session_id],
                None => !self@.sessions.contains_key(*session_id),
            },
    {
        proof {
            use_type_invariant(self);
        }
        self.sessions.get(session_id)
    }

    /// The sessions listed in `ids`, in that order.
    fn collect(&self, ids: &Vec<u128>) -> (found: Vec<&Session<S>>)
        requires
            forall|i: int| 0 <= i < ids@.len() ==> self@.sessions.contains_key(#[trigger] ids@[i]),
        ensures
            found@.len() == ids@.len(),
            forall|i: int| 0 <= i < ids@.len() ==> *(#[trigger] found@[i]) == self@.sessions[ids@[i]],
    {
        let mut found: Vec<&Session<S>> = Vec::new();
        let mut i: usize = 0;
        while i < ids.len()
            invariant
                i <= ids.len(),
                found@.len() == i,
                forall|j: int| 0 <= j < ids@.len() ==> self@.sessions.contains_key(#[trigger] ids@[j]),
                forall|j: int| 0 <= j < i ==> *(#[trigger] found@[j]) == self@.sessions[ids@[j]],
            decreases ids.len() - i,
        {
            assert(self@.sessions.contains_key(ids@[i as int]));
            match self.sessions.get(&ids[i]) {
                Some(session) => {
                    found.push(session);
                },
                None => {},
            }
            i += 1;
        }
        found
    }

    /// The live sessions of the room, oldest first; none for a room that
    /// nobody is connected to.
    pub fn get_sessions(&self, notebook_id: u128) -> (found: Vec<&Session<S>>)
        ensures
            self@.wf(),
            found@.len() == self@.in_notebook(notebook_id).len(),
            forall|i: int|
                0 <= i < found@.len() ==> {
                    &&& self@.sessions.contains_key(self@.in_notebook(notebook_id)[i])
                    &&& *(#[trigger] found@[i]) == self@.sessions[self@.in_notebook(notebook_id)[i]]
                    &&& found@[i].id == self@.in_notebook(notebook_id)[i]
                    &&& found@[i].notebook_id == notebook_id
                },
    {
        proof {
            use_type_invariant(self);
        }
        match self.notebook_sessions.get(&notebook_id) {
            Some(ids) => {
                assert(self@.by_notebook.contains_key(notebook_id));
                assert(self@.by_notebook[notebook_id] == ids@);
                self.collect(ids)
            },
            None => {
                assert(!self@.by_notebook.contains_key(notebook_id));
                Vec::new()
            },
        }
    }

    /// The live sessions of the user, oldest first; none for a user who is
    /// not connected.
    pub fn get_user_sessions(&self, user_id: u128) -> (found: Vec<&Session<S>>)
        ensures
            self@.wf(),
            found@.len() == self@.of_user(user_id).len(),
            forall|i: int|
                0 <= i < found@.len() ==> {
                    &&& self@.sessions.contains_key(self@.of_user(user_id)[i])
                    &&& *(#[trigger] found@[i]) == self@.sessions[self@.of_user(user_id)[i]]
                    &&& found@[i].id == self@.of_user(user_id)[i]
                    &&& found@[i].user_id == user_id
                },
    {
        proof {
            use_type_invariant(self);
        }
        match self.user_sessions.get(&user_id) {
            Some(ids) => {
                assert(self@.by_user.contains_key(user_id));
                assert(self@.by_user[user_id] == ids@);
                self.collect(ids)
            },
            None => {
                assert(!self@.by_user.contains_key(user_id));
                Vec::new()
            },
        }
    }
}

} // verus!
