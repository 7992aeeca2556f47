//! Edit operations on flat text, the pairwise transform, and the engine that
//! owns one document.
//!
//! Positions and lengths count the bytes of the text's UTF-8 encoding. An
//! offset inside the encoding of a character addresses no place in the text:
//! an operation with such an offset is an `InvalidOperation`.
use std::collections::HashMap;
use vstd::prelude::*;
use vstd::string::StringExecFns;
use vstd::utf8::decode_utf8;
use vstd::utf8::encode_utf8;
use vstd::utf8::is_char_boundary;
use super::clock::unix_millis;
use super::laws::lemma_apply_raises_version_by_one;

verus! {

broadcast use vstd::std_specs::hash::group_hash_axioms;

/// Why the engine refused an operation.
#[derive(Debug, Clone, Copy, PartialEq, Eq, Structural)]
pub enum OTError {
    /// A transform collapsed an operation to zero extent, or an operation
    /// has an offset inside the encoding of a character.
    InvalidOperation,
    /// A baseline version lies ahead of the document's version.
    VersionMismatch,
    /// An operation addresses text outside the document.
    OutOfBounds,
}

/// An edit on flat text.
#[derive(Debug)]
pub enum OTOperation {
    /// Put `text` at the byte offset `position`.
    Insert { position: usize, text: String },
    /// Remove `length` bytes starting at the byte offset `position`.
    Delete { position: usize, length: usize },
    /// Leave the text as it is; a placeholder of `length` bytes.
    Retain { length: usize },
}

/// The mathematical form of an edit: unbounded byte offsets and the
/// inserted text as a sequence of characters.
pub ghost enum Edit {
    Insert { position: nat, text: Seq<char> },
    Delete { position: nat, length: nat },
    Retain { length: nat },
}

impl View for OTOperation {
    type V = Edit;

    open spec fn view(&self) -> Edit {
        match *self {
            OTOperation::Insert { position, text } => Edit::Insert {
                position: position as nat,
                text: text@,
            },
            OTOperation::Delete { position, length } => Edit::Delete {
                position: position as nat,
                length: length as nat,
            },
            OTOperation::Retain { length } => Edit::Retain { length: length as nat },
        }
    }
}

impl Edit {
    /// Every offset of the edit can be held in a `usize`.
    pub open spec fn fits(self) -> bool {
        match self {
            Edit::Insert { position, .. } => position <= usize::MAX,
            Edit::Delete { position, length } => position <= usize::MAX && length <= usize::MAX,
            Edit::Retain { length } => length <= usize::MAX,
        }
    }

    /// The text that results from the edit.
    ///
    /// Offsets count the bytes of the encoding of `doc`. `OutOfBounds` where
    /// the edit reaches past the end of the text; else `InvalidOperation`
    /// where one of its ends lies inside a character. An insertion puts its
    /// text between what stands in front of its position and what stands
    /// behind it; a deletion joins what stands in front of its range to
    /// what stands behind it; a placeholder leaves the text as it is.
    pub open spec fn apply(self, doc: Seq<char>) -> Result<Seq<char>, OTError> {
        let bytes = encode_utf8(doc);
        match self {
            Edit::Insert { position, text } => if position > bytes.len() {
                Err(OTError::OutOfBounds)
            } else if !is_char_boundary(bytes, position as int) {
                Err(OTError::InvalidOperation)
            } else {
                Ok(front(bytes, position) + text + back(bytes, position))
            },
            Edit::Delete { position, length } => if position + length > bytes.len() {
                Err(OTError::OutOfBounds)
            } else if !is_char_boundary(bytes, position as int) || !is_char_boundary(
                bytes,
                (position + length) as int,
            ) {
                Err(OTError::InvalidOperation)
            } else {
                Ok(front(bytes, position) + back(bytes, position + length))
            },
            Edit::Retain { .. } => Ok(doc),
        }
    }

    /// The edit `self`, made beside `other` on the same text, rewritten so
    /// that it can follow `other`, which has been applied already.
    ///
    /// * An insertion in front of the position of `other` stays. Else it
    ///   moves right by the bytes that `other` inserted, or left by the
    ///   bytes that `other` deleted, stopping at zero. Of two insertions at the same position
    ///   `self` gives way and moves right.
    /// * A deletion that ends at or in front of the position of `other`
    ///   stays. One behind all that `other` inserted moves right by its
    ///   length, and one behind all that `other` deleted moves left by it.
    /// * A deletion that meets an insertion otherwise is cut: it starts
    ///   behind the inserted text where it started behind the insertion, and
    ///   it loses as many bytes as it started behind the insertion and as
    ///   it ends behind the inserted text. Where no byte is left it is an
    ///   `InvalidOperation`.
    /// * Two deletions that overlap merge into one, from the first start to
    ///   the last end.
    /// * A placeholder stays, and nothing moves past a placeholder.
    pub open spec fn transform(self, other: Edit) -> Result<Edit, OTError> {
        match (self, other) {
            (Edit::Insert { position, text }, Edit::Insert { position: other_position, text: added }) => {
                if position < other_position {
                    Ok(self)
                } else {
                    Ok(Edit::Insert { position: position + width(added), text })
                }
            },
            (Edit::Insert { position, text }, Edit::Delete { position: other_position, length: gone }) => {
                if position < other_position {
                    Ok(self)
                } else {
                    Ok(Edit::Insert { position: minus(position, gone), text })
                }
            },
            (Edit::Delete { position, length }, Edit::Insert { position: other_position, text: added }) => {
                let end = position + length;
                let other_end = other_position + width(added);
                if end <= other_position {
                    Ok(self)
                } else if position >= other_end {
                    Ok(Edit::Delete { position: position + width(added), length })
                } else {
                    let front = minus(position, other_position);
                    let back = minus(end, other_end);
                    let left = minus(minus(length, front), back);
                    if left > 0 {
                        Ok(
                            Edit::Delete {
                                position: if position > other_position {
                                    other_end
                                } else {
                                    position
                                },
                                length: left,
                            },
                        )
                    } else {
                        Err(OTError::InvalidOperation)
                    }
                }
            },
            (Edit::Delete { position, length }, Edit::Delete { position: other_position, length: gone }) => {
                let end = position + length;
                let other_end = other_position + gone;
                if end <= other_position {
                    Ok(self)
                } else if position >= other_end {
                    Ok(Edit::Delete { position: (position - gone) as nat, length })
                } else {
                    let first = if position <= other_position {
                        position
                    } else {
                        other_position
                    };
                    let last = if end >= other_end {
                        end
                    } else {
                        other_end
                    };
                    Ok(Edit::Delete { position: first, length: (last - first) as nat })
                }
            },
            (Edit::Retain { .. }, _) => Ok(self),
            (_, Edit::Retain { .. }) => Ok(self),
        }
    }

    /// [`Edit::transform`] within the limits of the machine: a result with an
    /// offset beyond `usize::MAX` addresses no text and is `OutOfBounds`.
    pub open spec fn transform_bounded(self, other: Edit) -> Result<Edit, OTError> {
        match self.transform(other) {
            Ok(moved) => if moved.fits() {
                Ok(moved)
            } else {
                Err(OTError::OutOfBounds)
            },
            Err(e) => Err(e),
        }
    }
}

/// The number of bytes that `text` takes in UTF-8.
pub open spec fn width(text: Seq<char>) -> nat {
    encode_utf8(text).len()
}

/// The characters that the first `position` bytes of `bytes` encode.
pub open spec fn front(bytes: Seq<u8>, position: nat) -> Seq<char> {
    decode_utf8(bytes.subrange(0, position as int))
}

/// The characters that the bytes of `bytes` from `position` on encode.
pub open spec fn back(bytes: Seq<u8>, position: nat) -> Seq<char> {
    decode_utf8(bytes.subrange(position as int, bytes.len() as int))
}

/// `a - b`, or zero where `b` is the larger.
pub open spec fn minus(a: nat, b: nat) -> nat {
    if a >= b {
        (a - b) as nat
    } else {
        0
    }
}

/// What a fallible step returned, with the operation taken by its view.
pub open spec fn outcome(result: Result<OTOperation, OTError>) -> Result<Edit, OTError> {
    match result {
        Ok(op) => Ok(op@),
        Err(e) => Err(e),
    }
}

impl Clone for OTOperation {
    fn clone(&self) -> (copy: Self)
        ensures
            copy == *self,
    {
        match self {
            OTOperation::Insert { position, text } => OTOperation::Insert {
                position: *position,
                text: text.clone(),
            },
            OTOperation::Delete { position, length } => OTOperation::Delete {
                position: *position,
                length: *length,
            },
            OTOperation::Retain { length } => OTOperation::Retain { length: *length },
        }
    }
}

/// An applied operation, stamped with the version it produced, the client
/// that submitted it and the time of its application in milliseconds since
/// the Unix epoch.
#[derive(Debug)]
pub struct OTPair {
    pub operation: OTOperation,
    pub version: u64,
    pub client_id: u128,
    pub timestamp: u64,
}

/// The mathematical form of a log entry.
pub ghost struct Record {
    pub operation: Edit,
    pub version: nat,
    pub client_id: u128,
    pub timestamp: u64,
}

impl View for OTPair {
    type V = Record;

    open spec fn view(&self) -> Record {
        Record {
            operation: self.operation@,
            version: self.version as nat,
            client_id: self.client_id,
            timestamp: self.timestamp,
        }
    }
}

impl Clone for OTPair {
    fn clone(&self) -> (copy: Self)
        ensures
            copy == *self,
    {
        OTPair {
            operation: self.operation.clone(),
            version: self.version,
            client_id: self.client_id,
            timestamp: self.timestamp,
        }
    }
}

/// The entries of a log taken by their views.
pub open spec fn records(log: Seq<OTPair>) -> Seq<Record> {
    log.map_values(|pair: OTPair| pair@)
}

/// The text reached from `seed` by the operations of `log`, first to last.
pub open spec fn replay(seed: Seq<char>, log: Seq<Record>) -> Result<Seq<char>, OTError>
    decreases log.len(),
{
    if log.len() == 0 {
        Ok(seed)
    } else {
        match replay(seed, log.drop_last()) {
            Ok(text) => log.last().operation.apply(text),
            Err(e) => Err(e),
        }
    }
}

/// `op` moved past every entry of `log` that is newer than version `since`,
/// oldest first; the first failure ends the walk.
pub open spec fn carry(op: Edit, log: Seq<Record>, since: nat) -> Result<Edit, OTError>
    decreases log.len(),
{
    if log.len() == 0 {
        Ok(op)
    } else {
        match carry(op, log.drop_last(), since) {
            Ok(moved) => if log.last().version > since {
                moved.transform_bounded(log.last().operation)
            } else {
                Ok(moved)
            },
            Err(e) => Err(e),
        }
    }
}

/// The mathematical state of one document.
pub ghost struct Document {
    /// The text the document started from.
    pub seed: Seq<char>,
    /// The current text.
    pub text: Seq<char>,
    /// The number of operations applied so far.
    pub version: nat,
    /// The applied operations, oldest first.
    pub log: Seq<Record>,
    /// For each client, the version its last accepted submission produced.
    pub acknowledged: Map<u128, u64>,
}

impl Document {
    /// A fresh document holding `seed`.
    pub open spec fn seeded(seed: Seq<char>) -> Document {
        Document { seed, text: seed, version: 0, log: Seq::empty(), acknowledged: Map::empty() }
    }

    /// The version that `client` last acknowledged, zero for a new client.
    pub open spec fn baseline(self, client: u128) -> nat {
        if self.acknowledged.contains_key(client) {
            self.acknowledged[client] as nat
        } else {
            0
        }
    }

    /// The invariant of a document: the version counts the log, entry `i`
    /// carries version `i + 1`, replaying the log from the seed gives the
    /// text, and no client has acknowledged a version that does not exist.
    pub open spec fn wf(self) -> bool {
        &&& self.version == self.log.len()
        &&& forall|i: int| 0 <= i < self.log.len() ==> (#[trigger] self.log[i]).version == i + 1
        &&& replay(self.seed, self.log) == Ok::<Seq<char>, OTError>(self.text)
        &&& forall|client: u128| #[trigger]
            self.acknowledged.contains_key(client) ==> self.acknowledged[client] <= self.version
    }

    /// Why the document refuses `op` from `client`, if it does:
    /// `VersionMismatch` where the client has acknowledged a version ahead of
    /// the document, else `OutOfBounds` where `op` reaches past the text.
    pub open spec fn refusal(self, op: Edit, client: u128) -> Option<OTError> {
        if self.baseline(client) > self.version {
            Some(OTError::VersionMismatch)
        } else {
            match op.apply(self.text) {
                Ok(_) => None,
                Err(e) => Some(e),
            }
        }
    }

    /// The document after `client` has applied `op` at time `now`: the text
    /// edited, the version raised by one, the operation logged under the new
    /// version, and the client recorded as having acknowledged it.
    pub open spec fn apply(self, op: Edit, client: u128, now: u64) -> Result<Document, OTError> {
        match self.refusal(op, client) {
            Some(e) => Err(e),
            None => Ok(
                Document {
                    seed: self.seed,
                    text: op.apply(self.text)->Ok_0,
                    version: self.version + 1,
                    log: self.log.push(
                        Record {
                            operation: op,
                            version: self.version + 1,
                            client_id: client,
                            timestamp: now,
                        },
                    ),
                    acknowledged: self.acknowledged.insert(client, (self.version + 1) as u64),
                },
            ),
        }
    }

    /// `after` is the document that some application of `op` by `client`
    /// leaves, whatever the time that was logged.
    pub open spec fn applied(self, op: Edit, client: u128, after: Document) -> bool {
        &&& after.log.len() > 0
        &&& self.apply(op, client, after.log.last().timestamp) == Ok::<Document, OTError>(after)
    }

    /// `after` is the document left when `client` replaces the whole text
    /// by `content`: a deletion of all its bytes and an insertion of
    /// `content` at the front, applied and logged one after the other.
    pub open spec fn replaced(self, content: Seq<char>, client: u128, after: Document) -> bool {
        &&& after.log.len() >= 2
        &&& {
            let cleared = self.apply(
                Edit::Delete { position: 0, length: width(self.text) },
                client,
                after.log[after.log.len() - 2].timestamp,
            );
            &&& cleared is Ok
            &&& cleared->Ok_0.applied(Edit::Insert { position: 0, text: content }, client, after)
        }
    }

    /// `op`, based on version `since`, moved past everything applied after
    /// that version. `VersionMismatch` where `since` is ahead of the document.
    pub open spec fn transform(self, op: Edit, since: nat) -> Result<Edit, OTError> {
        if since > self.version {
            Err(OTError::VersionMismatch)
        } else {
            carry(op, self.log, since)
        }
    }

    /// Why the document refuses the submission of `op`, based on version
    /// `since`, by `client`, if it does: the failure of the transform, else
    /// the refusal of the moved operation.
    pub open spec fn submit_refusal(self, op: Edit, client: u128, since: nat) -> Option<OTError> {
        match self.transform(op, since) {
            Ok(moved) => self.refusal(moved, client),
            Err(e) => Some(e),
        }
    }

    /// `after` is the document that some submission of `op`, based on
    /// version `since`, by `client` leaves, whatever the time that was
    /// logged.
    pub open spec fn submitted(self, op: Edit, client: u128, since: nat, after: Document) -> bool {
        &&& after.log.len() > 0
        &&& self.submit(op, client, since, after.log.last().timestamp) == Ok::<Document, OTError>(
            after,
        )
    }

    /// The document after `client` has submitted `op`, based on version
    /// `since`, at time `now`: the operation is first moved past what was
    /// applied after `since`, then applied.
    pub open spec fn submit(self, op: Edit, client: u128, since: nat, now: u64) -> Result<
        Document,
        OTError,
    > {
        match self.transform(op, since) {
            Ok(moved) => self.apply(moved, client, now),
            Err(e) => Err(e),
        }
    }
}

/// What applying an operation to a text returned, with the text taken by its view.
pub open spec fn text_outcome(result: Result<String, OTError>) -> Result<Seq<char>, OTError> {
    match result {
        Ok(text) => Ok(text@),
        Err(e) => Err(e),
    }
}

/// Applies `op` to `doc` and returns the new text.
pub fn apply_to_text(doc: &str, op: &OTOperation) -> (result: Result<String, OTError>)
    ensures
        text_outcome(result) == op@.apply(doc@),
{
    broadcast use {vstd::utf8::encode_utf8_decode_utf8, vstd::utf8::encode_utf8_valid_utf8};

    let len: usize = doc.as_bytes().len();
    match op {
        OTOperation::Insert { position, text } => {
            if *position > len {
                return Err(OTError::OutOfBounds);
            }
            if !doc.is_char_boundary(*position) {
                return Err(OTError::InvalidOperation);
            }
            let (head, tail) = doc.split_at(*position);
            proof {
                assert(head@ == decode_utf8(encode_utf8(head@)));
                assert(tail@ == decode_utf8(encode_utf8(tail@)));
            }
            let mut out = String::from_str(head);
            out.append(text.as_str());
            out.append(tail);
            Ok(out)
        },
        OTOperation::Delete { position, length } => {
            if *length > len || *position > len - *length {
                return Err(OTError::OutOfBounds);
            }
            if !doc.is_char_boundary(*position) || !doc.is_char_boundary(*position + *length) {
                return Err(OTError::InvalidOperation);
            }
            let (head, _) = doc.split_at(*position);
            let (_, tail) = doc.split_at(*position + *length);
            proof {
                assert(head@ == decode_utf8(encode_utf8(head@)));
                assert(tail@ == decode_utf8(encode_utf8(tail@)));
            }
            let mut out = String::from_str(head);
            out.append(tail);
            Ok(out)
        },
        OTOperation::Retain { .. } => Ok(String::from_str(doc)),
    }
}

/// The engine of one document: its text, its version, the log of applied
/// operations and what each client has acknowledged.
pub struct OTEngine {
    document: String,
    version: u64,
    operations: Vec<OTPair>,
    client_versions: HashMap<u128, u64>,
    seed: Ghost<Seq<char>>,
}

impl View for OTEngine {
    type V = Document;

    closed spec fn view(&self) -> Document {
        Document {
            seed: self.seed@,
            text: self.document@,
            version: self.version as nat,
            log: records(self.operations@),
            acknowledged: self.client_versions@,
        }
    }
}

impl Default for OTEngine {
    /// An engine at version 0 that holds the empty text.
    fn default() -> (engine: Self)
        ensures
            engine@.wf(),
            engine@ == Document::seeded(Seq::empty()),
    {
        let engine = OTEngine {
            document: String::new(),
            version: 0,
            operations: Vec::new(),
            client_versions: HashMap::new(),
            seed: Ghost(Seq::empty()),
        };
        assert(engine@.log =~= Seq::empty());
        engine
    }
}

impl OTEngine {
    /// Every engine holds a well-formed document, at every moment.
    #[verifier::type_invariant]
    spec fn inv(&self) -> bool {
        self@.wf()
    }

    /// An engine at version 0 that holds `initial_content`.
    pub fn new(initial_content: &str) -> (engine: Self)
        ensures
            engine@.wf(),
            engine@ == Document::seeded(initial_content@),
    {
        let engine = OTEngine {
            document: String::from_str(initial_content),
            version: 0,
            operations: Vec::new(),
            client_versions: HashMap::new(),
            seed: Ghost(initial_content@),
        };
        assert(engine@.log =~= Seq::empty());
        engine
    }

    /// The current text.
    pub fn get_document(&self) -> (text: &str)
        ensures
            text@ == self@.text,
            self@.wf(),
    {
        proof {
            use_type_invariant(self);
        }
        self.document.as_str()
    }

    /// The current version.
    pub fn get_version(&self) -> (version: u64)
        ensures
            version == self@.version,
            self@.wf(),
    {
        proof {
            use_type_invariant(self);
        }
        self.version
    }

    /// The log of applied operations, oldest first.
    pub fn history(&self) -> (log: &Vec<OTPair>)
        ensures
            records(log@) == self@.log,
            self@.wf(),
    {
        proof {
            use_type_invariant(self);
        }
        &self.operations
    }

    /// Records an operation that the document accepts: `edited` is the text
    /// that it leaves. Returns the new version.
    fn record(&mut self, operation: OTOperation, edited: String, client_id: u128, timestamp: u64) -> (version:
        u64)
        requires
            old(self)@.refusal(operation@, client_id) is None,
            operation@.apply(old(self)@.text) == Ok::<Seq<char>, OTError>(edited@),
        ensures
            old(self)@.wf(),
            final(self)@.wf(),
            old(self)@.apply(operation@, client_id, timestamp) == Ok::<Document, OTError>(final(self)@),
            version == old(self)@.version + 1,
    {
        proof {
            use_type_invariant(&*self);
        }
        // The version counts the entries of the log, so it is never at the end
        // of its range: the addition does not saturate.
        let next: u64 = self.version.saturating_add(1);
        let ghost before = self@;
        let mut taken = OTEngine::default();
        std::mem::swap(self, &mut taken);
        let OTEngine { document: _, version: _, mut operations, mut client_versions, seed } = taken;
        operations.push(OTPair { operation, version: next, client_id, timestamp });
        assert(operations.len() == before.version + 1);
        client_versions.insert(client_id, next);
        proof {
            let after = before.apply(operation@, client_id, timestamp)->Ok_0;
            assert(records(operations@) =~= after.log);
            lemma_apply_raises_version_by_one(before, operation@, client_id, timestamp);
        }
        *self = OTEngine { document: edited, version: next, operations, client_versions, seed };
        next
    }

    /// Applies `operation` for `client_id` at `timestamp`.
    ///
    /// On success the text is edited, the version grows by one and is
    /// returned, the operation is logged under that version, and the client
    /// is recorded as having acknowledged it. On failure nothing changes.
    pub fn apply_operation_at(
        &mut self,
        operation: OTOperation,
        client_id: u128,
        timestamp: u64,
    ) -> (result: Result<u64, OTError>)
        ensures
            old(self)@.wf(),
            final(self)@.wf(),
            match result {
                Ok(version) => {
                    &&& old(self)@.apply(operation@, client_id, timestamp) == Ok::<Document, OTError>(
                        final(self)@,
                    )
                    &&& version == old(self)@.version + 1
                },
                Err(e) => {
                    &&& old(self)@.refusal(operation@, client_id) == Some(e)
                    &&& final(self)@ == old(self)@
                },
            },
    {
        proof {
            use_type_invariant(&*self);
        }
        let client_version: u64 = match self.client_versions.get(&client_id) {
            Some(version) => *version,
            None => 0,
        };
        if client_version > self.version {
            return Err(OTError::VersionMismatch);
        }
        match apply_to_text(self.document.as_str(), &operation) {
            Ok(edited) => Ok(self.record(operation, edited, client_id, timestamp)),
            Err(e) => Err(e),
        }
    }

    /// Replaces the whole text by `content` for `client_id` and returns the
    /// new version. The replacement is logged as two operations, a deletion
    /// of everything and an insertion of `content` at the front, so the
    /// version grows by two and the log still replays to the text.
    pub fn replace_content(&mut self, content: &str, client_id: u128) -> (version: u64)
        ensures
            old(self)@.wf(),
            final(self)@.wf(),
            old(self)@.replaced(content@, client_id, final(self)@),
            final(self)@.text == content@,
            version == old(self)@.version + 2,
            version == final(self)@.version,
    {
        proof {
            use_type_invariant(&*self);
        }
        let now: u64 = unix_millis();
        let length: usize = self.document.as_str().as_bytes().len();
        let ghost before = self@;
        proof {
            lemma_whole_text_goes(before.text);
        }
        self.record(OTOperation::Delete { position: 0, length }, String::new(), client_id, now);
        let ghost cleared = self@;
        proof {
            lemma_whole_text_goes(cleared.text);
            assert(cleared.text =~= Seq::<char>::empty());
            assert(Seq::<char>::empty() + content@ + Seq::<char>::empty() =~= content@);
        }
        let version = self.record(
            OTOperation::Insert { position: 0, text: String::from_str(content) },
            String::from_str(content),
            client_id,
            now,
        );
        proof {
            assert(self@.log.drop_last() =~= cleared.log);
            assert(self@.log[self@.log.len() - 2] == cleared.log.last());
        }
        version
    }

    /// Applies `operation` for `client_id`, stamped with the current time.
    ///
    /// As [`OTEngine::apply_operation_at`], with the time read from the
    /// system clock: the entry that is logged carries whatever the clock gave.
    pub fn apply_operation(&mut self, operation: OTOperation, client_id: u128) -> (result: Result<
        u64,
        OTError,
    >)
        ensures
            old(self)@.wf(),
            final(self)@.wf(),
            match result {
                Ok(version) => {
                    &&& old(self)@.applied(operation@, client_id, final(self)@)
                    &&& version == old(self)@.version + 1
                },
                Err(e) => {
                    &&& old(self)@.refusal(operation@, client_id) == Some(e)
                    &&& final(self)@ == old(self)@
                },
            },
    {
        let timestamp: u64 = unix_millis();
        self.apply_operation_at(operation, client_id, timestamp)
    }

    /// Moves `operation`, which its author based on `since_version`, past
    /// every operation applied after that version, oldest first. The engine
    /// is left as it was.
    pub fn transform_operation(&self, operation: &OTOperation, since_version: u64) -> (result:
        Result<OTOperation, OTError>)
        ensures
            self@.wf(),
            outcome(result) == self@.transform(operation@, since_version as nat),
    {
        proof {
            use_type_invariant(self);
        }
        if since_version > self.version {
            return Err(OTError::VersionMismatch);
        }
        let mut transformed = operation.clone();
        let mut i: usize = 0;
        while i < self.operations.len()
            invariant
                i <= self.operations.len(),
                since_version <= self.version,
                self@.wf(),
                carry(operation@, self@.log.take(i as int), since_version as nat) == Ok::<
                    Edit,
                    OTError,
                >(transformed@),
            decreases self.operations.len() - i,
        {
            let pair = &self.operations[i];
            proof {
                assert(self@.log.take(i + 1).drop_last() =~= self@.log.take(i as int));
                assert(self@.log.take(i + 1).last() == pair@);
            }
            if pair.version > since_version {
                match self.transform(&transformed, &pair.operation) {
                    Ok(next) => {
                        transformed = next;
                    },
                    Err(e) => {
                        proof {
                            lemma_carry_failure_is_final(
                                operation@,
                                self@.log,
                                since_version as nat,
                                i + 1,
                            );
                        }
                        return Err(e);
                    },
                }
            }
            i += 1;
        }
        proof {
            assert(self@.log.take(i as int) =~= self@.log);
        }
        Ok(transformed)
    }

    /// The pairwise transform: `op1`, made beside `op2` on the same text,
    /// rewritten to follow `op2`. A result that no `usize` can hold is
    /// `OutOfBounds`.
    pub fn transform(&self, op1: &OTOperation, op2: &OTOperation) -> (result: Result<
        OTOperation,
        OTError,
    >)
        ensures
            outcome(result) == op1@.transform_bounded(op2@),
    {
        match (op1, op2) {
            (
                OTOperation::Insert { position: pos1, text: text1 },
                OTOperation::Insert { position: pos2, text: text2 },
            ) => {
                if *pos1 < *pos2 {
                    Ok(op1.clone())
                } else {
                    let added: usize = text2.as_str().as_bytes().len();
                    match pos1.checked_add(added) {
                        Some(position) => Ok(OTOperation::Insert { position, text: text1.clone() }),
                        None => Err(OTError::OutOfBounds),
                    }
                }
            },
            (
                OTOperation::Insert { position: pos1, text: text1 },
                OTOperation::Delete { position: pos2, length },
            ) => {
                if *pos1 < *pos2 {
                    Ok(op1.clone())
                } else {
                    Ok(OTOperation::Insert { position: pos1.saturating_sub(*length), text: text1.clone() })
                }
            },
            (
                OTOperation::Delete { position: pos1, length: len1 },
                OTOperation::Insert { position: pos2, text: text2 },
            ) => {
                let added: usize = text2.as_str().as_bytes().len();
                let start1: u128 = *pos1 as u128;
                let end1: u128 = start1 + *len1 as u128;
                let start2: u128 = *pos2 as u128;
                let end2: u128 = start2 + added as u128;
                if end1 <= start2 {
                    Ok(op1.clone())
                } else if start1 >= end2 {
                    match pos1.checked_add(added) {
                        Some(position) => Ok(OTOperation::Delete { position, length: *len1 }),
                        None => Err(OTError::OutOfBounds),
                    }
                } else {
                    let mut position: u128 = start1;
                    let mut length: usize = *len1;
                    if start1 > start2 {
                        position = end2;
                        length = length.saturating_sub(*pos1 - *pos2);
                    }
                    if end1 > end2 {
                        let back: u128 = end1 - end2;
                        length = if back >= length as u128 { 0 } else { length - back as usize };
                    }
                    if length == 0 {
                        Err(OTError::InvalidOperation)
                    } else if position > usize::MAX as u128 {
                        Err(OTError::OutOfBounds)
                    } else {
                        Ok(OTOperation::Delete { position: position as usize, length })
                    }
                }
            },
            (
                OTOperation::Delete { position: pos1, length: len1 },
                OTOperation::Delete { position: pos2, length: len2 },
            ) => {
                let start1: u128 = *pos1 as u128;
                let end1: u128 = start1 + *len1 as u128;
                let start2: u128 = *pos2 as u128;
                let end2: u128 = start2 + *len2 as u128;
                if end1 <= start2 {
                    Ok(op1.clone())
                } else if start1 >= end2 {
                    Ok(OTOperation::Delete { position: *pos1 - *len2, length: *len1 })
                } else {
                    let start: usize = if *pos1 <= *pos2 { *pos1 } else { *pos2 };
                    let end: u128 = if end1 >= end2 { end1 } else { end2 };
                    let length: u128 = end - start as u128;
                    if length > usize::MAX as u128 {
                        Err(OTError::OutOfBounds)
                    } else {
                        Ok(OTOperation::Delete { position: start, length: length as usize })
                    }
                }
            },
            (OTOperation::Retain { .. }, _) => Ok(op1.clone()),
            (_, OTOperation::Retain { .. }) => Ok(op1.clone()),
        }
    }
}

/// The two ends of a text are places in it, and nothing stands in front of
/// the first or behind the last: a deletion of all its bytes leaves the
/// empty text.
pub proof fn lemma_whole_text_goes(text: Seq<char>)
    ensures
        is_char_boundary(encode_utf8(text), 0),
        is_char_boundary(encode_utf8(text), width(text) as int),
        front(encode_utf8(text), 0) == Seq::<char>::empty(),
        back(encode_utf8(text), width(text)) == Seq::<char>::empty(),
        (Edit::Delete { position: 0, length: width(text) }).apply(text) == Ok::<Seq<char>, OTError>(
            Seq::empty(),
        ),
{
    let bytes = encode_utf8(text);
    vstd::utf8::encode_utf8_valid_utf8(text);
    vstd::utf8::is_char_boundary_start_end_of_seq(bytes);
    assert(bytes.subrange(0, 0) =~= Seq::<u8>::empty());
    assert(bytes.subrange(bytes.len() as int, bytes.len() as int) =~= Seq::<u8>::empty());
    assert(decode_utf8(Seq::<u8>::empty()) =~= Seq::<char>::empty());
    assert(Seq::<char>::empty() + Seq::<char>::empty() =~= Seq::<char>::empty());
}

/// Once the walk of [`carry`] has failed on the first `upto` entries, it
/// fails in the same way on the whole log.
pub proof fn lemma_carry_failure_is_final(op: Edit, log: Seq<Record>, since: nat, upto: int)
    requires
        0 <= upto <= log.len(),
        carry(op, log.take(upto), since) is Err,
    ensures
        carry(op, log, since) == carry(op, log.take(upto), since),
    decreases log.len() - upto,
{
    if upto == log.len() {
        assert(log.take(upto) =~= log);
    } else {
        assert(log.take(upto + 1).drop_last() =~= log.take(upto));
        lemma_carry_failure_is_final(op, log, since, upto + 1);
    }
}

/// Replays `log` on `initial`: applies each logged operation in turn and
/// returns the text reached, or the first failure.
pub fn replay_log(initial: &str, log: &Vec<OTPair>) -> (result: Result<String, OTError>)
    ensures
        text_outcome(result) == replay(initial@, records(log@)),
{
    let mut text = String::from_str(initial);
    let mut i: usize = 0;
    while i < log.len()
        invariant
            i <= log.len(),
            replay(initial@, records(log@).take(i as int)) == Ok::<Seq<char>, OTError>(text@),
        decreases log.len() - i,
    {
        proof {
            assert(records(log@).take(i + 1).drop_last() =~= records(log@).take(i as int));
            assert(records(log@).take(i + 1).last() == log@[i as int]@);
        }
        match apply_to_text(text.as_str(), &log[i].operation) {
            Ok(next) => {
                text = next;
            },
            Err(e) => {
                proof {
                    lemma_replay_failure_is_final(initial@, records(log@), i + 1);
                }
                return Err(e);
            },
        }
        i += 1;
    }
    proof {
        assert(records(log@).take(i as int) =~= records(log@));
    }
    Ok(text)
}

/// Once [`replay`] has failed on the first `upto` entries, it fails in the
/// same way on the whole log.
pub proof fn lemma_replay_failure_is_final(seed: Seq<char>, log: Seq<Record>, upto: int)
    requires
        0 <= upto <= log.len(),
        replay(seed, log.take(upto)) is Err,
    ensures
        replay(seed, log) == replay(seed, log.take(upto)),
    decreases log.len() - upto,
{
    if upto == log.len() {
        assert(log.take(upto) =~= log);
    } else {
        assert(log.take(upto + 1).drop_last() =~= log.take(upto));
        lemma_replay_failure_is_final(seed, log, upto + 1);
    }
}

} // verus!
