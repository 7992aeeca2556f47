//! What holds of every document, whatever was done to it.
use super::encoding::lemma_delete_bytes;
use super::encoding::lemma_insert_bytes;
use super::encoding::lemma_places_after_delete;
use super::encoding::lemma_places_after_insert;
use super::encoding::lemma_same_bytes_same_text;
use super::ot::carry;
use super::ot::replay;
use super::ot::width;
use super::ot::Document;
use super::ot::Edit;
use super::ot::OTError;
use super::ot::Record;
use vstd::prelude::*;
use vstd::utf8::encode_utf8;
use vstd::utf8::is_char_boundary;

verus! {

/// One submission to a document: the operation, its author and the time.
pub ghost struct Step {
    pub operation: Edit,
    pub client_id: u128,
    pub timestamp: u64,
}

/// The document reached from `doc` by applying `steps` in order, or the
/// first failure.
pub open spec fn apply_all(doc: Document, steps: Seq<Step>) -> Result<Document, OTError>
    decreases steps.len(),
{
    if steps.len() == 0 {
        Ok(doc)
    } else {
        match apply_all(doc, steps.drop_last()) {
            Ok(reached) => reached.apply(
                steps.last().operation,
                steps.last().client_id,
                steps.last().timestamp,
            ),
            Err(e) => Err(e),
        }
    }
}

/// A fresh document is well-formed, at version 0, with an empty log.
pub proof fn lemma_seeded_is_wf(seed: Seq<char>)
    ensures
        Document::seeded(seed).wf(),
        Document::seeded(seed).version == 0,
        Document::seeded(seed).text == seed,
{
}

/// Version monotonicity: every operation that a document accepts raises its
/// version by exactly one and appends exactly one log entry, stamped with the
/// new version.
pub proof fn lemma_apply_raises_version_by_one(doc: Document, op: Edit, client: u128, now: u64)
    requires
        doc.wf(),
        doc.apply(op, client, now) is Ok,
    ensures
        ({
            let after = doc.apply(op, client, now)->Ok_0;
            &&& after.wf()
            &&& after.version == doc.version + 1
            &&& after.log.len() == doc.log.len() + 1
            &&& after.log.last().version == after.version
            &&& after.log.drop_last() == doc.log
        }),
{
    let after = doc.apply(op, client, now)->Ok_0;
    assert(after.log.drop_last() =~= doc.log);
}

/// Version monotonicity and replay determinism over a whole history: after
/// any sequence of accepted operations on a fresh document, the version is
/// the number of operations, the log holds them in order, and replaying the
/// log from the seed gives the current text exactly.
pub proof fn lemma_history_replays(seed: Seq<char>, steps: Seq<Step>)
    requires
        apply_all(Document::seeded(seed), steps) is Ok,
    ensures
        ({
            let reached = apply_all(Document::seeded(seed), steps)->Ok_0;
            &&& reached.wf()
            &&& reached.seed == seed
            &&& reached.version == steps.len()
            &&& reached.log.len() == steps.len()
            &&& forall|i: int|
                0 <= i < steps.len() ==> (#[trigger] reached.log[i]).operation == steps[i].operation
            &&& replay(seed, reached.log) == Ok::<Seq<char>, OTError>(reached.text)
        }),
    decreases steps.len(),
{
    if steps.len() > 0 {
        lemma_history_replays(seed, steps.drop_last());
        let before = apply_all(Document::seeded(seed), steps.drop_last())->Ok_0;
        let last = steps.last();
        lemma_apply_raises_version_by_one(before, last.operation, last.client_id, last.timestamp);
    }
}

/// Replay determinism: replaying the log of a well-formed document from its
/// seed gives its text; for a document that started empty, replaying from
/// the empty text does.
pub proof fn lemma_replay_reproduces_text(doc: Document)
    requires
        doc.wf(),
    ensures
        replay(doc.seed, doc.log) == Ok::<Seq<char>, OTError>(doc.text),
        doc.seed.len() == 0 ==> replay(Seq::empty(), doc.log) == Ok::<Seq<char>, OTError>(doc.text),
{
    if doc.seed.len() == 0 {
        assert(doc.seed =~= Seq::empty());
    }
}

/// A well-formed document never refuses an operation for its author's
/// acknowledged version: it accepts exactly the operations that fit its
/// text, and refuses the others as `OutOfBounds` or `InvalidOperation`, as
/// the text does.
pub proof fn lemma_apply_follows_the_text(doc: Document, op: Edit, client: u128, now: u64)
    requires
        doc.wf(),
    ensures
        doc.apply(op, client, now) is Ok <==> op.apply(doc.text) is Ok,
        doc.refusal(op, client) == match op.apply(doc.text) {
            Ok(_) => None,
            Err(e) => Some(e),
        },
        doc.refusal(op, client) != Some(OTError::VersionMismatch),
{
}

/// Bounds rejection: an insertion one byte past the end of the text and a
/// deletion of one byte more than the text holds are `OutOfBounds`, whoever
/// submits them and whatever is inserted.
pub proof fn lemma_bounds_rejection(doc: Document, text: Seq<char>, client: u128, now: u64)
    requires
        doc.wf(),
    ensures
        doc.apply(Edit::Insert { position: width(doc.text) + 1, text }, client, now) == Err::<
            Document,
            OTError,
        >(OTError::OutOfBounds),
        doc.apply(Edit::Delete { position: 0, length: width(doc.text) + 1 }, client, now) == Err::<
            Document,
            OTError,
        >(OTError::OutOfBounds),
{
}

/// No entry of a well-formed log is newer than the document's version, so an
/// operation based on that version is carried past nothing.
pub proof fn lemma_carry_past_nothing(op: Edit, log: Seq<Record>, since: nat)
    requires
        forall|i: int| 0 <= i < log.len() ==> (#[trigger] log[i]).version <= since,
    ensures
        carry(op, log, since) == Ok::<Edit, OTError>(op),
    decreases log.len(),
{
    if log.len() > 0 {
        lemma_carry_past_nothing(op, log.drop_last(), since);
    }
}

/// Transform identity: an operation based on the current version comes back
/// unchanged.
pub proof fn lemma_transform_identity(doc: Document, op: Edit)
    requires
        doc.wf(),
    ensures
        doc.transform(op, doc.version) == Ok::<Edit, OTError>(op),
{
    lemma_carry_past_nothing(op, doc.log, doc.version);
}

/// Only the entries newer than `since` matter to [`carry`]: in a well-formed
/// log those are the entries from index `since` on.
pub proof fn lemma_carry_skips_older(op: Edit, log: Seq<Record>, since: nat)
    requires
        forall|i: int| 0 <= i < log.len() ==> (#[trigger] log[i]).version == i + 1,
        since <= log.len(),
    ensures
        carry(op, log, since) == carry(op, log.skip(since as int), 0),
    decreases log.len(),
{
    if log.len() == since {
        lemma_carry_past_nothing(op, log, since);
        assert(log.skip(since as int) =~= Seq::empty());
    } else {
        lemma_carry_skips_older(op, log.drop_last(), since);
        assert(log.skip(since as int).drop_last() =~= log.drop_last().skip(since as int));
        assert(log.skip(since as int).last() == log.last());
    }
}

/// Convergence under the engine's order. Two clients hold the text of
/// version `v` and each submits an operation based on `v`; the engine takes
/// `a` first. Then `a` is logged as it was submitted, `b` is logged as moved
/// past `a`, and every replica reaches the engine's text: the author of `a`,
/// who applies `a` and then the logged form of `b`; a replica at version `v`
/// that applies the two logged forms in version order; and a replica that
/// replays the whole log from the seed.
pub proof fn lemma_concurrent_submissions_converge(
    doc: Document,
    a: Edit,
    b: Edit,
    client_a: u128,
    client_b: u128,
    time_a: u64,
    time_b: u64,
)
    requires
        doc.wf(),
        doc.submit(a, client_a, doc.version, time_a) is Ok,
        doc.submit(a, client_a, doc.version, time_a)->Ok_0.submit(
            b,
            client_b,
            doc.version,
            time_b,
        ) is Ok,
    ensures
        ({
            let first = doc.submit(a, client_a, doc.version, time_a)->Ok_0;
            let second = first.submit(b, client_b, doc.version, time_b)->Ok_0;
            let logged_a = second.log[doc.version as int].operation;
            let logged_b = second.log[(doc.version + 1) as int].operation;
            &&& second.wf()
            &&& second.version == doc.version + 2
            &&& second.log.len() == doc.log.len() + 2
            &&& second.log.take(doc.version as int) == doc.log
            &&& logged_a == a
            &&& Ok::<Edit, OTError>(logged_b) == b.transform_bounded(a)
            &&& a.apply(doc.text) is Ok
            &&& logged_b.apply(a.apply(doc.text)->Ok_0) == Ok::<Seq<char>, OTError>(second.text)
            &&& replay(doc.text, second.log.skip(doc.version as int)) == Ok::<Seq<char>, OTError>(
                second.text,
            )
            &&& replay(second.seed, second.log) == Ok::<Seq<char>, OTError>(second.text)
        }),
{
    lemma_transform_identity(doc, a);
    let first = doc.apply(a, client_a, time_a)->Ok_0;
    lemma_apply_raises_version_by_one(doc, a, client_a, time_a);
    // `b` is carried past exactly one entry, the one that holds `a`.
    lemma_carry_past_nothing(b, doc.log, doc.version);
    assert(first.log.drop_last() =~= doc.log);
    let moved = b.transform_bounded(a)->Ok_0;
    let second = first.apply(moved, client_b, time_b)->Ok_0;
    lemma_apply_raises_version_by_one(first, moved, client_b, time_b);
    assert(second.log.take(doc.version as int) =~= doc.log);
    let tail = second.log.skip(doc.version as int);
    assert(tail.len() == 2);
    assert(tail.drop_last().drop_last() =~= Seq::empty());
    assert(tail.drop_last().last() == second.log[doc.version as int]);
    assert(tail.last() == second.log[(doc.version + 1) as int]);
    assert(replay(doc.text, tail.drop_last().drop_last()) == Ok::<Seq<char>, OTError>(doc.text));
    assert(replay(doc.text, tail.drop_last()) == a.apply(doc.text));
}

/// Two insertions at places of the same text, the first in front of the
/// second, converge in either order: whichever is applied first, the other,
/// moved past it, leads to the same text.
pub proof fn lemma_ordered_inserts_commute(
    doc: Seq<char>,
    first: nat,
    first_text: Seq<char>,
    second: nat,
    second_text: Seq<char>,
)
    requires
        first < second <= width(doc),
        is_char_boundary(encode_utf8(doc), first as int),
        is_char_boundary(encode_utf8(doc), second as int),
    ensures
        ({
            let a = Edit::Insert { position: first, text: first_text };
            let b = Edit::Insert { position: second, text: second_text };
            &&& a.apply(doc) is Ok
            &&& b.apply(doc) is Ok
            &&& a.transform(b) == Ok::<Edit, OTError>(a)
            &&& b.transform(a) == Ok::<Edit, OTError>(
                Edit::Insert { position: second + width(first_text), text: second_text },
            )
            &&& b.transform(a)->Ok_0.apply(a.apply(doc)->Ok_0) is Ok
            &&& b.transform(a)->Ok_0.apply(a.apply(doc)->Ok_0) == a.transform(b)->Ok_0.apply(
                b.apply(doc)->Ok_0,
            )
        }),
{
    let a = Edit::Insert { position: first, text: first_text };
    let b = Edit::Insert { position: second, text: second_text };
    let moved = Edit::Insert { position: second + width(first_text), text: second_text };
    let after_a = a.apply(doc)->Ok_0;
    let after_b = b.apply(doc)->Ok_0;
    lemma_insert_bytes(doc, first, first_text);
    lemma_insert_bytes(doc, second, second_text);
    lemma_places_after_insert(doc, first, first_text, second);
    lemma_places_after_insert(doc, second, second_text, first);
    assert(moved.apply(after_a) is Ok);
    assert(a.apply(after_b) is Ok);
    lemma_insert_bytes(after_a, second + width(first_text), second_text);
    lemma_insert_bytes(after_b, first, first_text);
    let left = moved.apply(after_a)->Ok_0;
    let right = a.apply(after_b)->Ok_0;
    assert(encode_utf8(left) =~= encode_utf8(right));
    lemma_same_bytes_same_text(left, right);
}

/// Two insertions at different places of the same text converge in either
/// order: whichever of them is applied first, the other, moved past it,
/// leads to the same text. (At the same place they do not: each gives way to
/// the one applied first, so the engine's order decides.)
pub proof fn lemma_distinct_inserts_commute(
    doc: Seq<char>,
    first: nat,
    first_text: Seq<char>,
    second: nat,
    second_text: Seq<char>,
)
    requires
        first <= width(doc),
        second <= width(doc),
        is_char_boundary(encode_utf8(doc), first as int),
        is_char_boundary(encode_utf8(doc), second as int),
        first != second,
    ensures
        ({
            let a = Edit::Insert { position: first, text: first_text };
            let b = Edit::Insert { position: second, text: second_text };
            &&& a.apply(doc) is Ok
            &&& b.apply(doc) is Ok
            &&& a.transform(b) is Ok
            &&& b.transform(a) is Ok
            &&& b.transform(a)->Ok_0.apply(a.apply(doc)->Ok_0) is Ok
            &&& b.transform(a)->Ok_0.apply(a.apply(doc)->Ok_0) == a.transform(b)->Ok_0.apply(
                b.apply(doc)->Ok_0,
            )
        }),
{
    if first < second {
        lemma_ordered_inserts_commute(doc, first, first_text, second, second_text);
    } else {
        lemma_ordered_inserts_commute(doc, second, second_text, first, first_text);
    }
}

/// Two deletions of ranges that do not meet converge in either order.
pub proof fn lemma_disjoint_deletes_commute(
    doc: Seq<char>,
    first: nat,
    first_length: nat,
    second: nat,
    second_length: nat,
)
    requires
        first + first_length <= second,
        second + second_length <= width(doc),
        is_char_boundary(encode_utf8(doc), first as int),
        is_char_boundary(encode_utf8(doc), (first + first_length) as int),
        is_char_boundary(encode_utf8(doc), second as int),
        is_char_boundary(encode_utf8(doc), (second + second_length) as int),
    ensures
        ({
            let a = Edit::Delete { position: first, length: first_length };
            let b = Edit::Delete { position: second, length: second_length };
            &&& a.apply(doc) is Ok
            &&& b.apply(doc) is Ok
            &&& a.transform(b) is Ok
            &&& b.transform(a) is Ok
            &&& b.transform(a)->Ok_0.apply(a.apply(doc)->Ok_0) is Ok
            &&& b.transform(a)->Ok_0.apply(a.apply(doc)->Ok_0) == a.transform(b)->Ok_0.apply(
                b.apply(doc)->Ok_0,
            )
        }),
{
    let a = Edit::Delete { position: first, length: first_length };
    let b = Edit::Delete { position: second, length: second_length };
    let moved = Edit::Delete { position: (second - first_length) as nat, length: second_length };
    let after_a = a.apply(doc)->Ok_0;
    let after_b = b.apply(doc)->Ok_0;
    assert(a.transform(b) == Ok::<Edit, OTError>(a));
    assert(b.transform(a) == Ok::<Edit, OTError>(moved));
    lemma_delete_bytes(doc, first, first_length);
    lemma_delete_bytes(doc, second, second_length);
    lemma_places_after_delete(doc, first, first_length, second);
    lemma_places_after_delete(doc, first, first_length, second + second_length);
    lemma_places_after_delete(doc, second, second_length, first);
    lemma_places_after_delete(doc, second, second_length, first + first_length);
    assert(moved.apply(after_a) is Ok);
    assert(a.apply(after_b) is Ok);
    lemma_delete_bytes(after_a, (second - first_length) as nat, second_length);
    lemma_delete_bytes(after_b, first, first_length);
    let left = moved.apply(after_a)->Ok_0;
    let right = a.apply(after_b)->Ok_0;
    assert(encode_utf8(left) =~= encode_utf8(right));
    lemma_same_bytes_same_text(left, right);
}

/// An insertion behind a deleted range and the deletion converge in either
/// order.
pub proof fn lemma_insert_behind_delete_commutes(
    doc: Seq<char>,
    position: nat,
    text: Seq<char>,
    deleted: nat,
    deleted_length: nat,
)
    requires
        deleted + deleted_length <= position,
        position <= width(doc),
        is_char_boundary(encode_utf8(doc), deleted as int),
        is_char_boundary(encode_utf8(doc), (deleted + deleted_length) as int),
        is_char_boundary(encode_utf8(doc), position as int),
    ensures
        ({
            let a = Edit::Insert { position, text };
            let b = Edit::Delete { position: deleted, length: deleted_length };
            &&& a.apply(doc) is Ok
            &&& b.apply(doc) is Ok
            &&& a.transform(b) is Ok
            &&& b.transform(a) is Ok
            &&& b.transform(a)->Ok_0.apply(a.apply(doc)->Ok_0) is Ok
            &&& b.transform(a)->Ok_0.apply(a.apply(doc)->Ok_0) == a.transform(b)->Ok_0.apply(
                b.apply(doc)->Ok_0,
            )
        }),
{
    let a = Edit::Insert { position, text };
    let b = Edit::Delete { position: deleted, length: deleted_length };
    let moved = Edit::Insert { position: (position - deleted_length) as nat, text };
    let after_a = a.apply(doc)->Ok_0;
    let after_b = b.apply(doc)->Ok_0;
    assert(a.transform(b) == Ok::<Edit, OTError>(moved));
    assert(b.transform(a) == Ok::<Edit, OTError>(b));
    lemma_insert_bytes(doc, position, text);
    lemma_delete_bytes(doc, deleted, deleted_length);
    lemma_places_after_insert(doc, position, text, deleted);
    lemma_places_after_insert(doc, position, text, deleted + deleted_length);
    lemma_places_after_delete(doc, deleted, deleted_length, position);
    assert(b.apply(after_a) is Ok);
    assert(moved.apply(after_b) is Ok);
    lemma_delete_bytes(after_a, deleted, deleted_length);
    lemma_insert_bytes(after_b, (position - deleted_length) as nat, text);
    let left = b.apply(after_a)->Ok_0;
    let right = moved.apply(after_b)->Ok_0;
    assert(encode_utf8(left) =~= encode_utf8(right));
    lemma_same_bytes_same_text(left, right);
}

} // verus!
