//! What the edits do to the bytes of a text: the UTF-8 encoding of a text
//! after an insertion or a deletion, and where characters begin in it.
use super::ot::back;
use super::ot::front;
use super::ot::width;
use super::ot::Edit;
use super::ot::OTError;
use vstd::prelude::*;
use vstd::utf8::encode_utf8;
use vstd::utf8::is_ascii_chars;
use vstd::utf8::is_char_boundary;
use vstd::utf8::is_continuation_byte;
use vstd::utf8::length_of_first_scalar;
use vstd::utf8::pop_first_scalar;
use vstd::utf8::valid_utf8;

verus! {

/// The encoding of two texts joined is their encodings joined.
pub proof fn lemma_encode_concat(a: Seq<char>, b: Seq<char>)
    ensures
        encode_utf8(a + b) == encode_utf8(a) + encode_utf8(b),
    decreases a.len(),
{
    if a.len() == 0 {
        assert(a + b =~= b);
        assert(encode_utf8(a) + encode_utf8(b) =~= encode_utf8(b));
    } else {
        lemma_encode_concat(a.drop_first(), b);
        assert((a + b).drop_first() =~= a.drop_first() + b);
        assert((a + b)[0] == a[0]);
        assert(encode_utf8(a + b) =~= encode_utf8(a) + encode_utf8(b));
    }
}

/// A text is what stands in front of a place in it and what stands behind
/// that place, and the two parts are encoded by the bytes in front of the
/// place and by the bytes behind it.
pub proof fn lemma_front_and_back(text: Seq<char>, position: nat)
    requires
        position <= width(text),
        is_char_boundary(encode_utf8(text), position as int),
    ensures
        front(encode_utf8(text), position) + back(encode_utf8(text), position) == text,
        encode_utf8(front(encode_utf8(text), position)) == encode_utf8(text).subrange(
            0,
            position as int,
        ),
        encode_utf8(back(encode_utf8(text), position)) == encode_utf8(text).subrange(
            position as int,
            width(text) as int,
        ),
{
    let bytes = encode_utf8(text);
    vstd::utf8::encode_utf8_valid_utf8(text);
    vstd::utf8::encode_utf8_decode_utf8(text);
    vstd::utf8::valid_utf8_split(bytes, position as int);
    vstd::utf8::decode_utf8_split(bytes, position as int);
    vstd::utf8::decode_utf8_encode_utf8(bytes.subrange(0, position as int));
    vstd::utf8::decode_utf8_encode_utf8(bytes.subrange(position as int, bytes.len() as int));
}

/// The bytes of a text after an insertion that it accepts: the inserted
/// bytes stand between the bytes in front of the position and the bytes
/// behind it.
pub proof fn lemma_insert_bytes(doc: Seq<char>, position: nat, text: Seq<char>)
    requires
        (Edit::Insert { position, text }).apply(doc) is Ok,
    ensures
        encode_utf8((Edit::Insert { position, text }).apply(doc)->Ok_0) == encode_utf8(doc).subrange(
            0,
            position as int,
        ) + encode_utf8(text) + encode_utf8(doc).subrange(position as int, width(doc) as int),
        width((Edit::Insert { position, text }).apply(doc)->Ok_0) == width(doc) + width(text),
{
    let bytes = encode_utf8(doc);
    lemma_front_and_back(doc, position);
    lemma_encode_concat(front(bytes, position), text);
    lemma_encode_concat(front(bytes, position) + text, back(bytes, position));
}

/// The bytes of a text after a deletion that it accepts: the bytes in front
/// of the range joined to the bytes behind it.
pub proof fn lemma_delete_bytes(doc: Seq<char>, position: nat, length: nat)
    requires
        (Edit::Delete { position, length }).apply(doc) is Ok,
    ensures
        encode_utf8((Edit::Delete { position, length }).apply(doc)->Ok_0) == encode_utf8(
            doc,
        ).subrange(0, position as int) + encode_utf8(doc).subrange(
            (position + length) as int,
            width(doc) as int,
        ),
        width((Edit::Delete { position, length }).apply(doc)->Ok_0) == width(doc) - length,
{
    let bytes = encode_utf8(doc);
    lemma_front_and_back(doc, position);
    lemma_front_and_back(doc, position + length);
    lemma_encode_concat(front(bytes, position), back(bytes, position + length));
}

/// Where characters begin in two encodings joined: in front of the joint
/// where they begin in the first, behind it where they begin in the second.
pub proof fn lemma_boundary_concat(first: Seq<u8>, second: Seq<u8>, index: int)
    requires
        valid_utf8(first),
        valid_utf8(second),
    ensures
        valid_utf8(first + second),
        is_char_boundary(first + second, index) == if index <= first.len() {
            is_char_boundary(first, index)
        } else {
            is_char_boundary(second, index - first.len())
        },
    decreases first.len(),
{
    vstd::utf8::valid_utf8_concat(first, second);
    vstd::utf8::is_char_boundary_start_end_of_seq(first);
    vstd::utf8::is_char_boundary_start_end_of_seq(second);
    if first.len() == 0 {
        assert(first + second =~= second);
    } else if index == 0 {
    } else if index < 0 || index > first.len() + second.len() {
    } else {
        let rest = pop_first_scalar(first);
        let step = length_of_first_scalar(first);
        assert(pop_first_scalar(first + second) =~= rest + second);
        assert(length_of_first_scalar(first + second) == step);
        lemma_boundary_concat(rest, second, index - step);
    }
}

/// A place in a text is still a place after an insertion in front of it or
/// at it, moved right by the inserted bytes; and a place in front of an
/// insertion or at it stays a place where it is.
pub proof fn lemma_places_after_insert(doc: Seq<char>, position: nat, text: Seq<char>, place: nat)
    requires
        (Edit::Insert { position, text }).apply(doc) is Ok,
        place <= width(doc),
        is_char_boundary(encode_utf8(doc), place as int),
    ensures
        ({
            let after = encode_utf8((Edit::Insert { position, text }).apply(doc)->Ok_0);
            &&& place >= position ==> is_char_boundary(after, (place + width(text)) as int)
            &&& place <= position ==> is_char_boundary(after, place as int)
        }),
{
    let bytes = encode_utf8(doc);
    let head = bytes.subrange(0, position as int);
    let tail = bytes.subrange(position as int, bytes.len() as int);
    let inserted = encode_utf8(text);
    vstd::utf8::encode_utf8_valid_utf8(doc);
    vstd::utf8::encode_utf8_valid_utf8(text);
    vstd::utf8::valid_utf8_split(bytes, position as int);
    lemma_insert_bytes(doc, position, text);
    assert(head + tail =~= bytes);
    lemma_boundary_concat(head, tail, place as int);
    lemma_boundary_concat(head, inserted, position as int);
    lemma_boundary_concat(inserted, tail, 0);
    vstd::utf8::is_char_boundary_start_end_of_seq(head);
    vstd::utf8::is_char_boundary_start_end_of_seq(tail);
    vstd::utf8::is_char_boundary_start_end_of_seq(head + inserted);
    let after = encode_utf8((Edit::Insert { position, text }).apply(doc)->Ok_0);
    assert(after == head + inserted + tail);
    if place >= position {
        lemma_boundary_concat(head + inserted, tail, (place + width(text)) as int);
    }
    if place <= position {
        lemma_boundary_concat(head, inserted + tail, place as int);
        assert(head + (inserted + tail) =~= head + inserted + tail);
    }
}

/// A place in a text in front of a deleted range, or at its start, stays a
/// place where it is; a place behind the range, or at its end, is still a
/// place, moved left by the deleted bytes.
pub proof fn lemma_places_after_delete(doc: Seq<char>, position: nat, length: nat, place: nat)
    requires
        (Edit::Delete { position, length }).apply(doc) is Ok,
        place <= width(doc),
        is_char_boundary(encode_utf8(doc), place as int),
    ensures
        ({
            let after = encode_utf8((Edit::Delete { position, length }).apply(doc)->Ok_0);
            &&& place <= position ==> is_char_boundary(after, place as int)
            &&& place >= position + length ==> is_char_boundary(after, place - length)
        }),
{
    let bytes = encode_utf8(doc);
    let end = (position + length) as int;
    let head = bytes.subrange(0, position as int);
    let rest = bytes.subrange(position as int, bytes.len() as int);
    let lead = bytes.subrange(0, end);
    let tail = bytes.subrange(end, bytes.len() as int);
    vstd::utf8::encode_utf8_valid_utf8(doc);
    vstd::utf8::valid_utf8_split(bytes, position as int);
    vstd::utf8::valid_utf8_split(bytes, end);
    lemma_delete_bytes(doc, position, length);
    let after = encode_utf8((Edit::Delete { position, length }).apply(doc)->Ok_0);
    assert(after == head + tail);
    assert(head + rest =~= bytes);
    assert(lead + tail =~= bytes);
    vstd::utf8::is_char_boundary_start_end_of_seq(head);
    vstd::utf8::is_char_boundary_start_end_of_seq(tail);
    if place <= position {
        lemma_boundary_concat(head, rest, place as int);
        lemma_boundary_concat(head, tail, place as int);
    }
    if place >= position + length {
        lemma_boundary_concat(lead, tail, place as int);
        lemma_boundary_concat(head, tail, place - length);
    }
}

/// In a text of ASCII characters every character takes one byte: the width
/// of the text is its number of characters, every offset up to it is a
/// place in the text, and the parts in front of a place and behind it are
/// the characters in front of it and behind it.
pub proof fn lemma_ascii_places(text: Seq<char>, position: nat)
    requires
        is_ascii_chars(text),
        position <= text.len(),
    ensures
        width(text) == text.len(),
        is_char_boundary(encode_utf8(text), position as int),
        front(encode_utf8(text), position) == text.subrange(0, position as int),
        back(encode_utf8(text), position) == text.subrange(position as int, text.len() as int),
{
    let bytes = encode_utf8(text);
    let head = text.subrange(0, position as int);
    let tail = text.subrange(position as int, text.len() as int);
    vstd::utf8::encode_utf8_valid_utf8(text);
    vstd::utf8::is_ascii_chars_encode_utf8(text);
    vstd::utf8::is_ascii_chars_encode_utf8(head);
    vstd::utf8::is_ascii_chars_encode_utf8(tail);
    vstd::utf8::is_char_boundary_start_end_of_seq(bytes);
    if position < text.len() {
        let byte = bytes[position as int];
        assert(text[position as int] as u8 == byte);
        assert(byte < 128);
        assert(!is_continuation_byte(byte));
        vstd::utf8::is_char_boundary_iff_not_is_continuation_byte(bytes, position as int);
    }
    assert(bytes.subrange(0, position as int) =~= encode_utf8(head));
    assert(bytes.subrange(position as int, bytes.len() as int) =~= encode_utf8(tail));
    vstd::utf8::encode_utf8_decode_utf8(head);
    vstd::utf8::encode_utf8_decode_utf8(tail);
}

/// On a text of ASCII characters an insertion is accepted up to the number
/// of characters, and puts its text between the characters in front of its
/// position and the characters behind it.
pub proof fn lemma_ascii_insert(doc: Seq<char>, position: nat, text: Seq<char>)
    requires
        is_ascii_chars(doc),
    ensures
        (Edit::Insert { position, text }).apply(doc) == if position > doc.len() {
            Err::<Seq<char>, OTError>(OTError::OutOfBounds)
        } else {
            Ok::<Seq<char>, OTError>(
                doc.subrange(0, position as int) + text + doc.subrange(
                    position as int,
                    doc.len() as int,
                ),
            )
        },
{
    lemma_ascii_places(doc, 0);
    if position <= doc.len() {
        lemma_ascii_places(doc, position);
    }
}

/// On a text of ASCII characters a deletion is accepted where its range
/// ends within the characters, and joins the characters in front of the
/// range to the characters behind it.
pub proof fn lemma_ascii_delete(doc: Seq<char>, position: nat, length: nat)
    requires
        is_ascii_chars(doc),
    ensures
        (Edit::Delete { position, length }).apply(doc) == if position + length > doc.len() {
            Err::<Seq<char>, OTError>(OTError::OutOfBounds)
        } else {
            Ok::<Seq<char>, OTError>(
                doc.subrange(0, position as int) + doc.subrange(
                    (position + length) as int,
                    doc.len() as int,
                ),
            )
        },
{
    lemma_ascii_places(doc, 0);
    if position + length <= doc.len() {
        lemma_ascii_places(doc, position);
        lemma_ascii_places(doc, position + length);
    }
}

/// Two texts with the same encoding are the same text.
pub proof fn lemma_same_bytes_same_text(a: Seq<char>, b: Seq<char>)
    requires
        encode_utf8(a) == encode_utf8(b),
    ensures
        a == b,
{
    vstd::utf8::encode_utf8_decode_utf8(a);
    vstd::utf8::encode_utf8_decode_utf8(b);
}

} // verus!
