//! The envelope of an arithmetic-circuit proof: the proof points and the public
//! inputs as one byte sequence.
//!
//! An envelope is a row of frames. A frame is the length of its item, as eight
//! bytes with the lowest first, and then the item. The first frame holds the
//! proof points, which the library carries and never reads; each frame after
//! it holds one public input, written with the ASCII digits of its decimal text.

use vstd::prelude::*;
use vstd::bytes::{
    lemma_auto_spec_u64_to_from_le_bytes, spec_u64_from_le_bytes, spec_u64_to_le_bytes,
    u64_from_le_bytes, u64_to_le_bytes,
};
use vstd::slice::slice_subrange;
use vstd::string::StringExecFns;
use vstd::utf8::is_ascii_chars_encode_utf8;
use crate::text::{all_decimal, is_decimal, texts};

verus! {

/// The number of bytes that hold the length of a frame's item.
pub const HEADER: usize = 8;

/// An item with its length before it.
pub open spec fn frame(item: Seq<u8>) -> Seq<u8> {
    spec_u64_to_le_bytes(item.len() as u64) + item
}

/// The frames of `items`, one after the other.
pub open spec fn frames(items: Seq<Seq<u8>>) -> Seq<u8>
    decreases items.len(),
{
    if items.len() == 0 {
        Seq::empty()
    } else {
        frame(items.first()) + frames(items.drop_first())
    }
}

/// The length that the header of `bytes` announces.
pub open spec fn announced(bytes: Seq<u8>) -> int {
    spec_u64_from_le_bytes(bytes.subrange(0, HEADER as int)) as int
}

/// True where `bytes` begins with a whole frame.
pub open spec fn begins_with_frame(bytes: Seq<u8>) -> bool {
    bytes.len() >= HEADER && bytes.len() - HEADER >= announced(bytes)
}

/// The items of the frames that `bytes` is made of, or nothing where `bytes`
/// is no row of whole frames.
pub open spec fn unframed(bytes: Seq<u8>) -> Option<Seq<Seq<u8>>>
    decreases bytes.len(),
{
    if bytes.len() == 0 {
        Some(Seq::empty())
    } else if !begins_with_frame(bytes) {
        None
    } else {
        let end = HEADER + announced(bytes);
        match unframed(bytes.skip(end)) {
            Some(more) => Some(seq![bytes.subrange(HEADER as int, end)] + more),
            None => None,
        }
    }
}

/// The ASCII bytes of a text.
pub open spec fn digit_bytes(text: Seq<char>) -> Seq<u8> {
    Seq::new(text.len(), |i: int| text[i] as u8)
}

/// The text that ASCII bytes spell.
pub open spec fn byte_text(bytes: Seq<u8>) -> Seq<char> {
    Seq::new(bytes.len(), |i: int| bytes[i] as char)
}

/// True where `bytes` are the digits of a decimal field element.
pub open spec fn decimal_bytes(bytes: Seq<u8>) -> bool {
    bytes.len() > 0 && forall|i: int| 0 <= i < bytes.len() ==> 48 <= #[trigger] bytes[i] <= 57
}

/// The items of an envelope: the proof points, then each public input.
pub open spec fn items_of(points: Seq<u8>, public_inputs: Seq<Seq<char>>) -> Seq<Seq<u8>> {
    seq![points] + Seq::new(public_inputs.len(), |i: int| digit_bytes(public_inputs[i]))
}

/// The envelope that holds `points` and `public_inputs`.
pub open spec fn envelope_of(points: Seq<u8>, public_inputs: Seq<Seq<char>>) -> Seq<u8> {
    frames(items_of(points, public_inputs))
}

/// True where the items after the first are all decimal field elements.
pub open spec fn inputs_decimal(items: Seq<Seq<u8>>) -> bool {
    forall|i: int| 1 <= i < items.len() ==> decimal_bytes(#[trigger] items[i])
}

/// What an envelope holds: the proof points and the public inputs, or
/// nothing where the bytes are no envelope. They are one where they are a row
/// of whole frames, at least one, and every frame after the first holds a
/// decimal field element.
pub open spec fn opened(envelope: Seq<u8>) -> Option<(Seq<u8>, Seq<Seq<char>>)> {
    match unframed(envelope) {
        Some(items) => if items.len() >= 1 && inputs_decimal(items) {
            Some((items[0], Seq::new((items.len() - 1) as nat, |i: int| byte_text(items[i + 1]))))
        } else {
            None
        },
        None => None,
    }
}

/// A frame in front of other bytes is read back as its item, with the other
/// bytes left over.
pub proof fn lemma_frame_is_read_back(item: Seq<u8>, rest: Seq<u8>)
    requires
        item.len() <= u64::MAX,
    ensures
        begins_with_frame(frame(item) + rest),
        announced(frame(item) + rest) == item.len(),
        (frame(item) + rest).subrange(HEADER as int, HEADER + item.len()) == item,
        (frame(item) + rest).skip(HEADER + item.len()) == rest,
{
    lemma_auto_spec_u64_to_from_le_bytes();
    let header = spec_u64_to_le_bytes(item.len() as u64);
    let bytes = frame(item) + rest;
    assert(bytes.subrange(0, HEADER as int) =~= header);
    assert(bytes.subrange(HEADER as int, HEADER + item.len()) =~= item);
    assert(bytes.skip(HEADER + item.len()) =~= rest);
}

/// Frames are read back as the items they were made of.
pub proof fn lemma_frames_are_read_back(items: Seq<Seq<u8>>)
    requires
        forall|i: int| 0 <= i < items.len() ==> (#[trigger] items[i]).len() <= u64::MAX,
    ensures
        unframed(frames(items)) == Some(items),
    decreases items.len(),
{
    if items.len() > 0 {
        let rest = items.drop_first();
        assert forall|i: int| 0 <= i < rest.len() implies (#[trigger] rest[i]).len()
            <= u64::MAX by {
            assert(rest[i] == items[i + 1]);
        }
        lemma_frames_are_read_back(rest);
        lemma_frame_is_read_back(items.first(), frames(rest));
        lemma_auto_spec_u64_to_from_le_bytes();
        assert(frames(items).len() >= HEADER);
        assert(seq![items.first()] + rest =~= items);
    }
}

/// The frames of one item are its frame.
pub proof fn lemma_frames_of_one(item: Seq<u8>)
    ensures
        frames(seq![item]) == frame(item),
{
    let one = seq![item];
    assert(one.len() == 1 && one.first() == item);
    assert(one.drop_first().len() == 0);
    assert(frames(one.drop_first()) =~= Seq::<u8>::empty());
    assert(frames(one) =~= frame(item));
}

/// The frames of two rows of items, one row after the other.
pub proof fn lemma_frames_of_both(first: Seq<Seq<u8>>, second: Seq<Seq<u8>>)
    ensures
        frames(first + second) == frames(first) + frames(second),
    decreases first.len(),
{
    if first.len() == 0 {
        assert(first + second =~= second);
        assert(frames(first) + frames(second) =~= frames(second));
    } else {
        assert((first + second).drop_first() =~= first.drop_first() + second);
        lemma_frames_of_both(first.drop_first(), second);
        assert(frames(first + second) =~= frames(first) + frames(second));
    }
}

/// The digits of a decimal text are decimal bytes, and spell that text again.
pub proof fn lemma_digits_spell_their_text(text: Seq<char>)
    requires
        is_decimal(text),
    ensures
        decimal_bytes(digit_bytes(text)),
        byte_text(digit_bytes(text)) == text,
{
    assert forall|i: int| 0 <= i < text.len() implies 48 <= #[trigger] digit_bytes(text)[i]
        <= 57 by {
        assert(crate::text::is_digit(text[i]));
    }
    assert forall|i: int| 0 <= i < text.len() implies byte_text(digit_bytes(text))[i]
        == text[i] by {
        assert(crate::text::is_digit(text[i]));
    }
    assert(byte_text(digit_bytes(text)) =~= text);
}

/// Decimal bytes spell a decimal text, whose digits are those bytes again.
pub proof fn lemma_text_spelled_by_digits(bytes: Seq<u8>)
    requires
        decimal_bytes(bytes),
    ensures
        is_decimal(byte_text(bytes)),
        digit_bytes(byte_text(bytes)) == bytes,
{
    assert forall|i: int| 0 <= i < bytes.len() implies crate::text::is_digit(
        #[trigger] byte_text(bytes)[i],
    ) by {
        assert(48 <= bytes[i] <= 57);
    }
    assert forall|i: int| 0 <= i < bytes.len() implies digit_bytes(byte_text(bytes))[i]
        == bytes[i] by {
        assert(48 <= bytes[i] <= 57);
    }
    assert(digit_bytes(byte_text(bytes)) =~= bytes);
}

/// An envelope that was sealed opens to what was sealed in it: the proof
/// points byte for byte, and each public input digit for digit.
pub proof fn law_sealed_envelope_opens(points: Seq<u8>, public_inputs: Seq<Seq<char>>)
    requires
        points.len() <= u64::MAX,
        all_decimal(public_inputs),
        forall|i: int|
            0 <= i < public_inputs.len() ==> (#[trigger] public_inputs[i]).len() <= u64::MAX,
    ensures
        opened(envelope_of(points, public_inputs)) == Some((points, public_inputs)),
{
    let items = items_of(points, public_inputs);
    assert forall|i: int| 0 <= i < items.len() implies (#[trigger] items[i]).len()
        <= u64::MAX by {
        if i > 0 {
            assert(items[i] == digit_bytes(public_inputs[i - 1]));
        }
    }
    lemma_frames_are_read_back(items);
    assert forall|i: int| 1 <= i < items.len() implies decimal_bytes(#[trigger] items[i]) by {
        assert(items[i] == digit_bytes(public_inputs[i - 1]));
        lemma_digits_spell_their_text(public_inputs[i - 1]);
    }
    let read = Seq::new((items.len() - 1) as nat, |i: int| byte_text(items[i + 1]));
    assert forall|i: int| 0 <= i < public_inputs.len() implies read[i] == public_inputs[i] by {
        assert(items[i + 1] == digit_bytes(public_inputs[i]));
        lemma_digits_spell_their_text(public_inputs[i]);
    }
    assert(read =~= public_inputs);
}

/// Bytes that open as an envelope are the envelope of what they hold: no two
/// byte sequences hold the same proof and public inputs.
pub proof fn law_opened_envelope_was_sealed(envelope: Seq<u8>)
    requires
        opened(envelope) is Some,
    ensures
        envelope_of(opened(envelope)->Some_0.0, opened(envelope)->Some_0.1) == envelope,
        all_decimal(opened(envelope)->Some_0.1),
{
    let items = unframed(envelope)->Some_0;
    lemma_unframed_is_framed(envelope);
    let (points, public_inputs) = opened(envelope)->Some_0;
    assert forall|i: int| 0 <= i < public_inputs.len() implies is_decimal(
        #[trigger] public_inputs[i],
    ) by {
        lemma_text_spelled_by_digits(items[i + 1]);
    }
    let again = items_of(points, public_inputs);
    assert forall|i: int| 0 <= i < items.len() implies again[i] == items[i] by {
        if i > 0 {
            lemma_text_spelled_by_digits(items[i]);
            assert(again[i] == digit_bytes(public_inputs[i - 1]));
        }
    }
    assert(again =~= items);
}

/// Bytes that are a row of whole frames are the frames of their items.
pub proof fn lemma_unframed_is_framed(bytes: Seq<u8>)
    requires
        unframed(bytes) is Some,
    ensures
        frames(unframed(bytes)->Some_0) == bytes,
    decreases bytes.len(),
{
    if bytes.len() == 0 {
        assert(frames(Seq::<Seq<u8>>::empty()) =~= bytes);
    } else {
        lemma_auto_spec_u64_to_from_le_bytes();
        let end = HEADER + announced(bytes);
        let item = bytes.subrange(HEADER as int, end);
        let more = unframed(bytes.skip(end))->Some_0;
        lemma_unframed_is_framed(bytes.skip(end));
        let items = seq![item] + more;
        assert(items.first() == item);
        assert(items.drop_first() =~= more);
        let header = bytes.subrange(0, HEADER as int);
        assert(spec_u64_to_le_bytes(spec_u64_from_le_bytes(header)) == header);
        assert(item.len() as u64 == spec_u64_from_le_bytes(header));
        assert(frame(item) =~= bytes.subrange(0, end));
        assert(frames(items) =~= bytes);
    }
}

/// Puts the frame of `item` at the end of `out`.
fn put_frame(out: &mut Vec<u8>, item: &[u8])
    ensures
        final(out)@ == old(out)@ + frame(item@),
{
    let header = u64_to_le_bytes(item.len() as u64);
    let mut i: usize = 0;
    while i < HEADER
        invariant
            i <= HEADER,
            header@.len() == HEADER,
            out@ == old(out)@ + header@.subrange(0, i as int),
        decreases HEADER - i,
    {
        out.push(header[i]);
        assert(out@ =~= old(out)@ + header@.subrange(0, i + 1));
        i = i + 1;
    }
    assert(header@.subrange(0, HEADER as int) =~= header@);
    let ghost headed = out@;
    let mut j: usize = 0;
    while j < item.len()
        invariant
            j <= item.len(),
            out@ == headed + item@.subrange(0, j as int),
        decreases item.len() - j,
    {
        out.push(item[j]);
        assert(out@ =~= headed + item@.subrange(0, j + 1));
        j = j + 1;
    }
    assert(item@.subrange(0, item@.len() as int) =~= item@);
    assert(out@ =~= old(out)@ + frame(item@));
}

/// Writes the envelope that holds `points` and `public_inputs`.
pub(crate) fn seal(points: &[u8], public_inputs: &Vec<String>) -> (envelope: Vec<u8>)
    requires
        all_decimal(texts(public_inputs@)),
    ensures
        envelope@ == envelope_of(points@, texts(public_inputs@)),
{
    let ghost all = items_of(points@, texts(public_inputs@));
    let mut envelope: Vec<u8> = Vec::new();
    put_frame(&mut envelope, points);
    proof {
        assert(all.take(1) =~= seq![points@]);
        lemma_frames_of_one(points@);
    }
    let mut i: usize = 0;
    while i < public_inputs.len()
        invariant
            i <= public_inputs.len(),
            all == items_of(points@, texts(public_inputs@)),
            all_decimal(texts(public_inputs@)),
            envelope@ == frames(all.take(i + 1)),
        decreases public_inputs.len() - i,
    {
        let digits = public_inputs[i].as_str().as_bytes();
        proof {
            let text = public_inputs[i as int]@;
            assert(texts(public_inputs@)[i as int] == text);
            assert(is_decimal(text));
            assert forall|k: int| 0 <= k < text.len() implies '\0' <= #[trigger] text[k]
                <= '\u{7f}' by {
                assert(crate::text::is_digit(text[k]));
            }
            is_ascii_chars_encode_utf8(text);
            assert(digits@ =~= digit_bytes(text));
            assert(all[i + 1] == digits@);
            assert(all.take(i + 2) =~= all.take(i + 1) + seq![digits@]);
            lemma_frames_of_both(all.take(i + 1), seq![digits@]);
            lemma_frames_of_one(digits@);
        }
        put_frame(&mut envelope, digits);
        i = i + 1;
    }
    assert(all.take(all.len() as int) =~= all);
    envelope
}

/// The one-letter text of a digit.
fn digit_text(digit: u8) -> (text: &'static str)
    requires
        48 <= digit <= 57,
    ensures
        text@ == seq![digit as char],
{
    proof {
        reveal_strlit("0");
        reveal_strlit("1");
        reveal_strlit("2");
        reveal_strlit("3");
        reveal_strlit("4");
        reveal_strlit("5");
        reveal_strlit("6");
        reveal_strlit("7");
        reveal_strlit("8");
        reveal_strlit("9");
    }
    let text = match digit {
        48 => "0",
        49 => "1",
        50 => "2",
        51 => "3",
        52 => "4",
        53 => "5",
        54 => "6",
        55 => "7",
        56 => "8",
        _ => "9",
    };
    assert(text@ =~= seq![digit as char]);
    text
}

/// The text that decimal bytes spell, or nothing where the bytes are not
/// decimal.
fn spell(bytes: &Vec<u8>) -> (text: Option<String>)
    ensures
        match text {
            Some(spelled) => decimal_bytes(bytes@) && spelled@ == byte_text(bytes@),
            None => !decimal_bytes(bytes@),
        },
{
    if bytes.len() == 0 {
        return None;
    }
    let mut spelled = String::new();
    let mut i: usize = 0;
    while i < bytes.len()
        invariant
            i <= bytes.len(),
            forall|k: int| 0 <= k < i ==> 48 <= #[trigger] bytes@[k] <= 57,
            spelled@ == byte_text(bytes@).take(i as int),
        decreases bytes.len() - i,
    {
        let digit = bytes[i];
        if digit < 48 || digit > 57 {
            return None;
        }
        spelled.append(digit_text(digit));
        assert(spelled@ =~= byte_text(bytes@).take(i + 1));
        i = i + 1;
    }
    assert(byte_text(bytes@).take(bytes@.len() as int) =~= byte_text(bytes@));
    Some(spelled)
}

/// The items of a row of items, each as its bytes.
pub open spec fn rows(items: Seq<Vec<u8>>) -> Seq<Seq<u8>> {
    Seq::new(items.len(), |i: int| items[i]@)
}

/// Reads the items out of a row of frames.
fn unframe(bytes: &[u8]) -> (items: Option<Vec<Vec<u8>>>)
    ensures
        match items {
            Some(read) => unframed(bytes@) == Some(rows(read@)),
            None => unframed(bytes@) is None,
        },
{
    let mut items: Vec<Vec<u8>> = Vec::new();
    let mut at: usize = 0;
    assert(bytes@.skip(0) =~= bytes@);
    while at < bytes.len()
        invariant
            at <= bytes.len(),
            unframed(bytes@) == match unframed(bytes@.skip(at as int)) {
                Some(more) => Some(rows(items@) + more),
                None => None,
            },
        decreases bytes.len() - at,
    {
        let ghost rest = bytes@.skip(at as int);
        let left = bytes.len() - at;
        if left < HEADER {
            return None;
        }
        let header = slice_subrange(bytes, at, at + HEADER);
        assert(header@ =~= rest.subrange(0, HEADER as int));
        let length = u64_from_le_bytes(header);
        if length > (left - HEADER) as u64 {
            return None;
        }
        let end = at + HEADER + length as usize;
        let mut item: Vec<u8> = Vec::new();
        let mut i: usize = at + HEADER;
        while i < end
            invariant
                at + HEADER <= i <= end <= bytes.len(),
                item@ == bytes@.subrange(at + HEADER, i as int),
            decreases end - i,
        {
            item.push(bytes[i]);
            assert(item@ =~= bytes@.subrange(at + HEADER, i + 1));
            i = i + 1;
        }
        proof {
            assert(item@ =~= rest.subrange(HEADER as int, HEADER + announced(rest)));
            assert(rest.skip(HEADER + announced(rest)) =~= bytes@.skip(end as int));
            let more = unframed(bytes@.skip(end as int));
            if more is Some {
                assert(rows(items@.push(item)) + more->Some_0 =~= rows(items@) + (seq![item@]
                    + more->Some_0));
            }
        }
        items.push(item);
        at = end;
    }
    assert(rows(items@) + Seq::<Seq<u8>>::empty() =~= rows(items@));
    Some(items)
}

/// Reads the proof points and the public inputs out of an envelope, or nothing
/// where the bytes are no envelope.
pub fn open(envelope: &[u8]) -> (parts: Option<(Vec<u8>, Vec<String>)>)
    ensures
        match parts {
            Some((points, public_inputs)) => opened(envelope@) == Some(
                (points@, texts(public_inputs@)),
            ),
            None => opened(envelope@) is None,
        },
{
    let mut items = match unframe(envelope) {
        Some(items) => items,
        None => {
            return None;
        },
    };
    if items.len() == 0 {
        return None;
    }
    let ghost all = rows(items@);
    let mut public_inputs: Vec<String> = Vec::new();
    let mut i: usize = 1;
    while i < items.len()
        invariant
            1 <= i <= items.len(),
            all == rows(items@),
            unframed(envelope@) == Some(all),
            public_inputs@.len() == i - 1,
            forall|k: int| 1 <= k < i ==> decimal_bytes(#[trigger] all[k]),
            forall|k: int|
                0 <= k < i - 1 ==> (#[trigger] public_inputs@[k])@ == byte_text(all[k + 1]),
        decreases items.len() - i,
    {
        match spell(&items[i]) {
            Some(text) => {
                public_inputs.push(text);
            },
            None => {
                assert(!decimal_bytes(all[i as int]));
                assert(!inputs_decimal(all));
                return None;
            },
        }
        i = i + 1;
    }
    let points = items.swap_remove(0);
    proof {
        assert(points@ == all[0]);
        assert(texts(public_inputs@) =~= Seq::new(
            (all.len() - 1) as nat,
            |k: int| byte_text(all[k + 1]),
        ));
    }
    Some((points, public_inputs))
}

} // verus!
