//! What a search result shows of an article where the index has no snippet
//! for it: the article's first sentence.

use crate::text::string_from_utf8;
use vstd::prelude::*;
use vstd::slice::slice_subrange;
use vstd::utf8::{
    encode_utf8, is_char_boundary_iff_not_is_continuation_byte, valid_utf8, valid_utf8_concat,
    valid_utf8_split,
};

verus! {

/// The byte ends a sentence: it is an ASCII punctuation mark other than
/// the comma.
pub open spec fn ends_sentence(byte: u8) -> bool {
    byte != 44 && ((33 <= byte && byte <= 47) || (58 <= byte && byte <= 64) || (91 <= byte && byte
        <= 96) || (123 <= byte && byte <= 126))
}

/// How many bytes the first sentence takes: up to and with the first byte
/// that ends a sentence, or all of them where none does.
pub open spec fn sentence_len(bytes: Seq<u8>) -> int
    decreases bytes.len(),
{
    if bytes.len() == 0 {
        0
    } else if ends_sentence(bytes[0]) {
        1
    } else {
        1 + sentence_len(bytes.skip(1))
    }
}

/// The first sentence of a text, as bytes.
pub open spec fn sentence_of(bytes: Seq<u8>) -> Seq<u8> {
    bytes.subrange(0, sentence_len(bytes))
}

/// Whether the byte ends a sentence.
pub fn is_sentence_end(byte: u8) -> (r: bool)
    ensures
        r == ends_sentence(byte),
{
    byte != 44 && ((33 <= byte && byte <= 47) || (58 <= byte && byte <= 64) || (91 <= byte && byte
        <= 96) || (123 <= byte && byte <= 126))
}

/// Where no byte before `end` ends a sentence, the first sentence is as
/// long as `end` and what the rest adds.
proof fn lemma_sentence_len_after(bytes: Seq<u8>, end: int)
    requires
        0 <= end <= bytes.len(),
        forall|j: int| 0 <= j < end ==> !ends_sentence(#[trigger] bytes[j]),
    ensures
        sentence_len(bytes) == end + sentence_len(bytes.skip(end)),
    decreases end,
{
    if end == 0 {
        assert(bytes.skip(0) =~= bytes);
    } else {
        let rest = bytes.skip(1);
        assert forall|j: int| 0 <= j < end - 1 implies !ends_sentence(#[trigger] rest[j]) by {
            assert(rest[j] == bytes[j + 1]);
        }
        lemma_sentence_len_after(rest, end - 1);
        assert(rest.skip(end - 1) =~= bytes.skip(end));
        assert(!ends_sentence(bytes[0]));
    }
}

/// A text cut after one of its ASCII bytes is still a text.
proof fn lemma_cut_after_ascii(bytes: Seq<u8>, at: int)
    requires
        valid_utf8(bytes),
        0 <= at < bytes.len(),
        bytes[at] <= 0x7f,
    ensures
        valid_utf8(bytes.subrange(0, at + 1)),
{
    is_char_boundary_iff_not_is_continuation_byte(bytes, at);
    valid_utf8_split(bytes, at);
    let front = bytes.subrange(0, at);
    let mark = seq![bytes[at]];
    assert(valid_utf8(mark)) by {
        reveal_with_fuel(valid_utf8, 2);
        assert(vstd::utf8::pop_first_scalar(mark).len() == 0);
    }
    valid_utf8_concat(front, mark);
    assert(front + mark =~= bytes.subrange(0, at + 1));
}

/// The first sentence of `content`: the text up to and with its first
/// punctuation mark other than a comma, or all of it where it has none.
pub fn first_sentence(content: &str) -> (r: String)
    ensures
        encode_utf8(r@) == sentence_of(encode_utf8(content@)),
{
    let bytes = content.as_bytes();
    proof {
        vstd::utf8::encode_utf8_valid_utf8(content@);
    }
    let mut i: usize = 0;
    while i < bytes.len()
        invariant
            0 <= i <= bytes@.len(),
            bytes@ == encode_utf8(content@),
            valid_utf8(bytes@),
            forall|j: int| 0 <= j < i ==> !ends_sentence(#[trigger] bytes@[j]),
        decreases bytes@.len() - i,
    {
        if is_sentence_end(bytes[i]) {
            let sentence = slice_subrange(bytes, 0, i + 1);
            proof {
                lemma_sentence_len_after(bytes@, i as int);
                assert(bytes@.skip(i as int)[0] == bytes@[i as int]);
                lemma_cut_after_ascii(bytes@, i as int);
            }
            match string_from_utf8(sentence) {
                Some(text) => {
                    proof {
                        vstd::utf8::decode_utf8_encode_utf8(sentence@);
                    }
                    return text;
                },
                None => {
                    return content.to_owned();
                },
            }
        }
        i += 1;
    }
    proof {
        lemma_sentence_len_after(bytes@, bytes@.len() as int);
        assert(bytes@.skip(bytes@.len() as int).len() == 0);
        assert(bytes@.subrange(0, bytes@.len() as int) =~= bytes@);
    }
    content.to_owned()
}

} // verus!
