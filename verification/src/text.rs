//! Text as the store keeps it: UTF-8 bytes.

use vstd::prelude::*;
use vstd::utf8::{decode_utf8, encode_utf8, valid_utf8};

verus! {

/// `String::from_utf8`: the text that `bytes` spell, or `None` where they
/// are not UTF-8.
#[verifier::external_body]
pub(crate) fn string_from_utf8(bytes: &[u8]) -> (r: Option<String>)
    ensures
        r is Some == valid_utf8(bytes@),
        r matches Some(text) ==> text@ == decode_utf8(bytes@),
{
    String::from_utf8(bytes.to_vec()).ok()
}

/// Two texts with the same bytes are the same text.
pub proof fn lemma_encode_utf8_injective(a: Seq<char>, b: Seq<char>)
    requires
        encode_utf8(a) == encode_utf8(b),
    ensures
        a == b,
{
    vstd::utf8::encode_utf8_decode_utf8(a);
    vstd::utf8::encode_utf8_decode_utf8(b);
}

/// Two different texts have different bytes.
pub proof fn lemma_encode_utf8_differs(a: Seq<char>, b: Seq<char>)
    requires
        a != b,
    ensures
        encode_utf8(a) != encode_utf8(b),
{
    if encode_utf8(a) == encode_utf8(b) {
        lemma_encode_utf8_injective(a, b);
    }
}

/// Whether two byte strings are the same, byte for byte.
pub fn same_bytes(a: &[u8], b: &[u8]) -> (r: bool)
    ensures
        r == (a@ == b@),
{
    if a.len() != b.len() {
        return false;
    }
    let mut i: usize = 0;
    while i < a.len()
        invariant
            a@.len() == b@.len(),
            0 <= i <= a@.len(),
            forall|j: int| 0 <= j < i ==> a@[j] == b@[j],
        decreases a@.len() - i,
    {
        if a[i] != b[i] {
            return false;
        }
        i += 1;
    }
    assert(a@ =~= b@);
    true
}

/// Whether the bytes are those of the text.
pub fn spells(bytes: &[u8], text: &str) -> (r: bool)
    ensures
        r == (bytes@ == encode_utf8(text@)),
{
    same_bytes(bytes, text.as_bytes())
}

/// Whether two texts are the same, byte for byte.
pub fn same_text(a: &str, b: &str) -> (r: bool)
    ensures
        r == (a@ == b@),
{
    proof {
        if encode_utf8(a@) == encode_utf8(b@) {
            lemma_encode_utf8_injective(a@, b@);
        }
    }
    same_bytes(a.as_bytes(), b.as_bytes())
}

} // verus!
