//! Identifiers and their fixed-width big-endian encoding.

use crate::error::{Failure, WikiError};
use crate::order::lex_lt;
use vstd::prelude::*;

verus! {

/// The four bytes of `n`, most significant first.
pub open spec fn be_bytes(n: u32) -> Seq<u8> {
    seq![
        (n >> 24) as u8,
        ((n >> 16) & 0xff) as u8,
        ((n >> 8) & 0xff) as u8,
        (n & 0xff) as u8,
    ]
}

/// The number that four bytes spell, most significant first.
pub open spec fn be_value(bytes: Seq<u8>) -> u32
    recommends
        bytes.len() == 4,
{
    ((bytes[0] as u32) << 24) | ((bytes[1] as u32) << 16) | ((bytes[2] as u32) << 8) | (
    bytes[3] as u32)
}

/// A 32-bit identifier of an article or a user.
#[derive(Debug, Clone, Copy, PartialEq, Eq, Structural)]
pub struct Id(pub u32);

impl Id {
    /// Decodes an identifier from exactly four big-endian bytes.
    pub fn from_bytes(bytes: &[u8]) -> (r: Result<Id, WikiError>)
        ensures
            bytes@.len() == 4 ==> r == Ok::<Id, WikiError>(Id(be_value(bytes@))),
            bytes@.len() != 4 ==> r is Err && r->Err_0@ == Failure::MalformedKey,
    {
        if bytes.len() != 4 {
            return Err(WikiError::MalformedKey);
        }
        let b0: u32 = bytes[0] as u32;
        let b1: u32 = bytes[1] as u32;
        let b2: u32 = bytes[2] as u32;
        let b3: u32 = bytes[3] as u32;
        Ok(Id((b0 << 24) | (b1 << 16) | (b2 << 8) | b3))
    }

    /// Encodes the identifier as four big-endian bytes.
    pub fn to_bytes(self) -> (r: [u8; 4])
        ensures
            r@ == be_bytes(self.0),
    {
        let n: u32 = self.0;
        assert((n >> 24) <= 0xff) by (bit_vector);
        assert(((n >> 16) & 0xff) <= 0xff) by (bit_vector);
        assert(((n >> 8) & 0xff) <= 0xff) by (bit_vector);
        assert((n & 0xff) <= 0xff) by (bit_vector);
        let r: [u8; 4] = [
            (n >> 24) as u8,
            ((n >> 16) & 0xff) as u8,
            ((n >> 8) & 0xff) as u8,
            (n & 0xff) as u8,
        ];
        assert(r@ =~= be_bytes(self.0));
        r
    }

    /// The identifier that an empty namespace hands out first.
    pub fn first() -> (r: Id)
        ensures
            r == Id(0),
    {
        Id(0)
    }

    /// The identifier after this one.
    pub fn next(self) -> (r: Id)
        requires
            self.0 < u32::MAX,
        ensures
            r == Id((self.0 + 1) as u32),
    {
        Id(self.0 + 1)
    }
}

impl From<u32> for Id {
    fn from(n: u32) -> (r: Id) {
        Id(n)
    }
}

impl vstd::std_specs::convert::FromSpecImpl<u32> for Id {
    open spec fn obeys_from_spec() -> bool {
        true
    }

    open spec fn from_spec(n: u32) -> Id {
        Id(n)
    }
}

/// Decoding undoes encoding.
pub proof fn lemma_be_value_of_bytes(n: u32)
    ensures
        be_bytes(n).len() == 4,
        be_value(be_bytes(n)) == n,
{
    let b0: u32 = n >> 24;
    let b1: u32 = (n >> 16) & 0xff;
    let b2: u32 = (n >> 8) & 0xff;
    let b3: u32 = n & 0xff;
    assert(b0 <= 0xff && b1 <= 0xff && b2 <= 0xff && b3 <= 0xff && ((b0 << 24) | (b1 << 16) | (b2
        << 8) | b3) == n) by (bit_vector)
        requires
            b0 == n >> 24,
            b1 == (n >> 16) & 0xff,
            b2 == (n >> 8) & 0xff,
            b3 == n & 0xff,
    ;
}

/// Encoding undoes decoding, on four bytes.
pub proof fn lemma_be_bytes_of_value(bytes: Seq<u8>)
    requires
        bytes.len() == 4,
    ensures
        be_bytes(be_value(bytes)) == bytes,
{
    let b0: u8 = bytes[0];
    let b1: u8 = bytes[1];
    let b2: u8 = bytes[2];
    let b3: u8 = bytes[3];
    let n: u32 = be_value(bytes);
    assert((n >> 24) as u8 == b0 && ((n >> 16) & 0xff) as u8 == b1 && ((n >> 8) & 0xff) as u8 == b2
        && (n & 0xff) as u8 == b3) by (bit_vector)
        requires
            n == ((b0 as u32) << 24) | ((b1 as u32) << 16) | ((b2 as u32) << 8) | (b3 as u32),
    ;
    assert(be_bytes(n) =~= bytes);
}

/// Two numbers with the same encoding are the same number.
pub proof fn lemma_be_bytes_injective(a: u32, b: u32)
    requires
        be_bytes(a) == be_bytes(b),
    ensures
        a == b,
{
    lemma_be_value_of_bytes(a);
    lemma_be_value_of_bytes(b);
}

/// The encodings of two numbers sort as the numbers do.
pub proof fn lemma_be_bytes_order(a: u32, b: u32)
    ensures
        lex_lt(be_bytes(a), be_bytes(b)) == (a < b),
{
    let x = be_bytes(a);
    let y = be_bytes(b);
    let a0: u32 = a >> 24;
    let a1: u32 = (a >> 16) & 0xff;
    let a2: u32 = (a >> 8) & 0xff;
    let a3: u32 = a & 0xff;
    let b0: u32 = b >> 24;
    let b1: u32 = (b >> 16) & 0xff;
    let b2: u32 = (b >> 8) & 0xff;
    let b3: u32 = b & 0xff;
    assert(a0 <= 0xff && a1 <= 0xff && a2 <= 0xff && a3 <= 0xff && b0 <= 0xff && b1 <= 0xff && b2
        <= 0xff && b3 <= 0xff && ((a < b) == (a0 < b0 || (a0 == b0 && (a1 < b1 || (a1 == b1 && (a2
        < b2 || (a2 == b2 && a3 < b3)))))))) by (bit_vector)
        requires
            a0 == a >> 24,
            a1 == (a >> 16) & 0xff,
            a2 == (a >> 8) & 0xff,
            a3 == a & 0xff,
            b0 == b >> 24,
            b1 == (b >> 16) & 0xff,
            b2 == (b >> 8) & 0xff,
            b3 == b & 0xff,
    ;
    let x1 = x.skip(1);
    let y1 = y.skip(1);
    let x2 = x1.skip(1);
    let y2 = y1.skip(1);
    let x3 = x2.skip(1);
    let y3 = y2.skip(1);
    assert(!lex_lt(x3.skip(1), y3.skip(1)));
    assert(lex_lt(x3, y3) == (x3[0] < y3[0]));
    assert(lex_lt(x2, y2) == (if x2[0] != y2[0] {
        x2[0] < y2[0]
    } else {
        lex_lt(x3, y3)
    }));
    assert(lex_lt(x1, y1) == (if x1[0] != y1[0] {
        x1[0] < y1[0]
    } else {
        lex_lt(x2, y2)
    }));
    assert(lex_lt(x, y) == (if x[0] != y[0] {
        x[0] < y[0]
    } else {
        lex_lt(x1, y1)
    }));
}

} // verus!
