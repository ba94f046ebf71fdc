//! Revision identifiers and their eight-byte keys.

use crate::articles::ArticleId;
use crate::error::WikiError;
use crate::id::{be_bytes, be_value, lemma_be_bytes_of_value, lemma_be_bytes_order, lemma_be_value_of_bytes, Id};
use crate::order::{has_prefix, lemma_lex_lt_after_prefix, lex_lt};
use vstd::prelude::*;

verus! {

/// The key of revision `number` of article `article`: the article's four
/// bytes, then the number's four bytes.
pub open spec fn rev_key(article: u32, number: u32) -> Seq<u8> {
    be_bytes(article) + be_bytes(number)
}

/// The identifier of one revision: an article and a revision number.
#[derive(Debug, Clone, Copy, PartialEq, Eq, Structural)]
pub struct RevId(pub ArticleId, pub Id);

impl RevId {
    /// The article, as a number.
    pub open spec fn article(self) -> u32 {
        self.0.0.0
    }

    /// The revision number.
    pub open spec fn number(self) -> u32 {
        self.1.0
    }

    /// The identifier of revision `number` of article `article`.
    pub open spec fn of(article: u32, number: u32) -> RevId {
        RevId(ArticleId(Id(article)), Id(number))
    }

    /// The key under which the revision is stored.
    pub open spec fn key(self) -> Seq<u8> {
        rev_key(self.article(), self.number())
    }

    /// Decodes a revision identifier from exactly eight bytes.
    pub fn from_bytes(bytes: &[u8]) -> (r: Result<RevId, WikiError>)
        ensures
            bytes@.len() == 8 ==> r is Ok && r->Ok_0.key() == bytes@,
            bytes@.len() == 8 ==> r->Ok_0 == RevId::of(
                be_value(bytes@.subrange(0, 4)),
                be_value(bytes@.subrange(4, 8)),
            ),
            bytes@.len() != 8 ==> r is Err && r->Err_0@ == crate::error::Failure::MalformedKey,
    {
        if bytes.len() != 8 {
            return Err(WikiError::MalformedKey);
        }
        let article: u32 = (bytes[0] as u32) << 24 | (bytes[1] as u32) << 16 | (bytes[2] as u32) << 8
            | (bytes[3] as u32);
        let number: u32 = (bytes[4] as u32) << 24 | (bytes[5] as u32) << 16 | (bytes[6] as u32) << 8
            | (bytes[7] as u32);
        proof {
            let front = bytes@.subrange(0, 4);
            let back = bytes@.subrange(4, 8);
            lemma_be_bytes_of_value(front);
            lemma_be_bytes_of_value(back);
            assert(front + back =~= bytes@);
        }
        Ok(RevId(ArticleId(Id(article)), Id(number)))
    }

    /// Encodes the identifier as eight bytes: article first, then number.
    pub fn to_bytes(&self) -> (r: [u8; 8])
        ensures
            r@ == self.key(),
    {
        let front: [u8; 4] = self.0.0.to_bytes();
        let back: [u8; 4] = self.1.to_bytes();
        let r: [u8; 8] = [
            front[0],
            front[1],
            front[2],
            front[3],
            back[0],
            back[1],
            back[2],
            back[3],
        ];
        assert(r@ =~= self.key());
        r
    }

    /// The identifier of the first revision of an article.
    pub fn first(article_id: ArticleId) -> (r: RevId)
        ensures
            r == RevId(article_id, Id(1)),
    {
        RevId(article_id, Id(1))
    }

    /// The article that the revision belongs to.
    pub fn article_id(&self) -> (r: ArticleId)
        ensures
            r == self.0,
    {
        self.0
    }

    /// The number of the revision within its article.
    pub fn rev_number(&self) -> (r: Id)
        ensures
            r == self.1,
    {
        self.1
    }

    /// The identifier of the revision after this one, of the same article.
    pub fn next(self) -> (r: RevId)
        requires
            self.number() < u32::MAX,
        ensures
            r == RevId(self.0, Id((self.number() + 1) as u32)),
    {
        RevId(self.0, self.1.next())
    }
}

/// A revision key has eight bytes, starts with its article's four bytes,
/// and decodes to the pair it was made from.
pub proof fn lemma_rev_key_shape(article: u32, number: u32)
    ensures
        rev_key(article, number).len() == 8,
        has_prefix(rev_key(article, number), be_bytes(article)),
        rev_key(article, number).subrange(0, 4) == be_bytes(article),
        rev_key(article, number).subrange(4, 8) == be_bytes(number),
        be_value(rev_key(article, number).subrange(0, 4)) == article,
        be_value(rev_key(article, number).subrange(4, 8)) == number,
{
    let key = rev_key(article, number);
    assert(key.subrange(0, 4) =~= be_bytes(article));
    assert(key.subrange(4, 8) =~= be_bytes(number));
    lemma_be_value_of_bytes(article);
    lemma_be_value_of_bytes(number);
}

/// Two revisions with the same key are the same revision.
pub proof fn lemma_rev_key_injective(a: u32, n: u32, b: u32, m: u32)
    requires
        rev_key(a, n) == rev_key(b, m),
    ensures
        a == b,
        n == m,
{
    lemma_rev_key_shape(a, n);
    lemma_rev_key_shape(b, m);
}

/// Within one article, revision keys sort as the revision numbers do.
pub proof fn lemma_rev_key_order(article: u32, n: u32, m: u32)
    ensures
        lex_lt(rev_key(article, n), rev_key(article, m)) == (n < m),
{
    lemma_lex_lt_after_prefix(be_bytes(article), be_bytes(n), be_bytes(m));
    lemma_be_bytes_order(n, m);
}

/// An eight-byte key that starts with an article's four bytes is the key of
/// one of that article's revisions.
pub proof fn lemma_rev_key_of_prefixed(key: Seq<u8>, article: u32)
    requires
        key.len() == 8,
        has_prefix(key, be_bytes(article)),
    ensures
        key == rev_key(article, be_value(key.subrange(4, 8))),
{
    let back = key.subrange(4, 8);
    lemma_be_bytes_of_value(back);
    assert(key =~= key.subrange(0, 4) + back);
}

} // verus!
