//! Handing out identifiers: one more than the greatest in use.

use crate::engine::{tree_last, tree_map};
use crate::error::{engine_failed, reports, Failure, WikiError};
use crate::id::{be_bytes, be_value, lemma_be_bytes_of_value, lemma_be_bytes_order, Id};
use crate::order::{
    any_with_prefix, has_prefix, is_last_with_prefix, last_with_prefix, lemma_last_with_prefix_is,
    lemma_lex_lt_asymmetric, lemma_lex_lt_irreflexive, lex_le,
};
use vstd::prelude::*;

verus! {

/// The key that was found, if one was.
pub open spec fn found_key(found: Option<Vec<u8>>) -> Option<Seq<u8>> {
    match found {
        Some(key) => Some(key@),
        None => None,
    }
}

/// The identifier to hand out when `last` is the greatest key in use: the
/// first one for an empty namespace, else the successor of that key.
pub open spec fn id_after(last: Option<Seq<u8>>) -> Result<Id, Failure> {
    match last {
        None => Ok(Id(0)),
        Some(key) => if key.len() != 4 {
            Err(Failure::MalformedKey)
        } else if be_value(key) == u32::MAX {
            Err(Failure::IdSpaceExhausted)
        } else {
            Ok(Id((be_value(key) + 1) as u32))
        },
    }
}

/// The identifier that a namespace hands out next.
pub open spec fn next_id_of(namespace: Map<Seq<u8>, Seq<u8>>) -> Result<Id, Failure> {
    id_after(last_with_prefix(namespace, Seq::empty()))
}

/// The keys of the namespace have an end: if it has any key, it has a
/// greatest one.
pub open spec fn has_last(namespace: Map<Seq<u8>, Seq<u8>>) -> bool {
    any_with_prefix(namespace, Seq::empty()) ==> exists|key: Seq<u8>|
        is_last_with_prefix(namespace, Seq::empty(), key)
}

/// The identifier to hand out when `last` is the greatest key in use.
pub fn next_after(last: Option<Vec<u8>>) -> (r: Result<Id, WikiError>)
    ensures
        match id_after(found_key(last)) {
            Ok(id) => r is Ok && r->Ok_0 == id,
            Err(failure) => reports(r, failure),
        },
{
    match last {
        None => Ok(Id::first()),
        Some(key) => {
            let id = match Id::from_bytes(key.as_slice()) {
                Ok(id) => id,
                Err(e) => { return Err(e); },
            };
            if id.0 == u32::MAX {
                Err(WikiError::IdSpaceExhausted)
            } else {
                Ok(id.next())
            }
        },
    }
}

/// Every byte string starts with the empty one.
pub proof fn lemma_empty_prefix(key: Seq<u8>)
    ensures
        has_prefix(key, Seq::empty()),
{
    assert(key.subrange(0, 0) =~= Seq::<u8>::empty());
}

/// The next unused identifier of the namespace that `tree` holds.
pub fn next_id(tree: &sled::Tree) -> (r: Result<Id, WikiError>)
    ensures
        engine_failed(r) || match next_id_of(tree_map(*tree)) {
            Ok(id) => r is Ok && r->Ok_0 == id,
            Err(failure) => reports(r, failure),
        },
        engine_failed(r) || has_last(tree_map(*tree)),
{
    let found = match tree_last(tree) {
        Ok(found) => found,
        Err(e) => { return Err(WikiError::Storage(e)); },
    };
    match found {
        None => {
            proof {
                let m = tree_map(*tree);
                if any_with_prefix(m, Seq::empty()) {
                    let key = choose|key: Seq<u8>| #[trigger]
                        m.contains_key(key) && has_prefix(key, Seq::empty());
                    assert(m.contains_key(key));
                }
            }
            next_after(None)
        },
        Some(entry) => {
            proof {
                lemma_last_with_prefix_is(tree_map(*tree), Seq::empty(), entry.0@);
            }
            next_after(Some(entry.0))
        },
    }
}

/// An identifier that the namespace hands out is not in use: no key of the
/// namespace is its encoding.
pub proof fn lemma_next_id_is_fresh(namespace: Map<Seq<u8>, Seq<u8>>, id: Id)
    requires
        next_id_of(namespace) == Ok::<Id, Failure>(id),
        has_last(namespace),
    ensures
        !namespace.contains_key(be_bytes(id.0)),
{
    let new_key = be_bytes(id.0);
    if namespace.contains_key(new_key) {
        lemma_empty_prefix(new_key);
        assert(any_with_prefix(namespace, Seq::empty()));
        let last = choose|key: Seq<u8>| is_last_with_prefix(namespace, Seq::empty(), key);
        lemma_last_with_prefix_is(namespace, Seq::empty(), last);
        assert(lex_le(new_key, last));
        lemma_be_bytes_of_value(last);
        lemma_be_bytes_order(be_value(last), id.0);
        if new_key == last {
            lemma_lex_lt_irreflexive(last);
        } else {
            lemma_lex_lt_asymmetric(new_key, last);
        }
    }
}

} // verus!
