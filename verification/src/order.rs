//! Byte strings in the order the engine keeps them: lexicographic, a proper
//! prefix before its extensions.

use vstd::prelude::*;

verus! {

/// `key` starts with `prefix`.
pub open spec fn has_prefix(key: Seq<u8>, prefix: Seq<u8>) -> bool {
    prefix.len() <= key.len() && key.subrange(0, prefix.len() as int) == prefix
}

/// `a` sorts strictly before `b`.
pub open spec fn lex_lt(a: Seq<u8>, b: Seq<u8>) -> bool
    decreases a.len(),
{
    if b.len() == 0 {
        false
    } else if a.len() == 0 {
        true
    } else if a[0] != b[0] {
        a[0] < b[0]
    } else {
        lex_lt(a.skip(1), b.skip(1))
    }
}

/// `a` sorts before `b` or is `b`.
pub open spec fn lex_le(a: Seq<u8>, b: Seq<u8>) -> bool {
    a == b || lex_lt(a, b)
}

/// `key` is in `m`, starts with `prefix`, and no key of `m` with that prefix
/// sorts after it.
pub open spec fn is_last_with_prefix(m: Map<Seq<u8>, Seq<u8>>, prefix: Seq<u8>, key: Seq<u8>) -> bool {
    &&& m.contains_key(key)
    &&& has_prefix(key, prefix)
    &&& forall|other: Seq<u8>| #[trigger]
        m.contains_key(other) && has_prefix(other, prefix) ==> lex_le(other, key)
}

/// Some key of `m` starts with `prefix`.
pub open spec fn any_with_prefix(m: Map<Seq<u8>, Seq<u8>>, prefix: Seq<u8>) -> bool {
    exists|key: Seq<u8>| #[trigger] m.contains_key(key) && has_prefix(key, prefix)
}

/// The last key of `m` that starts with `prefix`, if any key does.
pub open spec fn last_with_prefix(m: Map<Seq<u8>, Seq<u8>>, prefix: Seq<u8>) -> Option<Seq<u8>> {
    if any_with_prefix(m, prefix) {
        Some(choose|key: Seq<u8>| is_last_with_prefix(m, prefix, key))
    } else {
        None
    }
}

/// No byte string sorts before itself.
pub proof fn lemma_lex_lt_irreflexive(a: Seq<u8>)
    ensures
        !lex_lt(a, a),
    decreases a.len(),
{
    if a.len() > 0 {
        lemma_lex_lt_irreflexive(a.skip(1));
    }
}

/// Two byte strings never sort before each other.
pub proof fn lemma_lex_lt_asymmetric(a: Seq<u8>, b: Seq<u8>)
    requires
        lex_lt(a, b),
    ensures
        !lex_lt(b, a),
    decreases a.len(),
{
    if a.len() > 0 && b.len() > 0 && a[0] == b[0] {
        lemma_lex_lt_asymmetric(a.skip(1), b.skip(1));
    }
}

/// The order is transitive.
pub proof fn lemma_lex_lt_transitive(a: Seq<u8>, b: Seq<u8>, c: Seq<u8>)
    requires
        lex_lt(a, b),
        lex_lt(b, c),
    ensures
        lex_lt(a, c),
    decreases a.len(),
{
    if a.len() > 0 && b.len() > 0 && c.len() > 0 && a[0] == b[0] && b[0] == c[0] {
        lemma_lex_lt_transitive(a.skip(1), b.skip(1), c.skip(1));
    }
}

/// Any two byte strings are equal or one sorts before the other.
pub proof fn lemma_lex_total(a: Seq<u8>, b: Seq<u8>)
    ensures
        a == b || lex_lt(a, b) || lex_lt(b, a),
    decreases a.len(),
{
    if a.len() == 0 || b.len() == 0 {
        if a.len() == 0 && b.len() == 0 {
            assert(a =~= b);
        }
    } else if a[0] == b[0] {
        lemma_lex_total(a.skip(1), b.skip(1));
        if a.skip(1) == b.skip(1) {
            assert(a =~= seq![a[0]] + a.skip(1));
            assert(b =~= seq![b[0]] + b.skip(1));
        }
    }
}

/// A shared front does not change the order of what follows it.
pub proof fn lemma_lex_lt_after_prefix(prefix: Seq<u8>, a: Seq<u8>, b: Seq<u8>)
    ensures
        lex_lt(prefix + a, prefix + b) == lex_lt(a, b),
    decreases prefix.len(),
{
    if prefix.len() == 0 {
        assert(prefix + a =~= a);
        assert(prefix + b =~= b);
    } else {
        let rest = prefix.skip(1);
        assert((prefix + a).skip(1) =~= rest + a);
        assert((prefix + b).skip(1) =~= rest + b);
        lemma_lex_lt_after_prefix(rest, a, b);
    }
}

/// At most one key is the last with a given prefix.
pub proof fn lemma_last_with_prefix_unique(
    m: Map<Seq<u8>, Seq<u8>>,
    prefix: Seq<u8>,
    a: Seq<u8>,
    b: Seq<u8>,
)
    requires
        is_last_with_prefix(m, prefix, a),
        is_last_with_prefix(m, prefix, b),
    ensures
        a == b,
{
    if a != b {
        assert(lex_le(a, b));
        assert(lex_le(b, a));
        lemma_lex_lt_asymmetric(a, b);
    }
}

/// A key that is last with a prefix is the one `last_with_prefix` names.
pub proof fn lemma_last_with_prefix_is(m: Map<Seq<u8>, Seq<u8>>, prefix: Seq<u8>, key: Seq<u8>)
    requires
        is_last_with_prefix(m, prefix, key),
    ensures
        last_with_prefix(m, prefix) == Some(key),
{
    let chosen = choose|k: Seq<u8>| is_last_with_prefix(m, prefix, k);
    lemma_last_with_prefix_unique(m, prefix, key, chosen);
}

} // verus!
