//! What holds of the directory and of the log, whatever they hold: proved
//! over the views that the operations of the store are stated in.

use crate::allocator::lemma_next_id_is_fresh;
use crate::articles::rev_id::{lemma_rev_key_order, lemma_rev_key_shape, RevId};
use crate::articles::{ArticleId, ArticlesView, RevisionView};
use crate::clock::{lemma_timestamp_round_trip, Timestamp};
use crate::error::Failure;
use crate::id::{be_bytes, be_value, lemma_be_value_of_bytes, Id};
use crate::order::{
    any_with_prefix, has_prefix, is_last_with_prefix, last_with_prefix, lemma_last_with_prefix_is,
    lemma_lex_lt_asymmetric, lemma_lex_lt_irreflexive, lemma_lex_lt_transitive, lex_le,
};
use crate::text::lemma_encode_utf8_injective;
use crate::users::UserId;
use vstd::prelude::*;
use vstd::utf8::encode_utf8;

verus! {

/// After an accepted revision, that revision is the article's current one,
/// and it reads back as it was written: same text, same author, same date.
pub proof fn lemma_added_revision_is_current(
    before: ArticlesView,
    article: ArticleId,
    author: UserId,
    content: Seq<char>,
    date: Timestamp,
    rev: RevId,
)
    requires
        before.has_current(article),
        before.next_revision(article, content) == Ok::<RevId, Failure>(rev),
    ensures
        ({
            let after = before.with_revision(rev, author, content, date);
            let written = RevisionView { content, author_id: author, date };
            &&& rev.0 == article
            &&& is_last_with_prefix(after.authors, article.key(), rev.key())
            &&& after.has_current(article)
            &&& after.revision_at(rev) == Ok::<RevisionView, Failure>(written)
            &&& after.current_revision(article) == Ok::<Option<(RevId, RevisionView)>, Failure>(
                Some((rev, written)),
            )
        }),
{
    let after = before.with_revision(rev, author, content, date);
    let prefix = article.key();
    let new_key = rev.key();
    lemma_rev_key_shape(rev.article(), rev.number());
    // The new revision belongs to the article and follows its current one.
    match last_with_prefix(before.authors, prefix) {
        None => {
            assert(rev == RevId(article, Id(1)));
            assert forall|other: Seq<u8>| #[trigger]
                after.authors.contains_key(other) && has_prefix(other, prefix) implies lex_le(
                other,
                new_key,
            ) by {
                if other != new_key {
                    assert(before.authors.contains_key(other));
                }
            }
        },
        Some(chosen) => {
            let last = choose|key: Seq<u8>| is_last_with_prefix(before.authors, prefix, key);
            assert(before.authors.contains_key(last) && has_prefix(last, prefix));
            lemma_last_with_prefix_is(before.authors, prefix, last);
            assert(chosen == last);
            let current = RevId(article, Id(be_value(last.subrange(4, 8))));
            assert(last.len() == 8);
            crate::articles::rev_id::lemma_rev_key_of_prefixed(last, article.0.0);
            assert(current.key() == last);
            assert(rev == RevId(article, Id((current.number() + 1) as u32)));
            lemma_rev_key_order(article.0.0, current.number(), rev.number());
            assert forall|other: Seq<u8>| #[trigger]
                after.authors.contains_key(other) && has_prefix(other, prefix) implies lex_le(
                other,
                new_key,
            ) by {
                if other != new_key {
                    assert(before.authors.contains_key(other));
                    assert(lex_le(other, last));
                    if other != last {
                        lemma_lex_lt_transitive(other, last, new_key);
                    }
                }
            }
        },
    }
    assert(rev.0 == article);
    assert(after.authors.contains_key(new_key));
    assert(is_last_with_prefix(after.authors, prefix, new_key));
    lemma_last_with_prefix_is(after.authors, prefix, new_key);
    // It reads back as it was written.
    lemma_be_value_of_bytes(author.0.0);
    lemma_timestamp_round_trip(date.secs, date.nanos);
    vstd::utf8::encode_utf8_valid_utf8(content);
    vstd::utf8::encode_utf8_decode_utf8(content);
    lemma_be_value_of_bytes(rev.number());
    assert(new_key.subrange(4, 8) == be_bytes(rev.number()));
    assert(RevId(article, Id(be_value(new_key.subrange(4, 8)))) == rev);
}

/// Writing the same text twice in a row is rejected the second time.
pub proof fn lemma_identical_revision_is_rejected(
    before: ArticlesView,
    article: ArticleId,
    author: UserId,
    content: Seq<char>,
    date: Timestamp,
    rev: RevId,
)
    requires
        before.has_current(article),
        before.next_revision(article, content) == Ok::<RevId, Failure>(rev),
    ensures
        before.with_revision(rev, author, content, date).next_revision(article, content) == Err::<
            RevId,
            Failure,
        >(Failure::IdenticalNewRevision),
{
    lemma_added_revision_is_current(before, article, author, content, date, rev);
}

/// The revisions accepted one after the other for an article that had none
/// are numbered 1, 2, 3 and so on: the one accepted after `i` others has
/// number `i + 1`.
pub proof fn lemma_revision_numbers_count_up(
    states: Seq<ArticlesView>,
    article: ArticleId,
    authors: Seq<UserId>,
    contents: Seq<Seq<char>>,
    dates: Seq<Timestamp>,
    revs: Seq<RevId>,
)
    requires
        states.len() == revs.len() + 1,
        authors.len() == revs.len(),
        contents.len() == revs.len(),
        dates.len() == revs.len(),
        !any_with_prefix(states[0].authors, article.key()),
        forall|i: int|
            0 <= i < revs.len() ==> states[i].next_revision(article, contents[i]) == Ok::<
                RevId,
                Failure,
            >(#[trigger] revs[i]) && states[i + 1] == states[i].with_revision(
                revs[i],
                authors[i],
                contents[i],
                dates[i],
            ),
    ensures
        forall|i: int| 0 <= i < revs.len() ==> #[trigger] revs[i] == RevId(article, Id((i + 1) as u32)),
{
    assert forall|i: int| 0 <= i < revs.len() implies #[trigger] revs[i] == RevId(
        article,
        Id((i + 1) as u32),
    ) by {
        lemma_numbered_up_to(states, article, authors, contents, dates, revs, i);
    }
}

/// The induction behind `lemma_revision_numbers_count_up`: after `i`
/// accepted revisions the current one has number `i`, so the next gets
/// `i + 1`.
proof fn lemma_numbered_up_to(
    states: Seq<ArticlesView>,
    article: ArticleId,
    authors: Seq<UserId>,
    contents: Seq<Seq<char>>,
    dates: Seq<Timestamp>,
    revs: Seq<RevId>,
    i: int,
)
    requires
        states.len() == revs.len() + 1,
        authors.len() == revs.len(),
        contents.len() == revs.len(),
        dates.len() == revs.len(),
        !any_with_prefix(states[0].authors, article.key()),
        forall|j: int|
            0 <= j < revs.len() ==> states[j].next_revision(article, contents[j]) == Ok::<
                RevId,
                Failure,
            >(#[trigger] revs[j]) && states[j + 1] == states[j].with_revision(
                revs[j],
                authors[j],
                contents[j],
                dates[j],
            ),
        0 <= i < revs.len(),
    ensures
        states[i].has_current(article),
        i + 1 <= u32::MAX,
        revs[i] == RevId(article, Id((i + 1) as u32)),
    decreases i,
{
    let state = states[i];
    let rev = revs[i];
    if i == 0 {
        assert(last_with_prefix(state.authors, article.key()) is None);
        assert(rev == RevId(article, Id(1)));
    } else {
        lemma_numbered_up_to(states, article, authors, contents, dates, revs, i - 1);
        let earlier = states[i - 1];
        let previous = revs[i - 1];
        assert(state == earlier.with_revision(previous, authors[i - 1], contents[i - 1], dates[i - 1]));
        lemma_added_revision_is_current(
            earlier,
            article,
            authors[i - 1],
            contents[i - 1],
            dates[i - 1],
            previous,
        );
        lemma_successor_of_current(state, article, contents[i], previous, rev);
    }
}

/// Where a revision is the article's current one, the revision accepted
/// next has the number after it.
proof fn lemma_successor_of_current(
    store: ArticlesView,
    article: ArticleId,
    content: Seq<char>,
    current: RevId,
    rev: RevId,
)
    requires
        current.0 == article,
        exists|revision: RevisionView|
            store.current_revision(article) == Ok::<Option<(RevId, RevisionView)>, Failure>(
                Some((current, revision)),
            ),
        store.next_revision(article, content) == Ok::<RevId, Failure>(rev),
    ensures
        current.number() < u32::MAX,
        rev == RevId(article, Id((current.number() + 1) as u32)),
{
}

/// A revision added to one article leaves the history of every other
/// article as it was: the same current revision, and the same revision
/// under every identifier.
pub proof fn lemma_other_histories_are_untouched(
    before: ArticlesView,
    rev: RevId,
    author: UserId,
    content: Seq<char>,
    date: Timestamp,
    other: ArticleId,
    other_rev: RevId,
)
    requires
        before.has_current(other),
        other != rev.0,
        other_rev.0 != rev.0,
    ensures
        ({
            let after = before.with_revision(rev, author, content, date);
            &&& after.current_revision(other) == before.current_revision(other)
            &&& after.revision_at(other_rev) == before.revision_at(other_rev)
            &&& after.has_current(other)
        }),
{
    let after = before.with_revision(rev, author, content, date);
    let prefix = other.key();
    let new_key = rev.key();
    lemma_rev_key_shape(rev.article(), rev.number());
    lemma_rev_key_shape(other_rev.article(), other_rev.number());
    // The new key belongs to another article: it starts with other bytes.
    assert(!has_prefix(new_key, prefix)) by {
        if has_prefix(new_key, prefix) {
            crate::id::lemma_be_bytes_injective(rev.article(), other.0.0);
        }
    }
    assert(new_key != other_rev.key()) by {
        if new_key == other_rev.key() {
            crate::articles::rev_id::lemma_rev_key_injective(
                rev.article(),
                rev.number(),
                other_rev.article(),
                other_rev.number(),
            );
        }
    }
    // So the keys of the other article are the same before and after.
    assert forall|key: Seq<u8>|
        is_last_with_prefix(after.authors, prefix, key) == is_last_with_prefix(
            before.authors,
            prefix,
            key,
        ) by {
        if is_last_with_prefix(before.authors, prefix, key) {
            assert forall|k: Seq<u8>| #[trigger]
                after.authors.contains_key(k) && has_prefix(k, prefix) implies lex_le(k, key) by {
                assert(before.authors.contains_key(k));
            }
        }
        if is_last_with_prefix(after.authors, prefix, key) {
            assert forall|k: Seq<u8>| #[trigger]
                before.authors.contains_key(k) && has_prefix(k, prefix) implies lex_le(k, key) by {
                assert(after.authors.contains_key(k));
            }
        }
    }
    assert(any_with_prefix(after.authors, prefix) == any_with_prefix(before.authors, prefix)) by {
        if any_with_prefix(before.authors, prefix) {
            let k = choose|k: Seq<u8>| #[trigger]
                before.authors.contains_key(k) && has_prefix(k, prefix);
            assert(after.authors.contains_key(k) && has_prefix(k, prefix));
        }
        if any_with_prefix(after.authors, prefix) {
            let k = choose|k: Seq<u8>| #[trigger]
                after.authors.contains_key(k) && has_prefix(k, prefix);
            assert(before.authors.contains_key(k) && has_prefix(k, prefix));
        }
    }
    if any_with_prefix(before.authors, prefix) {
        let key = choose|key: Seq<u8>| is_last_with_prefix(before.authors, prefix, key);
        assert(is_last_with_prefix(after.authors, prefix, key));
        lemma_last_with_prefix_is(after.authors, prefix, key);
        lemma_last_with_prefix_is(before.authors, prefix, key);
        if key.len() == 8 {
            crate::articles::rev_id::lemma_rev_key_of_prefixed(key, other.0.0);
            assert(key != new_key);
        }
    }
}

/// A revision that the log does not hold is unknown: reading it fails with
/// `RevisionUnknown`, whatever other revisions the log holds.
pub proof fn lemma_unissued_revision_is_unknown(store: ArticlesView, rev: RevId)
    requires
        store.log_complete(),
        !store.authors.contains_key(rev.key()),
    ensures
        store.revision_at(rev) == Err::<RevisionView, Failure>(Failure::RevisionUnknown(rev.0, rev.1)),
{
    assert(store.authors.contains_key(rev.key()) == store.dates.contains_key(rev.key()));
}

/// A revision number beyond the current one was never issued: the log holds
/// nothing under it. The same holds of every number where the article has
/// no revision.
pub proof fn lemma_later_revision_is_unissued(store: ArticlesView, article: ArticleId, number: Id)
    requires
        store.has_current(article),
        match store.current_revision(article) {
            Ok(Some(current)) => current.0.1.0 < number.0,
            Ok(None) => true,
            Err(_) => false,
        },
    ensures
        !store.authors.contains_key(RevId(article, number).key()),
{
    let key = RevId(article, number).key();
    let prefix = article.key();
    lemma_rev_key_shape(article.0.0, number.0);
    if store.authors.contains_key(key) {
        assert(any_with_prefix(store.authors, prefix));
        let last = choose|key: Seq<u8>| is_last_with_prefix(store.authors, prefix, key);
        lemma_last_with_prefix_is(store.authors, prefix, last);
        assert(last.len() == 8);
        crate::articles::rev_id::lemma_rev_key_of_prefixed(last, article.0.0);
        let current = be_value(last.subrange(4, 8));
        assert(current < number.0);
        lemma_rev_key_order(article.0.0, current, number.0);
        assert(lex_le(key, last));
        if key == last {
            lemma_lex_lt_irreflexive(key);
        } else {
            lemma_lex_lt_asymmetric(key, last);
        }
    }
}

/// An accepted revision keeps the log complete.
pub proof fn lemma_add_revision_keeps_log_complete(
    before: ArticlesView,
    rev: RevId,
    author: UserId,
    content: Seq<char>,
    date: Timestamp,
)
    requires
        before.log_complete(),
    ensures
        before.with_revision(rev, author, content, date).log_complete(),
{
    let after = before.with_revision(rev, author, content, date);
    assert forall|key: Seq<u8>|
        (#[trigger] after.authors.contains_key(key) == after.dates.contains_key(key))
            && after.authors.contains_key(key) == after.contents.contains_key(key) by {
        assert(before.authors.contains_key(key) == before.dates.contains_key(key));
    }
}

/// A rename that succeeds moves the article from its old name to the new
/// one: the old name leads nowhere, the new name leads to the article, and
/// the article bears the new name.
pub proof fn lemma_rename_moves_the_name(
    before: ArticlesView,
    id: ArticleId,
    old_name: Seq<char>,
    new_name: Seq<char>,
)
    requires
        before.name_of(id) == Ok::<Seq<char>, Failure>(old_name),
        before.renamed(id, new_name) is Ok,
    ensures
        ({
            let after = before.with_name(id, new_name);
            &&& after.id_of(new_name) == Ok::<Option<ArticleId>, Failure>(Some(id))
            &&& after.name_of(id) == Ok::<Seq<char>, Failure>(new_name)
            &&& old_name != new_name ==> after.id_of(old_name) == Ok::<Option<ArticleId>, Failure>(
                None,
            )
        }),
{
    let after = before.with_name(id, new_name);
    lemma_be_value_of_bytes(id.0.0);
    vstd::utf8::encode_utf8_valid_utf8(new_name);
    vstd::utf8::encode_utf8_decode_utf8(new_name);
    vstd::utf8::decode_utf8_encode_utf8(before.names[id.key()]);
    assert(encode_utf8(old_name) == before.names[id.key()]);
    if old_name != new_name {
        if encode_utf8(old_name) == encode_utf8(new_name) {
            lemma_encode_utf8_injective(old_name, new_name);
        }
    }
}

/// A rename to the name of another article is refused.
pub proof fn lemma_rename_to_taken_name_is_refused(
    before: ArticlesView,
    id: ArticleId,
    other: ArticleId,
    new_name: Seq<char>,
)
    requires
        before.id_of(new_name) == Ok::<Option<ArticleId>, Failure>(Some(other)),
        other != id,
    ensures
        before.renamed(id, new_name) == Err::<(), Failure>(Failure::DuplicateArticleName(new_name)),
{
}

/// In a directory that agrees, no two articles bear the same name.
pub proof fn lemma_names_are_unique(store: ArticlesView, a: ArticleId, b: ArticleId)
    requires
        store.directory_agrees(),
        store.names.contains_key(a.key()),
        store.names.contains_key(b.key()),
        store.names[a.key()] == store.names[b.key()],
    ensures
        a == b,
{
    assert(store.ids[store.names[a.key()]] == a.key());
    assert(store.ids[store.names[b.key()]] == b.key());
    crate::id::lemma_be_bytes_injective(a.0.0, b.0.0);
}

/// Creating an article keeps the directory in agreement, and gives the
/// article an identifier that no article had.
pub proof fn lemma_create_keeps_directory(before: ArticlesView, name: Seq<char>, id: ArticleId)
    requires
        before.directory_agrees(),
        before.has_last_article(),
        before.created(name) == Ok::<ArticleId, Failure>(id),
    ensures
        !before.names.contains_key(id.key()),
        before.with_article(id, name).directory_agrees(),
        before.with_article(id, name).has_last_article(),
{
    let after = before.with_article(id, name);
    lemma_next_id_is_fresh(before.names, id.0);
    let bytes = encode_utf8(name);
    assert forall|key: Seq<u8>| #[trigger] after.names.contains_key(key) implies after.ids.contains_key(
        after.names[key],
    ) && after.ids[after.names[key]] == key by {
        if key != id.key() {
            assert(before.names.contains_key(key));
            assert(before.ids.contains_key(before.names[key]));
        }
    }
    assert forall|n: Seq<u8>| #[trigger] after.ids.contains_key(n) implies after.names.contains_key(
        after.ids[n],
    ) && after.names[after.ids[n]] == n by {
        if n != bytes {
            assert(before.ids.contains_key(n));
            assert(before.names.contains_key(before.ids[n]));
        }
    }
    lemma_created_is_last(before, name, id);
}

/// The article that `create` enters has the greatest key of the directory.
proof fn lemma_created_is_last(before: ArticlesView, name: Seq<char>, id: ArticleId)
    requires
        before.has_last_article(),
        before.created(name) == Ok::<ArticleId, Failure>(id),
    ensures
        is_last_with_prefix(before.with_article(id, name).names, Seq::empty(), id.key()),
{
    let after = before.with_article(id, name);
    let empty = Seq::<u8>::empty();
    crate::allocator::lemma_empty_prefix(id.key());
    if any_with_prefix(before.names, empty) {
        let last = choose|key: Seq<u8>| is_last_with_prefix(before.names, empty, key);
        lemma_last_with_prefix_is(before.names, empty, last);
        crate::id::lemma_be_bytes_of_value(last);
        crate::id::lemma_be_bytes_order(be_value(last), id.0.0);
        assert forall|other: Seq<u8>| #[trigger]
            after.names.contains_key(other) && has_prefix(other, empty) implies lex_le(
            other,
            id.key(),
        ) by {
            if other != id.key() {
                assert(before.names.contains_key(other));
                assert(lex_le(other, last));
                if other != last {
                    lemma_lex_lt_transitive(other, last, id.key());
                }
            }
        }
    } else {
        assert forall|other: Seq<u8>| #[trigger]
            after.names.contains_key(other) && has_prefix(other, empty) implies lex_le(
            other,
            id.key(),
        ) by {
            if other != id.key() {
                assert(before.names.contains_key(other));
            }
        }
    }
}

/// A rename that succeeds keeps the directory in agreement.
pub proof fn lemma_rename_keeps_directory(before: ArticlesView, id: ArticleId, new_name: Seq<char>)
    requires
        before.directory_agrees(),
        before.renamed(id, new_name) is Ok,
    ensures
        before.with_name(id, new_name).directory_agrees(),
{
    let after = before.with_name(id, new_name);
    let key = id.key();
    let old_bytes = before.names[key];
    let new_bytes = encode_utf8(new_name);
    lemma_be_value_of_bytes(id.0.0);
    assert(before.names.contains_key(key));
    assert(before.ids.contains_key(old_bytes) && before.ids[old_bytes] == key);
    // The new name was free, or the article's own.
    if before.ids.contains_key(new_bytes) {
        assert(before.ids[new_bytes].len() == 4);
        crate::id::lemma_be_bytes_of_value(before.ids[new_bytes]);
        assert(before.ids[new_bytes] == key);
        assert(before.names[before.ids[new_bytes]] == new_bytes);
    }
    assert forall|k: Seq<u8>| #[trigger] after.names.contains_key(k) implies after.ids.contains_key(
        after.names[k],
    ) && after.ids[after.names[k]] == k by {
        if k != key {
            assert(before.names.contains_key(k));
            assert(before.ids[before.names[k]] == k);
        }
    }
    assert forall|n: Seq<u8>| #[trigger] after.ids.contains_key(n) implies after.names.contains_key(
        after.ids[n],
    ) && after.names[after.ids[n]] == n by {
        if n != new_bytes {
            assert(before.ids.contains_key(n));
            assert(before.names[before.ids[n]] == n);
        }
    }
}

} // verus!
