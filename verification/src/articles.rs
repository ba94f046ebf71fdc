//! Articles and their revisions: the directory of names and the log of
//! revisions, over five trees of the engine.

use crate::allocator::{has_last, lemma_empty_prefix, next_id, next_id_of};
use crate::clock::{
    deserialize_timestamp, is_clock_reading, serialize_timestamp, timestamp_of_bytes, Timestamp,
};
use crate::engine::{
    batch_insert, batch_new, batch_remove, commit2, commit3, is_scan, open_tree,
    tree_contains_key, tree_get, tree_map, tree_name, tree_name_of, tree_scan_prefix,
};
use crate::error::{engine_failed, fails_with, reports, Failure, WikiError};
use crate::id::{be_bytes, be_value, lemma_be_bytes_of_value, lemma_be_value_of_bytes, Id};
use crate::order::{
    any_with_prefix, has_prefix, is_last_with_prefix, last_with_prefix, lemma_last_with_prefix_is,
    lex_le, lex_lt,
};
use crate::text::{same_text, spells, string_from_utf8};
use crate::users::UserId;
use rev_id::{lemma_rev_key_shape, RevId};
use vstd::prelude::*;
use vstd::utf8::{decode_utf8, encode_utf8, valid_utf8};

pub mod proofs;
pub mod rev_id;

verus! {

/// The identifier of an article.
#[derive(Debug, Clone, Copy, PartialEq, Eq, Structural)]
pub struct ArticleId(pub Id);

impl ArticleId {
    /// The key under which the article is stored.
    pub open spec fn key(self) -> Seq<u8> {
        be_bytes(self.0.0)
    }

    /// The plain identifier.
    pub fn id(&self) -> (r: Id)
        ensures
            r == self.0,
    {
        self.0
    }

    /// Encodes the identifier as four big-endian bytes.
    pub fn to_bytes(&self) -> (r: [u8; 4])
        ensures
            r@ == self.key(),
    {
        self.0.to_bytes()
    }
}

/// One version of an article's text.
#[derive(Debug, PartialEq)]
pub struct Revision {
    pub content: String,
    pub author_id: UserId,
    pub date: Timestamp,
}

/// A revision without its text.
#[derive(Debug, Clone, Copy, PartialEq, Eq, Structural)]
pub struct RevisionMeta {
    pub author_id: UserId,
    pub date: Timestamp,
}

/// A revision, its text as a sequence of characters.
pub struct RevisionView {
    pub content: Seq<char>,
    pub author_id: UserId,
    pub date: Timestamp,
}

impl View for Revision {
    type V = RevisionView;

    open spec fn view(&self) -> RevisionView {
        RevisionView { content: self.content@, author_id: self.author_id, date: self.date }
    }
}

/// The directory of article names and the log of revisions.
pub struct Articles {
    pub(crate) articleid_name: sled::Tree,
    pub(crate) articlename_id: sled::Tree,
    pub(crate) revid_content: sled::Tree,
    pub(crate) revid_author: sled::Tree,
    pub(crate) revid_date: sled::Tree,
}

/// What the store holds, relation by relation.
pub struct ArticlesView {
    /// Article key to the bytes of the article's name.
    pub names: Map<Seq<u8>, Seq<u8>>,
    /// The bytes of a name to the key of the article that bears it.
    pub ids: Map<Seq<u8>, Seq<u8>>,
    /// Revision key to the bytes of the revision's text.
    pub contents: Map<Seq<u8>, Seq<u8>>,
    /// Revision key to the key of the revision's author.
    pub authors: Map<Seq<u8>, Seq<u8>>,
    /// Revision key to the bytes of the revision's date.
    pub dates: Map<Seq<u8>, Seq<u8>>,
}

/// The names of the five relations differ, and so do their bytes.
pub proof fn lemma_article_relations_differ()
    ensures
        encode_utf8("articleid_name"@) != encode_utf8("articlename_id"@),
        encode_utf8("revid_content"@) != encode_utf8("revid_author"@),
        encode_utf8("revid_content"@) != encode_utf8("revid_date"@),
        encode_utf8("revid_author"@) != encode_utf8("revid_date"@),
{
    reveal_strlit("articleid_name");
    reveal_strlit("articlename_id");
    reveal_strlit("revid_content");
    reveal_strlit("revid_author");
    reveal_strlit("revid_date");
    assert("articleid_name"@[7] != "articlename_id"@[7]);
    assert("revid_content"@.len() == 13);
    assert("revid_author"@.len() == 12);
    assert("revid_date"@.len() == 10);
    crate::text::lemma_encode_utf8_differs("articleid_name"@, "articlename_id"@);
    crate::text::lemma_encode_utf8_differs("revid_content"@, "revid_author"@);
    crate::text::lemma_encode_utf8_differs("revid_content"@, "revid_date"@);
    crate::text::lemma_encode_utf8_differs("revid_author"@, "revid_date"@);
}

impl Articles {
    /// The store is over its own relations: each handle bears the name of
    /// the relation that it is kept for, so no two are handles onto one
    /// tree.
    pub closed spec fn wf(&self) -> bool {
        &&& tree_name(self.articleid_name) == encode_utf8("articleid_name"@)
        &&& tree_name(self.articlename_id) == encode_utf8("articlename_id"@)
        &&& tree_name(self.revid_content) == encode_utf8("revid_content"@)
        &&& tree_name(self.revid_author) == encode_utf8("revid_author"@)
        &&& tree_name(self.revid_date) == encode_utf8("revid_date"@)
    }

    /// Whether the store is over its own relations. A store that was opened
    /// is, and stays so.
    pub fn is_valid(&self) -> (r: bool)
        ensures
            r == self.wf(),
    {
        spells(tree_name_of(&self.articleid_name).as_slice(), "articleid_name") && spells(
            tree_name_of(&self.articlename_id).as_slice(),
            "articlename_id",
        ) && spells(tree_name_of(&self.revid_content).as_slice(), "revid_content") && spells(
            tree_name_of(&self.revid_author).as_slice(),
            "revid_author",
        ) && spells(tree_name_of(&self.revid_date).as_slice(), "revid_date")
    }

    /// Opens the five relations of articles in `db`, with whatever they
    /// hold already.
    pub(crate) fn open(db: &sled::Db) -> (r: Result<Articles, WikiError>)
        ensures
            r matches Ok(articles) ==> articles.wf(),
            r matches Err(e) ==> e@ == Failure::Engine,
    {
        let articleid_name = match open_tree(db, "articleid_name") {
            Ok(tree) => tree,
            Err(e) => { return Err(WikiError::Storage(e)); },
        };
        let articlename_id = match open_tree(db, "articlename_id") {
            Ok(tree) => tree,
            Err(e) => { return Err(WikiError::Storage(e)); },
        };
        let revid_content = match open_tree(db, "revid_content") {
            Ok(tree) => tree,
            Err(e) => { return Err(WikiError::Storage(e)); },
        };
        let revid_author = match open_tree(db, "revid_author") {
            Ok(tree) => tree,
            Err(e) => { return Err(WikiError::Storage(e)); },
        };
        let revid_date = match open_tree(db, "revid_date") {
            Ok(tree) => tree,
            Err(e) => { return Err(WikiError::Storage(e)); },
        };
        Ok(Articles { articleid_name, articlename_id, revid_content, revid_author, revid_date })
    }
}

impl View for Articles {
    type V = ArticlesView;

    closed spec fn view(&self) -> ArticlesView {
        ArticlesView {
            names: tree_map(self.articleid_name),
            ids: tree_map(self.articlename_id),
            contents: tree_map(self.revid_content),
            authors: tree_map(self.revid_author),
            dates: tree_map(self.revid_date),
        }
    }
}

/// The bytes that were found, if any were.
pub open spec fn found_bytes(found: Option<&[u8]>) -> Option<Seq<u8>> {
    match found {
        Some(bytes) => Some(bytes@),
        None => None,
    }
}

/// The author that `stored` names: four bytes are a user's key.
pub open spec fn author_of(rev: RevId, stored: Option<Seq<u8>>) -> Result<UserId, Failure> {
    match stored {
        None => Err(Failure::RevisionDataInconsistent(rev)),
        Some(bytes) => if bytes.len() != 4 {
            Err(Failure::MalformedKey)
        } else {
            Ok(UserId(Id(be_value(bytes))))
        },
    }
}

/// The date that `stored` holds: it must be twelve bytes wide.
pub open spec fn date_of(rev: RevId, stored: Option<Seq<u8>>) -> Result<Timestamp, Failure> {
    match stored {
        None => Err(Failure::RevisionDataInconsistent(rev)),
        Some(bytes) => if bytes.len() != 12 {
            Err(Failure::Encoding)
        } else {
            Ok(timestamp_of_bytes(bytes))
        },
    }
}

/// The text that `stored` spells in UTF-8.
pub open spec fn content_of(rev: RevId, stored: Option<Seq<u8>>) -> Result<Seq<char>, Failure> {
    match stored {
        None => Err(Failure::RevisionDataInconsistent(rev)),
        Some(bytes) => if valid_utf8(bytes) {
            Ok(decode_utf8(bytes))
        } else {
            Err(Failure::RevisionDataInconsistent(rev))
        },
    }
}

/// A revision put together from what the three relations of the log hold
/// under its key, in the order author, date, text; the first that fails
/// decides.
pub open spec fn assembled_from(
    rev: RevId,
    author: Option<Seq<u8>>,
    date: Option<Seq<u8>>,
    content: Option<Seq<u8>>,
) -> Result<RevisionView, Failure> {
    match author_of(rev, author) {
        Err(failure) => Err(failure),
        Ok(author_id) => match date_of(rev, date) {
            Err(failure) => Err(failure),
            Ok(date) => match content_of(rev, content) {
                Err(failure) => Err(failure),
                Ok(content) => Ok(RevisionView { content, author_id, date }),
            },
        },
    }
}

/// What a lookup found, as plain bytes.
pub fn stored_bytes(found: &Option<Vec<u8>>) -> (r: Option<&[u8]>)
    ensures
        r is Some == found is Some,
        found matches Some(bytes) ==> r->Some_0@ == bytes@,
{
    match found {
        Some(bytes) => Some(bytes.as_slice()),
        None => None,
    }
}

/// Decodes a stored author.
pub fn decode_author(rev_id: RevId, stored: Option<&[u8]>) -> (r: Result<UserId, WikiError>)
    ensures
        match author_of(rev_id, found_bytes(stored)) {
            Ok(author) => r is Ok && r->Ok_0 == author,
            Err(failure) => reports(r, failure),
        },
{
    match stored {
        None => Err(WikiError::RevisionDataInconsistent(rev_id)),
        Some(bytes) => match Id::from_bytes(bytes) {
            Ok(id) => Ok(UserId(id)),
            Err(e) => Err(e),
        },
    }
}

/// Decodes a stored date.
pub fn decode_date(rev_id: RevId, stored: Option<&[u8]>) -> (r: Result<Timestamp, WikiError>)
    ensures
        match date_of(rev_id, found_bytes(stored)) {
            Ok(date) => r is Ok && r->Ok_0 == date,
            Err(failure) => reports(r, failure),
        },
{
    match stored {
        None => Err(WikiError::RevisionDataInconsistent(rev_id)),
        Some(bytes) => match deserialize_timestamp(bytes) {
            Ok(pair) => Ok(Timestamp { secs: pair.0, nanos: pair.1 }),
            Err(e) => Err(WikiError::Bincode(e)),
        },
    }
}

/// Decodes a stored text.
pub fn decode_content(rev_id: RevId, stored: Option<&[u8]>) -> (r: Result<String, WikiError>)
    ensures
        match content_of(rev_id, found_bytes(stored)) {
            Ok(content) => r is Ok && r->Ok_0@ == content,
            Err(failure) => reports(r, failure),
        },
{
    match stored {
        None => Err(WikiError::RevisionDataInconsistent(rev_id)),
        Some(bytes) => match string_from_utf8(bytes) {
            Some(content) => Ok(content),
            None => Err(WikiError::RevisionDataInconsistent(rev_id)),
        },
    }
}

/// Puts a revision together from what the three relations of the log hold
/// under its key.
pub fn assemble_revision(
    rev_id: RevId,
    author: Option<&[u8]>,
    date: Option<&[u8]>,
    content: Option<&[u8]>,
) -> (r: Result<Revision, WikiError>)
    ensures
        match assembled_from(rev_id, found_bytes(author), found_bytes(date), found_bytes(content)) {
            Ok(revision) => r is Ok && r->Ok_0@ == revision,
            Err(failure) => reports(r, failure),
        },
{
    let author_id = match decode_author(rev_id, author) {
        Ok(author_id) => author_id,
        Err(e) => { return Err(e); },
    };
    let date = match decode_date(rev_id, date) {
        Ok(date) => date,
        Err(e) => { return Err(e); },
    };
    let content = match decode_content(rev_id, content) {
        Ok(content) => content,
        Err(e) => { return Err(e); },
    };
    Ok(Revision { content, author_id, date })
}

impl ArticlesView {
    /// The article that bears `name`, if one does.
    pub open spec fn id_of(self, name: Seq<char>) -> Result<Option<ArticleId>, Failure> {
        let key = encode_utf8(name);
        if !self.ids.contains_key(key) {
            Ok(None)
        } else if self.ids[key].len() != 4 {
            Err(Failure::MalformedKey)
        } else {
            Ok(Some(ArticleId(Id(be_value(self.ids[key])))))
        }
    }

    /// The name of article `id`.
    pub open spec fn name_of(self, id: ArticleId) -> Result<Seq<char>, Failure> {
        if self.names.contains_key(id.key()) && valid_utf8(self.names[id.key()]) {
            Ok(decode_utf8(self.names[id.key()]))
        } else {
            Err(Failure::ArticleDataInconsistent(id))
        }
    }

    /// The author of revision `rev`.
    pub open spec fn author_at(self, rev: RevId) -> Result<UserId, Failure> {
        author_of(rev, self.authors.get(rev.key()))
    }

    /// The date of revision `rev`.
    pub open spec fn date_at(self, rev: RevId) -> Result<Timestamp, Failure> {
        date_of(rev, self.dates.get(rev.key()))
    }

    /// The text of revision `rev`.
    pub open spec fn content_at(self, rev: RevId) -> Result<Seq<char>, Failure> {
        content_of(rev, self.contents.get(rev.key()))
    }

    /// Revision `rev`, put together from the three relations of the log.
    pub open spec fn assembled(self, rev: RevId) -> Result<RevisionView, Failure> {
        assembled_from(
            rev,
            self.authors.get(rev.key()),
            self.dates.get(rev.key()),
            self.contents.get(rev.key()),
        )
    }

    /// Revision `rev`: unknown where no relation of the log has its key,
    /// else put together from the three.
    pub open spec fn revision_at(self, rev: RevId) -> Result<RevisionView, Failure> {
        if !self.authors.contains_key(rev.key()) && !self.dates.contains_key(rev.key())
            && !self.contents.contains_key(rev.key()) {
            Err(Failure::RevisionUnknown(rev.0, rev.1))
        } else {
            self.assembled(rev)
        }
    }

    /// The history of `article` has an end: if the author relation has a
    /// key that starts with the article's key, it has a last such key.
    pub open spec fn has_current(self, article: ArticleId) -> bool {
        any_with_prefix(self.authors, article.key()) ==> exists|key: Seq<u8>|
            is_last_with_prefix(self.authors, article.key(), key)
    }

    /// The three relations of the log hold the same keys.
    pub open spec fn log_complete(self) -> bool {
        forall|key: Seq<u8>|
            (#[trigger] self.authors.contains_key(key) == self.dates.contains_key(key))
                && self.authors.contains_key(key) == self.contents.contains_key(key)
    }

    /// The two relations of the directory agree: an article's name leads
    /// back to the article, and a name's article bears that name.
    pub open spec fn directory_agrees(self) -> bool {
        &&& forall|key: Seq<u8>| #[trigger]
            self.names.contains_key(key) ==> self.ids.contains_key(self.names[key])
                && self.ids[self.names[key]] == key
        &&& forall|name: Seq<u8>| #[trigger]
            self.ids.contains_key(name) ==> self.names.contains_key(self.ids[name])
                && self.names[self.ids[name]] == name
    }

    /// The directory's identifiers have an end: if any article is known, one
    /// has the greatest key.
    pub open spec fn has_last_article(self) -> bool {
        has_last(self.names)
    }

    /// The author and date of revision `rev`.
    pub open spec fn meta_at(self, rev: RevId) -> Result<RevisionMeta, Failure> {
        match self.author_at(rev) {
            Err(failure) => Err(failure),
            Ok(author_id) => match self.date_at(rev) {
                Err(failure) => Err(failure),
                Ok(date) => Ok(RevisionMeta { author_id, date }),
            },
        }
    }

    /// What keeps the entry that the author relation holds under `key` out
    /// of the history of `article`, if anything does: a key that is not
    /// eight bytes wide, or an author or a date that cannot be read.
    pub open spec fn entry_failure(self, article: ArticleId, key: Seq<u8>) -> Option<Failure> {
        if key.len() != 8 {
            Some(Failure::MalformedKey)
        } else {
            match self.meta_at(RevId(article, Id(be_value(key.subrange(4, 8))))) {
                Ok(_) => None,
                Err(failure) => Some(failure),
            }
        }
    }

    /// The revisions of `article` can be listed: nothing is wrong with any
    /// entry of the author relation whose key starts with the article's key.
    pub open spec fn listable(self, article: ArticleId) -> bool {
        forall|key: Seq<u8>| #[trigger]
            self.authors.contains_key(key) && has_prefix(key, article.key())
                ==> self.entry_failure(article, key) is None
    }

    /// `key` is the first key of the history of `article` with which
    /// something is wrong.
    pub open spec fn first_unlistable(self, article: ArticleId, key: Seq<u8>) -> bool {
        &&& self.authors.contains_key(key)
        &&& has_prefix(key, article.key())
        &&& self.entry_failure(article, key) is Some
        &&& forall|earlier: Seq<u8>| #[trigger]
            self.authors.contains_key(earlier) && has_prefix(earlier, article.key()) && lex_lt(
                earlier,
                key,
            ) ==> self.entry_failure(article, earlier) is None
    }

    /// `list` is the history of `article`: every revision that the author
    /// relation knows of, each once and with its author and date, in
    /// ascending order of revision number.
    pub open spec fn is_revision_list(self, article: ArticleId, list: Seq<(RevId, RevisionMeta)>) -> bool {
        &&& forall|i: int|
            0 <= i < list.len() ==> {
                let entry = #[trigger] list[i];
                &&& entry.0.0 == article
                &&& self.authors.contains_key(entry.0.key())
                &&& self.meta_at(entry.0) == Ok::<RevisionMeta, Failure>(entry.1)
            }
        &&& forall|i: int, j: int|
            0 <= i < j < list.len() ==> (#[trigger] list[i]).0.1.0 < (#[trigger] list[j]).0.1.0
        &&& forall|key: Seq<u8>| #[trigger]
            self.authors.contains_key(key) && has_prefix(key, article.key()) ==> exists|i: int|
                0 <= i < list.len() && (#[trigger] list[i]).0.key() == key
    }

    /// `list` holds every article of the directory, each once, in ascending
    /// order of identifier.
    pub open spec fn is_article_list(self, list: Seq<ArticleId>) -> bool {
        &&& forall|i: int| 0 <= i < list.len() ==> self.names.contains_key((#[trigger] list[i]).key())
        &&& forall|i: int, j: int|
            0 <= i < j < list.len() ==> (#[trigger] list[i]).0.0 < (#[trigger] list[j]).0.0
        &&& forall|key: Seq<u8>| #[trigger]
            self.names.contains_key(key) ==> exists|i: int|
                0 <= i < list.len() && (#[trigger] list[i]).key() == key
    }

    /// The article to hand out to `create`: the name must be free, and the
    /// identifier is the next unused one.
    pub open spec fn created(self, name: Seq<char>) -> Result<ArticleId, Failure> {
        if self.ids.contains_key(encode_utf8(name)) {
            Err(Failure::DuplicateArticleName(name))
        } else {
            match next_id_of(self.names) {
                Ok(id) => Ok(ArticleId(id)),
                Err(failure) => Err(failure),
            }
        }
    }

    /// The store with article `id` entered under `name`, in both relations
    /// of the directory.
    pub open spec fn with_article(self, id: ArticleId, name: Seq<char>) -> ArticlesView {
        ArticlesView {
            names: self.names.insert(id.key(), encode_utf8(name)),
            ids: self.ids.insert(encode_utf8(name), id.key()),
            ..self
        }
    }

    /// Whether article `id` may take the name `new_name`: no other article
    /// bears it, and the article has a name to give up.
    pub open spec fn renamed(self, id: ArticleId, new_name: Seq<char>) -> Result<(), Failure> {
        match self.id_of(new_name) {
            Err(failure) => Err(failure),
            Ok(holder) => if holder is Some && holder->Some_0 != id {
                Err(Failure::DuplicateArticleName(new_name))
            } else if !self.names.contains_key(id.key()) {
                Err(Failure::ArticleDataInconsistent(id))
            } else {
                Ok(())
            },
        }
    }

    /// The store with article `id` renamed to `new_name`: its old name is
    /// free again, the new one is taken.
    pub open spec fn with_name(self, id: ArticleId, new_name: Seq<char>) -> ArticlesView {
        ArticlesView {
            names: self.names.insert(id.key(), encode_utf8(new_name)),
            ids: self.ids.remove(self.names[id.key()]).insert(encode_utf8(new_name), id.key()),
            ..self
        }
    }

    /// The identifier that a new revision of `article` with text `content`
    /// gets: one after the current revision, or the first. A text equal to
    /// the current one is rejected.
    pub open spec fn next_revision(self, article: ArticleId, content: Seq<char>) -> Result<
        RevId,
        Failure,
    > {
        match self.current_revision(article) {
            Err(failure) => Err(failure),
            Ok(current) => next_revision_after(article, current, content),
        }
    }

    /// The store with revision `rev` appended, in all three relations of the
    /// log.
    pub open spec fn with_revision(
        self,
        rev: RevId,
        author: UserId,
        content: Seq<char>,
        date: Timestamp,
    ) -> ArticlesView {
        ArticlesView {
            contents: self.contents.insert(rev.key(), encode_utf8(content)),
            authors: self.authors.insert(rev.key(), author.key()),
            dates: self.dates.insert(rev.key(), date.bytes()),
            ..self
        }
    }

    /// The text of the current revision of `article`: what the text relation
    /// holds under the last of its keys that start with the article's key.
    pub open spec fn current_content(self, article: ArticleId) -> Result<Option<Seq<char>>, Failure> {
        match last_with_prefix(self.contents, article.key()) {
            None => Ok(None),
            Some(key) => if key.len() != 8 {
                Err(Failure::MalformedKey)
            } else {
                let rev = RevId(article, Id(be_value(key.subrange(4, 8))));
                match self.content_at(rev) {
                    Err(failure) => Err(failure),
                    Ok(content) => Ok(Some(content)),
                }
            },
        }
    }

    /// The current revision of `article`: the one whose key is the last
    /// among the author relation's keys that start with the article's key.
    pub open spec fn current_revision(self, article: ArticleId) -> Result<
        Option<(RevId, RevisionView)>,
        Failure,
    > {
        match last_with_prefix(self.authors, article.key()) {
            None => Ok(None),
            Some(key) => if key.len() != 8 {
                Err(Failure::MalformedKey)
            } else {
                let rev = RevId(article, Id(be_value(key.subrange(4, 8))));
                match self.assembled(rev) {
                    Err(failure) => Err(failure),
                    Ok(revision) => Ok(Some((rev, revision))),
                }
            },
        }
    }
}

/// The identifier of a new revision with text `content`, where `current`
/// is the article's current revision.
pub open spec fn next_revision_after(
    article: ArticleId,
    current: Option<(RevId, RevisionView)>,
    content: Seq<char>,
) -> Result<RevId, Failure> {
    match current {
        None => Ok(RevId(article, Id(1))),
        Some((rev, revision)) => if revision.content == content {
            Err(Failure::IdenticalNewRevision)
        } else if rev.number() == u32::MAX {
            Err(Failure::IdSpaceExhausted)
        } else {
            Ok(RevId(rev.0, Id((rev.number() + 1) as u32)))
        },
    }
}

/// Decides the identifier of a new revision with text `content`, where
/// `current` is the article's current revision.
pub fn next_revision_id(article_id: ArticleId, current: &Option<(RevId, Revision)>, content: &str) -> (r:
    Result<RevId, WikiError>)
    ensures
        match next_revision_after(
            article_id,
            match *current {
                Some((rev, revision)) => Some((rev, revision@)),
                None => None,
            },
            content@,
        ) {
            Ok(rev) => r is Ok && r->Ok_0 == rev,
            Err(failure) => reports(r, failure),
        },
{
    match current {
        None => Ok(RevId::first(article_id)),
        Some((rev_id, revision)) => {
            if same_text(revision.content.as_str(), content) {
                Err(WikiError::IdenticalNewRevision)
            } else if rev_id.1.0 == u32::MAX {
                Err(WikiError::IdSpaceExhausted)
            } else {
                Ok(rev_id.next())
            }
        },
    }
}

/// Where the entries of a scan before position `at` have nothing wrong with
/// them, no earlier key of the history has: if something is wrong with the
/// entry at `at`, it is the first such.
proof fn lemma_first_of_the_rest(
    store: ArticlesView,
    article: ArticleId,
    entries: Seq<(Vec<u8>, Vec<u8>)>,
    at: int,
)
    requires
        is_scan(store.authors, article.key(), entries),
        0 <= at < entries.len(),
        forall|j: int| 0 <= j < at ==> store.entry_failure(article, (#[trigger] entries[j]).0@) is None,
    ensures
        store.authors.contains_key(entries[at].0@),
        has_prefix(entries[at].0@, article.key()),
        forall|earlier: Seq<u8>| #[trigger]
            store.authors.contains_key(earlier) && has_prefix(earlier, article.key()) && lex_lt(
                earlier,
                entries[at].0@,
            ) ==> store.entry_failure(article, earlier) is None,
{
    let key = entries[at].0@;
    assert forall|earlier: Seq<u8>| #[trigger]
        store.authors.contains_key(earlier) && has_prefix(earlier, article.key()) && lex_lt(
            earlier,
            key,
        ) implies store.entry_failure(article, earlier) is None by {
        let j = choose|j: int| 0 <= j < entries.len() && (#[trigger] entries[j]).0@ == earlier;
        if j == at {
            crate::order::lemma_lex_lt_irreflexive(key);
        } else if j > at {
            assert(lex_lt(entries[at].0@, entries[j].0@));
            crate::order::lemma_lex_lt_asymmetric(key, earlier);
        }
    }
}

/// What a scan left a reader with: its last entry is the last key with the
/// prefix, and an empty scan means that no key has the prefix.
pub proof fn lemma_scan_last(m: Map<Seq<u8>, Seq<u8>>, prefix: Seq<u8>, entries: Seq<(Vec<u8>, Vec<u8>)>)
    requires
        is_scan(m, prefix, entries),
    ensures
        entries.len() == 0 ==> last_with_prefix(m, prefix) is None,
        entries.len() > 0 ==> last_with_prefix(m, prefix) == Some(entries.last().0@),
        entries.len() > 0 ==> m.contains_key(entries.last().0@) && m[entries.last().0@]
            == entries.last().1@ && has_prefix(entries.last().0@, prefix),
        entries.len() > 0 ==> is_last_with_prefix(m, prefix, entries.last().0@),
{
    if entries.len() == 0 {
        if any_with_prefix(m, prefix) {
            let key = choose|key: Seq<u8>| #[trigger] m.contains_key(key) && has_prefix(key, prefix);
            assert(m.contains_key(key) && has_prefix(key, prefix));
        }
    } else {
        let n = entries.len() - 1;
        let last = entries[n].0@;
        assert(entries.last() == entries[n]);
        assert forall|other: Seq<u8>| #[trigger]
            m.contains_key(other) && has_prefix(other, prefix) implies lex_le(other, last) by {
            let i = choose|i: int| 0 <= i < entries.len() && (#[trigger] entries[i]).0@ == other;
            if i < n {
                assert(lex_lt(entries[i].0@, entries[n].0@));
            }
        }
        lemma_last_with_prefix_is(m, prefix, last);
    }
}

impl Articles {
    /// Whether an article bears `name`.
    pub fn name_exists(&self, name: &str) -> (r: Result<bool, WikiError>)
        ensures
            engine_failed(r) || (r is Ok && r->Ok_0 == self@.ids.contains_key(encode_utf8(name@))),
    {
        match tree_contains_key(&self.articlename_id, name.as_bytes()) {
            Ok(found) => Ok(found),
            Err(e) => Err(WikiError::Storage(e)),
        }
    }

    /// The article that bears `name`, if one does.
    pub fn id_by_name(&self, name: &str) -> (r: Result<Option<ArticleId>, WikiError>)
        ensures
            engine_failed(r) || match self@.id_of(name@) {
                Ok(found) => r is Ok && r->Ok_0 == found,
                Err(failure) => reports(r, failure),
            },
    {
        match tree_get(&self.articlename_id, name.as_bytes()) {
            Err(e) => Err(WikiError::Storage(e)),
            Ok(None) => Ok(None),
            Ok(Some(bytes)) => match Id::from_bytes(bytes.as_slice()) {
                Ok(id) => Ok(Some(ArticleId(id))),
                Err(e) => Err(e),
            },
        }
    }

    /// The name of article `id`. An identifier comes from the store, so a
    /// missing or unreadable name means that the store is damaged.
    pub fn name_by_id(&self, id: ArticleId) -> (r: Result<String, WikiError>)
        ensures
            engine_failed(r) || match self@.name_of(id) {
                Ok(name) => r is Ok && r->Ok_0@ == name,
                Err(failure) => reports(r, failure),
            },
    {
        let key = id.to_bytes();
        match tree_get(&self.articleid_name, key.as_slice()) {
            Err(e) => Err(WikiError::Storage(e)),
            Ok(None) => Err(WikiError::ArticleDataInconsistent(id)),
            Ok(Some(bytes)) => match string_from_utf8(bytes.as_slice()) {
                Some(name) => Ok(name),
                None => Err(WikiError::ArticleDataInconsistent(id)),
            },
        }
    }

    /// The articles of the directory, in ascending order of identifier.
    pub fn list_articles(&self) -> (r: Result<Vec<ArticleId>, WikiError>)
        ensures
            engine_failed(r) || match r {
                Ok(list) => self@.is_article_list(list@),
                Err(e) => e@ == Failure::MalformedKey && exists|key: Seq<u8>| #[trigger]
                    self@.names.contains_key(key) && key.len() != 4,
            },
    {
        let everything: [u8; 0] = [];
        let entries = match tree_scan_prefix(&self.articleid_name, everything.as_slice()) {
            Ok(entries) => entries,
            Err(e) => { return Err(WikiError::Storage(e)); },
        };
        let mut list: Vec<ArticleId> = Vec::new();
        let mut i: usize = 0;
        while i < entries.len()
            invariant
                0 <= i <= entries.len(),
                list.len() == i,
                is_scan(self@.names, everything@, entries@),
                forall|j: int| 0 <= j < i ==> (#[trigger] list[j]).key() == entries[j].0@,
            decreases entries.len() - i,
        {
            match Id::from_bytes(entries[i].0.as_slice()) {
                Ok(id) => {
                    proof {
                        lemma_be_bytes_of_value(entries[i as int].0@);
                    }
                    list.push(ArticleId(id));
                },
                Err(e) => {
                    assert(self@.names.contains_key(entries[i as int].0@));
                    return Err(e);
                },
            }
            i += 1;
        }
        proof {
            assert forall|a: int, b: int| 0 <= a < b < list.len() implies (#[trigger] list[a]).0.0 < (
            #[trigger] list[b]).0.0 by {
                assert(lex_lt(entries[a].0@, entries[b].0@));
                crate::id::lemma_be_bytes_order(list[a].0.0, list[b].0.0);
            }
            assert forall|key: Seq<u8>| #[trigger] self@.names.contains_key(key) implies exists|
                a: int,
            | 0 <= a < list.len() && (#[trigger] list[a]).key() == key by {
                lemma_empty_prefix(key);
                assert(everything@ =~= Seq::<u8>::empty());
                let a = choose|a: int| 0 <= a < entries.len() && (#[trigger] entries[a]).0@ == key;
                assert(list[a].key() == key);
            }
            assert forall|a: int| 0 <= a < list.len() implies self@.names.contains_key(
                (#[trigger] list[a]).key(),
            ) by {
                assert(self@.names.contains_key(entries[a].0@));
            }
        }
        Ok(list)
    }

    /// The history of `article_id`: each revision with its author and date,
    /// in ascending order of revision number. An article without revisions
    /// has an empty history.
    pub fn list_revisions(&self, article_id: ArticleId) -> (r: Result<
        Vec<(RevId, RevisionMeta)>,
        WikiError,
    >)
        ensures
            engine_failed(r) || match r {
                Ok(list) => self@.is_revision_list(article_id, list@),
                Err(e) => exists|key: Seq<u8>|
                    self@.first_unlistable(article_id, key) && self@.entry_failure(article_id, key)
                        == Some(e@),
            },
    {
        let prefix = article_id.to_bytes();
        let entries = match tree_scan_prefix(&self.revid_author, prefix.as_slice()) {
            Ok(entries) => entries,
            Err(e) => { return Err(WikiError::Storage(e)); },
        };
        let mut list: Vec<(RevId, RevisionMeta)> = Vec::new();
        let mut i: usize = 0;
        while i < entries.len()
            invariant
                0 <= i <= entries.len(),
                list.len() == i,
                is_scan(self@.authors, article_id.key(), entries@),
                forall|j: int|
                    0 <= j < i ==> {
                        let entry = #[trigger] list[j];
                        &&& entry.0.0 == article_id
                        &&& entry.0.key() == entries[j].0@
                        &&& self@.meta_at(entry.0) == Ok::<RevisionMeta, Failure>(entry.1)
                    },
                forall|j: int|
                    0 <= j < i ==> self@.entry_failure(article_id, (#[trigger] entries[j]).0@) is None,
            decreases entries.len() - i,
        {
            let ghost key = entries[i as int].0@;
            proof {
                lemma_first_of_the_rest(self@, article_id, entries@, i as int);
            }
            let rev_id = match RevId::from_bytes(entries[i].0.as_slice()) {
                Ok(rev_id) => rev_id,
                Err(e) => {
                    assert(self@.first_unlistable(article_id, key));
                    return Err(e);
                },
            };
            proof {
                lemma_rev_key_shape(rev_id.article(), rev_id.number());
                lemma_be_value_of_bytes(article_id.0.0);
            }
            assert(rev_id == RevId(article_id, Id(be_value(key.subrange(4, 8)))));
            let author_id = match decode_author(rev_id, Some(entries[i].1.as_slice())) {
                Ok(author_id) => author_id,
                Err(e) => {
                    assert(self@.first_unlistable(article_id, key));
                    return Err(e);
                },
            };
            let rev_key = rev_id.to_bytes();
            let stored_date = match tree_get(&self.revid_date, rev_key.as_slice()) {
                Ok(stored_date) => stored_date,
                Err(e) => { return Err(WikiError::Storage(e)); },
            };
            let date = match decode_date(rev_id, stored_bytes(&stored_date)) {
                Ok(date) => date,
                Err(e) => {
                    assert(self@.first_unlistable(article_id, key));
                    return Err(e);
                },
            };
            list.push((rev_id, RevisionMeta { author_id, date }));
            i += 1;
        }
        proof {
            assert forall|a: int, b: int| 0 <= a < b < list.len() implies (#[trigger] list[a]).0.1.0 < (
            #[trigger] list[b]).0.1.0 by {
                assert(lex_lt(entries[a].0@, entries[b].0@));
                rev_id::lemma_rev_key_order(article_id.0.0, list[a].0.1.0, list[b].0.1.0);
            }
            assert forall|key: Seq<u8>| #[trigger]
                self@.authors.contains_key(key) && has_prefix(key, article_id.key()) implies exists|
                a: int,
            | 0 <= a < list.len() && (#[trigger] list[a]).0.key() == key by {
                let a = choose|a: int| 0 <= a < entries.len() && (#[trigger] entries[a]).0@ == key;
                assert(list[a].0.key() == key);
            }
            assert forall|a: int| 0 <= a < list.len() implies {
                let entry = #[trigger] list[a];
                &&& entry.0.0 == article_id
                &&& self@.authors.contains_key(entry.0.key())
                &&& self@.meta_at(entry.0) == Ok::<RevisionMeta, Failure>(entry.1)
            } by {
                assert(self@.authors.contains_key(entries[a].0@));
            }
        }
        Ok(list)
    }

    /// Confirms that `article_id` has a revision numbered `rev_number`.
    pub fn verified_rev_id(&self, article_id: ArticleId, rev_number: Id) -> (r: Result<
        RevId,
        WikiError,
    >)
        ensures
            engine_failed(r) || if self@.authors.contains_key(RevId(article_id, rev_number).key()) {
                r is Ok && r->Ok_0 == RevId(article_id, rev_number)
            } else {
                reports(r, Failure::RevisionUnknown(article_id, rev_number))
            },
    {
        let rev_id = RevId(article_id, rev_number);
        let key = rev_id.to_bytes();
        match tree_contains_key(&self.revid_author, key.as_slice()) {
            Err(e) => Err(WikiError::Storage(e)),
            Ok(true) => Ok(rev_id),
            Ok(false) => Err(WikiError::RevisionUnknown(article_id, rev_number)),
        }
    }

    /// The text of the current revision of `id`, or `None` where the
    /// article has no revision.
    pub fn get_current_content(&self, id: ArticleId) -> (r: Result<Option<String>, WikiError>)
        ensures
            engine_failed(r) || match self@.current_content(id) {
                Ok(Some(content)) => r is Ok && r->Ok_0 is Some && r->Ok_0->Some_0@ == content,
                Ok(None) => r is Ok && r->Ok_0 is None,
                Err(failure) => reports(r, failure),
            },
    {
        let prefix = id.to_bytes();
        let mut entries = match tree_scan_prefix(&self.revid_content, prefix.as_slice()) {
            Ok(entries) => entries,
            Err(e) => { return Err(WikiError::Storage(e)); },
        };
        proof {
            lemma_scan_last(self@.contents, id.key(), entries@);
        }
        match entries.pop() {
            None => Ok(None),
            Some(last) => {
                let rev_id = match RevId::from_bytes(last.0.as_slice()) {
                    Ok(rev_id) => rev_id,
                    Err(e) => { return Err(e); },
                };
                proof {
                    lemma_rev_key_shape(rev_id.article(), rev_id.number());
                    lemma_be_value_of_bytes(id.0.0);
                }
                match decode_content(rev_id, Some(last.1.as_slice())) {
                    Ok(content) => Ok(Some(content)),
                    Err(e) => Err(e),
                }
            },
        }
    }

    /// The current revision of `id`, or `None` where the article has no
    /// revision.
    pub fn get_current_revision(&self, id: ArticleId) -> (r: Result<
        Option<(RevId, Revision)>,
        WikiError,
    >)
        ensures
            engine_failed(r) || match self@.current_revision(id) {
                Ok(Some(current)) => r is Ok && r->Ok_0 is Some && r->Ok_0->Some_0.0 == current.0
                    && r->Ok_0->Some_0.1@ == current.1,
                Ok(None) => r is Ok && r->Ok_0 is None,
                Err(failure) => reports(r, failure),
            },
            engine_failed(r) || self@.has_current(id),
    {
        let prefix = id.to_bytes();
        let mut entries = match tree_scan_prefix(&self.revid_author, prefix.as_slice()) {
            Ok(entries) => entries,
            Err(e) => { return Err(WikiError::Storage(e)); },
        };
        proof {
            lemma_scan_last(self@.authors, id.key(), entries@);
        }
        match entries.pop() {
            None => Ok(None),
            Some(last) => {
                let rev_id = match RevId::from_bytes(last.0.as_slice()) {
                    Ok(rev_id) => rev_id,
                    Err(e) => { return Err(e); },
                };
                proof {
                    lemma_rev_key_shape(rev_id.article(), rev_id.number());
                    lemma_be_value_of_bytes(id.0.0);
                }
                let key = rev_id.to_bytes();
                let date = match tree_get(&self.revid_date, key.as_slice()) {
                    Ok(date) => date,
                    Err(e) => { return Err(WikiError::Storage(e)); },
                };
                let content = match tree_get(&self.revid_content, key.as_slice()) {
                    Ok(content) => content,
                    Err(e) => { return Err(WikiError::Storage(e)); },
                };
                match assemble_revision(
                    rev_id,
                    Some(last.1.as_slice()),
                    stored_bytes(&date),
                    stored_bytes(&content),
                ) {
                    Ok(revision) => Ok(Some((rev_id, revision))),
                    Err(e) => Err(e),
                }
            },
        }
    }

    /// Revision `rev_id` in full.
    pub fn get_revision(&self, rev_id: RevId) -> (r: Result<Revision, WikiError>)
        ensures
            engine_failed(r) || match self@.revision_at(rev_id) {
                Ok(revision) => r is Ok && r->Ok_0@ == revision,
                Err(failure) => reports(r, failure),
            },
    {
        let key = rev_id.to_bytes();
        let author = match tree_get(&self.revid_author, key.as_slice()) {
            Ok(author) => author,
            Err(e) => { return Err(WikiError::Storage(e)); },
        };
        let date = match tree_get(&self.revid_date, key.as_slice()) {
            Ok(date) => date,
            Err(e) => { return Err(WikiError::Storage(e)); },
        };
        let content = match tree_get(&self.revid_content, key.as_slice()) {
            Ok(content) => content,
            Err(e) => { return Err(WikiError::Storage(e)); },
        };
        if author.is_none() && date.is_none() && content.is_none() {
            return Err(WikiError::RevisionUnknown(rev_id.0, rev_id.1));
        }
        assemble_revision(rev_id, stored_bytes(&author), stored_bytes(&date), stored_bytes(&content))
    }

    /// The text of revision `rev_id`.
    pub fn get_rev_content(&self, rev_id: RevId) -> (r: Result<String, WikiError>)
        ensures
            engine_failed(r) || match self@.content_at(rev_id) {
                Ok(content) => r is Ok && r->Ok_0@ == content,
                Err(failure) => reports(r, failure),
            },
    {
        let key = rev_id.to_bytes();
        match tree_get(&self.revid_content, key.as_slice()) {
            Err(e) => Err(WikiError::Storage(e)),
            Ok(stored) => decode_content(rev_id, stored_bytes(&stored)),
        }
    }

    /// The date of revision `rev_id`.
    pub fn get_rev_date(&self, rev_id: RevId) -> (r: Result<Timestamp, WikiError>)
        ensures
            engine_failed(r) || match self@.date_at(rev_id) {
                Ok(date) => r is Ok && r->Ok_0 == date,
                Err(failure) => reports(r, failure),
            },
    {
        let key = rev_id.to_bytes();
        match tree_get(&self.revid_date, key.as_slice()) {
            Err(e) => Err(WikiError::Storage(e)),
            Ok(stored) => decode_date(rev_id, stored_bytes(&stored)),
        }
    }
    /// Creates an article named `name`, without revisions. The name must be
    /// free.
    pub fn create(&mut self, name: &str) -> (r: Result<ArticleId, WikiError>)
        requires
            old(self).wf(),
        ensures
            final(self).wf(),
            match r {
                Ok(id) => old(self)@.created(name@) == Ok::<ArticleId, Failure>(id) && final(self)@
                    == old(self)@.with_article(id, name@),
                Err(e) => e@ == Failure::Engine || (final(self)@ == old(self)@ && fails_with(
                    old(self)@.created(name@),
                    e@,
                )),
            },
            r is Ok ==> old(self)@.has_last_article(),
    {
        match tree_contains_key(&self.articlename_id, name.as_bytes()) {
            Err(e) => { return Err(WikiError::Storage(e)); },
            Ok(true) => { return Err(WikiError::DuplicateArticleName(name.to_owned())); },
            Ok(false) => {},
        }
        let id = match next_id(&self.articleid_name) {
            Ok(id) => ArticleId(id),
            Err(e) => { return Err(e); },
        };
        let key = id.to_bytes();
        let mut names = batch_new();
        batch_insert(&mut names, key.as_slice(), name.as_bytes());
        let mut ids = batch_new();
        batch_insert(&mut ids, name.as_bytes(), key.as_slice());
        proof {
            lemma_article_relations_differ();
        }
        match commit2(&mut self.articleid_name, &names, &mut self.articlename_id, &ids) {
            Err(e) => Err(WikiError::Transaction(e)),
            Ok(()) => {
                proof {
                    let before = old(self)@;
                    let after = before.with_article(id, name@);
                    assert(self@.names =~= after.names);
                    assert(self@.ids =~= after.ids);
                }
                Ok(id)
            },
        }
    }

    /// Renames article `article_id` to `new_name`. The name must not be
    /// that of another article.
    pub fn change_name(&mut self, article_id: ArticleId, new_name: &str) -> (r: Result<(), WikiError>)
        requires
            old(self).wf(),
        ensures
            final(self).wf(),
            match r {
                Ok(()) => old(self)@.renamed(article_id, new_name@) is Ok && final(self)@ == old(self)@.with_name(article_id, new_name@),
                Err(e) => e@ == Failure::Engine || (final(self)@ == old(self)@ && fails_with(
                    old(self)@.renamed(article_id, new_name@),
                    e@,
                )),
            },
    {
        match self.id_by_name(new_name) {
            Err(e) => { return Err(e); },
            Ok(Some(holder)) => {
                if holder != article_id {
                    return Err(WikiError::DuplicateArticleName(new_name.to_owned()));
                }
            },
            Ok(None) => {},
        }
        let key = article_id.to_bytes();
        let old_name = match tree_get(&self.articleid_name, key.as_slice()) {
            Err(e) => { return Err(WikiError::Storage(e)); },
            Ok(None) => { return Err(WikiError::ArticleDataInconsistent(article_id)); },
            Ok(Some(old_name)) => old_name,
        };
        let mut names = batch_new();
        batch_insert(&mut names, key.as_slice(), new_name.as_bytes());
        let mut ids = batch_new();
        batch_remove(&mut ids, old_name.as_slice());
        batch_insert(&mut ids, new_name.as_bytes(), key.as_slice());
        proof {
            lemma_article_relations_differ();
        }
        match commit2(&mut self.articleid_name, &names, &mut self.articlename_id, &ids) {
            Err(e) => Err(WikiError::Transaction(e)),
            Ok(()) => {
                proof {
                    let before = old(self)@;
                    let after = before.with_name(article_id, new_name@);
                    assert(self@.names =~= after.names);
                    assert(self@.ids =~= after.ids);
                }
                Ok(())
            },
        }
    }

    /// Appends a revision dated `date` to article `article_id`. A text equal
    /// to that of the current revision is rejected.
    pub fn add_revision_at(
        &mut self,
        article_id: ArticleId,
        author_id: UserId,
        content: &str,
        date: Timestamp,
    ) -> (r: Result<(RevId, RevisionMeta), WikiError>)
        requires
            old(self).wf(),
        ensures
            final(self).wf(),
            match r {
                Ok((rev_id, meta)) => old(self)@.next_revision(article_id, content@) == Ok::<
                    RevId,
                    Failure,
                >(rev_id) && meta == (RevisionMeta { author_id, date }) && final(self)@ == old(self)@.with_revision(rev_id, author_id, content@, date),
                Err(e) => e@ == Failure::Engine || (final(self)@ == old(self)@ && fails_with(
                    old(self)@.next_revision(article_id, content@),
                    e@,
                )),
            },
            engine_failed(r) || old(self)@.has_current(article_id),
            r is Ok ==> final(self)@.has_current(article_id),
    {
        let current = match self.get_current_revision(article_id) {
            Ok(current) => current,
            Err(e) => { return Err(e); },
        };
        let rev_id = match next_revision_id(article_id, &current, content) {
            Ok(rev_id) => rev_id,
            Err(e) => { return Err(e); },
        };
        let date_bytes = match serialize_timestamp(date.secs, date.nanos) {
            Ok(date_bytes) => date_bytes,
            Err(e) => { return Err(WikiError::Bincode(e)); },
        };
        let key = rev_id.to_bytes();
        let author_key = author_id.to_bytes();
        let mut contents = batch_new();
        batch_insert(&mut contents, key.as_slice(), content.as_bytes());
        let mut authors = batch_new();
        batch_insert(&mut authors, key.as_slice(), author_key.as_slice());
        let mut dates = batch_new();
        batch_insert(&mut dates, key.as_slice(), date_bytes.as_slice());
        proof {
            lemma_article_relations_differ();
        }
        match commit3(
            &mut self.revid_content,
            &contents,
            &mut self.revid_author,
            &authors,
            &mut self.revid_date,
            &dates,
        ) {
            Err(e) => Err(WikiError::Transaction(e)),
            Ok(()) => {
                proof {
                    let before = old(self)@;
                    let after = before.with_revision(rev_id, author_id, content@, date);
                    assert(self@.contents =~= after.contents);
                    assert(self@.authors =~= after.authors);
                    assert(self@.dates =~= after.dates);
                    proofs::lemma_added_revision_is_current(
                        before,
                        article_id,
                        author_id,
                        content@,
                        date,
                        rev_id,
                    );
                }
                Ok((rev_id, RevisionMeta { author_id, date }))
            },
        }
    }

    /// Appends a revision to article `article_id`, dated now. A text equal
    /// to that of the current revision is rejected.
    pub fn add_revision(&mut self, article_id: ArticleId, author_id: UserId, content: &str) -> (r:
        Result<(RevId, RevisionMeta), WikiError>)
        requires
            old(self).wf(),
        ensures
            final(self).wf(),
            match r {
                Ok((rev_id, meta)) => old(self)@.next_revision(article_id, content@) == Ok::<
                    RevId,
                    Failure,
                >(rev_id) && meta.author_id == author_id && is_clock_reading(
                    meta.date.secs,
                    meta.date.nanos,
                ) && final(self)@ == old(self)@.with_revision(
                    rev_id,
                    author_id,
                    content@,
                    meta.date,
                ),
                Err(e) => e@ == Failure::Engine || (final(self)@ == old(self)@ && fails_with(
                    old(self)@.next_revision(article_id, content@),
                    e@,
                )),
            },
            engine_failed(r) || old(self)@.has_current(article_id),
            r is Ok ==> final(self)@.has_current(article_id),
    {
        let date = Timestamp::now();
        self.add_revision_at(article_id, author_id, content, date)
    }
}

} // verus!
