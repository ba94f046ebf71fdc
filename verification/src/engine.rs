//! The sorted key-value engine: `sled` trees, seen as maps from byte
//! strings to byte strings.
//!
//! Nothing in this file is proved. Each function here makes one call into
//! the engine and states what that call is taken to do; the rest of the
//! crate is verified against these statements.

use crate::order::{has_prefix, is_last_with_prefix, lex_lt};
use sled::Transactional;
use vstd::prelude::*;
use vstd::utf8::encode_utf8;

verus! {

/// `sled::Tree`: a handle onto one sorted relation of a database.
#[verifier::external_type_specification]
#[verifier::external_body]
pub struct ExTree(sled::Tree);

/// `sled::Db`: a handle onto a database.
#[verifier::external_type_specification]
#[verifier::external_body]
pub struct ExDb(sled::Db);

/// `sled::Batch`: writes that wait to be applied together.
#[verifier::external_type_specification]
#[verifier::external_body]
pub struct ExBatch(sled::Batch);

/// `sled::Error`: why the engine failed.
#[verifier::external_type_specification]
#[verifier::external_body]
pub struct ExEngineError(sled::Error);

/// `sled::transaction::TransactionError`: why a transaction did not commit.
#[verifier::external_type_specification]
#[verifier::external_body]
#[verifier::reject_recursive_types(E)]
pub struct ExTransactionError<E>(sled::transaction::TransactionError<E>);

/// What a tree holds: the value stored under each key.
///
/// A tree is a handle onto shared storage, and two handles of one database
/// with the same `tree_name` are handles onto the same tree. The contracts
/// below take the handle they are given to be the only one through which
/// the tree is written while the store is in use; where one call takes
/// several handles, it requires their names to differ.
pub uninterp spec fn tree_map(tree: sled::Tree) -> Map<Seq<u8>, Seq<u8>>;

/// The name under which the database knows the tree: what `sled::Tree::name`
/// returns. A handle keeps its name for as long as it lives.
pub uninterp spec fn tree_name(tree: sled::Tree) -> Seq<u8>;

/// What a batch holds: for each key written, the value to store (`Some`) or
/// the order to delete it (`None`). A later write to a key replaces an
/// earlier one.
pub uninterp spec fn batch_writes(batch: sled::Batch) -> Map<Seq<u8>, Option<Seq<u8>>>;

/// The writes of a batch to which nothing was added.
pub open spec fn no_writes() -> Map<Seq<u8>, Option<Seq<u8>>> {
    Map::empty()
}

/// The map that results when `writes` are applied to `m`.
pub open spec fn apply_writes(m: Map<Seq<u8>, Seq<u8>>, writes: Map<Seq<u8>, Option<Seq<u8>>>) -> Map<
    Seq<u8>,
    Seq<u8>,
> {
    Map::new(
        |key: Seq<u8>|
            if writes.contains_key(key) {
                writes[key] is Some
            } else {
                m.contains_key(key)
            },
        |key: Seq<u8>|
            if writes.contains_key(key) {
                writes[key]->Some_0
            } else {
                m[key]
            },
    )
}

/// `entries` are the entries of `m` whose key starts with `prefix`, each
/// once, in ascending key order.
pub open spec fn is_scan(m: Map<Seq<u8>, Seq<u8>>, prefix: Seq<u8>, entries: Seq<(Vec<u8>, Vec<u8>)>) -> bool {
    &&& forall|i: int|
        0 <= i < entries.len() ==> {
            let entry = #[trigger] entries[i];
            &&& m.contains_key(entry.0@)
            &&& has_prefix(entry.0@, prefix)
            &&& m[entry.0@] == entry.1@
        }
    &&& forall|i: int, j: int|
        0 <= i < j < entries.len() ==> lex_lt((#[trigger] entries[i]).0@, (#[trigger] entries[j]).0@)
    &&& forall|key: Seq<u8>| #[trigger]
        m.contains_key(key) && has_prefix(key, prefix) ==> exists|i: int|
            0 <= i < entries.len() && (#[trigger] entries[i]).0@ == key
}

/// `sled::Tree::name`: the name under which the database knows the tree.
#[verifier::external_body]
pub(crate) fn tree_name_of(tree: &sled::Tree) -> (r: Vec<u8>)
    ensures
        r@ == tree_name(*tree),
{
    tree.name().to_vec()
}

/// `sled::Tree::get`: the value under `key`, if the tree holds one.
#[verifier::external_body]
pub(crate) fn tree_get(tree: &sled::Tree, key: &[u8]) -> (r: Result<Option<Vec<u8>>, sled::Error>)
    ensures
        r matches Ok(found) ==> match found {
            Some(value) => tree_map(*tree).contains_key(key@) && value@ == tree_map(*tree)[key@],
            None => !tree_map(*tree).contains_key(key@),
        },
{
    tree.get(key).map(|found| found.map(|value| value.to_vec()))
}

/// `sled::Tree::contains_key`: whether the tree holds a value under `key`.
#[verifier::external_body]
pub(crate) fn tree_contains_key(tree: &sled::Tree, key: &[u8]) -> (r: Result<bool, sled::Error>)
    ensures
        r matches Ok(found) ==> found == tree_map(*tree).contains_key(key@),
{
    tree.contains_key(key)
}

/// `sled::Tree::last`: the entry with the greatest key, or `None` for an
/// empty tree.
#[verifier::external_body]
pub(crate) fn tree_last(tree: &sled::Tree) -> (r: Result<Option<(Vec<u8>, Vec<u8>)>, sled::Error>)
    ensures
        r matches Ok(found) ==> match found {
            Some(entry) => is_last_with_prefix(tree_map(*tree), Seq::empty(), entry.0@)
                && tree_map(*tree)[entry.0@] == entry.1@,
            None => forall|key: Seq<u8>| !tree_map(*tree).contains_key(key),
        },
{
    tree.last().map(|found| found.map(|(key, value)| (key.to_vec(), value.to_vec())))
}

/// `sled::Tree::scan_prefix`, run to its end: the entries whose key starts
/// with `prefix`, in ascending key order. The first failure of the engine
/// ends the scan and is returned.
#[verifier::external_body]
pub(crate) fn tree_scan_prefix(tree: &sled::Tree, prefix: &[u8]) -> (r: Result<
    Vec<(Vec<u8>, Vec<u8>)>,
    sled::Error,
>)
    ensures
        r matches Ok(entries) ==> is_scan(tree_map(*tree), prefix@, entries@),
{
    tree.scan_prefix(prefix).map(|entry| entry.map(|(key, value)| (key.to_vec(), value.to_vec()))).collect()
}

/// `sled::Tree::insert`: on success the tree holds `value` under `key` and
/// is otherwise as before. Nothing is claimed of the tree after a failure.
#[verifier::external_body]
pub(crate) fn tree_insert(tree: &mut sled::Tree, key: &[u8], value: &[u8]) -> (r: Result<
    (),
    sled::Error,
>)
    ensures
        tree_name(*final(tree)) == tree_name(*old(tree)),
        r is Ok ==> tree_map(*final(tree)) == tree_map(*old(tree)).insert(key@, value@),
{
    tree.insert(key, value).map(|_| ())
}

/// `sled::Tree::remove`: on success the tree holds nothing under `key` and
/// is otherwise as before. Nothing is claimed of the tree after a failure.
#[verifier::external_body]
pub(crate) fn tree_remove(tree: &mut sled::Tree, key: &[u8]) -> (r: Result<(), sled::Error>)
    ensures
        tree_name(*final(tree)) == tree_name(*old(tree)),
        r is Ok ==> tree_map(*final(tree)) == tree_map(*old(tree)).remove(key@),
{
    tree.remove(key).map(|_| ())
}

/// `sled::Batch::default`: a batch without writes.
#[verifier::external_body]
pub(crate) fn batch_new() -> (r: sled::Batch)
    ensures
        batch_writes(r) == no_writes(),
{
    sled::Batch::default()
}

/// `sled::Batch::insert`: the batch now stores `value` under `key`.
#[verifier::external_body]
pub(crate) fn batch_insert(batch: &mut sled::Batch, key: &[u8], value: &[u8])
    ensures
        batch_writes(*final(batch)) == batch_writes(*old(batch)).insert(key@, Some(value@)),
{
    batch.insert(key, value)
}

/// `sled::Batch::remove`: the batch now deletes `key`.
#[verifier::external_body]
pub(crate) fn batch_remove(batch: &mut sled::Batch, key: &[u8])
    ensures
        batch_writes(*final(batch)) == batch_writes(*old(batch)).insert(key@, None),
{
    batch.remove(key)
}

/// `Transactional::transaction` on two trees: applies one batch to each, all
/// of it or none of it as far as a reader can tell. The two must be
/// different trees: two handles onto one tree would leave both batches in
/// it. Nothing is claimed of what the trees hold after a failure.
#[verifier::external_body]
pub(crate) fn commit2(
    first: &mut sled::Tree,
    first_writes: &sled::Batch,
    second: &mut sled::Tree,
    second_writes: &sled::Batch,
) -> (r: Result<(), sled::transaction::TransactionError<()>>)
    requires
        tree_name(*old(first)) != tree_name(*old(second)),
    ensures
        tree_name(*final(first)) == tree_name(*old(first)),
        tree_name(*final(second)) == tree_name(*old(second)),
        r is Ok ==> tree_map(*final(first)) == apply_writes(
            tree_map(*old(first)),
            batch_writes(*first_writes),
        ) && tree_map(*final(second)) == apply_writes(
            tree_map(*old(second)),
            batch_writes(*second_writes),
        ),
{
    (&*first, &*second).transaction(
        |(a, b)|
            {
                a.apply_batch(first_writes)?;
                b.apply_batch(second_writes)?;
                Ok(())
            },
    )
}

/// `Transactional::transaction` on three trees: applies one batch to each,
/// all of it or none of it as far as a reader can tell. The three must be
/// different trees. Nothing is claimed of what the trees hold after a
/// failure.
#[verifier::external_body]
pub(crate) fn commit3(
    first: &mut sled::Tree,
    first_writes: &sled::Batch,
    second: &mut sled::Tree,
    second_writes: &sled::Batch,
    third: &mut sled::Tree,
    third_writes: &sled::Batch,
) -> (r: Result<(), sled::transaction::TransactionError<()>>)
    requires
        tree_name(*old(first)) != tree_name(*old(second)),
        tree_name(*old(first)) != tree_name(*old(third)),
        tree_name(*old(second)) != tree_name(*old(third)),
    ensures
        tree_name(*final(first)) == tree_name(*old(first)),
        tree_name(*final(second)) == tree_name(*old(second)),
        tree_name(*final(third)) == tree_name(*old(third)),
        r is Ok ==> tree_map(*final(first)) == apply_writes(
            tree_map(*old(first)),
            batch_writes(*first_writes),
        ) && tree_map(*final(second)) == apply_writes(
            tree_map(*old(second)),
            batch_writes(*second_writes),
        ) && tree_map(*final(third)) == apply_writes(
            tree_map(*old(third)),
            batch_writes(*third_writes),
        ),
{
    (&*first, &*second, &*third).transaction(
        |(a, b, c)|
            {
                a.apply_batch(first_writes)?;
                b.apply_batch(second_writes)?;
                c.apply_batch(third_writes)?;
                Ok(())
            },
    )
}

/// `Transactional::transaction` on four trees: applies one batch to each,
/// all of it or none of it as far as a reader can tell. The four must be
/// different trees. Nothing is claimed of what the trees hold after a
/// failure.
#[verifier::external_body]
pub(crate) fn commit4(
    first: &mut sled::Tree,
    first_writes: &sled::Batch,
    second: &mut sled::Tree,
    second_writes: &sled::Batch,
    third: &mut sled::Tree,
    third_writes: &sled::Batch,
    fourth: &mut sled::Tree,
    fourth_writes: &sled::Batch,
) -> (r: Result<(), sled::transaction::TransactionError<()>>)
    requires
        tree_name(*old(first)) != tree_name(*old(second)),
        tree_name(*old(first)) != tree_name(*old(third)),
        tree_name(*old(first)) != tree_name(*old(fourth)),
        tree_name(*old(second)) != tree_name(*old(third)),
        tree_name(*old(second)) != tree_name(*old(fourth)),
        tree_name(*old(third)) != tree_name(*old(fourth)),
    ensures
        tree_name(*final(first)) == tree_name(*old(first)),
        tree_name(*final(second)) == tree_name(*old(second)),
        tree_name(*final(third)) == tree_name(*old(third)),
        tree_name(*final(fourth)) == tree_name(*old(fourth)),
        r is Ok ==> tree_map(*final(first)) == apply_writes(
            tree_map(*old(first)),
            batch_writes(*first_writes),
        ) && tree_map(*final(second)) == apply_writes(
            tree_map(*old(second)),
            batch_writes(*second_writes),
        ) && tree_map(*final(third)) == apply_writes(
            tree_map(*old(third)),
            batch_writes(*third_writes),
        ) && tree_map(*final(fourth)) == apply_writes(
            tree_map(*old(fourth)),
            batch_writes(*fourth_writes),
        ),
{
    (&*first, &*second, &*third, &*fourth).transaction(
        |(a, b, c, d)|
            {
                a.apply_batch(first_writes)?;
                b.apply_batch(second_writes)?;
                c.apply_batch(third_writes)?;
                d.apply_batch(fourth_writes)?;
                Ok(())
            },
    )
}

/// `sled::Db::flush`: waits until what was written has reached the disk.
/// What the trees hold does not change.
#[verifier::external_body]
pub(crate) fn flush_db(db: &sled::Db) -> (r: Result<usize, sled::Error>) {
    db.flush()
}

/// `sled::Db::open_tree`: a handle onto the tree of that name, made empty
/// if the database had none. The handle bears the name it was asked for;
/// nothing is claimed of what the tree holds.
#[verifier::external_body]
pub(crate) fn open_tree(db: &sled::Db, name: &str) -> (r: Result<sled::Tree, sled::Error>)
    ensures
        r matches Ok(tree) ==> tree_name(tree) == encode_utf8(name@),
{
    db.open_tree(name)
}

} // verus!
