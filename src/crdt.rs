//! The mergeable document, held in an automerge `AutoCommit`. Verus sees the
//! document as opaque; the few facts the replica relies on are stated here.
use vstd::prelude::*;
use automerge::{AutoCommit, AutomergeError, ReadDoc};

verus! {

#[verifier::external_type_specification]
#[verifier::external_body]
pub struct ExAutoCommit(AutoCommit);

#[verifier::external_type_specification]
#[verifier::external_body]
pub struct ExAutomergeError(AutomergeError);

/// The bytes of the actor id under which the document records its own edits.
pub uninterp spec fn doc_actor(d: AutoCommit) -> Seq<u8>;

/// The hashes of the document's head changes.
pub uninterp spec fn doc_heads(d: AutoCommit) -> Set<Seq<u8>>;

/// Whether the document holds edits not yet committed as a change.
pub uninterp spec fn doc_open(d: AutoCommit) -> bool;

/// The number of entries of the document's `lists` sequence (none where it has none).
pub uninterp spec fn doc_list_count(d: AutoCommit) -> nat;

/// Whether `b` loads as a full save.
pub uninterp spec fn doc_loads(b: Seq<u8>) -> bool;

/// The heads of the document that the full save `b` holds.
pub uninterp spec fn save_heads(b: Seq<u8>) -> Set<Seq<u8>>;

/// Whether the full save `b` loads and merges into `d` without error.
pub uninterp spec fn merge_ok(d: AutoCommit, b: Seq<u8>) -> bool;

/// Whether the changes in `b` apply to `d` without error.
pub uninterp spec fn delta_ok(d: AutoCommit, b: Seq<u8>) -> bool;

/// The full save of a document with nothing pending.
pub uninterp spec fn doc_save(d: AutoCommit) -> Seq<u8>;

/// Relies on `AutoCommit::new`: a document with no content and nothing pending.
#[verifier::external_body]
pub(crate) fn new_doc() -> (r: AutoCommit)
    ensures
        !doc_open(r),
        doc_list_count(r) == 0,
{
    AutoCommit::new()
}

/// Relies on `AutoCommit::load`: parses a full save; the loaded document has
/// the save's heads and no pending edits.
#[verifier::external_body]
pub(crate) fn load_doc(bytes: &[u8]) -> (r: Result<AutoCommit, AutomergeError>)
    ensures
        r is Ok <==> doc_loads(bytes@),
        r is Ok ==> !doc_open(r->Ok_0) && doc_heads(r->Ok_0) == save_heads(bytes@),
{
    AutoCommit::load(bytes)
}

/// Relies on `AutoCommit::get_actor` and `ActorId::to_bytes`.
#[verifier::external_body]
pub(crate) fn actor_bytes(d: &AutoCommit) -> (r: Vec<u8>)
    ensures
        r@ == doc_actor(*d),
{
    d.get_actor().to_bytes().to_vec()
}

/// Relies on `AutoCommit::with_actor` and `ActorId::from(&[u8])`: the same
/// document, its pending edits committed, now recording under actor `a`.
#[verifier::external_body]
pub(crate) fn with_actor_bytes(d: AutoCommit, a: &[u8]) -> (r: AutoCommit)
    ensures
        doc_actor(r) == a@,
        !doc_open(r),
        !doc_open(d) ==> doc_heads(r) == doc_heads(d),
        !doc_open(d) ==> doc_list_count(r) == doc_list_count(d),
{
    d.with_actor(automerge::ActorId::from(a))
}

/// Relies on `AutoCommit::load` and `AutoCommit::merge`: loads the full save
/// `bytes` and imports the changes it has that `d` lacks. Where the bytes do
/// not load, `d` is not touched.
#[verifier::external_body]
pub(crate) fn load_and_merge(d: &mut AutoCommit, bytes: &[u8]) -> (r: Result<(), AutomergeError>)
    ensures
        r is Ok <==> merge_ok(*old(d), bytes@),
        !doc_loads(bytes@) ==> r is Err && *final(d) == *old(d),
        r is Ok ==> doc_actor(*final(d)) == doc_actor(*old(d)) && !doc_open(*final(d)),
{
    let mut other = AutoCommit::load(bytes)?;
    match d.merge(&mut other) {
        Ok(_) => Ok(()),
        Err(e) => Err(e),
    }
}

/// Relies on `AutoCommit::load_incremental`: imports the changes of a delta
/// or a full save.
#[verifier::external_body]
pub(crate) fn load_incremental(d: &mut AutoCommit, bytes: &[u8]) -> (r: Result<(), AutomergeError>)
    ensures
        r is Ok <==> delta_ok(*old(d), bytes@),
        r is Ok ==> doc_actor(*final(d)) == doc_actor(*old(d)),
        !doc_open(*final(d)),
{
    match d.load_incremental(bytes) {
        Ok(_) => Ok(()),
        Err(e) => Err(e),
    }
}

/// Relies on `AutoCommit::clone` and `AutoCommit::save`: a full save, taken
/// from a copy so that the document's own record of what was last saved stays.
#[verifier::external_body]
pub(crate) fn snapshot(d: &AutoCommit) -> (r: Vec<u8>)
    ensures
        !doc_open(*d) ==> r@ == doc_save(*d),
{
    d.clone().save()
}

/// Relies on `AutoCommit::save_incremental`: the changes since the last call,
/// after committing pending edits.
#[verifier::external_body]
pub(crate) fn save_incremental(d: &mut AutoCommit) -> (r: Vec<u8>)
    ensures
        !doc_open(*final(d)),
        doc_actor(*final(d)) == doc_actor(*old(d)),
        !doc_open(*old(d)) ==> doc_heads(*final(d)) == doc_heads(*old(d)) && doc_list_count(
            *final(d),
        ) == doc_list_count(*old(d)) && doc_save(*final(d)) == doc_save(*old(d)),
{
    d.save_incremental()
}

/// Relies on `ReadDoc::get` and `ReadDoc::length`: the length of the root's
/// `lists` object, or 0 where there is none.
#[verifier::external_body]
pub(crate) fn list_count(d: &AutoCommit) -> (r: usize)
    ensures
        r == doc_list_count(*d),
{
    match d.get(automerge::ROOT, "lists") {
        Ok(Some((_, id))) => d.length(&id),
        Ok(None) => 0,
        Err(_) => 0,
    }
}

} // verus!
