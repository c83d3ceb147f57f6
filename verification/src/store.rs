use vstd::prelude::*;
use crate::blob_item::ObjectId;

verus! {

// The object store is an outside collaborator. Its handle types are opaque
// here: every call into it goes through one of the trusted wrappers below,
// and everything the engine decides is decided on the plain values they
// return.

#[verifier::external_type_specification]
#[verifier::external_body]
pub struct ExRepository(git2::Repository);

#[verifier::external_type_specification]
#[verifier::external_body]
pub struct ExGitError(git2::Error);

#[verifier::external_type_specification]
#[verifier::external_body]
pub struct ExBlob<'repo>(git2::Blob<'repo>);

/// Kind tag of a stored object, as the object database reports it.
///
/// Objects of an unrecognized kind are tagged `Other`.
#[derive(Clone, Copy, Debug, PartialEq, Eq, Structural)]
pub enum ObjectKind {
    Commit,
    Tree,
    Blob,
    Tag,
    Other,
}

/// Relies on git2::Repository::open: opens the repository at `root`,
/// failing if there is none.
#[verifier::external_body]
pub(crate) fn repo_open(root: &str) -> (r: Result<git2::Repository, git2::Error>) {
    git2::Repository::open(root)
}

/// Relies on git2::Repository::odb and git2::Odb::foreach: walks every
/// object identifier in the low-level object database, in an order of the
/// store's choosing, and hands each back as its raw identifier bytes.
#[verifier::external_body]
pub(crate) fn repo_object_ids(repo: &git2::Repository) -> (r: Result<
    Vec<ObjectId>,
    git2::Error,
>) {
    let db = repo.odb()?;
    let mut ids: Vec<ObjectId> = Vec::new();
    db.foreach(|oid: &git2::Oid| {
        let mut bytes = [0u8; 20];
        for (d, s) in bytes.iter_mut().zip(oid.as_bytes().iter()) {
            *d = *s;
        }
        ids.push(ObjectId { bytes });
        true
    })?;
    Ok(ids)
}

/// Relies on git2::Repository::odb and git2::Odb::read: reads the raw
/// object named by `id` and reports its kind tag and byte length; what comes
/// back depends on what is in the store.
#[verifier::external_body]
pub(crate) fn odb_read_header(repo: &git2::Repository, id: &ObjectId) -> (r: Result<
    (ObjectKind, u64),
    git2::Error,
>) {
    let oid = git2::Oid::from_bytes(&id.bytes)?;
    let db = repo.odb()?;
    let obj = db.read(oid)?;
    let kind = match obj.kind() {
        git2::ObjectType::Commit => ObjectKind::Commit,
        git2::ObjectType::Tree => ObjectKind::Tree,
        git2::ObjectType::Blob => ObjectKind::Blob,
        git2::ObjectType::Tag => ObjectKind::Tag,
        git2::ObjectType::Any => ObjectKind::Other,
    };
    Ok((kind, obj.len() as u64))
}

/// Relies on git2::Repository::find_blob: the typed blob object named by
/// `id`, if the store can interpret it as one.
#[verifier::external_body]
pub(crate) fn repo_find_blob<'repo>(repo: &'repo git2::Repository, id: &ObjectId) -> (r: Result<
    git2::Blob<'repo>,
    git2::Error,
>) {
    let oid = git2::Oid::from_bytes(&id.bytes)?;
    repo.find_blob(oid)
}

/// Relies on git2::Blob::size: the byte length of the blob's content.
#[verifier::external_body]
pub(crate) fn blob_size(blob: &git2::Blob) -> (r: u64) {
    blob.size() as u64
}

/// Relies on git2::Blob::is_binary: the store's heuristic verdict on whether
/// the blob's content is binary rather than text.
#[verifier::external_body]
pub(crate) fn blob_is_binary(blob: &git2::Blob) -> (r: bool) {
    blob.is_binary()
}

/// The human-readable rendering of a byte count, as the formatting library
/// produces it: the count is scaled to the smallest unit in which its
/// magnitude is at least one.
pub uninterp spec fn human_size_of(bytes: u128) -> Seq<char>;

/// Relies on byte_unit::Byte::get_appropriate_unit (non-binary multiples)
/// and its Display rendering: the text is a function of the count alone.
#[verifier::external_body]
pub(crate) fn human_size(bytes: u128) -> (r: String)
    ensures
        r@ == human_size_of(bytes),
{
    byte_unit::Byte::from_bytes(bytes).get_appropriate_unit(false).to_string()
}

/// Relies on alloc's FromIterator impl for String: the string holds exactly
/// the given characters in order.
#[verifier::external_body]
pub(crate) fn chars_to_string(chars: &Vec<char>) -> (r: String)
    ensures
        r@ == chars@,
{
    chars.iter().collect()
}

} // verus!
