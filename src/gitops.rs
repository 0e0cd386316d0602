//! The git2 calls that the module cache makes. Each item here is trusted:
//! its outcome depends on the disk and the network, so little is promised.

use vstd::prelude::*;

verus! {

#[verifier::external_type_specification]
#[verifier::external_body]
pub struct ExRepository(git2::Repository);

#[verifier::external_type_specification]
#[verifier::external_body]
pub struct ExGitError(git2::Error);

#[verifier::external_type_specification]
#[verifier::external_body]
pub struct ExRemote<'repo>(git2::Remote<'repo>);

#[verifier::external_type_specification]
#[verifier::external_body]
pub struct ExObject<'repo>(git2::Object<'repo>);

#[verifier::external_type_specification]
#[verifier::external_body]
pub struct ExOid(git2::Oid);

/// What `git2::Object::kind` reports of an object.
#[derive(Clone, Copy, Debug, PartialEq, Eq, Structural)]
pub enum ObjectKind {
    Any,
    Commit,
    Tree,
    Blob,
    Tag,
    Unknown,
}

/// Relies on std::path::Path::exists: whether something stands at `path`.
#[verifier::external_body]
pub(crate) fn path_exists(path: &str) -> bool {
    std::path::Path::new(path).exists()
}

/// Relies on git2::Repository::open: opens the repository at `path`.
#[verifier::external_body]
pub(crate) fn open_repo(path: &str) -> Result<git2::Repository, git2::Error> {
    git2::Repository::open(path)
}

/// Relies on git2::Repository::clone: clones `url` into `path`.
#[verifier::external_body]
pub(crate) fn clone_repo(url: &str, path: &str) -> Result<git2::Repository, git2::Error> {
    git2::Repository::clone(url, path)
}

/// Relies on git2::Repository::find_remote: looks up a remote by name.
#[verifier::external_body]
pub(crate) fn find_remote<'a>(repo: &'a git2::Repository, name: &str) -> Result<
    git2::Remote<'a>,
    git2::Error,
> {
    repo.find_remote(name)
}

/// Relies on git2::Remote::fetch: fetches one refspec with default options.
#[verifier::external_body]
pub(crate) fn fetch(remote: &mut git2::Remote, refspec: &str) -> Result<(), git2::Error> {
    remote.fetch(&[refspec], None, None)
}

/// Relies on git2::Repository::revparse_single: the object a revision names.
#[verifier::external_body]
pub(crate) fn revparse_single<'a>(repo: &'a git2::Repository, spec: &str) -> Result<
    git2::Object<'a>,
    git2::Error,
> {
    repo.revparse_single(spec)
}

/// Relies on git2::Object::id: the object's id.
#[verifier::external_body]
pub(crate) fn object_id(obj: &git2::Object) -> git2::Oid {
    obj.id()
}

/// Relies on git2::Oid::as_bytes: the raw bytes of an id.
#[verifier::external_body]
pub(crate) fn oid_bytes(oid: &git2::Oid) -> Vec<u8> {
    oid.as_bytes().to_vec()
}

/// Relies on git2::Object::kind: the type of an object, one arm per variant.
#[verifier::external_body]
pub(crate) fn object_kind(obj: &git2::Object) -> ObjectKind {
    match obj.kind() {
        Some(git2::ObjectType::Any) => ObjectKind::Any,
        Some(git2::ObjectType::Commit) => ObjectKind::Commit,
        Some(git2::ObjectType::Tree) => ObjectKind::Tree,
        Some(git2::ObjectType::Blob) => ObjectKind::Blob,
        Some(git2::ObjectType::Tag) => ObjectKind::Tag,
        None => ObjectKind::Unknown,
    }
}

/// Relies on git2::Object::peel with `ObjectType::Commit`: the commit that
/// `obj` leads to, a tag being followed to what it points at.
#[verifier::external_body]
pub(crate) fn peel_to_commit<'a>(obj: &git2::Object<'a>) -> Result<git2::Object<'a>, git2::Error> {
    obj.peel(git2::ObjectType::Commit)
}

/// Relies on git2::Repository::reset with `ResetType::Hard`: moves HEAD to
/// `target` and overwrites the index and the working tree.
#[verifier::external_body]
pub(crate) fn reset_hard(repo: &git2::Repository, target: &git2::Object) -> Result<(), git2::Error> {
    repo.reset(target, git2::ResetType::Hard, None)
}

/// Relies on git2::Repository::checkout_tree with a
/// `git2::build::CheckoutBuilder` set to `force` and `remove_untracked`:
/// overwrites the working tree with `treeish` and removes files it does not
/// track.
#[verifier::external_body]
pub(crate) fn checkout_tree_forced(repo: &git2::Repository, treeish: &git2::Object) -> Result<
    (),
    git2::Error,
> {
    let mut opts = git2::build::CheckoutBuilder::new();
    opts.force().remove_untracked(true);
    repo.checkout_tree(treeish, Some(&mut opts))
}

/// Relies on git2::Repository::set_head_detached: points HEAD at `commit`.
#[verifier::external_body]
pub(crate) fn set_head_detached(repo: &git2::Repository, commit: git2::Oid) -> Result<
    (),
    git2::Error,
> {
    repo.set_head_detached(commit)
}

/// Relies on git2::Error::message: the text of an error.
#[verifier::external_body]
pub(crate) fn error_message(e: &git2::Error) -> String {
    e.message().to_string()
}

/// Relies on git2::Error::code: whether the error is `ErrorCode::NotFound`.
#[verifier::external_body]
pub(crate) fn error_is_not_found(e: &git2::Error) -> bool {
    e.code() == git2::ErrorCode::NotFound
}

} // verus!
