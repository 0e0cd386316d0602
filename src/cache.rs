//! The module cache: one git working tree per module id under a cache root,
//! reconciled to a requested revision.

use vstd::prelude::*;
use vstd::string::StringExecFns;
use crate::gitops::{
    ObjectKind, checkout_tree_forced, peel_to_commit, clone_repo, error_is_not_found, error_message, fetch,
    find_remote, object_id, object_kind, oid_bytes, open_repo, path_exists, reset_hard,
    revparse_single, set_head_detached,
};
use crate::text::{join, join_path, join_under, push_path};

verus! {

/// Where the cache lives, relative to the user's home directory.
pub const GIT_CACHE: &'static str = ".config/scorch/git_cache";

/// `GIT_CACHE` as a sequence of characters.
pub open spec fn git_cache_rel() -> Seq<char> {
    seq!['.', 'c', 'o', 'n', 'f', 'i', 'g', '/', 's', 'c', 'o', 'r', 'c', 'h', '/', 'g', 'i', 't', '_', 'c', 'a', 'c', 'h', 'e']
}

/// The name of the remote that every cache entry fetches from.
pub const ORIGIN: &'static str = "origin";

/// The cache entry of module `id`: `cache_root/id`.
pub open spec fn repo_dir(cache_root: Seq<char>, id: Seq<char>) -> Seq<char> {
    join_path(cache_root, id)
}

/// The remote-tracking name of `revision`: `origin/revision`.
pub open spec fn remote_ref_of(revision: Seq<char>) -> Seq<char> {
    seq!['o', 'r', 'i', 'g', 'i', 'n'] + seq!['/'] + revision
}

/// The step of a reconciliation at which git failed.
#[derive(Clone, Copy, Debug, PartialEq, Eq, Structural)]
pub enum GitStep {
    Clone,
    FindRemote,
    Fetch,
    ResolveHead,
    Reset,
    ResolveRevision,
    Checkout,
    Detach,
}

/// Why a cache entry could not be brought to a revision.
#[derive(Clone, Debug)]
pub enum CacheError {
    /// git failed at `step`, for a reason other than the revision.
    Git { step: GitStep, message: String },
    /// The revision names nothing in the repository, or names an object that
    /// is neither a commit nor a tag.
    InvalidRevision(String),
}

/// Steps at which a missing object means the revision itself is unknown.
pub open spec fn names_revision(step: GitStep) -> bool {
    step is Fetch || step is ResolveRevision
}

/// The error reported when git fails at `step` with `message`; `not_found`
/// tells whether git said that an object or reference was missing.
pub open spec fn step_error_spec(step: GitStep, message: String, not_found: bool) -> CacheError {
    if step is ResolveRevision || (not_found && names_revision(step)) {
        CacheError::InvalidRevision(message)
    } else {
        CacheError::Git { step, message }
    }
}

/// Classifies a git failure at `step`.
pub fn step_error(step: GitStep, message: String, not_found: bool) -> (r: CacheError)
    ensures
        r == step_error_spec(step, message, not_found),
{
    match step {
        GitStep::ResolveRevision => CacheError::InvalidRevision(message),
        GitStep::Fetch if not_found => CacheError::InvalidRevision(message),
        _ => CacheError::Git { step, message },
    }
}

/// Maps a git2 error met at `step` to a `CacheError`.
fn git_failure(step: GitStep, e: &git2::Error) -> (r: CacheError)
    ensures
        step is ResolveRevision ==> r is InvalidRevision,
        r is InvalidRevision || (r matches CacheError::Git { step: s, .. } && s == step),
        !names_revision(step) ==> (r matches CacheError::Git { step: s, .. } && s == step),
{
    let message = error_message(e);
    let not_found = error_is_not_found(e);
    step_error(step, message, not_found)
}

/// The cache root under the home directory `home`, joined as a path: an
/// empty home leaves the relative `GIT_CACHE`, and a home that ends in `/`
/// gets no second separator.
pub fn get_git_cache_path(home: &str) -> (r: String)
    ensures
        r@ == push_path(home@, git_cache_rel()),
{
    proof {
        reveal_strlit(".config/scorch/git_cache");
    }
    assert(GIT_CACHE@ == git_cache_rel());
    join_under(home, GIT_CACHE)
}

/// The directory of the cache entry of module `id`.
pub fn get_repo_directory(cache_root: &str, id: &str) -> (r: String)
    ensures
        r@ == repo_dir(cache_root@, id@),
{
    join(cache_root, id)
}

/// The remote-tracking name under which a fetched `revision` is found.
pub fn remote_ref(revision: &str) -> (r: String)
    ensures
        r@ == remote_ref_of(revision@),
{
    proof {
        reveal_strlit("origin");
    }
    join(ORIGIN, revision)
}

/// Whether the local head must be reset to the fetched commit.
pub fn needs_reset(local: &Vec<u8>, remote: &Vec<u8>) -> (r: bool)
    ensures
        r == (local@ != remote@),
{
    if local.len() != remote.len() {
        return true;
    }
    let mut i: usize = 0;
    while i < local.len()
        invariant
            local@.len() == remote@.len(),
            i <= local@.len(),
            forall|j: int| 0 <= j < i ==> local@[j] == remote@[j],
        decreases local.len() - i,
    {
        if local[i] != remote[i] {
            return true;
        }
        i = i + 1;
    }
    assert(local@ =~= remote@);
    false
}

/// Whether an object that a revision resolved to can be checked out.
pub fn accepts_kind(kind: ObjectKind) -> (r: bool)
    ensures
        r == (kind is Commit || kind is Tag),
{
    match kind {
        ObjectKind::Commit | ObjectKind::Tag => true,
        _ => false,
    }
}

/// Opens the repository at `repo_dir`; where none can be opened, clones
/// `url` there. An existing repository is never cloned again.
pub fn open_or_clone_repo(repo_dir: &str, url: &str) -> (r: Result<git2::Repository, CacheError>)
    ensures
        r matches Err(e) ==> (e matches CacheError::Git { step, .. } && step is Clone),
{
    match open_repo(repo_dir) {
        Ok(repo) => Ok(repo),
        Err(_) => match clone_repo(url, repo_dir) {
            Ok(repo) => Ok(repo),
            Err(e) => Err(git_failure(GitStep::Clone, &e)),
        },
    }
}

/// Which lookup of a fetched revision supplies the object to use.
#[derive(Clone, Copy, Debug, PartialEq, Eq, Structural)]
pub enum RevisionSource {
    /// The remote-tracking branch `origin/revision`.
    Tracking,
    /// The revision as given: a tag or a commit id.
    Direct,
}

/// A lookup found an object that can be checked out: a commit or a tag.
pub open spec fn usable(kind: Option<ObjectKind>) -> bool {
    kind matches Some(k) && (k is Commit || k is Tag)
}

/// Chooses between the two lookups of a revision, given the kind of object
/// each found (`None` where it found nothing): the remote-tracking branch
/// where it names a commit or a tag, else the revision as given where it
/// does; `None` where neither does, and the revision is refused.
pub fn choose_revision(tracking: Option<ObjectKind>, direct: Option<ObjectKind>) -> (r: Option<
    RevisionSource,
>)
    ensures
        usable(tracking) ==> r == Some(RevisionSource::Tracking),
        !usable(tracking) && usable(direct) ==> r == Some(RevisionSource::Direct),
        r is None <==> (!usable(tracking) && !usable(direct)),
{
    let tracking_ok = match tracking {
        Some(k) => accepts_kind(k),
        None => false,
    };
    let direct_ok = match direct {
        Some(k) => accepts_kind(k),
        None => false,
    };
    if tracking_ok {
        Some(RevisionSource::Tracking)
    } else if direct_ok {
        Some(RevisionSource::Direct)
    } else {
        None
    }
}

/// The kind of the object a lookup found, if it found one.
fn found_kind(obj: &Option<git2::Object>) -> (r: Option<ObjectKind>)
    ensures
        r is Some <==> obj is Some,
{
    match obj {
        Some(o) => Some(object_kind(o)),
        None => None,
    }
}

/// The commit that a fetched `revision` names, chosen by `choose_revision`
/// between `origin/revision` and the revision as given, and peeled to a
/// commit when it is a tag.
fn resolve_fetched<'a>(repo: &'a git2::Repository, revision: &str) -> (r: Result<
    git2::Object<'a>,
    CacheError,
>)
    ensures
        r matches Err(e) ==> e is InvalidRevision,
{
    let tracking_ref = remote_ref(revision);
    let tracking = match revparse_single(repo, tracking_ref.as_str()) {
        Ok(obj) => Some(obj),
        Err(_) => None,
    };
    let direct = match revparse_single(repo, revision) {
        Ok(obj) => Some(obj),
        Err(_) => None,
    };
    let chosen = match (choose_revision(found_kind(&tracking), found_kind(&direct)), tracking, direct) {
        (Some(RevisionSource::Tracking), Some(obj), _) => obj,
        (Some(RevisionSource::Direct), _, Some(obj)) => obj,
        _ => return Err(CacheError::InvalidRevision(String::from_str(revision))),
    };
    match peel_to_commit(&chosen) {
        Ok(commit) => Ok(commit),
        Err(e) => Err(git_failure(GitStep::ResolveRevision, &e)),
    }
}

/// Fetches `revision` from `origin` and, where the local head differs from
/// the fetched commit, resets the working tree hard onto that commit. Edits
/// to tracked files are discarded; untracked files are left to
/// `checkout_branch`. A revision that the remote does not
/// have, or that names neither a commit nor a tag, is refused before the
/// working tree is touched.
pub fn update_repo_if_needed(repo: &git2::Repository, revision: &str) -> (r: Result<(), CacheError>)
    ensures
        r matches Err(e) ==> (e is InvalidRevision || (e matches CacheError::Git { step, .. } && (
        step is FindRemote || step is Fetch || step is ResolveHead || step is Reset))),
{
    let mut remote = match find_remote(repo, ORIGIN) {
        Ok(remote) => remote,
        Err(e) => return Err(git_failure(GitStep::FindRemote, &e)),
    };
    if let Err(e) = fetch(&mut remote, revision) {
        return Err(git_failure(GitStep::Fetch, &e));
    }
    let head = match revparse_single(repo, "HEAD") {
        Ok(obj) => obj,
        Err(e) => return Err(git_failure(GitStep::ResolveHead, &e)),
    };
    let target = resolve_fetched(repo, revision)?;
    let local = oid_bytes(&object_id(&head));
    let fetched = oid_bytes(&object_id(&target));
    if needs_reset(&local, &fetched) {
        if let Err(e) = reset_hard(repo, &target) {
            return Err(git_failure(GitStep::Reset, &e));
        }
    }
    Ok(())
}

/// Resolves `revision` (a branch, a tag or a commit id) as fetched, checks
/// out its tree by force and detaches the head at it, so that the entry pins
/// an exact commit. A revision that resolves to nothing, or to an object
/// that is neither a commit nor a tag, is refused before the working tree is
/// touched. The checkout also removes files that the entry does not track.
pub fn checkout_branch(repo: &git2::Repository, revision: &str) -> (r: Result<(), CacheError>)
    ensures
        r matches Err(e) ==> (e is InvalidRevision || (e matches CacheError::Git { step, .. } && (
        step is Checkout || step is Detach))),
{
    let obj = resolve_fetched(repo, revision)?;
    if let Err(e) = checkout_tree_forced(repo, &obj) {
        return Err(git_failure(GitStep::Checkout, &e));
    }
    if let Err(e) = set_head_detached(repo, object_id(&obj)) {
        return Err(git_failure(GitStep::Detach, &e));
    }
    Ok(())
}

/// The errors that reconciling a cache entry can end in: a refused
/// revision, or a git failure at one of the steps of the reconciliation.
pub open spec fn reconcile_error(e: CacheError) -> bool {
    e is InvalidRevision || (e matches CacheError::Git { step, .. } && (step is Clone
        || step is FindRemote || step is Fetch || step is ResolveHead || step is Reset
        || step is Checkout || step is Detach))
}

/// Brings the cache entry of module `id` to `revision` unconditionally:
/// opens or clones it, fetches, resets onto the fetched commit and checks
/// the revision out detached. On success the entry's directory is returned.
pub fn force_update_repo(cache_root: &str, id: &str, url: &str, revision: &str) -> (r: Result<
    String,
    CacheError,
>)
    ensures
        r matches Ok(p) ==> p@ == repo_dir(cache_root@, id@),
        r matches Err(e) ==> reconcile_error(e),
{
    let repo_dir = get_repo_directory(cache_root, id);
    let repo = open_or_clone_repo(repo_dir.as_str(), url)?;
    update_repo_if_needed(&repo, revision)?;
    checkout_branch(&repo, revision)?;
    Ok(repo_dir)
}

/// The decision of a lookup in the cache: an entry that exists at
/// `repo_dir` is used as it stands, and `None` asks for a reconciliation.
pub fn existing_entry(repo_dir: String, exists: bool) -> (r: Option<String>)
    ensures
        exists <==> r is Some,
        r matches Some(p) ==> p@ == repo_dir@,
{
    if exists {
        Some(repo_dir)
    } else {
        None
    }
}

/// Returns the entry of module `id` as it stands when it exists, without
/// cloning or fetching (see `existing_entry`); otherwise reconciles it by
/// `force_update_repo`, whose errors it hands on.
pub fn try_cache_repo(cache_root: &str, id: &str, url: &str, revision: &str) -> (r: Result<
    String,
    CacheError,
>)
    ensures
        r matches Ok(p) ==> p@ == repo_dir(cache_root@, id@),
        r matches Err(e) ==> reconcile_error(e),
{
    let repo_dir = get_repo_directory(cache_root, id);
    let exists = path_exists(repo_dir.as_str());
    match existing_entry(repo_dir, exists) {
        Some(path) => Ok(path),
        None => force_update_repo(cache_root, id, url, revision),
    }
}

} // verus!
