use std::path::Path;

use scorch_project::cache::{
    accepts_kind, choose_revision, existing_entry, RevisionSource, force_update_repo, get_git_cache_path, get_repo_directory, needs_reset, remote_ref,
    step_error, try_cache_repo, CacheError, GitStep,
};
use scorch_project::gitops::ObjectKind;

fn commit_file(repo: &git2::Repository, name: &str, text: &str, message: &str) -> git2::Oid {
    let blob = repo.blob(text.as_bytes()).unwrap();
    let mut builder = repo.treebuilder(None).unwrap();
    builder.insert(name, blob, 0o100644).unwrap();
    let tree = repo.find_tree(builder.write().unwrap()).unwrap();
    let sig = git2::Signature::now("tester", "tester@example.com").unwrap();
    let parent = repo.refname_to_id("refs/heads/main").ok().map(|id| repo.find_commit(id).unwrap());
    let parents: Vec<&git2::Commit> = parent.iter().collect();
    let oid = repo.commit(Some("refs/heads/main"), &sig, &sig, message, &tree, &parents).unwrap();
    repo.set_head("refs/heads/main").unwrap();
    oid
}

fn unique(name: &str) -> String {
    let nanos = std::time::SystemTime::now().duration_since(std::time::UNIX_EPOCH).unwrap().as_nanos();
    format!("/tmp/scorch_fixture_{}_{}", name, nanos)
}

struct Fixture {
    base: String,
    remote: git2::Repository,
    url: String,
    cache_root: String,
}

impl Fixture {
    fn new(name: &str) -> Fixture {
        let base = unique(name);
        let remote = git2::Repository::init_bare(format!("{}/remote", base)).unwrap();
        commit_file(&remote, "lib.scorch", "one", "first");
        let url = format!("{}/remote", base);
        let cache_root = format!("{}/cache", base);
        Fixture { base, remote, url, cache_root }
    }

    fn entry(&self) -> git2::Repository {
        git2::Repository::open(format!("{}/lib", self.cache_root)).unwrap()
    }

    fn entry_head(&self) -> git2::Oid {
        self.entry().head().unwrap().target().unwrap()
    }

    /// The text of `file` in the entry's head commit.
    fn entry_text(&self, file: &str) -> String {
        let repo = self.entry();
        let commit = repo.head().unwrap().peel_to_commit().unwrap();
        let entry = commit.tree().unwrap().get_path(Path::new(file)).unwrap();
        let blob = repo.find_blob(entry.id()).unwrap();
        String::from_utf8(blob.content().to_vec()).unwrap()
    }

    /// The working tree matches the head commit.
    fn entry_clean(&self) -> bool {
        let repo = self.entry();
        let statuses = repo.statuses(None).unwrap();
        statuses.iter().all(|s| s.status() == git2::Status::CURRENT)
    }

    fn remote_head(&self) -> git2::Oid {
        self.remote.refname_to_id("refs/heads/main").unwrap()
    }
}

#[test]
fn test_cache_repo() {
    let id = "scorch-doc";
    let url = "https://github.com/toolateralus/scorch-doc.git";
    let branch = "main";
    let cache_root = "/tmp/scorch_test_cache_repo".to_string();

    let result = try_cache_repo(&cache_root, id, url, branch);

    match &result {
        Ok(path) => {
            let path = std::path::Path::new(path);
            assert!(path.exists(), "git repo cache test failed, path does not exist");
            assert!(path.is_dir(), "git repo cache test failed, path is not a directory");
        }
        Err(_) => {}
    }
}

#[test]
fn cache_paths_are_joined() {
    assert_eq!(get_git_cache_path("/home/u"), "/home/u/.config/scorch/git_cache");
    assert_eq!(get_git_cache_path("/home/u/"), "/home/u/.config/scorch/git_cache");
    assert_eq!(get_git_cache_path(""), ".config/scorch/git_cache");
    assert_eq!(get_repo_directory("/home/u/.config/scorch/git_cache", "lib"), "/home/u/.config/scorch/git_cache/lib");
    assert_eq!(remote_ref("main"), "origin/main");
}

#[test]
fn reset_only_when_heads_differ() {
    assert!(!needs_reset(&vec![1, 2, 3], &vec![1, 2, 3]));
    assert!(needs_reset(&vec![1, 2, 3], &vec![1, 2, 4]));
    assert!(needs_reset(&vec![1, 2], &vec![1, 2, 3]));
    assert!(!needs_reset(&vec![], &vec![]));
}

#[test]
fn only_commits_and_tags_are_checked_out() {
    assert!(accepts_kind(ObjectKind::Commit));
    assert!(accepts_kind(ObjectKind::Tag));
    assert!(!accepts_kind(ObjectKind::Tree));
    assert!(!accepts_kind(ObjectKind::Blob));
    assert!(!accepts_kind(ObjectKind::Any));
    assert!(!accepts_kind(ObjectKind::Unknown));
}

#[test]
fn git_failures_are_classified() {
    assert!(matches!(step_error(GitStep::Fetch, "gone".to_string(), true), CacheError::InvalidRevision(m) if m == "gone"));
    assert!(matches!(
        step_error(GitStep::Fetch, "net".to_string(), false),
        CacheError::Git { step: GitStep::Fetch, message } if message == "net"
    ));
    assert!(matches!(step_error(GitStep::ResolveRevision, "x".to_string(), false), CacheError::InvalidRevision(_)));
    assert!(matches!(
        step_error(GitStep::Clone, "c".to_string(), true),
        CacheError::Git { step: GitStep::Clone, .. }
    ));
}

#[test]
fn first_resolution_clones_and_second_reuses() {
    let f = Fixture::new("reuse");
    let path = try_cache_repo(&f.cache_root, "lib", &f.url, "main").unwrap();
    assert_eq!(path, format!("{}/lib", f.cache_root));
    assert_eq!(f.entry_text("lib.scorch"), "one");
    assert!(f.entry_clean());
    let head = f.entry_head();
    commit_file(&f.remote, "lib.scorch", "two", "second");
    let again = try_cache_repo(&f.cache_root, "lib", &f.url, "main").unwrap();
    assert_eq!(again, path);
    assert_eq!(f.entry_head(), head);
    assert_eq!(f.entry_text("lib.scorch"), "one");
}

#[test]
fn forced_resolution_follows_new_commits() {
    let f = Fixture::new("follow");
    force_update_repo(&f.cache_root, "lib", &f.url, "main").unwrap();
    let second = commit_file(&f.remote, "lib.scorch", "two", "second");
    let path = force_update_repo(&f.cache_root, "lib", &f.url, "main").unwrap();
    assert_eq!(path, format!("{}/lib", f.cache_root));
    assert_eq!(f.entry_head(), second);
    assert_eq!(f.entry_text("lib.scorch"), "two");
    assert!(f.entry_clean());
}

#[test]
fn forced_resolution_discards_local_edits() {
    let f = Fixture::new("converge");
    force_update_repo(&f.cache_root, "lib", &f.url, "main").unwrap();
    {
        let entry = f.entry();
        let blob = entry.blob(b"edited").unwrap();
        let mut builder = entry.treebuilder(None).unwrap();
        builder.insert("lib.scorch", blob, 0o100644).unwrap();
        let tree = entry.find_tree(builder.write().unwrap()).unwrap();
        let mut opts = git2::build::CheckoutBuilder::new();
        opts.force();
        entry.checkout_tree(tree.as_object(), Some(&mut opts)).unwrap();
    }
    assert!(!f.entry_clean());
    force_update_repo(&f.cache_root, "lib", &f.url, "main").unwrap();
    assert!(f.entry_clean());
    assert_eq!(f.entry_head(), f.remote_head());
    assert_eq!(f.entry_text("lib.scorch"), "one");
}

#[test]
fn tag_and_commit_id_resolve_like_the_branch() {
    let f = Fixture::new("revisions");
    let first = f.remote_head();
    let obj = f.remote.find_object(first, None).unwrap();
    f.remote.tag_lightweight("v1", &obj, false).unwrap();
    force_update_repo(&f.cache_root, "lib", &f.url, "main").unwrap();
    assert_eq!(f.entry_head(), first);
    force_update_repo(&f.cache_root, "lib", &f.url, "v1").unwrap();
    assert_eq!(f.entry_head(), first);
    force_update_repo(&f.cache_root, "lib", &f.url, &first.to_string()).unwrap();
    assert_eq!(f.entry_head(), first);
}

#[test]
fn unknown_revision_is_refused_and_entry_kept() {
    let f = Fixture::new("invalid");
    force_update_repo(&f.cache_root, "lib", &f.url, "main").unwrap();
    let head = f.entry_head();
    let result = force_update_repo(&f.cache_root, "lib", &f.url, "does-not-exist");
    assert!(matches!(result, Err(CacheError::InvalidRevision(_))));
    assert_eq!(f.entry_head(), head);
    assert!(f.entry_clean());
    assert_eq!(f.entry_text("lib.scorch"), "one");
}

#[test]
fn unreachable_remote_fails_to_clone() {
    let f = Fixture::new("unreachable");
    let missing = format!("{}/no-such-remote", f.base);
    let result = force_update_repo(&f.cache_root, "lib", &missing, "main");
    assert!(matches!(result, Err(CacheError::Git { step: GitStep::Clone, .. })));
}

#[test]
fn existing_entry_is_used_as_it_stands() {
    assert_eq!(existing_entry("root/lib".to_string(), true), Some("root/lib".to_string()));
    assert_eq!(existing_entry("root/lib".to_string(), false), None);
}

#[test]
fn forced_resolution_removes_added_files() {
    let f = Fixture::new("added");
    force_update_repo(&f.cache_root, "lib", &f.url, "main").unwrap();
    {
        let entry = f.entry();
        let head_tree = entry.head().unwrap().peel_to_tree().unwrap();
        let extra = entry.blob(b"stray").unwrap();
        let mut builder = entry.treebuilder(Some(&head_tree)).unwrap();
        builder.insert("extra.scorch", extra, 0o100644).unwrap();
        let tree = entry.find_tree(builder.write().unwrap()).unwrap();
        let mut opts = git2::build::CheckoutBuilder::new();
        opts.force();
        entry.checkout_tree(tree.as_object(), Some(&mut opts)).unwrap();
        let mut index = entry.index().unwrap();
        index.read_tree(&head_tree).unwrap();
        index.write().unwrap();
    }
    let added = format!("{}/lib/extra.scorch", f.cache_root);
    assert!(Path::new(&added).exists());
    assert!(!f.entry_clean());
    force_update_repo(&f.cache_root, "lib", &f.url, "main").unwrap();
    assert!(!Path::new(&added).exists());
    assert!(f.entry_clean());
    assert_eq!(f.entry_text("lib.scorch"), "one");
}

#[test]
fn revision_lookups_prefer_the_tracking_branch() {
    assert_eq!(choose_revision(Some(ObjectKind::Commit), Some(ObjectKind::Commit)), Some(RevisionSource::Tracking));
    assert_eq!(choose_revision(Some(ObjectKind::Tag), None), Some(RevisionSource::Tracking));
    assert_eq!(choose_revision(None, Some(ObjectKind::Tag)), Some(RevisionSource::Direct));
    assert_eq!(choose_revision(Some(ObjectKind::Tree), Some(ObjectKind::Commit)), Some(RevisionSource::Direct));
    assert_eq!(choose_revision(Some(ObjectKind::Blob), Some(ObjectKind::Tree)), None);
    assert_eq!(choose_revision(None, None), None);
}

#[test]
fn annotated_tag_pins_its_commit() {
    let f = Fixture::new("annotated");
    let first = f.remote_head();
    let obj = f.remote.find_object(first, None).unwrap();
    let sig = git2::Signature::now("tester", "tester@example.com").unwrap();
    f.remote.tag("v2", &obj, &sig, "release", false).unwrap();
    force_update_repo(&f.cache_root, "lib", &f.url, "main").unwrap();
    force_update_repo(&f.cache_root, "lib", &f.url, "v2").unwrap();
    assert_eq!(f.entry_head(), first);
    assert!(f.entry_clean());
    force_update_repo(&f.cache_root, "lib", &f.url, "v2").unwrap();
    assert_eq!(f.entry_head(), first);
}
