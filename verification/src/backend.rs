//! The version-control backend boundary.
//!
//! Every call into the git2 library goes through a declared type or a
//! wrapper in this module.  Each wrapper converts the backend's values
//! into plain records; what the engine derives from those records is
//! verified elsewhere.  Results read from the repository on disk, so no
//! wrapper promises more than what holds of every outcome.

use vstd::prelude::*;

verus! {

#[verifier::external_type_specification]
#[verifier::external_body]
pub struct ExGitRepository(git2::Repository);

#[verifier::external_type_specification]
#[verifier::external_body]
pub struct ExGitError(git2::Error);

#[verifier::external_type_specification]
#[verifier::external_body]
pub struct ExGitOid(git2::Oid);

#[verifier::external_type_specification]
#[verifier::external_body]
pub struct ExGitRevwalk<'repo>(git2::Revwalk<'repo>);

#[verifier::external_type_specification]
#[verifier::external_body]
pub struct ExGitBlame<'repo>(git2::Blame<'repo>);

#[verifier::external_type_specification]
#[verifier::external_body]
pub struct ExGitDelta(git2::Delta);

/// One commit, read from the backend as plain values.  Author name,
/// email and message are absent where the stored signature leaves them
/// out; parent ids come in first-parent order, untruncated.
pub struct CommitRecord {
    pub oid: String,
    pub author_name: Option<String>,
    pub author_email: Option<String>,
    pub timestamp: i64,
    pub message: Option<String>,
    pub parents: Vec<String>,
    pub tree_oid: String,
}

/// How one file changed between two trees.
pub enum DeltaKind {
    Added,
    Deleted,
    Modified,
    Renamed,
    Other,
}

/// One changed file of a tree-to-tree diff.
pub struct DeltaRecord {
    pub kind: DeltaKind,
    pub old_path: String,
    pub new_path: String,
}

/// One entry of a tree object, read as plain values.
pub struct TreeEntryRecord {
    pub name: String,
    pub oid: String,
    pub is_tree: bool,
}

/// One blame attribution: the commit that last changed a line, with the
/// signature recorded by that commit.
pub struct LineAttribution {
    pub commit_id: String,
    pub author_name: String,
    pub author_email: String,
    pub timestamp: i64,
}

/// An entry found under a path of a tree.
pub struct PathEntry {
    pub oid: String,
    pub is_blob: bool,
}

/// Relies on git2::Repository::open: opens the repository at `path`.
#[verifier::external_body]
pub(crate) fn repo_open(path: &str) -> (r: Result<git2::Repository, git2::Error>)
{
    git2::Repository::open(path)
}

/// Relies on git2::Error::message: the backend's description of what
/// went wrong.
#[verifier::external_body]
pub(crate) fn error_text(e: &git2::Error) -> (r: String)
{
    e.message().to_string()
}

/// Relies on git2::Repository::stash_foreach: visits every stash entry;
/// the result holds the visited stash commit ids.  The iteration only
/// reads; the repository value itself is left as it was.
#[verifier::external_body]
pub(crate) fn stash_oids(repo: &mut git2::Repository) -> (r: Result<Vec<String>, git2::Error>)
    ensures
        *final(repo) == *old(repo),
{
    let mut v: Vec<String> = Vec::new();
    repo.stash_foreach(|_, _, oid| {
        v.push(oid.to_string());
        true
    })?;
    Ok(v)
}

/// Relies on git2::Repository::revwalk: a fresh, empty traversal.
#[verifier::external_body]
pub(crate) fn revwalk_new<'a>(repo: &'a git2::Repository) -> (r: Result<
    git2::Revwalk<'a>,
    git2::Error,
>)
{
    repo.revwalk()
}

/// Relies on git2::Revwalk::set_sorting: topological order, ties broken
/// by commit time, newest first.
#[verifier::external_body]
pub(crate) fn revwalk_sort_topo_time(walk: &mut git2::Revwalk<'_>) -> (r: Result<
    (),
    git2::Error,
>)
{
    walk.set_sorting(git2::Sort::TOPOLOGICAL | git2::Sort::TIME)
}

/// Relies on git2::Revwalk::set_sorting: commit-time order, oldest
/// first.
#[verifier::external_body]
pub(crate) fn revwalk_sort_time_reverse(walk: &mut git2::Revwalk<'_>) -> (r: Result<
    (),
    git2::Error,
>)
{
    walk.set_sorting(git2::Sort::TIME | git2::Sort::REVERSE)
}

/// Relies on git2::Revwalk::push_glob: roots the traversal at every
/// reference.
#[verifier::external_body]
pub(crate) fn revwalk_push_all(walk: &mut git2::Revwalk<'_>) -> (r: Result<(), git2::Error>)
{
    walk.push_glob("*")
}

/// Relies on git2::Revwalk::push: roots the traversal at one commit.
#[verifier::external_body]
pub(crate) fn revwalk_push_oid(walk: &mut git2::Revwalk<'_>, oid: &str) -> (r: Result<
    (),
    git2::Error,
>)
{
    walk.push(git2::Oid::from_str(oid)?)
}

/// Relies on git2::Revwalk::push_head: roots the traversal at the head
/// reference.
#[verifier::external_body]
pub(crate) fn revwalk_push_head(walk: &mut git2::Revwalk<'_>) -> (r: Result<(), git2::Error>)
{
    walk.push_head()
}

/// Relies on the Iterator impl of git2::Revwalk: the next visited
/// commit id, or None when the traversal is done.
#[verifier::external_body]
pub(crate) fn revwalk_next(walk: &mut git2::Revwalk<'_>) -> (r: Option<
    Result<String, git2::Error>,
>)
{
    walk.next().map(|o| o.map(|oid| oid.to_string()))
}

/// Relies on git2::Repository::find_commit and the accessors of
/// git2::Commit: the record carries the commit's id, signature, time,
/// message, parent ids and tree id as plain values.
#[verifier::external_body]
pub(crate) fn lookup_commit(repo: &git2::Repository, oid: &str) -> (r: Result<
    CommitRecord,
    git2::Error,
>)
{
    let c = repo.find_commit(git2::Oid::from_str(oid)?)?;
    let record = CommitRecord {
        oid: c.id().to_string(),
        author_name: c.author().name().ok().map(|s| s.to_string()),
        author_email: c.author().email().ok().map(|s| s.to_string()),
        timestamp: c.time().seconds(),
        message: c.message().ok().map(|s| s.to_string()),
        parents: c.parent_ids().map(|p| p.to_string()).collect(),
        tree_oid: c.tree_id().to_string(),
    };
    Ok(record)
}

/// Relies on the variants of git2::Delta: each handled variant is told
/// apart and moved to the library's kind; any other maps to Other.
#[verifier::external_body]
pub(crate) fn delta_kind(status: git2::Delta) -> (r: DeltaKind)
{
    match status {
        git2::Delta::Added => DeltaKind::Added,
        git2::Delta::Deleted => DeltaKind::Deleted,
        git2::Delta::Modified => DeltaKind::Modified,
        git2::Delta::Renamed => DeltaKind::Renamed,
        _ => DeltaKind::Other,
    }
}

/// Relies on git2::Repository::diff_tree_to_tree: the changed files
/// between two trees, each delta reduced to its kind and paths.
#[verifier::external_body]
pub(crate) fn diff_tree_oids(repo: &git2::Repository, old_tree: &str, new_tree: &str) -> (r:
    Result<Vec<DeltaRecord>, git2::Error>)
{
    let old_t = repo.find_tree(git2::Oid::from_str(old_tree)?)?;
    let new_t = repo.find_tree(git2::Oid::from_str(new_tree)?)?;
    let diff = repo.diff_tree_to_tree(Some(&old_t), Some(&new_t), None)?;
    Ok(diff.deltas().map(|d| DeltaRecord {
        kind: delta_kind(d.status()),
        old_path: d.old_file().path().and_then(|p| p.to_str()).unwrap_or("").to_string(),
        new_path: d.new_file().path().and_then(|p| p.to_str()).unwrap_or("").to_string(),
    }).collect())
}

/// Relies on git2::Repository::branches: the local branches, each as
/// its name and tip commit id.
#[verifier::external_body]
pub(crate) fn list_local_branches(repo: &git2::Repository) -> (r: Result<
    Vec<(String, String)>,
    git2::Error,
>)
{
    repo.branches(Some(git2::BranchType::Local))?.map(|b| b.map(|(br, _)| {
        (
            br.name().ok().flatten().unwrap_or("").to_string(),
            br.get().target().map(|o| o.to_string()).unwrap_or(String::new()),
        )
    })).collect::<Result<Vec<(String, String)>, git2::Error>>()
}

/// Relies on git2::Repository::find_branch and
/// git2::Reference::peel_to_commit: the tip commit id of a local
/// branch, or None where the name does not resolve to one.
#[verifier::external_body]
pub(crate) fn branch_tip(repo: &git2::Repository, name: &str) -> (r: Option<String>)
{
    repo.find_branch(name, git2::BranchType::Local).ok().and_then(|b|
        b.get().peel_to_commit().ok()
    ).map(|c| c.id().to_string())
}

/// Relies on git2::Repository::find_tag: the target commit id of a tag
/// object, or None where `oid` is no tag.
#[verifier::external_body]
pub(crate) fn tag_target(repo: &git2::Repository, oid: &str) -> (r: Option<String>)
{
    match git2::Oid::from_str(oid) {
        Ok(o) => repo.find_tag(o).ok().map(|t| t.target_id().to_string()),
        Err(_) => None,
    }
}

/// Relies on git2::Repository::find_commit: whether `oid` names a
/// commit object.
#[verifier::external_body]
pub(crate) fn commit_exists(repo: &git2::Repository, oid: &str) -> (r: Result<
    String,
    git2::Error,
>)
{
    let c = repo.find_commit(git2::Oid::from_str(oid)?)?;
    Ok(c.id().to_string())
}

/// Relies on git2::Repository::revparse_single: the object id that a
/// revision string resolves to.
#[verifier::external_body]
pub(crate) fn revparse_oid(repo: &git2::Repository, spec: &str) -> (r: Result<
    String,
    git2::Error,
>)
{
    Ok(repo.revparse_single(spec)?.id().to_string())
}

/// Relies on git2::Repository::find_reference and
/// git2::Reference::peel_to_commit: the commit a reference points to.
#[verifier::external_body]
pub(crate) fn reference_commit(repo: &git2::Repository, name: &str) -> (r: Result<
    String,
    git2::Error,
>)
{
    Ok(repo.find_reference(name)?.peel_to_commit()?.id().to_string())
}

/// Relies on git2::Repository::find_blob: the raw bytes of a blob.
#[verifier::external_body]
pub(crate) fn blob_content(repo: &git2::Repository, oid: &str) -> (r: Result<
    Vec<u8>,
    git2::Error,
>)
{
    Ok(repo.find_blob(git2::Oid::from_str(oid)?)?.content().to_vec())
}

/// Relies on git2::Tree::get_path: the entry under `path`, with whether
/// it is a blob.
#[verifier::external_body]
pub(crate) fn lookup_path(repo: &git2::Repository, tree_oid: &str, path: &str) -> (r: Result<
    PathEntry,
    git2::Error,
>)
{
    let tree = repo.find_tree(git2::Oid::from_str(tree_oid)?)?;
    let entry = tree.get_path(std::path::Path::new(path))?;
    Ok(PathEntry {
        oid: entry.id().to_string(),
        is_blob: entry.kind() == Some(git2::ObjectType::Blob),
    })
}

/// Relies on git2::Tree::iter: the entries of one tree level, in the
/// tree's own order, each as name, object id and whether it is a
/// subtree.
#[verifier::external_body]
pub(crate) fn read_tree_level(repo: &git2::Repository, tree_oid: &str) -> (r: Result<
    Vec<TreeEntryRecord>,
    git2::Error,
>)
{
    let tree = repo.find_tree(git2::Oid::from_str(tree_oid)?)?;
    Ok(tree.iter().map(|entry| TreeEntryRecord {
        name: entry.name().unwrap_or("").to_string(),
        oid: entry.id().to_string(),
        is_tree: entry.kind() == Some(git2::ObjectType::Tree),
    }).collect())
}

/// Relies on git2::Repository::blame_file with copy and rename
/// tracking across commits, within a commit and within a file; bounded
/// above by `newest`, and where `oldest` is given, restricted to
/// first-parent history down to it.
#[verifier::external_body]
pub(crate) fn blame_file<'a>(
    repo: &'a git2::Repository,
    path: &str,
    newest: &str,
    oldest: Option<&String>,
) -> (r: Result<git2::Blame<'a>, git2::Error>)
{
    let mut opts = git2::BlameOptions::new();
    opts.newest_commit(git2::Oid::from_str(newest)?)
        .track_copies_any_commit_copies(true)
        .track_copies_same_commit_copies(true)
        .track_copies_same_commit_moves(true)
        .track_copies_same_file(true);
    if let Some(o) = oldest {
        opts.first_parent(true).oldest_commit(git2::Oid::from_str(o)?);
    }
    repo.blame_file(std::path::Path::new(path), Some(&mut opts))
}

/// Relies on git2::Blame::get_line: the attribution of one 1-based
/// line, reduced to the blamed commit id and its signature.
#[verifier::external_body]
pub(crate) fn blame_line(blame: &git2::Blame<'_>, line: usize) -> (r: Option<LineAttribution>)
{
    blame.get_line(line).map(|hunk| match hunk.final_signature() {
        Some(sig) => LineAttribution {
            commit_id: hunk.final_commit_id().to_string(),
            author_name: String::from_utf8_lossy(sig.name_bytes()).to_string(),
            author_email: String::from_utf8_lossy(sig.email_bytes()).to_string(),
            timestamp: sig.when().seconds(),
        },
        None => LineAttribution {
            commit_id: hunk.final_commit_id().to_string(),
            author_name: String::new(),
            author_email: String::new(),
            timestamp: 0,
        },
    })
}

/// Relies on git2::Repository::head: the head's short name and the
/// commit it peels to.
#[verifier::external_body]
pub(crate) fn head_info(repo: &git2::Repository) -> (r: Result<(String, String), git2::Error>)
{
    let head = repo.head()?;
    let commit = head.peel_to_commit()?;
    Ok((head.shorthand().unwrap_or("").to_string(), commit.id().to_string()))
}

/// Relies on git2::Repository::remotes: the configured remote names.
#[verifier::external_body]
pub(crate) fn remote_names(repo: &git2::Repository) -> (r: Result<Vec<String>, git2::Error>)
{
    Ok(repo.remotes()?.iter().map(|n| n.ok().flatten().unwrap_or("").to_string()).collect())
}

/// Relies on git2::Repository::find_remote: the url of one remote.
#[verifier::external_body]
pub(crate) fn remote_url(repo: &git2::Repository, name: &str) -> (r: Result<
    String,
    git2::Error,
>)
{
    Ok(repo.find_remote(name)?.url().unwrap_or("").to_string())
}

/// Relies on git2::Repository::tag_names: the names of every tag.
#[verifier::external_body]
pub(crate) fn tag_names(repo: &git2::Repository) -> (r: Result<Vec<String>, git2::Error>)
{
    Ok(repo.tag_names(None)?.iter().map(|t| t.ok().flatten().unwrap_or("").to_string()).collect())
}

} // verus!
