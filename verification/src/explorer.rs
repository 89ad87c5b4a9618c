//! The request dispatcher.
//!
//! One `Explorer` owns the backend repository handle for a session and
//! resolves one request at a time.  Each handler returns the response
//! frames it produces, in order: zero or more data frames, then one
//! terminal frame — either a data frame marked as the end or an error
//! frame.  A shutdown request only sets the session flag; the loop
//! around the dispatcher stops before the next request.

use vstd::prelude::*;

use crate::authors::{Author, StreamAuthorsParams, spec_author_entry, tally_authors};
use crate::backend::{
    CommitRecord, blame_line, blob_content, branch_tip, commit_exists, diff_tree_oids, error_text,
    head_info, list_local_branches, lookup_commit, lookup_path, reference_commit, remote_names,
    remote_url, repo_open, revparse_oid, revwalk_new, revwalk_next, revwalk_push_all,
    revwalk_push_head, revwalk_push_oid, revwalk_sort_time_reverse, revwalk_sort_topo_time,
    stash_oids, tag_names, tag_target,
};
use crate::blame::{BlameParams, BlameResult, build_blame, file_name_of, spec_file_name, split_lines, wf_blame};
use crate::branches::{CommitsForBranch, GetCommitsForBranchParams};
use crate::commits::{
    Commit, CommitIds, CommitMeta, CommitRange, GetCommitParams, GetCommitsForTimeRangeParams,
    IsValidRevParams, StreamCommitsParams, assemble_commit, meta_of_record, select_stream_oids,
};
use crate::file_content::{GetFileContentParams, GetFileContentResult, encode_content};
use crate::graph::{
    CommitTree, build_history_graph, children_exact, render_graph_text, spec_graph_text, wf_graph,
};
use crate::range::{pick_in_time_range, resolve_time_range};
use crate::strutil::{clone_strings, utf8_lossy};
use crate::tree::{CustomValue, FileTreeNode, GetFileTreeParams, TreeItem, build_tree, tree_events};
use crate::utils::get_author_id;

verus! {

/// How deep a file tree may nest before the walk reports failure.
pub const MAX_TREE_DEPTH: u32 = 4096;

/// How many backend traversal steps a single request may take.
pub const WALK_BUDGET: u64 = 0xffff_ffff_ffff_ffff;

/// A request to open (or replace) the session's repository.
pub struct OpenRepositoryParams {
    pub path: String,
}

/// Whether opening succeeded.
pub struct OpenRepositoryResult {
    pub success: bool,
}

/// One configured remote.
pub struct Remote {
    pub name: String,
    pub url: String,
}

/// The session's opening snapshot: current branch, its last commit,
/// remotes, branch names and tag names.
pub struct InitialDataResult {
    pub current_branch: String,
    pub last_commit: Commit,
    pub remotes: Vec<Remote>,
    pub branches: Vec<String>,
    pub tags: Vec<String>,
}

/// The empty request payload.
pub struct NoParams {}

/// A ref-pair range query.
pub struct GetCommitIdsForRefsParams {
    pub start_ref: String,
    pub end_ref: String,
}

/// One request, already decoded from the wire.
pub enum Request {
    GetCommitsForTimeRange(GetCommitsForTimeRangeParams),
    OpenRepository(OpenRepositoryParams),
    StreamAuthors(StreamAuthorsParams),
    GetAuthors(NoParams),
    GetFileTree(GetFileTreeParams),
    StreamFileTree(GetFileTreeParams),
    GetBranchList(NoParams),
    GetGitGraph(NoParams),
    GetBlame(BlameParams),
    GetFileContent(GetFileContentParams),
    GetCommitsForBranch(GetCommitsForBranchParams),
    GetCommitIdsForRefs(GetCommitIdsForRefsParams),
    StreamCommits(StreamCommitsParams),
    Shutdown(NoParams),
    GetInitialData(NoParams),
    IsValidRev(IsValidRevParams),
    GetCommit(GetCommitParams),
}

/// An error frame: the failure's description.
pub struct ErrorResponse {
    pub error: String,
}

/// A data frame; `end` marks the last frame of a response.
pub struct DataResponse<T> {
    pub data: T,
    pub end: bool,
}

/// What a data frame can carry.
pub enum ResponseData {
    OpenRepository(OpenRepositoryResult),
    InitialData(InitialDataResult),
    Branches(Vec<String>),
    CommitsForBranch(CommitsForBranch),
    GitGraph(CommitTree),
    Commit(Commit),
    Bool(bool),
    CommitRange(CommitRange),
    FileTree(Vec<TreeItem>),
    FileTreeNode(FileTreeNode),
    FileContent(GetFileContentResult),
    Blame(BlameResult),
    Author(Author),
    Authors(Vec<Author>),
    Text(String),
    Unit,
}

/// One response frame.
pub enum Response {
    Error(ErrorResponse),
    Data(DataResponse<ResponseData>),
}

/// Whether a frame may stand last in a response: an error, or a data
/// frame marked as the end.
pub open spec fn is_end_frame(r: Response) -> bool {
    match r {
        Response::Error(_) => true,
        Response::Data(d) => d.end,
    }
}

/// The shape of a finished response: at least one frame, every frame
/// before the last a data frame not marked as the end, and the last an
/// end-marked data frame or an error frame.
pub open spec fn wf_stream(frames: Seq<Response>) -> bool {
    &&& frames.len() >= 1
    &&& forall|i: int|
        0 <= i < frames.len() - 1 ==> ((#[trigger] frames[i]) matches Response::Data(d) && !d.end)
    &&& is_end_frame(frames.last())
}

/// Whether the response is exactly one frame: an error frame, or one
/// end-marked data frame whose payload satisfies `ok`.
pub open spec fn single_shot_frames(
    frames: Seq<Response>,
    ok: spec_fn(ResponseData) -> bool,
) -> bool {
    &&& frames.len() == 1
    &&& match frames[0] {
        Response::Error(_) => true,
        Response::Data(d) => d.end && ok(d.data),
    }
}

/// Whether the response is a stream: every frame before the last a
/// non-end data frame whose payload satisfies `item_ok`, the last
/// either an error frame or an end-marked data frame whose payload
/// satisfies `end_ok`.
pub open spec fn stream_shape(
    frames: Seq<Response>,
    item_ok: spec_fn(ResponseData) -> bool,
    end_ok: spec_fn(ResponseData) -> bool,
) -> bool {
    &&& frames.len() >= 1
    &&& forall|i: int|
        0 <= i < frames.len() - 1 ==> ((#[trigger] frames[i]) matches Response::Data(d) && !d.end
            && item_ok(d.data))
    &&& match frames.last() {
        Response::Error(_) => true,
        Response::Data(d) => d.end && end_ok(d.data),
    }
}

fn data_frame(data: ResponseData, end: bool) -> (r: Response)
    ensures
        r == Response::Data(DataResponse { data, end }),
{
    Response::Data(DataResponse { data, end })
}

fn error_frame(message: String) -> (r: Response)
    ensures
        r == Response::Error(ErrorResponse { error: message }),
{
    Response::Error(ErrorResponse { error: message })
}

fn one_frame(frame: Response) -> (r: Vec<Response>)
    requires
        is_end_frame(frame),
    ensures
        wf_stream(r@),
        r@.len() == 1,
        r@[0] == frame,
{
    let mut r: Vec<Response> = Vec::new();
    r.push(frame);
    r
}

fn no_repo_frames() -> (r: Vec<Response>)
    ensures
        wf_stream(r@),
        r@.len() == 1,
        r@[0] matches Response::Error(_),
{
    one_frame(error_frame(String::from_str("no repository open")))
}

/// The walked commits as (id, timestamp) pairs, in walk order.
fn pairs_of_records(records: &Vec<CommitRecord>) -> (pairs: Vec<(String, i64)>)
    ensures
        pairs@.len() == records@.len(),
        forall|i: int|
            0 <= i < records@.len() ==> (#[trigger] pairs@[i]).0@ == records@[i].oid@
                && pairs@[i].1 == records@[i].timestamp,
{
    let mut pairs: Vec<(String, i64)> = Vec::new();
    let mut i: usize = 0;
    while i < records.len()
        invariant
            i <= records@.len(),
            pairs@.len() == i,
            forall|m: int|
                0 <= m < i ==> (#[trigger] pairs@[m]).0@ == records@[m].oid@ && pairs@[m].1
                    == records@[m].timestamp,
        decreases records@.len() - i,
    {
        pairs.push((records[i].oid.clone(), records[i].timestamp));
        i = i + 1;
    }
    pairs
}

/// Collects the records of one traversal.  Walk errors on single
/// commits are skipped, as the backend reports them per entry.
fn collect_records(
    repo: &git2::Repository,
    walk: &mut git2::Revwalk<'_>,
) -> (r: Result<Vec<CommitRecord>, git2::Error>)
{
    let mut records: Vec<CommitRecord> = Vec::new();
    let mut budget: u64 = WALK_BUDGET;
    while budget > 0
        decreases budget,
    {
        budget = budget - 1;
        match revwalk_next(walk) {
            None => {
                return Ok(records);
            },
            Some(next) => {
                match next {
                    Ok(oid) => {
                        match lookup_commit(repo, oid.as_str()) {
                            Ok(rec) => {
                                records.push(rec);
                            },
                            Err(e) => {
                                return Err(e);
                            },
                        }
                    },
                    Err(_) => {},
                }
            },
        }
    }
    Ok(records)
}

fn collect_all_records(repo: &git2::Repository) -> (r: Result<Vec<CommitRecord>, git2::Error>)
{
    let mut walk = match revwalk_new(repo) {
        Ok(w) => w,
        Err(e) => {
            return Err(e);
        },
    };
    match revwalk_sort_topo_time(&mut walk) {
        Ok(_) => {},
        Err(e) => {
            return Err(e);
        },
    }
    match revwalk_push_all(&mut walk) {
        Ok(_) => {},
        Err(e) => {
            return Err(e);
        },
    }
    collect_records(repo, &mut walk)
}

fn collect_records_from(repo: &git2::Repository, oid: &str) -> (r: Result<
    Vec<CommitRecord>,
    git2::Error,
>)
{
    let mut walk = match revwalk_new(repo) {
        Ok(w) => w,
        Err(e) => {
            return Err(e);
        },
    };
    match revwalk_sort_topo_time(&mut walk) {
        Ok(_) => {},
        Err(e) => {
            return Err(e);
        },
    }
    match revwalk_push_oid(&mut walk, oid) {
        Ok(_) => {},
        Err(e) => {
            return Err(e);
        },
    }
    collect_records(repo, &mut walk)
}

fn collect_head_records_oldest_first(repo: &git2::Repository) -> (r: Result<
    Vec<CommitRecord>,
    git2::Error,
>)
{
    let mut walk = match revwalk_new(repo) {
        Ok(w) => w,
        Err(e) => {
            return Err(e);
        },
    };
    match revwalk_sort_time_reverse(&mut walk) {
        Ok(_) => {},
        Err(e) => {
            return Err(e);
        },
    }
    match revwalk_push_head(&mut walk) {
        Ok(_) => {},
        Err(e) => {
            return Err(e);
        },
    }
    collect_records(repo, &mut walk)
}

/// The session state: the open repository, if any, and the shutdown
/// flag that ends the protocol loop between requests.
pub struct Explorer {
    pub repo: Option<git2::Repository>,
    pub shutdown: bool,
}

impl Explorer {
    /// A fresh session: no repository open, not shutting down.
    pub fn new() -> (e: Explorer)
        ensures
            e.repo is None,
            !e.shutdown,
    {
        Explorer { repo: None, shutdown: false }
    }

    /// Replaces the session's repository handle.
    pub fn set_repo(&mut self, repo: git2::Repository)
        ensures
            final(self).repo is Some,
            final(self).shutdown == old(self).shutdown,
    {
        self.repo = Some(repo);
    }

    /// Opens the repository at the requested path.  On failure the
    /// session keeps its previous repository and stays usable.
    pub fn cmd_open_repository(&mut self, params: &OpenRepositoryParams) -> (r: Vec<Response>)
        ensures
            wf_stream(r@),
            r@.len() == 1,
            final(self).shutdown == old(self).shutdown,
            r@[0] matches Response::Error(_) ==> final(self).repo == old(self).repo,
            !(r@[0] matches Response::Error(_)) ==> final(self).repo is Some && r@[0]
                == Response::Data(
                DataResponse {
                    data: ResponseData::OpenRepository(OpenRepositoryResult { success: true }),
                    end: true,
                },
            ),
    {
        match repo_open(params.path.as_str()) {
            Ok(repo) => {
                self.repo = Some(repo);
                one_frame(
                    data_frame(
                        ResponseData::OpenRepository(OpenRepositoryResult { success: true }),
                        true,
                    ),
                )
            },
            Err(e) => one_frame(error_frame(error_text(&e))),
        }
    }

    /// Resolves a revision string: a tag's target first, then a local
    /// branch's tip, then the commit the string itself names.
    pub fn get_commit_oid_from_rev(&self, rev: &str) -> (r: Result<String, String>)
        ensures
            self.repo is None ==> r is Err,
    {
        let repo = match &self.repo {
            Some(r) => r,
            None => {
                return Err(String::from_str("no repository open"));
            },
        };
        let oid = match revparse_oid(repo, rev) {
            Ok(o) => o,
            Err(e) => {
                return Err(error_text(&e));
            },
        };
        match tag_target(repo, oid.as_str()) {
            Some(target) => {
                return Ok(target);
            },
            None => {},
        }
        match branch_tip(repo, rev) {
            Some(tip) => {
                return Ok(tip);
            },
            None => {},
        }
        match commit_exists(repo, oid.as_str()) {
            Ok(o) => Ok(o),
            Err(e) => Err(error_text(&e)),
        }
    }

    /// The metadata of the commit a revision resolves to.
    pub fn get_commit_metadata(&self, rev: &str) -> (r: Result<CommitMeta, String>)
        ensures
            self.repo is None ==> r is Err,
    {
        let repo = match &self.repo {
            Some(r) => r,
            None => {
                return Err(String::from_str("no repository open"));
            },
        };
        let oid = match self.get_commit_oid_from_rev(rev) {
            Ok(o) => o,
            Err(e) => {
                return Err(e);
            },
        };
        match lookup_commit(repo, oid.as_str()) {
            Ok(rec) => Ok(meta_of_record(&rec)),
            Err(e) => Err(error_text(&e)),
        }
    }

    /// The commit a revision resolves to, with the files it changed
    /// relative to each of its parents.
    pub fn get_commit(&self, rev: &str) -> (r: Result<Commit, String>)
        ensures
            self.repo is None ==> r is Err,
    {
        let repo = match &self.repo {
            Some(r) => r,
            None => {
                return Err(String::from_str("no repository open"));
            },
        };
        let oid = match self.get_commit_oid_from_rev(rev) {
            Ok(o) => o,
            Err(e) => {
                return Err(e);
            },
        };
        let rec = match lookup_commit(repo, oid.as_str()) {
            Ok(rec) => rec,
            Err(e) => {
                return Err(error_text(&e));
            },
        };
        let mut diffs: Vec<Vec<crate::backend::DeltaRecord>> = Vec::new();
        let mut p: usize = 0;
        while p < rec.parents.len()
            decreases rec.parents@.len() - p,
        {
            let parent = match lookup_commit(repo, rec.parents[p].as_str()) {
                Ok(pr) => pr,
                Err(e) => {
                    return Err(error_text(&e));
                },
            };
            let deltas = match diff_tree_oids(
                repo,
                parent.tree_oid.as_str(),
                rec.tree_oid.as_str(),
            ) {
                Ok(d) => d,
                Err(e) => {
                    return Err(error_text(&e));
                },
            };
            diffs.push(deltas);
            p = p + 1;
        }
        Ok(assemble_commit(&rec, &diffs))
    }

    /// One commit's detail, as a single frame.
    pub fn cmd_get_commit(&self, params: &GetCommitParams) -> (r: Vec<Response>)
        ensures
            wf_stream(r@),
            single_shot_frames(r@, (|d: ResponseData| d is Commit)),
            self.repo is None ==> r@[0] matches Response::Error(_),
    {
        match self.get_commit(params.rev.as_str()) {
            Ok(commit) => one_frame(data_frame(ResponseData::Commit(commit), true)),
            Err(e) => one_frame(error_frame(e)),
        }
    }

    /// Whether a revision string resolves to any object.
    pub fn cmd_is_valid_rev(&self, params: &IsValidRevParams) -> (r: Vec<Response>)
        ensures
            wf_stream(r@),
            single_shot_frames(r@, (|d: ResponseData| d is Bool)),
            self.repo is None ==> r@[0] matches Response::Error(_),
            self.repo is Some ==> (r@[0] matches Response::Data(d) && d.end && d.data is Bool),
    {
        let repo = match &self.repo {
            Some(r) => r,
            None => {
                return no_repo_frames();
            },
        };
        let valid = match revparse_oid(repo, params.rev.as_str()) {
            Ok(_) => true,
            Err(_) => false,
        };
        one_frame(data_frame(ResponseData::Bool(valid), true))
    }

    /// The since/until commit ids bounding a time range on a branch's
    /// history, where the walk determines them.
    pub fn find_commit_ids_for_time_range(
        &self,
        rev: &str,
        start_seconds: i64,
        end_seconds: i64,
    ) -> (r: (Option<String>, Option<String>))
        ensures
            self.repo is None ==> r.0 is None && r.1 is None,
    {
        let repo = match &self.repo {
            Some(r) => r,
            None => {
                return (None, None);
            },
        };
        let oid = match self.get_commit_oid_from_rev(rev) {
            Ok(o) => o,
            Err(_) => {
                return (None, None);
            },
        };
        let records = match collect_records_from(repo, oid.as_str()) {
            Ok(r) => r,
            Err(_) => {
                return (None, None);
            },
        };
        let pairs = pairs_of_records(&records);
        resolve_time_range(&pairs, start_seconds, end_seconds)
    }

    /// The resolved time range, as a single frame carrying both bound
    /// commits.
    pub fn cmd_get_commits_for_time_range(&self, params: &GetCommitsForTimeRangeParams) -> (r: Vec<
        Response,
    >)
        ensures
            wf_stream(r@),
            single_shot_frames(r@, (|d: ResponseData| d is CommitRange)),
            self.repo is None ==> r@[0] matches Response::Error(_),
    {
        let (start_id, end_id) = self.find_commit_ids_for_time_range(
            params.branch.as_str(),
            params.start_seconds,
            params.end_seconds,
        );
        let start_id = match start_id {
            Some(s) => s,
            None => {
                return one_frame(
                    error_frame(
                        String::from_str("Failed to find commit ids for time range"),
                    ),
                );
            },
        };
        let end_id = match end_id {
            Some(s) => s,
            None => {
                return one_frame(
                    error_frame(
                        String::from_str("Failed to find commit ids for time range"),
                    ),
                );
            },
        };
        let since_commit = match self.get_commit(start_id.as_str()) {
            Ok(c) => c,
            Err(e) => {
                return one_frame(error_frame(e));
            },
        };
        let until_commit = match self.get_commit(end_id.as_str()) {
            Ok(c) => c,
            Err(e) => {
                return one_frame(error_frame(e));
            },
        };
        one_frame(
            data_frame(
                ResponseData::CommitRange(CommitRange { since_commit, until_commit }),
                true,
            ),
        )
    }

    /// The commits two references point to, dereferenced directly; no
    /// ordering or ancestry check between them.
    pub fn find_commit_ids_for_refs(&self, start_ref: String, end_ref: String) -> (r: (
        Option<String>,
        Option<String>,
    ))
        ensures
            self.repo is None ==> r.0 is None && r.1 is None,
    {
        let repo = match &self.repo {
            Some(r) => r,
            None => {
                return (None, None);
            },
        };
        let start = match reference_commit(repo, start_ref.as_str()) {
            Ok(o) => Some(o),
            Err(_) => None,
        };
        let end = match reference_commit(repo, end_ref.as_str()) {
            Ok(o) => Some(o),
            Err(_) => None,
        };
        (start, end)
    }

    /// The ref-pair range, as a single frame carrying both commits.
    pub fn cmd_get_commit_ids_for_refs(&self, params: &GetCommitIdsForRefsParams) -> (r: Vec<
        Response,
    >)
        ensures
            wf_stream(r@),
            single_shot_frames(r@, (|d: ResponseData| d is CommitRange)),
            self.repo is None ==> r@[0] matches Response::Error(_),
    {
        let (start_id, end_id) = self.find_commit_ids_for_refs(
            params.start_ref.clone(),
            params.end_ref.clone(),
        );
        let start_id = match start_id {
            Some(s) => s,
            None => {
                return one_frame(error_frame(String::from_str("Failed to find start ref")));
            },
        };
        let end_id = match end_id {
            Some(s) => s,
            None => {
                return one_frame(error_frame(String::from_str("Failed to find end ref")));
            },
        };
        let since_commit = match self.get_commit(start_id.as_str()) {
            Ok(c) => c,
            Err(e) => {
                return one_frame(error_frame(e));
            },
        };
        let until_commit = match self.get_commit(end_id.as_str()) {
            Ok(c) => c,
            Err(e) => {
                return one_frame(error_frame(e));
            },
        };
        one_frame(
            data_frame(
                ResponseData::CommitRange(CommitRange { since_commit, until_commit }),
                true,
            ),
        )
    }

    /// The first commit of a branch's walk whose timestamp lies inside
    /// the closed range.
    pub fn pick_last_commit_by_time(
        &self,
        branch: &str,
        start_seconds: i64,
        end_seconds: i64,
    ) -> (r: Option<String>)
        ensures
            self.repo is None ==> r is None,
    {
        let repo = match &self.repo {
            Some(r) => r,
            None => {
                return None;
            },
        };
        let tip = match branch_tip(repo, branch) {
            Some(t) => t,
            None => {
                return None;
            },
        };
        let records = match collect_records_from(repo, tip.as_str()) {
            Ok(r) => r,
            Err(_) => {
                return None;
            },
        };
        let pairs = pairs_of_records(&records);
        pick_in_time_range(&pairs, start_seconds, end_seconds)
    }

    /// Streams every non-stash commit across all refs, one frame per
    /// commit with its changed files, then a terminal frame.
    pub fn stream_commits(&mut self) -> (r: Vec<Response>)
        ensures
            wf_stream(r@),
            final(self).shutdown == old(self).shutdown,
            final(self).repo == old(self).repo,
            stream_shape(r@, (|d: ResponseData| d is Commit), (|d: ResponseData| d is Unit)),
            old(self).repo is None ==> r@.len() == 1 && r@[0] matches Response::Error(_),
    {
        let stashes_result = match &mut self.repo {
            Some(r) => Some(stash_oids(r)),
            None => None,
        };
        let stashes = match stashes_result {
            None => {
                return no_repo_frames();
            },
            Some(Ok(s)) => s,
            Some(Err(e)) => {
                return one_frame(error_frame(error_text(&e)));
            },
        };
        proof {
            assert(self.repo == old(self).repo);
        }
        let repo = match &self.repo {
            Some(r) => r,
            None => {
                return no_repo_frames();
            },
        };
        let records = match collect_all_records(repo) {
            Ok(r) => r,
            Err(e) => {
                return one_frame(error_frame(error_text(&e)));
            },
        };
        let oids = select_stream_oids(&records, &stashes);
        let mut frames: Vec<Response> = Vec::new();
        let mut i: usize = 0;
        while i < oids.len()
            invariant
                self.repo == old(self).repo,
                self.shutdown == old(self).shutdown,
                self.repo is Some,
                forall|m: int|
                    0 <= m < frames@.len() ==> ((#[trigger] frames@[m]) matches Response::Data(d)
                        && !d.end && d.data is Commit),
            decreases oids@.len() - i,
        {
            match self.get_commit(oids[i].as_str()) {
                Ok(commit) => {
                    frames.push(data_frame(ResponseData::Commit(commit), false));
                },
                Err(e) => {
                    frames.push(error_frame(e));
                    return frames;
                },
            }
            i = i + 1;
        }
        frames.push(data_frame(ResponseData::Unit, true));
        frames
    }

    /// The commit stream, as the protocol loop routes it.
    pub fn cmd_stream_commits(&mut self) -> (r: Vec<Response>)
        ensures
            wf_stream(r@),
            final(self).shutdown == old(self).shutdown,
            final(self).repo == old(self).repo,
            stream_shape(r@, (|d: ResponseData| d is Commit), (|d: ResponseData| d is Unit)),
            old(self).repo is None ==> r@.len() == 1 && r@[0] matches Response::Error(_),
    {
        self.stream_commits()
    }

    /// The distinct authors reachable from head, one frame per visited
    /// eligible commit (its author's running state), then a terminal
    /// frame.
    pub fn cmd_stream_authors(&self) -> (r: Vec<Response>)
        ensures
            wf_stream(r@),
            stream_shape(
                r@,
                (|d: ResponseData| d matches ResponseData::Author(a) && spec_author_entry(a)),
                (|d: ResponseData| d is Unit),
            ),
            r@.last() matches Response::Error(_) ==> r@.len() == 1,
            self.repo is None ==> r@[0] matches Response::Error(_),
    {
        let repo = match &self.repo {
            Some(r) => r,
            None => {
                return no_repo_frames();
            },
        };
        let records = match collect_head_records_oldest_first(repo) {
            Ok(r) => r,
            Err(e) => {
                return one_frame(error_frame(error_text(&e)));
            },
        };
        let mut frames = stream_author_frames(&records);
        frames.push(data_frame(ResponseData::Unit, true));
        frames
    }

    /// The distinct authors reachable from head with their commit
    /// counts, as a single frame.
    pub fn cmd_get_authors(&self) -> (r: Vec<Response>)
        ensures
            wf_stream(r@),
            single_shot_frames(r@, (|d: ResponseData| d is Authors)),
            self.repo is None ==> r@[0] matches Response::Error(_),
    {
        let repo = match &self.repo {
            Some(r) => r,
            None => {
                return no_repo_frames();
            },
        };
        let records = match collect_head_records_oldest_first(repo) {
            Ok(r) => r,
            Err(e) => {
                return one_frame(error_frame(error_text(&e)));
            },
        };
        let authors = tally_authors(&records);
        one_frame(data_frame(ResponseData::Authors(authors), true))
    }

    /// The names of the local branches.
    pub fn get_branches(&self) -> (r: Result<Vec<String>, String>)
        ensures
            self.repo is None ==> r is Err,
    {
        let repo = match &self.repo {
            Some(r) => r,
            None => {
                return Err(String::from_str("no repository open"));
            },
        };
        let branches = match list_local_branches(repo) {
            Ok(b) => b,
            Err(e) => {
                return Err(error_text(&e));
            },
        };
        let mut names: Vec<String> = Vec::new();
        let mut i: usize = 0;
        while i < branches.len()
            decreases branches@.len() - i,
        {
            names.push(branches[i].0.clone());
            i = i + 1;
        }
        Ok(names)
    }

    /// The branch list, as a single frame.
    pub fn cmd_get_branches(&self) -> (r: Vec<Response>)
        ensures
            wf_stream(r@),
            single_shot_frames(r@, (|d: ResponseData| d is Branches)),
            self.repo is None ==> r@[0] matches Response::Error(_),
    {
        match self.get_branches() {
            Ok(branches) => one_frame(data_frame(ResponseData::Branches(branches), true)),
            Err(e) => one_frame(error_frame(e)),
        }
    }

    /// The first and last commit of a branch's history.
    pub fn get_commits_for_branch(&self, params: &GetCommitsForBranchParams) -> (r: Result<
        CommitsForBranch,
        String,
    >)
        ensures
            self.repo is None ==> r is Err,
    {
        let repo = match &self.repo {
            Some(r) => r,
            None => {
                return Err(String::from_str("no repository open"));
            },
        };
        let end_commit = match branch_tip(repo, params.branch.as_str()) {
            Some(t) => t,
            None => {
                return Err(String::from_str("branch not found"));
            },
        };
        let mut walk = match revwalk_new(repo) {
            Ok(w) => w,
            Err(e) => {
                return Err(error_text(&e));
            },
        };
        match revwalk_push_oid(&mut walk, end_commit.as_str()) {
            Ok(_) => {},
            Err(e) => {
                return Err(error_text(&e));
            },
        }
        match revwalk_sort_time_reverse(&mut walk) {
            Ok(_) => {},
            Err(e) => {
                return Err(error_text(&e));
            },
        }
        let start_commit = match revwalk_next(&mut walk) {
            Some(next) => match next {
                Ok(oid) => oid,
                Err(e) => {
                    return Err(error_text(&e));
                },
            },
            None => {
                return Err(String::from_str("branch has no commits"));
            },
        };
        Ok(CommitsForBranch { start_commit, end_commit })
    }

    /// The branch range, as a single frame.
    pub fn cmd_get_commits_for_branch(&self, params: &GetCommitsForBranchParams) -> (r: Vec<
        Response,
    >)
        ensures
            wf_stream(r@),
            single_shot_frames(r@, (|d: ResponseData| d is CommitsForBranch)),
            self.repo is None ==> r@[0] matches Response::Error(_),
    {
        match self.get_commits_for_branch(params) {
            Ok(range) => one_frame(data_frame(ResponseData::CommitsForBranch(range), true)),
            Err(e) => one_frame(error_frame(e)),
        }
    }

    /// The nested file tree at a revision, as a single frame.
    pub fn get_file_tree(&self, params: &GetFileTreeParams) -> (r: Vec<Response>)
        ensures
            wf_stream(r@),
            single_shot_frames(r@, (|d: ResponseData| d is FileTree)),
            self.repo is None ==> r@[0] matches Response::Error(_),
    {
        let repo = match &self.repo {
            Some(r) => r,
            None => {
                return no_repo_frames();
            },
        };
        let oid = match self.get_commit_oid_from_rev(params.rev.as_str()) {
            Ok(o) => o,
            Err(e) => {
                return one_frame(error_frame(e));
            },
        };
        let rec = match lookup_commit(repo, oid.as_str()) {
            Ok(r) => r,
            Err(e) => {
                return one_frame(error_frame(error_text(&e)));
            },
        };
        match build_tree(repo, rec.tree_oid.as_str(), MAX_TREE_DEPTH) {
            Ok(items) => one_frame(data_frame(ResponseData::FileTree(items), true)),
            Err(e) => one_frame(error_frame(e)),
        }
    }

    /// The file tree at a revision as an event stream: one frame per
    /// traversal event, then a terminal frame.
    pub fn stream_file_tree(&self, params: &GetFileTreeParams) -> (r: Vec<Response>)
        ensures
            wf_stream(r@),
            stream_shape(
                r@,
                (|d: ResponseData| d is FileTreeNode),
                (|d: ResponseData| d is Text),
            ),
            r@.last() matches Response::Error(_) ==> r@.len() == 1,
            self.repo is None ==> r@[0] matches Response::Error(_),
    {
        let repo = match &self.repo {
            Some(r) => r,
            None => {
                return no_repo_frames();
            },
        };
        let oid = match self.get_commit_oid_from_rev(params.rev.as_str()) {
            Ok(o) => o,
            Err(e) => {
                return one_frame(error_frame(e));
            },
        };
        let rec = match lookup_commit(repo, oid.as_str()) {
            Ok(r) => r,
            Err(e) => {
                return one_frame(error_frame(error_text(&e)));
            },
        };
        let items = match build_tree(repo, rec.tree_oid.as_str(), MAX_TREE_DEPTH) {
            Ok(items) => items,
            Err(e) => {
                return one_frame(error_frame(e));
            },
        };
        let root: Vec<String> = Vec::new();
        let events = tree_events(&items, &root, MAX_TREE_DEPTH);
        let mut frames: Vec<Response> = Vec::new();
        let mut i: usize = 0;
        while i < events.len()
            invariant
                forall|m: int|
                    0 <= m < frames@.len() ==> ((#[trigger] frames@[m]) matches Response::Data(d)
                        && !d.end && d.data is FileTreeNode),
            decreases events@.len() - i,
        {
            frames.push(data_frame(ResponseData::FileTreeNode(clone_node(&events[i])), false));
            i = i + 1;
        }
        frames.push(data_frame(ResponseData::Text(String::new()), true));
        frames
    }

    /// The raw content of a file at a revision, as a single frame.
    pub fn get_file_content(&self, params: &GetFileContentParams) -> (r: Vec<Response>)
        ensures
            wf_stream(r@),
            single_shot_frames(r@, (|d: ResponseData| d is FileContent)),
            self.repo is None ==> r@[0] matches Response::Error(_),
    {
        let repo = match &self.repo {
            Some(r) => r,
            None => {
                return no_repo_frames();
            },
        };
        let oid = match revparse_oid(repo, params.rev.as_str()) {
            Ok(o) => o,
            Err(e) => {
                return one_frame(error_frame(error_text(&e)));
            },
        };
        let rec = match lookup_commit(repo, oid.as_str()) {
            Ok(r) => r,
            Err(e) => {
                return one_frame(error_frame(error_text(&e)));
            },
        };
        let entry = match lookup_path(repo, rec.tree_oid.as_str(), params.path.as_str()) {
            Ok(en) => en,
            Err(e) => {
                return one_frame(error_frame(error_text(&e)));
            },
        };
        if !entry.is_blob {
            return one_frame(
                data_frame(
                    ResponseData::FileContent(
                        GetFileContentResult {
                            content: String::new(),
                            encoding: String::from_str("none"),
                        },
                    ),
                    true,
                ),
            );
        }
        let bytes = match blob_content(repo, entry.oid.as_str()) {
            Ok(b) => b,
            Err(e) => {
                return one_frame(error_frame(error_text(&e)));
            },
        };
        let content = encode_content(&bytes, params.path.as_str());
        one_frame(data_frame(ResponseData::FileContent(content), true))
    }

    /// Per-line attribution of one file, bounded above by the range's
    /// end commit; in preview mode restricted to first-parent history
    /// below that commit.
    pub fn blame(&self, params: &BlameParams) -> (r: Result<BlameResult, String>)
        ensures
            r matches Ok(b) ==> wf_blame(b) && b.file_name@ == spec_file_name(params.path@),
            self.repo is None ==> r is Err,
    {
        let repo = match &self.repo {
            Some(r) => r,
            None => {
                return Err(String::from_str("no repository open"));
            },
        };
        let file_name = file_name_of(params.path.as_str());
        let rec = match lookup_commit(repo, params.range.end_id.as_str()) {
            Ok(r) => r,
            Err(e) => {
                return Err(error_text(&e));
            },
        };
        let preview = match params.preview {
            Some(true) => true,
            _ => false,
        };
        let oldest: Option<&String> = if preview {
            if rec.parents.len() == 0 {
                return Err(String::from_str("commit has no parent to preview against"));
            }
            Some(&rec.parents[0])
        } else {
            None
        };
        let blame = match crate::backend::blame_file(
            repo,
            params.path.as_str(),
            rec.oid.as_str(),
            oldest,
        ) {
            Ok(b) => b,
            Err(e) => {
                return Err(error_text(&e));
            },
        };
        let entry = match lookup_path(repo, rec.tree_oid.as_str(), params.path.as_str()) {
            Ok(en) => en,
            Err(e) => {
                return Err(error_text(&e));
            },
        };
        let bytes = match blob_content(repo, entry.oid.as_str()) {
            Ok(b) => b,
            Err(e) => {
                return Err(error_text(&e));
            },
        };
        let raw_lines = split_lines(&bytes);
        let mut contents: Vec<String> = Vec::new();
        let mut attrs: Vec<crate::backend::LineAttribution> = Vec::new();
        let mut i: usize = 0;
        if raw_lines.len() == usize::MAX {
            return Err(String::from_str("file too large to blame"));
        }
        while i < raw_lines.len()
            invariant
                contents@.len() == attrs@.len(),
                contents@.len() == i,
                i <= raw_lines@.len() < usize::MAX,
            decreases raw_lines@.len() - i,
        {
            let attr = match blame_line(&blame, i + 1) {
                Some(a) => a,
                None => {
                    return Err(String::from_str("missing blame attribution for a line"));
                },
            };
            contents.push(utf8_lossy(&raw_lines[i]));
            attrs.push(attr);
            i = i + 1;
        }
        Ok(build_blame(file_name, &contents, &attrs))
    }

    /// The blame result, as a single frame.
    pub fn cmd_get_blame(&self, params: &BlameParams) -> (r: Vec<Response>)
        ensures
            wf_stream(r@),
            single_shot_frames(
                r@,
                (|d: ResponseData| d matches ResponseData::Blame(b) && wf_blame(b)),
            ),
            self.repo is None ==> r@[0] matches Response::Error(_),
    {
        match self.blame(params) {
            Ok(b) => one_frame(data_frame(ResponseData::Blame(b), true)),
            Err(e) => one_frame(error_frame(e)),
        }
    }

    /// The full history graph and its textual rendering, as a single
    /// frame.  The delivered graph is well formed, and its child links
    /// are exactly the inverse of its kept parent links.
    pub fn cmd_get_git_graph(&mut self) -> (r: Vec<Response>)
        ensures
            wf_stream(r@),
            final(self).shutdown == old(self).shutdown,
            final(self).repo == old(self).repo,
            single_shot_frames(
                r@,
                (|d: ResponseData|
                    d matches ResponseData::GitGraph(ct) && wf_graph(ct.graph) && children_exact(
                        ct.graph.commits@,
                    ) && ct.dot@ == spec_graph_text(ct.graph.commits@)),
            ),
            old(self).repo is None ==> r@[0] matches Response::Error(_),
    {
        let stashes_result = match &mut self.repo {
            Some(r) => Some(stash_oids(r)),
            None => None,
        };
        let stashes = match stashes_result {
            None => {
                return no_repo_frames();
            },
            Some(Ok(s)) => s,
            Some(Err(e)) => {
                return one_frame(error_frame(error_text(&e)));
            },
        };
        proof {
            assert(self.repo == old(self).repo);
        }
        let repo = match &self.repo {
            Some(r) => r,
            None => {
                return no_repo_frames();
            },
        };
        let records = match collect_all_records(repo) {
            Ok(r) => r,
            Err(e) => {
                return one_frame(error_frame(error_text(&e)));
            },
        };
        let tips = match list_local_branches(repo) {
            Ok(t) => t,
            Err(e) => {
                return one_frame(error_frame(error_text(&e)));
            },
        };
        let graph = match build_history_graph(&records, &stashes, &tips) {
            Ok(g) => g,
            Err(e) => {
                return one_frame(error_frame(e));
            },
        };
        let dot = render_graph_text(&graph.commits);
        one_frame(data_frame(ResponseData::GitGraph(CommitTree { graph, dot }), true))
    }

    /// The session's opening snapshot, as a single frame.
    pub fn cmd_get_initial_data(&self) -> (r: Vec<Response>)
        ensures
            wf_stream(r@),
            single_shot_frames(r@, (|d: ResponseData| d is InitialData)),
            self.repo is None ==> r@[0] matches Response::Error(_),
    {
        let repo = match &self.repo {
            Some(r) => r,
            None => {
                return no_repo_frames();
            },
        };
        let (current_branch, head_oid) = match head_info(repo) {
            Ok(h) => h,
            Err(e) => {
                return one_frame(error_frame(error_text(&e)));
            },
        };
        let names = match remote_names(repo) {
            Ok(n) => n,
            Err(e) => {
                return one_frame(error_frame(error_text(&e)));
            },
        };
        let mut remotes: Vec<Remote> = Vec::new();
        let mut i: usize = 0;
        while i < names.len()
            decreases names@.len() - i,
        {
            let url = match remote_url(repo, names[i].as_str()) {
                Ok(u) => u,
                Err(e) => {
                    return one_frame(error_frame(error_text(&e)));
                },
            };
            remotes.push(Remote { name: names[i].clone(), url });
            i = i + 1;
        }
        let tags = match tag_names(repo) {
            Ok(t) => t,
            Err(e) => {
                return one_frame(error_frame(error_text(&e)));
            },
        };
        let branches = match self.get_branches() {
            Ok(b) => b,
            Err(e) => {
                return one_frame(error_frame(e));
            },
        };
        let last_commit = match self.get_commit(head_oid.as_str()) {
            Ok(c) => c,
            Err(e) => {
                return one_frame(error_frame(e));
            },
        };
        one_frame(
            data_frame(
                ResponseData::InitialData(
                    InitialDataResult { current_branch, last_commit, remotes, branches, tags },
                ),
                true,
            ),
        )
    }

    /// Routes one request to its handler and returns the frames the
    /// handler produced.  A shutdown request produces no frames and
    /// only raises the session flag; every other request leaves the
    /// flag alone and yields a well-formed response.
    pub fn handle(&mut self, request: Request) -> (r: Vec<Response>)
        ensures
            request matches Request::Shutdown(_) ==> final(self).shutdown && r@.len() == 0,
            !(request matches Request::Shutdown(_)) ==> final(self).shutdown == old(self).shutdown
                && wf_stream(r@),
            match request {
                Request::OpenRepository(_) => r@.len() == 1,
                Request::StreamAuthors(_) => stream_shape(
                    r@,
                    (|d: ResponseData| d matches ResponseData::Author(a) && spec_author_entry(a)),
                    (|d: ResponseData| d is Unit),
                ),
                Request::GetAuthors(_) => single_shot_frames(
                    r@,
                    (|d: ResponseData| d is Authors),
                ),
                Request::GetFileTree(_) => single_shot_frames(
                    r@,
                    (|d: ResponseData| d is FileTree),
                ),
                Request::StreamFileTree(_) => stream_shape(
                    r@,
                    (|d: ResponseData| d is FileTreeNode),
                    (|d: ResponseData| d is Text),
                ),
                Request::GetBranchList(_) => single_shot_frames(
                    r@,
                    (|d: ResponseData| d is Branches),
                ),
                Request::GetGitGraph(_) => single_shot_frames(
                    r@,
                    (|d: ResponseData|
                        d matches ResponseData::GitGraph(ct) && wf_graph(ct.graph)
                            && children_exact(ct.graph.commits@) && ct.dot@ == spec_graph_text(
                            ct.graph.commits@,
                        )),
                ),
                Request::GetBlame(_) => single_shot_frames(
                    r@,
                    (|d: ResponseData| d matches ResponseData::Blame(b) && wf_blame(b)),
                ),
                Request::GetFileContent(_) => single_shot_frames(
                    r@,
                    (|d: ResponseData| d is FileContent),
                ),
                Request::GetCommitsForBranch(_) => single_shot_frames(
                    r@,
                    (|d: ResponseData| d is CommitsForBranch),
                ),
                Request::GetCommitIdsForRefs(_) => single_shot_frames(
                    r@,
                    (|d: ResponseData| d is CommitRange),
                ),
                Request::StreamCommits(_) => stream_shape(
                    r@,
                    (|d: ResponseData| d is Commit),
                    (|d: ResponseData| d is Unit),
                ),
                Request::Shutdown(_) => r@.len() == 0,
                Request::GetInitialData(_) => single_shot_frames(
                    r@,
                    (|d: ResponseData| d is InitialData),
                ),
                Request::GetCommitsForTimeRange(_) => single_shot_frames(
                    r@,
                    (|d: ResponseData| d is CommitRange),
                ),
                Request::IsValidRev(_) => single_shot_frames(r@, (|d: ResponseData| d is Bool)),
                Request::GetCommit(_) => single_shot_frames(r@, (|d: ResponseData| d is Commit)),
            },
    {
        match request {
            Request::OpenRepository(params) => self.cmd_open_repository(&params),
            Request::StreamAuthors(_) => self.cmd_stream_authors(),
            Request::GetAuthors(_) => self.cmd_get_authors(),
            Request::GetFileTree(params) => self.get_file_tree(&params),
            Request::StreamFileTree(params) => self.stream_file_tree(&params),
            Request::GetBranchList(_) => self.cmd_get_branches(),
            Request::GetGitGraph(_) => self.cmd_get_git_graph(),
            Request::GetBlame(params) => self.cmd_get_blame(&params),
            Request::GetFileContent(params) => self.get_file_content(&params),
            Request::GetCommitsForBranch(params) => self.cmd_get_commits_for_branch(&params),
            Request::GetCommitIdsForRefs(params) => self.cmd_get_commit_ids_for_refs(&params),
            Request::StreamCommits(_) => self.cmd_stream_commits(),
            Request::GetInitialData(_) => self.cmd_get_initial_data(),
            Request::GetCommitsForTimeRange(params) => self.cmd_get_commits_for_time_range(
                &params,
            ),
            Request::IsValidRev(params) => self.cmd_is_valid_rev(&params),
            Request::GetCommit(params) => self.cmd_get_commit(&params),
            Request::Shutdown(_) => {
                self.shutdown = true;
                Vec::new()
            },
        }
    }
}

/// One author frame per eligible record, showing the author's running
/// state as the visit passes it, in visit order.
fn stream_author_frames(records: &Vec<CommitRecord>) -> (frames: Vec<Response>)
    ensures
        forall|m: int|
            0 <= m < frames@.len() ==> ((#[trigger] frames@[m]) matches Response::Data(d) && !d.end
                && (d.data matches ResponseData::Author(a) && spec_author_entry(a))),
{
    let mut frames: Vec<Response> = Vec::new();
    let mut authors: Vec<Author> = Vec::new();
    let mut j: usize = 0;
    while j < records.len()
        invariant
            forall|a: int| 0 <= a < authors@.len() ==> spec_author_entry(#[trigger] authors@[a]),
            forall|m: int|
                0 <= m < frames@.len() ==> ((#[trigger] frames@[m]) matches Response::Data(d)
                    && !d.end && (d.data matches ResponseData::Author(a) && spec_author_entry(
                        a,
                    ))),
        decreases records@.len() - j,
    {
        let rec = &records[j];
        match (&rec.author_name, &rec.author_email) {
            (Some(name), Some(email)) => {
                let id = get_author_id(name, email);
                let mut found: Option<usize> = None;
                let mut k: usize = 0;
                while k < authors.len()
                    invariant
                        forall|a: int|
                            0 <= a < authors@.len() ==> spec_author_entry(#[trigger] authors@[a]),
                        found matches Some(f) ==> f < authors@.len(),
                    decreases authors@.len() - k,
                {
                    if crate::strutil::str_eq(authors[k].id.as_str(), id.as_str()) {
                        found = Some(k);
                    }
                    k = k + 1;
                }
                match found {
                    Some(idx) => {
                        let a = crate::strutil::vec_elem_mut(&mut authors, idx);
                        if a.num_commits < u32::MAX {
                            a.num_commits = a.num_commits + 1;
                        }
                        proof {
                            assert(spec_author_entry(authors@[idx as int]));
                        }
                        let snapshot = clone_author(&authors[idx]);
                        frames.push(data_frame(ResponseData::Author(snapshot), false));
                    },
                    None => {
                        let hash = crate::utils::gravatar_hash(email.as_str());
                        authors.push(
                            Author {
                                id,
                                name: name.clone(),
                                email: email.clone(),
                                gravatar_hash: hash,
                                num_commits: 1,
                            },
                        );
                        let snapshot = clone_author(&authors[authors.len() - 1]);
                        frames.push(data_frame(ResponseData::Author(snapshot), false));
                    },
                }
            },
            _ => {},
        }
        j = j + 1;
    }
    frames
}

fn clone_node(e: &FileTreeNode) -> (r: FileTreeNode)
    ensures
        r.path@ == e.path@,
        r.loading == e.loading,
{
    let kind: Option<CustomValue> = match &e.kind {
        Some(CustomValue::Number(n)) => Some(CustomValue::Number(*n)),
        Some(CustomValue::Text(t)) => Some(CustomValue::Text(t.clone())),
        None => None,
    };
    FileTreeNode { path: clone_strings(&e.path), kind, loading: e.loading }
}

fn clone_author(a: &Author) -> (r: Author)
    ensures
        r == *a,
{
    Author {
        id: a.id.clone(),
        name: a.name.clone(),
        email: a.email.clone(),
        gravatar_hash: a.gravatar_hash.clone(),
        num_commits: a.num_commits,
    }
}

} // verus!
