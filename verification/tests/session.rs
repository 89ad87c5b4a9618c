//! Session tests against real repositories built on the fly.
//!
//! Each fixture is deterministic: fixed signatures, timestamps and
//! contents give the same object ids on every run, so rebuilding over a
//! leftover repository is harmless.

use explorer::blame::BlameParams;
use explorer::commits::CommitIds;
use explorer::explorer::{
    Explorer, NoParams, OpenRepositoryParams, Request, Response, ResponseData,
};
use explorer::graph::commit_index_of;
use explorer::tree::GetFileTreeParams;

const T_R: i64 = 1_000_000;
const T_A: i64 = 1_000_100;
const T_B: i64 = 1_000_200;

struct Fixture {
    repo_path: String,
    r: String,
    a: String,
    b: String,
}

fn sig(time: i64) -> git2::Signature<'static> {
    git2::Signature::new("Ada", "ada@example.com", &git2::Time::new(time, 0)).unwrap()
}

fn tree_of(repo: &git2::Repository, files: &[(&str, &str)]) -> git2::Oid {
    let mut tb = repo.treebuilder(None).unwrap();
    for (name, content) in files {
        let blob = repo.blob(content.as_bytes()).unwrap();
        tb.insert(*name, blob, 0o100644).unwrap();
    }
    tb.write().unwrap()
}

fn commit_on(
    repo: &git2::Repository,
    time: i64,
    message: &str,
    tree: git2::Oid,
    parents: &[git2::Oid],
) -> git2::Oid {
    let tree = repo.find_tree(tree).unwrap();
    let parent_commits: Vec<git2::Commit> =
        parents.iter().map(|p| repo.find_commit(*p).unwrap()).collect();
    let parent_refs: Vec<&git2::Commit> = parent_commits.iter().collect();
    let s = sig(time);
    repo.commit(None, &s, &s, message, &tree, &parent_refs).unwrap()
}

/// A three-commit linear history on branch `main`: root R, then A
/// (which adds hello.txt), then B (which only edits base.txt).
fn fixture(path: &str) -> Fixture {
    let repo = git2::Repository::init(path).unwrap();
    let t_r = tree_of(&repo, &[("base.txt", "root\n")]);
    let r = commit_on(&repo, T_R, "first commit", t_r, &[]);
    let t_a = tree_of(&repo, &[("base.txt", "root\n"), ("hello.txt", "alpha\nbeta\n")]);
    let a = commit_on(&repo, T_A, "add hello", t_a, &[r]);
    let t_b = tree_of(&repo, &[("base.txt", "changed\n"), ("hello.txt", "alpha\nbeta\n")]);
    let b = commit_on(&repo, T_B, "edit base", t_b, &[a]);
    repo.reference("refs/heads/main", b, true, "fixture").unwrap();
    repo.set_head("refs/heads/main").unwrap();
    Fixture {
        repo_path: path.to_string(),
        r: r.to_string(),
        a: a.to_string(),
        b: b.to_string(),
    }
}

fn open_session(fx: &Fixture) -> Explorer {
    let mut exp = Explorer::new();
    let frames = exp.cmd_open_repository(&OpenRepositoryParams { path: fx.repo_path.clone() });
    assert_eq!(frames.len(), 1);
    match &frames[0] {
        Response::Data(d) => match &d.data {
            ResponseData::OpenRepository(res) => assert!(res.success),
            _ => panic!("unexpected payload"),
        },
        Response::Error(e) => panic!("open failed: {}", e.error),
    }
    exp
}

#[test]
fn linear_history_graph() {
    let fx = fixture("/tmp/explorer_fixture_graph");
    let mut exp = open_session(&fx);
    let frames = exp.handle(Request::GetGitGraph(NoParams {}));
    assert_eq!(frames.len(), 1);
    let tree = match &frames[0] {
        Response::Data(d) => match &d.data {
            ResponseData::GitGraph(ct) => ct,
            _ => panic!("unexpected payload"),
        },
        Response::Error(e) => panic!("graph failed: {}", e.error),
    };
    let g = &tree.graph;
    assert_eq!(g.commits.len(), 3);
    let b = commit_index_of(g, &fx.b).unwrap();
    let a = commit_index_of(g, &fx.a).unwrap();
    let r = commit_index_of(g, &fx.r).unwrap();
    assert_eq!(g.commits[b].parents, vec![fx.a.clone()]);
    assert_eq!(g.commits[a].children, vec![fx.b.clone()]);
    assert_eq!(g.commits[a].parents, vec![fx.r.clone()]);
    assert_eq!(g.commits[r].children, vec![fx.a.clone()]);
    assert!(g.commits[b].children.is_empty());
    assert_eq!(g.commits[b].message, "edit base");
    assert_eq!(g.commits[b].timestamp, T_B);
    assert_eq!(g.branches.len(), 1);
    assert_eq!(g.branches[0].name, "main");
    assert_eq!(g.branches[0].last_commit_id, fx.b);
    // the index table sends each oid to its position
    for (i, (oid, pos)) in g.commit_indices.iter().enumerate() {
        assert_eq!(*pos, i);
        assert_eq!(*oid, g.commits[i].oid);
    }
    // one distinct author
    assert_eq!(g.authors.len(), 1);
    assert_eq!(g.authors[0].name, "Ada");
    // the rendering mentions the tip's short label
    assert!(tree.dot.contains(&fx.b[0..7]));
}

#[test]
fn time_range_resolves_bounds() {
    let fx = fixture("/tmp/explorer_fixture_range");
    let exp = open_session(&fx);
    let (since, until) = exp.find_commit_ids_for_time_range("main", T_A, T_B);
    assert_eq!(since, Some(fx.a.clone()));
    assert_eq!(until, Some(fx.b.clone()));
}

#[test]
fn blame_attributes_unmodified_file() {
    let fx = fixture("/tmp/explorer_fixture_blame");
    let exp = open_session(&fx);
    let blame = exp
        .blame(&BlameParams {
            branch: "main".to_string(),
            path: "hello.txt".to_string(),
            preview: None,
            range: CommitIds { start_id: fx.a.clone(), end_id: fx.b.clone() },
        })
        .unwrap();
    assert_eq!(blame.file_name, "hello.txt");
    assert_eq!(blame.lines.len(), 2);
    for line in &blame.lines {
        assert_eq!(line.commit_id, fx.a);
    }
    assert_eq!(blame.lines[0].content, "alpha");
    assert_eq!(blame.lines[1].content, "beta");
    assert_eq!(blame.commits.len(), 1);
    assert_eq!(blame.commits[0].commit_id, fx.a);
    assert_eq!(blame.commits[0].timestamp, T_A.to_string());
}

#[test]
fn open_failure_keeps_session_usable() {
    let fx = fixture("/tmp/explorer_fixture_open");
    let mut exp = open_session(&fx);
    // opening a nonexistent path yields an error frame, not a crash
    let frames = exp.handle(Request::OpenRepository(OpenRepositoryParams {
        path: "/tmp/explorer_fixture_missing/nowhere".to_string(),
    }));
    assert_eq!(frames.len(), 1);
    assert!(matches!(frames[0], Response::Error(_)));
    assert!(!exp.shutdown);
    // the session still answers requests and still honors shutdown
    let frames = exp.handle(Request::GetBranchList(NoParams {}));
    assert_eq!(frames.len(), 1);
    assert!(matches!(frames[0], Response::Data(_)));
    let frames = exp.handle(Request::Shutdown(NoParams {}));
    assert!(frames.is_empty());
    assert!(exp.shutdown);
}

#[test]
fn commit_detail_lists_changed_files() {
    let fx = fixture("/tmp/explorer_fixture_commit");
    let exp = open_session(&fx);
    let commit = exp.get_commit(&fx.b).unwrap();
    assert_eq!(commit.oid, fx.b);
    assert_eq!(commit.message, "edit base");
    assert_eq!(commit.timestamp, T_B.to_string());
    assert_eq!(commit.files.modified, vec!["base.txt".to_string()]);
    assert!(commit.files.added.is_empty());
    let commit_a = exp.get_commit(&fx.a).unwrap();
    assert_eq!(commit_a.files.added, vec!["hello.txt".to_string()]);
}

#[test]
fn rev_validity_and_resolution() {
    let fx = fixture("/tmp/explorer_fixture_rev");
    let exp = open_session(&fx);
    assert_eq!(exp.get_commit_oid_from_rev("main").unwrap(), fx.b);
    assert_eq!(exp.get_commit_oid_from_rev(&fx.a).unwrap(), fx.a);
    assert!(exp.get_commit_oid_from_rev("no-such-rev").is_err());
    let frames = exp.cmd_is_valid_rev(&explorer::commits::IsValidRevParams {
        rev: "main".to_string(),
    });
    match &frames[0] {
        Response::Data(d) => assert!(matches!(d.data, ResponseData::Bool(true))),
        _ => panic!("expected a data frame"),
    }
    let frames = exp.cmd_is_valid_rev(&explorer::commits::IsValidRevParams {
        rev: "bogus".to_string(),
    });
    match &frames[0] {
        Response::Data(d) => assert!(matches!(d.data, ResponseData::Bool(false))),
        _ => panic!("expected a data frame"),
    }
}

#[test]
fn branch_range_spans_history() {
    let fx = fixture("/tmp/explorer_fixture_branchrange");
    let exp = open_session(&fx);
    let range = exp
        .get_commits_for_branch(&explorer::branches::GetCommitsForBranchParams {
            branch: "main".to_string(),
        })
        .unwrap();
    assert_eq!(range.start_commit, fx.r);
    assert_eq!(range.end_commit, fx.b);
}

#[test]
fn stream_commits_covers_history() {
    let fx = fixture("/tmp/explorer_fixture_stream");
    let mut exp = open_session(&fx);
    let frames = exp.handle(Request::StreamCommits(
        explorer::commits::StreamCommitsParams {},
    ));
    // three commit frames, then the terminal frame
    assert_eq!(frames.len(), 4);
    for f in &frames[0..3] {
        match f {
            Response::Data(d) => {
                assert!(!d.end);
                assert!(matches!(d.data, ResponseData::Commit(_)));
            },
            Response::Error(e) => panic!("stream failed: {}", e.error),
        }
    }
    match &frames[3] {
        Response::Data(d) => assert!(d.end),
        _ => panic!("expected terminal frame"),
    }
}

#[test]
fn file_content_round_trip() {
    let fx = fixture("/tmp/explorer_fixture_content");
    let exp = open_session(&fx);
    let frames = exp.get_file_content(&explorer::file_content::GetFileContentParams {
        path: "hello.txt".to_string(),
        rev: "main".to_string(),
    });
    match &frames[0] {
        Response::Data(d) => match &d.data {
            ResponseData::FileContent(res) => {
                assert_eq!(res.encoding, "utf-8");
                assert_eq!(res.content, "alpha\nbeta\n");
            },
            _ => panic!("unexpected payload"),
        },
        Response::Error(e) => panic!("content failed: {}", e.error),
    }
    let frames = exp.get_file_content(&explorer::file_content::GetFileContentParams {
        path: "missing.txt".to_string(),
        rev: "main".to_string(),
    });
    assert!(matches!(frames[0], Response::Error(_)));
}

#[test]
fn streamed_tree_closes_root_last() {
    let fx = fixture("/tmp/explorer_fixture_tree");
    let exp = open_session(&fx);
    let frames = exp.stream_file_tree(&GetFileTreeParams { rev: "main".to_string() });
    // two leaf events, the root closing, then the terminal frame
    assert_eq!(frames.len(), 4);
    match &frames[2] {
        Response::Data(d) => match &d.data {
            ResponseData::FileTreeNode(node) => {
                assert!(node.path.is_empty());
                assert_eq!(node.loading, Some(false));
            },
            _ => panic!("unexpected payload"),
        },
        _ => panic!("expected a data frame"),
    }
    match &frames[3] {
        Response::Data(d) => assert!(d.end),
        _ => panic!("expected terminal frame"),
    }
}

#[test]
fn blame_preview_needs_a_parent() {
    let fx = fixture("/tmp/explorer_fixture_preview");
    let exp = open_session(&fx);
    // the root commit has no first parent to preview against
    let res = exp.blame(&BlameParams {
        branch: "main".to_string(),
        path: "base.txt".to_string(),
        preview: Some(true),
        range: CommitIds { start_id: fx.r.clone(), end_id: fx.r.clone() },
    });
    assert!(res.is_err());
}

#[test]
fn nested_tree_streams_in_order() {
    let path = "/tmp/explorer_fixture_nested";
    let repo = git2::Repository::init(path).unwrap();
    let sub_tree = {
        let mut tb = repo.treebuilder(None).unwrap();
        let blob = repo.blob(b"fn main() {}\n").unwrap();
        tb.insert("main.rs", blob, 0o100644).unwrap();
        tb.write().unwrap()
    };
    let root_tree = {
        let mut tb = repo.treebuilder(None).unwrap();
        let blob = repo.blob(b"docs\n").unwrap();
        tb.insert("readme.md", blob, 0o100644).unwrap();
        tb.insert("src", sub_tree, 0o040000).unwrap();
        tb.write().unwrap()
    };
    let c = commit_on(&repo, T_R, "layout", root_tree, &[]);
    repo.reference("refs/heads/main", c, true, "fixture").unwrap();
    repo.set_head("refs/heads/main").unwrap();

    let mut exp = Explorer::new();
    exp.cmd_open_repository(&OpenRepositoryParams { path: path.to_string() });

    // batch view: the nested structure in tree order
    let frames = exp.get_file_tree(&GetFileTreeParams { rev: "main".to_string() });
    match &frames[0] {
        Response::Data(d) => match &d.data {
            ResponseData::FileTree(items) => {
                assert_eq!(items.len(), 2);
                match &items[0] {
                    explorer::tree::TreeItem::Leaf { name } => assert_eq!(name, "readme.md"),
                    _ => panic!("first entry should be the leaf"),
                }
                match &items[1] {
                    explorer::tree::TreeItem::Dir { name, items } => {
                        assert_eq!(name, "src");
                        assert_eq!(items.len(), 1);
                    },
                    _ => panic!("second entry should be the directory"),
                }
            },
            _ => panic!("unexpected payload"),
        },
        Response::Error(e) => panic!("tree failed: {}", e.error),
    }

    // streaming view: siblings first, then the descent, closings after
    let frames = exp.stream_file_tree(&GetFileTreeParams { rev: "main".to_string() });
    let events: Vec<&explorer::tree::FileTreeNode> = frames
        .iter()
        .filter_map(|f| match f {
            Response::Data(d) => match &d.data {
                ResponseData::FileTreeNode(n) => Some(n),
                _ => None,
            },
            _ => None,
        })
        .collect();
    assert_eq!(events.len(), 5);
    assert_eq!(events[0].path, vec!["readme.md".to_string()]);
    assert_eq!(events[0].loading, None);
    assert_eq!(events[1].path, vec!["src".to_string()]);
    assert_eq!(events[1].loading, Some(true));
    assert_eq!(events[2].path, vec!["src".to_string(), "main.rs".to_string()]);
    assert_eq!(events[2].loading, None);
    assert_eq!(events[3].path, vec!["src".to_string()]);
    assert_eq!(events[3].loading, Some(false));
    assert!(events[4].path.is_empty());
    assert_eq!(events[4].loading, Some(false));
}

#[test]
fn authors_from_real_history() {
    let fx = fixture("/tmp/explorer_fixture_authors");
    let exp = open_session(&fx);
    let frames = exp.cmd_get_authors();
    match &frames[0] {
        Response::Data(d) => match &d.data {
            ResponseData::Authors(authors) => {
                assert_eq!(authors.len(), 1);
                assert_eq!(authors[0].name, "Ada");
                assert_eq!(authors[0].email, "ada@example.com");
                assert_eq!(authors[0].num_commits, 3);
            },
            _ => panic!("unexpected payload"),
        },
        Response::Error(e) => panic!("authors failed: {}", e.error),
    }
}
