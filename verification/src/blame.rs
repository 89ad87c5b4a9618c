//! Per-line blame results.
//!
//! The backend attributes each line of a file to the commit that last
//! changed it; this module pairs those attributions with the file's
//! content lines and deduplicates the commit metadata: each attributing
//! commit appears exactly once in the `commits` table, however many
//! lines it owns.

use vstd::prelude::*;

use crate::backend::LineAttribution;
use crate::commits::CommitIds;
use crate::file_content::{last_index_of, spec_last_index_of};
use crate::strutil::{chars_of, i64_to_dec, spec_idec, str_eq, string_of};
use crate::utils::{get_author_id, spec_author_id};

verus! {

/// One attributed line: its 1-based number, the blamed commit and the
/// line's content.
pub struct BlameLine {
    pub line_no: usize,
    pub commit_id: String,
    pub content: String,
}

/// The metadata of one attributing commit.
pub struct CommitInfo {
    pub commit_id: String,
    pub author_id: String,
    pub timestamp: String,
}

/// A full blame result: every line of the file at the resolved
/// revision, and one metadata entry per distinct attributing commit.
pub struct BlameResult {
    pub file_name: String,
    pub commits: Vec<CommitInfo>,
    pub lines: Vec<BlameLine>,
}

/// The request payload for a blame query.
pub struct BlameParams {
    pub branch: String,
    pub path: String,
    pub preview: Option<bool>,
    pub range: CommitIds,
}

/// The file name a path ends in: the characters after its last slash,
/// or the whole path where it holds none.
pub open spec fn spec_file_name(s: Seq<char>) -> Seq<char> {
    match spec_last_index_of(s, '/') {
        Some(k) => s.skip(k + 1),
        None => s,
    }
}

/// The file name a path ends in.
pub fn file_name_of(path: &str) -> (r: String)
    ensures
        r@ == spec_file_name(path@),
{
    let chars = chars_of(path);
    let n = chars.len();
    match last_index_of(&chars, '/') {
        Some(k) => {
            assert(k < n);
            let mut name: Vec<char> = Vec::new();
            let mut i: usize = k + 1;
            while i < n
                invariant
                    k + 1 <= i <= n,
                    n == chars@.len(),
                    name@ == chars@.subrange(k + 1 as int, i as int),
                decreases n - i,
            {
                name.push(chars[i]);
                assert(chars@.subrange(k + 1 as int, i as int).push(chars@[i as int]) =~= chars@
                    .subrange(k + 1 as int, i + 1 as int));
                i = i + 1;
            }
            proof {
                assert(chars@.subrange(k + 1 as int, n as int) =~= chars@.skip(k + 1 as int));
            }
            string_of(&name)
        },
        None => string_of(&chars),
    }
}

/// `s` with one trailing carriage return removed.
pub open spec fn spec_strip_cr(s: Seq<u8>) -> Seq<u8> {
    if s.len() > 0 && s[s.len() - 1] == 13u8 {
        s.drop_last()
    } else {
        s
    }
}

/// The lines of a byte buffer: one line per line feed, with one
/// carriage return stripped ahead of the line feed, and no empty final
/// line after a trailing line feed.  A last line without a line feed is
/// kept as it stands.
pub open spec fn spec_split_lines(bytes: Seq<u8>) -> Seq<Seq<u8>>
    decreases bytes.len(),
{
    if bytes.len() == 0 {
        Seq::<Seq<u8>>::empty()
    } else {
        let p = spec_split_lines(bytes.drop_last());
        let b = bytes.last();
        let fresh = bytes.len() == 1 || bytes[bytes.len() - 2] == 10u8;
        if b == 10u8 {
            if fresh {
                p.push(Seq::<u8>::empty())
            } else {
                p.update(p.len() - 1, spec_strip_cr(p.last()))
            }
        } else {
            if fresh {
                p.push(seq![b])
            } else {
                p.update(p.len() - 1, p.last().push(b))
            }
        }
    }
}

/// Splits a file's raw bytes into its lines, as the blame view pairs
/// them with attributions.
pub fn split_lines(bytes: &Vec<u8>) -> (r: Vec<Vec<u8>>)
    ensures
        r@.len() == spec_split_lines(bytes@).len(),
        forall|i: int| 0 <= i < r@.len() ==> (#[trigger] r@[i])@ == spec_split_lines(bytes@)[i],
{
    let n = bytes.len();
    let mut out: Vec<Vec<u8>> = Vec::new();
    let mut cur: Vec<u8> = Vec::new();
    let mut i: usize = 0;
    proof {
        assert(bytes@.take(0) =~= Seq::<u8>::empty());
    }
    while i < n
        invariant
            n == bytes@.len(),
            i <= n,
            (cur@.len() == 0) == (i == 0 || bytes@[i - 1] == 10u8),
            cur@.len() == 0 ==> {
                let sp = spec_split_lines(bytes@.take(i as int));
                &&& out@.len() == sp.len()
                &&& forall|m: int| 0 <= m < out@.len() ==> (#[trigger] out@[m])@ == sp[m]
            },
            cur@.len() > 0 ==> {
                let sp = spec_split_lines(bytes@.take(i as int));
                &&& sp.len() == out@.len() + 1
                &&& forall|m: int| 0 <= m < out@.len() ==> (#[trigger] out@[m])@ == sp[m]
                &&& sp[out@.len() as int] == cur@
            },
        decreases n - i,
    {
        proof {
            assert(bytes@.take(i + 1 as int).drop_last() =~= bytes@.take(i as int));
            assert(bytes@.take(i + 1 as int).last() == bytes@[i as int]);
        }
        let b = bytes[i];
        if b == 10u8 {
            if cur.len() > 0 && cur[cur.len() - 1] == 13u8 {
                cur.pop();
            }
            out.push(cur);
            cur = Vec::new();
        } else {
            cur.push(b);
        }
        i = i + 1;
    }
    proof {
        assert(bytes@.take(n as int) =~= bytes@);
    }
    if cur.len() > 0 {
        out.push(cur);
    }
    out
}

/// Whether the commit table carries this commit id.
pub open spec fn seq_has_commit(commits: Seq<CommitInfo>, id: Seq<char>) -> bool {
    exists|c: int| 0 <= c < commits.len() && commits[c].commit_id@ == id
}

/// Whether some line is attributed to this commit id.
pub open spec fn line_has_commit(lines: Seq<BlameLine>, id: Seq<char>) -> bool {
    exists|i: int| 0 <= i < lines.len() && lines[i].commit_id@ == id
}

/// Whether one attribution explains one commit-table entry.
pub open spec fn spec_commit_of_attr(a: LineAttribution, c: CommitInfo) -> bool {
    &&& c.commit_id@ == a.commit_id@
    &&& c.author_id@ == spec_author_id(a.author_name@, a.author_email@)
    &&& c.timestamp@ == spec_idec(a.timestamp as int)
}

/// Whether some attribution explains this commit-table entry.
pub open spec fn commit_from_attrs(attrs: Seq<LineAttribution>, c: CommitInfo) -> bool {
    exists|i: int| #![auto] 0 <= i < attrs.len() && spec_commit_of_attr(attrs[i], c)
}

/// The shape of a finished blame result: lines are numbered 1 upward
/// without gaps, every line's commit id has exactly one entry in the
/// commit table, and the table holds nothing beyond the lines' commits.
pub open spec fn wf_blame(b: BlameResult) -> bool {
    &&& forall|i: int| 0 <= i < b.lines@.len() ==> (#[trigger] b.lines@[i]).line_no == i + 1
    &&& forall|i: int|
        0 <= i < b.lines@.len() ==> seq_has_commit(b.commits@, (#[trigger] b.lines@[i]).commit_id@)
    &&& forall|c: int, d: int|
        0 <= c < d < b.commits@.len() ==> (#[trigger] b.commits@[c].commit_id@) != (
        #[trigger] b.commits@[d].commit_id@)
    &&& forall|c: int|
        0 <= c < b.commits@.len() ==> line_has_commit(
            b.lines@,
            (#[trigger] b.commits@[c]).commit_id@,
        )
}

fn index_of_commit(commits: &Vec<CommitInfo>, id: &str) -> (r: Option<usize>)
    ensures
        match r {
            Some(i) => i < commits@.len() && commits@[i as int].commit_id@ == id@,
            None => forall|i: int| 0 <= i < commits@.len() ==> commits@[i].commit_id@ != id@,
        },
{
    let mut i: usize = 0;
    while i < commits.len()
        invariant
            i <= commits@.len(),
            forall|j: int| 0 <= j < i ==> commits@[j].commit_id@ != id@,
        decreases commits@.len() - i,
    {
        if str_eq(commits[i].commit_id.as_str(), id) {
            return Some(i);
        }
        i = i + 1;
    }
    None
}

/// Assembles a blame result from the file's content lines and the
/// backend's per-line attributions.  Line `i` of the result pairs
/// content `i` with attribution `i`; the commit table gets one entry
/// per distinct attributing commit, carrying the signature of its first
/// attributed line.
pub fn build_blame(file_name: String, contents: &Vec<String>, attrs: &Vec<LineAttribution>) -> (b:
    BlameResult)
    requires
        contents@.len() == attrs@.len(),
        contents@.len() < usize::MAX,
    ensures
        wf_blame(b),
        b.file_name == file_name,
        b.lines@.len() == contents@.len(),
        forall|i: int|
            0 <= i < b.lines@.len() ==> (#[trigger] b.lines@[i]).content@ == contents@[i]@
                && b.lines@[i].commit_id@ == attrs@[i].commit_id@,
        forall|c: int|
            0 <= c < b.commits@.len() ==> commit_from_attrs(attrs@, #[trigger] b.commits@[c]),
{
    let n = contents.len();
    let mut lines: Vec<BlameLine> = Vec::new();
    let mut commits: Vec<CommitInfo> = Vec::new();
    let ghost mut src: Seq<int> = Seq::<int>::empty();
    let mut i: usize = 0;
    while i < n
        invariant
            n == contents@.len() < usize::MAX,
            n == attrs@.len(),
            i <= n,
            lines@.len() == i,
            forall|m: int|
                0 <= m < i ==> (#[trigger] lines@[m]).line_no == m + 1 && lines@[m].content@
                    == contents@[m]@ && lines@[m].commit_id@ == attrs@[m].commit_id@,
            forall|m: int|
                0 <= m < i ==> seq_has_commit(commits@, (#[trigger] lines@[m]).commit_id@),
            forall|c: int, d: int|
                0 <= c < d < commits@.len() ==> (#[trigger] commits@[c].commit_id@) != (
                #[trigger] commits@[d].commit_id@),
            src.len() == commits@.len(),
            forall|c: int|
                0 <= c < commits@.len() ==> 0 <= #[trigger] src[c] < attrs@.len()
                    && spec_commit_of_attr(attrs@[src[c]], commits@[c]),
        decreases n - i,
    {
        let content = contents[i].clone();
        let attr = &attrs[i];
        lines.push(
            BlameLine { line_no: i + 1, commit_id: attr.commit_id.clone(), content },
        );
        let ghost old_commits = commits@;
        if index_of_commit(&commits, attr.commit_id.as_str()).is_none() {
            let author_id = get_author_id(&attr.author_name, &attr.author_email);
            commits.push(
                CommitInfo {
                    commit_id: attr.commit_id.clone(),
                    author_id,
                    timestamp: i64_to_dec(attr.timestamp),
                },
            );
            proof {
                src = src.push(i as int);
                assert forall|id: Seq<char>|
                    seq_has_commit(old_commits, id) implies seq_has_commit(commits@, id) by {
                    let c = choose|c: int|
                        0 <= c < old_commits.len() && old_commits[c].commit_id@ == id;
                    assert(commits@[c].commit_id@ == id);
                }
                assert(commits@[commits@.len() - 1].commit_id@ == attrs@[i as int].commit_id@);
                assert(seq_has_commit(commits@, attrs@[i as int].commit_id@));
            }
        } else {
            proof {
                let c = choose|c: int|
                    0 <= c < commits@.len() && commits@[c].commit_id@
                        == attrs@[i as int].commit_id@;
                assert(seq_has_commit(commits@, attrs@[i as int].commit_id@));
            }
        }
        i = i + 1;
    }
    let b = BlameResult { file_name, commits, lines };
    proof {
        assert forall|c: int|
            0 <= c < b.commits@.len() implies commit_from_attrs(
            attrs@,
            #[trigger] b.commits@[c],
        ) by {
            assert(0 <= src[c] < attrs@.len() && spec_commit_of_attr(
                attrs@[src[c]],
                b.commits@[c],
            ));
        }
        assert forall|c: int|
            0 <= c < b.commits@.len() implies line_has_commit(
            b.lines@,
            (#[trigger] b.commits@[c]).commit_id@,
        ) by {
            assert(b.lines@[src[c]].commit_id@ == attrs@[src[c]].commit_id@);
            assert(spec_commit_of_attr(attrs@[src[c]], b.commits@[c]));
        }
    }
    b
}

} // verus!
