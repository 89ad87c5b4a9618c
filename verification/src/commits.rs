//! Commit detail types and changed-file classification.

use vstd::prelude::*;

use crate::backend::{CommitRecord, DeltaKind, DeltaRecord};
use crate::graph::spec_opt_chars;
use crate::strutil::{i64_to_dec, seq_has_str, spec_idec};
use crate::utils::{get_author_id, spec_author_id};

verus! {

/// The request payload of the commit stream; it carries nothing.
pub struct StreamCommitsParams {}

/// The files a commit changed relative to its parents, classified by
/// what happened to them.
pub struct CommitFiles {
    pub deleted: Vec<String>,
    pub modified: Vec<String>,
    pub added: Vec<String>,
    pub renamed: Vec<(String, String)>,
}

/// One commit with its changed files.
pub struct Commit {
    pub oid: String,
    pub aid: String,
    pub message: String,
    pub files: CommitFiles,
    pub timestamp: String,
}

/// One commit without its changed files.
pub struct CommitMeta {
    pub oid: String,
    pub aid: String,
    pub message: String,
    pub timestamp: String,
}

/// A time-range query over one branch.
pub struct GetCommitsForTimeRangeParams {
    pub branch: String,
    pub start_seconds: i64,
    pub end_seconds: i64,
}

/// The two commits that bound a resolved range.
pub struct CommitRange {
    pub since_commit: Commit,
    pub until_commit: Commit,
}

/// A pair of commit ids bounding a range, as a request carries it.
pub struct CommitIds {
    pub start_id: String,
    pub end_id: String,
}

/// A revision-validity query.
pub struct IsValidRevParams {
    pub rev: String,
}

/// A single-commit query.
pub struct GetCommitParams {
    pub rev: String,
}

/// The views of a sequence of strings.
pub open spec fn str_views(v: Seq<String>) -> Seq<Seq<char>> {
    v.map_values(|s: String| s@)
}

/// The views of a sequence of string pairs.
pub open spec fn pair_views(v: Seq<(String, String)>) -> Seq<(Seq<char>, Seq<char>)> {
    v.map_values(|p: (String, String)| (p.0@, p.1@))
}

/// The new paths of the deltas of one kind, in order.
pub open spec fn spec_sel_new(deltas: Seq<DeltaRecord>, kind: DeltaKind) -> Seq<Seq<char>>
    decreases deltas.len(),
{
    if deltas.len() == 0 {
        Seq::<Seq<char>>::empty()
    } else {
        let p = spec_sel_new(deltas.drop_last(), kind);
        if deltas.last().kind == kind {
            p.push(deltas.last().new_path@)
        } else {
            p
        }
    }
}

/// The (old, new) path pairs of the renamed deltas, in order.
pub open spec fn spec_sel_renamed(deltas: Seq<DeltaRecord>) -> Seq<(Seq<char>, Seq<char>)>
    decreases deltas.len(),
{
    if deltas.len() == 0 {
        Seq::<(Seq<char>, Seq<char>)>::empty()
    } else {
        let p = spec_sel_renamed(deltas.drop_last());
        if deltas.last().kind == DeltaKind::Renamed {
            p.push((deltas.last().old_path@, deltas.last().new_path@))
        } else {
            p
        }
    }
}

/// Folds one diff's deltas into the changed-file lists: deleted, added
/// and modified paths and renamed pairs are appended in delta order;
/// deltas of any other kind are ignored.
pub fn extend_commit_files(files: &mut CommitFiles, deltas: &Vec<DeltaRecord>)
    ensures
        str_views(final(files).deleted@) == str_views(old(files).deleted@) + spec_sel_new(
            deltas@,
            DeltaKind::Deleted,
        ),
        str_views(final(files).added@) == str_views(old(files).added@) + spec_sel_new(
            deltas@,
            DeltaKind::Added,
        ),
        str_views(final(files).modified@) == str_views(old(files).modified@) + spec_sel_new(
            deltas@,
            DeltaKind::Modified,
        ),
        pair_views(final(files).renamed@) == pair_views(old(files).renamed@) + spec_sel_renamed(
            deltas@,
        ),
{
    let mut i: usize = 0;
    proof {
        assert(deltas@.take(0) =~= Seq::<DeltaRecord>::empty());
        assert(str_views(files.deleted@) =~= str_views(old(files).deleted@) + spec_sel_new(
            deltas@.take(0),
            DeltaKind::Deleted,
        ));
        assert(str_views(files.added@) =~= str_views(old(files).added@) + spec_sel_new(
            deltas@.take(0),
            DeltaKind::Added,
        ));
        assert(str_views(files.modified@) =~= str_views(old(files).modified@) + spec_sel_new(
            deltas@.take(0),
            DeltaKind::Modified,
        ));
        assert(pair_views(files.renamed@) =~= pair_views(old(files).renamed@) + spec_sel_renamed(
            deltas@.take(0),
        ));
    }
    while i < deltas.len()
        invariant
            i <= deltas@.len(),
            str_views(files.deleted@) == str_views(old(files).deleted@) + spec_sel_new(
                deltas@.take(i as int),
                DeltaKind::Deleted,
            ),
            str_views(files.added@) == str_views(old(files).added@) + spec_sel_new(
                deltas@.take(i as int),
                DeltaKind::Added,
            ),
            str_views(files.modified@) == str_views(old(files).modified@) + spec_sel_new(
                deltas@.take(i as int),
                DeltaKind::Modified,
            ),
            pair_views(files.renamed@) == pair_views(old(files).renamed@) + spec_sel_renamed(
                deltas@.take(i as int),
            ),
        decreases deltas@.len() - i,
    {
        proof {
            assert(deltas@.take(i + 1 as int).drop_last() =~= deltas@.take(i as int));
            assert(deltas@.take(i + 1 as int).last() == deltas@[i as int]);
        }
        let d = &deltas[i];
        let ghost old_deleted = files.deleted@;
        let ghost old_added = files.added@;
        let ghost old_modified = files.modified@;
        let ghost old_renamed = files.renamed@;
        match d.kind {
            DeltaKind::Deleted => {
                files.deleted.push(d.new_path.clone());
                proof {
                    assert(str_views(files.deleted@) =~= str_views(old_deleted).push(
                        deltas@[i as int].new_path@,
                    ));
                }
            },
            DeltaKind::Added => {
                files.added.push(d.new_path.clone());
                proof {
                    assert(str_views(files.added@) =~= str_views(old_added).push(
                        deltas@[i as int].new_path@,
                    ));
                }
            },
            DeltaKind::Modified => {
                files.modified.push(d.new_path.clone());
                proof {
                    assert(str_views(files.modified@) =~= str_views(old_modified).push(
                        deltas@[i as int].new_path@,
                    ));
                }
            },
            DeltaKind::Renamed => {
                files.renamed.push((d.old_path.clone(), d.new_path.clone()));
                proof {
                    assert(pair_views(files.renamed@) =~= pair_views(old_renamed).push(
                        (deltas@[i as int].old_path@, deltas@[i as int].new_path@),
                    ));
                }
            },
            DeltaKind::Other => {},
        }
        i = i + 1;
    }
    proof {
        assert(deltas@.take(deltas@.len() as int) =~= deltas@);
    }
}

/// A commit's metadata reduced to protocol form: the author id derived
/// from the signature, absent parts falling back to the empty string,
/// the full message, the timestamp in decimal.
pub fn meta_of_record(rec: &CommitRecord) -> (m: CommitMeta)
    ensures
        m.oid@ == rec.oid@,
        m.aid@ == spec_author_id(spec_opt_chars(rec.author_name), spec_opt_chars(rec.author_email)),
        m.message@ == spec_opt_chars(rec.message),
        m.timestamp@ == spec_idec(rec.timestamp as int),
{
    let empty = String::new();
    let name: &String = match &rec.author_name {
        Some(s) => s,
        None => &empty,
    };
    let email: &String = match &rec.author_email {
        Some(s) => s,
        None => &empty,
    };
    let message: &String = match &rec.message {
        Some(s) => s,
        None => &empty,
    };
    CommitMeta {
        oid: rec.oid.clone(),
        aid: get_author_id(name, email),
        message: message.clone(),
        timestamp: i64_to_dec(rec.timestamp),
    }
}

/// The new paths of one kind over a list of diffs, diff by diff, in
/// order.
pub open spec fn spec_sel_new_all(diffs: Seq<Vec<DeltaRecord>>, kind: DeltaKind) -> Seq<Seq<char>>
    decreases diffs.len(),
{
    if diffs.len() == 0 {
        Seq::<Seq<char>>::empty()
    } else {
        spec_sel_new_all(diffs.drop_last(), kind) + spec_sel_new(diffs.last()@, kind)
    }
}

/// The renamed pairs over a list of diffs, diff by diff, in order.
pub open spec fn spec_sel_renamed_all(diffs: Seq<Vec<DeltaRecord>>) -> Seq<(Seq<char>, Seq<char>)>
    decreases diffs.len(),
{
    if diffs.len() == 0 {
        Seq::<(Seq<char>, Seq<char>)>::empty()
    } else {
        spec_sel_renamed_all(diffs.drop_last()) + spec_sel_renamed(diffs.last()@)
    }
}

/// Assembles one commit's protocol record: oid, author id, message and
/// timestamp from the backend record, and the changed-file lists as the
/// classified selections over the per-parent diffs, in parent order.
pub fn assemble_commit(rec: &CommitRecord, diffs: &Vec<Vec<DeltaRecord>>) -> (c: Commit)
    ensures
        c.oid@ == rec.oid@,
        c.aid@ == spec_author_id(spec_opt_chars(rec.author_name), spec_opt_chars(rec.author_email)),
        c.message@ == spec_opt_chars(rec.message),
        c.timestamp@ == spec_idec(rec.timestamp as int),
        str_views(c.files.added@) == spec_sel_new_all(diffs@, DeltaKind::Added),
        str_views(c.files.deleted@) == spec_sel_new_all(diffs@, DeltaKind::Deleted),
        str_views(c.files.modified@) == spec_sel_new_all(diffs@, DeltaKind::Modified),
        pair_views(c.files.renamed@) == spec_sel_renamed_all(diffs@),
{
    let meta = meta_of_record(rec);
    let mut files = CommitFiles {
        deleted: Vec::new(),
        modified: Vec::new(),
        added: Vec::new(),
        renamed: Vec::new(),
    };
    let mut i: usize = 0;
    proof {
        assert(diffs@.take(0) =~= Seq::<Vec<DeltaRecord>>::empty());
        assert(str_views(files.added@) =~= spec_sel_new_all(diffs@.take(0), DeltaKind::Added));
        assert(str_views(files.deleted@) =~= spec_sel_new_all(diffs@.take(0), DeltaKind::Deleted));
        assert(str_views(files.modified@) =~= spec_sel_new_all(
            diffs@.take(0),
            DeltaKind::Modified,
        ));
        assert(pair_views(files.renamed@) =~= spec_sel_renamed_all(diffs@.take(0)));
    }
    while i < diffs.len()
        invariant
            i <= diffs@.len(),
            str_views(files.added@) == spec_sel_new_all(diffs@.take(i as int), DeltaKind::Added),
            str_views(files.deleted@) == spec_sel_new_all(
                diffs@.take(i as int),
                DeltaKind::Deleted,
            ),
            str_views(files.modified@) == spec_sel_new_all(
                diffs@.take(i as int),
                DeltaKind::Modified,
            ),
            pair_views(files.renamed@) == spec_sel_renamed_all(diffs@.take(i as int)),
        decreases diffs@.len() - i,
    {
        proof {
            assert(diffs@.take(i + 1 as int).drop_last() =~= diffs@.take(i as int));
            assert(diffs@.take(i + 1 as int).last() == diffs@[i as int]);
        }
        extend_commit_files(&mut files, &diffs[i]);
        i = i + 1;
    }
    proof {
        assert(diffs@.take(diffs@.len() as int) =~= diffs@);
    }
    Commit {
        oid: meta.oid,
        aid: meta.aid,
        message: meta.message,
        files,
        timestamp: meta.timestamp,
    }
}

/// The ids the commit stream delivers: every walked commit's oid in
/// walk order, stash commits dropped.
pub open spec fn spec_stream_oids(records: Seq<CommitRecord>, stash: Seq<String>) -> Seq<Seq<char>>
    decreases records.len(),
{
    if records.len() == 0 {
        Seq::<Seq<char>>::empty()
    } else {
        let p = spec_stream_oids(records.drop_last(), stash);
        if seq_has_str(stash, records.last().oid@) {
            p
        } else {
            p.push(records.last().oid@)
        }
    }
}

/// Selects the walked commits that the stream delivers: one id per
/// non-stash record, in walk order.
pub fn select_stream_oids(records: &Vec<CommitRecord>, stash: &Vec<String>) -> (r: Vec<String>)
    ensures
        str_views(r@) == spec_stream_oids(records@, stash@),
{
    let mut r: Vec<String> = Vec::new();
    let mut j: usize = 0;
    proof {
        assert(records@.take(0) =~= Seq::<CommitRecord>::empty());
        assert(str_views(r@) =~= spec_stream_oids(records@.take(0), stash@));
    }
    while j < records.len()
        invariant
            j <= records@.len(),
            str_views(r@) == spec_stream_oids(records@.take(j as int), stash@),
        decreases records@.len() - j,
    {
        proof {
            assert(records@.take(j + 1 as int).drop_last() =~= records@.take(j as int));
            assert(records@.take(j + 1 as int).last() == records@[j as int]);
        }
        let ghost old_r = r@;
        if !crate::strutil::contains_str(stash, records[j].oid.as_str()) {
            r.push(records[j].oid.clone());
            proof {
                assert(str_views(r@) =~= str_views(old_r).push(records@[j as int].oid@));
            }
        }
        j = j + 1;
    }
    proof {
        assert(records@.take(records@.len() as int) =~= records@);
    }
    r
}

} // verus!
