//! The commit graph view.
//!
//! From the backend's flat commit records the builder derives a
//! `HistoryGraph`: one node per reachable non-stash commit in traversal
//! order, parent links truncated to the first two parents, child links
//! exactly inverse to the kept parent links, branch tips, and the
//! distinct authors.

use vstd::prelude::*;

use crate::backend::CommitRecord;
use crate::strutil::{
    clipped_line, clone_strings, contains_str, seq_has_str, spec_clipped_line, str_eq,
};
use crate::utils::{get_author_id, spec_author_id};

verus! {

/// One commit node of the graph.  `parents` holds at most the first two
/// parent ids; `children` holds the ids of the kept commits that list
/// this node among their (truncated) parents.
pub struct CommitInfo {
    pub oid: String,
    pub aid: String,
    pub timestamp: i64,
    pub message: String,
    pub is_merge: bool,
    pub parents: Vec<String>,
    pub children: Vec<String>,
}

/// One local branch: its name and the commit its reference points to.
pub struct BranchInfo {
    pub id: String,
    pub name: String,
    pub last_commit_id: String,
}

/// One distinct author, keyed by the derived author id.
pub struct AuthorInfo {
    pub id: String,
    pub name: String,
    pub email: String,
}

/// The full commit graph: nodes in traversal order, the index mapping
/// from commit id to position, branch tips and distinct authors.
pub struct HistoryGraph {
    pub commit_indices: Vec<(String, usize)>,
    pub commits: Vec<CommitInfo>,
    pub branches: Vec<BranchInfo>,
    pub authors: Vec<AuthorInfo>,
}

/// The characters of an optional string; absent means empty.
pub open spec fn spec_opt_chars(o: Option<String>) -> Seq<char> {
    match o {
        Some(s) => s@,
        None => Seq::<char>::empty(),
    }
}

/// How many parents a node keeps of a record: at most the first two.
pub open spec fn spec_kept_parents(r: CommitRecord) -> int {
    if r.parents@.len() > 2 {
        2
    } else {
        r.parents@.len() as int
    }
}

/// Whether `node` is the graph node derived from the record `r`,
/// leaving the child links aside.
pub open spec fn spec_node_core(r: CommitRecord, node: CommitInfo) -> bool {
    &&& node.oid@ == r.oid@
    &&& node.aid@ == spec_author_id(spec_opt_chars(r.author_name), spec_opt_chars(r.author_email))
    &&& node.timestamp == r.timestamp
    &&& node.message@ == spec_clipped_line(spec_opt_chars(r.message), 120)
    &&& node.is_merge == (r.parents@.len() > 1)
    &&& node.parents@.len() == spec_kept_parents(r)
    &&& forall|k: int| 0 <= k < node.parents@.len() ==> node.parents@[k]@ == r.parents@[k]@
}

/// Whether a record with this oid is already among `rs`.
pub open spec fn oid_among(rs: Seq<CommitRecord>, oid: Seq<char>) -> bool {
    exists|i: int| 0 <= i < rs.len() && rs[i].oid@ == oid
}

/// The records that the graph keeps: stash commits are dropped, and of
/// commits visited twice only the first visit counts.
pub open spec fn spec_keep(records: Seq<CommitRecord>, stash: Seq<String>) -> Seq<CommitRecord>
    decreases records.len(),
{
    if records.len() == 0 {
        Seq::<CommitRecord>::empty()
    } else {
        let prefix = spec_keep(records.drop_last(), stash);
        let r = records.last();
        if seq_has_str(stash, r.oid@) || oid_among(prefix, r.oid@) {
            prefix
        } else {
            prefix.push(r)
        }
    }
}

/// Whether every kept parent link of every node resolves to a kept
/// record.
pub open spec fn spec_parents_resolved(kept: Seq<CommitRecord>) -> bool {
    forall|c: int, k: int|
        0 <= c < kept.len() && 0 <= k < spec_kept_parents(kept[c]) ==> oid_among(
            kept,
            #[trigger] kept[c].parents@[k]@,
        )
}

/// Whether commit `c` of `nodes` links to the node with oid `oid` as a
/// parent.
pub open spec fn is_link(nodes: Seq<CommitInfo>, c: int, oid: Seq<char>) -> bool {
    0 <= c < nodes.len() && exists|k: int|
        0 <= k < nodes[c].parents@.len() && nodes[c].parents@[k]@ == oid
}

/// Whether `s` is the oid of some commit that links to the node with
/// oid `oid` as a parent.
pub open spec fn child_of(nodes: Seq<CommitInfo>, oid: Seq<char>, s: Seq<char>) -> bool {
    exists|c: int| #![auto] is_link(nodes, c, oid) && s == nodes[c].oid@
}

/// Whether `ch` holds exactly the child back-links of the node at `j`:
/// the oid of every linking commit, each once, and nothing else.
pub open spec fn children_exact_at(nodes: Seq<CommitInfo>, j: int, ch: Seq<String>) -> bool {
    &&& forall|c: int| #[trigger] is_link(nodes, c, nodes[j].oid@) ==> seq_has_str(ch, nodes[c].oid@)
    &&& forall|m: int| 0 <= m < ch.len() ==> child_of(nodes, nodes[j].oid@, #[trigger] ch[m]@)
    &&& forall|m1: int, m2: int| 0 <= m1 < m2 < ch.len() ==> (#[trigger] ch[m1]@) != (#[trigger] ch[m2]@)
}

/// Child links are exactly the inverse of the kept parent links, for
/// every node of the graph.
pub open spec fn children_exact(nodes: Seq<CommitInfo>) -> bool {
    forall|j: int| 0 <= j < nodes.len() ==> children_exact_at(nodes, j, #[trigger] nodes[j].children@)
}

/// The structural invariant of a history graph: every node keeps at
/// most two parents, oids are distinct, and the index mapping sends
/// each node's oid to its position.
pub open spec fn wf_graph(g: HistoryGraph) -> bool {
    &&& g.commit_indices@.len() == g.commits@.len()
    &&& forall|i: int|
        0 <= i < g.commits@.len() ==> (#[trigger] g.commit_indices@[i].0@) == g.commits@[i].oid@
            && g.commit_indices@[i].1 == i
    &&& forall|i: int| 0 <= i < g.commits@.len() ==> (#[trigger] g.commits@[i].parents@.len()) <= 2
    &&& forall|i: int, j: int|
        0 <= i < j < g.commits@.len() ==> (#[trigger] g.commits@[i].oid@) != (
        #[trigger] g.commits@[j].oid@)
}

/// The position of the node with the given oid, or None where no node
/// carries it.
pub fn index_of_oid(nodes: &Vec<CommitInfo>, oid: &str) -> (r: Option<usize>)
    ensures
        match r {
            Some(i) => i < nodes@.len() && nodes@[i as int].oid@ == oid@,
            None => forall|i: int| 0 <= i < nodes@.len() ==> nodes@[i].oid@ != oid@,
        },
{
    let mut i: usize = 0;
    while i < nodes.len()
        invariant
            i <= nodes@.len(),
            forall|j: int| 0 <= j < i ==> nodes@[j].oid@ != oid@,
        decreases nodes@.len() - i,
    {
        if str_eq(nodes[i].oid.as_str(), oid) {
            return Some(i);
        }
        i = i + 1;
    }
    None
}

/// The position that the graph's index mapping assigns to `oid`.  In a
/// well-formed graph this is the position of the node with that oid.
pub fn commit_index_of(g: &HistoryGraph, oid: &str) -> (r: Option<usize>)
    requires
        wf_graph(*g),
    ensures
        match r {
            Some(i) => i < g.commits@.len() && g.commits@[i as int].oid@ == oid@,
            None => forall|i: int| 0 <= i < g.commits@.len() ==> g.commits@[i].oid@ != oid@,
        },
{
    index_of_oid(&g.commits, oid)
}

/// Derives one graph node from one backend record, with no child links
/// yet.  Absent signature parts fall back to the empty string.
fn node_of_record(r: &CommitRecord) -> (node: CommitInfo)
    ensures
        spec_node_core(*r, node),
        node.children@.len() == 0,
{
    let empty = String::new();
    let name: &String = match &r.author_name {
        Some(s) => s,
        None => &empty,
    };
    let email: &String = match &r.author_email {
        Some(s) => s,
        None => &empty,
    };
    let aid = get_author_id(name, email);
    let msg: &String = match &r.message {
        Some(s) => s,
        None => &empty,
    };
    let message = clipped_line(msg.as_str(), 120);
    let mut parents: Vec<String> = Vec::new();
    if r.parents.len() > 0 {
        parents.push(r.parents[0].clone());
    }
    if r.parents.len() > 1 {
        parents.push(r.parents[1].clone());
    }
    CommitInfo {
        oid: r.oid.clone(),
        aid,
        timestamp: r.timestamp,
        message,
        is_merge: r.parents.len() > 1,
        parents,
        children: Vec::new(),
    }
}

/// The graph nodes of the kept records, in traversal order, child
/// links still empty.
fn build_nodes(records: &Vec<CommitRecord>, stash: &Vec<String>) -> (nodes: Vec<CommitInfo>)
    ensures
        nodes@.len() == spec_keep(records@, stash@).len(),
        forall|i: int|
            0 <= i < nodes@.len() ==> spec_node_core(
                spec_keep(records@, stash@)[i],
                #[trigger] nodes@[i],
            ),
        forall|i: int| 0 <= i < nodes@.len() ==> (#[trigger] nodes@[i]).children@.len() == 0,
{
    let mut nodes: Vec<CommitInfo> = Vec::new();
    let mut j: usize = 0;
    proof {
        assert(records@.take(0) =~= Seq::<CommitRecord>::empty());
    }
    while j < records.len()
        invariant
            j <= records@.len(),
            nodes@.len() == spec_keep(records@.take(j as int), stash@).len(),
            forall|i: int|
                0 <= i < nodes@.len() ==> spec_node_core(
                    spec_keep(records@.take(j as int), stash@)[i],
                    #[trigger] nodes@[i],
                ),
            forall|i: int| 0 <= i < nodes@.len() ==> (#[trigger] nodes@[i]).children@.len() == 0,
        decreases records@.len() - j,
    {
        let ghost kept_j = spec_keep(records@.take(j as int), stash@);
        proof {
            assert(records@.take(j + 1 as int).drop_last() =~= records@.take(j as int));
            assert(records@.take(j + 1 as int).last() == records@[j as int]);
        }
        let rec = &records[j];
        let in_stash = contains_str(stash, rec.oid.as_str());
        let dup = index_of_oid(&nodes, rec.oid.as_str());
        if !in_stash && dup.is_none() {
            proof {
                assert forall|i: int| 0 <= i < kept_j.len() implies kept_j[i].oid@ != rec.oid@ by {
                    assert(nodes@[i].oid@ == kept_j[i].oid@);
                }
                assert(!oid_among(kept_j, rec.oid@));
            }
            let node = node_of_record(rec);
            nodes.push(node);
        } else {
            proof {
                if !in_stash {
                    let i = choose|i: int|
                        0 <= i < nodes@.len() && nodes@[i].oid@ == rec.oid@;
                    assert(kept_j[i].oid@ == rec.oid@);
                    assert(oid_among(kept_j, rec.oid@));
                }
            }
        }
        j = j + 1;
    }
    proof {
        assert(records@.take(records@.len() as int) =~= records@);
    }
    nodes
}

/// Whether some node of `nodes` carries this oid.
pub open spec fn oid_present(nodes: Seq<CommitInfo>, oid: Seq<char>) -> bool {
    exists|p: int| 0 <= p < nodes.len() && nodes[p].oid@ == oid
}

/// Whether every parent link of every node resolves to a node of the
/// graph.
pub open spec fn spec_nodes_resolved(nodes: Seq<CommitInfo>) -> bool {
    forall|c: int, k: int|
        0 <= c < nodes.len() && 0 <= k < nodes[c].parents@.len() ==> oid_present(
            nodes,
            #[trigger] nodes[c].parents@[k]@,
        )
}

fn validate_parents(nodes: &Vec<CommitInfo>) -> (ok: bool)
    ensures
        ok == spec_nodes_resolved(nodes@),
{
    let mut c: usize = 0;
    while c < nodes.len()
        invariant
            forall|c2: int, k: int|
                0 <= c2 < c && c2 < nodes@.len() && 0 <= k < nodes@[c2].parents@.len()
                    ==> oid_present(nodes@, #[trigger] nodes@[c2].parents@[k]@),
        decreases nodes@.len() - c,
    {
        let mut k: usize = 0;
        while k < nodes[c].parents.len()
            invariant
                0 <= c < nodes@.len(),
                forall|c2: int, k2: int|
                    0 <= c2 < c && 0 <= k2 < nodes@[c2].parents@.len() ==> oid_present(
                        nodes@,
                        #[trigger] nodes@[c2].parents@[k2]@,
                    ),
                forall|k2: int|
                    0 <= k2 < k ==> oid_present(nodes@, #[trigger] nodes@[c as int].parents@[k2]@),
            decreases nodes@[c as int].parents@.len() - k,
        {
            if index_of_oid(nodes, nodes[c].parents[k].as_str()).is_none() {
                return false;
            }
            k = k + 1;
        }
        c = c + 1;
    }
    true
}

fn collect_children(nodes: &Vec<CommitInfo>, j: usize) -> (ch: Vec<String>)
    requires
        j < nodes@.len(),
    ensures
        children_exact_at(nodes@, j as int, ch@),
{
    let mut ch: Vec<String> = Vec::new();
    let ghost mut src: Seq<int> = Seq::<int>::empty();
    let mut c: usize = 0;
    while c < nodes.len()
        invariant
            j < nodes@.len(),
            src.len() == ch@.len(),
            forall|m: int|
                0 <= m < ch@.len() ==> is_link(nodes@, #[trigger] src[m], nodes@[j as int].oid@)
                    && ch@[m]@ == nodes@[src[m]].oid@,
            forall|c2: int|
                0 <= c2 < c && #[trigger] is_link(nodes@, c2, nodes@[j as int].oid@)
                    ==> seq_has_str(ch@, nodes@[c2].oid@),
            forall|m1: int, m2: int|
                0 <= m1 < m2 < ch@.len() ==> (#[trigger] ch@[m1]@) != (#[trigger] ch@[m2]@),
        decreases nodes@.len() - c,
    {
        let mut k: usize = 0;
        while k < nodes[c].parents.len()
            invariant
                j < nodes@.len(),
                0 <= c < nodes@.len(),
                k <= nodes@[c as int].parents@.len(),
                src.len() == ch@.len(),
                forall|m: int|
                    0 <= m < ch@.len() ==> is_link(
                        nodes@,
                        #[trigger] src[m],
                        nodes@[j as int].oid@,
                    ) && ch@[m]@ == nodes@[src[m]].oid@,
                forall|c2: int|
                    0 <= c2 < c && #[trigger] is_link(nodes@, c2, nodes@[j as int].oid@)
                        ==> seq_has_str(ch@, nodes@[c2].oid@),
                forall|k2: int|
                    0 <= k2 < k && nodes@[c as int].parents@[k2]@ == nodes@[j as int].oid@
                        ==> seq_has_str(ch@, nodes@[c as int].oid@),
                forall|m1: int, m2: int|
                    0 <= m1 < m2 < ch@.len() ==> (#[trigger] ch@[m1]@) != (#[trigger] ch@[m2]@),
            decreases nodes@[c as int].parents@.len() - k,
        {
            if str_eq(nodes[c].parents[k].as_str(), nodes[j].oid.as_str()) {
                if !contains_str(&ch, nodes[c].oid.as_str()) {
                    let ghost old_ch = ch@;
                    ch.push(nodes[c].oid.clone());
                    proof {
                        src = src.push(c as int);
                        assert(is_link(nodes@, c as int, nodes@[j as int].oid@));
                        assert forall|s: Seq<char>| seq_has_str(old_ch, s) implies seq_has_str(
                            ch@,
                            s,
                        ) by {
                            let m = choose|m: int| 0 <= m < old_ch.len() && old_ch[m]@ == s;
                            assert(ch@[m]@ == s);
                        }
                        assert(ch@[ch@.len() - 1]@ == nodes@[c as int].oid@);
                        assert(seq_has_str(ch@, nodes@[c as int].oid@));
                    }
                } else {
                    proof {
                        let m = choose|m: int|
                            0 <= m < ch@.len() && ch@[m]@ == nodes@[c as int].oid@;
                        assert(seq_has_str(ch@, nodes@[c as int].oid@));
                    }
                }
            }
            k = k + 1;
        }
        proof {
            if is_link(nodes@, c as int, nodes@[j as int].oid@) {
                let k2 = choose|k2: int|
                    0 <= k2 < nodes@[c as int].parents@.len() && nodes@[c as int].parents@[k2]@
                        == nodes@[j as int].oid@;
                assert(seq_has_str(ch@, nodes@[c as int].oid@));
            }
        }
        c = c + 1;
    }
    proof {
        assert forall|m: int| 0 <= m < ch@.len() implies child_of(
            nodes@,
            nodes@[j as int].oid@,
            #[trigger] ch@[m]@,
        ) by {
            assert(is_link(nodes@, src[m], nodes@[j as int].oid@) && ch@[m]@
                == nodes@[src[m]].oid@);
        }
    }
    ch
}

/// The kept records carry distinct oids, all come from the input, and
/// none is a stash commit.
proof fn lemma_keep_shape(records: Seq<CommitRecord>, stash: Seq<String>)
    ensures
        forall|i: int, j: int|
            0 <= i < j < spec_keep(records, stash).len() ==> (#[trigger] spec_keep(
                records,
                stash,
            )[i].oid@) != (#[trigger] spec_keep(records, stash)[j].oid@),
        forall|i: int|
            0 <= i < spec_keep(records, stash).len() ==> records.contains(
                #[trigger] spec_keep(records, stash)[i],
            ),
        forall|i: int|
            0 <= i < spec_keep(records, stash).len() ==> !seq_has_str(
                stash,
                (#[trigger] spec_keep(records, stash)[i]).oid@,
            ),
    decreases records.len(),
{
    if records.len() == 0 {
    } else {
        lemma_keep_shape(records.drop_last(), stash);
        let prefix = spec_keep(records.drop_last(), stash);
        let keep = spec_keep(records, stash);
        assert forall|i: int|
            0 <= i < prefix.len() implies records.contains(#[trigger] prefix[i]) by {
            let w = choose|w: int| 0 <= w < records.drop_last().len() && records.drop_last()[w]
                == prefix[i];
            assert(records[w] == prefix[i]);
        }
        let r = records.last();
        if seq_has_str(stash, r.oid@) || oid_among(prefix, r.oid@) {
        } else {
            assert(keep == prefix.push(r));
            assert(records.contains(r)) by {
                assert(records[records.len() - 1] == r);
            }
            assert forall|i: int, j: int|
                0 <= i < j < keep.len() implies keep[i].oid@ != keep[j].oid@ by {
                if j == keep.len() - 1 {
                    assert(keep[j] == r);
                    assert(keep[i] == prefix[i]);
                    assert(!oid_among(prefix, r.oid@));
                }
            }
        }
    }
}

/// Kept parent links resolve among the kept records exactly when the
/// derived nodes' parent links resolve among the nodes.
proof fn lemma_resolved_bridge(nodes: Seq<CommitInfo>, kept: Seq<CommitRecord>)
    requires
        nodes.len() == kept.len(),
        forall|i: int| 0 <= i < nodes.len() ==> spec_node_core(kept[i], #[trigger] nodes[i]),
    ensures
        spec_nodes_resolved(nodes) == spec_parents_resolved(kept),
{
    assert forall|oid: Seq<char>| oid_present(nodes, oid) == oid_among(kept, oid) by {
        if oid_present(nodes, oid) {
            let p = choose|p: int| 0 <= p < nodes.len() && nodes[p].oid@ == oid;
            assert(kept[p].oid@ == oid);
            assert(oid_among(kept, oid));
        }
        if oid_among(kept, oid) {
            let p = choose|p: int| 0 <= p < kept.len() && kept[p].oid@ == oid;
            assert(nodes[p].oid@ == oid);
            assert(oid_present(nodes, oid));
        }
    }
    if spec_nodes_resolved(nodes) {
        assert forall|c: int, k: int|
            0 <= c < kept.len() && 0 <= k < spec_kept_parents(kept[c]) implies oid_among(
            kept,
            #[trigger] kept[c].parents@[k]@,
        ) by {
            assert(nodes[c].parents@[k]@ == kept[c].parents@[k]@);
            assert(oid_present(nodes, nodes[c].parents@[k]@));
        }
    }
    if spec_parents_resolved(kept) {
        assert forall|c: int, k: int|
            0 <= c < nodes.len() && 0 <= k < nodes[c].parents@.len() implies oid_present(
            nodes,
            #[trigger] nodes[c].parents@[k]@,
        ) by {
            assert(nodes[c].parents@[k]@ == kept[c].parents@[k]@);
            assert(oid_among(kept, kept[c].parents@[k]@));
        }
    }
}

/// Child-link exactness carries from the bare nodes to the assembled
/// nodes, whose cores are equal.
proof fn lemma_children_transfer(nodes: Seq<CommitInfo>, commits: Seq<CommitInfo>)
    requires
        nodes.len() == commits.len(),
        forall|i: int| 0 <= i < nodes.len() ==> (#[trigger] commits[i]).oid@ == nodes[i].oid@,
        forall|i: int| 0 <= i < nodes.len() ==> (#[trigger] commits[i]).parents@ == nodes[i].parents@,
        forall|j: int|
            0 <= j < nodes.len() ==> children_exact_at(nodes, j, (#[trigger] commits[j]).children@),
    ensures
        children_exact(commits),
{
    assert forall|j: int|
        0 <= j < commits.len() implies children_exact_at(
        commits,
        j,
        #[trigger] commits[j].children@,
    ) by {
        let ch = commits[j].children@;
        assert forall|c: int|
            #[trigger] is_link(commits, c, commits[j].oid@) implies seq_has_str(
            ch,
            commits[c].oid@,
        ) by {
            let k = choose|k: int|
                0 <= k < commits[c].parents@.len() && commits[c].parents@[k]@ == commits[j].oid@;
            assert(nodes[c].parents@[k]@ == nodes[j].oid@);
            assert(is_link(nodes, c, nodes[j].oid@));
            assert(seq_has_str(ch, nodes[c].oid@));
        }
        assert forall|m: int|
            0 <= m < ch.len() implies child_of(commits, commits[j].oid@, #[trigger] ch[m]@) by {
            assert(child_of(nodes, nodes[j].oid@, ch[m]@));
            let c = choose|c: int| #![auto] is_link(nodes, c, nodes[j].oid@) && ch[m]@
                == nodes[c].oid@;
            let k = choose|k: int|
                0 <= k < nodes[c].parents@.len() && nodes[c].parents@[k]@ == nodes[j].oid@;
            assert(commits[c].parents@[k]@ == commits[j].oid@);
            assert(is_link(commits, c, commits[j].oid@));
            assert(ch[m]@ == commits[c].oid@);
        }
    }
}

/// Whether some author entry carries this id.
pub open spec fn seq_has_author(authors: Seq<AuthorInfo>, id: Seq<char>) -> bool {
    exists|a: int| 0 <= a < authors.len() && authors[a].id@ == id
}

fn index_of_author(authors: &Vec<AuthorInfo>, id: &str) -> (r: Option<usize>)
    ensures
        match r {
            Some(i) => i < authors@.len() && authors@[i as int].id@ == id@,
            None => forall|i: int| 0 <= i < authors@.len() ==> authors@[i].id@ != id@,
        },
{
    let mut i: usize = 0;
    while i < authors.len()
        invariant
            i <= authors@.len(),
            forall|j: int| 0 <= j < i ==> authors@[j].id@ != id@,
        decreases authors@.len() - i,
    {
        if str_eq(authors[i].id.as_str(), id) {
            return Some(i);
        }
        i = i + 1;
    }
    None
}

/// The distinct authors among the records: one entry per derived author
/// id, carrying the first-seen name and email.
pub fn collect_authors(records: &Vec<CommitRecord>) -> (authors: Vec<AuthorInfo>)
    ensures
        forall|a: int, b: int|
            0 <= a < b < authors@.len() ==> (#[trigger] authors@[a].id@) != (
            #[trigger] authors@[b].id@),
        forall|a: int|
            0 <= a < authors@.len() ==> (#[trigger] authors@[a]).id@ == spec_author_id(
                authors@[a].name@,
                authors@[a].email@,
            ),
        forall|j: int|
            0 <= j < records@.len() ==> seq_has_author(
                authors@,
                spec_author_id(
                    spec_opt_chars((#[trigger] records@[j]).author_name),
                    spec_opt_chars(records@[j].author_email),
                ),
            ),
{
    let mut authors: Vec<AuthorInfo> = Vec::new();
    let mut j: usize = 0;
    while j < records.len()
        invariant
            j <= records@.len(),
            forall|a: int, b: int|
                0 <= a < b < authors@.len() ==> (#[trigger] authors@[a].id@) != (
                #[trigger] authors@[b].id@),
            forall|a: int|
                0 <= a < authors@.len() ==> (#[trigger] authors@[a]).id@ == spec_author_id(
                    authors@[a].name@,
                    authors@[a].email@,
                ),
            forall|j2: int|
                0 <= j2 < j ==> seq_has_author(
                    authors@,
                    spec_author_id(
                        spec_opt_chars((#[trigger] records@[j2]).author_name),
                        spec_opt_chars(records@[j2].author_email),
                    ),
                ),
        decreases records@.len() - j,
    {
        let rec = &records[j];
        let empty = String::new();
        let name: &String = match &rec.author_name {
            Some(s) => s,
            None => &empty,
        };
        let email: &String = match &rec.author_email {
            Some(s) => s,
            None => &empty,
        };
        let aid = get_author_id(name, email);
        let ghost old_authors = authors@;
        if index_of_author(&authors, aid.as_str()).is_none() {
            authors.push(
                AuthorInfo { id: aid, name: name.clone(), email: email.clone() },
            );
            proof {
                assert forall|id: Seq<char>| seq_has_author(old_authors, id) implies seq_has_author(
                    authors@,
                    id,
                ) by {
                    let a = choose|a: int| 0 <= a < old_authors.len() && old_authors[a].id@ == id;
                    assert(authors@[a].id@ == id);
                }
                assert(authors@[authors@.len() - 1].id@ == spec_author_id(name@, email@));
                assert(seq_has_author(authors@, spec_author_id(name@, email@)));
            }
        } else {
            proof {
                let a = choose|a: int|
                    0 <= a < authors@.len() && authors@[a].id@ == spec_author_id(name@, email@);
                assert(seq_has_author(authors@, spec_author_id(name@, email@)));
            }
        }
        j = j + 1;
    }
    authors
}

/// The branch table: one entry per (name, tip) pair, in order.
pub fn branches_of_tips(tips: &Vec<(String, String)>) -> (bs: Vec<BranchInfo>)
    ensures
        bs@.len() == tips@.len(),
        forall|i: int|
            0 <= i < tips@.len() ==> (#[trigger] bs@[i]).name@ == tips@[i].0@ && bs@[i].id@
                == tips@[i].1@ && bs@[i].last_commit_id@ == tips@[i].1@,
{
    let mut bs: Vec<BranchInfo> = Vec::new();
    let mut i: usize = 0;
    while i < tips.len()
        invariant
            i <= tips@.len(),
            bs@.len() == i,
            forall|m: int|
                0 <= m < i ==> (#[trigger] bs@[m]).name@ == tips@[m].0@ && bs@[m].id@
                    == tips@[m].1@ && bs@[m].last_commit_id@ == tips@[m].1@,
        decreases tips@.len() - i,
    {
        bs.push(
            BranchInfo {
                id: tips[i].1.clone(),
                name: tips[i].0.clone(),
                last_commit_id: tips[i].1.clone(),
            },
        );
        i = i + 1;
    }
    bs
}

/// Builds the full history graph from the backend's traversal records.
///
/// Stash commits are dropped; a commit visited twice is kept once, at
/// its first position; parents are truncated to the first two; child
/// links are exactly the inverse of the kept parent links.  The build
/// fails exactly where a kept parent link of some node but the first
/// does not resolve to a kept commit, as with a truncated history.
pub fn build_history_graph(
    records: &Vec<CommitRecord>,
    stash: &Vec<String>,
    branch_tips: &Vec<(String, String)>,
) -> (r: Result<HistoryGraph, String>)
    ensures
        (r is Ok) == spec_parents_resolved(spec_keep(records@, stash@)),
        r matches Ok(g) ==> {
            &&& wf_graph(g)
            &&& children_exact(g.commits@)
            &&& g.commits@.len() == spec_keep(records@, stash@).len()
            &&& forall|i: int|
                0 <= i < g.commits@.len() ==> spec_node_core(
                    spec_keep(records@, stash@)[i],
                    #[trigger] g.commits@[i],
                )
            &&& g.branches@.len() == branch_tips@.len()
            &&& forall|i: int|
                0 <= i < branch_tips@.len() ==> (#[trigger] g.branches@[i]).name@
                    == branch_tips@[i].0@ && g.branches@[i].last_commit_id@ == branch_tips@[i].1@
                    && g.branches@[i].id@ == branch_tips@[i].1@
            &&& forall|a: int, b: int|
                0 <= a < b < g.authors@.len() ==> (#[trigger] g.authors@[a].id@) != (
                #[trigger] g.authors@[b].id@)
            &&& forall|i: int|
                0 <= i < g.commits@.len() ==> seq_has_author(
                    g.authors@,
                    (#[trigger] g.commits@[i]).aid@,
                )
        },
{
    let ghost kept = spec_keep(records@, stash@);
    let nodes = build_nodes(records, stash);
    proof {
        lemma_keep_shape(records@, stash@);
        lemma_resolved_bridge(nodes@, kept);
    }
    if !validate_parents(&nodes) {
        return Err(String::from_str("graph build failed: a parent commit is not in the graph"));
    }
    let n = nodes.len();
    let mut commits: Vec<CommitInfo> = Vec::new();
    let mut indices: Vec<(String, usize)> = Vec::new();
    let mut j: usize = 0;
    while j < n
        invariant
            n == nodes@.len(),
            commits@.len() == j,
            indices@.len() == j,
            j <= n,
            forall|i: int|
                0 <= i < j ==> {
                    let c = #[trigger] commits@[i];
                    let nd = nodes@[i];
                    c.oid == nd.oid && c.aid == nd.aid && c.timestamp == nd.timestamp && c.message
                        == nd.message && c.is_merge == nd.is_merge && c.parents@ == nd.parents@
                },
            forall|i: int|
                0 <= i < j ==> children_exact_at(nodes@, i, (#[trigger] commits@[i]).children@),
            forall|i: int|
                0 <= i < j ==> (#[trigger] indices@[i]).0 == nodes@[i].oid && indices@[i].1 == i,
        decreases n - j,
    {
        let ch = collect_children(&nodes, j);
        let nd = &nodes[j];
        commits.push(
            CommitInfo {
                oid: nd.oid.clone(),
                aid: nd.aid.clone(),
                timestamp: nd.timestamp,
                message: nd.message.clone(),
                is_merge: nd.is_merge,
                parents: clone_strings(&nd.parents),
                children: ch,
            },
        );
        indices.push((nd.oid.clone(), j));
        j = j + 1;
    }
    let branches = branches_of_tips(branch_tips);
    let authors = collect_authors(records);
    let g = HistoryGraph { commit_indices: indices, commits, branches, authors };
    proof {
        assert forall|i: int|
            0 <= i < g.commits@.len() implies spec_node_core(kept[i], #[trigger] g.commits@[i]) by {
            assert(spec_node_core(kept[i], nodes@[i]));
        }
        lemma_children_transfer(nodes@, g.commits@);
        assert forall|i: int, j2: int|
            0 <= i < j2 < g.commits@.len() implies (#[trigger] g.commits@[i].oid@) != (
        #[trigger] g.commits@[j2].oid@) by {
            assert(kept[i].oid@ != kept[j2].oid@);
        }
        assert forall|i: int|
            0 <= i < g.commits@.len() implies seq_has_author(
            g.authors@,
            (#[trigger] g.commits@[i]).aid@,
        ) by {
            assert(records@.contains(kept[i]));
            let m = choose|m: int| 0 <= m < records@.len() && records@[m] == kept[i];
            assert(seq_has_author(
                g.authors@,
                spec_author_id(
                    spec_opt_chars(records@[m].author_name),
                    spec_opt_chars(records@[m].author_email),
                ),
            ));
            assert(g.commits@[i].aid@ == spec_author_id(
                spec_opt_chars(kept[i].author_name),
                spec_opt_chars(kept[i].author_email),
            ));
        }
    }
    Ok(g)
}

/// Options for a stand-alone graph build.
pub struct GetCommitTreeOptions {
    pub repo_path: String,
}

/// A history graph together with its textual rendering.
pub struct CommitTree {
    pub graph: HistoryGraph,
    pub dot: String,
}

/// A short label for a commit id: its first seven characters.
pub open spec fn spec_short(oid: Seq<char>) -> Seq<char> {
    if oid.len() > 7 {
        oid.take(7)
    } else {
        oid
    }
}

/// One edge line of the rendering: parent, arrow, child.
pub open spec fn spec_edge_text(p: Seq<char>, c: Seq<char>) -> Seq<char> {
    "  "@ + spec_short(p) + " -> "@ + spec_short(c) + "\n"@
}

/// One node's lines of the rendering: its label, then one edge per
/// kept parent.
pub open spec fn spec_node_text(c: CommitInfo) -> Seq<char> {
    let base = "  "@ + spec_short(c.oid@) + "\n"@;
    if c.parents@.len() == 0 {
        base
    } else if c.parents@.len() == 1 {
        base + spec_edge_text(c.parents@[0]@, c.oid@)
    } else {
        base + spec_edge_text(c.parents@[0]@, c.oid@) + spec_edge_text(c.parents@[1]@, c.oid@)
    }
}

/// The rendering of the first `i` nodes.
pub open spec fn spec_render_upto(commits: Seq<CommitInfo>, i: int) -> Seq<char>
    decreases i,
{
    if i <= 0 {
        Seq::<char>::empty()
    } else {
        spec_render_upto(commits, i - 1) + spec_node_text(commits[i - 1])
    }
}

/// The full textual rendering of a graph: a directed-graph header, one
/// label line per node, one edge line per kept parent link, a closing
/// brace.
pub open spec fn spec_graph_text(commits: Seq<CommitInfo>) -> Seq<char> {
    "digraph {\n"@ + spec_render_upto(commits, commits.len() as int) + "}\n"@
}

fn short_label(oid: &String) -> (r: String)
    ensures
        r@ == spec_short(oid@),
{
    let n = oid.as_str().unicode_len();
    if n > 7 {
        let s = oid.as_str().substring_char(0, 7);
        let r = String::from_str(s);
        assert(r@ =~= spec_short(oid@));
        r
    } else {
        oid.clone()
    }
}

fn push_edge(acc: String, p: &String, c: &String) -> (r: String)
    ensures
        r@ == acc@ + spec_edge_text(p@, c@),
{
    let r = acc.concat("  ");
    let sp = short_label(p);
    let r = r.concat(sp.as_str());
    let r = r.concat(" -> ");
    let sc = short_label(c);
    let r = r.concat(sc.as_str());
    let r = r.concat("\n");
    proof {
        assert(r@ =~= acc@ + spec_edge_text(p@, c@));
    }
    r
}

/// Renders a graph's nodes and parent edges as text, nodes labeled by
/// a short prefix of the commit id, edges directed from parent to
/// child.
#[verifier::rlimit(60)]
pub fn render_graph_text(commits: &Vec<CommitInfo>) -> (r: String)
    ensures
        r@ == spec_graph_text(commits@),
{
    let mut acc = String::from_str("digraph {\n");
    let mut i: usize = 0;
    while i < commits.len()
        invariant
            i <= commits@.len(),
            acc@ == "digraph {\n"@ + spec_render_upto(commits@, i as int),
        decreases commits@.len() - i,
    {
        let ghost prev = acc@;
        let c = &commits[i];
        let ghost base = "  "@ + spec_short(c.oid@) + "\n"@;
        let line = acc.concat("  ");
        let label = short_label(&c.oid);
        let line = line.concat(label.as_str());
        let mut line = line.concat("\n");
        proof {
            assert(line@ =~= prev + base);
        }
        if c.parents.len() > 0 {
            line = push_edge(line, &c.parents[0], &c.oid);
            proof {
                assert(line@ =~= prev + (base + spec_edge_text(c.parents@[0]@, c.oid@)));
            }
        }
        if c.parents.len() > 1 {
            line = push_edge(line, &c.parents[1], &c.oid);
            proof {
                assert(line@ =~= prev + (base + spec_edge_text(c.parents@[0]@, c.oid@)
                    + spec_edge_text(c.parents@[1]@, c.oid@)));
            }
        }
        proof {
            assert(line@ =~= prev + spec_node_text(commits@[i as int]));
            assert(line@ =~= "digraph {\n"@ + (spec_render_upto(commits@, i as int)
                + spec_node_text(commits@[i as int])));
        }
        acc = line;
        i = i + 1;
    }
    let r = acc.concat("}\n");
    proof {
        assert(r@ =~= spec_graph_text(commits@));
    }
    r
}

} // verus!
