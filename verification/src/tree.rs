//! File-tree views.
//!
//! The batch view is the nested tree itself; the streaming view emits
//! one event per entry as the traversal encounters it: an "opening"
//! event ahead of a directory's descendants, a "closing" event for the
//! same path after them, plain classified events for leaves, and a
//! final opening-less closing event for the root.  Siblings are listed
//! fully before the traversal descends into any one subtree.

use vstd::prelude::*;

use crate::backend::{TreeEntryRecord, error_text, read_tree_level};
use crate::commits::str_views;
use crate::file_types::{get_file_type, spec_file_type};
use crate::strutil::clone_strings;

verus! {

/// A loosely-typed classification value: a pattern index for leaves, a
/// textual tag for folders.
pub enum CustomValue {
    Number(u32),
    Text(String),
}

/// One streaming traversal event.  `loading` is present only for
/// directory events: true opens, false closes.
pub struct FileTreeNode {
    pub path: Vec<String>,
    pub kind: Option<CustomValue>,
    pub loading: Option<bool>,
}

/// A file-tree request: the revision whose root tree is walked.
pub struct GetFileTreeParams {
    pub rev: String,
}

/// One node of the batch (nested) tree view.
pub enum TreeItem {
    Leaf { name: String },
    Dir { name: String, items: Vec<TreeItem> },
}

/// Whether every directory of `items` nests no deeper than `f` levels.
pub open spec fn depth_bounded(items: Seq<TreeItem>, f: nat) -> bool
    decreases f,
{
    forall|i: int|
        0 <= i < items.len() ==> match #[trigger] items[i] {
            TreeItem::Dir { items: sub, .. } => f > 0 && depth_bounded(sub@, (f - 1) as nat),
            TreeItem::Leaf { .. } => true,
        }
}

/// Whether `items` mirrors the read entries of one tree level: one
/// node per entry, in order, a leaf or a directory as the entry's kind
/// says, under the entry's name.
pub open spec fn items_match_entries(entries: Seq<TreeEntryRecord>, items: Seq<TreeItem>) -> bool {
    &&& items.len() == entries.len()
    &&& forall|i: int|
        0 <= i < items.len() ==> match #[trigger] items[i] {
            TreeItem::Leaf { name } => !entries[i].is_tree && name@ == entries[i].name@,
            TreeItem::Dir { name, .. } => entries[i].is_tree && name@ == entries[i].name@,
        }
}

/// Reads the nested tree below a tree object, leaves classified on the
/// way out, subtrees in the tree's own order.  Fails on a backend error
/// or where the tree nests deeper than `fuel` levels.
pub fn build_tree(repo: &git2::Repository, tree_oid: &str, fuel: u32) -> (r: Result<
    Vec<TreeItem>,
    String,
>)
    ensures
        r matches Ok(items) ==> depth_bounded(items@, fuel as nat),
    decreases fuel, 1int,
{
    let entries = match read_tree_level(repo, tree_oid) {
        Ok(e) => e,
        Err(e) => {
            return Err(error_text(&e));
        },
    };
    build_level(repo, &entries, fuel)
}

/// Builds the nodes of one tree level from its read entries: leaves as
/// they stand, each subtree read and built below its directory.
pub fn build_level(repo: &git2::Repository, entries: &Vec<TreeEntryRecord>, fuel: u32) -> (r:
    Result<Vec<TreeItem>, String>)
    ensures
        r matches Ok(items) ==> depth_bounded(items@, fuel as nat) && items_match_entries(
            entries@,
            items@,
        ),
    decreases fuel, 0int,
{
    let mut items: Vec<TreeItem> = Vec::new();
    let mut i: usize = 0;
    while i < entries.len()
        invariant
            i <= entries@.len(),
            items@.len() == i,
            depth_bounded(items@, fuel as nat),
            forall|m: int|
                0 <= m < i ==> match #[trigger] items@[m] {
                    TreeItem::Leaf { name } => !entries@[m].is_tree && name@ == entries@[m].name@,
                    TreeItem::Dir { name, .. } => entries@[m].is_tree && name@
                        == entries@[m].name@,
                },
        decreases entries@.len() - i,
    {
        let entry = &entries[i];
        let ghost old_items = items@;
        if entry.is_tree {
            if fuel == 0 {
                return Err(String::from_str("tree walk failed: nesting too deep"));
            }
            let sub = match build_tree(repo, entry.oid.as_str(), fuel - 1) {
                Ok(s) => s,
                Err(e) => {
                    return Err(e);
                },
            };
            items.push(TreeItem::Dir { name: entry.name.clone(), items: sub });
        } else {
            items.push(TreeItem::Leaf { name: entry.name.clone() });
        }
        proof {
            assert forall|m: int|
                0 <= m < items@.len() implies match #[trigger] items@[m] {
                TreeItem::Dir { items: sub, .. } => fuel > 0 && depth_bounded(
                    sub@,
                    (fuel - 1) as nat,
                ),
                TreeItem::Leaf { .. } => true,
            } by {
                if m < old_items.len() {
                    assert(items@[m] == old_items[m]);
                }
            }
        }
        i = i + 1;
    }
    Ok(items)
}

/// Whether `e` opens the directory path `q`.
pub open spec fn is_open_at(e: FileTreeNode, q: Seq<Seq<char>>) -> bool {
    e.loading == Some(true) && str_views(e.path@) == q
}

/// Whether `e` closes the directory path `q`.
pub open spec fn is_close_at(e: FileTreeNode, q: Seq<Seq<char>>) -> bool {
    e.loading == Some(false) && str_views(e.path@) == q
}

/// How many events of `evs` open the path `q`.
pub open spec fn count_open(evs: Seq<FileTreeNode>, q: Seq<Seq<char>>) -> int
    decreases evs.len(),
{
    if evs.len() == 0 {
        0
    } else {
        count_open(evs.drop_last(), q) + if is_open_at(evs.last(), q) {
            1int
        } else {
            0int
        }
    }
}

/// How many events of `evs` close the path `q`.
pub open spec fn count_close(evs: Seq<FileTreeNode>, q: Seq<Seq<char>>) -> int
    decreases evs.len(),
{
    if evs.len() == 0 {
        0
    } else {
        count_close(evs.drop_last(), q) + if is_close_at(evs.last(), q) {
            1int
        } else {
            0int
        }
    }
}

proof fn lemma_count_concat(a: Seq<FileTreeNode>, b: Seq<FileTreeNode>, q: Seq<Seq<char>>)
    ensures
        count_open(a + b, q) == count_open(a, q) + count_open(b, q),
        count_close(a + b, q) == count_close(a, q) + count_close(b, q),
    decreases b.len(),
{
    if b.len() == 0 {
        assert(a + b =~= a);
    } else {
        lemma_count_concat(a, b.drop_last(), q);
        assert((a + b).drop_last() =~= a + b.drop_last());
        assert((a + b).last() == b.last());
    }
}

/// How many directories of `items` a traversal under the path `pv`
/// announces with path `q`.
pub open spec fn count_dirs_at(items: Seq<TreeItem>, pv: Seq<Seq<char>>, q: Seq<Seq<char>>) -> int
    decreases items.len(),
{
    if items.len() == 0 {
        0
    } else {
        count_dirs_at(items.drop_last(), pv, q) + match items.last() {
            TreeItem::Dir { name, .. } => if pv.push(name@) == q {
                1int
            } else {
                0int
            },
            TreeItem::Leaf { .. } => 0int,
        }
    }
}

/// Whether the path views `p` lie strictly under the directory path
/// `q`.
pub open spec fn path_under(p: Seq<Seq<char>>, q: Seq<Seq<char>>) -> bool {
    q.len() < p.len() && p.take(q.len() as int) == q
}

/// The name of one tree entry.
pub open spec fn item_name(item: TreeItem) -> Seq<char> {
    match item {
        TreeItem::Dir { name, .. } => name@,
        TreeItem::Leaf { name } => name@,
    }
}

/// Whether the directories of one level carry pairwise distinct names.
pub open spec fn dir_names_distinct(items: Seq<TreeItem>) -> bool {
    forall|i: int, j: int|
        0 <= i < j < items.len() && (#[trigger] items[i]) is Dir && (#[trigger] items[j]) is Dir
            ==> item_name(items[i]) != item_name(items[j])
}

/// Whether position `j` closes the directory path `q` opened at `i`:
/// it lies past the opening, it is the only closing of `q`, and every
/// event under `q` lies between the two.
pub open spec fn closes_properly(evs: Seq<FileTreeNode>, i: int, q: Seq<Seq<char>>, j: int) -> bool {
    &&& i < j < evs.len()
    &&& is_close_at(evs[j], q)
    &&& forall|k: int| 0 <= k < evs.len() && is_close_at(#[trigger] evs[k], q) ==> k == j
    &&& forall|k: int|
        0 <= k < evs.len() && path_under(str_views((#[trigger] evs[k]).path@), q) ==> i < k < j
}

/// Whether the directory path `q`, opened at position `i`, is closed
/// exactly once, later in the stream, with every event under `q` lying
/// between the opening and that closing.
pub open spec fn closed_between(evs: Seq<FileTreeNode>, i: int, q: Seq<Seq<char>>) -> bool {
    exists|j: int| #[trigger] closes_properly(evs, i, q, j)
}

/// Whether every closing of the directory path `qa` comes ahead of
/// every event of `qb`'s subtree: an event under `qb`, or the closing
/// of `qb` itself.
pub open spec fn closes_before(
    evs: Seq<FileTreeNode>,
    qa: Seq<Seq<char>>,
    qb: Seq<Seq<char>>,
) -> bool {
    forall|ka: int, kb: int|
        #![trigger evs[ka], evs[kb]]
        0 <= ka < evs.len() && 0 <= kb < evs.len() && is_close_at(evs[ka], qa) && (is_close_at(
            evs[kb],
            qb,
        ) || path_under(str_views(evs[kb].path@), qb)) ==> ka < kb
}

/// Whether the stream holds no closing for `q` and no event under it.
pub open spec fn untouched(evs: Seq<FileTreeNode>, q: Seq<Seq<char>>) -> bool {
    forall|k: int|
        0 <= k < evs.len() ==> !is_close_at(#[trigger] evs[k], q) && !path_under(
            str_views(evs[k].path@),
            q,
        )
}

/// A properly closed directory stays properly closed, at the same
/// position, when the stream grows by events that neither close it nor
/// lie under it.
proof fn lemma_closes_properly_extend(
    a: Seq<FileTreeNode>,
    b: Seq<FileTreeNode>,
    i: int,
    q: Seq<Seq<char>>,
    j: int,
)
    requires
        0 <= i,
        closes_properly(a, i, q, j),
        forall|m: int|
            0 <= m < b.len() ==> !is_close_at(#[trigger] b[m], q) && !path_under(
                str_views(b[m].path@),
                q,
            ),
    ensures
        closes_properly(a + b, i, q, j),
{
    assert((a + b)[j] == a[j]);
    assert forall|k: int| 0 <= k < (a + b).len() && is_close_at((a + b)[k], q) implies k == j by {
        if k < a.len() {
            assert((a + b)[k] == a[k]);
        } else {
            assert((a + b)[k] == b[k - a.len()]);
        }
    }
    assert forall|k: int|
        0 <= k < (a + b).len() && path_under(str_views((a + b)[k].path@), q) implies i < k < j by {
        if k < a.len() {
            assert((a + b)[k] == a[k]);
        } else {
            assert((a + b)[k] == b[k - a.len()]);
        }
    }
}

/// The events of one directory's traversal touch no sibling directory
/// of another name: none closes the sibling's path, none lies under it.
proof fn lemma_body_avoids(
    sub: Seq<FileTreeNode>,
    pv: Seq<Seq<char>>,
    cname: Seq<char>,
    oname: Seq<char>,
)
    requires
        cname != oname,
        sub.len() >= 1,
        is_close_at(sub.last(), pv.push(cname)),
        forall|m: int|
            0 <= m < sub.len() - 1 ==> path_under(
                str_views((#[trigger] sub[m]).path@),
                pv.push(cname),
            ),
    ensures
        forall|m: int|
            0 <= m < sub.len() ==> !is_close_at(#[trigger] sub[m], pv.push(oname)) && !path_under(
                str_views(sub[m].path@),
                pv.push(oname),
            ),
{
    let cq = pv.push(cname);
    let oq = pv.push(oname);
    assert(cq[pv.len() as int] == cname);
    assert(oq[pv.len() as int] == oname);
    assert forall|m: int|
        0 <= m < sub.len() implies !is_close_at(#[trigger] sub[m], oq) && !path_under(
        str_views(sub[m].path@),
        oq,
    ) by {
        let x = str_views(sub[m].path@);
        if m < sub.len() - 1 {
            assert(path_under(x, cq));
            assert(x.take(cq.len() as int)[pv.len() as int] == x[pv.len() as int]);
            assert(x[pv.len() as int] == cname);
            if is_close_at(sub[m], oq) {
                assert(x == oq);
                assert(x.len() == oq.len());
                assert(false);
            }
            if path_under(x, oq) {
                assert(x.take(oq.len() as int)[pv.len() as int] == x[pv.len() as int]);
                assert(cname == oname);
            }
        } else {
            assert(sub[m] == sub.last());
            assert(x == cq);
            if is_close_at(sub[m], oq) {
                assert(x == oq);
                assert(cq[pv.len() as int] == oq[pv.len() as int]);
                assert(false);
            }
            if path_under(x, oq) {
                assert(oq.len() < cq.len());
                assert(false);
            }
        }
    }
}

/// Whether `e` announces `item` under the path views `pv`: the event's
/// path appends the item's name to `pv`; a directory opens, a leaf
/// carries its classification and no loading flag.
pub open spec fn announces(e: FileTreeNode, item: TreeItem, pv: Seq<Seq<char>>) -> bool {
    match item {
        TreeItem::Dir { name, .. } => {
            &&& str_views(e.path@) == pv.push(name@)
            &&& e.loading == Some(true)
            &&& e.kind matches Some(CustomValue::Text(t)) && t@ == "folder"@
        },
        TreeItem::Leaf { name } => {
            &&& str_views(e.path@) == pv.push(name@)
            &&& e.loading is None
            &&& e.kind matches Some(CustomValue::Number(k)) && k as int == spec_file_type(name@)
        },
    }
}

/// The streaming traversal events of `items` under `prefix`.
///
/// The first `items.len()` events announce the entries in tree order;
/// the descendants of each directory follow, directory by directory;
/// the last event closes `prefix` itself.  For every path, closing
/// events match opening events one to one — the sole exception is
/// `prefix`, which is closed once and never opened here.  Where the
/// level's directories carry distinct names, each directory opened here
/// is closed exactly once, later, and every event under its path lies
/// between its opening and that closing; the same contract holds of the
/// recursive traversal below every directory.
pub fn tree_events(items: &Vec<TreeItem>, prefix: &Vec<String>, fuel: u32) -> (evs: Vec<
    FileTreeNode,
>)
    requires
        depth_bounded(items@, fuel as nat),
    ensures
        evs@.len() > items@.len(),
        forall|i: int| 0 <= i < items@.len() ==> announces(#[trigger] evs@[i], items@[i], str_views(prefix@)),
        is_close_at(evs@.last(), str_views(prefix@)),
        forall|i: int|
            0 <= i < evs@.len() - 1 ==> path_under(
                str_views((#[trigger] evs@[i]).path@),
                str_views(prefix@),
            ),
        forall|q: Seq<Seq<char>>|
            #[trigger] count_close(evs@, q) == count_open(evs@, q) + (if q == str_views(prefix@) {
                1int
            } else {
                0int
            }),
        dir_names_distinct(items@) ==> forall|idx: int|
            0 <= idx < items@.len() && (#[trigger] items@[idx]) is Dir ==> closed_between(
                evs@,
                idx,
                str_views(prefix@).push(item_name(items@[idx])),
            ),
        dir_names_distinct(items@) ==> forall|ia: int, ib: int|
            0 <= ia < ib < items@.len() && (#[trigger] items@[ia]) is Dir && (
            #[trigger] items@[ib]) is Dir ==> closes_before(
                evs@,
                str_views(prefix@).push(item_name(items@[ia])),
                str_views(prefix@).push(item_name(items@[ib])),
            ),
    decreases fuel,
{
    let ghost pv = str_views(prefix@);
    let mut evs: Vec<FileTreeNode> = Vec::new();
    let n = items.len();
    let mut idx: usize = 0;
    while idx < n
        invariant
            n == items@.len(),
            idx <= n,
            evs@.len() == idx,
            pv == str_views(prefix@),
            depth_bounded(items@, fuel as nat),
            forall|i: int| 0 <= i < idx ==> announces(#[trigger] evs@[i], items@[i], pv),
            forall|i: int| 0 <= i < idx ==> (#[trigger] evs@[i]).path@.len() == prefix@.len() + 1,
            forall|i: int| 0 <= i < idx ==> (#[trigger] evs@[i]).loading != Some(false),
            forall|q: Seq<Seq<char>>| #[trigger] count_close(evs@, q) == 0,
            forall|q: Seq<Seq<char>>|
                #[trigger] count_open(evs@, q) == count_dirs_at(items@.take(idx as int), pv, q),
        decreases n - idx,
    {
        proof {
            assert(items@.take(idx + 1 as int).drop_last() =~= items@.take(idx as int));
            assert(items@.take(idx + 1 as int).last() == items@[idx as int]);
        }
        let ghost old_evs = evs@;
        match &items[idx] {
            TreeItem::Leaf { name } => {
                let mut path = clone_strings(prefix);
                path.push(name.clone());
                let kind = get_file_type(name.as_str());
                evs.push(
                    FileTreeNode {
                        path,
                        kind: Some(CustomValue::Number(kind)),
                        loading: None,
                    },
                );
            },
            TreeItem::Dir { name, .. } => {
                let mut path = clone_strings(prefix);
                path.push(name.clone());
                evs.push(
                    FileTreeNode {
                        path,
                        kind: Some(CustomValue::Text(String::from_str("folder"))),
                        loading: Some(true),
                    },
                );
            },
        }
        proof {
            let e = evs@.last();
            assert(str_views(e.path@) =~= pv.push(
                match items@[idx as int] {
                    TreeItem::Dir { name, .. } => name@,
                    TreeItem::Leaf { name } => name@,
                },
            ));
            assert(evs@.drop_last() =~= old_evs);
            assert forall|q: Seq<Seq<char>>| #[trigger] count_open(evs@, q) == count_dirs_at(
                items@.take(idx + 1 as int),
                pv,
                q,
            ) by {
                assert(count_open(evs@, q) == count_open(old_evs, q) + if is_open_at(e, q) {
                    1int
                } else {
                    0int
                });
            }
            assert forall|q: Seq<Seq<char>>| #[trigger] count_close(evs@, q) == 0 by {
                assert(count_close(evs@, q) == count_close(old_evs, q) + if is_close_at(e, q) {
                    1int
                } else {
                    0int
                });
            }
        }
        idx = idx + 1;
    }
    proof {
        assert(items@.take(n as int) =~= items@);
    }
    let ghost announce = evs@;
    proof {
        assert forall|i: int|
            0 <= i < announce.len() implies path_under(
            str_views((#[trigger] announce[i]).path@),
            pv,
        ) by {
            let x = str_views(announce[i].path@);
            assert(x.len() == announce[i].path@.len());
            assert(x.take(pv.len() as int) =~= pv);
        }
        assert forall|idx3: int|
            0 <= idx3 < n && (#[trigger] items@[idx3]) is Dir implies untouched(
            announce,
            pv.push(item_name(items@[idx3])),
        ) by {
            let q = pv.push(item_name(items@[idx3]));
            assert forall|k: int|
                0 <= k < announce.len() implies !is_close_at(#[trigger] announce[k], q)
                && !path_under(str_views(announce[k].path@), q) by {
                assert(str_views(announce[k].path@).len() == announce[k].path@.len());
            }
        }
        assert forall|ia: int, ib: int|
            0 <= ia < ib < n && (#[trigger] items@[ia]) is Dir && (#[trigger] items@[ib])
                is Dir implies closes_before(
            announce,
            pv.push(item_name(items@[ia])),
            pv.push(item_name(items@[ib])),
        ) by {
            let qa = pv.push(item_name(items@[ia]));
            assert forall|ka: int, kb: int|
                #![trigger announce[ka], announce[kb]]
                0 <= ka < announce.len() && 0 <= kb < announce.len() && is_close_at(
                    announce[ka],
                    qa,
                ) && (is_close_at(announce[kb], pv.push(item_name(items@[ib]))) || path_under(
                    str_views(announce[kb].path@),
                    pv.push(item_name(items@[ib])),
                )) implies ka < kb by {
                assert(announce[ka].loading != Some(false));
            }
        }
    }
    let ghost mut close_pos: Map<int, int> = Map::<int, int>::empty();
    let mut idx2: usize = 0;
    while idx2 < n
        invariant
            n == items@.len(),
            idx2 <= n,
            pv == str_views(prefix@),
            depth_bounded(items@, fuel as nat),
            evs@.len() >= n,
            forall|i: int| 0 <= i < n ==> evs@[i] == announce[i],
            announce.len() == n,
            forall|i: int| 0 <= i < n ==> announces(#[trigger] evs@[i], items@[i], pv),
            forall|i: int|
                0 <= i < evs@.len() ==> path_under(str_views((#[trigger] evs@[i]).path@), pv),
            forall|q: Seq<Seq<char>>|
                #[trigger] count_close(evs@, q) == count_open(evs@, q) - count_dirs_at(
                    items@,
                    pv,
                    q,
                ) + count_dirs_at(items@.take(idx2 as int), pv, q),
            dir_names_distinct(items@) ==> forall|idx3: int|
                0 <= idx3 < idx2 && (#[trigger] items@[idx3]) is Dir ==> close_pos.dom().contains(
                    idx3,
                ) && closes_properly(
                    evs@,
                    idx3,
                    pv.push(item_name(items@[idx3])),
                    close_pos[idx3],
                ),
            dir_names_distinct(items@) ==> forall|idx3: int|
                idx2 <= idx3 < n && (#[trigger] items@[idx3]) is Dir ==> untouched(
                    evs@,
                    pv.push(item_name(items@[idx3])),
                ),
            dir_names_distinct(items@) ==> forall|ia: int, ib: int|
                0 <= ia < ib < n && (#[trigger] items@[ia]) is Dir && (#[trigger] items@[ib])
                    is Dir ==> closes_before(
                    evs@,
                    pv.push(item_name(items@[ia])),
                    pv.push(item_name(items@[ib])),
                ),
        decreases n - idx2,
    {
        proof {
            assert(items@.take(idx2 + 1 as int).drop_last() =~= items@.take(idx2 as int));
            assert(items@.take(idx2 + 1 as int).last() == items@[idx2 as int]);
        }
        match &items[idx2] {
            TreeItem::Leaf { .. } => {},
            TreeItem::Dir { name, items: sub } => {
                let mut child_path = clone_strings(prefix);
                child_path.push(name.clone());
                proof {
                    assert(items@[idx2 as int] matches TreeItem::Dir { items: s2, .. } && s2
                        == *sub);
                    assert(str_views(child_path@) =~= pv.push(name@));
                }
                let mut sub_evs = tree_events(sub, &child_path, fuel - 1);
                let ghost before = evs@;
                let ghost sub_seq = sub_evs@;
                let ghost cq = pv.push(name@);
                evs.append(&mut sub_evs);
                proof {
                    assert(evs@ =~= before + sub_seq);
                    assert forall|q: Seq<Seq<char>>| #[trigger] count_close(evs@, q)
                        == count_open(evs@, q) - count_dirs_at(items@, pv, q) + count_dirs_at(
                        items@.take(idx2 + 1 as int),
                        pv,
                        q,
                    ) by {
                        lemma_count_concat(before, sub_seq, q);
                    }
                    // every appended event still lies strictly under this level's prefix
                    assert forall|i: int|
                        0 <= i < evs@.len() implies path_under(
                        str_views((#[trigger] evs@[i]).path@),
                        pv,
                    ) by {
                        if i >= before.len() {
                            let e = sub_seq[i - before.len()];
                            let x = str_views(e.path@);
                            if i - before.len() < sub_seq.len() - 1 {
                                assert(path_under(x, str_views(child_path@)));
                                assert(x.take(pv.len() as int) =~= x.take(
                                    str_views(child_path@).len() as int,
                                ).take(pv.len() as int));
                                assert(str_views(child_path@).take(pv.len() as int) =~= pv);
                            } else {
                                assert(is_close_at(e, str_views(child_path@)));
                                assert(x == str_views(child_path@));
                                assert(x.take(pv.len() as int) =~= pv);
                            }
                        }
                    }
                    if dir_names_distinct(items@) {
                        // the appended traversal never touches a sibling of another name
                        assert forall|idx3: int|
                            0 <= idx3 < n && idx3 != idx2 && (#[trigger] items@[idx3])
                                is Dir implies (forall|m: int|
                            0 <= m < sub_seq.len() ==> !is_close_at(
                                #[trigger] sub_seq[m],
                                pv.push(item_name(items@[idx3])),
                            ) && !path_under(
                                str_views(sub_seq[m].path@),
                                pv.push(item_name(items@[idx3])),
                            )) by {
                            if idx3 < idx2 {
                                assert(item_name(items@[idx3]) != item_name(items@[idx2 as int]));
                            } else {
                                assert(item_name(items@[idx2 as int]) != item_name(items@[idx3]));
                            }
                            lemma_body_avoids(sub_seq, pv, name@, item_name(items@[idx3]));
                        }
                        // directories already closed stay properly closed
                        assert forall|idx3: int|
                            0 <= idx3 < idx2 && (#[trigger] items@[idx3]) is Dir implies close_pos
                            .dom().contains(idx3) && closes_properly(
                            evs@,
                            idx3,
                            pv.push(item_name(items@[idx3])),
                            close_pos[idx3],
                        ) by {
                            lemma_closes_properly_extend(
                                before,
                                sub_seq,
                                idx3,
                                pv.push(item_name(items@[idx3])),
                                close_pos[idx3],
                            );
                        }
                        // this directory is now closed, at the last appended event
                        let j = before.len() + sub_seq.len() - 1;
                        assert(evs@[j as int] == sub_seq[sub_seq.len() - 1]);
                        assert(is_close_at(evs@[j as int], cq));
                        assert forall|k: int|
                            0 <= k < evs@.len() && is_close_at(evs@[k], cq) implies k == j by {
                            if k < before.len() {
                                assert(untouched(before, cq));
                                assert(!is_close_at(before[k], cq));
                            } else {
                                let m = k - before.len();
                                assert(evs@[k] == sub_seq[m]);
                                if m < sub_seq.len() - 1 {
                                    assert(path_under(str_views(sub_seq[m].path@), cq));
                                    assert(str_views(sub_seq[m].path@).len() > cq.len());
                                }
                            }
                        }
                        assert forall|k: int|
                            0 <= k < evs@.len() && path_under(
                                str_views(evs@[k].path@),
                                cq,
                            ) implies idx2 < k < j by {
                            if k < before.len() {
                                assert(untouched(before, cq));
                                assert(!path_under(str_views(before[k].path@), cq));
                            } else {
                                let m = k - before.len();
                                assert(evs@[k] == sub_seq[m]);
                                if m == sub_seq.len() - 1 {
                                    assert(str_views(sub_seq[m].path@) == cq);
                                }
                                assert(k < j);
                                assert(idx2 < n <= before.len());
                            }
                        }
                        assert(closes_properly(evs@, idx2 as int, cq, j as int));
                        close_pos = close_pos.insert(idx2 as int, j as int);
                        // directories still pending stay untouched
                        assert forall|idx3: int|
                            idx2 + 1 <= idx3 < n && (#[trigger] items@[idx3]) is Dir implies untouched(
                            evs@,
                            pv.push(item_name(items@[idx3])),
                        ) by {
                            let oq = pv.push(item_name(items@[idx3]));
                            assert forall|k: int|
                                0 <= k < evs@.len() implies !is_close_at(#[trigger] evs@[k], oq)
                                && !path_under(str_views(evs@[k].path@), oq) by {
                                if k < before.len() {
                                    assert(untouched(before, oq));
                                    assert(!is_close_at(before[k], oq));
                                    assert(!path_under(str_views(before[k].path@), oq));
                                } else {
                                    assert(evs@[k] == sub_seq[k - before.len()]);
                                }
                            }
                        }
                        // earlier siblings close ahead of later siblings' subtrees
                        assert forall|ia: int, ib: int|
                            0 <= ia < ib < n && (#[trigger] items@[ia]) is Dir && (
                            #[trigger] items@[ib]) is Dir implies closes_before(
                            evs@,
                            pv.push(item_name(items@[ia])),
                            pv.push(item_name(items@[ib])),
                        ) by {
                            let qa = pv.push(item_name(items@[ia]));
                            let qb = pv.push(item_name(items@[ib]));
                            assert forall|ka: int, kb: int|
                                #![trigger evs@[ka], evs@[kb]]
                                0 <= ka < evs@.len() && 0 <= kb < evs@.len() && is_close_at(
                                    evs@[ka],
                                    qa,
                                ) && (is_close_at(evs@[kb], qb) || path_under(
                                    str_views(evs@[kb].path@),
                                    qb,
                                )) implies ka < kb by {
                                if ka < before.len() {
                                    assert(evs@[ka] == before[ka]);
                                } else {
                                    assert(evs@[ka] == sub_seq[ka - before.len()]);
                                }
                                if kb < before.len() {
                                    assert(evs@[kb] == before[kb]);
                                } else {
                                    assert(evs@[kb] == sub_seq[kb - before.len()]);
                                }
                                if ia > idx2 {
                                    // qa is untouched on both sides: no such closing
                                    assert(untouched(before, qa));
                                    assert(false);
                                } else if ia == idx2 {
                                    // qb belongs to a later, still pending sibling:
                                    // no event of its subtree exists yet
                                    assert(untouched(before, qb));
                                    assert(false);
                                } else if ib == idx2 {
                                    // qa closed earlier, qb's subtree is the new block
                                    assert(!is_close_at(sub_seq[ka - before.len()], qa) || ka
                                        < before.len());
                                    assert(untouched(before, qb));
                                    assert(ka < before.len() <= kb);
                                } else if ib < idx2 {
                                    // both settled earlier: the new block touches neither
                                    assert(closes_before(before, qa, qb));
                                } else {
                                    // qb pending past this step: no event of its subtree
                                    assert(untouched(before, qb));
                                    assert(false);
                                }
                            }
                        }
                    }
                }
            },
        }
        idx2 = idx2 + 1;
    }
    proof {
        assert(items@.take(n as int) =~= items@);
    }
    let close_path = clone_strings(prefix);
    let ghost before_close = evs@;
    evs.push(
        FileTreeNode {
            path: close_path,
            kind: Some(CustomValue::Text(String::from_str("folder"))),
            loading: Some(false),
        },
    );
    proof {
        let e = evs@.last();
        assert(str_views(e.path@) =~= pv);
        assert(evs@.drop_last() =~= before_close);
        assert forall|q: Seq<Seq<char>>| #[trigger] count_close(evs@, q) == count_open(evs@, q) + (
        if q == pv {
            1int
        } else {
            0int
        }) by {
            assert(count_close(evs@, q) == count_close(before_close, q) + if is_close_at(e, q) {
                1int
            } else {
                0int
            });
            assert(count_open(evs@, q) == count_open(before_close, q));
        }
        if dir_names_distinct(items@) {
            assert forall|idx3: int|
                0 <= idx3 < n && (#[trigger] items@[idx3]) is Dir implies closed_between(
                evs@,
                idx3,
                pv.push(item_name(items@[idx3])),
            ) by {
                let q = pv.push(item_name(items@[idx3]));
                assert(evs@ =~= before_close + seq![e]);
                assert forall|m: int|
                    0 <= m < seq![e].len() implies !is_close_at(#[trigger] seq![e][m], q)
                    && !path_under(str_views(seq![e][m].path@), q) by {
                    assert(str_views(e.path@).len() == pv.len());
                    assert(q.len() == pv.len() + 1);
                }
                lemma_closes_properly_extend(before_close, seq![e], idx3, q, close_pos[idx3]);
                assert(closes_properly(evs@, idx3, q, close_pos[idx3]));
            }
            assert forall|ia: int, ib: int|
                0 <= ia < ib < n && (#[trigger] items@[ia]) is Dir && (#[trigger] items@[ib])
                    is Dir implies closes_before(
                evs@,
                pv.push(item_name(items@[ia])),
                pv.push(item_name(items@[ib])),
            ) by {
                let qa = pv.push(item_name(items@[ia]));
                let qb = pv.push(item_name(items@[ib]));
                assert forall|ka: int, kb: int|
                    #![trigger evs@[ka], evs@[kb]]
                    0 <= ka < evs@.len() && 0 <= kb < evs@.len() && is_close_at(evs@[ka], qa) && (
                    is_close_at(evs@[kb], qb) || path_under(
                        str_views(evs@[kb].path@),
                        qb,
                    )) implies ka < kb by {
                    // the root closing touches no sibling path
                    assert(str_views(e.path@).len() == pv.len());
                    if ka < before_close.len() {
                        assert(evs@[ka] == before_close[ka]);
                    } else {
                        assert(evs@[ka] == e);
                        assert(false);
                    }
                    if kb < before_close.len() {
                        assert(evs@[kb] == before_close[kb]);
                    } else {
                        assert(evs@[kb] == e);
                        assert(false);
                    }
                    assert(closes_before(before_close, qa, qb));
                }
            }
        }
    }
    evs
}

} // verus!
