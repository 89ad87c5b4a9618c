//! Distinct author identities with per-author commit counts.
//!
//! Commits whose stored signature misses the name or the email do not
//! count towards any author.  Each distinct derived author id yields
//! one entry, carrying the first-seen name and email, the display hash
//! of the email, and how many eligible commits the author signed.

use vstd::prelude::*;

use crate::backend::CommitRecord;
use crate::strutil::{str_eq, vec_elem_mut};
use crate::utils::{get_author_id, gravatar_hash, lower_of, md5_hex_of, spec_author_id, trim_of};

verus! {

/// The request payload of the author stream; it carries nothing.
pub struct StreamAuthorsParams {}

/// One distinct author.
pub struct Author {
    pub id: String,
    pub name: String,
    pub email: String,
    pub gravatar_hash: String,
    pub num_commits: u32,
}

/// Whether a record carries a full signature and so counts towards an
/// author.
pub open spec fn spec_eligible(r: CommitRecord) -> bool {
    r.author_name is Some && r.author_email is Some
}

/// The id an eligible record derives.
pub open spec fn spec_record_id(r: CommitRecord) -> Seq<char> {
    spec_author_id(r.author_name->0@, r.author_email->0@)
}

/// How many of the records are eligible commits of the author `id`.
pub open spec fn spec_author_count(records: Seq<CommitRecord>, id: Seq<char>) -> int
    decreases records.len(),
{
    if records.len() == 0 {
        0
    } else {
        spec_author_count(records.drop_last(), id) + if spec_eligible(records.last())
            && spec_record_id(records.last()) == id {
            1int
        } else {
            0int
        }
    }
}

/// Whether one author entry is internally consistent: the id derives
/// from the stored pair, and the display hash from the stored email.
pub open spec fn spec_author_entry(a: Author) -> bool {
    &&& a.id@ == spec_author_id(a.name@, a.email@)
    &&& a.gravatar_hash@ == md5_hex_of(lower_of(trim_of(a.email@)))
}

/// Whether some eligible record derives this author's id.
pub open spec fn author_among(records: Seq<CommitRecord>, id: Seq<char>) -> bool {
    exists|j: int|
        #![auto]
        0 <= j < records.len() && spec_eligible(records[j]) && spec_record_id(records[j]) == id
}

/// Whether some author entry carries this id.
pub open spec fn has_id(authors: Seq<Author>, id: Seq<char>) -> bool {
    exists|a: int| 0 <= a < authors.len() && authors[a].id@ == id
}

/// The commit count of an author, saturated at the counter's limit.
pub open spec fn spec_capped_count(records: Seq<CommitRecord>, id: Seq<char>) -> int {
    let c = spec_author_count(records, id);
    if c > u32::MAX as int {
        u32::MAX as int
    } else {
        c
    }
}

/// A record set that no eligible record of this id inhabits counts
/// zero for it.
proof fn lemma_count_zero(records: Seq<CommitRecord>, id: Seq<char>)
    requires
        !author_among(records, id),
    ensures
        spec_author_count(records, id) == 0,
    decreases records.len(),
{
    if records.len() > 0 {
        assert(!author_among(records.drop_last(), id)) by {
            if author_among(records.drop_last(), id) {
                let w = choose|w: int|
                    #![auto]
                    0 <= w < records.drop_last().len() && spec_eligible(records.drop_last()[w])
                        && spec_record_id(records.drop_last()[w]) == id;
                assert(records[w] == records.drop_last()[w]);
            }
        }
        lemma_count_zero(records.drop_last(), id);
        assert(records[records.len() - 1] == records.last());
    }
}

/// One more record extends where an author is among the records.
proof fn lemma_among_grows(records: Seq<CommitRecord>, j: int, id: Seq<char>)
    requires
        0 <= j < records.len(),
        author_among(records.take(j), id),
    ensures
        author_among(records.take(j + 1), id),
{
    let w = choose|w: int|
        #![auto]
        0 <= w < records.take(j).len() && spec_eligible(records.take(j)[w]) && spec_record_id(
            records.take(j)[w],
        ) == id;
    assert(records.take(j + 1)[w] == records.take(j)[w]);
}

fn index_of_id(authors: &Vec<Author>, id: &str) -> (r: Option<usize>)
    ensures
        match r {
            Some(i) => i < authors@.len() && authors@[i as int].id@ == id@,
            None => forall|i: int| 0 <= i < authors@.len() ==> authors@[i].id@ != id@,
        },
{
    let mut i: usize = 0;
    while i < authors.len()
        invariant
            i <= authors@.len(),
            forall|j: int| 0 <= j < i ==> authors@[j].id@ != id@,
        decreases authors@.len() - i,
    {
        if str_eq(authors[i].id.as_str(), id) {
            return Some(i);
        }
        i = i + 1;
    }
    None
}

/// Tallies the distinct authors of the records, in first-seen order.
/// Every eligible record counts towards exactly its author; the count
/// saturates at the counter's limit.
#[verifier::rlimit(60)]
pub fn tally_authors(records: &Vec<CommitRecord>) -> (authors: Vec<Author>)
    ensures
        forall|a: int, b: int|
            0 <= a < b < authors@.len() ==> (#[trigger] authors@[a].id@) != (
            #[trigger] authors@[b].id@),
        forall|a: int| 0 <= a < authors@.len() ==> spec_author_entry(#[trigger] authors@[a]),
        forall|a: int|
            0 <= a < authors@.len() ==> author_among(records@, (#[trigger] authors@[a]).id@),
        forall|j: int|
            0 <= j < records@.len() && spec_eligible(#[trigger] records@[j]) ==> has_id(
                authors@,
                spec_record_id(records@[j]),
            ),
        forall|a: int|
            0 <= a < authors@.len() ==> (#[trigger] authors@[a]).num_commits as int
                == spec_capped_count(records@, authors@[a].id@),
{
    let mut authors: Vec<Author> = Vec::new();
    let mut j: usize = 0;
    proof {
        assert(records@.take(0) =~= Seq::<CommitRecord>::empty());
    }
    while j < records.len()
        invariant
            j <= records@.len(),
            forall|a: int, b: int|
                0 <= a < b < authors@.len() ==> (#[trigger] authors@[a].id@) != (
                #[trigger] authors@[b].id@),
            forall|a: int| 0 <= a < authors@.len() ==> spec_author_entry(#[trigger] authors@[a]),
            forall|a: int|
                0 <= a < authors@.len() ==> author_among(
                    records@.take(j as int),
                    (#[trigger] authors@[a]).id@,
                ),
            forall|j2: int|
                0 <= j2 < j && spec_eligible(#[trigger] records@[j2]) ==> has_id(
                    authors@,
                    spec_record_id(records@[j2]),
                ),
            forall|a: int|
                0 <= a < authors@.len() ==> (#[trigger] authors@[a]).num_commits as int
                    == spec_capped_count(records@.take(j as int), authors@[a].id@),
        decreases records@.len() - j,
    {
        proof {
            assert(records@.take(j + 1 as int).drop_last() =~= records@.take(j as int));
            assert(records@.take(j + 1 as int).last() == records@[j as int]);
        }
        let ghost prev = records@.take(j as int);
        let ghost next = records@.take(j + 1 as int);
        let rec = &records[j];
        match (&rec.author_name, &rec.author_email) {
            (Some(name), Some(email)) => {
                let id = get_author_id(name, email);
                proof {
                    assert(spec_eligible(records@[j as int]));
                    assert(id@ == spec_record_id(records@[j as int]));
                }
                let ghost old_authors = authors@;
                match index_of_id(&authors, id.as_str()) {
                    Some(idx) => {
                        let a = vec_elem_mut(&mut authors, idx);
                        if a.num_commits < u32::MAX {
                            a.num_commits = a.num_commits + 1;
                        }
                        proof {
                            assert(authors@ =~= old_authors.update(
                                idx as int,
                                authors@[idx as int],
                            ));
                            assert forall|a2: int|
                                0 <= a2 < authors@.len() implies (#[trigger] authors@[a2])
                                .num_commits as int == spec_capped_count(
                                next,
                                authors@[a2].id@,
                            ) by {
                                if a2 == idx {
                                    assert(spec_author_count(next, authors@[a2].id@)
                                        == spec_author_count(prev, authors@[a2].id@) + 1);
                                } else {
                                    assert(authors@[a2] == old_authors[a2]);
                                    assert(authors@[a2].id@ != old_authors[idx as int].id@);
                                    assert(spec_author_count(next, authors@[a2].id@)
                                        == spec_author_count(prev, authors@[a2].id@));
                                }
                            }
                            assert forall|a2: int|
                                0 <= a2 < authors@.len() implies author_among(
                                next,
                                (#[trigger] authors@[a2]).id@,
                            ) by {
                                lemma_among_grows(records@, j as int, authors@[a2].id@);
                            }
                            assert forall|j2: int|
                                0 <= j2 < j + 1 && spec_eligible(
                                    #[trigger] records@[j2],
                                ) implies has_id(authors@, spec_record_id(records@[j2])) by {
                                if j2 < j {
                                    assert(has_id(old_authors, spec_record_id(records@[j2])));
                                    let w = choose|w: int|
                                        0 <= w < old_authors.len() && old_authors[w].id@
                                            == spec_record_id(records@[j2]);
                                    if w == idx {
                                        assert(authors@[w].id@ == old_authors[w].id@);
                                    }
                                    assert(authors@[w].id@ == spec_record_id(records@[j2]));
                                } else {
                                    assert(authors@[idx as int].id@ == spec_record_id(
                                        records@[j2],
                                    ));
                                }
                            }
                        }
                    },
                    None => {
                        let hash = gravatar_hash(email.as_str());
                        proof {
                            assert(!has_id(authors@, id@));
                            if author_among(prev, id@) {
                                let w = choose|w: int|
                                    #![auto]
                                    0 <= w < prev.len() && spec_eligible(prev[w])
                                        && spec_record_id(prev[w]) == id@;
                                assert(has_id(authors@, spec_record_id(records@[w])));
                            }
                            lemma_count_zero(prev, id@);
                        }
                        authors.push(
                            Author {
                                id,
                                name: name.clone(),
                                email: email.clone(),
                                gravatar_hash: hash,
                                num_commits: 1,
                            },
                        );
                        proof {
                            assert forall|a2: int|
                                0 <= a2 < authors@.len() implies author_among(
                                next,
                                (#[trigger] authors@[a2]).id@,
                            ) by {
                                if a2 < old_authors.len() {
                                    lemma_among_grows(records@, j as int, authors@[a2].id@);
                                } else {
                                    assert(next[j as int] == records@[j as int]);
                                    assert(author_among(next, id@));
                                }
                            }
                            assert forall|a2: int|
                                0 <= a2 < authors@.len() implies (#[trigger] authors@[a2])
                                .num_commits as int == spec_capped_count(
                                next,
                                authors@[a2].id@,
                            ) by {
                                if a2 < old_authors.len() {
                                    assert(authors@[a2] == old_authors[a2]);
                                    assert(authors@[a2].id@ != id@);
                                    assert(spec_author_count(next, authors@[a2].id@)
                                        == spec_author_count(prev, authors@[a2].id@));
                                } else {
                                    assert(spec_author_count(next, id@) == spec_author_count(
                                        prev,
                                        id@,
                                    ) + 1);
                                }
                            }
                            assert forall|j2: int|
                                0 <= j2 < j + 1 && spec_eligible(
                                    #[trigger] records@[j2],
                                ) implies has_id(authors@, spec_record_id(records@[j2])) by {
                                if j2 < j {
                                    let w = choose|w: int|
                                        0 <= w < old_authors.len() && old_authors[w].id@
                                            == spec_record_id(records@[j2]);
                                    assert(authors@[w].id@ == spec_record_id(records@[j2]));
                                } else {
                                    assert(authors@[authors@.len() - 1].id@ == spec_record_id(
                                        records@[j2],
                                    ));
                                }
                            }
                        }
                    },
                }
            },
            _ => {
                proof {
                    assert(!spec_eligible(records@[j as int]));
                    assert forall|a2: int|
                        0 <= a2 < authors@.len() implies author_among(
                        next,
                        (#[trigger] authors@[a2]).id@,
                    ) by {
                        lemma_among_grows(records@, j as int, authors@[a2].id@);
                    }
                    assert forall|a2: int|
                        0 <= a2 < authors@.len() implies (#[trigger] authors@[a2]).num_commits
                        as int == spec_capped_count(next, authors@[a2].id@) by {
                        assert(spec_author_count(next, authors@[a2].id@) == spec_author_count(
                            prev,
                            authors@[a2].id@,
                        ));
                    }
                }
            },
        }
        j = j + 1;
    }
    proof {
        assert(records@.take(records@.len() as int) =~= records@);
    }
    authors
}

} // verus!
