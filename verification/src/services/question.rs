//! Question records: creation, lookups, owner-scoped deletion, and cursor
//! pagination ordered by popularity.

use vstd::multiset::Multiset;
use vstd::prelude::*;
use vstd::seq_lib::lemma_multiset_commutative;

use crate::models::question::{Question, QuestionInput};
use crate::models::vote::Vote;
use crate::services::vote::{count_for_question, vote_count};
use crate::store::{lemma_filter_none, lemma_filter_push, lemma_questions_wf_filter, store_wf,
    Store};

verus! {

/// Whether some question has this id.
pub open spec fn has_question_id(questions: Seq<Question>, id: u64) -> bool {
    exists|i: int| 0 <= i < questions.len() && (#[trigger] questions[i]).id == id
}

/// The question with this id (unique in a well-formed store).
pub open spec fn question_by_id(questions: Seq<Question>, id: u64) -> Question {
    questions[choose|i: int| 0 <= i < questions.len() && (#[trigger] questions[i]).id == id]
}

/// Whether some question has exactly this text.
pub open spec fn has_question_text(questions: Seq<Question>, text: Seq<char>) -> bool {
    exists|i: int| 0 <= i < questions.len() && (#[trigger] questions[i]).text@ == text
}

/// The question with this text (unique in a well-formed store).
pub open spec fn question_by_text(questions: Seq<Question>, text: Seq<char>) -> Question {
    questions[choose|i: int|
        0 <= i < questions.len() && (#[trigger] questions[i]).text@ == text]
}

/// Persists a new question. Uniqueness of the text is the caller's check;
/// this function requires it so the store invariant is preserved.
pub fn create(store: &mut Store, new_question: QuestionInput, now: u64) -> (r: Question)
    requires
        store_wf(*old(store)),
        old(store).next_id < u64::MAX,
        !has_question_text(old(store).questions@, new_question.text@),
    ensures
        store_wf(*final(store)),
        final(store).questions@ == old(store).questions@.push(r),
        final(store).users@ == old(store).users@,
        final(store).votes@ == old(store).votes@,
        final(store).next_id == old(store).next_id + 1,
        r.id == old(store).next_id,
        r.text@ == new_question.text@,
        r.user_id == new_question.user_id,
        r.created_at == now,
        r.updated_at == now,
{
    let question = Question {
        id: store.next_id,
        text: new_question.text,
        created_at: now,
        updated_at: now,
        user_id: new_question.user_id,
    };
    let r = question.clone();
    store.questions.push(question);
    store.next_id = store.next_id + 1;
    r
}

/// Looks a question up by id.
pub fn get_by_id(store: &Store, question_uuid: u64) -> (r: Option<Question>)
    requires
        store_wf(*store),
    ensures
        r is Some <==> has_question_id(store.questions@, question_uuid),
        r is Some ==> r.unwrap() == question_by_id(store.questions@, question_uuid),
{
    let n = store.questions.len();
    let mut i: usize = 0;
    while i < n
        invariant
            store_wf(*store),
            n == store.questions@.len(),
            i <= n,
            forall|j: int| 0 <= j < i ==> (#[trigger] store.questions@[j]).id != question_uuid,
        decreases n - i,
    {
        if store.questions[i].id == question_uuid {
            let r = store.questions[i].clone();
            proof {
                let k = choose|k: int|
                    0 <= k < store.questions@.len() && (#[trigger] store.questions@[k]).id
                        == question_uuid;
                assert(store.questions@[k].id == store.questions@[i as int].id);
                assert(k == i as int);
            }
            return Some(r);
        }
        i = i + 1;
    }
    None
}

/// Looks a question up by exact text.
pub fn get_by_text(store: &Store, question_text: &String) -> (r: Option<Question>)
    requires
        store_wf(*store),
    ensures
        r is Some <==> has_question_text(store.questions@, question_text@),
        r is Some ==> r.unwrap() == question_by_text(store.questions@, question_text@),
{
    let n = store.questions.len();
    let mut i: usize = 0;
    while i < n
        invariant
            store_wf(*store),
            n == store.questions@.len(),
            i <= n,
            forall|j: int|
                0 <= j < i ==> (#[trigger] store.questions@[j]).text@ != question_text@,
        decreases n - i,
    {
        if question_text.eq(&store.questions[i].text) {
            let r = store.questions[i].clone();
            proof {
                let k = choose|k: int|
                    0 <= k < store.questions@.len() && (#[trigger] store.questions@[k]).text@
                        == question_text@;
                assert(store.questions@[k].text@ == store.questions@[i as int].text@);
                assert(k == i as int);
            }
            return Some(r);
        }
        i = i + 1;
    }
    None
}

/// Removes every question owned by one user; says how many went. Only that
/// user's questions go; votes and users stay untouched.
pub fn delete_all_by_user_id(store: &mut Store, userid: u64) -> (r: usize)
    requires
        store_wf(*old(store)),
    ensures
        store_wf(*final(store)),
        final(store).questions@ == old(store).questions@.filter(
            |q: Question| q.user_id != userid,
        ),
        final(store).users@ == old(store).users@,
        final(store).votes@ == old(store).votes@,
        final(store).next_id == old(store).next_id,
        r == old(store).questions@.len() - final(store).questions@.len(),
{
    let n = store.questions.len();
    let mut kept: Vec<Question> = Vec::new();
    let mut i: usize = 0;
    while i < n
        invariant
            store_wf(*store),
            *store == *old(store),
            n == store.questions@.len(),
            i <= n,
            kept@ == store.questions@.take(i as int).filter(|q: Question| q.user_id != userid),
        decreases n - i,
    {
        proof {
            lemma_filter_push(store.questions@, |q: Question| q.user_id != userid, i as int);
        }
        if store.questions[i].user_id != userid {
            kept.push(store.questions[i].clone());
        }
        i = i + 1;
    }
    proof {
        assert(store.questions@.take(n as int) =~= store.questions@);
        lemma_questions_wf_filter(
            store.questions@,
            |q: Question| q.user_id != userid,
            store.next_id,
        );
        store.questions@.lemma_filter_len(|q: Question| q.user_id != userid);
    }
    let r = store.questions.len() - kept.len();
    store.questions = kept;
    r
}

/// Popularity order on question ids: more votes first, ties broken by the
/// higher id first. A strict total order on distinct ids.
pub open spec fn rank_key_before(votes: Seq<Vote>, a_id: u64, b_id: u64) -> bool {
    ||| vote_count(votes, a_id) > vote_count(votes, b_id)
    ||| (vote_count(votes, a_id) == vote_count(votes, b_id) && a_id > b_id)
}

/// Popularity order on questions.
pub open spec fn ranks_before(votes: Seq<Vote>, a: Question, b: Question) -> bool {
    rank_key_before(votes, a.id, b.id)
}

/// Inserts a question into a popularity-sorted sequence, right before the
/// first entry it precedes in the order.
pub open spec fn insert_ranked(votes: Seq<Vote>, s: Seq<Question>, q: Question) -> Seq<
    Question,
>
    decreases s.len(),
{
    if s.len() == 0 {
        seq![q]
    } else if ranks_before(votes, q, s[0]) {
        seq![q] + s
    } else {
        seq![s[0]] + insert_ranked(votes, s.drop_first(), q)
    }
}

/// The questions in popularity order: insertion sort under `ranks_before`.
pub open spec fn rank_sorted(votes: Seq<Vote>, s: Seq<Question>) -> Seq<Question>
    decreases s.len(),
{
    if s.len() == 0 {
        Seq::<Question>::empty()
    } else {
        insert_ranked(votes, rank_sorted(votes, s.drop_last()), s.last())
    }
}

/// Strictly sorted under the popularity order.
pub open spec fn rank_ordered(votes: Seq<Vote>, s: Seq<Question>) -> bool {
    forall|i: int, j: int|
        0 <= i < j < s.len() ==> ranks_before(votes, #[trigger] s[i], #[trigger] s[j])
}

/// Pairwise distinct question ids.
pub open spec fn questions_distinct(s: Seq<Question>) -> bool {
    forall|i: int, j: int| 0 <= i < j < s.len() ==> (#[trigger] s[i]).id != (#[trigger] s[j]).id
}

/// The first `limit` entries, or everything when fewer remain.
pub open spec fn page_limited(rest: Seq<Question>, limit: int) -> Seq<Question> {
    if limit <= rest.len() {
        rest.take(limit)
    } else {
        rest
    }
}

/// One page: the popularity-sorted questions, restricted to those ranking
/// strictly after the cursor when one is given, cut to `limit` entries.
pub open spec fn spec_page(
    votes: Seq<Vote>,
    questions: Seq<Question>,
    cursor: Option<u64>,
    limit: int,
) -> Seq<Question> {
    let sorted = rank_sorted(votes, questions);
    let rest = match cursor {
        Option::None => sorted,
        Option::Some(cid) => sorted.filter(|q: Question| rank_key_before(votes, cid, q.id)),
    };
    page_limited(rest, limit)
}

/// What inserting into a sorted, distinct sequence yields: one entry more,
/// still sorted, still distinct, the same records plus the new one.
proof fn lemma_insert_ranked_props(votes: Seq<Vote>, s: Seq<Question>, q: Question)
    requires
        rank_ordered(votes, s),
        questions_distinct(s),
        !has_question_id(s, q.id),
    ensures
        ({
            let r = insert_ranked(votes, s, q);
            &&& r.len() == s.len() + 1
            &&& rank_ordered(votes, r)
            &&& questions_distinct(r)
            &&& r.to_multiset() == s.to_multiset().insert(q)
            &&& forall|id: u64|
                #[trigger] has_question_id(r, id) <==> has_question_id(s, id) || id == q.id
        }),
    decreases s.len(),
{
    broadcast use vstd::seq_lib::group_to_multiset_ensures;

    let r = insert_ranked(votes, s, q);
    if s.len() == 0 {
        assert(r == seq![q]);
        assert(seq![q] =~= Seq::<Question>::empty().push(q));
        assert(r.to_multiset() == s.to_multiset().insert(q));
        assert forall|id: u64| #[trigger]
            has_question_id(r, id) <==> has_question_id(s, id) || id == q.id by {
            if has_question_id(r, id) {
                let i = choose|i: int| 0 <= i < r.len() && (#[trigger] r[i]).id == id;
                assert(r[i] == q);
            }
            if id == q.id {
                assert(r[0].id == id);
            }
        }
    } else if ranks_before(votes, q, s[0]) {
        assert(r == seq![q] + s);
        lemma_multiset_commutative(seq![q], s);
        assert(seq![q].to_multiset() =~= Multiset::<Question>::empty().insert(q));
        assert(r.to_multiset() =~= s.to_multiset().insert(q));
        assert forall|i: int, j: int| 0 <= i < j < r.len() implies ranks_before(
            votes,
            #[trigger] r[i],
            #[trigger] r[j],
        ) by {
            if i == 0 {
                assert(r[j] == s[j - 1]);
                if j - 1 > 0 {
                    assert(ranks_before(votes, s[0], s[j - 1]));
                }
            } else {
                assert(r[i] == s[i - 1] && r[j] == s[j - 1]);
            }
        }
        assert forall|i: int, j: int| 0 <= i < j < r.len() implies (#[trigger] r[i]).id != (
        #[trigger] r[j]).id by {
            if i == 0 {
                assert(r[j] == s[j - 1]);
                assert(!has_question_id(s, q.id));
                assert(s[j - 1].id != q.id);
            } else {
                assert(r[i] == s[i - 1] && r[j] == s[j - 1]);
            }
        }
        assert forall|id: u64| #[trigger]
            has_question_id(r, id) <==> has_question_id(s, id) || id == q.id by {
            if has_question_id(r, id) {
                let i = choose|i: int| 0 <= i < r.len() && (#[trigger] r[i]).id == id;
                if i == 0 {
                } else {
                    assert(s[i - 1].id == id);
                }
            }
            if has_question_id(s, id) {
                let i = choose|i: int| 0 <= i < s.len() && (#[trigger] s[i]).id == id;
                assert(r[i + 1].id == id);
            }
            if id == q.id {
                assert(r[0].id == id);
            }
        }
    } else {
        let d = s.drop_first();
        assert(s[0].id != q.id) by {
            if s[0].id == q.id {
                assert(has_question_id(s, q.id));
            }
        }
        assert(ranks_before(votes, s[0], q));
        assert forall|i: int, j: int| 0 <= i < j < d.len() implies ranks_before(
            votes,
            #[trigger] d[i],
            #[trigger] d[j],
        ) && d[i].id != d[j].id by {
            assert(d[i] == s[i + 1] && d[j] == s[j + 1]);
        }
        assert(!has_question_id(d, q.id)) by {
            if has_question_id(d, q.id) {
                let i = choose|i: int| 0 <= i < d.len() && (#[trigger] d[i]).id == q.id;
                assert(s[i + 1].id == q.id);
            }
        }
        lemma_insert_ranked_props(votes, d, q);
        let ri = insert_ranked(votes, d, q);
        assert(r == seq![s[0]] + ri);
        lemma_multiset_commutative(seq![s[0]], ri);
        lemma_multiset_commutative(seq![s[0]], d);
        assert(seq![s[0]] + d =~= s);
        assert(r.to_multiset() =~= s.to_multiset().insert(q));
        // Everything behind the head is either the new question or one of
        // the tail's records, and the head precedes both.
        assert forall|m: int| 0 <= m < ri.len() implies ranks_before(votes, s[0], ri[m]) && s[0].id
            != (#[trigger] ri[m]).id by {
            assert(ri.contains(ri[m]));
            assert(ri.to_multiset().count(ri[m]) > 0);
            if ri[m] == q {
            } else {
                assert(d.to_multiset().count(ri[m]) > 0);
                assert(d.contains(ri[m]));
                let k = choose|k: int| 0 <= k < d.len() && d[k] == ri[m];
                assert(s[k + 1] == ri[m]);
                assert(ranks_before(votes, s[0], s[k + 1]));
            }
        }
        assert forall|i: int, j: int| 0 <= i < j < r.len() implies ranks_before(
            votes,
            #[trigger] r[i],
            #[trigger] r[j],
        ) && r[i].id != r[j].id by {
            if i == 0 {
                assert(r[j] == ri[j - 1]);
            } else {
                assert(r[i] == ri[i - 1] && r[j] == ri[j - 1]);
            }
        }
        assert forall|id: u64| #[trigger]
            has_question_id(r, id) <==> has_question_id(s, id) || id == q.id by {
            if has_question_id(r, id) {
                let i = choose|i: int| 0 <= i < r.len() && (#[trigger] r[i]).id == id;
                if i == 0 {
                    assert(s[0].id == id);
                } else {
                    assert(ri[i - 1].id == id);
                    assert(has_question_id(ri, id));
                    if has_question_id(d, id) {
                        let k = choose|k: int| 0 <= k < d.len() && (#[trigger] d[k]).id == id;
                        assert(s[k + 1].id == id);
                    }
                }
            }
            if has_question_id(s, id) {
                let i = choose|i: int| 0 <= i < s.len() && (#[trigger] s[i]).id == id;
                if i == 0 {
                    assert(r[0].id == id);
                } else {
                    assert(d[i - 1].id == id);
                    assert(has_question_id(d, id));
                    assert(has_question_id(ri, id));
                    let k = choose|k: int| 0 <= k < ri.len() && (#[trigger] ri[k]).id == id;
                    assert(r[k + 1].id == id);
                }
            }
            if id == q.id {
                assert(has_question_id(ri, id));
                let k = choose|k: int| 0 <= k < ri.len() && (#[trigger] ri[k]).id == id;
                assert(r[k + 1].id == id);
            }
        }
    }
}

/// The popularity sort of a table with distinct ids: same length, same
/// records, strictly ordered, ids still distinct.
pub proof fn lemma_rank_sorted_props(votes: Seq<Vote>, s: Seq<Question>)
    requires
        questions_distinct(s),
    ensures
        ({
            let r = rank_sorted(votes, s);
            &&& r.len() == s.len()
            &&& rank_ordered(votes, r)
            &&& questions_distinct(r)
            &&& r.to_multiset() == s.to_multiset()
            &&& forall|id: u64|
                #[trigger] has_question_id(r, id) <==> has_question_id(s, id)
        }),
    decreases s.len(),
{
    broadcast use vstd::seq_lib::group_to_multiset_ensures;

    if s.len() > 0 {
        let d = s.drop_last();
        let q = s.last();
        assert forall|i: int, j: int| 0 <= i < j < d.len() implies (#[trigger] d[i]).id != (
        #[trigger] d[j]).id by {
            assert(d[i] == s[i] && d[j] == s[j]);
        }
        lemma_rank_sorted_props(votes, d);
        let rd = rank_sorted(votes, d);
        assert(!has_question_id(rd, q.id)) by {
            if has_question_id(d, q.id) {
                let i = choose|i: int| 0 <= i < d.len() && (#[trigger] d[i]).id == q.id;
                assert(s[i].id == s[s.len() - 1].id);
            }
        }
        lemma_insert_ranked_props(votes, rd, q);
        assert(s =~= d.push(q));
        assert(s.to_multiset() == d.to_multiset().insert(q));
        let r = rank_sorted(votes, s);
        assert forall|id: u64| #[trigger]
            has_question_id(r, id) <==> has_question_id(s, id) by {
            if has_question_id(d, id) {
                let i = choose|i: int| 0 <= i < d.len() && (#[trigger] d[i]).id == id;
                assert(s[i].id == id);
            }
            if id == q.id {
                assert(s[s.len() - 1].id == id);
            }
            if has_question_id(s, id) {
                let i = choose|i: int| 0 <= i < s.len() && (#[trigger] s[i]).id == id;
                if i < s.len() - 1 {
                    assert(d[i].id == id);
                    assert(has_question_id(d, id));
                }
            }
        }
    }
}

/// In a strictly ordered sequence, the entries ranking after the entry at
/// one position are exactly the entries behind that position.
proof fn lemma_ordered_filter_after(votes: Seq<Vote>, sorted: Seq<Question>, k: int, cid: u64)
    requires
        rank_ordered(votes, sorted),
        0 <= k < sorted.len(),
        sorted[k].id == cid,
    ensures
        sorted.filter(|q: Question| rank_key_before(votes, cid, q.id)) == sorted.skip(k + 1),
    decreases sorted.len(),
{
    reveal(Seq::filter);
    let p = |q: Question| rank_key_before(votes, cid, q.id);
    if sorted.len() == k + 1 {
        assert forall|i: int| 0 <= i < sorted.len() implies !p(#[trigger] sorted[i]) by {
            if i < k {
                assert(ranks_before(votes, sorted[i], sorted[k]));
            }
        }
        lemma_filter_none(sorted, p);
        assert(sorted.skip(k + 1) =~= Seq::<Question>::empty());
    } else {
        let d = sorted.drop_last();
        assert forall|i: int, j: int| 0 <= i < j < d.len() implies ranks_before(
            votes,
            #[trigger] d[i],
            #[trigger] d[j],
        ) by {
            assert(d[i] == sorted[i] && d[j] == sorted[j]);
        }
        assert(d[k] == sorted[k]);
        lemma_ordered_filter_after(votes, d, k, cid);
        assert(ranks_before(votes, sorted[k], sorted.last()));
        assert(p(sorted.last()));
        assert(sorted.filter(p) == d.filter(p).push(sorted.last()));
        assert(d.skip(k + 1).push(sorted.last()) =~= sorted.skip(k + 1));
    }
}

/// The pagination law: after one page, a second page keyed by the first
/// page's last entry is disjoint from the first, and the two pages joined
/// are exactly the front of the popularity-sorted table — no duplicates,
/// no gaps.
#[verifier::rlimit(80)]
pub proof fn lemma_pagination_pages(votes: Seq<Vote>, questions: Seq<Question>, l: int)
    requires
        questions_distinct(questions),
        0 < l,
    ensures
        ({
            let sorted = rank_sorted(votes, questions);
            let p1 = spec_page(votes, questions, Option::None, l);
            p1.len() > 0 ==> ({
                let p2 = spec_page(votes, questions, Option::Some(p1.last().id), l);
                &&& (forall|x: Question| p1.contains(x) ==> !p2.contains(x))
                &&& p1 + p2 == page_limited(sorted, 2 * l)
            })
        }),
{
    lemma_rank_sorted_props(votes, questions);
    let sorted = rank_sorted(votes, questions);
    let n = sorted.len() as int;
    let p1 = spec_page(votes, questions, Option::None, l);
    if p1.len() > 0 {
        let m1: int = if l <= n {
            l
        } else {
            n
        };
        assert(p1 == page_limited(sorted, l));
        assert(p1 =~= sorted.take(m1));
        assert(p1.last() == sorted[m1 - 1]);
        let c = p1.last();
        lemma_ordered_filter_after(votes, sorted, m1 - 1, c.id);
        let rest2 = sorted.filter(|q: Question| rank_key_before(votes, c.id, q.id));
        assert(rest2 == sorted.skip(m1));
        let p2 = spec_page(votes, questions, Option::Some(c.id), l);
        assert(p2 == page_limited(rest2, l));
        let m2: int = if 2 * l <= n {
            2 * l
        } else {
            n
        };
        assert(p1 + p2 =~= page_limited(sorted, 2 * l));
        assert forall|x: Question| p1.contains(x) implies !p2.contains(x) by {
            let i = choose|i: int| 0 <= i < p1.len() && p1[i] == x;
            if p2.contains(x) {
                let j = choose|j: int| 0 <= j < p2.len() && p2[j] == x;
                assert(p2[j] == sorted[m1 + j]);
                assert(sorted[i].id != sorted[m1 + j].id);
            }
        }
    }
}

/// The exec-side popularity comparison.
fn rank_before_exec(store: &Store, a: &Question, b: &Question) -> (r: bool)
    ensures
        r == ranks_before(store.votes@, *a, *b),
{
    let ca = count_for_question(store, a.id);
    let cb = count_for_question(store, b.id);
    ca > cb || (ca == cb && a.id > b.id)
}

/// Mirrors one step of the insertion sort's spec: the question lands right
/// before the first entry it precedes in the order.
proof fn lemma_insert_ranked_at(votes: Seq<Vote>, s: Seq<Question>, q: Question, j: int)
    requires
        0 <= j <= s.len(),
        forall|k: int| 0 <= k < j ==> !ranks_before(votes, q, #[trigger] s[k]),
        j < s.len() ==> ranks_before(votes, q, s[j]),
    ensures
        insert_ranked(votes, s, q) == s.take(j) + seq![q] + s.skip(j),
    decreases j,
{
    if j == 0 {
        if s.len() == 0 {
            assert(insert_ranked(votes, s, q) == seq![q]);
            assert(s.take(0) + seq![q] + s.skip(0) =~= seq![q]);
        } else {
            assert(insert_ranked(votes, s, q) == seq![q] + s);
            assert(s.take(0) + seq![q] + s.skip(0) =~= seq![q] + s);
        }
    } else {
        let d = s.drop_first();
        assert(!ranks_before(votes, q, s[0]));
        assert forall|k: int| 0 <= k < j - 1 implies !ranks_before(votes, q, #[trigger] d[k]) by {
            assert(d[k] == s[k + 1]);
        }
        if j - 1 < d.len() {
            assert(d[j - 1] == s[j]);
        }
        lemma_insert_ranked_at(votes, d, q, j - 1);
        assert(insert_ranked(votes, s, q) == seq![s[0]] + insert_ranked(votes, d, q));
        assert(seq![s[0]] + (d.take(j - 1) + seq![q] + d.skip(j - 1)) =~= s.take(j) + seq![q]
            + s.skip(j));
    }
}

/// Inserts a question into a popularity-sorted vector at its place.
fn insert_by_rank(store: &Store, sorted: &mut Vec<Question>, q: Question)
    ensures
        final(sorted)@ == insert_ranked(store.votes@, old(sorted)@, q),
{
    let len = sorted.len();
    let mut j: usize = 0;
    while j < len && !rank_before_exec(store, &q, &sorted[j])
        invariant
            len == sorted@.len(),
            *sorted == *old(sorted),
            j <= len,
            forall|k: int|
                0 <= k < j ==> !ranks_before(store.votes@, q, #[trigger] sorted@[k]),
        decreases len - j,
    {
        j = j + 1;
    }
    proof {
        lemma_insert_ranked_at(store.votes@, sorted@, q, j as int);
    }
    sorted.insert(j, q);
    proof {
        assert(old(sorted)@.insert(j as int, q) =~= old(sorted)@.take(j as int) + seq![q]
            + old(sorted)@.skip(j as int));
    }
}

/// The questions sorted by descending popularity.
fn sort_by_rank(store: &Store) -> (r: Vec<Question>)
    ensures
        r@ == rank_sorted(store.votes@, store.questions@),
{
    let n = store.questions.len();
    let mut sorted: Vec<Question> = Vec::new();
    let mut i: usize = 0;
    while i < n
        invariant
            n == store.questions@.len(),
            i <= n,
            sorted@ == rank_sorted(store.votes@, store.questions@.take(i as int)),
        decreases n - i,
    {
        insert_by_rank(store, &mut sorted, store.questions[i].clone());
        proof {
            assert(store.questions@.take(i + 1).drop_last() =~= store.questions@.take(i as int));
            assert(store.questions@.take(i + 1).last() == store.questions@[i as int]);
        }
        i = i + 1;
    }
    proof {
        assert(store.questions@.take(n as int) =~= store.questions@);
    }
    sorted
}

/// One page of questions: ordered by descending popularity (ties to the
/// higher id), starting strictly after the cursor when one is given,
/// at most `limit` entries.
pub fn get_paginated(store: &Store, limit: i32, cursor: Option<u64>) -> (r: Vec<Question>)
    requires
        store_wf(*store),
        limit >= 0,
    ensures
        r@ == spec_page(store.votes@, store.questions@, cursor, limit as int),
{
    let sorted = sort_by_rank(store);
    let mut rest: Vec<Question>;
    match cursor {
        Option::Some(cid) => {
            let cc = count_for_question(store, cid);
            let sn = sorted.len();
            let mut out: Vec<Question> = Vec::new();
            let mut i: usize = 0;
            while i < sn
                invariant
                    sn == sorted@.len(),
                    i <= sn,
                    cc == vote_count(store.votes@, cid),
                    out@ == sorted@.take(i as int).filter(
                        |q: Question| rank_key_before(store.votes@, cid, q.id),
                    ),
                decreases sn - i,
            {
                proof {
                    lemma_filter_push(
                        sorted@,
                        |q: Question| rank_key_before(store.votes@, cid, q.id),
                        i as int,
                    );
                }
                let cq = count_for_question(store, sorted[i].id);
                if cc > cq || (cc == cq && cid > sorted[i].id) {
                    out.push(sorted[i].clone());
                }
                i = i + 1;
            }
            proof {
                assert(sorted@.take(sn as int) =~= sorted@);
            }
            rest = out;
        },
        Option::None => {
            rest = sorted;
        },
    }
    let lim = limit as usize;
    if lim < rest.len() {
        rest.truncate(lim);
    }
    proof {
        assert(rest@ =~= spec_page(store.votes@, store.questions@, cursor, limit as int));
    }
    rest
}

} // verus!
