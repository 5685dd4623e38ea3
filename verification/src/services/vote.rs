//! Vote records: creation, lookups, deletions, the in-place update behind
//! the upsert, and the aggregate readings (average, per-value count).

use vstd::arithmetic::div_mod::{lemma_div_is_ordered, lemma_fundamental_div_mod_converse};
use vstd::prelude::*;

use crate::models::vote::{Vote, VoteInput};
use crate::store::{lemma_filter_push, lemma_votes_wf_filter, store_wf, Store};

verus! {

/// Whether some vote has this id.
pub open spec fn has_vote_id(votes: Seq<Vote>, id: u64) -> bool {
    exists|i: int| 0 <= i < votes.len() && (#[trigger] votes[i]).id == id
}

/// The position of the vote with this id (unique in a well-formed store).
pub open spec fn vote_index_of(votes: Seq<Vote>, id: u64) -> int {
    choose|i: int| 0 <= i < votes.len() && (#[trigger] votes[i]).id == id
}

/// The vote with this id (unique in a well-formed store).
pub open spec fn vote_by_id(votes: Seq<Vote>, id: u64) -> Vote {
    votes[choose|i: int| 0 <= i < votes.len() && (#[trigger] votes[i]).id == id]
}

/// Whether this user already voted on this question.
pub open spec fn has_vote_by_user_on_question(
    votes: Seq<Vote>,
    user_id: u64,
    question_id: u64,
) -> bool {
    exists|i: int|
        0 <= i < votes.len() && (#[trigger] votes[i]).user_id == user_id && votes[i].question_id
            == question_id
}

/// The one vote of this user on this question (unique in a well-formed
/// store).
pub open spec fn vote_by_user_on_question(
    votes: Seq<Vote>,
    user_id: u64,
    question_id: u64,
) -> Vote {
    votes[choose|i: int|
        0 <= i < votes.len() && (#[trigger] votes[i]).user_id == user_id && votes[i].question_id
            == question_id]
}

/// All votes on one question, in store order.
pub open spec fn votes_for_question(votes: Seq<Vote>, question_id: u64) -> Seq<Vote> {
    votes.filter(|v: Vote| v.question_id == question_id)
}

/// How many votes a question has.
pub open spec fn vote_count(votes: Seq<Vote>, question_id: u64) -> nat {
    votes_for_question(votes, question_id).len()
}

/// The sum of the values of a sequence of votes.
pub open spec fn sum_values(vs: Seq<Vote>) -> int
    decreases vs.len(),
{
    if vs.len() == 0 {
        0
    } else {
        sum_values(vs.drop_last()) + vs.last().value
    }
}

/// The average vote value of a question in hundredths, rounded half up;
/// 0 for a question with no votes.
pub open spec fn avg_hundredths(votes: Seq<Vote>, question_id: u64) -> int {
    let vs = votes_for_question(votes, question_id);
    if vs.len() == 0 {
        0
    } else {
        (200 * sum_values(vs) + vs.len()) / ((2 * vs.len()) as int)
    }
}

/// How many votes a question has with one given value.
pub open spec fn count_with_value(votes: Seq<Vote>, question_id: u64, value: i32) -> nat {
    votes.filter(|v: Vote| v.question_id == question_id && v.value == value).len()
}

/// A question with no votes has no votes of any value either: its average
/// reads zero and its histogram is all zeros.
pub proof fn lemma_zero_votes_zero_counts(votes: Seq<Vote>, question_id: u64, value: i32)
    requires
        vote_count(votes, question_id) == 0,
    ensures
        count_with_value(votes, question_id, value) == 0,
        avg_hundredths(votes, question_id) == 0,
{
    let pq = |v: Vote| v.question_id == question_id;
    let pv = |v: Vote| v.question_id == question_id && v.value == value;
    if count_with_value(votes, question_id, value) > 0 {
        crate::store::lemma_filter_membership(votes, pv, 0);
        let j = choose|j: int| 0 <= j < votes.len() && votes[j] == votes.filter(pv)[0];
        votes.lemma_filter_pred(pv, 0);
        assert(pq(votes[j]));
        votes.lemma_filter_contains(pq, j);
        assert(votes.filter(pq).contains(votes[j]));
        assert(votes.filter(pq).len() > 0);
    }
}

/// Appending a vote adds its value to the sum.
proof fn lemma_sum_push(vs: Seq<Vote>, v: Vote)
    ensures
        sum_values(vs + seq![v]) == sum_values(vs) + v.value,
{
    assert((vs + seq![v]).drop_last() =~= vs);
    assert((vs + seq![v]).last() == v);
}

/// Persists a new vote. The caller has checked the value range and that
/// this user has no vote on this question yet, so the store invariant is
/// preserved.
pub fn create(store: &mut Store, new_vote: VoteInput, now: u64) -> (r: Vote)
    requires
        store_wf(*old(store)),
        old(store).next_id < u64::MAX,
        0 <= new_vote.value <= 5,
        !has_vote_by_user_on_question(
            old(store).votes@,
            new_vote.user_id,
            new_vote.question_id,
        ),
    ensures
        store_wf(*final(store)),
        final(store).votes@ == old(store).votes@.push(r),
        final(store).users@ == old(store).users@,
        final(store).questions@ == old(store).questions@,
        final(store).next_id == old(store).next_id + 1,
        r.id == old(store).next_id,
        r.value == new_vote.value,
        r.user_id == new_vote.user_id,
        r.question_id == new_vote.question_id,
        r.created_at == now,
        r.updated_at == now,
{
    let vote = Vote {
        id: store.next_id,
        value: new_vote.value,
        created_at: now,
        updated_at: now,
        user_id: new_vote.user_id,
        question_id: new_vote.question_id,
    };
    let r = vote.clone();
    store.votes.push(vote);
    store.next_id = store.next_id + 1;
    r
}

/// Looks a vote up by id.
pub fn get_by_id(store: &Store, vote_id: u64) -> (r: Option<Vote>)
    requires
        store_wf(*store),
    ensures
        r is Some <==> has_vote_id(store.votes@, vote_id),
        r is Some ==> r.unwrap() == vote_by_id(store.votes@, vote_id),
{
    let n = store.votes.len();
    let mut i: usize = 0;
    while i < n
        invariant
            store_wf(*store),
            n == store.votes@.len(),
            i <= n,
            forall|j: int| 0 <= j < i ==> (#[trigger] store.votes@[j]).id != vote_id,
        decreases n - i,
    {
        if store.votes[i].id == vote_id {
            let r = store.votes[i].clone();
            proof {
                let k = choose|k: int|
                    0 <= k < store.votes@.len() && (#[trigger] store.votes@[k]).id == vote_id;
                assert(store.votes@[k].id == store.votes@[i as int].id);
                assert(k == i as int);
            }
            return Some(r);
        }
        i = i + 1;
    }
    None
}

/// The one vote of this user on this question, if any.
pub fn get_by_user_id_and_question_id(store: &Store, user_id: u64, question_id: u64) -> (r:
    Option<Vote>)
    requires
        store_wf(*store),
    ensures
        r is Some <==> has_vote_by_user_on_question(store.votes@, user_id, question_id),
        r is Some ==> r.unwrap() == vote_by_user_on_question(
            store.votes@,
            user_id,
            question_id,
        ),
{
    let n = store.votes.len();
    let mut i: usize = 0;
    while i < n
        invariant
            store_wf(*store),
            n == store.votes@.len(),
            i <= n,
            forall|j: int|
                0 <= j < i ==> !((#[trigger] store.votes@[j]).user_id == user_id
                    && store.votes@[j].question_id == question_id),
        decreases n - i,
    {
        if store.votes[i].user_id == user_id && store.votes[i].question_id == question_id {
            let r = store.votes[i].clone();
            proof {
                let k = choose|k: int|
                    0 <= k < store.votes@.len() && (#[trigger] store.votes@[k]).user_id
                        == user_id && store.votes@[k].question_id == question_id;
                assert(store.votes@[k].user_id == store.votes@[i as int].user_id);
                assert(k == i as int);
            }
            return Some(r);
        }
        i = i + 1;
    }
    None
}

/// All votes, in store order.
pub fn get_all(store: &Store) -> (r: Vec<Vote>)
    ensures
        r@ == store.votes@,
{
    let n = store.votes.len();
    let mut r: Vec<Vote> = Vec::new();
    let mut i: usize = 0;
    while i < n
        invariant
            n == store.votes@.len(),
            i <= n,
            r@ == store.votes@.take(i as int),
        decreases n - i,
    {
        r.push(store.votes[i].clone());
        proof {
            assert(r@ =~= store.votes@.take(i + 1));
        }
        i = i + 1;
    }
    proof {
        assert(store.votes@.take(n as int) =~= store.votes@);
    }
    r
}

/// All votes cast by one user, in store order.
pub fn get_all_by_user_id(store: &Store, user_id: u64) -> (r: Vec<Vote>)
    ensures
        r@ == store.votes@.filter(|v: Vote| v.user_id == user_id),
{
    let n = store.votes.len();
    let mut r: Vec<Vote> = Vec::new();
    let mut i: usize = 0;
    while i < n
        invariant
            n == store.votes@.len(),
            i <= n,
            r@ == store.votes@.take(i as int).filter(|v: Vote| v.user_id == user_id),
        decreases n - i,
    {
        proof {
            lemma_filter_push(store.votes@, |v: Vote| v.user_id == user_id, i as int);
        }
        if store.votes[i].user_id == user_id {
            r.push(store.votes[i].clone());
        }
        i = i + 1;
    }
    proof {
        assert(store.votes@.take(n as int) =~= store.votes@);
    }
    r
}

/// All votes on one question, in store order.
pub fn get_all_by_question_id(store: &Store, question_id: u64) -> (r: Vec<Vote>)
    ensures
        r@ == votes_for_question(store.votes@, question_id),
{
    let n = store.votes.len();
    let mut r: Vec<Vote> = Vec::new();
    let mut i: usize = 0;
    while i < n
        invariant
            n == store.votes@.len(),
            i <= n,
            r@ == store.votes@.take(i as int).filter(|v: Vote| v.question_id == question_id),
        decreases n - i,
    {
        proof {
            lemma_filter_push(store.votes@, |v: Vote| v.question_id == question_id, i as int);
        }
        if store.votes[i].question_id == question_id {
            r.push(store.votes[i].clone());
        }
        i = i + 1;
    }
    proof {
        assert(store.votes@.take(n as int) =~= store.votes@);
    }
    r
}

/// All votes of one user on one question (at most one in a well-formed
/// store), in store order.
pub fn get_all_by_user_id_and_question_id(store: &Store, user_id: u64, question_id: u64) -> (r:
    Vec<Vote>)
    ensures
        r@ == store.votes@.filter(
            |v: Vote| v.user_id == user_id && v.question_id == question_id,
        ),
{
    let n = store.votes.len();
    let mut r: Vec<Vote> = Vec::new();
    let mut i: usize = 0;
    while i < n
        invariant
            n == store.votes@.len(),
            i <= n,
            r@ == store.votes@.take(i as int).filter(
                |v: Vote| v.user_id == user_id && v.question_id == question_id,
            ),
        decreases n - i,
    {
        proof {
            lemma_filter_push(
                store.votes@,
                |v: Vote| v.user_id == user_id && v.question_id == question_id,
                i as int,
            );
        }
        if store.votes[i].user_id == user_id && store.votes[i].question_id == question_id {
            r.push(store.votes[i].clone());
        }
        i = i + 1;
    }
    proof {
        assert(store.votes@.take(n as int) =~= store.votes@);
    }
    r
}

/// Removes every vote cast by one user; says how many went.
pub fn delete_all_by_user_id(store: &mut Store, user_id: u64) -> (r: usize)
    requires
        store_wf(*old(store)),
    ensures
        store_wf(*final(store)),
        final(store).votes@ == old(store).votes@.filter(|v: Vote| v.user_id != user_id),
        final(store).users@ == old(store).users@,
        final(store).questions@ == old(store).questions@,
        final(store).next_id == old(store).next_id,
        r == old(store).votes@.len() - final(store).votes@.len(),
{
    let n = store.votes.len();
    let mut kept: Vec<Vote> = Vec::new();
    let mut i: usize = 0;
    while i < n
        invariant
            store_wf(*store),
            *store == *old(store),
            n == store.votes@.len(),
            i <= n,
            kept@ == store.votes@.take(i as int).filter(|v: Vote| v.user_id != user_id),
        decreases n - i,
    {
        proof {
            lemma_filter_push(store.votes@, |v: Vote| v.user_id != user_id, i as int);
        }
        if store.votes[i].user_id != user_id {
            kept.push(store.votes[i].clone());
        }
        i = i + 1;
    }
    proof {
        assert(store.votes@.take(n as int) =~= store.votes@);
        lemma_votes_wf_filter(store.votes@, |v: Vote| v.user_id != user_id, store.next_id);
        store.votes@.lemma_filter_len(|v: Vote| v.user_id != user_id);
    }
    let r = store.votes.len() - kept.len();
    store.votes = kept;
    r
}

/// Removes every vote on one question; says how many went.
pub fn delete_all_by_question_id(store: &mut Store, question_id: u64) -> (r: usize)
    requires
        store_wf(*old(store)),
    ensures
        store_wf(*final(store)),
        final(store).votes@ == old(store).votes@.filter(
            |v: Vote| v.question_id != question_id,
        ),
        final(store).users@ == old(store).users@,
        final(store).questions@ == old(store).questions@,
        final(store).next_id == old(store).next_id,
        r == old(store).votes@.len() - final(store).votes@.len(),
{
    let n = store.votes.len();
    let mut kept: Vec<Vote> = Vec::new();
    let mut i: usize = 0;
    while i < n
        invariant
            store_wf(*store),
            *store == *old(store),
            n == store.votes@.len(),
            i <= n,
            kept@ == store.votes@.take(i as int).filter(
                |v: Vote| v.question_id != question_id,
            ),
        decreases n - i,
    {
        proof {
            lemma_filter_push(store.votes@, |v: Vote| v.question_id != question_id, i as int);
        }
        if store.votes[i].question_id != question_id {
            kept.push(store.votes[i].clone());
        }
        i = i + 1;
    }
    proof {
        assert(store.votes@.take(n as int) =~= store.votes@);
        lemma_votes_wf_filter(
            store.votes@,
            |v: Vote| v.question_id != question_id,
            store.next_id,
        );
        store.votes@.lemma_filter_len(|v: Vote| v.question_id != question_id);
    }
    let r = store.votes.len() - kept.len();
    store.votes = kept;
    r
}

/// Removes the vote of one user on one question, if any; says how many
/// went.
pub fn delete_all_by_user_id_and_question_id(
    store: &mut Store,
    user_id: u64,
    question_id: u64,
) -> (r: usize)
    requires
        store_wf(*old(store)),
    ensures
        store_wf(*final(store)),
        final(store).votes@ == old(store).votes@.filter(
            |v: Vote| !(v.user_id == user_id && v.question_id == question_id),
        ),
        final(store).users@ == old(store).users@,
        final(store).questions@ == old(store).questions@,
        final(store).next_id == old(store).next_id,
        r == old(store).votes@.len() - final(store).votes@.len(),
{
    let n = store.votes.len();
    let mut kept: Vec<Vote> = Vec::new();
    let mut i: usize = 0;
    while i < n
        invariant
            store_wf(*store),
            *store == *old(store),
            n == store.votes@.len(),
            i <= n,
            kept@ == store.votes@.take(i as int).filter(
                |v: Vote| !(v.user_id == user_id && v.question_id == question_id),
            ),
        decreases n - i,
    {
        proof {
            lemma_filter_push(
                store.votes@,
                |v: Vote| !(v.user_id == user_id && v.question_id == question_id),
                i as int,
            );
        }
        if !(store.votes[i].user_id == user_id && store.votes[i].question_id == question_id) {
            kept.push(store.votes[i].clone());
        }
        i = i + 1;
    }
    proof {
        assert(store.votes@.take(n as int) =~= store.votes@);
        lemma_votes_wf_filter(
            store.votes@,
            |v: Vote| !(v.user_id == user_id && v.question_id == question_id),
            store.next_id,
        );
        store.votes@.lemma_filter_len(
            |v: Vote| !(v.user_id == user_id && v.question_id == question_id),
        );
    }
    let r = store.votes.len() - kept.len();
    store.votes = kept;
    r
}

/// Removes the vote with this id, if any; says how many went.
pub fn delete_by_id(store: &mut Store, vote_id: u64) -> (r: usize)
    requires
        store_wf(*old(store)),
    ensures
        store_wf(*final(store)),
        final(store).votes@ == old(store).votes@.filter(|v: Vote| v.id != vote_id),
        final(store).users@ == old(store).users@,
        final(store).questions@ == old(store).questions@,
        final(store).next_id == old(store).next_id,
        r == old(store).votes@.len() - final(store).votes@.len(),
{
    let n = store.votes.len();
    let mut kept: Vec<Vote> = Vec::new();
    let mut i: usize = 0;
    while i < n
        invariant
            store_wf(*store),
            *store == *old(store),
            n == store.votes@.len(),
            i <= n,
            kept@ == store.votes@.take(i as int).filter(|v: Vote| v.id != vote_id),
        decreases n - i,
    {
        proof {
            lemma_filter_push(store.votes@, |v: Vote| v.id != vote_id, i as int);
        }
        if store.votes[i].id != vote_id {
            kept.push(store.votes[i].clone());
        }
        i = i + 1;
    }
    proof {
        assert(store.votes@.take(n as int) =~= store.votes@);
        lemma_votes_wf_filter(store.votes@, |v: Vote| v.id != vote_id, store.next_id);
        store.votes@.lemma_filter_len(|v: Vote| v.id != vote_id);
    }
    let r = store.votes.len() - kept.len();
    store.votes = kept;
    r
}

/// Removes every vote; says how many went.
pub fn delete_all(store: &mut Store) -> (r: usize)
    requires
        store_wf(*old(store)),
    ensures
        store_wf(*final(store)),
        final(store).votes@ == Seq::<Vote>::empty(),
        final(store).users@ == old(store).users@,
        final(store).questions@ == old(store).questions@,
        final(store).next_id == old(store).next_id,
        r == old(store).votes@.len(),
{
    let r = store.votes.len();
    store.votes = Vec::new();
    r
}

/// Updates the value and the update stamp of the vote with this id, in
/// place. No row is added or removed.
pub fn update(store: &mut Store, vote_id: u64, new_value: i32, now: u64) -> (r: Option<Vote>)
    requires
        store_wf(*old(store)),
        0 <= new_value <= 5,
    ensures
        store_wf(*final(store)),
        final(store).users@ == old(store).users@,
        final(store).questions@ == old(store).questions@,
        final(store).next_id == old(store).next_id,
        !has_vote_id(old(store).votes@, vote_id) ==> r is None && *final(store) == *old(store),
        has_vote_id(old(store).votes@, vote_id) ==> {
            let i = vote_index_of(old(store).votes@, vote_id);
            &&& 0 <= i < old(store).votes@.len()
            &&& old(store).votes@[i].id == vote_id
            &&& r == Some((Vote { value: new_value, updated_at: now, ..old(store).votes@[i] }))
            &&& final(store).votes@ == old(store).votes@.update(i, r.unwrap())
        },
{
    let n = store.votes.len();
    let mut i: usize = 0;
    while i < n
        invariant
            store_wf(*store),
            *store == *old(store),
            0 <= new_value <= 5,
            n == store.votes@.len(),
            i <= n,
            forall|j: int| 0 <= j < i ==> (#[trigger] store.votes@[j]).id != vote_id,
        decreases n - i,
    {
        if store.votes[i].id == vote_id {
            let mut v = store.votes[i].clone();
            v.value = new_value;
            v.updated_at = now;
            let r = v.clone();
            store.votes[i] = v;
            proof {
                assert(final(store).votes@ == old(store).votes@.update(i as int, r));
                let k = vote_index_of(old(store).votes@, vote_id);
                assert(old(store).votes@[i as int].id == vote_id);
                assert(has_vote_id(old(store).votes@, vote_id));
                assert(old(store).votes@[k].id == old(store).votes@[i as int].id);
                assert(k == i as int);
                assert forall|j: int| 0 <= j < store.votes@.len() implies {
                    &&& (#[trigger] store.votes@[j]).id == old(store).votes@[j].id
                    &&& store.votes@[j].user_id == old(store).votes@[j].user_id
                    &&& store.votes@[j].question_id == old(store).votes@[j].question_id
                    &&& 0 <= store.votes@[j].value <= 5
                } by {
                    if j == i as int {
                        assert(store.votes@[j] == r);
                        assert(r.id == old(store).votes@[i as int].id);
                        assert(r.user_id == old(store).votes@[i as int].user_id);
                        assert(r.question_id == old(store).votes@[i as int].question_id);
                        assert(r.value == new_value);
                        assert(0 <= store.votes@[j].value && store.votes@[j].value <= 5);
                    } else {
                        assert(store.votes@[j] == old(store).votes@[j]);
                        assert(0 <= old(store).votes@[j].value && old(store).votes@[j].value
                            <= 5);
                        assert(0 <= store.votes@[j].value && store.votes@[j].value <= 5);
                    }
                }
            }
            return Some(r);
        }
        i = i + 1;
    }
    None
}

/// The average value of the votes on one question, in hundredths, rounded
/// half up; a question with no votes has no average.
pub fn avg_for_question(store: &Store, question_id: u64) -> (r: Option<u64>)
    requires
        store_wf(*store),
        store.votes@.len() <= 0xFFFF_FFFF,
    ensures
        r is Some <==> vote_count(store.votes@, question_id) > 0,
        r is Some ==> r.unwrap() == avg_hundredths(store.votes@, question_id),
        r is Some ==> r.unwrap() <= 500,
{
    let n = store.votes.len();
    let mut sum: u64 = 0;
    let mut count: u64 = 0;
    let mut i: usize = 0;
    while i < n
        invariant
            store_wf(*store),
            n == store.votes@.len(),
            n <= 0xFFFF_FFFF,
            i <= n,
            count == votes_for_question(store.votes@.take(i as int), question_id).len(),
            sum == sum_values(votes_for_question(store.votes@.take(i as int), question_id)),
            count <= i,
            sum <= 5 * count,
        decreases n - i,
    {
        proof {
            lemma_filter_push(store.votes@, |v: Vote| v.question_id == question_id, i as int);
        }
        if store.votes[i].question_id == question_id {
            proof {
                lemma_sum_push(
                    votes_for_question(store.votes@.take(i as int), question_id),
                    store.votes@[i as int],
                );
            }
            let v = store.votes[i].value;
            sum = sum + (v as u64);
            count = count + 1;
        } else {
            proof {
                assert(votes_for_question(store.votes@.take(i + 1), question_id)
                    =~= votes_for_question(store.votes@.take(i as int), question_id));
            }
        }
        i = i + 1;
    }
    proof {
        assert(store.votes@.take(n as int) =~= store.votes@);
    }
    if count == 0 {
        return None;
    }
    let h = (200 * sum + count) / (2 * count);
    proof {
        let c = count as int;
        let s = sum as int;
        lemma_div_is_ordered(200 * s + c, 1001 * c, 2 * c);
        lemma_fundamental_div_mod_converse(1001 * c, 2 * c, 500, c);
    }
    Some(h)
}

/// How many votes one question has.
pub fn count_for_question(store: &Store, question_id: u64) -> (r: usize)
    ensures
        r == vote_count(store.votes@, question_id),
{
    let n = store.votes.len();
    let mut count: usize = 0;
    let mut i: usize = 0;
    while i < n
        invariant
            n == store.votes@.len(),
            i <= n,
            count == vote_count(store.votes@.take(i as int), question_id),
            count <= i,
        decreases n - i,
    {
        proof {
            lemma_filter_push(store.votes@, |v: Vote| v.question_id == question_id, i as int);
        }
        if store.votes[i].question_id == question_id {
            count = count + 1;
        }
        i = i + 1;
    }
    proof {
        assert(store.votes@.take(n as int) =~= store.votes@);
    }
    count
}

/// How many votes one question has with one given value.
pub fn count_for_question_with_value(store: &Store, question_id: u64, vote_value: i32) -> (r:
    usize)
    ensures
        r == count_with_value(store.votes@, question_id, vote_value),
{
    let n = store.votes.len();
    let mut count: usize = 0;
    let mut i: usize = 0;
    while i < n
        invariant
            n == store.votes@.len(),
            i <= n,
            count == count_with_value(store.votes@.take(i as int), question_id, vote_value),
            count <= i,
        decreases n - i,
    {
        proof {
            lemma_filter_push(
                store.votes@,
                |v: Vote| v.question_id == question_id && v.value == vote_value,
                i as int,
            );
        }
        if store.votes[i].question_id == question_id && store.votes[i].value == vote_value {
            count = count + 1;
        }
        i = i + 1;
    }
    proof {
        assert(store.votes@.take(n as int) =~= store.votes@);
    }
    count
}

} // verus!
