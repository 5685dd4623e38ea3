//! The record store the core works against: three tables of plain records
//! and a fresh-id counter, with the uniqueness rules the business logic
//! depends on.
//!
//! Persistence itself is a collaborator outside this crate; the core's
//! decisions only read and change this in-memory image of the three
//! relations. The well-formedness predicate gathers the invariants the
//! services establish and preserve: unique ids everywhere, unique usernames
//! and emails, unique question text, and at most one vote per
//! (user, question) pair.

use vstd::prelude::*;

use crate::models::question::Question;
use crate::models::user::User;
use crate::models::vote::Vote;

verus! {

/// The three relations and the id source. Every id ever handed out is below
/// `next_id`, so `next_id` is fresh for all three tables.
pub struct Store {
    pub users: Vec<User>,
    pub questions: Vec<Question>,
    pub votes: Vec<Vote>,
    pub next_id: u64,
}

/// Users are unique by id, by username and by email, and their ids are
/// below the fresh-id bound.
pub open spec fn users_wf(users: Seq<User>, next_id: u64) -> bool {
    &&& forall|i: int, j: int|
        0 <= i < j < users.len() ==> {
            &&& (#[trigger] users[i]).id != (#[trigger] users[j]).id
            &&& users[i].username@ != users[j].username@
            &&& users[i].email@ != users[j].email@
        }
    &&& forall|i: int| 0 <= i < users.len() ==> (#[trigger] users[i]).id < next_id
}

/// Questions are unique by id and by text, and their ids are below the
/// fresh-id bound.
pub open spec fn questions_wf(questions: Seq<Question>, next_id: u64) -> bool {
    &&& forall|i: int, j: int|
        0 <= i < j < questions.len() ==> {
            &&& (#[trigger] questions[i]).id != (#[trigger] questions[j]).id
            &&& questions[i].text@ != questions[j].text@
        }
    &&& forall|i: int| 0 <= i < questions.len() ==> (#[trigger] questions[i]).id < next_id
}

/// Votes are unique by id and by (user, question) pair, their values lie in
/// 0..=5, and their ids are below the fresh-id bound.
pub open spec fn votes_wf(votes: Seq<Vote>, next_id: u64) -> bool {
    &&& forall|i: int, j: int|
        0 <= i < j < votes.len() ==> {
            &&& (#[trigger] votes[i]).id != (#[trigger] votes[j]).id
            &&& !(votes[i].user_id == votes[j].user_id && votes[i].question_id
                == votes[j].question_id)
        }
    &&& forall|i: int|
        0 <= i < votes.len() ==> (#[trigger] votes[i]).id < next_id && 0 <= votes[i].value <= 5
}

/// The store invariant: all three tables well formed under one fresh-id
/// bound.
pub open spec fn store_wf(s: Store) -> bool {
    &&& users_wf(s.users@, s.next_id)
    &&& questions_wf(s.questions@, s.next_id)
    &&& votes_wf(s.votes@, s.next_id)
}

impl Store {
    /// An empty store.
    pub fn new() -> (r: Store)
        ensures
            store_wf(r),
            r.users@ == Seq::<User>::empty(),
            r.questions@ == Seq::<Question>::empty(),
            r.votes@ == Seq::<Vote>::empty(),
            r.next_id == 1,
    {
        Store { users: Vec::new(), questions: Vec::new(), votes: Vec::new(), next_id: 1 }
    }
}

/// Filtering one more element either appends it or not: the filtered prefix
/// grows by the element exactly when the predicate holds of it.
pub proof fn lemma_filter_push<A>(s: Seq<A>, p: spec_fn(A) -> bool, i: int)
    requires
        0 <= i < s.len(),
    ensures
        s.take(i + 1).filter(p) == s.take(i).filter(p) + (if p(s[i]) {
            seq![s[i]]
        } else {
            Seq::<A>::empty()
        }),
{
    reveal(Seq::filter);
    let t1 = s.take(i + 1);
    assert(t1.drop_last() =~= s.take(i));
    assert(t1.last() == s[i]);
    if p(s[i]) {
        assert(t1.filter(p) =~= s.take(i).filter(p) + seq![s[i]]);
    } else {
        assert(t1.filter(p) =~= s.take(i).filter(p) + Seq::<A>::empty());
    }
}

/// A filter that no element satisfies yields the empty sequence.
pub proof fn lemma_filter_none<A>(s: Seq<A>, p: spec_fn(A) -> bool)
    requires
        forall|i: int| 0 <= i < s.len() ==> !p(#[trigger] s[i]),
    ensures
        s.filter(p) == Seq::<A>::empty(),
    decreases s.len(),
{
    reveal(Seq::filter);
    if s.len() > 0 {
        lemma_filter_none(s.drop_last(), p);
    }
}

/// Every element of a filtered sequence comes from the original sequence.
pub proof fn lemma_filter_membership<A>(s: Seq<A>, p: spec_fn(A) -> bool, k: int)
    requires
        0 <= k < s.filter(p).len(),
    ensures
        exists|j: int| 0 <= j < s.len() && s[j] == #[trigger] s.filter(p)[k],
    decreases s.len(),
{
    reveal(Seq::filter);
    if s.len() > 0 {
        let fd = s.drop_last().filter(p);
        if p(s.last()) {
            if k < fd.len() {
                lemma_filter_membership(s.drop_last(), p, k);
                let j = choose|j: int|
                    0 <= j < s.drop_last().len() && s.drop_last()[j] == fd[k];
                assert(s[j] == s.filter(p)[k]);
            } else {
                assert(s[s.len() - 1] == s.filter(p)[k]);
            }
        } else {
            lemma_filter_membership(s.drop_last(), p, k);
            let j = choose|j: int| 0 <= j < s.drop_last().len() && s.drop_last()[j] == fd[k];
            assert(s[j] == s.filter(p)[k]);
        }
    }
}

/// Removing votes never breaks the vote table's invariant.
pub proof fn lemma_votes_wf_filter(votes: Seq<Vote>, p: spec_fn(Vote) -> bool, next_id: u64)
    requires
        votes_wf(votes, next_id),
    ensures
        votes_wf(votes.filter(p), next_id),
    decreases votes.len(),
{
    reveal(Seq::filter);
    if votes.len() > 0 {
        let d = votes.drop_last();
        assert(votes_wf(d, next_id));
        lemma_votes_wf_filter(d, p, next_id);
        let fd = d.filter(p);
        if p(votes.last()) {
            let f = votes.filter(p);
            assert(f == fd.push(votes.last()));
            assert forall|k: int| 0 <= k < fd.len() implies {
                &&& (#[trigger] fd[k]).id != votes.last().id
                &&& !(fd[k].user_id == votes.last().user_id && fd[k].question_id
                    == votes.last().question_id)
            } by {
                lemma_filter_membership(d, p, k);
                let j = choose|j: int| 0 <= j < d.len() && d[j] == fd[k];
                assert(votes[j] == fd[k]);
                assert(votes[j].id != votes[votes.len() - 1].id);
            }
        }
    }
}

/// Removing questions never breaks the question table's invariant.
pub proof fn lemma_questions_wf_filter(
    questions: Seq<Question>,
    p: spec_fn(Question) -> bool,
    next_id: u64,
)
    requires
        questions_wf(questions, next_id),
    ensures
        questions_wf(questions.filter(p), next_id),
    decreases questions.len(),
{
    reveal(Seq::filter);
    if questions.len() > 0 {
        let d = questions.drop_last();
        assert(questions_wf(d, next_id));
        lemma_questions_wf_filter(d, p, next_id);
        let fd = d.filter(p);
        if p(questions.last()) {
            let f = questions.filter(p);
            assert(f == fd.push(questions.last()));
            assert forall|k: int| 0 <= k < fd.len() implies {
                &&& (#[trigger] fd[k]).id != questions.last().id
                &&& fd[k].text@ != questions.last().text@
            } by {
                lemma_filter_membership(d, p, k);
                let j = choose|j: int| 0 <= j < d.len() && d[j] == fd[k];
                assert(questions[j] == fd[k]);
                assert(questions[j].id != questions[questions.len() - 1].id);
            }
        }
    }
}

/// In a well-formed store, one user on one question has at most one vote:
/// two vote rows agreeing on user and question are the same row.
pub proof fn lemma_one_vote_per_pair(s: Store, i: int, j: int)
    requires
        store_wf(s),
        0 <= i < s.votes@.len(),
        0 <= j < s.votes@.len(),
        s.votes@[i].user_id == s.votes@[j].user_id,
        s.votes@[i].question_id == s.votes@[j].question_id,
    ensures
        i == j,
{
}

} // verus!
