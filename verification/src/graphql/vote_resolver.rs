//! Vote queries and mutations: the aggregate readings and the vote upsert.

use vstd::prelude::*;

use crate::context::Context;
use crate::decimal::{format_hundredths, lemma_zero_two_decimals, two_decimals};
use crate::ids::{parse_id, parse_id_spec};
use crate::models::field_error::errors_view;
use crate::models::vote::{vote_response_wf, vote_single_error, Vote, VoteInput, VoteResponse};
use crate::services;
use crate::services::vote::{avg_hundredths, count_with_value, has_vote_by_user_on_question,
    vote_by_user_on_question, vote_count, vote_index_of, votes_for_question};
use crate::store::{store_wf, votes_wf};

verus! {

/// The vote read operations.
pub struct VoteQuery;

/// The vote write operations.
pub struct VoteMutation;

impl VoteQuery {
    /// The average vote value of a question, written with exactly two
    /// decimal places and rounded half up. A question with no votes reads
    /// "0.00", and so does a malformed question id — the error is
    /// swallowed, not surfaced.
    pub fn get_avg_for_question(ctx: &Context, question_id: String) -> (r: String)
        requires
            store_wf(ctx.store),
            ctx.store.votes@.len() <= 0xFFFF_FFFF,
        ensures
            match parse_id_spec(question_id@) {
                Option::None => r@ == "0.00"@,
                Option::Some(qid) => r@ == two_decimals(
                    avg_hundredths(ctx.store.votes@, qid),
                ),
            },
            (match parse_id_spec(question_id@) {
                Option::None => true,
                Option::Some(qid) => vote_count(ctx.store.votes@, qid) == 0,
            }) ==> r@ == "0.00"@,
    {
        match parse_id(question_id.as_str()) {
            Option::None => {
                let r = format_hundredths(0);
                proof {
                    lemma_zero_two_decimals();
                }
                r
            },
            Option::Some(qid) => {
                match services::vote::avg_for_question(&ctx.store, qid) {
                    Option::None => {
                        let r = format_hundredths(0);
                        proof {
                            lemma_zero_two_decimals();
                        }
                        r
                    },
                    Option::Some(h) => {
                        let r = format_hundredths(h);
                        proof {
                            if vote_count(ctx.store.votes@, qid) == 0 {
                                lemma_zero_two_decimals();
                            }
                        }
                        r
                    },
                }
            },
        }
    }

    /// All votes on one question; a malformed question id reads as an
    /// empty list rather than an error.
    pub fn get_all_for_question(ctx: &Context, question_id: String) -> (r: Vec<Vote>)
        ensures
            match parse_id_spec(question_id@) {
                Option::None => r@ == Seq::<Vote>::empty(),
                Option::Some(qid) => r@ == votes_for_question(ctx.store.votes@, qid),
            },
    {
        match parse_id(question_id.as_str()) {
            Option::None => Vec::new(),
            Option::Some(qid) => services::vote::get_all_by_question_id(&ctx.store, qid),
        }
    }

    /// How many votes one question has of each value 0 through 5, in
    /// ascending value order. A malformed question id reads as six zeros.
    pub fn get_stats_for_question(ctx: &Context, question_id: String) -> (r: Vec<i32>)
        requires
            ctx.store.votes@.len() <= 0x7FFF_FFFF,
        ensures
            r@.len() == 6,
            match parse_id_spec(question_id@) {
                Option::None => forall|k: int| 0 <= k < 6 ==> r@[k] == 0,
                Option::Some(qid) => forall|k: int|
                    0 <= k < 6 ==> r@[k] == count_with_value(
                        ctx.store.votes@,
                        qid,
                        k as i32,
                    ),
            },
    {
        match parse_id(question_id.as_str()) {
            Option::None => {
                let mut r: Vec<i32> = Vec::new();
                let mut k: usize = 0;
                while k < 6
                    invariant
                        k <= 6,
                        r@.len() == k,
                        forall|m: int| 0 <= m < k ==> r@[m] == 0,
                    decreases 6 - k,
                {
                    r.push(0);
                    k = k + 1;
                }
                r
            },
            Option::Some(qid) => {
                let mut r: Vec<i32> = Vec::new();
                let mut k: usize = 0;
                while k < 6
                    invariant
                        ctx.store.votes@.len() <= 0x7FFF_FFFF,
                        k <= 6,
                        r@.len() == k,
                        forall|m: int|
                            0 <= m < k ==> r@[m] == count_with_value(
                                ctx.store.votes@,
                                qid,
                                m as i32,
                            ),
                    decreases 6 - k,
                {
                    let c = services::vote::count_for_question_with_value(
                        &ctx.store,
                        qid,
                        k as i32,
                    );
                    proof {
                        ctx.store.votes@.lemma_filter_len(
                            |v: Vote| v.question_id == qid && v.value == k as i32,
                        );
                    }
                    r.push(c as i32);
                    k = k + 1;
                }
                r
            },
        }
    }
}

impl VoteMutation {
    /// Casts a vote: value in 0..=5, question id well formed, caller
    /// authenticated — each checked in that order, each failure one field
    /// error. A first vote by this user on this question is inserted; a
    /// repeated one updates the existing row's value and update stamp in
    /// place, so the (user, question) pair keeps exactly one row.
    pub fn create(ctx: &mut Context, question_id: String, value: i32) -> (r: VoteResponse)
        requires
            store_wf(old(ctx).store),
            old(ctx).store.next_id < u64::MAX,
        ensures
            store_wf(final(ctx).store),
            final(ctx).session == old(ctx).session,
            final(ctx).now == old(ctx).now,
            final(ctx).store.users@ == old(ctx).store.users@,
            final(ctx).store.questions@ == old(ctx).store.questions@,
            vote_response_wf(r),
            ({
                let votes = old(ctx).store.votes@;
                match parse_id_spec(question_id@) {
                    Option::None => *final(ctx) == *old(ctx) && vote_single_error(
                        r,
                        "questionId"@,
                        "Invalid id."@,
                    ),
                    Option::Some(qid) => if !(0 <= value <= 5) {
                        &&& *final(ctx) == *old(ctx)
                        &&& vote_single_error(r, "value"@, "Value must be from 0 to 5"@)
                    } else if old(ctx).session.user_id is None {
                        &&& *final(ctx) == *old(ctx)
                        &&& vote_single_error(r, "userId"@, "User not logged in"@)
                    } else {
                        let uid = old(ctx).session.user_id.unwrap();
                        if has_vote_by_user_on_question(votes, uid, qid) {
                            let v0 = vote_by_user_on_question(votes, uid, qid);
                            let v1 = (Vote {
                                value: value,
                                updated_at: old(ctx).now,
                                ..v0
                            });
                            &&& r.vote == Some(v1)
                            &&& r.errors is None
                            &&& final(ctx).store.votes@ == votes.update(
                                vote_index_of(votes, v0.id),
                                v1,
                            )
                            &&& final(ctx).store.next_id == old(ctx).store.next_id
                        } else {
                            &&& r.errors is None
                            &&& r.vote is Some
                            &&& ({
                                let v = r.vote.unwrap();
                                &&& v.id == old(ctx).store.next_id
                                &&& v.value == value
                                &&& v.user_id == uid
                                &&& v.question_id == qid
                                &&& v.created_at == old(ctx).now
                                &&& v.updated_at == old(ctx).now
                                &&& final(ctx).store.votes@ == votes.push(v)
                                &&& final(ctx).store.next_id == old(ctx).store.next_id + 1
                            })
                        }
                    },
                }
            }),
    {
        let parsed = parse_id(question_id.as_str());
        match parsed {
            Option::None => {
                let r = VoteResponse::from_error(
                    "questionId".to_owned(),
                    "Invalid id.".to_owned(),
                );
                proof {
                    assert(errors_view(r.errors.unwrap()@) =~= seq![
                        ("questionId"@, "Invalid id."@),
                    ]);
                }
                r
            },
            Option::Some(qid) => {
                if !(0 <= value && value <= 5) {
                    let r = VoteResponse::from_error(
                        "value".to_owned(),
                        "Value must be from 0 to 5".to_owned(),
                    );
                    proof {
                        assert(errors_view(r.errors.unwrap()@) =~= seq![
                            ("value"@, "Value must be from 0 to 5"@),
                        ]);
                    }
                    r
                } else {
                    match ctx.session.user_id {
                        Option::None => {
                            let r = VoteResponse::from_error(
                                "userId".to_owned(),
                                "User not logged in".to_owned(),
                            );
                            proof {
                                assert(errors_view(r.errors.unwrap()@) =~= seq![
                                    ("userId"@, "User not logged in"@),
                                ]);
                            }
                            r
                        },
                        Option::Some(uid) => {
                            let existing = services::vote::get_by_user_id_and_question_id(
                                &ctx.store,
                                uid,
                                qid,
                            );
                            match existing {
                                Option::Some(v0) => {
                                    proof {
                                        let votes = old(ctx).store.votes@;
                                        let j = choose|i: int|
                                            0 <= i < votes.len() && (#[trigger] votes[i]).user_id
                                                == uid && votes[i].question_id == qid;
                                        assert(v0 == votes[j]);
                                        assert(votes[j].id == v0.id);
                                        assert(services::vote::has_vote_id(votes, v0.id));
                                        let k = vote_index_of(votes, v0.id);
                                        assert(votes[k].id == votes[j].id);
                                        assert(k == j);
                                    }
                                    let now = ctx.now;
                                    let updated = services::vote::update(
                                        &mut ctx.store,
                                        v0.id,
                                        value,
                                        now,
                                    );
                                    match updated {
                                        Option::Some(v1) => VoteResponse::from_vote(v1),
                                        Option::None => {
                                            // The vote was just found, so the update
                                            // cannot miss; this arm is unreachable.
                                            proof {
                                                assert(false);
                                            }
                                            VoteResponse::from_error(
                                                "userId".to_owned(),
                                                "Vote not found.".to_owned(),
                                            )
                                        },
                                    }
                                },
                                Option::None => {
                                    let now = ctx.now;
                                    let vote = services::vote::create(
                                        &mut ctx.store,
                                        VoteInput { value, user_id: uid, question_id: qid },
                                        now,
                                    );
                                    VoteResponse::from_vote(vote)
                                },
                            }
                        },
                    }
                }
            },
        }
    }
}

/// In a well-formed store a (user, question) pair that has a vote has
/// exactly one vote row — the upsert updates that row and never adds a
/// second one.
pub proof fn lemma_one_row_per_pair(
    votes: Seq<Vote>,
    next_id: u64,
    user_id: u64,
    question_id: u64,
)
    requires
        votes_wf(votes, next_id),
        has_vote_by_user_on_question(votes, user_id, question_id),
    ensures
        votes.filter(
            |v: Vote| v.user_id == user_id && v.question_id == question_id,
        ).len() == 1,
    decreases votes.len(),
{
    reveal(Seq::filter);
    let p = |v: Vote| v.user_id == user_id && v.question_id == question_id;
    let d = votes.drop_last();
    let last = votes.last();
    if p(last) {
        assert forall|i: int| 0 <= i < d.len() implies !p(#[trigger] d[i]) by {
            assert(d[i] == votes[i]);
            assert(!(votes[i].user_id == votes[votes.len() - 1].user_id
                && votes[i].question_id == votes[votes.len() - 1].question_id));
        }
        crate::store::lemma_filter_none(d, p);
        assert(votes.filter(p) == d.filter(p).push(last));
    } else {
        assert forall|i: int, j: int| 0 <= i < j < d.len() implies {
            &&& (#[trigger] d[i]).id != (#[trigger] d[j]).id
            &&& !(d[i].user_id == d[j].user_id && d[i].question_id == d[j].question_id)
        } by {
            assert(d[i] == votes[i] && d[j] == votes[j]);
        }
        assert forall|i: int| 0 <= i < d.len() implies (#[trigger] d[i]).id < next_id && 0 <= d[
            i
        ].value <= 5 by {
            assert(d[i] == votes[i]);
        }
        let w = choose|i: int|
            0 <= i < votes.len() && (#[trigger] votes[i]).user_id == user_id
                && votes[i].question_id == question_id;
        assert(w < votes.len() - 1);
        assert(d[w] == votes[w]);
        assert(has_vote_by_user_on_question(d, user_id, question_id));
        lemma_one_row_per_pair(d, next_id, user_id, question_id);
        assert(votes.filter(p) == d.filter(p));
    }
}

} // verus!
