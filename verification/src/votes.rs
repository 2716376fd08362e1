//! The vote ledger: one signed vote per user and target, with toggle and
//! switch semantics and an aggregate that is always recomputed from the rows.

use vstd::prelude::*;

use crate::auth::{admitted, extract_user_id, identity_view};
use crate::db::DbView;
use crate::error::ApiError;
use crate::shared::{CreateVote, VoteResponse};
use crate::state::{AppState, AppStateView, opt_text};

verus! {

/// One live vote.
#[derive(Debug)]
pub struct Vote {
    pub id: i64,
    pub user_id: i64,
    pub target_type: String,
    pub target_id: i64,
    pub value: i32,
    pub created_at: String,
}

/// What a `Vote` holds, as mathematical values.
pub struct VoteView {
    pub id: int,
    pub user_id: int,
    pub target_type: Seq<char>,
    pub target_id: int,
    pub value: int,
    pub created_at: Seq<char>,
}

impl View for Vote {
    type V = VoteView;

    open spec fn view(&self) -> VoteView {
        VoteView {
            id: self.id as int,
            user_id: self.user_id as int,
            target_type: self.target_type@,
            target_id: self.target_id as int,
            value: self.value as int,
            created_at: self.created_at@,
        }
    }
}

impl Clone for Vote {
    fn clone(&self) -> (res: Self)
        ensures
            res == *self,
    {
        Vote {
            id: self.id,
            user_id: self.user_id,
            target_type: self.target_type.clone(),
            target_id: self.target_id,
            value: self.value,
            created_at: self.created_at.clone(),
        }
    }
}

impl VoteView {
    /// This vote is on the given target.
    pub open spec fn is_on(self, target_type: Seq<char>, target_id: int) -> bool {
        self.target_type == target_type && self.target_id == target_id
    }

    /// This vote is the given user's vote on the given target.
    pub open spec fn is_by(self, user_id: int, target_type: Seq<char>, target_id: int) -> bool {
        self.user_id == user_id && self.is_on(target_type, target_id)
    }
}

/// What casting a vote did to the ledger.
#[derive(Clone, Copy, Debug, PartialEq, Eq, Structural)]
pub enum VoteOutcome {
    /// The user had no vote on the target: one was recorded.
    Inserted,
    /// The user had the opposite vote: it was flipped in place.
    Switched,
    /// The user had the same vote: it was withdrawn.
    Removed,
}

/// A vote is an upvote (+1) or a downvote (-1).
pub open spec fn valid_value(value: int) -> bool {
    value == 1 || value == -1
}

/// The aggregate score of a target: the sum of the values of the votes on it.
pub open spec fn tally(rows: Seq<VoteView>, target_type: Seq<char>, target_id: int) -> int
    decreases rows.len(),
{
    if rows.len() == 0 {
        0
    } else {
        tally(rows.drop_last(), target_type, target_id) + if rows.last().is_on(
            target_type,
            target_id,
        ) {
            rows.last().value
        } else {
            0
        }
    }
}

/// The user has a vote on the target.
pub open spec fn has_voted(
    rows: Seq<VoteView>,
    user_id: int,
    target_type: Seq<char>,
    target_id: int,
) -> bool {
    exists|i: int| 0 <= i < rows.len() && #[trigger] rows[i].is_by(user_id, target_type, target_id)
}

/// Where the user's vote on the target stands among the rows.
pub open spec fn vote_index(
    rows: Seq<VoteView>,
    user_id: int,
    target_type: Seq<char>,
    target_id: int,
) -> int {
    choose|i: int| 0 <= i < rows.len() && #[trigger] rows[i].is_by(user_id, target_type, target_id)
}

/// The user's current vote on the target, if any.
pub open spec fn personal_vote(
    rows: Seq<VoteView>,
    user_id: int,
    target_type: Seq<char>,
    target_id: int,
) -> Option<int> {
    if has_voted(rows, user_id, target_type, target_id) {
        Some(rows[vote_index(rows, user_id, target_type, target_id)].value)
    } else {
        None
    }
}

/// The three-way decision at the heart of casting a vote.
pub open spec fn decide_spec(existing: Option<int>, value: int) -> VoteOutcome {
    match existing {
        None => VoteOutcome::Inserted,
        Some(v) => if v == value {
            VoteOutcome::Removed
        } else {
            VoteOutcome::Switched
        },
    }
}

/// The caster's personal vote once the cast is done.
pub open spec fn vote_after(existing: Option<int>, value: int) -> Option<int> {
    match decide_spec(existing, value) {
        VoteOutcome::Removed => None,
        _ => Some(value),
    }
}

/// The rows once `user_id` has cast `value` on the target. A new row, where one
/// is needed, gets the identifier `fresh_id` and the timestamp `now`.
pub open spec fn rows_after_cast(
    rows: Seq<VoteView>,
    fresh_id: int,
    user_id: int,
    target_type: Seq<char>,
    target_id: int,
    value: int,
    now: Seq<char>,
) -> Seq<VoteView> {
    let at = vote_index(rows, user_id, target_type, target_id);
    match decide_spec(personal_vote(rows, user_id, target_type, target_id), value) {
        VoteOutcome::Inserted => rows.push(
            VoteView { id: fresh_id, user_id, target_type, target_id, value, created_at: now },
        ),
        VoteOutcome::Removed => rows.remove(at),
        VoteOutcome::Switched => rows.update(at, VoteView { value, ..rows[at] }),
    }
}

/// No user has two votes on one target.
pub open spec fn one_vote_each(rows: Seq<VoteView>) -> bool {
    forall|i: int, j: int|
        0 <= i < j < rows.len() ==> !(#[trigger] rows[j]).is_by(
            (#[trigger] rows[i]).user_id,
            rows[i].target_type,
            rows[i].target_id,
        )
}

/// No user has two votes on one target, every value is +1 or -1, and
/// identifiers grow with the rows and stay within `last_id`.
pub open spec fn rows_wf(rows: Seq<VoteView>, last_id: int) -> bool {
    &&& 0 <= last_id <= i64::MAX
    &&& rows.len() <= last_id
    &&& forall|i: int|
        0 <= i < rows.len() ==> valid_value(#[trigger] rows[i].value) && 1 <= rows[i].id <= last_id
    &&& forall|i: int, j: int|
        0 <= i < j < rows.len() ==> (#[trigger] rows[i]).id < (#[trigger] rows[j]).id
    &&& one_vote_each(rows)
}

/// The views of a run of votes.
pub open spec fn vote_views(rows: Seq<Vote>) -> Seq<VoteView> {
    rows.map_values(|v: Vote| v@)
}

/// Decides what a cast does, from the caster's existing vote and the new value.
pub fn decide_vote(existing: Option<i32>, value: i32) -> (outcome: VoteOutcome)
    ensures
        outcome == decide_spec(
            match existing {
                Some(v) => Some(v as int),
                None => None,
            },
            value as int,
        ),
{
    match existing {
        None => VoteOutcome::Inserted,
        Some(v) => if v == value {
            VoteOutcome::Removed
        } else {
            VoteOutcome::Switched
        },
    }
}

/// The score of a target is never further from zero than there are votes.
pub proof fn law_score_within_vote_count(rows: Seq<VoteView>, target_type: Seq<char>, target_id: int)
    requires
        forall|i: int| 0 <= i < rows.len() ==> valid_value(#[trigger] rows[i].value),
    ensures
        -rows.len() <= tally(rows, target_type, target_id) <= rows.len(),
    decreases rows.len(),
{
    if rows.len() > 0 {
        law_score_within_vote_count(rows.drop_last(), target_type, target_id);
    }
}

/// The votes of the value `value` on a target.
pub open spec fn cast_on(target_type: Seq<char>, target_id: int, value: int) -> spec_fn(
    VoteView,
) -> bool {
    |vote: VoteView| vote.is_on(target_type, target_id) && vote.value == value
}

/// The score of a target is made up of the live votes on it and of nothing
/// else: it is the number of live upvotes on it less the number of live
/// downvotes on it. A vote that was withdrawn is no row any more and counts
/// for nothing.
pub proof fn law_score_counts_live_votes(rows: Seq<VoteView>, target_type: Seq<char>, target_id: int)
    requires
        forall|i: int| 0 <= i < rows.len() ==> valid_value(#[trigger] rows[i].value),
    ensures
        tally(rows, target_type, target_id) == rows.filter(
            cast_on(target_type, target_id, 1),
        ).len() - rows.filter(cast_on(target_type, target_id, -1)).len(),
    decreases rows.len(),
{
    reveal(Seq::filter);
    if rows.len() > 0 {
        let front = rows.drop_last();
        assert forall|i: int| 0 <= i < front.len() implies valid_value(
            #[trigger] front[i].value,
        ) by {
            assert(front[i] == rows[i]);
            assert(valid_value(rows[i].value));
        }
        law_score_counts_live_votes(front, target_type, target_id);
        assert(valid_value(rows[rows.len() - 1].value));
    }
}

/// Withdrawing the vote at `at` lowers the score of its target by its value and
/// leaves every other score alone.
pub proof fn lemma_tally_remove(
    rows: Seq<VoteView>,
    at: int,
    target_type: Seq<char>,
    target_id: int,
)
    requires
        0 <= at < rows.len(),
    ensures
        tally(rows.remove(at), target_type, target_id) == tally(rows, target_type, target_id) - (
        if rows[at].is_on(target_type, target_id) {
            rows[at].value
        } else {
            0
        }),
    decreases rows.len(),
{
    if at == rows.len() - 1 {
        assert(rows.remove(at) =~= rows.drop_last());
    } else {
        lemma_tally_remove(rows.drop_last(), at, target_type, target_id);
        assert(rows.remove(at).drop_last() =~= rows.drop_last().remove(at));
        assert(rows.remove(at).last() == rows.last());
    }
}

/// Replacing the vote at `at` moves the score of a target by the difference
/// between what the new row and the old row count for on it.
pub proof fn lemma_tally_update(
    rows: Seq<VoteView>,
    at: int,
    row: VoteView,
    target_type: Seq<char>,
    target_id: int,
)
    requires
        0 <= at < rows.len(),
    ensures
        tally(rows.update(at, row), target_type, target_id) == tally(rows, target_type, target_id)
            - (if rows[at].is_on(target_type, target_id) {
            rows[at].value
        } else {
            0
        }) + (if row.is_on(target_type, target_id) {
            row.value
        } else {
            0
        }),
    decreases rows.len(),
{
    if at == rows.len() - 1 {
        assert(rows.update(at, row).drop_last() =~= rows.drop_last());
    } else {
        lemma_tally_update(rows.drop_last(), at, row, target_type, target_id);
        assert(rows.update(at, row).drop_last() =~= rows.drop_last().update(at, row));
    }
}

/// Where no user has two votes on one target, a user's vote on a target stands
/// at one place only.
pub proof fn lemma_vote_index_unique(
    rows: Seq<VoteView>,
    at: int,
    user_id: int,
    target_type: Seq<char>,
    target_id: int,
)
    requires
        one_vote_each(rows),
        0 <= at < rows.len(),
        rows[at].is_by(user_id, target_type, target_id),
    ensures
        has_voted(rows, user_id, target_type, target_id),
        vote_index(rows, user_id, target_type, target_id) == at,
        personal_vote(rows, user_id, target_type, target_id) == Some(rows[at].value),
{
    let k = vote_index(rows, user_id, target_type, target_id);
    assert(0 <= k < rows.len() && rows[k].is_by(user_id, target_type, target_id));
    if k < at {
        assert(!rows[at].is_by(rows[k].user_id, rows[k].target_type, rows[k].target_id));
    } else if at < k {
        assert(!rows[k].is_by(rows[at].user_id, rows[at].target_type, rows[at].target_id));
    }
}


/// Withdrawing a vote keeps the ledger well-formed.
pub proof fn lemma_wf_remove(rows: Seq<VoteView>, last_id: int, at: int)
    requires
        rows_wf(rows, last_id),
        0 <= at < rows.len(),
    ensures
        rows_wf(rows.remove(at), last_id),
{
    let after = rows.remove(at);
    assert forall|i: int| 0 <= i < after.len() implies valid_value(#[trigger] after[i].value) && 1
        <= after[i].id <= last_id by {
        if i < at {
            assert(after[i] == rows[i]);
            assert(valid_value(rows[i].value));
        } else {
            assert(after[i] == rows[i + 1]);
            assert(valid_value(rows[i + 1].value));
        }
    }
    assert forall|i: int, j: int| 0 <= i < j < after.len() implies (#[trigger] after[i]).id < (
    #[trigger] after[j]).id && !after[j].is_by(
        after[i].user_id,
        after[i].target_type,
        after[i].target_id,
    ) by {
        let si = if i < at {
            i
        } else {
            i + 1
        };
        let sj = if j < at {
            j
        } else {
            j + 1
        };
        assert(after[i] == rows[si]);
        assert(after[j] == rows[sj]);
    }
}

/// Flipping the value of a vote keeps the ledger well-formed.
pub proof fn lemma_wf_switch(rows: Seq<VoteView>, last_id: int, at: int, value: int)
    requires
        rows_wf(rows, last_id),
        0 <= at < rows.len(),
        valid_value(value),
    ensures
        rows_wf(rows.update(at, VoteView { value, ..rows[at] }), last_id),
{
    let after = rows.update(at, VoteView { value, ..rows[at] });
    assert forall|i: int| 0 <= i < after.len() implies valid_value(#[trigger] after[i].value) && 1
        <= after[i].id <= last_id by {
        assert(valid_value(rows[i].value));
        assert(after[i].id == rows[i].id);
    }
    assert forall|i: int, j: int| 0 <= i < j < after.len() implies (#[trigger] after[i]).id < (
    #[trigger] after[j]).id && !after[j].is_by(
        after[i].user_id,
        after[i].target_type,
        after[i].target_id,
    ) by {
        assert(rows[i].id < rows[j].id);
        assert(!rows[j].is_by(rows[i].user_id, rows[i].target_type, rows[i].target_id));
    }
}

/// Recording a first vote under a fresh identifier keeps the ledger well-formed.
pub proof fn lemma_wf_insert(rows: Seq<VoteView>, last_id: int, row: VoteView)
    requires
        rows_wf(rows, last_id),
        last_id < i64::MAX,
        row.id == last_id + 1,
        valid_value(row.value),
        !has_voted(rows, row.user_id, row.target_type, row.target_id),
    ensures
        rows_wf(rows.push(row), last_id + 1),
{
    let after = rows.push(row);
    assert forall|i: int| 0 <= i < after.len() implies valid_value(#[trigger] after[i].value) && 1
        <= after[i].id <= last_id + 1 by {
        if i < rows.len() {
            assert(valid_value(rows[i].value));
        }
    }
    assert forall|i: int, j: int| 0 <= i < j < after.len() implies (#[trigger] after[i]).id < (
    #[trigger] after[j]).id && !after[j].is_by(
        after[i].user_id,
        after[i].target_type,
        after[i].target_id,
    ) by {
        if j < rows.len() {
            assert(after[i] == rows[i] && after[j] == rows[j]);
        } else {
            assert(after[i] == rows[i]);
            assert(valid_value(rows[i].value));
            assert(!rows[i].is_by(row.user_id, row.target_type, row.target_id));
        }
    }
}

/// Casting the same vote twice in a row, by a user who had no vote on the
/// target, leaves the ledger as it was: the first cast records the vote and
/// moves the score by its value, the second withdraws it, and the score is
/// back where it started.
pub proof fn law_same_vote_twice_cancels(
    rows: Seq<VoteView>,
    last_id: int,
    first_id: int,
    second_id: int,
    user_id: int,
    target_type: Seq<char>,
    target_id: int,
    value: int,
    first_now: Seq<char>,
    second_now: Seq<char>,
)
    requires
        rows_wf(rows, last_id),
        valid_value(value),
        personal_vote(rows, user_id, target_type, target_id) is None,
    ensures
        ({
            let once = rows_after_cast(
                rows,
                first_id,
                user_id,
                target_type,
                target_id,
                value,
                first_now,
            );
            let twice = rows_after_cast(
                once,
                second_id,
                user_id,
                target_type,
                target_id,
                value,
                second_now,
            );
            &&& personal_vote(once, user_id, target_type, target_id) == Some(value)
            &&& tally(once, target_type, target_id) == tally(rows, target_type, target_id) + value
            &&& personal_vote(twice, user_id, target_type, target_id) is None
            &&& tally(twice, target_type, target_id) == tally(rows, target_type, target_id)
            &&& twice == rows
        }),
{
    let row = VoteView {
        id: first_id,
        user_id,
        target_type,
        target_id,
        value,
        created_at: first_now,
    };
    let once = rows.push(row);
    assert(once.drop_last() =~= rows);
    lemma_one_vote_each_push(rows, row);
    lemma_vote_index_unique(once, rows.len() as int, user_id, target_type, target_id);
    assert(once.remove(rows.len() as int) =~= rows);
}

/// Casting a vote and then the opposite vote, by a user who did not already
/// hold the first vote, ends with the opposite vote as the personal vote and
/// the score moved by twice its value from where the first cast left it: the
/// vote is switched, not counted twice.
pub proof fn law_opposite_vote_switches(
    rows: Seq<VoteView>,
    last_id: int,
    first_id: int,
    second_id: int,
    user_id: int,
    target_type: Seq<char>,
    target_id: int,
    value: int,
    first_now: Seq<char>,
    second_now: Seq<char>,
)
    requires
        rows_wf(rows, last_id),
        valid_value(value),
        personal_vote(rows, user_id, target_type, target_id) != Some(value),
    ensures
        ({
            let once = rows_after_cast(
                rows,
                first_id,
                user_id,
                target_type,
                target_id,
                value,
                first_now,
            );
            let twice = rows_after_cast(
                once,
                second_id,
                user_id,
                target_type,
                target_id,
                -value,
                second_now,
            );
            &&& personal_vote(once, user_id, target_type, target_id) == Some(value)
            &&& personal_vote(twice, user_id, target_type, target_id) == Some(-value)
            &&& tally(twice, target_type, target_id) == tally(once, target_type, target_id) - 2
                * value
            &&& twice.len() == once.len()
        }),
{
    let once = rows_after_cast(rows, first_id, user_id, target_type, target_id, value, first_now);
    let at = if has_voted(rows, user_id, target_type, target_id) {
        vote_index(rows, user_id, target_type, target_id)
    } else {
        rows.len() as int
    };
    if has_voted(rows, user_id, target_type, target_id) {
        lemma_one_vote_each_update(rows, at, VoteView { value, ..rows[at] });
    } else {
        lemma_one_vote_each_push(
            rows,
            VoteView { id: first_id, user_id, target_type, target_id, value, created_at: first_now },
        );
    }
    assert(once[at].is_by(user_id, target_type, target_id) && once[at].value == value);
    lemma_vote_index_unique(once, at, user_id, target_type, target_id);
    let flipped = VoteView { value: -value, ..once[at] };
    let twice = once.update(at, flipped);
    lemma_one_vote_each_update(once, at, flipped);
    lemma_vote_index_unique(twice, at, user_id, target_type, target_id);
    lemma_tally_update(once, at, flipped, target_type, target_id);
}

/// Votes by different users on one target add up: each cast of a first vote
/// moves the score by its value and leaves the other users' votes alone.
pub proof fn law_first_votes_add_up(
    rows: Seq<VoteView>,
    last_id: int,
    fresh_id: int,
    user_id: int,
    other_user: int,
    target_type: Seq<char>,
    target_id: int,
    value: int,
    now: Seq<char>,
)
    requires
        rows_wf(rows, last_id),
        valid_value(value),
        personal_vote(rows, user_id, target_type, target_id) is None,
        other_user != user_id,
    ensures
        ({
            let after = rows_after_cast(
                rows,
                fresh_id,
                user_id,
                target_type,
                target_id,
                value,
                now,
            );
            &&& tally(after, target_type, target_id) == tally(rows, target_type, target_id) + value
            &&& personal_vote(after, user_id, target_type, target_id) == Some(value)
            &&& personal_vote(after, other_user, target_type, target_id) == personal_vote(
                rows,
                other_user,
                target_type,
                target_id,
            )
        }),
{
    let row = VoteView { id: fresh_id, user_id, target_type, target_id, value, created_at: now };
    let after = rows.push(row);
    assert(after.drop_last() =~= rows);
    lemma_one_vote_each_push(rows, row);
    lemma_vote_index_unique(after, rows.len() as int, user_id, target_type, target_id);
    if has_voted(rows, other_user, target_type, target_id) {
        let k = vote_index(rows, other_user, target_type, target_id);
        assert(after[k] == rows[k]);
        lemma_vote_index_unique(after, k, other_user, target_type, target_id);
    } else {
        if has_voted(after, other_user, target_type, target_id) {
            let k = vote_index(after, other_user, target_type, target_id);
            assert(k < rows.len());
            assert(rows[k].is_by(other_user, target_type, target_id));
        }
    }
}

/// After a cast the caster's personal vote is what the cast was to leave: the
/// value that was cast, or none where the cast withdrew the vote.
pub proof fn law_cast_sets_the_personal_vote(
    rows: Seq<VoteView>,
    last_id: int,
    fresh_id: int,
    user_id: int,
    target_type: Seq<char>,
    target_id: int,
    value: int,
    now: Seq<char>,
)
    requires
        rows_wf(rows, last_id),
        valid_value(value),
    ensures
        personal_vote(
            rows_after_cast(rows, fresh_id, user_id, target_type, target_id, value, now),
            user_id,
            target_type,
            target_id,
        ) == vote_after(personal_vote(rows, user_id, target_type, target_id), value),
{
    let after = rows_after_cast(rows, fresh_id, user_id, target_type, target_id, value, now);
    let at = vote_index(rows, user_id, target_type, target_id);
    match personal_vote(rows, user_id, target_type, target_id) {
        None => {
            let row = VoteView {
                id: fresh_id,
                user_id,
                target_type,
                target_id,
                value,
                created_at: now,
            };
            lemma_one_vote_each_push(rows, row);
            lemma_vote_index_unique(after, rows.len() as int, user_id, target_type, target_id);
        },
        Some(v) => {
            if v == value {
                if has_voted(after, user_id, target_type, target_id) {
                    let k = vote_index(after, user_id, target_type, target_id);
                    let from = if k < at {
                        k
                    } else {
                        k + 1
                    };
                    assert(after[k] == rows[from]);
                    if from < at {
                        assert(!rows[at].is_by(
                            rows[from].user_id,
                            rows[from].target_type,
                            rows[from].target_id,
                        ));
                    } else {
                        assert(!rows[from].is_by(
                            rows[at].user_id,
                            rows[at].target_type,
                            rows[at].target_id,
                        ));
                    }
                }
            } else {
                let flipped = VoteView { value, ..rows[at] };
                lemma_one_vote_each_update(rows, at, flipped);
                lemma_vote_index_unique(after, at, user_id, target_type, target_id);
            }
        },
    }
}

/// A cast on one target leaves the score of every other target as it was.
pub proof fn law_cast_leaves_other_targets_alone(
    rows: Seq<VoteView>,
    last_id: int,
    fresh_id: int,
    user_id: int,
    target_type: Seq<char>,
    target_id: int,
    value: int,
    now: Seq<char>,
    other_type: Seq<char>,
    other_id: int,
)
    requires
        rows_wf(rows, last_id),
        valid_value(value),
        other_type != target_type || other_id != target_id,
    ensures
        tally(
            rows_after_cast(rows, fresh_id, user_id, target_type, target_id, value, now),
            other_type,
            other_id,
        ) == tally(rows, other_type, other_id),
{
    let after = rows_after_cast(rows, fresh_id, user_id, target_type, target_id, value, now);
    let at = vote_index(rows, user_id, target_type, target_id);
    match personal_vote(rows, user_id, target_type, target_id) {
        None => {
            assert(after.drop_last() =~= rows);
        },
        Some(v) => {
            if v == value {
                lemma_tally_remove(rows, at, other_type, other_id);
            } else {
                lemma_tally_update(rows, at, VoteView { value, ..rows[at] }, other_type, other_id);
            }
        },
    }
}

/// Adding a vote by a user who has none on its target keeps votes one per user
/// and target.
pub proof fn lemma_one_vote_each_push(rows: Seq<VoteView>, row: VoteView)
    requires
        one_vote_each(rows),
        !has_voted(rows, row.user_id, row.target_type, row.target_id),
    ensures
        one_vote_each(rows.push(row)),
{
    let after = rows.push(row);
    assert forall|i: int, j: int| 0 <= i < j < after.len() implies !(#[trigger] after[j]).is_by(
        (#[trigger] after[i]).user_id,
        after[i].target_type,
        after[i].target_id,
    ) by {
        if j < rows.len() {
            assert(after[i] == rows[i] && after[j] == rows[j]);
        } else {
            assert(after[i] == rows[i]);
            assert(!rows[i].is_by(row.user_id, row.target_type, row.target_id));
        }
    }
}

/// Replacing a vote by one of the same user on the same target keeps votes one
/// per user and target.
pub proof fn lemma_one_vote_each_update(rows: Seq<VoteView>, at: int, row: VoteView)
    requires
        one_vote_each(rows),
        0 <= at < rows.len(),
        row.is_by(rows[at].user_id, rows[at].target_type, rows[at].target_id),
    ensures
        one_vote_each(rows.update(at, row)),
{
    let after = rows.update(at, row);
    assert forall|i: int, j: int| 0 <= i < j < after.len() implies !(#[trigger] after[j]).is_by(
        (#[trigger] after[i]).user_id,
        after[i].target_type,
        after[i].target_id,
    ) by {
        assert(!rows[j].is_by(rows[i].user_id, rows[i].target_type, rows[i].target_id));
    }
}

/// The vote ledger.
pub struct VoteLedger {
    rows: Vec<Vote>,
    last_id: i64,
}

impl View for VoteLedger {
    type V = Seq<VoteView>;

    /// The live votes, oldest first.
    closed spec fn view(&self) -> Seq<VoteView> {
        vote_views(self.rows@)
    }
}

impl VoteLedger {
    /// The highest identifier handed out so far.
    pub closed spec fn last_id(&self) -> int {
        self.last_id as int
    }

    /// The ledger's invariant.
    pub open spec fn wf(&self) -> bool {
        rows_wf(self@, self.last_id())
    }

    /// An empty ledger.
    pub fn new() -> (ledger: Self)
        ensures
            ledger.wf(),
            ledger@ == Seq::<VoteView>::empty(),
            ledger.last_id() == 0,
    {
        let ledger = VoteLedger { rows: Vec::new(), last_id: 0 };
        assert(ledger@ =~= Seq::<VoteView>::empty());
        ledger
    }

    /// The number of live votes.
    pub fn len(&self) -> (n: usize)
        ensures
            n == self@.len(),
    {
        self.rows.len()
    }

    /// A copy of the live votes, oldest first.
    pub fn rows(&self) -> (rows: Vec<Vote>)
        ensures
            vote_views(rows@) == self@,
    {
        let mut out: Vec<Vote> = Vec::new();
        let mut i: usize = 0;
        while i < self.rows.len()
            invariant
                i <= self.rows.len(),
                out@ == self.rows@.take(i as int),
            decreases self.rows.len() - i,
        {
            out.push(self.rows[i].clone());
            assert(self.rows@.take(i + 1) =~= self.rows@.take(i as int).push(self.rows@[i as int]));
            i += 1;
        }
        assert(self.rows@.take(i as int) =~= self.rows@);
        out
    }

    fn find(&self, user_id: i64, target_type: &String, target_id: i64) -> (found: Option<usize>)
        requires
            self.wf(),
        ensures
            match found {
                Some(at) => {
                    &&& at < self@.len()
                    &&& self@[at as int].is_by(user_id as int, target_type@, target_id as int)
                    &&& has_voted(self@, user_id as int, target_type@, target_id as int)
                    &&& vote_index(self@, user_id as int, target_type@, target_id as int) == at
                },
                None => !has_voted(self@, user_id as int, target_type@, target_id as int),
            },
    {
        let mut i: usize = 0;
        while i < self.rows.len()
            invariant
                i <= self.rows.len(),
                self.wf(),
                forall|k: int|
                    0 <= k < i ==> !(#[trigger] self@[k]).is_by(
                        user_id as int,
                        target_type@,
                        target_id as int,
                    ),
            decreases self.rows.len() - i,
        {
            let row = &self.rows[i];
            if row.user_id == user_id && row.target_id == target_id && row.target_type
                == *target_type {
                proof {
                    lemma_vote_index_unique(
                        self@,
                        i as int,
                        user_id as int,
                        target_type@,
                        target_id as int,
                    );
                }
                return Some(i);
            }
            i += 1;
        }
        None
    }

    fn count(&self, target_type: &String, target_id: i64) -> (total: i64)
        requires
            self.wf(),
        ensures
            total == tally(self@, target_type@, target_id as int),
    {
        let mut total: i64 = 0;
        let mut i: usize = 0;
        while i < self.rows.len()
            invariant
                i <= self.rows.len(),
                self.wf(),
                total == tally(self@.take(i as int), target_type@, target_id as int),
                -i <= total <= i,
            decreases self.rows.len() - i,
        {
            let row = &self.rows[i];
            proof {
                assert(self@.take(i + 1).drop_last() =~= self@.take(i as int));
                assert(self@.take(i + 1).last() == self@[i as int]);
                assert(valid_value(self@[i as int].value));
            }
            if row.target_id == target_id && row.target_type == *target_type {
                total = total + row.value as i64;
            }
            i += 1;
        }
        assert(self@.take(i as int) =~= self@);
        total
    }

    /// Takes in a vote that was stored before, if its value is +1 or -1, its
    /// identifier lies beyond all that this ledger has handed out, and its
    /// caster has no vote on its target; any other vote is turned away and the
    /// ledger stays as it is.
    pub fn restore(&mut self, vote: Vote) -> (accepted: bool)
        requires
            old(self).wf(),
        ensures
            final(self).wf(),
            accepted == (valid_value(vote.value as int) && old(self).last_id() < vote.id
                && !has_voted(
                old(self)@,
                vote.user_id as int,
                vote.target_type@,
                vote.target_id as int,
            )),
            accepted ==> final(self).last_id() == vote.id && final(self)@ == old(self)@.push(vote@),
            !accepted ==> final(self).last_id() == old(self).last_id() && final(self)@ == old(
                self,
            )@,
    {
        if vote.value != 1 && vote.value != -1 {
            return false;
        }
        if vote.id <= self.last_id {
            return false;
        }
        if self.find(vote.user_id, &vote.target_type, vote.target_id).is_some() {
            return false;
        }
        let ghost before = self.rows@;
        let ghost old_rows = self@;
        let ghost old_last = self.last_id();
        self.last_id = vote.id;
        self.rows.push(vote);
        proof {
            assert(self@ =~= old_rows.push(vote@));
            lemma_one_vote_each_push(old_rows, vote@);
            assert forall|i: int| 0 <= i < self@.len() implies valid_value(
                #[trigger] self@[i].value,
            ) && 1 <= self@[i].id <= vote.id by {
                if i < old_rows.len() {
                    assert(self@[i] == old_rows[i]);
                    assert(valid_value(old_rows[i].value));
                }
            }
            assert forall|i: int, j: int| 0 <= i < j < self@.len() implies (#[trigger] self@[i]).id
                < (#[trigger] self@[j]).id by {
                assert(self@[i] == old_rows[i]);
                assert(valid_value(old_rows[i].value));
                if j < old_rows.len() {
                    assert(self@[j] == old_rows[j]);
                }
            }
        }
        true
    }

    /// Reads a target's score and, where a reader is given, the reader's own vote.
    /// Any target may be asked about, and nobody need be signed in.
    pub fn get_votes(&self, target_type: &str, target_id: i64, acting_user: Option<i64>) -> (resp:
        VoteResponse)
        requires
            self.wf(),
        ensures
            resp.vote_count == tally(self@, target_type@, target_id as int),
            match acting_user {
                Some(user_id) => match resp.user_vote {
                    Some(v) => personal_vote(self@, user_id as int, target_type@, target_id as int)
                        == Some(v as int),
                    None => personal_vote(self@, user_id as int, target_type@, target_id as int)
                        is None,
                },
                None => resp.user_vote is None,
            },
    {
        let kind = target_type.to_owned();
        let vote_count = self.count(&kind, target_id);
        let user_vote = match acting_user {
            Some(user_id) => match self.find(user_id, &kind, target_id) {
                Some(at) => Some(self.rows[at].value),
                None => None,
            },
            None => None,
        };
        VoteResponse { vote_count, user_vote }
    }

    /// Casts `value` for `user_id` on the target: a first vote is recorded, the
    /// same vote again withdraws it, the opposite vote flips it in place. The
    /// target is not looked up anywhere: any target can be voted on.
    ///
    /// A value other than +1 and -1 is refused as a bad request. A first vote is
    /// refused as an internal failure once the identifiers are used up.
    pub fn cast_vote(
        &mut self,
        user_id: i64,
        target_type: &str,
        target_id: i64,
        value: i32,
        now: &str,
    ) -> (result: Result<VoteResponse, ApiError>)
        requires
            old(self).wf(),
        ensures
            final(self).wf(),
            !valid_value(value as int) ==> result == Err::<VoteResponse, ApiError>(
                ApiError::BadRequest,
            ),
            valid_value(value as int) && personal_vote(
                old(self)@,
                user_id as int,
                target_type@,
                target_id as int,
            ) is None && old(self).last_id() == i64::MAX ==> result == Err::<
                VoteResponse,
                ApiError,
            >(ApiError::Internal),
            valid_value(value as int) && !(personal_vote(
                old(self)@,
                user_id as int,
                target_type@,
                target_id as int,
            ) is None && old(self).last_id() == i64::MAX) ==> result is Ok,
            result is Err ==> final(self)@ == old(self)@ && final(self).last_id() == old(
                self,
            ).last_id(),
            result matches Ok(resp) ==> {
                let before = personal_vote(
                    old(self)@,
                    user_id as int,
                    target_type@,
                    target_id as int,
                );
                &&& final(self)@ == rows_after_cast(
                    old(self)@,
                    old(self).last_id() + 1,
                    user_id as int,
                    target_type@,
                    target_id as int,
                    value as int,
                    now@,
                )
                &&& final(self).last_id() == if before is None {
                    old(self).last_id() + 1
                } else {
                    old(self).last_id()
                }
                &&& resp.vote_count == tally(final(self)@, target_type@, target_id as int)
                &&& match resp.user_vote {
                    Some(v) => vote_after(before, value as int) == Some(v as int),
                    None => vote_after(before, value as int) is None,
                }
                &&& personal_vote(final(self)@, user_id as int, target_type@, target_id as int)
                    == vote_after(before, value as int)
            },
    {
        if value != 1 && value != -1 {
            return Err(ApiError::BadRequest);
        }
        let kind = target_type.to_owned();
        let user_vote = match self.find(user_id, &kind, target_id) {
            Some(at) => {
                if self.rows[at].value == value {
                    let ghost before = self.rows@;
                    self.rows.remove(at);
                    assert(self@ =~= vote_views(before).remove(at as int));
                    proof {
                        lemma_wf_remove(vote_views(before), self.last_id(), at as int);
                    }
                    None
                } else {
                    let ghost before = self.rows@;
                    let mut row = self.rows[at].clone();
                    row.value = value;
                    self.rows.set(at, row);
                    assert(self@ =~= vote_views(before).update(
                        at as int,
                        VoteView { value: value as int, ..vote_views(before)[at as int] },
                    ));
                    proof {
                        lemma_wf_switch(
                            vote_views(before),
                            self.last_id(),
                            at as int,
                            value as int,
                        );
                    }
                    Some(value)
                }
            },
            None => {
                if self.last_id == i64::MAX {
                    return Err(ApiError::Internal);
                }
                let ghost before = self.rows@;
                self.last_id = self.last_id + 1;
                self.rows.push(
                    Vote {
                        id: self.last_id,
                        user_id,
                        target_type: kind.clone(),
                        target_id,
                        value,
                        created_at: now.to_owned(),
                    },
                );
                assert(self@ =~= vote_views(before).push(
                    VoteView {
                        id: self.last_id as int,
                        user_id: user_id as int,
                        target_type: target_type@,
                        target_id: target_id as int,
                        value: value as int,
                        created_at: now@,
                    },
                ));
                proof {
                    lemma_wf_insert(
                        vote_views(before),
                        self.last_id() - 1,
                        self@.last(),
                    );
                }
                Some(value)
            },
        };
        let vote_count = self.count(&kind, target_id);
        proof {
            law_cast_sets_the_personal_vote(
                old(self)@,
                old(self).last_id(),
                old(self).last_id() + 1,
                user_id as int,
                target_type@,
                target_id as int,
                value as int,
                now@,
            );
        }
        Ok(VoteResponse { vote_count, user_vote })
    }
}

// ── Requests ──

/// The query of a vote reading.
#[derive(Debug)]
pub struct VoteQuery {
    pub target_type: String,
    pub id: i64,
}

/// What a `VoteResponse` holds, as mathematical values.
pub struct VoteResponseView {
    pub vote_count: int,
    pub user_vote: Option<int>,
}

impl View for VoteResponse {
    type V = VoteResponseView;

    open spec fn view(&self) -> VoteResponseView {
        VoteResponseView {
            vote_count: self.vote_count as int,
            user_vote: match self.user_vote {
                Some(v) => Some(v as int),
                None => None,
            },
        }
    }
}

/// The views of an answer to a cast, or of the refusal.
pub open spec fn vote_result_view(r: Result<VoteResponse, ApiError>) -> Result<
    VoteResponseView,
    ApiError,
> {
    match r {
        Ok(resp) => Ok(resp@),
        Err(e) => Err(e),
    }
}

/// What a reading of the votes on a target answers to the reader `reader`:
/// the target's score, and the reader's own vote where there is a reader who
/// has voted.
pub open spec fn get_votes_spec(
    db: DbView,
    target_type: Seq<char>,
    target_id: int,
    reader: Option<int>,
) -> VoteResponseView {
    VoteResponseView {
        vote_count: tally(db.votes, target_type, target_id),
        user_vote: match reader {
            Some(user_id) => personal_vote(db.votes, user_id, target_type, target_id),
            None => None,
        },
    }
}

/// What casting a vote does to the store and what it answers: a value other
/// than +1 and -1 is a bad request; a first vote when the identifiers are used
/// up is an internal failure; otherwise the vote is recorded, withdrawn or
/// flipped, and the answer is the target's new score with the caster's new
/// personal vote.
pub open spec fn cast_vote_spec(
    db: DbView,
    user_id: int,
    target_type: Seq<char>,
    target_id: int,
    value: int,
    now: Seq<char>,
) -> (DbView, Result<VoteResponseView, ApiError>) {
    let before = personal_vote(db.votes, user_id, target_type, target_id);
    if !valid_value(value) {
        (db, Err(ApiError::BadRequest))
    } else if before is None && db.last_vote_id >= i64::MAX {
        (db, Err(ApiError::Internal))
    } else {
        let rows = rows_after_cast(
            db.votes,
            db.last_vote_id + 1,
            user_id,
            target_type,
            target_id,
            value,
            now,
        );
        (
            DbView {
                votes: rows,
                last_vote_id: if before is None {
                    db.last_vote_id + 1
                } else {
                    db.last_vote_id
                },
                ..db
            },
            Ok(
                VoteResponseView {
                    vote_count: tally(rows, target_type, target_id),
                    user_vote: vote_after(before, value),
                },
            ),
        )
    }
}

/// The score that a cast answers is the score of the target as the ledger
/// stands after the cast, made up of the votes that are live then; and the
/// personal vote that it answers is the caster's vote as it stands then.
pub proof fn law_cast_answers_the_live_score(
    db: DbView,
    user_id: int,
    target_type: Seq<char>,
    target_id: int,
    value: int,
    now: Seq<char>,
)
    requires
        db.wf(),
        cast_vote_spec(db, user_id, target_type, target_id, value, now).1 is Ok,
    ensures
        ({
            let after = cast_vote_spec(db, user_id, target_type, target_id, value, now).0;
            let answer = cast_vote_spec(db, user_id, target_type, target_id, value, now).1->Ok_0;
            &&& rows_wf(after.votes, after.last_vote_id)
            &&& answer == get_votes_spec(after, target_type, target_id, Some(user_id))
            &&& answer.vote_count == after.votes.filter(cast_on(target_type, target_id, 1)).len()
                - after.votes.filter(cast_on(target_type, target_id, -1)).len()
        }),
{
    let after = cast_vote_spec(db, user_id, target_type, target_id, value, now).0;
    let at = vote_index(db.votes, user_id, target_type, target_id);
    law_cast_sets_the_personal_vote(
        db.votes,
        db.last_vote_id,
        db.last_vote_id + 1,
        user_id,
        target_type,
        target_id,
        value,
        now,
    );
    match personal_vote(db.votes, user_id, target_type, target_id) {
        None => {
            lemma_wf_insert(
                db.votes,
                db.last_vote_id,
                VoteView {
                    id: db.last_vote_id + 1,
                    user_id,
                    target_type,
                    target_id,
                    value,
                    created_at: now,
                },
            );
        },
        Some(v) => {
            if v == value {
                lemma_wf_remove(db.votes, db.last_vote_id, at);
            } else {
                lemma_wf_switch(db.votes, db.last_vote_id, at, value);
            }
        },
    }
    law_score_counts_live_votes(after.votes, target_type, target_id);
}

/// What a request to cast a vote comes to, given who the bearer turned out
/// to be: for the one who was not let in, the refusal, and nothing changes.
pub open spec fn cast_vote_outcome(
    before: AppStateView,
    identity: Result<int, ApiError>,
    payload: CreateVote,
    now: Seq<char>,
) -> (AppStateView, Result<VoteResponseView, ApiError>) {
    match identity {
        Err(e) => (before, Err(e)),
        Ok(user_id) => {
            let done = cast_vote_spec(
                before.db,
                user_id,
                payload.target_type@,
                payload.target_id as int,
                payload.value as int,
                now,
            );
            (AppStateView { db: done.0, ..before }, done.1)
        },
    }
}

/// The reader of a request to read votes, given who the bearer turned out to
/// be: whoever was not let in reads as nobody.
pub open spec fn reader_of(identity: Result<int, ApiError>) -> Option<int> {
    match identity {
        Ok(user_id) => Some(user_id),
        Err(_) => None,
    }
}

/// Reads the votes on a target, once the bearer of the request has been
/// resolved.
pub fn get_votes_as(state: &AppState, identity: Result<i64, ApiError>, params: &VoteQuery) -> (resp:
    VoteResponse)
    requires
        state.wf(),
    ensures
        resp@ == get_votes_spec(
            state@.db,
            params.target_type@,
            params.id as int,
            reader_of(identity_view(identity)),
        ),
{
    let reader = match identity {
        Ok(user_id) => Some(user_id),
        Err(_) => None,
    };
    state.db.votes.get_votes(params.target_type.as_str(), params.id, reader)
}

/// Reads the votes on a target. No one need be signed in: without a valid
/// bearer token the answer is the score alone; with one it also tells the
/// bearer's own vote.
pub fn get_votes(state: &AppState, authorization: Option<&str>, params: &VoteQuery) -> (resp:
    VoteResponse)
    requires
        state.wf(),
    ensures
        resp@.vote_count == tally(state@.db.votes, params.target_type@, params.id as int),
        exists|identity: Result<i64, ApiError>|
            admitted(opt_text(authorization), identity_view(identity)) && resp@ == get_votes_spec(
                state@.db,
                params.target_type@,
                params.id as int,
                #[trigger] reader_of(identity_view(identity)),
            ),
{
    let identity = extract_user_id(authorization, state.jwt_secret.as_str());
    get_votes_as(state, identity, params)
}

/// Casts a vote, once the bearer of the request has been resolved.
pub fn cast_vote_as(
    state: &mut AppState,
    identity: Result<i64, ApiError>,
    payload: &CreateVote,
    now: &str,
) -> (result: Result<VoteResponse, ApiError>)
    requires
        old(state).wf(),
    ensures
        final(state).wf(),
        (final(state)@, vote_result_view(result)) == cast_vote_outcome(
            old(state)@,
            identity_view(identity),
            *payload,
            now@,
        ),
{
    match identity {
        Ok(user_id) => state.db.votes.cast_vote(
            user_id,
            payload.target_type.as_str(),
            payload.target_id,
            payload.value,
            now,
        ),
        Err(e) => Err(e),
    }
}

/// Casts the vote that `payload` asks for, for the bearer of the request.
/// Without a valid bearer token this is an authentication failure and nothing
/// changes.
pub fn cast_vote(
    state: &mut AppState,
    authorization: Option<&str>,
    payload: &CreateVote,
    now: &str,
) -> (result: Result<VoteResponse, ApiError>)
    requires
        old(state).wf(),
    ensures
        final(state).wf(),
        exists|identity: Result<i64, ApiError>|
            admitted(opt_text(authorization), identity_view(identity)) && (
                final(state)@,
                vote_result_view(result),
            ) == #[trigger] cast_vote_outcome(
                old(state)@,
                identity_view(identity),
                *payload,
                now@,
            ),
{
    let identity = extract_user_id(authorization, state.jwt_secret.as_str());
    cast_vote_as(state, identity, payload, now)
}

} // verus!
