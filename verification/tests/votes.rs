use mikaana::error::ApiError;
use mikaana::shared::VoteResponse;
use mikaana::votes::{decide_vote, VoteLedger, VoteOutcome};

const NOW: &str = "2024-05-01 10:00:00";

#[test]
fn first_vote_is_recorded() {
    let mut ledger = VoteLedger::new();
    let resp = ledger.cast_vote(1, "comment", 10, 1, NOW).unwrap();
    assert_eq!(resp, VoteResponse { vote_count: 1, user_vote: Some(1) });
    assert_eq!(ledger.len(), 1);
    let rows = ledger.rows();
    assert_eq!(rows[0].id, 1);
    assert_eq!(rows[0].user_id, 1);
    assert_eq!(rows[0].target_type, "comment");
    assert_eq!(rows[0].target_id, 10);
    assert_eq!(rows[0].value, 1);
    assert_eq!(rows[0].created_at, NOW);
}

#[test]
fn same_vote_twice_toggles_off() {
    let mut ledger = VoteLedger::new();
    ledger.cast_vote(7, "comment", 3, -1, NOW).unwrap();
    let before = ledger.get_votes("comment", 3, Some(1));
    assert_eq!(before, VoteResponse { vote_count: -1, user_vote: None });

    let once = ledger.cast_vote(1, "comment", 3, 1, NOW).unwrap();
    assert_eq!(once, VoteResponse { vote_count: 0, user_vote: Some(1) });
    let twice = ledger.cast_vote(1, "comment", 3, 1, NOW).unwrap();
    assert_eq!(twice, VoteResponse { vote_count: -1, user_vote: None });
    assert_eq!(ledger.len(), 1);
    assert_eq!(ledger.get_votes("comment", 3, Some(1)), before);
}

#[test]
fn opposite_vote_switches_without_double_counting() {
    let mut ledger = VoteLedger::new();
    let up = ledger.cast_vote(1, "reply", 5, 1, NOW).unwrap();
    assert_eq!(up, VoteResponse { vote_count: 1, user_vote: Some(1) });
    let down = ledger.cast_vote(1, "reply", 5, -1, NOW).unwrap();
    assert_eq!(down, VoteResponse { vote_count: -1, user_vote: Some(-1) });
    assert_eq!(down.vote_count, up.vote_count - 2);
    assert_eq!(ledger.len(), 1);
    let rows = ledger.rows();
    assert_eq!(rows[0].id, 1);
    assert_eq!(rows[0].value, -1);
}

#[test]
fn two_users_upvoting_make_two() {
    let mut ledger = VoteLedger::new();
    let a = ledger.cast_vote(1, "post", 99, 1, NOW).unwrap();
    assert_eq!(a, VoteResponse { vote_count: 1, user_vote: Some(1) });
    let b = ledger.cast_vote(2, "post", 99, 1, NOW).unwrap();
    assert_eq!(b, VoteResponse { vote_count: 2, user_vote: Some(1) });
    assert_eq!(ledger.get_votes("post", 99, Some(1)).user_vote, Some(1));
    assert_eq!(ledger.get_votes("post", 99, Some(2)).user_vote, Some(1));
}

#[test]
fn aggregate_is_the_sum_of_the_live_votes() {
    let mut ledger = VoteLedger::new();
    ledger.cast_vote(1, "comment", 1, 1, NOW).unwrap();
    ledger.cast_vote(2, "comment", 1, 1, NOW).unwrap();
    ledger.cast_vote(3, "comment", 1, -1, NOW).unwrap();
    ledger.cast_vote(4, "comment", 1, 1, NOW).unwrap();
    ledger.cast_vote(4, "comment", 2, -1, NOW).unwrap();
    ledger.cast_vote(2, "comment", 1, 1, NOW).unwrap();
    ledger.cast_vote(1, "reply", 1, -1, NOW).unwrap();
    let live: i64 = ledger
        .rows()
        .iter()
        .filter(|v| v.target_type == "comment" && v.target_id == 1)
        .map(|v| v.value as i64)
        .sum();
    assert_eq!(live, 1);
    assert_eq!(ledger.get_votes("comment", 1, None).vote_count, 1);
    assert_eq!(ledger.get_votes("comment", 2, None).vote_count, -1);
    assert_eq!(ledger.get_votes("reply", 1, None).vote_count, -1);
}

#[test]
fn identifiers_of_withdrawn_votes_are_not_reused() {
    let mut ledger = VoteLedger::new();
    ledger.cast_vote(1, "comment", 1, 1, NOW).unwrap();
    ledger.cast_vote(1, "comment", 1, 1, NOW).unwrap();
    ledger.cast_vote(1, "comment", 1, 1, NOW).unwrap();
    assert_eq!(ledger.rows()[0].id, 2);
}

#[test]
fn other_values_are_bad_requests() {
    let mut ledger = VoteLedger::new();
    for value in [0, 2, -2, 100, i32::MIN, i32::MAX] {
        assert_eq!(ledger.cast_vote(1, "comment", 1, value, NOW), Err(ApiError::BadRequest));
    }
    assert_eq!(ledger.len(), 0);
}

#[test]
fn any_target_can_be_voted_on() {
    let mut ledger = VoteLedger::new();
    let resp = ledger.cast_vote(1, "no-such-kind", -12345, 1, NOW).unwrap();
    assert_eq!(resp, VoteResponse { vote_count: 1, user_vote: Some(1) });
    let resp = ledger.cast_vote(1, "comment", i64::MAX, -1, NOW).unwrap();
    assert_eq!(resp, VoteResponse { vote_count: -1, user_vote: Some(-1) });
}

#[test]
fn reading_without_votes_gives_zero() {
    let ledger = VoteLedger::new();
    assert_eq!(
        ledger.get_votes("comment", 1, None),
        VoteResponse { vote_count: 0, user_vote: None }
    );
    assert_eq!(
        ledger.get_votes("comment", 1, Some(5)),
        VoteResponse { vote_count: 0, user_vote: None }
    );
}

#[test]
fn reading_as_nobody_hides_personal_votes() {
    let mut ledger = VoteLedger::new();
    ledger.cast_vote(1, "comment", 1, 1, NOW).unwrap();
    assert_eq!(ledger.get_votes("comment", 1, None).user_vote, None);
    assert_eq!(ledger.get_votes("comment", 1, Some(2)).user_vote, None);
    assert_eq!(ledger.get_votes("comment", 1, Some(1)).user_vote, Some(1));
}

#[test]
fn decision_is_three_way() {
    assert_eq!(decide_vote(None, 1), VoteOutcome::Inserted);
    assert_eq!(decide_vote(None, -1), VoteOutcome::Inserted);
    assert_eq!(decide_vote(Some(1), 1), VoteOutcome::Removed);
    assert_eq!(decide_vote(Some(-1), -1), VoteOutcome::Removed);
    assert_eq!(decide_vote(Some(1), -1), VoteOutcome::Switched);
    assert_eq!(decide_vote(Some(-1), 1), VoteOutcome::Switched);
}
