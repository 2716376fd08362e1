use mikaana::auth::{bearer_header, sign_token, Claims};
use mikaana::comments::CommentRow;
use mikaana::users::UserRow;
use mikaana::votes::Vote;
use mikaana::db::{run_migrations, Database};
use mikaana::error::ApiError;
use mikaana::forum::{
    create_reply, create_reply_as, create_thread, create_thread_as, get_thread, list_categories,
    list_threads, ThreadListParams,
};
use mikaana::shared::{CreateReply, CreateThread};
use mikaana::state::AppState;

const SECRET: &str = "forum-secret";

fn seeded() -> Database {
    let mut db = Database::new();
    run_migrations(&mut db);
    db.users.upsert(500, "ada", "a.png").unwrap();
    db.users.upsert(501, "bob", "b.png").unwrap();
    db
}

fn forum_state() -> AppState {
    AppState {
        db: seeded(),
        jwt_secret: SECRET.to_string(),
        github_client_id: "client".to_string(),
        github_client_secret: "hidden".to_string(),
        api_url: "https://api.example.org".to_string(),
        cors_origin: "https://example.org".to_string(),
    }
}

fn forum_token(user_id: i64) -> String {
    bearer_header(&sign_token(&Claims::new(user_id), SECRET).unwrap())
}

fn stamp(n: usize) -> String {
    format!("2024-05-01 00:{:02}:{:02}", n / 60, n % 60)
}

#[test]
fn a_new_store_has_no_categories_until_migrated() {
    let db = Database::new();
    assert_eq!(db.list_categories().len(), 0);
    assert_eq!(db.list_threads("general", None).err(), Some(ApiError::NotFound));
}

#[test]
fn migration_seeds_three_categories_in_order() {
    let db = seeded();
    let cats = db.list_categories();
    assert_eq!(cats.len(), 3);
    let rows: Vec<(i64, &str, &str, &str)> = cats
        .iter()
        .map(|c| (c.id, c.name.as_str(), c.slug.as_str(), c.description.as_str()))
        .collect();
    assert_eq!(
        rows,
        vec![
            (1, "General", "general", "General discussion"),
            (2, "Projects", "projects", "Discuss projects and ideas"),
            (3, "Help", "help", "Ask for help or advice"),
        ]
    );
}

#[test]
fn migration_can_run_again() {
    let mut db = seeded();
    db.create_thread(1, "help", "t", "b", "2024-05-01 00:00:00").unwrap();
    run_migrations(&mut db);
    run_migrations(&mut db);
    assert_eq!(db.list_categories().len(), 3);
    assert_eq!(db.list_threads("help", None).unwrap().total, 1);
    assert_eq!(db.users.rows().len(), 2);
}

#[test]
fn created_thread_comes_back_without_replies() {
    let mut db = seeded();
    let t = db
        .create_thread(2, "projects", "A <b>bold</b> idea", "Body <script>x</script>text", "2024-05-01 00:00:00")
        .unwrap();
    assert_eq!(t.id, 1);
    assert_eq!(t.category_id, 2);
    assert_eq!(t.user.id, 2);
    assert_eq!(t.user.username, "bob");
    assert_eq!(t.title, "A <b>bold</b> idea");
    assert_eq!(t.body, "Body text");
    assert_eq!(t.created_at, "2024-05-01 00:00:00");
    assert_eq!(t.reply_count, 0);
}

#[test]
fn thread_in_unknown_category_is_not_found() {
    let mut db = seeded();
    let r = db.create_thread(1, "nope", "t", "b", "2024-05-01 00:00:00");
    assert_eq!(r.err(), Some(ApiError::NotFound));
    assert_eq!(db.threads.len(), 0);
}

#[test]
fn thread_with_empty_title_or_body_is_a_bad_request() {
    let mut db = seeded();
    let now = "2024-05-01 00:00:00";
    assert_eq!(db.create_thread(1, "general", " ", "b", now).err(), Some(ApiError::BadRequest));
    assert_eq!(db.create_thread(1, "general", "t", "", now).err(), Some(ApiError::BadRequest));
    assert_eq!(
        db.create_thread(1, "general", "<script>t</script>", "b", now).err(),
        Some(ApiError::BadRequest)
    );
    assert_eq!(db.threads.len(), 0);
}

#[test]
fn unknown_category_is_judged_before_title_and_body() {
    let mut db = seeded();
    let now = "2024-05-01 00:00:00";
    assert_eq!(db.create_thread(1, "nope", "  ", "b", now).err(), Some(ApiError::NotFound));
    assert_eq!(db.create_thread(1, "nope", "t", "", now).err(), Some(ApiError::NotFound));
    assert_eq!(db.create_thread(1, "nope", "", "", now).err(), Some(ApiError::NotFound));
    assert_eq!(db.create_thread(1, "help", "  ", "b", now).err(), Some(ApiError::BadRequest));
    assert_eq!(db.threads.len(), 0);
}

#[test]
fn thread_by_an_unknown_user_is_an_internal_failure() {
    let mut db = seeded();
    let r = db.create_thread(9, "general", "t", "b", "2024-05-01 00:00:00");
    assert_eq!(r.err(), Some(ApiError::Internal));
    let r = db.create_thread(9, "nope", "t", "b", "2024-05-01 00:00:00");
    assert_eq!(r.err(), Some(ApiError::NotFound));
    assert_eq!(db.threads.len(), 0);
}

#[test]
fn reply_to_a_missing_thread_is_not_found_and_not_stored() {
    let mut db = seeded();
    let r = db.create_reply(1, 999999, "hello", "2024-05-01 00:00:00");
    assert_eq!(r.err(), Some(ApiError::NotFound));
    assert_eq!(db.replies.len(), 0);
    db.create_thread(1, "general", "t", "b", "2024-05-01 00:00:00").unwrap();
    let r = db.create_reply(1, 999999, "hello", "2024-05-01 00:00:01");
    assert_eq!(r.err(), Some(ApiError::NotFound));
    assert_eq!(db.replies.len(), 0);
    assert_eq!(db.get_thread(1).unwrap().replies.len(), 0);
}

#[test]
fn missing_thread_is_judged_before_the_body() {
    let mut db = seeded();
    let r = db.create_reply(1, 999999, "   ", "2024-05-01 00:00:00");
    assert_eq!(r.err(), Some(ApiError::NotFound));
    let r = db.create_reply(1, 999999, "", "2024-05-01 00:00:00");
    assert_eq!(r.err(), Some(ApiError::NotFound));
    assert_eq!(db.replies.len(), 0);
    let t = db.create_thread(1, "general", "t", "b", "2024-05-01 00:00:00").unwrap();
    let r = db.create_reply(1, t.id, "   ", "2024-05-01 00:00:01");
    assert_eq!(r.err(), Some(ApiError::BadRequest));
    let r = db.create_reply(1, t.id, "<script>x</script>", "2024-05-01 00:00:01");
    assert_eq!(r.err(), Some(ApiError::BadRequest));
    assert_eq!(db.replies.len(), 0);
}

#[test]
fn reply_comes_back_with_zero_score_and_counts_for_its_thread() {
    let mut db = seeded();
    let t = db.create_thread(1, "general", "t", "b", "2024-05-01 00:00:00").unwrap();
    let other = db.create_thread(1, "general", "u", "b", "2024-05-01 00:00:01").unwrap();
    let r = db.create_reply(2, t.id, "a <i>reply</i>", "2024-05-01 00:00:02").unwrap();
    assert_eq!(r.id, 1);
    assert_eq!(r.thread_id, t.id);
    assert_eq!(r.user.username, "bob");
    assert_eq!(r.body, "a <i>reply</i>");
    assert_eq!(r.vote_count, 0);
    db.create_reply(1, t.id, "another", "2024-05-01 00:00:03").unwrap();
    db.create_reply(1, other.id, "elsewhere", "2024-05-01 00:00:04").unwrap();
    assert_eq!(db.get_thread(t.id).unwrap().thread.reply_count, 2);
    assert_eq!(db.get_thread(other.id).unwrap().thread.reply_count, 1);
    let page = db.list_threads("general", None).unwrap();
    assert_eq!(page.items[0].id, other.id);
    assert_eq!(page.items[0].reply_count, 1);
    assert_eq!(page.items[1].id, t.id);
    assert_eq!(page.items[1].reply_count, 2);
}

#[test]
fn thread_detail_lists_replies_earliest_first_with_scores() {
    let mut db = seeded();
    let t = db.create_thread(1, "general", "t", "b", "2024-05-01 00:00:00").unwrap();
    let late = db.create_reply(1, t.id, "late", "2024-05-01 00:09:00").unwrap();
    let early = db.create_reply(2, t.id, "early", "2024-05-01 00:01:00").unwrap();
    db.votes.cast_vote(1, "reply", early.id, 1, "2024-05-01 00:10:00").unwrap();
    db.votes.cast_vote(2, "reply", early.id, 1, "2024-05-01 00:10:00").unwrap();
    db.votes.cast_vote(2, "reply", late.id, -1, "2024-05-01 00:10:00").unwrap();
    db.votes.cast_vote(2, "comment", late.id, 1, "2024-05-01 00:10:00").unwrap();
    let detail = db.get_thread(t.id).unwrap();
    assert_eq!(detail.thread.id, t.id);
    assert_eq!(detail.thread.title, "t");
    assert_eq!(detail.thread.user.username, "ada");
    let seen: Vec<(&str, i64, &str)> = detail
        .replies
        .iter()
        .map(|r| (r.body.as_str(), r.vote_count, r.user.username.as_str()))
        .collect();
    assert_eq!(seen, vec![("early", 2, "bob"), ("late", -1, "ada")]);
}

#[test]
fn missing_thread_is_not_found() {
    let db = seeded();
    assert_eq!(db.get_thread(1).err(), Some(ApiError::NotFound));
    assert_eq!(db.get_thread(0).err(), Some(ApiError::NotFound));
    assert_eq!(db.get_thread(-5).err(), Some(ApiError::NotFound));
}

#[test]
fn threads_of_an_unknown_category_are_not_found() {
    let db = seeded();
    assert_eq!(db.list_threads("nope", Some(1)).err(), Some(ApiError::NotFound));
    assert_eq!(db.list_threads("General", Some(1)).err(), Some(ApiError::NotFound));
}

#[test]
fn empty_category_lists_nothing() {
    let db = seeded();
    let page = db.list_threads("help", None).unwrap();
    assert_eq!(page.items.len(), 0);
    assert_eq!(page.total, 0);
    assert_eq!(page.page, 1);
    assert_eq!(page.per_page, 20);
}

#[test]
fn threads_are_paged_latest_first() {
    let mut db = seeded();
    for n in 0..45 {
        db.create_thread(1, "general", &format!("t{n}"), "b", &stamp(n)).unwrap();
    }
    db.create_thread(1, "help", "other", "b", &stamp(50)).unwrap();

    let first = db.list_threads("general", Some(1)).unwrap();
    assert_eq!(first.total, 45);
    assert_eq!(first.page, 1);
    assert_eq!(first.per_page, 20);
    assert_eq!(first.items.len(), 20);
    assert_eq!(first.items[0].title, "t44");
    assert_eq!(first.items[19].title, "t25");

    let second = db.list_threads("general", Some(2)).unwrap();
    assert_eq!(second.items.len(), 20);
    assert_eq!(second.items[0].title, "t24");
    assert_eq!(second.items[19].title, "t5");

    let third = db.list_threads("general", Some(3)).unwrap();
    assert_eq!(third.items.len(), 5);
    assert_eq!(third.items[0].title, "t4");
    assert_eq!(third.items[4].title, "t0");
    assert_eq!(third.total, 45);
    assert_eq!(third.page, 3);
}

#[test]
fn page_zero_is_page_one() {
    let mut db = seeded();
    for n in 0..25 {
        db.create_thread(1, "general", &format!("t{n}"), "b", &stamp(n)).unwrap();
    }
    let one = db.list_threads("general", Some(1)).unwrap();
    for asked in [Some(0), Some(-1), Some(i64::MIN), None] {
        let page = db.list_threads("general", asked).unwrap();
        assert_eq!(page.page, 1);
        assert_eq!(page.total, one.total);
        assert_eq!(page.per_page, one.per_page);
        let ids: Vec<i64> = page.items.iter().map(|t| t.id).collect();
        let expected: Vec<i64> = one.items.iter().map(|t| t.id).collect();
        assert_eq!(ids, expected);
    }
}

#[test]
fn page_past_the_end_is_empty_with_the_same_total() {
    let mut db = seeded();
    for n in 0..25 {
        db.create_thread(1, "general", &format!("t{n}"), "b", &stamp(n)).unwrap();
    }
    let page = db.list_threads("general", Some(3)).unwrap();
    assert_eq!(page.items.len(), 0);
    assert_eq!(page.total, 25);
    assert_eq!(page.page, 3);
    assert_eq!(page.per_page, 20);
    let far = db.list_threads("general", Some(i64::MAX)).unwrap();
    assert_eq!(far.items.len(), 0);
    assert_eq!(far.total, 25);
    assert_eq!(far.page, i64::MAX);
}

#[test]
fn threads_come_in_the_order_of_their_times_not_of_their_arrival() {
    let mut db = seeded();
    db.create_thread(1, "general", "noon", "b", "2024-05-01 12:00:00").unwrap();
    db.create_thread(1, "general", "morning", "b", "2024-05-01 08:00:00").unwrap();
    db.create_thread(1, "general", "evening", "b", "2024-05-01 20:00:00").unwrap();
    db.create_thread(1, "general", "noon again", "b", "2024-05-01 12:00:00").unwrap();
    let page = db.list_threads("general", None).unwrap();
    let titles: Vec<&str> = page.items.iter().map(|t| t.title.as_str()).collect();
    assert_eq!(titles, vec!["evening", "noon again", "noon", "morning"]);
}

#[test]
fn forum_requests_go_through_the_bearer() {
    let mut state = forum_state();
    let ada = forum_token(1);
    assert_eq!(list_categories(&state).len(), 3);
    let payload = CreateThread {
        category_slug: "general".to_string(),
        title: "Hello".to_string(),
        body: "World".to_string(),
    };
    let r = create_thread(&mut state, None, &payload, "2024-05-01 00:00:00");
    assert_eq!(r.err(), Some(ApiError::Unauthorized));
    let t = create_thread(&mut state, Some(&ada), &payload, "2024-05-01 00:00:00").unwrap();
    assert_eq!(t.user.username, "ada");

    let reply = CreateReply { body: "Hi".to_string() };
    let r = create_reply(&mut state, Some("Bearer x.y.z"), t.id, &reply, "2024-05-01 00:00:01");
    assert_eq!(r.err(), Some(ApiError::Unauthorized));
    let r = create_reply(&mut state, Some(&ada), 999999, &reply, "2024-05-01 00:00:01");
    assert_eq!(r.err(), Some(ApiError::NotFound));
    let r = create_reply(&mut state, Some(&ada), t.id, &reply, "2024-05-01 00:00:01").unwrap();
    assert_eq!(r.thread_id, t.id);

    let detail = get_thread(&state, t.id).unwrap();
    assert_eq!(detail.replies.len(), 1);
    assert_eq!(get_thread(&state, 2).err(), Some(ApiError::NotFound));
    let params = ThreadListParams { category: "general".to_string(), page: Some(0) };
    let page = list_threads(&state, &params).unwrap();
    assert_eq!(page.page, 1);
    assert_eq!(page.total, 1);
    assert_eq!(page.items[0].reply_count, 1);
}

#[test]
fn resolved_bearer_decides_threads_and_replies() {
    let mut state = forum_state();
    let payload = CreateThread {
        category_slug: "help".to_string(),
        title: "Hello".to_string(),
        body: "World".to_string(),
    };
    let now = "2024-05-01 00:00:00";
    let refused = create_thread_as(&mut state, Err(ApiError::Unauthorized), &payload, now);
    assert_eq!(refused.err(), Some(ApiError::Unauthorized));
    assert_eq!(state.db.threads.len(), 0);
    let t = create_thread_as(&mut state, Ok(2), &payload, now).unwrap();
    assert_eq!((t.category_id, t.user.username.as_str()), (3, "bob"));
    let reply = CreateReply { body: "Hi".to_string() };
    let refused = create_reply_as(&mut state, Err(ApiError::Unauthorized), t.id, &reply, now);
    assert_eq!(refused.err(), Some(ApiError::Unauthorized));
    assert_eq!(state.db.replies.len(), 0);
    let r = create_reply_as(&mut state, Ok(1), t.id, &reply, now).unwrap();
    assert_eq!((r.thread_id, r.user.username.as_str()), (t.id, "ada"));
}

#[test]
fn stored_rows_are_taken_back_in() {
    let mut db = Database::new();
    run_migrations(&mut db);
    let user = |id: i64, github_id: i64| UserRow {
        id,
        github_id,
        username: format!("u{id}"),
        avatar_url: String::new(),
    };
    assert!(db.users.restore(user(3, 30)));
    assert!(!db.users.restore(user(3, 31)));
    assert!(!db.users.restore(user(2, 32)));
    assert!(!db.users.restore(user(4, 30)));
    assert!(db.users.restore(user(7, 70)));
    assert_eq!(db.users.upsert(99, "new", "").unwrap(), 8);

    let comment = |id: i64, at: &str| CommentRow {
        id,
        post_slug: "a".to_string(),
        user_id: 3,
        body: format!("c{id}"),
        created_at: at.to_string(),
    };
    assert!(db.comments.restore(comment(2, "2024-05-02 00:00:00")));
    assert!(db.comments.restore(comment(5, "2024-05-01 00:00:00")));
    assert!(!db.comments.restore(comment(5, "2024-05-03 00:00:00")));
    assert!(!db.comments.restore(comment(1, "2024-05-03 00:00:00")));
    let listed = db.list_comments("a");
    let ids: Vec<i64> = listed.iter().map(|c| c.id).collect();
    assert_eq!(ids, vec![5, 2]);
    let next = db.create_comment(3, "a", "next", "2024-05-04 00:00:00").unwrap();
    assert_eq!(next.id, 6);

    let vote = |id: i64, user_id: i64, value: i32| Vote {
        id,
        user_id,
        target_type: "comment".to_string(),
        target_id: 5,
        value,
        created_at: "2024-05-01 00:00:00".to_string(),
    };
    assert!(db.votes.restore(vote(1, 3, 1)));
    assert!(!db.votes.restore(vote(2, 3, -1)));
    assert!(!db.votes.restore(vote(1, 7, 1)));
    assert!(!db.votes.restore(vote(3, 7, 2)));
    assert!(db.votes.restore(vote(4, 7, -1)));
    assert_eq!(db.votes.get_votes("comment", 5, Some(7)).vote_count, 0);
    assert_eq!(db.list_comments("a")[0].vote_count, 0);
    db.votes.cast_vote(7, "comment", 5, -1, "2024-05-05 00:00:00").unwrap();
    assert_eq!(db.list_comments("a")[0].vote_count, 1);
}
