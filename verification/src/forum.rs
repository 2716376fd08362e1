//! The forum: categories, threads and replies.

use vstd::prelude::*;

use crate::auth::{admitted, extract_user_id, identity_view};
use crate::db::{Database, DbView};
use crate::error::ApiError;
use crate::pagination::{PER_PAGE, clamp_page, clamp_page_spec, opt_int, page_bounds, page_of};
use crate::sanitize::{content_spec, sanitize_field, sanitized};
use crate::shared::{
    ForumCategory,
    ForumCategoryView,
    Paginated,
    PaginatedView,
    Reply,
    ReplyView,
    Thread,
    ThreadView,
    User,
};
use crate::shared::{CreateReply, CreateThread};
use crate::state::{AppState, AppStateView, opt_text};
use crate::text::lex_le;
use crate::table::{
    Record,
    has_id,
    index_of_id,
    lemma_filter_insert,
    lemma_filter_keeps_time_order,
    lemma_insert_wf,
    lemma_slot,
    slot,
};
use crate::users::{UserRowView, known, user_with};
use crate::votes::{VoteView, tally};

verus! {

// ── Query parameters and answers ──

/// The query of a thread listing.
#[derive(Debug)]
pub struct ThreadListParams {
    pub category: String,
    pub page: Option<i64>,
}

/// A thread together with its replies.
#[derive(Debug)]
pub struct ThreadDetail {
    pub thread: Thread,
    pub replies: Vec<Reply>,
}

/// What a `ThreadDetail` holds, as mathematical values.
pub struct ThreadDetailView {
    pub thread: ThreadView,
    pub replies: Seq<ReplyView>,
}

impl View for ThreadDetail {
    type V = ThreadDetailView;

    open spec fn view(&self) -> ThreadDetailView {
        ThreadDetailView { thread: self.thread@, replies: reply_views(self.replies@) }
    }
}

// ── Categories ──

/// The three categories that every store starts with.
pub open spec fn seed_categories() -> Seq<ForumCategoryView> {
    seq![
        ForumCategoryView {
            id: 1,
            name: "General"@,
            slug: "general"@,
            description: "General discussion"@,
        },
        ForumCategoryView {
            id: 2,
            name: "Projects"@,
            slug: "projects"@,
            description: "Discuss projects and ideas"@,
        },
        ForumCategoryView {
            id: 3,
            name: "Help"@,
            slug: "help"@,
            description: "Ask for help or advice"@,
        },
    ]
}

/// The views of a run of categories.
pub open spec fn category_views(categories: Seq<ForumCategory>) -> Seq<ForumCategoryView> {
    categories.map_values(|c: ForumCategory| c@)
}

/// The identifier of the category with the given slug, if there is one.
pub open spec fn category_with_slug(categories: Seq<ForumCategoryView>, slug: Seq<char>) -> Option<
    int,
>
    decreases categories.len(),
{
    if categories.len() == 0 {
        None
    } else if categories[0].slug == slug {
        Some(categories[0].id)
    } else {
        category_with_slug(categories.drop_first(), slug)
    }
}

/// The forum's categories, in the order of their identifiers.
pub struct Categories {
    rows: Vec<ForumCategory>,
}

impl View for Categories {
    type V = Seq<ForumCategoryView>;

    closed spec fn view(&self) -> Seq<ForumCategoryView> {
        category_views(self.rows@)
    }
}

impl Categories {
    /// No categories.
    pub fn new() -> (categories: Self)
        ensures
            categories@ == Seq::<ForumCategoryView>::empty(),
    {
        let categories = Categories { rows: Vec::new() };
        assert(categories@ =~= Seq::<ForumCategoryView>::empty());
        categories
    }

    /// Puts the three default categories in place.
    pub fn seed(&mut self)
        ensures
            final(self)@ == seed_categories(),
    {
        let mut rows: Vec<ForumCategory> = Vec::new();
        rows.push(
            ForumCategory {
                id: 1,
                name: "General".to_owned(),
                slug: "general".to_owned(),
                description: "General discussion".to_owned(),
            },
        );
        rows.push(
            ForumCategory {
                id: 2,
                name: "Projects".to_owned(),
                slug: "projects".to_owned(),
                description: "Discuss projects and ideas".to_owned(),
            },
        );
        rows.push(
            ForumCategory {
                id: 3,
                name: "Help".to_owned(),
                slug: "help".to_owned(),
                description: "Ask for help or advice".to_owned(),
            },
        );
        self.rows = rows;
        assert(self@ =~= seed_categories());
    }

    /// A copy of the categories.
    pub fn list(&self) -> (out: Vec<ForumCategory>)
        ensures
            category_views(out@) == self@,
    {
        let mut out: Vec<ForumCategory> = Vec::new();
        let mut i: usize = 0;
        while i < self.rows.len()
            invariant
                i <= self.rows.len(),
                out@ == self.rows@.take(i as int),
            decreases self.rows.len() - i,
        {
            out.push(self.rows[i].clone());
            assert(self.rows@.take(i + 1) =~= self.rows@.take(i as int).push(self.rows@[i as int]));
            i += 1;
        }
        assert(self.rows@.take(i as int) =~= self.rows@);
        out
    }

    /// The identifier of the category with the given slug, if there is one.
    pub fn find_slug(&self, slug: &str) -> (found: Option<i64>)
        ensures
            opt_int(found) == category_with_slug(self@, slug@),
    {
        let wanted = slug.to_owned();
        let mut i: usize = 0;
        proof {
            assert(self@.skip(0) =~= self@);
        }
        while i < self.rows.len()
            invariant
                i <= self.rows.len(),
                wanted@ == slug@,
                category_with_slug(self@, slug@) == category_with_slug(self@.skip(i as int), slug@),
            decreases self.rows.len() - i,
        {
            proof {
                assert(self@.skip(i as int)[0] == self@[i as int]);
                assert(self@.skip(i as int).drop_first() =~= self@.skip(i + 1));
            }
            if self.rows[i].slug == wanted {
                return Some(self.rows[i].id);
            }
            i += 1;
        }
        None
    }
}

// ── Threads ──

/// A stored thread.
#[derive(Debug)]
pub struct ThreadRow {
    pub id: i64,
    pub category_id: i64,
    pub user_id: i64,
    pub title: String,
    pub body: String,
    pub created_at: String,
}

/// What a `ThreadRow` holds, as mathematical values.
pub struct ThreadRowView {
    pub id: int,
    pub category_id: int,
    pub user_id: int,
    pub title: Seq<char>,
    pub body: Seq<char>,
    pub created_at: Seq<char>,
}

impl View for ThreadRow {
    type V = ThreadRowView;

    open spec fn view(&self) -> ThreadRowView {
        ThreadRowView {
            id: self.id as int,
            category_id: self.category_id as int,
            user_id: self.user_id as int,
            title: self.title@,
            body: self.body@,
            created_at: self.created_at@,
        }
    }
}

impl Clone for ThreadRow {
    fn clone(&self) -> (res: Self)
        ensures
            res == *self,
    {
        ThreadRow {
            id: self.id,
            category_id: self.category_id,
            user_id: self.user_id,
            title: self.title.clone(),
            body: self.body.clone(),
            created_at: self.created_at.clone(),
        }
    }
}

impl Record for ThreadRow {
    open spec fn id_of(v: ThreadRowView) -> int {
        v.id
    }

    open spec fn stamp_of(v: ThreadRowView) -> Seq<char> {
        v.created_at
    }

    fn row_id(&self) -> (id: i64) {
        self.id
    }

    fn row_stamp(&self) -> (stamp: &String) {
        &self.created_at
    }

    fn duplicate(&self) -> (copy: Self) {
        self.clone()
    }
}

// ── Replies ──

/// A stored reply.
#[derive(Debug)]
pub struct ReplyRow {
    pub id: i64,
    pub thread_id: i64,
    pub user_id: i64,
    pub body: String,
    pub created_at: String,
}

/// What a `ReplyRow` holds, as mathematical values.
pub struct ReplyRowView {
    pub id: int,
    pub thread_id: int,
    pub user_id: int,
    pub body: Seq<char>,
    pub created_at: Seq<char>,
}

impl View for ReplyRow {
    type V = ReplyRowView;

    open spec fn view(&self) -> ReplyRowView {
        ReplyRowView {
            id: self.id as int,
            thread_id: self.thread_id as int,
            user_id: self.user_id as int,
            body: self.body@,
            created_at: self.created_at@,
        }
    }
}

impl Clone for ReplyRow {
    fn clone(&self) -> (res: Self)
        ensures
            res == *self,
    {
        ReplyRow {
            id: self.id,
            thread_id: self.thread_id,
            user_id: self.user_id,
            body: self.body.clone(),
            created_at: self.created_at.clone(),
        }
    }
}

impl Record for ReplyRow {
    open spec fn id_of(v: ReplyRowView) -> int {
        v.id
    }

    open spec fn stamp_of(v: ReplyRowView) -> Seq<char> {
        v.created_at
    }

    fn row_id(&self) -> (id: i64) {
        self.id
    }

    fn row_stamp(&self) -> (stamp: &String) {
        &self.created_at
    }

    fn duplicate(&self) -> (copy: Self) {
        self.clone()
    }
}

// ── What the forum shows ──

/// The views of a run of threads.
pub open spec fn thread_views(threads: Seq<Thread>) -> Seq<ThreadView> {
    threads.map_values(|t: Thread| t@)
}

/// The views of a run of replies.
pub open spec fn reply_views(replies: Seq<Reply>) -> Seq<ReplyView> {
    replies.map_values(|r: Reply| r@)
}

/// The target kind under which votes on replies are kept.
pub open spec fn reply_kind() -> Seq<char> {
    "reply"@
}

/// The replies that belong to the thread `thread_id`.
pub open spec fn reply_in(thread_id: int) -> spec_fn(ReplyRowView) -> bool {
    |row: ReplyRowView| row.thread_id == thread_id
}

/// The number of replies that refer to the thread `thread_id`.
pub open spec fn reply_count(db: DbView, thread_id: int) -> int {
    db.replies.filter(reply_in(thread_id)).len() as int
}

/// The replies of the thread `thread_id` that are shown: those whose author is
/// a known user.
pub open spec fn reply_listed(db: DbView, thread_id: int) -> spec_fn(ReplyRowView) -> bool {
    replies_among(db.users, thread_id)
}

/// The replies of the thread `thread_id` whose author is one of `users`.
pub open spec fn replies_among(users: Seq<UserRowView>, thread_id: int) -> spec_fn(
    ReplyRowView,
) -> bool {
    |row: ReplyRowView| row.thread_id == thread_id && known(users, row.user_id)
}

/// A stored reply as it is shown: with its author and with its score computed
/// from the votes that are live on it.
pub open spec fn reply_of(db: DbView) -> spec_fn(ReplyRowView) -> ReplyView {
    reply_shown_with(db.users, db.votes)
}

/// A stored reply as it is shown, given the users and the votes.
pub open spec fn reply_shown_with(users: Seq<UserRowView>, votes: Seq<VoteView>) -> spec_fn(
    ReplyRowView,
) -> ReplyView {
    |row: ReplyRowView|
        ReplyView {
            id: row.id,
            thread_id: row.thread_id,
            user: user_with(users, row.user_id)->0,
            body: row.body,
            created_at: row.created_at,
            vote_count: tally(votes, reply_kind(), row.id),
        }
}

/// The replies among `rows` that the thread `thread_id` shows, in the order of
/// the rows.
pub open spec fn replies_in(rows: Seq<ReplyRowView>, db: DbView, thread_id: int) -> Seq<ReplyView> {
    rows.filter(reply_listed(db, thread_id)).map_values(reply_of(db))
}

/// The threads of the category `category_id`.
pub open spec fn thread_in(category_id: int) -> spec_fn(ThreadRowView) -> bool {
    |row: ThreadRowView| row.category_id == category_id
}

/// The threads of the category `category_id` that are shown: those whose
/// author is a known user.
pub open spec fn thread_listed(db: DbView, category_id: int) -> spec_fn(ThreadRowView) -> bool {
    threads_among(db.users, category_id)
}

/// The threads of the category `category_id` whose author is one of `users`.
pub open spec fn threads_among(users: Seq<UserRowView>, category_id: int) -> spec_fn(
    ThreadRowView,
) -> bool {
    |row: ThreadRowView| row.category_id == category_id && known(users, row.user_id)
}

/// A stored thread as it is shown: with its author and the number of replies
/// that refer to it.
pub open spec fn thread_of(db: DbView) -> spec_fn(ThreadRowView) -> ThreadView {
    thread_shown_with(db.users, db.replies)
}

/// A stored thread as it is shown, given the users and the replies.
pub open spec fn thread_shown_with(users: Seq<UserRowView>, replies: Seq<ReplyRowView>) -> spec_fn(
    ThreadRowView,
) -> ThreadView {
    |row: ThreadRowView|
        ThreadView {
            id: row.id,
            category_id: row.category_id,
            user: user_with(users, row.user_id)->0,
            title: row.title,
            body: row.body,
            created_at: row.created_at,
            reply_count: replies.filter(reply_in(row.id)).len() as int,
        }
}

/// The threads of a category as they are listed: latest first.
pub open spec fn threads_latest_first(db: DbView, category_id: int) -> Seq<ThreadView> {
    db.threads.filter(thread_listed(db, category_id)).reverse().map_values(thread_of(db))
}

/// What a listing of the threads of the category `slug` answers: not found
/// for an unknown category; otherwise the requested page of the threads, latest
/// first, with the number of all threads of the category, the page that was
/// served and the page size.
pub open spec fn list_threads_spec(db: DbView, slug: Seq<char>, page: Option<int>) -> Result<
    PaginatedView<ThreadView>,
    ApiError,
> {
    match category_with_slug(db.categories, slug) {
        None => Err(ApiError::NotFound),
        Some(category_id) => Ok(
            PaginatedView {
                items: page_of(threads_latest_first(db, category_id), clamp_page_spec(page)),
                total: db.threads.filter(thread_in(category_id)).len() as int,
                page: clamp_page_spec(page),
                per_page: PER_PAGE as int,
            },
        ),
    }
}

/// What asking for the thread `id` answers: the thread with its replies,
/// earliest first, or not found.
pub open spec fn get_thread_spec(db: DbView, id: int) -> Result<ThreadDetailView, ApiError> {
    if has_id::<ThreadRow>(db.threads, id) && known(
        db.users,
        db.threads[index_of_id::<ThreadRow>(db.threads, id)].user_id,
    ) {
        Ok(
            ThreadDetailView {
                thread: thread_of(db)(db.threads[index_of_id::<ThreadRow>(db.threads, id)]),
                replies: replies_in(db.replies, db, id),
            },
        )
    } else {
        Err(ApiError::NotFound)
    }
}

/// What opening a thread does to the store and what it answers: the category
/// is looked up first, and an unknown one is not found; then title and body
/// are sanitised, and nothing left of either is a bad request; an author who
/// is not a known user, or identifiers used up, is an internal failure;
/// otherwise the thread is stored and shown without replies.
pub open spec fn create_thread_spec(
    db: DbView,
    user_id: int,
    category_slug: Seq<char>,
    raw_title: Seq<char>,
    raw_body: Seq<char>,
    now: Seq<char>,
) -> (DbView, Result<ThreadView, ApiError>) {
    let title = content_spec(sanitized(raw_title));
    let body = content_spec(sanitized(raw_body));
    let category = category_with_slug(db.categories, category_slug);
    if category is None {
        (db, Err(ApiError::NotFound))
    } else if title is Err || body is Err {
        (db, Err(ApiError::BadRequest))
    } else if !known(db.users, user_id) || db.last_thread_id >= i64::MAX {
        (db, Err(ApiError::Internal))
    } else {
        let row = ThreadRowView {
            id: db.last_thread_id + 1,
            category_id: category->0,
            user_id,
            title: title->Ok_0,
            body: body->Ok_0,
            created_at: now,
        };
        (
            DbView {
                threads: db.threads.insert(slot::<ThreadRow>(db.threads, now), row),
                last_thread_id: db.last_thread_id + 1,
                ..db
            },
            Ok(ThreadView { reply_count: 0, ..thread_of(db)(row) }),
        )
    }
}

/// What replying in a thread does to the store and what it answers: the
/// thread is looked up first, and one that does not exist is not found; then
/// the body is sanitised, and nothing left of it is a bad request; an author
/// who is not a known user, or identifiers used up, is an internal failure;
/// otherwise the reply is stored and shown with a score of 0.
pub open spec fn create_reply_spec(
    db: DbView,
    user_id: int,
    thread_id: int,
    raw_body: Seq<char>,
    now: Seq<char>,
) -> (DbView, Result<ReplyView, ApiError>) {
    let body = content_spec(sanitized(raw_body));
    if !has_id::<ThreadRow>(db.threads, thread_id) {
        (db, Err(ApiError::NotFound))
    } else if body is Err {
        (db, Err(ApiError::BadRequest))
    } else if !known(db.users, user_id) || db.last_reply_id >= i64::MAX {
        (db, Err(ApiError::Internal))
    } else {
        let row = ReplyRowView {
            id: db.last_reply_id + 1,
            thread_id,
            user_id,
            body: body->Ok_0,
            created_at: now,
        };
        (
            DbView {
                replies: db.replies.insert(slot::<ReplyRow>(db.replies, now), row),
                last_reply_id: db.last_reply_id + 1,
                ..db
            },
            Ok(ReplyView { vote_count: 0, ..reply_of(db)(row) }),
        )
    }
}

/// The views of a page of threads, or of the refusal.
pub open spec fn thread_page_view(r: Result<Paginated<Thread>, ApiError>) -> Result<
    PaginatedView<ThreadView>,
    ApiError,
> {
    match r {
        Ok(p) => Ok(p@),
        Err(e) => Err(e),
    }
}

/// The views of a thread with its replies, or of the refusal.
pub open spec fn thread_detail_view(r: Result<ThreadDetail, ApiError>) -> Result<
    ThreadDetailView,
    ApiError,
> {
    match r {
        Ok(d) => Ok(d@),
        Err(e) => Err(e),
    }
}

/// The views of a thread that was opened, or of the refusal.
pub open spec fn thread_result_view(r: Result<Thread, ApiError>) -> Result<ThreadView, ApiError> {
    match r {
        Ok(t) => Ok(t@),
        Err(e) => Err(e),
    }
}

/// The views of a reply that was made, or of the refusal.
pub open spec fn reply_result_view(r: Result<Reply, ApiError>) -> Result<ReplyView, ApiError> {
    match r {
        Ok(x) => Ok(x@),
        Err(e) => Err(e),
    }
}

// ── Laws ──

/// Asking for page 0 of a category, for a page below it, or for no page at
/// all, is asking for page 1.
pub proof fn law_low_page_is_first_page(db: DbView, slug: Seq<char>, page: int)
    requires
        page < 1,
    ensures
        list_threads_spec(db, slug, Some(page)) == list_threads_spec(db, slug, Some(1)),
        list_threads_spec(db, slug, None) == list_threads_spec(db, slug, Some(1)),
{
}

/// A page past the end of a category's threads is no error: it has no items,
/// and the total is that of every other page.
pub proof fn law_page_past_the_end(db: DbView, slug: Seq<char>, page: int, other: int)
    requires
        category_with_slug(db.categories, slug) is Some,
        page >= 1,
        (page - 1) * PER_PAGE >= threads_latest_first(
            db,
            category_with_slug(db.categories, slug)->0,
        ).len(),
    ensures
        list_threads_spec(db, slug, Some(page)) is Ok,
        list_threads_spec(db, slug, Some(page))->Ok_0.items == Seq::<ThreadView>::empty(),
        list_threads_spec(db, slug, Some(page))->Ok_0.page == page,
        list_threads_spec(db, slug, Some(page))->Ok_0.total == list_threads_spec(
            db,
            slug,
            Some(other),
        )->Ok_0.total,
{
    let all = threads_latest_first(db, category_with_slug(db.categories, slug)->0);
    assert(page_of(all, page) =~= Seq::<ThreadView>::empty());
}

/// A thread in a category that does not exist is answered as not found,
/// whatever else the request holds, and nothing is stored.
pub proof fn law_thread_needs_its_category(
    db: DbView,
    user_id: int,
    category_slug: Seq<char>,
    raw_title: Seq<char>,
    raw_body: Seq<char>,
    now: Seq<char>,
)
    requires
        category_with_slug(db.categories, category_slug) is None,
    ensures
        create_thread_spec(db, user_id, category_slug, raw_title, raw_body, now) == (
            db,
            Err::<ThreadView, ApiError>(ApiError::NotFound),
        ),
{
}

/// A reply to a thread that does not exist is answered as not found,
/// whatever else the request holds, and nothing is stored.
pub proof fn law_reply_needs_its_thread(
    db: DbView,
    user_id: int,
    thread_id: int,
    raw_body: Seq<char>,
    now: Seq<char>,
)
    requires
        !has_id::<ThreadRow>(db.threads, thread_id),
    ensures
        create_reply_spec(db, user_id, thread_id, raw_body, now) == (
            db,
            Err::<ReplyView, ApiError>(ApiError::NotFound),
        ),
{
}

/// The categories are listed in the order of their identifiers.
pub proof fn law_categories_are_listed_by_identifier(db: DbView, i: int, j: int)
    requires
        db.wf(),
        0 <= i < j < db.categories.len(),
    ensures
        db.categories[i].id < db.categories[j].id,
{
}

/// The replies of a thread are shown in the order of their creation times,
/// earliest first.
pub proof fn law_replies_are_shown_earliest_first(db: DbView, thread_id: int, i: int, j: int)
    requires
        db.wf(),
        0 <= i < j < replies_in(db.replies, db, thread_id).len(),
    ensures
        lex_le(
            replies_in(db.replies, db, thread_id)[i].created_at,
            replies_in(db.replies, db, thread_id)[j].created_at,
        ),
{
    lemma_filter_keeps_time_order::<ReplyRow>(db.replies, reply_listed(db, thread_id));
    let kept = db.replies.filter(reply_listed(db, thread_id));
    assert(lex_le(ReplyRow::stamp_of(kept[i]), ReplyRow::stamp_of(kept[j])));
}

/// The threads of a category are listed in the order of their creation
/// times, latest first.
pub proof fn law_threads_are_listed_latest_first(db: DbView, category_id: int, i: int, j: int)
    requires
        db.wf(),
        0 <= i < j < threads_latest_first(db, category_id).len(),
    ensures
        lex_le(
            threads_latest_first(db, category_id)[j].created_at,
            threads_latest_first(db, category_id)[i].created_at,
        ),
{
    lemma_filter_keeps_time_order::<ThreadRow>(db.threads, thread_listed(db, category_id));
    let kept = db.threads.filter(thread_listed(db, category_id));
    let n = kept.len();
    assert(kept.reverse()[i] == kept[n - 1 - i]);
    assert(kept.reverse()[j] == kept[n - 1 - j]);
    assert(lex_le(ThreadRow::stamp_of(kept[n - 1 - j]), ThreadRow::stamp_of(kept[n - 1 - i])));
}

/// A reply that was made is shown in its thread from then on, with the score
/// that the votes on it make up, and counts for its thread: the thread has one
/// reply more, every other thread as many as before, and the replies that
/// were shown before stay in their order.
pub proof fn law_reply_is_shown_and_counted(
    db: DbView,
    user_id: int,
    thread_id: int,
    raw_body: Seq<char>,
    now: Seq<char>,
    other_thread: int,
)
    requires
        db.wf(),
        create_reply_spec(db, user_id, thread_id, raw_body, now).1 is Ok,
        other_thread != thread_id,
    ensures
        ({
            let after = create_reply_spec(db, user_id, thread_id, raw_body, now).0;
            let made = create_reply_spec(db, user_id, thread_id, raw_body, now).1->Ok_0;
            let before = replies_in(db.replies, db, thread_id);
            let shown = ReplyView { vote_count: tally(db.votes, reply_kind(), made.id), ..made };
            &&& after.wf()
            &&& made.body == sanitized(raw_body)
            &&& reply_count(after, thread_id) == reply_count(db, thread_id) + 1
            &&& reply_count(after, other_thread) == reply_count(db, other_thread)
            &&& exists|at: int|
                0 <= at <= before.len() && replies_in(after.replies, after, thread_id)
                    == #[trigger] before.insert(at, shown)
            &&& replies_in(after.replies, after, other_thread) == replies_in(
                db.replies,
                db,
                other_thread,
            )
        }),
{
    let after = create_reply_spec(db, user_id, thread_id, raw_body, now).0;
    let made = create_reply_spec(db, user_id, thread_id, raw_body, now).1->Ok_0;
    let row = ReplyRowView {
        id: db.last_reply_id + 1,
        thread_id,
        user_id,
        body: sanitized(raw_body),
        created_at: now,
    };
    let at = slot::<ReplyRow>(db.replies, now);
    lemma_slot::<ReplyRow>(db.replies, now);
    lemma_insert_wf::<ReplyRow>(db.replies, db.last_reply_id, row);
    let keep = replies_among(db.users, thread_id);
    let show = reply_shown_with(db.users, db.votes);
    lemma_filter_insert(db.replies, at, row, keep);
    lemma_filter_insert(db.replies, at, row, replies_among(db.users, other_thread));
    lemma_filter_insert(db.replies, at, row, reply_in(thread_id));
    lemma_filter_insert(db.replies, at, row, reply_in(other_thread));
    let before = replies_in(db.replies, db, thread_id);
    let shown = ReplyView { vote_count: tally(db.votes, reply_kind(), made.id), ..made };
    let place = db.replies.take(at).filter(keep).len() as int;
    assert(show(row) == shown);
    assert(db.replies.filter(keep).insert(place, row).map_values(show) =~= before.insert(
        place,
        shown,
    ));
    assert(replies_in(after.replies, after, thread_id) == before.insert(place, shown));
}

/// A thread that was opened counts for its category from then on: the
/// category has one thread more, in its total and in its listing, where the
/// thread stands with the number of replies that refer to it, and every other
/// category has what it had.
pub proof fn law_opened_thread_is_counted(
    db: DbView,
    user_id: int,
    category_slug: Seq<char>,
    raw_title: Seq<char>,
    raw_body: Seq<char>,
    now: Seq<char>,
    other_category: int,
)
    requires
        db.wf(),
        create_thread_spec(db, user_id, category_slug, raw_title, raw_body, now).1 is Ok,
        Some(other_category) != category_with_slug(db.categories, category_slug),
    ensures
        ({
            let after = create_thread_spec(db, user_id, category_slug, raw_title, raw_body, now).0;
            let made = create_thread_spec(
                db,
                user_id,
                category_slug,
                raw_title,
                raw_body,
                now,
            ).1->Ok_0;
            let category = category_with_slug(db.categories, category_slug)->0;
            &&& after.wf()
            &&& made.category_id == category
            &&& made.title == sanitized(raw_title)
            &&& made.body == sanitized(raw_body)
            &&& after.threads.filter(thread_in(category)).len() == db.threads.filter(
                thread_in(category),
            ).len() + 1
            &&& threads_latest_first(after, category).len() == threads_latest_first(
                db,
                category,
            ).len() + 1
            &&& threads_latest_first(after, category).contains(
                ThreadView { reply_count: reply_count(db, made.id), ..made },
            )
            &&& threads_latest_first(after, other_category) == threads_latest_first(
                db,
                other_category,
            )
        }),
{
    let after = create_thread_spec(db, user_id, category_slug, raw_title, raw_body, now).0;
    let made = create_thread_spec(db, user_id, category_slug, raw_title, raw_body, now).1->Ok_0;
    let category = category_with_slug(db.categories, category_slug)->0;
    let row = ThreadRowView {
        id: db.last_thread_id + 1,
        category_id: category,
        user_id,
        title: sanitized(raw_title),
        body: sanitized(raw_body),
        created_at: now,
    };
    let at = slot::<ThreadRow>(db.threads, now);
    lemma_slot::<ThreadRow>(db.threads, now);
    lemma_insert_wf::<ThreadRow>(db.threads, db.last_thread_id, row);
    let keep = threads_among(db.users, category);
    let show = thread_shown_with(db.users, db.replies);
    lemma_filter_insert(db.threads, at, row, keep);
    lemma_filter_insert(db.threads, at, row, threads_among(db.users, other_category));
    lemma_filter_insert(db.threads, at, row, thread_in(category));
    let place = db.threads.take(at).filter(keep).len() as int;
    let kept = db.threads.filter(keep).insert(place, row);
    let listed = ThreadView { reply_count: reply_count(db, made.id), ..made };
    assert(show(row) == listed);
    let turned = kept.reverse();
    assert(turned[kept.len() - 1 - place] == row);
    assert(turned.map_values(show)[kept.len() - 1 - place] == listed);
}

// ── Operations ──

/// The row at position `hits[k]` is the `k`-th of the rows that were kept.
pub open spec fn hit_at(hits: Seq<usize>, rows: Seq<ThreadRowView>, kept: Seq<ThreadRowView>, k: int) -> bool {
    hits[k] < rows.len() && rows[hits[k] as int] == kept[k]
}

/// `hits` holds the positions, among `rows`, of the rows that were kept.
pub open spec fn hits_match(hits: Seq<usize>, rows: Seq<ThreadRowView>, kept: Seq<ThreadRowView>) -> bool {
    hits.len() == kept.len() && forall|k: int|
        0 <= k < hits.len() ==> #[trigger] hit_at(hits, rows, kept, k)
}

impl Database {
    /// All categories, in the order of their identifiers.
    pub fn list_categories(&self) -> (out: Vec<ForumCategory>)
        ensures
            category_views(out@) == self@.categories,
    {
        self.categories.list()
    }

    fn count_replies(&self, thread_id: i64) -> (n: i64)
        requires
            self.wf(),
        ensures
            n == reply_count(self@, thread_id as int),
    {
        let len = self.replies.len();
        let mut n: i64 = 0;
        let mut i: usize = 0;
        proof {
            assert(self@.replies.take(0).filter(reply_in(thread_id as int)) =~= Seq::<
                ReplyRowView,
            >::empty()) by {
                reveal(Seq::filter);
            }
        }
        while i < len
            invariant
                i <= len,
                len == self@.replies.len(),
                self.wf(),
                n == self@.replies.take(i as int).filter(reply_in(thread_id as int)).len(),
                n <= i,
            decreases len - i,
        {
            let row = self.replies.row(i);
            proof {
                let front = self@.replies.take(i as int);
                assert(self@.replies.take(i + 1) =~= front.push(row@));
                front.lemma_filter_push(row@, reply_in(thread_id as int));
            }
            if row.thread_id == thread_id {
                n = n + 1;
            }
            i += 1;
        }
        assert(self@.replies.take(len as int) =~= self@.replies);
        n
    }

    fn show_thread(&self, row: &ThreadRow, author: User) -> (thread: Thread)
        requires
            self.wf(),
            user_with(self@.users, row.user_id as int) == Some(author@),
        ensures
            thread@ == thread_of(self@)(row@),
    {
        Thread {
            id: row.id,
            category_id: row.category_id,
            user: author,
            title: row.title.clone(),
            body: row.body.clone(),
            created_at: row.created_at.clone(),
            reply_count: self.count_replies(row.id),
        }
    }

    fn show_reply(&self, row: &ReplyRow, author: User) -> (reply: Reply)
        requires
            self.wf(),
            user_with(self@.users, row.user_id as int) == Some(author@),
        ensures
            reply@ == reply_of(self@)(row@),
    {
        let score = self.votes.get_votes("reply", row.id, None);
        Reply {
            id: row.id,
            thread_id: row.thread_id,
            user: author,
            body: row.body.clone(),
            created_at: row.created_at.clone(),
            vote_count: score.vote_count,
        }
    }

    fn list_replies(&self, thread_id: i64) -> (out: Vec<Reply>)
        requires
            self.wf(),
        ensures
            reply_views(out@) == replies_in(self@.replies, self@, thread_id as int),
    {
        let mut out: Vec<Reply> = Vec::new();
        let n = self.replies.len();
        let mut i: usize = 0;
        proof {
            assert(self@.replies.take(0).filter(reply_listed(self@, thread_id as int)) =~= Seq::<
                ReplyRowView,
            >::empty()) by {
                reveal(Seq::filter);
            }
            assert(reply_views(out@) =~= replies_in(
                self@.replies.take(0),
                self@,
                thread_id as int,
            ));
        }
        while i < n
            invariant
                i <= n,
                n == self@.replies.len(),
                self.wf(),
                reply_views(out@) == replies_in(
                    self@.replies.take(i as int),
                    self@,
                    thread_id as int,
                ),
            decreases n - i,
        {
            let row = self.replies.row(i);
            let ghost sofar = out@;
            let ghost front = self@.replies.take(i as int);
            proof {
                assert(self@.replies.take(i + 1) =~= front.push(row@));
                front.lemma_filter_push(row@, reply_listed(self@, thread_id as int));
            }
            if row.thread_id == thread_id {
                match self.users.get(row.user_id) {
                    Some(author) => {
                        let reply = self.show_reply(row, author);
                        out.push(reply);
                        assert(reply_views(out@) =~= reply_views(sofar).push(
                            reply_of(self@)(row@),
                        ));
                        assert(replies_in(front.push(row@), self@, thread_id as int)
                            =~= replies_in(front, self@, thread_id as int).push(
                            reply_of(self@)(row@),
                        ));
                    },
                    None => {},
                }
            }
            i += 1;
        }
        assert(self@.replies.take(n as int) =~= self@.replies);
        out
    }

    /// One page of the threads of the category `category_slug`, latest first,
    /// each with its author and its number of replies.
    pub fn list_threads(&self, category_slug: &str, page: Option<i64>) -> (result: Result<
        Paginated<Thread>,
        ApiError,
    >)
        requires
            self.wf(),
        ensures
            thread_page_view(result) == list_threads_spec(self@, category_slug@, opt_int(page)),
    {
        let category_id = match self.categories.find_slug(category_slug) {
            Some(id) => id,
            None => {
                return Err(ApiError::NotFound);
            },
        };
        let served = clamp_page(page);
        let ghost listed = thread_listed(self@, category_id as int);
        let ghost inside = thread_in(category_id as int);
        let n = self.threads.len();
        let mut hits: Vec<usize> = Vec::new();
        let mut total: i64 = 0;
        let mut i: usize = 0;
        proof {
            assert(self@.threads.take(0).filter(listed) =~= Seq::<ThreadRowView>::empty()) by {
                reveal(Seq::filter);
            }
            assert(self@.threads.take(0).filter(inside) =~= Seq::<ThreadRowView>::empty()) by {
                reveal(Seq::filter);
            }
        }
        while i < n
            invariant
                i <= n,
                n == self@.threads.len(),
                self.wf(),
                listed == thread_listed(self@, category_id as int),
                inside == thread_in(category_id as int),
                total == self@.threads.take(i as int).filter(inside).len(),
                total <= i,
                hits_match(hits@, self@.threads, self@.threads.take(i as int).filter(listed)),
            decreases n - i,
        {
            let row = self.threads.row(i);
            let ghost front = self@.threads.take(i as int);
            let ghost found = hits@;
            proof {
                assert(self@.threads.take(i + 1) =~= front.push(row@));
                front.lemma_filter_push(row@, listed);
                front.lemma_filter_push(row@, inside);
            }
            if row.category_id == category_id {
                total = total + 1;
                if self.users.knows(row.user_id) {
                    hits.push(i);
                }
            }
            proof {
                let next = self@.threads.take(i + 1).filter(listed);
                assert forall|k: int| 0 <= k < hits@.len() implies #[trigger] hit_at(
                    hits@,
                    self@.threads,
                    next,
                    k,
                ) by {
                    if k < found.len() {
                        assert(hit_at(found, self@.threads, front.filter(listed), k));
                    }
                }
            }
            i += 1;
        }
        let ghost kept = self@.threads.filter(listed);
        proof {
            assert(self@.threads.take(n as int) =~= self@.threads);
        }
        let ghost all = threads_latest_first(self@, category_id as int);
        let count = hits.len();
        let (start, end) = page_bounds(count, served);
        let mut items: Vec<Thread> = Vec::new();
        let mut k: usize = start;
        while k < end
            invariant
                start <= k <= end <= count,
                count == hits@.len(),
                self.wf(),
                kept == self@.threads.filter(thread_listed(self@, category_id as int)),
                all == threads_latest_first(self@, category_id as int),
                hits_match(hits@, self@.threads, kept),
                thread_views(items@) == all.subrange(start as int, k as int),
            decreases end - k,
        {
            proof {
                assert(hit_at(hits@, self@.threads, kept, count - 1 - k));
                self@.threads.lemma_filter_pred(
                    thread_listed(self@, category_id as int),
                    count - 1 - k,
                );
            }
            let at = hits[count - 1 - k];
            let row = self.threads.row(at);
            let ghost sofar = items@;
            match self.users.get(row.user_id) {
                Some(author) => {
                    let thread = self.show_thread(row, author);
                    items.push(thread);
                    proof {
                        assert(all[k as int] == thread_of(self@)(kept.reverse()[k as int]));
                        assert(thread_views(items@) =~= thread_views(sofar).push(all[k as int]));
                        assert(all.subrange(start as int, k + 1) =~= all.subrange(
                            start as int,
                            k as int,
                        ).push(all[k as int]));
                    }
                },
                None => {
                    proof {
                        assert(false);
                    }
                },
            }
            k += 1;
        }
        Ok(Paginated { items, total, page: served, per_page: PER_PAGE })
    }

    /// The thread `id` with its author and its number of replies, and its
    /// replies, earliest first, each with its author and its score.
    pub fn get_thread(&self, id: i64) -> (result: Result<ThreadDetail, ApiError>)
        requires
            self.wf(),
        ensures
            thread_detail_view(result) == get_thread_spec(self@, id as int),
    {
        let at = match self.threads.find(id) {
            Some(at) => at,
            None => {
                return Err(ApiError::NotFound);
            },
        };
        let row = self.threads.row(at);
        let author = match self.users.get(row.user_id) {
            Some(author) => author,
            None => {
                return Err(ApiError::NotFound);
            },
        };
        let thread = self.show_thread(row, author);
        let replies = self.list_replies(id);
        Ok(ThreadDetail { thread, replies })
    }

    /// Opens a thread by `user_id` in the category `category_slug`, created at
    /// `now`.
    pub fn create_thread(
        &mut self,
        user_id: i64,
        category_slug: &str,
        raw_title: &str,
        raw_body: &str,
        now: &str,
    ) -> (result: Result<Thread, ApiError>)
        requires
            old(self).wf(),
        ensures
            final(self).wf(),
            (final(self)@, thread_result_view(result)) == create_thread_spec(
                old(self)@,
                user_id as int,
                category_slug@,
                raw_title@,
                raw_body@,
                now@,
            ),
    {
        let category_id = match self.categories.find_slug(category_slug) {
            Some(id) => id,
            None => {
                return Err(ApiError::NotFound);
            },
        };
        let title = sanitize_field(raw_title);
        let body = sanitize_field(raw_body);
        let (title, body) = match (title, body) {
            (Ok(title), Ok(body)) => (title, body),
            _ => {
                return Err(ApiError::BadRequest);
            },
        };
        let author = match self.users.get(user_id) {
            Some(author) => author,
            None => {
                return Err(ApiError::Internal);
            },
        };
        let id = match self.threads.next_id() {
            Some(id) => id,
            None => {
                return Err(ApiError::Internal);
            },
        };
        let row = ThreadRow {
            id,
            category_id,
            user_id,
            title: title.clone(),
            body: body.clone(),
            created_at: now.to_owned(),
        };
        let thread = Thread {
            id,
            category_id,
            user: author,
            title,
            body,
            created_at: now.to_owned(),
            reply_count: 0,
        };
        self.threads.insert(row);
        Ok(thread)
    }

    /// Replies by `user_id` in the thread `thread_id`, at `now`.
    pub fn create_reply(&mut self, user_id: i64, thread_id: i64, raw_body: &str, now: &str) -> (result:
        Result<Reply, ApiError>)
        requires
            old(self).wf(),
        ensures
            final(self).wf(),
            (final(self)@, reply_result_view(result)) == create_reply_spec(
                old(self)@,
                user_id as int,
                thread_id as int,
                raw_body@,
                now@,
            ),
    {
        if self.threads.find(thread_id).is_none() {
            return Err(ApiError::NotFound);
        }
        let body = match sanitize_field(raw_body) {
            Ok(body) => body,
            Err(e) => {
                return Err(e);
            },
        };
        let author = match self.users.get(user_id) {
            Some(author) => author,
            None => {
                return Err(ApiError::Internal);
            },
        };
        let id = match self.replies.next_id() {
            Some(id) => id,
            None => {
                return Err(ApiError::Internal);
            },
        };
        let row = ReplyRow {
            id,
            thread_id,
            user_id,
            body: body.clone(),
            created_at: now.to_owned(),
        };
        let reply = Reply {
            id,
            thread_id,
            user: author,
            body,
            created_at: now.to_owned(),
            vote_count: 0,
        };
        self.replies.insert(row);
        Ok(reply)
    }
}

// ── Requests ──

/// What a request to open a thread comes to, given who the bearer turned out
/// to be: for the one who was not let in, the refusal, and nothing changes.
pub open spec fn create_thread_outcome(
    before: AppStateView,
    identity: Result<int, ApiError>,
    payload: CreateThread,
    now: Seq<char>,
) -> (AppStateView, Result<ThreadView, ApiError>) {
    match identity {
        Err(e) => (before, Err(e)),
        Ok(user_id) => {
            let done = create_thread_spec(
                before.db,
                user_id,
                payload.category_slug@,
                payload.title@,
                payload.body@,
                now,
            );
            (AppStateView { db: done.0, ..before }, done.1)
        },
    }
}

/// What a request to reply in a thread comes to, given who the bearer turned
/// out to be: for the one who was not let in, the refusal, and nothing changes.
pub open spec fn create_reply_outcome(
    before: AppStateView,
    identity: Result<int, ApiError>,
    thread_id: int,
    payload: CreateReply,
    now: Seq<char>,
) -> (AppStateView, Result<ReplyView, ApiError>) {
    match identity {
        Err(e) => (before, Err(e)),
        Ok(user_id) => {
            let done = create_reply_spec(before.db, user_id, thread_id, payload.body@, now);
            (AppStateView { db: done.0, ..before }, done.1)
        },
    }
}

/// Lists the categories, in the order of their identifiers. Anyone may ask.
pub fn list_categories(state: &AppState) -> (out: Vec<ForumCategory>)
    ensures
        category_views(out@) == state@.db.categories,
{
    state.db.list_categories()
}

/// Lists one page of the threads of a category, latest first. Anyone may ask.
pub fn list_threads(state: &AppState, params: &ThreadListParams) -> (result: Result<
    Paginated<Thread>,
    ApiError,
>)
    requires
        state.wf(),
    ensures
        thread_page_view(result) == list_threads_spec(
            state@.db,
            params.category@,
            opt_int(params.page),
        ),
{
    state.db.list_threads(params.category.as_str(), params.page)
}

/// Shows a thread with its replies. Anyone may ask.
pub fn get_thread(state: &AppState, id: i64) -> (result: Result<ThreadDetail, ApiError>)
    requires
        state.wf(),
    ensures
        thread_detail_view(result) == get_thread_spec(state@.db, id as int),
{
    state.db.get_thread(id)
}

/// Opens a thread, once the bearer of the request has been resolved.
pub fn create_thread_as(
    state: &mut AppState,
    identity: Result<i64, ApiError>,
    payload: &CreateThread,
    now: &str,
) -> (result: Result<Thread, ApiError>)
    requires
        old(state).wf(),
    ensures
        final(state).wf(),
        (final(state)@, thread_result_view(result)) == create_thread_outcome(
            old(state)@,
            identity_view(identity),
            *payload,
            now@,
        ),
{
    match identity {
        Ok(user_id) => state.db.create_thread(
            user_id,
            payload.category_slug.as_str(),
            payload.title.as_str(),
            payload.body.as_str(),
            now,
        ),
        Err(e) => Err(e),
    }
}

/// Opens a thread for the bearer of the request. Without a valid bearer token
/// this is an authentication failure and nothing changes.
pub fn create_thread(
    state: &mut AppState,
    authorization: Option<&str>,
    payload: &CreateThread,
    now: &str,
) -> (result: Result<Thread, ApiError>)
    requires
        old(state).wf(),
    ensures
        final(state).wf(),
        exists|identity: Result<i64, ApiError>|
            admitted(opt_text(authorization), identity_view(identity)) && (
                final(state)@,
                thread_result_view(result),
            ) == #[trigger] create_thread_outcome(
                old(state)@,
                identity_view(identity),
                *payload,
                now@,
            ),
{
    let identity = extract_user_id(authorization, state.jwt_secret.as_str());
    create_thread_as(state, identity, payload, now)
}

/// Replies in a thread, once the bearer of the request has been resolved.
pub fn create_reply_as(
    state: &mut AppState,
    identity: Result<i64, ApiError>,
    thread_id: i64,
    payload: &CreateReply,
    now: &str,
) -> (result: Result<Reply, ApiError>)
    requires
        old(state).wf(),
    ensures
        final(state).wf(),
        (final(state)@, reply_result_view(result)) == create_reply_outcome(
            old(state)@,
            identity_view(identity),
            thread_id as int,
            *payload,
            now@,
        ),
{
    match identity {
        Ok(user_id) => state.db.create_reply(user_id, thread_id, payload.body.as_str(), now),
        Err(e) => Err(e),
    }
}

/// Replies in a thread for the bearer of the request. Without a valid bearer
/// token this is an authentication failure and nothing changes.
pub fn create_reply(
    state: &mut AppState,
    authorization: Option<&str>,
    thread_id: i64,
    payload: &CreateReply,
    now: &str,
) -> (result: Result<Reply, ApiError>)
    requires
        old(state).wf(),
    ensures
        final(state).wf(),
        exists|identity: Result<i64, ApiError>|
            admitted(opt_text(authorization), identity_view(identity)) && (
                final(state)@,
                reply_result_view(result),
            ) == #[trigger] create_reply_outcome(
                old(state)@,
                identity_view(identity),
                thread_id as int,
                *payload,
                now@,
            ),
{
    let identity = extract_user_id(authorization, state.jwt_secret.as_str());
    create_reply_as(state, identity, thread_id, payload, now)
}

} // verus!
