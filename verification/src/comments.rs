//! Comments on posts: listing, posting and deleting.

use vstd::prelude::*;

use crate::auth::{admitted, extract_user_id, identity_view};
use crate::db::{Database, DbView};
use crate::error::ApiError;
use crate::sanitize::{content_spec, sanitize_field, sanitized};
use crate::shared::{Comment, CommentView, CreateComment, User};
use crate::state::{AppState, AppStateView, opt_text};
use crate::text::lex_le;
use crate::table::{
    Record,
    has_id,
    index_of_id,
    lemma_filter_insert,
    lemma_filter_keeps_time_order,
    lemma_insert_wf,
    lemma_slot,
    row_with_id,
    slot,
};
use crate::users::{UserRowView, known, user_with};
use crate::votes::{VoteView, tally};

verus! {

/// The query of a comment listing.
#[derive(Debug)]
pub struct ListParams {
    pub slug: String,
}

/// A stored comment.
#[derive(Debug)]
pub struct CommentRow {
    pub id: i64,
    pub post_slug: String,
    pub user_id: i64,
    pub body: String,
    pub created_at: String,
}

/// What a `CommentRow` holds, as mathematical values.
pub struct CommentRowView {
    pub id: int,
    pub post_slug: Seq<char>,
    pub user_id: int,
    pub body: Seq<char>,
    pub created_at: Seq<char>,
}

impl View for CommentRow {
    type V = CommentRowView;

    open spec fn view(&self) -> CommentRowView {
        CommentRowView {
            id: self.id as int,
            post_slug: self.post_slug@,
            user_id: self.user_id as int,
            body: self.body@,
            created_at: self.created_at@,
        }
    }
}

impl Clone for CommentRow {
    fn clone(&self) -> (res: Self)
        ensures
            res == *self,
    {
        CommentRow {
            id: self.id,
            post_slug: self.post_slug.clone(),
            user_id: self.user_id,
            body: self.body.clone(),
            created_at: self.created_at.clone(),
        }
    }
}

impl Record for CommentRow {
    open spec fn id_of(v: CommentRowView) -> int {
        v.id
    }

    open spec fn stamp_of(v: CommentRowView) -> Seq<char> {
        v.created_at
    }

    fn row_id(&self) -> (id: i64) {
        self.id
    }

    fn row_stamp(&self) -> (stamp: &String) {
        &self.created_at
    }

    fn duplicate(&self) -> (copy: Self) {
        self.clone()
    }
}

/// The views of a run of comments.
pub open spec fn comment_views(comments: Seq<Comment>) -> Seq<CommentView> {
    comments.map_values(|c: Comment| c@)
}

/// The views of a comment that was made, or of the refusal.
pub open spec fn comment_result_view(r: Result<Comment, ApiError>) -> Result<
    CommentView,
    ApiError,
> {
    match r {
        Ok(c) => Ok(c@),
        Err(e) => Err(e),
    }
}

/// The target kind under which votes on comments are kept.
pub open spec fn comment_kind() -> Seq<char> {
    "comment"@
}

/// The rows that a listing for `slug` shows: those of the post whose author is
/// a known user.
pub open spec fn comment_listed(db: DbView, slug: Seq<char>) -> spec_fn(CommentRowView) -> bool {
    listed_among(db.users, slug)
}

/// The rows of the post `slug` whose author is one of `users`.
pub open spec fn listed_among(users: Seq<UserRowView>, slug: Seq<char>) -> spec_fn(
    CommentRowView,
) -> bool {
    |row: CommentRowView| row.post_slug == slug && known(users, row.user_id)
}

/// A stored comment as it is shown: with its author and with its score
/// computed from the votes that are live on it.
pub open spec fn comment_of(db: DbView) -> spec_fn(CommentRowView) -> CommentView {
    shown_with(db.users, db.votes)
}

/// A stored comment as it is shown, given the users and the votes.
pub open spec fn shown_with(users: Seq<UserRowView>, votes: Seq<VoteView>) -> spec_fn(
    CommentRowView,
) -> CommentView {
    |row: CommentRowView|
        CommentView {
            id: row.id,
            post_slug: row.post_slug,
            user: user_with(users, row.user_id)->0,
            body: row.body,
            created_at: row.created_at,
            vote_count: tally(votes, comment_kind(), row.id),
        }
}

/// The comments among `rows` that a listing for `slug` shows, in the order of
/// the rows.
pub open spec fn comments_in(rows: Seq<CommentRowView>, db: DbView, slug: Seq<char>) -> Seq<
    CommentView,
> {
    rows.filter(comment_listed(db, slug)).map_values(comment_of(db))
}

/// The comments on the post `slug`, earliest first.
pub open spec fn list_comments_spec(db: DbView, slug: Seq<char>) -> Seq<CommentView> {
    comments_in(db.comments, db, slug)
}

/// The row of a comment that `user_id` posts on `post_slug` at `now`.
pub open spec fn new_comment_row(
    db: DbView,
    user_id: int,
    post_slug: Seq<char>,
    body: Seq<char>,
    now: Seq<char>,
) -> CommentRowView {
    CommentRowView { id: db.last_comment_id + 1, post_slug, user_id, body, created_at: now }
}

/// What posting a comment does to the store and what it answers: the body is
/// sanitised; nothing left of it is a bad request; a poster who is not a known
/// user, or identifiers used up, is an internal failure; otherwise the comment
/// is stored and shown with a score of 0.
pub open spec fn create_comment_spec(
    db: DbView,
    user_id: int,
    post_slug: Seq<char>,
    raw_body: Seq<char>,
    now: Seq<char>,
) -> (DbView, Result<CommentView, ApiError>) {
    match content_spec(sanitized(raw_body)) {
        Err(e) => (db, Err(e)),
        Ok(body) => {
            if !known(db.users, user_id) || db.last_comment_id >= i64::MAX {
                (db, Err(ApiError::Internal))
            } else {
                let row = new_comment_row(db, user_id, post_slug, body, now);
                (
                    DbView {
                        comments: db.comments.insert(slot::<CommentRow>(db.comments, now), row),
                        last_comment_id: db.last_comment_id + 1,
                        ..db
                    },
                    Ok(CommentView { vote_count: 0, ..comment_of(db)(row) }),
                )
            }
        },
    }
}

/// The comment `id` exists and `user_id` is its author.
pub open spec fn owns_comment(db: DbView, user_id: int, id: int) -> bool {
    has_id::<CommentRow>(db.comments, id) && db.comments[index_of_id::<CommentRow>(
        db.comments,
        id,
    )].user_id == user_id
}

/// The status that answers a deletion that was carried out.
pub const NO_CONTENT: u16 = 204;

/// What deleting a comment does to the store and what it answers: the author's
/// own comment goes; anything else is not found, whether the comment exists or
/// not, and the store stays as it is.
pub open spec fn delete_comment_spec(db: DbView, user_id: int, id: int) -> (
    DbView,
    Result<u16, ApiError>,
) {
    if owns_comment(db, user_id, id) {
        (
            DbView {
                comments: db.comments.remove(index_of_id::<CommentRow>(db.comments, id)),
                ..db
            },
            Ok(NO_CONTENT),
        )
    } else {
        (db, Err(ApiError::NotFound))
    }
}

/// A comment that someone else tries to delete stays where it is: the attempt
/// is answered as not found, the store is unchanged, and so is every listing.
pub proof fn law_foreign_delete_changes_nothing(
    db: DbView,
    user_id: int,
    id: int,
    slug: Seq<char>,
)
    requires
        db.wf(),
        !owns_comment(db, user_id, id),
    ensures
        delete_comment_spec(db, user_id, id).1 == Err::<u16, ApiError>(ApiError::NotFound),
        delete_comment_spec(db, user_id, id).0 == db,
        list_comments_spec(delete_comment_spec(db, user_id, id).0, slug) == list_comments_spec(
            db,
            slug,
        ),
        row_with_id::<CommentRow>(delete_comment_spec(db, user_id, id).0.comments, id)
            == row_with_id::<CommentRow>(db.comments, id),
{
}

/// The comments of a post are listed in the order of their creation times,
/// earliest first.
pub proof fn law_comments_are_listed_earliest_first(db: DbView, slug: Seq<char>, i: int, j: int)
    requires
        db.wf(),
        0 <= i < j < list_comments_spec(db, slug).len(),
    ensures
        lex_le(
            list_comments_spec(db, slug)[i].created_at,
            list_comments_spec(db, slug)[j].created_at,
        ),
{
    lemma_filter_keeps_time_order::<CommentRow>(db.comments, comment_listed(db, slug));
    let kept = db.comments.filter(comment_listed(db, slug));
    assert(lex_le(CommentRow::stamp_of(kept[i]), CommentRow::stamp_of(kept[j])));
}

/// A comment that was posted is listed under its post from then on, with the
/// score that the votes on it make up, and the comments that were listed
/// before stay in their order. The listings of other posts do not change.
pub proof fn law_posted_comment_is_listed(
    db: DbView,
    user_id: int,
    post_slug: Seq<char>,
    raw_body: Seq<char>,
    now: Seq<char>,
    other_slug: Seq<char>,
)
    requires
        db.wf(),
        create_comment_spec(db, user_id, post_slug, raw_body, now).1 is Ok,
        other_slug != post_slug,
    ensures
        ({
            let after = create_comment_spec(db, user_id, post_slug, raw_body, now).0;
            let made = create_comment_spec(db, user_id, post_slug, raw_body, now).1->Ok_0;
            let before = list_comments_spec(db, post_slug);
            let listed = CommentView { vote_count: tally(db.votes, comment_kind(), made.id), ..made };
            &&& after.wf()
            &&& made.body == sanitized(raw_body)
            &&& made.user == user_with(db.users, user_id)->0
            &&& exists|at: int|
                0 <= at <= before.len() && list_comments_spec(after, post_slug)
                    == #[trigger] before.insert(at, listed)
            &&& list_comments_spec(after, other_slug) == list_comments_spec(db, other_slug)
        }),
{
    let after = create_comment_spec(db, user_id, post_slug, raw_body, now).0;
    let made = create_comment_spec(db, user_id, post_slug, raw_body, now).1->Ok_0;
    let body = sanitized(raw_body);
    let row = new_comment_row(db, user_id, post_slug, body, now);
    let at = slot::<CommentRow>(db.comments, now);
    lemma_slot::<CommentRow>(db.comments, now);
    lemma_insert_wf::<CommentRow>(db.comments, db.last_comment_id, row);
    let keep = listed_among(db.users, post_slug);
    let show = shown_with(db.users, db.votes);
    lemma_filter_insert(db.comments, at, row, keep);
    lemma_filter_insert(db.comments, at, row, listed_among(db.users, other_slug));
    let before = list_comments_spec(db, post_slug);
    let listed = CommentView { vote_count: tally(db.votes, comment_kind(), made.id), ..made };
    let place = db.comments.take(at).filter(keep).len() as int;
    assert(show(row) == listed);
    assert(db.comments.filter(keep).insert(place, row).map_values(show) =~= before.insert(
        place,
        listed,
    ));
    assert(list_comments_spec(after, post_slug) == before.insert(place, listed));
}

impl Database {
    fn show_comment(&self, row: &CommentRow, author: User) -> (comment: Comment)
        requires
            self.wf(),
            user_with(self@.users, row.user_id as int) == Some(author@),
        ensures
            comment@ == comment_of(self@)(row@),
    {
        let score = self.votes.get_votes("comment", row.id, None);
        Comment {
            id: row.id,
            post_slug: row.post_slug.clone(),
            user: author,
            body: row.body.clone(),
            created_at: row.created_at.clone(),
            vote_count: score.vote_count,
        }
    }

    /// The comments on the post `post_slug`, earliest first, each with its
    /// author and its score. A post without comments has an empty listing.
    pub fn list_comments(&self, post_slug: &str) -> (out: Vec<Comment>)
        requires
            self.wf(),
        ensures
            comment_views(out@) == list_comments_spec(self@, post_slug@),
    {
        let slug = post_slug.to_owned();
        let mut out: Vec<Comment> = Vec::new();
        let n = self.comments.len();
        let mut i: usize = 0;
        proof {
            assert(self@.comments.take(0).filter(comment_listed(self@, post_slug@)) =~= Seq::<
                CommentRowView,
            >::empty()) by {
                reveal(Seq::filter);
            }
            assert(comment_views(out@) =~= comments_in(self@.comments.take(0), self@, post_slug@));
        }
        while i < n
            invariant
                i <= n,
                n == self@.comments.len(),
                self.wf(),
                slug@ == post_slug@,
                comment_views(out@) == comments_in(
                    self@.comments.take(i as int),
                    self@,
                    post_slug@,
                ),
            decreases n - i,
        {
            let row = self.comments.row(i);
            let ghost sofar = out@;
            let ghost front = self@.comments.take(i as int);
            proof {
                assert(self@.comments.take(i + 1) =~= front.push(row@));
                front.lemma_filter_push(row@, comment_listed(self@, post_slug@));
            }
            if row.post_slug == slug {
                match self.users.get(row.user_id) {
                    Some(author) => {
                        let comment = self.show_comment(row, author);
                        out.push(comment);
                        assert(comment_views(out@) =~= comment_views(sofar).push(
                            comment_of(self@)(row@),
                        ));
                        assert(comments_in(front.push(row@), self@, post_slug@) =~= comments_in(
                            front,
                            self@,
                            post_slug@,
                        ).push(comment_of(self@)(row@)));
                    },
                    None => {},
                }
            }
            i += 1;
        }
        assert(self@.comments.take(n as int) =~= self@.comments);
        out
    }

    /// Posts a comment by `user_id` on `post_slug`, created at `now`.
    pub fn create_comment(&mut self, user_id: i64, post_slug: &str, raw_body: &str, now: &str) -> (result:
        Result<Comment, ApiError>)
        requires
            old(self).wf(),
        ensures
            final(self).wf(),
            (final(self)@, comment_result_view(result)) == create_comment_spec(
                old(self)@,
                user_id as int,
                post_slug@,
                raw_body@,
                now@,
            ),
    {
        let body = match sanitize_field(raw_body) {
            Ok(body) => body,
            Err(e) => {
                return Err(e);
            },
        };
        let author = match self.users.get(user_id) {
            Some(author) => author,
            None => {
                return Err(ApiError::Internal);
            },
        };
        let id = match self.comments.next_id() {
            Some(id) => id,
            None => {
                return Err(ApiError::Internal);
            },
        };
        let row = CommentRow {
            id,
            post_slug: post_slug.to_owned(),
            user_id,
            body: body.clone(),
            created_at: now.to_owned(),
        };
        let comment = Comment {
            id,
            post_slug: post_slug.to_owned(),
            user: author,
            body,
            created_at: now.to_owned(),
            vote_count: 0,
        };
        self.comments.insert(row);
        Ok(comment)
    }

    /// Deletes the comment `id` if `user_id` is its author.
    pub fn delete_comment(&mut self, user_id: i64, id: i64) -> (result: Result<u16, ApiError>)
        requires
            old(self).wf(),
        ensures
            final(self).wf(),
            (final(self)@, result) == delete_comment_spec(old(self)@, user_id as int, id as int),
    {
        match self.comments.find(id) {
            Some(at) => {
                if self.comments.row(at).user_id == user_id {
                    self.comments.remove(at);
                    Ok(NO_CONTENT)
                } else {
                    Err(ApiError::NotFound)
                }
            },
            None => Err(ApiError::NotFound),
        }
    }
}

// ── Requests ──

/// What a request to post a comment comes to, given who the bearer turned out
/// to be: for the one who was not let in, the refusal, and nothing changes.
pub open spec fn create_comment_outcome(
    before: AppStateView,
    identity: Result<int, ApiError>,
    payload: CreateComment,
    now: Seq<char>,
) -> (AppStateView, Result<CommentView, ApiError>) {
    match identity {
        Err(e) => (before, Err(e)),
        Ok(user_id) => {
            let done = create_comment_spec(
                before.db,
                user_id,
                payload.post_slug@,
                payload.body@,
                now,
            );
            (AppStateView { db: done.0, ..before }, done.1)
        },
    }
}

/// What a request to delete a comment comes to, given who the bearer turned
/// out to be: for the one who was not let in, the refusal, and nothing changes.
pub open spec fn delete_comment_outcome(
    before: AppStateView,
    identity: Result<int, ApiError>,
    id: int,
) -> (AppStateView, Result<u16, ApiError>) {
    match identity {
        Err(e) => (before, Err(e)),
        Ok(user_id) => {
            let done = delete_comment_spec(before.db, user_id, id);
            (AppStateView { db: done.0, ..before }, done.1)
        },
    }
}

/// Lists the comments on a post, earliest first. Anyone may ask.
pub fn list_comments(state: &AppState, params: &ListParams) -> (out: Vec<Comment>)
    requires
        state.wf(),
    ensures
        comment_views(out@) == list_comments_spec(state@.db, params.slug@),
{
    state.db.list_comments(params.slug.as_str())
}

/// Posts a comment, once the bearer of the request has been resolved.
pub fn create_comment_as(
    state: &mut AppState,
    identity: Result<i64, ApiError>,
    payload: &CreateComment,
    now: &str,
) -> (result: Result<Comment, ApiError>)
    requires
        old(state).wf(),
    ensures
        final(state).wf(),
        (final(state)@, comment_result_view(result)) == create_comment_outcome(
            old(state)@,
            identity_view(identity),
            *payload,
            now@,
        ),
{
    match identity {
        Ok(user_id) => state.db.create_comment(
            user_id,
            payload.post_slug.as_str(),
            payload.body.as_str(),
            now,
        ),
        Err(e) => Err(e),
    }
}

/// Posts a comment for the bearer of the request. Without a valid bearer
/// token this is an authentication failure and nothing changes.
pub fn create_comment(
    state: &mut AppState,
    authorization: Option<&str>,
    payload: &CreateComment,
    now: &str,
) -> (result: Result<Comment, ApiError>)
    requires
        old(state).wf(),
    ensures
        final(state).wf(),
        exists|identity: Result<i64, ApiError>|
            admitted(opt_text(authorization), identity_view(identity)) && (
                final(state)@,
                comment_result_view(result),
            ) == #[trigger] create_comment_outcome(
                old(state)@,
                identity_view(identity),
                *payload,
                now@,
            ),
{
    let identity = extract_user_id(authorization, state.jwt_secret.as_str());
    create_comment_as(state, identity, payload, now)
}

/// Deletes a comment, once the bearer of the request has been resolved.
pub fn delete_comment_as(state: &mut AppState, identity: Result<i64, ApiError>, id: i64) -> (result:
    Result<u16, ApiError>)
    requires
        old(state).wf(),
    ensures
        final(state).wf(),
        (final(state)@, result) == delete_comment_outcome(
            old(state)@,
            identity_view(identity),
            id as int,
        ),
{
    match identity {
        Ok(user_id) => state.db.delete_comment(user_id, id),
        Err(e) => Err(e),
    }
}

/// Deletes a comment of the bearer of the request. Without a valid bearer
/// token this is an authentication failure and nothing changes.
pub fn delete_comment(state: &mut AppState, authorization: Option<&str>, id: i64) -> (result: Result<
    u16,
    ApiError,
>)
    requires
        old(state).wf(),
    ensures
        final(state).wf(),
        exists|identity: Result<i64, ApiError>|
            admitted(opt_text(authorization), identity_view(identity)) && (final(state)@, result)
                == #[trigger] delete_comment_outcome(
                old(state)@,
                identity_view(identity),
                id as int,
            ),
{
    let identity = extract_user_id(authorization, state.jwt_secret.as_str());
    delete_comment_as(state, identity, id)
}

} // verus!
