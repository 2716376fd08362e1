//! The values that travel between the server and its clients.

use vstd::prelude::*;

verus! {

// ── Auth ──

/// A registered user.
#[derive(Debug)]
pub struct User {
    pub id: i64,
    pub username: String,
    pub avatar_url: String,
}

/// What a `User` holds, as mathematical values.
pub struct UserView {
    pub id: int,
    pub username: Seq<char>,
    pub avatar_url: Seq<char>,
}

impl View for User {
    type V = UserView;

    open spec fn view(&self) -> UserView {
        UserView { id: self.id as int, username: self.username@, avatar_url: self.avatar_url@ }
    }
}

impl Clone for User {
    fn clone(&self) -> (res: Self)
        ensures
            res == *self,
    {
        User { id: self.id, username: self.username.clone(), avatar_url: self.avatar_url.clone() }
    }
}

/// A freshly issued token together with the user it speaks for.
#[derive(Debug)]
pub struct AuthResponse {
    pub token: String,
    pub user: User,
}

pub struct AuthResponseView {
    pub token: Seq<char>,
    pub user: UserView,
}

impl View for AuthResponse {
    type V = AuthResponseView;

    open spec fn view(&self) -> AuthResponseView {
        AuthResponseView { token: self.token@, user: self.user@ }
    }
}

impl Clone for AuthResponse {
    fn clone(&self) -> (res: Self)
        ensures
            res == *self,
    {
        AuthResponse { token: self.token.clone(), user: self.user.clone() }
    }
}

// ── Comments ──

/// A comment on a post, with its author and its current score.
#[derive(Debug)]
pub struct Comment {
    pub id: i64,
    pub post_slug: String,
    pub user: User,
    pub body: String,
    pub created_at: String,
    pub vote_count: i64,
}

pub struct CommentView {
    pub id: int,
    pub post_slug: Seq<char>,
    pub user: UserView,
    pub body: Seq<char>,
    pub created_at: Seq<char>,
    pub vote_count: int,
}

impl View for Comment {
    type V = CommentView;

    open spec fn view(&self) -> CommentView {
        CommentView {
            id: self.id as int,
            post_slug: self.post_slug@,
            user: self.user@,
            body: self.body@,
            created_at: self.created_at@,
            vote_count: self.vote_count as int,
        }
    }
}

impl Clone for Comment {
    fn clone(&self) -> (res: Self)
        ensures
            res == *self,
    {
        Comment {
            id: self.id,
            post_slug: self.post_slug.clone(),
            user: self.user.clone(),
            body: self.body.clone(),
            created_at: self.created_at.clone(),
            vote_count: self.vote_count,
        }
    }
}

/// The request to post a comment.
#[derive(Debug)]
pub struct CreateComment {
    pub post_slug: String,
    pub body: String,
}

impl Clone for CreateComment {
    fn clone(&self) -> (res: Self)
        ensures
            res == *self,
    {
        CreateComment { post_slug: self.post_slug.clone(), body: self.body.clone() }
    }
}

// ── Votes ──

/// The request to cast a vote.
#[derive(Debug)]
pub struct CreateVote {
    pub target_type: String,
    pub target_id: i64,
    pub value: i32,
}

impl Clone for CreateVote {
    fn clone(&self) -> (res: Self)
        ensures
            res == *self,
    {
        CreateVote {
            target_type: self.target_type.clone(),
            target_id: self.target_id,
            value: self.value,
        }
    }
}

/// A target's score and, where the reader is known and has voted, the reader's own vote.
#[derive(Clone, Copy, Debug, PartialEq, Eq, Structural)]
pub struct VoteResponse {
    pub vote_count: i64,
    pub user_vote: Option<i32>,
}

// ── Forum ──

/// A forum category.
#[derive(Debug)]
pub struct ForumCategory {
    pub id: i64,
    pub name: String,
    pub slug: String,
    pub description: String,
}

pub struct ForumCategoryView {
    pub id: int,
    pub name: Seq<char>,
    pub slug: Seq<char>,
    pub description: Seq<char>,
}

impl View for ForumCategory {
    type V = ForumCategoryView;

    open spec fn view(&self) -> ForumCategoryView {
        ForumCategoryView {
            id: self.id as int,
            name: self.name@,
            slug: self.slug@,
            description: self.description@,
        }
    }
}

impl Clone for ForumCategory {
    fn clone(&self) -> (res: Self)
        ensures
            res == *self,
    {
        ForumCategory {
            id: self.id,
            name: self.name.clone(),
            slug: self.slug.clone(),
            description: self.description.clone(),
        }
    }
}

/// A thread, with its author and the number of replies it has drawn.
#[derive(Debug)]
pub struct Thread {
    pub id: i64,
    pub category_id: i64,
    pub user: User,
    pub title: String,
    pub body: String,
    pub created_at: String,
    pub reply_count: i64,
}

pub struct ThreadView {
    pub id: int,
    pub category_id: int,
    pub user: UserView,
    pub title: Seq<char>,
    pub body: Seq<char>,
    pub created_at: Seq<char>,
    pub reply_count: int,
}

impl View for Thread {
    type V = ThreadView;

    open spec fn view(&self) -> ThreadView {
        ThreadView {
            id: self.id as int,
            category_id: self.category_id as int,
            user: self.user@,
            title: self.title@,
            body: self.body@,
            created_at: self.created_at@,
            reply_count: self.reply_count as int,
        }
    }
}

impl Clone for Thread {
    fn clone(&self) -> (res: Self)
        ensures
            res == *self,
    {
        Thread {
            id: self.id,
            category_id: self.category_id,
            user: self.user.clone(),
            title: self.title.clone(),
            body: self.body.clone(),
            created_at: self.created_at.clone(),
            reply_count: self.reply_count,
        }
    }
}

/// The request to open a thread.
#[derive(Debug)]
pub struct CreateThread {
    pub category_slug: String,
    pub title: String,
    pub body: String,
}

impl Clone for CreateThread {
    fn clone(&self) -> (res: Self)
        ensures
            res == *self,
    {
        CreateThread {
            category_slug: self.category_slug.clone(),
            title: self.title.clone(),
            body: self.body.clone(),
        }
    }
}

/// A reply in a thread, with its author and its current score.
#[derive(Debug)]
pub struct Reply {
    pub id: i64,
    pub thread_id: i64,
    pub user: User,
    pub body: String,
    pub created_at: String,
    pub vote_count: i64,
}

pub struct ReplyView {
    pub id: int,
    pub thread_id: int,
    pub user: UserView,
    pub body: Seq<char>,
    pub created_at: Seq<char>,
    pub vote_count: int,
}

impl View for Reply {
    type V = ReplyView;

    open spec fn view(&self) -> ReplyView {
        ReplyView {
            id: self.id as int,
            thread_id: self.thread_id as int,
            user: self.user@,
            body: self.body@,
            created_at: self.created_at@,
            vote_count: self.vote_count as int,
        }
    }
}

impl Clone for Reply {
    fn clone(&self) -> (res: Self)
        ensures
            res == *self,
    {
        Reply {
            id: self.id,
            thread_id: self.thread_id,
            user: self.user.clone(),
            body: self.body.clone(),
            created_at: self.created_at.clone(),
            vote_count: self.vote_count,
        }
    }
}

/// The request to reply in a thread.
#[derive(Debug)]
pub struct CreateReply {
    pub body: String,
}

impl Clone for CreateReply {
    fn clone(&self) -> (res: Self)
        ensures
            res == *self,
    {
        CreateReply { body: self.body.clone() }
    }
}

/// One page out of a longer listing.
#[derive(Debug)]
pub struct Paginated<T> {
    pub items: Vec<T>,
    pub total: i64,
    pub page: i64,
    pub per_page: i64,
}

/// What a `Paginated` holds, as mathematical values.
pub struct PaginatedView<V> {
    pub items: Seq<V>,
    pub total: int,
    pub page: int,
    pub per_page: int,
}

impl<T: View> View for Paginated<T> {
    type V = PaginatedView<T::V>;

    open spec fn view(&self) -> PaginatedView<T::V> {
        PaginatedView {
            items: self.items@.map_values(|t: T| t@),
            total: self.total as int,
            page: self.page as int,
            per_page: self.per_page as int,
        }
    }
}

// ── Repository statistics ──

/// Figures about a source repository.
#[derive(Debug)]
pub struct GitHubStats {
    pub commits: i64,
    pub lines_of_code: i64,
    pub crate_count: i64,
    pub stars: i64,
    pub forks: i64,
    pub open_issues: i64,
    pub last_push: String,
}

pub struct GitHubStatsView {
    pub commits: int,
    pub lines_of_code: int,
    pub crate_count: int,
    pub stars: int,
    pub forks: int,
    pub open_issues: int,
    pub last_push: Seq<char>,
}

impl View for GitHubStats {
    type V = GitHubStatsView;

    open spec fn view(&self) -> GitHubStatsView {
        GitHubStatsView {
            commits: self.commits as int,
            lines_of_code: self.lines_of_code as int,
            crate_count: self.crate_count as int,
            stars: self.stars as int,
            forks: self.forks as int,
            open_issues: self.open_issues as int,
            last_push: self.last_push@,
        }
    }
}

impl Clone for GitHubStats {
    fn clone(&self) -> (res: Self)
        ensures
            res == *self,
    {
        GitHubStats {
            commits: self.commits,
            lines_of_code: self.lines_of_code,
            crate_count: self.crate_count,
            stars: self.stars,
            forks: self.forks,
            open_issues: self.open_issues,
            last_push: self.last_push.clone(),
        }
    }
}

} // verus!
