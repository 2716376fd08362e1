//! The store: every table of the service, with the state they make up together.

use vstd::prelude::*;

use crate::comments::{CommentRow, CommentRowView};
use crate::forum::{Categories, ReplyRow, ReplyRowView, ThreadRow, ThreadRowView, seed_categories};
use crate::shared::ForumCategoryView;
use crate::table::{Table, table_wf};
use crate::users::{UserRowView, Users, users_wf};
use crate::votes::{VoteLedger, VoteView, rows_wf};

verus! {

/// The store.
pub struct Database {
    pub users: Users,
    pub comments: Table<CommentRow>,
    pub votes: VoteLedger,
    pub categories: Categories,
    pub threads: Table<ThreadRow>,
    pub replies: Table<ReplyRow>,
}

/// What the store holds, as mathematical values: the rows of each table and
/// the highest identifier that each has handed out.
pub struct DbView {
    pub users: Seq<UserRowView>,
    pub last_user_id: int,
    pub comments: Seq<CommentRowView>,
    pub last_comment_id: int,
    pub votes: Seq<VoteView>,
    pub last_vote_id: int,
    pub categories: Seq<ForumCategoryView>,
    pub threads: Seq<ThreadRowView>,
    pub last_thread_id: int,
    pub replies: Seq<ReplyRowView>,
    pub last_reply_id: int,
}

impl DbView {
    /// The invariant of the store: that of each of its tables.
    pub open spec fn wf(self) -> bool {
        &&& users_wf(self.users, self.last_user_id)
        &&& table_wf::<CommentRow>(self.comments, self.last_comment_id)
        &&& rows_wf(self.votes, self.last_vote_id)
        &&& (self.categories == Seq::<ForumCategoryView>::empty() || self.categories
            == seed_categories())
        &&& table_wf::<ThreadRow>(self.threads, self.last_thread_id)
        &&& table_wf::<ReplyRow>(self.replies, self.last_reply_id)
    }
}

impl View for Database {
    type V = DbView;

    open spec fn view(&self) -> DbView {
        DbView {
            users: self.users@,
            last_user_id: self.users.last_id(),
            comments: self.comments@,
            last_comment_id: self.comments.last_id(),
            votes: self.votes@,
            last_vote_id: self.votes.last_id(),
            categories: self.categories@,
            threads: self.threads@,
            last_thread_id: self.threads.last_id(),
            replies: self.replies@,
            last_reply_id: self.replies.last_id(),
        }
    }
}

/// The store before anything was put into it.
pub open spec fn empty_db() -> DbView {
    DbView {
        users: Seq::empty(),
        last_user_id: 0,
        comments: Seq::empty(),
        last_comment_id: 0,
        votes: Seq::empty(),
        last_vote_id: 0,
        categories: Seq::empty(),
        threads: Seq::empty(),
        last_thread_id: 0,
        replies: Seq::empty(),
        last_reply_id: 0,
    }
}

impl Database {
    /// The store's invariant.
    pub open spec fn wf(&self) -> bool {
        self@.wf()
    }

    /// An empty store.
    pub fn new() -> (db: Self)
        ensures
            db.wf(),
            db@ == empty_db(),
    {
        Database {
            users: Users::new(),
            comments: Table::new(),
            votes: VoteLedger::new(),
            categories: Categories::new(),
            threads: Table::new(),
            replies: Table::new(),
        }
    }
}

/// Brings a store to where the service can start: the three default
/// categories are there afterwards, and nothing else has changed. Running it
/// again changes nothing.
pub fn run_migrations(db: &mut Database)
    requires
        old(db).wf(),
    ensures
        final(db).wf(),
        final(db)@ == (DbView { categories: seed_categories(), ..old(db)@ }),
{
    db.categories.seed();
}

} // verus!
