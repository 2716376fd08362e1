//! The users known to the service, keyed by the identity provider's identifier.

use vstd::prelude::*;

use crate::error::ApiError;
use crate::shared::{User, UserView};

verus! {

/// A stored user.
#[derive(Debug)]
pub struct UserRow {
    pub id: i64,
    pub github_id: i64,
    pub username: String,
    pub avatar_url: String,
}

/// What a `UserRow` holds, as mathematical values.
pub struct UserRowView {
    pub id: int,
    pub github_id: int,
    pub username: Seq<char>,
    pub avatar_url: Seq<char>,
}

impl View for UserRow {
    type V = UserRowView;

    open spec fn view(&self) -> UserRowView {
        UserRowView {
            id: self.id as int,
            github_id: self.github_id as int,
            username: self.username@,
            avatar_url: self.avatar_url@,
        }
    }
}

impl Clone for UserRow {
    fn clone(&self) -> (res: Self)
        ensures
            res == *self,
    {
        UserRow {
            id: self.id,
            github_id: self.github_id,
            username: self.username.clone(),
            avatar_url: self.avatar_url.clone(),
        }
    }
}

impl UserRowView {
    /// The user as the service shows it.
    pub open spec fn user(self) -> UserView {
        UserView { id: self.id, username: self.username, avatar_url: self.avatar_url }
    }
}

/// The views of a run of stored users.
pub open spec fn user_row_views(rows: Seq<UserRow>) -> Seq<UserRowView> {
    rows.map_values(|r: UserRow| r@)
}

/// Some user has the identifier `id`.
pub open spec fn known(rows: Seq<UserRowView>, id: int) -> bool {
    exists|i: int| 0 <= i < rows.len() && (#[trigger] rows[i]).id == id
}

/// Where the user with the identifier `id` stands.
pub open spec fn user_index(rows: Seq<UserRowView>, id: int) -> int {
    choose|i: int| 0 <= i < rows.len() && (#[trigger] rows[i]).id == id
}

/// The user with the identifier `id`, if there is one.
pub open spec fn user_with(rows: Seq<UserRowView>, id: int) -> Option<UserView> {
    if known(rows, id) {
        Some(rows[user_index(rows, id)].user())
    } else {
        None
    }
}

/// Some user was registered under the provider's identifier `github_id`.
pub open spec fn registered(rows: Seq<UserRowView>, github_id: int) -> bool {
    exists|i: int| 0 <= i < rows.len() && (#[trigger] rows[i]).github_id == github_id
}

/// Where the user registered under `github_id` stands.
pub open spec fn registered_index(rows: Seq<UserRowView>, github_id: int) -> int {
    choose|i: int| 0 <= i < rows.len() && (#[trigger] rows[i]).github_id == github_id
}

/// Identifiers grow with the rows and stay within `last_id`, and no two users
/// share a provider identifier.
pub open spec fn users_wf(rows: Seq<UserRowView>, last_id: int) -> bool {
    &&& 0 <= last_id <= i64::MAX
    &&& rows.len() <= last_id
    &&& forall|i: int| 0 <= i < rows.len() ==> 1 <= (#[trigger] rows[i]).id <= last_id
    &&& forall|i: int, j: int|
        0 <= i < j < rows.len() ==> (#[trigger] rows[i]).id < (#[trigger] rows[j]).id
    &&& forall|i: int, j: int|
        0 <= i < j < rows.len() ==> (#[trigger] rows[i]).github_id != (#[trigger] rows[j]).github_id
}

/// The rows once the user registered under `github_id` has signed in with the
/// given name and picture: a known user is brought up to date in place, an
/// unknown one is added under `fresh_id`.
pub open spec fn rows_after_login(
    rows: Seq<UserRowView>,
    fresh_id: int,
    github_id: int,
    username: Seq<char>,
    avatar_url: Seq<char>,
) -> Seq<UserRowView> {
    if registered(rows, github_id) {
        let at = registered_index(rows, github_id);
        rows.update(at, UserRowView { username, avatar_url, ..rows[at] })
    } else {
        rows.push(UserRowView { id: fresh_id, github_id, username, avatar_url })
    }
}

/// The identifier under which the user registered under `github_id` is known
/// after signing in.
pub open spec fn id_after_login(rows: Seq<UserRowView>, fresh_id: int, github_id: int) -> int {
    if registered(rows, github_id) {
        rows[registered_index(rows, github_id)].id
    } else {
        fresh_id
    }
}

/// In a well-formed table an identifier stands at one place only.
pub proof fn lemma_user_index_unique(rows: Seq<UserRowView>, last_id: int, at: int)
    requires
        users_wf(rows, last_id),
        0 <= at < rows.len(),
    ensures
        known(rows, rows[at].id),
        user_index(rows, rows[at].id) == at,
        registered(rows, rows[at].github_id),
        registered_index(rows, rows[at].github_id) == at,
{
    let k = user_index(rows, rows[at].id);
    assert(0 <= k < rows.len() && rows[k].id == rows[at].id);
    if k < at {
        assert(rows[k].id < rows[at].id);
    } else if at < k {
        assert(rows[at].id < rows[k].id);
    }
    let g = registered_index(rows, rows[at].github_id);
    assert(0 <= g < rows.len() && rows[g].github_id == rows[at].github_id);
    if g < at {
        assert(rows[g].github_id != rows[at].github_id);
    } else if at < g {
        assert(rows[at].github_id != rows[g].github_id);
    }
}

/// A user who signs in again keeps the identifier, and everyone else is left
/// as they were.
pub proof fn law_login_keeps_identities(
    rows: Seq<UserRowView>,
    last_id: int,
    github_id: int,
    username: Seq<char>,
    avatar_url: Seq<char>,
    id: int,
)
    requires
        users_wf(rows, last_id),
        registered(rows, github_id) || last_id < i64::MAX,
    ensures
        ({
            let after = rows_after_login(rows, last_id + 1, github_id, username, avatar_url);
            let who = id_after_login(rows, last_id + 1, github_id);
            &&& users_wf(after, if registered(rows, github_id) { last_id } else { last_id + 1 })
            &&& user_with(after, who) == Some(UserView { id: who, username, avatar_url })
            &&& known(rows, id) ==> known(after, id)
            &&& known(rows, id) && id != who ==> user_with(after, id) == user_with(rows, id)
        }),
{
    let after = rows_after_login(rows, last_id + 1, github_id, username, avatar_url);
    let who = id_after_login(rows, last_id + 1, github_id);
    let new_last = if registered(rows, github_id) {
        last_id
    } else {
        last_id + 1
    };
    if registered(rows, github_id) {
        let at = registered_index(rows, github_id);
        assert forall|i: int| 0 <= i < after.len() implies 1 <= (#[trigger] after[i]).id
            <= new_last by {
            assert(after[i].id == rows[i].id);
        }
        assert forall|i: int, j: int| 0 <= i < j < after.len() implies (#[trigger] after[i]).id < (
        #[trigger] after[j]).id && after[i].github_id != after[j].github_id by {
            assert(rows[i].id < rows[j].id);
            assert(rows[i].github_id != rows[j].github_id);
        }
        lemma_user_index_unique(after, new_last, at);
        if known(rows, id) {
            let k = user_index(rows, id);
            assert(after[k].id == id);
            lemma_user_index_unique(after, new_last, k);
        }
    } else {
        assert forall|i: int| 0 <= i < after.len() implies 1 <= (#[trigger] after[i]).id
            <= new_last by {
            if i < rows.len() {
                assert(after[i].id == rows[i].id);
            }
        }
        assert forall|i: int, j: int| 0 <= i < j < after.len() implies (#[trigger] after[i]).id < (
        #[trigger] after[j]).id && after[i].github_id != after[j].github_id by {
            assert(after[i] == rows[i]);
            if j < rows.len() {
                assert(after[j] == rows[j]);
            }
        }
        lemma_user_index_unique(after, new_last, rows.len() as int);
        if known(rows, id) {
            let k = user_index(rows, id);
            assert(after[k] == rows[k]);
            lemma_user_index_unique(after, new_last, k);
        }
    }
}

/// The table of users.
pub struct Users {
    rows: Vec<UserRow>,
    last_id: i64,
}

impl View for Users {
    type V = Seq<UserRowView>;

    /// The stored users, in the order of their identifiers.
    closed spec fn view(&self) -> Seq<UserRowView> {
        user_row_views(self.rows@)
    }
}

impl Users {
    /// The highest identifier handed out so far.
    pub closed spec fn last_id(&self) -> int {
        self.last_id as int
    }

    /// The table's invariant.
    pub open spec fn wf(&self) -> bool {
        users_wf(self@, self.last_id())
    }

    /// An empty table.
    pub fn new() -> (users: Self)
        ensures
            users.wf(),
            users@ == Seq::<UserRowView>::empty(),
            users.last_id() == 0,
    {
        let users = Users { rows: Vec::new(), last_id: 0 };
        assert(users@ =~= Seq::<UserRowView>::empty());
        users
    }

    /// A copy of the stored users.
    pub fn rows(&self) -> (rows: Vec<UserRow>)
        ensures
            user_row_views(rows@) == self@,
    {
        let mut out: Vec<UserRow> = Vec::new();
        let mut i: usize = 0;
        while i < self.rows.len()
            invariant
                i <= self.rows.len(),
                out@ == self.rows@.take(i as int),
            decreases self.rows.len() - i,
        {
            out.push(self.rows[i].clone());
            assert(self.rows@.take(i + 1) =~= self.rows@.take(i as int).push(self.rows@[i as int]));
            i += 1;
        }
        assert(self.rows@.take(i as int) =~= self.rows@);
        out
    }

    /// The user with the identifier `id`, if there is one.
    pub fn get(&self, id: i64) -> (user: Option<User>)
        requires
            self.wf(),
        ensures
            match user {
                Some(u) => user_with(self@, id as int) == Some(u@),
                None => user_with(self@, id as int) is None,
            },
    {
        let mut i: usize = 0;
        while i < self.rows.len()
            invariant
                i <= self.rows.len(),
                self.wf(),
                forall|k: int| 0 <= k < i ==> (#[trigger] self@[k]).id != id,
            decreases self.rows.len() - i,
        {
            let row = &self.rows[i];
            if row.id == id {
                proof {
                    lemma_user_index_unique(self@, self.last_id(), i as int);
                }
                return Some(
                    User {
                        id: row.id,
                        username: row.username.clone(),
                        avatar_url: row.avatar_url.clone(),
                    },
                );
            }
            i += 1;
        }
        None
    }

    /// Whether some user has the identifier `id`.
    pub fn knows(&self, id: i64) -> (b: bool)
        requires
            self.wf(),
        ensures
            b == known(self@, id as int),
    {
        let mut i: usize = 0;
        while i < self.rows.len()
            invariant
                i <= self.rows.len(),
                forall|k: int| 0 <= k < i ==> (#[trigger] self@[k]).id != id,
            decreases self.rows.len() - i,
        {
            if self.rows[i].id == id {
                assert(self@[i as int].id == id);
                return true;
            }
            i += 1;
        }
        false
    }

    /// Takes in a user that was stored before, if the identifier lies beyond
    /// all that this table has handed out and nobody is registered under the
    /// same provider identifier; any other user is turned away and the table
    /// stays as it is.
    pub fn restore(&mut self, row: UserRow) -> (accepted: bool)
        requires
            old(self).wf(),
        ensures
            final(self).wf(),
            accepted == (old(self).last_id() < row.id && !registered(
                old(self)@,
                row.github_id as int,
            )),
            accepted ==> final(self).last_id() == row.id && final(self)@ == old(self)@.push(row@),
            !accepted ==> final(self).last_id() == old(self).last_id() && final(self)@ == old(
                self,
            )@,
    {
        if row.id <= self.last_id {
            return false;
        }
        let mut i: usize = 0;
        while i < self.rows.len()
            invariant
                i <= self.rows.len(),
                self.wf(),
                *self == *old(self),
                forall|k: int| 0 <= k < i ==> (#[trigger] self@[k]).github_id != row.github_id,
            decreases self.rows.len() - i,
        {
            if self.rows[i].github_id == row.github_id {
                assert(self@[i as int].github_id == row.github_id);
                return false;
            }
            i += 1;
        }
        let ghost before = self.rows@;
        let ghost old_rows = self@;
        self.last_id = row.id;
        self.rows.push(row);
        proof {
            assert(self@ =~= user_row_views(before).push(row@));
            assert forall|i: int| 0 <= i < self@.len() implies 1 <= (#[trigger] self@[i]).id
                <= row.id by {
                if i < old_rows.len() {
                    assert(self@[i] == old_rows[i]);
                }
            }
            assert forall|i: int, j: int| 0 <= i < j < self@.len() implies (#[trigger] self@[i]).id
                < (#[trigger] self@[j]).id && self@[i].github_id != self@[j].github_id by {
                assert(self@[i] == old_rows[i]);
                if j < old_rows.len() {
                    assert(self@[j] == old_rows[j]);
                }
            }
        }
        true
    }

    /// Records a sign-in of the user whom the identity provider knows as
    /// `github_id`: a known user gets the new name and picture, an unknown one
    /// is added. Returns the user's identifier here.
    ///
    /// A new user is refused as an internal failure once the identifiers are
    /// used up.
    pub fn upsert(&mut self, github_id: i64, username: &str, avatar_url: &str) -> (result: Result<
        i64,
        ApiError,
    >)
        requires
            old(self).wf(),
        ensures
            final(self).wf(),
            !registered(old(self)@, github_id as int) && old(self).last_id() == i64::MAX
                ==> result == Err::<i64, ApiError>(ApiError::Internal),
            registered(old(self)@, github_id as int) || old(self).last_id() < i64::MAX
                ==> result is Ok,
            result is Err ==> final(self)@ == old(self)@ && final(self).last_id() == old(
                self,
            ).last_id(),
            result matches Ok(id) ==> {
                &&& final(self)@ == rows_after_login(
                    old(self)@,
                    old(self).last_id() + 1,
                    github_id as int,
                    username@,
                    avatar_url@,
                )
                &&& id == id_after_login(old(self)@, old(self).last_id() + 1, github_id as int)
                &&& final(self).last_id() == if registered(old(self)@, github_id as int) {
                    old(self).last_id()
                } else {
                    old(self).last_id() + 1
                }
            },
    {
        let mut i: usize = 0;
        while i < self.rows.len()
            invariant
                i <= self.rows.len(),
                self.wf(),
                *self == *old(self),
                forall|k: int| 0 <= k < i ==> (#[trigger] self@[k]).github_id != github_id,
            decreases self.rows.len() - i,
        {
            if self.rows[i].github_id == github_id {
                proof {
                    lemma_user_index_unique(self@, self.last_id(), i as int);
                    law_login_keeps_identities(
                        self@,
                        self.last_id(),
                        github_id as int,
                        username@,
                        avatar_url@,
                        0,
                    );
                }
                let ghost before = self.rows@;
                let id = self.rows[i].id;
                let row = UserRow {
                    id,
                    github_id,
                    username: username.to_owned(),
                    avatar_url: avatar_url.to_owned(),
                };
                self.rows.set(i, row);
                assert(self@ =~= user_row_views(before).update(
                    i as int,
                    UserRowView {
                        username: username@,
                        avatar_url: avatar_url@,
                        ..user_row_views(before)[i as int]
                    },
                ));
                return Ok(id);
            }
            i += 1;
        }
        if self.last_id == i64::MAX {
            return Err(ApiError::Internal);
        }
        proof {
            law_login_keeps_identities(
                self@,
                self.last_id(),
                github_id as int,
                username@,
                avatar_url@,
                0,
            );
        }
        let ghost before = self.rows@;
        self.last_id = self.last_id + 1;
        let id = self.last_id;
        self.rows.push(
            UserRow {
                id,
                github_id,
                username: username.to_owned(),
                avatar_url: avatar_url.to_owned(),
            },
        );
        assert(self@ =~= user_row_views(before).push(
            UserRowView {
                id: id as int,
                github_id: github_id as int,
                username: username@,
                avatar_url: avatar_url@,
            },
        ));
        Ok(id)
    }
}

} // verus!
