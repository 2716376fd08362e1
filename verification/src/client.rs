//! What the browser widget decides on its own: where to send requests, what
//! to show before the server has answered, and how to write numbers.

use vstd::prelude::*;
use vstd::wrapping::i64_specs;

use crate::pagination::PER_PAGE;
use crate::scan::{decimal, decimal_spec};
use crate::shared::{Comment, User, UserView};
use crate::state::opt_string;
use crate::text::{blank, from_chars, is_blank, push_chars};
use crate::votes::{
    VoteView,
    law_cast_sets_the_personal_vote,
    lemma_tally_remove,
    lemma_tally_update,
    personal_vote,
    rows_after_cast,
    rows_wf,
    tally,
    valid_value,
    vote_after,
    vote_index,
};

verus! {

// ── The session ──

/// The widget's session: the token it holds and, once the service has told
/// who the token speaks for, the user.
#[derive(Debug)]
pub struct AuthState {
    pub user: Option<User>,
    pub token: Option<String>,
}

/// What a session holds, as mathematical values.
pub struct AuthStateView {
    pub user: Option<UserView>,
    pub token: Option<Seq<char>>,
}

impl View for AuthState {
    type V = AuthStateView;

    open spec fn view(&self) -> AuthStateView {
        AuthStateView {
            user: match self.user {
                Some(user) => Some(user@),
                None => None,
            },
            token: opt_string(self.token),
        }
    }
}

impl Clone for AuthState {
    fn clone(&self) -> (res: Self)
        ensures
            res == *self,
    {
        AuthState { user: self.user.clone(), token: self.token.clone() }
    }
}

impl AuthState {
    /// The session with which the widget starts: it holds the token that the
    /// page's address brought back from a sign-in, or else the token that was
    /// stored before, and does not know the user yet.
    pub fn start(from_address: Option<String>, stored: Option<String>) -> (session: Self)
        ensures
            session@.user is None,
            session@.token == match from_address {
                Some(token) => Some(token@),
                None => opt_string(stored),
            },
    {
        let token = match from_address {
            Some(token) => Some(token),
            None => stored,
        };
        AuthState { user: None, token }
    }

    /// Whether the session holds a token.
    pub fn is_logged_in(&self) -> (b: bool)
        ensures
            b == self@.token is Some,
    {
        self.token.is_some()
    }

    /// The service has told who the token speaks for.
    pub fn profile_loaded(&mut self, user: User)
        ensures
            final(self)@ == (AuthStateView { user: Some(user@), ..old(self)@ }),
    {
        self.user = Some(user);
    }

    /// The service has turned the token down, or the user has signed out:
    /// the session forgets the token and the user.
    pub fn clear(&mut self)
        ensures
            final(self)@ == (AuthStateView { user: None, token: None }),
    {
        self.token = None;
        self.user = None;
    }
}

/// The page's address once the token has been taken out of it: the path,
/// followed by what is left of the query, if anything is left.
pub fn address_without_token(path: &str, remaining_query: &str) -> (address: String)
    ensures
        address@ == if remaining_query@.len() == 0 {
            path@
        } else {
            path@ + "?"@ + remaining_query@
        },
{
    let mut address = path.to_owned();
    if remaining_query.unicode_len() > 0 {
        address.append("?");
        address.append(remaining_query);
    }
    address
}

// ── Requests ──

/// Whether a token is stored.
pub fn has_token(stored: Option<&str>) -> (b: bool)
    ensures
        b == stored is Some,
{
    stored.is_some()
}

/// The address of the service where the page names none.
pub open spec fn default_api_base() -> Seq<char> {
    "http://localhost:8080"@
}

/// The address of the service: the one that the page names, unless it names
/// none or an empty one.
pub fn api_base(named: Option<&str>) -> (base: String)
    ensures
        base@ == match named {
            Some(url) => if url@.len() > 0 {
                url@
            } else {
                default_api_base()
            },
            None => default_api_base(),
        },
{
    match named {
        Some(url) => {
            if url.unicode_len() > 0 {
                return url.to_owned();
            }
        },
        None => {},
    }
    "http://localhost:8080".to_owned()
}

/// The address of a request: the path behind the address of the service.
pub fn request_url(base: &str, path: &str) -> (url: String)
    ensures
        url@ == base@ + path@,
{
    let mut url = base.to_owned();
    url.append(path);
    url
}

/// The message for an answer that is no success.
pub fn api_error(status: u16) -> (message: String)
    ensures
        message@ == "API error: "@ + decimal_spec(status as int),
{
    let number = decimal(status as i64);
    let mut message = "API error: ".to_owned();
    push_chars(&mut message, &number, 0, number.len());
    assert(number@.subrange(0, number.len() as int) =~= number@);
    message
}

// ── Votes ──

/// By how much a cast of `value` moves the score of its target, given the
/// caster's vote so far.
pub open spec fn vote_delta(previous: Option<int>, value: int) -> int {
    match previous {
        Some(v) => if v == value {
            -value
        } else {
            value - v
        },
        None => value,
    }
}

/// A score brought into the range of the numbers that can be shown.
pub open spec fn shown(score: int) -> int {
    if score > i64::MAX {
        i64::MAX as int
    } else if score < i64::MIN {
        i64::MIN as int
    } else {
        score
    }
}

/// What an `Option<i32>` holds, as a mathematical value.
pub open spec fn opt_vote(v: Option<i32>) -> Option<int> {
    match v {
        Some(x) => Some(x as int),
        None => None,
    }
}

/// What to show right after a click, before the server has answered: the
/// score moved by what the cast will do to it, and the personal vote that the
/// cast will leave.
pub fn optimistic_vote(count: i64, previous: Option<i32>, value: i32) -> (shown_now: (
    i64,
    Option<i32>,
))
    ensures
        shown_now.0 == shown(count + vote_delta(opt_vote(previous), value as int)),
        opt_vote(shown_now.1) == vote_after(opt_vote(previous), value as int),
{
    let delta: i128 = match previous {
        Some(v) => if v == value {
            -(value as i128)
        } else {
            value as i128 - v as i128
        },
        None => value as i128,
    };
    let moved: i128 = count as i128 + delta;
    let score: i64 = if moved > i64::MAX as i128 {
        i64::MAX
    } else if moved < i64::MIN as i128 {
        i64::MIN
    } else {
        moved as i64
    };
    let vote = match previous {
        Some(v) => if v == value {
            None
        } else {
            Some(value)
        },
        None => Some(value),
    };
    (score, vote)
}

/// What the widget shows before the server answers is what the server will
/// answer, as long as the widget knew the score and the personal vote: the
/// ledger moves the score by the same amount and leaves the same personal
/// vote.
pub proof fn law_optimistic_vote_matches_ledger(
    rows: Seq<VoteView>,
    last_id: int,
    fresh_id: int,
    user_id: int,
    target_type: Seq<char>,
    target_id: int,
    value: int,
    now: Seq<char>,
)
    requires
        rows_wf(rows, last_id),
        valid_value(value),
    ensures
        ({
            let previous = personal_vote(rows, user_id, target_type, target_id);
            let after = rows_after_cast(
                rows,
                fresh_id,
                user_id,
                target_type,
                target_id,
                value,
                now,
            );
            &&& tally(after, target_type, target_id) == tally(rows, target_type, target_id)
                + vote_delta(previous, value)
            &&& personal_vote(after, user_id, target_type, target_id) == vote_after(
                previous,
                value,
            )
        }),
{
    law_cast_sets_the_personal_vote(
        rows,
        last_id,
        fresh_id,
        user_id,
        target_type,
        target_id,
        value,
        now,
    );
    let previous = personal_vote(rows, user_id, target_type, target_id);
    let at = vote_index(rows, user_id, target_type, target_id);
    match previous {
        None => {
            let after = rows_after_cast(
                rows,
                fresh_id,
                user_id,
                target_type,
                target_id,
                value,
                now,
            );
            assert(after.drop_last() =~= rows);
        },
        Some(v) => {
            if v == value {
                lemma_tally_remove(rows, at, target_type, target_id);
            } else {
                lemma_tally_update(
                    rows,
                    at,
                    VoteView { value, ..rows[at] },
                    target_type,
                    target_id,
                );
            }
        },
    }
}

/// The hash of a run of bytes: each byte is added to 31 times the hash of
/// the bytes before it, in 64-bit arithmetic that wraps around.
pub open spec fn bytes_hash(bytes: Seq<u8>) -> i64
    decreases bytes.len(),
{
    if bytes.len() == 0 {
        0
    } else {
        i64_specs::wrapping_add(
            i64_specs::wrapping_mul(bytes_hash(bytes.drop_last()), 31),
            bytes.last() as i64,
        )
    }
}

/// The target under which the votes on a post are kept: the magnitude of the
/// hash of the bytes of the post's slug. The one hash that has no magnitude
/// among the 64-bit numbers stands for itself.
pub open spec fn post_target_spec(slug: Seq<char>) -> int {
    let hash = bytes_hash(vstd::utf8::encode_utf8(slug));
    if hash < 0 && hash != i64::MIN {
        -hash
    } else {
        hash as int
    }
}

/// The target under which the votes on the post `slug` are kept.
pub fn post_target_id(slug: &str) -> (id: i64)
    ensures
        id == post_target_spec(slug@),
{
    let bytes = slug.as_bytes();
    let mut hash: i64 = 0;
    let mut i: usize = 0;
    while i < bytes.len()
        invariant
            i <= bytes.len(),
            bytes@ == vstd::utf8::encode_utf8(slug@),
            hash == bytes_hash(bytes@.take(i as int)),
        decreases bytes.len() - i,
    {
        proof {
            assert(bytes@.take(i + 1).drop_last() =~= bytes@.take(i as int));
            assert(bytes@.take(i + 1).last() == bytes@[i as int]);
        }
        hash = hash.wrapping_mul(31).wrapping_add(bytes[i] as i64);
        i += 1;
    }
    proof {
        assert(bytes@.take(i as int) =~= bytes@);
    }
    if hash < 0 && hash != i64::MIN {
        -hash
    } else {
        hash
    }
}

// ── Listings ──

/// Whether there is a page before `page`.
pub fn has_prev_page(page: i64) -> (b: bool)
    ensures
        b == (page > 1),
{
    page > 1
}

/// Whether there is a page after `page` in a listing of `total` items.
pub fn has_next_page(page: i64, total: i64) -> (b: bool)
    ensures
        b == (page * PER_PAGE < total),
{
    (page as i128) * (PER_PAGE as i128) < total as i128
}

/// Whether a text may be sent as a comment: not if it is blank.
pub fn can_submit(text: &str) -> (b: bool)
    ensures
        b == !blank(text@),
{
    !is_blank(text)
}

/// Whether the viewer wrote the comment.
pub fn is_own_comment(viewer: Option<&User>, comment: &Comment) -> (b: bool)
    ensures
        b == (viewer matches Some(user) && user.id == comment.user.id),
{
    match viewer {
        Some(user) => user.id == comment.user.id,
        None => false,
    }
}

// ── Numbers ──

/// A number of lines as the widget writes it: in thousands, rounded down and
/// marked `K`, from a thousand on.
pub open spec fn format_lines_spec(lines: int) -> Seq<char> {
    if lines >= 1000 {
        decimal_spec(lines / 1000) + "K"@
    } else {
        decimal_spec(lines)
    }
}

/// Writes a number of lines.
pub fn format_lines(lines: i64) -> (text: String)
    ensures
        text@ == format_lines_spec(lines as int),
{
    if lines >= 1000 {
        let mut text = from_chars(&decimal(lines / 1000));
        text.append("K");
        text
    } else {
        from_chars(&decimal(lines))
    }
}

/// A number with a comma before its last three characters, where it has more
/// than three.
pub open spec fn grouped_spec(n: int) -> Seq<char> {
    let written = decimal_spec(n);
    if written.len() > 3 {
        written.take(written.len() - 3) + ","@ + written.skip(written.len() - 3)
    } else {
        written
    }
}

/// Writes a number with a comma that sets off its thousands.
pub fn group_thousands(n: i64) -> (text: String)
    ensures
        text@ == grouped_spec(n as int),
{
    let written = decimal(n);
    let len = written.len();
    if len > 3 {
        let mut text = String::new();
        push_chars(&mut text, &written, 0, len - 3);
        text.append(",");
        push_chars(&mut text, &written, len - 3, len);
        assert(written@.subrange(0, len - 3) =~= written@.take(len - 3));
        assert(written@.subrange(len - 3, len as int) =~= written@.skip(len - 3));
        text
    } else {
        from_chars(&written)
    }
}

} // verus!
