//! Who is asking: bearer tokens, their issue and their check, and the
//! sign-in through the identity provider.

use std::time::{Duration, SystemTime, SystemTimeError, UNIX_EPOCH};

use vstd::prelude::*;

use crate::db::DbView;
use crate::error::ApiError;
use crate::sanitize::text_result_view;
use crate::shared::{User, UserView};
use crate::state::{AppState, AppStateView, opt_string, opt_text};
use crate::text::{contains_char, has_prefix, push_chars, starts_with, to_chars};
use crate::users::{id_after_login, registered, rows_after_login, user_with};

verus! {

// ── Claims ──

/// What a token asserts: the user it speaks for and the time, in seconds
/// since the Unix epoch, at which it stops being valid.
#[derive(Clone, Copy, Debug, PartialEq, Eq, Structural)]
pub struct Claims {
    pub sub: i64,
    pub exp: usize,
}

/// How long a token is valid: 30 days, in seconds.
pub const TOKEN_LIFETIME: usize = 2_592_000;

/// The expiry of a token issued at `now`: 30 days later, or the largest time
/// that can be written where that lies beyond it.
pub open spec fn expiry_spec(now: int) -> int {
    if now + TOKEN_LIFETIME <= usize::MAX {
        now + TOKEN_LIFETIME
    } else {
        usize::MAX as int
    }
}

/// The expiry of a token issued at `now`, both in seconds since the Unix epoch.
pub fn expiry_after(now: u64) -> (exp: usize)
    ensures
        exp == expiry_spec(now as int),
{
    if now > usize::MAX as u64 - TOKEN_LIFETIME as u64 {
        usize::MAX
    } else {
        now as usize + TOKEN_LIFETIME
    }
}

/// `SystemTime` of std: a reading of the system clock, carried through as it
/// is.
#[verifier::external_type_specification]
#[verifier::external_body]
pub struct ExSystemTime(SystemTime);

/// `SystemTimeError` of std: what asking for the time since a later moment
/// comes to.
#[verifier::external_type_specification]
#[verifier::external_body]
pub struct ExSystemTimeError(SystemTimeError);

/// `SystemTime::now` of std: the system clock's reading. Nothing is claimed
/// of it.
#[verifier::external_body]
fn clock() -> SystemTime {
    SystemTime::now()
}

/// `SystemTime::duration_since` of std, asked for the time since the Unix
/// epoch: an error where the clock stands before the epoch. Nothing is claimed
/// of the result.
#[verifier::external_body]
fn since_epoch(time: &SystemTime) -> Result<Duration, SystemTimeError> {
    time.duration_since(UNIX_EPOCH)
}

/// `Duration::as_secs` of std: the whole seconds of a duration. Nothing is
/// claimed of the result.
#[verifier::external_body]
fn whole_seconds(duration: &Duration) -> u64 {
    duration.as_secs()
}

/// The current time in seconds since the Unix epoch; 0 where the clock stands
/// before the epoch.
pub fn unix_now() -> u64 {
    match since_epoch(&clock()) {
        Ok(elapsed) => whole_seconds(&elapsed),
        Err(_) => 0,
    }
}

/// The expiry of a token that is issued now: 30 days from now.
pub fn chrono_like_exp() -> (exp: usize)
    ensures
        exists|now: u64| exp == expiry_spec(now as int),
{
    let now = unix_now();
    expiry_after(now)
}

impl Claims {
    /// The claims of a token that is issued at `now` for the user `user_id`.
    pub fn issued_at(user_id: i64, now: u64) -> (claims: Self)
        ensures
            claims == (Claims { sub: user_id, exp: expiry_spec(now as int) as usize }),
    {
        Claims { sub: user_id, exp: expiry_after(now) }
    }

    /// The claims of a token that is issued now for the user `user_id`: the
    /// token is valid for 30 days.
    pub fn new(user_id: i64) -> (claims: Self)
        ensures
            claims.sub == user_id,
            exists|now: u64| claims.exp == expiry_spec(now as int),
    {
        let exp = chrono_like_exp();
        Claims { sub: user_id, exp }
    }
}

// ── Tokens ──

/// What signing gives for the claims `sub` and `exp` under `secret`: the
/// compact form of the token, signed with HMAC-SHA256.
pub uninterp spec fn signed_token(sub: int, exp: int, secret: Seq<char>) -> Seq<char>;

/// `jsonwebtoken::errors::Error`: why a token could not be made or was not
/// accepted. Nothing is read out of it.
#[verifier::external_type_specification]
#[verifier::external_body]
pub struct ExTokenError(jsonwebtoken::errors::Error);

/// `jsonwebtoken::encode` with the default header (HS256) and a key made from
/// `secret` by `EncodingKey::from_secret`, on the claims `sub` and `exp`. The
/// call succeeds: it fails only where the key is of another family than the
/// header's algorithm, where a part cannot be written as JSON, or where the
/// signing itself fails, and an HMAC key under HS256 with two whole numbers
/// as claims meets none of these. The token depends on the claims and the
/// secret alone.
#[verifier::external_body]
fn encode_claims(claims: &Claims, secret: &str) -> (signed: Result<
    String,
    jsonwebtoken::errors::Error,
>)
    ensures
        signed is Ok,
        signed matches Ok(token) ==> token@ == signed_token(
            claims.sub as int,
            claims.exp as int,
            secret@,
        ),
{
    let mut body = serde_json::Map::new();
    body.insert("sub".to_string(), serde_json::Value::from(claims.sub));
    body.insert("exp".to_string(), serde_json::Value::from(claims.exp));
    let key = jsonwebtoken::EncodingKey::from_secret(secret.as_bytes());
    jsonwebtoken::encode(&jsonwebtoken::Header::default(), &body, &key)
}

/// `jsonwebtoken::decode` with the default validation (HS256, expiry checked
/// against the clock) and a key made from `secret` by
/// `DecodingKey::from_secret`: the claims `sub` and `exp` of a token that
/// passed, nothing for one that did not or that lacks either claim. The answer
/// depends on the time, so nothing is claimed of it.
#[verifier::external_body]
fn decode_claims(token: &str, secret: &str) -> Option<Claims> {
    let key = jsonwebtoken::DecodingKey::from_secret(secret.as_bytes());
    let checks = jsonwebtoken::Validation::default();
    let data = jsonwebtoken::decode::<serde_json::Value>(token, &key, &checks).ok()?;
    let sub = data.claims.get("sub")?.as_i64()?;
    let exp = data.claims.get("exp")?.as_u64()?;
    Some(Claims { sub, exp: usize::try_from(exp).ok()? })
}

/// Signs a token for `claims` under `secret`. Signing always succeeds.
pub fn sign_token(claims: &Claims, secret: &str) -> (result: Result<String, ApiError>)
    ensures
        result is Ok,
        result matches Ok(token) ==> token@ == signed_token(
            claims.sub as int,
            claims.exp as int,
            secret@,
        ),
{
    match encode_claims(claims, secret) {
        Ok(token) => Ok(token),
        Err(_) => Err(ApiError::Internal),
    }
}

/// The scheme word that precedes a token in an `Authorization` header.
pub open spec fn bearer_prefix() -> Seq<char> {
    "Bearer "@
}

/// The token that an `Authorization` header carries: what follows the word
/// `Bearer` and one space. A header that is missing or does not start so
/// carries none.
pub open spec fn bearer_token_spec(authorization: Option<Seq<char>>) -> Option<Seq<char>> {
    match authorization {
        Some(header) => if has_prefix(header, bearer_prefix()) {
            Some(header.skip(bearer_prefix().len() as int))
        } else {
            None
        },
        None => None,
    }
}

/// The token that an `Authorization` header carries, if it carries one.
pub fn bearer_token(authorization: Option<&str>) -> (token: Option<String>)
    ensures
        opt_string(token) == bearer_token_spec(opt_text(authorization)),
{
    match authorization {
        Some(header) => {
            let chars = to_chars(header);
            let prefix = to_chars("Bearer ");
            if starts_with(&chars, &prefix) {
                let mut token = String::new();
                push_chars(&mut token, &chars, prefix.len(), chars.len());
                assert(chars@.subrange(prefix.len() as int, chars.len() as int) =~= header@.skip(
                    bearer_prefix().len() as int,
                ));
                Some(token)
            } else {
                None
            }
        },
        None => None,
    }
}

/// The value of the `Authorization` header that carries `token`.
pub fn bearer_header(token: &str) -> (header: String)
    ensures
        header@ == bearer_prefix() + token@,
        bearer_token_spec(Some(header@)) == Some(token@),
{
    let mut header = "Bearer ".to_owned();
    header.append(token);
    assert(header@.subrange(0, bearer_prefix().len() as int) =~= bearer_prefix());
    assert(header@.skip(bearer_prefix().len() as int) =~= token@);
    header
}

/// What a resolved bearer holds, as a mathematical value.
pub open spec fn identity_view(identity: Result<i64, ApiError>) -> Result<int, ApiError> {
    match identity {
        Ok(user_id) => Ok(user_id as int),
        Err(e) => Err(e),
    }
}

/// What resolving the bearer of a request can come to: a request without a
/// bearer token is never let in, and whoever is not let in is turned away as
/// unauthenticated.
pub open spec fn admitted(
    authorization: Option<Seq<char>>,
    identity: Result<int, ApiError>,
) -> bool {
    &&& bearer_token_spec(authorization) is None ==> identity is Err
    &&& identity is Err ==> identity == Err::<int, ApiError>(ApiError::Unauthorized)
}

/// Whom checked claims speak for: the user they name, or no one where the
/// check failed.
pub fn user_of(decoded: Option<Claims>) -> (result: Result<i64, ApiError>)
    ensures
        result == match decoded {
            Some(claims) => Ok::<i64, ApiError>(claims.sub),
            None => Err::<i64, ApiError>(ApiError::Unauthorized),
        },
{
    match decoded {
        Some(claims) => Ok(claims.sub),
        None => Err(ApiError::Unauthorized),
    }
}

/// Resolves the bearer of a request: the user for whom the token in the
/// `Authorization` header was signed, if the token is genuine and not
/// expired. Everything else is an authentication failure: no header, no
/// bearer token in it, a token that was not signed with `jwt_secret`, one that
/// has expired.
pub fn extract_user_id(authorization: Option<&str>, jwt_secret: &str) -> (result: Result<
    i64,
    ApiError,
>)
    ensures
        admitted(opt_text(authorization), identity_view(result)),
{
    match bearer_token(authorization) {
        Some(token) => user_of(decode_claims(token.as_str(), jwt_secret)),
        None => Err(ApiError::Unauthorized),
    }
}

// ── Sign-in through the identity provider ──

/// The query of the sign-in redirect.
#[derive(Debug)]
pub struct LoginParams {
    pub redirect: Option<String>,
}

/// The query with which the identity provider calls back.
#[derive(Debug)]
pub struct CallbackParams {
    pub code: String,
    pub state: Option<String>,
}

/// A user as the identity provider describes them.
#[derive(Debug)]
pub struct GitHubUser {
    pub id: i64,
    pub login: String,
    pub avatar_url: String,
}

/// The bytes that percent-encoding leaves as they are: letters, digits and
/// `-`, `.`, `_`, `~`.
pub open spec fn unreserved(b: u8) -> bool {
    ||| 0x30 <= b <= 0x39
    ||| 0x41 <= b <= 0x5A
    ||| 0x61 <= b <= 0x7A
    ||| b == 0x2D
    ||| b == 0x2E
    ||| b == 0x5F
    ||| b == 0x7E
}

/// The upper-case hexadecimal digit for a value below 16.
pub open spec fn hex_digit(n: int) -> char {
    if n < 10 {
        (0x30 + n) as char
    } else {
        (0x41 + n - 10) as char
    }
}

/// One byte, percent-encoded.
pub open spec fn escaped(b: u8) -> Seq<char> {
    if unreserved(b) {
        seq![b as char]
    } else {
        seq!['%', hex_digit(b as int / 16), hex_digit(b as int % 16)]
    }
}

/// A run of bytes, percent-encoded.
pub open spec fn percent_encoded(bytes: Seq<u8>) -> Seq<char>
    decreases bytes.len(),
{
    if bytes.len() == 0 {
        Seq::empty()
    } else {
        percent_encoded(bytes.drop_last()) + escaped(bytes.last())
    }
}

/// `urlencoding::encode`: percent-encodes every byte of the text's UTF-8 form
/// but letters, digits and `-`, `.`, `_`, `~`, each as `%` and two upper-case
/// hexadecimal digits.
#[verifier::external_body]
fn url_encode(text: &str) -> (out: String)
    ensures
        out@ == percent_encoded(vstd::utf8::encode_utf8(text@)),
{
    urlencoding::encode(text).into_owned()
}

/// The address at the identity provider to which a sign-in is sent.
pub open spec fn login_url_spec(
    client_id: Seq<char>,
    api_url: Seq<char>,
    redirect_after: Seq<char>,
) -> Seq<char> {
    "https://github.com/login/oauth/authorize?client_id="@ + client_id + "&redirect_uri="@ + api_url
        + "/api/auth/callback&state="@ + percent_encoded(vstd::utf8::encode_utf8(redirect_after))
}

/// Where a sign-in returns to when it is done: the address that the request
/// names, or the site's own origin where it names none.
pub open spec fn return_address(wanted: Option<Seq<char>>, origin: Seq<char>) -> Seq<char> {
    match wanted {
        Some(address) => address,
        None => origin,
    }
}

/// Starts a sign-in: the address at the identity provider to send the browser
/// to. It carries the service's client identifier, the service's callback
/// address and, as the state, the address to return to afterwards.
pub fn github_login(state: &AppState, params: &LoginParams) -> (url: String)
    ensures
        url@ == login_url_spec(
            state@.github_client_id,
            state@.api_url,
            return_address(opt_string(params.redirect), state@.cors_origin),
        ),
{
    let encoded = match &params.redirect {
        Some(address) => url_encode(address.as_str()),
        None => url_encode(state.cors_origin.as_str()),
    };
    let mut url = "https://github.com/login/oauth/authorize?client_id=".to_owned();
    url.append(state.github_client_id.as_str());
    url.append("&redirect_uri=");
    url.append(state.api_url.as_str());
    url.append("/api/auth/callback&state=");
    url.append(encoded.as_str());
    url
}

/// The address to which a finished sign-in returns, with the token appended
/// as the query parameter `token`: behind `&` where the address has a query
/// already, behind `?` where it has none.
pub open spec fn token_redirect_spec(redirect_to: Seq<char>, token: Seq<char>) -> Seq<char> {
    redirect_to + (if redirect_to.contains('?') {
        "&"@
    } else {
        "?"@
    }) + "token="@ + token
}

/// The address to which a finished sign-in returns, with the token appended.
pub fn token_redirect(redirect_to: &str, token: &str) -> (url: String)
    ensures
        url@ == token_redirect_spec(redirect_to@, token@),
{
    let chars = to_chars(redirect_to);
    let mut url = redirect_to.to_owned();
    if contains_char(&chars, '?') {
        url.append("&");
    } else {
        url.append("?");
    }
    url.append("token=");
    url.append(token);
    url
}

/// What a finished sign-in does to the store: the user is added or brought up
/// to date.
pub open spec fn db_after_login(db: DbView, profile: GitHubUser) -> DbView {
    DbView {
        users: rows_after_login(
            db.users,
            db.last_user_id + 1,
            profile.id as int,
            profile.login@,
            profile.avatar_url@,
        ),
        last_user_id: if registered(db.users, profile.id as int) {
            db.last_user_id
        } else {
            db.last_user_id + 1
        },
        ..db
    }
}

/// The address that answers a sign-in finished at `now`: the address to
/// return to, with a token appended that was signed for the user and expires
/// 30 days after `now`.
pub open spec fn sign_in_answer(
    before: AppStateView,
    profile: GitHubUser,
    wanted: Option<Seq<char>>,
    now: int,
) -> Seq<char> {
    token_redirect_spec(
        return_address(wanted, before.cors_origin),
        signed_token(
            id_after_login(before.db.users, before.db.last_user_id + 1, profile.id as int),
            expiry_spec(now),
            before.jwt_secret,
        ),
    )
}

/// Whether the user whom the identity provider described can be signed in:
/// always where they have signed in before, and the first time as long as
/// identifiers are left.
pub open spec fn can_sign_in(db: DbView, profile: GitHubUser) -> bool {
    registered(db.users, profile.id as int) || db.last_user_id < i64::MAX
}

/// What finishing a sign-in at `now` does to the state and what it answers:
/// the user is added or brought up to date and the answer is the address to
/// return to, with a token for them appended; or, where a new user cannot be
/// given an identifier any more, nothing changes and the answer is an internal
/// failure.
pub open spec fn sign_in_spec(
    before: AppStateView,
    profile: GitHubUser,
    wanted: Option<Seq<char>>,
    now: int,
) -> (AppStateView, Result<Seq<char>, ApiError>) {
    if can_sign_in(before.db, profile) {
        (
            AppStateView { db: db_after_login(before.db, profile), ..before },
            Ok(sign_in_answer(before, profile, wanted, now)),
        )
    } else {
        (before, Err(ApiError::Internal))
    }
}

/// What finishing a sign-in comes to, given what asking the identity provider
/// for the user came to: where the provider could not be reached or answered
/// nonsense, nothing changes and the answer is an upstream failure.
pub open spec fn github_callback_spec(
    before: AppStateView,
    fetched: Result<GitHubUser, String>,
    wanted: Option<Seq<char>>,
    now: int,
) -> (AppStateView, Result<Seq<char>, ApiError>) {
    match fetched {
        Ok(profile) => sign_in_spec(before, profile, wanted, now),
        Err(_) => (before, Err(ApiError::BadGateway)),
    }
}

/// Finishes, at the time `now`, a sign-in for the user whom the identity
/// provider described as `profile`: the user is added or brought up to date, a
/// token that expires 30 days after `now` is signed for them, and the answer
/// is the address to return to, with the token appended. The address is the
/// one that came back as the state of the sign-in, or the site's own origin.
///
/// A new user when the identifiers are used up is an internal failure and
/// leaves the store as it was.
pub fn sign_in_at(
    state: &mut AppState,
    profile: &GitHubUser,
    params: &CallbackParams,
    now: u64,
) -> (result: Result<String, ApiError>)
    requires
        old(state).wf(),
    ensures
        final(state).wf(),
        (final(state)@, text_result_view(result)) == sign_in_spec(
            old(state)@,
            *profile,
            opt_string(params.state),
            now as int,
        ),
{
    let user_id = match state.db.users.upsert(
        profile.id,
        profile.login.as_str(),
        profile.avatar_url.as_str(),
    ) {
        Ok(id) => id,
        Err(e) => {
            return Err(e);
        },
    };
    let claims = Claims::issued_at(user_id, now);
    let token = match sign_token(&claims, state.jwt_secret.as_str()) {
        Ok(token) => token,
        Err(e) => {
            return Err(e);
        },
    };
    let url = match &params.state {
        Some(address) => token_redirect(address.as_str(), token.as_str()),
        None => token_redirect(state.cors_origin.as_str(), token.as_str()),
    };
    Ok(url)
}

/// Finishes a sign-in now: see `sign_in_at`. The token is valid for 30 days
/// from now.
pub fn sign_in(state: &mut AppState, profile: &GitHubUser, params: &CallbackParams) -> (result:
    Result<String, ApiError>)
    requires
        old(state).wf(),
    ensures
        final(state).wf(),
        can_sign_in(old(state)@.db, *profile) <==> result is Ok,
        exists|now: u64|
            (final(state)@, text_result_view(result)) == #[trigger] sign_in_spec(
                old(state)@,
                *profile,
                opt_string(params.state),
                now as int,
            ),
{
    sign_in_at(state, profile, params, unix_now())
}

/// Finishes a sign-in, given what asking the identity provider for the user
/// came to. Where the provider could not be reached or answered nonsense, this
/// is an upstream failure and nothing changes; otherwise the user is signed
/// in, as `sign_in` says.
pub fn github_callback(
    state: &mut AppState,
    fetched: Result<GitHubUser, String>,
    params: &CallbackParams,
) -> (result: Result<String, ApiError>)
    requires
        old(state).wf(),
    ensures
        final(state).wf(),
        result is Ok <==> (fetched matches Ok(profile) && can_sign_in(old(state)@.db, profile)),
        exists|now: u64|
            (final(state)@, text_result_view(result)) == #[trigger] github_callback_spec(
                old(state)@,
                fetched,
                opt_string(params.state),
                now as int,
            ),
{
    match fetched {
        Ok(profile) => {
            let result = sign_in(state, &profile, params);
            proof {
                let now = choose|now: u64|
                    (state@, text_result_view(result)) == #[trigger] sign_in_spec(
                        old(state)@,
                        profile,
                        opt_string(params.state),
                        now as int,
                    );
                assert((state@, text_result_view(result)) == github_callback_spec(
                    old(state)@,
                    fetched,
                    opt_string(params.state),
                    now as int,
                ));
            }
            result
        },
        Err(_) => {
            proof {
                assert((state@, text_result_view(Err::<String, ApiError>(ApiError::BadGateway)))
                    == github_callback_spec(old(state)@, fetched, opt_string(params.state), 0));
            }
            Err(ApiError::BadGateway)
        },
    }
}

/// The views of a user, or of the refusal.
pub open spec fn user_result_view(r: Result<User, ApiError>) -> Result<UserView, ApiError> {
    match r {
        Ok(u) => Ok(u@),
        Err(e) => Err(e),
    }
}

/// What asking who one is answers: to the one who was not let in, the
/// refusal; to a bearer whom the store knows, the user; to any other bearer,
/// not found.
pub open spec fn me_spec(db: DbView, identity: Result<int, ApiError>) -> Result<
    UserView,
    ApiError,
> {
    match identity {
        Err(e) => Err(e),
        Ok(user_id) => match user_with(db.users, user_id) {
            Some(user) => Ok(user),
            None => Err(ApiError::NotFound),
        },
    }
}

/// Answers who the bearer is, once the bearer has been resolved.
pub fn me_as(state: &AppState, identity: Result<i64, ApiError>) -> (result: Result<User, ApiError>)
    requires
        state.wf(),
    ensures
        user_result_view(result) == me_spec(state@.db, identity_view(identity)),
{
    match identity {
        Ok(user_id) => match state.db.users.get(user_id) {
            Some(user) => Ok(user),
            None => Err(ApiError::NotFound),
        },
        Err(e) => Err(e),
    }
}

/// The user who is asking: the bearer of the request. Without a valid token
/// this is an authentication failure; a bearer whom the store does not know is
/// not found.
pub fn me(state: &AppState, authorization: Option<&str>) -> (result: Result<User, ApiError>)
    requires
        state.wf(),
    ensures
        exists|identity: Result<i64, ApiError>|
            admitted(opt_text(authorization), identity_view(identity)) && user_result_view(
                result,
            ) == #[trigger] me_spec(state@.db, identity_view(identity)),
{
    let identity = extract_user_id(authorization, state.jwt_secret.as_str());
    me_as(state, identity)
}

} // verus!
