use mikaana::auth::{
    bearer_header, bearer_token, chrono_like_exp, expiry_after, extract_user_id, github_callback,
    github_login, me, me_as, sign_in, sign_in_at, sign_token, token_redirect, unix_now, user_of,
    CallbackParams,
    Claims, GitHubUser, LoginParams, TOKEN_LIFETIME,
};
use mikaana::db::{run_migrations, Database};
use mikaana::error::ApiError;
use mikaana::state::AppState;

const SECRET: &str = "auth-secret";

fn auth_state() -> AppState {
    let mut db = Database::new();
    run_migrations(&mut db);
    AppState {
        db,
        jwt_secret: SECRET.to_string(),
        github_client_id: "Iv1.abc123".to_string(),
        github_client_secret: "hidden".to_string(),
        api_url: "https://api.example.org".to_string(),
        cors_origin: "https://example.org".to_string(),
    }
}

#[test]
fn token_lifetime_is_thirty_days() {
    assert_eq!(TOKEN_LIFETIME, 30 * 24 * 60 * 60);
    assert_eq!(expiry_after(0), 2_592_000);
    assert_eq!(expiry_after(1_700_000_000), 1_702_592_000);
    assert_eq!(expiry_after(u64::MAX), usize::MAX);
}

#[test]
fn claims_are_for_the_user_and_thirty_days() {
    assert_eq!(Claims::issued_at(42, 1_000), Claims { sub: 42, exp: 2_593_000 });
    let before = unix_now();
    let claims = Claims::new(42);
    let after = unix_now();
    assert_eq!(claims.sub, 42);
    assert!(claims.exp as u64 >= before + 2_592_000);
    assert!(claims.exp as u64 <= after + 2_592_000);
    let exp = chrono_like_exp() as u64;
    assert!(exp >= after + 2_592_000);
}

#[test]
fn bearer_token_is_what_follows_the_scheme() {
    assert_eq!(bearer_token(Some("Bearer abc.def.ghi")), Some("abc.def.ghi".to_string()));
    assert_eq!(bearer_token(Some("Bearer ")), Some(String::new()));
    assert_eq!(bearer_token(Some("Bearer  two")), Some(" two".to_string()));
    assert_eq!(bearer_token(Some("Bearer")), None);
    assert_eq!(bearer_token(Some("bearer abc")), None);
    assert_eq!(bearer_token(Some(" Bearer abc")), None);
    assert_eq!(bearer_token(Some("Basic abc")), None);
    assert_eq!(bearer_token(Some("")), None);
    assert_eq!(bearer_token(None), None);
    assert_eq!(bearer_token(Some("Bearer caf\u{e9}")), Some("caf\u{e9}".to_string()));
}

#[test]
fn bearer_header_carries_the_token() {
    assert_eq!(bearer_header("abc"), "Bearer abc");
    assert_eq!(bearer_token(Some(&bearer_header("x y"))), Some("x y".to_string()));
}

#[test]
fn signed_token_resolves_to_its_user() {
    let token = sign_token(&Claims::new(42), SECRET).unwrap();
    assert_eq!(token.split('.').count(), 3);
    assert_ne!(token, "42");
    let header = bearer_header(&token);
    assert_eq!(extract_user_id(Some(&header), SECRET), Ok(42));
    let negative = sign_token(&Claims::new(-7), SECRET).unwrap();
    assert_eq!(extract_user_id(Some(&bearer_header(&negative)), SECRET), Ok(-7));
}

#[test]
fn signing_depends_on_claims_and_secret_alone() {
    let claims = Claims::issued_at(42, 1_700_000_000);
    let a = sign_token(&claims, SECRET).unwrap();
    let b = sign_token(&claims, SECRET).unwrap();
    assert_eq!(a, b);
    assert_ne!(a, sign_token(&claims, "other").unwrap());
    assert_ne!(a, sign_token(&Claims::issued_at(43, 1_700_000_000), SECRET).unwrap());
    assert_ne!(a, sign_token(&Claims::issued_at(42, 1_700_000_001), SECRET).unwrap());
}

#[test]
fn missing_or_malformed_credentials_are_unauthorized() {
    assert_eq!(extract_user_id(None, SECRET), Err(ApiError::Unauthorized));
    assert_eq!(extract_user_id(Some(""), SECRET), Err(ApiError::Unauthorized));
    assert_eq!(extract_user_id(Some("Bearer "), SECRET), Err(ApiError::Unauthorized));
    assert_eq!(extract_user_id(Some("Bearer not-a-token"), SECRET), Err(ApiError::Unauthorized));
    let token = sign_token(&Claims::new(42), SECRET).unwrap();
    assert_eq!(extract_user_id(Some(&token), SECRET), Err(ApiError::Unauthorized));
    assert_eq!(
        extract_user_id(Some(&format!("Token {token}")), SECRET),
        Err(ApiError::Unauthorized)
    );
}

#[test]
fn token_signed_with_another_secret_is_unauthorized() {
    let token = sign_token(&Claims::new(42), "someone-else").unwrap();
    assert_eq!(extract_user_id(Some(&bearer_header(&token)), SECRET), Err(ApiError::Unauthorized));
}

#[test]
fn expired_token_is_unauthorized() {
    let long_ago = Claims::issued_at(42, 0);
    let token = sign_token(&long_ago, SECRET).unwrap();
    assert_eq!(extract_user_id(Some(&bearer_header(&token)), SECRET), Err(ApiError::Unauthorized));
    let recently = Claims::issued_at(42, unix_now() - 2_592_000 - 3_600);
    let token = sign_token(&recently, SECRET).unwrap();
    assert_eq!(extract_user_id(Some(&bearer_header(&token)), SECRET), Err(ApiError::Unauthorized));
    let still_good = Claims::issued_at(42, unix_now() - 2_592_000 + 3_600);
    let token = sign_token(&still_good, SECRET).unwrap();
    assert_eq!(extract_user_id(Some(&bearer_header(&token)), SECRET), Ok(42));
}

#[test]
fn tampered_token_is_unauthorized() {
    let token = sign_token(&Claims::new(42), SECRET).unwrap();
    let mut tampered = token.clone();
    let last = tampered.pop().unwrap();
    tampered.push(if last == 'A' { 'B' } else { 'A' });
    assert_eq!(
        extract_user_id(Some(&bearer_header(&tampered)), SECRET),
        Err(ApiError::Unauthorized)
    );
}

#[test]
fn checked_claims_name_the_user() {
    assert_eq!(user_of(Some(Claims { sub: 9, exp: 1 })), Ok(9));
    assert_eq!(user_of(None), Err(ApiError::Unauthorized));
}

#[test]
fn login_redirect_names_client_callback_and_return_address() {
    let state = auth_state();
    let url = github_login(&state, &LoginParams { redirect: None });
    assert_eq!(
        url,
        "https://github.com/login/oauth/authorize?client_id=Iv1.abc123&redirect_uri=https://api.example.org/api/auth/callback&state=https%3A%2F%2Fexample.org"
    );
    let url = github_login(
        &state,
        &LoginParams { redirect: Some("https://example.org/posts/a b?x=1&y=\u{e9}~".to_string()) },
    );
    assert_eq!(
        url,
        "https://github.com/login/oauth/authorize?client_id=Iv1.abc123&redirect_uri=https://api.example.org/api/auth/callback&state=https%3A%2F%2Fexample.org%2Fposts%2Fa%20b%3Fx%3D1%26y%3D%C3%A9~"
    );
    let url = github_login(&state, &LoginParams { redirect: Some("AZaz09-._~".to_string()) });
    assert!(url.ends_with("&state=AZaz09-._~"));
    let url = github_login(&state, &LoginParams { redirect: Some(String::new()) });
    assert!(url.ends_with("&state="));
}

#[test]
fn token_is_appended_as_a_query_parameter() {
    assert_eq!(token_redirect("https://example.org/post", "abc"), "https://example.org/post?token=abc");
    assert_eq!(
        token_redirect("https://example.org/post?x=1", "abc"),
        "https://example.org/post?x=1&token=abc"
    );
    assert_eq!(token_redirect("https://example.org/post?", "abc"), "https://example.org/post?&token=abc");
    assert_eq!(token_redirect("", "abc"), "?token=abc");
}

#[test]
fn callback_registers_the_user_and_returns_with_a_token() {
    let mut state = auth_state();
    let profile = GitHubUser { id: 9001, login: "ada".to_string(), avatar_url: "a.png".to_string() };
    let params = CallbackParams {
        code: "code".to_string(),
        state: Some("https://example.org/posts/x?from=login".to_string()),
    };
    let url = sign_in(&mut state, &profile, &params).unwrap();
    let prefix = "https://example.org/posts/x?from=login&token=";
    assert!(url.starts_with(prefix));
    let token = &url[prefix.len()..];
    assert_eq!(extract_user_id(Some(&bearer_header(token)), SECRET), Ok(1));
    let user = me_as(&state, Ok(1)).unwrap();
    assert_eq!((user.id, user.username.as_str(), user.avatar_url.as_str()), (1, "ada", "a.png"));

    let params = CallbackParams { code: "code".to_string(), state: None };
    let url = sign_in(&mut state, &profile, &params).unwrap();
    assert!(url.starts_with("https://example.org?token="));
}

#[test]
fn signing_in_again_updates_the_profile_and_keeps_the_identifier() {
    let mut state = auth_state();
    let params = CallbackParams { code: "c".to_string(), state: None };
    let ada = GitHubUser { id: 9001, login: "ada".to_string(), avatar_url: "a.png".to_string() };
    let bob = GitHubUser { id: 9002, login: "bob".to_string(), avatar_url: "b.png".to_string() };
    sign_in(&mut state, &ada, &params).unwrap();
    sign_in(&mut state, &bob, &params).unwrap();
    let renamed = GitHubUser { id: 9001, login: "lovelace".to_string(), avatar_url: "c.png".to_string() };
    let url = sign_in(&mut state, &renamed, &params).unwrap();
    let token = url.rsplit("token=").next().unwrap();
    assert_eq!(extract_user_id(Some(&bearer_header(token)), SECRET), Ok(1));
    let rows = state.db.users.rows();
    assert_eq!(rows.len(), 2);
    assert_eq!((rows[0].id, rows[0].github_id, rows[0].username.as_str()), (1, 9001, "lovelace"));
    assert_eq!(rows[0].avatar_url, "c.png");
    assert_eq!((rows[1].id, rows[1].github_id, rows[1].username.as_str()), (2, 9002, "bob"));
}

#[test]
fn me_is_the_bearer() {
    let mut state = auth_state();
    let params = CallbackParams { code: "c".to_string(), state: None };
    let ada = GitHubUser { id: 9001, login: "ada".to_string(), avatar_url: "a.png".to_string() };
    sign_in(&mut state, &ada, &params).unwrap();
    let token = bearer_header(&sign_token(&Claims::new(1), SECRET).unwrap());
    let user = me(&state, Some(&token)).unwrap();
    assert_eq!((user.id, user.username.as_str()), (1, "ada"));
    assert_eq!(me(&state, None).err(), Some(ApiError::Unauthorized));
    assert_eq!(me(&state, Some("Bearer junk")).err(), Some(ApiError::Unauthorized));
    let stranger = bearer_header(&sign_token(&Claims::new(77), SECRET).unwrap());
    assert_eq!(me(&state, Some(&stranger)).err(), Some(ApiError::NotFound));
    assert_eq!(me_as(&state, Ok(77)).err(), Some(ApiError::NotFound));
    assert_eq!(me_as(&state, Err(ApiError::Unauthorized)).err(), Some(ApiError::Unauthorized));
}

#[test]
fn callback_without_a_profile_is_an_upstream_failure() {
    let mut state = auth_state();
    let params = CallbackParams { code: "c".to_string(), state: None };
    let r = github_callback(&mut state, Err("connection reset".to_string()), &params);
    assert_eq!(r, Err(ApiError::BadGateway));
    assert_eq!(state.db.users.rows().len(), 0);
    let ada = GitHubUser { id: 9001, login: "ada".to_string(), avatar_url: "a.png".to_string() };
    let url = github_callback(&mut state, Ok(ada), &params).unwrap();
    assert!(url.starts_with("https://example.org?token="));
    assert_eq!(state.db.users.rows().len(), 1);
}

#[test]
fn sign_in_at_a_given_time_gives_the_token_of_that_time() {
    let mut state = auth_state();
    let params = CallbackParams { code: "c".to_string(), state: Some("/back".to_string()) };
    let ada = GitHubUser { id: 9001, login: "ada".to_string(), avatar_url: "a.png".to_string() };
    let now = unix_now();
    let url = sign_in_at(&mut state, &ada, &params, now).unwrap();
    let expected = sign_token(&Claims::issued_at(1, now), SECRET).unwrap();
    assert_eq!(url, format!("/back?token={expected}"));
    assert_eq!(state.db.users.rows().len(), 1);
    let again = sign_in_at(&mut state, &ada, &params, now + 5).unwrap();
    let expected = sign_token(&Claims::issued_at(1, now + 5), SECRET).unwrap();
    assert_eq!(again, format!("/back?token={expected}"));
    assert_eq!(state.db.users.rows().len(), 1);
}

#[test]
fn sign_in_fails_only_when_identifiers_are_used_up() {
    let mut state = auth_state();
    let params = CallbackParams { code: "c".to_string(), state: None };
    let last = mikaana::users::UserRow {
        id: i64::MAX,
        github_id: 1,
        username: "last".to_string(),
        avatar_url: String::new(),
    };
    assert!(state.db.users.restore(last));
    let new = GitHubUser { id: 2, login: "new".to_string(), avatar_url: String::new() };
    assert_eq!(sign_in(&mut state, &new, &params), Err(ApiError::Internal));
    assert_eq!(github_callback(&mut state, Ok(new), &params), Err(ApiError::Internal));
    assert_eq!(state.db.users.rows().len(), 1);
    let known = GitHubUser { id: 1, login: "still".to_string(), avatar_url: String::new() };
    let url = sign_in(&mut state, &known, &params).unwrap();
    let token = url.rsplit("token=").next().unwrap();
    assert_eq!(extract_user_id(Some(&bearer_header(token)), SECRET), Ok(i64::MAX));
    assert_eq!(state.db.users.rows()[0].username, "still");
}
