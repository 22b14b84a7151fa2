use flock::auth::{
    check_login, close_session, constant_time_eq, is_authorized, logout_cookie, new_session_token,
    open_session, session_cookie, session_token, LoginGuard, LoginRequest, SessionStore,
    LOCKOUT_NANOS, MAX_FAILURES,
};
use flock::error::ApiError;

#[test]
fn constant_time_eq_matches_regular_equality() {
    assert!(constant_time_eq("hunter2", "hunter2"));
    assert!(!constant_time_eq("hunter2", "hunter3"));
    assert!(!constant_time_eq("short", "shorter"));
    assert!(!constant_time_eq("", "x"));
    assert!(constant_time_eq("", ""));
}

#[test]
fn session_token_parses_cookie_header() {
    assert_eq!(
        session_token(Some("other=1; flock_session=abc123; foo=bar")).as_deref(),
        Some("abc123")
    );
}

#[test]
fn session_token_absent_without_cookie() {
    assert_eq!(session_token(None), None);
}

#[test]
fn allows_attempts_under_the_failure_threshold() {
    let mut guard = LoginGuard::new();
    for _ in 0..MAX_FAILURES - 1 {
        guard.record_failure();
    }
    assert!(guard.check_locked().is_none());
}

#[test]
fn locks_out_after_max_failures() {
    let mut guard = LoginGuard::new();
    for _ in 0..MAX_FAILURES {
        guard.record_failure();
    }
    let remaining = guard.check_locked();
    assert!(remaining.is_some());
    assert!(remaining.unwrap() <= LOCKOUT_NANOS);
}

#[test]
fn success_resets_the_failure_count() {
    let mut guard = LoginGuard::new();
    for _ in 0..MAX_FAILURES - 1 {
        guard.record_failure();
    }
    guard.record_success();
    guard.record_failure();
    assert!(guard.check_locked().is_none());
}

#[test]
fn lockout_expires_after_thirty_seconds() {
    let mut guard = LoginGuard::new();
    for _ in 0..MAX_FAILURES {
        guard.record_failure_at(1_000);
    }
    assert_eq!(guard.check_locked_at(1_000), Some(LOCKOUT_NANOS));
    assert_eq!(guard.check_locked_at(1_000 + LOCKOUT_NANOS - 1), Some(1));
    assert_eq!(guard.check_locked_at(1_000 + LOCKOUT_NANOS), None);
}

#[test]
fn session_token_ignores_other_cookies() {
    assert_eq!(session_token(Some("a=1; b=2")), None);
    assert_eq!(session_token(Some("flock_session=tok")).as_deref(), Some("tok"));
}

fn request(p: &str) -> LoginRequest {
    LoginRequest {
        password: p.to_string(),
    }
}

#[test]
fn login_without_admin_password_is_a_bad_request() {
    let mut guard = LoginGuard::new();
    let r = check_login(&mut guard, &None, &request("x"), 0);
    assert_eq!(
        r,
        Err(ApiError::BadRequest(
            "this flock instance has no admin_password configured - nothing to log into"
                .to_string()
        ))
    );
}

#[test]
fn login_checks_the_password_and_locks_out() {
    let admin = Some("secret".to_string());
    let mut guard = LoginGuard::new();
    assert_eq!(check_login(&mut guard, &admin, &request("secret"), 0), Ok(()));
    for _ in 0..MAX_FAILURES {
        assert_eq!(
            check_login(&mut guard, &admin, &request("wrong"), 10),
            Err(ApiError::Unauthorized("incorrect password".to_string()))
        );
    }
    assert_eq!(
        check_login(&mut guard, &admin, &request("secret"), 10),
        Err(ApiError::TooManyRequests(
            "too many failed attempts - try again in 31s".to_string()
        ))
    );
    assert_eq!(
        check_login(&mut guard, &admin, &request("secret"), 10 + LOCKOUT_NANOS),
        Ok(())
    );
}

#[test]
fn sessions_open_and_close() {
    let admin = Some("secret".to_string());
    let mut sessions = SessionStore::new();
    let cookie = open_session(&mut sessions);
    let token = session_token(Some(cookie.split(';').next().unwrap())).unwrap();
    assert_eq!(token.len(), 64);
    assert!(token.chars().all(|c| c.is_ascii_digit() || ('a'..='f').contains(&c)));
    assert_eq!(&token[12..13], "4");
    assert_eq!(&token[44..45], "4");
    let other = open_session(&mut sessions);
    assert_ne!(other, cookie);
    assert!(is_authorized(&admin, &Some(token.clone()), &sessions));
    assert!(!is_authorized(&admin, &Some("nope".to_string()), &sessions));
    assert!(!is_authorized(&admin, &None, &sessions));
    assert!(is_authorized(&None, &None, &sessions));
    close_session(&mut sessions, &Some(token.clone()));
    assert!(!is_authorized(&admin, &Some(token), &sessions));
}

#[test]
fn cookies_have_their_fixed_shape() {
    assert_eq!(
        session_cookie("abc"),
        "flock_session=abc; HttpOnly; Path=/; SameSite=Strict"
    );
    assert_eq!(logout_cookie(), "flock_session=; Max-Age=0; Path=/");
    let t = new_session_token();
    assert_eq!(t.len(), 64);
    assert!(t.chars().all(|c| c.is_ascii_hexdigit() && !c.is_ascii_uppercase()));
    assert_ne!(t, new_session_token());
}
