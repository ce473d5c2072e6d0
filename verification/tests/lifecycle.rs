//! End-to-end exercises of the credential and session lifecycle manager
//! over in-memory stores, with the real hashing and signing crates linked.

use auth_core::errors::AuthError;
use auth_core::service::MyAuthService;

fn service() -> MyAuthService {
    MyAuthService::new(b"a-process-wide-signing-secret".to_vec(), 900, 86400)
}

fn s(v: &str) -> String {
    v.to_string()
}

#[test]
fn signup_login_validate_scenario() {
    let mut svc = service();
    let resp = svc
        .sign_up(
            &s("alice@example.com"),
            &s("pw123456!"),
            &s("Alice"),
            &s("Smith"),
        )
        .expect("signup of a fresh email succeeds");
    assert!(resp.success);
    assert_eq!(resp.message, "User signed up successfully");
    assert_eq!(resp.user.email, "alice@example.com");

    let login = svc
        .login(&s("alice@example.com"), &s("pw123456!"), 1_000)
        .expect("login with the signup credentials succeeds");
    assert_eq!(login.expires_in, 900);
    assert!(!login.access_token.is_empty());
    assert!(!login.refresh_token.is_empty());
    assert_ne!(login.access_token, login.refresh_token);

    let validated = svc
        .validate_token(&login.access_token, 1_000)
        .expect("a freshly issued access token is valid");
    assert!(validated.valid);
    assert_eq!(validated.message, "Token is valid");
    assert_eq!(validated.user, login.user);

    // Valid strictly before expiry, rejected from the expiry instant on.
    assert!(svc.validate_token(&login.access_token, 1_000 + 899).is_ok());
    assert_eq!(
        svc.validate_token(&login.access_token, 1_000 + 900),
        Err(AuthError::Unauthorized)
    );
}

#[test]
fn login_rejections_are_indistinguishable() {
    let mut svc = service();
    svc.sign_up(&s("bob@example.com"), &s("hunter22"), &s("Bob"), &s("Beta"))
        .unwrap();

    let unknown = svc
        .login(&s("nobody@example.com"), &s("hunter22"), 5)
        .unwrap_err();
    let wrong_password = svc
        .login(&s("bob@example.com"), &s("wrong-password"), 5)
        .unwrap_err();
    assert_eq!(unknown, AuthError::Unauthorized);
    assert_eq!(unknown, wrong_password);
    assert_eq!(unknown.message(), wrong_password.message());
    assert_eq!(unknown.message(), "Invalid credentials");
}

#[test]
fn forgot_password_responses_are_identical() {
    let mut svc = service();
    svc.sign_up(
        &s("carol@example.com"),
        &s("correcthorse"),
        &s("Carol"),
        &s("Gamma"),
    )
    .unwrap();

    let known = svc.forgot_password(&s("carol@example.com"), 100);
    assert_eq!(svc.sessions.reset_entry_count(), 1);
    let unknown = svc.forgot_password(&s("nobody@example.com"), 100);
    // The caller-facing responses are equal; only the known email wrote a
    // grant and produced a token for the notifier.
    assert_eq!(known.response, unknown.response);
    assert!(known.response.success);
    assert_eq!(
        known.response.message,
        "If an account with that email exists, a password reset link has been sent."
    );
    assert!(known.reset_token.is_some());
    assert!(unknown.reset_token.is_none());
    assert_eq!(svc.sessions.reset_entry_count(), 1);
}

#[test]
fn reset_token_expires_after_thirty_minutes() {
    let mut svc = service();
    svc.sign_up(&s("dan@example.com"), &s("first-pass"), &s("Dan"), &s("Delta"))
        .unwrap();

    let token = svc
        .forgot_password(&s("dan@example.com"), 1_000)
        .reset_token
        .unwrap();
    // 1800 seconds later the grant is dead.
    assert_eq!(
        svc.reset_password(&token, &s("second-pass"), 1_000 + 1_800),
        Err(AuthError::BadRequest)
    );
    assert!(svc.login(&s("dan@example.com"), &s("second-pass"), 2_900).is_err());

    // A fresh grant used within its lifetime works.
    let token = svc
        .forgot_password(&s("dan@example.com"), 3_000)
        .reset_token
        .unwrap();
    let resp = svc
        .reset_password(&token, &s("second-pass"), 3_000 + 1_799)
        .expect("a live reset grant is honoured");
    assert!(resp.success);
    assert_eq!(resp.message, "Password reset successfully");
    assert!(svc.login(&s("dan@example.com"), &s("second-pass"), 5_000).is_ok());
    assert_eq!(
        svc.login(&s("dan@example.com"), &s("first-pass"), 5_000).unwrap_err(),
        AuthError::Unauthorized
    );
}

#[test]
fn deactivated_user_fails_validation_before_expiry() {
    let mut svc = service();
    let created = svc
        .sign_up(&s("eve@example.com"), &s("pass-eve"), &s("Eve"), &s("Epsilon"))
        .unwrap();
    let login = svc.login(&s("eve@example.com"), &s("pass-eve"), 10).unwrap();
    assert!(svc.validate_token(&login.access_token, 11).is_ok());

    svc.users.set_active(created.user.id, false);
    // Signature and expiry are still good; the re-fetched record is not.
    assert_eq!(
        svc.validate_token(&login.access_token, 11),
        Err(AuthError::Unauthorized)
    );
    svc.users.set_active(created.user.id, true);
    assert!(svc.validate_token(&login.access_token, 11).is_ok());
}

#[test]
fn duplicate_email_already_exists() {
    let mut svc = service();
    svc.sign_up(&s("x@example.com"), &s("password-1"), &s("Xan"), &s("One"))
        .unwrap();
    let err = svc
        .sign_up(&s("x@example.com"), &s("password-2"), &s("Yve"), &s("Two"))
        .unwrap_err();
    assert_eq!(err, AuthError::AlreadyExists);
    assert_eq!(err.message(), "Email already exists");
}

#[test]
fn malformed_requests_are_validation_errors() {
    let mut svc = service();
    let cases: Vec<(String, String, String, String)> = vec![
        (s("no-separator"), s("password"), s("A"), s("B")),
        (s("@leading.example"), s("password"), s("A"), s("B")),
        (s("trailing@"), s("password"), s("A"), s("B")),
        (s("ok@example.com"), s(""), s("A"), s("B")),
        (s("ok@example.com"), s("password"), s(""), s("B")),
        (s("ok@example.com"), s("password"), s("A"), s("")),
    ];
    for (email, pw, first, last) in cases {
        assert_eq!(
            svc.sign_up(&email, &pw, &first, &last).unwrap_err(),
            AuthError::Validation
        );
    }
    // The smallest plausible email passes validation.
    assert!(svc.sign_up(&s("a@b"), &s("p"), &s("F"), &s("L")).is_ok());
}

#[test]
fn corrupted_stored_hash_is_a_store_error() {
    let mut svc = service();
    svc.users
        .create(
            &s("broken@example.com"),
            s("not-a-bcrypt-hash"),
            &s("Bro"),
            &s("Ken"),
        )
        .unwrap();
    assert_eq!(
        svc.login(&s("broken@example.com"), &s("anything"), 1).unwrap_err(),
        AuthError::Store
    );
}

#[test]
fn unknown_reset_token_is_bad_request() {
    let mut svc = service();
    let err = svc
        .reset_password(&s("never-issued-token"), &s("new-pass"), 1)
        .unwrap_err();
    assert_eq!(err, AuthError::BadRequest);
    assert_eq!(err.message(), "Invalid or expired reset token.");
}

#[test]
fn refresh_token_is_registered_per_user() {
    let mut svc = service();
    svc.sign_up(&s("f@example.com"), &s("pass-f"), &s("F"), &s("Ef"))
        .unwrap();
    svc.sign_up(&s("g@example.com"), &s("pass-g"), &s("G"), &s("Ge"))
        .unwrap();
    svc.login(&s("f@example.com"), &s("pass-f"), 10).unwrap();
    assert_eq!(svc.sessions.refresh_entry_count(), 1);
    // A second login of the same user replaces the registration.
    svc.login(&s("f@example.com"), &s("pass-f"), 20).unwrap();
    assert_eq!(svc.sessions.refresh_entry_count(), 1);
    svc.login(&s("g@example.com"), &s("pass-g"), 30).unwrap();
    assert_eq!(svc.sessions.refresh_entry_count(), 2);
}
