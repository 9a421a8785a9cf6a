use chat_auth::login::{
    login_by_email, login_success, logout_answer, password_verdict, refresh_token, Account,
    LoginRefusal, LoginResponse, LogoutRequest, RefreshRefusal, UserLogin,
};
use chat_auth::session::GenerateJWt;
use chat_auth::signer::SigningKey;
use chat_auth::store::{InvalidationOutcome, RefreshStore, RotationOutcome};
use chat_auth::token::decode_and_verify;
use chat_auth::users::{register_user, UserRegistration};

fn sample_key() -> SigningKey {
    SigningKey::new("top-secret").unwrap()
}

fn account_with_password(id: i64, password: &str) -> Account {
    let stored = register_user(UserRegistration {
        nickname: "alice".to_string(),
        email: "alice@example.com".to_string(),
        password: password.to_string(),
        avatar: None,
    })
    .unwrap();
    Account { id, password: Some(stored.password_hash) }
}

fn login(email: &str, password: &str) -> UserLogin {
    UserLogin { email: email.to_string(), password: password.to_string() }
}

#[test]
fn login_with_the_right_password_issues_a_pair() {
    let key = sample_key();
    let account = account_with_password(7, "secret");
    let pair = login_by_email(&login("alice@example.com", "secret"), Some(&account), &key).unwrap();
    let now = chrono::Utc::now().timestamp();
    let access = decode_and_verify(&pair.token, &key, now).unwrap();
    let refresh = decode_and_verify(&pair.refresh_token, &key, now).unwrap();
    assert_eq!(access.subject_id, 7);
    assert_eq!(refresh.subject_id, 7);
    assert_eq!(access.expires_at - access.issued_at, 3600);
    assert_eq!(refresh.expires_at - refresh.issued_at, 2_592_000);
}

#[test]
fn login_with_a_wrong_password_is_refused() {
    let key = sample_key();
    let account = account_with_password(7, "secret");
    assert_eq!(
        login_by_email(&login("alice@example.com", "Secret"), Some(&account), &key),
        Err(LoginRefusal::WrongPassword)
    );
    assert_eq!(LoginRefusal::WrongPassword.status_code(), 401);
    assert_eq!(LoginRefusal::WrongPassword.message(), "Invalid credentials");
}

#[test]
fn login_without_credentials_is_refused_first() {
    let key = sample_key();
    let account = account_with_password(7, "secret");
    for params in [login("", "secret"), login("alice@example.com", ""), login("", "")] {
        assert!(!params.credentials_present());
        assert_eq!(
            login_by_email(&params, Some(&account), &key),
            Err(LoginRefusal::MissingCredentials)
        );
        assert_eq!(login_by_email(&params, None, &key), Err(LoginRefusal::MissingCredentials));
    }
    assert!(login("a", "b").credentials_present());
    assert_eq!(LoginRefusal::MissingCredentials.status_code(), 400);
    assert_eq!(LoginRefusal::MissingCredentials.message(), "Email and password are required");
}

#[test]
fn login_of_an_unknown_user_is_refused() {
    let key = sample_key();
    assert_eq!(
        login_by_email(&login("alice@example.com", "secret"), None, &key),
        Err(LoginRefusal::UserNotFound)
    );
    assert_eq!(LoginRefusal::UserNotFound.status_code(), 401);
    assert_eq!(LoginRefusal::UserNotFound.message(), "Invalid credentials");
}

#[test]
fn login_with_no_readable_hash_is_an_authentication_error() {
    let key = sample_key();
    let without = Account { id: 7, password: None };
    assert_eq!(
        login_by_email(&login("alice@example.com", "secret"), Some(&without), &key),
        Err(LoginRefusal::AuthenticationError)
    );
    let garbled = Account { id: 7, password: Some("not a hash".to_string()) };
    assert_eq!(
        login_by_email(&login("alice@example.com", "secret"), Some(&garbled), &key),
        Err(LoginRefusal::AuthenticationError)
    );
    let plain = Account { id: 7, password: Some("secret".to_string()) };
    assert_eq!(
        login_by_email(&login("alice@example.com", "secret"), Some(&plain), &key),
        Err(LoginRefusal::AuthenticationError)
    );
    assert_eq!(LoginRefusal::AuthenticationError.status_code(), 401);
    assert_eq!(LoginRefusal::AuthenticationError.message(), "Invalid credentials");
}

#[test]
fn password_verdicts() {
    assert_eq!(password_verdict(Some(true)), Ok(()));
    assert_eq!(password_verdict(Some(false)), Err(LoginRefusal::WrongPassword));
    assert_eq!(password_verdict(None), Err(LoginRefusal::AuthenticationError));
    assert_eq!(LoginRefusal::TokenError.status_code(), 500);
    assert_eq!(LoginRefusal::TokenError.message(), "Failed to generate tokens");
}

#[test]
fn refresh_without_a_holder_is_refused() {
    let key = sample_key();
    assert_eq!(refresh_token(None, &key), Err(RefreshRefusal::InvalidRefreshToken));
    assert_eq!(RefreshRefusal::InvalidRefreshToken.status_code(), 401);
    assert_eq!(RefreshRefusal::InvalidRefreshToken.message(), "Invalid refresh token");
    assert_eq!(RefreshRefusal::TokenError.status_code(), 500);
    assert_eq!(RefreshRefusal::TokenError.message(), "Failed to generate new tokens");
}

#[test]
fn refresh_issues_a_pair_for_the_holder() {
    let key = sample_key();
    let (subject, pair) = refresh_token(Some(7), &key).unwrap();
    assert_eq!(subject, 7);
    let now = chrono::Utc::now().timestamp();
    assert_eq!(decode_and_verify(&pair.token, &key, now).unwrap().subject_id, 7);
    assert_eq!(decode_and_verify(&pair.refresh_token, &key, now).unwrap().subject_id, 7);
}

#[test]
fn login_refresh_and_logout_against_a_store() {
    let key = sample_key();
    let account = account_with_password(7, "secret");
    let mut store = RefreshStore::new();
    store.add_subject(7);

    let first = login_by_email(&login("alice@example.com", "secret"), Some(&account), &key).unwrap();
    assert_eq!(store.rotate(7, &first.refresh_token), RotationOutcome::Updated);

    let holder = store.find_subject_by_refresh(&first.refresh_token);
    let (subject, second) = refresh_token(holder, &key).unwrap();
    assert_eq!(subject, 7);
    assert_eq!(store.rotate(subject, &second.refresh_token), RotationOutcome::Updated);
    assert_eq!(store.find_subject_by_refresh(&first.refresh_token), None);
    assert_eq!(store.find_subject_by_refresh(&second.refresh_token), Some(7));

    let stale = store.find_subject_by_refresh(&first.refresh_token);
    assert_eq!(refresh_token(stale, &key), Err(RefreshRefusal::InvalidRefreshToken));

    let request = LogoutRequest { refresh_token: second.refresh_token.clone() };
    store.invalidate(7, &request.refresh_token);
    assert_eq!(store.find_subject_by_refresh(&second.refresh_token), None);
}

#[test]
fn login_response_carries_the_user_and_the_pair() {
    let response = LoginResponse {
        user: Some("alice".to_string()),
        token: "t".to_string(),
        refresh_token: "r".to_string(),
    };
    assert_eq!(response.user, Some("alice".to_string()));
    assert_eq!(response.token, "t");
    assert_eq!(response.refresh_token, "r");
}

#[test]
fn an_unknown_address_and_a_wrong_password_get_the_same_answer() {
    let key = sample_key();
    let account = account_with_password(7, "secret");
    let unknown = login_by_email(&login("nobody@example.com", "secret"), None, &key).unwrap_err();
    let wrong =
        login_by_email(&login("alice@example.com", "wrong"), Some(&account), &key).unwrap_err();
    let unreadable = login_by_email(
        &login("alice@example.com", "secret"),
        Some(&Account { id: 7, password: None }),
        &key,
    )
    .unwrap_err();
    for refusal in [unknown, wrong, unreadable] {
        let (status, body) = refusal.answer::<String>();
        assert_eq!(status, 401);
        assert_eq!(body.msg, "Invalid credentials");
        assert_eq!(body.data.map(|data| data.token), None);
        assert!(!body.success);
    }
}

#[test]
fn other_refusals_have_their_own_answers() {
    let (status, body) = LoginRefusal::MissingCredentials.answer::<String>();
    assert_eq!(status, 400);
    assert_eq!(body.msg, "Email and password are required");
    assert!(!body.success);
    let (status, body) = LoginRefusal::TokenError.answer::<String>();
    assert_eq!(status, 500);
    assert_eq!(body.msg, "Failed to generate tokens");
    assert!(!body.success);
}

#[test]
fn a_login_that_succeeded_is_answered_with_the_user_and_the_pair() {
    let pair = GenerateJWt { token: "t".to_string(), refresh_token: "r".to_string() };
    let (status, body) = login_success(pair, "alice".to_string());
    assert_eq!(status, 200);
    assert_eq!(body.msg, "Login Success");
    assert!(body.success);
    let data = body.data.unwrap();
    assert_eq!(data.user, Some("alice".to_string()));
    assert_eq!(data.token, "t");
    assert_eq!(data.refresh_token, "r");
}

#[test]
fn logout_answers() {
    let (status, body) = logout_answer(InvalidationOutcome::Invalidated);
    assert_eq!(status, 200);
    assert!(body.success);
    assert_eq!(body.msg, "User logged out successfully");
    assert_eq!(body.data, None);
    let (status, body) = logout_answer(InvalidationOutcome::NoMatchOrAlreadyInvalid);
    assert_eq!(status, 401);
    assert!(!body.success);
    assert_eq!(body.msg, "Invalid session");
    assert_eq!(body.data, None);
}
