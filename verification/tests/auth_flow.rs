use boardstore::auth::get_user_by_id;
use boardstore::auth::login_user;
use boardstore::auth::register_user;
use boardstore::models::CreateUserDto;
use boardstore::models::DbError;
use boardstore::models::LoginDto;
use boardstore::store::AppState;

fn dto(username: &str, email: &str, password: &str) -> CreateUserDto {
    CreateUserDto {
        username: username.to_string(),
        email: email.to_string(),
        password: password.to_string(),
    }
}

fn login(username: &str, password: &str) -> LoginDto {
    LoginDto { username: username.to_string(), password: password.to_string() }
}

#[test]
fn register_then_login_succeeds_with_fresh_token() {
    let mut state = AppState::new();
    let reg = register_user(&mut state, dto("ana", "ana@example.com", "secreta123")).unwrap();
    assert_eq!(reg.user.username, "ana");
    assert_eq!(reg.user.email, "ana@example.com");
    assert_eq!(reg.token.len(), 36);
    // The stored credential is a bcrypt hash, never the plain text.
    assert_ne!(reg.user.password, "secreta123");
    assert_eq!(reg.user.password.len(), 60);

    let auth = login_user(&state, login("ana", "secreta123")).unwrap();
    assert_eq!(auth.user.username, "ana");
    assert_eq!(auth.user.email, "ana@example.com");
    assert_eq!(auth.token.len(), 36);
    assert_ne!(auth.token, reg.token);
}

#[test]
fn login_failures_collapse_to_unauthorized() {
    let mut state = AppState::new();
    register_user(&mut state, dto("ana", "ana@example.com", "secreta123")).unwrap();

    let wrong_password = login_user(&state, login("ana", "equivocada"));
    assert!(matches!(wrong_password, Err(DbError::Unauthorized)));

    let unknown_user = login_user(&state, login("nadie", "secreta123"));
    assert!(matches!(unknown_user, Err(DbError::Unauthorized)));
}

#[test]
fn duplicate_username_or_email_is_rejected() {
    let mut state = AppState::new();
    register_user(&mut state, dto("ana", "ana@example.com", "secreta123")).unwrap();

    let same_username = register_user(&mut state, dto("ana", "otra@example.com", "x1y2z3"));
    assert!(matches!(same_username, Err(DbError::InvalidData(_))));

    let same_email = register_user(&mut state, dto("otra", "ana@example.com", "x1y2z3"));
    assert!(matches!(same_email, Err(DbError::InvalidData(_))));

    // The failed attempts stored nothing.
    assert_eq!(state.users.len(), 1);
}

#[test]
fn get_user_by_id_finds_registered_user() {
    let mut state = AppState::new();
    let reg = register_user(&mut state, dto("ana", "ana@example.com", "secreta123")).unwrap();
    let user = get_user_by_id(&state, reg.user.id.clone()).unwrap();
    assert_eq!(user.username, "ana");
    assert_eq!(user.id, reg.user.id);

    let missing = get_user_by_id(&state, "no-such-id".to_string());
    assert!(matches!(missing, Err(DbError::NotFound)));
}

#[test]
fn distinct_users_get_distinct_ids() {
    let mut state = AppState::new();
    let a = register_user(&mut state, dto("ana", "ana@example.com", "secreta123")).unwrap();
    let b = register_user(&mut state, dto("bea", "bea@example.com", "secreta456")).unwrap();
    assert_ne!(a.user.id, b.user.id);
    assert_eq!(a.user.id.len(), 36);
}
