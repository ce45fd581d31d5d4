//! The identity service: registration, login and user lookup.
//!
//! Registration hashes the credential with a slow, salted one-way hash before
//! it is stored, and surfaces a duplicate username or email as a generic
//! persistence-constraint failure. Login collapses "unknown user" and "wrong
//! password" into one error kind, so that callers can never tell the two
//! apart.

use vstd::prelude::*;
use vstd::string::StringExecFns;

use crate::crypto::bcrypt_matches;
use crate::crypto::hash_password;
use crate::crypto::verify_password;
use crate::idgen::new_id;
use crate::idgen::now_rfc3339;
use crate::models::AuthResponse;
use crate::models::CreateUserDto;
use crate::models::DbError;
use crate::models::DbResult;
use crate::models::LoginDto;
use crate::models::User;
use crate::store::AppState;
use crate::store::find_board;
use crate::store::find_dataset;
use crate::store::find_user_by_email;
use crate::store::find_user_by_id;
use crate::store::find_user_by_username;
use crate::store::lemma_find_user_by_email_covers;
use crate::store::lemma_find_user_by_id_covers;
use crate::store::lemma_find_user_by_username_covers;
use crate::store::lookup_user_by_email;
use crate::store::lookup_user_by_id;
use crate::store::lookup_user_by_username;

verus! {

/// The user record that registering `dto` appends: the given fresh identifier,
/// the dto's names, the hashed credential, and both timestamps set to `now`.
pub open spec fn registered_user(
    dto: CreateUserDto,
    password_hash: String,
    id: String,
    now: String,
) -> User {
    User {
        id: id,
        username: dto.username,
        email: dto.email,
        password: password_hash,
        created_at: now,
        updated_at: now,
    }
}

/// Appending a user under a fresh identifier, username and email preserves
/// the store's integrity.
proof fn lemma_wf_after_register(pre: AppState, post: AppState, u: User)
    requires
        pre.wf(),
        post.users@ == pre.users@.push(u),
        post.boards@ == pre.boards@,
        post.panels@ == pre.panels@,
        post.datasets@ == pre.datasets@,
        post.dataset_rows@ == pre.dataset_rows@,
        find_user_by_username(pre.users@, u.username@) is None,
        find_user_by_email(pre.users@, u.email@) is None,
        find_user_by_id(pre.users@, u.id@) is None,
    ensures
        post.wf(),
{
    lemma_find_user_by_username_covers(pre.users@, u.username@);
    lemma_find_user_by_email_covers(pre.users@, u.email@);
    lemma_find_user_by_id_covers(pre.users@, u.id@);
    assert forall|i: int, j: int| 0 <= i < j < post.users@.len() implies (#[trigger] post.users@[i]).id@
        != (#[trigger] post.users@[j]).id@ && post.users@[i].username@ != post.users@[j].username@
        && post.users@[i].email@ != post.users@[j].email@ by {
        if j < pre.users@.len() {
            assert(post.users@[i] == pre.users@[i] && post.users@[j] == pre.users@[j]);
        } else {
            assert(post.users@[i] == pre.users@[i] && post.users@[j] == u);
        }
    }
    assert forall|k: int| 0 <= k < post.panels@.len() implies find_board(
        post.boards@,
        (#[trigger] post.panels@[k]).board_id@,
    ) is Some by {
        assert(post.panels@[k] == pre.panels@[k]);
    }
    assert forall|k: int| 0 <= k < post.dataset_rows@.len() implies find_dataset(
        post.datasets@,
        (#[trigger] post.dataset_rows@[k]).dataset_id@,
    ) is Some by {
        assert(post.dataset_rows@[k] == pre.dataset_rows@[k]);
    }
}

/// Registration with the generated values fixed as arguments: deterministic,
/// so its contract is exact. It appends the new user exactly when neither the
/// username, nor the email, nor the generated identifier is already present;
/// any conflict is surfaced as the generic constraint failure.
pub fn register_user_with(
    state: &mut AppState,
    dto: CreateUserDto,
    password_hash: String,
    id: String,
    now: String,
    token: String,
) -> (r: DbResult<AuthResponse>)
    ensures
        old(state).wf() ==> final(state).wf(),
        ({
            let conflict = find_user_by_username(old(state).users@, dto.username@) is Some
                || find_user_by_email(old(state).users@, dto.email@) is Some || find_user_by_id(
                old(state).users@,
                id@,
            ) is Some;
            if conflict {
                &&& r matches Err(e)
                &&& e matches DbError::InvalidData(_)
                &&& *final(state) == *old(state)
            } else {
                &&& final(state).users@ == old(state).users@.push(
                    registered_user(dto, password_hash, id, now),
                )
                &&& final(state).boards@ == old(state).boards@
                &&& final(state).panels@ == old(state).panels@
                &&& final(state).datasets@ == old(state).datasets@
                &&& final(state).dataset_rows@ == old(state).dataset_rows@
                &&& r matches Ok(resp)
                &&& resp == (AuthResponse {
                    user: registered_user(dto, password_hash, id, now),
                    token: token,
                })
            }
        }),
{
    let username_hit = lookup_user_by_username(&state.users, &dto.username);
    let email_hit = lookup_user_by_email(&state.users, &dto.email);
    let id_hit = lookup_user_by_id(&state.users, &id);
    if username_hit.is_some() || email_hit.is_some() || id_hit.is_some() {
        return Err(DbError::InvalidData(String::from_str("Usuario o email ya existe")));
    }
    let user = User {
        id: id,
        username: dto.username,
        email: dto.email,
        password: password_hash,
        created_at: now.clone(),
        updated_at: now,
    };
    let resp_user = user.duplicate();
    state.users.push(user);
    proof {
        if old(state).wf() {
            lemma_wf_after_register(*old(state), *state, state.users@.last());
        }
    }
    Ok(AuthResponse { user: resp_user, token: token })
}

/// Register a new account: hash the credential, assign a fresh identifier and
/// timestamps, store the user, and answer with the user and a fresh opaque
/// token. On success the caller knows the stored hash verifies against the
/// given password, which is what makes a later login succeed.
pub fn register_user(state: &mut AppState, dto: CreateUserDto) -> (r: DbResult<AuthResponse>)
    ensures
        old(state).wf() ==> final(state).wf(),
        r matches Ok(resp) ==> ({
            &&& find_user_by_username(old(state).users@, dto.username@) is None
            &&& find_user_by_email(old(state).users@, dto.email@) is None
            &&& resp.user.username == dto.username
            &&& resp.user.email == dto.email
            &&& bcrypt_matches(dto.password@, resp.user.password@)
            &&& resp.token@.len() == 36
            &&& final(state).users@ == old(state).users@.push(resp.user)
            &&& final(state).boards@ == old(state).boards@
            &&& final(state).panels@ == old(state).panels@
            &&& final(state).datasets@ == old(state).datasets@
            &&& final(state).dataset_rows@ == old(state).dataset_rows@
        }),
        r matches Err(e) ==> *final(state) == *old(state) && e matches DbError::InvalidData(_),
        find_user_by_username(old(state).users@, dto.username@) is Some || find_user_by_email(
            old(state).users@,
            dto.email@,
        ) is Some ==> r is Err,
{
    let password_hash = match hash_password(dto.password.as_str()) {
        Ok(h) => h,
        Err(m) => {
            return Err(
                DbError::InvalidData(
                    String::from_str("Error al hashear contraseña: ").concat(m.as_str()),
                ),
            );
        },
    };
    let id = new_id();
    let now = now_rfc3339();
    let token = new_id();
    register_user_with(state, dto, password_hash, id, now, token)
}

/// Log an existing user in. The result is `Ok` exactly when the username is
/// present and the password verifies against its stored hash; every failure
/// is `Unauthorized`, never `NotFound`, so the caller cannot distinguish an
/// unknown username from a wrong password.
pub fn login_user(state: &AppState, dto: LoginDto) -> (r: DbResult<AuthResponse>)
    ensures
        ({
            match find_user_by_username(state.users@, dto.username@) {
                Option::None => r matches Err(e) && e == DbError::Unauthorized,
                Option::Some(u) => {
                    if bcrypt_matches(dto.password@, u.password@) {
                        r matches Ok(resp) && resp.user == u && resp.token@.len() == 36
                    } else {
                        r matches Err(e) && e == DbError::Unauthorized
                    }
                },
            }
        }),
{
    let idx = match lookup_user_by_username(&state.users, &dto.username) {
        Some(i) => i,
        None => {
            return Err(DbError::Unauthorized);
        },
    };
    let user = state.users[idx].duplicate();
    let valid = verify_password(dto.password.as_str(), user.password.as_str());
    if !valid {
        return Err(DbError::Unauthorized);
    }
    let token = new_id();
    Ok(AuthResponse { user, token })
}

/// Fetch one user by identifier; absent means `NotFound`.
pub fn get_user_by_id(state: &AppState, user_id: String) -> (r: DbResult<User>)
    ensures
        ({
            match find_user_by_id(state.users@, user_id@) {
                Option::None => r matches Err(e) && e == DbError::NotFound,
                Option::Some(u) => r matches Ok(ru) && ru == u,
            }
        }),
{
    match lookup_user_by_id(&state.users, &user_id) {
        Some(i) => Ok(state.users[i].duplicate()),
        None => Err(DbError::NotFound),
    }
}

} // verus!
