//! Registration and login: the two handlers that hand tokens out.

use vstd::prelude::*;
use crate::auth::password::{digest_accepts, hash, names_cost, verify, HASH_COST};
use crate::auth::token::{issued, sign, signed_token, validation};
use crate::error::{ApiError, HashError, InvalidToken};
use crate::model::Claims;
use crate::state::AppState;
use crate::model::TodoView;
use crate::store::{
    lemma_account_is_found_later, lemma_account_is_unique, lemma_list_without_tasks, lemma_with_task_valid, lemma_with_user_valid, owned_by, Store, Tables,
};

verus! {

/// The body of a registration or login request.
#[derive(Debug, PartialEq, Eq)]
pub struct AuthRequest {
    pub username: String,
    pub password: String,
}

/// The body of the answer to a successful registration or login.
#[derive(Debug, PartialEq, Eq)]
pub struct AuthResponse {
    pub token: String,
}

/// The second at which the tokens of this service expire: a fixed instant
/// in the year 2033.
pub const TOKEN_EXPIRY: usize = 2000000000;

/// The text of the task that every new account starts with.
pub open spec fn seed_task() -> Seq<char> {
    "Add a Task!"@
}

/// What opening an account does to the tables: the account is created,
/// then its first task. The two steps are not one: where the second fails,
/// the account stays.
pub open spec fn registration(tables: Tables, username: Seq<char>, password_hash: Seq<char>) -> (
    Tables,
    Result<i64, ApiError>,
) {
    let (with_account, created) = tables.create_user(username, password_hash);
    match created {
        Ok(id) => {
            let (seeded, task) = with_account.create(id, seed_task());
            match task {
                Ok(_) => (seeded, Ok(id)),
                Err(e) => (seeded, Err(e)),
            }
        },
        Err(e) => (with_account, Err(e)),
    }
}

/// Whom a login with these credentials is for: the account that goes by
/// `username`, if its digest accepts `password`.
pub open spec fn credentials(tables: Tables, username: Seq<char>, password: Seq<char>) -> Result<
    i64,
    ApiError,
> {
    match tables.find_by_username(username) {
        Ok((id, digest)) => match digest_accepts(digest, password) {
            Some(true) => Ok(id),
            Some(false) => Err(ApiError::Unauthenticated),
            None => Err(ApiError::Internal),
        },
        Err(e) => Err(e),
    }
}

/// The token of an answer as plain characters.
pub open spec fn answer_chars(answer: Result<AuthResponse, ApiError>) -> Result<
    Seq<char>,
    ApiError,
> {
    match answer {
        Ok(response) => Ok(response.token@),
        Err(e) => Err(e),
    }
}

/// Holds of an answer that grants `user_id` a token. Where the signer
/// makes a token for `user_id` until [`TOKEN_EXPIRY`], the answer carries
/// it, and it validates for `user_id` at every instant before the expiry
/// and at none after. Where the signer fails, the answer is `Internal`.
pub open spec fn grants_token(
    secret: Seq<char>,
    user_id: i64,
    answer: Result<AuthResponse, ApiError>,
) -> bool {
    issued(secret, user_id, TOKEN_EXPIRY, answer_chars(answer))
}

/// What a login with these credentials is answered: a token for the
/// account if the credentials hold, else why they do not.
pub open spec fn logged_in(
    tables: Tables,
    secret: Seq<char>,
    username: Seq<char>,
    password: Seq<char>,
    answer: Result<AuthResponse, ApiError>,
) -> bool {
    match credentials(tables, username, password) {
        Ok(id) => grants_token(secret, id, answer),
        Err(e) => answer == Err::<AuthResponse, ApiError>(e),
    }
}

/// What a registration is answered once the hasher has spoken, and what
/// it leaves of the tables. Where the hasher failed, nothing changes and
/// the answer is `Internal`. Where it made a digest, the account is opened
/// under it as [`registration`] says; the answer grants the new account a
/// token, or passes on why the account could not be opened.
pub open spec fn registered_with(
    hashed: Result<Seq<char>, HashError>,
    before: Tables,
    secret: Seq<char>,
    username: Seq<char>,
    after: Tables,
    answer: Result<AuthResponse, ApiError>,
) -> bool {
    match hashed {
        Ok(digest) => {
            &&& after == registration(before, username, digest).0
            &&& match registration(before, username, digest).1 {
                Ok(id) => grants_token(secret, id, answer),
                Err(e) => answer == Err::<AuthResponse, ApiError>(e),
            }
        },
        Err(_) => after == before && answer == Err::<AuthResponse, ApiError>(ApiError::Internal),
    }
}

/// The digest of a hashing outcome as plain characters.
pub open spec fn digest_chars(hashed: Result<String, HashError>) -> Result<Seq<char>, HashError> {
    match hashed {
        Ok(digest) => Ok(digest@),
        Err(e) => Err(e),
    }
}

/// Holds of a registration that got as far as the tables: the hasher
/// made `digest`, which accepts the password and names its cost, and
/// tables and answer are what [`registered_with`] says of that digest.
pub open spec fn registered_under(
    digest: Seq<char>,
    before: Tables,
    secret: Seq<char>,
    username: Seq<char>,
    password: Seq<char>,
    after: Tables,
    answer: Result<AuthResponse, ApiError>,
) -> bool {
    &&& digest_accepts(digest, password) == Some(true)
    &&& names_cost(digest, HASH_COST)
    &&& registered_with(Ok(digest), before, secret, username, after, answer)
}

/// Holds of the tables after a registration and of its answer: either the
/// hasher failed, nothing changed and the answer is `Internal`; or the
/// registration got as far as the tables, under some digest of the
/// password.
pub open spec fn registered(
    before: Tables,
    secret: Seq<char>,
    username: Seq<char>,
    password: Seq<char>,
    after: Tables,
    answer: Result<AuthResponse, ApiError>,
) -> bool {
    ||| after == before && answer == Err::<AuthResponse, ApiError>(ApiError::Internal)
    ||| exists|digest: Seq<char>| #[trigger]
        registered_under(digest, before, secret, username, password, after, answer)
}

/// Opens an account: creates it and gives it its first task.
///
/// Fails with `DuplicateUsername`, and changes nothing, if the name is
/// taken.
pub fn open_account(store: &mut Store, username: String, password_hash: String) -> (r: Result<
    i64,
    ApiError,
>)
    requires
        old(store)@.valid(),
    ensures
        final(store)@.valid(),
        (final(store)@, r) == registration(old(store)@, username@, password_hash@),
{
    let id = store.create_user(username, password_hash)?;
    match store.create(id, "Add a Task!".to_owned()) {
        Ok(_) => Ok(id),
        Err(e) => Err(e),
    }
}

/// Signs a token for `user_id` that expires at [`TOKEN_EXPIRY`].
///
/// Answers with the token exactly when the signer makes one, and with
/// `Internal` otherwise.
pub fn token_response(secret: &str, user_id: i64) -> (r: Result<AuthResponse, ApiError>)
    ensures
        grants_token(secret@, user_id, r),
        r is Ok <==> signed_token(secret@, user_id, TOKEN_EXPIRY) is Some,
{
    match sign(secret, &Claims { id: user_id, exp: TOKEN_EXPIRY }) {
        Ok(token) => Ok(AuthResponse { token }),
        Err(e) => Err(e),
    }
}

/// Checks a username and a password against the accounts.
///
/// `NotFound` if nobody goes by that name, `Unauthenticated` if the
/// password is wrong, `Internal` if the stored digest cannot be read.
pub fn check_credentials(store: &Store, username: &str, password: &str) -> (r: Result<
    i64,
    ApiError,
>)
    requires
        store@.valid(),
    ensures
        r == credentials(store@, username@, password@),
{
    let (id, digest) = store.find_by_username(username)?;
    match verify(password, digest.as_str()) {
        Ok(true) => Ok(id),
        Ok(false) => Err(ApiError::Unauthenticated),
        Err(_) => Err(ApiError::Internal),
    }
}

/// Registers an account under the digest that the hasher made, if it made
/// one, and answers with a token for it.
///
/// Fails with `Internal`, and changes nothing, if the hasher failed; with
/// `DuplicateUsername`, and changes nothing, if the name is taken. Once
/// the account is opened, the answer is a token exactly when the signer
/// makes one.
pub fn register_with(
    state: &mut AppState,
    username: String,
    hashed: Result<String, HashError>,
) -> (r: Result<AuthResponse, ApiError>)
    requires
        old(state).store@.valid(),
    ensures
        final(state).store@.valid(),
        final(state).jwt_secret == old(state).jwt_secret,
        registered_with(
            digest_chars(hashed),
            old(state).store@,
            old(state).jwt_secret@,
            username@,
            final(state).store@,
            r,
        ),
{
    match hashed {
        Ok(digest) => {
            let id = open_account(&mut state.store, username, digest)?;
            token_response(state.jwt_secret.as_str(), id)
        },
        Err(_) => Err(ApiError::Internal),
    }
}

/// Registers an account and answers with a token for it.
///
/// The password is hashed first; then the account is opened, which fails
/// with `DuplicateUsername` if the name is taken; then the token is
/// signed. Nothing that was done is undone when a later step fails.
pub fn register(state: &mut AppState, payload: AuthRequest) -> (r: Result<AuthResponse, ApiError>)
    requires
        old(state).store@.valid(),
    ensures
        final(state).store@.valid(),
        final(state).jwt_secret == old(state).jwt_secret,
        registered(
            old(state).store@,
            old(state).jwt_secret@,
            payload.username@,
            payload.password@,
            final(state).store@,
            r,
        ),
{
    let hashed = hash(payload.password.as_str());
    let ghost digest: Seq<char> = if hashed is Ok {
        (hashed->Ok_0)@
    } else {
        Seq::empty()
    };
    let r = register_with(state, payload.username, hashed);
    proof {
        if hashed is Ok {
            assert(registered_under(
                digest,
                old(state).store@,
                state.jwt_secret@,
                payload.username@,
                payload.password@,
                state.store@,
                r,
            ));
        }
    }
    r
}

/// Logs a user in and answers with a token for the account.
///
/// `NotFound` if nobody goes by the username, `Unauthenticated` if the
/// password is wrong, `Internal` if the stored digest cannot be read.
/// Where the credentials hold, the answer is a token exactly when the
/// signer makes one, and `Internal` otherwise.
pub fn login(state: &AppState, payload: AuthRequest) -> (r: Result<AuthResponse, ApiError>)
    requires
        state.store@.valid(),
    ensures
        logged_in(state.store@, state.jwt_secret@, payload.username@, payload.password@, r),
        r is Ok <==> credentials(state.store@, payload.username@, payload.password@) is Ok
            && signed_token(
            state.jwt_secret@,
            credentials(state.store@, payload.username@, payload.password@)->Ok_0,
            TOKEN_EXPIRY,
        ) is Some,
{
    let id = check_credentials(
        &state.store,
        payload.username.as_str(),
        payload.password.as_str(),
    )?;
    token_response(state.jwt_secret.as_str(), id)
}

/// When opening an account goes through: exactly when the name is free
/// and an identifier is left in each table. The account then gets the
/// next identifier.
pub proof fn lemma_registration_goes_through(
    tables: Tables,
    username: Seq<char>,
    password_hash: Seq<char>,
)
    requires
        tables.valid(),
    ensures
        registration(tables, username, password_hash).1 is Ok <==> !tables.has_username(username)
            && tables.next_user_id < i64::MAX && tables.next_todo_id < i64::MAX,
        registration(tables, username, password_hash).1 is Ok ==> registration(
            tables,
            username,
            password_hash,
        ).1 == Ok::<i64, ApiError>(tables.next_user_id as i64),
        tables.has_username(username) ==> registration(tables, username, password_hash) == (
            tables,
            Err::<i64, ApiError>(ApiError::DuplicateUsername),
        ),
{
    if !tables.has_username(username) && tables.next_user_id < i64::MAX {
        let with_account = tables.with_user(username, password_hash);
        let last = tables.users.len() as int;
        assert(with_account.users[last].id == tables.next_user_id as i64);
    }
}

/// What a registration is answered once the hasher has made a digest:
/// `DuplicateUsername` exactly when the name is taken, and a token
/// exactly when the name is free, an identifier is left in each table and
/// the signer makes a token for the new account.
pub proof fn lemma_registration_is_answered(
    digest: Seq<char>,
    before: Tables,
    secret: Seq<char>,
    username: Seq<char>,
    after: Tables,
    answer: Result<AuthResponse, ApiError>,
)
    requires
        before.valid(),
        registered_with(Ok(digest), before, secret, username, after, answer),
    ensures
        answer == Err::<AuthResponse, ApiError>(ApiError::DuplicateUsername)
            <==> before.has_username(username),
        answer is Ok <==> {
            &&& !before.has_username(username)
            &&& before.next_user_id < i64::MAX
            &&& before.next_todo_id < i64::MAX
            &&& signed_token(secret, before.next_user_id as i64, TOKEN_EXPIRY) is Some
        },
{
    lemma_registration_goes_through(before, username, digest);
}

/// A username can be registered once: after an account was opened under a
/// name, opening another under the same name fails with
/// `DuplicateUsername` and changes nothing, whatever the passwords are.
pub proof fn lemma_username_is_taken_once(
    tables: Tables,
    username: Seq<char>,
    first_hash: Seq<char>,
    second_hash: Seq<char>,
)
    requires
        tables.valid(),
        registration(tables, username, first_hash).1 is Ok,
    ensures
        !tables.has_username(username),
        ({
            let after = registration(tables, username, first_hash).0;
            &&& after.valid()
            &&& after.has_username(username)
            &&& registration(after, username, second_hash) == (
                after,
                Err::<i64, ApiError>(ApiError::DuplicateUsername),
            )
        }),
{
    let with_account = tables.with_user(username, first_hash);
    lemma_with_user_valid(tables, username, first_hash);
    let last = tables.users.len() as int;
    assert(with_account.users[last].username == username);
    let id = tables.next_user_id as i64;
    assert(with_account.users[last].id == id);
    lemma_with_task_valid(with_account, id, seed_task());
    let after = registration(tables, username, first_hash).0;
    assert(after.users[last].username == username);
}

/// On a new store the first registration of a name goes through as far as
/// the tables decide, and a second one under the same name is refused.
pub proof fn lemma_register_twice(username: Seq<char>, first_hash: Seq<char>, second_hash: Seq<char>)
    ensures
        ({
            let (after, first) = registration(Tables::empty(), username, first_hash);
            &&& first == Ok::<i64, ApiError>(1)
            &&& registration(after, username, second_hash) == (
                after,
                Err::<i64, ApiError>(ApiError::DuplicateUsername),
            )
        }),
{
    let tables = Tables::empty();
    let with_account = tables.with_user(username, first_hash);
    assert(with_account.users[0].id == 1);
    lemma_username_is_taken_once(tables, username, first_hash, second_hash);
}

/// The same seen from the handler: once a registration has answered with
/// a token, every later registration under that name is refused and
/// changes nothing. It is refused with `DuplicateUsername`, unless the
/// hasher fails before the tables are asked.
pub proof fn lemma_second_registration_is_refused(
    before: Tables,
    secret: Seq<char>,
    username: Seq<char>,
    first_password: Seq<char>,
    between: Tables,
    first: Result<AuthResponse, ApiError>,
    second_password: Seq<char>,
    after: Tables,
    second: Result<AuthResponse, ApiError>,
)
    requires
        before.valid(),
        registered(before, secret, username, first_password, between, first),
        first is Ok,
        registered(between, secret, username, second_password, after, second),
    ensures
        after == between,
        second == Err::<AuthResponse, ApiError>(ApiError::DuplicateUsername) || second == Err::<
            AuthResponse,
            ApiError,
        >(ApiError::Internal),
{
    let first_hash = choose|digest: Seq<char>|
        registered_under(digest, before, secret, username, first_password, between, first);
    if !(after == between && second == Err::<AuthResponse, ApiError>(ApiError::Internal)) {
        let second_hash = choose|digest: Seq<char>|
            registered_under(digest, between, secret, username, second_password, after, second);
        lemma_username_is_taken_once(before, username, first_hash, second_hash);
    }
}

/// A new account starts with exactly one task: after an account was
/// opened, listing its tasks yields the seeded task, not completed, and
/// nothing else.
pub proof fn lemma_fresh_account_has_one_task(
    tables: Tables,
    username: Seq<char>,
    password_hash: Seq<char>,
)
    requires
        tables.valid(),
        registration(tables, username, password_hash).1 is Ok,
    ensures
        ({
            let (after, opened) = registration(tables, username, password_hash);
            after.list(opened->Ok_0) == seq![
                TodoView {
                    id: tables.next_todo_id as i64,
                    user_id: opened->Ok_0,
                    task: seed_task(),
                    completed: false,
                },
            ]
        }),
{
    let (after, opened) = registration(tables, username, password_hash);
    let id = opened->Ok_0;
    let seeded = TodoView {
        id: tables.next_todo_id as i64,
        user_id: id,
        task: seed_task(),
        completed: false,
    };
    assert forall|k: int| 0 <= k < tables.todos.len() implies (
    #[trigger] tables.todos[k]).user_id != id by {
        let owner = tables.todos[k].user_id;
        assert(tables.has_user(owner));
        let u = choose|u: int| 0 <= u < tables.users.len() && (#[trigger] tables.users[u]).id == owner;
        assert(tables.users[u].id < tables.next_user_id);
    }
    lemma_list_without_tasks(tables, id);
    tables.todos.lemma_filter_push(seeded, owned_by(id));
    assert(after.todos == tables.todos.push(seeded));
    assert(after.list(id) =~= seq![seeded]);
}

/// The same seen from the handler: after a registration that answered
/// with a token, the new account is the one that the username finds, and
/// its listing holds the seeded task, not completed, and nothing else.
pub proof fn lemma_registered_account_has_one_task(
    before: Tables,
    secret: Seq<char>,
    username: Seq<char>,
    password: Seq<char>,
    after: Tables,
    answer: Result<AuthResponse, ApiError>,
)
    requires
        before.valid(),
        registered(before, secret, username, password, after, answer),
        answer is Ok,
    ensures
        after.valid(),
        after.find_by_username(username) is Ok,
        after.find_by_username(username)->Ok_0.0 == before.next_user_id,
        after.list(before.next_user_id as i64) == seq![
            TodoView {
                id: before.next_todo_id as i64,
                user_id: before.next_user_id as i64,
                task: seed_task(),
                completed: false,
            },
        ],
{
    let digest = choose|digest: Seq<char>|
        registered_under(digest, before, secret, username, password, after, answer);
    lemma_username_is_taken_once(before, username, digest, digest);
    lemma_fresh_account_has_one_task(before, username, digest);
    let last = before.users.len() as int;
    assert(after.users[last].username == username);
    lemma_account_is_unique(after, username, last);
}

/// A registration that answered with a token is followed by logins that
/// do: in every later state of the tables, a login under the same name
/// and password is answered with a token. It is the token that the
/// registration gave, and it validates for the new account at every
/// instant before [`TOKEN_EXPIRY`].
pub proof fn lemma_login_after_registration(
    before: Tables,
    secret: Seq<char>,
    username: Seq<char>,
    password: Seq<char>,
    after: Tables,
    first: Result<AuthResponse, ApiError>,
    later: Tables,
    second: Result<AuthResponse, ApiError>,
)
    requires
        before.valid(),
        registered(before, secret, username, password, after, first),
        first is Ok,
        later.valid(),
        after.kept_in(later),
        logged_in(later, secret, username, password, second),
    ensures
        credentials(later, username, password) == Ok::<i64, ApiError>(before.next_user_id as i64),
        second is Ok,
        answer_chars(second) == answer_chars(first),
        forall|now: u64|
            now < TOKEN_EXPIRY ==> #[trigger] validation(secret, (second->Ok_0).token@, now) == Ok::<
                i64,
                InvalidToken,
            >(before.next_user_id as i64),
{
    let digest = choose|digest: Seq<char>|
        registered_under(digest, before, secret, username, password, after, first);
    lemma_username_is_taken_once(before, username, digest, digest);
    lemma_registration_goes_through(before, username, digest);
    let last = before.users.len() as int;
    assert(after.users[last].username == username);
    assert(after.users[last].password_hash == digest);
    lemma_account_is_unique(after, username, last);
    lemma_account_is_found_later(after, later, username);
}

/// Accounts do not get in each other's way: after two registrations that
/// answered with tokens, the two accounts are numbered differently, and a
/// login as the second is answered with a token that validates for the
/// second.
pub proof fn lemma_login_as_second_account(
    before: Tables,
    secret: Seq<char>,
    first_name: Seq<char>,
    first_password: Seq<char>,
    between: Tables,
    first: Result<AuthResponse, ApiError>,
    second_name: Seq<char>,
    second_password: Seq<char>,
    after: Tables,
    second: Result<AuthResponse, ApiError>,
    answer: Result<AuthResponse, ApiError>,
)
    requires
        before.valid(),
        registered(before, secret, first_name, first_password, between, first),
        first is Ok,
        registered(between, secret, second_name, second_password, after, second),
        second is Ok,
        logged_in(after, secret, second_name, second_password, answer),
    ensures
        between.next_user_id == before.next_user_id + 1,
        answer is Ok,
        forall|now: u64|
            now < TOKEN_EXPIRY ==> #[trigger] validation(secret, (answer->Ok_0).token@, now) == Ok::<
                i64,
                InvalidToken,
            >(between.next_user_id as i64),
{
    let digest = choose|digest: Seq<char>|
        registered_under(digest, before, secret, first_name, first_password, between, first);
    lemma_username_is_taken_once(before, first_name, digest, digest);
    lemma_registration_goes_through(before, first_name, digest);
    let second_digest = choose|digest: Seq<char>|
        registered_under(digest, between, secret, second_name, second_password, after, second);
    lemma_username_is_taken_once(between, second_name, second_digest, second_digest);
    lemma_login_after_registration(
        between,
        secret,
        second_name,
        second_password,
        after,
        second,
        after,
        answer,
    );
}

} // verus!
