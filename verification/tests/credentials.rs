use todo_service::auth::extractor::{authenticate_at, bearer_token, AuthUser};
use todo_service::auth::password::{checking_outcome, hash, hashing_outcome, verify, HASH_COST};
use todo_service::auth::token::{
    claims_outcome, issue_at, sign, signing_outcome, validate_at, Payload,
};
use todo_service::auth::verification::{
    check_credentials, login, open_account, register_with, token_response, AuthRequest,
    TOKEN_EXPIRY,
};
use todo_service::error::{ApiError, HashError, InvalidToken};
use todo_service::model::Claims;
use todo_service::state::AppState;
use todo_service::store::Store;

const SECRET: &str = "secret_key";

fn token_error() -> jsonwebtoken::errors::Error {
    let key = jsonwebtoken::DecodingKey::from_secret(SECRET.as_bytes());
    jsonwebtoken::decode::<serde_json::Value>("no token", &key, &jsonwebtoken::Validation::default())
        .unwrap_err()
}

fn bcrypt_error() -> bcrypt::BcryptError {
    bcrypt::verify("pw", "not a digest").unwrap_err()
}

#[test]
fn token_round_trip() {
    let token = issue_at(SECRET, 42, 1_000, 60).unwrap();
    assert_eq!(validate_at(SECRET, &token, 1_000), Ok(42));
    assert_eq!(validate_at(SECRET, &token, 1_059), Ok(42));
    assert_eq!(validate_at(SECRET, &token, 0), Ok(42));
    for id in [i64::MIN, -1, 0, 1, i64::MAX] {
        let token = issue_at(SECRET, id, 5, 5).unwrap();
        assert_eq!(validate_at(SECRET, &token, 9), Ok(id));
    }
}

#[test]
fn token_expires_at_its_expiry() {
    let token = issue_at(SECRET, 42, 1_000, 60).unwrap();
    assert_eq!(validate_at(SECRET, &token, 1_060), Err(InvalidToken));
    assert_eq!(validate_at(SECRET, &token, 1_061), Err(InvalidToken));
    assert_eq!(validate_at(SECRET, &token, u64::MAX), Err(InvalidToken));
    // A lifetime of zero is over as soon as it starts.
    let token = issue_at(SECRET, 42, 1_000, 0).unwrap();
    assert_eq!(validate_at(SECRET, &token, 1_000), Err(InvalidToken));
    assert_eq!(validate_at(SECRET, &token, 999), Ok(42));
}

fn clock() -> u64 {
    std::time::SystemTime::now().duration_since(std::time::UNIX_EPOCH).unwrap().as_secs()
}

#[test]
fn expired_token_is_rejected_today() {
    // Issued in 1970 for one second: long past.
    let token = issue_at(SECRET, 7, 0, 1).unwrap();
    assert_eq!(validate_at(SECRET, &token, clock()), Err(InvalidToken));
    let state = AppState::new(SECRET.to_string());
    let header = format!("Bearer {token}");
    assert_eq!(
        AuthUser::from_request_parts(Some(header.as_str()), &state, clock()),
        Err(ApiError::Unauthenticated)
    );
    assert_eq!(
        AuthUser::from_request_parts(Some(header.as_str()), &state, 0),
        Ok(AuthUser(7))
    );
}

#[test]
fn fresh_token_is_accepted_today() {
    let now = clock();
    let token = issue_at(SECRET, 7, now, 3_600).unwrap();
    assert_eq!(validate_at(SECRET, &token, now), Ok(7));
    assert_eq!(validate_at(SECRET, &token, now + 3_599), Ok(7));
    assert_eq!(validate_at(SECRET, &token, now + 3_600), Err(InvalidToken));
    let token = issue_at(SECRET, 7, now, 0).unwrap();
    assert_eq!(validate_at(SECRET, &token, now), Err(InvalidToken));
}

#[test]
fn token_with_unrepresentable_expiry_is_not_issued() {
    assert_eq!(issue_at(SECRET, 1, u64::MAX, 1), Err(ApiError::Internal));
    assert_eq!(issue_at(SECRET, 1, 1, u64::MAX), Err(ApiError::Internal));
    assert!(issue_at(SECRET, 1, 0, u64::MAX).is_ok());
    assert!(issue_at(SECRET, 1, u64::MAX, 0).is_ok());
}

#[test]
fn an_empty_secret_still_signs() {
    let token = sign("", &Claims { id: 3, exp: 2_000 }).unwrap();
    assert_eq!(validate_at("", &token, 1_999), Ok(3));
    assert_eq!(validate_at(SECRET, &token, 1_999), Err(InvalidToken));
}

#[test]
fn token_is_bound_to_the_secret() {
    let token = sign(SECRET, &Claims { id: 3, exp: 2_000 }).unwrap();
    assert_eq!(validate_at(SECRET, &token, 1_999), Ok(3));
    assert_eq!(validate_at("another secret", &token, 1_999), Err(InvalidToken));
    assert_eq!(validate_at("", &token, 1_999), Err(InvalidToken));
}

#[test]
fn damaged_tokens_are_rejected() {
    let token = sign(SECRET, &Claims { id: 3, exp: 2_000 }).unwrap();
    assert_ne!(token, SECRET);
    assert_eq!(token.split('.').count(), 3);
    let mut tampered = token.clone();
    let last = tampered.pop().unwrap();
    tampered.push(if last == 'A' { 'B' } else { 'A' });
    assert_eq!(validate_at(SECRET, &tampered, 0), Err(InvalidToken));
    assert_eq!(validate_at(SECRET, "", 0), Err(InvalidToken));
    assert_eq!(validate_at(SECRET, "a.b.c", 0), Err(InvalidToken));
    assert_eq!(validate_at(SECRET, &token[..token.len() - 1], 0), Err(InvalidToken));
    assert_eq!(validate_at(SECRET, &format!("{token}."), 0), Err(InvalidToken));
}

#[test]
fn signing_is_deterministic() {
    let claims = Claims { id: 3, exp: 2_000 };
    assert_eq!(sign(SECRET, &claims), sign(SECRET, &claims));
    assert_ne!(sign(SECRET, &claims), sign(SECRET, &Claims { id: 4, exp: 2_000 }));
    assert_ne!(sign(SECRET, &claims), sign(SECRET, &Claims { id: 3, exp: 2_001 }));
    assert_ne!(sign(SECRET, &claims), sign("x", &claims));
}

fn foreign_token(payload: serde_json::Value) -> String {
    let key = jsonwebtoken::EncodingKey::from_secret(SECRET.as_bytes());
    jsonwebtoken::encode(&jsonwebtoken::Header::default(), &payload, &key).unwrap()
}

fn object(members: &[(&str, serde_json::Value)]) -> serde_json::Value {
    let mut map = serde_json::Map::new();
    for (name, value) in members {
        map.insert(name.to_string(), value.clone());
    }
    serde_json::Value::Object(map)
}

#[test]
fn tokens_need_both_claims_as_integers() {
    let full = foreign_token(object(&[("id", 9.into()), ("exp", 500.into())]));
    assert_eq!(validate_at(SECRET, &full, 499), Ok(9));
    let extra = foreign_token(object(&[
        ("id", 9.into()),
        ("exp", 500.into()),
        ("name", "alice".into()),
    ]));
    assert_eq!(validate_at(SECRET, &extra, 499), Ok(9));

    let no_id = foreign_token(object(&[("exp", 500.into())]));
    assert_eq!(validate_at(SECRET, &no_id, 0), Err(InvalidToken));
    let no_exp = foreign_token(object(&[("id", 9.into())]));
    assert_eq!(validate_at(SECRET, &no_exp, 0), Err(InvalidToken));
    let text_id = foreign_token(object(&[("id", "9".into()), ("exp", 500.into())]));
    assert_eq!(validate_at(SECRET, &text_id, 0), Err(InvalidToken));
    let fractional = foreign_token(object(&[("id", 9.into()), ("exp", 500.5.into())]));
    assert_eq!(validate_at(SECRET, &fractional, 0), Err(InvalidToken));
    let huge_id = foreign_token(object(&[("id", u64::MAX.into()), ("exp", 500.into())]));
    assert_eq!(validate_at(SECRET, &huge_id, 0), Err(InvalidToken));
    let not_an_object = foreign_token(serde_json::Value::from(5));
    assert_eq!(validate_at(SECRET, &not_an_object, 0), Err(InvalidToken));
}

#[test]
fn tokens_of_another_algorithm_are_rejected() {
    let key = jsonwebtoken::EncodingKey::from_secret(SECRET.as_bytes());
    let header = jsonwebtoken::Header::new(jsonwebtoken::Algorithm::HS512);
    let payload = object(&[("id", 9.into()), ("exp", 500.into())]);
    let token = jsonwebtoken::encode(&header, &payload, &key).unwrap();
    assert_eq!(validate_at(SECRET, &token, 0), Err(InvalidToken));
}

#[test]
fn outcomes_of_the_signer() {
    assert_eq!(signing_outcome(Ok("abc".to_string())), Ok("abc".to_string()));
    assert_eq!(signing_outcome(Err(token_error())), Err(ApiError::Internal));
}

#[test]
fn outcomes_of_the_decoder() {
    let both = Payload { id: Some(5), exp: Some(100) };
    assert_eq!(claims_outcome(Ok(both), 99), Ok(5));
    assert_eq!(claims_outcome(Ok(both), 100), Err(InvalidToken));
    assert_eq!(claims_outcome(Ok(both), 101), Err(InvalidToken));
    assert_eq!(claims_outcome(Ok(Payload { id: None, exp: Some(100) }), 0), Err(InvalidToken));
    assert_eq!(claims_outcome(Ok(Payload { id: Some(5), exp: None }), 0), Err(InvalidToken));
    assert_eq!(claims_outcome(Ok(Payload { id: None, exp: None }), 0), Err(InvalidToken));
    assert_eq!(claims_outcome(Ok(Payload { id: Some(5), exp: Some(0) }), 0), Err(InvalidToken));
    assert_eq!(claims_outcome(Ok(Payload { id: Some(-5), exp: Some(u64::MAX) }), 0), Ok(-5));
    assert_eq!(claims_outcome(Err(token_error()), 0), Err(InvalidToken));
}

#[test]
fn password_round_trip() {
    for password in ["pw1", "", "correct horse battery staple", "pässwörd ✓"] {
        let digest = hash(password).unwrap();
        assert_ne!(digest, password);
        assert_eq!(verify(password, &digest), Ok(true));
    }
}

#[test]
fn other_passwords_do_not_match() {
    let digest = hash("pw1").unwrap();
    assert_eq!(verify("pw2", &digest), Ok(false));
    assert_eq!(verify("", &digest), Ok(false));
    assert_eq!(verify("PW1", &digest), Ok(false));
    assert_eq!(verify("pw1 ", &digest), Ok(false));
}

#[test]
fn passwords_are_compared_up_to_72_bytes() {
    let long = "a".repeat(72);
    let digest = hash(&long).unwrap();
    assert_eq!(verify(&long, &digest), Ok(true));
    assert_eq!(verify(&format!("{long}b"), &digest), Ok(true));
    assert_eq!(verify(&"a".repeat(71), &digest), Ok(false));
    let mut other = "a".repeat(71);
    other.push('b');
    assert_eq!(verify(&other, &digest), Ok(false));
}

#[test]
fn digests_are_salted_and_name_their_cost() {
    assert_eq!(HASH_COST, 8);
    let first = hash("pw1").unwrap();
    let second = hash("pw1").unwrap();
    assert_ne!(first, second);
    assert_eq!(first.len(), 60);
    assert!(first.starts_with("$2b$08$"));
    assert!(!first.contains("pw1"));
    // A digest made at another cost is still accepted.
    let cheaper = bcrypt::hash("pw1", 4).unwrap();
    assert!(cheaper.starts_with("$2b$04$"));
    assert_eq!(verify("pw1", &cheaper), Ok(true));
    assert_eq!(verify("pw2", &cheaper), Ok(false));
}

#[test]
fn malformed_digest_is_an_error_not_a_mismatch() {
    assert_eq!(verify("pw1", "not a digest"), Err(HashError));
    assert_eq!(verify("pw1", ""), Err(HashError));
    assert_eq!(verify("", ""), Err(HashError));
}

#[test]
fn outcomes_of_the_hasher() {
    assert_eq!(hashing_outcome(Ok("digest".to_string())), Ok("digest".to_string()));
    assert_eq!(hashing_outcome(Err(bcrypt_error())), Err(HashError));
    assert_eq!(checking_outcome(Ok(true)), Ok(true));
    assert_eq!(checking_outcome(Ok(false)), Ok(false));
    assert_eq!(checking_outcome(Err(bcrypt_error())), Err(HashError));
}

#[test]
fn bearer_prefix() {
    assert_eq!(bearer_token("Bearer abc"), Some("abc"));
    assert_eq!(bearer_token("Bearer "), Some(""));
    assert_eq!(bearer_token("Bearer  abc"), Some(" abc"));
    assert_eq!(bearer_token("Bearer a b"), Some("a b"));
    assert_eq!(bearer_token("Bearer ✓é"), Some("✓é"));
    assert_eq!(bearer_token("Bearer"), None);
    assert_eq!(bearer_token("bearer abc"), None);
    assert_eq!(bearer_token("BEARER abc"), None);
    assert_eq!(bearer_token("Basic abc"), None);
    assert_eq!(bearer_token(" Bearer abc"), None);
    assert_eq!(bearer_token("Bearer\tabc"), None);
    assert_eq!(bearer_token("abc"), None);
    assert_eq!(bearer_token(""), None);
    assert_eq!(bearer_token("✓✓✓✓✓✓✓✓"), None);
}

#[test]
fn guard_rejects_uniformly() {
    let token = sign(SECRET, &Claims { id: 3, exp: 2_000 }).unwrap();
    let good = format!("Bearer {token}");
    assert_eq!(authenticate_at(SECRET, Some(good.as_str()), 1_999), Ok(AuthUser(3)));

    let unauthenticated = Err(ApiError::Unauthenticated);
    assert_eq!(authenticate_at(SECRET, None, 0), unauthenticated);
    assert_eq!(authenticate_at(SECRET, Some(""), 0), unauthenticated);
    assert_eq!(authenticate_at(SECRET, Some(token.as_str()), 0), unauthenticated);
    let basic = format!("Basic {token}");
    assert_eq!(authenticate_at(SECRET, Some(basic.as_str()), 0), unauthenticated);
    let lower = format!("bearer {token}");
    assert_eq!(authenticate_at(SECRET, Some(lower.as_str()), 0), unauthenticated);
    assert_eq!(authenticate_at(SECRET, Some("Bearer "), 0), unauthenticated);
    assert_eq!(authenticate_at(SECRET, Some("Bearer x.y.z"), 0), unauthenticated);
    assert_eq!(authenticate_at(SECRET, Some(good.as_str()), 2_000), unauthenticated);
    assert_eq!(authenticate_at("rotated", Some(good.as_str()), 0), unauthenticated);
}

#[test]
fn guard_takes_the_secret_from_the_state() {
    let state = AppState::new(SECRET.to_string());
    let response = token_response(SECRET, 11).unwrap();
    let header = format!("Bearer {}", response.token);
    let now = clock();
    assert_eq!(
        AuthUser::from_request_parts(Some(header.as_str()), &state, now),
        Ok(AuthUser(11))
    );
    assert_eq!(
        AuthUser::from_request_parts(Some(header.as_str()), &state, 2_000_000_000),
        Err(ApiError::Unauthenticated)
    );
    assert_eq!(
        AuthUser::from_request_parts(None, &state, now),
        Err(ApiError::Unauthenticated)
    );
    let rotated = AppState::new("rotated".to_string());
    assert_eq!(
        AuthUser::from_request_parts(Some(header.as_str()), &rotated, now),
        Err(ApiError::Unauthenticated)
    );
}

#[test]
fn service_tokens_expire_in_2033() {
    assert_eq!(TOKEN_EXPIRY, 2_000_000_000);
    let response = token_response(SECRET, 11).unwrap();
    assert_eq!(validate_at(SECRET, &response.token, 1_999_999_999), Ok(11));
    assert_eq!(validate_at(SECRET, &response.token, 2_000_000_000), Err(InvalidToken));
    assert_eq!(
        Ok(response.token),
        sign(SECRET, &Claims { id: 11, exp: 2_000_000_000 })
    );
}

#[test]
fn opening_accounts() {
    let mut store = Store::new();
    assert_eq!(open_account(&mut store, "alice".to_string(), "h1".to_string()), Ok(1));
    assert_eq!(
        open_account(&mut store, "alice".to_string(), "h2".to_string()),
        Err(ApiError::DuplicateUsername)
    );
    assert_eq!(store.find_by_username("alice"), Ok((1, "h1".to_string())));
    assert_eq!(open_account(&mut store, "bob".to_string(), "h3".to_string()), Ok(2));
    assert_eq!(store.list(2).len(), 1);
    assert_eq!(store.list(2)[0].task, "Add a Task!");
    assert_eq!(store.list(2)[0].id, 2);
    assert!(!store.list(2)[0].completed);
}

#[test]
fn registering_under_a_given_digest() {
    let mut state = AppState::new(SECRET.to_string());
    let digest = hash("pw1").unwrap();

    // The hasher failed: nothing is opened.
    assert_eq!(
        register_with(&mut state, "alice".to_string(), Err(HashError)),
        Err(ApiError::Internal)
    );
    assert_eq!(state.store.find_by_username("alice"), Err(ApiError::NotFound));

    // The hasher made a digest: the account is opened and a token comes back.
    let answer = register_with(&mut state, "alice".to_string(), Ok(digest.clone())).unwrap();
    assert_eq!(Ok(answer.token.clone()), sign(SECRET, &Claims { id: 1, exp: TOKEN_EXPIRY }));
    assert_eq!(validate_at(SECRET, &answer.token, 1_999_999_999), Ok(1));
    assert_eq!(state.store.find_by_username("alice"), Ok((1, digest.clone())));
    assert_eq!(state.store.list(1).len(), 1);

    // The name is taken now, whatever the digest.
    assert_eq!(
        register_with(&mut state, "alice".to_string(), Ok("other".to_string())),
        Err(ApiError::DuplicateUsername)
    );
    assert_eq!(
        register_with(&mut state, "alice".to_string(), Err(HashError)),
        Err(ApiError::Internal)
    );
    assert_eq!(state.store.find_by_username("alice"), Ok((1, digest)));

    // A login gives the very token that the registration gave.
    let again = login(
        &state,
        AuthRequest { username: "alice".to_string(), password: "pw1".to_string() },
    )
    .unwrap();
    assert_eq!(again.token, answer.token);
}

#[test]
fn checking_credentials() {
    let mut store = Store::new();
    let digest = hash("pw1").unwrap();
    open_account(&mut store, "alice".to_string(), digest).unwrap();
    open_account(&mut store, "broken".to_string(), "not a digest".to_string()).unwrap();
    assert_eq!(check_credentials(&store, "alice", "pw1"), Ok(1));
    assert_eq!(check_credentials(&store, "alice", "pw2"), Err(ApiError::Unauthenticated));
    assert_eq!(check_credentials(&store, "ghost", "pw1"), Err(ApiError::NotFound));
    assert_eq!(check_credentials(&store, "broken", "pw1"), Err(ApiError::Internal));
}
