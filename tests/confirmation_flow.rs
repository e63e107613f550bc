use aj_studying::claims::{issue, parse_payload, verify_payload, Purpose, TokenError, PAYLOAD_LEN};
use aj_studying::confirmation::{
    complete_confirmation, restart_confirmation, start_confirmation, CONFIRMATION_TTL,
};
use aj_studying::registration::{
    confirm, notification_outcome, register, ConfirmError, CreateNewUser, EmailPolicy,
    RegisterError, UserDirectory,
};
use aj_studying::store::InvalidationStore;
use aj_studying::token::{encode_token, open_token};

const NOW: u64 = 1_700_000_000;

fn user_id(n: u8) -> Vec<u8> {
    vec![0x65, 0x4f, 0x1a, 0x2b, 0x3c, 0x4d, 0x5e, 0x6f, 0x70, 0x81, 0x92, n]
}

fn new_user(email: &str) -> CreateNewUser {
    CreateNewUser {
        email: email.to_string(),
        password: "hunter22".to_string(),
        first_name: "Ada".to_string(),
        last_name: "Lovelace".to_string(),
    }
}

/// Stands in for the signing service: the tests mark the signature as
/// checked or not, so any bytes do for it.
fn signature() -> Vec<u8> {
    vec![0xde, 0xad, 0xbe, 0xef]
}

#[test]
fn register_then_confirm_activates_user() {
    let mut dir = UserDirectory::new();
    let mut store = InvalidationStore::new();
    let id = user_id(1);
    let claims = register(&mut dir, &mut store, &new_user("a@example.com"), &id, CONFIRMATION_TTL, NOW, 77)
        .unwrap();
    assert_eq!(claims.subject_id, id);
    assert_eq!(claims.purpose, Purpose::Confirm);
    assert_eq!(claims.expires_at, NOW + CONFIRMATION_TTL);
    let user = dir.get(&id).unwrap();
    assert!(!user.is_active);
    assert_eq!(user.email, "a@example.com");
    assert!(store.is_live(77, NOW));

    let text = encode_token(&claims.to_payload(), &signature());
    let (payload, sig) = open_token(&text).unwrap();
    assert_eq!(sig, signature());
    let confirmed = confirm(&mut dir, &mut store, &payload, true, NOW + 10).unwrap();
    assert_eq!(confirmed, id);
    assert!(dir.get(&id).unwrap().is_active);
    assert!(!store.is_live(77, NOW + 10));
}

#[test]
fn confirm_with_consumed_token_is_already_used() {
    let mut dir = UserDirectory::new();
    let mut store = InvalidationStore::new();
    let id = user_id(2);
    let claims = register(&mut dir, &mut store, &new_user("b@example.com"), &id, CONFIRMATION_TTL, NOW, 5)
        .unwrap();
    let payload = claims.to_payload();
    assert!(store.consume(5, NOW));
    let r = confirm(&mut dir, &mut store, &payload, true, NOW + 1);
    assert_eq!(r, Err(ConfirmError::Token(TokenError::AlreadyUsed)));
    assert!(!dir.get(&id).unwrap().is_active);
}

#[test]
fn confirm_after_ttl_is_expired_even_with_record() {
    let mut dir = UserDirectory::new();
    let mut store = InvalidationStore::new();
    let id = user_id(3);
    let claims = register(&mut dir, &mut store, &new_user("c@example.com"), &id, 60, NOW, 9).unwrap();
    // The store keeps the record far longer than the token lives.
    store.record(9, NOW + 100_000);
    let r = confirm(&mut dir, &mut store, &claims.to_payload(), true, NOW + 61);
    assert_eq!(r, Err(ConfirmError::Token(TokenError::Expired)));
    assert!(store.is_live(9, NOW + 61));
    assert!(!dir.get(&id).unwrap().is_active);
}

#[test]
fn corrupted_token_text_is_malformed() {
    let claims = issue(Purpose::Confirm, &user_id(4), 60, NOW, 11);
    let mut text = encode_token(&claims.to_payload(), &signature());
    text[3] = b'z';
    assert!(matches!(open_token(&text), Err(TokenError::Malformed)));
    assert!(matches!(open_token(&b"not a token".to_vec()), Err(TokenError::Malformed)));
    assert!(matches!(open_token(&b"abc.00".to_vec()), Err(TokenError::Malformed)));
    assert!(matches!(open_token(&b"0011".to_vec()), Err(TokenError::Malformed)));
}

#[test]
fn corrupted_payload_leaves_store_alone() {
    let mut store = InvalidationStore::new();
    let claims = start_confirmation(&mut store, &user_id(5), 60, NOW, 12);
    let mut payload = claims.to_payload();
    payload.truncate(20);
    let r = complete_confirmation(&mut store, &payload, true, NOW);
    assert!(matches!(r, Err(TokenError::Malformed)));
    assert!(store.is_live(12, NOW));
    let r = complete_confirmation(&mut store, &claims.to_payload(), false, NOW);
    assert!(matches!(r, Err(TokenError::SignatureInvalid)));
    assert!(store.is_live(12, NOW));
}

#[test]
fn issued_token_verifies_to_same_subject() {
    let id = user_id(6);
    let claims = issue(Purpose::PasswordReset, &id, 300, NOW, 42);
    let text = encode_token(&claims.to_payload(), &signature());
    let (payload, _) = open_token(&text).unwrap();
    for now in [NOW, NOW + 150, NOW + 300] {
        let c = verify_payload(&payload, true, Purpose::PasswordReset, now).unwrap();
        assert_eq!(c.subject_id, id);
        assert_eq!(c.token_id, 42);
        assert_eq!(c.issued_at, NOW);
        assert_eq!(c.expires_at, NOW + 300);
    }
}

#[test]
fn token_for_other_purpose_is_refused() {
    let claims = issue(Purpose::PasswordReset, &user_id(7), 300, NOW, 1);
    let r = verify_payload(&claims.to_payload(), true, Purpose::Confirm, NOW);
    assert!(matches!(r, Err(TokenError::PurposeMismatch)));
    let claims = issue(Purpose::Confirm, &user_id(7), 300, NOW, 1);
    let r = verify_payload(&claims.to_payload(), true, Purpose::PasswordReset, NOW + 1000);
    assert!(matches!(r, Err(TokenError::PurposeMismatch)));
}

#[test]
fn token_after_ttl_is_expired() {
    let claims = issue(Purpose::Confirm, &user_id(8), 300, NOW, 1);
    let r = verify_payload(&claims.to_payload(), true, Purpose::Confirm, NOW + 301);
    assert!(matches!(r, Err(TokenError::Expired)));
    let r = verify_payload(&claims.to_payload(), true, Purpose::Confirm, NOW + 300);
    assert!(r.is_ok());
}

#[test]
fn consume_succeeds_exactly_once() {
    let mut store = InvalidationStore::new();
    store.record(3, NOW + 60);
    store.record(4, NOW + 60);
    let mut successes: u32 = 0;
    for _ in 0..16 {
        if store.consume(3, NOW) {
            successes += 1;
        }
    }
    assert_eq!(successes, 1);
    assert!(store.is_live(4, NOW));
    assert!(!store.consume(99, NOW));
}

#[test]
fn consume_of_lapsed_record_fails() {
    let mut store = InvalidationStore::new();
    store.record(8, NOW);
    assert!(!store.consume(8, NOW + 1));
    assert!(!store.is_live(8, NOW));
    store.record(8, NOW);
    store.forget(8);
    assert!(!store.consume(8, NOW));
}

#[test]
fn payload_bytes_are_exact() {
    let claims = issue(Purpose::Confirm, &user_id(9), 0x10, 0x0102030405060708, 0xaabb);
    let p = claims.to_payload();
    assert_eq!(p.len(), PAYLOAD_LEN);
    let mut expected = vec![1u8];
    expected.extend(user_id(9));
    expected.extend([0, 0, 0, 0, 0, 0, 0xaa, 0xbb]);
    expected.extend([1, 2, 3, 4, 5, 6, 7, 8]);
    expected.extend([1, 2, 3, 4, 5, 6, 7, 0x18]);
    assert_eq!(p, expected);
    let back = parse_payload(&p).unwrap();
    assert_eq!(back.token_id, 0xaabb);
    assert_eq!(back.expires_at, 0x0102030405060718);
    let mut bad = p.clone();
    bad[0] = 9;
    assert!(parse_payload(&bad).is_none());
}

#[test]
fn token_text_is_hex_with_separator() {
    let text = encode_token(&vec![0x0a, 0xff, 0x10], &vec![0x01]);
    assert_eq!(text, b"0aff10.01".to_vec());
    let (p, s) = open_token(&text).unwrap();
    assert_eq!(p, vec![0x0a, 0xff, 0x10]);
    assert_eq!(s, vec![0x01]);
    let (p, s) = open_token(&b".".to_vec()).unwrap();
    assert!(p.is_empty() && s.is_empty());
    assert!(matches!(open_token(&b"0A.01".to_vec()), Err(TokenError::Malformed)));
}

#[test]
fn duplicate_email_or_id_fails_creation() {
    let mut dir = UserDirectory::new();
    let mut store = InvalidationStore::new();
    register(&mut dir, &mut store, &new_user("d@example.com"), &user_id(10), 60, NOW, 1).unwrap();
    let r = register(&mut dir, &mut store, &new_user("d@example.com"), &user_id(11), 60, NOW, 2);
    assert!(matches!(r, Err(RegisterError::UserCreationFailed)));
    assert!(!store.is_live(2, NOW));
    let r = register(&mut dir, &mut store, &new_user("e@example.com"), &user_id(10), 60, NOW, 3);
    assert!(matches!(r, Err(RegisterError::UserCreationFailed)));
    assert_eq!(dir.len(), 1);
}

#[test]
fn confirm_for_missing_user_burns_token() {
    let mut dir = UserDirectory::new();
    let mut store = InvalidationStore::new();
    let claims = start_confirmation(&mut store, &user_id(12), 60, NOW, 4);
    let r = confirm(&mut dir, &mut store, &claims.to_payload(), true, NOW);
    assert_eq!(r, Err(ConfirmError::ActivationPersist));
    assert!(!store.is_live(4, NOW));
}

#[test]
fn email_policy_branches() {
    assert_eq!(notification_outcome(true, EmailPolicy::Fatal), Ok(()));
    assert_eq!(notification_outcome(false, EmailPolicy::Fatal), Err(RegisterError::NotificationFailed));
    assert_eq!(notification_outcome(true, EmailPolicy::BestEffort), Ok(()));
    assert_eq!(notification_outcome(false, EmailPolicy::BestEffort), Ok(()));
}

#[test]
fn restart_drops_previous_token() {
    let mut store = InvalidationStore::new();
    let first = start_confirmation(&mut store, &user_id(13), 60, NOW, 20);
    let second = restart_confirmation(&mut store, 20, &user_id(13), 60, NOW + 5, 21);
    assert_eq!(second.token_id, 21);
    assert_eq!(second.expires_at, NOW + 65);
    let r = complete_confirmation(&mut store, &first.to_payload(), true, NOW + 6);
    assert!(matches!(r, Err(TokenError::AlreadyUsed)));
    let r = complete_confirmation(&mut store, &second.to_payload(), true, NOW + 6);
    assert_eq!(r.unwrap().token_id, 21);
}
