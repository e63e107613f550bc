use vstd::prelude::*;
use crate::claims::{
    Claims, ClaimsView, Purpose, TokenError, SUBJECT_LEN, claims_result_view, issue,
    issued_claims, payload_of, verify_outcome, verify_payload, claims_wf,
    lemma_issued_payload_verifies, lemma_decode_payload_of,
};
use crate::store::{InvalidationStore, is_live};

verus! {

/// Lifetime of a confirmation token, in seconds.
pub const CONFIRMATION_TTL: u64 = 3600;

/// Result and store contents after a confirmation payload is presented to
/// a store holding `m`. A token that fails verification leaves the store
/// alone; a verified one has its record consumed.
pub open spec fn confirmation_outcome(
    m: Map<u64, u64>,
    payload: Seq<u8>,
    signature_valid: bool,
    now: u64,
) -> (Result<ClaimsView, TokenError>, Map<u64, u64>) {
    match verify_outcome(payload, signature_valid, Purpose::Confirm, now) {
        Err(e) => (Err(e), m),
        Ok(c) => (
            if is_live(m, c.token_id, now) {
                Ok(c)
            } else {
                Err(TokenError::AlreadyUsed)
            },
            m.remove(c.token_id),
        ),
    }
}

/// Issues a confirmation token for `subject_id` and records its identifier
/// as unused until the token expires. The caller signs the payload of the
/// returned claims and hands the token out.
pub fn start_confirmation(
    store: &mut InvalidationStore,
    subject_id: &Vec<u8>,
    ttl: u64,
    now: u64,
    token_id: u64,
) -> (r: Claims)
    requires
        subject_id@.len() == SUBJECT_LEN,
        now + ttl <= u64::MAX,
    ensures
        r@ == issued_claims(Purpose::Confirm, subject_id@, ttl, now, token_id),
        final(store)@ == old(store)@.insert(token_id, (now + ttl) as u64),
{
    let claims = issue(Purpose::Confirm, subject_id, ttl, now, token_id);
    store.record(claims.token_id, claims.expires_at);
    claims
}

/// Issues a fresh confirmation token for a subject that already holds one:
/// the latest token wins, so the record of `previous_token_id` is dropped
/// before the new one is recorded.
pub fn restart_confirmation(
    store: &mut InvalidationStore,
    previous_token_id: u64,
    subject_id: &Vec<u8>,
    ttl: u64,
    now: u64,
    token_id: u64,
) -> (r: Claims)
    requires
        subject_id@.len() == SUBJECT_LEN,
        now + ttl <= u64::MAX,
    ensures
        r@ == issued_claims(Purpose::Confirm, subject_id@, ttl, now, token_id),
        final(store)@ == old(store)@.remove(previous_token_id).insert(token_id, (now + ttl) as u64),
{
    store.forget(previous_token_id);
    start_confirmation(store, subject_id, ttl, now, token_id)
}

/// Settles a verified token on the answer of the invalidation store: it is
/// accepted only when its record was consumed now.
pub fn consumption_result(claims: Claims, consumed: bool) -> (r: Result<Claims, TokenError>)
    ensures
        consumed ==> r == Ok::<Claims, TokenError>(claims),
        !consumed ==> r == Err::<Claims, TokenError>(TokenError::AlreadyUsed),
{
    if consumed {
        Ok(claims)
    } else {
        Err(TokenError::AlreadyUsed)
    }
}

/// Verifies a presented confirmation payload and consumes its record.
/// Signature, decoding, purpose and expiry are checked first, without
/// touching the store; then the record is consumed, and a token whose
/// record is gone or lapsed is refused as `AlreadyUsed`.
pub fn complete_confirmation(
    store: &mut InvalidationStore,
    payload: &Vec<u8>,
    signature_valid: bool,
    now: u64,
) -> (r: Result<Claims, TokenError>)
    ensures
        (claims_result_view(r), final(store)@) == confirmation_outcome(
            old(store)@,
            payload@,
            signature_valid,
            now,
        ),
        r is Ok ==> claims_wf(r->Ok_0@),
{
    let claims = verify_payload(payload, signature_valid, Purpose::Confirm, now);
    match claims {
        Err(e) => Err(e),
        Ok(c) => {
            let consumed = store.consume(c.token_id, now);
            consumption_result(c, consumed)
        },
    }
}

/// A confirmation token that was started is accepted once, before it
/// expires, for its own subject, and its record is then gone; presented
/// again at any time it is refused as `AlreadyUsed` or `Expired`.
pub proof fn lemma_confirmation_single_use(
    m: Map<u64, u64>,
    subject_id: Seq<u8>,
    ttl: u64,
    issued_at: u64,
    token_id: u64,
    now: u64,
    later: u64,
)
    requires
        subject_id.len() == SUBJECT_LEN,
        issued_at + ttl <= u64::MAX,
        now <= issued_at + ttl,
    ensures
        ({
            let c = issued_claims(Purpose::Confirm, subject_id, ttl, issued_at, token_id);
            let m1 = m.insert(token_id, (issued_at + ttl) as u64);
            let first = confirmation_outcome(m1, payload_of(c), true, now);
            let second = confirmation_outcome(first.1, payload_of(c), true, later);
            &&& first.0 == Ok::<ClaimsView, TokenError>(c)
            &&& first.0->Ok_0.subject_id == subject_id
            &&& !first.1.contains_key(token_id)
            &&& second.0 is Err
            &&& second.0 == Err::<ClaimsView, TokenError>(TokenError::AlreadyUsed) || second.0
                == Err::<ClaimsView, TokenError>(TokenError::Expired)
            &&& !second.1.contains_key(token_id)
        }),
{
    let c = issued_claims(Purpose::Confirm, subject_id, ttl, issued_at, token_id);
    lemma_issued_payload_verifies(Purpose::Confirm, subject_id, ttl, issued_at, token_id, now);
    lemma_decode_payload_of(c);
}

/// Codec-level expiry is checked on its own: a genuine confirmation token
/// presented after its expiry is refused as `Expired` whatever the store
/// holds, and the store is left as it was.
pub proof fn lemma_expired_whatever_the_store(m: Map<u64, u64>, c: ClaimsView, now: u64)
    requires
        claims_wf(c),
        c.purpose == Purpose::Confirm,
        now > c.expires_at,
    ensures
        confirmation_outcome(m, payload_of(c), true, now) == (
        Err::<ClaimsView, TokenError>(TokenError::Expired),
        m,
        ),
{
    lemma_decode_payload_of(c);
}

/// A genuine token of another purpose is refused as `PurposeMismatch` and
/// leaves the store as it was.
pub proof fn lemma_other_purpose_refused(m: Map<u64, u64>, c: ClaimsView, now: u64)
    requires
        claims_wf(c),
        c.purpose != Purpose::Confirm,
    ensures
        confirmation_outcome(m, payload_of(c), true, now) == (
        Err::<ClaimsView, TokenError>(TokenError::PurposeMismatch),
        m,
        ),
{
    lemma_decode_payload_of(c);
}

} // verus!
