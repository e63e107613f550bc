use vstd::prelude::*;

verus! {

/// Number of bytes of a subject (user record) identifier.
pub const SUBJECT_LEN: usize = 12;

/// Number of bytes of an encoded claim set.
pub const PAYLOAD_LEN: usize = 37;

/// What a token may be used for; a token is accepted only by the flow it
/// was issued for.
#[derive(Clone, Copy, Debug, PartialEq, Eq, Structural)]
pub enum Purpose {
    Confirm,
    PasswordReset,
}

/// Why a presented token was refused.
#[derive(Clone, Copy, Debug, PartialEq, Eq, Structural)]
pub enum TokenError {
    Malformed,
    SignatureInvalid,
    PurposeMismatch,
    Expired,
    AlreadyUsed,
}

pub open spec fn purpose_tag(p: Purpose) -> u8 {
    match p {
        Purpose::Confirm => 1u8,
        Purpose::PasswordReset => 2u8,
    }
}

pub open spec fn purpose_of_tag(t: u8) -> Option<Purpose> {
    if t == 1 {
        Some(Purpose::Confirm)
    } else if t == 2 {
        Some(Purpose::PasswordReset)
    } else {
        None
    }
}

/// Byte `i` (0 = most significant) of the big-endian form of `v`.
pub open spec fn be_byte(v: u64, i: int) -> u8 {
    ((v >> ((8 * (7 - i)) as u64)) & 0xff) as u8
}

/// The eight big-endian bytes of `v`.
pub open spec fn be_bytes(v: u64) -> Seq<u8> {
    Seq::new(8, |i: int| be_byte(v, i))
}

/// The integer whose big-endian form is `b[0..8]`.
pub open spec fn be_value(b: Seq<u8>) -> u64 {
    ((b[0] as u64) << 56u64) | ((b[1] as u64) << 48u64) | ((b[2] as u64) << 40u64) | ((
    b[3] as u64) << 32u64) | ((b[4] as u64) << 24u64) | ((b[5] as u64) << 16u64) | ((
    b[6] as u64) << 8u64) | (b[7] as u64)
}

proof fn lemma_be_value_of_bytes(v: u64)
    ensures
        be_value(be_bytes(v)) == v,
{
    let b = be_bytes(v);
    assert(b[0] == be_byte(v, 0));
    assert(b[7] == be_byte(v, 7));
    let b0 = b[0];
    let b1 = b[1];
    let b2 = b[2];
    let b3 = b[3];
    let b4 = b[4];
    let b5 = b[5];
    let b6 = b[6];
    let b7 = b[7];
    assert(b0 == ((v >> 56u64) & 0xff) as u8);
    assert(b1 == ((v >> 48u64) & 0xff) as u8);
    assert(b2 == ((v >> 40u64) & 0xff) as u8);
    assert(b3 == ((v >> 32u64) & 0xff) as u8);
    assert(b4 == ((v >> 24u64) & 0xff) as u8);
    assert(b5 == ((v >> 16u64) & 0xff) as u8);
    assert(b6 == ((v >> 8u64) & 0xff) as u8);
    assert(b7 == ((v >> 0u64) & 0xff) as u8);
    assert(((b0 as u64) << 56u64) | ((b1 as u64) << 48u64) | ((b2 as u64) << 40u64) | ((
    b3 as u64) << 32u64) | ((b4 as u64) << 24u64) | ((b5 as u64) << 16u64) | ((b6 as u64)
        << 8u64) | (b7 as u64) == v) by (bit_vector)
        requires
            b0 == ((v >> 56u64) & 0xff) as u8,
            b1 == ((v >> 48u64) & 0xff) as u8,
            b2 == ((v >> 40u64) & 0xff) as u8,
            b3 == ((v >> 32u64) & 0xff) as u8,
            b4 == ((v >> 24u64) & 0xff) as u8,
            b5 == ((v >> 16u64) & 0xff) as u8,
            b6 == ((v >> 8u64) & 0xff) as u8,
            b7 == ((v >> 0u64) & 0xff) as u8,
    ;
}

/// Appends the big-endian bytes of `v` to `out`.
pub fn push_be_u64(out: &mut Vec<u8>, v: u64)
    ensures
        final(out)@ == old(out)@ + be_bytes(v),
{
    let mut i: usize = 0;
    while i < 8
        invariant
            0 <= i <= 8,
            out@ == old(out)@ + be_bytes(v).subrange(0, i as int),
        decreases 8 - i,
    {
        let shift: u64 = (8 * (7 - i)) as u64;
        let byte: u8 = ((v >> shift) & 0xff) as u8;
        out.push(byte);
        assert(be_bytes(v).subrange(0, (i + 1) as int) =~= be_bytes(v).subrange(0, i as int).push(
            byte,
        ));
        i = i + 1;
    }
    assert(be_bytes(v).subrange(0, 8) =~= be_bytes(v));
}

/// Reads the big-endian integer held in `b[start..start + 8]`.
pub fn read_be_u64(b: &Vec<u8>, start: usize) -> (r: u64)
    requires
        start + 8 <= b@.len(),
    ensures
        r == be_value(b@.subrange(start as int, start + 8)),
{
    let n: usize = b.len();
    assert(start + 8 <= n);
    let s = Ghost(b@.subrange(start as int, start + 8));
    assert(s@[0] == b@[start as int]);
    assert(s@[7] == b@[start + 7]);
    assert(s@[1] == b@[start + 1]);
    assert(s@[2] == b@[start + 2]);
    assert(s@[3] == b@[start + 3]);
    assert(s@[4] == b@[start + 4]);
    assert(s@[5] == b@[start + 5]);
    assert(s@[6] == b@[start + 6]);
    ((b[start] as u64) << 56u64) | ((b[start + 1] as u64) << 48u64) | ((b[start + 2] as u64)
        << 40u64) | ((b[start + 3] as u64) << 32u64) | ((b[start + 4] as u64) << 24u64) | ((
    b[start + 5] as u64) << 16u64) | ((b[start + 6] as u64) << 8u64) | (b[start + 7] as u64)
}


/// A claim set: what a token says about its holder.
#[derive(Clone, Debug)]
pub struct Claims {
    pub purpose: Purpose,
    pub subject_id: Vec<u8>,
    pub token_id: u64,
    pub issued_at: u64,
    pub expires_at: u64,
}

/// The mathematical value of a claim set.
pub struct ClaimsView {
    pub purpose: Purpose,
    pub subject_id: Seq<u8>,
    pub token_id: u64,
    pub issued_at: u64,
    pub expires_at: u64,
}

impl View for Claims {
    type V = ClaimsView;

    open spec fn view(&self) -> ClaimsView {
        ClaimsView {
            purpose: self.purpose,
            subject_id: self.subject_id@,
            token_id: self.token_id,
            issued_at: self.issued_at,
            expires_at: self.expires_at,
        }
    }
}

/// A claim set names a subject of the right length.
pub open spec fn claims_wf(c: ClaimsView) -> bool {
    c.subject_id.len() == SUBJECT_LEN
}

/// The claims of a token issued at `now` for `ttl` seconds.
pub open spec fn issued_claims(
    purpose: Purpose,
    subject_id: Seq<u8>,
    ttl: u64,
    now: u64,
    token_id: u64,
) -> ClaimsView {
    ClaimsView {
        purpose,
        subject_id,
        token_id,
        issued_at: now,
        expires_at: (now + ttl) as u64,
    }
}

/// The bytes that are signed: purpose tag, subject, then token id, issue
/// time and expiry, each big-endian.
pub open spec fn payload_of(c: ClaimsView) -> Seq<u8> {
    seq![purpose_tag(c.purpose)] + c.subject_id + be_bytes(c.token_id) + be_bytes(c.issued_at)
        + be_bytes(c.expires_at)
}

/// The claim set that `b` encodes, if it encodes one.
pub open spec fn decode_payload(b: Seq<u8>) -> Option<ClaimsView> {
    if b.len() == PAYLOAD_LEN && purpose_of_tag(b[0]) is Some {
        Some(
            ClaimsView {
                purpose: purpose_of_tag(b[0])->0,
                subject_id: b.subrange(1, 13),
                token_id: be_value(b.subrange(13, 21)),
                issued_at: be_value(b.subrange(21, 29)),
                expires_at: be_value(b.subrange(29, 37)),
            },
        )
    } else {
        None
    }
}

/// Purpose and expiry checks on an authenticated claim set.
pub open spec fn check_claims(c: ClaimsView, expected: Purpose, now: u64) -> Result<
    ClaimsView,
    TokenError,
> {
    if c.purpose != expected {
        Err(TokenError::PurposeMismatch)
    } else if now > c.expires_at {
        Err(TokenError::Expired)
    } else {
        Ok(c)
    }
}

/// Outcome of verifying a signed payload: authentication first, then
/// decoding, then purpose, then expiry.
pub open spec fn verify_outcome(
    payload: Seq<u8>,
    signature_valid: bool,
    expected: Purpose,
    now: u64,
) -> Result<ClaimsView, TokenError> {
    if !signature_valid {
        Err(TokenError::SignatureInvalid)
    } else {
        match decode_payload(payload) {
            None => Err(TokenError::Malformed),
            Some(c) => check_claims(c, expected, now),
        }
    }
}

/// The view of a verification result.
pub open spec fn claims_result_view(r: Result<Claims, TokenError>) -> Result<
    ClaimsView,
    TokenError,
> {
    match r {
        Ok(c) => Ok(c@),
        Err(e) => Err(e),
    }
}

pub fn purpose_to_tag(p: Purpose) -> (r: u8)
    ensures
        r == purpose_tag(p),
{
    match p {
        Purpose::Confirm => 1u8,
        Purpose::PasswordReset => 2u8,
    }
}

pub fn purpose_from_tag(t: u8) -> (r: Option<Purpose>)
    ensures
        r == purpose_of_tag(t),
{
    if t == 1 {
        Some(Purpose::Confirm)
    } else if t == 2 {
        Some(Purpose::PasswordReset)
    } else {
        None
    }
}

/// Builds the claims of a new token. The token identifier comes from a
/// random source and the time from a clock, both outside this function.
pub fn issue(purpose: Purpose, subject_id: &Vec<u8>, ttl: u64, now: u64, token_id: u64) -> (r:
    Claims)
    requires
        subject_id@.len() == SUBJECT_LEN,
        now + ttl <= u64::MAX,
    ensures
        r@ == issued_claims(purpose, subject_id@, ttl, now, token_id),
        claims_wf(r@),
{
    Claims { purpose, subject_id: subject_id.clone(), token_id, issued_at: now, expires_at: now + ttl }
}

impl Claims {
    /// The bytes to be signed for this claim set.
    pub fn to_payload(&self) -> (r: Vec<u8>)
        ensures
            r@ == payload_of(self@),
    {
        let mut out: Vec<u8> = Vec::new();
        out.push(purpose_to_tag(self.purpose));
        let mut i: usize = 0;
        while i < self.subject_id.len()
            invariant
                0 <= i <= self.subject_id@.len(),
                out@ == seq![purpose_tag(self.purpose)] + self.subject_id@.subrange(0, i as int),
            decreases self.subject_id@.len() - i,
        {
            out.push(self.subject_id[i]);
            assert(self.subject_id@.subrange(0, (i + 1) as int) =~= self.subject_id@.subrange(
                0,
                i as int,
            ).push(self.subject_id@[i as int]));
            i = i + 1;
        }
        assert(self.subject_id@.subrange(0, i as int) =~= self.subject_id@);
        push_be_u64(&mut out, self.token_id);
        push_be_u64(&mut out, self.issued_at);
        push_be_u64(&mut out, self.expires_at);
        out
    }
}

/// Decodes a payload; `None` when it is not the encoding of a claim set.
pub fn parse_payload(b: &Vec<u8>) -> (r: Option<Claims>)
    ensures
        match r {
            Some(c) => decode_payload(b@) == Some(c@),
            None => decode_payload(b@) is None,
        },
{
    if b.len() != PAYLOAD_LEN {
        return None;
    }
    let purpose = match purpose_from_tag(b[0]) {
        Some(p) => p,
        None => {
            return None;
        },
    };
    let mut subject_id: Vec<u8> = Vec::new();
    let mut i: usize = 1;
    while i < 13
        invariant
            1 <= i <= 13,
            b@.len() == PAYLOAD_LEN,
            subject_id@ == b@.subrange(1, i as int),
        decreases 13 - i,
    {
        subject_id.push(b[i]);
        assert(b@.subrange(1, (i + 1) as int) =~= b@.subrange(1, i as int).push(b@[i as int]));
        i = i + 1;
    }
    let token_id = read_be_u64(b, 13);
    let issued_at = read_be_u64(b, 21);
    let expires_at = read_be_u64(b, 29);
    Some(Claims { purpose, subject_id, token_id, issued_at, expires_at })
}

/// Verifies an authenticated payload against the expected purpose at time
/// `now`. Whether the signature holds is decided outside, with the public
/// key, and handed in as `signature_valid`.
pub fn verify_payload(payload: &Vec<u8>, signature_valid: bool, expected: Purpose, now: u64) -> (r:
    Result<Claims, TokenError>)
    ensures
        claims_result_view(r) == verify_outcome(payload@, signature_valid, expected, now),
        r is Ok ==> claims_wf(r->Ok_0@),
{
    if !signature_valid {
        return Err(TokenError::SignatureInvalid);
    }
    match parse_payload(payload) {
        None => Err(TokenError::Malformed),
        Some(c) => {
            if c.purpose != expected {
                Err(TokenError::PurposeMismatch)
            } else if now > c.expires_at {
                Err(TokenError::Expired)
            } else {
                Ok(c)
            }
        },
    }
}

/// A payload decodes back to the claim set it encodes.
pub proof fn lemma_decode_payload_of(c: ClaimsView)
    requires
        claims_wf(c),
    ensures
        decode_payload(payload_of(c)) == Some(c),
{
    let b = payload_of(c);
    assert(b.len() == PAYLOAD_LEN);
    assert(b[0] == purpose_tag(c.purpose));
    assert(b.subrange(1, 13) =~= c.subject_id);
    assert(b.subrange(13, 21) =~= be_bytes(c.token_id));
    assert(b.subrange(21, 29) =~= be_bytes(c.issued_at));
    assert(b.subrange(29, 37) =~= be_bytes(c.expires_at));
    lemma_be_value_of_bytes(c.token_id);
    lemma_be_value_of_bytes(c.issued_at);
    lemma_be_value_of_bytes(c.expires_at);
}

/// A token issued for a purpose verifies, under that purpose and with a
/// valid signature, to the same claims (and so the same subject) at any
/// time up to its expiry.
pub proof fn lemma_issued_payload_verifies(
    purpose: Purpose,
    subject_id: Seq<u8>,
    ttl: u64,
    issued_at: u64,
    token_id: u64,
    now: u64,
)
    requires
        subject_id.len() == SUBJECT_LEN,
        issued_at + ttl <= u64::MAX,
        now <= issued_at + ttl,
    ensures
        verify_outcome(
            payload_of(issued_claims(purpose, subject_id, ttl, issued_at, token_id)),
            true,
            purpose,
            now,
        ) == Ok::<ClaimsView, TokenError>(
            issued_claims(purpose, subject_id, ttl, issued_at, token_id),
        ),
{
    lemma_decode_payload_of(issued_claims(purpose, subject_id, ttl, issued_at, token_id));
}

/// A genuine token presented for another purpose than the one it was issued
/// for is refused with `PurposeMismatch`, at any time.
pub proof fn lemma_wrong_purpose_refused(c: ClaimsView, expected: Purpose, now: u64)
    requires
        claims_wf(c),
        expected != c.purpose,
    ensures
        verify_outcome(payload_of(c), true, expected, now) == Err::<ClaimsView, TokenError>(
            TokenError::PurposeMismatch,
        ),
{
    lemma_decode_payload_of(c);
}

/// A genuine token presented for its own purpose after its expiry is
/// refused with `Expired`.
pub proof fn lemma_late_token_expired(c: ClaimsView, now: u64)
    requires
        claims_wf(c),
        now > c.expires_at,
    ensures
        verify_outcome(payload_of(c), true, c.purpose, now) == Err::<ClaimsView, TokenError>(
            TokenError::Expired,
        ),
{
    lemma_decode_payload_of(c);
}

} // verus!
