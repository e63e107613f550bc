use vstd::prelude::*;
use crate::claims::{
    ClaimsView, Purpose, TokenError, SUBJECT_LEN, issued_claims, payload_of, verify_outcome,
    lemma_issued_payload_verifies,
};

verus! {

/// Separates the hex-encoded payload from the hex-encoded signature.
pub const SEPARATOR: u8 = 0x2e;

/// Lower-case hex digit for a value below 16.
pub open spec fn hex_char(n: u8) -> u8 {
    if n < 10 {
        (0x30 + n) as u8
    } else {
        (0x61 + n - 10) as u8
    }
}

/// Value of a lower-case hex digit.
pub open spec fn hex_val(c: u8) -> Option<u8> {
    if 0x30 <= c <= 0x39 {
        Some((c - 0x30) as u8)
    } else if 0x61 <= c <= 0x66 {
        Some((c - 0x61 + 10) as u8)
    } else {
        None
    }
}

/// Lower-case hex form of `b`, two digits per byte, high nibble first.
pub open spec fn hex_of(b: Seq<u8>) -> Seq<u8> {
    Seq::new(
        2 * b.len(),
        |i: int|
            if i % 2 == 0 {
                hex_char(b[i / 2] / 16)
            } else {
                hex_char(b[i / 2] % 16)
            },
    )
}

/// Every character is a lower-case hex digit and they come in pairs.
pub open spec fn is_hex_text(t: Seq<u8>) -> bool {
    t.len() % 2 == 0 && forall|i: int| 0 <= i < t.len() ==> (#[trigger] hex_val(t[i])) is Some
}

/// The text form of a token: hex payload, separator, hex signature.
pub open spec fn token_text(payload: Seq<u8>, signature: Seq<u8>) -> Seq<u8> {
    hex_of(payload) + seq![SEPARATOR] + hex_of(signature)
}

/// `t` is the text form of some payload and signature.
pub open spec fn is_token_text(t: Seq<u8>) -> bool {
    exists|p: Seq<u8>, s: Seq<u8>| t == token_text(p, s)
}

proof fn lemma_hex_char(n: u8)
    requires
        n < 16,
    ensures
        hex_val(hex_char(n)) == Some(n),
        hex_char(n) != SEPARATOR,
{
}

proof fn lemma_hex_of_digits(b: Seq<u8>, i: int)
    requires
        0 <= i < b.len(),
    ensures
        hex_val(hex_of(b)[2 * i]) == Some(b[i] / 16),
        hex_val(hex_of(b)[2 * i + 1]) == Some(b[i] % 16),
        (b[i] / 16) * 16 + b[i] % 16 == b[i],
{
    assert((2 * i) / 2 == i && (2 * i) % 2 == 0);
    assert((2 * i + 1) / 2 == i && (2 * i + 1) % 2 == 1);
    lemma_hex_char(b[i] / 16);
    lemma_hex_char(b[i] % 16);
}

proof fn lemma_hex_of_is_hex_text(b: Seq<u8>)
    ensures
        is_hex_text(hex_of(b)),
        forall|i: int| 0 <= i < hex_of(b).len() ==> hex_of(b)[i] != SEPARATOR,
{
    assert forall|i: int| 0 <= i < hex_of(b).len() implies (#[trigger] hex_val(hex_of(b)[i])) is Some
        && hex_of(b)[i] != SEPARATOR by {
        lemma_hex_char(b[i / 2] / 16);
        lemma_hex_char(b[i / 2] % 16);
    }
}

/// Hex encoding loses nothing: equal encodings come from equal bytes.
pub proof fn lemma_hex_of_injective(a: Seq<u8>, b: Seq<u8>)
    requires
        hex_of(a) == hex_of(b),
    ensures
        a == b,
{
    assert(2 * (a.len() as int) == hex_of(a).len());
    assert forall|i: int| 0 <= i < a.len() implies a[i] == b[i] by {
        lemma_hex_of_digits(a, i);
        lemma_hex_of_digits(b, i);
    }
    assert(a =~= b);
}

/// The text form determines the payload and the signature.
pub proof fn lemma_token_text_injective(p: Seq<u8>, s: Seq<u8>, other_payload: Seq<u8>, other_signature: Seq<u8>)
    requires
        token_text(p, s) == token_text(other_payload, other_signature),
    ensures
        p == other_payload,
        s == other_signature,
{
    let t = token_text(p, s);
    lemma_hex_of_is_hex_text(p);
    lemma_hex_of_is_hex_text(other_payload);
    assert(t[2 * (p.len() as int)] == SEPARATOR);
    assert(t[2 * (other_payload.len() as int)] == SEPARATOR);
    if p.len() < other_payload.len() {
        assert(t[2 * (p.len() as int)] == hex_of(other_payload)[2 * (p.len() as int)]);
    } else if other_payload.len() < p.len() {
        assert(t[2 * (other_payload.len() as int)] == hex_of(p)[2 * (other_payload.len() as int)]);
    }
    assert(hex_of(p) =~= t.subrange(0, 2 * (p.len() as int)));
    assert(hex_of(other_payload) =~= t.subrange(0, 2 * (other_payload.len() as int)));
    lemma_hex_of_injective(p, other_payload);
    assert(hex_of(s) =~= t.subrange(2 * (p.len() as int) + 1, t.len() as int));
    assert(hex_of(other_signature) =~= t.subrange(2 * (other_payload.len() as int) + 1, t.len() as int));
    lemma_hex_of_injective(s, other_signature);
}

pub fn hex_digit(n: u8) -> (r: u8)
    requires
        n < 16,
    ensures
        r == hex_char(n),
{
    if n < 10 {
        0x30 + n
    } else {
        0x61 + n - 10
    }
}

pub fn hex_value(c: u8) -> (r: Option<u8>)
    ensures
        r == hex_val(c),
{
    if 0x30 <= c && c <= 0x39 {
        Some(c - 0x30)
    } else if 0x61 <= c && c <= 0x66 {
        Some(c - 0x61 + 10)
    } else {
        None
    }
}

/// Appends the hex form of `b` to `out`.
pub fn push_hex(out: &mut Vec<u8>, b: &Vec<u8>)
    ensures
        final(out)@ == old(out)@ + hex_of(b@),
{
    let mut i: usize = 0;
    while i < b.len()
        invariant
            0 <= i <= b@.len(),
            out@ == old(out)@ + hex_of(b@).subrange(0, 2 * i),
        decreases b@.len() - i,
    {
        let hi = hex_digit(b[i] / 16);
        let lo = hex_digit(b[i] % 16);
        out.push(hi);
        out.push(lo);
        proof {
            let h = hex_of(b@);
            assert((2 * i as int) / 2 == i && (2 * i as int) % 2 == 0);
            assert((2 * i as int + 1) / 2 == i && (2 * i as int + 1) % 2 == 1);
            assert(h.subrange(0, 2 * (i + 1)) =~= h.subrange(0, 2 * i).push(hi).push(lo));
        }
        i = i + 1;
    }
    assert(hex_of(b@).subrange(0, 2 * i) =~= hex_of(b@));
}

/// The text form of a signed token.
pub fn encode_token(payload: &Vec<u8>, signature: &Vec<u8>) -> (r: Vec<u8>)
    ensures
        r@ == token_text(payload@, signature@),
{
    let mut out: Vec<u8> = Vec::new();
    push_hex(&mut out, payload);
    out.push(SEPARATOR);
    push_hex(&mut out, signature);
    assert(out@ =~= token_text(payload@, signature@));
    out
}

/// Decodes the hex text `t[start..end]`.
fn decode_hex_range(t: &Vec<u8>, start: usize, end: usize) -> (r: Option<Vec<u8>>)
    requires
        start <= end <= t@.len(),
    ensures
        match r {
            Some(v) => hex_of(v@) == t@.subrange(start as int, end as int),
            None => !is_hex_text(t@.subrange(start as int, end as int)),
        },
{
    let ghost src = t@.subrange(start as int, end as int);
    if (end - start) % 2 != 0 {
        return None;
    }
    let mut out: Vec<u8> = Vec::new();
    let mut i: usize = start;
    while i < end
        invariant
            start <= i <= end <= t@.len(),
            (i - start) % 2 == 0,
            (end - start) % 2 == 0,
            src == t@.subrange(start as int, end as int),
            hex_of(out@) == t@.subrange(start as int, i as int),
        decreases end - i,
    {
        let hi = match hex_value(t[i]) {
            Some(v) => v,
            None => {
                assert(hex_val(src[i - start]) is None);
                return None;
            },
        };
        let lo = match hex_value(t[i + 1]) {
            Some(v) => v,
            None => {
                assert(hex_val(src[i + 1 - start]) is None);
                return None;
            },
        };
        let byte: u8 = hi * 16 + lo;
        let ghost old_out = out@;
        out.push(byte);
        proof {
            assert(byte / 16 == hi && byte % 16 == lo);
            assert(hex_char(hi) == t@[i as int]);
            assert(hex_char(lo) == t@[i + 1]);
            assert(hex_of(out@) =~= hex_of(old_out).push(t@[i as int]).push(t@[i + 1])) by {
                assert forall|k: int| 0 <= k < hex_of(old_out).len() implies hex_of(out@)[k]
                    == hex_of(old_out)[k] by {
                    assert(out@[k / 2] == old_out[k / 2]);
                }
                assert((2 * (old_out.len() as int)) / 2 == old_out.len());
                assert((2 * (old_out.len() as int) + 1) / 2 == old_out.len());
            }
            assert(t@.subrange(start as int, i + 2) =~= t@.subrange(start as int, i as int).push(
                t@[i as int],
            ).push(t@[i + 1]));
        }
        i = i + 2;
    }
    Some(out)
}

/// Splits the text form of a token into payload and signature bytes.
/// Refused as `Malformed` exactly when the text is not the text form of
/// any payload and signature.
pub fn open_token(text: &Vec<u8>) -> (r: Result<(Vec<u8>, Vec<u8>), TokenError>)
    ensures
        match r {
            Ok((p, s)) => text@ == token_text(p@, s@),
            Err(e) => e == TokenError::Malformed && !is_token_text(text@),
        },
{
    let n = text.len();
    let mut k: usize = 0;
    while k < n && text[k] != SEPARATOR
        invariant
            0 <= k <= n == text@.len(),
            forall|j: int| 0 <= j < k ==> text@[j] != SEPARATOR,
        decreases n - k,
    {
        k = k + 1;
    }
    proof {
        assert forall|p: Seq<u8>, s: Seq<u8>| text@ == token_text(p, s) implies k == 2 * (p.len() as int)
            && is_hex_text(text@.subrange(0, k as int)) && is_hex_text(
            text@.subrange(k + 1, n as int),
        ) by {
            lemma_hex_of_is_hex_text(p);
            lemma_hex_of_is_hex_text(s);
            assert(text@[2 * (p.len() as int)] == SEPARATOR);
            if k < 2 * (p.len() as int) {
                assert(text@[k as int] == hex_of(p)[k as int]);
            }
            assert(text@.subrange(0, k as int) =~= hex_of(p));
            assert(text@.subrange(k + 1, n as int) =~= hex_of(s));
        }
    }
    if k == n {
        return Err(TokenError::Malformed);
    }
    let payload = match decode_hex_range(text, 0, k) {
        Some(v) => v,
        None => {
            return Err(TokenError::Malformed);
        },
    };
    let signature = match decode_hex_range(text, k + 1, n) {
        Some(v) => v,
        None => {
            return Err(TokenError::Malformed);
        },
    };
    assert(text@ =~= token_text(payload@, signature@));
    Ok((payload, signature))
}

/// An issued token survives its text form: the text of a signed token is
/// well formed, whatever is read back from it is the same payload and
/// signature, and with a valid signature that payload verifies under the
/// issuing purpose, up to the expiry, to the issued claims and subject.
pub proof fn lemma_issued_token_round_trip(
    purpose: Purpose,
    subject_id: Seq<u8>,
    ttl: u64,
    issued_at: u64,
    token_id: u64,
    signature: Seq<u8>,
    now: u64,
    read_payload: Seq<u8>,
    read_signature: Seq<u8>,
)
    requires
        subject_id.len() == SUBJECT_LEN,
        issued_at + ttl <= u64::MAX,
        now <= issued_at + ttl,
        token_text(read_payload, read_signature) == token_text(
            payload_of(issued_claims(purpose, subject_id, ttl, issued_at, token_id)),
            signature,
        ),
    ensures
        ({
            let c = issued_claims(purpose, subject_id, ttl, issued_at, token_id);
            &&& is_token_text(token_text(payload_of(c), signature))
            &&& read_payload == payload_of(c)
            &&& read_signature == signature
            &&& verify_outcome(read_payload, true, purpose, now) == Ok::<ClaimsView, TokenError>(c)
            &&& c.subject_id == subject_id
        }),
{
    let c = issued_claims(purpose, subject_id, ttl, issued_at, token_id);
    lemma_token_text_injective(read_payload, read_signature, payload_of(c), signature);
    lemma_issued_payload_verifies(purpose, subject_id, ttl, issued_at, token_id, now);
}

} // verus!
