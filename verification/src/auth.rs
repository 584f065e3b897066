use base64::Engine;
use rand::RngCore;
use vstd::prelude::*;

verus! {

/// Length in bytes of the random material behind a session token.
pub const TOKEN_BYTES: usize = 32;

/// Whether `c` belongs to the URL-safe base64 alphabet (RFC 4648, section 5).
pub open spec fn is_url_safe_base64_char(c: char) -> bool {
    ('A' <= c && c <= 'Z') || ('a' <= c && c <= 'z') || ('0' <= c && c <= '9') || c == '-' || c
        == '_'
}

/// Fills a fresh buffer from the thread-local cryptographic generator of `rand`
/// (`RngCore::fill_bytes` on `rand::thread_rng()`). Nothing is claimed of the
/// bytes themselves, only their number.
#[verifier::external_body]
fn random_token_bytes() -> (bytes: Vec<u8>)
    ensures
        bytes@.len() == TOKEN_BYTES,
{
    let mut bytes = [0_u8; TOKEN_BYTES];
    rand::thread_rng().fill_bytes(&mut bytes);
    bytes.to_vec()
}

/// What `base64::engine::general_purpose::URL_SAFE_NO_PAD.encode` yields for `bytes`.
pub uninterp spec fn base64_url_no_pad(bytes: Seq<u8>) -> Seq<char>;

/// Encodes with the `base64` crate's `URL_SAFE_NO_PAD` engine. The crate documents
/// this engine as the URL-safe alphabet without `=` padding, so the text has
/// `ceil(4n/3)` characters, each from that alphabet; and base64 is an encoding
/// (the same engine decodes the text back), so no other bytes give this text.
#[verifier::external_body]
fn encode_url_safe_no_pad(bytes: &[u8]) -> (text: String)
    ensures
        text@ == base64_url_no_pad(bytes@),
        forall|other: Seq<u8>| #[trigger] base64_url_no_pad(other) == text@ ==> other == bytes@,
        text@.len() == (4 * bytes@.len() + 2) / 3,
        forall|i: int| 0 <= i < text@.len() ==> is_url_safe_base64_char(#[trigger] text@[i]),
{
    base64::engine::general_purpose::URL_SAFE_NO_PAD.encode(bytes)
}

/// Generates a fresh authentication token: 32 random bytes in URL-safe base64
/// without padding, i.e. 43 characters from `[A-Za-z0-9_-]`.
pub fn generate_token() -> (token: String)
    ensures
        token@.len() == 43,
        forall|i: int| 0 <= i < token@.len() ==> is_url_safe_base64_char(#[trigger] token@[i]),
        exists|bytes: Seq<u8>|
            bytes.len() == TOKEN_BYTES && token@ == base64_url_no_pad(bytes) && (forall|other: Seq<u8>|
                #[trigger] base64_url_no_pad(other) == token@ ==> other == bytes),
{
    let bytes = random_token_bytes();
    let token = encode_url_safe_no_pad(bytes.as_slice());
    proof {
        assert(token@ == base64_url_no_pad(bytes@));
    }
    token
}

/// Compares two tokens in time that depends only on their lengths: the result is
/// `true` exactly when the two strings are equal.
pub fn validate_token(provided: &str, expected: &str) -> (valid: bool)
    ensures
        valid == (provided@ == expected@),
{
    broadcast use vstd::utf8::group_utf8_lib;

    let left = provided.as_bytes();
    let right = expected.as_bytes();
    proof {
        vstd::utf8::encode_utf8_decode_utf8(provided@);
        vstd::utf8::encode_utf8_decode_utf8(expected@);
    }
    if left.len() != right.len() {
        return false;
    }
    let mut difference: u8 = 0;
    assert(left@.take(0) =~= right@.take(0));
    let mut i: usize = 0;
    while i < left.len()
        invariant
            left.len() == right.len(),
            i <= left.len(),
            (difference == 0) == (left@.take(i as int) == right@.take(i as int)),
        decreases left.len() - i,
    {
        let a = left[i];
        let b = right[i];
        let next = difference | (a ^ b);
        assert((next == 0) == (difference == 0 && a == b)) by (bit_vector)
            requires
                next == difference | (a ^ b),
        ;
        proof {
            assert(left@.take(i + 1) == left@.take(i as int).push(a));
            assert(right@.take(i + 1) == right@.take(i as int).push(b));
            if left@.take(i as int) == right@.take(i as int) && a != b {
                assert(left@.take(i + 1)[i as int] != right@.take(i + 1)[i as int]);
            }
            if left@.take(i + 1) == right@.take(i + 1) {
                assert(left@.take(i as int) == left@.take(i + 1).take(i as int));
                assert(right@.take(i as int) == right@.take(i + 1).take(i as int));
                assert(left@.take(i + 1)[i as int] == right@.take(i + 1)[i as int]);
            }
        }
        difference = next;
        i = i + 1;
    }
    proof {
        assert(left@.take(left@.len() as int) == left@);
        assert(right@.take(right@.len() as int) == right@);
    }
    difference == 0
}

} // verus!
