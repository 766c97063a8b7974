//! The shared secret that hook requests must carry: generation from the
//! operating system's random source, hex encoding, and comparison.

use vstd::prelude::*;

use crate::text::{chars_of, string_of, trim, trimmed};

verus! {

/// Number of random bytes in a token; its hex text is twice as long.
pub const TOKEN_LEN: usize = 32;

#[verifier::external_type_specification]
#[verifier::external_body]
pub struct ExRandomError(getrandom::Error);

/// `getrandom::fill`: fills the buffer from the system's random source.
/// Trusted: the buffer keeps its length; on `Ok` its bytes are whatever
/// the source produced, so nothing is claimed of them.
#[verifier::external_body]
fn fill_random(buf: &mut Vec<u8>) -> (r: Result<(), getrandom::Error>)
    ensures
        final(buf)@.len() == old(buf)@.len(),
{
    getrandom::fill(buf.as_mut_slice())
}

/// `getrandom::Error`'s `Display` text. Nothing is claimed of it.
#[verifier::external_body]
fn random_error_text(e: &getrandom::Error) -> String {
    e.to_string()
}

/// Name of the token file inside the docs directory.
pub const TOKEN_FILE: &'static str = ".tui-token";

/// The stored token to keep using: the token file's trimmed text, unless a
/// new token is asked for or the file held nothing but whitespace.
pub fn reusable_token(existing: Option<&str>, regenerate: bool) -> (r: Option<String>)
    ensures
        match r {
            Some(t) => !regenerate && existing is Some && t@ == trim(existing->Some_0@) && t@.len()
                > 0,
            None => regenerate || existing is None || trim(existing->Some_0@).len() == 0,
        },
{
    if regenerate {
        return None;
    }
    match existing {
        None => None,
        Some(text) => {
            let t = trimmed(&chars_of(text));
            if t.len() == 0 {
                None
            } else {
                Some(string_of(&t))
            }
        },
    }
}

/// Why a token could not be made.
#[derive(Debug, Clone, PartialEq, Eq)]
pub enum TokenError {
    /// The random source failed; its message.
    Generation(String),
}

pub open spec fn hex_digit(d: int) -> char {
    "0123456789abcdef"@[d]
}

/// Two lowercase hex digits per byte, high nibble first.
pub open spec fn hex_encode(bytes: Seq<u8>) -> Seq<char>
    decreases bytes.len(),
{
    if bytes.len() == 0 {
        Seq::empty()
    } else {
        hex_encode(bytes.drop_last()).push(hex_digit(bytes.last() as int / 16)).push(
            hex_digit(bytes.last() as int % 16),
        )
    }
}

pub open spec fn is_lower_hex(c: char) -> bool {
    ('0' <= c && c <= '9') || ('a' <= c && c <= 'f')
}

pub proof fn lemma_hex_encode(bytes: Seq<u8>)
    ensures
        hex_encode(bytes).len() == 2 * bytes.len(),
        forall|i: int| 0 <= i < hex_encode(bytes).len() ==> is_lower_hex(#[trigger] hex_encode(bytes)[i]),
    decreases bytes.len(),
{
    reveal_strlit("0123456789abcdef");
    if bytes.len() > 0 {
        lemma_hex_encode(bytes.drop_last());
        let p = hex_encode(bytes.drop_last());
        let h = bytes.last() as int / 16;
        let l = bytes.last() as int % 16;
        assert(0 <= h < 16 && 0 <= l < 16);
        assert(is_lower_hex(hex_digit(h)));
        assert(is_lower_hex(hex_digit(l)));
        assert forall|i: int| 0 <= i < hex_encode(bytes).len() implies is_lower_hex(
            #[trigger] hex_encode(bytes)[i],
        ) by {
            if i < p.len() {
                assert(hex_encode(bytes)[i] == p[i]);
            }
        }
    }
}

/// Lowercase hex text of the bytes.
pub fn hex_of(bytes: &Vec<u8>) -> (r: String)
    ensures
        r@ == hex_encode(bytes@),
{
    let digits = chars_of("0123456789abcdef");
    proof {
        reveal_strlit("0123456789abcdef");
    }
    let mut out: Vec<char> = Vec::new();
    let mut i: usize = 0;
    while i < bytes.len()
        invariant
            i <= bytes@.len(),
            digits@ == "0123456789abcdef"@,
            digits@.len() == 16,
            out@ == hex_encode(bytes@.take(i as int)),
        decreases bytes.len() - i,
    {
        proof {
            assert(bytes@.take(i + 1).drop_last() =~= bytes@.take(i as int));
        }
        let b = bytes[i];
        out.push(digits[(b / 16) as usize]);
        out.push(digits[(b % 16) as usize]);
        i = i + 1;
    }
    proof {
        assert(bytes@.take(i as int) =~= bytes@);
    }
    string_of(&out)
}

/// Generate a token from the system's cryptographic random source:
/// 64 lowercase hex characters (32 random bytes).
pub fn generate_token() -> (r: Result<String, TokenError>)
    ensures
        match r {
            Ok(t) => t@.len() == 2 * TOKEN_LEN && (forall|i: int|
                0 <= i < t@.len() ==> is_lower_hex(#[trigger] t@[i])) && exists|b: Seq<u8>|
                b.len() == TOKEN_LEN && t@ == hex_encode(b),
            Err(_) => true,
        },
{
    let mut buf: Vec<u8> = Vec::new();
    let mut i: usize = 0;
    while i < TOKEN_LEN
        invariant
            i <= TOKEN_LEN,
            buf@.len() == i,
        decreases TOKEN_LEN - i,
    {
        buf.push(0u8);
        i = i + 1;
    }
    match fill_random(&mut buf) {
        Ok(()) => {
            let t = hex_of(&buf);
            proof {
                lemma_hex_encode(buf@);
                assert(buf@.len() == TOKEN_LEN && t@ == hex_encode(buf@));
            }
            Ok(t)
        },
        Err(e) => Err(TokenError::Generation(random_error_text(&e))),
    }
}

/// Compare a presented token with the expected one without stopping at
/// the first difference: every byte is examined when the lengths agree.
pub fn validate_token(expected: &str, provided: &str) -> (r: bool)
    ensures
        r == (expected@ == provided@),
{
    let eb = expected.as_bytes();
    let pb = provided.as_bytes();
    proof {
        vstd::utf8::encode_utf8_decode_utf8(expected@);
        vstd::utf8::encode_utf8_decode_utf8(provided@);
    }
    if eb.len() != pb.len() {
        return false;
    }
    let mut acc: u8 = 0;
    let mut i: usize = 0;
    assert(eb@.take(0) =~= pb@.take(0));
    while i < eb.len()
        invariant
            i <= eb@.len(),
            eb@.len() == pb@.len(),
            (acc == 0) == (eb@.take(i as int) == pb@.take(i as int)),
        decreases eb.len() - i,
    {
        let a = eb[i];
        let b = pb[i];
        let next = acc | (a ^ b);
        assert((next == 0u8) == (acc == 0u8 && a == b)) by (bit_vector)
            requires
                next == acc | (a ^ b),
        ;
        proof {
            assert(eb@.take(i + 1) =~= eb@.take(i as int).push(a));
            assert(pb@.take(i + 1) =~= pb@.take(i as int).push(b));
            if eb@.take(i + 1) == pb@.take(i + 1) {
                assert(eb@.take(i + 1)[i as int] == pb@.take(i + 1)[i as int]);
                assert(eb@.take(i as int) =~= eb@.take(i + 1).drop_last());
                assert(pb@.take(i as int) =~= pb@.take(i + 1).drop_last());
            }
        }
        acc = next;
        i = i + 1;
    }
    proof {
        assert(eb@.take(i as int) =~= eb@);
        assert(pb@.take(i as int) =~= pb@);
    }
    acc == 0
}

} // verus!
