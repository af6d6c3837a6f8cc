use vstd::prelude::*;

use boringauth::oath::HashFunction as Hf;

use crate::settings::{Encoding, HashFunction, TwofaSettings, DEFAULT_WINDOW};

verus! {

/// Why no code could be produced.
#[derive(Clone, Copy, Debug, PartialEq, Eq, Structural)]
pub enum CodeError {
    /// The settings hold no secret.
    MissingSecret,
    /// The settings hold no encoding.
    MissingEncoding,
    /// The secret does not decode in its encoding, or the window is zero.
    InvalidParameters,
}

/// A one-time password: six decimal digits.
pub open spec fn is_code(c: Seq<char>) -> bool {
    c.len() == 6 && forall|i: int| 0 <= i < 6 ==> '0' <= #[trigger] c[i] <= '9'
}

/// A hexadecimal digit, in either case.
pub open spec fn is_hex_digit(c: char) -> bool {
    ('0' <= c <= '9') || ('a' <= c <= 'f') || ('A' <= c <= 'F')
}

/// A character of the RFC 4648 base32 alphabet in either case, or the padding `=`.
pub open spec fn is_base32_char(c: char) -> bool {
    ('A' <= c <= 'Z') || ('a' <= c <= 'z') || ('2' <= c <= '7') || c == '='
}

/// Whether a secret decodes in its encoding: hex needs an even number of hex digits, base32 only
/// characters of its alphabet, and any text is an ASCII key.
pub open spec fn key_decodes(secret: Seq<char>, encoding: Encoding) -> bool {
    match encoding {
        Encoding::Ascii => true,
        Encoding::Hex => secret.len() % 2 == 0 && forall|i: int|
            0 <= i < secret.len() ==> is_hex_digit(#[trigger] secret[i]),
        Encoding::Base32 => forall|i: int|
            0 <= i < secret.len() ==> is_base32_char(#[trigger] secret[i]),
    }
}

/// The time-based code for these settings at the given Unix time.
pub uninterp spec fn totp_at(
    secret: Seq<char>,
    encoding: Encoding,
    hash: HashFunction,
    window: u32,
    time: nat,
) -> Seq<char>;

/// The window a code is computed with: the one set, else 30 seconds.
pub open spec fn window_or_default(w: Option<u32>) -> u32 {
    match w {
        Some(x) => x,
        None => DEFAULT_WINDOW,
    }
}

/// The hash function a code is computed with: the one set, else SHA-512.
pub open spec fn hash_or_default(h: Option<HashFunction>) -> HashFunction {
    match h {
        Some(x) => x,
        None => HashFunction::Sha512,
    }
}

/// Relies on boringauth's `TOTPBuilder` (`new`, the three key setters, `period`,
/// `hash_function`, `finalize`) and `TOTP::generate`. `period(0)` records an error; `hex_key`
/// fails where `hex::decode` does (odd length or a character that is not a hex digit);
/// `base32_key` fails where `base32::decode` does (a character outside the RFC 4648 alphabet,
/// either case, or `=`); `ascii_key` never fails. Otherwise `finalize` succeeds, and the code of
/// the default output is six digits of base "0123456789" for the current Unix time. `generate`
/// panics only where the current Unix time is below the builder's initial time, which is left
/// at zero here.
#[verifier::external_body]
#[allow(deprecated)]
fn totp_code(secret: &str, encoding: Encoding, hash: HashFunction, window: u32) -> (r: Option<
    String,
>)
    ensures
        window > 0 && key_decodes(secret@, encoding) ==> r is Some,
        r matches Some(c) ==> window > 0 && key_decodes(secret@, encoding) && is_code(c@),
        r matches Some(c) ==> (exists|t: nat|
            c@ == #[trigger] totp_at(secret@, encoding, hash, window, t)),
{
    let mut b = boringauth::oath::TOTPBuilder::new();
    match encoding {
        Encoding::Ascii => b.ascii_key(secret),
        Encoding::Hex => b.hex_key(secret),
        Encoding::Base32 => b.base32_key(secret),
    };
    b.period(window).hash_function(match hash {
        HashFunction::Sha1 => Hf::Sha1,
        HashFunction::Sha256 => Hf::Sha256,
        HashFunction::Sha512 => Hf::Sha512,
    });
    match b.finalize() {
        Ok(t) => Some(t.generate()),
        Err(_) => None,
    }
}

/// The current code for the given settings. A window or hash that is not set takes its
/// default (30 seconds, SHA-512); the secret and its encoding must be set, and the secret must
/// decode in its encoding.
pub fn create_code_with_twofa_settings(ts: &TwofaSettings) -> (r: Result<String, CodeError>)
    ensures
        ts.secret is None ==> r == Err::<String, CodeError>(CodeError::MissingSecret),
        ts.secret is Some && ts.encoding is None ==> r == Err::<String, CodeError>(
            CodeError::MissingEncoding,
        ),
        ts.secret is Some && ts.encoding is Some ==> (r is Ok <==> window_or_default(ts.window) > 0
            && key_decodes(ts.secret->0@, ts.encoding->0)),
        ts.secret is Some && ts.encoding is Some && r is Err ==> r == Err::<String, CodeError>(
            CodeError::InvalidParameters,
        ),
        r matches Ok(c) ==> is_code(c@) && exists|t: nat|
            c@ == #[trigger] totp_at(
                ts.secret->0@,
                ts.encoding->0,
                hash_or_default(ts.hash),
                window_or_default(ts.window),
                t,
            ),
{
    let secret = match &ts.secret {
        Some(s) => s,
        None => return Err(CodeError::MissingSecret),
    };
    let encoding = match ts.encoding {
        Some(e) => e,
        None => return Err(CodeError::MissingEncoding),
    };
    let window = match ts.window {
        Some(w) => w,
        None => DEFAULT_WINDOW,
    };
    let hash = match ts.hash {
        Some(h) => h,
        None => HashFunction::Sha512,
    };
    match totp_code(secret.as_str(), encoding, hash, window) {
        Some(c) => {
            proof {
                let t = choose|t: nat| c@ == #[trigger] totp_at(secret@, encoding, hash, window, t);
                assert(c@ == totp_at(
                    ts.secret->0@,
                    ts.encoding->0,
                    hash_or_default(ts.hash),
                    window_or_default(ts.window),
                    t,
                ));
            }
            Ok(c)
        },
        None => Err(CodeError::InvalidParameters),
    }
}

} // verus!
