//! The MFA proof code: given verbatim, or derived from a base32 shared secret
//! with time-based one-time passwords (HMAC-SHA-1, six digits, 30-second
//! steps).

use vstd::prelude::*;
use totp_rs::{Algorithm, Secret, TOTP};

verus! {

/// Length of a time step, in seconds.
pub const TOTP_STEP_SECS: u64 = 30;

/// The bytes that base32 text (RFC 4648 alphabet, no padding) denotes, or
/// none when the text is not such base32.
pub uninterp spec fn base32_decoded(s: Seq<char>) -> Option<Seq<u8>>;

/// The six-digit HMAC-SHA-1 one-time password of `secret` for time step `step`.
pub uninterp spec fn totp_sha1_code(secret: Seq<u8>, step: int) -> Seq<char>;

pub open spec fn is_code_digit(c: char) -> bool {
    '0' <= c && c <= '9'
}

/// Six decimal digits.
pub open spec fn is_six_digit_code(c: Seq<char>) -> bool {
    c.len() == 6 && forall|i: int| 0 <= i < 6 ==> is_code_digit(#[trigger] c[i])
}

/// Relies on totp_rs::Secret::to_bytes for a `Secret::Encoded`: RFC 4648
/// base32 without padding, an error when the text does not decode.
#[verifier::external_body]
fn decode_base32_secret(s: &str) -> (r: Option<Vec<u8>>)
    ensures
        match r {
            Some(b) => base32_decoded(s@) == Some(b@),
            None => base32_decoded(s@) is None,
        },
{
    Secret::Encoded(s.to_string()).to_bytes().ok()
}

/// Relies on totp_rs::TOTP::new with SHA-1, six digits, skew 1 and a 30 s
/// step, which refuses a secret shorter than 16 bytes, and on TOTP::generate,
/// which signs `time / step` and prints the result as six zero-padded digits.
#[verifier::external_body]
fn sha1_totp_at(secret: &Vec<u8>, time: u64) -> (r: Option<String>)
    ensures
        r is None <==> secret@.len() < 16,
        r matches Some(c) ==> c@ == totp_sha1_code(secret@, time as int / 30),
        r matches Some(c) ==> is_six_digit_code(c@),
{
    match TOTP::new(Algorithm::SHA1, 6, 1, TOTP_STEP_SECS, secret.clone()) {
        Ok(t) => Some(t.generate(time)),
        Err(_) => None,
    }
}

/// Why no MFA code could be produced.
#[derive(PartialEq, Eq, Structural, Clone, Copy, Debug)]
pub enum MfaError {
    /// Neither a code nor a secret was given.
    Missing,
    /// The secret is not base32 text.
    UndecodableSecret,
    /// The secret decodes to fewer than 16 bytes.
    SecretTooShort,
}

impl MfaError {
    pub fn message(&self) -> (r: String)
        ensures
            r@ == match *self {
                MfaError::Missing => "a proof code or its generating secret is required"@,
                MfaError::UndecodableSecret => "the TOTP secret is not valid base32"@,
                MfaError::SecretTooShort => "the TOTP secret must hold at least 128 bits"@,
            },
    {
        match self {
            MfaError::Missing => String::from_str("a proof code or its generating secret is required"),
            MfaError::UndecodableSecret => String::from_str("the TOTP secret is not valid base32"),
            MfaError::SecretTooShort => String::from_str(
                "the TOTP secret must hold at least 128 bits",
            ),
        }
    }
}

/// The code for the decoded secret `bytes` at unix time `now`.
pub open spec fn code_from_bytes(bytes: Seq<u8>, now: int) -> Result<Seq<char>, MfaError> {
    if bytes.len() < 16 {
        Err(MfaError::SecretTooShort)
    } else {
        Ok(totp_sha1_code(bytes, now / TOTP_STEP_SECS as int))
    }
}

/// The code that the MFA inputs give at unix time `now`: a given code as it
/// is, else the code derived from the secret.
pub open spec fn mfa_code(code: Option<Seq<char>>, secret: Option<Seq<char>>, now: int) -> Result<
    Seq<char>,
    MfaError,
> {
    match code {
        Some(c) => Ok(c),
        None => match secret {
            Some(s) => match base32_decoded(s) {
                Some(b) => code_from_bytes(b, now),
                None => Err(MfaError::UndecodableSecret),
            },
            None => Err(MfaError::Missing),
        },
    }
}

pub open spec fn opt_view(o: Option<String>) -> Option<Seq<char>> {
    match o {
        Some(s) => Some(s@),
        None => None,
    }
}

pub open spec fn code_view(r: Result<String, MfaError>) -> Result<Seq<char>, MfaError> {
    match r {
        Ok(s) => Ok(s@),
        Err(e) => Err(e),
    }
}

/// The code for the decoded secret `bytes` at unix time `now_secs`.
pub fn code_from_secret_bytes(bytes: &Vec<u8>, now_secs: u64) -> (r: Result<String, MfaError>)
    ensures
        code_view(r) == code_from_bytes(bytes@, now_secs as int),
        r matches Ok(c) ==> is_six_digit_code(c@),
{
    match sha1_totp_at(bytes, now_secs) {
        Some(c) => Ok(c),
        None => Err(MfaError::SecretTooShort),
    }
}

/// The MFA code at unix time `now_secs`: `code` verbatim when given, else the
/// code derived from the base32 `secret`.
pub fn totp_code(code: &Option<String>, secret: &Option<String>, now_secs: u64) -> (r: Result<
    String,
    MfaError,
>)
    ensures
        code_view(r) == mfa_code(opt_view(*code), opt_view(*secret), now_secs as int),
        code is None ==> (r matches Ok(c) ==> is_six_digit_code(c@)),
{
    match code {
        Some(c) => Ok(c.clone()),
        None => match secret {
            Some(s) => match decode_base32_secret(s.as_str()) {
                Some(b) => code_from_secret_bytes(&b, now_secs),
                None => Err(MfaError::UndecodableSecret),
            },
            None => Err(MfaError::Missing),
        },
    }
}

/// Within one 30-second step the same inputs give the same code.
pub proof fn lemma_code_fixed_within_step(
    code: Option<Seq<char>>,
    secret: Option<Seq<char>>,
    t1: int,
    t2: int,
)
    requires
        0 <= t1,
        0 <= t2,
        t1 / TOTP_STEP_SECS as int == t2 / TOTP_STEP_SECS as int,
    ensures
        mfa_code(code, secret, t1) == mfa_code(code, secret, t2),
{
}

} // verus!
