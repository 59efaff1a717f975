//! The second step of a two-factor login: the pending-login token, the TOTP
//! code and the recovery codes.
//!
//! Reading the user's TOTP secret and recovery-code hashes from the database,
//! marking a recovery code used and creating the session are done by the
//! caller, between the steps below.

use vstd::prelude::*;
use crate::auth::{argon2_accepts, verify_password};
use crate::error::AppError;
use crate::login_state::{next_attempt, PendingTotp, PendingTotpStore, MAX_TOTP_ATTEMPTS};
use crate::text::{chars_of, decimal, extend_str, string_from_str, string_of};

verus! {

/// The hash function of a TOTP code.
#[derive(Clone, Copy, PartialEq, Eq, Structural)]
pub enum TotpAlgorithm {
    Sha1,
    Sha256,
    Sha512,
}

/// The bytes an RFC 4648 base32 text (no padding) encodes, when it is one.
pub uninterp spec fn base32_decoded(s: Seq<char>) -> Option<Seq<u8>>;

/// `Secret::Encoded(..).to_bytes()` of `totp-rs`: the base32 (RFC 4648, no
/// padding) decoding of a stored secret, `None` when it is not base32.
#[verifier::external_body]
fn decode_totp_secret(secret_base32: &str) -> (r: Option<Vec<u8>>)
    ensures
        match r {
            Some(b) => base32_decoded(secret_base32@) == Some(b@),
            None => base32_decoded(secret_base32@) is None,
        },
{
    totp_rs::Secret::Encoded(secret_base32.to_string()).to_bytes().ok()
}

/// Whether `code` is a valid TOTP code at `time` (seconds) for the secret:
/// the code of one of the time steps `time / step - skew` to
/// `time / step + skew`, with the given hash and number of digits.
pub uninterp spec fn totp_accepts(
    algorithm: TotpAlgorithm,
    digits: nat,
    skew: u8,
    step: u64,
    secret: Seq<u8>,
    code: Seq<char>,
    time: u64,
) -> bool;

/// Why `TOTP::new` refuses its parameters, in the order it checks them:
/// digits outside 6 to 8, a secret shorter than 128 bits, a colon in the
/// issuer or in the account name.
pub open spec fn totp_parameter_error(digits: nat, secret_len: nat, issuer: Seq<char>, account_name: Seq<char>) -> Option<Seq<char>> {
    if !(6 <= digits <= 8) {
        Some(
            "Implementations MUST extract a 6-digit code at a minimum and possibly 7 and 8-digit code. "@
                + decimal(digits as int) + " digits is not allowed"@,
        )
    } else if secret_len < 16 {
        Some(
            "The length of the shared secret MUST be at least 128 bits. "@ + decimal((secret_len * 8) as int)
                + " bits is not enough"@,
        )
    } else if issuer.contains(':') {
        Some("Issuer can't contain a colon. \""@ + issuer + "\" contains a colon"@)
    } else if account_name.contains(':') {
        Some("Account Name can't contain a colon. \""@ + account_name + "\" contains a colon"@)
    } else {
        None
    }
}

/// `TOTP::new` of `totp-rs` (with an issuer and an account name), then
/// `TOTP::check` of `code` at `time`: the error message when the parameters
/// are refused, else whether the code is valid.
#[verifier::external_body]
fn totp_check(
    algorithm: TotpAlgorithm,
    digits: usize,
    skew: u8,
    step: u64,
    secret: Vec<u8>,
    issuer: String,
    account_name: String,
    code: &str,
    time: u64,
) -> (r: Result<bool, String>)
    requires
        step > 0,
        time / step >= skew,
        time + 2 * (skew + 1) * step <= u64::MAX,
    ensures
        match totp_parameter_error(digits as nat, secret@.len(), issuer@, account_name@) {
            Some(m) => r matches Err(x) && x@ == m,
            None => r == Ok::<bool, String>(totp_accepts(algorithm, digits as nat, skew, step, secret@, code@, time)),
        },
{
    let algorithm = match algorithm {
        TotpAlgorithm::Sha1 => totp_rs::Algorithm::SHA1,
        TotpAlgorithm::Sha256 => totp_rs::Algorithm::SHA256,
        TotpAlgorithm::Sha512 => totp_rs::Algorithm::SHA512,
    };
    let totp = totp_rs::TOTP::new(algorithm, digits, skew, step, secret, Some(issuer), account_name)
        .map_err(|e| e.to_string())?;
    Ok(totp.check(code, time))
}

/// The TOTP settings of the server: SHA-1, 6 digits, 30-second steps, one
/// step of tolerance either way, issued as "Ironshelf".
pub open spec fn ironshelf_totp_accepts(secret: Seq<u8>, code: Seq<char>, time: u64) -> bool {
    totp_accepts(TotpAlgorithm::Sha1, 6, 1, 30, secret, code, time)
}

/// What checking a TOTP code answers: the secret must decode and make a
/// valid TOTP for the user; then the code is checked at the current time
/// (`None` when the clock cannot be read, which counts as a wrong code).
pub open spec fn totp_outcome(secret_base32: Seq<char>, username: Seq<char>, code: Seq<char>, now: Option<u64>) -> Result<bool, Seq<char>> {
    match base32_decoded(secret_base32) {
        None => Err("secret decode: Could not decode base32 secret."@),
        Some(secret) => match totp_parameter_error(6, secret.len(), "Ironshelf"@, username) {
            Some(m) => Err("totp init: "@ + m),
            None => match now {
                Some(t) => Ok(ironshelf_totp_accepts(secret, code, t)),
                None => Ok(false),
            },
        },
    }
}

/// Check a TOTP code of `username` against the user's stored base32 secret.
/// A secret that cannot be used is an internal error.
pub fn verify_totp_code(secret_base32: &str, username: &str, code: &str, now: Option<u64>) -> (r: Result<bool, AppError>)
    requires
        now matches Some(t) ==> 30 <= t <= u64::MAX - 120,
    ensures
        match totp_outcome(secret_base32@, username@, code@, now) {
            Ok(b) => r == Ok::<bool, AppError>(b),
            Err(m) => r matches Err(e) && e matches AppError::Internal(x) && x@ == m,
        },
{
    let secret = match decode_totp_secret(secret_base32) {
        Some(s) => s,
        None => {
            return Err(AppError::Internal(string_from_str("secret decode: Could not decode base32 secret.")));
        },
    };
    let check_at = match now {
        Some(t) => t,
        None => 30,
    };
    let secret_len = secret.len();
    proof {
        reveal_strlit("Ironshelf");
        assert(!"Ironshelf"@.contains(':'));
    }
    match totp_check(
        TotpAlgorithm::Sha1,
        6,
        1,
        30,
        secret,
        string_from_str("Ironshelf"),
        string_from_str(username),
        code,
        check_at,
    ) {
        Ok(valid) => {
            match now {
                Some(_) => Ok(valid),
                None => Ok(false),
            }
        },
        Err(m) => {
            let mut v = chars_of("totp init: ");
            extend_str(&mut v, m.as_str());
            Err(AppError::Internal(string_of(&v)))
        },
    }
}

/// The first recovery code (by position) whose hash accepts `code`.
pub open spec fn first_accepting(code: Seq<char>, hashes: Seq<String>, i: int) -> bool {
    &&& 0 <= i < hashes.len()
    &&& argon2_accepts(hashes[i]@, code)
    &&& forall|j: int| 0 <= j < i ==> !argon2_accepts(#[trigger] hashes[j]@, code)
}

/// The unused recovery code that `code` matches, by position among their
/// hashes: the first one that accepts it.
pub fn matching_recovery_code(code: &str, code_hashes: &Vec<String>) -> (r: Option<usize>)
    ensures
        match r {
            Some(i) => first_accepting(code@, code_hashes@, i as int),
            None => forall|j: int| 0 <= j < code_hashes@.len() ==> !argon2_accepts(#[trigger] code_hashes@[j]@, code@),
        },
{
    let mut i: usize = 0;
    while i < code_hashes.len()
        invariant
            i <= code_hashes.len(),
            forall|j: int| 0 <= j < i ==> !argon2_accepts(#[trigger] code_hashes@[j]@, code@),
        decreases code_hashes.len() - i,
    {
        if verify_password(code, code_hashes[i].as_str()) {
            return Some(i);
        }
        i = i + 1;
    }
    None
}

/// The refusal of a token that is unknown, expired or out of attempts.
pub open spec fn invalid_token_error(e: AppError) -> bool {
    e matches AppError::Unauthorized(m) && m@ == "Invalid or expired 2FA token"@
}

/// Start checking a code sent with `token`: count the attempt (which drops
/// the token once it is out of attempts or expired), then take the pending
/// login out of the store. An unknown, expired or exhausted token is refused.
pub fn begin_two_factor(store: &mut PendingTotpStore, token: &str) -> (r: Result<PendingTotp, AppError>)
    requires
        old(store).wf(),
    ensures
        final(store).wf(),
        !final(store).view().contains_key(token@),
        r matches Err(e) ==> invalid_token_error(e),
        r matches Ok(p) ==> old(store).view().contains_key(token@) && p.user_id == old(
            store,
        ).view()[token@].pending.user_id && p.username == old(store).view()[token@].pending.username
            && p.is_owner == old(store).view()[token@].pending.is_owner
            && p.attempt_count == next_attempt(old(store).view()[token@].pending.attempt_count)
            && p.attempt_count < MAX_TOTP_ATTEMPTS,
        old(store).view().contains_key(token@) && next_attempt(old(store).view()[token@].pending.attempt_count)
            >= MAX_TOTP_ATTEMPTS ==> r is Err,
{
    let attempt = store.increment_attempt(token);
    if attempt.is_none() {
        return Err(AppError::Unauthorized(string_from_str("Invalid or expired 2FA token")));
    }
    match store.take(token) {
        Some(p) => Ok(p),
        None => Err(AppError::Unauthorized(string_from_str("Invalid or expired 2FA token"))),
    }
}

/// A wrong code: the pending login goes back under its token (keeping when
/// it was created and how many attempts it had), and the code is refused.
pub fn reject_two_factor_code(store: &mut PendingTotpStore, token: String, pending: PendingTotp) -> (e: AppError)
    requires
        old(store).wf(),
    ensures
        final(store).wf(),
        final(store).view().contains_key(token@),
        final(store).view()[token@].pending == pending,
        e matches AppError::Unauthorized(m) && m@ == "Invalid 2FA code"@,
{
    store.insert(token, pending);
    AppError::Unauthorized(string_from_str("Invalid 2FA code"))
}

} // verus!
