//! The code engine: from a shared secret and the current time to the
//! one-time code of the current time window and the seconds the window has
//! left.
//!
//! The engine keeps no state: the counter is computed from the time on every
//! call. The keyed hash and its truncation to decimal digits are `totp_rs`'s.

use vstd::prelude::*;
use crate::error::AppError;

verus! {

/// The keyed-hash primitive behind a code.
#[derive(Clone, Copy, Debug, PartialEq, Eq, Structural)]
pub enum Algorithm {
    SHA1,
    SHA256,
    SHA512,
}

impl Algorithm {
    /// The number a stored entry names the algorithm by: the hash's number.
    pub open spec fn id(self) -> u16 {
        match self {
            Algorithm::SHA1 => 1,
            Algorithm::SHA256 => 256,
            Algorithm::SHA512 => 512,
        }
    }

    /// The text a stored entry names the algorithm by.
    pub open spec fn spec_name(self) -> Seq<char> {
        match self {
            Algorithm::SHA1 => "SHA1"@,
            Algorithm::SHA256 => "SHA256"@,
            Algorithm::SHA512 => "SHA512"@,
        }
    }

    /// The algorithm called `name`: exactly `SHA1`, `SHA256` and `SHA512` are
    /// known.
    pub fn from_name(name: &str) -> (a: Option<Algorithm>)
        ensures
            match a {
                Some(alg) => alg.spec_name() == name@,
                None => name@ != "SHA1"@ && name@ != "SHA256"@ && name@ != "SHA512"@,
            },
    {
        let given = String::from_str(name);
        if given == String::from_str("SHA1") {
            Some(Algorithm::SHA1)
        } else if given == String::from_str("SHA256") {
            Some(Algorithm::SHA256)
        } else if given == String::from_str("SHA512") {
            Some(Algorithm::SHA512)
        } else {
            None
        }
    }
}

/// Windows of tolerance a generator is created with where none is named.
pub const DEFAULT_SKEW: u8 = 1;

/// The code that `totp_rs` generates for the algorithm with the number
/// `algorithm`, `digits` digits, the shared secret and the counter of a time
/// window: the HMAC of the counter under the secret, truncated dynamically and
/// reduced to `digits` decimal digits.
pub uninterp spec fn totp_code(algorithm: u16, digits: nat, secret: Seq<u8>, counter: nat) -> Seq<
    char,
>;

/// The parameters `totp_rs` accepts: six to eight digits and a secret of at
/// least 128 bits.
pub open spec fn accepted_by_totp_rs(digits: nat, secret: Seq<u8>) -> bool {
    6 <= digits <= 8 && secret.len() >= 16
}

/// Every character is a decimal digit.
pub open spec fn all_decimal(code: Seq<char>) -> bool {
    forall|i: int| 0 <= i < code.len() ==> '0' <= #[trigger] code[i] <= '9'
}

/// `totp_rs::TOTP::new` followed by `TOTP::generate`. Trusted: `new` accepts
/// exactly six to eight digits with a secret of at least 16 bytes, and reports
/// the digits first; `generate` depends on the time and the step only through
/// their quotient, the counter, and not on the skew, and returns the code
/// named [`totp_code`], zero-padded to exactly `digits` decimal digits. A step
/// of zero is left out because `generate` divides by it.
#[verifier::external_body]
fn totp_rs_generate(
    algorithm: Algorithm,
    digits: usize,
    skew: u8,
    step: u64,
    secret: &[u8],
    time: u64,
) -> (res: Result<String, AppError>)
    requires
        step > 0,
    ensures
        res is Ok <==> accepted_by_totp_rs(digits as nat, secret@),
        res matches Ok(code) ==> {
            &&& code@ == totp_code(algorithm.id(), digits as nat, secret@, (time / step) as nat)
            &&& code@.len() == digits
            &&& all_decimal(code@)
        },
        res matches Err(e) ==> e == (if 6 <= digits <= 8 {
            AppError::SecretTooShort
        } else {
            AppError::InvalidDigits
        }),
{
    let alg = match algorithm {
        Algorithm::SHA1 => totp_rs::Algorithm::SHA1,
        Algorithm::SHA256 => totp_rs::Algorithm::SHA256,
        Algorithm::SHA512 => totp_rs::Algorithm::SHA512,
    };
    match totp_rs::TOTP::new(alg, digits, skew, step, secret.to_vec()) {
        Ok(totp) => Ok(totp.generate(time)),
        Err(totp_rs::TotpUrlError::DigitsNumber(_)) => Err(AppError::InvalidDigits),
        Err(_) => Err(AppError::SecretTooShort),
    }
}

/// The counter of the time window that `now` falls in.
pub open spec fn counter_at(period: u64, now: u64) -> nat {
    (now / period) as nat
}

/// The seconds that the window of `now` has left: a full period at the start
/// of a window, one second at its end, never zero.
pub open spec fn seconds_remaining(period: u64, now: u64) -> int {
    period - now % period
}

/// Whether a code can be derived from these parameters.
pub open spec fn derivable(secret: Seq<u8>, digits: usize, period: u64) -> bool {
    period > 0 && accepted_by_totp_rs(digits as nat, secret)
}

/// The failure reported for parameters that are not derivable.
pub open spec fn rejection(secret: Seq<u8>, digits: usize, period: u64) -> AppError {
    if period == 0 {
        AppError::InvalidPeriod
    } else if !(6 <= digits <= 8) {
        AppError::InvalidDigits
    } else {
        AppError::SecretTooShort
    }
}

/// The code for `now`: the code of the counter of its window.
pub open spec fn code_at(
    secret: Seq<u8>,
    algorithm: Algorithm,
    digits: usize,
    period: u64,
    now: u64,
) -> Seq<char> {
    totp_code(algorithm.id(), digits as nat, secret, counter_at(period, now))
}

/// The countdown never reaches zero and never exceeds the period, and at the
/// start of a window a full period remains.
pub proof fn lemma_seconds_remaining_bounds(period: u64, now: u64)
    requires
        period > 0,
    ensures
        1 <= seconds_remaining(period, now) <= period,
        now % period == 0 ==> seconds_remaining(period, now) == period,
{
}

/// One second later in the same window, one second less remains; across a
/// window's end the countdown starts again at the full period.
pub proof fn lemma_seconds_remaining_step(period: u64, now: u64)
    requires
        period > 0,
        now < u64::MAX,
    ensures
        seconds_remaining(period, now) > 1 ==> seconds_remaining(period, (now + 1) as u64)
            == seconds_remaining(period, now) - 1 && counter_at(period, (now + 1) as u64)
            == counter_at(period, now),
        seconds_remaining(period, now) == 1 ==> seconds_remaining(period, (now + 1) as u64)
            == period && counter_at(period, (now + 1) as u64) == counter_at(period, now) + 1,
{
    let q = now / period;
    let r = now % period;
    assert(now == q * period + r) by (nonlinear_arith)
        requires
            q == now / period,
            r == now % period,
            period > 0,
    ;
    if r + 1 < period {
        assert((now + 1) / (period as int) == q && (now + 1) % (period as int) == r + 1)
            by (nonlinear_arith)
            requires
                now == q * period + r,
                0 <= r,
                r + 1 < period,
        ;
    } else {
        assert((now + 1) / (period as int) == q + 1 && (now + 1) % (period as int) == 0)
            by (nonlinear_arith)
            requires
                now == q * period + r,
                r + 1 == period,
                period > 0,
        ;
    }
}

/// Two times in the same window have the same code.
pub proof fn lemma_code_constant_in_window(
    secret: Seq<u8>,
    algorithm: Algorithm,
    digits: usize,
    period: u64,
    t1: u64,
    t2: u64,
)
    requires
        period > 0,
        t1 / period == t2 / period,
    ensures
        code_at(secret, algorithm, digits, period, t1) == code_at(
            secret,
            algorithm,
            digits,
            period,
            t2,
        ),
{
}

/// The code of the current time window and the seconds the window has left.
///
/// Succeeds exactly when the period is at least one second, the digits are six
/// to eight and the secret has at least 16 bytes. The code has exactly
/// `digits` decimal digits and is the same for every `now` of one window; the
/// seconds left are `period - now mod period`, so never zero.
pub fn current_code(secret: &[u8], algorithm: Algorithm, digits: usize, period: u64, now: u64) -> (res:
    Result<(String, u64), AppError>)
    ensures
        res is Ok <==> derivable(secret@, digits, period),
        res matches Ok(out) ==> {
            &&& out.0@ == code_at(secret@, algorithm, digits, period, now)
            &&& out.0@.len() == digits
            &&& all_decimal(out.0@)
            &&& out.1 == seconds_remaining(period, now)
            &&& 1 <= out.1 <= period
            &&& now % period == 0 ==> out.1 == period
        },
        res matches Err(e) ==> e == rejection(secret@, digits, period),
{
    if period == 0 {
        return Err(AppError::InvalidPeriod);
    }
    let code = totp_rs_generate(algorithm, digits, DEFAULT_SKEW, period, secret, now)?;
    let remaining = period - now % period;
    Ok((code, remaining))
}

/// The parameters of one code generator and its secret.
#[derive(Debug)]
pub struct Totp {
    pub algorithm: Algorithm,
    pub digits: usize,
    /// Windows before and after the current one in which a code is still
    /// accepted by a verifier. It has no part in generating a code.
    pub skew: u8,
    /// Length of a time window in seconds.
    pub step: u64,
    /// The shared secret, not encoded.
    pub secret: Vec<u8>,
}

impl Totp {
    /// A generator with the given parameters.
    ///
    /// Refuses a step of zero (`InvalidPeriod`), digits outside six to eight
    /// (`InvalidDigits`) and a secret under 16 bytes (`SecretTooShort`), in
    /// that order; every other input is accepted and kept as given.
    pub fn new(algorithm: Algorithm, digits: usize, skew: u8, step: u64, secret: Vec<u8>) -> (res:
        Result<Totp, AppError>)
        ensures
            res is Ok <==> derivable(secret@, digits, step),
            res matches Ok(t) ==> {
                &&& t.algorithm == algorithm
                &&& t.digits == digits
                &&& t.skew == skew
                &&& t.step == step
                &&& t.secret@ == secret@
            },
            res matches Err(e) ==> e == rejection(secret@, digits, step),
    {
        if step == 0 {
            Err(AppError::InvalidPeriod)
        } else if digits < 6 || digits > 8 {
            Err(AppError::InvalidDigits)
        } else if secret.len() < 16 {
            Err(AppError::SecretTooShort)
        } else {
            Ok(Totp { algorithm, digits, skew, step, secret })
        }
    }

    /// The code for the time `time`, in seconds since the epoch.
    pub fn generate(&self, time: u64) -> (res: Result<String, AppError>)
        ensures
            res is Ok <==> derivable(self.secret@, self.digits, self.step),
            res matches Ok(code) ==> {
                &&& code@ == code_at(self.secret@, self.algorithm, self.digits, self.step, time)
                &&& code@.len() == self.digits
                &&& all_decimal(code@)
            },
            res matches Err(e) ==> e == rejection(self.secret@, self.digits, self.step),
    {
        match current_code(self.secret.as_slice(), self.algorithm, self.digits, self.step, time) {
            Ok((code, _)) => Ok(code),
            Err(e) => Err(e),
        }
    }
}

} // verus!
