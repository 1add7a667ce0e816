//! Callback signatures and anti-replay checks.
//!
//! The provider signs `nonce + "." + timestamp + "." + sha256_hex(body)` (the
//! timestamp part is left out when the gateway does not sign it).  A callback
//! is accepted when its timestamp is within 300 seconds of now, its nonce is
//! unused, and its signature equals the HMAC of that string.
use vstd::prelude::*;

use hmac::Mac;

use crate::crypto::digest::{sha256, sha256_of};
use crate::crypto::hex::{hex_encode, hex_lower};
use crate::payments::gateway::PaymentGateway;
use vstd::string::StringSliceAdditionalSpecFns;

use crate::error::AppError;
use crate::text::{chars_of, decimal_i64, decimal_int, push_chars, push_str, str_eq, string_of};

verus! {

broadcast use {vstd::string::group_string_axioms, vstd::slice::group_slice_axioms};

/// A rejected replay.
#[derive(Debug, Clone, PartialEq, Eq)]
pub enum ReplayError {
    /// The timestamp is this many seconds away from now (more than 300).
    TimestampStale(i64),
    /// The nonce was already used by an earlier callback.
    NonceReused(String),
}

impl ReplayError {
    /// The error's message.
    pub fn message(&self) -> (r: String)
        ensures
            r@ == replay_text(*self),
    {
        let mut v: Vec<char> = Vec::new();
        match self {
            ReplayError::TimestampStale(d) => {
                push_str(&mut v, "Timestamp out of window: ");
                let t = decimal_i64(*d);
                push_chars(&mut v, t.as_slice());
                push_str(&mut v, " seconds from now (max 300)");
            },
            ReplayError::NonceReused(n) => {
                push_str(&mut v, "Nonce '");
                push_str(&mut v, n.as_str());
                push_str(&mut v, "' has already been used");
            },
        }
        string_of(v.as_slice())
    }
}

/// A rejected callback.
#[derive(Debug, Clone, PartialEq, Eq)]
pub enum VerifyError {
    Replay(ReplayError),
    BadSignature,
}

/// The message of a replay, as the error answered to the caller shows it.
pub open spec fn replay_text(e: ReplayError) -> Seq<char> {
    match e {
        ReplayError::TimestampStale(d) => "Timestamp out of window: "@ + decimal_int(d as int) + " seconds from now (max 300)"@,
        ReplayError::NonceReused(n) => "Nonce '"@ + n@ + "' has already been used"@,
    }
}

/// The application error a rejected callback is answered with: a replay is a
/// bad request naming the replay, a signature mismatch is unauthorized.
pub fn verify_error_to_app(e: VerifyError) -> (r: AppError)
    ensures
        match e {
            VerifyError::Replay(x) => r matches AppError::BadRequest(m) && m@ == "Replay detected: "@ + replay_text(x),
            VerifyError::BadSignature => r matches AppError::Unauthorized(m) && m@ == "Callback signature verification failed"@,
        },
{
    match e {
        VerifyError::Replay(x) => {
            let mut v: Vec<char> = Vec::new();
            push_str(&mut v, "Replay detected: ");
            let m = x.message();
            push_str(&mut v, m.as_str());
            AppError::BadRequest(string_of(v.as_slice()))
        },
        VerifyError::BadSignature => AppError::Unauthorized(string_of(
            chars_of("Callback signature verification failed").as_slice(),
        )),
    }
}

// ------------------------------------------------------------------
// Digests
// ------------------------------------------------------------------

/// HMAC-SHA256 of `msg` under `key`.
pub uninterp spec fn hmac_sha256_of(key: Seq<u8>, msg: Seq<u8>) -> Seq<u8>;

/// HMAC-SHA512 of `msg` under `key`.
pub uninterp spec fn hmac_sha512_of(key: Seq<u8>, msg: Seq<u8>) -> Seq<u8>;

/// `hmac::Hmac<Sha256>` over `msg` with key `key` (HMAC takes keys of any
/// length).  Claims only that the result is the named MAC.
#[verifier::external_body]
fn hmac_sha256(key: &[u8], msg: &[u8]) -> (r: Vec<u8>)
    ensures
        r@ == hmac_sha256_of(key@, msg@),
{
    let mut mac = <hmac::Hmac<sha2::Sha256> as Mac>::new_from_slice(key).unwrap();
    mac.update(msg);
    mac.finalize().into_bytes().to_vec()
}

/// `hmac::Hmac<Sha512>` over `msg` with key `key` (HMAC takes keys of any
/// length).  Claims only that the result is the named MAC.
#[verifier::external_body]
fn hmac_sha512(key: &[u8], msg: &[u8]) -> (r: Vec<u8>)
    ensures
        r@ == hmac_sha512_of(key@, msg@),
{
    let mut mac = <hmac::Hmac<sha2::Sha512> as Mac>::new_from_slice(key).unwrap();
    mac.update(msg);
    mac.finalize().into_bytes().to_vec()
}

/// HMAC-SHA256 of `message` with `secret`, lower-case hex.
pub fn hmac_sha256_hex(secret: &[u8], message: &[u8]) -> (r: String)
    ensures
        r@ == hex_lower(hmac_sha256_of(secret@, message@)),
{
    let m = hmac_sha256(secret, message);
    hex_encode(m.as_slice())
}

/// HMAC-SHA512 of `message` with `secret`, lower-case hex.
pub fn hmac_sha512_hex(secret: &[u8], message: &[u8]) -> (r: String)
    ensures
        r@ == hex_lower(hmac_sha512_of(secret@, message@)),
{
    let m = hmac_sha512(secret, message);
    hex_encode(m.as_slice())
}

/// SHA-256 of `data`, lower-case hex.
pub fn sha256_hex(data: &[u8]) -> (r: String)
    ensures
        r@ == hex_lower(sha256_of(data@)),
{
    let d = sha256(data);
    hex_encode(d.as_slice())
}

// ------------------------------------------------------------------
// Signed string
// ------------------------------------------------------------------

/// The text the provider signs.
pub open spec fn signed_text(nonce: Seq<char>, timestamp: i64, body: Seq<u8>, ts_in_sig: bool) -> Seq<char> {
    if ts_in_sig {
        nonce + "."@ + decimal_int(timestamp as int) + "."@ + hex_lower(sha256_of(body))
    } else {
        nonce + "."@ + hex_lower(sha256_of(body))
    }
}

/// `nonce.timestamp.sha256_hex(body)`, or `nonce.sha256_hex(body)` when the
/// timestamp is not signed.
pub fn build_signed_string(nonce: &str, timestamp: i64, body: &[u8], ts_in_sig: bool) -> (r: String)
    ensures
        r@ == signed_text(nonce@, timestamp, body@, ts_in_sig),
{
    let body_hash = sha256_hex(body);
    let mut v: Vec<char> = Vec::new();
    push_str(&mut v, nonce);
    push_str(&mut v, ".");
    if ts_in_sig {
        let t = decimal_i64(timestamp);
        push_chars(&mut v, t.as_slice());
        push_str(&mut v, ".");
    }
    push_str(&mut v, body_hash.as_str());
    string_of(v.as_slice())
}

// ------------------------------------------------------------------
// Timestamp window
// ------------------------------------------------------------------

/// Largest accepted distance, in seconds, between a callback's timestamp and
/// now.
pub const MAX_TIMESTAMP_SKEW_SECS: i64 = 300;

/// Every Unix time, in seconds, that `chrono` can represent lies strictly
/// within this bound.
pub const CLOCK_BOUND_SECS: i64 = 10_000_000_000_000;

/// `chrono::Utc::now().timestamp()`.  Claims only that the value lies within
/// the range `chrono` can represent.
#[verifier::external_body]
fn unix_now_secs() -> (r: i64)
    ensures
        -CLOCK_BOUND_SECS < r < CLOCK_BOUND_SECS,
{
    chrono::Utc::now().timestamp()
}

/// `|now − ts|`.
pub open spec fn skew(ts: i64, now: i64) -> int {
    let d = now - ts;
    if d < 0 { -d } else { d }
}

/// Accept `ts` when it is within 300 seconds of `now`, either way.
pub fn check_timestamp_window(ts: i64, now: i64) -> (r: Result<(), ReplayError>)
    requires
        skew(ts, now) <= i64::MAX,
    ensures
        skew(ts, now) <= MAX_TIMESTAMP_SKEW_SECS ==> r is Ok,
        skew(ts, now) > MAX_TIMESTAMP_SKEW_SECS ==> r == Err::<(), ReplayError>(ReplayError::TimestampStale(skew(ts, now) as i64)),
{
    let d: i128 = now as i128 - ts as i128;
    let a: i128 = if d < 0 { -d } else { d };
    if a > MAX_TIMESTAMP_SKEW_SECS as i128 {
        Err(ReplayError::TimestampStale(a as i64))
    } else {
        Ok(())
    }
}

/// `r` is the answer of the 300-second window check of `ts` against `now`.
pub open spec fn window_outcome(ts: i64, now: i64, r: Result<(), ReplayError>) -> bool {
    if skew(ts, now) <= MAX_TIMESTAMP_SKEW_SECS {
        r is Ok
    } else {
        r == Err::<(), ReplayError>(ReplayError::TimestampStale(skew(ts, now) as i64))
    }
}

/// Accept `ts` when it is within 300 seconds of the current time: the answer
/// is the window check against a clock reading that `chrono` can represent.
/// Two calls may answer differently: the clock moves.
pub fn validate_timestamp(ts_secs: i64) -> (r: Result<(), ReplayError>)
    requires
        -(i64::MAX - CLOCK_BOUND_SECS) <= ts_secs <= i64::MAX - CLOCK_BOUND_SECS,
    ensures
        r matches Err(e) ==> (e matches ReplayError::TimestampStale(d) && d > MAX_TIMESTAMP_SKEW_SECS),
        exists|now: i64| -CLOCK_BOUND_SECS < now < CLOCK_BOUND_SECS && #[trigger] window_outcome(ts_secs, now, r),
{
    let now = unix_now_secs();
    let r = check_timestamp_window(ts_secs, now);
    assert(window_outcome(ts_secs, now, r));
    r
}

// ------------------------------------------------------------------
// Comparison and the full check
// ------------------------------------------------------------------

/// Byte-slice equality whose running time depends only on the lengths.
pub fn constant_time_eq(a: &[u8], b: &[u8]) -> (r: bool)
    ensures
        r == (a@ == b@),
{
    if a.len() != b.len() {
        return false;
    }
    let mut diff: u8 = 0;
    let mut i: usize = 0;
    while i < a.len()
        invariant
            i <= a@.len(),
            a@.len() == b@.len(),
            (diff == 0) == (forall|k: int| 0 <= k < i ==> a@[k] == b@[k]),
        decreases a.len() - i,
    {
        let x = a[i];
        let y = b[i];
        let nd = diff | (x ^ y);
        assert((nd == 0) == (diff == 0 && x == y)) by (bit_vector)
            requires
                nd == diff | (x ^ y),
        ;
        diff = nd;
        i = i + 1;
    }
    assert(diff == 0 ==> a@ =~= b@);
    diff == 0
}

/// The signature a gateway expects for a callback: the HMAC named by the
/// gateway's algorithm (`sha512`, otherwise SHA-256), hex-encoded.
pub open spec fn expected_signature(secret: Seq<u8>, algorithm: Seq<char>, signed: Seq<u8>) -> Seq<char> {
    if algorithm == "sha512"@ {
        hex_lower(hmac_sha512_of(secret, signed))
    } else {
        hex_lower(hmac_sha256_of(secret, signed))
    }
}

/// Check a callback, in order: the timestamp window against `now`, the nonce
/// (`nonce_used` tells whether an earlier callback carried it), then the
/// signature over the body.
pub fn check_callback<G: PaymentGateway>(
    gateway: &G,
    raw_body: &[u8],
    nonce: &str,
    timestamp: i64,
    provided_sig: &str,
    nonce_used: bool,
    now: i64,
) -> (r: Result<(), VerifyError>)
    requires
        skew(timestamp, now) <= i64::MAX,
    ensures
        skew(timestamp, now) > MAX_TIMESTAMP_SKEW_SECS
            ==> r == Err::<(), VerifyError>(VerifyError::Replay(ReplayError::TimestampStale(skew(timestamp, now) as i64))),
        skew(timestamp, now) <= MAX_TIMESTAMP_SKEW_SECS && nonce_used
            ==> (r matches Err(VerifyError::Replay(ReplayError::NonceReused(n))) && n@ == nonce@),
        skew(timestamp, now) <= MAX_TIMESTAMP_SKEW_SECS && !nonce_used ==> (r is Ok <==> provided_sig@
            == expected_signature(
            gateway.secret(),
            gateway.algorithm(),
            vstd::utf8::encode_utf8(signed_text(nonce@, timestamp, raw_body@, gateway.signs_timestamp())),
        )),
        skew(timestamp, now) <= MAX_TIMESTAMP_SKEW_SECS && !nonce_used && r is Err ==> r == Err::<(), VerifyError>(VerifyError::BadSignature),
{
    match check_timestamp_window(timestamp, now) {
        Err(e) => return Err(VerifyError::Replay(e)),
        Ok(()) => {},
    }
    if nonce_used {
        return Err(VerifyError::Replay(ReplayError::NonceReused(string_of(chars_of(nonce).as_slice()))));
    }
    let signed = build_signed_string(nonce, timestamp, raw_body, gateway.ts_in_sig());
    let algorithm = gateway.hmac_algorithm();
    let expected = if str_eq(algorithm, "sha512") {
        hmac_sha512_hex(gateway.hmac_secret_bytes(), signed.as_str().as_bytes())
    } else {
        hmac_sha256_hex(gateway.hmac_secret_bytes(), signed.as_str().as_bytes())
    };
    proof {
        vstd::utf8::encode_utf8_decode_utf8(provided_sig@);
        vstd::utf8::encode_utf8_decode_utf8(expected@);
    }
    if !constant_time_eq(provided_sig.as_bytes(), expected.as_str().as_bytes()) {
        return Err(VerifyError::BadSignature);
    }
    Ok(())
}

} // verus!
