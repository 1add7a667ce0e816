//! Payment gateway configuration: the identity and signature scheme of one
//! provider, and the guard against placeholder secrets.
use vstd::prelude::*;

use vstd::string::StringSliceAdditionalSpecFns;

use crate::error::AppError;
use crate::text::{chars_of, str_eq, string_of};

verus! {

broadcast use {vstd::string::group_string_axioms, vstd::slice::group_slice_axioms};

/// Placeholder values that must never serve as an active gateway secret.
pub open spec fn placeholder_secrets() -> Seq<Seq<char>> {
    seq![
        "CHANGE_ME_IN_PRODUCTION"@,
        "changeme"@,
        "secret"@,
        "test_secret"@,
        "placeholder"@,
        "password"@,
        "default"@,
    ]
}

/// Shortest acceptable secret, in bytes.
pub const MIN_SECRET_LEN: usize = 16;

/// A secret is unusable when it is shorter than 16 bytes or a known
/// placeholder.
pub open spec fn weak_secret(secret: Seq<char>) -> bool {
    vstd::utf8::encode_utf8(secret).len() < MIN_SECRET_LEN || placeholder_secrets().contains(secret)
}

/// Whether `secret` is a known placeholder or too short to be useful.
pub fn is_placeholder_secret(secret: &str) -> (r: bool)
    ensures
        r == weak_secret(secret@),
{
    if secret.as_bytes().len() < MIN_SECRET_LEN {
        return true;
    }
    let found = str_eq(secret, "CHANGE_ME_IN_PRODUCTION") || str_eq(secret, "changeme") || str_eq(secret, "secret")
        || str_eq(secret, "test_secret") || str_eq(secret, "placeholder") || str_eq(secret, "password")
        || str_eq(secret, "default");
    proof {
        let p = placeholder_secrets();
        if p.contains(secret@) {
            let k = choose|k: int| 0 <= k < p.len() && p[k] == secret@;
            assert(k == 0 || k == 1 || k == 2 || k == 3 || k == 4 || k == 5 || k == 6);
        }
        if found {
            if secret@ == "CHANGE_ME_IN_PRODUCTION"@ { assert(p[0] == secret@); }
            if secret@ == "changeme"@ { assert(p[1] == secret@); }
            if secret@ == "secret"@ { assert(p[2] == secret@); }
            if secret@ == "test_secret"@ { assert(p[3] == secret@); }
            if secret@ == "placeholder"@ { assert(p[4] == secret@); }
            if secret@ == "password"@ { assert(p[5] == secret@); }
            if secret@ == "default"@ { assert(p[6] == secret@); }
        }
    }
    found
}

/// Why a gateway or its callback was refused.
#[derive(Debug, Clone, PartialEq, Eq)]
pub enum GatewayError {
    /// No gateway of that name.
    NotFound(String),
    BadSignature,
    Replay,
    /// Malformed payload or misconfigured gateway.
    BadPayload(String),
    /// Storage failure, with its diagnostic text.
    Db(String),
}

/// The application error each gateway error is answered with.
pub fn gateway_error_to_app(e: GatewayError) -> (r: AppError)
    ensures
        match e {
            GatewayError::NotFound(s) => r == AppError::BadRequest(s),
            GatewayError::BadSignature => r matches AppError::Unauthorized(m)
                && m@ == "Callback signature verification failed"@,
            GatewayError::Replay => r matches AppError::BadRequest(m)
                && m@ == "Replay detected: nonce already used or timestamp too old"@,
            GatewayError::BadPayload(s) => r == AppError::BadRequest(s),
            GatewayError::Db(s) => r == AppError::Database(s),
        },
{
    match e {
        GatewayError::NotFound(s) => AppError::BadRequest(s),
        GatewayError::BadSignature => AppError::Unauthorized(
            string_of(chars_of("Callback signature verification failed").as_slice()),
        ),
        GatewayError::Replay => AppError::BadRequest(
            string_of(chars_of("Replay detected: nonce already used or timestamp too old").as_slice()),
        ),
        GatewayError::BadPayload(s) => AppError::BadRequest(s),
        GatewayError::Db(s) => AppError::Database(s),
    }
}

/// The identity and signature scheme of one payment provider.
pub trait PaymentGateway {
    /// The provider's secret, as bytes.
    spec fn secret(&self) -> Seq<u8>;

    /// The provider's HMAC algorithm name.
    spec fn algorithm(&self) -> Seq<char>;

    /// Whether the timestamp is part of the signed text.
    spec fn signs_timestamp(&self) -> bool;

    /// The provider's machine identifier.
    spec fn gateway_name(&self) -> Seq<char>;

    /// The name of the header carrying the signature.
    spec fn signature_header(&self) -> Seq<char>;

    /// The name of the header carrying the nonce.
    spec fn nonce_header_name(&self) -> Seq<char>;

    /// The name of the header carrying the timestamp.
    spec fn timestamp_header(&self) -> Seq<char>;

    /// Stable machine identifier, e.g. `"alipay"`.
    fn name(&self) -> (r: &str)
        ensures
            r@ == self.gateway_name();

    /// Raw HMAC shared secret.
    fn hmac_secret_bytes(&self) -> (r: &[u8])
        ensures
            r@ == self.secret();

    /// HMAC algorithm (`"sha256"` or `"sha512"`).
    fn hmac_algorithm(&self) -> (r: &str)
        ensures
            r@ == self.algorithm();

    /// Header carrying the signature.
    fn sig_header(&self) -> (r: &str)
        ensures
            r@ == self.signature_header();

    /// Header carrying the nonce.
    fn nonce_header(&self) -> (r: &str)
        ensures
            r@ == self.nonce_header_name();

    /// Header carrying the Unix timestamp in seconds.
    fn ts_header(&self) -> (r: &str)
        ensures
            r@ == self.timestamp_header();

    /// Whether the timestamp is part of the signed text.
    fn ts_in_sig(&self) -> (r: bool)
        ensures
            r == self.signs_timestamp();
}

/// A gateway configuration as stored.  Identifiers are the 128-bit values of
/// the UUIDs; times are Unix seconds; `amount` is in micros.
#[derive(Debug, Clone)]
pub struct GatewayConfig {
    pub id: u128,
    pub name: String,
    pub display_name: String,
    pub hmac_secret: String,
    pub hmac_algorithm: String,
    pub sig_header: String,
    pub nonce_header: String,
    pub ts_header: String,
    pub ts_in_sig: bool,
    pub amount: i64,
    pub created_at: i64,
    pub updated_at: i64,
}

/// A gateway whose configuration was loaded from storage.
#[derive(Debug, Clone)]
pub struct DbGateway {
    pub config: GatewayConfig,
}

impl DbGateway {
    pub fn new(config: GatewayConfig) -> (r: Self)
        ensures
            r.config == config,
    {
        DbGateway { config }
    }
}

impl PaymentGateway for DbGateway {
    open spec fn secret(&self) -> Seq<u8> {
        vstd::utf8::encode_utf8(self.config.hmac_secret@)
    }

    open spec fn algorithm(&self) -> Seq<char> {
        self.config.hmac_algorithm@
    }

    open spec fn signs_timestamp(&self) -> bool {
        self.config.ts_in_sig
    }

    open spec fn gateway_name(&self) -> Seq<char> {
        self.config.name@
    }

    open spec fn signature_header(&self) -> Seq<char> {
        self.config.sig_header@
    }

    open spec fn nonce_header_name(&self) -> Seq<char> {
        self.config.nonce_header@
    }

    open spec fn timestamp_header(&self) -> Seq<char> {
        self.config.ts_header@
    }

    fn name(&self) -> &str {
        self.config.name.as_str()
    }

    fn hmac_secret_bytes(&self) -> &[u8] {
        self.config.hmac_secret.as_str().as_bytes()
    }

    fn hmac_algorithm(&self) -> &str {
        self.config.hmac_algorithm.as_str()
    }

    fn sig_header(&self) -> &str {
        self.config.sig_header.as_str()
    }

    fn nonce_header(&self) -> &str {
        self.config.nonce_header.as_str()
    }

    fn ts_header(&self) -> &str {
        self.config.ts_header.as_str()
    }

    fn ts_in_sig(&self) -> bool {
        self.config.ts_in_sig
    }
}

/// Refuse an active gateway whose secret is a placeholder or too weak.
pub fn check_gateway_secret(config: GatewayConfig) -> (r: Result<DbGateway, GatewayError>)
    ensures
        weak_secret(config.hmac_secret@) ==> (r matches Err(GatewayError::BadPayload(m)) && m@
            == "Gateway is misconfigured: HMAC secret is a placeholder or too weak. Provision a secure secret before activating this gateway."@),
        !weak_secret(config.hmac_secret@) ==> r == Ok::<DbGateway, GatewayError>(DbGateway { config }),
{
    if is_placeholder_secret(config.hmac_secret.as_str()) {
        return Err(GatewayError::BadPayload(string_of(chars_of(
            "Gateway is misconfigured: HMAC secret is a placeholder or too weak. Provision a secure secret before activating this gateway.",
        ).as_slice())));
    }
    Ok(DbGateway::new(config))
}

/// An offline gateway for development and simulation.
pub struct OfflineGateway {
    secret: String,
}

impl OfflineGateway {
    pub closed spec fn secret_text(&self) -> Seq<char> {
        self.secret@
    }

    pub fn new(secret: String) -> (r: Self)
        ensures
            r.secret_text() == secret@,
    {
        OfflineGateway { secret }
    }
}

impl PaymentGateway for OfflineGateway {
    open spec fn secret(&self) -> Seq<u8> {
        vstd::utf8::encode_utf8(self.secret_text())
    }

    open spec fn algorithm(&self) -> Seq<char> {
        "sha256"@
    }

    open spec fn signs_timestamp(&self) -> bool {
        true
    }

    open spec fn gateway_name(&self) -> Seq<char> {
        "offline_test"@
    }

    open spec fn signature_header(&self) -> Seq<char> {
        "X-Signature"@
    }

    open spec fn nonce_header_name(&self) -> Seq<char> {
        "X-Nonce"@
    }

    open spec fn timestamp_header(&self) -> Seq<char> {
        "X-Timestamp"@
    }

    fn name(&self) -> &str {
        "offline_test"
    }

    fn hmac_secret_bytes(&self) -> &[u8] {
        self.secret.as_str().as_bytes()
    }

    fn hmac_algorithm(&self) -> &str {
        "sha256"
    }

    fn sig_header(&self) -> &str {
        "X-Signature"
    }

    fn nonce_header(&self) -> &str {
        "X-Nonce"
    }

    fn ts_header(&self) -> &str {
        "X-Timestamp"
    }

    fn ts_in_sig(&self) -> bool {
        true
    }
}

/// Outcome of processing an inbound callback.
#[derive(Debug, Clone, Copy, PartialEq, Eq, Structural)]
pub enum CallbackStatus {
    Processed,
    Invalid,
    Replayed,
}

/// Result of processing an inbound callback.
#[derive(Debug, Clone)]
pub struct CallbackResult {
    pub callback_id: u128,
    pub transaction_id: Option<u128>,
    pub status: CallbackStatus,
}

} // verus!
