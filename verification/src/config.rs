//! Service configuration assembled from the process environment.
use vstd::prelude::*;

use crate::text::text;

use crate::money::{amount_body, digits_upto};
use crate::text::{all_digits, chars_of, digits_value, push_str, slice_chars, string_of};

verus! {

broadcast use {vstd::string::group_string_axioms, vstd::slice::group_slice_axioms};


/// Service configuration.
#[derive(Debug)]
pub struct Config {
    pub database_url: String,
    pub server_host: String,
    pub server_port: u16,
    pub encryption_key: String,
    /// Previous key, kept during a key rotation.
    pub encryption_key_previous: Option<String>,
    /// E-mail relay endpoint; absent leaves the e-mail channel off.
    pub email_relay_url: Option<String>,
    pub email_from_addr: String,
    /// SMS gateway endpoint; absent leaves the SMS channel off.
    pub sms_gateway_url: Option<String>,
    /// WeCom webhook; absent leaves the WeCom channel off.
    pub wecom_webhook_url: Option<String>,
    /// Failed attempts before an account locks.
    pub lockout_threshold: i32,
    /// Minutes an account stays locked.
    pub lockout_duration_minutes: i64,
    /// Idle minutes after which a session is revoked.
    pub inactivity_timeout_minutes: i64,
    /// Minutes within which a re-authentication counts for admin actions.
    pub reauth_window_minutes: i64,
    /// Hours after which a session ends regardless of activity.
    pub session_max_age_hours: i64,
}

/// The environment variables the configuration reads (absent when unset).
pub struct EnvSettings {
    pub database_url: Option<String>,
    pub server_host: Option<String>,
    pub server_port: Option<String>,
    pub encryption_key: Option<String>,
    pub encryption_key_previous: Option<String>,
    pub email_relay_url: Option<String>,
    pub email_from_address: Option<String>,
    pub sms_gateway_url: Option<String>,
    pub wecom_webhook_url: Option<String>,
}

/// Why the configuration cannot be built.
#[derive(Debug, Clone, PartialEq, Eq)]
pub enum ConfigError {
    /// A required variable is unset; carries the message.
    Missing(String),
    /// A variable does not parse; carries the message.
    Invalid(String),
}

/// The port a text denotes under `str::parse::<u16>`: an optional `+`, then
/// one or more ASCII digits, at most 65535.
pub open spec fn parsed_u16(s: Seq<char>) -> Option<u16> {
    let body = if s.len() > 0 && s[0] == '+' { s.skip(1) } else { s };
    if body.len() > 0 && all_digits(body) && digits_value(body) <= 65535 {
        Some(digits_value(body) as u16)
    } else {
        None
    }
}

/// `str::parse::<u16>`.
pub fn parse_u16(s: &[char]) -> (r: Option<u16>)
    ensures
        r == parsed_u16(s@),
{
    let start: usize = if s.len() > 0 && s[0] == '+' { 1 } else { 0 };
    let body = slice_chars(s, start, s.len());
    assert(body@ =~= (if s@.len() > 0 && s@[0] == '+' { s@.skip(1) } else { s@ }));
    if body.len() == 0 {
        return None;
    }
    match digits_upto(body.as_slice(), 65535) {
        Some(v) => Some(v as u16),
        None => None,
    }
}

impl Config {
    /// Build the configuration: `DATABASE_URL` and `ENCRYPTION_KEY` are
    /// required; `SERVER_HOST` defaults to `127.0.0.1`, `SERVER_PORT` to
    /// `8081` and must be a port number, `EMAIL_FROM_ADDRESS` to
    /// `noreply@transitops.local`.  Authentication limits are fixed: lock
    /// after 5 failures for 15 minutes, 30 idle minutes, 10-minute
    /// re-authentication window, 8-hour sessions.
    pub fn from_settings(env: EnvSettings) -> (r: Result<Config, ConfigError>)
        ensures
            env.database_url is None ==> (r matches Err(ConfigError::Missing(m)) && m@ == "DATABASE_URL must be set"@),
            env.database_url is Some && !(match env.server_port { Some(p) => parsed_u16(p@) is Some, None => true })
                ==> (r matches Err(ConfigError::Invalid(m)) && m@ == "SERVER_PORT must be a valid port number"@),
            env.database_url is Some && (match env.server_port { Some(p) => parsed_u16(p@) is Some, None => true })
                && env.encryption_key is None ==> (r matches Err(ConfigError::Missing(m)) && m@ == "ENCRYPTION_KEY must be set"@),
            r matches Ok(c) ==> {
                &&& Some(c.database_url) == env.database_url
                &&& c.server_host@ == (match env.server_host { Some(h) => h@, None => "127.0.0.1"@ })
                &&& c.server_port == (match env.server_port { Some(p) => parsed_u16(p@).unwrap(), None => 8081 })
                &&& Some(c.encryption_key) == env.encryption_key
                &&& c.encryption_key_previous == env.encryption_key_previous
                &&& c.email_relay_url == env.email_relay_url
                &&& c.email_from_addr@ == (match env.email_from_address { Some(a) => a@, None => "noreply@transitops.local"@ })
                &&& c.sms_gateway_url == env.sms_gateway_url
                &&& c.wecom_webhook_url == env.wecom_webhook_url
                &&& c.lockout_threshold == 5
                &&& c.lockout_duration_minutes == 15
                &&& c.inactivity_timeout_minutes == 30
                &&& c.reauth_window_minutes == 10
                &&& c.session_max_age_hours == 8
            },
            r is Ok <==> (env.database_url is Some && env.encryption_key is Some
                && (match env.server_port { Some(p) => parsed_u16(p@) is Some, None => true })),
    {
        let database_url = match env.database_url {
            Some(u) => u,
            None => return Err(ConfigError::Missing(text("DATABASE_URL must be set"))),
        };
        let server_host = match env.server_host {
            Some(h) => h,
            None => text("127.0.0.1"),
        };
        let server_port = match &env.server_port {
            Some(p) => match parse_u16(chars_of(p.as_str()).as_slice()) {
                Some(n) => n,
                None => return Err(ConfigError::Invalid(text("SERVER_PORT must be a valid port number"))),
            },
            None => 8081,
        };
        let encryption_key = match env.encryption_key {
            Some(k) => k,
            None => return Err(ConfigError::Missing(text("ENCRYPTION_KEY must be set"))),
        };
        let email_from_addr = match env.email_from_address {
            Some(a) => a,
            None => text("noreply@transitops.local"),
        };
        Ok(Config {
            database_url,
            server_host,
            server_port,
            encryption_key,
            encryption_key_previous: env.encryption_key_previous,
            email_relay_url: env.email_relay_url,
            email_from_addr,
            sms_gateway_url: env.sms_gateway_url,
            wecom_webhook_url: env.wecom_webhook_url,
            lockout_threshold: 5,
            lockout_duration_minutes: 15,
            inactivity_timeout_minutes: 30,
            reauth_window_minutes: 10,
            session_max_age_hours: 8,
        })
    }
}

} // verus!
