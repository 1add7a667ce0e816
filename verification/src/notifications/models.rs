//! Notification request and response types, and the checks the handlers
//! apply to requests.
use vstd::prelude::*;

use crate::text::text;

use crate::json::Json;
use crate::notifications::bus::TimeOfDay;
use crate::text::{chars_of, push_str, str_eq, string_of, trim_chars, trimmed};

verus! {

broadcast use {vstd::string::group_string_axioms, vstd::slice::group_slice_axioms};

/// `GET /notifications` query.
pub struct DeliveryQuery {
    pub status: Option<String>,
    pub limit: Option<i64>,
    pub offset: Option<i64>,
}

/// `PUT /notifications/preferences` body.
pub struct UpdatePreferencesRequest {
    pub dnd_enabled: bool,
    pub dnd_start: Option<TimeOfDay>,
    pub dnd_end: Option<TimeOfDay>,
}

/// `PUT /notifications/subscriptions` body.
pub struct UpdateSubscriptionsRequest {
    pub event_types: Vec<String>,
}

/// `POST /notifications/announce` body.
pub struct AnnounceRequest {
    pub title: String,
    pub message: String,
    pub severity: Option<String>,
    pub target_roles: Option<Vec<String>>,
}

/// Unread and queued counts of the caller's inbox.
pub struct UnreadCountResponse {
    pub unread: i64,
    pub queued: i64,
}

/// One subscribable event type and whether the caller subscribes to it.
pub struct SubscriptionInfo {
    pub event_type: String,
    pub description: String,
    pub severity: String,
    pub subscribed: bool,
}

/// A defined event type.
pub struct EventDefRow {
    pub event_type: String,
    pub description: String,
    pub severity: String,
}

/// `PUT /notifications/channels/{channel}` body.
pub struct UpsertChannelRequest {
    pub channel_address: Option<String>,
    pub enabled: Option<bool>,
}

/// `POST /notifications/rules` body.
pub struct CreateRuleRequest {
    pub rule_name: String,
    pub rule_type: String,
    pub config: Json,
    pub severity_override: Option<String>,
    pub cooldown_minutes: Option<i32>,
}

/// `PATCH /notifications/rules/{id}` body.
pub struct UpdateRuleRequest {
    pub rule_name: Option<String>,
    pub config: Option<Json>,
    pub severity_override: Option<String>,
    pub cooldown_minutes: Option<i32>,
}


/// The stored delivery status an inbox filter selects: `all` selects every
/// status (`None`), `unread` is `delivered`; absent means `unread`.
pub open spec fn inbox_filter(status: Option<Seq<char>>) -> Result<Option<Seq<char>>, Seq<char>> {
    let s = match status { Some(s) => s, None => "unread"@ };
    if s == "all"@ {
        Ok(None)
    } else if s == "unread"@ {
        Ok(Some("delivered"@))
    } else if s == "queued"@ {
        Ok(Some("queued"@))
    } else if s == "read"@ {
        Ok(Some("read"@))
    } else if s == "dismissed"@ {
        Ok(Some("dismissed"@))
    } else {
        Err("Invalid status '"@ + s + "'. Valid: unread, queued, read, dismissed, all"@)
    }
}

/// Map an inbox filter to the stored status it selects.
pub fn delivery_status_filter(status: Option<&str>) -> (r: Result<Option<&'static str>, String>)
    ensures
        match r {
            Ok(Some(s)) => inbox_filter(match status { Some(s) => Some(s@), None => None }) == Ok::<_, Seq<char>>(Some(s@)),
            Ok(None) => inbox_filter(match status { Some(s) => Some(s@), None => None }) == Ok::<Option<Seq<char>>, Seq<char>>(None),
            Err(m) => inbox_filter(match status { Some(s) => Some(s@), None => None }) == Err::<Option<Seq<char>>, _>(m@),
        },
{
    let s = match status {
        Some(s) => s,
        None => "unread",
    };
    if str_eq(s, "all") {
        Ok(None)
    } else if str_eq(s, "unread") {
        Ok(Some("delivered"))
    } else if str_eq(s, "queued") {
        Ok(Some("queued"))
    } else if str_eq(s, "read") {
        Ok(Some("read"))
    } else if str_eq(s, "dismissed") {
        Ok(Some("dismissed"))
    } else {
        let mut v: Vec<char> = Vec::new();
        push_str(&mut v, "Invalid status '");
        push_str(&mut v, s);
        push_str(&mut v, "'. Valid: unread, queued, read, dismissed, all");
        Err(string_of(v.as_slice()))
    }
}

/// An enabled do-not-disturb window needs both ends or neither.
pub fn check_dnd_request(req: &UpdatePreferencesRequest) -> (r: Result<(), String>)
    ensures
        (req.dnd_enabled && (req.dnd_start is Some) != (req.dnd_end is Some)) ==> (r matches Err(m)
            && m@ == "dnd_start and dnd_end must both be provided together, or both omitted"@),
        !(req.dnd_enabled && (req.dnd_start is Some) != (req.dnd_end is Some)) ==> r is Ok,
{
    if req.dnd_enabled && req.dnd_start.is_some() != req.dnd_end.is_some() {
        return Err(text("dnd_start and dnd_end must both be provided together, or both omitted"));
    }
    Ok(())
}

/// The requested event types that are not among `valid`, in request order.
pub open spec fn unknown_types(requested: Seq<Seq<char>>, valid: Seq<Seq<char>>) -> Seq<Seq<char>> {
    requested.filter(|t: Seq<char>| !valid.contains(t))
}

/// `"Unknown event type(s): a, b"` when some requested type is unknown.
pub fn check_event_types(requested: &Vec<String>, valid: &Vec<String>) -> (r: Result<(), String>)
    ensures
        r is Ok <==> unknown_types(requested@.map_values(|s: String| s@), valid@.map_values(|s: String| s@)).len() == 0,
{
    let ghost rv = requested@.map_values(|s: String| s@);
    let ghost vv = valid@.map_values(|s: String| s@);
    let mut msg: Vec<char> = Vec::new();
    push_str(&mut msg, "Unknown event type(s): ");
    let mut count: usize = 0;
    let mut i: usize = 0;
    while i < requested.len()
        invariant
            i <= requested@.len(),
            rv == requested@.map_values(|s: String| s@),
            vv == valid@.map_values(|s: String| s@),
            count == unknown_types(rv.take(i as int), vv).len(),
            count <= i,
        decreases requested.len() - i,
    {
        let mut known = false;
        let mut j: usize = 0;
        while j < valid.len()
            invariant
                j <= valid@.len(),
                vv == valid@.map_values(|s: String| s@),
                i < requested@.len(),
                rv == requested@.map_values(|s: String| s@),
                known == exists|k: int| 0 <= k < j && vv[k] == rv[i as int],
            decreases valid.len() - j,
        {
            assert(vv[j as int] == valid@[j as int]@);
            assert(rv[i as int] == requested@[i as int]@);
            if str_eq(valid[j].as_str(), requested[i].as_str()) {
                known = true;
            }
            j = j + 1;
        }
        proof {
            assert(rv.take(i + 1).drop_last() =~= rv.take(i as int));
            vstd::seq_lib::lemma_seq_contains_after_push(rv.take(i as int), rv[i as int], rv[i as int]);
            assert(rv.take(i + 1) =~= rv.take(i as int).push(rv[i as int]));
            reveal(Seq::filter);
            assert(known == vv.contains(rv[i as int]));
        }
        if !known {
            if count > 0 {
                push_str(&mut msg, ", ");
            }
            push_str(&mut msg, requested[i].as_str());
            count = count + 1;
        }
        i = i + 1;
    }
    assert(rv.take(i as int) =~= rv);
    if count > 0 {
        return Err(string_of(msg.as_slice()));
    }
    Ok(())
}

/// A rule name must not be blank.
pub fn check_rule_name(name: &str) -> (r: Result<(), String>)
    ensures
        r is Ok <==> trimmed(name@).len() > 0,
        r matches Err(m) ==> m@ == "rule_name is required"@,
{
    let t = trim_chars(chars_of(name).as_slice());
    if t.len() == 0 {
        return Err(text("rule_name is required"));
    }
    Ok(())
}

/// A rule's cooldown: 15 minutes by default, at least 1.
pub fn effective_cooldown(cooldown_minutes: Option<i32>) -> (r: i32)
    ensures
        r == (match cooldown_minutes {
            Some(c) => if c < 1 { 1 } else { c },
            None => 15,
        }),
{
    let c = match cooldown_minutes {
        Some(c) => c,
        None => 15,
    };
    if c < 1 { 1 } else { c }
}

/// Whether `s` names a severity.
pub open spec fn is_severity(s: Seq<char>) -> bool {
    s == "info"@ || s == "warning"@ || s == "critical"@
}

/// A severity override must be `info`, `warning` or `critical`.
pub fn check_severity_override(sev: Option<&str>) -> (r: Result<(), String>)
    ensures
        r is Ok <==> (match sev { Some(s) => is_severity(s@), None => true }),
        r matches Err(m) ==> m@ == "severity_override must be info, warning, or critical"@,
{
    match sev {
        Some(s) => if !(str_eq(s, "info") || str_eq(s, "warning") || str_eq(s, "critical")) {
            return Err(text("severity_override must be info, warning, or critical"));
        },
        None => {},
    }
    Ok(())
}

/// An announcement's severity (`info` by default) after the checks: a known
/// severity, and non-blank title and message.
pub fn check_announcement(req: &AnnounceRequest) -> (r: Result<&str, String>)
    ensures
        match r {
            Ok(s) => s@ == (match req.severity { Some(x) => x@, None => "info"@ }) && is_severity(s@)
                && trimmed(req.title@).len() > 0 && trimmed(req.message@).len() > 0,
            Err(m) => if !is_severity(match req.severity { Some(x) => x@, None => "info"@ }) {
                m@ == "severity must be one of: info, warning, critical"@
            } else {
                m@ == "title and message are required and must not be blank"@
                    && (trimmed(req.title@).len() == 0 || trimmed(req.message@).len() == 0)
            },
        },
{
    let severity = match &req.severity {
        Some(s) => s.as_str(),
        None => "info",
    };
    if !(str_eq(severity, "info") || str_eq(severity, "warning") || str_eq(severity, "critical")) {
        return Err(text("severity must be one of: info, warning, critical"));
    }
    let t = trim_chars(chars_of(req.title.as_str()).as_slice());
    let m = trim_chars(chars_of(req.message.as_str()).as_slice());
    if t.len() == 0 || m.len() == 0 {
        return Err(text("title and message are required and must not be blank"));
    }
    Ok(severity)
}

/// Whether `c` names a notification channel.
pub open spec fn is_channel(c: Seq<char>) -> bool {
    c == "email"@ || c == "sms"@ || c == "wecom"@
}

/// A channel path segment must name a channel.
pub fn check_channel(channel: &str) -> (r: Result<(), String>)
    ensures
        r is Ok <==> is_channel(channel@),
        r matches Err(m) ==> m@ == "channel must be one of: email, sms, wecom"@,
{
    if !(str_eq(channel, "email") || str_eq(channel, "sms") || str_eq(channel, "wecom")) {
        return Err(text("channel must be one of: email, sms, wecom"));
    }
    Ok(())
}

/// A channel address, when given, is trimmed and must not be empty.
pub fn check_channel_address(addr: Option<&str>) -> (r: Result<Option<String>, String>)
    ensures
        match addr {
            Some(a) => if trimmed(a@).len() == 0 {
                r matches Err(m) && m@ == "channel_address must not be empty"@
            } else {
                r matches Ok(Some(t)) && t@ == trimmed(a@)
            },
            None => r matches Ok(None),
        },
{
    match addr {
        Some(a) => {
            let t = trim_chars(chars_of(a).as_slice());
            if t.len() == 0 {
                return Err(text("channel_address must not be empty"));
            }
            Ok(Some(string_of(t.as_slice())))
        },
        None => Ok(None),
    }
}

} // verus!
