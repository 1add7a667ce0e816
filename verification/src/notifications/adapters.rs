//! Outbound channel messages: their title and body, and the text each
//! channel (e-mail relay, SMS gateway, WeCom bot) is sent.
use std::sync::Arc;

use vstd::prelude::*;

use crate::json::{get_str, str_field, Json};
use crate::text::{chars_of, push_chars, push_str, string_of, to_uppercase, uppercased};

verus! {

broadcast use {vstd::string::group_string_axioms, vstd::slice::group_slice_axioms};

/// Why a channel delivery failed.
#[derive(Debug, Clone, PartialEq, Eq)]
pub enum AdapterError {
    /// The connector URL is not set.
    NotConfigured,
    DeliveryFailed(String),
}

impl AdapterError {
    /// The error's message.
    pub fn message(&self) -> (r: String)
        ensures
            r@ == (match *self {
                AdapterError::NotConfigured => "adapter not configured — connector URL not set"@,
                AdapterError::DeliveryFailed(m) => "delivery failed: "@ + m@,
            }),
    {
        let mut v: Vec<char> = Vec::new();
        match self {
            AdapterError::NotConfigured => push_str(&mut v, "adapter not configured — connector URL not set"),
            AdapterError::DeliveryFailed(m) => {
                push_str(&mut v, "delivery failed: ");
                push_str(&mut v, m.as_str());
            },
        }
        string_of(v.as_slice())
    }
}

/// An event awaiting fan-out.
pub struct PendingEvent {
    pub id: u128,
    pub event_type: String,
    pub source_entity_id: Option<u128>,
    pub actor_id: Option<u128>,
    pub payload: Json,
    pub effective_severity: String,
}

/// Title: the payload's `title` text, else the event type.
pub open spec fn event_title(event_type: Seq<char>, payload: Json) -> Seq<char> {
    match str_field(payload, "title"@) {
        Some(t) => t,
        None => event_type,
    }
}

/// The first of `message`, `description`, `body` that the payload has; a
/// present key whose value is not text yields nothing.
pub open spec fn body_field(payload: Json) -> Option<Seq<char>> {
    if crate::json::json_get(payload, "message"@) is Some {
        str_field(payload, "message"@)
    } else if crate::json::json_get(payload, "description"@) is Some {
        str_field(payload, "description"@)
    } else {
        str_field(payload, "body"@)
    }
}

/// Body: the payload's message text, else a sentence naming the event.
pub open spec fn event_body(event_type: Seq<char>, severity: Seq<char>, payload: Json) -> Seq<char> {
    match body_field(payload) {
        Some(b) => b,
        None => "Event "@ + event_type + " triggered (severity: "@ + severity + ")."@,
    }
}

/// Title and body of a notification for an event.
pub fn derive_title_body(event_type: &str, severity: &str, payload: &Json) -> (r: (String, String))
    ensures
        r.0@ == event_title(event_type@, *payload),
        r.1@ == event_body(event_type@, severity@, *payload),
{
    let title = match get_str(payload, "title") {
        Some(t) => string_of(chars_of(t).as_slice()),
        None => string_of(chars_of(event_type).as_slice()),
    };
    let field = if payload.get("message").is_some() {
        get_str(payload, "message")
    } else if payload.get("description").is_some() {
        get_str(payload, "description")
    } else {
        get_str(payload, "body")
    };
    let body = match field {
        Some(b) => string_of(chars_of(b).as_slice()),
        None => {
            let mut v: Vec<char> = Vec::new();
            push_str(&mut v, "Event ");
            push_str(&mut v, event_type);
            push_str(&mut v, " triggered (severity: ");
            push_str(&mut v, severity);
            push_str(&mut v, ").");
            string_of(v.as_slice())
        },
    };
    (title, body)
}

/// A notification ready to be sent on one channel.
pub struct OutboundNotification {
    pub event_type: String,
    pub severity: String,
    pub title: String,
    pub body: String,
    pub recipient_id: u128,
    /// E-mail address, E.164 phone number or WeCom user id.
    pub channel_address: String,
}

impl OutboundNotification {
    /// The notification of `event` for one recipient address.
    pub fn from_event(event: &PendingEvent, recipient_id: u128, channel_address: String) -> (r: Self)
        ensures
            r.event_type@ == event.event_type@,
            r.severity@ == event.effective_severity@,
            r.title@ == event_title(event.event_type@, event.payload),
            r.body@ == event_body(event.event_type@, event.effective_severity@, event.payload),
            r.recipient_id == recipient_id,
            r.channel_address == channel_address,
    {
        let (title, body) = derive_title_body(
            event.event_type.as_str(),
            event.effective_severity.as_str(),
            &event.payload,
        );
        OutboundNotification {
            event_type: string_of(chars_of(event.event_type.as_str()).as_slice()),
            severity: string_of(chars_of(event.effective_severity.as_str()).as_slice()),
            title,
            body,
            recipient_id,
            channel_address,
        }
    }
}

/// Longest SMS text, in characters (one PDU).
pub const SMS_MAX_LEN: usize = 160;

/// `s` if it has at most 160 characters, otherwise its first 159 followed by
/// `…`.
pub open spec fn sms_text(s: Seq<char>) -> Seq<char> {
    if s.len() <= SMS_MAX_LEN {
        s
    } else {
        s.take(SMS_MAX_LEN - 1).push('…')
    }
}

/// Cut a message to one SMS, marking the cut with `…`.
pub fn truncate_sms(s: &str) -> (r: String)
    ensures
        r@ == sms_text(s@),
        r@.len() <= SMS_MAX_LEN,
{
    let chars = chars_of(s);
    if chars.len() <= SMS_MAX_LEN {
        string_of(chars.as_slice())
    } else {
        let mut v = crate::text::slice_chars(chars.as_slice(), 0, SMS_MAX_LEN - 1);
        v.push('…');
        string_of(v.as_slice())
    }
}

/// `"[SEVERITY] text"` with the severity upper-cased.
pub open spec fn tagged(severity: Seq<char>, text: Seq<char>) -> Seq<char> {
    "["@ + uppercased(severity) + "] "@ + text
}

fn tag(severity: &str, text: &str) -> (r: Vec<char>)
    ensures
        r@ == tagged(severity@, text@),
{
    let up = to_uppercase(severity);
    let mut v: Vec<char> = Vec::new();
    push_str(&mut v, "[");
    push_str(&mut v, up.as_str());
    push_str(&mut v, "] ");
    push_str(&mut v, text);
    v
}

/// The SMS text of a notification: the tagged body, cut to one SMS.
pub fn sms_message(notif: &OutboundNotification) -> (r: String)
    ensures
        r@ == sms_text(tagged(notif.severity@, notif.body@)),
{
    let raw = tag(notif.severity.as_str(), notif.body.as_str());
    let s = string_of(raw.as_slice());
    truncate_sms(s.as_str())
}

/// The e-mail subject of a notification: the tagged title.
pub fn email_subject(notif: &OutboundNotification) -> (r: String)
    ensures
        r@ == tagged(notif.severity@, notif.title@),
{
    let v = tag(notif.severity.as_str(), notif.title.as_str());
    string_of(v.as_slice())
}

/// The WeCom markdown of a notification: a heading with a colour tag for
/// `warning` and `critical`, the body, and a mention of the address when it
/// is set.
pub open spec fn markdown_text(severity: Seq<char>, title: Seq<char>, body: Seq<char>, address: Seq<char>) -> Seq<char> {
    let tag = if severity == "warning"@ {
        "<font color=\"warning\">[WARNING]</font> "@
    } else if severity == "critical"@ {
        "<font color=\"info\">[CRITICAL]</font> "@
    } else {
        Seq::empty()
    };
    let mention = if address.len() == 0 { Seq::empty() } else { "\n<@"@ + address + ">"@ };
    "### "@ + tag + title + "\n"@ + body + mention
}

/// Build the WeCom markdown of a notification.
pub fn build_markdown(notif: &OutboundNotification) -> (r: String)
    ensures
        r@ == markdown_text(notif.severity@, notif.title@, notif.body@, notif.channel_address@),
{
    let mut v: Vec<char> = Vec::new();
    push_str(&mut v, "### ");
    if crate::text::str_eq(notif.severity.as_str(), "warning") {
        push_str(&mut v, "<font color=\"warning\">[WARNING]</font> ");
    } else if crate::text::str_eq(notif.severity.as_str(), "critical") {
        push_str(&mut v, "<font color=\"info\">[CRITICAL]</font> ");
    }
    push_str(&mut v, notif.title.as_str());
    push_str(&mut v, "\n");
    push_str(&mut v, notif.body.as_str());
    if notif.channel_address.as_str().unicode_len() != 0 {
        push_str(&mut v, "\n<@");
        push_str(&mut v, notif.channel_address.as_str());
        push_str(&mut v, ">");
    }
    proof {
        let ghost sev = notif.severity@;
        let ghost t = if sev == "warning"@ {
            "<font color=\"warning\">[WARNING]</font> "@
        } else if sev == "critical"@ {
            "<font color=\"info\">[CRITICAL]</font> "@
        } else {
            Seq::<char>::empty()
        };
        assert(v@ =~= markdown_text(notif.severity@, notif.title@, notif.body@, notif.channel_address@));
    }
    string_of(v.as_slice())
}

/// The error a WeCom reply reports: a non-zero integer `errcode` fails with
/// `errmsg` (or `unknown`).
pub open spec fn wecom_reply_failure(reply: Json) -> Option<Seq<char>> {
    let code = match crate::json::json_get(reply, "errcode"@) {
        Some(v) => match crate::json::json_i64(v) { Some(c) => c, None => 0 },
        None => 0,
    };
    if code != 0 {
        Some("WeCom API error: "@ + match str_field(reply, "errmsg"@) { Some(m) => m, None => "unknown"@ })
    } else {
        None
    }
}

/// Read a WeCom reply body.
pub fn wecom_reply_error(reply: &Json) -> (r: Option<String>)
    ensures
        match r {
            Some(m) => wecom_reply_failure(*reply) == Some(m@),
            None => wecom_reply_failure(*reply) is None,
        },
{
    let code = match reply.get("errcode") {
        Some(v) => match v.as_i64() {
            Some(c) => c,
            None => 0,
        },
        None => 0,
    };
    if code != 0 {
        let mut v: Vec<char> = Vec::new();
        push_str(&mut v, "WeCom API error: ");
        match get_str(reply, "errmsg") {
            Some(m) => push_str(&mut v, m),
            None => push_str(&mut v, "unknown"),
        }
        Some(string_of(v.as_slice()))
    } else {
        None
    }
}

/// Connector settings of the e-mail relay.
pub struct EmailAdapter {
    pub relay_url: Option<String>,
    pub from_addr: String,
}

/// Connector settings of the SMS gateway.
pub struct SmsAdapter {
    pub gateway_url: Option<String>,
}

/// Connector settings of the WeCom bot.
pub struct WeComAdapter {
    pub webhook_url: Option<String>,
}

/// A channel adapter: its canonical channel name, and whether its on-prem
/// connector is configured.  The bus skips an adapter that is not available.
pub trait NotificationAdapter {
    /// Whether the connector URL is set.
    spec fn configured(&self) -> bool;

    /// The canonical channel name.
    spec fn channel_name(&self) -> Seq<char>;

    /// Canonical channel name, as stored with channel preferences.
    fn channel(&self) -> (r: &'static str)
        ensures
            r@ == self.channel_name(),
    ;

    /// Whether the connector is configured.
    fn is_available(&self) -> (r: bool)
        ensures
            r == self.configured(),
    ;
}

impl EmailAdapter {
    pub fn new(relay_url: Option<String>, from_addr: String) -> (r: Self)
        ensures
            r.relay_url == relay_url,
            r.from_addr == from_addr,
    {
        EmailAdapter { relay_url, from_addr }
    }
}

impl NotificationAdapter for EmailAdapter {
    /// Active only when the relay URL is set.
    open spec fn configured(&self) -> bool {
        self.relay_url is Some
    }

    open spec fn channel_name(&self) -> Seq<char> {
        "email"@
    }

    fn channel(&self) -> (r: &'static str)
    {
        "email"
    }

    fn is_available(&self) -> (r: bool) {
        self.relay_url.is_some()
    }
}

impl SmsAdapter {
    pub fn new(gateway_url: Option<String>) -> (r: Self)
        ensures
            r.gateway_url == gateway_url,
    {
        SmsAdapter { gateway_url }
    }
}

impl NotificationAdapter for SmsAdapter {
    /// Active only when the gateway URL is set.
    open spec fn configured(&self) -> bool {
        self.gateway_url is Some
    }

    open spec fn channel_name(&self) -> Seq<char> {
        "sms"@
    }

    fn channel(&self) -> (r: &'static str)
    {
        "sms"
    }

    fn is_available(&self) -> (r: bool) {
        self.gateway_url.is_some()
    }
}

impl WeComAdapter {
    pub fn new(webhook_url: Option<String>) -> (r: Self)
        ensures
            r.webhook_url == webhook_url,
    {
        WeComAdapter { webhook_url }
    }
}

impl NotificationAdapter for WeComAdapter {
    /// Active only when the webhook URL is set.
    open spec fn configured(&self) -> bool {
        self.webhook_url is Some
    }

    open spec fn channel_name(&self) -> Seq<char> {
        "wecom"@
    }

    fn channel(&self) -> (r: &'static str)
    {
        "wecom"
    }

    fn is_available(&self) -> (r: bool) {
        self.webhook_url.is_some()
    }
}

/// One of the three on-prem channel adapters, as the registry holds them.
pub enum ChannelAdapter {
    Email(EmailAdapter),
    Sms(SmsAdapter),
    WeCom(WeComAdapter),
}

impl NotificationAdapter for ChannelAdapter {
    /// The configuration of the adapter held.
    open spec fn configured(&self) -> bool {
        match self {
            ChannelAdapter::Email(a) => a.configured(),
            ChannelAdapter::Sms(a) => a.configured(),
            ChannelAdapter::WeCom(a) => a.configured(),
        }
    }

    open spec fn channel_name(&self) -> Seq<char> {
        match self {
            ChannelAdapter::Email(_) => "email"@,
            ChannelAdapter::Sms(_) => "sms"@,
            ChannelAdapter::WeCom(_) => "wecom"@,
        }
    }

    fn channel(&self) -> (r: &'static str)
    {
        match self {
            ChannelAdapter::Email(a) => a.channel(),
            ChannelAdapter::Sms(a) => a.channel(),
            ChannelAdapter::WeCom(a) => a.channel(),
        }
    }

    fn is_available(&self) -> (r: bool) {
        match self {
            ChannelAdapter::Email(a) => a.is_available(),
            ChannelAdapter::Sms(a) => a.is_available(),
            ChannelAdapter::WeCom(a) => a.is_available(),
        }
    }
}

/// The registered channel adapters, shared behind an `Arc`.
pub struct AdapterRegistry<A> {
    pub inner: Arc<Vec<A>>,
}

impl<A: NotificationAdapter> AdapterRegistry<A> {
    pub fn new(adapters: Vec<A>) -> (r: Self)
        ensures
            (*r.inner)@ == adapters@,
    {
        AdapterRegistry { inner: Arc::new(adapters) }
    }

    /// Every adapter, available or not, in registration order.
    pub fn all(&self) -> (r: &[A])
        ensures
            r@ == (*self.inner)@,
    {
        self.inner.as_slice()
    }

    /// Whether at least one adapter's connector is configured.
    pub fn any_available(&self) -> (r: bool)
        ensures
            r == exists|i: int| 0 <= i < (*self.inner)@.len() && (#[trigger] (*self.inner)@[i]).configured(),
    {
        let adapters = self.inner.as_slice();
        let mut i: usize = 0;
        while i < adapters.len()
            invariant
                i <= adapters@.len(),
                adapters@ == (*self.inner)@,
                forall|j: int| 0 <= j < i ==> !(#[trigger] adapters@[j]).configured(),
            decreases adapters.len() - i,
        {
            if adapters[i].is_available() {
                return true;
            }
            i = i + 1;
        }
        false
    }
}

} // verus!
