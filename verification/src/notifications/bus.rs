//! Fan-out decisions of the event bus: do-not-disturb windows, which
//! recipients are skipped, queued or delivered, and who an announcement is
//! for.
use vstd::prelude::*;

use crate::json::{array_field, get_array, Json};
use crate::notifications::adapters::{AdapterRegistry, NotificationAdapter};
use crate::notifications::rules::string_items;
use crate::text::{chars_of, str_eq, string_of, text};

verus! {

broadcast use {vstd::string::group_string_axioms, vstd::slice::group_slice_axioms};

/// A time of day: seconds since midnight and nanoseconds within the second.
#[derive(Debug, Clone, Copy, PartialEq, Eq, Structural)]
pub struct TimeOfDay {
    pub secs: u32,
    pub nanos: u32,
}

/// `a ≤ b` as times of day.
pub open spec fn time_le(a: TimeOfDay, b: TimeOfDay) -> bool {
    a.secs < b.secs || (a.secs == b.secs && a.nanos <= b.nanos)
}

fn time_le_exec(a: TimeOfDay, b: TimeOfDay) -> (r: bool)
    ensures
        r == time_le(a, b),
{
    a.secs < b.secs || (a.secs == b.secs && a.nanos <= b.nanos)
}

/// Whether do-not-disturb holds at `now`: never when disabled; all day when
/// no window is set; within `[start, end]` for a same-day window; from
/// `start` or until `end` for a window that crosses midnight.
pub open spec fn dnd_active(enabled: bool, start: Option<TimeOfDay>, end: Option<TimeOfDay>, now: TimeOfDay) -> bool {
    if !enabled {
        false
    } else {
        match (start, end) {
            (Some(s), Some(e)) => if time_le(s, e) {
                time_le(s, now) && time_le(now, e)
            } else {
                time_le(s, now) || time_le(now, e)
            },
            _ => true,
        }
    }
}

/// Whether `now` falls in the do-not-disturb window.
pub fn is_in_dnd_window(
    dnd_enabled: bool,
    dnd_start: Option<TimeOfDay>,
    dnd_end: Option<TimeOfDay>,
    now: TimeOfDay,
) -> (r: bool)
    ensures
        r == dnd_active(dnd_enabled, dnd_start, dnd_end, now),
{
    if !dnd_enabled {
        return false;
    }
    match (dnd_start, dnd_end) {
        (Some(start), Some(end)) => {
            if time_le_exec(start, end) {
                time_le_exec(start, now) && time_le_exec(now, end)
            } else {
                time_le_exec(start, now) || time_le_exec(now, end)
            }
        },
        _ => true,
    }
}

/// What happens to one recipient of an event.
#[derive(Debug, Clone, Copy, PartialEq, Eq, Structural)]
pub enum FanOut {
    /// The recipient caused the event, or got the same notification within
    /// the deduplication window.
    Skip,
    /// Held in the inbox queue until do-not-disturb ends.
    Queue,
    /// Delivered to the inbox now and dispatched to the external channels.
    Deliver,
}

/// The fan-out decision for `user`: skip the actor and duplicates; queue
/// when in do-not-disturb unless the event is `critical`; otherwise deliver.
pub open spec fn fan_out_decision(actor: Option<u128>, user: u128, duplicate: bool, severity: Seq<char>, dnd: bool) -> FanOut {
    if actor == Some(user) {
        FanOut::Skip
    } else if duplicate {
        FanOut::Skip
    } else if severity != "critical"@ && dnd {
        FanOut::Queue
    } else {
        FanOut::Deliver
    }
}

/// Decide the fan-out for one recipient.  `duplicate` tells whether the same
/// notification reached the user within the deduplication window; `dnd`
/// whether the user's do-not-disturb is active.
pub fn recipient_action(actor: Option<u128>, user: u128, duplicate: bool, severity: &str, dnd: bool) -> (r: FanOut)
    ensures
        r == fan_out_decision(actor, user, duplicate, severity@, dnd),
{
    let is_actor = match actor {
        Some(a) => a == user,
        None => false,
    };
    if is_actor {
        FanOut::Skip
    } else if duplicate {
        FanOut::Skip
    } else if !str_eq(severity, "critical") && dnd {
        FanOut::Queue
    } else {
        FanOut::Deliver
    }
}

/// Do-not-disturb holds back every event but a critical one.  For a
/// recipient who is not the actor and has not had the notification already,
/// the event is delivered when do-not-disturb is off; when it is on, it is
/// delivered exactly when it is critical and queued otherwise, so any two
/// non-critical severities are treated alike.  The actor and duplicates are
/// always skipped.
pub proof fn law_dnd_holds_all_but_critical(actor: Option<u128>, user: u128, severity: Seq<char>, other_severity: Seq<char>, dnd: bool, duplicate: bool)
    ensures
        actor != Some(user) ==> fan_out_decision(actor, user, false, severity, false) == FanOut::Deliver,
        actor != Some(user) ==> ((fan_out_decision(actor, user, false, severity, true) == FanOut::Deliver) <==> severity
            == "critical"@),
        actor != Some(user) ==> ((fan_out_decision(actor, user, false, severity, true) == FanOut::Queue) <==> severity
            != "critical"@),
        severity != "critical"@ && other_severity != "critical"@ ==> fan_out_decision(actor, user, duplicate, severity, dnd)
            == fan_out_decision(actor, user, duplicate, other_severity, dnd),
        fan_out_decision(actor, user, duplicate, severity, dnd) == FanOut::Queue ==> dnd,
        fan_out_decision(Some(user), user, duplicate, severity, dnd) == FanOut::Skip,
        fan_out_decision(actor, user, true, severity, dnd) == FanOut::Skip,
{
}

/// The roles an announcement is for: `None` means every active user (no
/// `target_roles`, an empty list, or exactly `["all"]`).
pub open spec fn announcement_audience(payload: Json) -> Option<Seq<Seq<char>>> {
    match array_field(payload, "target_roles"@) {
        None => None,
        Some(items) => {
            let roles = string_items(items);
            if roles.len() == 0 || roles == seq!["all"@] {
                None
            } else {
                Some(roles)
            }
        },
    }
}

/// The roles an announcement event is addressed to.
pub fn announcement_roles(payload: &Json) -> (r: Option<Vec<String>>)
    ensures
        match r {
            Some(v) => announcement_audience(*payload) == Some(v@.map_values(|s: String| s@)),
            None => announcement_audience(*payload) is None,
        },
{
    let items = match get_array(payload, "target_roles") {
        Some(a) => a,
        None => return None,
    };
    let mut roles: Vec<String> = Vec::new();
    let mut i: usize = 0;
    assert(roles@.map_values(|s: String| s@) =~= string_items(items@.take(0)));
    while i < items.len()
        invariant
            i <= items@.len(),
            roles@.map_values(|s: String| s@) == string_items(items@.take(i as int)),
        decreases items.len() - i,
    {
        assert(items@.take(i + 1).drop_last() =~= items@.take(i as int));
        assert(items@.take(i + 1).last() == items@[i as int]);
        let ghost before = roles@.map_values(|s: String| s@);
        match &items[i] {
            Json::Str(s) => {
                roles.push(string_of(chars_of(s.as_str()).as_slice()));
                assert(roles@.map_values(|s: String| s@) =~= before.push(s@));
            },
            _ => {},
        }
        i = i + 1;
    }
    assert(items@.take(i as int) =~= items@);
    let ghost rv = roles@.map_values(|s: String| s@);
    if roles.len() == 0 {
        return None;
    }
    if roles.len() == 1 && str_eq(roles[0].as_str(), "all") {
        assert(rv =~= seq!["all"@]);
        return None;
    }
    proof {
        if rv == seq!["all"@] {
            assert(rv[0] == roles@[0]@);
        }
    }
    Some(roles)
}

/// The address of the user's enabled preference for `channel`, if any.
pub fn channel_address_for<'a>(prefs: &'a Vec<(String, String)>, channel: &str) -> (r: Option<&'a String>)
    ensures
        match r {
            Some(a) => exists|i: int| 0 <= i < prefs@.len() && prefs@[i].0@ == channel@ && prefs@[i].1 == *a
                && forall|j: int| 0 <= j < i ==> prefs@[j].0@ != channel@,
            None => forall|j: int| 0 <= j < prefs@.len() ==> prefs@[j].0@ != channel@,
        },
{
    let mut i: usize = 0;
    while i < prefs.len()
        invariant
            i <= prefs@.len(),
            forall|j: int| 0 <= j < i ==> prefs@[j].0@ != channel@,
        decreases prefs.len() - i,
    {
        if str_eq(prefs[i].0.as_str(), channel) {
            return Some(&prefs[i].1);
        }
        i = i + 1;
    }
    None
}

/// The position of the first preference for `channel`, if any.
pub open spec fn first_pref_index(prefs: Seq<(String, String)>, channel: Seq<char>) -> Option<int> {
    if exists|i: int| 0 <= i < prefs.len() && #[trigger] prefs[i].0@ == channel
        && forall|j: int| 0 <= j < i ==> prefs[j].0@ != channel {
        Some(choose|i: int| 0 <= i < prefs.len() && #[trigger] prefs[i].0@ == channel
            && forall|j: int| 0 <= j < i ==> prefs[j].0@ != channel)
    } else {
        None
    }
}

/// The channel deliveries due among the first `n` adapters: for each
/// available adapter, in order, whose channel has a preference, its position
/// and the address of its first preference.
pub open spec fn delivery_targets_of<A: NotificationAdapter>(
    adapters: Seq<A>,
    prefs: Seq<(String, String)>,
    n: nat,
) -> Seq<(int, Seq<char>)>
    decreases n,
{
    if n == 0 || n > adapters.len() {
        seq![]
    } else {
        let prev = delivery_targets_of(adapters, prefs, (n - 1) as nat);
        let a = adapters[n - 1];
        match first_pref_index(prefs, a.channel_name()) {
            Some(i) => if a.configured() { prev.push((n - 1, prefs[i].1@)) } else { prev },
            None => prev,
        }
    }
}

/// Where to send a delivered notification: for each available adapter of
/// `registry`, in registration order, whose channel the user has an enabled
/// preference for (`prefs`: channel and address), the adapter's position and
/// the address of the first such preference.
pub fn delivery_targets<A: NotificationAdapter>(registry: &AdapterRegistry<A>, prefs: &Vec<(String, String)>) -> (r: Vec<(usize, String)>)
    ensures
        r@.len() == delivery_targets_of((*registry.inner)@, prefs@, (*registry.inner)@.len()).len(),
        forall|k: int| 0 <= k < r@.len() ==> {
            let t = delivery_targets_of((*registry.inner)@, prefs@, (*registry.inner)@.len())[k];
            &&& (#[trigger] r@[k]).0 == t.0
            &&& r@[k].1@ == t.1
        },
{
    let adapters = registry.all();
    let mut out: Vec<(usize, String)> = Vec::new();
    let mut i: usize = 0;
    while i < adapters.len()
        invariant
            i <= adapters@.len(),
            adapters@ == (*registry.inner)@,
            out@.len() == delivery_targets_of(adapters@, prefs@, i as nat).len(),
            forall|k: int| 0 <= k < out@.len() ==> {
                let t = delivery_targets_of(adapters@, prefs@, i as nat)[k];
                &&& (#[trigger] out@[k]).0 == t.0
                &&& out@[k].1@ == t.1
            },
        decreases adapters.len() - i,
    {
        let a = &adapters[i];
        let ghost prev = delivery_targets_of(adapters@, prefs@, i as nat);
        let channel = a.channel();
        let found = channel_address_for(prefs, channel);
        let ghost first = first_pref_index(prefs@, a.channel_name());
        proof {
            match found {
                Some(addr) => {
                    let w = choose|w: int| 0 <= w < prefs@.len() && prefs@[w].0@ == channel@ && prefs@[w].1 == *addr
                        && forall|j: int| 0 <= j < w ==> prefs@[j].0@ != channel@;
                    assert(0 <= w < prefs@.len() && #[trigger] prefs@[w].0@ == a.channel_name()
                        && forall|j: int| 0 <= j < w ==> prefs@[j].0@ != a.channel_name());
                    let c = first.unwrap();
                    assert(c == w) by {
                        if c < w {
                            assert(prefs@[c].0@ != channel@);
                        } else if w < c {
                            assert(prefs@[w].0@ != a.channel_name());
                        }
                    }
                },
                None => {
                    assert(first is None);
                },
            }
        }
        if a.is_available() {
            match found {
                Some(addr) => {
                    let ghost before = out@;
                    out.push((i, text(addr.as_str())));
                    proof {
                        assert forall|k: int| 0 <= k < out@.len() implies {
                            let t = delivery_targets_of(adapters@, prefs@, (i + 1) as nat)[k];
                            &&& (#[trigger] out@[k]).0 == t.0
                            &&& out@[k].1@ == t.1
                        } by {
                            if k < before.len() {
                                assert(out@[k] == before[k]);
                            }
                        }
                    }
                },
                None => {},
            }
        }
        i = i + 1;
    }
    out
}

} // verus!
