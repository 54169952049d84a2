//! Listener decisions: the narrow bus match rules, the classification of
//! inbound signals, the per-class debounce, and the reconnect backoff.

use vstd::prelude::*;
use crate::text::str_eq;

verus! {

/// Milliseconds between accepted seeds.
pub const SEED_DEBOUNCE_MS: u64 = 300;

/// Milliseconds between accepted status refreshes.
pub const REFRESH_DEBOUNCE_MS: u64 = 250;

/// The three narrow match rules the listener installs: owner changes in
/// the MPRIS namespace, and property changes on the standard object path
/// for the player interface and for the root interface.
pub fn dbus_match_rules() -> (r: Vec<String>)
    ensures
        r.deep_view().len() == 3,
        r.deep_view()[0]
            == "type='signal',interface='org.freedesktop.DBus',member='NameOwnerChanged',arg0namespace='org.mpris.MediaPlayer2'"@,
        r.deep_view()[1]
            == "type='signal',interface='org.freedesktop.DBus.Properties',member='PropertiesChanged',path='/org/mpris/MediaPlayer2',arg0='org.mpris.MediaPlayer2.Player'"@,
        r.deep_view()[2]
            == "type='signal',interface='org.freedesktop.DBus.Properties',member='PropertiesChanged',path='/org/mpris/MediaPlayer2',arg0='org.mpris.MediaPlayer2'"@,
{
    let mut v: Vec<String> = Vec::new();
    v.push(
        String::from_str(
            "type='signal',interface='org.freedesktop.DBus',member='NameOwnerChanged',arg0namespace='org.mpris.MediaPlayer2'",
        ),
    );
    v.push(
        String::from_str(
            "type='signal',interface='org.freedesktop.DBus.Properties',member='PropertiesChanged',path='/org/mpris/MediaPlayer2',arg0='org.mpris.MediaPlayer2.Player'",
        ),
    );
    v.push(
        String::from_str(
            "type='signal',interface='org.freedesktop.DBus.Properties',member='PropertiesChanged',path='/org/mpris/MediaPlayer2',arg0='org.mpris.MediaPlayer2'",
        ),
    );
    v
}

/// What one inbound signal triggers.
#[derive(PartialEq, Eq, Structural, Clone, Copy, Debug)]
pub enum SignalKind {
    /// A name-owner change in the MPRIS namespace: reseed the players.
    Seed,
    /// A property change on the MPRIS object path: refresh the statuses.
    Refresh,
    /// Anything else: nothing.
    Ignore,
}

/// The classification of one signal by interface, member and path:
/// `NameOwnerChanged` on the bus interface seeds; `PropertiesChanged` on
/// the properties interface at the MPRIS object path refreshes; all else
/// is ignored.
pub open spec fn spec_classify(
    iface: Option<Seq<char>>,
    member: Option<Seq<char>>,
    path: Option<Seq<char>>,
) -> SignalKind {
    if iface == Some("org.freedesktop.DBus"@) && member == Some("NameOwnerChanged"@) {
        SignalKind::Seed
    } else if iface == Some("org.freedesktop.DBus.Properties"@) && member == Some(
        "PropertiesChanged"@,
    ) && path == Some("/org/mpris/MediaPlayer2"@) {
        SignalKind::Refresh
    } else {
        SignalKind::Ignore
    }
}

/// Whether an optional string equals a pattern.
fn opt_is(v: &Option<String>, pat: &str) -> (r: bool)
    ensures
        r == (v.deep_view() == Some(pat@)),
{
    match v {
        Some(s) => str_eq(s.as_str(), pat),
        None => false,
    }
}

/// Classify one inbound signal.
pub fn classify_signal(
    iface: &Option<String>,
    member: &Option<String>,
    path: &Option<String>,
) -> (r: SignalKind)
    ensures
        r == spec_classify(iface.deep_view(), member.deep_view(), path.deep_view()),
{
    if opt_is(iface, "org.freedesktop.DBus") && opt_is(member, "NameOwnerChanged") {
        SignalKind::Seed
    } else if opt_is(iface, "org.freedesktop.DBus.Properties") && opt_is(
        member,
        "PropertiesChanged",
    ) && opt_is(path, "/org/mpris/MediaPlayer2") {
        SignalKind::Refresh
    } else {
        SignalKind::Ignore
    }
}

/// A per-class debounce: the last time an event of the class passed,
/// or nothing before the first.
pub struct Debounce {
    pub last_ms: Option<u64>,
}

impl Debounce {
    /// A debounce that lets its first event through.
    pub fn new() -> (r: Self)
        ensures
            r.last_ms is None,
    {
        Debounce { last_ms: None }
    }

    /// Let an event at `now_ms` through exactly when none passed yet or
    /// the threshold has elapsed since the last one that passed; an event
    /// that passes becomes the new reference point.
    pub fn accept(&mut self, now_ms: u64, threshold_ms: u64) -> (r: bool)
        ensures
            r == (match old(self).last_ms {
                None => true,
                Some(t) => now_ms >= t + threshold_ms,
            }),
            final(self).last_ms == if r {
                Some(now_ms)
            } else {
                old(self).last_ms
            },
    {
        let fire = match self.last_ms {
            None => true,
            Some(t) => now_ms >= t && now_ms - t >= threshold_ms,
        };
        if fire {
            self.last_ms = Some(now_ms);
        }
        fire
    }
}

/// The reconnect backoff of the bus listener: an exponent step, capped.
pub struct Backoff {
    pub k: u64,
}

impl Backoff {
    /// Well-formed: the step stays within its cap.
    pub open spec fn wf(self) -> bool {
        1 <= self.k <= 30
    }

    /// A fresh backoff at the first step.
    pub fn new() -> (r: Self)
        ensures
            r.wf(),
            r.k == 1,
    {
        Backoff { k: 1 }
    }

    /// The delay before the next reconnect after a failure: 200 ms times
    /// the capped step, at most six seconds; the step then doubles up to
    /// its cap.
    pub fn on_error(&mut self) -> (delay_ms: u64)
        requires
            old(self).wf(),
        ensures
            final(self).wf(),
            delay_ms == (if old(self).k <= 30 {
                old(self).k as int
            } else {
                30int
            }) * 200,
            delay_ms <= 6000,
            final(self).k == if old(self).k * 2 <= 30 {
                old(self).k * 2
            } else {
                30int
            },
    {
        let capped: u64 = if self.k <= 30 {
            self.k
        } else {
            30
        };
        let delay: u64 = capped * 200;
        let doubled: u64 = self.k * 2;
        self.k = if doubled <= 30 {
            doubled
        } else {
            30
        };
        delay
    }

    /// A clean return resets the backoff; the listener then waits half a
    /// second before reconnecting.
    pub fn on_success(&mut self) -> (delay_ms: u64)
        ensures
            final(self).wf(),
            final(self).k == 1,
            delay_ms == 500,
    {
        self.k = 1;
        500
    }
}

} // verus!
