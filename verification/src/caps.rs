//! Capability flags: the arguments of the external property reader, the
//! reading of its answers, the YouTube override, and the cache that
//! bounds how often capabilities are re-queried.

use vstd::prelude::*;
use crate::text::{spec_contains, contains_str, spec_starts_with, starts_with_str, str_eq};

verus! {

/// The arguments handed to the external bus property reader to fetch one
/// property of one player: user bus, the get-property verb, the player's
/// bus name, the standard object path, the player interface, and the
/// property name.
pub fn busctl_property_args(player: &str, prop: &str) -> (r: Vec<String>)
    ensures
        r.deep_view().len() == 6,
        r.deep_view()[0] == "--user"@,
        r.deep_view()[1] == "get-property"@,
        r.deep_view()[2] == "org.mpris.MediaPlayer2."@ + player@,
        r.deep_view()[3] == "/org/mpris/MediaPlayer2"@,
        r.deep_view()[4] == "org.mpris.MediaPlayer2.Player"@,
        r.deep_view()[5] == prop@,
{
    let mut busname = String::from_str("org.mpris.MediaPlayer2.");
    busname.append(player);
    let mut v: Vec<String> = Vec::new();
    v.push(String::from_str("--user"));
    v.push(String::from_str("get-property"));
    v.push(busname);
    v.push(String::from_str("/org/mpris/MediaPlayer2"));
    v.push(String::from_str("org.mpris.MediaPlayer2.Player"));
    v.push(String::from_str(prop));
    v
}

/// A boolean property read from the property reader's output: one
/// exactly when the output holds `b true`; anything else — an error, an
/// empty answer, `b false` — reads as zero.
pub fn parse_busctl_bool(out: &str) -> (r: i32)
    ensures
        r == 1 || r == 0,
        (r == 1) == spec_contains(out@, "b true"@),
{
    if contains_str(out, "b true") {
        1
    } else {
        0
    }
}

/// The YouTube override: on a single-video YouTube page (a YouTube watch
/// or YouTube Music URL without a `list=` parameter) a firefox player
/// reports misleading capabilities, so next is forced on and previous
/// off; every other case keeps the queried flags.
pub open spec fn spec_override_caps(
    name: Seq<char>,
    url: Seq<char>,
    can_next: i32,
    can_prev: i32,
) -> (i32, i32) {
    if spec_starts_with(name, "firefox"@) && (spec_contains(url, "youtube.com/watch"@)
        || spec_contains(url, "music.youtube.com"@)) && !spec_contains(url, "list="@) {
        (1, 0)
    } else {
        (can_next, can_prev)
    }
}

/// Apply the YouTube override to queried capability flags.
pub fn override_caps_for_youtube(simple_name: &str, url: &str, can_next: i32, can_prev: i32) -> (r:
    (i32, i32))
    ensures
        r == spec_override_caps(simple_name@, url@, can_next, can_prev),
{
    let is_firefox = starts_with_str(simple_name, "firefox");
    let is_yt = contains_str(url, "youtube.com/watch") || contains_str(url, "music.youtube.com");
    if is_firefox && is_yt && !contains_str(url, "list=") {
        (1, 0)
    } else {
        (can_next, can_prev)
    }
}

/// What the follower remembers from the last processed line: the four
/// fields whose change forces a capability re-query, and the flags
/// queried then.
pub struct CapsCache {
    pub status: String,
    pub title: String,
    pub artist: String,
    pub url: String,
    pub can_next: i32,
    pub can_prev: i32,
}

impl CapsCache {
    /// The empty cache: every field empty, no capabilities.
    pub fn new() -> (r: Self)
        ensures
            r.status@.len() == 0,
            r.title@.len() == 0,
            r.artist@.len() == 0,
            r.url@.len() == 0,
            r.can_next == 0,
            r.can_prev == 0,
    {
        CapsCache {
            status: String::new(),
            title: String::new(),
            artist: String::new(),
            url: String::new(),
            can_next: 0,
            can_prev: 0,
        }
    }

    /// Whether a line with these fields forces a capability re-query:
    /// exactly when status, title, artist or track URL changed.
    pub fn needs_refresh(&self, status: &str, title: &str, artist: &str, url: &str) -> (r: bool)
        ensures
            r == !(self.status@ == status@ && self.title@ == title@ && self.artist@ == artist@
                && self.url@ == url@),
    {
        !(str_eq(self.status.as_str(), status) && str_eq(self.title.as_str(), title) && str_eq(
            self.artist.as_str(),
            artist,
        ) && str_eq(self.url.as_str(), url))
    }

    /// Record the fields of the line just processed and the flags queried
    /// for it.
    pub fn store(&mut self, status: &str, title: &str, artist: &str, url: &str, can_next: i32, can_prev: i32)
        ensures
            final(self).status@ == status@,
            final(self).title@ == title@,
            final(self).artist@ == artist@,
            final(self).url@ == url@,
            final(self).can_next == can_next,
            final(self).can_prev == can_prev,
    {
        self.status = String::from_str(status);
        self.title = String::from_str(title);
        self.artist = String::from_str(artist);
        self.url = String::from_str(url);
        self.can_next = can_next;
        self.can_prev = can_prev;
    }
}

} // verus!
