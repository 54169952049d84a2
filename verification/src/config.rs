//! Configuration of the bridge: selection policy, art handling, output
//! paths, presentation limits and logging, with the documented defaults.

use vstd::prelude::*;

verus! {

/// What the election does when no player is playing and neither the
/// remembered selection, the focus hint nor the priority list matches:
/// pick any remaining candidate, or select nobody.
#[derive(Clone, Copy, PartialEq, Eq, Structural, Debug)]
pub enum Fallback {
    Any,
    Nothing,
}

/// Selection policy: ordered family priorities, allow/exclude prefix
/// filters, whether the last selection is remembered across gaps, and the
/// fallback mode.
pub struct Selection {
    pub priority: Vec<String>,
    pub remember_last: bool,
    pub fallback: Fallback,
    pub allow: Vec<String>,
    pub exclude: Vec<String>,
}

/// Cover-art handling: whether art is materialised at all, whether remote
/// art is downloaded, the HTTP timeout, and the cache/default/current paths
/// (unexpanded; `None` means the built-in default path).
pub struct Art {
    pub enabled: bool,
    pub download_http: bool,
    pub timeout_ms: u64,
    pub cache_dir: Option<String>,
    pub default_image: Option<String>,
    pub current_path: Option<String>,
    pub use_symlink: bool,
}

/// Where the snapshot and the event log are written, and whether the
/// snapshot is pretty-printed.
pub struct Output {
    pub snapshot_path: Option<String>,
    pub events_path: Option<String>,
    pub pretty_snapshot: bool,
}

/// Presentation limits: maximum character counts for title and artist.
pub struct Presentation {
    pub truncate_title: usize,
    pub truncate_artist: usize,
}

/// Logging configuration; the level is recorded but the library itself
/// never logs.
pub struct Logging {
    pub level: String,
}

/// The mathematical view of a selection policy.
pub struct SelView {
    pub priority: Seq<Seq<char>>,
    pub remember_last: bool,
    pub fallback: Fallback,
    pub allow: Seq<Seq<char>>,
    pub exclude: Seq<Seq<char>>,
}

impl View for Selection {
    type V = SelView;

    open spec fn view(&self) -> SelView {
        SelView {
            priority: self.priority.deep_view(),
            remember_last: self.remember_last,
            fallback: self.fallback,
            allow: self.allow.deep_view(),
            exclude: self.exclude.deep_view(),
        }
    }
}

/// The whole configuration table.
pub struct Config {
    pub selection: Selection,
    pub art: Art,
    pub output: Output,
    pub presentation: Presentation,
    pub logging: Logging,
}

/// The default family priority: firefox, spotify, vlc, mpv, in that order.
pub fn default_priority() -> (r: Vec<String>)
    ensures
        r@.len() == 4,
        r@[0]@ == "firefox"@,
        r@[1]@ == "spotify"@,
        r@[2]@ == "vlc"@,
        r@[3]@ == "mpv"@,
{
    let mut v: Vec<String> = Vec::new();
    v.push(String::from_str("firefox"));
    v.push(String::from_str("spotify"));
    v.push(String::from_str("vlc"));
    v.push(String::from_str("mpv"));
    v
}

/// Default for boolean options that start enabled.
pub fn dtrue() -> (r: bool)
    ensures
        r,
{
    true
}

/// Default fallback mode: any remaining candidate may be selected.
pub fn fallback_any() -> (r: Fallback)
    ensures
        r == Fallback::Any,
{
    Fallback::Any
}

/// Default HTTP timeout for art downloads, in milliseconds.
pub fn d5000() -> (r: u64)
    ensures
        r == 5000,
{
    5000
}

/// Default maximum character count for title and artist.
pub fn d120usize() -> (r: usize)
    ensures
        r == 120,
{
    120
}

/// Default log level.
pub fn default_level() -> (r: String)
    ensures
        r@ == "warn"@,
{
    String::from_str("warn")
}

impl Default for Selection {
    /// Default selection policy: the built-in priority list, remember the
    /// last selection, fall back to any candidate, no allow/exclude
    /// filters.
    fn default() -> (r: Self)
        ensures
            r.priority@.len() == 4,
            r.priority@[0]@ == "firefox"@,
            r.priority@[1]@ == "spotify"@,
            r.priority@[2]@ == "vlc"@,
            r.priority@[3]@ == "mpv"@,
            r.remember_last,
            r.fallback == Fallback::Any,
            r.allow@.len() == 0,
            r.exclude@.len() == 0,
    {
        Selection {
            priority: default_priority(),
            remember_last: true,
            fallback: Fallback::Any,
            allow: Vec::new(),
            exclude: Vec::new(),
        }
    }
}

impl Default for Art {
    /// Default art handling: enabled, HTTP downloads allowed with a 5000 ms
    /// timeout, built-in paths, current cover written by copy.
    fn default() -> (r: Self)
        ensures
            r.enabled,
            r.download_http,
            r.timeout_ms == 5000,
            r.cache_dir is None,
            r.default_image is None,
            r.current_path is None,
            !r.use_symlink,
    {
        Art {
            enabled: true,
            download_http: true,
            timeout_ms: 5000,
            cache_dir: None,
            default_image: None,
            current_path: None,
            use_symlink: false,
        }
    }
}

impl Default for Output {
    /// Default output: built-in snapshot and event-log paths, compact
    /// snapshot.
    fn default() -> (r: Self)
        ensures
            r.snapshot_path is None,
            r.events_path is None,
            !r.pretty_snapshot,
    {
        Output { snapshot_path: None, events_path: None, pretty_snapshot: false }
    }
}

impl Default for Presentation {
    /// Default presentation limits: 120 characters each.
    fn default() -> (r: Self)
        ensures
            r.truncate_title == 120,
            r.truncate_artist == 120,
    {
        Presentation { truncate_title: 120, truncate_artist: 120 }
    }
}

impl Default for Logging {
    /// Default log level: warn.
    fn default() -> (r: Self)
        ensures
            r.level@ == "warn"@,
    {
        Logging { level: default_level() }
    }
}

impl Default for Config {
    /// The default configuration: every section at its own default.
    fn default() -> (r: Self)
        ensures
            r.selection.remember_last,
            r.selection.fallback == Fallback::Any,
            r.art.enabled,
            !r.output.pretty_snapshot,
            r.presentation.truncate_title == 120,
            r.presentation.truncate_artist == 120,
    {
        Config {
            selection: Selection::default(),
            art: Art::default(),
            output: Output::default(),
            presentation: Presentation::default(),
            logging: Logging::default(),
        }
    }
}

} // verus!
