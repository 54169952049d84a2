//! Path resolution: variable expansion in configured paths, the built-in
//! defaults, and the canonical runtime file locations.

use vstd::prelude::*;
use crate::text::{spec_replace, replace_all};
use crate::num::{spec_u64_dec, u64_to_string};
use crate::config::Config;

verus! {

/// A configured path with `$HOME`, `$XDG_CONFIG_HOME`, `$XDG_CACHE_HOME`
/// and `$XDG_RUNTIME_DIR` replaced by the values the process resolved,
/// in that order.
pub open spec fn spec_expand(
    path: Seq<char>,
    home: Seq<char>,
    config_dir: Seq<char>,
    cache_dir: Seq<char>,
    runtime_dir: Seq<char>,
) -> Seq<char> {
    spec_replace(
        spec_replace(
            spec_replace(spec_replace(path, "$HOME"@, home), "$XDG_CONFIG_HOME"@, config_dir),
            "$XDG_CACHE_HOME"@,
            cache_dir,
        ),
        "$XDG_RUNTIME_DIR"@,
        runtime_dir,
    )
}

/// Expand the path variables in a configured path.
pub fn expand(
    path: &str,
    home: &str,
    config_dir: &str,
    cache_dir: &str,
    runtime_dir: &str,
) -> (r: String)
    ensures
        r@ == spec_expand(path@, home@, config_dir@, cache_dir@, runtime_dir@),
{
    let a = replace_all(path, "$HOME", home);
    let b = replace_all(a.as_str(), "$XDG_CONFIG_HOME", config_dir);
    let c = replace_all(b.as_str(), "$XDG_CACHE_HOME", cache_dir);
    replace_all(c.as_str(), "$XDG_RUNTIME_DIR", runtime_dir)
}

/// The runtime directory used when the environment names none.
pub fn runtime_dir_fallback(uid: u32) -> (r: String)
    ensures
        r@ == "/run/user/"@ + spec_u64_dec(uid as nat),
{
    let mut out = String::from_str("/run/user/");
    let n = u64_to_string(uid as u64);
    out.append(n.as_str());
    out
}

/// The IPC socket under the runtime directory.
pub fn socket_path(runtime_dir: &str) -> (r: String)
    ensures
        r@ == runtime_dir@ + "/mpris-bridge/mpris-bridge.sock"@,
{
    let mut out = String::from_str(runtime_dir);
    out.append("/mpris-bridge/mpris-bridge.sock");
    out
}

/// The snapshot file under the runtime directory.
pub fn state_path(runtime_dir: &str) -> (r: String)
    ensures
        r@ == runtime_dir@ + "/mpris-bridge/state.json"@,
{
    let mut out = String::from_str(runtime_dir);
    out.append("/mpris-bridge/state.json");
    out
}

/// The event log under the runtime directory.
pub fn events_path(runtime_dir: &str) -> (r: String)
    ensures
        r@ == runtime_dir@ + "/mpris-bridge/events.jsonl"@,
{
    let mut out = String::from_str(runtime_dir);
    out.append("/mpris-bridge/events.jsonl");
    out
}

/// The temporary file the snapshot is staged in before the atomic
/// rename.
pub fn snapshot_tmp_path(snapshot_path: &str) -> (r: String)
    ensures
        r@ == snapshot_path@ + ".tmp"@,
{
    let mut out = String::from_str(snapshot_path);
    out.append(".tmp");
    out
}

/// The resolved file locations the daemon works with.
pub struct Paths {
    pub cache_dir: String,
    pub default_cover: String,
    pub current_cover: String,
    pub snapshot_path: String,
    pub events_path: String,
}

/// The configured value of a path option, or its built-in default.
pub open spec fn spec_opt_or(opt: Option<String>, default: Seq<char>) -> Seq<char> {
    match opt {
        Some(s) => s@,
        None => default,
    }
}

/// The configured value or the default.
fn opt_or(opt: &Option<String>, default: &str) -> (r: String)
    ensures
        r@ == spec_opt_or(*opt, default@),
{
    match opt {
        Some(s) => s.clone(),
        None => String::from_str(default),
    }
}

impl Paths {
    /// Resolve every configured path, falling back to the built-in
    /// locations, and expand the path variables with the values the
    /// process resolved.
    pub fn resolve(
        cfg: &Config,
        home: &str,
        config_dir: &str,
        cache_dir: &str,
        runtime_dir: &str,
    ) -> (r: Paths)
        ensures
            r.cache_dir@ == spec_expand(
                spec_opt_or(cfg.art.cache_dir, "$XDG_CACHE_HOME/mpris-bridge/art"@),
                home@,
                config_dir@,
                cache_dir@,
                runtime_dir@,
            ),
            r.default_cover@ == spec_expand(
                spec_opt_or(cfg.art.default_image, "$HOME/.config/eww/scripts/cover.png"@),
                home@,
                config_dir@,
                cache_dir@,
                runtime_dir@,
            ),
            r.current_cover@ == spec_expand(
                spec_opt_or(cfg.art.current_path, "$HOME/.config/eww/image.jpg"@),
                home@,
                config_dir@,
                cache_dir@,
                runtime_dir@,
            ),
            r.snapshot_path@ == spec_expand(
                spec_opt_or(cfg.output.snapshot_path, "$XDG_RUNTIME_DIR/mpris-bridge/state.json"@),
                home@,
                config_dir@,
                cache_dir@,
                runtime_dir@,
            ),
            r.events_path@ == spec_expand(
                spec_opt_or(cfg.output.events_path, "$XDG_RUNTIME_DIR/mpris-bridge/events.jsonl"@),
                home@,
                config_dir@,
                cache_dir@,
                runtime_dir@,
            ),
    {
        let c1 = opt_or(&cfg.art.cache_dir, "$XDG_CACHE_HOME/mpris-bridge/art");
        let c2 = opt_or(&cfg.art.default_image, "$HOME/.config/eww/scripts/cover.png");
        let c3 = opt_or(&cfg.art.current_path, "$HOME/.config/eww/image.jpg");
        let c4 = opt_or(&cfg.output.snapshot_path, "$XDG_RUNTIME_DIR/mpris-bridge/state.json");
        let c5 = opt_or(&cfg.output.events_path, "$XDG_RUNTIME_DIR/mpris-bridge/events.jsonl");
        Paths {
            cache_dir: expand(c1.as_str(), home, config_dir, cache_dir, runtime_dir),
            default_cover: expand(c2.as_str(), home, config_dir, cache_dir, runtime_dir),
            current_cover: expand(c3.as_str(), home, config_dir, cache_dir, runtime_dir),
            snapshot_path: expand(c4.as_str(), home, config_dir, cache_dir, runtime_dir),
            events_path: expand(c5.as_str(), home, config_dir, cache_dir, runtime_dir),
        }
    }
}

} // verus!
