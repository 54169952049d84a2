//! The companion tool's logic: target resolution from the snapshot, the
//! request payloads it sends over the socket, the direct fallback
//! invocation, and the `watch` label rendering.

use vstd::prelude::*;
use crate::text::{
    spec_replace, replace_all, spec_truncate, truncate, spec_pango, pango_escape,
};
use crate::json::{
    spec_parse_flat_obj, parse_flat_obj, spec_get_string, get_string, spec_json_string,
    push_json_string,
};
use crate::num::{Dec, spec_parse_dec, parse_dec, spec_u64_dec, u64_to_string};
use crate::ipc::{spec_seek_arg, seek_arg};

verus! {

/// The player a control command is aimed at: the explicit one when
/// given, else whatever the snapshot names.
pub open spec fn spec_resolve_player(
    explicit: Option<Seq<char>>,
    snapshot_name: Option<Seq<char>>,
) -> Option<Seq<char>> {
    match explicit {
        Some(p) => Some(p),
        None => snapshot_name,
    }
}

/// Resolve the target player of a control command.
pub fn resolve_player(explicit: Option<String>, snapshot_name: Option<String>) -> (r: Option<
    String,
>)
    ensures
        r.deep_view() == spec_resolve_player(explicit.deep_view(), snapshot_name.deep_view()),
{
    match explicit {
        Some(p) => Some(p),
        None => snapshot_name,
    }
}

/// The `name` field of the snapshot, if the text is a well-formed
/// snapshot naming one.
pub open spec fn spec_snapshot_name(txt: Seq<char>) -> Option<Seq<char>> {
    match spec_parse_flat_obj(txt) {
        Some(m) => spec_get_string(m, "name"@),
        None => None,
    }
}

/// Read the selected player's name out of the snapshot text.
pub fn snapshot_name(txt: &str) -> (r: Option<String>)
    ensures
        r.deep_view() == spec_snapshot_name(txt@),
{
    match parse_flat_obj(txt) {
        Some(obj) => get_string(&obj, "name"),
        None => None,
    }
}

/// A string field of a flat record, or empty when absent or not a
/// string.
pub open spec fn spec_field_or_empty(m: Seq<(Seq<char>, crate::json::JVal)>, k: Seq<char>) -> Seq<
    char,
> {
    match spec_get_string(m, k) {
        Some(x) => x,
        None => Seq::empty(),
    }
}

/// The separator between artist and title: ` - ` exactly when both are
/// non-empty.
pub open spec fn spec_sep(artist: Seq<char>, title: Seq<char>) -> Seq<char> {
    if artist.len() > 0 && title.len() > 0 {
        " - "@
    } else {
        Seq::empty()
    }
}

/// The rendered label: with a format string, its `{artist}`, `{title}`
/// and `{sep}` placeholders substituted in that order; without one,
/// artist, separator and title concatenated. A truncation limit trims
/// the result with a final ellipsis.
pub open spec fn spec_format_label(
    artist: Seq<char>,
    title: Seq<char>,
    fmt: Option<Seq<char>>,
    trunc: Option<usize>,
) -> Seq<char> {
    let sep = spec_sep(artist, title);
    let base = match fmt {
        None => artist + sep + title,
        Some(f) => spec_replace(
            spec_replace(spec_replace(f, "{artist}"@, artist), "{title}"@, title),
            "{sep}"@,
            sep,
        ),
    };
    match trunc {
        None => base,
        Some(n) => spec_truncate(base, n as nat),
    }
}

/// Render the watch label for one artist and title.
pub fn format_label(artist: &str, title: &str, fmt: Option<&str>, trunc: Option<usize>) -> (r:
    String)
    ensures
        r@ == spec_format_label(artist@, title@, fmt.deep_view(), trunc),
{
    let sep: &str = if artist.unicode_len() > 0 && title.unicode_len() > 0 {
        " - "
    } else {
        ""
    };
    proof {
        reveal_strlit("");
        assert(""@ =~= Seq::<char>::empty());
    }
    let base: String = match fmt {
        None => {
            let mut out = String::from_str(artist);
            out.append(sep);
            out.append(title);
            out
        },
        Some(f) => {
            let a = replace_all(f, "{artist}", artist);
            let b = replace_all(a.as_str(), "{title}", title);
            replace_all(b.as_str(), "{sep}", sep)
        },
    };
    match trunc {
        None => base,
        Some(n) => truncate(base.as_str(), n),
    }
}

/// The label line for one published record, with optional Pango
/// escaping; nothing when the text is not a flat record.
pub open spec fn spec_render_label(
    txt: Seq<char>,
    fmt: Option<Seq<char>>,
    trunc: Option<usize>,
    pango: bool,
) -> Option<Seq<char>> {
    match spec_parse_flat_obj(txt) {
        None => None,
        Some(m) => {
            let label = spec_format_label(
                spec_field_or_empty(m, "artist"@),
                spec_field_or_empty(m, "title"@),
                fmt,
                trunc,
            );
            Some(
                if pango {
                    spec_pango(label)
                } else {
                    label
                },
            )
        },
    }
}

/// Render the watch label for one snapshot or event-log line.
pub fn render_label(txt: &str, fmt: Option<&str>, trunc: Option<usize>, pango: bool) -> (r: Option<
    String,
>)
    ensures
        r.deep_view() == spec_render_label(txt@, fmt.deep_view(), trunc, pango),
{
    let obj = match parse_flat_obj(txt) {
        Some(o) => o,
        None => {
            return None;
        },
    };
    let artist = match get_string(&obj, "artist") {
        Some(x) => x,
        None => String::new(),
    };
    let title = match get_string(&obj, "title") {
        Some(x) => x,
        None => String::new(),
    };
    let label = format_label(artist.as_str(), title.as_str(), fmt, trunc);
    if pango {
        Some(pango_escape(label.as_str()))
    } else {
        Some(label)
    }
}

/// The control verbs the companion tool sends.
#[derive(PartialEq, Eq, Structural, Clone, Copy, Debug)]
pub enum ControlVerb {
    PlayPause,
    Next,
    Previous,
    Seek,
    SetPosition,
}

/// The verb word on the wire.
pub open spec fn spec_verb_word(v: ControlVerb) -> Seq<char> {
    match v {
        ControlVerb::PlayPause => "play-pause"@,
        ControlVerb::Next => "next"@,
        ControlVerb::Previous => "previous"@,
        ControlVerb::Seek => "seek"@,
        ControlVerb::SetPosition => "set-position"@,
    }
}

/// The numeric key a verb's argument is sent under, if the verb takes
/// one.
pub open spec fn spec_verb_num_key(v: ControlVerb) -> Option<Seq<char>> {
    match v {
        ControlVerb::Seek => Some("offset"@),
        ControlVerb::SetPosition => Some("position"@),
        _ => None,
    }
}

/// A numeric command-line argument normalised for the wire: kept as
/// written when it parses as a decimal literal, `0` otherwise (also when
/// the argument is missing).
pub open spec fn spec_normalize_number(arg: Option<Seq<char>>) -> Seq<char> {
    match arg {
        Some(a) => if spec_parse_dec(a) is Some {
            a
        } else {
            "0"@
        },
        None => "0"@,
    }
}

/// Normalise a numeric command-line argument.
pub fn normalize_number(arg: Option<&str>) -> (r: String)
    ensures
        r@ == spec_normalize_number(arg.deep_view()),
{
    match arg {
        Some(a) => {
            if parse_dec(a).is_some() {
                String::from_str(a)
            } else {
                String::from_str("0")
            }
        },
        None => String::from_str("0"),
    }
}

/// The JSON rendering of the optional explicit player: a quoted string
/// or `null`.
pub open spec fn spec_player_json(p: Option<Seq<char>>) -> Seq<char> {
    match p {
        Some(x) => spec_json_string(x),
        None => "null"@,
    }
}

/// The request payload one control command sends over the socket: the
/// verb under `cmd`, the numeric argument under its key where the verb
/// takes one, and the explicit player or `null` under `player`.
pub open spec fn spec_control_payload(
    verb: ControlVerb,
    player: Option<Seq<char>>,
    num: Seq<char>,
) -> Seq<char> {
    let head = "{\"cmd\":"@ + spec_json_string(spec_verb_word(verb));
    let mid = match spec_verb_num_key(verb) {
        Some(k) => ",\""@ + k + "\":"@ + num,
        None => Seq::empty(),
    };
    head + mid + ",\"player\":"@ + spec_player_json(player) + seq!['}']
}

/// Build the request payload of one control command.
pub fn control_payload(verb: &ControlVerb, player: &Option<String>, num: &str) -> (r: String)
    ensures
        r@ == spec_control_payload(*verb, player.deep_view(), num@),
{
    let mut out = String::from_str("{\"cmd\":");
    match verb {
        ControlVerb::PlayPause => push_json_string(&mut out, "play-pause"),
        ControlVerb::Next => push_json_string(&mut out, "next"),
        ControlVerb::Previous => push_json_string(&mut out, "previous"),
        ControlVerb::Seek => push_json_string(&mut out, "seek"),
        ControlVerb::SetPosition => push_json_string(&mut out, "set-position"),
    }
    match verb {
        ControlVerb::Seek => {
            out.append(",\"offset\":");
            out.append(num);
            proof {
                reveal_strlit(",\"offset\":");
                reveal_strlit(",\"");
                reveal_strlit("offset");
                reveal_strlit("\":");
                assert(",\"offset\":"@ =~= ",\""@ + "offset"@ + "\":"@);
            }
        },
        ControlVerb::SetPosition => {
            out.append(",\"position\":");
            out.append(num);
            proof {
                reveal_strlit(",\"position\":");
                reveal_strlit(",\"");
                reveal_strlit("position");
                reveal_strlit("\":");
                assert(",\"position\":"@ =~= ",\""@ + "position"@ + "\":"@);
            }
        },
        _ => {},
    }
    out.append(",\"player\":");
    match player {
        Some(p) => push_json_string(&mut out, p.as_str()),
        None => out.append("null"),
    }
    out.push('}');
    proof {
        assert(out@ =~= spec_control_payload(*verb, player.deep_view(), num@));
    }
    out
}

/// The signed whole-second rendering of a decimal: the rounded absolute
/// value, with a leading minus sign when the value is negative and the
/// rounding is not zero.
pub open spec fn spec_signed_rounded(d: Dec) -> Seq<char> {
    if d.spec_is_negative() && d.spec_abs_rounded() > 0 {
        seq!['-'] + spec_u64_dec(d.spec_abs_rounded() as nat)
    } else {
        spec_u64_dec(d.spec_abs_rounded() as nat)
    }
}

/// Render a decimal rounded to whole seconds, keeping its sign.
pub fn signed_rounded(d: &Dec) -> (r: String)
    ensures
        r@ == spec_signed_rounded(*d),
{
    let n = u64_to_string(d.abs_rounded());
    if d.is_negative() && d.abs_rounded() > 0 {
        let mut out = String::from_str("-");
        out.append(n.as_str());
        proof {
            reveal_strlit("-");
            assert(out@ =~= spec_signed_rounded(*d));
        }
        out
    } else {
        n
    }
}

/// The direct-fallback arguments of one control command, handed to the
/// external media-control utility when the socket cannot be reached: the
/// verb word for the plain verbs, `position` with the signed rounded
/// offset for `seek`, and `position` with the signed rounded position
/// for `set-position`.
pub open spec fn spec_fallback_args(verb: ControlVerb, num: Seq<char>) -> Seq<Seq<char>> {
    let d = match spec_parse_dec(num) {
        Some(d) => d,
        None => Dec { neg: false, units: 0, sat: false, frac_first: 0, frac_nonzero: false },
    };
    match verb {
        ControlVerb::PlayPause => seq!["play-pause"@],
        ControlVerb::Next => seq!["next"@],
        ControlVerb::Previous => seq!["previous"@],
        ControlVerb::Seek => seq!["position"@, spec_seek_arg(d)],
        ControlVerb::SetPosition => seq!["position"@, spec_signed_rounded(d)],
    }
}

/// Build the direct-fallback arguments of one control command.
pub fn fallback_args(verb: &ControlVerb, num: &str) -> (r: Vec<String>)
    ensures
        r.deep_view() == spec_fallback_args(*verb, num@),
{
    let d: Dec = match parse_dec(num) {
        Some(d) => d,
        None => Dec { neg: false, units: 0, sat: false, frac_first: 0, frac_nonzero: false },
    };
    let mut v: Vec<String> = Vec::new();
    match verb {
        ControlVerb::PlayPause => {
            v.push(String::from_str("play-pause"));
            proof {
                assert(v.deep_view() =~= seq!["play-pause"@]);
            }
        },
        ControlVerb::Next => {
            v.push(String::from_str("next"));
            proof {
                assert(v.deep_view() =~= seq!["next"@]);
            }
        },
        ControlVerb::Previous => {
            v.push(String::from_str("previous"));
            proof {
                assert(v.deep_view() =~= seq!["previous"@]);
            }
        },
        ControlVerb::Seek => {
            v.push(String::from_str("position"));
            v.push(seek_arg(&d));
            proof {
                assert(v.deep_view() =~= seq!["position"@, spec_seek_arg(d)]);
            }
        },
        ControlVerb::SetPosition => {
            v.push(String::from_str("position"));
            v.push(signed_rounded(&d));
            proof {
                assert(v.deep_view() =~= seq!["position"@, spec_signed_rounded(d)]);
            }
        },
    }
    v
}

} // verus!
