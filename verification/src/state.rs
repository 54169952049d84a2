//! The canonical published record: the selected player's name, track
//! metadata, playback status and times, cover path and capability flags,
//! with its JSON rendering.

use vstd::prelude::*;
use crate::timefmt::{spec_fmt_time, fmt_time};
use crate::json::{spec_json_string, spec_secs_json, push_json_string, secs_json};

verus! {

/// The canonical published record. Times are held in microseconds; the
/// `_str` fields mirror them in `M:SS` form.
pub struct UiState {
    pub name: String,
    pub title: String,
    pub artist: String,
    pub status: String,
    pub position_us: u64,
    pub position_str: String,
    pub length_us: u64,
    pub length_str: String,
    pub thumbnail: String,
    pub can_next: i32,
    pub can_prev: i32,
}

impl UiState {
    /// Well-formed: each formatted mirror renders its time, and the
    /// capability flags are zero or one.
    pub open spec fn wf(self) -> bool {
        &&& self.position_str@ == spec_fmt_time(self.position_us as int)
        &&& self.length_str@ == spec_fmt_time(self.length_us as int)
        &&& self.can_next == 0 || self.can_next == 1
        &&& self.can_prev == 0 || self.can_prev == 1
    }

    /// The empty record: no player, no metadata, zero times, the default
    /// cover, no capabilities.
    pub fn empty(default_cover: &str) -> (r: Self)
        ensures
            r.wf(),
            r.name@.len() == 0,
            r.title@.len() == 0,
            r.artist@.len() == 0,
            r.status@.len() == 0,
            r.position_us == 0,
            r.length_us == 0,
            r.thumbnail@ == default_cover@,
            r.can_next == 0,
            r.can_prev == 0,
    {
        UiState {
            name: String::new(),
            title: String::new(),
            artist: String::new(),
            status: String::new(),
            position_us: 0,
            position_str: fmt_time(0),
            length_us: 0,
            length_str: fmt_time(0),
            thumbnail: String::from_str(default_cover),
            can_next: 0,
            can_prev: 0,
        }
    }

    /// The empty record carrying a player name: what is published the
    /// moment a selection changes, before any metadata has arrived.
    pub fn empty_with_name(default_cover: &str, name: &str) -> (r: Self)
        ensures
            r.wf(),
            r.name@ == name@,
            r.title@.len() == 0,
            r.artist@.len() == 0,
            r.status@.len() == 0,
            r.position_us == 0,
            r.length_us == 0,
            r.thumbnail@ == default_cover@,
            r.can_next == 0,
            r.can_prev == 0,
    {
        let mut st = UiState::empty(default_cover);
        st.name = String::from_str(name);
        st
    }

    /// Set the playback position, keeping the formatted mirror in step.
    pub fn set_position_us(&mut self, us: u64)
        ensures
            (*final(self) == UiState {
                position_us: us,
                position_str: final(self).position_str,
                ..*old(self)
            }),
            final(self).position_str@ == spec_fmt_time(us as int),
    {
        self.position_us = us;
        self.position_str = fmt_time_u64(us);
    }

    /// Set the track length, keeping the formatted mirror in step.
    pub fn set_length_us(&mut self, us: u64)
        ensures
            (*final(self) == UiState {
                length_us: us,
                length_str: final(self).length_str,
                ..*old(self)
            }),
            final(self).length_str@ == spec_fmt_time(us as int),
    {
        self.length_us = us;
        self.length_str = fmt_time_u64(us);
    }
}

/// `M:SS` of an unsigned microsecond count.
pub fn fmt_time_u64(us: u64) -> (r: String)
    ensures
        r@ == spec_fmt_time(us as int),
{
    let secs: u64 = us / 1000000;
    let m: u64 = secs / 60;
    let rsec: u64 = secs % 60;
    let mut out = crate::num::u64_to_string(m);
    out.push(':');
    crate::num::push_two_digit(&mut out, rsec);
    proof {
        assert(out@ =~= spec_fmt_time(us as int));
    }
    out
}

/// Every well-formed record mirrors its times exactly and keeps them
/// non-negative: what holds of every record the bridge publishes.
pub proof fn lemma_published_invariant(st: UiState)
    requires
        st.wf(),
    ensures
        st.position_str@ == spec_fmt_time(st.position_us as int),
        st.length_str@ == spec_fmt_time(st.length_us as int),
        st.position_us >= 0,
        st.length_us >= 0,
{
}

/// The one-or-zero JSON rendering of a capability flag.
pub open spec fn spec_flag_json(v: i32) -> Seq<char> {
    if v == 1 {
        seq!['1']
    } else {
        seq!['0']
    }
}

/// The compact JSON rendering of a record, with the fixed camelCase key
/// order.
pub open spec fn spec_ui_json(st: UiState) -> Seq<char> {
    "{\"name\":"@ + spec_json_string(st.name@) + ",\"title\":"@ + spec_json_string(st.title@)
        + ",\"artist\":"@ + spec_json_string(st.artist@) + ",\"status\":"@ + spec_json_string(
        st.status@,
    ) + ",\"position\":"@ + spec_secs_json(st.position_us as nat) + ",\"positionStr\":"@
        + spec_json_string(st.position_str@) + ",\"length\":"@ + spec_secs_json(
        st.length_us as nat,
    ) + ",\"lengthStr\":"@ + spec_json_string(st.length_str@) + ",\"thumbnail\":"@
        + spec_json_string(st.thumbnail@) + ",\"canNext\":"@ + spec_flag_json(st.can_next)
        + ",\"canPrev\":"@ + spec_flag_json(st.can_prev) + seq!['}']
}

/// The pretty JSON rendering: one member per line, two-space indent.
pub open spec fn spec_ui_json_pretty(st: UiState) -> Seq<char> {
    "{\n  \"name\": "@ + spec_json_string(st.name@) + ",\n  \"title\": "@ + spec_json_string(
        st.title@,
    ) + ",\n  \"artist\": "@ + spec_json_string(st.artist@) + ",\n  \"status\": "@
        + spec_json_string(st.status@) + ",\n  \"position\": "@ + spec_secs_json(
        st.position_us as nat,
    ) + ",\n  \"positionStr\": "@ + spec_json_string(st.position_str@) + ",\n  \"length\": "@
        + spec_secs_json(st.length_us as nat) + ",\n  \"lengthStr\": "@ + spec_json_string(
        st.length_str@,
    ) + ",\n  \"thumbnail\": "@ + spec_json_string(st.thumbnail@) + ",\n  \"canNext\": "@
        + spec_flag_json(st.can_next) + ",\n  \"canPrev\": "@ + spec_flag_json(st.can_prev)
        + "\n}"@
}

/// Append a capability flag.
fn push_flag(out: &mut String, v: i32)
    ensures
        final(out)@ == old(out)@ + spec_flag_json(v),
{
    if v == 1 {
        out.push('1');
    } else {
        out.push('0');
    }
    proof {
        assert(out@ =~= old(out)@ + spec_flag_json(v));
    }
}

/// Render a record as compact JSON.
pub fn to_json(st: &UiState) -> (r: String)
    ensures
        r@ == spec_ui_json(*st),
{
    let mut out = String::new();
    out.append("{\"name\":");
    push_json_string(&mut out, st.name.as_str());
    out.append(",\"title\":");
    push_json_string(&mut out, st.title.as_str());
    out.append(",\"artist\":");
    push_json_string(&mut out, st.artist.as_str());
    out.append(",\"status\":");
    push_json_string(&mut out, st.status.as_str());
    out.append(",\"position\":");
    let p = secs_json(st.position_us);
    out.append(p.as_str());
    out.append(",\"positionStr\":");
    push_json_string(&mut out, st.position_str.as_str());
    out.append(",\"length\":");
    let l = secs_json(st.length_us);
    out.append(l.as_str());
    out.append(",\"lengthStr\":");
    push_json_string(&mut out, st.length_str.as_str());
    out.append(",\"thumbnail\":");
    push_json_string(&mut out, st.thumbnail.as_str());
    out.append(",\"canNext\":");
    push_flag(&mut out, st.can_next);
    out.append(",\"canPrev\":");
    push_flag(&mut out, st.can_prev);
    out.push('}');
    proof {
        assert(out@ =~= spec_ui_json(*st));
    }
    out
}

/// Render a record as pretty JSON.
pub fn to_json_pretty(st: &UiState) -> (r: String)
    ensures
        r@ == spec_ui_json_pretty(*st),
{
    let mut out = String::new();
    out.append("{\n  \"name\": ");
    push_json_string(&mut out, st.name.as_str());
    out.append(",\n  \"title\": ");
    push_json_string(&mut out, st.title.as_str());
    out.append(",\n  \"artist\": ");
    push_json_string(&mut out, st.artist.as_str());
    out.append(",\n  \"status\": ");
    push_json_string(&mut out, st.status.as_str());
    out.append(",\n  \"position\": ");
    let p = secs_json(st.position_us);
    out.append(p.as_str());
    out.append(",\n  \"positionStr\": ");
    push_json_string(&mut out, st.position_str.as_str());
    out.append(",\n  \"length\": ");
    let l = secs_json(st.length_us);
    out.append(l.as_str());
    out.append(",\n  \"lengthStr\": ");
    push_json_string(&mut out, st.length_str.as_str());
    out.append(",\n  \"thumbnail\": ");
    push_json_string(&mut out, st.thumbnail.as_str());
    out.append(",\n  \"canNext\": ");
    push_flag(&mut out, st.can_next);
    out.append(",\n  \"canPrev\": ");
    push_flag(&mut out, st.can_prev);
    out.append("\n}");
    proof {
        assert(out@ =~= spec_ui_json_pretty(*st));
    }
    out
}

/// What one publication writes: the snapshot text (compact or pretty per
/// configuration) and the event-log line, which is always the compact
/// rendering followed by a newline.
pub fn render_publication(st: &UiState, pretty: bool) -> (r: (String, String))
    ensures
        pretty ==> r.0@ == spec_ui_json_pretty(*st),
        !pretty ==> r.0@ == spec_ui_json(*st),
        r.1@ == spec_ui_json(*st) + seq!['\n'],
{
    let snapshot = if pretty {
        to_json_pretty(st)
    } else {
        to_json(st)
    };
    let mut line = to_json(st);
    line.push('\n');
    (snapshot, line)
}

} // verus!
