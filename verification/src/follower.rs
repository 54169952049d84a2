//! The follower pipeline: the metadata-stream invocation, the parsing of
//! its pipe-delimited lines, the record built from one line, and the
//! supervisor's state machine over selection changes and watchdog ticks.

use vstd::prelude::*;
use crate::text::{spec_trim, trim_ascii, spec_char_pos, find_char, str_eq, spec_truncate, truncate};
use crate::num::{spec_parse_u64, parse_u64, spec_parse_dec, parse_dec};
use crate::state::UiState;

verus! {

/// The format string handed to the external metadata utility: the eight
/// pipe-delimited fields of one update.
pub fn follower_format() -> (r: String)
    ensures
        r@ == "{{status}}|{{playerName}}|{{title}}|{{artist}}|{{mpris:length}}|{{mpris:artUrl}}|{{position}}|{{xesam:url}}"@,
{
    String::from_str(
        "{{status}}|{{playerName}}|{{title}}|{{artist}}|{{mpris:length}}|{{mpris:artUrl}}|{{position}}|{{xesam:url}}",
    )
}

/// The arguments of the external metadata utility for one player: the
/// formatted metadata read, streamed (`follow` set) or one-shot.
pub fn follower_args(name: &str, follow: bool) -> (r: Vec<String>)
    ensures
        r.deep_view().len() == (if follow {
            6int
        } else {
            5int
        }),
        r.deep_view()[0] == "-p"@,
        r.deep_view()[1] == name@,
        r.deep_view()[2] == "metadata"@,
        r.deep_view()[3] == "--format"@,
        r.deep_view()[4]
            == "{{status}}|{{playerName}}|{{title}}|{{artist}}|{{mpris:length}}|{{mpris:artUrl}}|{{position}}|{{xesam:url}}"@,
        follow ==> r.deep_view()[5] == "-F"@,
{
    let mut v: Vec<String> = Vec::new();
    v.push(String::from_str("-p"));
    v.push(String::from_str(name));
    v.push(String::from_str("metadata"));
    v.push(String::from_str("--format"));
    v.push(follower_format());
    if follow {
        v.push(String::from_str("-F"));
    }
    v
}

/// `s` split at the first `n - 1` pipes: at most `n` fields, the last
/// holding whatever remains.
pub open spec fn spec_splitn_pipe(s: Seq<char>, n: nat) -> Seq<Seq<char>>
    decreases n,
{
    if n <= 1 {
        seq![s]
    } else {
        match spec_char_pos(s, '|') {
            None => seq![s],
            Some(i) => seq![s.take(i)] + spec_splitn_pipe(s.skip(i + 1), (n - 1) as nat),
        }
    }
}

/// Split at the first `n - 1` pipes.
pub fn splitn_pipe(s: &str, n: usize) -> (r: Vec<String>)
    ensures
        r.deep_view() == spec_splitn_pipe(s@, n as nat),
        r.deep_view().len() >= 1,
    decreases n,
{
    if n <= 1 {
        let mut v: Vec<String> = Vec::new();
        v.push(String::from_str(s));
        proof {
            assert(v.deep_view() =~= spec_splitn_pipe(s@, n as nat));
        }
        return v;
    }
    match find_char(s, '|') {
        None => {
            let mut v: Vec<String> = Vec::new();
            v.push(String::from_str(s));
            proof {
                assert(v.deep_view() =~= spec_splitn_pipe(s@, n as nat));
            }
            v
        },
        Some(i) => {
            let len = s.unicode_len();
            let head = s.substring_char(0, i);
            let tail = s.substring_char(i + 1, len);
            proof {
                assert(head@ =~= s@.take(i as int));
                assert(tail@ =~= s@.skip(i as int + 1));
            }
            let ghost headv = head@;
            let mut rest = splitn_pipe(tail, n - 1);
            let ghost restv = rest.deep_view();
            rest.insert(0, String::from_str(head));
            proof {
                assert(rest.deep_view() =~= seq![headv] + restv);
            }
            rest
        },
    }
}

/// The eight fields of one metadata line, each trimmed of surrounding
/// whitespace: playback status, player name, title, artist, track length
/// in microseconds, art URL, playback position in microseconds, and the
/// track URL.
pub struct FollowerLine {
    pub status: String,
    pub player_name: String,
    pub title: String,
    pub artist: String,
    pub len_us: String,
    pub art_url: String,
    pub pos_us: String,
    pub url: String,
}

/// The trimmed field `k` of the line split into eight.
pub open spec fn spec_line_field(line: Seq<char>, k: int) -> Seq<char> {
    spec_trim(spec_splitn_pipe(line, 8)[k])
}

/// Parse one metadata line: split at the first seven pipes; any other
/// field count discards the line.
pub fn parse_follower_line(line: &str) -> (r: Option<FollowerLine>)
    ensures
        r is Some <==> spec_splitn_pipe(line@, 8).len() == 8,
        match r {
            Some(l) => {
                &&& l.status@ == spec_line_field(line@, 0)
                &&& l.player_name@ == spec_line_field(line@, 1)
                &&& l.title@ == spec_line_field(line@, 2)
                &&& l.artist@ == spec_line_field(line@, 3)
                &&& l.len_us@ == spec_line_field(line@, 4)
                &&& l.art_url@ == spec_line_field(line@, 5)
                &&& l.pos_us@ == spec_line_field(line@, 6)
                &&& l.url@ == spec_line_field(line@, 7)
            },
            None => true,
        },
{
    let parts = splitn_pipe(line, 8);
    if parts.len() != 8 {
        return None;
    }
    Some(
        FollowerLine {
            status: trim_ascii(parts[0].as_str()),
            player_name: trim_ascii(parts[1].as_str()),
            title: trim_ascii(parts[2].as_str()),
            artist: trim_ascii(parts[3].as_str()),
            len_us: trim_ascii(parts[4].as_str()),
            art_url: trim_ascii(parts[5].as_str()),
            pos_us: trim_ascii(parts[6].as_str()),
            url: trim_ascii(parts[7].as_str()),
        },
    )
}

/// The microseconds a length field denotes: an unsigned integer, zero
/// when it does not parse.
pub open spec fn spec_length_us(f: Seq<char>) -> u64 {
    match spec_parse_u64(f) {
        Some(v) => v,
        None => 0,
    }
}

/// The microseconds a position field denotes: a decimal truncated toward
/// zero and clamped below at zero, zero when it does not parse.
pub open spec fn spec_position_us(f: Seq<char>) -> u64 {
    match spec_parse_dec(f) {
        Some(d) => d.spec_clamped_trunc(),
        None => 0,
    }
}

/// Build the published record for one metadata line of the followed
/// player: its name, the line's status, the truncated title and artist,
/// the parsed times with their mirrors, the resolved cover path and the
/// capability flags.
pub fn build_state(
    name: &str,
    l: &FollowerLine,
    can_next: i32,
    can_prev: i32,
    thumbnail: &str,
    truncate_title: usize,
    truncate_artist: usize,
) -> (st: UiState)
    requires
        can_next == 0 || can_next == 1,
        can_prev == 0 || can_prev == 1,
    ensures
        st.wf(),
        st.name@ == name@,
        st.status@ == l.status@,
        st.title@ == spec_truncate(l.title@, truncate_title as nat),
        st.artist@ == spec_truncate(l.artist@, truncate_artist as nat),
        st.length_us == spec_length_us(l.len_us@),
        st.position_us == spec_position_us(l.pos_us@),
        st.thumbnail@ == thumbnail@,
        st.can_next == can_next,
        st.can_prev == can_prev,
{
    let mut st = UiState::empty(thumbnail);
    st.name = String::from_str(name);
    st.status = String::from_str(l.status.as_str());
    st.title = truncate(l.title.as_str(), truncate_title);
    st.artist = truncate(l.artist.as_str(), truncate_artist);
    let length_us: u64 = match parse_u64(l.len_us.as_str()) {
        Some(v) => v,
        None => 0,
    };
    st.set_length_us(length_us);
    let position_us: u64 = match parse_dec(l.pos_us.as_str()) {
        Some(d) => d.clamped_trunc(),
        None => 0,
    };
    st.set_position_us(position_us);
    st.can_next = can_next;
    st.can_prev = can_prev;
    st
}

/// What the supervisor does on one change of the desired selection.
pub enum FollowerAction {
    Stay,
    Stop,
    Start(String),
    Restart(String),
}

/// The mathematical view of a supervisor action.
pub enum ActionV {
    Stay,
    Stop,
    Start(Seq<char>),
    Restart(Seq<char>),
}

impl View for FollowerAction {
    type V = ActionV;

    open spec fn view(&self) -> ActionV {
        match self {
            FollowerAction::Stay => ActionV::Stay,
            FollowerAction::Stop => ActionV::Stop,
            FollowerAction::Start(n) => ActionV::Start(n@),
            FollowerAction::Restart(n) => ActionV::Restart(n@),
        }
    }
}

/// The supervisor table: nothing to nothing is a no-op, nothing to a
/// player starts its follower, the same player stays, a player to
/// nothing stops the follower, and a different player restarts it.
pub open spec fn spec_transition(c: Option<Seq<char>>, d: Option<Seq<char>>) -> ActionV {
    match (c, d) {
        (None, None) => ActionV::Stay,
        (None, Some(q)) => ActionV::Start(q),
        (Some(p), None) => ActionV::Stop,
        (Some(p), Some(q)) => if p == q {
            ActionV::Stay
        } else {
            ActionV::Restart(q)
        },
    }
}

/// Decide what one change of the desired selection asks of the
/// supervisor.
pub fn supervisor_transition(current: &Option<String>, desired: &Option<String>) -> (r:
    FollowerAction)
    ensures
        r@ == spec_transition(current.deep_view(), desired.deep_view()),
{
    match (current, desired) {
        (None, None) => FollowerAction::Stay,
        (None, Some(q)) => FollowerAction::Start(q.clone()),
        (Some(_), None) => FollowerAction::Stop,
        (Some(p), Some(q)) => {
            if str_eq(p.as_str(), q.as_str()) {
                FollowerAction::Stay
            } else {
                FollowerAction::Restart(q.clone())
            }
        },
    }
}

/// What a watchdog tick respawns: the selected player exactly when a
/// selection exists and the follower is no longer alive.
pub open spec fn spec_watchdog(selected: Option<Seq<char>>, alive: bool) -> Option<Seq<char>> {
    if alive {
        None
    } else {
        selected
    }
}

/// Decide whether a watchdog tick must respawn the follower.
pub fn watchdog_respawn(selected: &Option<String>, alive: bool) -> (r: Option<String>)
    ensures
        r.deep_view() == spec_watchdog(selected.deep_view(), alive),
{
    if alive {
        None
    } else {
        match selected {
            Some(n) => Some(n.clone()),
            None => None,
        }
    }
}

} // verus!
