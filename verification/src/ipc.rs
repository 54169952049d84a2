//! The IPC command server's logic: the wire grammar of one command line,
//! target-player resolution, the external-utility invocation each verb
//! asks for, and the single response line.

use vstd::prelude::*;
use crate::json::{
    JVal, spec_parse_flat_obj, parse_flat_obj, spec_lookup, lookup_field, spec_get_string,
    get_string, spec_get_dec, get_dec, JsonVal,
};
use crate::num::{Dec, spec_u64_dec, u64_to_string};

verus! {

/// One parsed IPC command: the verb, its numeric argument where the verb
/// takes one, and the optional explicit target player.
pub enum IpcCmd {
    PlayPause { player: Option<String> },
    Next { player: Option<String> },
    Previous { player: Option<String> },
    Seek { offset: Dec, player: Option<String> },
    SetPosition { position: Dec, player: Option<String> },
}

/// The mathematical view of a parsed IPC command.
pub enum IpcCmdV {
    PlayPause { player: Option<Seq<char>> },
    Next { player: Option<Seq<char>> },
    Previous { player: Option<Seq<char>> },
    Seek { offset: Dec, player: Option<Seq<char>> },
    SetPosition { position: Dec, player: Option<Seq<char>> },
}

impl View for IpcCmd {
    type V = IpcCmdV;

    open spec fn view(&self) -> IpcCmdV {
        match self {
            IpcCmd::PlayPause { player } => IpcCmdV::PlayPause { player: player.deep_view() },
            IpcCmd::Next { player } => IpcCmdV::Next { player: player.deep_view() },
            IpcCmd::Previous { player } => IpcCmdV::Previous { player: player.deep_view() },
            IpcCmd::Seek { offset, player } => IpcCmdV::Seek {
                offset: *offset,
                player: player.deep_view(),
            },
            IpcCmd::SetPosition { position, player } => IpcCmdV::SetPosition {
                position: *position,
                player: player.deep_view(),
            },
        }
    }
}

/// The `player` field of a command object: absent or null means no
/// explicit player, a string names one, and any other value makes the
/// command invalid.
pub open spec fn spec_player_field(m: Seq<(Seq<char>, JVal)>) -> Option<Option<Seq<char>>> {
    match spec_lookup(m, "player"@) {
        None => Some(None),
        Some(JVal::Null) => Some(None),
        Some(JVal::S(x)) => Some(Some(x)),
        Some(_) => None,
    }
}

/// The command a parsed object denotes: the `cmd` field picks the verb,
/// `seek` and `set-position` require their numeric field, and the
/// `player` field must be a string, null or absent.
pub open spec fn spec_cmd_of(m: Seq<(Seq<char>, JVal)>) -> Option<IpcCmdV> {
    match spec_player_field(m) {
        None => None,
        Some(pl) => match spec_get_string(m, "cmd"@) {
            None => None,
            Some(c) => if c == "play-pause"@ {
                Some(IpcCmdV::PlayPause { player: pl })
            } else if c == "next"@ {
                Some(IpcCmdV::Next { player: pl })
            } else if c == "previous"@ {
                Some(IpcCmdV::Previous { player: pl })
            } else if c == "seek"@ {
                match spec_get_dec(m, "offset"@) {
                    Some(d) => Some(IpcCmdV::Seek { offset: d, player: pl }),
                    None => None,
                }
            } else if c == "set-position"@ {
                match spec_get_dec(m, "position"@) {
                    Some(d) => Some(IpcCmdV::SetPosition { position: d, player: pl }),
                    None => None,
                }
            } else {
                None
            },
        },
    }
}

/// The command one request line denotes, if it is a well-formed flat
/// object denoting one.
pub open spec fn spec_parse_command(line: Seq<char>) -> Option<IpcCmdV> {
    match spec_parse_flat_obj(line) {
        Some(m) => spec_cmd_of(m),
        None => None,
    }
}

/// Parse one request line into a command.
pub fn parse_command(line: &str) -> (r: Option<IpcCmd>)
    ensures
        match r {
            Some(c) => spec_parse_command(line@) == Some(c@),
            None => spec_parse_command(line@) is None,
        },
{
    let obj = match parse_flat_obj(line) {
        Some(o) => o,
        None => {
            return None;
        },
    };
    let player: Option<String> = match lookup_field(&obj, "player") {
        None => None,
        Some(JsonVal::Null) => None,
        Some(JsonVal::S(x)) => Some(x),
        Some(_) => {
            return None;
        },
    };
    let cmd = match get_string(&obj, "cmd") {
        Some(c) => c,
        None => {
            return None;
        },
    };
    if crate::text::str_eq(cmd.as_str(), "play-pause") {
        Some(IpcCmd::PlayPause { player })
    } else if crate::text::str_eq(cmd.as_str(), "next") {
        Some(IpcCmd::Next { player })
    } else if crate::text::str_eq(cmd.as_str(), "previous") {
        Some(IpcCmd::Previous { player })
    } else if crate::text::str_eq(cmd.as_str(), "seek") {
        match get_dec(&obj, "offset") {
            Some(d) => Some(IpcCmd::Seek { offset: d, player }),
            None => None,
        }
    } else if crate::text::str_eq(cmd.as_str(), "set-position") {
        match get_dec(&obj, "position") {
            Some(d) => Some(IpcCmd::SetPosition { position: d, player }),
            None => None,
        }
    } else {
        None
    }
}

/// The target of a command: the explicit player when given, else the
/// current selection, else nobody.
pub open spec fn spec_target(
    explicit: Option<Seq<char>>,
    selected: Option<Seq<char>>,
) -> Option<Seq<char>> {
    match explicit {
        Some(p) => Some(p),
        None => selected,
    }
}

/// Resolve the target player of a command.
pub fn pick_player(explicit: &Option<String>, selected: &Option<String>) -> (r: Option<String>)
    ensures
        r.deep_view() == spec_target(explicit.deep_view(), selected.deep_view()),
{
    match explicit {
        Some(p) => Some(p.clone()),
        None => match selected {
            Some(s) => Some(s.clone()),
            None => None,
        },
    }
}

/// The seek argument of the external utility: the rounded absolute
/// offset with the direction as a `+` or `-` suffix.
pub open spec fn spec_seek_arg(d: Dec) -> Seq<char> {
    spec_u64_dec(d.spec_abs_rounded() as nat) + (if d.spec_is_negative() {
        seq!['-']
    } else {
        seq!['+']
    })
}

/// Render the seek argument.
pub fn seek_arg(d: &Dec) -> (r: String)
    ensures
        r@ == spec_seek_arg(*d),
{
    let mut out = u64_to_string(d.abs_rounded());
    if d.is_negative() {
        out.push('-');
    } else {
        out.push('+');
    }
    proof {
        assert(out@ =~= spec_seek_arg(*d));
    }
    out
}

/// One invocation of the external media-control utility: the target
/// player and the verb arguments.
pub struct Invocation {
    pub player: String,
    pub args: Vec<String>,
}

/// The invocation a command asks for, over the resolved target: the verb
/// word for the plain verbs; `position` with the signed rounded offset
/// for `seek`; `position` with the rounded position for `set-position`,
/// which a negative position makes invalid. No target makes any command
/// invalid.
pub open spec fn spec_invocation(c: IpcCmdV, selected: Option<Seq<char>>) -> Option<
    (Seq<char>, Seq<Seq<char>>),
> {
    match c {
        IpcCmdV::PlayPause { player } => match spec_target(player, selected) {
            Some(t) => Some((t, seq!["play-pause"@])),
            None => None,
        },
        IpcCmdV::Next { player } => match spec_target(player, selected) {
            Some(t) => Some((t, seq!["next"@])),
            None => None,
        },
        IpcCmdV::Previous { player } => match spec_target(player, selected) {
            Some(t) => Some((t, seq!["previous"@])),
            None => None,
        },
        IpcCmdV::Seek { offset, player } => match spec_target(player, selected) {
            Some(t) => Some((t, seq!["position"@, spec_seek_arg(offset)])),
            None => None,
        },
        IpcCmdV::SetPosition { position, player } => match spec_target(player, selected) {
            Some(t) => {
                if position.spec_is_negative() {
                    None
                } else {
                    Some((t, seq!["position"@, spec_u64_dec(position.spec_abs_rounded() as nat)]))
                }
            },
            None => None,
        },
    }
}

/// Build the external invocation a command asks for.
pub fn command_invocation(c: &IpcCmd, selected: &Option<String>) -> (r: Option<Invocation>)
    ensures
        match r {
            Some(inv) => spec_invocation(c@, selected.deep_view()) == Some(
                (inv.player@, inv.args.deep_view()),
            ),
            None => spec_invocation(c@, selected.deep_view()) is None,
        },
{
    match c {
        IpcCmd::PlayPause { player } => match pick_player(player, selected) {
            Some(t) => {
                let mut args: Vec<String> = Vec::new();
                args.push(String::from_str("play-pause"));
                proof {
                    assert(args.deep_view() =~= seq!["play-pause"@]);
                }
                Some(Invocation { player: t, args })
            },
            None => None,
        },
        IpcCmd::Next { player } => match pick_player(player, selected) {
            Some(t) => {
                let mut args: Vec<String> = Vec::new();
                args.push(String::from_str("next"));
                proof {
                    assert(args.deep_view() =~= seq!["next"@]);
                }
                Some(Invocation { player: t, args })
            },
            None => None,
        },
        IpcCmd::Previous { player } => match pick_player(player, selected) {
            Some(t) => {
                let mut args: Vec<String> = Vec::new();
                args.push(String::from_str("previous"));
                proof {
                    assert(args.deep_view() =~= seq!["previous"@]);
                }
                Some(Invocation { player: t, args })
            },
            None => None,
        },
        IpcCmd::Seek { offset, player } => match pick_player(player, selected) {
            Some(t) => {
                let mut args: Vec<String> = Vec::new();
                args.push(String::from_str("position"));
                args.push(seek_arg(offset));
                proof {
                    assert(args.deep_view() =~= seq!["position"@, spec_seek_arg(*offset)]);
                }
                Some(Invocation { player: t, args })
            },
            None => None,
        },
        IpcCmd::SetPosition { position, player } => match pick_player(player, selected) {
            Some(t) => {
                if position.is_negative() {
                    None
                } else {
                    let mut args: Vec<String> = Vec::new();
                    args.push(String::from_str("position"));
                    args.push(u64_to_string(position.abs_rounded()));
                    proof {
                        assert(args.deep_view() =~= seq![
                            "position"@,
                            spec_u64_dec(position.spec_abs_rounded() as nat),
                        ]);
                    }
                    Some(Invocation { player: t, args })
                }
            },
            None => None,
        },
    }
}

/// The one response line a processed command gets.
pub open spec fn spec_response(ok: bool) -> Seq<char> {
    if ok {
        "{\"ok\":true}\n"@
    } else {
        "{\"ok\":false}\n"@
    }
}

/// Render the response line.
pub fn response_line(ok: bool) -> (r: String)
    ensures
        r@ == spec_response(ok),
{
    if ok {
        String::from_str("{\"ok\":true}\n")
    } else {
        String::from_str("{\"ok\":false}\n")
    }
}

/// Handle one request line: parse it, resolve the target, and hand back
/// the response line together with the external invocation to perform,
/// if any. The response is the success line exactly when a valid command
/// found its target; a parse failure, an unknown verb, a missing target
/// or a negative `set-position` answer the failure line with nothing
/// invoked.
pub fn handle_ipc_line(line: &str, selected: &Option<String>) -> (r: (String, Option<Invocation>))
    ensures
        match spec_parse_command(line@) {
            None => r.0@ == spec_response(false) && r.1 is None,
            Some(c) => match spec_invocation(c, selected.deep_view()) {
                None => r.0@ == spec_response(false) && r.1 is None,
                Some(iv) => r.0@ == spec_response(true) && (match r.1 {
                    Some(inv) => iv == (inv.player@, inv.args.deep_view()),
                    None => false,
                }),
            },
        },
{
    match parse_command(line) {
        None => (response_line(false), None),
        Some(c) => match command_invocation(&c, selected) {
            None => (response_line(false), None),
            Some(inv) => (response_line(true), Some(inv)),
        },
    }
}

} // verus!
