//! The published record, the IPC wire, the follower pipeline, art
//! decisions, paths and the companion tool's logic.

use mpris_bridge::state::{UiState, to_json, to_json_pretty, render_publication};
use mpris_bridge::ipc::{handle_ipc_line, parse_command, command_invocation, IpcCmd, response_line};
use mpris_bridge::follower::{
    parse_follower_line, build_state, supervisor_transition, watchdog_respawn, FollowerAction,
    follower_args, splitn_pipe,
};
use mpris_bridge::caps::{parse_busctl_bool, override_caps_for_youtube, busctl_property_args, CapsCache};
use mpris_bridge::art::{art_cache_target, art_plan, ArtPlan};
use mpris_bridge::paths::{expand, socket_path, state_path, events_path, runtime_dir_fallback, snapshot_tmp_path};
use mpris_bridge::cli::{
    resolve_player, snapshot_name, format_label, render_label, control_payload, fallback_args,
    normalize_number, ControlVerb,
};
use mpris_bridge::json::{parse_flat_obj, get_string};

fn some(s: &str) -> Option<String> {
    Some(s.to_string())
}

#[test]
fn bare_startup_snapshot_is_the_empty_record() {
    let st = UiState::empty("/tmp/cover.png");
    assert_eq!(
        to_json(&st),
        "{\"name\":\"\",\"title\":\"\",\"artist\":\"\",\"status\":\"\",\"position\":0,\"positionStr\":\"0:00\",\"length\":0,\"lengthStr\":\"0:00\",\"thumbnail\":\"/tmp/cover.png\",\"canNext\":0,\"canPrev\":0}",
    );
}

#[test]
fn published_records_mirror_their_times() {
    let line = "Playing|spotify|Song|Band|241000000|https://x/y.jpg|65900000|https://t";
    let l = parse_follower_line(line).unwrap();
    let st = build_state("spotify", &l, 1, 0, "/tmp/c.jpg", 120, 120);
    assert_eq!(st.position_str, "1:05");
    assert_eq!(st.length_str, "4:01");
    assert_eq!(st.position_us, 65_900_000);
    assert_eq!(st.length_us, 241_000_000);
    let json = to_json(&st);
    assert!(json.contains("\"position\":65.9,\"positionStr\":\"1:05\""));
    assert!(json.contains("\"length\":241,\"lengthStr\":\"4:01\""));
}

#[test]
fn snapshot_json_survives_a_round_trip() {
    let line = "Playing|spotify|A \"quoted\" song|Bänd|1000000|file:///a.jpg|500000|u";
    let l = parse_follower_line(line).unwrap();
    let st = build_state("spotify.instance_2", &l, 1, 1, "/covers/now.jpg", 120, 120);
    let json = to_json(&st);
    let obj = parse_flat_obj(&json).unwrap();
    assert_eq!(get_string(&obj, "name"), some("spotify.instance_2"));
    assert_eq!(get_string(&obj, "title"), some("A \"quoted\" song"));
    assert_eq!(get_string(&obj, "artist"), some("Bänd"));
    assert_eq!(get_string(&obj, "status"), some("Playing"));
    assert_eq!(get_string(&obj, "thumbnail"), some("/covers/now.jpg"));
}

#[test]
fn pretty_snapshot_holds_the_same_fields_one_per_line() {
    let st = UiState::empty("/d.png");
    let pretty = to_json_pretty(&st);
    assert!(pretty.starts_with("{\n  \"name\": \"\","));
    assert!(pretty.ends_with("\"canPrev\": 0\n}"));
    let obj = parse_flat_obj(&pretty).unwrap();
    assert_eq!(get_string(&obj, "thumbnail"), some("/d.png"));
}

#[test]
fn one_publication_writes_the_same_record_to_both_channels() {
    let st = UiState::empty_with_name("/d.png", "vlc");
    let (snapshot, event) = render_publication(&st, false);
    assert_eq!(event, format!("{}\n", snapshot));
    let (snapshot2, event2) = render_publication(&st, false);
    assert_eq!(snapshot, snapshot2);
    assert_eq!(event, event2);
}

#[test]
fn selection_switch_publishes_blank_name_record_then_quick_snapshot() {
    let action = supervisor_transition(&some("playerA"), &some("playerB"));
    assert!(matches!(action, FollowerAction::Restart(ref n) if n == "playerB"));
    let mut log: Vec<String> = Vec::new();
    // (i) the empty-with-name record published before the child starts
    let first = UiState::empty_with_name("/d.png", "playerB");
    log.push(render_publication(&first, false).1);
    // (ii) the one-shot quick snapshot with real metadata
    let l = parse_follower_line("Playing|playerB|T|A|2000000|u|1000000|x").unwrap();
    let second = build_state("playerB", &l, 0, 0, "/d.png", 120, 120);
    log.push(render_publication(&second, false).1);
    assert!(log[0].contains("\"name\":\"playerB\",\"title\":\"\""));
    assert!(log[1].contains("\"name\":\"playerB\",\"title\":\"T\""));
    assert!(log.len() == 2);
}

#[test]
fn supervisor_table_covers_all_transitions() {
    assert!(matches!(supervisor_transition(&None, &None), FollowerAction::Stay));
    assert!(matches!(supervisor_transition(&None, &some("a")), FollowerAction::Start(ref n) if n == "a"));
    assert!(matches!(supervisor_transition(&some("a"), &some("a")), FollowerAction::Stay));
    assert!(matches!(supervisor_transition(&some("a"), &None), FollowerAction::Stop));
    assert!(matches!(supervisor_transition(&some("a"), &some("b")), FollowerAction::Restart(ref n) if n == "b"));
}

#[test]
fn watchdog_respawns_only_dead_followers_with_a_selection() {
    assert_eq!(watchdog_respawn(&some("a"), false), some("a"));
    assert_eq!(watchdog_respawn(&some("a"), true), None);
    assert_eq!(watchdog_respawn(&None, false), None);
}

#[test]
fn follower_lines_need_exactly_eight_fields() {
    assert!(parse_follower_line("a|b|c|d|e|f|g|h").is_some());
    assert!(parse_follower_line("a|b|c|d|e|f|g").is_none());
    assert!(parse_follower_line("").is_none());
    // an eighth field keeps any further pipes
    let l = parse_follower_line("s|p|t|a|1|u|2|x|y|z").unwrap();
    assert_eq!(l.url, "x|y|z");
    let parts = splitn_pipe("a|b", 8);
    assert_eq!(parts, vec!["a", "b"]);
}

#[test]
fn follower_fields_are_trimmed_and_parsed() {
    let l = parse_follower_line(" Paused | spotify | T | A | notanumber | u | -5 | x ").unwrap();
    assert_eq!(l.status, "Paused");
    let st = build_state("spotify", &l, 0, 0, "/d", 120, 120);
    assert_eq!(st.length_us, 0, "an unparsable length reads as zero");
    assert_eq!(st.position_us, 0, "a negative position clamps to zero");
    assert_eq!(st.status, "Paused");
}

#[test]
fn titles_are_truncated_by_the_configured_limits() {
    let l = parse_follower_line("Playing|p|abcdefgh|ijklmnop|1|u|1|x").unwrap();
    let st = build_state("p", &l, 0, 0, "/d", 5, 3);
    assert_eq!(st.title, "abcd…");
    assert_eq!(st.artist, "ij…");
}

#[test]
fn follower_invocation_asks_for_the_streamed_format() {
    let args = follower_args("spotify", true);
    assert_eq!(args.len(), 6);
    assert_eq!(args[0], "-p");
    assert_eq!(args[1], "spotify");
    assert_eq!(args[5], "-F");
    let one_shot = follower_args("spotify", false);
    assert_eq!(one_shot.len(), 5);
    assert!(one_shot[4].contains("{{status}}|{{playerName}}"));
}

#[test]
fn ipc_without_target_refuses_and_invokes_nothing() {
    let (resp, inv) = handle_ipc_line("{\"cmd\":\"play-pause\"}", &None);
    assert_eq!(resp, "{\"ok\":false}\n");
    assert!(inv.is_none());
}

#[test]
fn ipc_seek_rounds_the_offset_and_keeps_its_sign_as_suffix() {
    let (resp, inv) = handle_ipc_line("{\"cmd\":\"seek\",\"offset\":-3.4}", &some("spotify"));
    assert_eq!(resp, "{\"ok\":true}\n");
    let inv = inv.unwrap();
    assert_eq!(inv.player, "spotify");
    assert_eq!(inv.args, vec!["position", "3-"]);
}

#[test]
fn ipc_seek_positive_offset_uses_plus_suffix() {
    let (_, inv) = handle_ipc_line("{\"cmd\":\"seek\",\"offset\":2.6}", &some("vlc"));
    assert_eq!(inv.unwrap().args, vec!["position", "3+"]);
}

#[test]
fn ipc_explicit_player_overrides_the_selection() {
    let (resp, inv) = handle_ipc_line(
        "{\"cmd\":\"next\",\"player\":\"vlc\"}",
        &some("spotify"),
    );
    assert_eq!(resp, "{\"ok\":true}\n");
    assert_eq!(inv.unwrap().player, "vlc");
}

#[test]
fn ipc_null_player_falls_back_to_the_selection() {
    let (_, inv) = handle_ipc_line("{\"cmd\":\"previous\",\"player\":null}", &some("mpv"));
    let inv = inv.unwrap();
    assert_eq!(inv.player, "mpv");
    assert_eq!(inv.args, vec!["previous"]);
}

#[test]
fn ipc_set_position_rounds_and_refuses_negatives() {
    let (resp, inv) = handle_ipc_line("{\"cmd\":\"set-position\",\"position\":12.5}", &some("p"));
    assert_eq!(resp, "{\"ok\":true}\n");
    assert_eq!(inv.unwrap().args, vec!["position", "13"]);
    let (resp, inv) = handle_ipc_line("{\"cmd\":\"set-position\",\"position\":-1.0}", &some("p"));
    assert_eq!(resp, "{\"ok\":false}\n");
    assert!(inv.is_none());
}

#[test]
fn ipc_rejects_malformed_lines_and_unknown_verbs() {
    for line in [
        "not json",
        "{\"cmd\":\"dance\"}",
        "{\"cmd\":42}",
        "{\"cmd\":\"seek\"}",
        "{\"cmd\":\"seek\",\"offset\":\"fast\"}",
        "{\"cmd\":\"play-pause\",\"player\":7}",
        "{}",
        "",
        "{\"cmd\":\"play-pause\"",
    ] {
        let (resp, inv) = handle_ipc_line(line, &some("spotify"));
        assert_eq!(resp, "{\"ok\":false}\n", "line {:?} must be refused", line);
        assert!(inv.is_none());
    }
    assert_eq!(response_line(true), "{\"ok\":true}\n");
}

#[test]
fn ipc_accepts_whitespace_and_field_order_variations() {
    let (resp, inv) = handle_ipc_line(
        " { \"player\" : \"vlc\" , \"cmd\" : \"play-pause\" } ",
        &None,
    );
    assert_eq!(resp, "{\"ok\":true}\n");
    assert_eq!(inv.unwrap().player, "vlc");
}

#[test]
fn ipc_decodes_unicode_escapes_in_strings() {
    let cmd = parse_command("{\"cmd\":\"play-pause\",\"player\":\"\\u0041bc\\n\"}").unwrap();
    match &cmd {
        IpcCmd::PlayPause { player } => assert_eq!(player.as_deref(), Some("Abc\n")),
        _ => panic!("wrong verb"),
    }
    let inv = command_invocation(&cmd, &None).unwrap();
    assert_eq!(inv.player, "Abc\n");
}

#[test]
fn busctl_answers_read_as_flags() {
    assert_eq!(parse_busctl_bool("b true\n"), 1);
    assert_eq!(parse_busctl_bool("b false\n"), 0);
    assert_eq!(parse_busctl_bool(""), 0);
}

#[test]
fn busctl_arguments_name_the_player_and_property() {
    let args = busctl_property_args("spotify", "CanGoNext");
    assert_eq!(
        args,
        vec![
            "--user",
            "get-property",
            "org.mpris.MediaPlayer2.spotify",
            "/org/mpris/MediaPlayer2",
            "org.mpris.MediaPlayer2.Player",
            "CanGoNext",
        ],
    );
}

#[test]
fn youtube_single_video_forces_next_only() {
    let r = override_caps_for_youtube("firefox.i1", "https://www.youtube.com/watch?v=x", 0, 1);
    assert_eq!(r, (1, 0));
    let r = override_caps_for_youtube("firefox.i1", "https://music.youtube.com/abc", 0, 0);
    assert_eq!(r, (1, 0));
    let r = override_caps_for_youtube(
        "firefox.i1",
        "https://www.youtube.com/watch?v=x&list=PL1",
        0,
        1,
    );
    assert_eq!(r, (0, 1), "playlists keep the queried flags");
    let r = override_caps_for_youtube("spotify", "https://www.youtube.com/watch?v=x", 0, 1);
    assert_eq!(r, (0, 1), "only firefox gets the override");
}

#[test]
fn capability_cache_requeries_only_on_meaningful_change() {
    let mut c = CapsCache::new();
    assert!(c.needs_refresh("Playing", "T", "A", "u"));
    c.store("Playing", "T", "A", "u", 1, 0);
    assert!(!c.needs_refresh("Playing", "T", "A", "u"));
    assert!(c.needs_refresh("Paused", "T", "A", "u"));
    assert!(c.needs_refresh("Playing", "T2", "A", "u"));
    assert_eq!((c.can_next, c.can_prev), (1, 0));
}

#[test]
fn remote_art_is_addressed_by_the_url_digest() {
    assert_eq!(
        art_cache_target("/cache", "hello"),
        "/cache/aaf4c61ddcc5e8a2dabede0f3b482cd9aea9434d.jpg",
    );
    assert_eq!(
        art_cache_target("/c", "https://example.com/cover.jpg"),
        "/c/9be310614796c609327a621b59cedcc37c52d977.jpg",
    );
}

#[test]
fn art_plans_follow_the_url_scheme() {
    assert!(matches!(art_plan(false, true, "/c", "file:///x.png"), ArtPlan::KeepCurrent));
    assert!(matches!(
        art_plan(true, true, "/c", "file:///covers/x.png"),
        ArtPlan::TryLocal(ref p) if p == "/covers/x.png"
    ));
    assert!(matches!(
        art_plan(true, true, "/c", "https://example.com/cover.jpg"),
        ArtPlan::TryRemote(ref p) if p == "/c/9be310614796c609327a621b59cedcc37c52d977.jpg"
    ));
    assert!(matches!(art_plan(true, false, "/c", "https://x/y"), ArtPlan::UseDefault));
    assert!(matches!(art_plan(true, true, "/c", "spotify:image:abc"), ArtPlan::UseDefault));
}

#[test]
fn paths_expand_their_variables() {
    assert_eq!(
        expand("$XDG_RUNTIME_DIR/mpris-bridge/state.json", "/h", "/h/.config", "/h/.cache", "/run/user/7"),
        "/run/user/7/mpris-bridge/state.json",
    );
    assert_eq!(expand("$HOME/.config/eww/image.jpg", "/home/u", "", "", ""), "/home/u/.config/eww/image.jpg");
    assert_eq!(runtime_dir_fallback(1000), "/run/user/1000");
    assert_eq!(socket_path("/run/user/7"), "/run/user/7/mpris-bridge/mpris-bridge.sock");
    assert_eq!(state_path("/run/user/7"), "/run/user/7/mpris-bridge/state.json");
    assert_eq!(events_path("/run/user/7"), "/run/user/7/mpris-bridge/events.jsonl");
    assert_eq!(snapshot_tmp_path("/r/state.json"), "/r/state.json.tmp");
}

#[test]
fn cli_falls_back_to_the_snapshot_name() {
    let snapshot = to_json(&UiState::empty_with_name("/d.png", "spotify"));
    let target = resolve_player(None, snapshot_name(&snapshot));
    assert_eq!(target, some("spotify"));
    assert_eq!(fallback_args(&ControlVerb::PlayPause, "0"), vec!["play-pause"]);
    let explicit = resolve_player(some("vlc"), snapshot_name(&snapshot));
    assert_eq!(explicit, some("vlc"));
}

#[test]
fn cli_payloads_match_the_wire_shape() {
    assert_eq!(
        control_payload(&ControlVerb::PlayPause, &None, "0"),
        "{\"cmd\":\"play-pause\",\"player\":null}",
    );
    assert_eq!(
        control_payload(&ControlVerb::Seek, &some("vlc"), &normalize_number(Some("-3.4"))),
        "{\"cmd\":\"seek\",\"offset\":-3.4,\"player\":\"vlc\"}",
    );
    assert_eq!(normalize_number(Some("abc")), "0");
    assert_eq!(normalize_number(None), "0");
}

#[test]
fn cli_fallback_arguments_round_like_the_daemon() {
    assert_eq!(fallback_args(&ControlVerb::Seek, "-3.4"), vec!["position", "3-"]);
    assert_eq!(fallback_args(&ControlVerb::Seek, "2.6"), vec!["position", "3+"]);
    assert_eq!(fallback_args(&ControlVerb::SetPosition, "12.5"), vec!["position", "13"]);
    assert_eq!(fallback_args(&ControlVerb::SetPosition, "-2.4"), vec!["position", "-2"]);
    assert_eq!(fallback_args(&ControlVerb::Next, "0"), vec!["next"]);
}

#[test]
fn watch_labels_render_from_records() {
    let line = "{\"artist\":\"Band\",\"title\":\"Song\"}";
    assert_eq!(render_label(line, None, None, false), some("Band - Song"));
    assert_eq!(
        render_label(line, Some("{title} by {artist}"), None, false),
        some("Song by Band"),
    );
    assert_eq!(render_label("{\"title\":\"Solo\"}", None, None, false), some("Solo"));
    assert_eq!(render_label("garbage", None, None, false), None);
}

#[test]
fn watch_labels_truncate_and_escape() {
    assert_eq!(format_label("Band", "Song", None, Some(6)), "Band …");
    assert_eq!(format_label("", "", None, None), "");
    let line = "{\"artist\":\"R&B\",\"title\":\"<3\"}";
    assert_eq!(render_label(line, None, None, true), some("R&amp;B - &lt;3"));
}

#[test]
fn control_characters_are_escaped_and_decoded() {
    let mut st = UiState::empty("/d.png");
    st.title = "a\u{1}b\tc".to_string();
    let json = to_json(&st);
    assert!(json.contains("\"title\":\"a\\u0001b\\tc\""));
    let obj = parse_flat_obj(&json).unwrap();
    assert_eq!(get_string(&obj, "title"), some("a\u{1}b\tc"));
}

#[test]
fn raw_control_characters_are_rejected_on_the_wire() {
    // an unescaped control character inside a JSON string is not accepted
    let (resp, inv) = handle_ipc_line("{\"cmd\":\"play-\u{1}pause\"}", &some("p"));
    assert_eq!(resp, "{\"ok\":false}\n");
    assert!(inv.is_none());
}
