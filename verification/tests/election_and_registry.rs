//! The election scenarios, the filter, the registry and the listener
//! decisions.

use mpris_bridge::config::{Selection, Fallback, default_priority, dtrue, fallback_any, d5000, d120usize, default_level};
use mpris_bridge::election::{recompute_selected, player_filter_match, map_class_to_hint};
use mpris_bridge::registry::Registry;
use mpris_bridge::listener::{classify_signal, Debounce, Backoff, SEED_DEBOUNCE_MS, dbus_match_rules, SignalKind};

fn sel_with(priority: Vec<&str>) -> Selection {
    Selection {
        priority: priority.into_iter().map(|s| s.to_string()).collect(),
        remember_last: true,
        fallback: Fallback::Any,
        allow: Vec::new(),
        exclude: Vec::new(),
    }
}

fn v(xs: &[&str]) -> Vec<String> {
    xs.iter().map(|s| s.to_string()).collect()
}

fn sts(xs: &[(&str, &str)]) -> Vec<(String, String)> {
    xs.iter().map(|(a, b)| (a.to_string(), b.to_string())).collect()
}

#[test]
fn defaults_match_the_documented_table() {
    assert_eq!(default_priority(), vec!["firefox", "spotify", "vlc", "mpv"]);
    assert!(dtrue());
    assert_eq!(fallback_any(), Fallback::Any);
    assert_eq!(d5000(), 5000);
    assert_eq!(d120usize(), 120);
    assert_eq!(default_level(), "warn");
    let s = Selection::default();
    assert!(s.remember_last);
    assert_eq!(s.fallback, Fallback::Any);
    assert!(s.allow.is_empty());
    assert!(s.exclude.is_empty());
}

#[test]
fn single_playing_spotify_is_selected() {
    let sel = sel_with(vec!["firefox", "spotify"]);
    let r = recompute_selected(
        &v(&["spotify"]),
        &sts(&[("spotify", "Playing")]),
        &None,
        &None,
        &sel,
    );
    assert_eq!(r, Some("spotify".to_string()));
}

#[test]
fn focus_hint_outside_playing_set_is_ignored() {
    let sel = sel_with(vec!["firefox", "spotify"]);
    let r = recompute_selected(
        &v(&["firefox", "spotify"]),
        &sts(&[("firefox", "Paused"), ("spotify", "Playing")]),
        &Some("firefox".to_string()),
        &None,
        &sel,
    );
    assert_eq!(r, Some("spotify".to_string()));
}

#[test]
fn remembered_selection_beats_focus_among_paused() {
    let sel = sel_with(vec!["firefox", "spotify"]);
    let r = recompute_selected(
        &v(&["firefox", "spotify"]),
        &sts(&[("firefox", "Paused"), ("spotify", "Paused")]),
        &Some("firefox".to_string()),
        &Some("firefox".to_string()),
        &sel,
    );
    assert_eq!(r, Some("firefox".to_string()));
}

#[test]
fn focus_hint_picks_the_playing_match() {
    let sel = sel_with(vec!["spotify", "firefox"]);
    let r = recompute_selected(
        &v(&["firefox.instance_1", "spotify"]),
        &sts(&[("firefox.instance_1", "Playing"), ("spotify", "Playing")]),
        &Some("firefox".to_string()),
        &None,
        &sel,
    );
    assert_eq!(r, Some("firefox.instance_1".to_string()));
}

#[test]
fn excluded_player_is_never_selected() {
    let mut sel = sel_with(vec!["firefox", "spotify"]);
    sel.exclude = v(&["spotify"]);
    let r = recompute_selected(
        &v(&["spotify"]),
        &sts(&[("spotify", "Playing")]),
        &None,
        &None,
        &sel,
    );
    assert_eq!(r, None);
}

#[test]
fn allow_list_filters_everyone_else() {
    assert!(player_filter_match("spotify", &v(&[]), &v(&[])));
    assert!(player_filter_match("spotify", &v(&["spotify"]), &v(&[])));
    assert!(!player_filter_match("vlc", &v(&["spotify"]), &v(&[])));
    assert!(!player_filter_match("spotify.x", &v(&[]), &v(&["spotify"])));
}

#[test]
fn no_candidates_selects_nobody() {
    let sel = sel_with(vec!["firefox"]);
    let r = recompute_selected(&v(&[]), &sts(&[]), &None, &None, &sel);
    assert_eq!(r, None);
}

#[test]
fn fallback_nothing_refuses_idle_players() {
    let mut sel = sel_with(vec![]);
    sel.fallback = Fallback::Nothing;
    sel.remember_last = false;
    let r = recompute_selected(&v(&["mpd"]), &sts(&[]), &None, &None, &sel);
    assert_eq!(r, None);
    sel.fallback = Fallback::Any;
    let r2 = recompute_selected(&v(&["mpd"]), &sts(&[]), &None, &None, &sel);
    assert_eq!(r2, Some("mpd".to_string()));
}

#[test]
fn election_is_deterministic_across_calls() {
    let sel = sel_with(vec!["firefox", "spotify"]);
    let players = v(&["firefox", "spotify", "vlc"]);
    let statuses = sts(&[("vlc", "Paused"), ("spotify", "Playing")]);
    let a = recompute_selected(&players, &statuses, &None, &None, &sel);
    let b = recompute_selected(&players, &statuses, &None, &None, &sel);
    assert_eq!(a, b);
}

#[test]
fn registry_seed_filters_and_deduplicates() {
    let mut reg = Registry::new();
    let mut sel = sel_with(vec![]);
    sel.exclude = v(&["kdeconnect"]);
    reg.seed_players(&v(&["spotify", "spotify", "", "kdeconnect.sms", "vlc"]), &sel);
    assert_eq!(reg.players, vec!["spotify", "vlc"]);
}

#[test]
fn registry_status_upsert_updates_first_match_and_appends_new() {
    let mut reg = Registry::new();
    reg.set_status("spotify", "Paused");
    reg.set_status("vlc", "Playing");
    reg.set_status("spotify", "Playing");
    assert_eq!(
        reg.statuses,
        vec![
            ("spotify".to_string(), "Playing".to_string()),
            ("vlc".to_string(), "Playing".to_string()),
        ],
    );
}

#[test]
fn registry_selection_change_detection_and_memory() {
    let mut reg = Registry::new();
    assert!(reg.set_selected(Some("spotify".to_string())));
    assert!(!reg.set_selected(Some("spotify".to_string())));
    assert!(reg.set_selected(None));
    assert_eq!(reg.selected, None);
    assert_eq!(reg.last_selected, Some("spotify".to_string()));
}

#[test]
fn window_classes_map_to_family_hints() {
    assert_eq!(map_class_to_hint("firefox"), Some("firefox".to_string()));
    assert_eq!(map_class_to_hint("Spotify"), Some("spotify".to_string()));
    assert_eq!(map_class_to_hint("VLC media player"), Some("vlc".to_string()));
    assert_eq!(map_class_to_hint("mpv"), Some("mpv".to_string()));
    assert_eq!(map_class_to_hint("kitty"), None);
}

#[test]
fn signals_classify_by_interface_member_and_path() {
    let r = classify_signal(
        &Some("org.freedesktop.DBus".to_string()),
        &Some("NameOwnerChanged".to_string()),
        &None,
    );
    assert_eq!(r, SignalKind::Seed);
    let r = classify_signal(
        &Some("org.freedesktop.DBus.Properties".to_string()),
        &Some("PropertiesChanged".to_string()),
        &Some("/org/mpris/MediaPlayer2".to_string()),
    );
    assert_eq!(r, SignalKind::Refresh);
    let r = classify_signal(
        &Some("org.freedesktop.DBus.Properties".to_string()),
        &Some("PropertiesChanged".to_string()),
        &Some("/somewhere/else".to_string()),
    );
    assert_eq!(r, SignalKind::Ignore);
    assert_eq!(classify_signal(&None, &None, &None), SignalKind::Ignore);
}

#[test]
fn debounce_admits_first_then_respects_threshold() {
    let mut d = Debounce::new();
    assert!(d.accept(1000, SEED_DEBOUNCE_MS));
    assert!(!d.accept(1100, SEED_DEBOUNCE_MS));
    assert!(!d.accept(1299, SEED_DEBOUNCE_MS));
    assert!(d.accept(1300, SEED_DEBOUNCE_MS));
    assert!(!d.accept(1301, SEED_DEBOUNCE_MS));
}

#[test]
fn backoff_doubles_and_caps_at_six_seconds() {
    let mut b = Backoff::new();
    assert_eq!(b.on_error(), 200);
    assert_eq!(b.on_error(), 400);
    assert_eq!(b.on_error(), 800);
    assert_eq!(b.on_error(), 1600);
    assert_eq!(b.on_error(), 3200);
    assert_eq!(b.on_error(), 6000);
    assert_eq!(b.on_error(), 6000);
    assert_eq!(b.on_success(), 500);
    assert_eq!(b.on_error(), 200);
}

#[test]
fn the_match_rules_are_narrow() {
    let rules = dbus_match_rules();
    assert_eq!(rules.len(), 3);
    assert!(rules[0].contains("arg0namespace='org.mpris.MediaPlayer2'"));
    assert!(rules[1].contains("path='/org/mpris/MediaPlayer2'"));
    assert!(rules[2].contains("arg0='org.mpris.MediaPlayer2'"));
}
