use hotspot_core::config::Config;
use hotspot_core::coordinator::{Coordinator, ToggleAction};
use hotspot_core::jsonio::{
    config_from_text, encode_config, encode_json_string, parse_config, parse_json_string,
};
use hotspot_core::reducer::{AppletState, HotspotEvent};
use hotspot_core::strutil::u64_to_string;

fn sample_config() -> Config {
    Config {
        hotspot_interface: "wlan1".to_string(),
        internet_interface: "eth0".to_string(),
        connection_name: "TestSpot".to_string(),
        ssid: "My Net".to_string(),
        password: "p4ssw0rd!".to_string(),
        band: "a".to_string(),
        gateway_ip: "10.0.0.1/24".to_string(),
    }
}

#[test]
fn default_config_values() {
    let c = Config::default();
    assert_eq!(c.hotspot_interface, "wlp104s0f0u1u1");
    assert_eq!(c.internet_interface, "wlp99s0");
    assert_eq!(c.connection_name, "MyHotspot");
    assert_eq!(c.ssid, "The_Metaverse");
    assert_eq!(c.password, "6ddf9f9ce4");
    assert_eq!(c.band, "bg");
    assert_eq!(c.gateway_ip, "192.168.44.1/24");
}

#[test]
fn config_clone_is_field_for_field() {
    let c = sample_config();
    let d = c.clone();
    assert_eq!(c.hotspot_interface, d.hotspot_interface);
    assert_eq!(c.ssid, d.ssid);
    assert_eq!(c.gateway_ip, d.gateway_ip);
}

#[test]
fn config_round_trip_plain() {
    let c = sample_config();
    let text = encode_config(&c);
    let back = parse_config(&text).expect("canonical text must parse");
    assert_eq!(back.hotspot_interface, c.hotspot_interface);
    assert_eq!(back.internet_interface, c.internet_interface);
    assert_eq!(back.connection_name, c.connection_name);
    assert_eq!(back.ssid, c.ssid);
    assert_eq!(back.password, c.password);
    assert_eq!(back.band, c.band);
    assert_eq!(back.gateway_ip, c.gateway_ip);
}

#[test]
fn config_round_trip_exotic_strings() {
    let mut c = sample_config();
    c.ssid = "quote\" back\\slash \u{20ac} \u{1f600}".to_string();
    c.password = "line\nbreak\ttab\rreturn \u{8}\u{c}\u{1}".to_string();
    c.connection_name = String::new();
    let text = encode_config(&c);
    let back = parse_config(&text).expect("escaped text must parse");
    assert_eq!(back.ssid, c.ssid);
    assert_eq!(back.password, c.password);
    assert_eq!(back.connection_name, c.connection_name);
}

#[test]
fn encoded_config_is_valid_json_for_serde() {
    let c = sample_config();
    let text = encode_config(&c);
    let v: serde_json::Value = serde_json::from_str(&text).expect("well-formed JSON");
    assert_eq!(v["hotspot_interface"], serde_json::Value::String("wlan1".to_string()));
    assert_eq!(v["ssid"], serde_json::Value::String("My Net".to_string()));
    assert_eq!(v["band"], serde_json::Value::String("a".to_string()));
}

#[test]
fn parses_pretty_printed_file_format() {
    let text = "{\n  \"hotspot_interface\": \"wlan9\",\n  \"internet_interface\": \"eth1\",\n  \"connection_name\": \"Spot\",\n  \"ssid\": \"Net\",\n  \"password\": \"pw\",\n  \"band\": \"bg\",\n  \"gateway_ip\": \"192.168.1.1/24\"\n}\n";
    let c = parse_config(text).expect("pretty format must parse");
    assert_eq!(c.hotspot_interface, "wlan9");
    assert_eq!(c.band, "bg");
    assert_eq!(c.gateway_ip, "192.168.1.1/24");
}

#[test]
fn unparsable_or_missing_config_falls_back_to_defaults() {
    let d = Config::default();
    let c1 = config_from_text(None);
    assert_eq!(c1.ssid, d.ssid);
    let c2 = config_from_text(Some("not json at all"));
    assert_eq!(c2.ssid, d.ssid);
    let c3 = config_from_text(Some("{\"wrong\":\"keys\"}"));
    assert_eq!(c3.ssid, d.ssid);
}

#[test]
fn json_string_literal_parse_and_escapes() {
    assert_eq!(parse_json_string("\"abc\"").ok().as_deref(), Some("abc"));
    assert_eq!(parse_json_string("  \"a b\"  ").ok().as_deref(), Some("a b"));
    assert_eq!(parse_json_string("\"q\\\"w\\\\e\\/r\\n\\t\\r\\b\\f\"").ok().as_deref(),
        Some("q\"w\\e/r\n\t\r\u{8}\u{c}"));
    assert_eq!(parse_json_string("\"\\u0041\\u00e9\\u20ac\"").ok().as_deref(), Some("A\u{e9}\u{20ac}"));
    assert_eq!(parse_json_string("plain").unwrap_err(), "expected a string literal");
    assert_eq!(parse_json_string("").unwrap_err(), "expected a string literal");
    assert_eq!(parse_json_string("\"unterminated").unwrap_err(), "malformed string literal");
    assert_eq!(parse_json_string("\"a\" trailing").unwrap_err(),
        "trailing characters after the string");
    assert_eq!(parse_json_string("\"bad\\escape\"").unwrap_err(), "malformed string literal");
    assert_eq!(parse_json_string("\"ctrl\u{1}char\"").unwrap_err(), "malformed string literal");
}

#[test]
fn json_string_surrogate_pairs() {
    // an escaped astral character arrives as a surrogate pair
    assert_eq!(parse_json_string("\"\\ud83d\\ude00\"").ok().as_deref(), Some("\u{1f600}"));
    assert_eq!(parse_json_string("\"a\\uD83D\\uDE00b\"").ok().as_deref(),
        Some("a\u{1f600}b"));
    // a lone or misordered surrogate is not a character
    assert_eq!(parse_json_string("\"\\ud83d\"").unwrap_err(), "malformed string literal");
    assert_eq!(parse_json_string("\"\\ude00\"").unwrap_err(), "malformed string literal");
    assert_eq!(parse_json_string("\"\\ud83d\\u0041\"").unwrap_err(),
        "malformed string literal");
}

#[test]
fn json_string_encode_matches_serde_decoding() {
    let input = "mix \" of \\ everything\n\t\u{8}\u{c}\u{3} plus \u{20ac}\u{1f600}";
    let lit = encode_json_string(input);
    let decoded: String = serde_json::from_str(&lit).expect("serde accepts our escapes");
    assert_eq!(decoded, input);
    let back = parse_json_string(&lit).expect("own parser accepts own escapes");
    assert_eq!(back, input);
}

#[test]
fn decimal_formatting() {
    assert_eq!(u64_to_string(0), "0");
    assert_eq!(u64_to_string(7), "7");
    assert_eq!(u64_to_string(10), "10");
    assert_eq!(u64_to_string(305), "305");
    assert_eq!(u64_to_string(18446744073709551615), "18446744073709551615");
}

#[test]
fn initial_state_texts() {
    let s = AppletState::init(false);
    assert_eq!(s.status_message, "Inactive");
    assert!(!s.hotspot_active);
    assert!(!s.is_toggling);
    assert_eq!(s.status_hold_ticks, 0);
    let t = AppletState::init(true);
    assert_eq!(t.status_message, "Active");
}

#[test]
fn toggle_started_shows_transitional_text() {
    let mut s = AppletState::init(false);
    s.apply_event(HotspotEvent::ToggleStarted { pre_active: false });
    assert!(s.is_toggling);
    assert_eq!(s.status_message, "Starting...");
    let mut t = AppletState::init(true);
    t.apply_event(HotspotEvent::ToggleStarted { pre_active: true });
    assert_eq!(t.status_message, "Stopping...");
}

#[test]
fn completion_sets_hold_counter_to_constant() {
    let mut s = AppletState::init(false);
    s.apply_event(HotspotEvent::ToggleComplete(Ok("done".to_string())));
    assert!(!s.is_toggling);
    assert_eq!(s.status_hold_ticks, 5);
    assert_eq!(s.status_message, "done");
    let mut t = AppletState::init(false);
    t.apply_event(HotspotEvent::ToggleComplete(Err("boom".to_string())));
    assert_eq!(t.status_message, "Error: boom");
    assert_eq!(t.status_hold_ticks, 5);
}

#[test]
fn five_polls_preserve_message_sixth_overwrites() {
    let mut s = AppletState::init(false);
    s.apply_event(HotspotEvent::ToggleComplete(Ok("kept text".to_string())));
    for tick in 0..5u8 {
        s.apply_event(HotspotEvent::StatusUpdate { active: true, clients: vec![] });
        assert_eq!(s.status_message, "kept text", "poll {tick} must not overwrite");
        assert_eq!(s.status_hold_ticks, 4 - tick);
    }
    s.apply_event(HotspotEvent::StatusUpdate { active: true, clients: vec![] });
    assert_eq!(s.status_message, "Active");
    s.apply_event(HotspotEvent::StatusUpdate { active: false, clients: vec![] });
    assert_eq!(s.status_message, "Inactive");
}

#[test]
fn polls_replace_clients_wholesale() {
    let mut s = AppletState::init(true);
    s.apply_event(HotspotEvent::StatusUpdate {
        active: true,
        clients: vec!["10.0.0.2".to_string(), "10.0.0.3".to_string()],
    });
    assert_eq!(s.connected_clients, vec!["10.0.0.2".to_string(), "10.0.0.3".to_string()]);
    s.apply_event(HotspotEvent::StatusUpdate { active: true, clients: vec!["10.0.0.9".to_string()] });
    assert_eq!(s.connected_clients, vec!["10.0.0.9".to_string()]);
}

#[test]
fn polls_do_not_overwrite_while_toggling() {
    let mut s = AppletState::init(false);
    s.on_toggle_pressed();
    assert_eq!(s.status_message, "Starting...");
    s.apply_event(HotspotEvent::StatusUpdate { active: false, clients: vec![] });
    assert_eq!(s.status_message, "Starting...");
}

#[test]
fn batched_events_apply_in_order() {
    let mut s = AppletState::init(false);
    s.apply_events(vec![
        HotspotEvent::ToggleStarted { pre_active: false },
        HotspotEvent::ToggleComplete(Ok("up".to_string())),
        HotspotEvent::StatusUpdate { active: true, clients: vec!["c".to_string()] },
    ]);
    assert!(!s.is_toggling);
    assert!(s.hotspot_active);
    assert_eq!(s.status_message, "up");
    assert_eq!(s.status_hold_ticks, 4);
    assert_eq!(s.connected_clients, vec!["c".to_string()]);
}

#[test]
fn animation_advances_only_while_active() {
    let mut s = AppletState::init(false);
    s.on_animation_tick();
    assert_eq!(s.anim_frame, 0);
    s.hotspot_active = true;
    for _ in 0..11 {
        s.on_animation_tick();
    }
    assert_eq!(s.anim_frame, 11);
    s.on_animation_tick();
    assert_eq!(s.anim_frame, 0);
}

#[test]
fn every_accepted_command_completes_exactly_once() {
    let mut c = Coordinator::new();
    // three commands arrive, two of them while the first is still queued
    c.command_received();
    c.command_received();
    c.command_received();
    let mut completions = 0;
    let mut cycles = 0;
    loop {
        let took = c.begin_service();
        if took {
            c.complete();
            completions += 1;
        } else {
            break;
        }
        cycles += 1;
        assert!(cycles <= 10, "queue must drain");
    }
    assert_eq!(completions, 3, "no drops, no duplicates");
    // once drained, further cycles accept nothing
    assert!(!c.begin_service());
}

#[test]
fn toggle_action_follows_observed_state() {
    assert!(matches!(Coordinator::choose_action(false), ToggleAction::Start));
    assert!(matches!(Coordinator::choose_action(true), ToggleAction::Stop));
}
