use hotspot_core::adapter::{
    activate_profile_args, active_query_args, create_profile_args, delete_profile_args,
    deactivate_profile_args, get_connected_clients, is_hotspot_active, list_network_interfaces,
    list_wifi_interfaces, nat_helper_args, neighbor_query_args, network_device_args,
    parse_arp_clients, parse_neighbor_clients, start_after_activate, start_after_create,
    stop_hotspot_message, wifi_device_args, CmdResult,
};
use hotspot_core::config::Config;
use hotspot_core::reducer::{AppletState, HotspotEvent};
use hotspot_core::ripple::ripple_svg;
use hotspot_core::settings::{
    action, describe, parse_string, reset_response, response_json, set_response, ActionPlan,
    Response,
};
use hotspot_core::settings_page::{
    init, interfaces_refreshed, reset_save_finished, save_finished, update, Message, PageEffect,
};

fn sample_config() -> Config {
    Config {
        hotspot_interface: "wlan1".to_string(),
        internet_interface: "eth0".to_string(),
        connection_name: "TestSpot".to_string(),
        ssid: "My Net".to_string(),
        password: "p4ssw0rd!".to_string(),
        band: "a".to_string(),
        gateway_ip: "10.0.0.1/24".to_string(),
    }
}

fn ok_cmd() -> CmdResult {
    CmdResult {
        launched: true,
        launch_error: String::new(),
        success: true,
        stderr: String::new(),
    }
}

// ---------------------------------------------------------------- adapter

#[test]
fn query_active_failure_is_false_not_error() {
    assert!(!is_hotspot_active(None));
    assert!(!is_hotspot_active(Some("")));
    assert!(!is_hotspot_active(Some("GENERAL.STATE:activating\n")));
    assert!(is_hotspot_active(Some("GENERAL.STATE:activated\n")));
}

#[test]
fn neighbor_lines_filtered_and_first_token_kept() {
    let out = "192.168.44.2 lladdr aa:bb:cc:dd:ee:ff REACHABLE\n\
               192.168.44.3 lladdr 11:22:33:44:55:66 FAILED\n\
               short line\n\
               192.168.44.4 lladdr 77:88:99:aa:bb:cc STALE extra\n";
    let clients = parse_neighbor_clients(out);
    assert_eq!(clients, vec!["192.168.44.2".to_string(), "192.168.44.4".to_string()]);
}

#[test]
fn arp_table_skips_header_and_filters() {
    let arp = "IP address       HW type     Flags       HW address            Mask     Device\n\
               192.168.44.2     0x1         0x2         aa:bb:cc:dd:ee:ff     *        wlan1\n\
               192.168.44.3     0x1         0x0         00:00:00:00:00:00     *        wlan1\n\
               10.0.0.7         0x1         0x2         11:22:33:44:55:66     *        eth0\n";
    let clients = parse_arp_clients(arp, "wlan1");
    assert_eq!(clients, vec!["192.168.44.2".to_string()]);
}

#[test]
fn client_enumeration_falls_back_to_arp_only_when_primary_empty() {
    let neigh = "192.168.44.2 lladdr aa:bb:cc:dd:ee:ff REACHABLE\n";
    let arp = "header\n192.168.44.9 0x1 0x2 aa:bb:cc:dd:ee:ff * wlan1\n";
    let both = get_connected_clients(Some(neigh), Some(arp), "wlan1");
    assert_eq!(both, vec!["192.168.44.2".to_string()]);
    let fallback = get_connected_clients(Some(""), Some(arp), "wlan1");
    assert_eq!(fallback, vec!["192.168.44.9".to_string()]);
    let nothing = get_connected_clients(None, None, "wlan1");
    assert!(nothing.is_empty());
}

#[test]
fn device_lists_by_type() {
    let out = "wlan0:wifi\nwlan1:wifi\neth0:ethernet\nlo:loopback\nbr0:bridge\nbad\n";
    assert_eq!(list_wifi_interfaces(Some(out)), vec!["wlan0".to_string(), "wlan1".to_string()]);
    assert_eq!(
        list_network_interfaces(Some(out)),
        vec!["wlan0".to_string(), "wlan1".to_string(), "eth0".to_string()]
    );
    assert!(list_wifi_interfaces(None).is_empty());
    assert!(list_network_interfaces(None).is_empty());
}

#[test]
fn command_argument_lists() {
    let c = sample_config();
    assert_eq!(delete_profile_args(&c), vec!["connection", "delete", "TestSpot"]);
    assert_eq!(activate_profile_args(&c), vec!["connection", "up", "TestSpot"]);
    assert_eq!(deactivate_profile_args(&c), vec!["connection", "down", "TestSpot"]);
    assert_eq!(
        active_query_args(&c),
        vec!["-t", "-f", "GENERAL.STATE", "connection", "show", "TestSpot"]
    );
    assert_eq!(neighbor_query_args(&c), vec!["neigh", "show", "dev", "wlan1"]);
    assert_eq!(wifi_device_args(), vec!["-t", "-f", "DEVICE,TYPE", "device"]);
    assert_eq!(network_device_args(), vec!["-t", "-f", "DEVICE,TYPE,STATE", "device"]);
    assert_eq!(
        nat_helper_args(&c),
        vec!["/usr/local/bin/cosmic-hotspot-nat", "wlan1", "eth0"]
    );
    let create = create_profile_args(&c);
    assert_eq!(create.len(), 31);
    assert_eq!(&create[0..6], &["connection", "add", "type", "wifi", "ifname", "wlan1"]);
    assert_eq!(&create[6..10], &["con-name", "TestSpot", "ssid", "My Net"]);
    assert_eq!(create[14], "a");
    assert_eq!(create[24], "p4ssw0rd!");
    assert_eq!(create[28], "10.0.0.1/24");
    assert_eq!(&create[29..31], &["ipv6.method", "disabled"]);
}

#[test]
fn start_outcome_messages() {
    let c = sample_config();
    let failed_launch = CmdResult {
        launched: false,
        launch_error: "No such file or directory".to_string(),
        success: false,
        stderr: String::new(),
    };
    let failed_exit = CmdResult {
        launched: true,
        launch_error: String::new(),
        success: false,
        stderr: "802-11-wireless: property invalid".to_string(),
    };
    assert_eq!(
        start_after_create(&failed_launch).unwrap_err(),
        "Failed to run nmcli: No such file or directory"
    );
    assert_eq!(
        start_after_create(&failed_exit).unwrap_err(),
        "Failed to create hotspot: 802-11-wireless: property invalid"
    );
    assert!(start_after_create(&ok_cmd()).is_ok());
    assert_eq!(
        start_after_activate(&c, &failed_exit).unwrap_err(),
        "Failed to activate hotspot: 802-11-wireless: property invalid"
    );
    let msg = start_after_activate(&c, &ok_cmd()).unwrap();
    assert_eq!(msg, "Hotspot 'My Net' active on wlan1");
    assert!(msg.contains(&c.ssid));
    assert_eq!(stop_hotspot_message(), "Hotspot stopped");
}

#[test]
fn toggle_scenario_from_inactive_to_active() {
    let c = sample_config();
    let mut s = AppletState::init(false);
    // the user toggles: transitional text from the pre-toggle state
    s.on_toggle_pressed();
    assert!(s.is_toggling);
    assert_eq!(s.status_message, "Starting...");
    // the loop emits the started event carrying the same pre-state
    s.apply_event(HotspotEvent::ToggleStarted { pre_active: false });
    assert_eq!(s.status_message, "Starting...");
    // the adapter start succeeds; the completion names the SSID
    let result = start_after_activate(&c, &ok_cmd());
    let text = result.clone().unwrap();
    assert!(text.contains("My Net"));
    s.apply_event(HotspotEvent::ToggleComplete(result.map_err(|e| e)));
    assert!(!s.is_toggling);
    assert!(s.status_message.contains("My Net"));
    // lifecycle transitions to active on the next poll
    s.apply_event(HotspotEvent::StatusUpdate { active: true, clients: vec![] });
    assert!(s.hotspot_active);
}

// ---------------------------------------------------------------- settings

#[test]
fn invalid_band_is_rejected_and_config_untouched() {
    let c = sample_config();
    let r = hotspot_core::settings::set(&c, "band", "\"x\"");
    assert_eq!(r.unwrap_err(), "Invalid band: must be 'bg' or 'a'");
    // the caller persists only a returned record, so the stored one is unchanged
    assert_eq!(c.band, "a");
    let resp = Response { ok: false, message: "Invalid band: must be 'bg' or 'a'".to_string() };
    let printed = response_json(&resp);
    assert_eq!(printed, "{\"ok\":false,\"message\":\"Invalid band: must be 'bg' or 'a'\"}");
}

#[test]
fn valid_set_updates_exactly_one_field() {
    let c = sample_config();
    let (c2, msg) = hotspot_core::settings::set(&c, "band", "\"bg\"").unwrap();
    assert_eq!(msg, "Updated band");
    assert_eq!(c2.band, "bg");
    assert_eq!(c2.ssid, c.ssid);
    assert_eq!(c2.password, c.password);
    let (c3, msg3) = hotspot_core::settings::set(&c, "ssid", "\"New Name\"").unwrap();
    assert_eq!(msg3, "Updated SSID");
    assert_eq!(c3.ssid, "New Name");
    assert_eq!(c3.band, "a");
}

#[test]
fn set_error_cases() {
    let c = sample_config();
    assert_eq!(hotspot_core::settings::set(&c, "bogus", "\"v\"").unwrap_err(), "Unknown key: bogus");
    let e = hotspot_core::settings::set(&c, "ssid", "not a json string").unwrap_err();
    assert_eq!(e, "Invalid string: expected a string literal");
    assert!(e.starts_with("Invalid string: "));
    assert_eq!(parse_string("\"fine\"").unwrap(), "fine");
    assert_eq!(parse_string("42").unwrap_err(), "Invalid string: expected a string literal");
    assert_eq!(
        parse_string("\"unclosed").unwrap_err(),
        "Invalid string: malformed string literal"
    );
}

#[test]
fn set_response_composition() {
    let ok = set_response("Updated band", &Ok(()), &None);
    assert!(ok.ok);
    assert_eq!(ok.message, "Updated band");
    let restarted = set_response("Updated band", &Ok(()), &Some(Ok("up".to_string())));
    assert!(restarted.ok);
    assert_eq!(restarted.message, "Updated band");
    let failed_restart =
        set_response("Updated band", &Ok(()), &Some(Err("no device".to_string())));
    assert!(!failed_restart.ok);
    assert_eq!(failed_restart.message, "Updated band (restart failed: no device)");
    let failed_save = set_response("Updated band", &Err("disk full".to_string()), &None);
    assert!(!failed_save.ok);
    assert_eq!(failed_save.message, "Save failed: disk full");
}

#[test]
fn actions_dispatch() {
    match action("save") {
        ActionPlan::Respond(r) => {
            assert!(r.ok);
            assert_eq!(r.message, "Configuration saved");
        },
        _ => panic!("save must respond directly"),
    }
    assert!(matches!(action("reset"), ActionPlan::ResetToDefaults));
    match action("refresh_interfaces") {
        ActionPlan::Respond(r) => assert_eq!(r.message, "Interfaces refreshed"),
        _ => panic!("refresh must respond directly"),
    }
    match action("explode") {
        ActionPlan::Respond(r) => {
            assert!(!r.ok);
            assert_eq!(r.message, "Unknown action: explode");
        },
        _ => panic!("unknown ids must respond directly"),
    }
    let rr = reset_response(&Ok(()));
    assert!(rr.ok);
    assert_eq!(rr.message, "Reset to defaults");
    let rf = reset_response(&Err("denied".to_string()));
    assert_eq!(rf.message, "Reset failed: denied");
}

#[test]
fn response_json_is_valid_and_escaped() {
    let r = Response { ok: true, message: "say \"hi\"\n".to_string() };
    let printed = response_json(&r);
    let v: serde_json::Value = serde_json::from_str(&printed).expect("well-formed");
    assert_eq!(v["ok"], serde_json::Value::Bool(true));
    assert_eq!(v["message"], serde_json::Value::String("say \"hi\"\n".to_string()));
}

#[test]
fn describe_emits_schema_with_values_and_choices() {
    let c = sample_config();
    let wifi = vec!["wlan0".to_string(), "wlan1".to_string()];
    let net = vec!["wlan0".to_string(), "eth0".to_string()];
    let schema = describe(&c, &wifi, &net);
    let v: serde_json::Value = serde_json::from_str(&schema).expect("well-formed schema");
    assert_eq!(v["title"], serde_json::Value::String("WiFi Hotspot Settings".to_string()));
    let sections = v["sections"].as_array().expect("sections");
    assert_eq!(sections.len(), 3);
    assert_eq!(sections[0]["items"][0]["key"], "ssid");
    assert_eq!(sections[0]["items"][0]["value"], "My Net");
    assert_eq!(sections[0]["items"][2]["options"][0]["value"], "bg");
    let hotspot_opts = sections[1]["items"][0]["options"].as_array().expect("options");
    assert_eq!(hotspot_opts.len(), 2);
    assert_eq!(hotspot_opts[1]["value"], "wlan1");
    assert_eq!(sections[2]["items"][1]["key"], "gateway_ip");
    let actions = v["actions"].as_array().expect("actions");
    assert_eq!(actions[0]["id"], "reset");
    assert_eq!(actions[1]["id"], "refresh_interfaces");
}

// ---------------------------------------------------------------- page

#[test]
fn page_init_selects_current_choices() {
    let c = sample_config();
    let wifi = vec!["wlan0".to_string(), "wlan1".to_string()];
    let net = vec!["eth0".to_string()];
    let s = init(c, wifi, net);
    assert_eq!(s.selected_band_idx, 1);
    assert_eq!(s.selected_hotspot_idx, Some(1));
    assert_eq!(s.selected_internet_idx, Some(0));
    assert_eq!(s.status_message, "");
}

#[test]
fn page_init_with_absent_interface_has_no_selection() {
    let mut c = sample_config();
    c.hotspot_interface = "gone0".to_string();
    c.band = "weird".to_string();
    let s = init(c, vec!["wlan0".to_string()], vec![]);
    assert_eq!(s.selected_hotspot_idx, None);
    assert_eq!(s.selected_internet_idx, None);
    assert_eq!(s.selected_band_idx, 0);
}

#[test]
fn page_edits_mark_unsaved_and_update_config() {
    let s0 = init(sample_config(), vec!["wlan0".to_string()], vec!["eth0".to_string()]);
    let mut s = s0;
    let eff = update(&mut s, Message::SsidChanged("Renamed".to_string()));
    assert!(matches!(eff, PageEffect::Nothing));
    assert_eq!(s.config.ssid, "Renamed");
    assert_eq!(s.status_message, "Unsaved changes");
    let eff = update(&mut s, Message::BandSelected(0));
    assert!(matches!(eff, PageEffect::Nothing));
    assert_eq!(s.config.band, "bg");
    assert_eq!(s.selected_band_idx, 0);
    // out-of-range selections are ignored
    let eff = update(&mut s, Message::HotspotInterfaceSelected(9));
    assert!(matches!(eff, PageEffect::Nothing));
    assert_eq!(s.config.hotspot_interface, "wlan1");
    let eff = update(&mut s, Message::HotspotInterfaceSelected(0));
    assert!(matches!(eff, PageEffect::Nothing));
    assert_eq!(s.config.hotspot_interface, "wlan0");
    assert_eq!(s.selected_hotspot_idx, Some(0));
}

#[test]
fn page_save_reset_refresh_effects() {
    let mut s = init(sample_config(), vec!["wlan0".to_string()], vec!["eth0".to_string()]);
    assert!(matches!(update(&mut s, Message::Save), PageEffect::Persist));
    save_finished(&mut s, &Ok(()));
    assert_eq!(s.status_message, "Settings saved");
    save_finished(&mut s, &Err("nope".to_string()));
    assert_eq!(s.status_message, "Error: nope");
    assert!(matches!(update(&mut s, Message::ResetDefaults), PageEffect::PersistReset));
    assert_eq!(s.config.ssid, "The_Metaverse");
    assert_eq!(s.selected_band_idx, 0);
    reset_save_finished(&mut s, &Ok(()));
    assert_eq!(s.status_message, "Reset to defaults and saved");
    assert!(matches!(update(&mut s, Message::RefreshInterfaces), PageEffect::Refresh));
    interfaces_refreshed(
        &mut s,
        vec!["wlan0".to_string(), "wlan7".to_string()],
        vec!["wlan0".to_string(), "wlan7".to_string(), "eth0".to_string()],
    );
    assert_eq!(s.status_message, "Found 2 WiFi, 3 network interfaces");
    assert_eq!(s.wifi_interfaces.len(), 2);
    assert_eq!(s.selected_internet_idx, None);
}

// ---------------------------------------------------------------- ripple

#[test]
fn ripple_frame_zero_exact_svg() {
    let svg = ripple_svg(0);
    assert_eq!(
        svg,
        "<svg width=\"16\" height=\"16\" viewBox=\"0 0 16 16\" xmlns=\"http://www.w3.org/2000/svg\">\
         <circle cx=\"8\" cy=\"8\" r=\"1.5\" fill=\"none\" stroke=\"currentColor\" stroke-width=\"1.2\" opacity=\"1.00\"/>\
         <circle cx=\"8\" cy=\"8\" r=\"3.5\" fill=\"none\" stroke=\"currentColor\" stroke-width=\"1.2\" opacity=\"0.67\"/>\
         <circle cx=\"8\" cy=\"8\" r=\"5.5\" fill=\"none\" stroke=\"currentColor\" stroke-width=\"1.2\" opacity=\"0.33\"/>\
         <circle cx=\"8\" cy=\"8\" r=\"1.2\" fill=\"currentColor\"/></svg>"
    );
}

#[test]
fn ripple_rings_fade_as_they_expand() {
    let svg = ripple_svg(1);
    assert!(svg.contains("r=\"2.0\""));
    assert!(svg.contains("opacity=\"0.92\""));
    assert!(svg.contains("r=\"4.0\""));
    assert!(svg.contains("opacity=\"0.58\""));
    assert!(svg.contains("r=\"6.0\""));
    assert!(svg.contains("opacity=\"0.25\""));
}
