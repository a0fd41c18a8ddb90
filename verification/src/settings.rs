//! The settings protocol: describe the configuration as a structured
//! schema, set one field by key with per-field validation, and dispatch
//! named actions. Every response is a structured ok/message pair.

use vstd::prelude::*;
use crate::config::{band_valid, Config, ConfigModel};
use crate::jsonio::{encode_json_string, json_string_error, json_string_value, parse_json_string, quoted};
use crate::strutil::str_eq;

verus! {

/// A protocol response: success flag and human-readable message.
pub struct Response {
    pub ok: bool,
    pub message: String,
}

/// Mathematical model of a response.
pub ghost struct ResponseModel {
    pub ok: bool,
    pub message: Seq<char>,
}

impl View for Response {
    type V = ResponseModel;

    open spec fn view(&self) -> ResponseModel {
        ResponseModel { ok: self.ok, message: self.message@ }
    }
}

/// The JSON text of a response.
pub open spec fn response_json_spec(ok: bool, message: Seq<char>) -> Seq<char> {
    "{\"ok\":"@ + (if ok {
        "true"@
    } else {
        "false"@
    }) + ",\"message\":"@ + quoted(message) + "}"@
}

/// Print form of a response, as the protocol emits it.
pub fn response_json(r: &Response) -> (out: String)
    ensures
        out@ == response_json_spec(r@.ok, r@.message),
{
    let mut m = String::from_str("{\"ok\":");
    if r.ok {
        m.append("true");
    } else {
        m.append("false");
    }
    m.append(",\"message\":");
    let q = encode_json_string(r.message.as_str());
    m.append(q.as_str());
    m.append("}");
    proof {
        assert(m@ =~= response_json_spec(r@.ok, r@.message));
    }
    m
}

/// A field value arrives as a JSON string literal; anything else is a
/// validation failure whose message names the parser's complaint.
pub fn parse_string(value: &str) -> (r: Result<String, String>)
    ensures
        r is Ok <==> json_string_value(value@) is Some,
        r matches Ok(v) ==> json_string_value(value@) == Some(v@),
        r matches Err(e) ==> e@ == "Invalid string: "@ + json_string_error(value@),
{
    match parse_json_string(value) {
        Ok(v) => Ok(v),
        Err(reason) => {
            let mut m = String::from_str("Invalid string: ");
            m.append(reason.as_str());
            proof {
                assert(m@ =~= "Invalid string: "@ + json_string_error(value@));
            }
            Err(m)
        },
    }
}

/// The protocol's field keys.
pub open spec fn set_key_known(key: Seq<char>) -> bool {
    key == "ssid"@ || key == "password"@ || key == "band"@ || key == "hotspot_interface"@ || key
        == "internet_interface"@ || key == "connection_name"@ || key == "gateway_ip"@
}

/// The record with one field replaced, by key.
pub open spec fn set_update(c: ConfigModel, key: Seq<char>, v: Seq<char>) -> ConfigModel {
    if key == "ssid"@ {
        ConfigModel { ssid: v, ..c }
    } else if key == "password"@ {
        ConfigModel { password: v, ..c }
    } else if key == "band"@ {
        ConfigModel { band: v, ..c }
    } else if key == "hotspot_interface"@ {
        ConfigModel { hotspot_interface: v, ..c }
    } else if key == "internet_interface"@ {
        ConfigModel { internet_interface: v, ..c }
    } else if key == "connection_name"@ {
        ConfigModel { connection_name: v, ..c }
    } else {
        ConfigModel { gateway_ip: v, ..c }
    }
}

/// The confirmation text of a successful update, by key.
pub open spec fn set_message(key: Seq<char>) -> Seq<char> {
    if key == "ssid"@ {
        "Updated SSID"@
    } else if key == "password"@ {
        "Updated password"@
    } else if key == "band"@ {
        "Updated band"@
    } else if key == "hotspot_interface"@ {
        "Updated hotspot interface"@
    } else if key == "internet_interface"@ {
        "Updated internet interface"@
    } else if key == "connection_name"@ {
        "Updated connection name"@
    } else {
        "Updated gateway IP"@
    }
}

/// Validate and apply one field update. On success the updated record is
/// returned for the caller to persist; on any failure no record is
/// returned, so the stored configuration stays unchanged. The band accepts
/// exactly the two enumeration values; every other known field is
/// free-form; an unknown key is rejected before its value is even parsed.
pub fn set(config: &Config, key: &str, value: &str) -> (r: Result<(Config, String), String>)
    ensures
        r is Ok <==> (set_key_known(key@) && json_string_value(value@) is Some && (key@
            == "band"@ ==> band_valid(json_string_value(value@)->Some_0))),
        r matches Ok((c2, m)) ==> c2@ == set_update(
            config@,
            key@,
            json_string_value(value@)->Some_0,
        ) && m@ == set_message(key@),
        !set_key_known(key@) ==> (r matches Err(e) && e@ == "Unknown key: "@ + key@),
        set_key_known(key@) && json_string_value(value@) is None ==> (r matches Err(e) && e@
            == "Invalid string: "@ + json_string_error(value@)),
        key@ == "band"@ && (json_string_value(value@) matches Some(v) && !band_valid(v)) ==> (
        r matches Err(e) && e@ == "Invalid band: must be 'bg' or 'a'"@),
{
    let known = str_eq(key, "ssid") || str_eq(key, "password") || str_eq(key, "band") || str_eq(
        key,
        "hotspot_interface",
    ) || str_eq(key, "internet_interface") || str_eq(key, "connection_name") || str_eq(
        key,
        "gateway_ip",
    );
    if !known {
        let mut e = String::from_str("Unknown key: ");
        e.append(key);
        proof {
            assert(e@ =~= "Unknown key: "@ + key@);
        }
        return Err(e);
    }
    let v = match parse_string(value) {
        Ok(v) => v,
        Err(e) => {
            return Err(e);
        },
    };
    if str_eq(key, "band") {
        if !(str_eq(v.as_str(), "bg") || str_eq(v.as_str(), "a")) {
            return Err(String::from_str("Invalid band: must be 'bg' or 'a'"));
        }
    }
    let mut c2 = config.duplicate();
    let msg: &str = if str_eq(key, "ssid") {
        c2.ssid = v;
        "Updated SSID"
    } else if str_eq(key, "password") {
        c2.password = v;
        "Updated password"
    } else if str_eq(key, "band") {
        c2.band = v;
        "Updated band"
    } else if str_eq(key, "hotspot_interface") {
        c2.hotspot_interface = v;
        "Updated hotspot interface"
    } else if str_eq(key, "internet_interface") {
        c2.internet_interface = v;
        "Updated internet interface"
    } else if str_eq(key, "connection_name") {
        c2.connection_name = v;
        "Updated connection name"
    } else {
        c2.gateway_ip = v;
        "Updated gateway IP"
    };
    Ok((c2, String::from_str(msg)))
}

/// Response composition once a validated update was persisted: a save
/// failure reports it; otherwise the update's message, demoted to a
/// failure if the hotspot restart that applies the change live failed.
/// `restart` is `None` when the hotspot was not active, `Some` with the
/// start attempt's result when it was restarted.
pub fn set_response(
    msg: &str,
    save_result: &Result<(), String>,
    restart: &Option<Result<String, String>>,
) -> (r: Response)
    ensures
        save_result matches Err(e) ==> !r@.ok && r@.message == "Save failed: "@ + e@,
        save_result is Ok && (restart is None || (restart matches Some(a) && a is Ok)) ==> r@.ok
            && r@.message == msg@,
        save_result is Ok ==> (restart matches Some(a) ==> (a matches Err(e) ==> !r@.ok
            && r@.message == msg@ + " (restart failed: "@ + e@ + ")"@)),
{
    match save_result {
        Err(e) => {
            let mut m = String::from_str("Save failed: ");
            m.append(e.as_str());
            proof {
                assert(m@ =~= "Save failed: "@ + e@);
            }
            Response { ok: false, message: m }
        },
        Ok(()) => match restart {
            Some(Err(e)) => {
                let mut m = String::from_str(msg);
                m.append(" (restart failed: ");
                m.append(e.as_str());
                m.append(")");
                proof {
                    assert(m@ =~= msg@ + " (restart failed: "@ + e@ + ")"@);
                }
                Response { ok: false, message: m }
            },
            _ => Response { ok: true, message: String::from_str(msg) },
        },
    }
}

/// What an action id asks for: an immediate response, or a reset of the
/// stored configuration to the defaults (the caller persists it and then
/// builds the response with `reset_response`).
pub enum ActionPlan {
    Respond(Response),
    ResetToDefaults,
}

/// Dispatch a named action. Saving is a compatibility no-op (every
/// successful set already persists); reset asks the caller to persist the
/// defaults; refreshing interfaces has no stored effect.
pub fn action(id: &str) -> (r: ActionPlan)
    ensures
        id@ == "save"@ ==> (r matches ActionPlan::Respond(resp) && resp@.ok && resp@.message
            == "Configuration saved"@),
        id@ == "reset"@ ==> r is ResetToDefaults,
        id@ == "refresh_interfaces"@ ==> (r matches ActionPlan::Respond(resp) && resp@.ok
            && resp@.message == "Interfaces refreshed"@),
        !(id@ == "save"@ || id@ == "reset"@ || id@ == "refresh_interfaces"@) ==> (
        r matches ActionPlan::Respond(resp) && !resp@.ok && resp@.message == "Unknown action: "@
            + id@),
{
    proof {
        reveal_strlit("save");
        reveal_strlit("reset");
        reveal_strlit("refresh_interfaces");
        assert("save"@.len() == 4);
        assert("reset"@.len() == 5);
        assert("refresh_interfaces"@.len() == 18);
    }
    if str_eq(id, "save") {
        ActionPlan::Respond(Response { ok: true, message: String::from_str("Configuration saved") })
    } else if str_eq(id, "reset") {
        ActionPlan::ResetToDefaults
    } else if str_eq(id, "refresh_interfaces") {
        ActionPlan::Respond(
            Response { ok: true, message: String::from_str("Interfaces refreshed") },
        )
    } else {
        let mut m = String::from_str("Unknown action: ");
        m.append(id);
        proof {
            assert(m@ =~= "Unknown action: "@ + id@);
        }
        ActionPlan::Respond(Response { ok: false, message: m })
    }
}

/// One selection choice: the interface name as both value and label.
pub open spec fn option_json(v: Seq<char>) -> Seq<char> {
    "{\"value\":"@ + quoted(v) + ",\"label\":"@ + quoted(v) + "}"@
}

/// A comma-separated list of selection choices.
pub open spec fn options_json(vs: Seq<Seq<char>>) -> Seq<char>
    decreases vs.len(),
{
    if vs.len() == 0 {
        Seq::empty()
    } else if vs.len() == 1 {
        option_json(vs[0])
    } else {
        option_json(vs[0]) + seq![','] + options_json(vs.drop_first())
    }
}

proof fn lemma_options_json_snoc(vs: Seq<Seq<char>>, v: Seq<char>)
    requires
        vs.len() >= 1,
    ensures
        options_json(vs + seq![v]) == options_json(vs) + seq![','] + option_json(v),
    decreases vs.len(),
{
    let t = vs + seq![v];
    if vs.len() == 1 {
        assert(t.len() == 2);
        assert(t[0] == vs[0]);
        assert(t.drop_first() =~= seq![v]);
        assert(options_json(seq![v]) == option_json(v));
    } else {
        assert(t[0] == vs[0]);
        assert(t.drop_first() =~= vs.drop_first() + seq![v]);
        lemma_options_json_snoc(vs.drop_first(), v);
        assert(option_json(t[0]) + seq![','] + (options_json(vs.drop_first()) + seq![',']
            + option_json(v)) =~= (option_json(vs[0]) + seq![','] + options_json(vs.drop_first()))
            + seq![','] + option_json(v));
    }
}

fn options_into(out: &mut String, names: &Vec<String>)
    ensures
        final(out)@ == old(out)@ + options_json(names@.map_values(|s: String| s@)),
{
    let ghost vm = names@.map_values(|s: String| s@);
    let n = names.len();
    let mut i: usize = 0;
    proof {
        assert(vm.subrange(0, 0) =~= Seq::<Seq<char>>::empty());
        assert(out@ =~= old(out)@ + options_json(vm.subrange(0, 0)));
    }
    while i < n
        invariant
            n == names@.len(),
            vm == names@.map_values(|s: String| s@),
            vm.len() == n,
            i <= n,
            out@ == old(out)@ + options_json(vm.subrange(0, i as int)),
        decreases n - i,
    {
        if i > 0 {
            out.append(",");
        }
        out.append("{\"value\":");
        let q = encode_json_string(names[i].as_str());
        out.append(q.as_str());
        out.append(",\"label\":");
        out.append(q.as_str());
        out.append("}");
        proof {
            assert(vm[i as int] == names@[i as int]@);
            assert(vm.subrange(0, i as int) + seq![vm[i as int]] =~= vm.subrange(0, i as int + 1));
            if i == 0 {
                assert(vm.subrange(0, 1) =~= seq![vm[0]]);
                assert(options_json(seq![vm[0]]) == option_json(vm[0]));
                assert(out@ =~= old(out)@ + options_json(vm.subrange(0, 1)));
            } else {
                lemma_options_json_snoc(vm.subrange(0, i as int), vm[i as int]);
                reveal_strlit(",");
                assert(","@ =~= seq![',']);
                assert(out@ =~= old(out)@ + options_json(vm.subrange(0, i as int + 1)));
            }
        }
        i = i + 1;
    }
    proof {
        assert(vm.subrange(0, n as int) =~= vm);
    }
}

/// The schema text that describes the settings surface: the current
/// configuration's values, the fixed band choices, the live interface
/// choices, and the two named actions.
pub open spec fn describe_schema(
    c: ConfigModel,
    wifi: Seq<Seq<char>>,
    net: Seq<Seq<char>>,
) -> Seq<char> {
    "{\"title\":\"WiFi Hotspot Settings\",\"description\":\"Configure and manage a WiFi hotspot using NetworkManager.\",\"sections\":[{\"title\":\"Network\",\"items\":[{\"type\":\"text\",\"key\":\"ssid\",\"label\":\"SSID\",\"value\":"@
        + quoted(c.ssid)
        + ",\"placeholder\":\"Network name\"},{\"type\":\"text\",\"key\":\"password\",\"label\":\"Password\",\"value\":"@
        + quoted(c.password)
        + ",\"placeholder\":\"WPA2 password\"},{\"type\":\"select\",\"key\":\"band\",\"label\":\"Band\",\"value\":"@
        + quoted(c.band)
        + ",\"options\":[{\"value\":\"bg\",\"label\":\"2.4 GHz\"},{\"value\":\"a\",\"label\":\"5 GHz\"}]}]},{\"title\":\"Interfaces\",\"items\":[{\"type\":\"select\",\"key\":\"hotspot_interface\",\"label\":\"Hotspot Interface\",\"value\":"@
        + quoted(c.hotspot_interface) + ",\"options\":["@ + options_json(wifi)
        + "]},{\"type\":\"select\",\"key\":\"internet_interface\",\"label\":\"Internet Interface\",\"value\":"@
        + quoted(c.internet_interface) + ",\"options\":["@ + options_json(net)
        + "]}]},{\"title\":\"Advanced\",\"items\":[{\"type\":\"text\",\"key\":\"connection_name\",\"label\":\"Connection Name\",\"value\":"@
        + quoted(c.connection_name)
        + ",\"placeholder\":\"NM connection name\"},{\"type\":\"text\",\"key\":\"gateway_ip\",\"label\":\"Gateway IP\",\"value\":"@
        + quoted(c.gateway_ip)
        + ",\"placeholder\":\"192.168.44.1/24\"}]}],\"actions\":[{\"id\":\"reset\",\"label\":\"Reset to Defaults\",\"style\":\"destructive\"},{\"id\":\"refresh_interfaces\",\"label\":\"Refresh Interfaces\",\"style\":\"standard\"}]}"@
}

/// The schema text for the current configuration and the enumerated
/// interface choices, as the protocol emits it.
#[verifier::rlimit(60)]
pub fn describe(config: &Config, wifi_interfaces: &Vec<String>, network_interfaces: &Vec<String>)
    -> (r: String)
    ensures
        r@ == describe_schema(
            config@,
            wifi_interfaces@.map_values(|s: String| s@),
            network_interfaces@.map_values(|s: String| s@),
        ),
{
    let mut m = String::from_str(
        "{\"title\":\"WiFi Hotspot Settings\",\"description\":\"Configure and manage a WiFi hotspot using NetworkManager.\",\"sections\":[{\"title\":\"Network\",\"items\":[{\"type\":\"text\",\"key\":\"ssid\",\"label\":\"SSID\",\"value\":",
    );
    let q1 = encode_json_string(config.ssid.as_str());
    m.append(q1.as_str());
    m.append(
        ",\"placeholder\":\"Network name\"},{\"type\":\"text\",\"key\":\"password\",\"label\":\"Password\",\"value\":",
    );
    let q2 = encode_json_string(config.password.as_str());
    m.append(q2.as_str());
    m.append(
        ",\"placeholder\":\"WPA2 password\"},{\"type\":\"select\",\"key\":\"band\",\"label\":\"Band\",\"value\":",
    );
    let q3 = encode_json_string(config.band.as_str());
    m.append(q3.as_str());
    m.append(
        ",\"options\":[{\"value\":\"bg\",\"label\":\"2.4 GHz\"},{\"value\":\"a\",\"label\":\"5 GHz\"}]}]},{\"title\":\"Interfaces\",\"items\":[{\"type\":\"select\",\"key\":\"hotspot_interface\",\"label\":\"Hotspot Interface\",\"value\":",
    );
    let q4 = encode_json_string(config.hotspot_interface.as_str());
    m.append(q4.as_str());
    m.append(",\"options\":[");
    options_into(&mut m, wifi_interfaces);
    m.append(
        "]},{\"type\":\"select\",\"key\":\"internet_interface\",\"label\":\"Internet Interface\",\"value\":",
    );
    let q5 = encode_json_string(config.internet_interface.as_str());
    m.append(q5.as_str());
    m.append(",\"options\":[");
    options_into(&mut m, network_interfaces);
    m.append(
        "]}]},{\"title\":\"Advanced\",\"items\":[{\"type\":\"text\",\"key\":\"connection_name\",\"label\":\"Connection Name\",\"value\":",
    );
    let q6 = encode_json_string(config.connection_name.as_str());
    m.append(q6.as_str());
    m.append(
        ",\"placeholder\":\"NM connection name\"},{\"type\":\"text\",\"key\":\"gateway_ip\",\"label\":\"Gateway IP\",\"value\":",
    );
    let q7 = encode_json_string(config.gateway_ip.as_str());
    m.append(q7.as_str());
    m.append(
        ",\"placeholder\":\"192.168.44.1/24\"}]}],\"actions\":[{\"id\":\"reset\",\"label\":\"Reset to Defaults\",\"style\":\"destructive\"},{\"id\":\"refresh_interfaces\",\"label\":\"Refresh Interfaces\",\"style\":\"standard\"}]}",
    );
    proof {
        assert(m@ =~= describe_schema(
            config@,
            wifi_interfaces@.map_values(|s: String| s@),
            network_interfaces@.map_values(|s: String| s@),
        ));
    }
    m
}

/// Response once the reset's defaults were persisted.
pub fn reset_response(save_result: &Result<(), String>) -> (r: Response)
    ensures
        save_result is Ok ==> r@.ok && r@.message == "Reset to defaults"@,
        save_result matches Err(e) ==> !r@.ok && r@.message == "Reset failed: "@ + e@,
{
    match save_result {
        Ok(()) => Response { ok: true, message: String::from_str("Reset to defaults") },
        Err(e) => {
            let mut m = String::from_str("Reset failed: ");
            m.append(e.as_str());
            proof {
                assert(m@ =~= "Reset failed: "@ + e@);
            }
            Response { ok: false, message: m }
        },
    }
}

} // verus!
