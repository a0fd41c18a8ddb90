//! The network control adapter's compute half.
//!
//! The adapter drives the OS network manager through short-lived commands.
//! Everything that decides is here and verified: the exact argument lists
//! of the commands, the parsers for their output, and the interpretation
//! of their exit status. Only the process invocations themselves live in
//! the unverified shell, which hands output text and exit information back
//! as plain values.

use vstd::prelude::*;
use crate::config::{Config, ConfigModel};
use crate::strutil::{
    chars_eq_str, contains_chars, contains_seq, split_lines, split_lines_exec, split_sep,
    split_sep_exec, split_ws, split_ws_exec, str_to_chars, string_from_chars,
};

verus! {

/// What the shell reports back about one command it ran: whether the
/// process could be launched at all (with the launch error's text when
/// not), whether it exited successfully, and its error output.
pub struct CmdResult {
    pub launched: bool,
    pub launch_error: String,
    pub success: bool,
    pub stderr: String,
}

/// Mathematical model of a command result.
pub ghost struct CmdResultModel {
    pub launched: bool,
    pub launch_error: Seq<char>,
    pub success: bool,
    pub stderr: Seq<char>,
}

impl View for CmdResult {
    type V = CmdResultModel;

    open spec fn view(&self) -> CmdResultModel {
        CmdResultModel {
            launched: self.launched,
            launch_error: self.launch_error@,
            success: self.success,
            stderr: self.stderr@,
        }
    }
}

/// The text of an optional command output: `None` when the tool could not
/// be run at all.
pub open spec fn opt_text(o: Option<&str>) -> Option<Seq<char>> {
    match o {
        Some(s) => Some(s@),
        None => None,
    }
}

// ---------------------------------------------------------------------------
// Activity query
// ---------------------------------------------------------------------------

/// The profile counts as active exactly when the state query's output
/// mentions an activated state.
pub open spec fn active_from_output(output: Option<Seq<char>>) -> bool {
    match output {
        Some(o) => contains_seq(o, "activated"@),
        None => false,
    }
}

/// Whether the hotspot profile reports an activated state. Any failure of
/// the query tool (`None`) is absence of activity, never an error.
pub fn is_hotspot_active(output: Option<&str>) -> (r: bool)
    ensures
        r == active_from_output(opt_text(output)),
        output is None ==> r == false,
{
    match output {
        Some(o) => {
            let s = str_to_chars(o);
            let pat = str_to_chars("activated");
            contains_chars(&s, &pat)
        },
        None => false,
    }
}

/// Arguments of the state query for the configured profile.
pub open spec fn active_query_args_spec(c: ConfigModel) -> Seq<Seq<char>> {
    seq!["-t"@, "-f"@, "GENERAL.STATE"@, "connection"@, "show"@, c.connection_name]
}

/// Argument list for querying the profile's activation state.
pub fn active_query_args(c: &Config) -> (r: Vec<String>)
    ensures
        r@.map_values(|s: String| s@) == active_query_args_spec(c@),
{
    let mut v: Vec<String> = Vec::new();
    v.push(String::from_str("-t"));
    v.push(String::from_str("-f"));
    v.push(String::from_str("GENERAL.STATE"));
    v.push(String::from_str("connection"));
    v.push(String::from_str("show"));
    v.push(c.connection_name.clone());
    proof {
        assert(v@.map_values(|s: String| s@) =~= active_query_args_spec(c@));
    }
    v
}

// ---------------------------------------------------------------------------
// Client enumeration
// ---------------------------------------------------------------------------

/// A neighbor-table line contributes its first token (the address) when it
/// has at least four fields and is not in a failed sub-state.
pub open spec fn neighbor_line_client(l: Seq<char>) -> Option<Seq<char>> {
    let parts = split_ws(l);
    if parts.len() >= 4 && !contains_seq(l, "FAILED"@) {
        Some(parts[0])
    } else {
        None
    }
}

/// The clients contributed by a sequence of neighbor-table lines.
pub open spec fn neighbor_clients(lines: Seq<Seq<char>>) -> Seq<Seq<char>>
    decreases lines.len(),
{
    if lines.len() == 0 {
        Seq::empty()
    } else {
        match neighbor_line_client(lines[0]) {
            Some(v) => seq![v] + neighbor_clients(lines.drop_first()),
            None => neighbor_clients(lines.drop_first()),
        }
    }
}

/// The clients named by the neighbor query's output.
pub open spec fn neighbor_output_clients(s: Seq<char>) -> Seq<Seq<char>> {
    neighbor_clients(split_lines(s))
}

/// An ARP-table line contributes its first token (the address) when it has
/// at least six fields, its device field names the hotspot interface, and
/// its flags field is not the incomplete marker.
pub open spec fn arp_line_client(l: Seq<char>, iface: Seq<char>) -> Option<Seq<char>> {
    let parts = split_ws(l);
    if parts.len() >= 6 && parts[5] == iface && parts[2] != "0x0"@ {
        Some(parts[0])
    } else {
        None
    }
}

/// The clients contributed by a sequence of ARP-table lines.
pub open spec fn arp_clients(lines: Seq<Seq<char>>, iface: Seq<char>) -> Seq<Seq<char>>
    decreases lines.len(),
{
    if lines.len() == 0 {
        Seq::empty()
    } else {
        match arp_line_client(lines[0], iface) {
            Some(v) => seq![v] + arp_clients(lines.drop_first(), iface),
            None => arp_clients(lines.drop_first(), iface),
        }
    }
}

/// The clients named by the ARP table's content; its first line is a
/// header and is skipped.
pub open spec fn arp_table_clients(s: Seq<char>, iface: Seq<char>) -> Seq<Seq<char>> {
    let lines = split_lines(s);
    if lines.len() > 0 {
        arp_clients(lines.drop_first(), iface)
    } else {
        Seq::empty()
    }
}

/// The full client enumeration: the neighbor query's result when it names
/// anyone, otherwise the ARP table fallback; a source that could not be
/// read contributes nothing, never an error.
pub open spec fn connected_clients_spec(
    neighbor_output: Option<Seq<char>>,
    arp_table: Option<Seq<char>>,
    iface: Seq<char>,
) -> Seq<Seq<char>> {
    let primary = match neighbor_output {
        Some(o) => neighbor_output_clients(o),
        None => Seq::empty(),
    };
    if primary.len() > 0 {
        primary
    } else {
        match arp_table {
            Some(c) => arp_table_clients(c, iface),
            None => Seq::empty(),
        }
    }
}

fn collect_neighbor(lines: &Vec<Vec<char>>) -> (r: Vec<String>)
    ensures
        r@.map_values(|s: String| s@) == neighbor_clients(
            lines@.map_values(|l: Vec<char>| l@),
        ),
{
    let ghost lm = lines@.map_values(|l: Vec<char>| l@);
    let mut r: Vec<String> = Vec::new();
    let failed_pat = str_to_chars("FAILED");
    let mut i: usize = 0;
    proof {
        assert(lm.skip(0) =~= lm);
        assert(r@.map_values(|s: String| s@) =~= Seq::<Seq<char>>::empty());
    }
    while i < lines.len()
        invariant
            lm == lines@.map_values(|l: Vec<char>| l@),
            i <= lines@.len(),
            lines@.len() == lm.len(),
            failed_pat@ == "FAILED"@,
            neighbor_clients(lm) == r@.map_values(|s: String| s@) + neighbor_clients(
                lm.skip(i as int),
            ),
        decreases lines@.len() - i,
    {
        let ghost pre = r@.map_values(|s: String| s@);
        let ghost rest = lm.skip(i as int);
        let line = &lines[i];
        proof {
            assert(lm[i as int] == line@);
            assert(rest[0] == line@);
            assert(rest.drop_first() =~= lm.skip(i as int + 1));
        }
        let parts = split_ws_exec(line);
        if parts.len() >= 4 && !contains_chars(line, &failed_pat) {
            proof {
                assert(parts@.map_values(|l: Vec<char>| l@)[0] == parts@[0]@);
                assert(neighbor_line_client(line@) == Some(parts@[0]@));
            }
            let c = string_from_chars(&parts[0]);
            r.push(c);
            proof {
                assert(r@.map_values(|s: String| s@) =~= pre + seq![parts@[0]@]);
                assert(pre + seq![parts@[0]@] + neighbor_clients(lm.skip(i as int + 1)) =~= pre
                    + (seq![parts@[0]@] + neighbor_clients(lm.skip(i as int + 1))));
            }
        } else {
            proof {
                assert(parts@.map_values(|l: Vec<char>| l@).len() == parts@.len());
                assert(neighbor_line_client(line@) is None);
            }
        }
        i = i + 1;
    }
    proof {
        assert(lm.skip(lines@.len() as int) =~= Seq::<Seq<char>>::empty());
        assert(r@.map_values(|s: String| s@) =~= neighbor_clients(lm));
    }
    r
}

fn collect_arp(lines: &Vec<Vec<char>>, start: usize, iface: &str) -> (r: Vec<String>)
    requires
        start <= lines@.len(),
    ensures
        r@.map_values(|s: String| s@) == arp_clients(
            lines@.map_values(|l: Vec<char>| l@).skip(start as int),
            iface@,
        ),
{
    let ghost lm = lines@.map_values(|l: Vec<char>| l@);
    let mut r: Vec<String> = Vec::new();
    let mut i: usize = start;
    proof {
        assert(r@.map_values(|s: String| s@) =~= Seq::<Seq<char>>::empty());
    }
    while i < lines.len()
        invariant
            lm == lines@.map_values(|l: Vec<char>| l@),
            start <= i <= lines@.len(),
            lines@.len() == lm.len(),
            arp_clients(lm.skip(start as int), iface@) == r@.map_values(|s: String| s@)
                + arp_clients(lm.skip(i as int), iface@),
        decreases lines@.len() - i,
    {
        let ghost pre = r@.map_values(|s: String| s@);
        let ghost rest = lm.skip(i as int);
        let line = &lines[i];
        proof {
            assert(lm[i as int] == line@);
            assert(rest[0] == line@);
            assert(rest.drop_first() =~= lm.skip(i as int + 1));
        }
        let parts = split_ws_exec(line);
        if parts.len() >= 6 && chars_eq_str(&parts[5], iface) && !chars_eq_str(&parts[2], "0x0") {
            proof {
                assert(parts@.map_values(|l: Vec<char>| l@)[0] == parts@[0]@);
                assert(parts@.map_values(|l: Vec<char>| l@)[5] == parts@[5]@);
                assert(parts@.map_values(|l: Vec<char>| l@)[2] == parts@[2]@);
                assert(arp_line_client(line@, iface@) == Some(parts@[0]@));
            }
            let c = string_from_chars(&parts[0]);
            r.push(c);
            proof {
                assert(r@.map_values(|s: String| s@) =~= pre + seq![parts@[0]@]);
                assert(pre + seq![parts@[0]@] + arp_clients(lm.skip(i as int + 1), iface@) =~= pre
                    + (seq![parts@[0]@] + arp_clients(lm.skip(i as int + 1), iface@)));
            }
        } else {
            proof {
                assert(parts@.map_values(|l: Vec<char>| l@).len() == parts@.len());
                if parts@.len() >= 6 {
                    assert(parts@.map_values(|l: Vec<char>| l@)[5] == parts@[5]@);
                    assert(parts@.map_values(|l: Vec<char>| l@)[2] == parts@[2]@);
                }
                assert(arp_line_client(line@, iface@) is None);
            }
        }
        i = i + 1;
    }
    proof {
        assert(lm.skip(lines@.len() as int) =~= Seq::<Seq<char>>::empty());
        assert(r@.map_values(|s: String| s@) =~= arp_clients(lm.skip(start as int), iface@));
    }
    r
}

/// The clients named by the neighbor query's output alone.
pub fn parse_neighbor_clients(output: &str) -> (r: Vec<String>)
    ensures
        r@.map_values(|s: String| s@) == neighbor_output_clients(output@),
{
    let chars = str_to_chars(output);
    let lines = split_lines_exec(&chars);
    collect_neighbor(&lines)
}

/// The clients named by the ARP table's content alone.
pub fn parse_arp_clients(content: &str, hotspot_interface: &str) -> (r: Vec<String>)
    ensures
        r@.map_values(|s: String| s@) == arp_table_clients(content@, hotspot_interface@),
{
    let chars = str_to_chars(content);
    let lines = split_lines_exec(&chars);
    let ghost lm = lines@.map_values(|l: Vec<char>| l@);
    if lines.len() > 0 {
        let r = collect_arp(&lines, 1, hotspot_interface);
        proof {
            assert(lm.skip(1) =~= lm.drop_first());
        }
        r
    } else {
        let r: Vec<String> = Vec::new();
        proof {
            assert(r@.map_values(|s: String| s@) =~= Seq::<Seq<char>>::empty());
        }
        r
    }
}

/// The full client enumeration from both sources. Sources that could not
/// be read are `None` and contribute an empty list, never an error.
pub fn get_connected_clients(
    neighbor_output: Option<&str>,
    arp_table: Option<&str>,
    hotspot_interface: &str,
) -> (r: Vec<String>)
    ensures
        r@.map_values(|s: String| s@) == connected_clients_spec(
            opt_text(neighbor_output),
            opt_text(arp_table),
            hotspot_interface@,
        ),
{
    let primary = match neighbor_output {
        Some(o) => parse_neighbor_clients(o),
        None => {
            let v: Vec<String> = Vec::new();
            proof {
                assert(v@.map_values(|s: String| s@) =~= Seq::<Seq<char>>::empty());
            }
            v
        },
    };
    if primary.len() > 0 {
        primary
    } else {
        match arp_table {
            Some(c) => parse_arp_clients(c, hotspot_interface),
            None => {
                let v: Vec<String> = Vec::new();
                proof {
                    assert(v@.map_values(|s: String| s@) =~= Seq::<Seq<char>>::empty());
                }
                v
            },
        }
    }
}

/// Arguments of the neighbor query on the hotspot interface.
pub open spec fn neighbor_query_args_spec(c: ConfigModel) -> Seq<Seq<char>> {
    seq!["neigh"@, "show"@, "dev"@, c.hotspot_interface]
}

/// Argument list for enumerating reachable neighbors.
pub fn neighbor_query_args(c: &Config) -> (r: Vec<String>)
    ensures
        r@.map_values(|s: String| s@) == neighbor_query_args_spec(c@),
{
    let mut v: Vec<String> = Vec::new();
    v.push(String::from_str("neigh"));
    v.push(String::from_str("show"));
    v.push(String::from_str("dev"));
    v.push(c.hotspot_interface.clone());
    proof {
        assert(v@.map_values(|s: String| s@) =~= neighbor_query_args_spec(c@));
    }
    v
}

// ---------------------------------------------------------------------------
// Interface enumeration
// ---------------------------------------------------------------------------

/// A device line contributes its first field (the device name) when it has
/// at least two colon-separated fields and the second names an accepted
/// type: wireless always, wired only when included.
pub open spec fn device_line_name(l: Seq<char>, include_wired: bool) -> Option<Seq<char>> {
    let parts = split_sep(l, ':');
    if parts.len() >= 2 && (parts[1] == "wifi"@ || (include_wired && parts[1] == "ethernet"@)) {
        Some(parts[0])
    } else {
        None
    }
}

/// The device names contributed by a sequence of device lines.
pub open spec fn device_names(lines: Seq<Seq<char>>, include_wired: bool) -> Seq<Seq<char>>
    decreases lines.len(),
{
    if lines.len() == 0 {
        Seq::empty()
    } else {
        match device_line_name(lines[0], include_wired) {
            Some(v) => seq![v] + device_names(lines.drop_first(), include_wired),
            None => device_names(lines.drop_first(), include_wired),
        }
    }
}

/// The devices named by the device query's output.
pub open spec fn device_output_names(output: Option<Seq<char>>, include_wired: bool) -> Seq<
    Seq<char>,
> {
    match output {
        Some(o) => device_names(split_lines(o), include_wired),
        None => Seq::empty(),
    }
}

fn collect_devices(lines: &Vec<Vec<char>>, include_wired: bool) -> (r: Vec<String>)
    ensures
        r@.map_values(|s: String| s@) == device_names(
            lines@.map_values(|l: Vec<char>| l@),
            include_wired,
        ),
{
    let ghost lm = lines@.map_values(|l: Vec<char>| l@);
    let mut r: Vec<String> = Vec::new();
    let mut i: usize = 0;
    proof {
        assert(lm.skip(0) =~= lm);
        assert(r@.map_values(|s: String| s@) =~= Seq::<Seq<char>>::empty());
    }
    while i < lines.len()
        invariant
            lm == lines@.map_values(|l: Vec<char>| l@),
            i <= lines@.len(),
            lines@.len() == lm.len(),
            device_names(lm, include_wired) == r@.map_values(|s: String| s@) + device_names(
                lm.skip(i as int),
                include_wired,
            ),
        decreases lines@.len() - i,
    {
        let ghost pre = r@.map_values(|s: String| s@);
        let ghost rest = lm.skip(i as int);
        let line = &lines[i];
        proof {
            assert(lm[i as int] == line@);
            assert(rest[0] == line@);
            assert(rest.drop_first() =~= lm.skip(i as int + 1));
        }
        let parts = split_sep_exec(line, ':');
        let accepted = if parts.len() >= 2 {
            proof {
                assert(parts@.map_values(|l: Vec<char>| l@)[1] == parts@[1]@);
            }
            chars_eq_str(&parts[1], "wifi") || (include_wired && chars_eq_str(
                &parts[1],
                "ethernet",
            ))
        } else {
            false
        };
        if accepted {
            proof {
                assert(parts@.map_values(|l: Vec<char>| l@)[0] == parts@[0]@);
                assert(device_line_name(line@, include_wired) == Some(parts@[0]@));
            }
            let c = string_from_chars(&parts[0]);
            r.push(c);
            proof {
                assert(r@.map_values(|s: String| s@) =~= pre + seq![parts@[0]@]);
                assert(pre + seq![parts@[0]@] + device_names(lm.skip(i as int + 1), include_wired)
                    =~= pre + (seq![parts@[0]@] + device_names(
                    lm.skip(i as int + 1),
                    include_wired,
                )));
            }
        } else {
            proof {
                assert(parts@.map_values(|l: Vec<char>| l@).len() == parts@.len());
                assert(device_line_name(line@, include_wired) is None);
            }
        }
        i = i + 1;
    }
    proof {
        assert(lm.skip(lines@.len() as int) =~= Seq::<Seq<char>>::empty());
        assert(r@.map_values(|s: String| s@) =~= device_names(lm, include_wired));
    }
    r
}

/// The wireless devices named by the device query's output, for the
/// hotspot interface choice. A failed query yields no choices.
pub fn list_wifi_interfaces(output: Option<&str>) -> (r: Vec<String>)
    ensures
        r@.map_values(|s: String| s@) == device_output_names(opt_text(output), false),
{
    match output {
        Some(o) => {
            let chars = str_to_chars(o);
            let lines = split_lines_exec(&chars);
            collect_devices(&lines, false)
        },
        None => {
            let v: Vec<String> = Vec::new();
            proof {
                assert(v@.map_values(|s: String| s@) =~= Seq::<Seq<char>>::empty());
            }
            v
        },
    }
}

/// The wireless and wired devices named by the device query's output, for
/// the internet interface choice. A failed query yields no choices.
pub fn list_network_interfaces(output: Option<&str>) -> (r: Vec<String>)
    ensures
        r@.map_values(|s: String| s@) == device_output_names(opt_text(output), true),
{
    match output {
        Some(o) => {
            let chars = str_to_chars(o);
            let lines = split_lines_exec(&chars);
            collect_devices(&lines, true)
        },
        None => {
            let v: Vec<String> = Vec::new();
            proof {
                assert(v@.map_values(|s: String| s@) =~= Seq::<Seq<char>>::empty());
            }
            v
        },
    }
}

// ---------------------------------------------------------------------------
// Start and stop
// ---------------------------------------------------------------------------

/// Arguments that delete the configured profile (used both to clear a
/// stale profile before starting and to tear the hotspot down).
pub open spec fn delete_profile_args_spec(c: ConfigModel) -> Seq<Seq<char>> {
    seq!["connection"@, "delete"@, c.connection_name]
}

/// Argument list for deleting the configured profile.
pub fn delete_profile_args(c: &Config) -> (r: Vec<String>)
    ensures
        r@.map_values(|s: String| s@) == delete_profile_args_spec(c@),
{
    let mut v: Vec<String> = Vec::new();
    v.push(String::from_str("connection"));
    v.push(String::from_str("delete"));
    v.push(c.connection_name.clone());
    proof {
        assert(v@.map_values(|s: String| s@) =~= delete_profile_args_spec(c@));
    }
    v
}

/// Arguments that create the access-point profile: the configured SSID,
/// band and pre-shared key on the hotspot interface, WPA2 with CCMP,
/// shared IPv4 addressing at the configured gateway, IPv6 disabled.
pub open spec fn create_profile_args_spec(c: ConfigModel) -> Seq<Seq<char>> {
    seq![
        "connection"@,
        "add"@,
        "type"@,
        "wifi"@,
        "ifname"@,
        c.hotspot_interface,
        "con-name"@,
        c.connection_name,
        "ssid"@,
        c.ssid,
        "--"@,
        "wifi.mode"@,
        "ap"@,
        "wifi.band"@,
        c.band,
        "wifi-sec.key-mgmt"@,
        "wpa-psk"@,
        "wifi-sec.proto"@,
        "rsn"@,
        "wifi-sec.pairwise"@,
        "ccmp"@,
        "wifi-sec.group"@,
        "ccmp"@,
        "wifi-sec.psk"@,
        c.password,
        "ipv4.method"@,
        "shared"@,
        "ipv4.addresses"@,
        c.gateway_ip,
        "ipv6.method"@,
        "disabled"@,
    ]
}

/// Argument list for creating the access-point profile.
pub fn create_profile_args(c: &Config) -> (r: Vec<String>)
    ensures
        r@.map_values(|s: String| s@) == create_profile_args_spec(c@),
{
    let mut v: Vec<String> = Vec::new();
    v.push(String::from_str("connection"));
    v.push(String::from_str("add"));
    v.push(String::from_str("type"));
    v.push(String::from_str("wifi"));
    v.push(String::from_str("ifname"));
    v.push(c.hotspot_interface.clone());
    v.push(String::from_str("con-name"));
    v.push(c.connection_name.clone());
    v.push(String::from_str("ssid"));
    v.push(c.ssid.clone());
    v.push(String::from_str("--"));
    v.push(String::from_str("wifi.mode"));
    v.push(String::from_str("ap"));
    v.push(String::from_str("wifi.band"));
    v.push(c.band.clone());
    v.push(String::from_str("wifi-sec.key-mgmt"));
    v.push(String::from_str("wpa-psk"));
    v.push(String::from_str("wifi-sec.proto"));
    v.push(String::from_str("rsn"));
    v.push(String::from_str("wifi-sec.pairwise"));
    v.push(String::from_str("ccmp"));
    v.push(String::from_str("wifi-sec.group"));
    v.push(String::from_str("ccmp"));
    v.push(String::from_str("wifi-sec.psk"));
    v.push(c.password.clone());
    v.push(String::from_str("ipv4.method"));
    v.push(String::from_str("shared"));
    v.push(String::from_str("ipv4.addresses"));
    v.push(c.gateway_ip.clone());
    v.push(String::from_str("ipv6.method"));
    v.push(String::from_str("disabled"));
    proof {
        assert(v@.map_values(|s: String| s@) =~= create_profile_args_spec(c@));
    }
    v
}

/// Arguments that activate the configured profile.
pub open spec fn activate_profile_args_spec(c: ConfigModel) -> Seq<Seq<char>> {
    seq!["connection"@, "up"@, c.connection_name]
}

/// Argument list for activating the configured profile.
pub fn activate_profile_args(c: &Config) -> (r: Vec<String>)
    ensures
        r@.map_values(|s: String| s@) == activate_profile_args_spec(c@),
{
    let mut v: Vec<String> = Vec::new();
    v.push(String::from_str("connection"));
    v.push(String::from_str("up"));
    v.push(c.connection_name.clone());
    proof {
        assert(v@.map_values(|s: String| s@) =~= activate_profile_args_spec(c@));
    }
    v
}

/// Arguments that deactivate the configured profile.
pub open spec fn deactivate_profile_args_spec(c: ConfigModel) -> Seq<Seq<char>> {
    seq!["connection"@, "down"@, c.connection_name]
}

/// Argument list for deactivating the configured profile.
pub fn deactivate_profile_args(c: &Config) -> (r: Vec<String>)
    ensures
        r@.map_values(|s: String| s@) == deactivate_profile_args_spec(c@),
{
    let mut v: Vec<String> = Vec::new();
    v.push(String::from_str("connection"));
    v.push(String::from_str("down"));
    v.push(c.connection_name.clone());
    proof {
        assert(v@.map_values(|s: String| s@) =~= deactivate_profile_args_spec(c@));
    }
    v
}

/// Arguments of the privileged helper that installs explicit NAT rules:
/// the helper's path, then the hotspot and internet interfaces. The helper
/// is best-effort: the shell invokes it only when it is installed, and its
/// failure is never fatal.
pub open spec fn nat_helper_args_spec(c: ConfigModel) -> Seq<Seq<char>> {
    seq!["/usr/local/bin/cosmic-hotspot-nat"@, c.hotspot_interface, c.internet_interface]
}

/// Argument list of the privileged NAT helper invocation.
pub fn nat_helper_args(c: &Config) -> (r: Vec<String>)
    ensures
        r@.map_values(|s: String| s@) == nat_helper_args_spec(c@),
{
    let mut v: Vec<String> = Vec::new();
    v.push(String::from_str("/usr/local/bin/cosmic-hotspot-nat"));
    v.push(c.hotspot_interface.clone());
    v.push(c.internet_interface.clone());
    proof {
        assert(v@.map_values(|s: String| s@) =~= nat_helper_args_spec(c@));
    }
    v
}

/// Error text when the network manager tool could not be run at all.
pub open spec fn run_failure_text(e: Seq<char>) -> Seq<char> {
    "Failed to run nmcli: "@ + e
}

/// Error text when profile creation failed.
pub open spec fn create_failure_text(stderr: Seq<char>) -> Seq<char> {
    "Failed to create hotspot: "@ + stderr
}

/// Error text when profile activation failed.
pub open spec fn activate_failure_text(stderr: Seq<char>) -> Seq<char> {
    "Failed to activate hotspot: "@ + stderr
}

/// Confirmation text of a successful start: it names the configured SSID
/// and the hotspot interface.
pub open spec fn start_success_text(c: ConfigModel) -> Seq<char> {
    "Hotspot '"@ + c.ssid + "' active on "@ + c.hotspot_interface
}

/// Law: the confirmation of a successful start always mentions the
/// configured SSID.
pub proof fn lemma_start_success_mentions_ssid(c: ConfigModel)
    ensures
        contains_seq(start_success_text(c), c.ssid),
{
    reveal_strlit("Hotspot '");
    let t = start_success_text(c);
    assert(t.subrange(9, 9 + c.ssid.len() as int) =~= c.ssid);
    assert(crate::strutil::contains_at(t, c.ssid, 9));
}

/// Interpretation of the profile-creation command: `Ok` exactly when the
/// command ran and succeeded; otherwise the error text the toggle
/// completion will carry.
pub fn start_after_create(r: &CmdResult) -> (res: Result<(), String>)
    ensures
        res is Ok <==> (r@.launched && r@.success),
        !r@.launched ==> (res matches Err(e) && e@ == run_failure_text(r@.launch_error)),
        r@.launched && !r@.success ==> (res matches Err(e) && e@ == create_failure_text(r@.stderr)),
{
    if !r.launched {
        Err(String::from_str("Failed to run nmcli: ").concat(r.launch_error.as_str()))
    } else if !r.success {
        Err(String::from_str("Failed to create hotspot: ").concat(r.stderr.as_str()))
    } else {
        Ok(())
    }
}

/// Interpretation of the profile-activation command: `Ok` with the
/// confirmation text exactly when the command ran and succeeded; otherwise
/// the error text the toggle completion will carry.
pub fn start_after_activate(c: &Config, r: &CmdResult) -> (res: Result<String, String>)
    ensures
        res is Ok <==> (r@.launched && r@.success),
        res matches Ok(m) ==> m@ == start_success_text(c@),
        !r@.launched ==> (res matches Err(e) && e@ == run_failure_text(r@.launch_error)),
        r@.launched && !r@.success ==> (res matches Err(e) && e@ == activate_failure_text(
            r@.stderr,
        )),
{
    if !r.launched {
        Err(String::from_str("Failed to run nmcli: ").concat(r.launch_error.as_str()))
    } else if !r.success {
        Err(String::from_str("Failed to activate hotspot: ").concat(r.stderr.as_str()))
    } else {
        let mut m = String::from_str("Hotspot '");
        m.append(c.ssid.as_str());
        m.append("' active on ");
        m.append(c.hotspot_interface.as_str());
        proof {
            assert(m@ =~= start_success_text(c@));
        }
        Ok(m)
    }
}

/// The stop path is best-effort teardown: whatever the deactivate and
/// delete commands reported, it succeeds with this text.
pub fn stop_hotspot_message() -> (r: String)
    ensures
        r@ == "Hotspot stopped"@,
{
    String::from_str("Hotspot stopped")
}

/// Arguments of the device query for wireless devices.
pub open spec fn wifi_device_args_spec() -> Seq<Seq<char>> {
    seq!["-t"@, "-f"@, "DEVICE,TYPE"@, "device"@]
}

/// Argument list for enumerating devices by type.
pub fn wifi_device_args() -> (r: Vec<String>)
    ensures
        r@.map_values(|s: String| s@) == wifi_device_args_spec(),
{
    let mut v: Vec<String> = Vec::new();
    v.push(String::from_str("-t"));
    v.push(String::from_str("-f"));
    v.push(String::from_str("DEVICE,TYPE"));
    v.push(String::from_str("device"));
    proof {
        assert(v@.map_values(|s: String| s@) =~= wifi_device_args_spec());
    }
    v
}

/// Arguments of the device query that also reports device state.
pub open spec fn network_device_args_spec() -> Seq<Seq<char>> {
    seq!["-t"@, "-f"@, "DEVICE,TYPE,STATE"@, "device"@]
}

/// Argument list for enumerating all devices with their state.
pub fn network_device_args() -> (r: Vec<String>)
    ensures
        r@.map_values(|s: String| s@) == network_device_args_spec(),
{
    let mut v: Vec<String> = Vec::new();
    v.push(String::from_str("-t"));
    v.push(String::from_str("-f"));
    v.push(String::from_str("DEVICE,TYPE,STATE"));
    v.push(String::from_str("device"));
    proof {
        assert(v@.map_values(|s: String| s@) =~= network_device_args_spec());
    }
    v
}

} // verus!
