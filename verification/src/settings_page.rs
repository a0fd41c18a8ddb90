//! The embeddable settings page: its state, its messages, and the update
//! function that applies them. Persisting the record and enumerating
//! interfaces happen outside; `update` reports which of those effects the
//! caller must perform, and a finish function folds the outcome back in.

use vstd::prelude::*;
use crate::config::{Config, ConfigModel};
use crate::strutil::{dec_str, str_eq, u64_to_string};

verus! {

/// The page's state: the record being edited, a status line, and the
/// selection indices backing the dropdowns.
pub struct State {
    pub config: Config,
    pub status_message: String,
    pub selected_band_idx: usize,
    pub wifi_interfaces: Vec<String>,
    pub network_interfaces: Vec<String>,
    pub selected_hotspot_idx: Option<usize>,
    pub selected_internet_idx: Option<usize>,
}

/// Mathematical model of the page state.
pub ghost struct PageModel {
    pub config: ConfigModel,
    pub status_message: Seq<char>,
    pub selected_band_idx: int,
    pub wifi_interfaces: Seq<Seq<char>>,
    pub network_interfaces: Seq<Seq<char>>,
    pub selected_hotspot_idx: Option<int>,
    pub selected_internet_idx: Option<int>,
}

pub open spec fn opt_index(o: Option<usize>) -> Option<int> {
    match o {
        Some(i) => Some(i as int),
        None => None,
    }
}

impl View for State {
    type V = PageModel;

    open spec fn view(&self) -> PageModel {
        PageModel {
            config: self.config@,
            status_message: self.status_message@,
            selected_band_idx: self.selected_band_idx as int,
            wifi_interfaces: self.wifi_interfaces@.map_values(|s: String| s@),
            network_interfaces: self.network_interfaces@.map_values(|s: String| s@),
            selected_hotspot_idx: opt_index(self.selected_hotspot_idx),
            selected_internet_idx: opt_index(self.selected_internet_idx),
        }
    }
}

/// The page's messages.
pub enum Message {
    SsidChanged(String),
    PasswordChanged(String),
    HotspotInterfaceSelected(usize),
    InternetInterfaceSelected(usize),
    ConnectionNameChanged(String),
    GatewayIpChanged(String),
    BandSelected(usize),
    Save,
    ResetDefaults,
    RefreshInterfaces,
}

/// What the caller must perform after an update: nothing, persist the
/// record (after an edit's save, or after a reset to defaults), or
/// re-enumerate the interfaces.
pub enum PageEffect {
    Nothing,
    Persist,
    PersistReset,
    Refresh,
}

/// Index of the first occurrence of `x`, if any.
pub open spec fn position_of(vs: Seq<Seq<char>>, x: Seq<char>) -> Option<int>
    decreases vs.len(),
{
    if vs.len() == 0 {
        None
    } else if vs[0] == x {
        Some(0)
    } else {
        match position_of(vs.drop_first(), x) {
            Some(i) => Some(i + 1),
            None => None,
        }
    }
}

proof fn lemma_position_of_is(vs: Seq<Seq<char>>, x: Seq<char>, k: int)
    requires
        0 <= k <= vs.len(),
        forall|j: int| 0 <= j < k ==> vs[j] != x,
        k == vs.len() || vs[k] == x,
    ensures
        position_of(vs, x) == if k == vs.len() {
            None::<int>
        } else {
            Some(k)
        },
    decreases vs.len(),
{
    if vs.len() > 0 {
        if vs[0] == x {
        } else {
            assert(k > 0);
            assert(forall|j: int| 0 <= j < k - 1 ==> vs.drop_first()[j] == vs[j + 1]);
            lemma_position_of_is(vs.drop_first(), x, k - 1);
        }
    }
}

/// Index of the first list entry equal to `x`.
pub fn find_position(vs: &Vec<String>, x: &str) -> (r: Option<usize>)
    ensures
        opt_index(r) == position_of(vs@.map_values(|s: String| s@), x@),
        r matches Some(i) ==> i < vs@.len(),
{
    let ghost vm = vs@.map_values(|s: String| s@);
    let n = vs.len();
    let mut i: usize = 0;
    while i < n
        invariant
            n == vs@.len(),
            vm == vs@.map_values(|s: String| s@),
            vm.len() == n,
            i <= n,
            forall|j: int| 0 <= j < i ==> vm[j] != x@,
        decreases n - i,
    {
        if str_eq(vs[i].as_str(), x) {
            proof {
                assert(vm[i as int] == vs@[i as int]@);
                lemma_position_of_is(vm, x@, i as int);
            }
            return Some(i);
        }
        proof {
            assert(vm[i as int] == vs@[i as int]@);
        }
        i = i + 1;
    }
    proof {
        lemma_position_of_is(vm, x@, n as int);
    }
    None
}

/// The band index backing the band dropdown: the position of the stored
/// band among the two choices, or the first choice for anything else.
pub open spec fn band_index(band: Seq<char>) -> int {
    if band == "bg"@ {
        0
    } else if band == "a"@ {
        1
    } else {
        0
    }
}

fn band_index_exec(band: &str) -> (r: usize)
    ensures
        r as int == band_index(band@),
{
    if str_eq(band, "bg") {
        0
    } else if str_eq(band, "a") {
        1
    } else {
        0
    }
}

/// The page state for a loaded record and the enumerated interfaces.
pub open spec fn page_init(c: ConfigModel, wifi: Seq<Seq<char>>, net: Seq<Seq<char>>) -> PageModel {
    PageModel {
        config: c,
        status_message: Seq::empty(),
        selected_band_idx: band_index(c.band),
        wifi_interfaces: wifi,
        network_interfaces: net,
        selected_hotspot_idx: position_of(wifi, c.hotspot_interface),
        selected_internet_idx: position_of(net, c.internet_interface),
    }
}

/// Build the page state from the loaded record and the enumerated
/// interface choices.
pub fn init(config: Config, wifi_interfaces: Vec<String>, network_interfaces: Vec<String>) -> (r:
    State)
    ensures
        r@ == page_init(
            config@,
            wifi_interfaces@.map_values(|s: String| s@),
            network_interfaces@.map_values(|s: String| s@),
        ),
{
    let selected_band_idx = band_index_exec(config.band.as_str());
    let selected_hotspot_idx = find_position(&wifi_interfaces, config.hotspot_interface.as_str());
    let selected_internet_idx = find_position(
        &network_interfaces,
        config.internet_interface.as_str(),
    );
    State {
        config,
        status_message: String::new(),
        selected_band_idx,
        wifi_interfaces,
        network_interfaces,
        selected_hotspot_idx,
        selected_internet_idx,
    }
}

/// Apply one message to the page. Edits update the record and mark the
/// page dirty; selections are ignored when out of range; saving, resetting
/// and refreshing report the effect the caller must perform before calling
/// the matching finish function.
pub fn update(state: &mut State, message: Message) -> (eff: PageEffect)
    ensures
        message matches Message::SsidChanged(v) ==> final(state)@ == (PageModel {
            config: ConfigModel { ssid: v@, ..old(state)@.config },
            status_message: "Unsaved changes"@,
            ..old(state)@
        }) && eff is Nothing,
        message matches Message::PasswordChanged(v) ==> final(state)@ == (PageModel {
            config: ConfigModel { password: v@, ..old(state)@.config },
            status_message: "Unsaved changes"@,
            ..old(state)@
        }) && eff is Nothing,
        message matches Message::ConnectionNameChanged(v) ==> final(state)@ == (PageModel {
            config: ConfigModel { connection_name: v@, ..old(state)@.config },
            status_message: "Unsaved changes"@,
            ..old(state)@
        }) && eff is Nothing,
        message matches Message::GatewayIpChanged(v) ==> final(state)@ == (PageModel {
            config: ConfigModel { gateway_ip: v@, ..old(state)@.config },
            status_message: "Unsaved changes"@,
            ..old(state)@
        }) && eff is Nothing,
        message matches Message::HotspotInterfaceSelected(idx) ==> (if (idx as int)
            < old(state)@.wifi_interfaces.len() {
            final(state)@ == (PageModel {
                config: ConfigModel {
                    hotspot_interface: old(state)@.wifi_interfaces[idx as int],
                    ..old(state)@.config
                },
                status_message: "Unsaved changes"@,
                selected_hotspot_idx: Some(idx as int),
                ..old(state)@
            })
        } else {
            final(state)@ == old(state)@
        }) && eff is Nothing,
        message matches Message::InternetInterfaceSelected(idx) ==> (if (idx as int)
            < old(state)@.network_interfaces.len() {
            final(state)@ == (PageModel {
                config: ConfigModel {
                    internet_interface: old(state)@.network_interfaces[idx as int],
                    ..old(state)@.config
                },
                status_message: "Unsaved changes"@,
                selected_internet_idx: Some(idx as int),
                ..old(state)@
            })
        } else {
            final(state)@ == old(state)@
        }) && eff is Nothing,
        message matches Message::BandSelected(idx) ==> (if (idx as int) < 2 {
            final(state)@ == (PageModel {
                config: ConfigModel {
                    band: if idx == 0 {
                        "bg"@
                    } else {
                        "a"@
                    },
                    ..old(state)@.config
                },
                status_message: "Unsaved changes"@,
                selected_band_idx: idx as int,
                ..old(state)@
            })
        } else {
            final(state)@ == old(state)@
        }) && eff is Nothing,
        message is Save ==> final(state)@ == old(state)@ && eff is Persist,
        message is ResetDefaults ==> final(state)@ == (PageModel {
            config: crate::config::default_config(),
            selected_band_idx: band_index(crate::config::default_config().band),
            selected_hotspot_idx: position_of(
                old(state)@.wifi_interfaces,
                crate::config::default_config().hotspot_interface,
            ),
            selected_internet_idx: position_of(
                old(state)@.network_interfaces,
                crate::config::default_config().internet_interface,
            ),
            ..old(state)@
        }) && eff is PersistReset,
        message is RefreshInterfaces ==> final(state)@ == old(state)@ && eff is Refresh,
{
    match message {
        Message::SsidChanged(v) => {
            state.config.ssid = v;
            state.status_message = String::from_str("Unsaved changes");
            PageEffect::Nothing
        },
        Message::PasswordChanged(v) => {
            state.config.password = v;
            state.status_message = String::from_str("Unsaved changes");
            PageEffect::Nothing
        },
        Message::ConnectionNameChanged(v) => {
            state.config.connection_name = v;
            state.status_message = String::from_str("Unsaved changes");
            PageEffect::Nothing
        },
        Message::GatewayIpChanged(v) => {
            state.config.gateway_ip = v;
            state.status_message = String::from_str("Unsaved changes");
            PageEffect::Nothing
        },
        Message::HotspotInterfaceSelected(idx) => {
            if idx < state.wifi_interfaces.len() {
                state.selected_hotspot_idx = Some(idx);
                state.config.hotspot_interface = state.wifi_interfaces[idx].clone();
                state.status_message = String::from_str("Unsaved changes");
                proof {
                    assert(state@.wifi_interfaces[idx as int]
                        == state.wifi_interfaces@[idx as int]@);
                }
            }
            PageEffect::Nothing
        },
        Message::InternetInterfaceSelected(idx) => {
            if idx < state.network_interfaces.len() {
                state.selected_internet_idx = Some(idx);
                state.config.internet_interface = state.network_interfaces[idx].clone();
                state.status_message = String::from_str("Unsaved changes");
                proof {
                    assert(state@.network_interfaces[idx as int]
                        == state.network_interfaces@[idx as int]@);
                }
            }
            PageEffect::Nothing
        },
        Message::BandSelected(idx) => {
            if idx < 2 {
                state.selected_band_idx = idx;
                state.config.band = if idx == 0 {
                    String::from_str("bg")
                } else {
                    String::from_str("a")
                };
                state.status_message = String::from_str("Unsaved changes");
            }
            PageEffect::Nothing
        },
        Message::Save => PageEffect::Persist,
        Message::ResetDefaults => {
            state.config = Config::default();
            state.selected_band_idx = band_index_exec(state.config.band.as_str());
            state.selected_hotspot_idx = find_position(
                &state.wifi_interfaces,
                state.config.hotspot_interface.as_str(),
            );
            state.selected_internet_idx = find_position(
                &state.network_interfaces,
                state.config.internet_interface.as_str(),
            );
            PageEffect::PersistReset
        },
        Message::RefreshInterfaces => PageEffect::Refresh,
    }
}

/// Fold the outcome of persisting an edited record back into the page.
pub fn save_finished(state: &mut State, result: &Result<(), String>)
    ensures
        result is Ok ==> final(state)@ == (PageModel {
            status_message: "Settings saved"@,
            ..old(state)@
        }),
        result matches Err(e) ==> final(state)@ == (PageModel {
            status_message: "Error: "@ + e@,
            ..old(state)@
        }),
{
    match result {
        Ok(()) => {
            state.status_message = String::from_str("Settings saved");
        },
        Err(e) => {
            let mut m = String::from_str("Error: ");
            m.append(e.as_str());
            proof {
                assert(m@ =~= "Error: "@ + e@);
            }
            state.status_message = m;
        },
    }
}

/// Fold the outcome of persisting the defaults after a reset back into
/// the page.
pub fn reset_save_finished(state: &mut State, result: &Result<(), String>)
    ensures
        result is Ok ==> final(state)@ == (PageModel {
            status_message: "Reset to defaults and saved"@,
            ..old(state)@
        }),
        result matches Err(e) ==> final(state)@ == (PageModel {
            status_message: "Error: "@ + e@,
            ..old(state)@
        }),
{
    match result {
        Ok(()) => {
            state.status_message = String::from_str("Reset to defaults and saved");
        },
        Err(e) => {
            let mut m = String::from_str("Error: ");
            m.append(e.as_str());
            proof {
                assert(m@ =~= "Error: "@ + e@);
            }
            state.status_message = m;
        },
    }
}

/// The status line after a refresh: how many choices each enumeration
/// found.
pub open spec fn refresh_message(wifi_count: nat, net_count: nat) -> Seq<char> {
    "Found "@ + dec_str(wifi_count) + " WiFi, "@ + dec_str(net_count) + " network interfaces"@
}

/// Fold freshly enumerated interface choices back into the page: the lists
/// are fully replaced, the selections recomputed against them, and the
/// status line reports the counts.
pub fn interfaces_refreshed(
    state: &mut State,
    wifi_interfaces: Vec<String>,
    network_interfaces: Vec<String>,
)
    requires
        wifi_interfaces@.len() <= u64::MAX,
        network_interfaces@.len() <= u64::MAX,
    ensures
        final(state)@ == (PageModel {
            wifi_interfaces: wifi_interfaces@.map_values(|s: String| s@),
            network_interfaces: network_interfaces@.map_values(|s: String| s@),
            selected_hotspot_idx: position_of(
                wifi_interfaces@.map_values(|s: String| s@),
                old(state)@.config.hotspot_interface,
            ),
            selected_internet_idx: position_of(
                network_interfaces@.map_values(|s: String| s@),
                old(state)@.config.internet_interface,
            ),
            status_message: refresh_message(
                wifi_interfaces@.len() as nat,
                network_interfaces@.len() as nat,
            ),
            ..old(state)@
        }),
{
    let wifi_count = wifi_interfaces.len() as u64;
    let net_count = network_interfaces.len() as u64;
    state.wifi_interfaces = wifi_interfaces;
    state.network_interfaces = network_interfaces;
    state.selected_hotspot_idx = find_position(
        &state.wifi_interfaces,
        state.config.hotspot_interface.as_str(),
    );
    state.selected_internet_idx = find_position(
        &state.network_interfaces,
        state.config.internet_interface.as_str(),
    );
    let mut m = String::from_str("Found ");
    let wc = u64_to_string(wifi_count);
    m.append(wc.as_str());
    m.append(" WiFi, ");
    let nc = u64_to_string(net_count);
    m.append(nc.as_str());
    m.append(" network interfaces");
    proof {
        assert(m@ =~= refresh_message(wifi_count as nat, net_count as nat));
    }
    state.status_message = m;
}

} // verus!
