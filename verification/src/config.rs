//! The configuration record of the hotspot: interface names, profile name,
//! SSID, pre-shared key, radio band and gateway CIDR, all plain strings.

use vstd::prelude::*;

verus! {

/// Mathematical model of a configuration record: each field as a
/// sequence of characters.
pub ghost struct ConfigModel {
    pub hotspot_interface: Seq<char>,
    pub internet_interface: Seq<char>,
    pub connection_name: Seq<char>,
    pub ssid: Seq<char>,
    pub password: Seq<char>,
    pub band: Seq<char>,
    pub gateway_ip: Seq<char>,
}

/// The configuration record. Mutated only by the settings protocol;
/// re-read by the coordination loop each cycle.
#[derive(Debug)]
pub struct Config {
    pub hotspot_interface: String,
    pub internet_interface: String,
    pub connection_name: String,
    pub ssid: String,
    pub password: String,
    pub band: String,
    pub gateway_ip: String,
}

impl View for Config {
    type V = ConfigModel;

    open spec fn view(&self) -> ConfigModel {
        ConfigModel {
            hotspot_interface: self.hotspot_interface@,
            internet_interface: self.internet_interface@,
            connection_name: self.connection_name@,
            ssid: self.ssid@,
            password: self.password@,
            band: self.band@,
            gateway_ip: self.gateway_ip@,
        }
    }
}

/// The radio band is a fixed two-value enumeration: "bg" (2.4 GHz) or
/// "a" (5 GHz). Every other value is rejected by the settings protocol.
pub open spec fn band_valid(band: Seq<char>) -> bool {
    band == "bg"@ || band == "a"@
}

/// The built-in defaults, used whenever the stored record is missing
/// or unreadable.
pub open spec fn default_config() -> ConfigModel {
    ConfigModel {
        hotspot_interface: "wlp104s0f0u1u1"@,
        internet_interface: "wlp99s0"@,
        connection_name: "MyHotspot"@,
        ssid: "The_Metaverse"@,
        password: "6ddf9f9ce4"@,
        band: "bg"@,
        gateway_ip: "192.168.44.1/24"@,
    }
}

impl Config {
    /// Copy of the record; the copy models equal.
    pub fn duplicate(&self) -> (r: Config)
        ensures
            r@ == self@,
    {
        Config {
            hotspot_interface: self.hotspot_interface.clone(),
            internet_interface: self.internet_interface.clone(),
            connection_name: self.connection_name.clone(),
            ssid: self.ssid.clone(),
            password: self.password.clone(),
            band: self.band.clone(),
            gateway_ip: self.gateway_ip.clone(),
        }
    }
}

impl Clone for Config {
    fn clone(&self) -> (r: Config)
        ensures
            r@ == self@,
    {
        self.duplicate()
    }
}

impl Default for Config {
    fn default() -> (r: Config)
        ensures
            r@ == default_config(),
    {
        Config {
            hotspot_interface: String::from_str("wlp104s0f0u1u1"),
            internet_interface: String::from_str("wlp99s0"),
            connection_name: String::from_str("MyHotspot"),
            ssid: String::from_str("The_Metaverse"),
            password: String::from_str("6ddf9f9ce4"),
            band: String::from_str("bg"),
            gateway_ip: String::from_str("192.168.44.1/24"),
        }
    }
}

} // verus!
