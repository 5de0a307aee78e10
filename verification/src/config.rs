//! Settings of the command server.

use vstd::prelude::*;

verus! {

/// The wireless network to join.
#[derive(Debug, Clone, Copy)]
pub struct Config {
    /// Name of the network.
    pub wifi_ssid: &'static str,
    /// Its passphrase; empty for an open network.
    pub wifi_psk: &'static str,
}

impl Default for Config {
    /// The open guest network of the simulator.
    fn default() -> (config: Config)
        ensures
            config.wifi_ssid@ == "Wokwi-GUEST"@,
            config.wifi_psk@ == ""@,
    {
        Config { wifi_ssid: "Wokwi-GUEST", wifi_psk: "" }
    }
}

} // verus!
