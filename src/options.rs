use vstd::prelude::*;

verus! {

/// Control port that both processes use unless told otherwise.
pub const DEFAULT_CONFIG_PORT: u16 = 10000;

/// Port that the relay exposes to clients unless told otherwise.
pub const DEFAULT_EXPOSED_PORT: u16 = 20000;

/// Port of the target service unless told otherwise.
pub const DEFAULT_TARGET_PORT: u16 = 20000;

/// The relay's settings.
#[derive(Debug, Clone, PartialEq, Eq)]
pub struct RelayCmdOptions {
    /// Port on which the hidden peer connects to configure the tunnel.
    pub config_port: u16,
    /// Port on which clients connect; their connections are relayed.
    pub exposed_port: u16,
}

/// The hidden peer's settings.
#[derive(Debug, Clone, PartialEq, Eq)]
pub struct HiddenCmdOptions {
    /// Address of the relay.
    pub relay_ip: String,
    /// The relay's control port.
    pub config_port: u16,
    /// Port of the target service on this host.
    pub target_port: u16,
}

impl Default for RelayCmdOptions {
    fn default() -> (r: RelayCmdOptions)
        ensures
            r.config_port == DEFAULT_CONFIG_PORT,
            r.exposed_port == DEFAULT_EXPOSED_PORT,
    {
        RelayCmdOptions { config_port: DEFAULT_CONFIG_PORT, exposed_port: DEFAULT_EXPOSED_PORT }
    }
}

impl Default for HiddenCmdOptions {
    fn default() -> (r: HiddenCmdOptions)
        ensures
            r.relay_ip@ == "127.0.0.1"@,
            r.config_port == DEFAULT_CONFIG_PORT,
            r.target_port == DEFAULT_TARGET_PORT,
    {
        HiddenCmdOptions {
            relay_ip: "127.0.0.1".to_owned(),
            config_port: DEFAULT_CONFIG_PORT,
            target_port: DEFAULT_TARGET_PORT,
        }
    }
}

} // verus!
