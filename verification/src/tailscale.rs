//! Remote-connectivity state: the configuration and connection state the
//! outer network manager tracks.  The network calls themselves (resolution,
//! tunnelling, health probes) are outer concerns; the library holds the
//! state and derives the addresses and status views.

use vstd::prelude::*;
use crate::util::u64_to_string;

verus! {

/// Settings of the remote-device tunnel.
pub struct TailscaleConfig {
    pub enabled: bool,
    /// The phone's tunnel hostname or address.
    pub phone_hostname: String,
    /// The debug-bridge port on the phone.
    pub adb_port: u16,
    /// Connect automatically on startup.
    pub auto_connect: bool,
    /// Health-check interval in seconds; zero disables it.
    pub health_check_interval_secs: u64,
    /// Consecutive failures before a reconnect attempt.
    pub max_failures_before_reconnect: u32,
}

impl Default for TailscaleConfig {
    /// The defaults: disabled, the usual debug-bridge port, auto-connect,
    /// one-minute health checks, reconnect after three failures.
    fn default() -> (r: Self)
        ensures
            !r.enabled,
            r.phone_hostname@ == "my-android-phone"@,
            r.adb_port == 5555,
            r.auto_connect,
            r.health_check_interval_secs == 60,
            r.max_failures_before_reconnect == 3,
    {
        TailscaleConfig {
            enabled: false,
            phone_hostname: "my-android-phone".to_owned(),
            adb_port: 5555,
            auto_connect: true,
            health_check_interval_secs: 60,
            max_failures_before_reconnect: 3,
        }
    }
}

/// The tunnel connection state.
pub enum ConnectionState {
    Disconnected,
    Connecting,
    Connected { ip: String, latency_ms: Option<u64> },
    Failed { reason: String },
}

/// One peer on the tunnel network.
pub struct TailscalePeer {
    pub hostname: String,
    pub ip: String,
    pub online: bool,
    pub os: String,
}

/// The status view the dashboard surfaces.
pub struct TailscaleStatusResponse {
    pub enabled: bool,
    pub connection_state: String,
    pub phone_hostname: String,
    pub phone_ip: Option<String>,
    pub adb_address: Option<String>,
    pub latency_ms: Option<u64>,
    pub self_ip: Option<String>,
    pub android_peers: Vec<TailscalePeer>,
}

/// Tracks the tunnel configuration and state.
pub struct TailscaleManager {
    config: TailscaleConfig,
    state: ConnectionState,
    resolved_ip: Option<String>,
    consecutive_failures: u32,
}

/// The debug-bridge address of a resolved phone: "ip:port".
pub open spec fn spec_adb_address(ip: Option<Seq<char>>, port: u16) -> Option<Seq<char>> {
    match ip {
        Some(i) => Some(i + ":"@ + crate::util::dec_digits(port as int)),
        None => None,
    }
}

impl TailscaleManager {
    /// The configuration.
    pub closed spec fn spec_config(&self) -> TailscaleConfig {
        self.config
    }

    /// The resolved phone address, as characters.
    pub closed spec fn spec_resolved_ip(&self) -> Option<Seq<char>> {
        match self.resolved_ip {
            Some(ip) => Some(ip@),
            None => None,
        }
    }

    /// The connection state.
    pub closed spec fn spec_state(&self) -> ConnectionState {
        self.state
    }

    /// A fresh manager: disconnected, nothing resolved.
    pub fn new(config: TailscaleConfig) -> (r: Self)
        ensures
            r.spec_config() == config,
            r.spec_state() matches ConnectionState::Disconnected,
            r.spec_resolved_ip() is None,
    {
        TailscaleManager {
            config,
            state: ConnectionState::Disconnected,
            resolved_ip: None,
            consecutive_failures: 0,
        }
    }

    /// Whether the tunnel is enabled at all.
    pub fn is_enabled(&self) -> (r: bool)
        ensures
            r == self.spec_config().enabled,
    {
        self.config.enabled
    }

    /// The debug-bridge address to use, once the phone is resolved: a
    /// drop-in replacement for a locally configured device address.
    pub fn adb_address(&self) -> (r: Option<String>)
        ensures
            match r {
                Some(a) => spec_adb_address(self.spec_resolved_ip(), self.spec_config().adb_port)
                    == Some(a@),
                None => self.spec_resolved_ip() is None,
            },
    {
        match &self.resolved_ip {
            Some(ip) => {
                let mut out = ip.clone();
                out.append(":");
                let port = u64_to_string(self.config.adb_port as u64);
                out.append(port.as_str());
                Some(out)
            },
            None => None,
        }
    }

    /// The current connection state.
    pub fn connection_state(&self) -> (r: &ConnectionState)
        ensures
            *r == self.spec_state(),
    {
        &self.state
    }

    /// Record a resolved phone address, as the outer resolver reports it.
    pub fn set_resolved(&mut self, ip: String, state: ConnectionState)
        ensures
            final(self).spec_resolved_ip() == Some(ip@),
            final(self).spec_state() == state,
            final(self).spec_config() == old(self).spec_config(),
    {
        self.resolved_ip = Some(ip);
        self.state = state;
    }

    /// The status view for the dashboard, given the facts only the outer
    /// network calls can supply (the host's own address and the peer list).
    pub fn api_status(&self, self_ip: Option<String>, android_peers: Vec<TailscalePeer>) -> (r:
        TailscaleStatusResponse)
        ensures
            r.enabled == self.spec_config().enabled,
            r.phone_hostname@ == self.spec_config().phone_hostname@,
            self.spec_state() matches ConnectionState::Disconnected ==> r.connection_state@
                == "disconnected"@,
            self.spec_state() matches ConnectionState::Connecting ==> r.connection_state@
                == "connecting"@,
            self.spec_state() matches ConnectionState::Connected { latency_ms, .. } ==> (
            r.connection_state@ == "connected"@ && r.latency_ms == latency_ms),
            self.spec_state() matches ConnectionState::Failed { reason } ==> r.connection_state@
                == "failed: "@ + reason@,
    {
        let (conn_str, latency): (String, Option<u64>) = match &self.state {
            ConnectionState::Disconnected => ("disconnected".to_owned(), None),
            ConnectionState::Connecting => ("connecting".to_owned(), None),
            ConnectionState::Connected { latency_ms, .. } => ("connected".to_owned(),
                *latency_ms),
            ConnectionState::Failed { reason } => {
                let mut m = "failed: ".to_owned();
                m.append(reason.as_str());
                (m, None)
            },
        };
        TailscaleStatusResponse {
            enabled: self.config.enabled,
            connection_state: conn_str,
            phone_hostname: self.config.phone_hostname.clone(),
            phone_ip: match &self.resolved_ip {
                Some(ip) => Some(ip.clone()),
                None => None,
            },
            adb_address: self.adb_address(),
            latency_ms: latency,
            self_ip,
            android_peers,
        }
    }
}

} // verus!
