//! Plain state model of the rental-side control panel: how far setup has
//! come, what the server reports about itself, which pane is open, and the
//! one-click setup choices. The panel itself is out of scope; only the data
//! and its defaults stand here.

use vstd::prelude::*;
use vstd::string::StringExecFns;

verus! {

/// How far the one-click setup has come.
#[derive(Debug, Clone)]
pub enum SetupStatus {
    NotStarted,
    /// Setup is running; the text names the current step.
    Installing(String),
    Running,
    /// Setup failed; the text says why.
    Error(String),
}

impl Default for SetupStatus {
    /// A fresh panel has not started setup.
    fn default() -> (r: Self)
        ensures
            r == SetupStatus::NotStarted,
    {
        SetupStatus::NotStarted
    }
}

/// What the rental server reports about itself.
#[derive(Debug, Clone)]
pub struct ServerInfo {
    pub zerotier_ip: String,
    pub zerotier_network: String,
    pub ssh_status: bool,
    pub uptime_secs: u64,
    pub clients_connected: u32,
}

impl Default for ServerInfo {
    /// Before the first report: no address assigned, the stock network,
    /// nothing running.
    fn default() -> (r: Self)
        ensures
            r.zerotier_ip@ == "Not assigned"@,
            r.zerotier_network@ == "363c67c55ad2489d"@,
            !r.ssh_status,
            r.uptime_secs == 0,
            r.clients_connected == 0,
    {
        ServerInfo {
            zerotier_ip: String::from_str("Not assigned"),
            zerotier_network: String::from_str("363c67c55ad2489d"),
            ssh_status: false,
            uptime_secs: 0,
            clients_connected: 0,
        }
    }
}

/// The pane the rental panel currently shows.
#[derive(Debug, Clone, PartialEq)]
pub enum Tab {
    Dashboard,
    Setup,
    System,
    Network,
    Clients,
    SshUsers,
    Settings,
}

impl Default for Tab {
    /// The panel opens on the dashboard.
    fn default() -> (r: Self)
        ensures
            r == Tab::Dashboard,
    {
        Tab::Dashboard
    }
}

/// The choices the one-click setup runs with.
#[derive(Debug, Clone)]
pub struct SetupConfig {
    pub enable_gpu: bool,
    pub enable_ssh: bool,
    pub custom_network_id: String,
    pub install_dev_tools: bool,
    pub setup_monitoring: bool,
}

impl Default for SetupConfig {
    /// Everything on, joining the stock network.
    fn default() -> (r: Self)
        ensures
            r.enable_gpu,
            r.enable_ssh,
            r.custom_network_id@ == "363c67c55ad2489d"@,
            r.install_dev_tools,
            r.setup_monitoring,
    {
        SetupConfig {
            enable_gpu: true,
            enable_ssh: true,
            custom_network_id: String::from_str("363c67c55ad2489d"),
            install_dev_tools: true,
            setup_monitoring: true,
        }
    }
}

} // verus!
