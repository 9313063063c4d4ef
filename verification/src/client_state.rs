//! Plain state model of the client-side control panel: which pane is open,
//! which access mode is chosen, and the operator's settings. The panel
//! itself (drawing, input) is out of scope; only the data and its defaults
//! stand here.

use vstd::prelude::*;
use vstd::string::StringExecFns;

verus! {

/// The pane the client panel currently shows.
#[derive(Debug, Clone, PartialEq)]
pub enum Tab {
    Dashboard,
    AccessTypes,
    SSH,
    ModelTraining,
    EdgeComputing,
    Logs,
    Settings,
}

impl Default for Tab {
    /// The panel opens on the dashboard.
    fn default() -> (r: Self)
        ensures
            r == Tab::Dashboard,
    {
        Tab::Dashboard
    }
}

/// How a client wants to use a rented node.
#[derive(Debug, Clone, PartialEq)]
pub enum AccessType {
    SSH,
    ModelTraining,
    EdgeComputing,
}

impl Default for AccessType {
    /// Plain terminal access is the default mode.
    fn default() -> (r: Self)
        ensures
            r == AccessType::SSH,
    {
        AccessType::SSH
    }
}

/// A model offered for training, as the panel lists it.
#[derive(Debug, Clone)]
pub struct ModelInfo {
    pub name: String,
    pub size: String,
    pub category: String,
}

/// A dataset offered for training, as the panel lists it.
#[derive(Debug, Clone)]
pub struct DatasetInfo {
    pub name: String,
    pub size: String,
    pub category: String,
}

/// Which flavor of server deployment the client asks for.
#[derive(Debug, Clone, PartialEq)]
pub enum DeploymentMode {
    Production,
    Development,
    Fast,
}

impl Default for DeploymentMode {
    /// The quick single-container deployment is the default.
    fn default() -> (r: Self)
        ensures
            r == DeploymentMode::Fast,
    {
        DeploymentMode::Fast
    }
}

/// Everything the client panel lets the operator configure.
#[derive(Debug, Clone)]
pub struct Settings {
    pub zerotier_network_id: String,
    pub ssh_username: String,
    pub ssh_password: String,
    pub auto_connect_ssh: bool,
    pub enable_gpu: bool,
    pub auto_save_models: bool,
    pub default_epochs: u32,
    pub auto_scale: bool,
    pub cost_optimization: bool,
    pub max_jobs: u32,
    pub wallet_address: String,
    pub avax_rpc_url: String,
    pub auto_approve_payments: bool,
    pub dark_mode: bool,
    pub show_notifications: bool,
    pub minimize_to_tray: bool,
}

impl Default for Settings {
    /// The settings a fresh installation starts from.
    fn default() -> (r: Self)
        ensures
            r.zerotier_network_id@ == "363c67c55ad2489d"@,
            r.ssh_username@ == "rental"@,
            r.ssh_password@ == "rental_user_2024"@,
            !r.auto_connect_ssh,
            !r.enable_gpu,
            r.auto_save_models,
            r.default_epochs == 100,
            r.auto_scale,
            r.cost_optimization,
            r.max_jobs == 5,
            r.wallet_address@ == Seq::<char>::empty(),
            r.avax_rpc_url@ == "https://api.avax.network/ext/bc/C/rpc"@,
            !r.auto_approve_payments,
            !r.dark_mode,
            r.show_notifications,
            !r.minimize_to_tray,
    {
        Settings {
            zerotier_network_id: String::from_str("363c67c55ad2489d"),
            ssh_username: String::from_str("rental"),
            ssh_password: String::from_str("rental_user_2024"),
            auto_connect_ssh: false,
            enable_gpu: false,
            auto_save_models: true,
            default_epochs: 100,
            auto_scale: true,
            cost_optimization: true,
            max_jobs: 5,
            wallet_address: String::new(),
            avax_rpc_url: String::from_str("https://api.avax.network/ext/bc/C/rpc"),
            auto_approve_payments: false,
            dark_mode: false,
            show_notifications: true,
            minimize_to_tray: false,
        }
    }
}

} // verus!
