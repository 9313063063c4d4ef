use eryzaa_core::client_state;
use eryzaa_core::rental_state;

#[test]
fn client_panel_defaults() {
    let tab: client_state::Tab = Default::default();
    assert_eq!(tab, client_state::Tab::Dashboard);
    let access: client_state::AccessType = Default::default();
    assert_eq!(access, client_state::AccessType::SSH);
    let mode: client_state::DeploymentMode = Default::default();
    assert_eq!(mode, client_state::DeploymentMode::Fast);

    let settings: client_state::Settings = Default::default();
    assert_eq!(settings.zerotier_network_id, "363c67c55ad2489d");
    assert_eq!(settings.ssh_username, "rental");
    assert_eq!(settings.ssh_password, "rental_user_2024");
    assert!(!settings.auto_connect_ssh);
    assert!(!settings.enable_gpu);
    assert!(settings.auto_save_models);
    assert_eq!(settings.default_epochs, 100);
    assert!(settings.auto_scale);
    assert!(settings.cost_optimization);
    assert_eq!(settings.max_jobs, 5);
    assert_eq!(settings.wallet_address, "");
    assert_eq!(settings.avax_rpc_url, "https://api.avax.network/ext/bc/C/rpc");
    assert!(!settings.auto_approve_payments);
    assert!(!settings.dark_mode);
    assert!(settings.show_notifications);
    assert!(!settings.minimize_to_tray);
}

#[test]
fn rental_panel_defaults() {
    let status: rental_state::SetupStatus = Default::default();
    assert!(matches!(status, rental_state::SetupStatus::NotStarted));
    let tab: rental_state::Tab = Default::default();
    assert_eq!(tab, rental_state::Tab::Dashboard);

    let info: rental_state::ServerInfo = Default::default();
    assert_eq!(info.zerotier_ip, "Not assigned");
    assert_eq!(info.zerotier_network, "363c67c55ad2489d");
    assert!(!info.ssh_status);
    assert_eq!(info.uptime_secs, 0);
    assert_eq!(info.clients_connected, 0);

    let config: rental_state::SetupConfig = Default::default();
    assert!(config.enable_gpu);
    assert!(config.enable_ssh);
    assert_eq!(config.custom_network_id, "363c67c55ad2489d");
    assert!(config.install_dev_tools);
    assert!(config.setup_monitoring);
}
