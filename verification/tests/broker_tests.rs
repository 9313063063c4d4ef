use eryzaa_core::broker::{
    generate_secure_password, AccountGateway, BrokerError, GatewayError, RecordingGateway,
    RefusingGateway, SshManager,
};

const CHARSET: &str = "ABCDEFGHIJKLMNOPQRSTUVWXYZabcdefghijklmnopqrstuvwxyz0123456789!@#$%^&*";

#[test]
fn fresh_broker_is_free() {
    let manager = SshManager::new();
    assert!(manager.get_current_user().is_none());
    assert!(manager.get_active_jobs().is_empty());
    let manager: SshManager = Default::default();
    assert!(manager.get_current_user().is_none());
    assert!(manager.get_active_jobs().is_empty());
}

#[test]
fn test_password_generation() {
    let password = generate_secure_password();
    assert_eq!(password.chars().count(), 16);
    for c in password.chars() {
        assert!(CHARSET.contains(c));
    }
}

#[test]
fn create_job_user_grants_a_lease_with_a_sound_secret() {
    let mut manager = SshManager::new();
    let mut gateway = RecordingGateway::new();
    let lease = manager
        .create_job_user(&mut gateway, "job1", "c1", 1, 1000)
        .unwrap();
    assert_eq!(lease.job_id, "job1");
    assert_eq!(lease.client_id, "c1");
    assert_eq!(lease.expires_at, 1000 + 3600);
    assert_eq!(lease.ssh_user.created_at, 1000);
    assert!(lease.ssh_user.is_active);
    assert_eq!(lease.ssh_user.secret.chars().count(), 16);
    for c in lease.ssh_user.secret.chars() {
        assert!(CHARSET.contains(c));
    }
    assert!(lease.ssh_user.username.starts_with("job_"));
    assert_eq!(lease.ssh_user.username.chars().count(), 12);
    // The gateway was asked to create exactly that account.
    assert_eq!(gateway.created, vec![lease.ssh_user.username.clone()]);
    assert_eq!(
        manager.get_current_user(),
        Some(lease.ssh_user.username.clone())
    );
    assert_eq!(manager.get_active_jobs().len(), 1);
}

#[test]
fn second_lease_is_refused_and_the_first_is_untouched() {
    let mut manager = SshManager::new();
    let mut gateway = RecordingGateway::new();
    let first = manager
        .create_job_user(&mut gateway, "job1", "c1", 1, 1000)
        .unwrap();
    let refused = manager.create_job_user(&mut gateway, "job2", "c2", 1, 1000);
    assert_eq!(refused, Err(BrokerError::ExclusivityViolation));
    let jobs = manager.get_active_jobs();
    assert_eq!(jobs.len(), 1);
    assert_eq!(jobs[0], first);
    assert_eq!(manager.get_current_user(), Some(first.ssh_user.username));
}

#[test]
fn remove_job_user_frees_the_slot_for_the_next_job() {
    let mut manager = SshManager::new();
    let mut gateway = RecordingGateway::new();
    let first = manager
        .create_job_user(&mut gateway, "job1", "c1", 1, 1000)
        .unwrap();
    assert_eq!(manager.remove_job_user(&mut gateway, "job1"), Ok(()));
    // The account was deleted and the broker is free again.
    assert_eq!(gateway.removed, vec![first.ssh_user.username]);
    assert!(manager.get_current_user().is_none());
    assert!(manager.get_active_jobs().is_empty());
    let third = manager.create_job_user(&mut gateway, "job3", "c3", 1, 2000);
    assert!(third.is_ok());
}

#[test]
fn removing_an_unknown_job_fails() {
    let mut manager = SshManager::new();
    let mut gateway = RecordingGateway::new();
    assert_eq!(
        manager.remove_job_user(&mut gateway, "nope"),
        Err(BrokerError::UserNotFound)
    );
    manager
        .create_job_user(&mut gateway, "job1", "c1", 1, 1000)
        .unwrap();
    assert_eq!(
        manager.remove_job_user(&mut gateway, "other"),
        Err(BrokerError::UserNotFound)
    );
    assert_eq!(manager.get_active_jobs().len(), 1);
}

#[test]
fn gateway_failure_leaves_no_partial_state() {
    let mut manager = SshManager::new();
    let mut refusing = RefusingGateway {};
    let refused = manager.create_job_user(&mut refusing, "job1", "c1", 1, 1000);
    assert_eq!(
        refused,
        Err(BrokerError::Gateway(GatewayError::ServiceUnavailable))
    );
    assert!(manager.get_current_user().is_none());
    assert!(manager.get_active_jobs().is_empty());
    // After the failure the slot is still free for a working gateway.
    let mut gateway = RecordingGateway::new();
    assert!(manager
        .create_job_user(&mut gateway, "job1", "c1", 1, 1000)
        .is_ok());
    // Deletion failure keeps the lease.
    let denied = manager.remove_job_user(&mut refusing, "job1");
    assert_eq!(
        denied,
        Err(BrokerError::Gateway(GatewayError::ServiceUnavailable))
    );
    assert_eq!(manager.get_active_jobs().len(), 1);
    assert!(manager.get_current_user().is_some());
}

#[test]
fn validate_user_access_checks_name_activity_and_expiry() {
    let mut manager = SshManager::new();
    let mut gateway = RecordingGateway::new();
    let lease = manager
        .create_job_user(&mut gateway, "job1", "c1", 2, 1000)
        .unwrap();
    let name = lease.ssh_user.username.as_str();
    // Before expiry: allowed.
    assert!(manager.validate_user_access(name, 1000));
    assert!(manager.validate_user_access(name, 1000 + 7199));
    // At and past expiry: refused.
    assert!(!manager.validate_user_access(name, 1000 + 7200));
    assert!(!manager.validate_user_access(name, u64::MAX));
    // An unknown account: refused.
    assert!(!manager.validate_user_access("job_ffffffff", 1000));
}

#[test]
fn cleanup_removes_the_expired_lease_and_reports_it() {
    let mut manager = SshManager::new();
    let mut gateway = RecordingGateway::new();
    manager
        .create_job_user(&mut gateway, "job1", "c1", 1, 1000)
        .unwrap();
    // Not yet expired: nothing happens.
    let untouched = manager.cleanup_expired_users(&mut gateway, 4599).unwrap();
    assert!(untouched.is_empty());
    assert_eq!(manager.get_active_jobs().len(), 1);
    // Expired: torn down and reported.
    let cleaned = manager.cleanup_expired_users(&mut gateway, 4600).unwrap();
    assert_eq!(cleaned, vec!["job1".to_string()]);
    assert!(manager.get_active_jobs().is_empty());
    assert!(manager.get_current_user().is_none());
    assert_eq!(gateway.removed.len(), 1);
}

#[test]
fn lease_expiry_saturates_instead_of_wrapping() {
    let mut manager = SshManager::new();
    let mut gateway = RecordingGateway::new();
    let lease = manager
        .create_job_user(&mut gateway, "job1", "c1", u64::MAX, 1000)
        .unwrap();
    assert_eq!(lease.expires_at, u64::MAX);
}

#[test]
fn generated_usernames_are_hex_suffixed() {
    let mut manager = SshManager::new();
    let mut gateway = RecordingGateway::new();
    let lease = manager
        .create_job_user(&mut gateway, "job1", "c1", 1, 1000)
        .unwrap();
    let name = &lease.ssh_user.username;
    let suffix: String = name.chars().skip(4).collect();
    assert_eq!(suffix.len(), 8);
    for c in suffix.chars() {
        assert!("0123456789abcdef".contains(c));
    }
}
