use rustconn_window::credentials::{
    backend_for_index, credential_plan, credential_route, port_check_needed, rdp_credentials,
    resolution_follow_up, should_cache_resolved, variable_backend_choices, vault_action_enabled,
    vault_button_status, vnc_credentials, CachedCredentials, CredentialPlan, CredentialRoute,
    PasswordSourceKind, ProtocolKind, RdpStart, ResolutionFollowUp, ResolutionKind,
    ResolvedCredentials, SecretBackend, VncStart,
};
use rustconn_window::credentials::{vault_rename_due, vault_save_due};

#[test]
fn plan_routes_sftp_and_skips_vault() {
    assert_eq!(credential_plan(ProtocolKind::Sftp, PasswordSourceKind::Vault, false, true), CredentialPlan::OpenSftp);
    assert_eq!(credential_plan(ProtocolKind::Ssh, PasswordSourceKind::NoPassword, false, true), CredentialPlan::StartWithoutCredentials);
    assert_eq!(credential_plan(ProtocolKind::Rdp, PasswordSourceKind::Prompt, false, false), CredentialPlan::StartWithoutCredentials);
    assert_eq!(credential_plan(ProtocolKind::ZeroTrust, PasswordSourceKind::Vault, true, false), CredentialPlan::StartWithoutCredentials);
    assert_eq!(credential_plan(ProtocolKind::Ssh, PasswordSourceKind::Vault, false, true), CredentialPlan::UseCached);
    assert_eq!(credential_plan(ProtocolKind::Ssh, PasswordSourceKind::Variable, false, false), CredentialPlan::ResolveInBackground);
}

#[test]
fn follow_up_of_each_resolution() {
    assert_eq!(resolution_follow_up(ResolutionKind::Resolved), ResolutionFollowUp::StartWithResolved);
    assert_eq!(resolution_follow_up(ResolutionKind::NotNeeded), ResolutionFollowUp::StartWithout);
    assert_eq!(resolution_follow_up(ResolutionKind::Failed), ResolutionFollowUp::StartWithout);
    assert_eq!(resolution_follow_up(ResolutionKind::VariableMissing), ResolutionFollowUp::AskVariableValue);
    assert_eq!(resolution_follow_up(ResolutionKind::BackendNotConfigured), ResolutionFollowUp::ShowBackendMissing);
    assert_eq!(resolution_follow_up(ResolutionKind::VaultEntryMissing), ResolutionFollowUp::WarnAndStartWithout);
}

#[test]
fn routes_and_port_check() {
    assert_eq!(credential_route(ProtocolKind::Rdp), CredentialRoute::Rdp);
    assert_eq!(credential_route(ProtocolKind::Vnc), CredentialRoute::Vnc);
    assert_eq!(credential_route(ProtocolKind::Sftp), CredentialRoute::Sftp);
    assert_eq!(credential_route(ProtocolKind::Mosh), CredentialRoute::CacheAndStart);
    assert!(port_check_needed(true, false, false));
    assert!(!port_check_needed(true, false, true));
    assert!(!port_check_needed(true, true, false));
    assert!(!port_check_needed(false, false, false));
}

fn resolved(u: Option<&str>, p: Option<&str>) -> Option<ResolvedCredentials> {
    Some(ResolvedCredentials { username: u.map(String::from), password: p.map(String::from) })
}

#[test]
fn rdp_credential_choice() {
    let cached = Some(CachedCredentials { username: "cu".into(), password: "cp".into(), domain: "cd".into() });
    match rdp_credentials(&resolved(Some("ru"), Some("rp")), &cached, PasswordSourceKind::Vault, &None) {
        RdpStart::WithCredentials { username, password, domain } => {
            assert_eq!((username.as_str(), password.as_str(), domain.as_str()), ("ru", "rp", ""));
        }
        RdpStart::AskPassword => panic!("expected credentials"),
    }
    match rdp_credentials(&resolved(Some("ru"), None), &cached, PasswordSourceKind::Vault, &None) {
        RdpStart::WithCredentials { username, password, domain } => {
            assert_eq!((username.as_str(), password.as_str(), domain.as_str()), ("cu", "cp", "cd"));
        }
        RdpStart::AskPassword => panic!("expected cached"),
    }
    match rdp_credentials(&None, &None, PasswordSourceKind::NoPassword, &Some("me".to_string())) {
        RdpStart::WithCredentials { username, password, domain } => {
            assert_eq!((username.as_str(), password.as_str(), domain.as_str()), ("me", "", ""));
        }
        RdpStart::AskPassword => panic!("expected empty password"),
    }
    assert!(matches!(rdp_credentials(&None, &None, PasswordSourceKind::Prompt, &None), RdpStart::AskPassword));
}

#[test]
fn vnc_credential_choice() {
    match vnc_credentials(&resolved(None, Some("pw")), true, PasswordSourceKind::Vault) {
        VncStart::CacheAndStart { password } => assert_eq!(password, "pw"),
        _ => panic!("expected cache and start"),
    }
    assert!(matches!(vnc_credentials(&resolved(Some("u"), None), true, PasswordSourceKind::Vault), VncStart::StartCached));
    assert!(matches!(vnc_credentials(&None, false, PasswordSourceKind::NoPassword), VncStart::TryEmptyPassword));
    assert!(matches!(vnc_credentials(&None, false, PasswordSourceKind::Vault), VncStart::AskPassword));
    assert!(should_cache_resolved(&resolved(Some("u"), Some("p"))));
    assert!(!should_cache_resolved(&resolved(None, Some("p"))));
    assert!(!should_cache_resolved(&None));
}

#[test]
fn backend_choices_end_with_libsecret() {
    let c = variable_backend_choices(SecretBackend::Bitwarden);
    assert_eq!(c.names, vec!["Bitwarden".to_string(), "LibSecret".to_string()]);
    assert_eq!(c.backends, vec![SecretBackend::Bitwarden, SecretBackend::LibSecret]);
    let c = variable_backend_choices(SecretBackend::KdbxFile);
    assert_eq!(c.names, vec!["KeePassXC".to_string(), "LibSecret".to_string()]);
    let c = variable_backend_choices(SecretBackend::LibSecret);
    assert_eq!(c.names, vec!["LibSecret".to_string()]);
    assert_eq!(backend_for_index(&c.backends, 0), SecretBackend::LibSecret);
    let c = variable_backend_choices(SecretBackend::OnePassword);
    assert_eq!(c.names[0], "1Password");
    assert_eq!(backend_for_index(&c.backends, 0), SecretBackend::OnePassword);
    assert_eq!(backend_for_index(&c.backends, 7), SecretBackend::LibSecret);
}

#[test]
fn vault_action_and_button() {
    assert!(vault_action_enabled(SecretBackend::Pass, false, false));
    assert!(!vault_action_enabled(SecretBackend::KeePassXc, true, false));
    assert!(vault_action_enabled(SecretBackend::KdbxFile, true, true));
    assert_eq!(vault_button_status(SecretBackend::LibSecret, false, false), (true, true));
    assert_eq!(vault_button_status(SecretBackend::KeePassXc, true, false), (true, false));
}

#[test]
fn vault_saves_and_renames() {
    assert!(vault_save_due(PasswordSourceKind::Vault, true));
    assert!(!vault_save_due(PasswordSourceKind::Vault, false));
    assert!(!vault_save_due(PasswordSourceKind::Variable, true));
    assert!(vault_rename_due(PasswordSourceKind::Vault));
    assert!(!vault_rename_due(PasswordSourceKind::Script));
}
