//! Credential resolution before a connection starts: whether the vault is
//! asked at all, what a resolution result leads to, which credentials an
//! RDP or VNC session starts with, and the secret backends offered when a
//! variable has no value yet.
use vstd::prelude::*;
use crate::text::{opt_string_view, str_views};

verus! {

/// The protocol of a connection.
#[derive(Clone, Copy, Debug, PartialEq, Eq, Structural)]
pub enum ProtocolKind {
    Ssh,
    Rdp,
    Vnc,
    Spice,
    Telnet,
    Serial,
    Kubernetes,
    Mosh,
    ZeroTrust,
    Sftp,
}

/// Where a connection's password comes from.
#[derive(Clone, Copy, Debug, PartialEq, Eq, Structural)]
pub enum PasswordSourceKind {
    /// No password (key or agent authentication).
    NoPassword,
    /// Asked for when connecting.
    Prompt,
    Vault,
    Variable,
    Script,
    Inherit,
}

/// How credential resolution proceeds once a connection is chosen.
#[derive(Clone, Copy, Debug, PartialEq, Eq, Structural)]
pub enum CredentialPlan {
    /// SFTP opens the file manager and asks no vault.
    OpenSftp,
    /// Start without credentials; the protocol asks when it needs them.
    StartWithoutCredentials,
    /// Start with the cached credentials.
    UseCached,
    /// Ask the configured backends in the background.
    ResolveInBackground,
}

/// The plan for a connection: SFTP first; no vault for a connection with no
/// password or one asked for, nor for a generic Zero Trust command; cached
/// credentials next; else a background resolution.
pub open spec fn credential_plan_spec(
    protocol: ProtocolKind,
    source: PasswordSourceKind,
    zero_trust_generic: bool,
    has_cached: bool,
) -> CredentialPlan {
    if protocol == ProtocolKind::Sftp {
        CredentialPlan::OpenSftp
    } else if source == PasswordSourceKind::NoPassword || source == PasswordSourceKind::Prompt
        || zero_trust_generic {
        CredentialPlan::StartWithoutCredentials
    } else if has_cached {
        CredentialPlan::UseCached
    } else {
        CredentialPlan::ResolveInBackground
    }
}

/// Decides how credentials are resolved for a connection.
/// `zero_trust_generic` says whether it is a Zero Trust connection with the
/// generic (custom command) provider.
pub fn credential_plan(
    protocol: ProtocolKind,
    source: PasswordSourceKind,
    zero_trust_generic: bool,
    has_cached: bool,
) -> (r: CredentialPlan)
    ensures
        r == credential_plan_spec(protocol, source, zero_trust_generic, has_cached),
{
    if protocol == ProtocolKind::Sftp {
        return CredentialPlan::OpenSftp;
    }
    let skip_vault = match source {
        PasswordSourceKind::NoPassword | PasswordSourceKind::Prompt => true,
        _ => zero_trust_generic,
    };
    if skip_vault {
        CredentialPlan::StartWithoutCredentials
    } else if has_cached {
        CredentialPlan::UseCached
    } else {
        CredentialPlan::ResolveInBackground
    }
}

/// Only SFTP opens the file manager. A connection starts without
/// credentials exactly when it is not SFTP and has no password, asks for it
/// when connecting, or is a generic Zero Trust command; every other
/// connection (a vault, variable, script or inherited password) uses the
/// cached credentials when there are some and is otherwise resolved in the
/// background.
pub proof fn vault_skipped_only_for_no_password_prompt_or_generic_zero_trust(
    protocol: ProtocolKind,
    source: PasswordSourceKind,
    zero_trust_generic: bool,
    has_cached: bool,
)
    ensures
        (credential_plan_spec(protocol, source, zero_trust_generic, has_cached)
            == CredentialPlan::OpenSftp) <==> protocol == ProtocolKind::Sftp,
        (credential_plan_spec(protocol, source, zero_trust_generic, has_cached)
            == CredentialPlan::StartWithoutCredentials) <==> (protocol != ProtocolKind::Sftp && (
        source == PasswordSourceKind::NoPassword || source == PasswordSourceKind::Prompt
            || zero_trust_generic)),
        protocol != ProtocolKind::Sftp && source != PasswordSourceKind::NoPassword && source
            != PasswordSourceKind::Prompt && !zero_trust_generic ==> credential_plan_spec(
            protocol,
            source,
            zero_trust_generic,
            has_cached,
        ) == (if has_cached {
            CredentialPlan::UseCached
        } else {
            CredentialPlan::ResolveInBackground
        }),
{
}

/// What a background resolution reported.
#[derive(Clone, Copy, Debug, PartialEq, Eq, Structural)]
pub enum ResolutionKind {
    Resolved,
    NotNeeded,
    VariableMissing,
    BackendNotConfigured,
    VaultEntryMissing,
    /// The resolution itself failed.
    Failed,
}

/// What follows a background resolution.
#[derive(Clone, Copy, Debug, PartialEq, Eq, Structural)]
pub enum ResolutionFollowUp {
    /// Start with the resolved credentials.
    StartWithResolved,
    /// Start without credentials.
    StartWithout,
    /// Ask the user for the variable's value and the backend to keep it in.
    AskVariableValue,
    /// Tell the user no backend is configured.
    ShowBackendMissing,
    /// Tell the user the vault entry is missing, then start without.
    WarnAndStartWithout,
}

/// A failed resolution is treated as one that needed nothing.
pub open spec fn follow_up_spec(k: ResolutionKind) -> ResolutionFollowUp {
    match k {
        ResolutionKind::Resolved => ResolutionFollowUp::StartWithResolved,
        ResolutionKind::NotNeeded => ResolutionFollowUp::StartWithout,
        ResolutionKind::Failed => ResolutionFollowUp::StartWithout,
        ResolutionKind::VariableMissing => ResolutionFollowUp::AskVariableValue,
        ResolutionKind::BackendNotConfigured => ResolutionFollowUp::ShowBackendMissing,
        ResolutionKind::VaultEntryMissing => ResolutionFollowUp::WarnAndStartWithout,
    }
}

/// What follows a background resolution.
pub fn resolution_follow_up(k: ResolutionKind) -> (r: ResolutionFollowUp)
    ensures
        r == follow_up_spec(k),
{
    match k {
        ResolutionKind::Resolved => ResolutionFollowUp::StartWithResolved,
        ResolutionKind::NotNeeded | ResolutionKind::Failed => ResolutionFollowUp::StartWithout,
        ResolutionKind::VariableMissing => ResolutionFollowUp::AskVariableValue,
        ResolutionKind::BackendNotConfigured => ResolutionFollowUp::ShowBackendMissing,
        ResolutionKind::VaultEntryMissing => ResolutionFollowUp::WarnAndStartWithout,
    }
}

/// Where resolved credentials go next.
#[derive(Clone, Copy, Debug, PartialEq, Eq, Structural)]
pub enum CredentialRoute {
    Rdp,
    Vnc,
    /// Cache the credentials (when complete) and start the session.
    CacheAndStart,
    Sftp,
}

/// The route of each protocol.
pub open spec fn credential_route_spec(p: ProtocolKind) -> CredentialRoute {
    match p {
        ProtocolKind::Rdp => CredentialRoute::Rdp,
        ProtocolKind::Vnc => CredentialRoute::Vnc,
        ProtocolKind::Sftp => CredentialRoute::Sftp,
        _ => CredentialRoute::CacheAndStart,
    }
}

/// Where resolved credentials of a protocol go next.
pub fn credential_route(p: ProtocolKind) -> (r: CredentialRoute)
    ensures
        r == credential_route_spec(p),
{
    match p {
        ProtocolKind::Rdp => CredentialRoute::Rdp,
        ProtocolKind::Vnc => CredentialRoute::Vnc,
        ProtocolKind::Sftp => CredentialRoute::Sftp,
        _ => CredentialRoute::CacheAndStart,
    }
}

/// The direct TCP probe runs when enabled, not skipped by the connection,
/// and the destination is not reached through a jump host.
pub open spec fn port_check_needed_spec(pre_connect_check: bool, skip_port_check: bool, has_jump_host: bool) -> bool {
    pre_connect_check && !skip_port_check && !has_jump_host
}

/// Whether the port is probed before connecting.
pub fn port_check_needed(pre_connect_check: bool, skip_port_check: bool, has_jump_host: bool) -> (r: bool)
    ensures
        r == port_check_needed_spec(pre_connect_check, skip_port_check, has_jump_host),
{
    pre_connect_check && !skip_port_check && !has_jump_host
}

/// Credentials as the backends return them.
#[derive(Clone, Debug)]
pub struct ResolvedCredentials {
    pub username: Option<String>,
    pub password: Option<String>,
}

/// Credentials kept for the session.
#[derive(Clone, Debug)]
pub struct CachedCredentials {
    pub username: String,
    pub password: String,
    pub domain: String,
}

/// Resolved credentials with both a user name and a password.
pub open spec fn complete_spec(resolved: Option<ResolvedCredentials>) -> bool {
    resolved matches Some(c) && c.username is Some && c.password is Some
}

/// How an RDP session starts.
#[derive(Clone, Debug)]
pub enum RdpStart {
    /// Start with these credentials.
    WithCredentials { username: String, password: String, domain: String },
    /// Ask for the password first.
    AskPassword,
}

/// An RDP session takes complete resolved credentials (no domain), else
/// the cached ones, else, for a connection without a password, its own user
/// name (or nothing) with an empty password; otherwise it asks.
pub fn rdp_credentials(
    resolved: &Option<ResolvedCredentials>,
    cached: &Option<CachedCredentials>,
    source: PasswordSourceKind,
    connection_username: &Option<String>,
) -> (r: RdpStart)
    ensures
        match r {
            RdpStart::WithCredentials { username, password, domain } => {
                if complete_spec(*resolved) {
                    username@ == resolved.unwrap().username.unwrap()@
                        && password@ == resolved.unwrap().password.unwrap()@
                        && domain@ == Seq::<char>::empty()
                } else if cached is Some {
                    username@ == cached.unwrap().username@ && password@ == cached.unwrap().password@
                        && domain@ == cached.unwrap().domain@
                } else {
                    source == PasswordSourceKind::NoPassword
                        && username@ == (match opt_string_view(*connection_username) {
                            Some(u) => u,
                            None => Seq::<char>::empty(),
                        })
                        && password@ == Seq::<char>::empty() && domain@ == Seq::<char>::empty()
                }
            },
            RdpStart::AskPassword => !complete_spec(*resolved) && cached is None && source != PasswordSourceKind::NoPassword,
        },
{
    match resolved {
        Some(c) => match (&c.username, &c.password) {
            (Some(u), Some(p)) => {
                return RdpStart::WithCredentials {
                    username: u.clone(),
                    password: p.clone(),
                    domain: String::new(),
                };
            },
            _ => {},
        },
        None => {},
    }
    match cached {
        Some(c) => {
            return RdpStart::WithCredentials {
                username: c.username.clone(),
                password: c.password.clone(),
                domain: c.domain.clone(),
            };
        },
        None => {},
    }
    if source == PasswordSourceKind::NoPassword {
        let username = match connection_username {
            Some(u) => u.clone(),
            None => String::new(),
        };
        RdpStart::WithCredentials { username, password: String::new(), domain: String::new() }
    } else {
        RdpStart::AskPassword
    }
}

/// How a VNC session starts.
#[derive(Clone, Debug)]
pub enum VncStart {
    /// Cache this password and start.
    CacheAndStart { password: String },
    /// Start with what is cached.
    StartCached,
    /// Start with an empty password (many servers need none).
    TryEmptyPassword,
    /// Ask for the password first.
    AskPassword,
}

/// A VNC session takes a resolved password, else the cached credentials,
/// else, for a connection without a password, an empty one; otherwise it
/// asks.
pub fn vnc_credentials(
    resolved: &Option<ResolvedCredentials>,
    has_cached: bool,
    source: PasswordSourceKind,
) -> (r: VncStart)
    ensures
        match r {
            VncStart::CacheAndStart { password } => resolved matches Some(c) && c.password is Some
                && password@ == c.password.unwrap()@,
            VncStart::StartCached => !(resolved matches Some(c) && c.password is Some) && has_cached,
            VncStart::TryEmptyPassword => !(resolved matches Some(c) && c.password is Some) && !has_cached
                && source == PasswordSourceKind::NoPassword,
            VncStart::AskPassword => !(resolved matches Some(c) && c.password is Some) && !has_cached
                && source != PasswordSourceKind::NoPassword,
        },
{
    match resolved {
        Some(c) => match &c.password {
            Some(p) => {
                return VncStart::CacheAndStart { password: p.clone() };
            },
            None => {},
        },
        None => {},
    }
    if has_cached {
        VncStart::StartCached
    } else if source == PasswordSourceKind::NoPassword {
        VncStart::TryEmptyPassword
    } else {
        VncStart::AskPassword
    }
}

/// Resolved credentials are cached for a terminal session when both the
/// user name and the password are known.
pub fn should_cache_resolved(resolved: &Option<ResolvedCredentials>) -> (r: bool)
    ensures
        r == complete_spec(*resolved),
{
    match resolved {
        Some(c) => c.username.is_some() && c.password.is_some(),
        None => false,
    }
}

// ---------------------------------------------------------------------------
// Secret backends
// ---------------------------------------------------------------------------

/// The secret backends.
#[derive(Clone, Copy, Debug, PartialEq, Eq, Structural)]
pub enum SecretBackend {
    KeePassXc,
    KdbxFile,
    Bitwarden,
    OnePassword,
    Passbolt,
    Pass,
    LibSecret,
    MacOsKeychain,
}

/// The display name under which a backend is offered for a variable, when
/// it is offered ahead of LibSecret.
pub open spec fn preferred_backend_name(b: SecretBackend) -> Option<Seq<char>> {
    match b {
        SecretBackend::KeePassXc => Some("KeePassXC"@),
        SecretBackend::KdbxFile => Some("KeePassXC"@),
        SecretBackend::Bitwarden => Some("Bitwarden"@),
        SecretBackend::OnePassword => Some("1Password"@),
        SecretBackend::Passbolt => Some("Passbolt"@),
        SecretBackend::Pass => Some("Pass"@),
        SecretBackend::LibSecret => None,
        SecretBackend::MacOsKeychain => None,
    }
}

/// The backends offered for storing a variable, with their display names:
/// the preferred backend first (unless it is LibSecret), then LibSecret.
#[derive(Clone, Debug)]
pub struct BackendChoices {
    pub names: Vec<String>,
    pub backends: Vec<SecretBackend>,
}

/// The names offered, in order.
pub open spec fn choice_names_spec(preferred: SecretBackend) -> Seq<Seq<char>> {
    match preferred_backend_name(preferred) {
        Some(n) => seq![n, "LibSecret"@],
        None => seq!["LibSecret"@],
    }
}

/// The backends offered, in order.
pub open spec fn choice_backends_spec(preferred: SecretBackend) -> Seq<SecretBackend> {
    match preferred_backend_name(preferred) {
        Some(_) => seq![preferred, SecretBackend::LibSecret],
        None => seq![SecretBackend::LibSecret],
    }
}

/// The backends offered for a variable's value.
pub fn variable_backend_choices(preferred: SecretBackend) -> (r: BackendChoices)
    ensures
        str_views(r.names@) == choice_names_spec(preferred),
        r.backends@ == choice_backends_spec(preferred),
{
    let mut names: Vec<String> = Vec::new();
    let mut backends: Vec<SecretBackend> = Vec::new();
    let first: Option<&str> = match preferred {
        SecretBackend::KeePassXc | SecretBackend::KdbxFile => Some("KeePassXC"),
        SecretBackend::Bitwarden => Some("Bitwarden"),
        SecretBackend::OnePassword => Some("1Password"),
        SecretBackend::Passbolt => Some("Passbolt"),
        SecretBackend::Pass => Some("Pass"),
        SecretBackend::LibSecret | SecretBackend::MacOsKeychain => None,
    };
    match first {
        Some(n) => {
            names.push(n.to_string());
            backends.push(preferred);
        },
        None => {},
    }
    names.push("LibSecret".to_string());
    backends.push(SecretBackend::LibSecret);
    assert(str_views(names@) =~= choice_names_spec(preferred));
    assert(backends@ =~= choice_backends_spec(preferred));
    BackendChoices { names, backends }
}

/// LibSecret is always offered, last; the names line up with the backends,
/// and the preferred backend leads unless it is LibSecret (or the macOS
/// keychain).
pub proof fn libsecret_always_offered(preferred: SecretBackend)
    ensures
        choice_backends_spec(preferred).len() == choice_names_spec(preferred).len(),
        choice_backends_spec(preferred).last() == SecretBackend::LibSecret,
        choice_names_spec(preferred).last() == "LibSecret"@,
        choice_backends_spec(preferred).len() == 2 ==> choice_backends_spec(preferred)[0] == preferred,
        (preferred == SecretBackend::LibSecret || preferred == SecretBackend::MacOsKeychain)
            <==> choice_backends_spec(preferred).len() == 1,
{
}

/// The backend at the index the user picked; LibSecret when the index is
/// out of range.
pub fn backend_for_index(backends: &[SecretBackend], index: u32) -> (r: SecretBackend)
    ensures
        (index as int) < backends.len() ==> r == backends@[index as int],
        (index as int) >= backends.len() ==> r == SecretBackend::LibSecret,
{
    let i: usize = index as usize;
    if i < backends.len() {
        backends[i]
    } else {
        SecretBackend::LibSecret
    }
}

/// Whether the password manager can be opened for the preferred backend:
/// always, but for a KeePass database, which must be enabled and exist.
pub open spec fn vault_action_enabled_spec(b: SecretBackend, kdbx_enabled: bool, kdbx_exists: bool) -> bool {
    match b {
        SecretBackend::KeePassXc | SecretBackend::KdbxFile => kdbx_enabled && kdbx_exists,
        _ => true,
    }
}

/// Whether the "open password manager" action is enabled.
pub fn vault_action_enabled(b: SecretBackend, kdbx_enabled: bool, kdbx_exists: bool) -> (r: bool)
    ensures
        r == vault_action_enabled_spec(b, kdbx_enabled, kdbx_exists),
{
    match b {
        SecretBackend::KeePassXc | SecretBackend::KdbxFile => kdbx_enabled && kdbx_exists,
        _ => true,
    }
}

/// The sidebar's vault button state `(enabled, database exists)`: both set
/// for backends without a database file.
pub fn vault_button_status(b: SecretBackend, kdbx_enabled: bool, kdbx_exists: bool) -> (r: (bool, bool))
    ensures
        r == (match b {
            SecretBackend::KeePassXc | SecretBackend::KdbxFile => (kdbx_enabled, kdbx_exists),
            _ => (true, true),
        }),
{
    match b {
        SecretBackend::KeePassXc | SecretBackend::KdbxFile => (kdbx_enabled, kdbx_exists),
        _ => (true, true),
    }
}

/// After a connection is created or edited, its password goes to the vault
/// when the password source is the vault and a password was entered.
pub fn vault_save_due(source: PasswordSourceKind, password_entered: bool) -> (r: bool)
    ensures
        r == (source == PasswordSourceKind::Vault && password_entered),
{
    source == PasswordSourceKind::Vault && password_entered
}

/// A renamed connection's stored credential is renamed too when its
/// password lives in the vault; other sources store nothing.
pub fn vault_rename_due(source: PasswordSourceKind) -> (r: bool)
    ensures
        r == (source == PasswordSourceKind::Vault),
{
    source == PasswordSourceKind::Vault
}

} // verus!
