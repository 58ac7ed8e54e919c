//! What a line's runtime knows of itself: the stage it is in, the history of its
//! attempts and the projection that is shown.

use vstd::prelude::*;
use vstd::string::*;

use crate::errors::{ErrorView, VolteError};
use crate::text::{opt, texts};

verus! {

/// The most connection attempts that are kept.
pub const MAX_CONNECTION_ATTEMPTS: usize = 100;

/// The most results of profile slots that are kept.
pub const MAX_PROFILE_ATTEMPT_RESULTS: usize = 12;

/// How far a connection has come. The names are what the user interface expects.
#[derive(Debug, Clone, Copy, PartialEq, Eq, Structural)]
pub enum VolteStage {
    Disabled,
    Starting,
    Identity,
    CarrierProfile,
    IdentityAka,
    Radio,
    ImsContext,
    Pcscf,
    Ipv6Preflight,
    Modem,
    Bearer,
    BearerDual,
    BearerIpv4,
    BearerIpv6,
    IpConfig,
    RegisterInitial,
    Ipsec,
    RegisterAuthenticated,
    RegisterRefresh,
    RegisterIpsec,
    RegisterUdp,
    Registered,
    Stopping,
}

impl VolteStage {
    pub open spec fn name(self) -> Seq<char> {
        match self {
            VolteStage::Disabled => "disabled"@,
            VolteStage::Starting => "starting"@,
            VolteStage::Identity => "identity"@,
            VolteStage::CarrierProfile => "carrier_profile"@,
            VolteStage::IdentityAka => "identity_aka"@,
            VolteStage::Radio => "radio"@,
            VolteStage::ImsContext => "ims_context"@,
            VolteStage::Pcscf => "pcscf"@,
            VolteStage::Ipv6Preflight => "ipv6_preflight"@,
            VolteStage::Modem => "modem"@,
            VolteStage::Bearer => "bearer"@,
            VolteStage::BearerDual => "bearer_dual"@,
            VolteStage::BearerIpv4 => "bearer_ipv4"@,
            VolteStage::BearerIpv6 => "bearer_ipv6"@,
            VolteStage::IpConfig => "ip_config"@,
            VolteStage::RegisterInitial => "register_initial"@,
            VolteStage::Ipsec => "ipsec"@,
            VolteStage::RegisterAuthenticated => "register_authenticated"@,
            VolteStage::RegisterRefresh => "register_refresh"@,
            VolteStage::RegisterIpsec => "register_ipsec"@,
            VolteStage::RegisterUdp => "register_udp"@,
            VolteStage::Registered => "registered"@,
            VolteStage::Stopping => "stopping"@,
        }
    }

    pub fn as_str(self) -> (r: &'static str)
        ensures
            r@ == self.name(),
    {
        match self {
            VolteStage::Disabled => "disabled",
            VolteStage::Starting => "starting",
            VolteStage::Identity => "identity",
            VolteStage::CarrierProfile => "carrier_profile",
            VolteStage::IdentityAka => "identity_aka",
            VolteStage::Radio => "radio",
            VolteStage::ImsContext => "ims_context",
            VolteStage::Pcscf => "pcscf",
            VolteStage::Ipv6Preflight => "ipv6_preflight",
            VolteStage::Modem => "modem",
            VolteStage::Bearer => "bearer",
            VolteStage::BearerDual => "bearer_dual",
            VolteStage::BearerIpv4 => "bearer_ipv4",
            VolteStage::BearerIpv6 => "bearer_ipv6",
            VolteStage::IpConfig => "ip_config",
            VolteStage::RegisterInitial => "register_initial",
            VolteStage::Ipsec => "ipsec",
            VolteStage::RegisterAuthenticated => "register_authenticated",
            VolteStage::RegisterRefresh => "register_refresh",
            VolteStage::RegisterIpsec => "register_ipsec",
            VolteStage::RegisterUdp => "register_udp",
            VolteStage::Registered => "registered",
            VolteStage::Stopping => "stopping",
        }
    }
}

/// The phase of a line. The names are what the user interface expects.
#[derive(Debug, Clone, Copy, PartialEq, Eq, Structural)]
pub enum VoltePhase {
    Disabled,
    Starting,
    Registered,
    Degraded,
    Stopping,
}

impl VoltePhase {
    pub open spec fn name(self) -> Seq<char> {
        match self {
            VoltePhase::Disabled => "disabled"@,
            VoltePhase::Starting => "starting"@,
            VoltePhase::Registered => "registered"@,
            VoltePhase::Degraded => "degraded"@,
            VoltePhase::Stopping => "stopping"@,
        }
    }

    pub fn as_str(self) -> (r: &'static str)
        ensures
            r@ == self.name(),
    {
        match self {
            VoltePhase::Disabled => "disabled",
            VoltePhase::Starting => "starting",
            VoltePhase::Registered => "registered",
            VoltePhase::Degraded => "degraded",
            VoltePhase::Stopping => "stopping",
        }
    }
}

/// Why a requested connection waits, retries or rests.
#[derive(Debug, Clone, Copy, PartialEq, Eq, Structural)]
pub enum VolteRecoveryState {
    Idle,
    WaitingModem,
    RestartingBaseband,
    Connecting,
    Registered,
    Exhausted,
}

impl VolteRecoveryState {
    pub open spec fn name(self) -> Seq<char> {
        match self {
            VolteRecoveryState::Idle => "idle"@,
            VolteRecoveryState::WaitingModem => "waiting_modem"@,
            VolteRecoveryState::RestartingBaseband => "restarting_baseband"@,
            VolteRecoveryState::Connecting => "connecting"@,
            VolteRecoveryState::Registered => "registered"@,
            VolteRecoveryState::Exhausted => "exhausted"@,
        }
    }

    pub fn as_str(self) -> (r: &'static str)
        ensures
            r@ == self.name(),
    {
        match self {
            VolteRecoveryState::Idle => "idle",
            VolteRecoveryState::WaitingModem => "waiting_modem",
            VolteRecoveryState::RestartingBaseband => "restarting_baseband",
            VolteRecoveryState::Connecting => "connecting",
            VolteRecoveryState::Registered => "registered",
            VolteRecoveryState::Exhausted => "exhausted",
        }
    }
}

/// How the registration is carried. The names are what the user interface expects.
#[derive(Debug, Clone, Copy, PartialEq, Eq, Structural)]
pub enum RegistrationMode {
    Unselected,
    Ipsec,
    Udp,
}

impl RegistrationMode {
    pub open spec fn name(self) -> Seq<char> {
        match self {
            RegistrationMode::Unselected => ""@,
            RegistrationMode::Ipsec => "ipsec"@,
            RegistrationMode::Udp => "udp"@,
        }
    }

    pub fn as_str(self) -> (r: &'static str)
        ensures
            r@ == self.name(),
    {
        match self {
            RegistrationMode::Unselected => "",
            RegistrationMode::Ipsec => "ipsec",
            RegistrationMode::Udp => "udp",
        }
    }
}

/// What the network said of voice. Only a refusal is `Denied`.
#[derive(Debug, Clone, Copy, PartialEq, Eq, Structural)]
pub enum ImsServiceState {
    Unknown,
    RegistrarAccepted,
    WithoutTelephoneIdentity,
    Denied,
}

impl ImsServiceState {
    pub open spec fn name(self) -> Seq<char> {
        match self {
            ImsServiceState::Unknown => "unknown"@,
            ImsServiceState::RegistrarAccepted => "registrar_accepted"@,
            ImsServiceState::WithoutTelephoneIdentity => "without_telephone_identity"@,
            ImsServiceState::Denied => "denied"@,
        }
    }

    pub fn as_str(self) -> (r: &'static str)
        ensures
            r@ == self.name(),
    {
        match self {
            ImsServiceState::Unknown => "unknown",
            ImsServiceState::RegistrarAccepted => "registrar_accepted",
            ImsServiceState::WithoutTelephoneIdentity => "without_telephone_identity",
            ImsServiceState::Denied => "denied",
        }
    }
}

/// The code of a voice service that nothing is known of.
pub const VOICE_SERVICE_UNKNOWN: &'static str = "ims_voice_service_unknown";

/// Where a carrier profile comes from.
#[derive(Debug, Clone, Copy, PartialEq, Eq, Structural)]
pub enum VolteProfileSource {
    Database,
    Catalog,
    Derived,
}

impl VolteProfileSource {
    pub open spec fn name(self) -> Seq<char> {
        match self {
            VolteProfileSource::Database => "database"@,
            VolteProfileSource::Catalog => "catalog"@,
            VolteProfileSource::Derived => "derived"@,
        }
    }

    pub fn as_str(self) -> (r: &'static str)
        ensures
            r@ == self.name(),
    {
        match self {
            VolteProfileSource::Database => "database",
            VolteProfileSource::Catalog => "catalog",
            VolteProfileSource::Derived => "derived",
        }
    }
}

/// One slot of the profiles to try on a line.
#[derive(Debug, PartialEq, Eq)]
pub struct VolteProfileCandidate {
    pub source: VolteProfileSource,
    pub profile_id: Option<String>,
}

impl VolteProfileCandidate {
    /// A slot that names no profile.
    pub fn automatic(source: VolteProfileSource) -> (r: Self)
        ensures
            r.source == source,
            r.profile_id is None,
    {
        VolteProfileCandidate { source, profile_id: None }
    }
}

/// One step of a connection, with what was known when it was taken.
#[derive(Debug, PartialEq, Eq)]
pub struct VolteConnectionAttempt {
    pub sequence: u32,
    pub stage: String,
    pub ip_family: Option<String>,
    pub outcome: String,
    pub error_code: Option<String>,
    pub detail: Option<String>,
    pub at_cid: Option<u8>,
    pub qmi_device: Option<String>,
    pub bearer_path: Option<String>,
    pub interface: Option<String>,
    pub pcscf: Option<String>,
    pub at: String,
}

pub struct AttemptView {
    pub sequence: u32,
    pub stage: Seq<char>,
    pub ip_family: Option<Seq<char>>,
    pub outcome: Seq<char>,
    pub error_code: Option<Seq<char>>,
    pub detail: Option<Seq<char>>,
    pub at_cid: Option<u8>,
    pub qmi_device: Option<Seq<char>>,
    pub bearer_path: Option<Seq<char>>,
    pub interface: Option<Seq<char>>,
    pub pcscf: Option<Seq<char>>,
    pub at: Seq<char>,
}

impl View for VolteConnectionAttempt {
    type V = AttemptView;

    open spec fn view(&self) -> AttemptView {
        AttemptView {
            sequence: self.sequence,
            stage: self.stage@,
            ip_family: opt(self.ip_family),
            outcome: self.outcome@,
            error_code: opt(self.error_code),
            detail: opt(self.detail),
            at_cid: self.at_cid,
            qmi_device: opt(self.qmi_device),
            bearer_path: opt(self.bearer_path),
            interface: opt(self.interface),
            pcscf: opt(self.pcscf),
            at: self.at@,
        }
    }
}

impl Clone for VolteConnectionAttempt {
    fn clone(&self) -> (r: Self)
        ensures
            r@ == self@,
    {
        VolteConnectionAttempt {
            sequence: self.sequence,
            stage: self.stage.clone(),
            ip_family: self.ip_family.clone(),
            outcome: self.outcome.clone(),
            error_code: self.error_code.clone(),
            detail: self.detail.clone(),
            at_cid: self.at_cid,
            qmi_device: self.qmi_device.clone(),
            bearer_path: self.bearer_path.clone(),
            interface: self.interface.clone(),
            pcscf: self.pcscf.clone(),
            at: self.at.clone(),
        }
    }
}

/// What came of one profile slot: what was asked for and what was in force.
#[derive(Debug, PartialEq, Eq)]
pub struct VolteProfileAttemptResult {
    pub index: u32,
    pub requested_source: String,
    pub requested_profile_id: Option<String>,
    pub effective_source: Option<String>,
    pub effective_profile_id: Option<String>,
    pub fallback_reason: Option<String>,
    pub outcome: String,
    pub error_code: Option<String>,
    pub at: String,
}

pub struct ProfileResultView {
    pub index: u32,
    pub requested_source: Seq<char>,
    pub requested_profile_id: Option<Seq<char>>,
    pub effective_source: Option<Seq<char>>,
    pub effective_profile_id: Option<Seq<char>>,
    pub fallback_reason: Option<Seq<char>>,
    pub outcome: Seq<char>,
    pub error_code: Option<Seq<char>>,
    pub at: Seq<char>,
}

impl View for VolteProfileAttemptResult {
    type V = ProfileResultView;

    open spec fn view(&self) -> ProfileResultView {
        ProfileResultView {
            index: self.index,
            requested_source: self.requested_source@,
            requested_profile_id: opt(self.requested_profile_id),
            effective_source: opt(self.effective_source),
            effective_profile_id: opt(self.effective_profile_id),
            fallback_reason: opt(self.fallback_reason),
            outcome: self.outcome@,
            error_code: opt(self.error_code),
            at: self.at@,
        }
    }
}

impl Clone for VolteProfileAttemptResult {
    fn clone(&self) -> (r: Self)
        ensures
            r@ == self@,
    {
        VolteProfileAttemptResult {
            index: self.index,
            requested_source: self.requested_source.clone(),
            requested_profile_id: self.requested_profile_id.clone(),
            effective_source: self.effective_source.clone(),
            effective_profile_id: self.effective_profile_id.clone(),
            fallback_reason: self.fallback_reason.clone(),
            outcome: self.outcome.clone(),
            error_code: self.error_code.clone(),
            at: self.at.clone(),
        }
    }
}

pub open spec fn attempts(list: Seq<VolteConnectionAttempt>) -> Seq<AttemptView> {
    list.map_values(|item: VolteConnectionAttempt| item@)
}

fn clone_attempts(list: &Vec<VolteConnectionAttempt>) -> (r: Vec<VolteConnectionAttempt>)
    ensures
        attempts(r@) == attempts(list@),
{
    let mut out: Vec<VolteConnectionAttempt> = Vec::new();
    let mut i: usize = 0;
    while i < list.len()
        invariant
            i <= list@.len(),
            out@.len() == i,
            forall|j: int| 0 <= j < i ==> (#[trigger] out@[j])@ == list@[j]@,
        decreases list@.len() - i,
    {
        out.push(list[i].clone());
        i += 1;
    }
    proof {
        assert(attempts(out@) =~= attempts(list@));
    }
    out
}

pub open spec fn profile_results(list: Seq<VolteProfileAttemptResult>) -> Seq<ProfileResultView> {
    list.map_values(|item: VolteProfileAttemptResult| item@)
}

fn clone_results(list: &Vec<VolteProfileAttemptResult>) -> (r: Vec<VolteProfileAttemptResult>)
    ensures
        profile_results(r@) == profile_results(list@),
{
    let mut out: Vec<VolteProfileAttemptResult> = Vec::new();
    let mut i: usize = 0;
    while i < list.len()
        invariant
            i <= list@.len(),
            out@.len() == i,
            forall|j: int| 0 <= j < i ==> (#[trigger] out@[j])@ == list@[j]@,
        decreases list@.len() - i,
    {
        out.push(list[i].clone());
        i += 1;
    }
    proof {
        assert(profile_results(out@) =~= profile_results(list@));
    }
    out
}

fn clone_texts(list: &Vec<String>) -> (r: Vec<String>)
    ensures
        texts(r@) == texts(list@),
{
    let mut out: Vec<String> = Vec::new();
    let mut i: usize = 0;
    while i < list.len()
        invariant
            i <= list@.len(),
            out@.len() == i,
            forall|j: int| 0 <= j < i ==> (#[trigger] out@[j])@ == list@[j]@,
        decreases list@.len() - i,
    {
        out.push(list[i].clone());
        i += 1;
    }
    proof {
        assert(texts(out@) =~= texts(list@));
    }
    out
}

/// What a line's runtime knows of itself.
#[derive(Debug, PartialEq, Eq)]
pub struct VolteSnapshot {
    pub phase: VoltePhase,
    pub stage: VolteStage,
    pub registration_mode: RegistrationMode,
    pub pcscf: Option<String>,
    pub session_started_at: Option<String>,
    pub registered_at: Option<String>,
    pub last_register_refresh_at: Option<String>,
    pub last_rx_at: Option<String>,
    pub last_tx_at: Option<String>,
    pub last_error: Option<String>,
    pub last_failure_at: Option<String>,
    pub next_retry_at: Option<String>,
    pub sent_count: u64,
    pub received_count: u64,
    pub duplicate_count: u64,
    pub reconnect_count: u64,
    pub register_refresh_count: u64,
    pub data_path_mode: Option<String>,
    /// The port that ModemManager uses for ordinary data.
    pub qmi_device: Option<String>,
    /// The port of the line's own IMS session.
    pub secondary_qmi_device: Option<String>,
    /// The channel behind that port.
    pub secondary_qmi_channel: Option<String>,
    pub bearer_interface: Option<String>,
    pub bearer_ip_type: Option<String>,
    pub bearer_path: Option<String>,
    pub at_cid: Option<u8>,
    pub current_ip_family: Option<String>,
    pub identity_source: Option<String>,
    /// The public identity in force after REGISTER.
    pub public_uri: Option<String>,
    /// All identities that the registrar returned, in their order.
    pub associated_uris: Vec<String>,
    /// What the network said of voice on this registration.
    pub voice_service: &'static str,
    pub voice_service_code: &'static str,
    pub voice_service_reason: Option<String>,
    /// The access that the network wants used instead.
    pub voice_alternative_service: Option<String>,
    pub profile_id: Option<String>,
    pub profile_source: Option<String>,
    pub profile_fallback_reason: Option<String>,
    pub profile_candidate_index: Option<u32>,
    pub profile_candidate_source: Option<String>,
    pub profile_candidate_profile_id: Option<String>,
    pub profile_attempt_results: Vec<VolteProfileAttemptResult>,
    pub usim_aid: Option<String>,
    pub isim_aid: Option<String>,
    pub connection_attempts: Vec<VolteConnectionAttempt>,
    pub recovery_state: VolteRecoveryState,
    pub recovery_source: Option<String>,
    pub retry_attempt: u32,
    pub retry_max: u32,
    pub modem_restart_attempt: u32,
    pub modem_restart_max: u32,
    pub manual_retry_available: bool,
}

pub struct SnapshotView {
    pub phase: VoltePhase,
    pub stage: VolteStage,
    pub registration_mode: RegistrationMode,
    pub pcscf: Option<Seq<char>>,
    pub session_started_at: Option<Seq<char>>,
    pub registered_at: Option<Seq<char>>,
    pub last_register_refresh_at: Option<Seq<char>>,
    pub last_rx_at: Option<Seq<char>>,
    pub last_tx_at: Option<Seq<char>>,
    pub last_error: Option<Seq<char>>,
    pub last_failure_at: Option<Seq<char>>,
    pub next_retry_at: Option<Seq<char>>,
    pub sent_count: u64,
    pub received_count: u64,
    pub duplicate_count: u64,
    pub reconnect_count: u64,
    pub register_refresh_count: u64,
    pub data_path_mode: Option<Seq<char>>,
    pub qmi_device: Option<Seq<char>>,
    pub secondary_qmi_device: Option<Seq<char>>,
    pub secondary_qmi_channel: Option<Seq<char>>,
    pub bearer_interface: Option<Seq<char>>,
    pub bearer_ip_type: Option<Seq<char>>,
    pub bearer_path: Option<Seq<char>>,
    pub at_cid: Option<u8>,
    pub current_ip_family: Option<Seq<char>>,
    pub identity_source: Option<Seq<char>>,
    pub public_uri: Option<Seq<char>>,
    pub associated_uris: Seq<Seq<char>>,
    pub voice_service: Seq<char>,
    pub voice_service_code: Seq<char>,
    pub voice_service_reason: Option<Seq<char>>,
    pub voice_alternative_service: Option<Seq<char>>,
    pub profile_id: Option<Seq<char>>,
    pub profile_source: Option<Seq<char>>,
    pub profile_fallback_reason: Option<Seq<char>>,
    pub profile_candidate_index: Option<u32>,
    pub profile_candidate_source: Option<Seq<char>>,
    pub profile_candidate_profile_id: Option<Seq<char>>,
    pub profile_attempt_results: Seq<ProfileResultView>,
    pub usim_aid: Option<Seq<char>>,
    pub isim_aid: Option<Seq<char>>,
    pub connection_attempts: Seq<AttemptView>,
    pub recovery_state: VolteRecoveryState,
    pub recovery_source: Option<Seq<char>>,
    pub retry_attempt: u32,
    pub retry_max: u32,
    pub modem_restart_attempt: u32,
    pub modem_restart_max: u32,
    pub manual_retry_available: bool,
}

impl View for VolteSnapshot {
    type V = SnapshotView;

    open spec fn view(&self) -> SnapshotView {
        SnapshotView {
            phase: self.phase,
            stage: self.stage,
            registration_mode: self.registration_mode,
            pcscf: opt(self.pcscf),
            session_started_at: opt(self.session_started_at),
            registered_at: opt(self.registered_at),
            last_register_refresh_at: opt(self.last_register_refresh_at),
            last_rx_at: opt(self.last_rx_at),
            last_tx_at: opt(self.last_tx_at),
            last_error: opt(self.last_error),
            last_failure_at: opt(self.last_failure_at),
            next_retry_at: opt(self.next_retry_at),
            sent_count: self.sent_count,
            received_count: self.received_count,
            duplicate_count: self.duplicate_count,
            reconnect_count: self.reconnect_count,
            register_refresh_count: self.register_refresh_count,
            data_path_mode: opt(self.data_path_mode),
            qmi_device: opt(self.qmi_device),
            secondary_qmi_device: opt(self.secondary_qmi_device),
            secondary_qmi_channel: opt(self.secondary_qmi_channel),
            bearer_interface: opt(self.bearer_interface),
            bearer_ip_type: opt(self.bearer_ip_type),
            bearer_path: opt(self.bearer_path),
            at_cid: self.at_cid,
            current_ip_family: opt(self.current_ip_family),
            identity_source: opt(self.identity_source),
            public_uri: opt(self.public_uri),
            associated_uris: texts(self.associated_uris@),
            voice_service: self.voice_service@,
            voice_service_code: self.voice_service_code@,
            voice_service_reason: opt(self.voice_service_reason),
            voice_alternative_service: opt(self.voice_alternative_service),
            profile_id: opt(self.profile_id),
            profile_source: opt(self.profile_source),
            profile_fallback_reason: opt(self.profile_fallback_reason),
            profile_candidate_index: self.profile_candidate_index,
            profile_candidate_source: opt(self.profile_candidate_source),
            profile_candidate_profile_id: opt(self.profile_candidate_profile_id),
            profile_attempt_results: profile_results(self.profile_attempt_results@),
            usim_aid: opt(self.usim_aid),
            isim_aid: opt(self.isim_aid),
            connection_attempts: attempts(self.connection_attempts@),
            recovery_state: self.recovery_state,
            recovery_source: opt(self.recovery_source),
            retry_attempt: self.retry_attempt,
            retry_max: self.retry_max,
            modem_restart_attempt: self.modem_restart_attempt,
            modem_restart_max: self.modem_restart_max,
            manual_retry_available: self.manual_retry_available,
        }
    }
}

impl Clone for VolteSnapshot {
    fn clone(&self) -> (r: Self)
        ensures
            r@ == self@,
    {
        VolteSnapshot {
            phase: self.phase,
            stage: self.stage,
            registration_mode: self.registration_mode,
            pcscf: self.pcscf.clone(),
            session_started_at: self.session_started_at.clone(),
            registered_at: self.registered_at.clone(),
            last_register_refresh_at: self.last_register_refresh_at.clone(),
            last_rx_at: self.last_rx_at.clone(),
            last_tx_at: self.last_tx_at.clone(),
            last_error: self.last_error.clone(),
            last_failure_at: self.last_failure_at.clone(),
            next_retry_at: self.next_retry_at.clone(),
            sent_count: self.sent_count,
            received_count: self.received_count,
            duplicate_count: self.duplicate_count,
            reconnect_count: self.reconnect_count,
            register_refresh_count: self.register_refresh_count,
            data_path_mode: self.data_path_mode.clone(),
            qmi_device: self.qmi_device.clone(),
            secondary_qmi_device: self.secondary_qmi_device.clone(),
            secondary_qmi_channel: self.secondary_qmi_channel.clone(),
            bearer_interface: self.bearer_interface.clone(),
            bearer_ip_type: self.bearer_ip_type.clone(),
            bearer_path: self.bearer_path.clone(),
            at_cid: self.at_cid,
            current_ip_family: self.current_ip_family.clone(),
            identity_source: self.identity_source.clone(),
            public_uri: self.public_uri.clone(),
            associated_uris: clone_texts(&self.associated_uris),
            voice_service: self.voice_service,
            voice_service_code: self.voice_service_code,
            voice_service_reason: self.voice_service_reason.clone(),
            voice_alternative_service: self.voice_alternative_service.clone(),
            profile_id: self.profile_id.clone(),
            profile_source: self.profile_source.clone(),
            profile_fallback_reason: self.profile_fallback_reason.clone(),
            profile_candidate_index: self.profile_candidate_index,
            profile_candidate_source: self.profile_candidate_source.clone(),
            profile_candidate_profile_id: self.profile_candidate_profile_id.clone(),
            profile_attempt_results: clone_results(&self.profile_attempt_results),
            usim_aid: self.usim_aid.clone(),
            isim_aid: self.isim_aid.clone(),
            connection_attempts: clone_attempts(&self.connection_attempts),
            recovery_state: self.recovery_state,
            recovery_source: self.recovery_source.clone(),
            retry_attempt: self.retry_attempt,
            retry_max: self.retry_max,
            modem_restart_attempt: self.modem_restart_attempt,
            modem_restart_max: self.modem_restart_max,
            manual_retry_available: self.manual_retry_available,
        }
    }
}

/// A line that is off.
pub open spec fn disabled_snapshot() -> SnapshotView {
    SnapshotView {
        phase: VoltePhase::Disabled,
        stage: VolteStage::Disabled,
        registration_mode: RegistrationMode::Unselected,
        pcscf: None,
        session_started_at: None,
        registered_at: None,
        last_register_refresh_at: None,
        last_rx_at: None,
        last_tx_at: None,
        last_error: None,
        last_failure_at: None,
        next_retry_at: None,
        sent_count: 0,
        received_count: 0,
        duplicate_count: 0,
        reconnect_count: 0,
        register_refresh_count: 0,
        data_path_mode: None,
        qmi_device: None,
        secondary_qmi_device: None,
        secondary_qmi_channel: None,
        bearer_interface: None,
        bearer_ip_type: None,
        bearer_path: None,
        at_cid: None,
        current_ip_family: None,
        identity_source: None,
        public_uri: None,
        associated_uris: Seq::empty(),
        voice_service: ImsServiceState::Unknown.name(),
        voice_service_code: VOICE_SERVICE_UNKNOWN@,
        voice_service_reason: None,
        voice_alternative_service: None,
        profile_id: None,
        profile_source: None,
        profile_fallback_reason: None,
        profile_candidate_index: None,
        profile_candidate_source: None,
        profile_candidate_profile_id: None,
        profile_attempt_results: Seq::empty(),
        usim_aid: None,
        isim_aid: None,
        connection_attempts: Seq::empty(),
        recovery_state: VolteRecoveryState::Idle,
        recovery_source: None,
        retry_attempt: 0,
        retry_max: 3,
        modem_restart_attempt: 0,
        modem_restart_max: 3,
        manual_retry_available: false,
    }
}

impl Default for VolteSnapshot {
    fn default() -> (r: Self)
        ensures
            r@ == disabled_snapshot(),
    {
        let r = VolteSnapshot {
            phase: VoltePhase::Disabled,
            stage: VolteStage::Disabled,
            registration_mode: RegistrationMode::Unselected,
            pcscf: None,
            session_started_at: None,
            registered_at: None,
            last_register_refresh_at: None,
            last_rx_at: None,
            last_tx_at: None,
            last_error: None,
            last_failure_at: None,
            next_retry_at: None,
            sent_count: 0,
            received_count: 0,
            duplicate_count: 0,
            reconnect_count: 0,
            register_refresh_count: 0,
            data_path_mode: None,
            qmi_device: None,
            secondary_qmi_device: None,
            secondary_qmi_channel: None,
            bearer_interface: None,
            bearer_ip_type: None,
            bearer_path: None,
            at_cid: None,
            current_ip_family: None,
            identity_source: None,
            public_uri: None,
            associated_uris: Vec::new(),
            voice_service: ImsServiceState::Unknown.as_str(),
            voice_service_code: VOICE_SERVICE_UNKNOWN,
            voice_service_reason: None,
            voice_alternative_service: None,
            profile_id: None,
            profile_source: None,
            profile_fallback_reason: None,
            profile_candidate_index: None,
            profile_candidate_source: None,
            profile_candidate_profile_id: None,
            profile_attempt_results: Vec::new(),
            usim_aid: None,
            isim_aid: None,
            connection_attempts: Vec::new(),
            recovery_state: VolteRecoveryState::Idle,
            recovery_source: None,
            retry_attempt: 0,
            retry_max: 3,
            modem_restart_attempt: 0,
            modem_restart_max: 3,
            manual_retry_available: false,
        };
        proof {
            assert(r@.associated_uris =~= Seq::empty());
            assert(r@.profile_attempt_results =~= Seq::empty());
            assert(r@.connection_attempts =~= Seq::empty());
        }
        r
    }
}

/// The stages that imply a bearer.
pub open spec fn implies_bearer(stage: VolteStage) -> bool {
    match stage {
        VolteStage::Disabled => false,
        VolteStage::Starting => false,
        VolteStage::Identity => false,
        VolteStage::CarrierProfile => false,
        VolteStage::IdentityAka => false,
        VolteStage::Radio => false,
        VolteStage::ImsContext => false,
        VolteStage::Pcscf => false,
        VolteStage::Ipv6Preflight => false,
        VolteStage::Modem => false,
        VolteStage::Stopping => false,
        _ => true,
    }
}

impl VolteSnapshot {
    /// Whether the line is registered.
    pub fn registered(&self) -> (r: bool)
        ensures
            r == (self@.phase == VoltePhase::Registered),
    {
        self.phase == VoltePhase::Registered
    }

    /// Whether the bearer is up: every stage from `Bearer` on implies it.
    pub fn bearer_up(&self) -> (r: bool)
        ensures
            r == implies_bearer(self@.stage),
    {
        match self.stage {
            VolteStage::Bearer => true,
            VolteStage::BearerDual => true,
            VolteStage::BearerIpv4 => true,
            VolteStage::BearerIpv6 => true,
            VolteStage::IpConfig => true,
            VolteStage::RegisterInitial => true,
            VolteStage::Ipsec => true,
            VolteStage::RegisterAuthenticated => true,
            VolteStage::RegisterRefresh => true,
            VolteStage::RegisterIpsec => true,
            VolteStage::RegisterUdp => true,
            VolteStage::Registered => true,
            _ => false,
        }
    }

    /// Whether a way to carry SIP was selected.
    pub fn signaling_ready(&self) -> (r: bool)
        ensures
            r == (self@.registration_mode != RegistrationMode::Unselected),
    {
        self.registration_mode != RegistrationMode::Unselected
    }
}

/// The projection of a snapshot that is shown.
#[derive(Debug, PartialEq, Eq)]
pub struct VolteRuntimeStatus {
    pub phase: String,
    pub stage: String,
    pub registration_mode: String,
    pub pcscf: Option<String>,
    pub session_started_at: Option<String>,
    pub registered_at: Option<String>,
    pub last_register_refresh_at: Option<String>,
    pub last_rx_at: Option<String>,
    pub last_tx_at: Option<String>,
    pub last_error: Option<String>,
    pub last_failure_at: Option<String>,
    pub next_retry_at: Option<String>,
    pub registered: bool,
    pub sent_count: u64,
    pub received_count: u64,
    pub duplicate_count: u64,
    pub reconnect_count: u64,
    pub register_refresh_count: u64,
    pub data_path_mode: Option<String>,
    pub qmi_device: Option<String>,
    pub secondary_qmi_device: Option<String>,
    pub secondary_qmi_channel: Option<String>,
    pub bearer_interface: Option<String>,
    pub bearer_ip_type: Option<String>,
    pub current_ip_family: Option<String>,
    pub identity_source: Option<String>,
    pub public_uri: Option<String>,
    pub associated_uris: Vec<String>,
    pub voice_service: String,
    pub voice_service_code: String,
    pub voice_service_reason: Option<String>,
    pub voice_alternative_service: Option<String>,
    pub profile_id: Option<String>,
    pub profile_source: Option<String>,
    pub profile_fallback_reason: Option<String>,
    pub profile_candidate_index: Option<u32>,
    pub profile_candidate_source: Option<String>,
    pub profile_candidate_profile_id: Option<String>,
    pub profile_attempt_results: Vec<VolteProfileAttemptResult>,
    pub usim_aid: Option<String>,
    pub isim_aid: Option<String>,
    pub connection_attempts: Vec<VolteConnectionAttempt>,
    pub recovery_state: String,
    pub recovery_source: Option<String>,
    pub retry_attempt: u32,
    pub retry_max: u32,
    pub modem_restart_attempt: u32,
    pub modem_restart_max: u32,
    pub manual_retry_available: bool,
}

pub struct StatusView {
    pub phase: Seq<char>,
    pub stage: Seq<char>,
    pub registration_mode: Seq<char>,
    pub pcscf: Option<Seq<char>>,
    pub session_started_at: Option<Seq<char>>,
    pub registered_at: Option<Seq<char>>,
    pub last_register_refresh_at: Option<Seq<char>>,
    pub last_rx_at: Option<Seq<char>>,
    pub last_tx_at: Option<Seq<char>>,
    pub last_error: Option<Seq<char>>,
    pub last_failure_at: Option<Seq<char>>,
    pub next_retry_at: Option<Seq<char>>,
    pub registered: bool,
    pub sent_count: u64,
    pub received_count: u64,
    pub duplicate_count: u64,
    pub reconnect_count: u64,
    pub register_refresh_count: u64,
    pub data_path_mode: Option<Seq<char>>,
    pub qmi_device: Option<Seq<char>>,
    pub secondary_qmi_device: Option<Seq<char>>,
    pub secondary_qmi_channel: Option<Seq<char>>,
    pub bearer_interface: Option<Seq<char>>,
    pub bearer_ip_type: Option<Seq<char>>,
    pub current_ip_family: Option<Seq<char>>,
    pub identity_source: Option<Seq<char>>,
    pub public_uri: Option<Seq<char>>,
    pub associated_uris: Seq<Seq<char>>,
    pub voice_service: Seq<char>,
    pub voice_service_code: Seq<char>,
    pub voice_service_reason: Option<Seq<char>>,
    pub voice_alternative_service: Option<Seq<char>>,
    pub profile_id: Option<Seq<char>>,
    pub profile_source: Option<Seq<char>>,
    pub profile_fallback_reason: Option<Seq<char>>,
    pub profile_candidate_index: Option<u32>,
    pub profile_candidate_source: Option<Seq<char>>,
    pub profile_candidate_profile_id: Option<Seq<char>>,
    pub profile_attempt_results: Seq<ProfileResultView>,
    pub usim_aid: Option<Seq<char>>,
    pub isim_aid: Option<Seq<char>>,
    pub connection_attempts: Seq<AttemptView>,
    pub recovery_state: Seq<char>,
    pub recovery_source: Option<Seq<char>>,
    pub retry_attempt: u32,
    pub retry_max: u32,
    pub modem_restart_attempt: u32,
    pub modem_restart_max: u32,
    pub manual_retry_available: bool,
}

impl View for VolteRuntimeStatus {
    type V = StatusView;

    open spec fn view(&self) -> StatusView {
        StatusView {
            phase: self.phase@,
            stage: self.stage@,
            registration_mode: self.registration_mode@,
            pcscf: opt(self.pcscf),
            session_started_at: opt(self.session_started_at),
            registered_at: opt(self.registered_at),
            last_register_refresh_at: opt(self.last_register_refresh_at),
            last_rx_at: opt(self.last_rx_at),
            last_tx_at: opt(self.last_tx_at),
            last_error: opt(self.last_error),
            last_failure_at: opt(self.last_failure_at),
            next_retry_at: opt(self.next_retry_at),
            registered: self.registered,
            sent_count: self.sent_count,
            received_count: self.received_count,
            duplicate_count: self.duplicate_count,
            reconnect_count: self.reconnect_count,
            register_refresh_count: self.register_refresh_count,
            data_path_mode: opt(self.data_path_mode),
            qmi_device: opt(self.qmi_device),
            secondary_qmi_device: opt(self.secondary_qmi_device),
            secondary_qmi_channel: opt(self.secondary_qmi_channel),
            bearer_interface: opt(self.bearer_interface),
            bearer_ip_type: opt(self.bearer_ip_type),
            current_ip_family: opt(self.current_ip_family),
            identity_source: opt(self.identity_source),
            public_uri: opt(self.public_uri),
            associated_uris: texts(self.associated_uris@),
            voice_service: self.voice_service@,
            voice_service_code: self.voice_service_code@,
            voice_service_reason: opt(self.voice_service_reason),
            voice_alternative_service: opt(self.voice_alternative_service),
            profile_id: opt(self.profile_id),
            profile_source: opt(self.profile_source),
            profile_fallback_reason: opt(self.profile_fallback_reason),
            profile_candidate_index: self.profile_candidate_index,
            profile_candidate_source: opt(self.profile_candidate_source),
            profile_candidate_profile_id: opt(self.profile_candidate_profile_id),
            profile_attempt_results: profile_results(self.profile_attempt_results@),
            usim_aid: opt(self.usim_aid),
            isim_aid: opt(self.isim_aid),
            connection_attempts: attempts(self.connection_attempts@),
            recovery_state: self.recovery_state@,
            recovery_source: opt(self.recovery_source),
            retry_attempt: self.retry_attempt,
            retry_max: self.retry_max,
            modem_restart_attempt: self.modem_restart_attempt,
            modem_restart_max: self.modem_restart_max,
            manual_retry_available: self.manual_retry_available,
        }
    }
}

/// What is shown of a snapshot: all of it but the bearer's path and the context.
pub open spec fn shown(s: SnapshotView) -> StatusView {
    StatusView {
        phase: s.phase.name(),
        stage: s.stage.name(),
        registration_mode: s.registration_mode.name(),
        pcscf: s.pcscf,
        session_started_at: s.session_started_at,
        registered_at: s.registered_at,
        last_register_refresh_at: s.last_register_refresh_at,
        last_rx_at: s.last_rx_at,
        last_tx_at: s.last_tx_at,
        last_error: s.last_error,
        last_failure_at: s.last_failure_at,
        next_retry_at: s.next_retry_at,
        registered: s.phase == VoltePhase::Registered,
        sent_count: s.sent_count,
        received_count: s.received_count,
        duplicate_count: s.duplicate_count,
        reconnect_count: s.reconnect_count,
        register_refresh_count: s.register_refresh_count,
        data_path_mode: s.data_path_mode,
        qmi_device: s.qmi_device,
        secondary_qmi_device: s.secondary_qmi_device,
        secondary_qmi_channel: s.secondary_qmi_channel,
        bearer_interface: s.bearer_interface,
        bearer_ip_type: s.bearer_ip_type,
        current_ip_family: s.current_ip_family,
        identity_source: s.identity_source,
        public_uri: s.public_uri,
        associated_uris: s.associated_uris,
        voice_service: s.voice_service,
        voice_service_code: s.voice_service_code,
        voice_service_reason: s.voice_service_reason,
        voice_alternative_service: s.voice_alternative_service,
        profile_id: s.profile_id,
        profile_source: s.profile_source,
        profile_fallback_reason: s.profile_fallback_reason,
        profile_candidate_index: s.profile_candidate_index,
        profile_candidate_source: s.profile_candidate_source,
        profile_candidate_profile_id: s.profile_candidate_profile_id,
        profile_attempt_results: s.profile_attempt_results,
        usim_aid: s.usim_aid,
        isim_aid: s.isim_aid,
        connection_attempts: s.connection_attempts,
        recovery_state: s.recovery_state.name(),
        recovery_source: s.recovery_source,
        retry_attempt: s.retry_attempt,
        retry_max: s.retry_max,
        modem_restart_attempt: s.modem_restart_attempt,
        modem_restart_max: s.modem_restart_max,
        manual_retry_available: s.manual_retry_available,
    }
}

impl VolteRuntimeStatus {
    /// The projection of a snapshot.
    pub fn from(s: &VolteSnapshot) -> (r: Self)
        ensures
            r@ == shown(s@),
    {
        VolteRuntimeStatus {
            phase: s.phase.as_str().to_string(),
            stage: s.stage.as_str().to_string(),
            registration_mode: s.registration_mode.as_str().to_string(),
            pcscf: s.pcscf.clone(),
            session_started_at: s.session_started_at.clone(),
            registered_at: s.registered_at.clone(),
            last_register_refresh_at: s.last_register_refresh_at.clone(),
            last_rx_at: s.last_rx_at.clone(),
            last_tx_at: s.last_tx_at.clone(),
            last_error: s.last_error.clone(),
            last_failure_at: s.last_failure_at.clone(),
            next_retry_at: s.next_retry_at.clone(),
            registered: s.registered(),
            sent_count: s.sent_count,
            received_count: s.received_count,
            duplicate_count: s.duplicate_count,
            reconnect_count: s.reconnect_count,
            register_refresh_count: s.register_refresh_count,
            data_path_mode: s.data_path_mode.clone(),
            qmi_device: s.qmi_device.clone(),
            secondary_qmi_device: s.secondary_qmi_device.clone(),
            secondary_qmi_channel: s.secondary_qmi_channel.clone(),
            bearer_interface: s.bearer_interface.clone(),
            bearer_ip_type: s.bearer_ip_type.clone(),
            current_ip_family: s.current_ip_family.clone(),
            identity_source: s.identity_source.clone(),
            public_uri: s.public_uri.clone(),
            associated_uris: clone_texts(&s.associated_uris),
            voice_service: s.voice_service.to_string(),
            voice_service_code: s.voice_service_code.to_string(),
            voice_service_reason: s.voice_service_reason.clone(),
            voice_alternative_service: s.voice_alternative_service.clone(),
            profile_id: s.profile_id.clone(),
            profile_source: s.profile_source.clone(),
            profile_fallback_reason: s.profile_fallback_reason.clone(),
            profile_candidate_index: s.profile_candidate_index,
            profile_candidate_source: s.profile_candidate_source.clone(),
            profile_candidate_profile_id: s.profile_candidate_profile_id.clone(),
            profile_attempt_results: clone_results(&s.profile_attempt_results),
            usim_aid: s.usim_aid.clone(),
            isim_aid: s.isim_aid.clone(),
            connection_attempts: clone_attempts(&s.connection_attempts),
            recovery_state: s.recovery_state.as_str().to_string(),
            recovery_source: s.recovery_source.clone(),
            retry_attempt: s.retry_attempt,
            retry_max: s.retry_max,
            modem_restart_attempt: s.modem_restart_attempt,
            modem_restart_max: s.modem_restart_max,
            manual_retry_available: s.manual_retry_available,
        }
    }
}

/// The last `max` items.
pub open spec fn newest<T>(list: Seq<T>, max: nat) -> Seq<T> {
    if list.len() > max {
        list.skip(list.len() - max)
    } else {
        list
    }
}

/// The number of the next attempt.
pub open spec fn next_sequence(list: Seq<AttemptView>) -> u32 {
    if list.len() == 0 {
        1
    } else if list.last().sequence == u32::MAX {
        u32::MAX
    } else {
        (list.last().sequence + 1) as u32
    }
}

/// The error behind an optional reference.
pub open spec fn error_view(error: Option<&VolteError>) -> Option<ErrorView> {
    match error {
        Some(error) => Some(error@),
        None => None,
    }
}

pub open spec fn error_code(error: Option<ErrorView>) -> Option<Seq<char>> {
    match error {
        Some(error) => Some(error.code),
        None => None,
    }
}

pub open spec fn ref_text(value: Option<&str>) -> Option<Seq<char>> {
    match value {
        Some(value) => Some(value@),
        None => None,
    }
}

fn code_of(error: Option<&VolteError>) -> (r: Option<String>)
    ensures
        opt(r) == error_code(error_view(error)),
{
    match error {
        Some(error) => Some(error.code().to_string()),
        None => None,
    }
}

/// Drops the oldest items beyond `max`.
fn keep_newest<T>(list: &mut Vec<T>, max: usize)
    ensures
        final(list)@ == newest(old(list)@, max as nat),
{
    let ghost before = list@;
    let n = list.len();
    let mut dropped: usize = 0;
    proof {
        assert(before.skip(0) =~= before);
    }
    while list.len() > max
        invariant
            dropped <= before.len(),
            list@ == before.skip(dropped as int),
            dropped > 0 ==> list@.len() >= max,
            before.len() == n,
        decreases list@.len(),
    {
        proof {
            assert(before.skip(dropped as int).remove(0) =~= before.skip(dropped as int + 1));
        }
        let _ = list.remove(0);
        dropped += 1;
    }
    proof {
        assert(list@ =~= newest(before, max as nat));
    }
}

impl SnapshotView {
    /// An attempt at this point of the connection.
    pub open spec fn attempt(
        self,
        stage: VolteStage,
        ip_family: Option<Seq<char>>,
        outcome: Seq<char>,
        error: Option<ErrorView>,
        detail: Option<Seq<char>>,
        at: Seq<char>,
    ) -> AttemptView {
        AttemptView {
            sequence: next_sequence(self.connection_attempts),
            stage: stage.name(),
            ip_family,
            outcome,
            error_code: error_code(error),
            detail: if detail is Some {
                detail
            } else {
                match error {
                    Some(error) => error.detail,
                    None => None,
                }
            },
            at_cid: self.at_cid,
            qmi_device: self.qmi_device,
            bearer_path: self.bearer_path,
            interface: self.bearer_interface,
            pcscf: self.pcscf,
            at,
        }
    }

    /// The snapshot with such an attempt in its history.
    pub open spec fn recorded(
        self,
        stage: VolteStage,
        ip_family: Option<Seq<char>>,
        outcome: Seq<char>,
        error: Option<ErrorView>,
        detail: Option<Seq<char>>,
        at: Seq<char>,
    ) -> SnapshotView {
        SnapshotView {
            connection_attempts: newest(
                self.connection_attempts.push(
                    self.attempt(stage, ip_family, outcome, error, detail, at),
                ),
                MAX_CONNECTION_ATTEMPTS as nat,
            ),
            ..self
        }
    }

    /// The snapshot without the candidates of the last batch.
    pub open spec fn fresh_batch(self) -> SnapshotView {
        SnapshotView {
            profile_candidate_index: None,
            profile_candidate_source: None,
            profile_candidate_profile_id: None,
            profile_attempt_results: Seq::empty(),
            ..self
        }
    }

    /// The snapshot without anything that belongs to one session. The counters and
    /// the results of the batch stay.
    pub open spec fn between_profiles(self) -> SnapshotView {
        SnapshotView {
            phase: VoltePhase::Starting,
            stage: VolteStage::Starting,
            registration_mode: RegistrationMode::Unselected,
            pcscf: None,
            session_started_at: None,
            registered_at: None,
            last_register_refresh_at: None,
            last_rx_at: None,
            last_tx_at: None,
            data_path_mode: None,
            secondary_qmi_device: None,
            secondary_qmi_channel: None,
            bearer_interface: None,
            bearer_ip_type: None,
            bearer_path: None,
            at_cid: None,
            current_ip_family: None,
            identity_source: None,
            public_uri: None,
            voice_service_reason: None,
            voice_alternative_service: None,
            profile_id: None,
            profile_source: None,
            profile_fallback_reason: None,
            usim_aid: None,
            isim_aid: None,
            associated_uris: Seq::empty(),
            voice_service: ImsServiceState::Unknown.name(),
            voice_service_code: VOICE_SERVICE_UNKNOWN@,
            ..self
        }
    }

    /// The snapshot at the start of a slot.
    pub open spec fn slot_begun(
        self,
        index: u32,
        source: VolteProfileSource,
        profile_id: Option<Seq<char>>,
    ) -> SnapshotView {
        SnapshotView {
            profile_candidate_index: Some(index),
            profile_candidate_source: Some(source.name()),
            profile_candidate_profile_id: profile_id,
            profile_id: None,
            profile_source: None,
            profile_fallback_reason: None,
            ..self
        }
    }

    /// The result of a slot.
    pub open spec fn slot_result(
        self,
        index: u32,
        source: VolteProfileSource,
        profile_id: Option<Seq<char>>,
        outcome: Seq<char>,
        error: Option<ErrorView>,
        at: Seq<char>,
    ) -> ProfileResultView {
        ProfileResultView {
            index,
            requested_source: source.name(),
            requested_profile_id: profile_id,
            effective_source: self.profile_source,
            effective_profile_id: self.profile_id,
            fallback_reason: self.profile_fallback_reason,
            outcome,
            error_code: error_code(error),
            at,
        }
    }

    /// The snapshot after a teardown: off, with the two lifetime counters and the
    /// reason, where there is one.
    pub open spec fn torn_down(self, reason: Seq<char>) -> SnapshotView {
        SnapshotView {
            reconnect_count: self.reconnect_count,
            register_refresh_count: self.register_refresh_count,
            last_error: if reason.len() == 0 {
                None
            } else {
                Some(reason)
            },
            ..disabled_snapshot()
        }
    }
}

/// The runtime of a line: its snapshot, and a generation that a teardown advances so
/// that work under way can tell that it was cancelled.
#[derive(Debug, PartialEq, Eq)]
pub struct VolteRuntime {
    pub snapshot: VolteSnapshot,
    pub generation: u64,
}

impl Default for VolteRuntime {
    fn default() -> (r: Self)
        ensures
            r.snapshot@ == disabled_snapshot(),
            r.generation == 0,
    {
        VolteRuntime::new()
    }
}

impl VolteRuntime {
    /// A line that is off.
    pub fn new() -> (r: Self)
        ensures
            r.snapshot@ == disabled_snapshot(),
            r.generation == 0,
    {
        VolteRuntime { snapshot: VolteSnapshot::default(), generation: 0 }
    }

    /// The snapshot.
    pub fn snapshot(&self) -> (r: VolteSnapshot)
        ensures
            r@ == self.snapshot@,
    {
        self.snapshot.clone()
    }

    /// The projection that is shown.
    pub fn status(&self) -> (r: VolteRuntimeStatus)
        ensures
            r@ == shown(self.snapshot@),
    {
        VolteRuntimeStatus::from(&self.snapshot)
    }

    /// The generation. Work under way compares it to tell whether it was cancelled.
    pub fn generation(&self) -> (r: u64)
        ensures
            r == self.generation,
    {
        self.generation
    }

    /// Records a step of a connection, with what the snapshot knows at that moment.
    /// The oldest steps beyond the limit are dropped.
    pub fn record_attempt(
        &mut self,
        stage: VolteStage,
        ip_family: Option<&str>,
        outcome: &str,
        error: Option<&VolteError>,
        detail: Option<String>,
        at: &str,
    )
        ensures
            final(self).generation == old(self).generation,
            final(self).snapshot@ == old(self).snapshot@.recorded(
                stage,
                ref_text(ip_family),
                outcome@,
                error_view(error),
                opt(detail),
                at@,
            ),
    {
        let n = self.snapshot.connection_attempts.len();
        let sequence: u32 = if n == 0 {
            1
        } else {
            let last = self.snapshot.connection_attempts[n - 1].sequence;
            if last == u32::MAX {
                u32::MAX
            } else {
                last + 1
            }
        };
        proof {
            if n > 0 {
                assert(self.snapshot@.connection_attempts.last()
                    == self.snapshot.connection_attempts@[n - 1]@);
            }
            assert(sequence == next_sequence(self.snapshot@.connection_attempts));
        }
        let detail = match detail {
            Some(detail) => Some(detail),
            None => match error {
                Some(error) => match error.detail() {
                    Some(detail) => Some(detail.to_string()),
                    None => None,
                },
                None => None,
            },
        };
        let attempt = VolteConnectionAttempt {
            sequence,
            stage: stage.as_str().to_string(),
            ip_family: match ip_family {
                Some(family) => Some(family.to_string()),
                None => None,
            },
            outcome: outcome.to_string(),
            error_code: code_of(error),
            detail,
            at_cid: self.snapshot.at_cid,
            qmi_device: self.snapshot.qmi_device.clone(),
            bearer_path: self.snapshot.bearer_path.clone(),
            interface: self.snapshot.bearer_interface.clone(),
            pcscf: self.snapshot.pcscf.clone(),
            at: at.to_string(),
        };
        let ghost before = self.snapshot.connection_attempts@;
        let ghost view = attempt@;
        self.snapshot.connection_attempts.push(attempt);
        keep_newest(&mut self.snapshot.connection_attempts, MAX_CONNECTION_ATTEMPTS);
        proof {
            assert(attempts(before.push(attempt)) =~= attempts(before).push(view));
            assert(attempts(newest(before.push(attempt), MAX_CONNECTION_ATTEMPTS as nat))
                =~= newest(
                attempts(before.push(attempt)),
                MAX_CONNECTION_ATTEMPTS as nat,
            ));
        }
    }

    /// Begins a batch of profile slots: the candidates of the last one are dropped.
    pub fn begin_profile_attempt_batch(&mut self)
        ensures
            final(self).generation == old(self).generation,
            final(self).snapshot@ == old(self).snapshot@.fresh_batch(),
    {
        self.snapshot.profile_candidate_index = None;
        self.snapshot.profile_candidate_source = None;
        self.snapshot.profile_candidate_profile_id = None;
        self.snapshot.profile_attempt_results = Vec::new();
        proof {
            assert(self.snapshot@.profile_attempt_results =~= Seq::empty());
        }
    }

    /// Clears all that belongs to one session before the next slot is tried. The
    /// batch goes on, so its counters, its results and the generation stay.
    pub fn prepare_profile_switch(&mut self)
        ensures
            final(self).generation == old(self).generation,
            final(self).snapshot@ == old(self).snapshot@.between_profiles(),
    {
        self.snapshot.phase = VoltePhase::Starting;
        self.snapshot.stage = VolteStage::Starting;
        self.snapshot.registration_mode = RegistrationMode::Unselected;
        self.snapshot.pcscf = None;
        self.snapshot.session_started_at = None;
        self.snapshot.registered_at = None;
        self.snapshot.last_register_refresh_at = None;
        self.snapshot.last_rx_at = None;
        self.snapshot.last_tx_at = None;
        self.snapshot.data_path_mode = None;
        self.snapshot.secondary_qmi_device = None;
        self.snapshot.secondary_qmi_channel = None;
        self.snapshot.bearer_interface = None;
        self.snapshot.bearer_ip_type = None;
        self.snapshot.bearer_path = None;
        self.snapshot.at_cid = None;
        self.snapshot.current_ip_family = None;
        self.snapshot.identity_source = None;
        self.snapshot.public_uri = None;
        self.snapshot.voice_service_reason = None;
        self.snapshot.voice_alternative_service = None;
        self.snapshot.profile_id = None;
        self.snapshot.profile_source = None;
        self.snapshot.profile_fallback_reason = None;
        self.snapshot.usim_aid = None;
        self.snapshot.isim_aid = None;
        self.snapshot.associated_uris = Vec::new();
        self.snapshot.voice_service = ImsServiceState::Unknown.as_str();
        self.snapshot.voice_service_code = VOICE_SERVICE_UNKNOWN;
        proof {
            assert(self.snapshot@.associated_uris =~= Seq::empty());
        }
    }

    /// Begins a slot. What was in force before is cleared, so that an early failure
    /// does not report it.
    pub fn begin_profile_attempt(&mut self, index: u32, candidate: &VolteProfileCandidate)
        ensures
            final(self).generation == old(self).generation,
            final(self).snapshot@ == old(self).snapshot@.slot_begun(
                index,
                candidate.source,
                opt(candidate.profile_id),
            ),
    {
        self.snapshot.profile_candidate_index = Some(index);
        self.snapshot.profile_candidate_source = Some(candidate.source.as_str().to_string());
        self.snapshot.profile_candidate_profile_id = candidate.profile_id.clone();
        self.snapshot.profile_id = None;
        self.snapshot.profile_source = None;
        self.snapshot.profile_fallback_reason = None;
    }

    /// Ends a slot: its result is kept, with what was asked for and what was in
    /// force. The oldest results beyond the limit are dropped.
    pub fn finish_profile_attempt(
        &mut self,
        index: u32,
        candidate: &VolteProfileCandidate,
        outcome: &str,
        error: Option<&VolteError>,
        at: &str,
    )
        ensures
            final(self).generation == old(self).generation,
            final(self).snapshot@ == (SnapshotView {
                profile_attempt_results: newest(
                    old(self).snapshot@.profile_attempt_results.push(
                        old(self).snapshot@.slot_result(
                            index,
                            candidate.source,
                            opt(candidate.profile_id),
                            outcome@,
                            error_view(error),
                            at@,
                        ),
                    ),
                    MAX_PROFILE_ATTEMPT_RESULTS as nat,
                ),
                ..old(self).snapshot@
            }),
    {
        let result = VolteProfileAttemptResult {
            index,
            requested_source: candidate.source.as_str().to_string(),
            requested_profile_id: candidate.profile_id.clone(),
            effective_source: self.snapshot.profile_source.clone(),
            effective_profile_id: self.snapshot.profile_id.clone(),
            fallback_reason: self.snapshot.profile_fallback_reason.clone(),
            outcome: outcome.to_string(),
            error_code: code_of(error),
            at: at.to_string(),
        };
        let ghost before = self.snapshot.profile_attempt_results@;
        let ghost view = result@;
        self.snapshot.profile_attempt_results.push(result);
        keep_newest(&mut self.snapshot.profile_attempt_results, MAX_PROFILE_ATTEMPT_RESULTS);
        proof {
            assert(profile_results(before.push(result)) =~= profile_results(before).push(view));
            assert(profile_results(
                newest(before.push(result), MAX_PROFILE_ATTEMPT_RESULTS as nat),
            ) =~= newest(
                profile_results(before.push(result)),
                MAX_PROFILE_ATTEMPT_RESULTS as nat,
            ));
        }
    }

    /// Tears the runtime down: the generation advances, which cancels work under way,
    /// and the snapshot is that of a line that is off.
    pub fn reset_runtime(&mut self, reason: &str) -> (r: VolteSnapshot)
        ensures
            final(self).generation == (if old(self).generation == u64::MAX {
                0
            } else {
                (old(self).generation + 1) as u64
            }),
            final(self).snapshot@ == old(self).snapshot@.torn_down(reason@),
            r@ == final(self).snapshot@,
    {
        self.generation = if self.generation == u64::MAX {
            0
        } else {
            self.generation + 1
        };
        let mut snapshot = VolteSnapshot::default();
        snapshot.reconnect_count = self.snapshot.reconnect_count;
        snapshot.register_refresh_count = self.snapshot.register_refresh_count;
        snapshot.last_error = if reason.is_empty() {
            None
        } else {
            Some(reason.to_string())
        };
        self.snapshot = snapshot;
        self.snapshot.clone()
    }
}

/// The history never grows beyond its limit, and the newest item is always kept.
pub proof fn history_is_bounded<T>(list: Seq<T>, item: T, max: nat)
    requires
        max > 0,
        list.len() <= max,
    ensures
        newest(list.push(item), max).len() <= max,
        newest(list.push(item), max).last() == item,
        list.len() < max ==> newest(list.push(item), max) == list.push(item),
        list.len() == max ==> newest(list.push(item), max) == list.drop_first().push(item),
{
    let all = list.push(item);
    assert(all.last() == item);
    if list.len() == max {
        assert(all.skip(1) =~= list.drop_first().push(item));
    }
}

/// The steps of a connection are numbered upwards: a new one comes after the last
/// that was recorded, until the numbers run out.
pub proof fn attempts_are_numbered_upwards(
    s: SnapshotView,
    stage: VolteStage,
    ip_family: Option<Seq<char>>,
    outcome: Seq<char>,
    error: Option<ErrorView>,
    detail: Option<Seq<char>>,
    at: Seq<char>,
)
    requires
        s.connection_attempts.len() > 0,
        s.connection_attempts.last().sequence < u32::MAX,
    ensures
        s.attempt(stage, ip_family, outcome, error, detail, at).sequence
            == s.connection_attempts.last().sequence + 1,
{
}

/// A switch of profiles keeps the batch: its counters, its results, the candidate at
/// hand and the history of attempts.
pub proof fn profile_switch_keeps_the_batch(s: SnapshotView)
    ensures
        s.between_profiles().retry_attempt == s.retry_attempt,
        s.between_profiles().retry_max == s.retry_max,
        s.between_profiles().reconnect_count == s.reconnect_count,
        s.between_profiles().register_refresh_count == s.register_refresh_count,
        s.between_profiles().profile_attempt_results == s.profile_attempt_results,
        s.between_profiles().profile_candidate_index == s.profile_candidate_index,
        s.between_profiles().connection_attempts == s.connection_attempts,
        s.between_profiles().between_profiles() == s.between_profiles(),
{
}

/// A teardown forgets all but the two lifetime counters and the reason.
pub proof fn teardown_keeps_lifetime_counters(a: SnapshotView, b: SnapshotView, reason: Seq<char>)
    requires
        a.reconnect_count == b.reconnect_count,
        a.register_refresh_count == b.register_refresh_count,
    ensures
        a.torn_down(reason) == b.torn_down(reason),
        a.torn_down(reason).reconnect_count == a.reconnect_count,
        a.torn_down(reason).phase == VoltePhase::Disabled,
{
}

} // verus!
