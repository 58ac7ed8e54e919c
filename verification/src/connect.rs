//! Connecting a line: the order of its steps, what each of them leaves in the
//! runtime, and what has to be cleaned up when one fails.

use vstd::prelude::*;
use vstd::string::*;

use crate::bearer;
use crate::bearer::ensure::BearerAttempt;
use crate::bearer::{BearerConnection, BearerRequest, ConnectionView, RequestView};
use crate::data_slot::DataSlotMode;
use crate::errors::{code, failure, ErrorView, VolteError};
use crate::ip::IpAddr;
use crate::ip_settings;
use crate::ip_settings::{with_all, SettingsView};
use crate::plan::{class_of_error, FailureClass, ImsConnectionPlan, IpFamily};
use crate::register::{retains_bearer, should_retain_failed_bearer};
use crate::runtime::{
    RegistrationMode, SnapshotView, VoltePhase, VolteRecoveryState, VolteRuntime, VolteStage,
};
use crate::text;
use crate::text::{decimal, opt, trimmed};

pub mod device;
pub mod registering;

verus! {

/// How long a failed bearer is kept at least, in milliseconds: an immediate
/// disconnect races the modem's firmware.
pub const FAILED_BEARER_MIN_RETENTION_MS: u64 = 3000;

/// The name of an address's family.
pub open spec fn family_name(address: IpAddr) -> Seq<char> {
    if address.is_ipv6() {
        "ipv6"@
    } else {
        "ipv4"@
    }
}

/// The name of an address's family.
pub fn ip_family_name(address: IpAddr) -> (r: &'static str)
    ensures
        r@ == family_name(address),
{
    if address.is_ipv6() {
        "ipv6"
    } else {
        "ipv4"
    }
}

/// Whether the line brings its bearer up itself, beside ModemManager.
pub fn native_ims_bearer_required(data_slot_mode: DataSlotMode) -> (r: bool)
    ensures
        r == !data_slot_mode.ims_on_primary(),
{
    !data_slot_mode.ims_on_primary()
}

/// Whether the modem's IMS profile is activated ahead of the bearer. Where
/// ModemManager brings the bearer up it is the only one to activate it.
pub fn active_ims_profile_prefetch_required(data_slot_mode: DataSlotMode) -> (r: bool)
    ensures
        r == !data_slot_mode.ims_on_primary(),
{
    native_ims_bearer_required(data_slot_mode)
}

/// The work under way was not cancelled.
pub fn ensure_generation(runtime: &VolteRuntime, expected: u64) -> (r: Result<(), VolteError>)
    ensures
        r is Ok <==> runtime.generation == expected,
        r is Err ==> r->Err_0@ == failure(code::RUNTIME_NOT_RUNNING@),
{
    if runtime.generation() == expected {
        Ok(())
    } else {
        Err(VolteError::new(code::RUNTIME_NOT_RUNNING))
    }
}

// ---------------------------------------------------------------------------
// Attempts of the bearer.

/// The stage that an attempt with this type belongs to.
pub open spec fn stage_of_type(ip_type: Seq<char>) -> VolteStage {
    if ip_type == "ipv4v6"@ {
        VolteStage::BearerDual
    } else if ip_type == "ipv4"@ {
        VolteStage::BearerIpv4
    } else if ip_type == "ipv6"@ {
        VolteStage::BearerIpv6
    } else {
        VolteStage::Bearer
    }
}

/// The stage that an attempt with this type belongs to.
pub fn bearer_stage(ip_type: &str) -> (r: VolteStage)
    ensures
        r == stage_of_type(ip_type@),
{
    if text::same(ip_type, "ipv4v6") {
        VolteStage::BearerDual
    } else if text::same(ip_type, "ipv4") {
        VolteStage::BearerIpv4
    } else if text::same(ip_type, "ipv6") {
        VolteStage::BearerIpv6
    } else {
        VolteStage::Bearer
    }
}

/// The families that an attempt with this type covers.
pub open spec fn attempt_family(ip_type: Seq<char>) -> Option<Seq<char>> {
    if ip_type == "ipv4v6"@ {
        Some("dual"@)
    } else if ip_type == "ipv4"@ {
        Some("ipv4"@)
    } else if ip_type == "ipv6"@ {
        Some("ipv6"@)
    } else {
        None
    }
}

/// Notes an attempt of the bearer in the runtime.
pub fn observe_bearer_attempt(runtime: &mut VolteRuntime, attempt: &BearerAttempt, at: &str)
    ensures
        final(runtime).generation == old(runtime).generation,
        final(runtime).snapshot@ == (SnapshotView {
            stage: stage_of_type(attempt.ip_type@),
            bearer_ip_type: Some(attempt.ip_type@),
            ..old(runtime).snapshot@
        }).recorded(
            stage_of_type(attempt.ip_type@),
            attempt_family(attempt.ip_type@),
            attempt.outcome@,
            crate::errors::opt_error(attempt.error),
            Some(attempt.source@),
            at@,
        ),
{
    let stage = bearer_stage(attempt.ip_type.as_str());
    let family = match stage {
        VolteStage::BearerDual => Some("dual"),
        VolteStage::BearerIpv4 => Some("ipv4"),
        VolteStage::BearerIpv6 => Some("ipv6"),
        _ => None,
    };
    runtime.snapshot.stage = stage;
    runtime.snapshot.bearer_ip_type = Some(attempt.ip_type.clone());
    let error = match &attempt.error {
        Some(error) => Some(error),
        None => None,
    };
    runtime.record_attempt(
        stage,
        family,
        attempt.outcome.as_str(),
        error,
        Some(attempt.source.clone()),
        at,
    );
}

// ---------------------------------------------------------------------------
// The steps.

/// What has to be cleaned up after a failure.
#[derive(Debug, Clone, Copy, PartialEq, Eq, Structural)]
pub enum Cleanup {
    /// Nothing was taken.
    Nothing,
    /// The reporting of P-CSCF addresses and the modem's profile.
    Profile,
    /// The bearer with its network state, and then the profile.
    Bearer,
    /// The same, but later: the bearer is retained for a while.
    Retain,
}

/// What to do next.
#[derive(Debug, PartialEq, Eq)]
pub enum ConnectStep {
    /// Wait until the modem is ready.
    AwaitModem,
    /// Read who the line is.
    LoadIdentity,
    /// Activate the modem's IMS profile and read its P-CSCF addresses.
    PrefetchProfile { apn: String },
    /// Select the modem's IMS profile.
    PrepareProfile { apn: String },
    /// Have P-CSCF addresses reported for this context.
    EnableReporting { cid: u8 },
    /// Bring the bearer up beside ModemManager.
    EstablishNative { request: BearerRequest },
    /// Have ModemManager bring the bearer up.
    EnsureBearer { request: BearerRequest },
    /// Read P-CSCF addresses from the active context.
    DiscoverActiveContext { apn: String },
    /// Install the bearer's addresses and routes.
    ConfigureNetwork { bearer: BearerConnection },
    /// Register from this address.
    ConnectFamily { local: IpAddr },
    /// The line is registered.
    Connected,
    /// The line could not be registered.
    Failed { error: VolteError, cleanup: Cleanup },
}

pub enum StepView {
    AwaitModem,
    LoadIdentity,
    PrefetchProfile { apn: Seq<char> },
    PrepareProfile { apn: Seq<char> },
    EnableReporting { cid: u8 },
    EstablishNative { request: RequestView },
    EnsureBearer { request: RequestView },
    DiscoverActiveContext { apn: Seq<char> },
    ConfigureNetwork { bearer: ConnectionView },
    ConnectFamily { local: IpAddr },
    Connected,
    Failed { error: ErrorView, cleanup: Cleanup },
}

impl View for ConnectStep {
    type V = StepView;

    open spec fn view(&self) -> StepView {
        match *self {
            ConnectStep::AwaitModem => StepView::AwaitModem,
            ConnectStep::LoadIdentity => StepView::LoadIdentity,
            ConnectStep::PrefetchProfile { apn } => StepView::PrefetchProfile { apn: apn@ },
            ConnectStep::PrepareProfile { apn } => StepView::PrepareProfile { apn: apn@ },
            ConnectStep::EnableReporting { cid } => StepView::EnableReporting { cid },
            ConnectStep::EstablishNative { request } => StepView::EstablishNative {
                request: request@,
            },
            ConnectStep::EnsureBearer { request } => StepView::EnsureBearer { request: request@ },
            ConnectStep::DiscoverActiveContext { apn } => StepView::DiscoverActiveContext {
                apn: apn@,
            },
            ConnectStep::ConfigureNetwork { bearer } => StepView::ConfigureNetwork {
                bearer: bearer@,
            },
            ConnectStep::ConnectFamily { local } => StepView::ConnectFamily { local },
            ConnectStep::Connected => StepView::Connected,
            ConnectStep::Failed { error, cleanup } => StepView::Failed { error: error@, cleanup },
        }
    }
}

/// A connection that is being made.
#[derive(Debug, PartialEq, Eq)]
pub struct Connecting {
    /// The generation in which it began.
    generation: u64,
    /// The families to register in, in order.
    order: Vec<IpFamily>,
    allow_roaming: bool,
    data_slot_mode: DataSlotMode,
    qmi_device: String,
    apn: String,
    /// The modem's IMS profile, and whether it was activated for this connection.
    profile_cid: Option<u8>,
    leased: bool,
    /// The context that reporting was turned on for.
    reporting_cid: Option<u8>,
    prefetched: Vec<IpAddr>,
    /// The request by access point alone was made.
    unbound: bool,
    bearer: Option<BearerConnection>,
    /// The addresses to register from, and how many of them were tried.
    locals: Vec<IpAddr>,
    next_local: usize,
}

pub struct ConnectView {
    pub generation: u64,
    /// The families to register in, in order.
    pub order: Seq<IpFamily>,
    pub allow_roaming: bool,
    pub data_slot_mode: DataSlotMode,
    pub qmi_device: Seq<char>,
    pub apn: Seq<char>,
    pub profile_cid: Option<u8>,
    pub leased: bool,
    pub reporting_cid: Option<u8>,
    pub prefetched: Seq<IpAddr>,
    pub unbound: bool,
    pub bearer: Option<ConnectionView>,
    pub locals: Seq<IpAddr>,
    pub next_local: int,
}

/// The bearer behind an optional one.
pub open spec fn opt_connection(bearer: Option<BearerConnection>) -> Option<ConnectionView> {
    match bearer {
        Some(bearer) => Some(bearer@),
        None => None,
    }
}

impl View for Connecting {
    type V = ConnectView;

    closed spec fn view(&self) -> ConnectView {
        ConnectView {
            generation: self.generation,
            order: self.order@,
            allow_roaming: self.allow_roaming,
            data_slot_mode: self.data_slot_mode,
            qmi_device: self.qmi_device@,
            apn: self.apn@,
            profile_cid: self.profile_cid,
            leased: self.leased,
            reporting_cid: self.reporting_cid,
            prefetched: self.prefetched@,
            unbound: self.unbound,
            bearer: opt_connection(self.bearer),
            locals: self.locals@,
            next_local: self.next_local as int,
        }
    }
}

/// Who a line is, as far as connecting needs it.
#[derive(Debug, PartialEq, Eq)]
pub struct LineIdentity {
    /// The access point of IMS.
    pub ims_apn: Option<String>,
    /// How the identity was found.
    pub source: String,
    pub usim_aid: String,
    pub isim_aid: Option<String>,
}

/// The access point of a line, where it names one.
pub open spec fn usable_apn(apn: Option<Seq<char>>) -> Option<Seq<char>> {
    match apn {
        Some(apn) => if trimmed(apn).len() == 0 {
            None
        } else {
            Some(trimmed(apn))
        },
        None => None,
    }
}

/// The settings with more P-CSCF addresses.
pub open spec fn with_pcscf(bearer: ConnectionView, more: Seq<IpAddr>) -> ConnectionView {
    ConnectionView {
        settings: SettingsView { pcscf: with_all(bearer.settings.pcscf, more), ..bearer.settings },
        ..bearer
    }
}

impl ConnectView {
    pub open spec fn wf(self) -> bool {
        0 <= self.next_local <= self.locals.len()
    }

    /// What a failure leaves to clean up once a bearer is there.
    pub open spec fn failed_on_bearer(self, s: SnapshotView, error: ErrorView) -> (
        ConnectView,
        SnapshotView,
        StepView,
    ) {
        (
            self,
            s,
            StepView::Failed {
                error,
                cleanup: if retains_bearer(error) {
                    Cleanup::Retain
                } else {
                    Cleanup::Bearer
                },
            },
        )
    }

    /// The identity is known.
    pub open spec fn identified(
        self,
        s: SnapshotView,
        generation: u64,
        apn: Option<Seq<char>>,
        source: Seq<char>,
        usim_aid: Seq<char>,
        isim_aid: Option<Seq<char>>,
    ) -> (ConnectView, SnapshotView, StepView) {
        let known = SnapshotView {
            identity_source: Some(source),
            usim_aid: Some(usim_aid),
            isim_aid,
            ..s
        };
        match usable_apn(apn) {
            None => (
                self,
                s,
                StepView::Failed {
                    error: failure(code::CARRIER_IMS_APN_MISSING@),
                    cleanup: Cleanup::Nothing,
                },
            ),
            Some(apn) => if generation != self.generation {
                (
                    ConnectView { apn, ..self },
                    known,
                    StepView::Failed {
                        error: failure(code::RUNTIME_NOT_RUNNING@),
                        cleanup: Cleanup::Nothing,
                    },
                )
            } else {
                (
                    ConnectView { apn, ..self },
                    SnapshotView { stage: VolteStage::ImsContext, ..known },
                    StepView::AwaitModem,
                )
            },
        }
    }

    /// The bearer to ask for.
    pub open spec fn request(self) -> RequestView {
        RequestView {
            apn: self.apn,
            allow_roaming: self.allow_roaming,
            profile_id: match self.profile_cid {
                Some(cid) => Some(cid as u32),
                None => None,
            },
        }
    }

    /// The bearer is brought up.
    pub open spec fn begin_bearer(self, s: SnapshotView, at: Seq<char>) -> (
        ConnectView,
        SnapshotView,
        StepView,
    ) {
        if self.data_slot_mode.ims_on_primary() {
            (self, s, StepView::EnsureBearer { request: self.request() })
        } else {
            (
                self,
                s.recorded(
                    VolteStage::Bearer,
                    None,
                    "started"@,
                    None,
                    Some("native_qmi:"@ + self.qmi_device),
                    at,
                ),
                StepView::EstablishNative { request: self.request() },
            )
        }
    }

    /// The modem's profile was activated; `found` are its context and addresses.
    pub open spec fn profile_prefetched(
        self,
        s: SnapshotView,
        found: Option<(u8, Seq<IpAddr>)>,
        at: Seq<char>,
    ) -> (ConnectView, SnapshotView, StepView) {
        match found {
            Some((cid, candidates)) => ConnectView {
                profile_cid: Some(cid),
                leased: true,
                prefetched: candidates,
                ..self
            }.begin_bearer(SnapshotView { at_cid: Some(cid), ..s }, at),
            None => (self, s, StepView::PrepareProfile { apn: self.apn }),
        }
    }

    /// The modem's profile was selected, or none could be.
    pub open spec fn profile_prepared(self, s: SnapshotView, cid: Option<u8>, at: Seq<char>) -> (
        ConnectView,
        SnapshotView,
        StepView,
    ) {
        match cid {
            Some(cid) => (
                ConnectView { profile_cid: Some(cid), ..self },
                SnapshotView { at_cid: Some(cid), ..s },
                StepView::EnableReporting { cid },
            ),
            None => self.begin_bearer(s, at),
        }
    }

    /// The reporting of P-CSCF addresses was turned on, or could not be.
    pub open spec fn reporting_enabled(self, s: SnapshotView, enabled: bool, at: Seq<char>) -> (
        ConnectView,
        SnapshotView,
        StepView,
    ) {
        ConnectView {
            reporting_cid: if enabled {
                self.profile_cid
            } else {
                None
            },
            ..self
        }.begin_bearer(s, at)
    }

    /// The bearer's addresses and routes are installed.
    pub open spec fn configure(self, s: SnapshotView) -> (ConnectView, SnapshotView, StepView) {
        let bearer = self.bearer->0;
        (
            self,
            SnapshotView {
                stage: VolteStage::IpConfig,
                bearer_interface: Some(bearer.interface),
                bearer_ip_type: Some(bearer.ip_type),
                bearer_path: Some(bearer.path),
                ..s
            },
            StepView::ConfigureNetwork { bearer },
        )
    }

    /// The bearer is up. Without any P-CSCF address the active context is asked.
    pub open spec fn bearer_up(self, s: SnapshotView, bearer: ConnectionView, at: Seq<char>) -> (
        ConnectView,
        SnapshotView,
        StepView,
    ) {
        let bearer = with_pcscf(bearer, self.prefetched);
        let next = ConnectView { bearer: Some(bearer), prefetched: Seq::empty(), ..self };
        if bearer.settings.pcscf.len() == 0 {
            (
                next,
                s.recorded(
                    VolteStage::Pcscf,
                    None,
                    "started"@,
                    None,
                    Some("at_cgcontrdp_fallback"@),
                    at,
                ),
                StepView::DiscoverActiveContext { apn: self.apn },
            )
        } else {
            next.configure(s)
        }
    }

    /// What came of bringing the bearer up beside ModemManager. A failure is not
    /// handed on to ModemManager.
    pub open spec fn native_established(
        self,
        s: SnapshotView,
        outcome: Result<(ConnectionView, Seq<char>, Seq<char>), ErrorView>,
        at: Seq<char>,
    ) -> (ConnectView, SnapshotView, StepView) {
        match outcome {
            Ok((bearer, interface, method)) => self.bearer_up(
                s.recorded(
                    VolteStage::Bearer,
                    Some(bearer.ip_type),
                    "succeeded"@,
                    None,
                    Some(
                        "native_qmi:"@ + self.qmi_device + ":netdev="@ + interface + ":"@ + method,
                    ),
                    at,
                ),
                bearer,
                at,
            ),
            Err(error) => (
                self,
                s.recorded(
                    VolteStage::Bearer,
                    None,
                    "failed"@,
                    Some(error),
                    Some("native_qmi"@),
                    at,
                ),
                StepView::Failed { error, cleanup: Cleanup::Profile },
            ),
        }
    }

    /// What came of having ModemManager bring the bearer up. Where the profile was
    /// the matter, the access point alone is tried once.
    pub open spec fn bearer_ensured(
        self,
        s: SnapshotView,
        outcome: Result<ConnectionView, ErrorView>,
        at: Seq<char>,
    ) -> (ConnectView, SnapshotView, StepView) {
        match outcome {
            Ok(bearer) => self.bearer_up(s, bearer, at),
            Err(error) => if !self.unbound && self.profile_cid is Some
                && bearer::may_retry_unbound(error) {
                (
                    ConnectView { unbound: true, ..self },
                    s,
                    StepView::EnsureBearer {
                        request: RequestView { profile_id: None, ..self.request() },
                    },
                )
            } else {
                (self, s, StepView::Failed { error, cleanup: Cleanup::Profile })
            },
        }
    }

    /// The active context was read.
    pub open spec fn context_discovered(
        self,
        s: SnapshotView,
        outcome: Result<(u8, Seq<IpAddr>), ErrorView>,
        at: Seq<char>,
    ) -> (ConnectView, SnapshotView, StepView) {
        match outcome {
            Ok((cid, candidates)) => ConnectView {
                bearer: Some(with_pcscf(self.bearer->0, candidates)),
                ..self
            }.configure(
                SnapshotView {
                    at_cid: Some(cid),
                    ..s.recorded(
                        VolteStage::Pcscf,
                        None,
                        "succeeded"@,
                        None,
                        Some("at_cgcontrdp_fallback:cid="@ + decimal(cid as nat)),
                        at,
                    )
                },
            ),
            Err(error) => self.configure(
                s.recorded(
                    VolteStage::Pcscf,
                    None,
                    "failed"@,
                    Some(error),
                    Some("at_cgcontrdp_fallback"@),
                    at,
                ),
            ),
        }
    }

    /// The next address to register from.
    pub open spec fn next_family(self, s: SnapshotView, generation: u64, at: Seq<char>) -> (
        ConnectView,
        SnapshotView,
        StepView,
    ) {
        if generation != self.generation {
            self.failed_on_bearer(s, failure(code::RUNTIME_NOT_RUNNING@))
        } else {
            let local = self.locals[self.next_local];
            (
                ConnectView { next_local: self.next_local + 1, ..self },
                SnapshotView { current_ip_family: Some(family_name(local)), ..s }.recorded(
                    VolteStage::Pcscf,
                    Some(family_name(local)),
                    "started"@,
                    None,
                    None,
                    at,
                ),
                StepView::ConnectFamily { local },
            )
        }
    }

    /// The bearer's addresses and routes were installed. An address in a family that
    /// the plan does not admit is of no use.
    pub open spec fn network_configured(
        self,
        s: SnapshotView,
        generation: u64,
        error: Option<ErrorView>,
        at: Seq<char>,
    ) -> (ConnectView, SnapshotView, StepView) {
        let bearer = self.bearer->0;
        match error {
            Some(error) => self.failed_on_bearer(
                s.recorded(
                    VolteStage::IpConfig,
                    None,
                    "failed"@,
                    Some(error),
                    Some(bearer.interface),
                    at,
                ),
                error,
            ),
            None => {
                let done = s.recorded(
                    VolteStage::IpConfig,
                    None,
                    "succeeded"@,
                    None,
                    Some(bearer.interface),
                    at,
                );
                let locals = bearer.settings.ordered(self.order);
                if generation != self.generation {
                    self.failed_on_bearer(done, failure(code::RUNTIME_NOT_RUNNING@))
                } else if locals.len() == 0 {
                    self.failed_on_bearer(
                        done,
                        failure(
                            if bearer.settings.preferred() is Some {
                                code::RUNTIME_IMS_FAMILY_UNSUPPORTED@
                            } else {
                                code::IP_SETTINGS_MISSING@
                            },
                        ),
                    )
                } else {
                    ConnectView { locals, next_local: 0, ..self }.next_family(
                        done,
                        generation,
                        at,
                    )
                }
            },
        }
    }

    /// What came of registering from the address at hand. Only a failure that says
    /// nothing of the other family leads to it.
    pub open spec fn family_connected(
        self,
        s: SnapshotView,
        generation: u64,
        error: Option<ErrorView>,
        at: Seq<char>,
    ) -> (ConnectView, SnapshotView, StepView) {
        let family = Some(family_name(self.locals[self.next_local - 1]));
        match error {
            None => (
                self,
                s.recorded(VolteStage::Registered, family, "succeeded"@, None, None, at),
                StepView::Connected,
            ),
            Some(error) => if self.next_local < self.locals.len() && class_of_error(
                error,
            ).is_retryable_family() {
                self.next_family(
                    s.recorded(
                        VolteStage::Pcscf,
                        family,
                        "failed"@,
                        Some(error),
                        Some("trying_next_family"@),
                        at,
                    ),
                    generation,
                    at,
                )
            } else {
                self.failed_on_bearer(
                    s.recorded(VolteStage::Pcscf, family, "failed"@, Some(error), None, at),
                    error,
                )
            },
        }
    }
}

fn add_pcscf(bearer: &mut BearerConnection, more: &[IpAddr])
    ensures
        final(bearer)@ == with_pcscf(old(bearer)@, more@),
{
    ip_settings::push_all_new(&mut bearer.settings.pcscf, more);
}

/// What came of bringing a bearer up beside ModemManager.
#[derive(Debug, PartialEq, Eq)]
pub struct NativeSession {
    pub connection: BearerConnection,
    pub interface: String,
    /// How the interface was found.
    pub netdev_method: String,
}

/// The outcome of bringing a bearer up beside ModemManager.
pub open spec fn native_outcome(outcome: Result<NativeSession, VolteError>) -> Result<
    (ConnectionView, Seq<char>, Seq<char>),
    ErrorView,
> {
    match outcome {
        Ok(session) => Ok((session.connection@, session.interface@, session.netdev_method@)),
        Err(error) => Err(error@),
    }
}

/// The outcome of having ModemManager bring a bearer up.
pub open spec fn bearer_outcome(outcome: Result<BearerConnection, VolteError>) -> Result<
    ConnectionView,
    ErrorView,
> {
    match outcome {
        Ok(bearer) => Ok(bearer@),
        Err(error) => Err(error@),
    }
}

/// The outcome of reading the active context.
pub open spec fn context_outcome(outcome: Result<(u8, Vec<IpAddr>), VolteError>) -> Result<
    (u8, Seq<IpAddr>),
    ErrorView,
> {
    match outcome {
        Ok((cid, candidates)) => Ok((cid, candidates@)),
        Err(error) => Err(error@),
    }
}

pub open spec fn prefetch_outcome(found: Option<(u8, Vec<IpAddr>)>) -> Option<(u8, Seq<IpAddr>)> {
    match found {
        Some((cid, candidates)) => Some((cid, candidates@)),
        None => None,
    }
}

pub open spec fn done_outcome(outcome: Result<(), VolteError>) -> Option<ErrorView> {
    match outcome {
        Ok(_) => None,
        Err(error) => Some(error@),
    }
}

impl Connecting {
    /// A connection is to be made.
    pub fn begin(
        generation: u64,
        plan: &ImsConnectionPlan,
        allow_roaming: bool,
        data_slot_mode: DataSlotMode,
        qmi_device: &str,
    ) -> (r: (Self, ConnectStep))
        ensures
            r.0@ == (ConnectView {
                generation,
                order: plan.order(),
                allow_roaming,
                data_slot_mode,
                qmi_device: qmi_device@,
                apn: ""@,
                profile_cid: None,
                leased: false,
                reporting_cid: None,
                prefetched: Seq::empty(),
                unbound: false,
                bearer: None,
                locals: Seq::empty(),
                next_local: 0,
            }),
            r.0@.wf(),
            r.1@ == StepView::AwaitModem,
    {
        let state = Connecting {
            generation,
            order: vstd::slice::slice_to_vec(plan.pcscf_order()),
            allow_roaming,
            data_slot_mode,
            qmi_device: qmi_device.to_string(),
            apn: "".to_string(),
            profile_cid: None,
            leased: false,
            reporting_cid: None,
            prefetched: Vec::new(),
            unbound: false,
            bearer: None,
            locals: Vec::new(),
            next_local: 0,
        };
        proof {
            assert(state@.prefetched =~= Seq::empty());
            assert(state@.locals =~= Seq::empty());
        }
        (state, ConnectStep::AwaitModem)
    }

    /// The modem is ready.
    pub fn modem_ready(&self, runtime: &mut VolteRuntime) -> (r: ConnectStep)
        ensures
            final(runtime).generation == old(runtime).generation,
            final(runtime).snapshot@ == (SnapshotView {
                stage: VolteStage::Identity,
                ..old(runtime).snapshot@
            }),
            r@ == StepView::LoadIdentity,
    {
        runtime.snapshot.stage = VolteStage::Identity;
        ConnectStep::LoadIdentity
    }

    /// The identity was read.
    pub fn identified(&mut self, runtime: &mut VolteRuntime, identity: &LineIdentity) -> (r:
        ConnectStep)
        requires
            old(self)@.wf(),
        ensures
            final(self)@.wf(),
            final(runtime).generation == old(runtime).generation,
            (final(self)@, final(runtime).snapshot@, r@) == old(self)@.identified(
                old(runtime).snapshot@,
                old(runtime).generation,
                opt(identity.ims_apn),
                identity.source@,
                identity.usim_aid@,
                opt(identity.isim_aid),
            ),
    {
        let apn = match &identity.ims_apn {
            Some(apn) => text::trim(apn.as_str()),
            None => {
                return ConnectStep::Failed {
                    error: VolteError::new(code::CARRIER_IMS_APN_MISSING),
                    cleanup: Cleanup::Nothing,
                };
            },
        };
        if apn.as_str().is_empty() {
            return ConnectStep::Failed {
                error: VolteError::new(code::CARRIER_IMS_APN_MISSING),
                cleanup: Cleanup::Nothing,
            };
        }
        self.apn = apn;
        runtime.snapshot.identity_source = Some(identity.source.clone());
        runtime.snapshot.usim_aid = Some(identity.usim_aid.clone());
        runtime.snapshot.isim_aid = identity.isim_aid.clone();
        if let Err(error) = ensure_generation(runtime, self.generation) {
            return ConnectStep::Failed { error, cleanup: Cleanup::Nothing };
        }
        runtime.snapshot.stage = VolteStage::ImsContext;
        ConnectStep::AwaitModem
    }

    /// The modem is ready again, and the identity known. Where the line brings its
    /// bearer up itself, the modem's profile is activated first.
    pub fn select_profile(&self, runtime: &mut VolteRuntime) -> (r: ConnectStep)
        ensures
            final(runtime).generation == old(runtime).generation,
            final(runtime).snapshot@ == (SnapshotView {
                stage: VolteStage::Bearer,
                ..old(runtime).snapshot@
            }),
            r@ == (if self@.data_slot_mode.ims_on_primary() {
                StepView::PrepareProfile { apn: self@.apn }
            } else {
                StepView::PrefetchProfile { apn: self@.apn }
            }),
    {
        runtime.snapshot.stage = VolteStage::Bearer;
        if active_ims_profile_prefetch_required(self.data_slot_mode) {
            ConnectStep::PrefetchProfile { apn: self.apn.clone() }
        } else {
            ConnectStep::PrepareProfile { apn: self.apn.clone() }
        }
    }

    fn bearer_request(&self) -> (r: BearerRequest)
        ensures
            r@ == self@.request(),
    {
        let mut request = BearerRequest::for_apn(self.apn.as_str(), self.allow_roaming);
        request.profile_id = match self.profile_cid {
            Some(cid) => Some(cid as u32),
            None => None,
        };
        request
    }

    fn begin_bearer(&mut self, runtime: &mut VolteRuntime, at: &str) -> (r: ConnectStep)
        requires
            old(self)@.wf(),
        ensures
            final(self)@.wf(),
            final(runtime).generation == old(runtime).generation,
            (final(self)@, final(runtime).snapshot@, r@) == old(self)@.begin_bearer(
                old(runtime).snapshot@,
                at@,
            ),
    {
        let request = self.bearer_request();
        if !native_ims_bearer_required(self.data_slot_mode) {
            return ConnectStep::EnsureBearer { request };
        }
        let mut detail = "native_qmi:".to_string();
        detail.append(self.qmi_device.as_str());
        runtime.record_attempt(VolteStage::Bearer, None, "started", None, Some(detail), at);
        ConnectStep::EstablishNative { request }
    }

    /// The modem's profile was activated. Where that failed it is only selected.
    pub fn profile_prefetched(
        &mut self,
        runtime: &mut VolteRuntime,
        found: Option<(u8, Vec<IpAddr>)>,
        at: &str,
    ) -> (r: ConnectStep)
        requires
            old(self)@.wf(),
        ensures
            final(self)@.wf(),
            final(runtime).generation == old(runtime).generation,
            (final(self)@, final(runtime).snapshot@, r@) == old(self)@.profile_prefetched(
                old(runtime).snapshot@,
                prefetch_outcome(found),
                at@,
            ),
    {
        match found {
            Some((cid, candidates)) => {
                self.profile_cid = Some(cid);
                self.leased = true;
                self.prefetched = candidates;
                runtime.snapshot.at_cid = Some(cid);
                self.begin_bearer(runtime, at)
            },
            None => ConnectStep::PrepareProfile { apn: self.apn.clone() },
        }
    }

    /// The modem's profile was selected. Without one the bearer is requested by the
    /// access point alone.
    pub fn profile_prepared(&mut self, runtime: &mut VolteRuntime, cid: Option<u8>, at: &str) -> (r:
        ConnectStep)
        requires
            old(self)@.wf(),
        ensures
            final(self)@.wf(),
            final(runtime).generation == old(runtime).generation,
            (final(self)@, final(runtime).snapshot@, r@) == old(self)@.profile_prepared(
                old(runtime).snapshot@,
                cid,
                at@,
            ),
    {
        match cid {
            Some(cid) => {
                self.profile_cid = Some(cid);
                runtime.snapshot.at_cid = Some(cid);
                ConnectStep::EnableReporting { cid }
            },
            None => self.begin_bearer(runtime, at),
        }
    }

    /// The reporting of P-CSCF addresses was turned on, or could not be.
    pub fn reporting_enabled(&mut self, runtime: &mut VolteRuntime, enabled: bool, at: &str) -> (r:
        ConnectStep)
        requires
            old(self)@.wf(),
        ensures
            final(self)@.wf(),
            final(runtime).generation == old(runtime).generation,
            (final(self)@, final(runtime).snapshot@, r@) == old(self)@.reporting_enabled(
                old(runtime).snapshot@,
                enabled,
                at@,
            ),
    {
        self.reporting_cid = if enabled {
            self.profile_cid
        } else {
            None
        };
        self.begin_bearer(runtime, at)
    }

    /// The context that reporting has to be turned off for at the end.
    pub fn reporting_cid(&self) -> (r: Option<u8>)
        ensures
            r == self@.reporting_cid,
    {
        self.reporting_cid
    }

    fn configure(&mut self, runtime: &mut VolteRuntime, bearer: BearerConnection) -> (r:
        ConnectStep)
        requires
            old(self)@.wf(),
        ensures
            final(self)@.wf(),
            final(runtime).generation == old(runtime).generation,
            (final(self)@, final(runtime).snapshot@, r@) == (ConnectView {
                bearer: Some(bearer@),
                ..old(self)@
            }).configure(old(runtime).snapshot@),
    {
        runtime.snapshot.stage = VolteStage::IpConfig;
        runtime.snapshot.bearer_interface = Some(bearer.interface.clone());
        runtime.snapshot.bearer_ip_type = Some(bearer.ip_type.clone());
        runtime.snapshot.bearer_path = Some(bearer.path.clone());
        let copy = bearer.clone();
        self.bearer = Some(bearer);
        ConnectStep::ConfigureNetwork { bearer: copy }
    }

    fn bearer_up(&mut self, runtime: &mut VolteRuntime, bearer: BearerConnection, at: &str) -> (r:
        ConnectStep)
        requires
            old(self)@.wf(),
        ensures
            final(self)@.wf(),
            final(runtime).generation == old(runtime).generation,
            (final(self)@, final(runtime).snapshot@, r@) == old(self)@.bearer_up(
                old(runtime).snapshot@,
                bearer@,
                at@,
            ),
    {
        let mut bearer = bearer;
        add_pcscf(&mut bearer, self.prefetched.as_slice());
        self.prefetched = Vec::new();
        proof {
            assert(self.prefetched@ =~= Seq::empty());
        }
        if bearer.settings.pcscf.len() == 0 {
            runtime.record_attempt(
                VolteStage::Pcscf,
                None,
                "started",
                None,
                Some("at_cgcontrdp_fallback".to_string()),
                at,
            );
            self.bearer = Some(bearer);
            return ConnectStep::DiscoverActiveContext { apn: self.apn.clone() };
        }
        self.configure(runtime, bearer)
    }

    /// The bearer was brought up beside ModemManager, or could not be.
    pub fn native_established(
        &mut self,
        runtime: &mut VolteRuntime,
        outcome: Result<NativeSession, VolteError>,
        at: &str,
    ) -> (r: ConnectStep)
        requires
            old(self)@.wf(),
        ensures
            final(self)@.wf(),
            final(runtime).generation == old(runtime).generation,
            (final(self)@, final(runtime).snapshot@, r@) == old(self)@.native_established(
                old(runtime).snapshot@,
                native_outcome(outcome),
                at@,
            ),
    {
        match outcome {
            Ok(session) => {
                let mut detail = "native_qmi:".to_string();
                detail.append(self.qmi_device.as_str());
                detail.append(":netdev=");
                detail.append(session.interface.as_str());
                detail.append(":");
                detail.append(session.netdev_method.as_str());
                runtime.record_attempt(
                    VolteStage::Bearer,
                    Some(session.connection.ip_type.as_str()),
                    "succeeded",
                    None,
                    Some(detail),
                    at,
                );
                self.bearer_up(runtime, session.connection, at)
            },
            Err(error) => {
                runtime.record_attempt(
                    VolteStage::Bearer,
                    None,
                    "failed",
                    Some(&error),
                    Some("native_qmi".to_string()),
                    at,
                );
                ConnectStep::Failed { error, cleanup: Cleanup::Profile }
            },
        }
    }

    /// ModemManager brought the bearer up, or could not.
    pub fn bearer_ensured(
        &mut self,
        runtime: &mut VolteRuntime,
        outcome: Result<BearerConnection, VolteError>,
        at: &str,
    ) -> (r: ConnectStep)
        requires
            old(self)@.wf(),
        ensures
            final(self)@.wf(),
            final(runtime).generation == old(runtime).generation,
            (final(self)@, final(runtime).snapshot@, r@) == old(self)@.bearer_ensured(
                old(runtime).snapshot@,
                bearer_outcome(outcome),
                at@,
            ),
    {
        match outcome {
            Ok(bearer) => self.bearer_up(runtime, bearer, at),
            Err(error) => {
                if !self.unbound && self.profile_cid.is_some()
                    && bearer::may_retry_modemmanager_profile_binding(&error) {
                    let mut request = self.bearer_request();
                    request.profile_id = None;
                    self.unbound = true;
                    return ConnectStep::EnsureBearer { request };
                }
                ConnectStep::Failed { error, cleanup: Cleanup::Profile }
            },
        }
    }

    fn take_bearer(&mut self) -> (r: BearerConnection)
        requires
            old(self)@.wf(),
            old(self)@.bearer is Some,
        ensures
            final(self)@ == (ConnectView { bearer: None, ..old(self)@ }),
            Some(r@) == old(self)@.bearer,
    {
        let mut bearer: Option<BearerConnection> = None;
        core::mem::swap(&mut self.bearer, &mut bearer);
        match bearer {
            Some(bearer) => bearer,
            None => BearerConnection {
                path: "".to_string(),
                interface: "".to_string(),
                ip_type: "".to_string(),
                settings: ip_settings::ImsIpSettings::default(),
                ipv4_prefix: None,
                ipv6_prefix: None,
                mtu: None,
            },
        }
    }

    /// The active context was read, or could not be.
    pub fn context_discovered(
        &mut self,
        runtime: &mut VolteRuntime,
        outcome: Result<(u8, Vec<IpAddr>), VolteError>,
        at: &str,
    ) -> (r: ConnectStep)
        requires
            old(self)@.wf(),
            old(self)@.bearer is Some,
        ensures
            final(self)@.wf(),
            final(runtime).generation == old(runtime).generation,
            (final(self)@, final(runtime).snapshot@, r@) == old(self)@.context_discovered(
                old(runtime).snapshot@,
                context_outcome(outcome),
                at@,
            ),
    {
        let mut bearer = self.take_bearer();
        match outcome {
            Ok((cid, candidates)) => {
                let mut detail = "at_cgcontrdp_fallback:cid=".to_string();
                let digits = text::decimal_string(cid as u64);
                detail.append(digits.as_str());
                runtime.record_attempt(
                    VolteStage::Pcscf,
                    None,
                    "succeeded",
                    None,
                    Some(detail),
                    at,
                );
                runtime.snapshot.at_cid = Some(cid);
                add_pcscf(&mut bearer, candidates.as_slice());
            },
            Err(error) => {
                runtime.record_attempt(
                    VolteStage::Pcscf,
                    None,
                    "failed",
                    Some(&error),
                    Some("at_cgcontrdp_fallback".to_string()),
                    at,
                );
            },
        }
        self.configure(runtime, bearer)
    }

    fn failed_on_bearer(&self, error: VolteError) -> (r: ConnectStep)
        ensures
            forall|s: SnapshotView| (self@, s, r@) == #[trigger] self@.failed_on_bearer(s, error@),
    {
        let cleanup = if should_retain_failed_bearer(&error) {
            Cleanup::Retain
        } else {
            Cleanup::Bearer
        };
        ConnectStep::Failed { error, cleanup }
    }

    fn next_family(&mut self, runtime: &mut VolteRuntime, at: &str) -> (r: ConnectStep)
        requires
            old(self)@.wf(),
            old(self)@.next_local < old(self)@.locals.len(),
        ensures
            final(self)@.wf(),
            final(runtime).generation == old(runtime).generation,
            (final(self)@, final(runtime).snapshot@, r@) == old(self)@.next_family(
                old(runtime).snapshot@,
                old(runtime).generation,
                at@,
            ),
    {
        if let Err(error) = ensure_generation(runtime, self.generation) {
            return self.failed_on_bearer(error);
        }
        let n = self.locals.len();
        let local = self.locals[self.next_local];
        self.next_local = self.next_local + 1;
        let family = ip_family_name(local);
        runtime.snapshot.current_ip_family = Some(family.to_string());
        runtime.record_attempt(VolteStage::Pcscf, Some(family), "started", None, None, at);
        ConnectStep::ConnectFamily { local }
    }

    /// The bearer's addresses and routes were installed, or could not be.
    pub fn network_configured(
        &mut self,
        runtime: &mut VolteRuntime,
        outcome: Result<(), VolteError>,
        at: &str,
    ) -> (r: ConnectStep)
        requires
            old(self)@.wf(),
            old(self)@.bearer is Some,
        ensures
            final(self)@.wf(),
            final(runtime).generation == old(runtime).generation,
            (final(self)@, final(runtime).snapshot@, r@) == old(self)@.network_configured(
                old(runtime).snapshot@,
                old(runtime).generation,
                done_outcome(outcome),
                at@,
            ),
    {
        let bearer = match &self.bearer {
            Some(bearer) => bearer.clone(),
            None => return ConnectStep::AwaitModem,
        };
        match outcome {
            Err(error) => {
                runtime.record_attempt(
                    VolteStage::IpConfig,
                    None,
                    "failed",
                    Some(&error),
                    Some(bearer.interface.clone()),
                    at,
                );
                self.failed_on_bearer(error)
            },
            Ok(_) => {
                runtime.record_attempt(
                    VolteStage::IpConfig,
                    None,
                    "succeeded",
                    None,
                    Some(bearer.interface.clone()),
                    at,
                );
                if let Err(error) = ensure_generation(runtime, self.generation) {
                    return self.failed_on_bearer(error);
                }
                let locals = bearer.settings.ordered_by(self.order.as_slice());
                if locals.len() == 0 {
                    let error = if bearer.settings.local_addr().is_some() {
                        VolteError::new(code::RUNTIME_IMS_FAMILY_UNSUPPORTED)
                    } else {
                        VolteError::new(code::IP_SETTINGS_MISSING)
                    };
                    return self.failed_on_bearer(error);
                }
                self.locals = locals;
                self.next_local = 0;
                self.next_family(runtime, at)
            },
        }
    }

    /// The line was registered from the address at hand, or could not be.
    pub fn family_connected(
        &mut self,
        runtime: &mut VolteRuntime,
        outcome: Result<(), VolteError>,
        at: &str,
    ) -> (r: ConnectStep)
        requires
            old(self)@.wf(),
            old(self)@.next_local > 0,
        ensures
            final(self)@.wf(),
            final(runtime).generation == old(runtime).generation,
            (final(self)@, final(runtime).snapshot@, r@) == old(self)@.family_connected(
                old(runtime).snapshot@,
                old(runtime).generation,
                done_outcome(outcome),
                at@,
            ),
    {
        let family = ip_family_name(self.locals[self.next_local - 1]);
        match outcome {
            Ok(_) => {
                runtime.record_attempt(
                    VolteStage::Registered,
                    Some(family),
                    "succeeded",
                    None,
                    None,
                    at,
                );
                ConnectStep::Connected
            },
            Err(error) => {
                let n = self.locals.len();
                if self.next_local < n && FailureClass::from_error(&error).is_retryable_family() {
                    runtime.record_attempt(
                        VolteStage::Pcscf,
                        Some(family),
                        "failed",
                        Some(&error),
                        Some("trying_next_family".to_string()),
                        at,
                    );
                    return self.next_family(runtime, at);
                }
                runtime.record_attempt(
                    VolteStage::Pcscf,
                    Some(family),
                    "failed",
                    Some(&error),
                    None,
                    at,
                );
                self.failed_on_bearer(error)
            },
        }
    }
}

// ---------------------------------------------------------------------------
// Laws.

/// A failure before anything was taken leaves nothing to clean up.
pub proof fn early_failure_leaves_nothing(
    state: ConnectView,
    s: SnapshotView,
    generation: u64,
    apn: Option<Seq<char>>,
    source: Seq<char>,
    usim_aid: Seq<char>,
    isim_aid: Option<Seq<char>>,
)
    ensures
        ({
            let step = state.identified(s, generation, apn, source, usim_aid, isim_aid).2;
            step is Failed ==> step->cleanup == Cleanup::Nothing
        }),
{
}

/// Once the modem's profile was touched, every failure cleans up after it.
pub proof fn late_failures_clean_up(
    state: ConnectView,
    s: SnapshotView,
    generation: u64,
    native: Result<(ConnectionView, Seq<char>, Seq<char>), ErrorView>,
    ensured: Result<ConnectionView, ErrorView>,
    error: Option<ErrorView>,
    at: Seq<char>,
)
    ensures
        ({
            let step = state.native_established(s, native, at).2;
            step is Failed ==> step->cleanup == Cleanup::Profile
        }),
        ({
            let step = state.bearer_ensured(s, ensured, at).2;
            step is Failed ==> step->cleanup == Cleanup::Profile
        }),
        ({
            let step = state.network_configured(s, generation, error, at).2;
            step is Failed ==> (step->cleanup == Cleanup::Bearer || step->cleanup
                == Cleanup::Retain)
        }),
        ({
            let step = state.family_connected(s, generation, error, at).2;
            step is Failed ==> (step->cleanup == Cleanup::Bearer || step->cleanup
                == Cleanup::Retain)
        }),
{
}

/// A bearer is retained exactly where the registrar's final answer was the failure.
pub proof fn only_final_answers_retain_the_bearer(
    state: ConnectView,
    s: SnapshotView,
    generation: u64,
    error: Option<ErrorView>,
    at: Seq<char>,
)
    ensures
        ({
            let step = state.family_connected(s, generation, error, at).2;
            step is Failed ==> (step->cleanup == Cleanup::Retain <==> retains_bearer(step->error))
        }),
{
}

/// A connection that was cancelled does not register.
pub proof fn cancelled_connection_does_not_register(
    state: ConnectView,
    s: SnapshotView,
    generation: u64,
    error: Option<ErrorView>,
    at: Seq<char>,
)
    requires
        generation != state.generation,
    ensures
        !(state.network_configured(s, generation, error, at).2 is ConnectFamily),
        !(state.family_connected(s, generation, error, at).2 is ConnectFamily),
{
}

/// Where the line brings its bearer up itself, a failure ends the connection:
/// ModemManager never tries the same modem a second time.
pub proof fn native_failure_is_final(
    state: ConnectView,
    s: SnapshotView,
    error: ErrorView,
    at: Seq<char>,
)
    ensures
        state.native_established(s, Err(error), at).2 == (StepView::Failed {
            error,
            cleanup: Cleanup::Profile,
        }),
{
}

/// The access point alone is asked for at most once, and never after a failure that
/// shows a wedged baseband.
pub proof fn unbound_request_is_made_once(
    state: ConnectView,
    s: SnapshotView,
    outcome: Result<ConnectionView, ErrorView>,
    at: Seq<char>,
)
    ensures
        ({
            let (next, _, step) = state.bearer_ensured(s, outcome, at);
            step is EnsureBearer ==> !state.unbound && next.unbound
                && step->EnsureBearer_request.profile_id is None && outcome is Err && !crate::plan::class_of_details(
                outcome->Err_0.detail_or_empty(),
            ).is_unsafe_to_retry()
        }),
{
}

/// Each address is tried at most once.
pub proof fn each_address_is_tried_once(
    state: ConnectView,
    s: SnapshotView,
    generation: u64,
    error: Option<ErrorView>,
    at: Seq<char>,
)
    requires
        state.wf(),
    ensures
        ({
            let (next, _, step) = state.family_connected(s, generation, error, at);
            step is ConnectFamily ==> next.locals == state.locals && next.next_local
                == state.next_local + 1 && next.next_local <= state.locals.len()
                && step->ConnectFamily_local == state.locals[state.next_local]
        }),
{
}

// ---------------------------------------------------------------------------
// What the runtime shows of it.

/// A connection begins: what the last one left is cleared.
pub open spec fn connection_begun(
    s: SnapshotView,
    qmi_device: Seq<char>,
    at: Seq<char>,
) -> SnapshotView {
    SnapshotView {
        phase: VoltePhase::Starting,
        stage: VolteStage::Starting,
        session_started_at: Some(at),
        last_error: None,
        qmi_device: Some(qmi_device),
        bearer_interface: None,
        bearer_ip_type: None,
        bearer_path: None,
        at_cid: None,
        current_ip_family: None,
        connection_attempts: Seq::empty(),
        ..s
    }
}

/// Notes that a connection begins.
pub fn note_connection_begun(runtime: &mut VolteRuntime, qmi_device: &str, at: &str)
    ensures
        final(runtime).generation == old(runtime).generation,
        final(runtime).snapshot@ == connection_begun(old(runtime).snapshot@, qmi_device@, at@),
{
    runtime.snapshot.phase = VoltePhase::Starting;
    runtime.snapshot.stage = VolteStage::Starting;
    runtime.snapshot.session_started_at = Some(at.to_string());
    runtime.snapshot.last_error = None;
    runtime.snapshot.qmi_device = Some(qmi_device.to_string());
    runtime.snapshot.bearer_interface = None;
    runtime.snapshot.bearer_ip_type = None;
    runtime.snapshot.bearer_path = None;
    runtime.snapshot.at_cid = None;
    runtime.snapshot.current_ip_family = None;
    runtime.snapshot.connection_attempts = Vec::new();
    proof {
        assert(runtime.snapshot@.connection_attempts =~= Seq::empty());
    }
}

/// A connection was made.
pub open spec fn connection_made(
    s: SnapshotView,
    protected: bool,
    pcscf: Seq<char>,
    mode: DataSlotMode,
    at: Seq<char>,
) -> SnapshotView {
    SnapshotView {
        phase: VoltePhase::Registered,
        stage: VolteStage::Registered,
        registration_mode: if protected {
            RegistrationMode::Ipsec
        } else {
            RegistrationMode::Udp
        },
        pcscf: Some(pcscf),
        registered_at: Some(at),
        data_path_mode: Some(mode.token()),
        recovery_state: VolteRecoveryState::Registered,
        manual_retry_available: false,
        next_retry_at: None,
        ..s
    }
}

/// Notes that a connection was made.
pub fn note_connection_made(
    runtime: &mut VolteRuntime,
    protected: bool,
    pcscf: &str,
    mode: DataSlotMode,
    at: &str,
)
    ensures
        final(runtime).generation == old(runtime).generation,
        final(runtime).snapshot@ == connection_made(
            old(runtime).snapshot@,
            protected,
            pcscf@,
            mode,
            at@,
        ),
{
    runtime.snapshot.phase = VoltePhase::Registered;
    runtime.snapshot.stage = VolteStage::Registered;
    runtime.snapshot.registration_mode = if protected {
        RegistrationMode::Ipsec
    } else {
        RegistrationMode::Udp
    };
    runtime.snapshot.pcscf = Some(pcscf.to_string());
    runtime.snapshot.registered_at = Some(at.to_string());
    runtime.snapshot.data_path_mode = Some(mode.as_str().to_string());
    runtime.snapshot.recovery_state = VolteRecoveryState::Registered;
    runtime.snapshot.manual_retry_available = false;
    runtime.snapshot.next_retry_at = None;
}

/// A connection could not be made, or was lost.
pub open spec fn degraded(s: SnapshotView, message: Seq<char>, at: Seq<char>) -> SnapshotView {
    SnapshotView {
        phase: VoltePhase::Degraded,
        last_error: Some(message),
        last_failure_at: Some(at),
        ..s
    }
}

/// Notes that a connection could not be made, or was lost.
pub fn note_failure(runtime: &mut VolteRuntime, message: &str, at: &str)
    ensures
        final(runtime).generation == old(runtime).generation,
        final(runtime).snapshot@ == degraded(old(runtime).snapshot@, message@, at@),
{
    runtime.snapshot.phase = VoltePhase::Degraded;
    runtime.snapshot.last_error = Some(message.to_string());
    runtime.snapshot.last_failure_at = Some(at.to_string());
}

/// How long a retained bearer has to be kept on, in milliseconds.
pub fn retention_left(elapsed_ms: u64) -> (r: u64)
    ensures
        r == (if elapsed_ms < FAILED_BEARER_MIN_RETENTION_MS {
            FAILED_BEARER_MIN_RETENTION_MS - elapsed_ms
        } else {
            0
        }),
{
    if elapsed_ms < FAILED_BEARER_MIN_RETENTION_MS {
        FAILED_BEARER_MIN_RETENTION_MS - elapsed_ms
    } else {
        0
    }
}

/// What a failed connection leaves in the runtime does not look registered.
pub proof fn failure_is_not_registered(s: SnapshotView, message: Seq<char>, at: Seq<char>)
    ensures
        degraded(s, message, at).phase != VoltePhase::Registered,
        degraded(s, message, at).connection_attempts == s.connection_attempts,
{
}

} // verus!
