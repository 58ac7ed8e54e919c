//! A bearer that is brought up without ModemManager, on the line's secondary QMI
//! endpoint: which families to try, and what a session that came up is worth.

use vstd::prelude::*;
use vstd::string::*;

use crate::at;
use crate::bearer::{
    bearer_path_valid, BearerConnection, BearerRequest, ConnectionView, BEARER_PATH_PREFIX,
};
use crate::errors::{code, detailed, opt_error, ErrorView, VolteError};
use crate::ip::IpAddr;
use crate::ip_settings::{ImsIpSettings, SettingsView};
use crate::lists::has_number;
use crate::plan::{class_of_details, with, FailureClass, ImsConnectionPlan, IpFamily, IpType};
use crate::text;
use crate::text::has_prefix;

verus! {

/// What the path of a native bearer begins with.
pub const NATIVE_BEARER_PATH_PREFIX: &'static str = "qmi-wds:";

/// The path is that of a native bearer.
pub open spec fn native_path(path: Seq<char>) -> bool {
    has_prefix(path, NATIVE_BEARER_PATH_PREFIX@)
}

/// Whether the path is that of a native bearer, which ModemManager knows nothing of.
pub fn is_native_bearer(path: &str) -> (r: bool)
    ensures
        r == native_path(path@),
{
    text::starts_with(path, NATIVE_BEARER_PATH_PREFIX)
}

/// The path of a session on a device.
pub open spec fn path_of_session(device: Seq<char>, handle: Seq<char>) -> Seq<char> {
    NATIVE_BEARER_PATH_PREFIX@ + device + "#"@ + handle
}

/// Writes the path of a session on a device.
pub fn native_bearer_path(device_path: &str, handle: &str) -> (r: String)
    ensures
        r@ == path_of_session(device_path@, handle@),
{
    let mut path = NATIVE_BEARER_PATH_PREFIX.to_string();
    path.append(device_path);
    path.append("#");
    path.append(handle);
    path
}

/// The path of a native bearer is recognized as such and is never taken for one of
/// ModemManager's, so it is never handed to ModemManager.
pub proof fn native_paths_stand_apart(device: Seq<char>, handle: Seq<char>)
    ensures
        native_path(path_of_session(device, handle)),
        !bearer_path_valid(path_of_session(device, handle)),
{
    let path = path_of_session(device, handle);
    reveal_strlit("qmi-wds:");
    reveal_strlit("/org/freedesktop/ModemManager1/Bearer/");
    assert(path.take(NATIVE_BEARER_PATH_PREFIX@.len() as int) =~= NATIVE_BEARER_PATH_PREFIX@);
    assert(path[0] == 'q');
    if bearer_path_valid(path) {
        assert(path.take(BEARER_PATH_PREFIX@.len() as int)[0] == '/');
    }
}

/// The path of a bearer of ModemManager is never taken for a native one.
pub proof fn modemmanager_paths_stand_apart(path: Seq<char>)
    requires
        bearer_path_valid(path),
    ensures
        !native_path(path),
{
    reveal_strlit("qmi-wds:");
    reveal_strlit("/org/freedesktop/ModemManager1/Bearer/");
    assert(path.take(BEARER_PATH_PREFIX@.len() as int)[0] == '/');
    if native_path(path) {
        assert(path.take(NATIVE_BEARER_PATH_PREFIX@.len() as int)[0] == 'q');
    }
}

/// The QMI number of a family.
pub open spec fn qmi_family(family: IpFamily) -> u8 {
    match family {
        IpFamily::Ipv4 => 4,
        IpFamily::Ipv6 => 6,
    }
}

/// The QMI numbers of the families, each once, in their order.
pub open spec fn qmi_families(order: Seq<IpFamily>) -> Seq<u8>
    decreases order.len(),
{
    if order.len() == 0 {
        Seq::empty()
    } else {
        with(qmi_families(order.drop_last()), qmi_family(order.last()))
    }
}

fn qmi_number(family: IpFamily) -> (r: u8)
    ensures
        r == qmi_family(family),
{
    match family {
        IpFamily::Ipv4 => 4,
        IpFamily::Ipv6 => 6,
    }
}

/// The families to try, in the plan's order, by their QMI numbers.
pub fn qmi_families_for(plan: &ImsConnectionPlan) -> (r: Vec<u8>)
    ensures
        r@ == qmi_families(plan.order()),
{
    let order = plan.pcscf_order();
    let mut families: Vec<u8> = Vec::new();
    let mut i: usize = 0;
    proof {
        assert(families@ =~= qmi_families(order@.take(0)));
    }
    while i < order.len()
        invariant
            i <= order@.len(),
            families@ == qmi_families(order@.take(i as int)),
        decreases order@.len() - i,
    {
        proof {
            assert(order@.take(i as int + 1).drop_last() =~= order@.take(i as int));
            assert(order@.take(i as int + 1).last() == order@[i as int]);
        }
        let value = qmi_number(order[i]);
        if !has_number(&families, value) {
            families.push(value);
        }
        i += 1;
    }
    proof {
        assert(order@.take(order@.len() as int) =~= order@);
    }
    families
}

/// The context whose settings describe the session: that of the profile the session
/// was started on, or else the configured one.
pub open spec fn context_cid(profile_id: Option<u32>, configured: u8) -> u8 {
    match profile_id {
        Some(profile) => if 1 <= profile <= 16 {
            profile as u8
        } else {
            configured
        },
        None => configured,
    }
}

/// The context whose settings describe the session, given what the environment
/// configures.
pub fn ims_context_cid(request: &BearerRequest, configured: Option<&str>) -> (r: u8)
    ensures
        r == context_cid(
            request@.profile_id,
            at::ims_cid_of(
                match configured {
                    Some(text) => Some(text@),
                    None => None,
                },
            ),
        ),
        1 <= r <= 16,
{
    if let Some(profile) = request.profile_id {
        if 1 <= profile && profile <= 16 {
            return profile as u8;
        }
    }
    at::configured_ims_cid(configured)
}

/// The class of a failure, by the error's detail.
pub fn failure_class(error: &VolteError) -> (r: FailureClass)
    ensures
        r == class_of_details(error@.detail_or_empty()),
{
    match error.detail() {
        Some(detail) => FailureClass::from_details(detail),
        None => {
            proof {
                reveal_strlit("");
                assert(""@ =~= Seq::<char>::empty());
            }
            FailureClass::from_details("")
        },
    }
}

/// The family that a failure leaves, by its QMI number.
pub open spec fn forced_number(class: FailureClass) -> Option<u8> {
    match class.forced_family() {
        Some(family) => Some(qmi_family(family)),
        None => None,
    }
}

/// The family that a failure leaves, by its QMI number.
pub fn forced_qmi_family(class: FailureClass) -> (r: Option<u8>)
    ensures
        r == forced_number(class),
{
    match class.forced_family() {
        Some(family) => Some(qmi_number(family)),
        None => None,
    }
}

// ---------------------------------------------------------------------------
// What the device reports.

/// Why a device could not bring a bearer up.
#[derive(Debug, Clone, Copy, PartialEq, Eq, Structural)]
pub enum ImsBearerErrorKind {
    BasebandUnresolved,
    EndpointUnavailable,
    SessionStartFailed,
    SettingsMissing,
    NetdevUnresolved,
}

/// A device's report that it could not bring a bearer up.
#[derive(Debug, PartialEq, Eq)]
pub struct ImsBearerError {
    pub kind: ImsBearerErrorKind,
    pub detail: String,
}

/// The error that a device's report stands for. A wedged baseband keeps the code
/// under which it is never handed on to ModemManager.
pub open spec fn error_of(kind: ImsBearerErrorKind, detail: Seq<char>) -> ErrorView {
    detailed(
        match kind {
            ImsBearerErrorKind::BasebandUnresolved => code::IP_SETTINGS_MISSING@,
            ImsBearerErrorKind::EndpointUnavailable => code::RUNTIME_IMS_ENDPOINT_UNAVAILABLE@,
            ImsBearerErrorKind::SessionStartFailed => if class_of_details(detail)
                == FailureClass::BasebandWedged {
                code::RUNTIME_MM_BEARER_CONNECT_FAILED@
            } else {
                code::RUNTIME_IMS_BEARER_START_FAILED@
            },
            ImsBearerErrorKind::SettingsMissing => code::IP_SETTINGS_MISSING@,
            ImsBearerErrorKind::NetdevUnresolved => code::IP_SETTINGS_MISSING@,
        },
        detail,
    )
}

/// The error that a device's report stands for.
pub fn volte_error_from_ims_bearer(error: ImsBearerError) -> (r: VolteError)
    ensures
        r@ == error_of(error.kind, error.detail@),
{
    let error_code = match error.kind {
        ImsBearerErrorKind::BasebandUnresolved => code::IP_SETTINGS_MISSING,
        ImsBearerErrorKind::EndpointUnavailable => code::RUNTIME_IMS_ENDPOINT_UNAVAILABLE,
        ImsBearerErrorKind::SessionStartFailed => if FailureClass::from_details(
            error.detail.as_str(),
        ) == FailureClass::BasebandWedged {
            code::RUNTIME_MM_BEARER_CONNECT_FAILED
        } else {
            code::RUNTIME_IMS_BEARER_START_FAILED
        },
        ImsBearerErrorKind::SettingsMissing => code::IP_SETTINGS_MISSING,
        ImsBearerErrorKind::NetdevUnresolved => code::IP_SETTINGS_MISSING,
    };
    VolteError::with_detail(error_code, error.detail.as_str())
}

/// Who an interface belongs to.
#[derive(Debug, Clone, Copy, PartialEq, Eq, Structural)]
pub enum BearerInterfaceOwnership {
    /// The host's own data runs over it.
    HostManagedPrimary,
    /// It was created for this line.
    SimAdminOwnedSecondary,
    /// It was created in the line's worker.
    WorkerNative,
    Unknown,
}

/// A session that a device brought up.
#[derive(Debug, PartialEq, Eq)]
pub struct ImsBearerInfo {
    pub interface: String,
    /// How the interface was found.
    pub netdev_method: &'static str,
    pub interface_ownership: BearerInterfaceOwnership,
    pub ip_type: String,
    pub path_device: String,
    pub path_handle: String,
    pub ipv4_address: Option<IpAddr>,
    pub ipv4_gateway: Option<IpAddr>,
    pub ipv4_dns: Vec<IpAddr>,
    pub ipv4_prefix: Option<u8>,
    pub ipv6_address: Option<IpAddr>,
    pub ipv6_gateway: Option<IpAddr>,
    pub ipv6_dns: Vec<IpAddr>,
    pub ipv6_prefix: Option<u8>,
    pub pcscf: Vec<IpAddr>,
}

impl Default for ImsBearerInfo {
    fn default() -> (r: Self)
        ensures
            r.interface@ == ""@,
            r.netdev_method@ == ""@,
            r.interface_ownership == BearerInterfaceOwnership::Unknown,
            r.ip_type@ == ""@,
            r.path_device@ == ""@,
            r.path_handle@ == ""@,
            r.ipv4_prefix is None,
            r.ipv6_prefix is None,
            r.settings() == crate::ip_settings::no_settings(),
    {
        let r = ImsBearerInfo {
            interface: "".to_string(),
            netdev_method: "",
            interface_ownership: BearerInterfaceOwnership::Unknown,
            ip_type: "".to_string(),
            path_device: "".to_string(),
            path_handle: "".to_string(),
            ipv4_address: None,
            ipv4_gateway: None,
            ipv4_dns: Vec::new(),
            ipv4_prefix: None,
            ipv6_address: None,
            ipv6_gateway: None,
            ipv6_dns: Vec::new(),
            ipv6_prefix: None,
            pcscf: Vec::new(),
        };
        proof {
            assert(r.ipv4_dns@ =~= Seq::<IpAddr>::empty());
            assert(r.ipv6_dns@ =~= Seq::<IpAddr>::empty());
            assert(r.pcscf@ =~= Seq::<IpAddr>::empty());
        }
        r
    }
}

impl ImsBearerInfo {
    /// The IP settings of the session.
    pub open spec fn settings(self) -> SettingsView {
        SettingsView {
            ipv4_address: self.ipv4_address,
            ipv4_gateway: self.ipv4_gateway,
            ipv4_dns: self.ipv4_dns@,
            ipv6_address: self.ipv6_address,
            ipv6_gateway: self.ipv6_gateway,
            ipv6_dns: self.ipv6_dns@,
            pcscf: self.pcscf@,
        }
    }
}

/// The bearer that a session makes; a session without an address makes none.
pub fn to_bearer_connection(info: &ImsBearerInfo) -> (r: Result<BearerConnection, VolteError>)
    ensures
        match r {
            Ok(bearer) => info.settings().preferred() is Some && bearer@ == (ConnectionView {
                path: path_of_session(info.path_device@, info.path_handle@),
                interface: info.interface@,
                ip_type: info.ip_type@,
                settings: info.settings(),
                ipv4_prefix: info.ipv4_prefix,
                ipv6_prefix: info.ipv6_prefix,
                mtu: None,
            }),
            Err(error) => info.settings().preferred() is None && error@ == detailed(
                code::IP_SETTINGS_MISSING@,
                "native_ims_session_has_no_address"@,
            ),
        },
{
    let settings = ImsIpSettings {
        ipv4_address: info.ipv4_address,
        ipv4_gateway: info.ipv4_gateway,
        ipv4_dns: vstd::slice::slice_to_vec(info.ipv4_dns.as_slice()),
        ipv6_address: info.ipv6_address,
        ipv6_gateway: info.ipv6_gateway,
        ipv6_dns: vstd::slice::slice_to_vec(info.ipv6_dns.as_slice()),
        pcscf: vstd::slice::slice_to_vec(info.pcscf.as_slice()),
    };
    proof {
        assert(settings@.ipv4_dns =~= info.ipv4_dns@);
        assert(settings@.ipv6_dns =~= info.ipv6_dns@);
        assert(settings@.pcscf =~= info.pcscf@);
    }
    if settings.local_addr().is_none() {
        return Err(
            VolteError::with_detail(
                code::IP_SETTINGS_MISSING,
                "native_ims_session_has_no_address",
            ),
        );
    }
    Ok(
        BearerConnection {
            path: native_bearer_path(info.path_device.as_str(), info.path_handle.as_str()),
            interface: info.interface.clone(),
            ip_type: info.ip_type.clone(),
            settings,
            ipv4_prefix: info.ipv4_prefix,
            ipv6_prefix: info.ipv6_prefix,
            mtu: None,
        },
    )
}

// ---------------------------------------------------------------------------
// The attempts.

/// What to do next.
#[derive(Debug, PartialEq, Eq)]
pub enum NativeStep {
    /// Start a session for these families, by their QMI numbers.
    Try { families: Vec<u8> },
    /// No session could be started.
    Failed(VolteError),
}

pub enum NativeStepView {
    Try { families: Seq<u8> },
    Failed(ErrorView),
}

impl View for NativeStep {
    type V = NativeStepView;

    open spec fn view(&self) -> NativeStepView {
        match *self {
            NativeStep::Try { families } => NativeStepView::Try { families: families@ },
            NativeStep::Failed(error) => NativeStepView::Failed(error@),
        }
    }
}

/// The attempts at a native bearer, one after the other.
#[derive(Debug, PartialEq, Eq)]
pub struct NativeAttempts {
    /// The plan's attempts, the families it admits, and how many were made.
    attempts: Vec<IpType>,
    families: Vec<u8>,
    next: usize,
    /// The network forced a family, which is the last to be tried.
    forced: bool,
    last_error: Option<VolteError>,
}

pub struct NativeView {
    /// The attempts that are left.
    pub left: Seq<IpType>,
    pub families: Seq<u8>,
    pub forced: bool,
    pub last_error: Option<ErrorView>,
}

impl View for NativeAttempts {
    type V = NativeView;

    closed spec fn view(&self) -> NativeView {
        NativeView {
            left: self.attempts@.skip(self.next as int),
            families: self.families@,
            forced: self.forced,
            last_error: opt_error(self.last_error),
        }
    }
}

/// The families of one attempt: both take a plan that admits both.
pub open spec fn attempt_families(ip_type: IpType, families: Seq<u8>) -> Option<Seq<u8>> {
    match ip_type {
        IpType::Ipv4v6 => if families.len() < 2 {
            None
        } else {
            Some(families.take(2))
        },
        IpType::Ipv4 => Some(seq![4u8]),
        IpType::Ipv6 => Some(seq![6u8]),
    }
}

impl NativeView {
    /// The next attempt of the plan, or the error that is left.
    pub open spec fn next_try(self) -> (NativeView, NativeStepView)
        decreases self.left.len(),
    {
        if self.left.len() == 0 {
            (
                self,
                NativeStepView::Failed(
                    match self.last_error {
                        Some(error) => error,
                        None => detailed(
                            code::RUNTIME_MM_BEARER_CONNECT_FAILED@,
                            "native_ims_no_family_attempted"@,
                        ),
                    },
                ),
            )
        } else {
            let rest = NativeView { left: self.left.drop_first(), ..self };
            match attempt_families(self.left[0], self.families) {
                Some(families) => (rest, NativeStepView::Try { families }),
                None => rest.next_try(),
            }
        }
    }

    /// An attempt failed. A wedged baseband ends the attempts, and so does the
    /// family that the network forced; that family is tried once and nothing after
    /// it.
    pub open spec fn failed(self, error: ErrorView) -> (NativeView, NativeStepView) {
        let class = class_of_details(error.detail_or_empty());
        let state = NativeView { last_error: Some(error), ..self };
        if self.forced || class.is_unsafe_to_retry() {
            (state, NativeStepView::Failed(error))
        } else {
            match forced_number(class) {
                Some(family) => (
                    NativeView { forced: true, ..state },
                    NativeStepView::Try { families: seq![family] },
                ),
                None => state.next_try(),
            }
        }
    }
}

impl NativeAttempts {
    pub closed spec fn wf(&self) -> bool {
        self.next <= self.attempts@.len()
    }

    /// The first attempt of the plan.
    pub fn begin(plan: &ImsConnectionPlan) -> (r: (Self, NativeStep))
        ensures
            r.0.wf(),
            (r.0@, r.1@) == (NativeView {
                left: plan.attempts(),
                families: qmi_families(plan.order()),
                forced: false,
                last_error: None,
            }).next_try(),
    {
        let mut state = NativeAttempts {
            attempts: vstd::slice::slice_to_vec(plan.bearer_attempts()),
            families: qmi_families_for(plan),
            next: 0,
            forced: false,
            last_error: None,
        };
        proof {
            assert(state.attempts@.skip(0) =~= plan.attempts());
        }
        let step = state.next_try();
        (state, step)
    }

    fn next_try(&mut self) -> (r: NativeStep)
        requires
            old(self).wf(),
        ensures
            final(self).wf(),
            (final(self)@, r@) == old(self)@.next_try(),
        decreases old(self).attempts@.len() - old(self).next,
    {
        let n = self.attempts.len();
        if self.next >= n {
            return match &self.last_error {
                Some(error) => NativeStep::Failed(error.clone()),
                None => NativeStep::Failed(
                    VolteError::with_detail(
                        code::RUNTIME_MM_BEARER_CONNECT_FAILED,
                        "native_ims_no_family_attempted",
                    ),
                ),
            };
        }
        let ip_type = self.attempts[self.next];
        proof {
            assert(self@.left.drop_first() =~= self.attempts@.skip(self.next as int + 1));
        }
        self.next = self.next + 1;
        let families: Vec<u8> = match ip_type {
            IpType::Ipv4v6 => {
                if self.families.len() < 2 {
                    return self.next_try();
                }
                let both = vstd::slice::slice_subrange(self.families.as_slice(), 0, 2);
                let both = vstd::slice::slice_to_vec(both);
                proof {
                    assert(both@ =~= self.families@.take(2));
                }
                both
            },
            IpType::Ipv4 => vec![4],
            IpType::Ipv6 => vec![6],
        };
        proof {
            if !(ip_type is Ipv4v6) {
                assert(families@ =~= attempt_families(ip_type, self.families@)->0);
            }
        }
        NativeStep::Try { families }
    }

    /// The device could not start the session.
    pub fn failed(&mut self, report: ImsBearerError) -> (r: NativeStep)
        requires
            old(self).wf(),
        ensures
            final(self).wf(),
            (final(self)@, r@) == old(self)@.failed(error_of(report.kind, report.detail@)),
    {
        let error = volte_error_from_ims_bearer(report);
        let class = failure_class(&error);
        let forced = self.forced;
        self.last_error = Some(error.clone());
        if forced || class.is_unsafe_to_retry() {
            return NativeStep::Failed(error);
        }
        if let Some(family) = forced_qmi_family(class) {
            self.forced = true;
            let families: Vec<u8> = vec![family];
            proof {
                assert(families@ =~= seq![family]);
            }
            return NativeStep::Try { families };
        }
        self.next_try()
    }
}

/// A wedged baseband is left alone: no session is started after such a failure.
pub proof fn wedged_baseband_ends_attempts(state: NativeView, error: ErrorView)
    requires
        class_of_details(error.detail_or_empty()).is_unsafe_to_retry(),
    ensures
        state.failed(error).1 == NativeStepView::Failed(error),
{
}

/// Each failure brings the attempts closer to their end.
pub proof fn native_attempts_come_to_an_end(state: NativeView, error: ErrorView)
    ensures
        ({
            let (next, step) = state.failed(error);
            step is Try ==> next.left.len() < state.left.len() || (!state.forced && next.forced
                && next.left == state.left)
        }),
{
    lemma_next_try_shortens(NativeView { last_error: Some(error), ..state });
}

proof fn lemma_next_try_shortens(state: NativeView)
    ensures
        state.next_try().1 is Try ==> state.next_try().0.left.len() < state.left.len(),
    decreases state.left.len(),
{
    if state.left.len() > 0 {
        lemma_next_try_shortens(NativeView { left: state.left.drop_first(), ..state });
    }
}

// ---------------------------------------------------------------------------
// The line's worker.

/// Where the interface of a native bearer is.
#[derive(Debug, PartialEq, Eq)]
pub struct NativeNetdev {
    pub interface: String,
    pub ownership: BearerInterfaceOwnership,
    /// A worker is responsible for the interface.
    pub in_worker: bool,
    /// The interface was moved there, and has to be moved back.
    pub moved: bool,
}

/// What to do about a move into the worker.
#[derive(Debug, PartialEq, Eq)]
pub enum MoveDecision {
    /// The interface is there.
    Done,
    /// Move it, then say whether the worker sees it.
    Move,
    Refused(VolteError),
}

impl NativeNetdev {
    /// Decides a move of the interface into the line's worker. Only an interface
    /// that was created for the line may leave the host; one that was created in the
    /// worker is there already.
    pub fn decide_move(&mut self) -> (r: MoveDecision)
        ensures
            final(self).interface@ == old(self).interface@,
            final(self).ownership == old(self).ownership,
            final(self).moved == old(self).moved,
            final(self).in_worker == (old(self).in_worker
                || old(self).ownership is WorkerNative),
            match old(self).ownership {
                BearerInterfaceOwnership::HostManagedPrimary => r is Refused && r->Refused_0@
                    == detailed(
                    code::COMMAND_FAILED@,
                    "native bearer refuses to move host-managed interface "@ + old(
                        self,
                    ).interface@,
                ),
                BearerInterfaceOwnership::Unknown => r is Refused && r->Refused_0@ == detailed(
                    code::COMMAND_FAILED@,
                    "native bearer ownership is unknown; refusing to move "@ + old(
                        self,
                    ).interface@,
                ),
                BearerInterfaceOwnership::WorkerNative => r is Done,
                BearerInterfaceOwnership::SimAdminOwnedSecondary => if old(self).moved {
                    r is Done
                } else {
                    r is Move
                },
            },
    {
        match self.ownership {
            BearerInterfaceOwnership::HostManagedPrimary => {
                let mut detail =
                    "native bearer refuses to move host-managed interface ".to_string();
                detail.append(self.interface.as_str());
                MoveDecision::Refused(
                    VolteError::with_detail(code::COMMAND_FAILED, detail.as_str()),
                )
            },
            BearerInterfaceOwnership::Unknown => {
                let mut detail =
                    "native bearer ownership is unknown; refusing to move ".to_string();
                detail.append(self.interface.as_str());
                MoveDecision::Refused(
                    VolteError::with_detail(code::COMMAND_FAILED, detail.as_str()),
                )
            },
            BearerInterfaceOwnership::WorkerNative => {
                self.in_worker = true;
                MoveDecision::Done
            },
            BearerInterfaceOwnership::SimAdminOwnedSecondary => if self.moved {
                MoveDecision::Done
            } else {
                MoveDecision::Move
            },
        }
    }

    /// The move failed.
    pub fn move_failed(&self, namespace: &str, error: &str) -> (r: VolteError)
        ensures
            r@ == detailed(
                code::COMMAND_FAILED@,
                "move native bearer "@ + self.interface@ + " into "@ + namespace@ + ": "@ + error@,
            ),
    {
        let mut detail = "move native bearer ".to_string();
        detail.append(self.interface.as_str());
        detail.append(" into ");
        detail.append(namespace);
        detail.append(": ");
        detail.append(error);
        VolteError::with_detail(code::COMMAND_FAILED, detail.as_str())
    }

    /// The interface was moved; `seen` lists what the worker sees, where it answered.
    /// An interface that the worker does not see is to be moved back.
    pub fn moved_into_worker(&mut self, seen: Option<&[String]>) -> (r: Result<(), VolteError>)
        ensures
            final(self).interface@ == old(self).interface@,
            final(self).ownership == old(self).ownership,
            r is Ok <==> seen is Some && text::texts(seen->0@).contains(old(self).interface@),
            r is Ok ==> final(self).in_worker && final(self).moved,
            r is Err ==> final(self).in_worker == old(self).in_worker && final(self).moved == old(
                self,
            ).moved && r->Err_0@ == detailed(
                code::COMMAND_FAILED@,
                "worker cannot observe moved native interface "@ + old(self).interface@,
            ),
    {
        if let Some(names) = seen {
            let ghost all = text::texts(names@);
            let mut i: usize = 0;
            while i < names.len()
                invariant
                    i <= names@.len(),
                    seen == Some(names),
                    all == text::texts(names@),
                    *self == *old(self),
                    forall|j: int| 0 <= j < i ==> #[trigger] all[j] != self.interface@,
                decreases names@.len() - i,
            {
                if text::same(names[i].as_str(), self.interface.as_str()) {
                    assert(all[i as int] == old(self).interface@);
                    self.in_worker = true;
                    self.moved = true;
                    return Ok(());
                }
                i += 1;
            }
        }
        let mut detail = "worker cannot observe moved native interface ".to_string();
        detail.append(self.interface.as_str());
        Err(VolteError::with_detail(code::COMMAND_FAILED, detail.as_str()))
    }

    /// Takes the interface back from the worker. Says whether it has to be moved.
    pub fn restore(&mut self) -> (r: bool)
        ensures
            final(self).interface@ == old(self).interface@,
            final(self).ownership == old(self).ownership,
            r == (old(self).moved && old(self).in_worker),
            !final(self).moved,
            final(self).in_worker == (if old(self).moved {
                false
            } else {
                old(self).in_worker
            }),
    {
        if !self.moved {
            return false;
        }
        let held = self.in_worker;
        self.moved = false;
        self.in_worker = false;
        held
    }
}

} // verus!
