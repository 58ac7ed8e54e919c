//! Bringing an IMS bearer up: a bearer that fits is reused, one that does not is
//! removed, and new ones are tried in the plan's order.

use vstd::prelude::*;
use vstd::string::*;

use crate::bearer;
use crate::bearer::{
    connected, connection_in, dual_stack, profile_matches, roaming_matches, BearerConnection,
    BearerRequest, ConnectionView, RequestView,
};
use crate::errors::{code, detailed, failure, opt_error, ErrorView, VolteError};
use crate::lists::{add_text, no_texts};
use crate::modem_output;
use crate::modem_output::value_of;
use crate::native_bearer::{is_native_bearer, native_path};
use crate::plan::{
    class_of_details, has_type, FailureClass, ImsConnectionPlan, IpFamily, IpType,
};
use crate::text;
use crate::text::{opt, same_folded, texts};

verus! {

/// A report on one attempt.
#[derive(Debug, PartialEq, Eq)]
pub struct BearerAttempt {
    pub ip_type: String,
    pub source: String,
    pub outcome: String,
    pub error: Option<VolteError>,
}

impl BearerAttempt {
    /// The attempt begins.
    pub fn started(ip_type: &str, source: &str) -> (r: Self)
        ensures
            r.ip_type@ == ip_type@,
            r.source@ == source@,
            r.outcome@ == "started"@,
            r.error is None,
    {
        BearerAttempt {
            ip_type: ip_type.to_string(),
            source: source.to_string(),
            outcome: "started".to_string(),
            error: None,
        }
    }

    /// The attempt is over; without an error it succeeded.
    pub fn finished(ip_type: &str, source: &str, error: Option<&VolteError>) -> (r: Self)
        ensures
            r.ip_type@ == ip_type@,
            r.source@ == source@,
            match error {
                Some(error) => r.outcome@ == "failed"@ && opt_error(r.error) == Some(error@),
                None => r.outcome@ == "succeeded"@ && r.error is None,
            },
    {
        match error {
            Some(error) => BearerAttempt {
                ip_type: ip_type.to_string(),
                source: source.to_string(),
                outcome: "failed".to_string(),
                error: Some(error.clone()),
            },
            None => BearerAttempt {
                ip_type: ip_type.to_string(),
                source: source.to_string(),
                outcome: "succeeded".to_string(),
                error: None,
            },
        }
    }
}

/// What is to be done with a bearer that exists already.
#[derive(Debug, Clone, Copy, PartialEq, Eq, Structural)]
pub enum ExistingBearer {
    /// It serves another access point and is left alone.
    Foreign,
    /// It does not fit the request: remove it and look at the next one.
    Recreate { disconnect: bool },
    /// It fits and is connected.
    Reuse,
    /// It fits: connect it.
    Reconnect,
    /// It serves one family only: remove it and look no further.
    Discard { disconnect: bool },
}

/// What is to be done with a bearer that exists already.
pub open spec fn existing_bearer(details: Seq<char>, request: RequestView) -> ExistingBearer {
    let apn = value_of(details, "bearer.properties.apn"@);
    if apn is None || !same_folded(apn->0, request.apn) {
        ExistingBearer::Foreign
    } else if !roaming_matches(details, request.allow_roaming) || !profile_matches(
        details,
        request.profile_id,
    ) {
        ExistingBearer::Recreate { disconnect: connected(details) }
    } else if dual_stack(details) {
        if connected(details) {
            ExistingBearer::Reuse
        } else {
            ExistingBearer::Reconnect
        }
    } else {
        ExistingBearer::Discard { disconnect: connected(details) }
    }
}

/// Decides what is to be done with a bearer that exists already.
pub fn classify_existing_bearer(details: &str, request: &BearerRequest) -> (r: ExistingBearer)
    ensures
        r == existing_bearer(details@, request@),
{
    let ours = match modem_output::key_value(details, "bearer.properties.apn") {
        Some(apn) => text::same_ignoring_case(apn.as_str(), request.apn.as_str()),
        None => false,
    };
    if !ours {
        return ExistingBearer::Foreign;
    }
    if !bearer::bearer_roaming_policy_matches(details, request.allow_roaming)
        || !bearer::bearer_profile_matches(details, request.profile_id) {
        return ExistingBearer::Recreate { disconnect: bearer::is_connected(details) };
    }
    if bearer::is_dual_stack_bearer(details) {
        if bearer::is_connected(details) {
            ExistingBearer::Reuse
        } else {
            ExistingBearer::Reconnect
        }
    } else {
        ExistingBearer::Discard { disconnect: bearer::is_connected(details) }
    }
}

/// The one type that a failure leaves, where the network forces a family.
pub open spec fn forced_type(details: Seq<char>) -> Option<IpType> {
    match class_of_details(details).forced_family() {
        Some(IpFamily::Ipv6) => Some(IpType::Ipv6),
        Some(IpFamily::Ipv4) => Some(IpType::Ipv4),
        None => None,
    }
}

/// The one type that a failure leaves, where the network forces a family.
pub fn forced_type_after(details: &str) -> (r: Option<IpType>)
    ensures
        r == forced_type(details@),
{
    match FailureClass::from_details(details).forced_family() {
        Some(IpFamily::Ipv6) => Some(IpType::Ipv6),
        Some(IpFamily::Ipv4) => Some(IpType::Ipv4),
        None => None,
    }
}

/// What to do next.
#[derive(Debug, PartialEq, Eq)]
pub enum EnsureStep {
    /// Connect the pinned bearer, which is the outcome.
    ConnectPinned { path: String },
    /// Read the modem's list of bearers.
    ListBearers,
    /// Read this bearer.
    Inspect { path: String },
    /// Disconnect this bearer where asked, and delete it.
    Remove { path: String, disconnect: bool },
    /// Connect this bearer, which fits.
    Reconnect { path: String },
    /// Read this bearer, which could not be connected.
    InspectFailure { path: String },
    /// Create a bearer of this type and connect it.
    Create { ip_type: IpType },
    /// The bearer is up as it was read.
    Reused(BearerConnection),
    /// The bearer fits, but what was read of it cannot be used.
    ReuseFailed(VolteError),
    /// No bearer could be brought up.
    Failed(VolteError),
}

pub enum StepView {
    ConnectPinned { path: Seq<char> },
    ListBearers,
    Inspect { path: Seq<char> },
    Remove { path: Seq<char>, disconnect: bool },
    Reconnect { path: Seq<char> },
    InspectFailure { path: Seq<char> },
    Create { ip_type: IpType },
    Reused(ConnectionView),
    ReuseFailed(ErrorView),
    Failed(ErrorView),
}

impl View for EnsureStep {
    type V = StepView;

    open spec fn view(&self) -> StepView {
        match *self {
            EnsureStep::ConnectPinned { path } => StepView::ConnectPinned { path: path@ },
            EnsureStep::ListBearers => StepView::ListBearers,
            EnsureStep::Inspect { path } => StepView::Inspect { path: path@ },
            EnsureStep::Remove { path, disconnect } => StepView::Remove {
                path: path@,
                disconnect,
            },
            EnsureStep::Reconnect { path } => StepView::Reconnect { path: path@ },
            EnsureStep::InspectFailure { path } => StepView::InspectFailure { path: path@ },
            EnsureStep::Create { ip_type } => StepView::Create { ip_type },
            EnsureStep::Reused(connection) => StepView::Reused(connection@),
            EnsureStep::ReuseFailed(error) => StepView::ReuseFailed(error@),
            EnsureStep::Failed(error) => StepView::Failed(error@),
        }
    }
}

/// Bringing a bearer up, step by step.
#[derive(Debug, PartialEq, Eq)]
pub struct EnsureBearer {
    request: BearerRequest,
    /// The plan's attempts, in order.
    attempts: Vec<IpType>,
    /// The bearers that exist, and how many of them were looked at.
    paths: Vec<String>,
    next_path: usize,
    /// Look no further once the bearer at hand is removed.
    stop_looking: bool,
    /// The type that the network left.
    forced: Option<IpType>,
    /// The baseband has stopped accepting sessions.
    wedged: bool,
    /// The types to try and those that were tried.
    pending: Vec<IpType>,
    attempted: Vec<IpType>,
    last_error: Option<VolteError>,
}

pub struct EnsureView {
    pub request: RequestView,
    /// The plan's attempts, in order.
    pub attempts: Seq<IpType>,
    pub paths: Seq<Seq<char>>,
    pub next_path: int,
    pub stop_looking: bool,
    pub forced: Option<IpType>,
    pub wedged: bool,
    pub pending: Seq<IpType>,
    pub attempted: Seq<IpType>,
    pub last_error: Option<ErrorView>,
}

impl View for EnsureBearer {
    type V = EnsureView;

    closed spec fn view(&self) -> EnsureView {
        EnsureView {
            request: self.request@,
            attempts: self.attempts@,
            paths: texts(self.paths@),
            next_path: self.next_path as int,
            stop_looking: self.stop_looking,
            forced: self.forced,
            wedged: self.wedged,
            pending: self.pending@,
            attempted: self.attempted@,
            last_error: opt_error(self.last_error),
        }
    }
}

/// The types to try after a failure: the one that the network leaves, now or since an
/// earlier failure, or else the plan's further ones. A baseband that has stopped
/// accepting sessions is not asked again.
pub open spec fn fallbacks_after(
    attempts: Seq<IpType>,
    forced: Option<IpType>,
    details: Seq<char>,
) -> Seq<IpType> {
    if class_of_details(details).is_unsafe_to_retry() {
        Seq::empty()
    } else {
        match forced_type(details) {
            Some(ip_type) => seq![ip_type],
            None => if forced is Some {
                Seq::empty()
            } else {
                attempts.skip(1)
            },
        }
    }
}

impl EnsureView {
    pub open spec fn wf(self) -> bool {
        &&& self.attempts.len() > 0
        &&& self.attempts.no_duplicates()
        &&& 0 <= self.next_path <= self.paths.len()
        &&& self.attempted.no_duplicates()
    }

    /// The error once nothing is left to try.
    pub open spec fn give_up(self) -> StepView {
        StepView::Failed(
            match self.last_error {
                Some(error) => error,
                None => failure(code::RUNTIME_MM_BEARER_CONNECT_FAILED@),
            },
        )
    }

    /// The next type to try; one that was tried is passed over.
    pub open spec fn next_attempt(self) -> (EnsureView, StepView)
        decreases self.pending.len(),
    {
        if self.pending.len() == 0 {
            (self, self.give_up())
        } else {
            let ip_type = self.pending[0];
            let rest = EnsureView { pending: self.pending.drop_first(), ..self };
            if self.attempted.contains(ip_type) {
                rest.next_attempt()
            } else {
                (
                    EnsureView { attempted: self.attempted.push(ip_type), ..rest },
                    StepView::Create { ip_type },
                )
            }
        }
    }

    /// The first type to try: the one that the network left, or else the plan's. None
    /// is tried on a baseband that has stopped accepting sessions.
    pub open spec fn begin_attempts(self) -> (EnsureView, StepView) {
        EnsureView {
            pending: if self.wedged {
                Seq::empty()
            } else {
                match self.forced {
                    Some(ip_type) => seq![ip_type],
                    None => self.attempts.take(1),
                }
            },
            attempted: Seq::empty(),
            ..self
        }.next_attempt()
    }

    /// The next bearer to look at, or the first type to try.
    pub open spec fn look_on(self) -> (EnsureView, StepView) {
        if !self.stop_looking && self.next_path < self.paths.len() {
            (
                EnsureView { next_path: self.next_path + 1, ..self },
                StepView::Inspect { path: self.paths[self.next_path] },
            )
        } else {
            self.begin_attempts()
        }
    }

    /// The bearers that exist were listed.
    pub open spec fn listed(self, paths: Seq<Seq<char>>) -> (EnsureView, StepView) {
        EnsureView { paths, next_path: 0, ..self }.look_on()
    }

    /// A bearer was read.
    pub open spec fn inspected(self, path: Seq<char>, details: Seq<char>) -> (
        EnsureView,
        StepView,
    ) {
        match existing_bearer(details, self.request) {
            ExistingBearer::Foreign => self.look_on(),
            ExistingBearer::Recreate { disconnect } => (
                self,
                StepView::Remove { path, disconnect },
            ),
            ExistingBearer::Reuse => (
                self,
                match connection_in(path, details) {
                    Ok(connection) => StepView::Reused(connection),
                    Err(error) => StepView::ReuseFailed(error),
                },
            ),
            ExistingBearer::Reconnect => (self, StepView::Reconnect { path }),
            ExistingBearer::Discard { disconnect } => (
                EnsureView { stop_looking: true, ..self },
                StepView::Remove { path, disconnect },
            ),
        }
    }

    /// A bearer that fits could not be connected.
    pub open spec fn reconnect_failed(self, path: Seq<char>, error: ErrorView) -> (
        EnsureView,
        StepView,
    ) {
        (
            EnsureView { stop_looking: true, last_error: Some(error), ..self },
            StepView::InspectFailure { path },
        )
    }

    /// The bearer that could not be connected was read; it goes.
    pub open spec fn failure_inspected(self, path: Seq<char>, details: Seq<char>) -> (
        EnsureView,
        StepView,
    ) {
        (
            EnsureView {
                forced: forced_type(details),
                wedged: class_of_details(details).is_unsafe_to_retry(),
                ..self
            },
            StepView::Remove { path, disconnect: false },
        )
    }

    /// An attempt with a new bearer failed.
    pub open spec fn create_failed(self, error: ErrorView, details: Seq<char>) -> (
        EnsureView,
        StepView,
    ) {
        EnsureView {
            last_error: Some(error),
            forced: match forced_type(details) {
                Some(ip_type) => Some(ip_type),
                None => self.forced,
            },
            pending: fallbacks_after(self.attempts, self.forced, details),
            ..self
        }.next_attempt()
    }
}

/// How bringing a bearer up begins: a pinned bearer is the only one considered.
pub fn begin_ensure_bearer(
    pinned: Option<String>,
    request: &BearerRequest,
    plan: &ImsConnectionPlan,
) -> (r: (EnsureBearer, EnsureStep))
    ensures
        r.0@.wf(),
        r.0@ == (EnsureView {
            request: request@,
            attempts: plan.attempts(),
            paths: Seq::empty(),
            next_path: 0,
            stop_looking: false,
            forced: None,
            wedged: false,
            pending: Seq::empty(),
            attempted: Seq::empty(),
            last_error: None,
        }),
        r.1@ == (match opt(pinned) {
            Some(path) => StepView::ConnectPinned { path },
            None => StepView::ListBearers,
        }),
{
    let machine = EnsureBearer {
        request: request.clone(),
        attempts: vstd::slice::slice_to_vec(plan.bearer_attempts()),
        paths: Vec::new(),
        next_path: 0,
        stop_looking: false,
        forced: None,
        wedged: false,
        pending: Vec::new(),
        attempted: Vec::new(),
        last_error: None,
    };
    proof {
        assert(texts(machine.paths@) =~= Seq::<Seq<char>>::empty());
        assert(machine@.pending =~= Seq::<IpType>::empty());
        assert(machine@.attempted =~= Seq::<IpType>::empty());
    }
    let step = match pinned {
        Some(path) => EnsureStep::ConnectPinned { path },
        None => EnsureStep::ListBearers,
    };
    (machine, step)
}

impl EnsureBearer {
    fn next_attempt(&mut self) -> (r: EnsureStep)
        requires
            old(self)@.wf(),
        ensures
            (final(self)@, r@) == old(self)@.next_attempt(),
            final(self)@.wf(),
        decreases old(self).pending@.len(),
    {
        if self.pending.len() == 0 {
            return match &self.last_error {
                Some(error) => EnsureStep::Failed(error.clone()),
                None => EnsureStep::Failed(
                    VolteError::new(code::RUNTIME_MM_BEARER_CONNECT_FAILED),
                ),
            };
        }
        let ip_type = self.pending.remove(0);
        proof {
            assert(self.pending@ =~= old(self).pending@.drop_first());
        }
        if has_type(&self.attempted, ip_type) {
            return self.next_attempt();
        }
        self.attempted.push(ip_type);
        EnsureStep::Create { ip_type }
    }

    fn begin_attempts(&mut self) -> (r: EnsureStep)
        requires
            old(self)@.wf(),
        ensures
            (final(self)@, r@) == old(self)@.begin_attempts(),
            final(self)@.wf(),
    {
        let first = match self.forced {
            Some(ip_type) => ip_type,
            None => self.attempts[0],
        };
        self.pending = Vec::new();
        if !self.wedged {
            self.pending.push(first);
        }
        self.attempted = Vec::new();
        proof {
            assert(self.wedged ==> self.pending@ =~= Seq::<IpType>::empty());
            assert(!self.wedged ==> self.pending@ =~= seq![first]);
            assert(self.attempts@.take(1) =~= seq![self.attempts@[0]]);
            assert(self.attempted@ =~= Seq::<IpType>::empty());
        }
        self.next_attempt()
    }

    fn look_on(&mut self) -> (r: EnsureStep)
        requires
            old(self)@.wf(),
        ensures
            (final(self)@, r@) == old(self)@.look_on(),
            final(self)@.wf(),
    {
        proof {
            assert(texts(self.paths@).len() == self.paths@.len());
        }
        let n = self.paths.len();
        if !self.stop_looking && self.next_path < n {
            let path = self.paths[self.next_path].clone();
            proof {
                assert(texts(self.paths@)[self.next_path as int] == path@);
            }
            self.next_path = self.next_path + 1;
            return EnsureStep::Inspect { path };
        }
        self.begin_attempts()
    }

    /// The modem's list of bearers was read.
    pub fn listed(&mut self, modem_output: &str) -> (r: EnsureStep)
        requires
            old(self)@.wf(),
        ensures
            (final(self)@, r@) == old(self)@.listed(
                bearer::listed_bearers(crate::text::lines_of(modem_output@)),
            ),
            final(self)@.wf(),
    {
        self.paths = bearer::parse_bearer_paths(modem_output);
        self.next_path = 0;
        self.look_on()
    }

    /// A bearer was read.
    pub fn inspected(&mut self, path: &str, details: &str) -> (r: EnsureStep)
        requires
            old(self)@.wf(),
        ensures
            (final(self)@, r@) == old(self)@.inspected(path@, details@),
            final(self)@.wf(),
    {
        match classify_existing_bearer(details, &self.request) {
            ExistingBearer::Foreign => self.look_on(),
            ExistingBearer::Recreate { disconnect } => EnsureStep::Remove {
                path: path.to_string(),
                disconnect,
            },
            ExistingBearer::Reuse => match bearer::parse_bearer_connection(path, details) {
                Ok(connection) => EnsureStep::Reused(connection),
                Err(error) => EnsureStep::ReuseFailed(error),
            },
            ExistingBearer::Reconnect => EnsureStep::Reconnect { path: path.to_string() },
            ExistingBearer::Discard { disconnect } => {
                self.stop_looking = true;
                EnsureStep::Remove { path: path.to_string(), disconnect }
            },
        }
    }

    /// A bearer that did not fit was removed.
    pub fn removed(&mut self) -> (r: EnsureStep)
        requires
            old(self)@.wf(),
        ensures
            (final(self)@, r@) == old(self)@.look_on(),
            final(self)@.wf(),
    {
        self.look_on()
    }

    /// A bearer that fits could not be connected.
    pub fn reconnect_failed(&mut self, path: &str, error: VolteError) -> (r: EnsureStep)
        requires
            old(self)@.wf(),
        ensures
            (final(self)@, r@) == old(self)@.reconnect_failed(path@, error@),
            final(self)@.wf(),
    {
        self.stop_looking = true;
        self.last_error = Some(error);
        EnsureStep::InspectFailure { path: path.to_string() }
    }

    /// The bearer that could not be connected was read; it may have been gone,
    /// with no details left.
    pub fn failure_inspected(&mut self, path: &str, details: &str) -> (r: EnsureStep)
        requires
            old(self)@.wf(),
        ensures
            (final(self)@, r@) == old(self)@.failure_inspected(path@, details@),
            final(self)@.wf(),
    {
        self.forced = forced_type_after(details);
        self.wedged = FailureClass::from_details(details).is_unsafe_to_retry();
        EnsureStep::Remove { path: path.to_string(), disconnect: false }
    }

    /// An attempt with a new bearer failed.
    pub fn create_failed(&mut self, error: VolteError, details: &str) -> (r: EnsureStep)
        requires
            old(self)@.wf(),
        ensures
            (final(self)@, r@) == old(self)@.create_failed(error@, details@),
            final(self)@.wf(),
    {
        self.last_error = Some(error);
        let forced = forced_type_after(details);
        self.pending = Vec::new();
        if !FailureClass::from_details(details).is_unsafe_to_retry() {
            if let Some(ip_type) = forced {
                self.pending.push(ip_type);
            } else if self.forced.is_none() {
                let rest = vstd::slice::slice_subrange(
                    self.attempts.as_slice(),
                    1,
                    self.attempts.len(),
                );
                self.pending = vstd::slice::slice_to_vec(rest);
            }
        }
        proof {
            assert(self.pending@ =~= fallbacks_after(self.attempts@, self.forced, details@));
        }
        if forced.is_some() {
            self.forced = forced;
        }
        self.next_attempt()
    }
}

// ---------------------------------------------------------------------------
// The commands of one attempt, and what their failures amount to.

/// Arguments of `mmcli` that read a bearer.
pub fn read_bearer_args(path: &str) -> (r: Vec<String>)
    ensures
        texts(r@) == seq!["-b"@, path@, "--output-keyvalue"@],
{
    let mut out = no_texts();
    add_text(&mut out, "-b");
    add_text(&mut out, path);
    add_text(&mut out, "--output-keyvalue");
    proof {
        assert(texts(out@) =~= seq!["-b"@, path@, "--output-keyvalue"@]);
    }
    out
}

/// Arguments of `mmcli` that read a modem.
pub fn read_modem_args(modem: &str) -> (r: Vec<String>)
    ensures
        texts(r@) == seq!["-m"@, modem@, "--output-keyvalue"@],
{
    let mut out = no_texts();
    add_text(&mut out, "-m");
    add_text(&mut out, modem);
    add_text(&mut out, "--output-keyvalue");
    proof {
        assert(texts(out@) =~= seq!["-m"@, modem@, "--output-keyvalue"@]);
    }
    out
}

/// Arguments of `mmcli` that connect a bearer.
pub fn connect_bearer_args(path: &str) -> (r: Vec<String>)
    ensures
        texts(r@) == seq!["-b"@, path@, "--connect"@],
{
    let mut out = no_texts();
    add_text(&mut out, "-b");
    add_text(&mut out, path);
    add_text(&mut out, "--connect");
    proof {
        assert(texts(out@) =~= seq!["-b"@, path@, "--connect"@]);
    }
    out
}

/// Arguments of `mmcli` that disconnect a bearer. There are none for a bearer that
/// ModemManager knows nothing of: its session is released by who holds it.
pub fn disconnect_bearer(path: &str) -> (r: Option<Vec<String>>)
    ensures
        match r {
            Some(args) => !native_path(path@) && texts(args@) == seq![
                "-b"@,
                path@,
                "--disconnect"@,
            ],
            None => native_path(path@),
        },
{
    if is_native_bearer(path) {
        return None;
    }
    let mut out = no_texts();
    add_text(&mut out, "-b");
    add_text(&mut out, path);
    add_text(&mut out, "--disconnect");
    proof {
        assert(texts(out@) =~= seq!["-b"@, path@, "--disconnect"@]);
    }
    Some(out)
}

/// Arguments of `mmcli` that delete a bearer.
pub fn delete_bearer(modem: &str, path: &str) -> (r: Vec<String>)
    ensures
        texts(r@) == seq!["-m"@, modem@, "--delete-bearer="@ + path@],
{
    let mut out = no_texts();
    add_text(&mut out, "-m");
    add_text(&mut out, modem);
    let mut delete = "--delete-bearer=".to_string();
    delete.append(path);
    add_text(&mut out, delete.as_str());
    proof {
        assert(texts(out@) =~= seq!["-m"@, modem@, "--delete-bearer="@ + path@]);
    }
    out
}

/// Arguments of `mmcli` that create a bearer of one type.
pub fn create_bearer_args(modem: &str, request: &BearerRequest, ip_type: IpType) -> (r: Vec<String>)
    ensures
        texts(r@) == seq![
            "-m"@,
            modem@,
            "--create-bearer="@ + bearer::bearer_properties(request@, ip_type.mm_name()),
        ],
{
    let mut out = no_texts();
    add_text(&mut out, "-m");
    add_text(&mut out, modem);
    let mut create = "--create-bearer=".to_string();
    let properties = bearer::create_bearer_properties(request, ip_type.as_mm_str());
    create.append(properties.as_str());
    add_text(&mut out, create.as_str());
    proof {
        assert(texts(out@) =~= seq![
            "-m"@,
            modem@,
            "--create-bearer="@ + bearer::bearer_properties(request@, ip_type.mm_name()),
        ]);
    }
    out
}

/// The bearer that was created.
pub fn created_bearer(output: &str) -> (r: Result<String, VolteError>)
    ensures
        match r {
            Ok(path) => bearer::first_bearer_word(crate::text::words(output@)) == Some(path@),
            Err(error) => bearer::first_bearer_word(crate::text::words(output@)) is None && error@
                == failure(code::RUNTIME_MM_BEARER_PATH_MISSING@),
        },
{
    match bearer::parse_created_bearer_path(output) {
        Some(path) => Ok(path),
        None => Err(VolteError::new(code::RUNTIME_MM_BEARER_PATH_MISSING)),
    }
}

/// The error of a bearer that could not be connected.
pub fn connect_error(error: &VolteError) -> (r: VolteError)
    ensures
        r@ == detailed(code::RUNTIME_MM_BEARER_CONNECT_FAILED@, error@.message()),
{
    let message = error.to_string();
    VolteError::with_detail(code::RUNTIME_MM_BEARER_CONNECT_FAILED, message.as_str())
}

/// The error of an attempt: that of its cleanup, where the cleanup failed too.
pub fn attempt_error(error: VolteError, cleanup: Option<VolteError>) -> (r: VolteError)
    ensures
        r@ == (match opt_error(cleanup) {
            Some(cleanup) => cleanup,
            None => error@,
        }),
{
    match cleanup {
        Some(cleanup) => cleanup,
        None => error,
    }
}

/// Bearers of other access points are never touched: only one of the requested access
/// point is removed, connected or reused.
pub proof fn foreign_bearers_are_left_alone(state: EnsureView, path: Seq<char>, details: Seq<char>)
    ensures
        ({
            let step = state.inspected(path, details).1;
            (step is Remove || step is Reconnect || step is Reused) ==> value_of(
                details,
                "bearer.properties.apn"@,
            ) is Some && same_folded(
                value_of(details, "bearer.properties.apn"@)->0,
                state.request.apn,
            )
        }),
{
    if existing_bearer(details, state.request) is Foreign {
        attempts_only_create(state);
    }
}

proof fn attempts_only_create(state: EnsureView)
    ensures
        ({
            let step = state.look_on().1;
            step is Inspect || step is Create || step is Failed
        }),
{
    lemma_next_attempt_creates(
        EnsureView {
            pending: if state.wedged {
                Seq::empty()
            } else {
                match state.forced {
                    Some(ip_type) => seq![ip_type],
                    None => state.attempts.take(1),
                }
            },
            attempted: Seq::empty(),
            ..state
        },
    );
}

proof fn lemma_next_attempt_creates(state: EnsureView)
    ensures
        state.next_attempt().1 is Create || state.next_attempt().1 is Failed,
    decreases state.pending.len(),
{
    if state.pending.len() > 0 {
        lemma_next_attempt_creates(EnsureView { pending: state.pending.drop_first(), ..state });
    }
}

/// No type is tried twice, so at most three bearers are created.
pub proof fn attempts_never_repeat(state: EnsureView)
    requires
        state.wf(),
    ensures
        ({
            let (next, step) = state.next_attempt();
            &&& next.wf()
            &&& next.attempted.len() <= 3
            &&& step is Create ==> !state.attempted.contains(step->Create_ip_type)
                && next.attempted == state.attempted.push(step->Create_ip_type)
                && state.pending.contains(step->Create_ip_type)
        }),
    decreases state.pending.len(),
{
    lemma_few_types(state.attempted);
    if state.pending.len() > 0 {
        let ip_type = state.pending[0];
        let rest = EnsureView { pending: state.pending.drop_first(), ..state };
        if state.attempted.contains(ip_type) {
            attempts_never_repeat(rest);
            let (next, step) = rest.next_attempt();
            if step is Create {
                let i = rest.pending.index_of(step->Create_ip_type);
                assert(state.pending[i + 1] == step->Create_ip_type);
            }
        } else {
            lemma_few_types(state.attempted.push(ip_type));
            assert(state.pending.contains(ip_type));
        }
    }
}

proof fn lemma_few_types(list: Seq<IpType>)
    requires
        list.no_duplicates(),
    ensures
        list.len() <= 3,
{
    if list.len() > 3 {
        let a = list[0];
        let b = list[1];
        let c = list[2];
        let d = list[3];
        assert(a != b && a != c && a != d && b != c && b != d && c != d);
    }
}

/// A network that forces a family leaves that one type to try, whatever the plan, and
/// nothing once that type has failed too.
pub proof fn forced_family_is_the_only_fallback(
    state: EnsureView,
    error: ErrorView,
    details: Seq<char>,
    next_error: ErrorView,
    next_details: Seq<char>,
)
    requires
        state.wf(),
        forced_type(details) is Some,
        forced_type(next_details) is None,
    ensures
        ({
            let ip_type = forced_type(details)->0;
            let (next, step) = state.create_failed(error, details);
            &&& step == (if state.attempted.contains(ip_type) {
                StepView::Failed(error)
            } else {
                StepView::Create { ip_type }
            })
            &&& next.create_failed(next_error, next_details).1 == StepView::Failed(next_error)
        }),
{
    let first = EnsureView {
        last_error: Some(error),
        forced: forced_type(details),
        pending: fallbacks_after(state.attempts, state.forced, details),
        ..state
    };
    assert(!class_of_details(details).is_unsafe_to_retry());
    let rest = EnsureView { pending: first.pending.drop_first(), ..first };
    assert(rest.pending.len() == 0);
    assert(rest.next_attempt() == (rest, StepView::Failed(error)));
    assert(first.next_attempt() == state.create_failed(error, details));
    let next = state.create_failed(error, details).0;
    assert(next.forced is Some);
    assert(fallbacks_after(next.attempts, next.forced, next_details).len() == 0);
}

/// A baseband that has stopped accepting sessions is not asked for another one.
pub proof fn wedged_baseband_is_left_alone(
    state: EnsureView,
    path: Seq<char>,
    error: ErrorView,
    details: Seq<char>,
)
    requires
        class_of_details(details).is_unsafe_to_retry(),
    ensures
        state.create_failed(error, details).1 == StepView::Failed(error),
        ({
            let refused = state.reconnect_failed(path, error).0.failure_inspected(path, details).0;
            refused.look_on().1 == StepView::Failed(error)
        }),
{
}

/// What a run of failed attempts leads to.
pub open spec fn walked(state: EnsureView, failures: Seq<(ErrorView, Seq<char>)>) -> (
    EnsureView,
    StepView,
)
    decreases failures.len(),
{
    if failures.len() == 0 {
        state.begin_attempts()
    } else {
        let (next, step) = walked(state, failures.drop_last());
        if step is Create {
            next.create_failed(failures.last().0, failures.last().1)
        } else {
            (next, step)
        }
    }
}

/// The plan is walked in its order. As long as no failure forces a family or tells of
/// a baseband that has stopped accepting sessions, the types that are created are the
/// plan's, each once and in its order, until all of them have failed.
pub proof fn plan_is_walked_in_order(state: EnsureView, failures: Seq<(ErrorView, Seq<char>)>)
    requires
        state.wf(),
        state.forced is None,
        !state.wedged,
        failures.len() <= state.attempts.len(),
        forall|i: int|
            0 <= i < failures.len() ==> forced_type((#[trigger] failures[i]).1) is None
                && !class_of_details(failures[i].1).is_unsafe_to_retry(),
    ensures
        ({
            let (next, step) = walked(state, failures);
            if failures.len() < state.attempts.len() {
                &&& step == StepView::Create { ip_type: state.attempts[failures.len() as int] }
                &&& next.attempted == state.attempts.take(failures.len() as int + 1)
            } else {
                &&& step == StepView::Failed(failures.last().0)
                &&& next.attempted == state.attempts
            }
        }),
{
    lemma_walked(state, failures);
}

proof fn lemma_walked(state: EnsureView, failures: Seq<(ErrorView, Seq<char>)>)
    requires
        state.wf(),
        state.forced is None,
        !state.wedged,
        failures.len() <= state.attempts.len(),
        forall|i: int|
            0 <= i < failures.len() ==> forced_type((#[trigger] failures[i]).1) is None
                && !class_of_details(failures[i].1).is_unsafe_to_retry(),
    ensures
        ({
            let (next, step) = walked(state, failures);
            let k = failures.len() as int;
            &&& next.attempts == state.attempts
            &&& next.forced is None
            &&& if k < state.attempts.len() {
                &&& step == StepView::Create { ip_type: state.attempts[k] }
                &&& next.attempted == state.attempts.take(k + 1)
            } else {
                &&& step == StepView::Failed(failures.last().0)
                &&& next.attempted == state.attempts
            }
        }),
    decreases failures.len(),
{
    let all = state.attempts;
    let k = failures.len() as int;
    if k == 0 {
        let first = EnsureView { pending: all.take(1), attempted: Seq::empty(), ..state };
        assert(first.next_attempt() == state.begin_attempts());
        assert(first.pending[0] == all[0]);
        assert(Seq::<IpType>::empty().push(all[0]) =~= all.take(1));
    } else {
        let front = failures.drop_last();
        assert forall|i: int| 0 <= i < front.len() implies forced_type(
            (#[trigger] front[i]).1,
        ) is None && !class_of_details(front[i].1).is_unsafe_to_retry() by {
            assert(front[i] == failures[i]);
        }
        lemma_walked(state, front);
        let before = walked(state, front).0;
        let (error, details) = failures[k - 1];
        assert(failures[k - 1] == failures.last());
        let after = EnsureView {
            last_error: Some(error),
            forced: before.forced,
            pending: all.skip(1),
            ..before
        };
        assert(after.next_attempt() == before.create_failed(error, details));
        assert(after.attempted == all.take(k));
        lemma_passes_over(after, all, 1, k);
        if k == all.len() {
            assert(all.take(k) =~= all);
        }
    }
}

/// What was tried is passed over.
proof fn lemma_passes_over(state: EnsureView, all: Seq<IpType>, from: int, k: int)
    requires
        all.no_duplicates(),
        0 <= from <= k <= all.len(),
        state.pending == all.skip(from),
        state.attempted == all.take(k),
    ensures
        ({
            let (next, step) = state.next_attempt();
            &&& next.attempts == state.attempts
            &&& next.forced == state.forced
            &&& if k < all.len() {
                step == (StepView::Create { ip_type: all[k] }) && next.attempted == all.take(k + 1)
            } else {
                step == state.give_up() && next.attempted == all.take(k)
            }
        }),
    decreases k - from,
{
    if from < k {
        let ip_type = all[from];
        assert(state.pending[0] == ip_type);
        assert(state.attempted[from] == ip_type);
        let rest = EnsureView { pending: state.pending.drop_first(), ..state };
        assert(rest.pending =~= all.skip(from + 1));
        lemma_passes_over(rest, all, from + 1, k);
        assert(state.next_attempt() == rest.next_attempt());
    } else if k < all.len() {
        let ip_type = all[k];
        assert(state.pending[0] == ip_type);
        assert(!state.attempted.contains(ip_type)) by {
            if state.attempted.contains(ip_type) {
                let j = state.attempted.index_of(ip_type);
                assert(all[j] == all[k]);
            }
        }
        assert(all.take(k).push(ip_type) =~= all.take(k + 1));
    } else {
        assert(state.pending.len() == 0);
    }
}

} // verus!
