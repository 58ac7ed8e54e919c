//! Answering a registrar's challenge: what it asks for and how the line protects
//! what follows.

use vstd::prelude::*;
use vstd::string::*;

use crate::carrier::CarrierProfile;
use crate::channel::{ImsRoute, SipTransport};
use crate::errors::{code, failure, ErrorView, VolteError};
use crate::identity::ImsIdentity;
use crate::ip::SocketAddr;
use crate::register;
use crate::register::request::RegisterTarget;
use crate::register::{ImsError, RegisterRequestPolicy};
use crate::runtime::RegistrationMode;
use crate::security;
use crate::security::{first_usable_server, SecAgree};
use crate::sip;
use crate::sip::{header_of, headers_of};
use crate::text;
use crate::text::{halves, opt, same_folded, texts, trimmed, unwrapped};

pub mod answering;
pub mod written;

verus! {

// ---------------------------------------------------------------------------
// The challenge.

/// The algorithm of a challenge that names none.
pub const DEFAULT_ALGORITHM: &'static str = "MD5";

/// A digest challenge.
#[derive(Debug, PartialEq, Eq)]
pub struct DigestChallenge {
    pub realm: String,
    pub nonce: String,
    pub algorithm: String,
    pub qop: Option<String>,
    pub opaque: Option<String>,
    /// It comes from a proxy.
    pub proxy: bool,
}

pub struct ChallengeView {
    pub realm: Seq<char>,
    pub nonce: Seq<char>,
    pub algorithm: Seq<char>,
    pub qop: Option<Seq<char>>,
    pub opaque: Option<Seq<char>>,
    pub proxy: bool,
}

impl View for DigestChallenge {
    type V = ChallengeView;

    open spec fn view(&self) -> ChallengeView {
        ChallengeView {
            realm: self.realm@,
            nonce: self.nonce@,
            algorithm: self.algorithm@,
            qop: opt(self.qop),
            opaque: opt(self.opaque),
            proxy: self.proxy,
        }
    }
}

/// Where the first comma stands that is not between quotes, or the length.
pub open spec fn comma_at(s: Seq<char>, quoted: bool) -> int
    decreases s.len(),
{
    if s.len() == 0 {
        0
    } else if s[0] == ',' && !quoted {
        0
    } else {
        1 + comma_at(s.skip(1), if s[0] == '"' {
            !quoted
        } else {
            quoted
        })
    }
}

/// The parts of a list whose separators are the commas that are not between quotes.
pub open spec fn list_parts(s: Seq<char>) -> Seq<Seq<char>>
    decreases s.len(),
{
    let at = comma_at(s, false);
    if 0 <= at < s.len() {
        seq![s.take(at)] + list_parts(s.skip(at + 1))
    } else {
        seq![s]
    }
}

/// The value of a part that sets `name`, without its quotes.
pub open spec fn set_value(part: Seq<char>, name: Seq<char>) -> Option<Seq<char>> {
    match halves(part, '=') {
        Some((left, right)) => if same_folded(trimmed(left), name) {
            Some(unwrapped(trimmed(right), '"'))
        } else {
            None
        },
        None => None,
    }
}

/// The value of the first part that sets `name`.
pub open spec fn first_set(parts: Seq<Seq<char>>, name: Seq<char>) -> Option<Seq<char>>
    decreases parts.len(),
{
    if parts.len() == 0 {
        None
    } else {
        match set_value(parts[0], name) {
            Some(value) => Some(value),
            None => first_set(parts.drop_first(), name),
        }
    }
}

/// The challenge that a header value holds, or what it lacks.
pub open spec fn challenge_in(value: Seq<char>, proxy: bool) -> Result<ChallengeView, ErrorView> {
    match halves(trimmed(value), ' ') {
        Some((scheme, rest)) => {
            let parts = list_parts(rest);
            let realm = first_set(parts, "realm"@);
            let nonce = first_set(parts, "nonce"@);
            if !same_folded(scheme, "Digest"@) {
                Err(failure(code::DIGEST_CHALLENGE_MISSING@))
            } else if realm is None {
                Err(failure(code::DIGEST_REALM_MISSING@))
            } else if nonce is None {
                Err(failure(code::DIGEST_NONCE_MISSING@))
            } else {
                Ok(
                    ChallengeView {
                        realm: realm->0,
                        nonce: nonce->0,
                        algorithm: match first_set(parts, "algorithm"@) {
                            Some(algorithm) => algorithm,
                            None => DEFAULT_ALGORITHM@,
                        },
                        qop: first_set(parts, "qop"@),
                        opaque: first_set(parts, "opaque"@),
                        proxy,
                    },
                )
            }
        },
        None => Err(failure(code::DIGEST_CHALLENGE_MISSING@)),
    }
}

fn find_comma(c: &Vec<char>, from: usize) -> (r: usize)
    requires
        from <= c@.len(),
    ensures
        from <= r <= c@.len(),
        r == from + comma_at(c@.skip(from as int), false),
{
    let mut i: usize = from;
    let mut quoted = false;
    while i < c.len() && (c[i] != ',' || quoted)
        invariant
            from <= i <= c@.len(),
            from + comma_at(c@.skip(from as int), false) == i + comma_at(
                c@.skip(i as int),
                quoted,
            ),
        decreases c@.len() - i,
    {
        proof {
            assert(c@.skip(i as int).skip(1) =~= c@.skip(i as int + 1));
        }
        if c[i] == '"' {
            quoted = !quoted;
        }
        i += 1;
    }
    proof {
        if i < c@.len() {
            assert(c@.skip(i as int)[0] == ',');
        }
    }
    i
}

fn split_list(s: &str) -> (r: Vec<String>)
    ensures
        texts(r@) == list_parts(s@),
{
    let c = text::chars(s);
    let mut out: Vec<String> = Vec::new();
    let mut from: usize = 0;
    let mut done = false;
    proof {
        assert(c@.skip(0) =~= c@);
        assert(texts(out@) =~= Seq::<Seq<char>>::empty());
        assert(list_parts(s@) =~= texts(out@) + list_parts(c@.skip(0)));
    }
    while !done
        invariant
            c@ == s@,
            from <= c@.len(),
            !done ==> list_parts(s@) == texts(out@) + list_parts(c@.skip(from as int)),
            done ==> list_parts(s@) == texts(out@),
        decreases c@.len() - from + (if done {
            0int
        } else {
            1
        }),
    {
        let n = c.len();
        let end = find_comma(&c, from);
        let ghost rest = c@.skip(from as int);
        let ghost before = out@;
        let part = text::part(c.as_slice(), from, end);
        proof {
            assert(part@ =~= rest.take(end - from));
        }
        out.push(part);
        proof {
            assert(texts(out@) =~= texts(before).push(part@));
        }
        if end < n {
            proof {
                assert(rest.skip(end - from + 1) =~= c@.skip(end as int + 1));
                assert(list_parts(rest) == seq![part@] + list_parts(c@.skip(end as int + 1)));
                assert(texts(before) + list_parts(rest) =~= texts(out@) + list_parts(
                    c@.skip(end as int + 1),
                ));
            }
            from = end + 1;
        } else {
            proof {
                assert(part@ =~= rest);
                assert(list_parts(rest) =~= seq![part@]);
                assert(texts(before) + list_parts(rest) =~= texts(out@));
            }
            done = true;
        }
    }
    out
}

fn find_set(parts: &Vec<String>, name: &str) -> (r: Option<String>)
    ensures
        opt(r) == first_set(texts(parts@), name@),
{
    let ghost all = texts(parts@);
    let mut i: usize = 0;
    proof {
        assert(all.skip(0) =~= all);
    }
    while i < parts.len()
        invariant
            i <= parts@.len(),
            all == texts(parts@),
            first_set(all, name@) == first_set(all.skip(i as int), name@),
        decreases parts@.len() - i,
    {
        proof {
            assert(all.skip(i as int).drop_first() =~= all.skip(i as int + 1));
            assert(all.skip(i as int)[0] == parts@[i as int]@);
        }
        if let Some((left, right)) = text::split_once(parts[i].as_str(), '=') {
            if text::same_ignoring_case(text::trim(left.as_str()).as_str(), name) {
                return Some(text::trim_matches(text::trim(right.as_str()).as_str(), '"'));
            }
        }
        i += 1;
    }
    None
}

/// Reads a challenge.
pub fn parse_challenge(value: &str, proxy: bool) -> (r: Result<DigestChallenge, VolteError>)
    ensures
        match r {
            Ok(challenge) => challenge_in(value@, proxy) == Ok::<ChallengeView, ErrorView>(
                challenge@,
            ),
            Err(error) => challenge_in(value@, proxy) == Err::<ChallengeView, ErrorView>(error@),
        },
{
    let value = text::trim(value);
    let (scheme, rest) = match text::split_once(value.as_str(), ' ') {
        Some(halves) => halves,
        None => return Err(VolteError::new(code::DIGEST_CHALLENGE_MISSING)),
    };
    if !text::same_ignoring_case(scheme.as_str(), "Digest") {
        return Err(VolteError::new(code::DIGEST_CHALLENGE_MISSING));
    }
    let parts = split_list(rest.as_str());
    let realm = match find_set(&parts, "realm") {
        Some(realm) => realm,
        None => return Err(VolteError::new(code::DIGEST_REALM_MISSING)),
    };
    let nonce = match find_set(&parts, "nonce") {
        Some(nonce) => nonce,
        None => return Err(VolteError::new(code::DIGEST_NONCE_MISSING)),
    };
    let algorithm = match find_set(&parts, "algorithm") {
        Some(algorithm) => algorithm,
        None => DEFAULT_ALGORITHM.to_string(),
    };
    Ok(
        DigestChallenge {
            realm,
            nonce,
            algorithm,
            qop: find_set(&parts, "qop"),
            opaque: find_set(&parts, "opaque"),
            proxy,
        },
    )
}

/// The challenge of a response: the registrar's own before a proxy's.
pub open spec fn challenge_of(frame: Seq<u8>) -> Result<ChallengeView, ErrorView> {
    match header_of(frame, "WWW-Authenticate"@) {
        Some(value) => challenge_in(value, false),
        None => match header_of(frame, "Proxy-Authenticate"@) {
            Some(value) => challenge_in(value, true),
            None => Err(failure(code::DIGEST_CHALLENGE_MISSING@)),
        },
    }
}

/// Reads the challenge of a response.
pub fn parse_digest_challenge(frame: &[u8]) -> (r: Result<DigestChallenge, VolteError>)
    ensures
        match r {
            Ok(challenge) => challenge_of(frame@) == Ok::<ChallengeView, ErrorView>(challenge@),
            Err(error) => challenge_of(frame@) == Err::<ChallengeView, ErrorView>(error@),
        },
{
    if let Some(value) = sip::header_value(frame, "WWW-Authenticate") {
        return parse_challenge(value.as_str(), false);
    }
    if let Some(value) = sip::header_value(frame, "Proxy-Authenticate") {
        return parse_challenge(value.as_str(), true);
    }
    Err(VolteError::new(code::DIGEST_CHALLENGE_MISSING))
}

/// Reads the challenge of a server for the line's settings, whose errors have a code
/// of their own.
pub fn parse_xcap_challenge(value: &str, proxy: bool) -> (r: Result<DigestChallenge, ImsError>)
    ensures
        match r {
            Ok(challenge) => challenge_in(value@, proxy) == Ok::<ChallengeView, ErrorView>(
                challenge@,
            ),
            Err(error) => challenge_in(value@, proxy) is Err && error.code@
                == "ut_xcap_challenge_invalid"@,
        },
{
    match parse_challenge(value, proxy) {
        Ok(challenge) => Ok(challenge),
        Err(_) => Err(ImsError::new("ut_xcap_challenge_invalid")),
    }
}

// ---------------------------------------------------------------------------
// The answer.

/// What an answered challenge puts into the next request.
#[derive(Debug, PartialEq, Eq)]
pub struct PreparedAuth {
    pub authorization: String,
    pub security_client: Option<String>,
    pub security_verify: Option<String>,
    pub require_sec_agree: bool,
}

/// How the line protects what follows a challenge.
#[derive(Debug, PartialEq, Eq)]
pub enum AuthPlan {
    /// The card is out of step: answer with its own counter, unprotected.
    Resynchronize { security_client: Option<String>, require_sec_agree: bool },
    /// The association of the last registration stays.
    Reuse { security_verify: Option<String> },
    /// Set an association up.
    Protect {
        server: SecAgree,
        verify: String,
        send_route: ImsRoute,
        receive_local: SocketAddr,
        receive_remote: SocketAddr,
        security_client: String,
    },
    /// Go on without protection.
    Plain,
    /// The carrier wants protection that the registrar does not offer.
    Refuse(ImsError),
}

pub enum PlanView {
    Resynchronize { security_client: Option<Seq<char>>, require_sec_agree: bool },
    Reuse { security_verify: Option<Seq<char>> },
    Protect {
        server: SecAgree,
        verify: Seq<char>,
        send_route: ImsRoute,
        receive_local: SocketAddr,
        receive_remote: SocketAddr,
        security_client: Seq<char>,
    },
    Plain,
    Refuse(Seq<char>),
}

impl View for AuthPlan {
    type V = PlanView;

    open spec fn view(&self) -> PlanView {
        match *self {
            AuthPlan::Resynchronize { security_client, require_sec_agree } => {
                PlanView::Resynchronize {
                    security_client: opt(security_client),
                    require_sec_agree,
                }
            },
            AuthPlan::Reuse { security_verify } => PlanView::Reuse {
                security_verify: opt(security_verify),
            },
            AuthPlan::Protect {
                server,
                verify,
                send_route,
                receive_local,
                receive_remote,
                security_client,
            } => PlanView::Protect {
                server,
                verify: verify@,
                send_route,
                receive_local,
                receive_remote,
                security_client: security_client@,
            },
            AuthPlan::Plain => PlanView::Plain,
            AuthPlan::Refuse(error) => PlanView::Refuse(error.code@),
        }
    }
}

/// How the line protects what follows a challenge. `offer` is its own binding and
/// `offered` the header it sent.
pub open spec fn auth_plan(
    profile: CarrierProfile,
    servers: Seq<Seq<char>>,
    resynchronize: bool,
    reuse: bool,
    verify_in_use: Option<Seq<char>>,
    route: ImsRoute,
    offer: SecAgree,
    offered: Seq<char>,
) -> PlanView {
    let enabled = register::security_enabled(profile);
    if resynchronize {
        PlanView::Resynchronize {
            security_client: if enabled {
                Some(offered)
            } else {
                None
            },
            require_sec_agree: enabled && profile.ims.register.require_sec_agree_headers,
        }
    } else if reuse {
        PlanView::Reuse { security_verify: verify_in_use }
    } else {
        match first_usable_server(profile, servers) {
            Some((server, verify)) => PlanView::Protect {
                server,
                verify,
                send_route: ImsRoute {
                    local_addr: SocketAddr { ip: route.local_addr.ip, port: offer.port_c },
                    pcscf_addr: SocketAddr { ip: route.pcscf_addr.ip, port: server.port_s },
                    transport: SipTransport::Udp,
                },
                receive_local: SocketAddr { ip: route.local_addr.ip, port: offer.port_s },
                receive_remote: SocketAddr { ip: route.pcscf_addr.ip, port: server.port_c },
                security_client: offered,
            },
            None => if profile.ims.register.sec_agree_mode@ == "required"@ || (
            profile.ims.register.strict_security_server_offer && servers.len() > 0) {
                PlanView::Refuse(code::SECURITY_SERVER_MISSING@)
            } else {
                PlanView::Plain
            },
        }
    }
}

/// The part of an authenticator that decides.
#[derive(Debug, PartialEq, Eq)]
pub struct VolteRegisterAuthenticator {
    /// Who answers.
    pub username: String,
    /// What each request is addressed to.
    pub target: RegisterTarget,
    /// The sequence number of the first request.
    pub first_cseq: u32,
    pub offered_security: String,
    pub offered_security_binding: SecAgree,
    pub pending: Option<PreparedAuth>,
    pub mode: RegistrationMode,
    /// The association of the last registration stays.
    pub reuse_security: bool,
    pub register_policy: RegisterRequestPolicy,
    pub expires_seconds: u32,
}

/// An answer that is ready to be sent.
#[derive(Debug, PartialEq, Eq)]
pub struct AuthenticatedRequest {
    pub cseq: u32,
    pub expires_seconds: u32,
    pub prepared: PreparedAuth,
    pub policy: RegisterRequestPolicy,
}

/// The sum, or the largest number.
pub open spec fn saturating(a: u32, b: int) -> u32 {
    if a + b > u32::MAX {
        u32::MAX
    } else {
        (a + b) as u32
    }
}

/// The sum, or the largest number.
pub fn saturating_sum(a: u32, b: u32) -> (r: u32)
    ensures
        r == saturating(a, b as int),
{
    if a > u32::MAX - b {
        u32::MAX
    } else {
        a + b
    }
}

impl VolteRegisterAuthenticator {
    /// An authenticator that has answered nothing yet.
    pub fn new(
        identity: &ImsIdentity,
        target: &RegisterTarget,
        first_cseq: u32,
        offered_security_binding: SecAgree,
        offered_security: String,
        reuse_security: bool,
        register_policy: RegisterRequestPolicy,
        profile: &CarrierProfile,
    ) -> (r: Self)
        ensures
            r.username@ == identity@.private_user,
            r.target@ == target@,
            r == (VolteRegisterAuthenticator {
                username: r.username,
                target: r.target,
                first_cseq,
                offered_security,
                offered_security_binding,
                pending: None,
                mode: RegistrationMode::Unselected,
                reuse_security,
                register_policy,
                expires_seconds: profile.ims.register.expires_seconds,
            }),
    {
        VolteRegisterAuthenticator {
            username: identity.private_user.clone(),
            target: target.clone(),
            first_cseq,
            offered_security,
            offered_security_binding,
            pending: None,
            mode: RegistrationMode::Unselected,
            reuse_security,
            register_policy,
            expires_seconds: profile.ims.register.expires_seconds,
        }
    }

    /// The authenticator for another duration.
    pub fn with_expires_seconds(self, expires_seconds: u32) -> (r: Self)
        ensures
            r == (VolteRegisterAuthenticator { expires_seconds, ..self }),
    {
        let mut changed = self;
        changed.expires_seconds = expires_seconds;
        changed
    }

    /// Decides how the line protects what follows a challenge.
    pub fn plan(
        &self,
        profile: &CarrierProfile,
        challenge_response: &[u8],
        resynchronize: bool,
        verify_in_use: Option<&str>,
        route: ImsRoute,
    ) -> (r: AuthPlan)
        ensures
            r@ == auth_plan(
                *profile,
                headers_of(challenge_response@, "Security-Server"@),
                resynchronize,
                self.reuse_security,
                match verify_in_use {
                    Some(verify) => Some(verify@),
                    None => None,
                },
                route,
                self.offered_security_binding,
                self.offered_security@,
            ),
    {
        if resynchronize {
            let enabled = register::offers_security(profile);
            return AuthPlan::Resynchronize {
                security_client: if enabled {
                    Some(self.offered_security.clone())
                } else {
                    None
                },
                require_sec_agree: enabled && profile.ims.register.require_sec_agree_headers,
            };
        }
        if self.reuse_security {
            return AuthPlan::Reuse {
                security_verify: match verify_in_use {
                    Some(verify) => Some(verify.to_string()),
                    None => None,
                },
            };
        }
        let servers = sip::header_values(challenge_response, "Security-Server");
        proof {
            assert(texts(servers@).len() == servers@.len());
        }
        match security::select_security_server(profile, &servers) {
            Some((server, verify)) => AuthPlan::Protect {
                server,
                verify,
                send_route: ImsRoute {
                    local_addr: SocketAddr::new(
                        route.local_addr.ip,
                        self.offered_security_binding.port_c,
                    ),
                    pcscf_addr: SocketAddr::new(route.pcscf_addr.ip, server.port_s),
                    transport: SipTransport::Udp,
                },
                receive_local: SocketAddr::new(
                    route.local_addr.ip,
                    self.offered_security_binding.port_s,
                ),
                receive_remote: SocketAddr::new(route.pcscf_addr.ip, server.port_c),
                security_client: self.offered_security.clone(),
            },
            None => if text::same(profile.ims.register.sec_agree_mode, "required") || (
            profile.ims.register.strict_security_server_offer && servers.len() > 0) {
                AuthPlan::Refuse(ImsError::new(code::SECURITY_SERVER_MISSING))
            } else {
                AuthPlan::Plain
            },
        }
    }

    /// Keeps the answer for the next request. The mode of the registration follows
    /// from the plan; a card that is out of step leaves it open.
    pub fn prepare(&mut self, plan: AuthPlan, authorization: String) -> (r: Result<(), ImsError>)
        ensures
            r is Err <==> plan is Refuse,
            r is Err ==> r->Err_0.code@ == plan->Refuse_0.code@ && *final(self) == *old(self),
            r is Ok ==> *final(self) == (VolteRegisterAuthenticator {
                mode: mode_of(plan@, old(self).mode),
                pending: final(self).pending,
                ..*old(self)
            }),
            r is Ok ==> final(self).pending is Some && answers(
                final(self).pending->0,
                plan@,
                authorization@,
            ),
    {
        let (mode, security_client, security_verify, require_sec_agree) = match plan {
            AuthPlan::Refuse(error) => return Err(error),
            AuthPlan::Resynchronize { security_client, require_sec_agree } => (
                self.mode,
                security_client,
                None,
                require_sec_agree,
            ),
            AuthPlan::Reuse { security_verify } => {
                let protected = security_verify.is_some();
                let mode = if protected {
                    RegistrationMode::Ipsec
                } else {
                    RegistrationMode::Udp
                };
                (mode, None, security_verify, protected)
            },
            AuthPlan::Protect { verify, security_client, .. } => (
                RegistrationMode::Ipsec,
                Some(security_client),
                Some(verify),
                true,
            ),
            AuthPlan::Plain => (RegistrationMode::Udp, None, None, false),
        };
        self.mode = mode;
        self.pending = Some(
            PreparedAuth { authorization, security_client, security_verify, require_sec_agree },
        );
        Ok(())
    }

    /// The request that the kept answer leads to.
    pub open spec fn request_of(self, round: u32) -> AuthenticatedRequest {
        AuthenticatedRequest {
            cseq: saturating(
                self.first_cseq,
                if round == 0 {
                    0
                } else {
                    round - 1
                },
            ),
            expires_seconds: self.expires_seconds,
            prepared: self.pending->0,
            policy: RegisterRequestPolicy {
                require_sec_agree: self.pending->0.require_sec_agree,
                ..self.register_policy
            },
        }
    }

    /// The request that answers the `round`-th challenge. The answer is used up.
    pub fn authenticated_request(&mut self, round: u32) -> (r: Result<
        AuthenticatedRequest,
        ImsError,
    >)
        ensures
            *final(self) == (VolteRegisterAuthenticator { pending: None, ..*old(self) }),
            match r {
                Ok(request) => old(self).pending is Some && request == old(self).request_of(round),
                Err(error) => old(self).pending is None && error.code@
                    == "volte_register_auth_not_prepared"@,
            },
    {
        let mut pending: Option<PreparedAuth> = None;
        core::mem::swap(&mut self.pending, &mut pending);
        match pending {
            None => Err(ImsError::new("volte_register_auth_not_prepared")),
            Some(prepared) => {
                let step: u32 = if round == 0 {
                    0
                } else {
                    round - 1
                };
                let policy = RegisterRequestPolicy {
                    require_sec_agree: prepared.require_sec_agree,
                    ..self.register_policy
                };
                Ok(
                    AuthenticatedRequest {
                        cseq: saturating_sum(self.first_cseq, step),
                        expires_seconds: self.expires_seconds,
                        prepared,
                        policy,
                    },
                )
            },
        }
    }
}

/// The mode of the registration that a plan leads to.
pub open spec fn mode_of(plan: PlanView, before: RegistrationMode) -> RegistrationMode {
    match plan {
        PlanView::Reuse { security_verify } => if security_verify is Some {
            RegistrationMode::Ipsec
        } else {
            RegistrationMode::Udp
        },
        PlanView::Protect { .. } => RegistrationMode::Ipsec,
        PlanView::Plain => RegistrationMode::Udp,
        _ => before,
    }
}

/// The answer carries out the plan.
pub open spec fn answers(prepared: PreparedAuth, plan: PlanView, authorization: Seq<char>) -> bool {
    &&& prepared.authorization@ == authorization
    &&& match plan {
        PlanView::Resynchronize { security_client, require_sec_agree } => {
            opt(prepared.security_client) == security_client && prepared.security_verify is None
                && prepared.require_sec_agree == require_sec_agree
        },
        PlanView::Reuse { security_verify } => {
            prepared.security_client is None && opt(prepared.security_verify) == security_verify
                && prepared.require_sec_agree == (security_verify is Some)
        },
        PlanView::Protect { verify, security_client, .. } => {
            opt(prepared.security_client) == Some(security_client) && opt(
                prepared.security_verify,
            ) == Some(verify) && prepared.require_sec_agree
        },
        PlanView::Plain => {
            prepared.security_client is None && prepared.security_verify is None
                && !prepared.require_sec_agree
        },
        PlanView::Refuse(_) => false,
    }
}

/// A carrier that requires protection is never registered without it: once the card
/// has answered, and whatever the registrar offers, the line sets an association up or
/// refuses.
pub proof fn required_protection_is_never_dropped(
    profile: CarrierProfile,
    servers: Seq<Seq<char>>,
    verify_in_use: Option<Seq<char>>,
    route: ImsRoute,
    offer: SecAgree,
    offered: Seq<char>,
)
    requires
        profile.ims.register.sec_agree_mode@ == "required"@,
    ensures
        ({
            let plan = auth_plan(
                profile,
                servers,
                false,
                false,
                verify_in_use,
                route,
                offer,
                offered,
            );
            plan is Protect || plan is Refuse
        }),
{
}

/// An association is only set up with a server that the line selected from what the
/// registrar sent, and what it mirrors back is that very value.
pub proof fn protection_mirrors_the_registrar(
    profile: CarrierProfile,
    servers: Seq<Seq<char>>,
    verify_in_use: Option<Seq<char>>,
    route: ImsRoute,
    offer: SecAgree,
    offered: Seq<char>,
)
    ensures
        ({
            let plan = auth_plan(
                profile,
                servers,
                false,
                false,
                verify_in_use,
                route,
                offer,
                offered,
            );
            plan is Protect ==> servers.contains(plan->verify) && security::usable_server(
                profile,
                plan->verify,
            ) == Some(plan->server)
        }),
{
    lemma_first_usable(profile, servers);
}

proof fn lemma_first_usable(profile: CarrierProfile, servers: Seq<Seq<char>>)
    ensures
        match first_usable_server(profile, servers) {
            Some((server, value)) => servers.contains(value) && security::usable_server(
                profile,
                value,
            ) == Some(server),
            None => true,
        },
    decreases servers.len(),
{
    if servers.len() > 0 {
        if security::usable_server(profile, servers[0]) is Some {
            assert(servers.contains(servers[0]));
        } else {
            let rest = servers.drop_first();
            lemma_first_usable(profile, rest);
            if first_usable_server(profile, rest) is Some {
                let value = (first_usable_server(profile, rest)->0).1;
                let i = rest.index_of(value);
                assert(servers[i + 1] == value);
            }
        }
    }
}

} // verus!
