//! REGISTER requests.

use vstd::prelude::*;
use vstd::string::*;

use crate::channel::{ImsRoute, SipTransport};
use crate::command::{join, joined};
use crate::identity::{IdentityView, ImsIdentity};
use crate::lists::no_texts;
use crate::register::RegisterRequestPolicy;
use crate::text;
use crate::text::{decimal, has_prefix, lower, opt, texts, trimmed};

verus! {

/// The feature that stands for multimedia telephony in a contact.
pub const MMTEL_FEATURE: &'static str = ";+g.3gpp.icsi-ref=\"urn%3Aurn-7%3A3gpp-service.ims.icsi.mmtel\"";

/// What identifies a request.
#[derive(Debug, PartialEq, Eq)]
pub struct RequestIds {
    pub branch: String,
    pub from_tag: String,
    pub call_id: String,
    pub cseq: u32,
}

pub struct IdsView {
    pub branch: Seq<char>,
    pub from_tag: Seq<char>,
    pub call_id: Seq<char>,
    pub cseq: u32,
}

impl View for RequestIds {
    type V = IdsView;

    open spec fn view(&self) -> IdsView {
        IdsView {
            branch: self.branch@,
            from_tag: self.from_tag@,
            call_id: self.call_id@,
            cseq: self.cseq,
        }
    }
}

/// What goes into a REGISTER besides who sends it and where it goes.
#[derive(Debug, PartialEq, Eq)]
pub struct RegisterParts {
    pub expires_seconds: u32,
    /// A whole header line.
    pub authorization: Option<String>,
    pub security_client: Option<String>,
    pub security_verify: Option<String>,
    pub sip_instance: String,
    pub policy: RegisterRequestPolicy,
}

pub struct PartsView {
    pub expires_seconds: u32,
    pub authorization: Option<Seq<char>>,
    pub security_client: Option<Seq<char>>,
    pub security_verify: Option<Seq<char>>,
    pub sip_instance: Seq<char>,
    pub policy: RegisterRequestPolicy,
}

impl View for RegisterParts {
    type V = PartsView;

    open spec fn view(&self) -> PartsView {
        PartsView {
            expires_seconds: self.expires_seconds,
            authorization: opt(self.authorization),
            security_client: opt(self.security_client),
            security_verify: opt(self.security_verify),
            sip_instance: self.sip_instance@,
            policy: self.policy,
        }
    }
}

/// What a REGISTER is addressed to.
#[derive(Debug, PartialEq, Eq)]
pub struct RegisterTarget {
    pub domain: String,
    pub realm: String,
    /// A URI or a host, where it is not the domain.
    pub registrar: Option<String>,
}

pub struct TargetView {
    pub domain: Seq<char>,
    pub realm: Seq<char>,
    pub registrar: Option<Seq<char>>,
}

impl View for RegisterTarget {
    type V = TargetView;

    open spec fn view(&self) -> TargetView {
        TargetView {
            domain: self.domain@,
            realm: self.realm@,
            registrar: opt(self.registrar),
        }
    }
}

/// The text is a SIP URI.
pub open spec fn sip_uri(s: Seq<char>) -> bool {
    has_prefix(lower(s), "sip:"@) || has_prefix(lower(s), "sips:"@)
}

/// A host as a SIP URI; a URI is one already.
pub open spec fn uri_of(host: Seq<char>) -> Seq<char> {
    if sip_uri(host) {
        host
    } else {
        "sip:"@ + host
    }
}

/// The URI that a REGISTER asks for: the registrar's where there is one, or else the
/// domain's.
pub open spec fn request_uri_of(target: TargetView) -> Seq<char> {
    match target.registrar {
        Some(registrar) => uri_of(trimmed(registrar)),
        None => uri_of(target.domain),
    }
}

fn to_uri(host: &str) -> (r: String)
    ensures
        r@ == uri_of(host@),
{
    let folded = text::lower_case(host);
    if text::starts_with(folded.as_str(), "sip:") || text::starts_with(folded.as_str(), "sips:") {
        host.to_string()
    } else {
        let mut uri = "sip:".to_string();
        uri.append(host);
        uri
    }
}

/// The URI that a REGISTER to this target asks for.
pub fn register_request_uri_with_target(target: &RegisterTarget) -> (r: String)
    ensures
        r@ == request_uri_of(target@),
{
    match &target.registrar {
        Some(registrar) => {
            let registrar = text::trim(registrar.as_str());
            to_uri(registrar.as_str())
        },
        None => to_uri(target.domain.as_str()),
    }
}

/// A registrar decides where a REGISTER goes, whatever the domain: a URI as it is, a
/// host as the URI of that host.
pub proof fn registrar_is_asked(target: TargetView, domain: Seq<char>)
    requires
        target.registrar is Some,
    ensures
        request_uri_of(target) == request_uri_of(TargetView { domain, ..target }),
        sip_uri(trimmed(target.registrar->0)) ==> request_uri_of(target) == trimmed(
            target.registrar->0,
        ),
        !sip_uri(trimmed(target.registrar->0)) ==> request_uri_of(target) == "sip:"@ + trimmed(
            target.registrar->0,
        ),
{
}

impl Clone for RegisterTarget {
    fn clone(&self) -> (r: Self)
        ensures
            r@ == self@,
    {
        RegisterTarget {
            domain: self.domain.clone(),
            realm: self.realm.clone(),
            registrar: self.registrar.clone(),
        }
    }
}

/// Which request of a registration it is.
#[derive(Debug, Clone, Copy, PartialEq, Eq, Structural)]
pub enum RegisterPhase {
    /// The first one.
    Initial,
    /// The one that answers a challenge.
    Authenticated,
    /// One that refreshes the registration or ends it.
    Refresh,
}

/// What a REGISTER is put together from. What the carrier's profile and the serving cell
/// add to it is added where it is written.
#[derive(Debug, PartialEq, Eq)]
pub struct RegisterRequest {
    pub phase: RegisterPhase,
    pub target: RegisterTarget,
    /// The URI that it asks for.
    pub request_uri: String,
    pub identity: ImsIdentity,
    pub route: ImsRoute,
    pub ids: RequestIds,
    pub parts: RegisterParts,
}

pub struct RequestView {
    pub phase: RegisterPhase,
    pub target: TargetView,
    pub request_uri: Seq<char>,
    pub identity: IdentityView,
    pub route: ImsRoute,
    pub ids: IdsView,
    pub parts: PartsView,
}

impl View for RegisterRequest {
    type V = RequestView;

    open spec fn view(&self) -> RequestView {
        RequestView {
            phase: self.phase,
            target: self.target@,
            request_uri: self.request_uri@,
            identity: self.identity@,
            route: self.route,
            ids: self.ids@,
            parts: self.parts@,
        }
    }
}

/// A REGISTER of one phase to a target.
pub open spec fn register_request(
    phase: RegisterPhase,
    target: TargetView,
    identity: IdentityView,
    route: ImsRoute,
    ids: IdsView,
    parts: PartsView,
) -> RequestView {
    RequestView {
        phase,
        target,
        request_uri: request_uri_of(target),
        identity,
        route,
        ids,
        parts,
    }
}

/// Puts a REGISTER of one phase to a target together; `cseq` is its number.
pub fn request_to(
    phase: RegisterPhase,
    target: &RegisterTarget,
    identity: &ImsIdentity,
    route: ImsRoute,
    ids: &RequestIds,
    cseq: u32,
    parts: RegisterParts,
) -> (r: RegisterRequest)
    ensures
        r@ == register_request(
            phase,
            target@,
            identity@,
            route,
            IdsView { cseq, ..ids@ },
            parts@,
        ),
{
    RegisterRequest {
        phase,
        target: target.clone(),
        request_uri: register_request_uri_with_target(target),
        identity: identity.clone(),
        route,
        ids: RequestIds {
            branch: ids.branch.clone(),
            from_tag: ids.from_tag.clone(),
            call_id: ids.call_id.clone(),
            cseq,
        },
        parts,
    }
}

/// A host with its port.
pub open spec fn host_port(addr: crate::ip::SocketAddr) -> Seq<char> {
    addr.ip.host() + ":"@ + decimal(addr.port as nat)
}

/// The transport as `Via` names it.
pub open spec fn via_transport(transport: SipTransport) -> Seq<char> {
    match transport {
        SipTransport::Udp => "UDP"@,
        SipTransport::Tcp => "TCP"@,
    }
}

/// The contact of a REGISTER, with the features that the policy asks for.
pub open spec fn contact_line(
    identity: IdentityView,
    route: ImsRoute,
    instance: Seq<char>,
    policy: RegisterRequestPolicy,
) -> Seq<char> {
    "Contact: <sip:"@ + identity.contact_user + "@"@ + host_port(route.local_addr) + ";transport="@
        + route.transport.name() + ">;+sip.instance=\"<"@ + instance + ">\""@ + (
    if policy.include_mmtel_features {
        MMTEL_FEATURE@
    } else {
        ""@
    }) + (if policy.include_mmtel_features && policy.include_video_feature {
        ";video"@
    } else {
        ""@
    })
}

/// A header line, where the header has a value.
pub open spec fn optional_line(name: Seq<char>, value: Option<Seq<char>>) -> Seq<Seq<char>> {
    match value {
        Some(value) => seq![name + value],
        None => Seq::empty(),
    }
}

pub open spec fn line_if(wanted: bool, line: Seq<char>) -> Seq<Seq<char>> {
    if wanted {
        seq![line]
    } else {
        Seq::empty()
    }
}

/// The lines that say who registers and where.
pub open spec fn routing_lines(
    identity: IdentityView,
    route: ImsRoute,
    ids: IdsView,
    policy: RegisterRequestPolicy,
) -> Seq<Seq<char>> {
    seq![
        "REGISTER sip:"@ + identity.home_domain + " SIP/2.0"@,
        "Via: SIP/2.0/"@ + via_transport(route.transport) + " "@ + host_port(route.local_addr)
            + ";branch="@ + ids.branch + ";rport"@,
        "Max-Forwards: 70"@,
    ] + line_if(
        policy.include_route_header,
        "Route: <sip:"@ + host_port(route.pcscf_addr) + ";lr>"@,
    ) + seq![
        "From: <"@ + identity.public_uri + ">;tag="@ + ids.from_tag,
        "To: <"@ + identity.public_uri + ">"@,
        "Call-ID: "@ + ids.call_id,
        "CSeq: "@ + decimal(ids.cseq as nat) + " REGISTER"@,
    ]
}

/// The lines that say how the line can be reached and for how long.
pub open spec fn contact_lines(identity: IdentityView, route: ImsRoute, parts: PartsView) -> Seq<
    Seq<char>,
> {
    seq![
        contact_line(identity, route, parts.sip_instance, parts.policy),
        "Expires: "@ + decimal(parts.expires_seconds as nat),
    ]
}

/// The lines that ask for security agreement.
pub open spec fn agreement_lines(policy: RegisterRequestPolicy) -> Seq<Seq<char>> {
    seq![
        if policy.advertise_sec_agree {
            "Supported: path,sec-agree"@
        } else {
            "Supported: path"@
        },
    ] + line_if(policy.require_sec_agree, "Require: sec-agree"@) + line_if(
        policy.require_sec_agree && policy.proxy_require_sec_agree,
        "Proxy-Require: sec-agree"@,
    )
}

/// The lines that prove who registers and protect it.
pub open spec fn security_lines(parts: PartsView) -> Seq<Seq<char>> {
    optional_line(""@, parts.authorization) + optional_line(
        "Security-Client: "@,
        parts.security_client,
    ) + optional_line("Security-Verify: "@, parts.security_verify)
}

/// The last lines of the head.
pub open spec fn closing_lines(identity: IdentityView, policy: RegisterRequestPolicy) -> Seq<
    Seq<char>,
> {
    line_if(
        policy.include_visited_network,
        "P-Visited-Network-ID: \""@ + identity.home_domain + "\""@,
    ) + seq!["Content-Length: 0"@]
}

/// The lines of a REGISTER.
pub open spec fn register_lines(
    identity: IdentityView,
    route: ImsRoute,
    ids: IdsView,
    parts: PartsView,
) -> Seq<Seq<char>> {
    routing_lines(identity, route, ids, parts.policy) + contact_lines(
        identity,
        route,
        parts,
    ) + agreement_lines(parts.policy) + security_lines(parts) + closing_lines(
        identity,
        parts.policy,
    )
}

/// A REGISTER as it is sent: its lines, and an empty one.
pub open spec fn register_text(
    identity: IdentityView,
    route: ImsRoute,
    ids: IdsView,
    parts: PartsView,
) -> Seq<char> {
    joined(register_lines(identity, route, ids, parts), "\r\n"@) + "\r\n\r\n"@
}

fn add_line(lines: &mut Vec<String>, line: String)
    ensures
        texts(final(lines)@) == texts(old(lines)@).push(line@),
{
    lines.push(line);
    proof {
        assert(texts(lines@) =~= texts(old(lines)@).push(line@));
    }
}

fn add_line_if(lines: &mut Vec<String>, wanted: bool, line: String)
    ensures
        texts(final(lines)@) == texts(old(lines)@) + line_if(wanted, line@),
{
    if wanted {
        add_line(lines, line);
    }
    proof {
        assert(texts(lines@) =~= texts(old(lines)@) + line_if(wanted, line@));
    }
}

fn add_optional(lines: &mut Vec<String>, name: &str, value: &Option<String>)
    ensures
        texts(final(lines)@) == texts(old(lines)@) + optional_line(name@, opt(*value)),
{
    if let Some(value) = value {
        let mut line = name.to_string();
        line.append(value.as_str());
        add_line(lines, line);
    }
    proof {
        assert(texts(lines@) =~= texts(old(lines)@) + optional_line(name@, opt(*value)));
    }
}

fn host_port_string(addr: crate::ip::SocketAddr) -> (r: String)
    ensures
        r@ == host_port(addr),
{
    let mut out = addr.ip.to_host();
    out.append(":");
    let port = text::decimal_string(addr.port as u64);
    out.append(port.as_str());
    out
}

fn build_contact_line(
    identity: &ImsIdentity,
    route: &ImsRoute,
    instance: &str,
    policy: RegisterRequestPolicy,
) -> (r: String)
    ensures
        r@ == contact_line(identity@, *route, instance@, policy),
{
    let mut line = "Contact: <sip:".to_string();
    line.append(identity.contact_user.as_str());
    line.append("@");
    let host = host_port_string(route.local_addr);
    line.append(host.as_str());
    line.append(";transport=");
    line.append(route.transport.as_str());
    line.append(">;+sip.instance=\"<");
    line.append(instance);
    line.append(">\"");
    line.append(
        if policy.include_mmtel_features {
            MMTEL_FEATURE
        } else {
            ""
        },
    );
    line.append(
        if policy.include_mmtel_features && policy.include_video_feature {
            ";video"
        } else {
            ""
        },
    );
    line
}

fn build_routing_lines(
    identity: &ImsIdentity,
    route: &ImsRoute,
    ids: &RequestIds,
    policy: RegisterRequestPolicy,
) -> (r: Vec<String>)
    ensures
        texts(r@) == routing_lines(identity@, *route, ids@, policy),
{
    let mut lines: Vec<String> = Vec::new();
    proof {
        assert(texts(lines@) =~= Seq::<Seq<char>>::empty());
    }
    let mut line = "REGISTER sip:".to_string();
    line.append(identity.home_domain.as_str());
    line.append(" SIP/2.0");
    add_line(&mut lines, line);
    let mut line = "Via: SIP/2.0/".to_string();
    line.append(
        match route.transport {
            SipTransport::Udp => "UDP",
            SipTransport::Tcp => "TCP",
        },
    );
    line.append(" ");
    let local = host_port_string(route.local_addr);
    line.append(local.as_str());
    line.append(";branch=");
    line.append(ids.branch.as_str());
    line.append(";rport");
    add_line(&mut lines, line);
    add_line(&mut lines, "Max-Forwards: 70".to_string());
    let mut line = "Route: <sip:".to_string();
    let remote = host_port_string(route.pcscf_addr);
    line.append(remote.as_str());
    line.append(";lr>");
    add_line_if(&mut lines, policy.include_route_header, line);
    let mut line = "From: <".to_string();
    line.append(identity.public_uri.as_str());
    line.append(">;tag=");
    line.append(ids.from_tag.as_str());
    add_line(&mut lines, line);
    let mut line = "To: <".to_string();
    line.append(identity.public_uri.as_str());
    line.append(">");
    add_line(&mut lines, line);
    let mut line = "Call-ID: ".to_string();
    line.append(ids.call_id.as_str());
    add_line(&mut lines, line);
    let mut line = "CSeq: ".to_string();
    let digits = text::decimal_string(ids.cseq as u64);
    line.append(digits.as_str());
    line.append(" REGISTER");
    add_line(&mut lines, line);
    proof {
        assert(texts(lines@) =~= routing_lines(identity@, *route, ids@, policy));
    }
    lines
}

fn add_lines(lines: &mut Vec<String>, more: Vec<String>)
    ensures
        texts(final(lines)@) == texts(old(lines)@) + texts(more@),
{
    let mut more = more;
    let ghost added = more@;
    lines.append(&mut more);
    proof {
        assert(texts(lines@) =~= texts(old(lines)@) + texts(added));
    }
}

fn build_contact_lines(identity: &ImsIdentity, route: &ImsRoute, parts: &RegisterParts) -> (r: Vec<
    String,
>)
    ensures
        texts(r@) == contact_lines(identity@, *route, parts@),
{
    let mut lines = no_texts();
    add_line(
        &mut lines,
        build_contact_line(identity, route, parts.sip_instance.as_str(), parts.policy),
    );
    let mut line = "Expires: ".to_string();
    let digits = text::decimal_string(parts.expires_seconds as u64);
    line.append(digits.as_str());
    add_line(&mut lines, line);
    proof {
        assert(texts(lines@) =~= contact_lines(identity@, *route, parts@));
    }
    lines
}

fn build_agreement_lines(policy: RegisterRequestPolicy) -> (r: Vec<String>)
    ensures
        texts(r@) == agreement_lines(policy),
{
    let mut lines = no_texts();
    let supported = if policy.advertise_sec_agree {
        "Supported: path,sec-agree"
    } else {
        "Supported: path"
    };
    add_line(&mut lines, supported.to_string());
    add_line_if(&mut lines, policy.require_sec_agree, "Require: sec-agree".to_string());
    add_line_if(
        &mut lines,
        policy.require_sec_agree && policy.proxy_require_sec_agree,
        "Proxy-Require: sec-agree".to_string(),
    );
    proof {
        assert(texts(lines@) =~= agreement_lines(policy));
    }
    lines
}

fn build_security_lines(parts: &RegisterParts) -> (r: Vec<String>)
    ensures
        texts(r@) == security_lines(parts@),
{
    let mut lines = no_texts();
    add_optional(&mut lines, "", &parts.authorization);
    add_optional(&mut lines, "Security-Client: ", &parts.security_client);
    add_optional(&mut lines, "Security-Verify: ", &parts.security_verify);
    proof {
        assert(texts(lines@) =~= security_lines(parts@));
    }
    lines
}

fn build_closing_lines(identity: &ImsIdentity, policy: RegisterRequestPolicy) -> (r: Vec<String>)
    ensures
        texts(r@) == closing_lines(identity@, policy),
{
    let mut lines = no_texts();
    let mut line = "P-Visited-Network-ID: \"".to_string();
    line.append(identity.home_domain.as_str());
    line.append("\"");
    add_line_if(&mut lines, policy.include_visited_network, line);
    add_line(&mut lines, "Content-Length: 0".to_string());
    proof {
        assert(texts(lines@) =~= closing_lines(identity@, policy));
    }
    lines
}

/// Writes a REGISTER to the subscriber's home domain that holds its parts and nothing of
/// a carrier's own.
pub fn build_register_with_policy(
    identity: &ImsIdentity,
    route: &ImsRoute,
    ids: &RequestIds,
    parts: &RegisterParts,
) -> (r: String)
    ensures
        r@ == register_text(identity@, *route, ids@, parts@),
{
    let mut lines = build_routing_lines(identity, route, ids, parts.policy);
    add_lines(&mut lines, build_contact_lines(identity, route, parts));
    add_lines(&mut lines, build_agreement_lines(parts.policy));
    add_lines(&mut lines, build_security_lines(parts));
    add_lines(&mut lines, build_closing_lines(identity, parts.policy));
    let mut out = join(lines.as_slice(), "\r\n");
    out.append("\r\n\r\n");
    out
}

} // verus!
