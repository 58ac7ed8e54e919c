//! A REGISTER as it is written is read back, header by header.

use vstd::prelude::*;
use vstd::string::*;

use crate::channel::ImsRoute;
use crate::command::joined;
use crate::identity::IdentityView;
use crate::register::request::{
    agreement_lines, closing_lines, contact_line, contact_lines, host_port, line_if,
    optional_line, register_lines, register_text, routing_lines, security_lines, via_transport,
    IdsView, PartsView,
};
use crate::sdp::written::{all_lines, ended, lemma_ended_push, lemma_lines};
use crate::sip::written::{
    addresses_are_read_back, field, fields_are_read_by_name, is_atom, is_name,
    lemma_values_concat,
};
use crate::sip::{uri_of, value_in_line, values_in};
use crate::text;
use crate::text::{
    decimal, has_prefix, is_digit, is_space, lines_of, lower_char, same_folded, trimmed,
};

verus! {

/// The headers of a REGISTER.
#[derive(Clone, Copy, PartialEq, Eq, Structural)]
enum Header {
    Via,
    MaxForwards,
    Route,
    From,
    To,
    CallId,
    CSeq,
    Contact,
    Expires,
    Supported,
    Require,
    ProxyRequire,
    Authorization,
    SecurityClient,
    SecurityVerify,
    Visited,
    ContentLength,
}

spec fn name_of(h: Header) -> Seq<char> {
    match h {
        Header::Via => "Via"@,
        Header::MaxForwards => "Max-Forwards"@,
        Header::Route => "Route"@,
        Header::From => "From"@,
        Header::To => "To"@,
        Header::CallId => "Call-ID"@,
        Header::CSeq => "CSeq"@,
        Header::Contact => "Contact"@,
        Header::Expires => "Expires"@,
        Header::Supported => "Supported"@,
        Header::Require => "Require"@,
        Header::ProxyRequire => "Proxy-Require"@,
        Header::Authorization => "Authorization"@,
        Header::SecurityClient => "Security-Client"@,
        Header::SecurityVerify => "Security-Verify"@,
        Header::Visited => "P-Visited-Network-ID"@,
        Header::ContentLength => "Content-Length"@,
    }
}

spec fn mark_of(h: Header) -> (nat, char, char, char) {
    match h {
        Header::Via => (3, 'v', 'i', 'a'),
        Header::MaxForwards => (12, 'm', 'a', 's'),
        Header::Route => (5, 'r', 'o', 'e'),
        Header::From => (4, 'f', 'r', 'm'),
        Header::To => (2, 't', 'o', 'o'),
        Header::CallId => (7, 'c', 'a', 'd'),
        Header::CSeq => (4, 'c', 's', 'q'),
        Header::Contact => (7, 'c', 'o', 't'),
        Header::Expires => (7, 'e', 'x', 's'),
        Header::Supported => (9, 's', 'u', 'd'),
        Header::Require => (7, 'r', 'e', 'e'),
        Header::ProxyRequire => (13, 'p', 'r', 'e'),
        Header::Authorization => (13, 'a', 'u', 'n'),
        Header::SecurityClient => (15, 's', 'e', 't'),
        Header::SecurityVerify => (15, 's', 'e', 'y'),
        Header::Visited => (20, 'p', '-', 'd'),
        Header::ContentLength => (14, 'c', 'o', 'h'),
    }
}

spec fn mark(s: Seq<char>) -> (nat, char, char, char) {
    (s.len(), lower_char(s[0]), lower_char(s[1]), lower_char(s[s.len() - 1]))
}

proof fn lemma_mark(h: Header)
    ensures
        mark(name_of(h)) == mark_of(h),
        is_name(name_of(h)),
{
    reveal_strlit("Via");
    reveal_strlit("Max-Forwards");
    reveal_strlit("Route");
    reveal_strlit("From");
    reveal_strlit("To");
    reveal_strlit("Call-ID");
    reveal_strlit("CSeq");
    reveal_strlit("Contact");
    reveal_strlit("Expires");
    reveal_strlit("Supported");
    reveal_strlit("Require");
    reveal_strlit("Proxy-Require");
    reveal_strlit("Authorization");
    reveal_strlit("Security-Client");
    reveal_strlit("Security-Verify");
    reveal_strlit("P-Visited-Network-ID");
    reveal_strlit("Content-Length");
    let s = name_of(h);
    assert(lower_char('V') == 'v' && lower_char('M') == 'm' && lower_char('R') == 'r'
        && lower_char('F') == 'f' && lower_char('T') == 't' && lower_char('C') == 'c'
        && lower_char('D') == 'd' && lower_char('S') == 's' && lower_char('E') == 'e'
        && lower_char('P') == 'p' && lower_char('A') == 'a');
    assert forall|i: int| 0 <= i < s.len() implies #[trigger] s[i] != ':' && !is_space(s[i]) by {}
}

proof fn lemma_apart(a: Header, b: Header)
    ensures
        same_folded(name_of(a), name_of(b)) <==> a == b,
{
    lemma_mark(a);
    lemma_mark(b);
    if same_folded(name_of(a), name_of(b)) {
        let x = text::lower(name_of(a));
        let y = text::lower(name_of(b));
        assert(x == y);
        assert(x.len() == y.len());
        assert(x[0] == y[0] && x[1] == y[1] && x[x.len() - 1] == y[y.len() - 1]);
        assert(mark(name_of(a)) == mark(name_of(b)));
    }
}

spec fn pick(wanted: bool, value: Seq<char>) -> Seq<Seq<char>> {
    if wanted {
        seq![trimmed(value)]
    } else {
        Seq::empty()
    }
}

spec fn line(h: Header, value: Seq<char>) -> Seq<char> {
    field(name_of(h), value)
}

proof fn lemma_one(h: Header, value: Seq<char>, w: Header)
    ensures
        values_in(seq![line(h, value)], name_of(w)) == pick(h == w, value),
{
    lemma_mark(h);
    lemma_apart(h, w);
    fields_are_read_by_name(name_of(h), value, name_of(w));
    let l = seq![line(h, value)];
    assert(l.drop_last() =~= Seq::<Seq<char>>::empty());
    assert(l.last() == line(h, value));
    assert(values_in(l.drop_last(), name_of(w)) == Seq::<Seq<char>>::empty());
    assert(values_in(l, name_of(w)) =~= pick(h == w, value));
}

proof fn lemma_if(wanted: bool, h: Header, value: Seq<char>, w: Header)
    ensures
        values_in(line_if(wanted, line(h, value)), name_of(w)) == pick(wanted && h == w, value),
{
    if wanted {
        lemma_one(h, value, w);
    }
}

/// The text behind `label` is the value of a header.
proof fn lemma_label(h: Header, label: Seq<char>, said: Seq<char>, rest: Seq<char>)
    requires
        label == name_of(h) + ": "@ + said,
    ensures
        label + rest == line(h, said + rest),
{
    assert(label + rest =~= line(h, said + rest));
}

proof fn lemma_labels()
    ensures
        "Via: SIP/2.0/"@ == "Via"@ + ": "@ + "SIP/2.0/"@,
        "Max-Forwards: 70"@ == "Max-Forwards"@ + ": "@ + "70"@,
        "Route: <sip:"@ == "Route"@ + ": "@ + "<sip:"@,
        "From: <"@ == "From"@ + ": "@ + "<"@,
        "To: <"@ == "To"@ + ": "@ + "<"@,
        "Call-ID: "@ == "Call-ID"@ + ": "@,
        "CSeq: "@ == "CSeq"@ + ": "@,
        "Contact: <sip:"@ == "Contact"@ + ": "@ + "<sip:"@,
        "Expires: "@ == "Expires"@ + ": "@,
{
    reveal_strlit(": ");
    reveal_strlit("Via: SIP/2.0/");
    reveal_strlit("Via");
    reveal_strlit("SIP/2.0/");
    reveal_strlit("Max-Forwards: 70");
    reveal_strlit("Max-Forwards");
    reveal_strlit("70");
    reveal_strlit("Route: <sip:");
    reveal_strlit("Route");
    reveal_strlit("<sip:");
    reveal_strlit("From: <");
    reveal_strlit("From");
    reveal_strlit("<");
    reveal_strlit("To: <");
    reveal_strlit("To");
    reveal_strlit("Call-ID: ");
    reveal_strlit("Call-ID");
    reveal_strlit("CSeq: ");
    reveal_strlit("CSeq");
    reveal_strlit("Contact: <sip:");
    reveal_strlit("Contact");
    reveal_strlit("Expires: ");
    reveal_strlit("Expires");
    assert("Via: SIP/2.0/"@ =~= "Via"@ + ": "@ + "SIP/2.0/"@);
    assert("Max-Forwards: 70"@ =~= "Max-Forwards"@ + ": "@ + "70"@);
    assert("Route: <sip:"@ =~= "Route"@ + ": "@ + "<sip:"@);
    assert("From: <"@ =~= "From"@ + ": "@ + "<"@);
    assert("To: <"@ =~= "To"@ + ": "@ + "<"@);
    assert("Call-ID: "@ =~= "Call-ID"@ + ": "@);
    assert("CSeq: "@ =~= "CSeq"@ + ": "@);
    assert("Contact: <sip:"@ =~= "Contact"@ + ": "@ + "<sip:"@);
    assert("Expires: "@ =~= "Expires"@ + ": "@);
}

proof fn lemma_more_labels()
    ensures
        "Supported: path,sec-agree"@ == "Supported"@ + ": "@ + "path,sec-agree"@,
        "Supported: path"@ == "Supported"@ + ": "@ + "path"@,
        "Require: sec-agree"@ == "Require"@ + ": "@ + "sec-agree"@,
        "Proxy-Require: sec-agree"@ == "Proxy-Require"@ + ": "@ + "sec-agree"@,
        "Security-Client: "@ == "Security-Client"@ + ": "@,
        "Security-Verify: "@ == "Security-Verify"@ + ": "@,
        "P-Visited-Network-ID: \""@ == "P-Visited-Network-ID"@ + ": "@ + "\""@,
        "Content-Length: 0"@ == "Content-Length"@ + ": "@ + "0"@,
{
    reveal_strlit(": ");
    reveal_strlit("Supported: path,sec-agree");
    reveal_strlit("Supported: path");
    reveal_strlit("Supported");
    reveal_strlit("path,sec-agree");
    reveal_strlit("path");
    reveal_strlit("Require: sec-agree");
    reveal_strlit("Require");
    reveal_strlit("sec-agree");
    reveal_strlit("Proxy-Require: sec-agree");
    reveal_strlit("Proxy-Require");
    reveal_strlit("Security-Client: ");
    reveal_strlit("Security-Client");
    reveal_strlit("Security-Verify: ");
    reveal_strlit("Security-Verify");
    reveal_strlit("P-Visited-Network-ID: \"");
    reveal_strlit("P-Visited-Network-ID");
    reveal_strlit("\"");
    reveal_strlit("Content-Length: 0");
    reveal_strlit("Content-Length");
    reveal_strlit("0");
    assert("Supported: path,sec-agree"@ =~= "Supported"@ + ": "@ + "path,sec-agree"@);
    assert("Supported: path"@ =~= "Supported"@ + ": "@ + "path"@);
    assert("Require: sec-agree"@ =~= "Require"@ + ": "@ + "sec-agree"@);
    assert("Proxy-Require: sec-agree"@ =~= "Proxy-Require"@ + ": "@ + "sec-agree"@);
    assert("Security-Client: "@ =~= "Security-Client"@ + ": "@);
    assert("Security-Verify: "@ =~= "Security-Verify"@ + ": "@);
    assert("P-Visited-Network-ID: \""@ =~= "P-Visited-Network-ID"@ + ": "@ + "\""@);
    assert("Content-Length: 0"@ =~= "Content-Length"@ + ": "@ + "0"@);
}

// ---------------------------------------------------------------------------
// What each header says.

spec fn via_value(route: ImsRoute, ids: IdsView) -> Seq<char> {
    "SIP/2.0/"@ + (via_transport(route.transport) + " "@ + host_port(route.local_addr)
        + ";branch="@ + ids.branch + ";rport"@)
}

spec fn route_value(route: ImsRoute) -> Seq<char> {
    "<sip:"@ + (host_port(route.pcscf_addr) + ";lr>"@)
}

spec fn from_value(identity: IdentityView, ids: IdsView) -> Seq<char> {
    "<"@ + (identity.public_uri + ">;tag="@ + ids.from_tag)
}

spec fn to_value(identity: IdentityView) -> Seq<char> {
    "<"@ + (identity.public_uri + ">"@)
}

spec fn cseq_value(ids: IdsView) -> Seq<char> {
    decimal(ids.cseq as nat) + " REGISTER"@
}

proof fn lemma_routing(
    identity: IdentityView,
    route: ImsRoute,
    ids: IdsView,
    parts: PartsView,
    w: Header,
)
    ensures
        ({
            let r = routing_lines(identity, route, ids, parts.policy);
            &&& r.len() > 0
            &&& r[0] == "REGISTER sip:"@ + identity.home_domain + " SIP/2.0"@
            &&& values_in(r.skip(1), name_of(w)) == pick(w is Via, via_value(route, ids)) + pick(
                w is MaxForwards,
                "70"@,
            ) + pick(parts.policy.include_route_header && w is Route, route_value(route)) + pick(
                w is From,
                from_value(identity, ids),
            ) + pick(w is To, to_value(identity)) + pick(w is CallId, ids.call_id) + pick(
                w is CSeq,
                cseq_value(ids),
            )
        }),
{
    lemma_labels();
    let n = name_of(w);
    let v = "Via: SIP/2.0/"@ + via_transport(route.transport) + " "@ + host_port(route.local_addr)
        + ";branch="@ + ids.branch + ";rport"@;
    lemma_via_regroup(route, ids);
    lemma_label(Header::Via, "Via: SIP/2.0/"@, "SIP/2.0/"@, via_value(route, ids).skip(8));
    assert(v == line(Header::Via, via_value(route, ids)));
    let m = "Max-Forwards: 70"@;
    assert(m == line(Header::MaxForwards, "70"@));
    let rt = "Route: <sip:"@ + host_port(route.pcscf_addr) + ";lr>"@;
    assert(rt =~= "Route: <sip:"@ + (host_port(route.pcscf_addr) + ";lr>"@));
    lemma_label(Header::Route, "Route: <sip:"@, "<sip:"@, host_port(route.pcscf_addr) + ";lr>"@);
    let f = "From: <"@ + identity.public_uri + ">;tag="@ + ids.from_tag;
    assert(f =~= "From: <"@ + (identity.public_uri + ">;tag="@ + ids.from_tag));
    lemma_label(Header::From, "From: <"@, "<"@, identity.public_uri + ">;tag="@ + ids.from_tag);
    let t = "To: <"@ + identity.public_uri + ">"@;
    assert(t =~= "To: <"@ + (identity.public_uri + ">"@));
    lemma_label(Header::To, "To: <"@, "<"@, identity.public_uri + ">"@);
    let c = "Call-ID: "@ + ids.call_id;
    assert(c == line(Header::CallId, ids.call_id));
    let q = "CSeq: "@ + decimal(ids.cseq as nat) + " REGISTER"@;
    assert(q =~= line(Header::CSeq, cseq_value(ids)));
    lemma_one(Header::Via, via_value(route, ids), w);
    lemma_one(Header::MaxForwards, "70"@, w);
    lemma_if(parts.policy.include_route_header, Header::Route, route_value(route), w);
    lemma_one(Header::From, from_value(identity, ids), w);
    lemma_one(Header::To, to_value(identity), w);
    lemma_one(Header::CallId, ids.call_id, w);
    lemma_one(Header::CSeq, cseq_value(ids), w);
    let opt = line_if(parts.policy.include_route_header, rt);
    let s1 = seq![v] + seq![m];
    let s2 = s1 + opt;
    let s3 = s2 + seq![f];
    let s4 = s3 + seq![t];
    let s5 = s4 + seq![c];
    let s6 = s5 + seq![q];
    let r = routing_lines(identity, route, ids, parts.policy);
    assert(r.skip(1) =~= s6);
    lemma_values_concat(seq![v], seq![m], n);
    lemma_values_concat(s1, opt, n);
    lemma_values_concat(s2, seq![f], n);
    lemma_values_concat(s3, seq![t], n);
    lemma_values_concat(s4, seq![c], n);
    lemma_values_concat(s5, seq![q], n);
}

proof fn lemma_via_regroup(route: ImsRoute, ids: IdsView)
    ensures
        "Via: SIP/2.0/"@ + via_transport(route.transport) + " "@ + host_port(route.local_addr)
            + ";branch="@ + ids.branch + ";rport"@ == "Via: SIP/2.0/"@ + via_value(
            route,
            ids,
        ).skip(8),
        via_value(route, ids) == "SIP/2.0/"@ + via_value(route, ids).skip(8),
{
    reveal_strlit("SIP/2.0/");
    let a = via_transport(route.transport);
    let b = a + " "@;
    let c = b + host_port(route.local_addr);
    let d = c + ";branch="@;
    let e = d + ids.branch;
    let x = "Via: SIP/2.0/"@;
    text::lemma_concat(x, e, ";rport"@);
    text::lemma_concat(x, d, ids.branch);
    text::lemma_concat(x, c, ";branch="@);
    text::lemma_concat(x, b, host_port(route.local_addr));
    text::lemma_concat(x, a, " "@);
    assert(via_value(route, ids).skip(8) =~= e + ";rport"@);
}

spec fn contact_value(identity: IdentityView, route: ImsRoute, parts: PartsView) -> Seq<char> {
    contact_line(identity, route, parts.sip_instance, parts.policy).skip(9)
}

proof fn lemma_contact(identity: IdentityView, route: ImsRoute, parts: PartsView, w: Header)
    ensures
        values_in(contact_lines(identity, route, parts), name_of(w)) == pick(
            w is Contact,
            contact_value(identity, route, parts),
        ) + pick(w is Expires, decimal(parts.expires_seconds as nat)),
        has_prefix(
            contact_value(identity, route, parts),
            "<sip:"@ + identity.contact_user + "@"@ + route.local_addr.text(),
        ),
{
    lemma_labels();
    reveal_strlit(": ");
    reveal_strlit("Contact");
    reveal_strlit("Contact: <sip:");
    reveal_strlit("<sip:");
    let c = contact_line(identity, route, parts.sip_instance, parts.policy);
    let front = "Contact: <sip:"@ + identity.contact_user + "@"@ + host_port(route.local_addr);
    let wanted = "<sip:"@ + identity.contact_user + "@"@ + route.local_addr.text();
    assert(front =~= "Contact"@ + ": "@ + wanted);
    assert(front.len() == 9 + wanted.len());
    lemma_contact_front(identity, route, parts);
    assert(c.take(front.len() as int) == front);
    let v = c.skip(9);
    assert(c =~= c.take(9) + v);
    assert(c.take(9) =~= front.take(9));
    assert(front.take(9) =~= "Contact"@ + ": "@);
    assert(c == line(Header::Contact, v));
    assert(v.take(wanted.len() as int) =~= front.skip(9)) by {
        assert forall|i: int| 0 <= i < wanted.len() implies v.take(wanted.len() as int)[i]
            == front.skip(9)[i] by {
            assert(c.take(front.len() as int)[i + 9] == front[i + 9]);
        }
    }
    assert(front.skip(9) =~= wanted);
    let e = "Expires: "@ + decimal(parts.expires_seconds as nat);
    assert(e == line(Header::Expires, decimal(parts.expires_seconds as nat)));
    lemma_one(Header::Contact, v, w);
    lemma_one(Header::Expires, decimal(parts.expires_seconds as nat), w);
    assert(contact_lines(identity, route, parts) =~= seq![c] + seq![e]);
    lemma_values_concat(seq![c], seq![e], name_of(w));
}

proof fn lemma_contact_front(identity: IdentityView, route: ImsRoute, parts: PartsView)
    ensures
        ({
            let c = contact_line(identity, route, parts.sip_instance, parts.policy);
            let front = "Contact: <sip:"@ + identity.contact_user + "@"@ + host_port(
                route.local_addr,
            );
            c.len() >= front.len() && c.take(front.len() as int) == front
        }),
{
    let c = contact_line(identity, route, parts.sip_instance, parts.policy);
    let front = "Contact: <sip:"@ + identity.contact_user + "@"@ + host_port(route.local_addr);
    assert(c.take(front.len() as int) =~= front);
}

proof fn lemma_agreement(parts: PartsView, w: Header)
    ensures
        values_in(agreement_lines(parts.policy), name_of(w)) == pick(
            w is Supported,
            if parts.policy.advertise_sec_agree {
                "path,sec-agree"@
            } else {
                "path"@
            },
        ) + pick(parts.policy.require_sec_agree && w is Require, "sec-agree"@) + pick(
            parts.policy.require_sec_agree && parts.policy.proxy_require_sec_agree
                && w is ProxyRequire,
            "sec-agree"@,
        ),
{
    lemma_more_labels();
    let p = parts.policy;
    let n = name_of(w);
    let v = if p.advertise_sec_agree {
        "path,sec-agree"@
    } else {
        "path"@
    };
    let s = seq![line(Header::Supported, v)];
    let r = line_if(p.require_sec_agree, line(Header::Require, "sec-agree"@));
    let x = line_if(
        p.require_sec_agree && p.proxy_require_sec_agree,
        line(Header::ProxyRequire, "sec-agree"@),
    );
    lemma_one(Header::Supported, v, w);
    lemma_if(p.require_sec_agree, Header::Require, "sec-agree"@, w);
    lemma_if(
        p.require_sec_agree && p.proxy_require_sec_agree,
        Header::ProxyRequire,
        "sec-agree"@,
        w,
    );
    assert(agreement_lines(p) =~= s + r + x);
    lemma_values_concat(s + r, x, n);
    lemma_values_concat(s, r, n);
}

spec fn opt_pick(wanted: bool, value: Option<Seq<char>>) -> Seq<Seq<char>> {
    match value {
        Some(v) => pick(wanted, v),
        None => Seq::empty(),
    }
}

/// The authorization is that of a header line with this value.
pub open spec fn authorizes(parts: PartsView, value: Option<Seq<char>>) -> bool {
    parts.authorization == (match value {
        Some(v) => Some(field("Authorization"@, v)),
        None => None,
    })
}

proof fn lemma_security(parts: PartsView, value: Option<Seq<char>>, w: Header)
    requires
        authorizes(parts, value),
    ensures
        values_in(security_lines(parts), name_of(w)) == opt_pick(w is Authorization, value)
            + opt_pick(w is SecurityClient, parts.security_client) + opt_pick(
            w is SecurityVerify,
            parts.security_verify,
        ),
{
    lemma_more_labels();
    reveal_strlit("");
    let n = name_of(w);
    let a = optional_line(""@, parts.authorization);
    let c = optional_line("Security-Client: "@, parts.security_client);
    let v = optional_line("Security-Verify: "@, parts.security_verify);
    if value is Some {
        let x = value->0;
        assert(""@ + line(Header::Authorization, x) =~= line(Header::Authorization, x));
        assert(a =~= seq![line(Header::Authorization, x)]);
        lemma_one(Header::Authorization, x, w);
    }
    if parts.security_client is Some {
        let x = parts.security_client->0;
        assert(c =~= seq![line(Header::SecurityClient, x)]);
        lemma_one(Header::SecurityClient, x, w);
    }
    if parts.security_verify is Some {
        let x = parts.security_verify->0;
        assert(v =~= seq![line(Header::SecurityVerify, x)]);
        lemma_one(Header::SecurityVerify, x, w);
    }
    lemma_values_concat(a + c, v, n);
    lemma_values_concat(a, c, n);
}

proof fn lemma_closing(identity: IdentityView, parts: PartsView, w: Header)
    ensures
        values_in(closing_lines(identity, parts.policy), name_of(w)) == pick(
            parts.policy.include_visited_network && w is Visited,
            "\""@ + (identity.home_domain + "\""@),
        ) + pick(w is ContentLength, "0"@),
{
    lemma_more_labels();
    let n = name_of(w);
    let value = "\""@ + (identity.home_domain + "\""@);
    let x = "P-Visited-Network-ID: \""@ + identity.home_domain + "\""@;
    assert(x =~= "P-Visited-Network-ID: \""@ + (identity.home_domain + "\""@));
    lemma_label(
        Header::Visited,
        "P-Visited-Network-ID: \""@,
        "\""@,
        identity.home_domain + "\""@,
    );
    let a = line_if(parts.policy.include_visited_network, x);
    lemma_if(parts.policy.include_visited_network, Header::Visited, value, w);
    lemma_one(Header::ContentLength, "0"@, w);
    lemma_values_concat(a, seq!["Content-Length: 0"@], n);
}

// ---------------------------------------------------------------------------
// The whole request.

proof fn lemma_register_values(
    identity: IdentityView,
    route: ImsRoute,
    ids: IdsView,
    parts: PartsView,
    value: Option<Seq<char>>,
    w: Header,
)
    requires
        authorizes(parts, value),
    ensures
        ({
            let policy = parts.policy;
            let all = values_in(register_lines(identity, route, ids, parts).skip(1), name_of(w));
            match w {
                Header::Via => all == pick(true, via_value(route, ids)),
                Header::MaxForwards => all == pick(true, "70"@),
                Header::Route => all == pick(policy.include_route_header, route_value(route)),
                Header::From => all == pick(true, from_value(identity, ids)),
                Header::To => all == pick(true, to_value(identity)),
                Header::CallId => all == pick(true, ids.call_id),
                Header::CSeq => all == pick(true, cseq_value(ids)),
                Header::Contact => all == pick(true, contact_value(identity, route, parts)),
                Header::Expires => all == pick(true, decimal(parts.expires_seconds as nat)),
                Header::Supported => true,
                Header::Require => all == pick(policy.require_sec_agree, "sec-agree"@),
                Header::ProxyRequire => all == pick(
                    policy.require_sec_agree && policy.proxy_require_sec_agree,
                    "sec-agree"@,
                ),
                Header::Authorization => all == opt_pick(true, value),
                Header::SecurityClient => all == opt_pick(true, parts.security_client),
                Header::SecurityVerify => all == opt_pick(true, parts.security_verify),
                Header::Visited => all.len() == 1 <==> policy.include_visited_network,
                Header::ContentLength => all == pick(true, "0"@),
            }
        }),
{
    let n = name_of(w);
    let r = routing_lines(identity, route, ids, parts.policy);
    let c = contact_lines(identity, route, parts);
    let a = agreement_lines(parts.policy);
    let s = security_lines(parts);
    let x = closing_lines(identity, parts.policy);
    lemma_routing(identity, route, ids, parts, w);
    lemma_contact(identity, route, parts, w);
    lemma_agreement(parts, w);
    lemma_security(parts, value, w);
    lemma_closing(identity, parts, w);
    let t = r.skip(1);
    let all = register_lines(identity, route, ids, parts).skip(1);
    assert(all =~= t + c + a + s + x);
    lemma_values_concat(t + c + a + s, x, n);
    lemma_values_concat(t + c + a, s, n);
    lemma_values_concat(t + c, a, n);
    lemma_values_concat(t, c, n);
    let e = Seq::<Seq<char>>::empty();
    let vt = values_in(t, n);
    let vc = values_in(c, n);
    let va = values_in(a, n);
    let vs = values_in(s, n);
    let vx = values_in(x, n);
    assert(values_in(all, n) == vt + vc + va + vs + vx);
    let in_routing = w is Via || w is MaxForwards || w is Route || w is From || w is To
        || w is CallId || w is CSeq;
    let in_contact = w is Contact || w is Expires;
    let in_agreement = w is Supported || w is Require || w is ProxyRequire;
    let in_security = w is Authorization || w is SecurityClient || w is SecurityVerify;
    let in_closing = w is Visited || w is ContentLength;
    assert(!in_routing ==> vt =~= e);
    assert(!in_contact ==> vc =~= e);
    assert(!in_agreement ==> va =~= e);
    assert(!in_security ==> vs =~= e);
    assert(!in_closing ==> vx =~= e);
    assert(in_routing ==> values_in(all, n) =~= vt);
    assert(in_contact ==> values_in(all, n) =~= vc);
    assert(in_agreement ==> values_in(all, n) =~= va);
    assert(in_security ==> values_in(all, n) =~= vs);
    assert(in_closing ==> values_in(all, n) =~= vx);
}

proof fn lemma_joined(l: Seq<Seq<char>>)
    requires
        l.len() > 0,
    ensures
        joined(l, "\r\n"@) + "\r\n"@ == ended(l),
    decreases l.len(),
{
    let d = l.drop_last();
    if l.len() == 1 {
        assert(ended(d) == Seq::<char>::empty());
        assert(Seq::<char>::empty() + l.last() =~= l[0]);
    } else {
        lemma_joined(d);
    }
}

proof fn lemma_register_text(
    identity: IdentityView,
    route: ImsRoute,
    ids: IdsView,
    parts: PartsView,
)
    requires
        all_lines(register_lines(identity, route, ids, parts)),
    ensures
        lines_of(register_text(identity, route, ids, parts)) == register_lines(
            identity,
            route,
            ids,
            parts,
        ).push(Seq::empty()),
{
    let l = register_lines(identity, route, ids, parts);
    let e = Seq::<char>::empty();
    let text = register_text(identity, route, ids, parts);
    assert(l.len() > 0);
    lemma_joined(l);
    lemma_ended_push(l, e);
    reveal_strlit("\r\n");
    reveal_strlit("\r\n\r\n");
    assert("\r\n\r\n"@ =~= "\r\n"@ + "\r\n"@);
    text::lemma_concat(joined(l, "\r\n"@), "\r\n"@, "\r\n"@);
    assert(ended(l) + e =~= ended(l));
    assert(text == ended(l.push(e)));
    let m = l.push(e);
    assert forall|i: int| 0 <= i < m.len() implies crate::sdp::written::one_line(#[trigger] m[i]) by {
        if i < l.len() {
            assert(m[i] == l[i]);
        }
    }
    lemma_lines(m);
}

/// The headers of a text that is a request, read as those of a frame are.
pub open spec fn header_values(text: Seq<char>, name: Seq<char>) -> Seq<Seq<char>> {
    values_in(lines_of(text).skip(1), name)
}

proof fn lemma_header_values(
    identity: IdentityView,
    route: ImsRoute,
    ids: IdsView,
    parts: PartsView,
    w: Header,
)
    requires
        all_lines(register_lines(identity, route, ids, parts)),
    ensures
        header_values(register_text(identity, route, ids, parts), name_of(w)) == values_in(
            register_lines(identity, route, ids, parts).skip(1),
            name_of(w),
        ),
{
    let l = register_lines(identity, route, ids, parts);
    let e = Seq::<char>::empty();
    lemma_register_text(identity, route, ids, parts);
    assert(l.push(e).skip(1) =~= l.skip(1) + seq![e]);
    lemma_values_concat(l.skip(1), seq![e], name_of(w));
    assert(seq![e].drop_last() =~= Seq::<Seq<char>>::empty());
    assert(seq![e].last() == e);
    assert(text::index_of(e, ':') == 0);
    assert(value_in_line(e, name_of(w)) is None);
    assert(values_in(seq![e].drop_last(), name_of(w)) == Seq::<Seq<char>>::empty());
    assert(values_in(seq![e], name_of(w)) == Seq::<Seq<char>>::empty());
    let v = values_in(l.skip(1), name_of(w));
    assert(v + Seq::<Seq<char>>::empty() =~= v);
}

proof fn lemma_number_value(n: nat)
    ensures
        trimmed(decimal(n)) == decimal(n),
        trimmed(decimal(n) + " REGISTER"@) == decimal(n) + " REGISTER"@,
{
    reveal_strlit(" REGISTER");
    let d = decimal(n);
    text::lemma_decimal_digits(n);
    assert(is_digit(d[0]) && is_digit(d[d.len() - 1]));
    text::lemma_bare(d);
    let c = d + " REGISTER"@;
    assert(c[0] == d[0] && c.last() == 'R');
    text::lemma_bare(c);
}

/// A REGISTER says, once each, what it was put together from: the call's identifier, its
/// number, how long the registration lasts, the header that authorizes it and the offer and
/// the confirmation of protection, where there are any. It requires security agreement, of
/// the registrar and of the proxy, exactly where the policy says so, and names the P-CSCF
/// as its route exactly where the policy asks for it.
pub proof fn register_is_read_back(
    identity: IdentityView,
    route: ImsRoute,
    ids: IdsView,
    parts: PartsView,
    authorization: Option<Seq<char>>,
)
    requires
        authorizes(parts, authorization),
        all_lines(register_lines(identity, route, ids, parts)),
    ensures
        ({
            let text = register_text(identity, route, ids, parts);
            let policy = parts.policy;
            let none = Seq::<Seq<char>>::empty();
            &&& lines_of(text)[0] == "REGISTER sip:"@ + identity.home_domain + " SIP/2.0"@
            &&& lines_of(text).last().len() == 0
            &&& header_values(text, "Call-ID"@) == seq![trimmed(ids.call_id)]
            &&& header_values(text, "CSeq"@) == seq![decimal(ids.cseq as nat) + " REGISTER"@]
            &&& header_values(text, "Expires"@) == seq![decimal(parts.expires_seconds as nat)]
            &&& header_values(text, "Authorization"@) == (match authorization {
                Some(v) => seq![trimmed(v)],
                None => none,
            })
            &&& header_values(text, "Security-Client"@) == (match parts.security_client {
                Some(v) => seq![trimmed(v)],
                None => none,
            })
            &&& header_values(text, "Security-Verify"@) == (match parts.security_verify {
                Some(v) => seq![trimmed(v)],
                None => none,
            })
            &&& header_values(text, "Require"@) == (if policy.require_sec_agree {
                seq!["sec-agree"@]
            } else {
                none
            })
            &&& header_values(text, "Proxy-Require"@) == (if policy.require_sec_agree
                && policy.proxy_require_sec_agree {
                seq!["sec-agree"@]
            } else {
                none
            })
            &&& header_values(text, "Route"@).len() == (if policy.include_route_header {
                1nat
            } else {
                0nat
            })
        }),
{
    let text = register_text(identity, route, ids, parts);
    lemma_register_text(identity, route, ids, parts);
    lemma_routing(identity, route, ids, parts, Header::Via);
    let l = register_lines(identity, route, ids, parts);
    assert(l.push(Seq::empty())[0] == l[0]);
    assert(l[0] == routing_lines(identity, route, ids, parts.policy)[0]);
    lemma_all_values(identity, route, ids, parts, authorization, Header::CallId);
    lemma_all_values(identity, route, ids, parts, authorization, Header::CSeq);
    lemma_all_values(identity, route, ids, parts, authorization, Header::Expires);
    lemma_all_values(identity, route, ids, parts, authorization, Header::Authorization);
    lemma_all_values(identity, route, ids, parts, authorization, Header::SecurityClient);
    lemma_all_values(identity, route, ids, parts, authorization, Header::SecurityVerify);
    lemma_all_values(identity, route, ids, parts, authorization, Header::Require);
    lemma_all_values(identity, route, ids, parts, authorization, Header::ProxyRequire);
    lemma_all_values(identity, route, ids, parts, authorization, Header::Route);
    lemma_number_value(ids.cseq as nat);
    lemma_number_value(parts.expires_seconds as nat);
    reveal_strlit("sec-agree");
    text::lemma_bare("sec-agree"@);
}

proof fn lemma_all_values(
    identity: IdentityView,
    route: ImsRoute,
    ids: IdsView,
    parts: PartsView,
    value: Option<Seq<char>>,
    w: Header,
)
    requires
        authorizes(parts, value),
        all_lines(register_lines(identity, route, ids, parts)),
    ensures
        ({
            let policy = parts.policy;
            let all = header_values(register_text(identity, route, ids, parts), name_of(w));
            match w {
                Header::Via => all == pick(true, via_value(route, ids)),
                Header::Route => all == pick(policy.include_route_header, route_value(route)),
                Header::From => all == pick(true, from_value(identity, ids)),
                Header::To => all == pick(true, to_value(identity)),
                Header::CallId => all == pick(true, ids.call_id),
                Header::CSeq => all == pick(true, cseq_value(ids)),
                Header::Contact => all == pick(true, contact_value(identity, route, parts)),
                Header::Expires => all == pick(true, decimal(parts.expires_seconds as nat)),
                Header::Require => all == pick(policy.require_sec_agree, "sec-agree"@),
                Header::ProxyRequire => all == pick(
                    policy.require_sec_agree && policy.proxy_require_sec_agree,
                    "sec-agree"@,
                ),
                Header::Authorization => all == opt_pick(true, value),
                Header::SecurityClient => all == opt_pick(true, parts.security_client),
                Header::SecurityVerify => all == opt_pick(true, parts.security_verify),
                _ => true,
            }
        }),
{
    lemma_register_values(identity, route, ids, parts, value, w);
    lemma_header_values(identity, route, ids, parts, w);
}

/// A REGISTER is from the subscriber's identity and for it, under the dialog's tag. It is
/// to be reached at the line's own address, and the P-CSCF is its route.
pub proof fn register_names_the_line(
    identity: IdentityView,
    route: ImsRoute,
    ids: IdsView,
    parts: PartsView,
    authorization: Option<Seq<char>>,
)
    requires
        authorizes(parts, authorization),
        all_lines(register_lines(identity, route, ids, parts)),
        is_atom(identity.public_uri),
        is_atom(ids.from_tag),
        forall|i: int|
            0 <= i < identity.public_uri.len() ==> #[trigger] identity.public_uri[i] != '<'
                && identity.public_uri[i] != '>',
        forall|i: int| 0 <= i < ids.from_tag.len() ==> #[trigger] ids.from_tag[i] != '<',
    ensures
        ({
            let text = register_text(identity, route, ids, parts);
            let from = header_values(text, "From"@);
            let to = header_values(text, "To"@);
            let contact = header_values(text, "Contact"@);
            &&& from.len() == 1
            &&& uri_of(from[0]) == Some(identity.public_uri)
            &&& text::has_suffix(from[0], ";tag="@ + ids.from_tag)
            &&& to.len() == 1
            &&& uri_of(to[0]) == Some(identity.public_uri)
            &&& contact.len() == 1
        }),
{
    lemma_all_values(identity, route, ids, parts, authorization, Header::From);
    lemma_all_values(identity, route, ids, parts, authorization, Header::To);
    lemma_all_values(identity, route, ids, parts, authorization, Header::Contact);
    let u = identity.public_uri;
    let tag = ids.from_tag;
    reveal_strlit("<");
    reveal_strlit(">");
    reveal_strlit(">;tag=");
    reveal_strlit(";tag=");
    let e = Seq::<char>::empty();
    let rest = ";tag="@ + tag;
    assert forall|i: int| 0 <= i < rest.len() implies #[trigger] rest[i] != '<' by {
        if i >= 5 {
            assert(rest[i] == tag[i - 5]);
        }
    }
    addresses_are_read_back(e, u, rest);
    addresses_are_read_back(e, u, e);
    let f = from_value(identity, ids);
    let t = to_value(identity);
    assert(f =~= e + "<"@ + u + ">"@ + rest);
    assert(t =~= e + "<"@ + u + ">"@ + e);
    assert(!is_space(tag[tag.len() - 1]));
    assert(f[0] == '<' && f.last() == tag[tag.len() - 1]);
    assert(t[0] == '<' && t.last() == '>');
    text::lemma_bare(f);
    text::lemma_bare(t);
    assert(f.skip(f.len() - rest.len()) =~= rest);
}

/// The contact of a REGISTER is the line's user at the address and port that the line is
/// reached at; its route is the P-CSCF's address; its Via carries the transaction's branch
/// behind the address that the line sends from.
pub proof fn register_names_its_addresses(
    identity: IdentityView,
    route: ImsRoute,
    ids: IdsView,
    parts: PartsView,
    authorization: Option<Seq<char>>,
)
    requires
        authorizes(parts, authorization),
        all_lines(register_lines(identity, route, ids, parts)),
    ensures
        ({
            let text = register_text(identity, route, ids, parts);
            let contact = header_values(text, "Contact"@);
            let via = header_values(text, "Via"@);
            let hops = header_values(text, "Route"@);
            &&& contact.len() == 1
            &&& exists|v: Seq<char>|
                contact[0] == #[trigger] trimmed(v) && has_prefix(
                    v,
                    "<sip:"@ + identity.contact_user + "@"@ + route.local_addr.text(),
                )
            &&& via.len() == 1
            &&& text::has_part(via[0], route.local_addr.text() + ";branch="@ + ids.branch)
            &&& parts.policy.include_route_header ==> hops == seq![
                "<sip:"@ + route.pcscf_addr.text() + ";lr>"@,
            ]
        }),
{
    lemma_all_values(identity, route, ids, parts, authorization, Header::Via);
    lemma_all_values(identity, route, ids, parts, authorization, Header::Route);
    lemma_all_values(identity, route, ids, parts, authorization, Header::Contact);
    lemma_contact(identity, route, parts, Header::Contact);
    let c = contact_value(identity, route, parts);
    assert(header_values(register_text(identity, route, ids, parts), "Contact"@)[0] == trimmed(c));
    reveal_strlit("SIP/2.0/");
    reveal_strlit(";rport");
    reveal_strlit("<sip:");
    reveal_strlit(";lr>");
    reveal_strlit(" ");
    let v = via_value(route, ids);
    let part = route.local_addr.text() + ";branch="@ + ids.branch;
    let at = 8 + via_transport(route.transport).len() as int + 1;
    assert(v[0] == 'S' && v.last() == 't');
    text::lemma_bare(v);
    assert(v =~= "SIP/2.0/"@ + via_transport(route.transport) + " "@ + part + ";rport"@);
    assert(v.subrange(at, at + part.len()) =~= part);
    assert(text::part_at(v, part, at));
    let r = route_value(route);
    assert(r[0] == '<' && r.last() == '>');
    text::lemma_bare(r);
    assert(r =~= "<sip:"@ + route.pcscf_addr.text() + ";lr>"@);
}

} // verus!
