//! What holds of every registration: how it is protected, what each request carries, and
//! how a refusal is met.

use vstd::prelude::*;
use vstd::string::*;

use crate::auth::{answers, auth_plan, mode_of, PlanView, PreparedAuth};
use crate::auth::answering::authenticated_view;
use crate::auth::AuthenticatedRequest;
use crate::carrier::CarrierProfile;
use crate::channel::ImsRoute;
use crate::connect::registering::initial_view;
use crate::errors::code;
use crate::identity::IdentityView;
use crate::register::request::{IdsView, RegisterPhase, TargetView};
use crate::register::{
    failure_error, profile_variant, register_error, retry_after, FailureView, VariantView,
    VolteInitialAuthorization,
};
use crate::runtime::RegistrationMode;
use crate::security::{
    binding_text, client_offer, first_mechanism, server_binding, spi_of, SecAgree,
    VolteSecurityClientOffer,
};
use crate::session::{associated_of, line_after, refresh_view, LineView};
use crate::sip::{first_parameter, parameter_of, parameter_value};
use crate::text;
use crate::text::{
    decimal, has_prefix, is_digit, is_space, lower, opt, pieces, same_folded, trimmed,
};

verus! {

/// Protected packets go from the line's client port to the registrar's server port, and
/// come from the registrar's client port to the line's server port; the addresses are
/// those of the channel. The line confirms what the registrar offered, and repeats its
/// own offer.
pub proof fn protection_joins_the_ports(
    profile: CarrierProfile,
    servers: Seq<Seq<char>>,
    verify_in_use: Option<Seq<char>>,
    route: ImsRoute,
    offer: SecAgree,
    offered: Seq<char>,
)
    ensures
        ({
            let plan = auth_plan(
                profile,
                servers,
                false,
                false,
                verify_in_use,
                route,
                offer,
                offered,
            );
            plan is Protect ==> {
                &&& plan->send_route.local_addr.port == offer.port_c
                &&& plan->send_route.pcscf_addr.port == plan->server.port_s
                &&& plan->receive_local.port == offer.port_s
                &&& plan->receive_remote.port == plan->server.port_c
                &&& plan->send_route.local_addr.ip == route.local_addr.ip
                &&& plan->receive_local.ip == route.local_addr.ip
                &&& plan->send_route.pcscf_addr.ip == route.pcscf_addr.ip
                &&& plan->receive_remote.ip == route.pcscf_addr.ip
                &&& plan->Protect_security_client == offered
                &&& server_binding(plan->verify) == Some(plan->server)
            }
        }),
{
    crate::auth::protection_mirrors_the_registrar(
        profile,
        servers,
        verify_in_use,
        route,
        offer,
        offered,
    );
}

/// What a prepared answer carries, whatever the plan: where an association is set up the
/// line's offer and the registrar's, and the demand for it; where one is reused its
/// confirmation alone; without protection none of it, and no mode but that of the plan.
pub proof fn prepared_answers_carry_the_plan(
    prepared: PreparedAuth,
    plan: PlanView,
    authorization: Seq<char>,
    before: RegistrationMode,
)
    requires
        answers(prepared, plan, authorization),
    ensures
        prepared.authorization@ == authorization,
        plan is Protect ==> prepared.require_sec_agree && opt(prepared.security_verify) == Some(
            plan->verify,
        ) && opt(prepared.security_client) == Some(plan->Protect_security_client),
        plan is Protect ==> mode_of(plan, before) == RegistrationMode::Ipsec,
        plan is Plain ==> !prepared.require_sec_agree && prepared.security_verify is None
            && prepared.security_client is None && mode_of(plan, before) == RegistrationMode::Udp,
        plan is Reuse ==> prepared.security_client is None && opt(prepared.security_verify)
            == plan->security_verify,
        plan is Reuse ==> (prepared.require_sec_agree <==> plan->security_verify is Some),
        plan is Reuse ==> mode_of(plan, before) == (if plan->security_verify is Some {
            RegistrationMode::Ipsec
        } else {
            RegistrationMode::Udp
        }),
        plan is Resynchronize ==> prepared.security_verify is None && mode_of(plan, before)
            == before,
{
}

/// The first REGISTER goes to the target with the carrier's duration, under the line's own
/// identity and identifiers. It offers security exactly where the carrier has it and has
/// mechanisms for it, and confirms none.
pub proof fn first_register_makes_the_offer(
    profile: CarrierProfile,
    identity: IdentityView,
    route: ImsRoute,
    ids: IdsView,
    variant: VariantView,
    binding: SecAgree,
    target: TargetView,
    sip_instance: Seq<char>,
)
    ensures
        ({
            let request = initial_view(
                profile,
                identity,
                route,
                ids,
                variant,
                binding,
                target,
                sip_instance,
            );
            let carrier = profile.ims.register;
            &&& request.phase == RegisterPhase::Initial
            &&& request.identity == identity
            &&& request.route == route
            &&& request.ids == ids
            &&& request.target == target
            &&& request.parts.expires_seconds == carrier.expires_seconds
            &&& request.parts.security_verify is None
            &&& request.parts.sip_instance == sip_instance
            &&& request.parts.policy == variant.policy
            &&& request.parts.security_client is Some <==> carrier.sec_agree_mode@ != "disabled"@
                && carrier.security_client_mechanisms@.len() > 0
            &&& request.parts.security_client is Some ==> request.parts.security_client->0
                == client_offer(variant.security_client_offer, binding, profile)
        }),
{
}

/// A refresh bears the line's next number under the first request's identifiers. It
/// confirms the protection that is in use, asks for it exactly then, and offers none anew;
/// with no time left it ends the registration.
pub proof fn refresh_confirms_what_is_in_use(
    line: LineView,
    ids: IdsView,
    route: ImsRoute,
    variant: VariantView,
    target: TargetView,
    security_verify: Option<Seq<char>>,
    sip_instance: Seq<char>,
    expires_seconds: u32,
)
    ensures
        ({
            let request = refresh_view(
                line,
                ids,
                route,
                variant,
                target,
                security_verify,
                sip_instance,
                expires_seconds,
            );
            &&& request.phase == RegisterPhase::Refresh
            &&& request.identity == line.identity
            &&& request.route == route
            &&& request.target == target
            &&& request.ids.call_id == ids.call_id
            &&& request.ids.from_tag == ids.from_tag
            &&& request.ids.cseq == line.next_register_cseq
            &&& request.parts.expires_seconds == expires_seconds
            &&& request.parts.security_verify == security_verify
            &&& request.parts.security_client is None
            &&& request.parts.policy.require_sec_agree <==> security_verify is Some
            &&& request.parts.policy.include_mmtel_features
                == variant.policy.include_mmtel_features
            &&& request.parts.policy.include_video_feature == variant.policy.include_video_feature
            &&& request.parts.sip_instance == sip_instance
        }),
{
}

/// The request that answers a challenge carries the answer and what was agreed on, under
/// the first request's identifiers and its own number.
pub proof fn authenticated_register_carries_the_answer(
    target: TargetView,
    identity: IdentityView,
    route: ImsRoute,
    ids: IdsView,
    request: AuthenticatedRequest,
    sip_instance: Seq<char>,
)
    ensures
        ({
            let built = authenticated_view(target, identity, route, ids, request, sip_instance);
            &&& built.phase == RegisterPhase::Authenticated
            &&& built.target == target
            &&& built.identity == identity
            &&& built.route == route
            &&& built.ids.call_id == ids.call_id && built.ids.from_tag == ids.from_tag
            &&& built.ids.cseq == request.cseq
            &&& built.parts.expires_seconds == request.expires_seconds
            &&& built.parts.authorization == Some(request.prepared.authorization@)
            &&& built.parts.security_client == opt(request.prepared.security_client)
            &&& built.parts.security_verify == opt(request.prepared.security_verify)
            &&& built.parts.policy == request.policy
        }),
{
}

/// What the registrar gave is what the line goes by: the identity that it puts first
/// becomes the line's, the others are kept, and the next request bears a number above all
/// that were used.
pub proof fn registered_lines_follow_the_registrar(
    identity: IdentityView,
    cseq: u32,
    response: Seq<u8>,
    auth_rounds: u8,
)
    ensures
        ({
            let line = line_after(identity, cseq, response, auth_rounds);
            let given = associated_of(response);
            &&& line.associated_uris == given
            &&& given.len() > 0 ==> line.identity.public_uri == given[0]
            &&& given.len() == 0 ==> line.identity == identity
            &&& cseq < 0xffff_ff00 ==> line.next_register_cseq > cseq + auth_rounds
        }),
{
}

// ---------------------------------------------------------------------------
// The carrier's word and the registrar's refusals.

/// The way to register follows the carrier's profile: security agreement is required where
/// the carrier requires it and never where it is disabled, and each feature is carried
/// exactly where the profile names it.
pub proof fn profile_decides_the_way(profile: CarrierProfile)
    ensures
        ({
            let carrier = profile.ims.register;
            let way = profile_variant(profile);
            &&& carrier.sec_agree_mode@ == "disabled"@ ==> !way.policy.require_sec_agree
                && !way.policy.advertise_sec_agree
            &&& carrier.sec_agree_mode@ == "required"@ ==> way.policy.require_sec_agree
            &&& carrier.sec_agree_mode@ != "disabled"@ && carrier.require_sec_agree_headers
                ==> way.policy.require_sec_agree
            &&& way.policy.require_sec_agree ==> carrier.sec_agree_mode@ == "required"@
                || carrier.require_sec_agree_headers
            &&& way.server_required_sec_agree == way.policy.require_sec_agree
            &&& way.policy.proxy_require_sec_agree == carrier.proxy_require_sec_agree_headers
            &&& way.policy.include_mmtel_features == carrier.include_mmtel_features
            &&& way.policy.include_route_header == carrier.include_route_header
            &&& way.policy.include_visited_network == carrier.include_visited_network
            &&& !way.policy.include_video_feature
            &&& way.label == carrier.live_header_variant_set@
            &&& way.security_client_offer == VolteSecurityClientOffer::Full
            &&& carrier.initial_authorization@ == "aka_empty"@ ==> way.authorization
                == VolteInitialAuthorization::UriFirstEmptyAka
            &&& way.authorization == VolteInitialAuthorization::UriFirstEmptyAka ==> (
            carrier.initial_authorization@ == "aka_empty"@ || carrier.initial_authorization@
                == "digest_empty"@ || carrier.initial_authorization@ == "implementation_variant"@)
        }),
{
    reveal_strlit("disabled");
    reveal_strlit("required");
    assert("disabled"@[0] != "required"@[0]);
}

/// How each refusal is met. A registrar that asks for security agreement, of a request
/// without, gets a request that requires it of registrar and proxy. A request with it that
/// is malformed to the registrar is written otherwise, and at last without the demand on
/// the proxy; each of these only for a first request. Any other refusal is final, unless
/// another way is left.
pub proof fn refusals_are_met(variant: VariantView, failure: FailureView, more: bool)
    ensures
        ({
            let next = retry_after(variant, failure, more);
            let first = failure.auth_rounds == 0;
            let asked = first && failure.status() == Some(421u16) && failure.asks_sec_agree();
            let malformed = first && failure.status() == Some(400u16);
            let full = variant.server_required_sec_agree && variant.policy.require_sec_agree
                && variant.policy.proxy_require_sec_agree;
            &&& !variant.policy.require_sec_agree && asked ==> next is Again && {
                let way = next->Again_0;
                &&& way.policy.require_sec_agree && way.policy.proxy_require_sec_agree
                &&& way.policy.advertise_sec_agree && way.server_required_sec_agree
                &&& way.security_client_offer == variant.security_client_offer
            }
            &&& full && malformed ==> next is Again && {
                let way = next->Again_0;
                match variant.security_client_offer {
                    VolteSecurityClientOffer::Full => way.security_client_offer
                        == VolteSecurityClientOffer::FullSpaced && way.policy == variant.policy,
                    VolteSecurityClientOffer::FullSpaced => way.security_client_offer
                        == VolteSecurityClientOffer::Compact && way.policy == variant.policy,
                    VolteSecurityClientOffer::Compact => !way.policy.proxy_require_sec_agree
                        && way.policy.require_sec_agree && way.security_client_offer
                        == VolteSecurityClientOffer::Compact,
                }
            }
            &&& !first ==> next is GiveUp
            &&& first && failure.status() != Some(421u16) && failure.status() != Some(400u16)
                ==> next is GiveUp
            &&& next is Next ==> more
            &&& malformed && !full && more ==> next is Next
            &&& !more ==> next is Again || next is GiveUp
        }),
{
}

/// An error says at which stage it came: what goes wrong with the first request is told
/// apart from what goes wrong with the answer, and a final status is part of it.
pub proof fn register_errors_name_their_stage(failure: FailureView)
    ensures
        register_error("ims_register_initial_send_failed"@).code
            == code::REGISTER_INITIAL_UNEXPECTED_STATUS@,
        register_error("ims_register_initial_receive_failed"@).code
            == code::REGISTER_INITIAL_UNEXPECTED_STATUS@,
        register_error("ims_register_authenticated_receive_failed"@).code
            == code::REGISTER_AUTH_UNEXPECTED_STATUS@,
        failure_error(failure).code == register_error(failure.error).code,
        failure_error(failure).detail is Some,
        has_prefix(failure_error(failure).detail->0, failure.error),
        failure.error == "ims_register_initial_unexpected_status"@ && failure.status() is Some
            ==> text::has_suffix(
            failure_error(failure).detail->0,
            "sip_status="@ + decimal(failure.status()->0 as nat),
        ),
{
    reveal_strlit("ims_register_authenticated_receive_failed");
    reveal_strlit("ims_register_initial_send_failed");
    reveal_strlit("ims_register_initial_receive_failed");
    reveal_strlit("ims_register_initial_unexpected_status");
    assert("ims_register_authenticated_receive_failed"@.len() == 41);
    let detail = failure_error(failure).detail->0;
    assert(detail.take(failure.error.len() as int) =~= failure.error);
    if failure.error == "ims_register_initial_unexpected_status"@ && failure.status() is Some {
        reveal_strlit(":sip_status=");
        reveal_strlit("sip_status=");
        let tail = "sip_status="@ + decimal(failure.status()->0 as nat);
        assert(detail.skip(detail.len() - tail.len()) =~= tail);
    }
}

/// An SPI is never zero, and its decimal digits are at most eight.
pub proof fn offered_numbers_can_be_used(random: u32)
    ensures
        spi_of(random) > 0,
        spi_of(random) < 100_000_000,
        0 < random < 100_000_000 ==> spi_of(random) == random,
{
}

// ---------------------------------------------------------------------------
// The line's own offer.

/// A text that stands in a parameter as it is.
pub open spec fn plain_value(s: Seq<char>) -> bool {
    &&& s.len() > 0
    &&& forall|i: int|
        0 <= i < s.len() ==> #[trigger] s[i] != ';' && s[i] != '=' && s[i] != '"' && !is_space(s[i])
}

spec fn gap(spaced: bool) -> Seq<char> {
    if spaced {
        seq![' ']
    } else {
        Seq::empty()
    }
}

spec fn param(spaced: bool, name: Seq<char>, value: Seq<char>) -> Seq<char> {
    gap(spaced) + name + seq!['='] + value
}

proof fn lemma_param(spaced: bool, name: Seq<char>, value: Seq<char>, wanted: Seq<char>)
    requires
        plain_value(name),
        plain_value(value),
    ensures
        parameter_value(param(spaced, name, value), wanted) == (if same_folded(name, wanted) {
            Some(value)
        } else {
            None
        }),
        forall|i: int|
            0 <= i < param(spaced, name, value).len() ==> #[trigger] param(spaced, name, value)[i]
                != ';',
{
    let p = param(spaced, name, value);
    let body = name + seq!['='] + value;
    assert(body[0] == name[0] && body.last() == value.last());
    assert(value[value.len() - 1] == value.last());
    assert(text::trim_start(body) == body);
    assert(text::trim_end(body) == body);
    if spaced {
        assert(p =~= seq![' '] + body);
        assert(p.drop_first() =~= body);
        assert(text::trim_start(p) == body);
    } else {
        assert(p =~= body);
    }
    assert(trimmed(p) == body);
    text::lemma_first_piece(name, '=', value);
    assert(trimmed(value) == value);
    assert(text::strip_start(value, '"') == value);
    assert(text::strip_end(value, '"') == value);
    assert forall|i: int| 0 <= i < p.len() implies #[trigger] p[i] != ';' by {
        let g = gap(spaced).len();
        if i < g {
        } else if i < g + name.len() {
            assert(p[i] == name[i - g]);
        } else if i > g + name.len() {
            assert(p[i] == value[i - g - name.len() - 1]);
        }
    }
}

spec fn params_text(spaced: bool, names: Seq<Seq<char>>, values: Seq<Seq<char>>) -> Seq<char>
    decreases names.len(),
{
    if names.len() == 0 {
        Seq::empty()
    } else {
        seq![';'] + param(spaced, names[0], values[0]) + params_text(
            spaced,
            names.drop_first(),
            values.drop_first(),
        )
    }
}

spec fn plain_all(list: Seq<Seq<char>>) -> bool {
    forall|i: int| 0 <= i < list.len() ==> plain_value(#[trigger] list[i])
}

proof fn lemma_params(
    spaced: bool,
    head: Seq<char>,
    names: Seq<Seq<char>>,
    values: Seq<Seq<char>>,
)
    requires
        names.len() == values.len(),
        plain_all(names),
        plain_all(values),
        forall|i: int| 0 <= i < head.len() ==> #[trigger] head[i] != ';',
    ensures
        ({
            let p = pieces(head + params_text(spaced, names, values), ';');
            &&& p.len() == names.len() + 1
            &&& forall|i: int|
                0 <= i < names.len() ==> #[trigger] p[i + 1] == param(spaced, names[i], values[i])
        }),
    decreases names.len(),
{
    let text = head + params_text(spaced, names, values);
    if names.len() == 0 {
        assert(text =~= head);
        text::lemma_no_separator(head, ';');
    } else {
        let first = param(spaced, names[0], values[0]);
        let n = names.drop_first();
        let v = values.drop_first();
        assert(plain_value(names[0]) && plain_value(values[0]));
        lemma_param(spaced, names[0], values[0], names[0]);
        assert forall|i: int| 0 <= i < n.len() implies plain_value(#[trigger] n[i]) by {
            assert(n[i] == names[i + 1]);
        }
        assert forall|i: int| 0 <= i < v.len() implies plain_value(#[trigger] v[i]) by {
            assert(v[i] == values[i + 1]);
        }
        lemma_params(spaced, first, n, v);
        let rest = first + params_text(spaced, n, v);
        assert(text =~= head + seq![';'] + rest);
        text::lemma_first_piece(head, ';', rest);
        let p = pieces(text, ';');
        let q = pieces(rest, ';');
        assert(p =~= seq![head] + q);
        assert(q[0] == first) by {
            if n.len() == 0 {
                assert(rest =~= first);
                text::lemma_no_separator(first, ';');
            } else {
                let more = param(spaced, n[0], v[0]) + params_text(
                    spaced,
                    n.drop_first(),
                    v.drop_first(),
                );
                assert(rest =~= first + seq![';'] + more);
                text::lemma_first_piece(first, ';', more);
            }
        }
        assert forall|i: int| 0 <= i < names.len() implies #[trigger] p[i + 1] == param(
            spaced,
            names[i],
            values[i],
        ) by {
            assert(p[i + 1] == q[i]);
            if i > 0 {
                assert(q[(i - 1) + 1] == param(spaced, n[i - 1], v[i - 1]));
            }
        }
    }
}

proof fn lemma_first_parameter(
    spaced: bool,
    p: Seq<Seq<char>>,
    names: Seq<Seq<char>>,
    values: Seq<Seq<char>>,
    k: int,
)
    requires
        names.len() == values.len(),
        p.len() == names.len(),
        plain_all(names),
        plain_all(values),
        0 <= k < names.len(),
        forall|i: int| 0 <= i < p.len() ==> #[trigger] p[i] == param(spaced, names[i], values[i]),
        forall|i: int| 0 <= i < k ==> !same_folded(#[trigger] names[i], names[k]),
    ensures
        first_parameter(p, names[k]) == Some(values[k]),
    decreases k,
{
    assert(plain_value(names[0]) && plain_value(values[0]));
    lemma_param(spaced, names[0], values[0], names[k]);
    assert(p[0] == param(spaced, names[0], values[0]));
    if k > 0 {
        let q = p.drop_first();
        let n = names.drop_first();
        let v = values.drop_first();
        assert(!same_folded(names[0], names[k]));
        assert forall|i: int| 0 <= i < n.len() implies plain_value(#[trigger] n[i]) by {
            assert(n[i] == names[i + 1]);
        }
        assert forall|i: int| 0 <= i < v.len() implies plain_value(#[trigger] v[i]) by {
            assert(v[i] == values[i + 1]);
        }
        assert forall|i: int| 0 <= i < q.len() implies #[trigger] q[i] == param(
            spaced,
            n[i],
            v[i],
        ) by {
            assert(q[i] == p[i + 1]);
        }
        assert forall|i: int| 0 <= i < k - 1 implies !same_folded(#[trigger] n[i], n[k - 1]) by {
            assert(n[i] == names[i + 1]);
        }
        lemma_first_parameter(spaced, q, n, v, k - 1);
    }
}

spec fn offer_names(compact: bool) -> Seq<Seq<char>> {
    if compact {
        seq!["alg"@, "ealg"@, "spi-c"@, "spi-s"@, "port-c"@, "port-s"@]
    } else {
        seq!["alg"@, "ealg"@, "prot"@, "mod"@, "spi-c"@, "spi-s"@, "port-c"@, "port-s"@]
    }
}

spec fn offer_values(compact: bool, m: Seq<Seq<char>>, b: SecAgree) -> Seq<Seq<char>> {
    let c = decimal(b.spi_c as nat);
    let s = decimal(b.spi_s as nat);
    let pc = decimal(b.port_c as nat);
    let ps = decimal(b.port_s as nat);
    if compact {
        seq![m[0], m[1], c, s, pc, ps]
    } else {
        seq![m[0], m[1], m[2], m[3], c, s, pc, ps]
    }
}

proof fn lemma_offer_names(compact: bool)
    ensures
        plain_all(offer_names(compact)),
        forall|i: int, j: int|
            0 <= i < j < offer_names(compact).len() ==> !same_folded(
                #[trigger] offer_names(compact)[i],
                #[trigger] offer_names(compact)[j],
            ),
{
    reveal_strlit("alg");
    reveal_strlit("ealg");
    reveal_strlit("prot");
    reveal_strlit("mod");
    reveal_strlit("spi-c");
    reveal_strlit("spi-s");
    reveal_strlit("port-c");
    reveal_strlit("port-s");
    let names = offer_names(compact);
    assert forall|i: int, j: int| 0 <= i < j < names.len() implies !same_folded(
        #[trigger] names[i],
        #[trigger] names[j],
    ) by {
        let a = names[i];
        let b = names[j];
        if same_folded(a, b) {
            assert(lower(a).len() == lower(b).len());
            assert(lower(a)[0] == lower(b)[0]);
            assert(lower(a)[a.len() - 1] == lower(b)[b.len() - 1]);
        }
    }
}

proof fn lemma_number(n: nat)
    ensures
        plain_value(decimal(n)),
{
    text::lemma_decimal_digits(n);
    let d = decimal(n);
    assert forall|i: int| 0 <= i < d.len() implies #[trigger] d[i] != ';' && d[i] != '=' && d[i]
        != '"' && !is_space(d[i]) by {
        assert(is_digit(d[i]));
    }
}

proof fn lemma_step(
    spaced: bool,
    names: Seq<Seq<char>>,
    values: Seq<Seq<char>>,
    k: int,
    head: Seq<char>,
    sep: Seq<char>,
    label: Seq<char>,
)
    requires
        names.len() == values.len(),
        0 <= k < names.len(),
        sep == seq![';'] + gap(spaced),
        label == names[k] + seq!['='],
    ensures
        head + params_tail(spaced, names, values, k) == head + sep + label + values[k]
            + params_tail(spaced, names, values, k + 1),
{
    lemma_unfold(spaced, names, values, k);
    let tail = params_tail(spaced, names, values, k + 1);
    assert(head + (seq![';'] + param(spaced, names[k], values[k]) + tail) =~= head + sep + label
        + values[k] + tail);
}

proof fn lemma_regroup(
    head: Seq<char>,
    body: Seq<char>,
    sep: Seq<char>,
    label: Seq<char>,
    value: Seq<char>,
)
    ensures
        head + (body + sep + label + value) == head + body + sep + label + value,
{
    assert(head + (body + sep + label + value) =~= head + body + sep + label + value);
}

proof fn lemma_bound(head: Seq<char>, binding: SecAgree, sep: Seq<char>)
    ensures
        head + binding_text(binding, sep) == head + sep + "spi-c="@ + decimal(
            binding.spi_c as nat,
        ) + sep + "spi-s="@ + decimal(binding.spi_s as nat) + sep + "port-c="@ + decimal(
            binding.port_c as nat,
        ) + sep + "port-s="@ + decimal(binding.port_s as nat),
{
    let c = decimal(binding.spi_c as nat);
    let s = decimal(binding.spi_s as nat);
    let pc = decimal(binding.port_c as nat);
    let ps = decimal(binding.port_s as nat);
    let first = sep + "spi-c="@ + c;
    let second = first + sep + "spi-s="@ + s;
    let third = second + sep + "port-c="@ + pc;
    lemma_regroup(head, third, sep, "port-s="@, ps);
    lemma_regroup(head, second, sep, "port-c="@, pc);
    lemma_regroup(head, first, sep, "spi-s="@, s);
    assert(head + first =~= head + sep + "spi-c="@ + c);
}

proof fn lemma_labels()
    ensures
        "alg="@ == "alg"@ + seq!['='],
        "ealg="@ == "ealg"@ + seq!['='],
        "prot="@ == "prot"@ + seq!['='],
        "mod="@ == "mod"@ + seq!['='],
        "spi-c="@ == "spi-c"@ + seq!['='],
        "spi-s="@ == "spi-s"@ + seq!['='],
        "port-c="@ == "port-c"@ + seq!['='],
        "port-s="@ == "port-s"@ + seq!['='],
        ";"@ == seq![';'] + gap(false),
        "; "@ == seq![';'] + gap(true),
{
    reveal_strlit(";");
    reveal_strlit("; ");
    reveal_strlit("alg=");
    reveal_strlit("ealg=");
    reveal_strlit("prot=");
    reveal_strlit("mod=");
    reveal_strlit("spi-c=");
    reveal_strlit("spi-s=");
    reveal_strlit("port-c=");
    reveal_strlit("port-s=");
    reveal_strlit("alg");
    reveal_strlit("ealg");
    reveal_strlit("prot");
    reveal_strlit("mod");
    reveal_strlit("spi-c");
    reveal_strlit("spi-s");
    reveal_strlit("port-c");
    reveal_strlit("port-s");
    assert("alg="@ =~= "alg"@ + seq!['=']);
    assert("ealg="@ =~= "ealg"@ + seq!['=']);
    assert("prot="@ =~= "prot"@ + seq!['=']);
    assert("mod="@ =~= "mod"@ + seq!['=']);
    assert("spi-c="@ =~= "spi-c"@ + seq!['=']);
    assert("spi-s="@ =~= "spi-s"@ + seq!['=']);
    assert("port-c="@ =~= "port-c"@ + seq!['=']);
    assert("port-s="@ =~= "port-s"@ + seq!['=']);
    assert(";"@ =~= seq![';'] + gap(false));
    assert("; "@ =~= seq![';'] + gap(true));
}

proof fn lemma_offer_text(
    form: VolteSecurityClientOffer,
    binding: SecAgree,
    profile: CarrierProfile,
)
    requires
        pieces(first_mechanism(profile), '/').len() == 4,
    ensures
        client_offer(form, binding, profile) == "ipsec-3gpp"@ + params_text(
            form == VolteSecurityClientOffer::FullSpaced,
            offer_names(form == VolteSecurityClientOffer::Compact),
            offer_values(
                form == VolteSecurityClientOffer::Compact,
                pieces(first_mechanism(profile), '/'),
                binding,
            ),
        ),
{
    let spaced = form == VolteSecurityClientOffer::FullSpaced;
    let compact = form == VolteSecurityClientOffer::Compact;
    let m = pieces(first_mechanism(profile), '/');
    let names = offer_names(compact);
    let values = offer_values(compact, m, binding);
    let n = names.len() as int;
    let o = n - 4;
    lemma_labels();
    let sep = if spaced {
        "; "@
    } else {
        ";"@
    };
    let head = "ipsec-3gpp"@;
    assert(names.skip(0) =~= names && values.skip(0) =~= values);
    lemma_step(spaced, names, values, 0, head, sep, "alg="@);
    let a = head + sep + "alg="@ + m[0];
    lemma_step(spaced, names, values, 1, a, sep, "ealg="@);
    let b = a + sep + "ealg="@ + m[1];
    let d = if compact {
        b
    } else {
        lemma_step(spaced, names, values, 2, b, sep, "prot="@);
        let c = b + sep + "prot="@ + m[2];
        lemma_step(spaced, names, values, 3, c, sep, "mod="@);
        c + sep + "mod="@ + m[3]
    };
    assert(head + params_text(spaced, names, values) == d + params_tail(spaced, names, values, o));
    lemma_step(spaced, names, values, o, d, sep, "spi-c="@);
    let e = d + sep + "spi-c="@ + values[o];
    lemma_step(spaced, names, values, o + 1, e, sep, "spi-s="@);
    let f = e + sep + "spi-s="@ + values[o + 1];
    lemma_step(spaced, names, values, o + 2, f, sep, "port-c="@);
    let g = f + sep + "port-c="@ + values[o + 2];
    lemma_step(spaced, names, values, o + 3, g, sep, "port-s="@);
    let h = g + sep + "port-s="@ + values[o + 3];
    assert(names.skip(n).len() == 0);
    assert(h + params_tail(spaced, names, values, n) =~= h);
    lemma_bound(d, binding, sep);
    assert(client_offer(form, binding, profile) == d + binding_text(binding, sep));
}

spec fn params_tail(
    spaced: bool,
    names: Seq<Seq<char>>,
    values: Seq<Seq<char>>,
    k: int,
) -> Seq<char> {
    params_text(spaced, names.skip(k), values.skip(k))
}

proof fn lemma_unfold(spaced: bool, names: Seq<Seq<char>>, values: Seq<Seq<char>>, k: int)
    requires
        names.len() == values.len(),
        0 <= k < names.len(),
    ensures
        params_tail(spaced, names, values, k) == seq![';'] + param(spaced, names[k], values[k])
            + params_tail(spaced, names, values, k + 1),
{
    assert(names.skip(k).drop_first() =~= names.skip(k + 1));
    assert(values.skip(k).drop_first() =~= values.skip(k + 1));
}

/// The line's offer, read with the reader of the registrar's, is the line's binding: its
/// two SPIs and its two ports, each under its own name. It names the carrier's first
/// mechanism: its algorithms in every form, its protocol and mode in the full ones.
pub proof fn offer_is_read_back(
    form: VolteSecurityClientOffer,
    binding: SecAgree,
    profile: CarrierProfile,
)
    requires
        pieces(first_mechanism(profile), '/').len() == 4,
        forall|i: int|
            0 <= i < 4 ==> plain_value(#[trigger] pieces(first_mechanism(profile), '/')[i]),
    ensures
        ({
            let m = pieces(first_mechanism(profile), '/');
            let value = client_offer(form, binding, profile);
            &&& has_prefix(value, "ipsec-3gpp;"@)
            &&& server_binding(value) == Some(binding)
            &&& parameter_of(value, "alg"@) == Some(m[0])
            &&& parameter_of(value, "ealg"@) == Some(m[1])
            &&& form != VolteSecurityClientOffer::Compact ==> parameter_of(value, "prot"@) == Some(
                m[2],
            ) && parameter_of(value, "mod"@) == Some(m[3])
        }),
{
    let spaced = form == VolteSecurityClientOffer::FullSpaced;
    let compact = form == VolteSecurityClientOffer::Compact;
    let m = pieces(first_mechanism(profile), '/');
    let names = offer_names(compact);
    let values = offer_values(compact, m, binding);
    let value = client_offer(form, binding, profile);
    lemma_offer_text(form, binding, profile);
    lemma_offer_names(compact);
    lemma_number(binding.spi_c as nat);
    lemma_number(binding.spi_s as nat);
    lemma_number(binding.port_c as nat);
    lemma_number(binding.port_s as nat);
    text::number_reads_decimal(binding.spi_c as nat, 0xffff_ffff);
    text::number_reads_decimal(binding.spi_s as nat, 0xffff_ffff);
    text::number_reads_decimal(binding.port_c as nat, 0xffff);
    text::number_reads_decimal(binding.port_s as nat, 0xffff);
    assert(plain_value(m[0]) && plain_value(m[1]) && plain_value(m[2]) && plain_value(m[3]));
    assert(plain_all(values));
    reveal_strlit("ipsec-3gpp");
    reveal_strlit("ipsec-3gpp;");
    lemma_params(spaced, "ipsec-3gpp"@, names, values);
    lemma_unfold(spaced, names, values, 0);
    assert(names.skip(0) =~= names && values.skip(0) =~= values);
    assert(value.take(11) =~= "ipsec-3gpp;"@);
    let p = pieces(value, ';').skip(1);
    assert forall|i: int| 0 <= i < p.len() implies #[trigger] p[i] == param(
        spaced,
        names[i],
        values[i],
    ) by {
        assert(p[i] == pieces(value, ';')[i + 1]);
    }
    let o: int = if compact {
        2
    } else {
        4
    };
    lemma_first_parameter(spaced, p, names, values, 0);
    lemma_first_parameter(spaced, p, names, values, 1);
    lemma_first_parameter(spaced, p, names, values, o);
    lemma_first_parameter(spaced, p, names, values, o + 1);
    lemma_first_parameter(spaced, p, names, values, o + 2);
    lemma_first_parameter(spaced, p, names, values, o + 3);
    if !compact {
        lemma_first_parameter(spaced, p, names, values, 2);
        lemma_first_parameter(spaced, p, names, values, 3);
    }
}

} // verus!
