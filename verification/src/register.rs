//! REGISTER: which request to try, what a failure means, and which request to
//! try next.

use vstd::prelude::*;
use vstd::string::*;

use crate::carrier::CarrierProfile;
use crate::errors::{code, detailed, failure, ErrorView, VolteError};
use crate::security::VolteSecurityClientOffer;
use crate::sip;
use crate::sip::{requires_only, status_opt};
use crate::text;
use crate::text::{decimal, has_part, pieces, same_folded, texts, trimmed};

pub mod agreeing;
pub mod request;
pub mod written;

verus! {

/// An error of the access-independent IMS layer.
#[derive(Debug, Clone, Copy, PartialEq, Eq)]
pub struct ImsError {
    pub code: &'static str,
}

impl ImsError {
    pub fn new(code: &'static str) -> (r: Self)
        ensures
            r.code@ == code@,
    {
        ImsError { code }
    }

    pub fn code(&self) -> (r: &'static str)
        ensures
            r@ == self.code@,
    {
        self.code
    }
}

/// An error as the access-independent layer reports it.
pub fn to_ims_error(error: &VolteError) -> (r: ImsError)
    ensures
        r.code@ == error@.code,
{
    ImsError::new(error.code())
}

/// An error of the SIP channel.
pub fn map_channel_error(error: ImsError) -> (r: VolteError)
    ensures
        r@ == detailed(code::IPSEC_UDP_BIND_FAILED@, error.code@),
{
    VolteError::with_detail(code::IPSEC_UDP_BIND_FAILED, error.code())
}

/// What a REGISTER request carries.
#[derive(Debug, Clone, Copy, PartialEq, Eq, Structural)]
pub struct RegisterRequestPolicy {
    pub advertise_sec_agree: bool,
    pub require_sec_agree: bool,
    pub proxy_require_sec_agree: bool,
    pub include_mmtel_features: bool,
    pub include_video_feature: bool,
    pub include_route_header: bool,
    pub include_visited_network: bool,
}

/// The request shape that is known to complete registration with security
/// agreement and SMS alone.
pub open spec fn legacy_policy() -> RegisterRequestPolicy {
    RegisterRequestPolicy {
        advertise_sec_agree: true,
        require_sec_agree: true,
        proxy_require_sec_agree: true,
        include_mmtel_features: false,
        include_video_feature: false,
        include_route_header: false,
        include_visited_network: false,
    }
}

/// The request shape with the multimedia telephony features.
pub open spec fn features_policy() -> RegisterRequestPolicy {
    RegisterRequestPolicy {
        advertise_sec_agree: true,
        require_sec_agree: false,
        proxy_require_sec_agree: false,
        include_mmtel_features: true,
        include_video_feature: false,
        include_route_header: true,
        include_visited_network: true,
    }
}

impl RegisterRequestPolicy {
    /// The request shape that is known to complete registration.
    pub fn legacy() -> (r: Self)
        ensures
            r == legacy_policy(),
    {
        RegisterRequestPolicy {
            advertise_sec_agree: true,
            require_sec_agree: true,
            proxy_require_sec_agree: true,
            include_mmtel_features: false,
            include_video_feature: false,
            include_route_header: false,
            include_visited_network: false,
        }
    }

    /// The request shape with the multimedia telephony features.
    pub fn features() -> (r: Self)
        ensures
            r == features_policy(),
    {
        RegisterRequestPolicy {
            advertise_sec_agree: true,
            require_sec_agree: false,
            proxy_require_sec_agree: false,
            include_mmtel_features: true,
            include_video_feature: false,
            include_route_header: true,
            include_visited_network: true,
        }
    }
}

/// The Authorization header of the first REGISTER.
#[derive(Debug, Clone, Copy, PartialEq, Eq, Structural)]
pub enum VolteInitialAuthorization {
    UriFirstEmptyAka,
    /// The request goes without one.
    Absent,
}

impl VolteInitialAuthorization {
    pub fn label(self) -> (r: &'static str)
        ensures
            r@ == (match self {
                VolteInitialAuthorization::UriFirstEmptyAka => "aka_empty_uri_first"@,
                VolteInitialAuthorization::Absent => "none"@,
            }),
    {
        match self {
            VolteInitialAuthorization::UriFirstEmptyAka => "aka_empty_uri_first",
            VolteInitialAuthorization::Absent => "none",
        }
    }

    /// The header, where the variant has one: an empty AKA response whose URI
    /// comes first.
    pub fn build(self, realm: &str, private_user: &str, request_uri: &str) -> (r: Option<String>)
        ensures
            match (self, r) {
                (VolteInitialAuthorization::UriFirstEmptyAka, Some(header)) => header@
                    == empty_aka_header(realm@, private_user@, request_uri@),
                (VolteInitialAuthorization::Absent, None) => true,
                _ => false,
            },
    {
        match self {
            VolteInitialAuthorization::UriFirstEmptyAka => {
                let mut out = "Authorization: Digest uri=\"".to_string();
                out.append(request_uri);
                out.append("\",username=\"");
                out.append(private_user);
                out.append("\",realm=\"");
                out.append(realm);
                out.append("\",nonce=\"\",response=\"\",algorithm=AKAv1-MD5");
                Some(out)
            },
            VolteInitialAuthorization::Absent => None,
        }
    }
}

pub open spec fn empty_aka_header(
    realm: Seq<char>,
    private_user: Seq<char>,
    request_uri: Seq<char>,
) -> Seq<char> {
    "Authorization: Digest uri=\""@ + request_uri + "\",username=\""@ + private_user
        + "\",realm=\""@ + realm + "\",nonce=\"\",response=\"\",algorithm=AKAv1-MD5"@
}

/// One way to register.
#[derive(Debug, Clone, Copy, PartialEq, Eq)]
pub struct VolteRegisterVariant {
    pub label: &'static str,
    pub authorization: VolteInitialAuthorization,
    pub policy: RegisterRequestPolicy,
    pub server_required_sec_agree: bool,
    pub security_client_offer: VolteSecurityClientOffer,
}

pub struct VariantView {
    pub label: Seq<char>,
    pub authorization: VolteInitialAuthorization,
    pub policy: RegisterRequestPolicy,
    pub server_required_sec_agree: bool,
    pub security_client_offer: VolteSecurityClientOffer,
}

impl View for VolteRegisterVariant {
    type V = VariantView;

    open spec fn view(&self) -> VariantView {
        VariantView {
            label: self.label@,
            authorization: self.authorization,
            policy: self.policy,
            server_required_sec_agree: self.server_required_sec_agree,
            security_client_offer: self.security_client_offer,
        }
    }
}

pub open spec fn label_for(
    authorization: VolteInitialAuthorization,
    with_aka: Seq<char>,
    without: Seq<char>,
) -> Seq<char> {
    match authorization {
        VolteInitialAuthorization::UriFirstEmptyAka => with_aka,
        VolteInitialAuthorization::Absent => without,
    }
}

impl VariantView {
    /// The same way with security agreement required of registrar and proxy.
    pub open spec fn required(self) -> VariantView {
        VariantView {
            label: label_for(
                self.authorization,
                "ims_features_aka_uri_first_sec_agree_required"@,
                "ims_features_no_initial_authorization_sec_agree_required"@,
            ),
            policy: RegisterRequestPolicy {
                advertise_sec_agree: true,
                require_sec_agree: true,
                proxy_require_sec_agree: true,
                ..self.policy
            },
            server_required_sec_agree: true,
            ..self
        }
    }

    /// The same way without the demand on the proxy.
    pub open spec fn required_only(self) -> VariantView {
        VariantView {
            label: label_for(
                self.authorization,
                "ims_features_aka_uri_first_sec_agree_require_only"@,
                "ims_features_no_initial_authorization_sec_agree_require_only"@,
            ),
            policy: RegisterRequestPolicy {
                require_sec_agree: true,
                proxy_require_sec_agree: false,
                ..self.policy
            },
            ..self
        }
    }

    /// The same way with a short Security-Client header.
    pub open spec fn compact(self) -> VariantView {
        VariantView {
            label: label_for(
                self.authorization,
                "ims_features_aka_uri_first_sec_agree_compact_security"@,
                "ims_features_no_initial_authorization_sec_agree_compact_security"@,
            ),
            security_client_offer: VolteSecurityClientOffer::Compact,
            ..self
        }
    }

    /// The same way with a spaced Security-Client header.
    pub open spec fn spaced(self) -> VariantView {
        VariantView {
            label: label_for(
                self.authorization,
                "ims_features_aka_uri_first_sec_agree_spaced_security"@,
                "ims_features_no_initial_authorization_sec_agree_spaced_security"@,
            ),
            security_client_offer: VolteSecurityClientOffer::FullSpaced,
            ..self
        }
    }
}

impl VolteRegisterVariant {
    pub fn requiring_sec_agree(self) -> (r: Self)
        ensures
            r@ == self@.required(),
    {
        let label = match self.authorization {
            VolteInitialAuthorization::UriFirstEmptyAka =>
                "ims_features_aka_uri_first_sec_agree_required",
            VolteInitialAuthorization::Absent =>
                "ims_features_no_initial_authorization_sec_agree_required",
        };
        VolteRegisterVariant {
            label,
            policy: RegisterRequestPolicy {
                advertise_sec_agree: true,
                require_sec_agree: true,
                proxy_require_sec_agree: true,
                ..self.policy
            },
            server_required_sec_agree: true,
            ..self
        }
    }

    pub fn requiring_sec_agree_without_proxy(self) -> (r: Self)
        ensures
            r@ == self@.required_only(),
    {
        let label = match self.authorization {
            VolteInitialAuthorization::UriFirstEmptyAka =>
                "ims_features_aka_uri_first_sec_agree_require_only",
            VolteInitialAuthorization::Absent =>
                "ims_features_no_initial_authorization_sec_agree_require_only",
        };
        VolteRegisterVariant {
            label,
            policy: RegisterRequestPolicy {
                require_sec_agree: true,
                proxy_require_sec_agree: false,
                ..self.policy
            },
            ..self
        }
    }

    pub fn with_compact_security_client(self) -> (r: Self)
        ensures
            r@ == self@.compact(),
    {
        let label = match self.authorization {
            VolteInitialAuthorization::UriFirstEmptyAka =>
                "ims_features_aka_uri_first_sec_agree_compact_security",
            VolteInitialAuthorization::Absent =>
                "ims_features_no_initial_authorization_sec_agree_compact_security",
        };
        VolteRegisterVariant {
            label,
            security_client_offer: VolteSecurityClientOffer::Compact,
            ..self
        }
    }

    pub fn with_spaced_security_client(self) -> (r: Self)
        ensures
            r@ == self@.spaced(),
    {
        let label = match self.authorization {
            VolteInitialAuthorization::UriFirstEmptyAka =>
                "ims_features_aka_uri_first_sec_agree_spaced_security",
            VolteInitialAuthorization::Absent =>
                "ims_features_no_initial_authorization_sec_agree_spaced_security",
        };
        VolteRegisterVariant {
            label,
            security_client_offer: VolteSecurityClientOffer::FullSpaced,
            ..self
        }
    }
}

/// The variants that are known from deployments, the proven one first.
pub fn reference_variants() -> (r: Vec<VolteRegisterVariant>)
    ensures
        r@.len() == 3,
        r@[0]@ == (VariantView {
            label: "reference_sms_sec_agree"@,
            authorization: VolteInitialAuthorization::Absent,
            policy: legacy_policy(),
            server_required_sec_agree: false,
            security_client_offer: VolteSecurityClientOffer::Full,
        }),
        r@[1]@ == (VariantView {
            label: "ims_features_aka_uri_first"@,
            authorization: VolteInitialAuthorization::UriFirstEmptyAka,
            policy: features_policy(),
            server_required_sec_agree: false,
            security_client_offer: VolteSecurityClientOffer::Full,
        }),
        r@[2]@ == (VariantView {
            label: "ims_features_no_initial_authorization"@,
            authorization: VolteInitialAuthorization::Absent,
            policy: features_policy(),
            server_required_sec_agree: false,
            security_client_offer: VolteSecurityClientOffer::Full,
        }),
{
    vec![
        VolteRegisterVariant {
            label: "reference_sms_sec_agree",
            authorization: VolteInitialAuthorization::Absent,
            policy: RegisterRequestPolicy::legacy(),
            server_required_sec_agree: false,
            security_client_offer: VolteSecurityClientOffer::Full,
        },
        VolteRegisterVariant {
            label: "ims_features_aka_uri_first",
            authorization: VolteInitialAuthorization::UriFirstEmptyAka,
            policy: RegisterRequestPolicy::features(),
            server_required_sec_agree: false,
            security_client_offer: VolteSecurityClientOffer::Full,
        },
        VolteRegisterVariant {
            label: "ims_features_no_initial_authorization",
            authorization: VolteInitialAuthorization::Absent,
            policy: RegisterRequestPolicy::features(),
            server_required_sec_agree: false,
            security_client_offer: VolteSecurityClientOffer::Full,
        },
    ]
}

/// The Supported header of the profile names security agreement.
pub open spec fn supports_sec_agree(header: Seq<char>) -> bool {
    names_item(pieces(header, ','), "sec-agree"@)
}

/// One of the pieces is `item` in any case, once trimmed.
pub open spec fn names_item(p: Seq<Seq<char>>, item: Seq<char>) -> bool {
    exists|i: int| 0 <= i < p.len() && same_folded(trimmed(#[trigger] p[i]), item)
}

/// The way to register that a carrier's profile asks for.
pub open spec fn profile_variant(profile: CarrierProfile) -> VariantView {
    let register = profile.ims.register;
    let disabled = register.sec_agree_mode@ == "disabled"@;
    let required = !disabled && (register.sec_agree_mode@ == "required"@
        || register.require_sec_agree_headers);
    let initial = register.initial_authorization@;
    VariantView {
        label: register.live_header_variant_set@,
        authorization: if initial == "aka_empty"@ || initial == "digest_empty"@ || initial
            == "implementation_variant"@ {
            VolteInitialAuthorization::UriFirstEmptyAka
        } else {
            VolteInitialAuthorization::Absent
        },
        policy: RegisterRequestPolicy {
            advertise_sec_agree: !disabled && supports_sec_agree(register.supported_header@),
            require_sec_agree: required,
            proxy_require_sec_agree: register.proxy_require_sec_agree_headers,
            include_mmtel_features: register.include_mmtel_features,
            include_video_feature: false,
            include_route_header: register.include_route_header,
            include_visited_network: register.include_visited_network,
        },
        server_required_sec_agree: required,
        security_client_offer: VolteSecurityClientOffer::Full,
    }
}

fn header_supports_sec_agree(header: &str) -> (r: bool)
    ensures
        r == supports_sec_agree(header@),
{
    let p = text::split(header, ',');
    let ghost all = texts(p@);
    proof {
        assert(all.len() == p@.len());
    }
    let mut i: usize = 0;
    while i < p.len()
        invariant
            i <= p@.len(),
            all == texts(p@),
            all == pieces(header@, ','),
            all.len() == p@.len(),
            forall|j: int| 0 <= j < i ==> !same_folded(trimmed(#[trigger] all[j]), "sec-agree"@),
        decreases p@.len() - i,
    {
        if text::same_ignoring_case(text::trim(p[i].as_str()).as_str(), "sec-agree") {
            assert(same_folded(trimmed(all[i as int]), "sec-agree"@));
            assert(names_item(all, "sec-agree"@));
            return true;
        }
        i += 1;
    }
    false
}

/// The ways to register that a carrier's profile asks for.
pub fn register_variants(profile: &CarrierProfile) -> (r: Vec<VolteRegisterVariant>)
    ensures
        r@.len() == 1,
        r@[0]@ == profile_variant(*profile),
{
    let register = &profile.ims.register;
    let initial = register.initial_authorization;
    let authorization = if text::same(initial, "aka_empty") || text::same(initial, "digest_empty")
        || text::same(initial, "implementation_variant") {
        VolteInitialAuthorization::UriFirstEmptyAka
    } else {
        VolteInitialAuthorization::Absent
    };
    let disabled = text::same(register.sec_agree_mode, "disabled");
    let required = !disabled && (text::same(register.sec_agree_mode, "required")
        || register.require_sec_agree_headers);
    let advertise = !disabled && header_supports_sec_agree(register.supported_header);
    vec![
        VolteRegisterVariant {
            label: register.live_header_variant_set,
            authorization,
            policy: RegisterRequestPolicy {
                advertise_sec_agree: advertise,
                require_sec_agree: required,
                proxy_require_sec_agree: register.proxy_require_sec_agree_headers,
                include_mmtel_features: register.include_mmtel_features,
                include_video_feature: false,
                include_route_header: register.include_route_header,
                include_visited_network: register.include_visited_network,
            },
            server_required_sec_agree: required,
            security_client_offer: VolteSecurityClientOffer::Full,
        },
    ]
}

/// Whether the line offers security agreement at all.
pub open spec fn security_enabled(profile: CarrierProfile) -> bool {
    profile.ims.register.sec_agree_mode@ != "disabled"@
        && profile.ims.register.security_client_mechanisms@.len() > 0
}

/// Whether the line offers security agreement at all.
pub fn offers_security(profile: &CarrierProfile) -> (r: bool)
    ensures
        r == security_enabled(*profile),
{
    !text::same(profile.ims.register.sec_agree_mode, "disabled")
        && profile.ims.register.security_client_mechanisms.len() > 0
}

// ---------------------------------------------------------------------------
// Failures.

/// How a REGISTER exchange failed.
#[derive(Debug, PartialEq, Eq)]
pub struct RegisterFailure {
    pub error: ImsError,
    /// The last response, where one came.
    pub response: Option<Vec<u8>>,
    /// How many challenges were answered.
    pub auth_rounds: u8,
}

pub struct FailureView {
    pub error: Seq<char>,
    pub response: Option<Seq<u8>>,
    pub auth_rounds: u8,
}

impl View for RegisterFailure {
    type V = FailureView;

    open spec fn view(&self) -> FailureView {
        FailureView {
            error: self.error.code@,
            response: match self.response {
                Some(bytes) => Some(bytes@),
                None => None,
            },
            auth_rounds: self.auth_rounds,
        }
    }
}

impl FailureView {
    /// The status of the last response.
    pub open spec fn status(self) -> Option<u16> {
        match self.response {
            Some(response) => status_opt(response),
            None => None,
        }
    }

    /// The registrar rejected the first request with this status.
    pub open spec fn rejected_with(self, status: u16) -> bool {
        self.auth_rounds == 0 && self.status() == Some(status)
    }

    /// The registrar asked for security agreement and nothing else.
    pub open spec fn asks_sec_agree(self) -> bool {
        self.response is Some && requires_only(self.response->0, "sec-agree"@)
    }

    /// The failure is the registrar's final word.
    pub open spec fn is_terminal(self) -> bool {
        self.error == "ims_register_initial_unexpected_status"@ || self.error
            == "ims_register_authenticated_unexpected_status"@ || self.error
            == "ims_register_auth_rejected"@
    }
}

/// The status of the last response.
pub fn register_failure_status(failure: &RegisterFailure) -> (r: Option<u16>)
    ensures
        r == failure@.status(),
{
    match &failure.response {
        Some(response) => match sip::parse_status(response.as_slice()) {
            Ok(status) => Some(status),
            Err(_) => None,
        },
        None => None,
    }
}

fn was_rejected_with(failure: &RegisterFailure, status: u16) -> (r: bool)
    ensures
        r == failure@.rejected_with(status),
{
    failure.auth_rounds == 0 && match register_failure_status(failure) {
        Some(actual) => actual == status,
        None => false,
    }
}

fn asked_for_sec_agree(failure: &RegisterFailure) -> (r: bool)
    ensures
        r == failure@.asks_sec_agree(),
{
    match &failure.response {
        Some(response) => sip::response_requires_only_extension(response.as_slice(), "sec-agree"),
        None => false,
    }
}

/// Security agreement is required of registrar and proxy, because the server
/// asked for it, and the header is written as `offer`.
pub open spec fn fully_required(variant: VariantView, offer: VolteSecurityClientOffer) -> bool {
    variant.server_required_sec_agree && variant.policy.require_sec_agree
        && variant.policy.proxy_require_sec_agree && variant.security_client_offer == offer
}

fn is_fully_required(variant: VolteRegisterVariant, offer: VolteSecurityClientOffer) -> (r: bool)
    ensures
        r == fully_required(variant@, offer),
{
    variant.server_required_sec_agree && variant.policy.require_sec_agree
        && variant.policy.proxy_require_sec_agree && variant.security_client_offer == offer
}

/// The optional variant.
pub open spec fn opt_variant(variant: Option<VolteRegisterVariant>) -> Option<VariantView> {
    match variant {
        Some(v) => Some(v@),
        None => None,
    }
}

/// The registrar wants security agreement, which was not required so far.
pub fn sec_agree_retry_variant(variant: VolteRegisterVariant, failure: &RegisterFailure) -> (r:
    Option<VolteRegisterVariant>)
    ensures
        opt_variant(r) == (if !variant.policy.require_sec_agree && failure@.rejected_with(421)
            && failure@.asks_sec_agree() {
            Some(variant@.required())
        } else {
            None
        }),
{
    if variant.policy.require_sec_agree || !was_rejected_with(failure, 421) {
        return None;
    }
    if asked_for_sec_agree(failure) {
        Some(variant.requiring_sec_agree())
    } else {
        None
    }
}

/// The full header was rejected: try a spaced one.
pub fn sec_agree_spaced_security_retry_variant(
    variant: VolteRegisterVariant,
    failure: &RegisterFailure,
) -> (r: Option<VolteRegisterVariant>)
    ensures
        opt_variant(r) == (if fully_required(variant@, VolteSecurityClientOffer::Full)
            && failure@.rejected_with(400) {
            Some(variant@.spaced())
        } else {
            None
        }),
{
    if is_fully_required(variant, VolteSecurityClientOffer::Full) && was_rejected_with(
        failure,
        400,
    ) {
        Some(variant.with_spaced_security_client())
    } else {
        None
    }
}

/// The spaced header was rejected: try a compact one.
pub fn sec_agree_compact_security_retry_variant(
    variant: VolteRegisterVariant,
    failure: &RegisterFailure,
) -> (r: Option<VolteRegisterVariant>)
    ensures
        opt_variant(r) == (if fully_required(variant@, VolteSecurityClientOffer::FullSpaced)
            && failure@.rejected_with(400) {
            Some(variant@.compact())
        } else {
            None
        }),
{
    if is_fully_required(variant, VolteSecurityClientOffer::FullSpaced) && was_rejected_with(
        failure,
        400,
    ) {
        Some(variant.with_compact_security_client())
    } else {
        None
    }
}

/// The compact header was rejected: demand nothing of the proxy.
pub fn sec_agree_require_only_retry_variant(
    variant: VolteRegisterVariant,
    failure: &RegisterFailure,
) -> (r: Option<VolteRegisterVariant>)
    ensures
        opt_variant(r) == (if fully_required(variant@, VolteSecurityClientOffer::Compact)
            && failure@.rejected_with(400) {
            Some(variant@.required_only())
        } else {
            None
        }),
{
    if is_fully_required(variant, VolteSecurityClientOffer::Compact) && was_rejected_with(
        failure,
        400,
    ) {
        Some(variant.requiring_sec_agree_without_proxy())
    } else {
        None
    }
}

/// The request without a demand on the proxy met the demand for security
/// agreement all the same.
pub open spec fn require_only_rejected(variant: VariantView, failure: FailureView) -> bool {
    variant.server_required_sec_agree && variant.policy.require_sec_agree
        && !variant.policy.proxy_require_sec_agree && failure.rejected_with(421)
        && failure.asks_sec_agree()
}

pub fn sec_agree_require_only_was_rejected(
    variant: VolteRegisterVariant,
    failure: &RegisterFailure,
) -> (r: bool)
    ensures
        r == require_only_rejected(variant@, failure@),
{
    variant.server_required_sec_agree && variant.policy.require_sec_agree
        && !variant.policy.proxy_require_sec_agree && was_rejected_with(failure, 421)
        && asked_for_sec_agree(failure)
}

/// What follows a failed way to register.
#[derive(Debug, Clone, Copy, PartialEq, Eq)]
pub enum RegisterRetry {
    /// Try this way.
    Again(VolteRegisterVariant),
    /// Try the next way in the list.
    Next,
    /// Give up.
    GiveUp,
}

pub enum RetryView {
    Again(VariantView),
    Next,
    GiveUp,
}

impl View for RegisterRetry {
    type V = RetryView;

    open spec fn view(&self) -> RetryView {
        match *self {
            RegisterRetry::Again(variant) => RetryView::Again(variant@),
            RegisterRetry::Next => RetryView::Next,
            RegisterRetry::GiveUp => RetryView::GiveUp,
        }
    }
}

/// What follows when `variant` failed; `more` ways are left in the list.
pub open spec fn retry_after(variant: VariantView, failure: FailureView, more: bool) -> RetryView {
    if !variant.policy.require_sec_agree && failure.rejected_with(421) && failure.asks_sec_agree() {
        RetryView::Again(variant.required())
    } else if fully_required(variant, VolteSecurityClientOffer::Full) && failure.rejected_with(
        400,
    ) {
        RetryView::Again(variant.spaced())
    } else if fully_required(variant, VolteSecurityClientOffer::FullSpaced)
        && failure.rejected_with(400) {
        RetryView::Again(variant.compact())
    } else if fully_required(variant, VolteSecurityClientOffer::Compact) && failure.rejected_with(
        400,
    ) {
        RetryView::Again(variant.required_only())
    } else if more && (require_only_rejected(variant, failure) || failure.rejected_with(400)) {
        RetryView::Next
    } else {
        RetryView::GiveUp
    }
}

/// Decides what follows a failed way to register.
pub fn next_register_attempt(
    variant: VolteRegisterVariant,
    failure: &RegisterFailure,
    more: bool,
) -> (r: RegisterRetry)
    ensures
        r@ == retry_after(variant@, failure@, more),
{
    if let Some(upgraded) = sec_agree_retry_variant(variant, failure) {
        return RegisterRetry::Again(upgraded);
    }
    if let Some(spaced) = sec_agree_spaced_security_retry_variant(variant, failure) {
        return RegisterRetry::Again(spaced);
    }
    if let Some(compact) = sec_agree_compact_security_retry_variant(variant, failure) {
        return RegisterRetry::Again(compact);
    }
    if let Some(require_only) = sec_agree_require_only_retry_variant(variant, failure) {
        return RegisterRetry::Again(require_only);
    }
    if more && (sec_agree_require_only_was_rejected(variant, failure) || was_rejected_with(
        failure,
        400,
    )) {
        return RegisterRetry::Next;
    }
    RegisterRetry::GiveUp
}

/// How far a way to register has moved on from its first form.
pub open spec fn retry_rank(variant: VariantView) -> nat {
    if !variant.policy.require_sec_agree {
        0
    } else if !variant.policy.proxy_require_sec_agree {
        4
    } else {
        match variant.security_client_offer {
            VolteSecurityClientOffer::Full => 1,
            VolteSecurityClientOffer::FullSpaced => 2,
            VolteSecurityClientOffer::Compact => 3,
        }
    }
}

/// Trying again always moves on: one way to register is changed at most four
/// times, so registration comes to an end.
pub proof fn retries_come_to_an_end(variant: VariantView, failure: FailureView, more: bool)
    ensures
        retry_rank(variant) <= 4,
        match retry_after(variant, failure, more) {
            RetryView::Again(next) => retry_rank(next) > retry_rank(variant),
            _ => true,
        },
{
}

/// Trying again keeps who is asked and what is advertised: only the demand for
/// security agreement and the writing of its header change.
pub proof fn retries_keep_the_request(variant: VariantView, failure: FailureView, more: bool)
    ensures
        match retry_after(variant, failure, more) {
            RetryView::Again(next) => {
                &&& next.authorization == variant.authorization
                &&& next.policy.include_mmtel_features == variant.policy.include_mmtel_features
                &&& next.policy.include_video_feature == variant.policy.include_video_feature
                &&& next.policy.include_route_header == variant.policy.include_route_header
                &&& next.policy.include_visited_network == variant.policy.include_visited_network
                &&& next.policy.require_sec_agree
            },
            _ => true,
        },
{
}

/// A registrar that asks for anything besides security agreement is not asked again.
pub proof fn other_requirements_are_not_retried(
    variant: VariantView,
    failure: FailureView,
    more: bool,
)
    requires
        failure.status() == Some(421u16),
        !failure.asks_sec_agree(),
    ensures
        retry_after(variant, failure, more) == RetryView::GiveUp,
{
}

/// The error of a failed exchange: initial and authenticated stage are kept apart.
pub open spec fn register_error(error: Seq<char>) -> ErrorView {
    if error == "ims_register_initial_send_failed"@ || error
        == "ims_register_initial_receive_failed"@ || error
        == "ims_register_initial_unexpected_status"@ {
        detailed(code::REGISTER_INITIAL_UNEXPECTED_STATUS@, error)
    } else {
        detailed(code::REGISTER_AUTH_UNEXPECTED_STATUS@, error)
    }
}

/// The error of a failed exchange, with the registrar's status where that is final.
pub open spec fn failure_error(failure: FailureView) -> ErrorView {
    let mapped = register_error(failure.error);
    if failure.is_terminal() && failure.status() is Some {
        detailed(
            mapped.code,
            failure.error + ":sip_status="@ + decimal(failure.status()->0 as nat),
        )
    } else {
        mapped
    }
}

/// Maps an error of the exchange.
pub fn map_register_error(error: ImsError) -> (r: VolteError)
    ensures
        r@ == register_error(error.code@),
{
    let name = error.code();
    if text::same(name, "ims_register_initial_send_failed") || text::same(
        name,
        "ims_register_initial_receive_failed",
    ) || text::same(name, "ims_register_initial_unexpected_status") {
        VolteError::with_detail(code::REGISTER_INITIAL_UNEXPECTED_STATUS, name)
    } else {
        VolteError::with_detail(code::REGISTER_AUTH_UNEXPECTED_STATUS, name)
    }
}

/// The registrar's status, where the failure is its final word.
pub fn terminal_register_failure_status(failure: &RegisterFailure) -> (r: Option<u16>)
    ensures
        r == (if failure@.is_terminal() {
            failure@.status()
        } else {
            None
        }),
{
    let name = failure.error.code();
    if text::same(name, "ims_register_initial_unexpected_status") || text::same(
        name,
        "ims_register_authenticated_unexpected_status",
    ) || text::same(name, "ims_register_auth_rejected") {
        register_failure_status(failure)
    } else {
        None
    }
}

/// Maps a failed exchange.
pub fn map_register_failure(failure: &RegisterFailure) -> (r: VolteError)
    ensures
        r@ == failure_error(failure@),
{
    let mapped = map_register_error(failure.error);
    match terminal_register_failure_status(failure) {
        Some(status) => {
            let mut detail = failure.error.code().to_string();
            detail.append(":sip_status=");
            let digits = text::decimal_string(status as u64);
            detail.append(digits.as_str());
            VolteError::with_detail(mapped.code(), detail.as_str())
        },
        None => mapped,
    }
}

/// The bearer of a failed connection is kept for a while: the registrar itself
/// had the last word.
pub open spec fn retains_bearer(error: ErrorView) -> bool {
    (error.code == code::REGISTER_INITIAL_UNEXPECTED_STATUS@ || error.code
        == code::REGISTER_AUTH_UNEXPECTED_STATUS@) && error.detail is Some && has_part(
        error.detail->0,
        "sip_status="@,
    )
}

/// Whether the bearer of a failed connection is kept for a while.
pub fn should_retain_failed_bearer(error: &VolteError) -> (r: bool)
    ensures
        r == retains_bearer(error@),
{
    if !error.is(code::REGISTER_INITIAL_UNEXPECTED_STATUS) && !error.is(
        code::REGISTER_AUTH_UNEXPECTED_STATUS,
    ) {
        return false;
    }
    match error.detail() {
        Some(detail) => text::contains(detail, "sip_status="),
        None => false,
    }
}

/// A bearer is kept exactly where the registrar's final answer ended the attempt,
/// as long as no error name itself holds the marker.
pub proof fn bearer_is_retained_for_final_answers(failure: FailureView)
    requires
        !has_part(failure.error, "sip_status="@),
    ensures
        retains_bearer(failure_error(failure)) <==> failure.is_terminal() && failure.status()
            is Some,
{
    if failure.is_terminal() && failure.status() is Some {
        let detail = failure.error + ":sip_status="@ + decimal(failure.status()->0 as nat);
        let at = failure.error.len() as int + 1;
        reveal_strlit(":sip_status=");
        reveal_strlit("sip_status=");
        assert(detail.subrange(at, at + 11) =~= "sip_status="@);
        assert(text::part_at(detail, "sip_status="@, at));
    }
}

} // verus!
