//! The IP-family plan of one IMS connection attempt.
//!
//! `ImsConnectionPlan` turns the configured preference, or a line's explicit
//! list, into one ordered plan. The bearer attempts, the AT probe order and the
//! SIP local-address order are all projections of it. `FailureClass` says how a
//! failure steers the plan.

use vstd::prelude::*;

use crate::errors::{code, ErrorView, VolteError};
use crate::ip::IpAddr;
use crate::text;
use crate::text::{has_part, lower};

pub mod details;

verus! {

/// A single IP address family.
#[derive(Debug, Clone, Copy, PartialEq, Eq, Structural)]
pub enum IpFamily {
    Ipv4,
    Ipv6,
}

pub open spec fn family_of(addr: IpAddr) -> IpFamily {
    if addr.is_ipv6() {
        IpFamily::Ipv6
    } else {
        IpFamily::Ipv4
    }
}

impl IpFamily {
    pub open spec fn name(self) -> Seq<char> {
        match self {
            IpFamily::Ipv4 => "ipv4"@,
            IpFamily::Ipv6 => "ipv6"@,
        }
    }

    /// The family of an address.
    pub fn of(addr: IpAddr) -> (r: Self)
        ensures
            r == family_of(addr),
    {
        if addr.is_ipv6() {
            IpFamily::Ipv6
        } else {
            IpFamily::Ipv4
        }
    }

    /// The label used in runtime status.
    pub fn as_str(self) -> (r: &'static str)
        ensures
            r@ == self.name(),
    {
        match self {
            IpFamily::Ipv4 => "ipv4",
            IpFamily::Ipv6 => "ipv6",
        }
    }
}

/// A bearer request type: dual-stack or a single family.
#[derive(Debug, Clone, Copy, PartialEq, Eq, Structural)]
pub enum IpType {
    Ipv4v6,
    Ipv4,
    Ipv6,
}

impl IpType {
    pub open spec fn mm_name(self) -> Seq<char> {
        match self {
            IpType::Ipv4v6 => "ipv4v6"@,
            IpType::Ipv4 => "ipv4"@,
            IpType::Ipv6 => "ipv6"@,
        }
    }

    pub open spec fn pdp_name(self) -> Seq<char> {
        match self {
            IpType::Ipv4v6 => "IPV4V6"@,
            IpType::Ipv4 => "IP"@,
            IpType::Ipv6 => "IPV6"@,
        }
    }

    /// The ModemManager vocabulary.
    pub fn as_mm_str(self) -> (r: &'static str)
        ensures
            r@ == self.mm_name(),
    {
        match self {
            IpType::Ipv4v6 => "ipv4v6",
            IpType::Ipv4 => "ipv4",
            IpType::Ipv6 => "ipv6",
        }
    }

    /// The `+CGDCONT` vocabulary.
    pub fn as_pdp_str(self) -> (r: &'static str)
        ensures
            r@ == self.pdp_name(),
    {
        match self {
            IpType::Ipv4v6 => "IPV4V6",
            IpType::Ipv4 => "IP",
            IpType::Ipv6 => "IPV6",
        }
    }

    /// Reads the ModemManager vocabulary back.
    pub fn from_mm_str(value: &str) -> (r: Option<Self>)
        ensures
            match r {
                Some(t) => value@ == t.mm_name(),
                None => forall|t: IpType| value@ != #[trigger] t.mm_name(),
            },
    {
        if text::same(value, "ipv4v6") {
            Some(IpType::Ipv4v6)
        } else if text::same(value, "ipv4") {
            Some(IpType::Ipv4)
        } else if text::same(value, "ipv6") {
            Some(IpType::Ipv6)
        } else {
            proof {
                assert forall|t: IpType| value@ != #[trigger] t.mm_name() by {
                    match t {
                        IpType::Ipv4v6 => {},
                        IpType::Ipv4 => {},
                        IpType::Ipv6 => {},
                    }
                }
            }
            None
        }
    }
}

/// The ModemManager name of a type is read back as that type and no other.
pub proof fn mm_names_are_distinct(a: IpType, b: IpType)
    ensures
        a.mm_name() == b.mm_name() ==> a == b,
        a.pdp_name() == b.pdp_name() ==> a == b,
{
    reveal_strlit("ipv4v6");
    reveal_strlit("ipv4");
    reveal_strlit("ipv6");
    reveal_strlit("IPV4V6");
    reveal_strlit("IP");
    reveal_strlit("IPV6");
    if a.mm_name() == b.mm_name() && a != b {
        assert(a.mm_name().len() == b.mm_name().len());
        assert(a.mm_name()[3] == b.mm_name()[3]);
    }
    if a.pdp_name() == b.pdp_name() && a != b {
        assert(a.pdp_name().len() == b.pdp_name().len());
    }
}

/// The configured family preference of a line.
#[derive(Debug, Clone, Copy, PartialEq, Eq, Structural)]
pub enum VolteIpFamilyPreference {
    Ipv6First,
    Ipv4First,
    Ipv6Only,
    Ipv4Only,
}

impl Default for VolteIpFamilyPreference {
    fn default() -> (r: Self)
        ensures
            r == VolteIpFamilyPreference::Ipv6First,
    {
        VolteIpFamilyPreference::Ipv6First
    }
}

/// One entry of a line's explicit, ordered family list.
#[derive(Debug, Clone, Copy, PartialEq, Eq, Structural)]
pub enum VolteIpFamily {
    Ipv4v6,
    Ipv4,
    Ipv6,
}

/// How a bearer or discovery failure steers the plan.
#[derive(Debug, Clone, Copy, PartialEq, Eq, Structural)]
pub enum FailureClass {
    /// The network rejected dual-stack and requires IPv6 only.
    NetworkForcedIpv6,
    /// The network rejected dual-stack and requires IPv4 only.
    NetworkForcedIpv4,
    /// A family was requested but no prefix or address was delivered.
    PrefixUnavailable,
    /// The bearer came up, but not in a family that the plan admits.
    FamilyUnsupported,
    /// P-CSCF discovery or registration failed for the current family.
    PcscfFailed,
    /// The baseband refused the session in a way that means it is wedged, or its
    /// control port is owned elsewhere. The attempt batch must be abandoned.
    BasebandWedged,
    /// Anything else: fatal for family fallback.
    Other,
}

/// The signatures of a baseband that has stopped accepting IMS sessions, in
/// case-folded text. The notice that a client id was not released is none of
/// them: it comes with every secondary-QMI failure, whatever its cause.
pub open spec fn wedge_signature(folded: Seq<char>) -> bool {
    ||| has_part(folded, "interface-in-use-config-match"@)
    ||| has_part(folded, "endpoint hangup"@)
    ||| has_part(folded, "mobileequipment.unknown"@)
    ||| has_part(folded, code::BEARER_NETDEV_RUNTIME_ERROR@)
    ||| {
        &&& has_part(folded, "call failed"@) || has_part(folded, "callfailed"@)
        &&& has_part(folded, "internal error"@) || has_part(folded, "[internal] error"@)
    }
}

pub open spec fn forces_ipv6(folded: Seq<char>) -> bool {
    has_part(folded, "ipv6onlyallowed"@) || has_part(folded, "ipv6-only-allowed"@) || has_part(
        folded,
        "only ipv6 allowed"@,
    )
}

pub open spec fn forces_ipv4(folded: Seq<char>) -> bool {
    has_part(folded, "ipv4onlyallowed"@) || has_part(folded, "ipv4-only-allowed"@) || has_part(
        folded,
        "only ipv4 allowed"@,
    )
}

/// The class of a raw failure text. A bring-up race of the bearer's interface
/// is recoverable; its latched runtime error is a wedge.
pub open spec fn class_of_details(details: Seq<char>) -> FailureClass {
    let folded = lower(details);
    if forces_ipv6(folded) {
        FailureClass::NetworkForcedIpv6
    } else if forces_ipv4(folded) {
        FailureClass::NetworkForcedIpv4
    } else if has_part(folded, "prefix-unavailable"@) {
        FailureClass::PrefixUnavailable
    } else if has_part(folded, code::BEARER_NETDEV_RUNTIME_ERROR@) {
        FailureClass::BasebandWedged
    } else if has_part(folded, code::BEARER_NETDEV_NOT_UP@) || has_part(
        folded,
        code::BEARER_NETDEV_NOT_READY@,
    ) {
        FailureClass::Other
    } else if wedge_signature(folded) {
        FailureClass::BasebandWedged
    } else {
        FailureClass::Other
    }
}

/// The class of an error of the per-family SIP loop. A registrar's final answer
/// is no family failure.
pub open spec fn class_of_error(error: ErrorView) -> FailureClass {
    if error.code == code::BEARER_NETDEV_RUNTIME_ERROR@ {
        FailureClass::BasebandWedged
    } else if error.code == code::REGISTER_INITIAL_UNEXPECTED_STATUS@ && error.detail is Some
        && has_part(error.detail->0, "sip_status="@) {
        FailureClass::Other
    } else if error.code == code::RUNTIME_ALL_PCSCF_FAILED@ || error.code
        == code::PCSCF_FAMILY_MISMATCH@ || error.code == code::IPSEC_UDP_BIND_FAILED@ || error.code
        == code::REGISTER_INITIAL_UNEXPECTED_STATUS@ || error.code == code::COMMAND_FAILED@ {
        FailureClass::PcscfFailed
    } else if error.code == code::RUNTIME_IMS_FAMILY_UNSUPPORTED@ {
        FailureClass::FamilyUnsupported
    } else {
        FailureClass::Other
    }
}

fn is_baseband_wedge(folded: &str) -> (r: bool)
    ensures
        r == wedge_signature(folded@),
{
    let call_failed = text::contains(folded, "call failed") || text::contains(folded, "callfailed");
    let internal_error = text::contains(folded, "internal error") || text::contains(
        folded,
        "[internal] error",
    );
    text::contains(folded, "interface-in-use-config-match") || text::contains(
        folded,
        "endpoint hangup",
    ) || text::contains(folded, "mobileequipment.unknown") || text::contains(
        folded,
        code::BEARER_NETDEV_RUNTIME_ERROR,
    ) || (call_failed && internal_error)
}

impl FailureClass {
    pub open spec fn spec_is_unsafe_to_retry(self) -> bool {
        self == FailureClass::BasebandWedged
    }

    pub open spec fn spec_forced_family(self) -> Option<IpFamily> {
        match self {
            FailureClass::NetworkForcedIpv6 => Some(IpFamily::Ipv6),
            FailureClass::NetworkForcedIpv4 => Some(IpFamily::Ipv4),
            _ => None,
        }
    }

    pub open spec fn spec_is_retryable_family(self) -> bool {
        self == FailureClass::PcscfFailed
    }

    /// Classifies a raw failure text of the bearer layer.
    pub fn from_details(details: &str) -> (r: Self)
        ensures
            r == class_of_details(details@),
    {
        let folded = text::lower_case(details);
        let error = folded.as_str();
        if text::contains(error, "ipv6onlyallowed") || text::contains(error, "ipv6-only-allowed")
            || text::contains(error, "only ipv6 allowed") {
            FailureClass::NetworkForcedIpv6
        } else if text::contains(error, "ipv4onlyallowed") || text::contains(
            error,
            "ipv4-only-allowed",
        ) || text::contains(error, "only ipv4 allowed") {
            FailureClass::NetworkForcedIpv4
        } else if text::contains(error, "prefix-unavailable") {
            FailureClass::PrefixUnavailable
        } else if text::contains(error, code::BEARER_NETDEV_RUNTIME_ERROR) {
            FailureClass::BasebandWedged
        } else if text::contains(error, code::BEARER_NETDEV_NOT_UP) || text::contains(
            error,
            code::BEARER_NETDEV_NOT_READY,
        ) {
            FailureClass::Other
        } else if is_baseband_wedge(error) {
            FailureClass::BasebandWedged
        } else {
            FailureClass::Other
        }
    }

    /// Classifies an error of the per-family SIP loop.
    pub fn from_error(error: &VolteError) -> (r: Self)
        ensures
            r == class_of_error(error@),
    {
        if error.is(code::BEARER_NETDEV_RUNTIME_ERROR) {
            return FailureClass::BasebandWedged;
        }
        if error.is(code::REGISTER_INITIAL_UNEXPECTED_STATUS) {
            match error.detail() {
                Some(detail) => {
                    if text::contains(detail, "sip_status=") {
                        return FailureClass::Other;
                    }
                },
                None => {},
            }
        }
        if error.is(code::RUNTIME_ALL_PCSCF_FAILED) || error.is(code::PCSCF_FAMILY_MISMATCH)
            || error.is(code::IPSEC_UDP_BIND_FAILED) || error.is(
            code::REGISTER_INITIAL_UNEXPECTED_STATUS,
        ) || error.is(code::COMMAND_FAILED) {
            FailureClass::PcscfFailed
        } else if error.is(code::RUNTIME_IMS_FAMILY_UNSUPPORTED) {
            FailureClass::FamilyUnsupported
        } else {
            FailureClass::Other
        }
    }

    /// Whether retrying this failure against the same baseband is unsafe.
    #[verifier::when_used_as_spec(spec_is_unsafe_to_retry)]
    pub fn is_unsafe_to_retry(self) -> (r: bool)
        ensures
            r == self.is_unsafe_to_retry(),
    {
        matches!(self, FailureClass::BasebandWedged)
    }

    /// The single family that the failure forces.
    #[verifier::when_used_as_spec(spec_forced_family)]
    pub fn forced_family(self) -> (r: Option<IpFamily>)
        ensures
            r == self.forced_family(),
    {
        match self {
            FailureClass::NetworkForcedIpv6 => Some(IpFamily::Ipv6),
            FailureClass::NetworkForcedIpv4 => Some(IpFamily::Ipv4),
            _ => None,
        }
    }

    /// Whether the per-family SIP loop tries the next family on this failure.
    #[verifier::when_used_as_spec(spec_is_retryable_family)]
    pub fn is_retryable_family(self) -> (r: bool)
        ensures
            r == self.is_retryable_family(),
    {
        matches!(self, FailureClass::PcscfFailed)
    }
}

/// A failure that is unsafe to retry never leads to another family or forces one.
pub proof fn wedge_is_never_retried(class: FailureClass)
    requires
        class.is_unsafe_to_retry(),
    ensures
        !class.is_retryable_family(),
        class.forced_family() is None,
{
}

/// The bearer attempts of a preference.
pub open spec fn preset_attempts(preference: VolteIpFamilyPreference) -> Seq<IpType> {
    match preference {
        VolteIpFamilyPreference::Ipv6First => seq![IpType::Ipv4v6, IpType::Ipv6, IpType::Ipv4],
        VolteIpFamilyPreference::Ipv4First => seq![IpType::Ipv4v6, IpType::Ipv4, IpType::Ipv6],
        VolteIpFamilyPreference::Ipv6Only => seq![IpType::Ipv6],
        VolteIpFamilyPreference::Ipv4Only => seq![IpType::Ipv4],
    }
}

/// The single-family order of a preference.
pub open spec fn preset_order(preference: VolteIpFamilyPreference) -> Seq<IpFamily> {
    match preference {
        VolteIpFamilyPreference::Ipv6First => seq![IpFamily::Ipv6, IpFamily::Ipv4],
        VolteIpFamilyPreference::Ipv4First => seq![IpFamily::Ipv4, IpFamily::Ipv6],
        VolteIpFamilyPreference::Ipv6Only => seq![IpFamily::Ipv6],
        VolteIpFamilyPreference::Ipv4Only => seq![IpFamily::Ipv4],
    }
}

/// The list that a preference abbreviates.
pub open spec fn preset_list(preference: VolteIpFamilyPreference) -> Seq<VolteIpFamily> {
    match preference {
        VolteIpFamilyPreference::Ipv6First => seq![
            VolteIpFamily::Ipv4v6,
            VolteIpFamily::Ipv6,
            VolteIpFamily::Ipv4,
        ],
        VolteIpFamilyPreference::Ipv4First => seq![
            VolteIpFamily::Ipv4v6,
            VolteIpFamily::Ipv4,
            VolteIpFamily::Ipv6,
        ],
        VolteIpFamilyPreference::Ipv6Only => seq![VolteIpFamily::Ipv6],
        VolteIpFamilyPreference::Ipv4Only => seq![VolteIpFamily::Ipv4],
    }
}

/// The list with `item` at its end, unless it is there already.
pub open spec fn with<T>(s: Seq<T>, item: T) -> Seq<T> {
    if s.contains(item) {
        s
    } else {
        s.push(item)
    }
}

pub open spec fn type_of(family: VolteIpFamily) -> IpType {
    match family {
        VolteIpFamily::Ipv4v6 => IpType::Ipv4v6,
        VolteIpFamily::Ipv4 => IpType::Ipv4,
        VolteIpFamily::Ipv6 => IpType::Ipv6,
    }
}

/// The bearer attempts of an explicit list: its entries, each once.
pub open spec fn attempts_of(families: Seq<VolteIpFamily>) -> Seq<IpType>
    decreases families.len(),
{
    if families.len() == 0 {
        Seq::empty()
    } else {
        with(attempts_of(families.drop_last()), type_of(families.last()))
    }
}

/// The single families that a list names on their own, each once.
pub open spec fn named_families(families: Seq<VolteIpFamily>) -> Seq<IpFamily>
    decreases families.len(),
{
    if families.len() == 0 {
        Seq::empty()
    } else {
        let front = named_families(families.drop_last());
        match families.last() {
            VolteIpFamily::Ipv4 => with(front, IpFamily::Ipv4),
            VolteIpFamily::Ipv6 => with(front, IpFamily::Ipv6),
            VolteIpFamily::Ipv4v6 => front,
        }
    }
}

/// The single-family order of a list: what it names comes first; what only
/// dual-stack can deliver follows.
pub open spec fn order_of(families: Seq<VolteIpFamily>) -> Seq<IpFamily> {
    if families.contains(VolteIpFamily::Ipv4v6) {
        with(with(named_families(families), IpFamily::Ipv4), IpFamily::Ipv6)
    } else {
        named_families(families)
    }
}

/// The closest preference label of a single-family order.
pub open spec fn label_of(order: Seq<IpFamily>) -> VolteIpFamilyPreference {
    if order.len() >= 2 && order[0] == IpFamily::Ipv6 && order[1] == IpFamily::Ipv4 {
        VolteIpFamilyPreference::Ipv6First
    } else if order.len() >= 2 && order[0] == IpFamily::Ipv4 && order[1] == IpFamily::Ipv6 {
        VolteIpFamilyPreference::Ipv4First
    } else if order.len() == 1 && order[0] == IpFamily::Ipv6 {
        VolteIpFamilyPreference::Ipv6Only
    } else if order.len() == 1 && order[0] == IpFamily::Ipv4 {
        VolteIpFamilyPreference::Ipv4Only
    } else {
        VolteIpFamilyPreference::Ipv6First
    }
}

/// A list's own reproduction of a preference is that preference's plan.
pub proof fn lists_reproduce_presets(preference: VolteIpFamilyPreference)
    ensures
        attempts_of(preset_list(preference)) == preset_attempts(preference),
        order_of(preset_list(preference)) == preset_order(preference),
        label_of(preset_order(preference)) == preference,
{
    let list = preset_list(preference);
    reveal_with_fuel(attempts_of, 5);
    reveal_with_fuel(named_families, 5);
    if list.len() == 3 {
        let two = list.drop_last();
        let one = two.drop_last();
        assert(two == seq![list[0], list[1]]);
        assert(one == seq![list[0]]);
        assert(one.drop_last() == Seq::<VolteIpFamily>::empty());
        assert(list[0] == VolteIpFamily::Ipv4v6);
        assert(list.contains(VolteIpFamily::Ipv4v6));
        let named = named_families(list);
        assert(named =~= preset_order(preference));
        assert(named.contains(IpFamily::Ipv4)) by {
            assert(named[0] == IpFamily::Ipv4 || named[1] == IpFamily::Ipv4);
        }
        assert(named.contains(IpFamily::Ipv6)) by {
            assert(named[0] == IpFamily::Ipv6 || named[1] == IpFamily::Ipv6);
        }
        assert(attempts_of(list) =~= preset_attempts(preference));
    } else {
        assert(list.drop_last() == Seq::<VolteIpFamily>::empty());
        assert(!list.contains(VolteIpFamily::Ipv4v6));
        assert(attempts_of(list) =~= preset_attempts(preference));
        assert(order_of(list) =~= preset_order(preference));
    }
}

/// A list leads to exactly the attempts it names, none of them twice.
pub proof fn list_attempts_are_its_entries(families: Seq<VolteIpFamily>)
    ensures
        attempts_of(families).no_duplicates(),
        forall|f: VolteIpFamily| families.contains(f) ==> attempts_of(families).contains(
            #[trigger] type_of(f),
        ),
        forall|i: int|
            0 <= i < attempts_of(families).len() ==> exists|f: VolteIpFamily|
                families.contains(f) && #[trigger] type_of(f) == #[trigger] attempts_of(
                    families,
                )[i],
        families.len() > 0 ==> attempts_of(families).len() > 0,
    decreases families.len(),
{
    if families.len() > 0 {
        let front = families.drop_last();
        list_attempts_are_its_entries(front);
        let before = attempts_of(front);
        let all = attempts_of(families);
        let t = type_of(families.last());
        assert(families.contains(families.last()));
        assert forall|f: VolteIpFamily| families.contains(f) implies all.contains(
            #[trigger] type_of(f),
        ) by {
            if front.contains(f) {
                let k = choose|k: int| 0 <= k < before.len() && before[k] == type_of(f);
                assert(all[k] == type_of(f));
            } else {
                let k = choose|k: int| 0 <= k < families.len() && families[k] == f;
                assert(k == families.len() - 1) by {
                    if k < families.len() - 1 {
                        assert(front[k] == f);
                    }
                }
                if !before.contains(t) {
                    assert(all[all.len() - 1] == t);
                }
            }
        }
        assert forall|i: int| 0 <= i < all.len() implies exists|f: VolteIpFamily|
            families.contains(f) && #[trigger] type_of(f) == #[trigger] all[i] by {
            if i < before.len() {
                assert(all[i] == before[i]);
                let f = choose|f: VolteIpFamily|
                    front.contains(f) && #[trigger] type_of(f) == before[i];
                let k = choose|k: int| 0 <= k < front.len() && front[k] == f;
                assert(families[k] == f);
                assert(families.contains(f));
            } else {
                assert(all[i] == t);
            }
        }
    }
}

proof fn lemma_named_families(families: Seq<VolteIpFamily>)
    ensures
        named_families(families).no_duplicates(),
        named_families(families).contains(IpFamily::Ipv4) <==> families.contains(
            VolteIpFamily::Ipv4,
        ),
        named_families(families).contains(IpFamily::Ipv6) <==> families.contains(
            VolteIpFamily::Ipv6,
        ),
    decreases families.len(),
{
    if families.len() > 0 {
        let front = families.drop_last();
        let last = families.last();
        lemma_named_families(front);
        assert(families =~= front.push(last));
        let before = named_families(front);
        let all = named_families(families);
        assert(families.contains(VolteIpFamily::Ipv4) <==> front.contains(VolteIpFamily::Ipv4)
            || last == VolteIpFamily::Ipv4) by {
            lemma_push_contains(front, last, VolteIpFamily::Ipv4);
        }
        assert(families.contains(VolteIpFamily::Ipv6) <==> front.contains(VolteIpFamily::Ipv6)
            || last == VolteIpFamily::Ipv6) by {
            lemma_push_contains(front, last, VolteIpFamily::Ipv6);
        }
        lemma_with(before, IpFamily::Ipv4);
        lemma_with(before, IpFamily::Ipv6);
    }
}

proof fn lemma_push_contains<T>(s: Seq<T>, x: T, y: T)
    ensures
        s.push(x).contains(y) <==> s.contains(y) || x == y,
{
    if s.push(x).contains(y) {
        let k = choose|k: int| 0 <= k < s.push(x).len() && s.push(x)[k] == y;
        if k < s.len() {
            assert(s[k] == y);
        }
    }
    if s.contains(y) {
        let k = choose|k: int| 0 <= k < s.len() && s[k] == y;
        assert(s.push(x)[k] == y);
    }
    if x == y {
        assert(s.push(x)[s.len() as int] == y);
    }
}

proof fn lemma_with<T>(s: Seq<T>, x: T)
    ensures
        forall|y: T| with(s, x).contains(y) <==> s.contains(y) || x == y,
        s.no_duplicates() ==> with(s, x).no_duplicates(),
{
    assert forall|y: T| with(s, x).contains(y) <==> s.contains(y) || x == y by {
        lemma_push_contains(s, x, y);
    }
}

/// The SIP order names no family twice, and exactly those that some attempt of
/// the list can deliver.
pub proof fn list_order_covers_its_attempts(families: Seq<VolteIpFamily>)
    ensures
        order_of(families).no_duplicates(),
        order_of(families).contains(IpFamily::Ipv4) <==> families.contains(VolteIpFamily::Ipv4)
            || families.contains(VolteIpFamily::Ipv4v6),
        order_of(families).contains(IpFamily::Ipv6) <==> families.contains(VolteIpFamily::Ipv6)
            || families.contains(VolteIpFamily::Ipv4v6),
{
    lemma_named_families(families);
    let named = named_families(families);
    lemma_with(named, IpFamily::Ipv4);
    lemma_with(with(named, IpFamily::Ipv4), IpFamily::Ipv6);
}

/// Whether a type is in a list.
pub fn has_type(list: &Vec<IpType>, item: IpType) -> (r: bool)
    ensures
        r == list@.contains(item),
{
    let mut i: usize = 0;
    while i < list.len()
        invariant
            i <= list@.len(),
            forall|j: int| 0 <= j < i ==> list@[j] != item,
        decreases list@.len() - i,
    {
        if list[i] == item {
            assert(list@[i as int] == item);
            return true;
        }
        i += 1;
    }
    false
}

fn has_family(list: &Vec<IpFamily>, item: IpFamily) -> (r: bool)
    ensures
        r == list@.contains(item),
{
    let mut i: usize = 0;
    while i < list.len()
        invariant
            i <= list@.len(),
            forall|j: int| 0 <= j < i ==> list@[j] != item,
        decreases list@.len() - i,
    {
        if list[i] == item {
            assert(list@[i as int] == item);
            return true;
        }
        i += 1;
    }
    false
}

fn preference_for_pcscf_order(order: &Vec<IpFamily>) -> (r: VolteIpFamilyPreference)
    ensures
        r == label_of(order@),
{
    if order.len() >= 2 && order[0] == IpFamily::Ipv6 && order[1] == IpFamily::Ipv4 {
        VolteIpFamilyPreference::Ipv6First
    } else if order.len() >= 2 && order[0] == IpFamily::Ipv4 && order[1] == IpFamily::Ipv6 {
        VolteIpFamilyPreference::Ipv4First
    } else if order.len() == 1 && order[0] == IpFamily::Ipv6 {
        VolteIpFamilyPreference::Ipv6Only
    } else if order.len() == 1 && order[0] == IpFamily::Ipv4 {
        VolteIpFamilyPreference::Ipv4Only
    } else {
        VolteIpFamilyPreference::default()
    }
}

/// A resolved, ordered plan for one IMS connection attempt.
#[derive(Debug, PartialEq, Eq)]
pub struct ImsConnectionPlan {
    preference: VolteIpFamilyPreference,
    bearer_attempts: Vec<IpType>,
    pcscf_order: Vec<IpFamily>,
}

/// A catalog's hint forces no family: whichever it names, the plan still tries both
/// families at once and each of them alone.
pub proof fn catalog_hint_keeps_every_family(preference: VolteIpFamilyPreference)
    requires
        preference is Ipv4First || preference is Ipv6First,
    ensures
        preset_attempts(preference)[0] == IpType::Ipv4v6,
        preset_attempts(preference).contains(IpType::Ipv4),
        preset_attempts(preference).contains(IpType::Ipv6),
        preset_order(preference).contains(IpFamily::Ipv4),
        preset_order(preference).contains(IpFamily::Ipv6),
{
    let attempts = preset_attempts(preference);
    let order = preset_order(preference);
    assert(attempts[1] == IpType::Ipv4 || attempts[2] == IpType::Ipv4);
    assert(attempts[1] == IpType::Ipv6 || attempts[2] == IpType::Ipv6);
    assert(order[0] == IpFamily::Ipv4 || order[1] == IpFamily::Ipv4);
    assert(order[0] == IpFamily::Ipv6 || order[1] == IpFamily::Ipv6);
}

impl ImsConnectionPlan {
    /// A plan has at least one bearer attempt, and none twice.
    #[verifier::type_invariant]
    closed spec fn wf(&self) -> bool {
        self.bearer_attempts@.len() > 0 && self.bearer_attempts@.no_duplicates()
    }

    pub closed spec fn label(&self) -> VolteIpFamilyPreference {
        self.preference
    }

    pub closed spec fn attempts(&self) -> Seq<IpType> {
        self.bearer_attempts@
    }

    pub closed spec fn order(&self) -> Seq<IpFamily> {
        self.pcscf_order@
    }

    /// Builds the plan of a preference.
    pub fn from_preference(preference: VolteIpFamilyPreference) -> (r: Self)
        ensures
            r.label() == preference,
            r.attempts() == preset_attempts(preference),
            r.order() == preset_order(preference),
    {
        let (bearer_attempts, pcscf_order) = match preference {
            VolteIpFamilyPreference::Ipv6First => (
                vec![IpType::Ipv4v6, IpType::Ipv6, IpType::Ipv4],
                vec![IpFamily::Ipv6, IpFamily::Ipv4],
            ),
            VolteIpFamilyPreference::Ipv4First => (
                vec![IpType::Ipv4v6, IpType::Ipv4, IpType::Ipv6],
                vec![IpFamily::Ipv4, IpFamily::Ipv6],
            ),
            VolteIpFamilyPreference::Ipv6Only => (vec![IpType::Ipv6], vec![IpFamily::Ipv6]),
            VolteIpFamilyPreference::Ipv4Only => (vec![IpType::Ipv4], vec![IpFamily::Ipv4]),
        };
        proof {
            assert(bearer_attempts@ =~= preset_attempts(preference));
            assert(pcscf_order@ =~= preset_order(preference));
        }
        ImsConnectionPlan { preference, bearer_attempts, pcscf_order }
    }

    /// Builds the plan of an explicit, ordered list. The order is honored
    /// literally; an empty list falls back to the default preference.
    pub fn from_families(families: &[VolteIpFamily]) -> (r: Self)
        ensures
            families@.len() == 0 ==> {
                &&& r.label() == VolteIpFamilyPreference::Ipv6First
                &&& r.attempts() == preset_attempts(VolteIpFamilyPreference::Ipv6First)
                &&& r.order() == preset_order(VolteIpFamilyPreference::Ipv6First)
            },
            families@.len() > 0 ==> {
                &&& r.label() == label_of(order_of(families@))
                &&& r.attempts() == attempts_of(families@)
                &&& r.order() == order_of(families@)
            },
    {
        if families.len() == 0 {
            return Self::from_preference(VolteIpFamilyPreference::default());
        }
        let mut bearer_attempts: Vec<IpType> = Vec::with_capacity(families.len());
        let mut pcscf_order: Vec<IpFamily> = Vec::with_capacity(2);
        let mut dual = false;
        let mut i: usize = 0;
        proof {
            assert(families@.take(0) =~= Seq::<VolteIpFamily>::empty());
        }
        while i < families.len()
            invariant
                i <= families@.len(),
                bearer_attempts@ == attempts_of(families@.take(i as int)),
                pcscf_order@ == named_families(families@.take(i as int)),
                dual == families@.take(i as int).contains(VolteIpFamily::Ipv4v6),
            decreases families@.len() - i,
        {
            let family = families[i];
            proof {
                let next = families@.take(i as int + 1);
                assert(next.drop_last() =~= families@.take(i as int));
                assert(next.last() == family);
                assert(next =~= families@.take(i as int).push(family));
                lemma_push_contains(families@.take(i as int), family, VolteIpFamily::Ipv4v6);
            }
            let (ip_type, single) = match family {
                VolteIpFamily::Ipv4v6 => (IpType::Ipv4v6, None),
                VolteIpFamily::Ipv4 => (IpType::Ipv4, Some(IpFamily::Ipv4)),
                VolteIpFamily::Ipv6 => (IpType::Ipv6, Some(IpFamily::Ipv6)),
            };
            if !has_type(&bearer_attempts, ip_type) {
                bearer_attempts.push(ip_type);
            }
            match single {
                Some(single) => {
                    if !has_family(&pcscf_order, single) {
                        pcscf_order.push(single);
                    }
                },
                None => {
                    dual = true;
                },
            }
            i += 1;
        }
        proof {
            assert(families@.take(families@.len() as int) =~= families@);
            list_attempts_are_its_entries(families@);
        }
        if dual {
            if !has_family(&pcscf_order, IpFamily::Ipv4) {
                pcscf_order.push(IpFamily::Ipv4);
            }
            if !has_family(&pcscf_order, IpFamily::Ipv6) {
                pcscf_order.push(IpFamily::Ipv6);
            }
        }
        ImsConnectionPlan {
            preference: preference_for_pcscf_order(&pcscf_order),
            bearer_attempts,
            pcscf_order,
        }
    }

    /// Applies a catalog row's IP stack as a hint: it reorders the single-family
    /// fallbacks and never removes one.
    pub fn with_catalog_ip_stack_hint(self, ip_stack: &str) -> (r: Self)
        ensures
            lower(text::trimmed(ip_stack@)) == "ipv4"@ ==> r.attempts() == preset_attempts(
                VolteIpFamilyPreference::Ipv4First,
            ) && r.order() == preset_order(VolteIpFamilyPreference::Ipv4First) && r.label()
                == VolteIpFamilyPreference::Ipv4First,
            lower(text::trimmed(ip_stack@)) == "ipv6"@ ==> r.attempts() == preset_attempts(
                VolteIpFamilyPreference::Ipv6First,
            ) && r.order() == preset_order(VolteIpFamilyPreference::Ipv6First) && r.label()
                == VolteIpFamilyPreference::Ipv6First,
            lower(text::trimmed(ip_stack@)) != "ipv4"@ && lower(text::trimmed(ip_stack@))
                != "ipv6"@ ==> r == self,
    {
        let stack = text::lower_case(text::trim(ip_stack).as_str());
        proof {
            reveal_strlit("ipv4");
            reveal_strlit("ipv6");
            assert("ipv4"@[3] != "ipv6"@[3]);
        }
        if text::same(stack.as_str(), "ipv4") {
            Self::from_preference(VolteIpFamilyPreference::Ipv4First)
        } else if text::same(stack.as_str(), "ipv6") {
            Self::from_preference(VolteIpFamilyPreference::Ipv6First)
        } else {
            self
        }
    }

    pub fn preference(&self) -> (r: VolteIpFamilyPreference)
        ensures
            r == self.label(),
    {
        self.preference
    }

    /// Every bearer attempt, in plan order.
    pub fn bearer_attempts(&self) -> (r: &[IpType])
        ensures
            r@ == self.attempts(),
            r@.len() > 0,
            r@.no_duplicates(),
    {
        proof {
            use_type_invariant(self);
        }
        self.bearer_attempts.as_slice()
    }

    /// The first bearer attempt.
    pub fn initial_bearer_attempt(&self) -> (r: IpType)
        ensures
            self.attempts().len() > 0,
            r == self.attempts()[0],
    {
        proof {
            use_type_invariant(self);
        }
        self.bearer_attempts[0]
    }

    /// The attempts to make after the first one failed, in plan order.
    pub fn single_family_fallbacks(&self) -> (r: Vec<IpType>)
        ensures
            r@ == self.attempts().skip(1),
    {
        proof {
            use_type_invariant(self);
        }
        let rest = vstd::slice::slice_subrange(
            self.bearer_attempts.as_slice(),
            1,
            self.bearer_attempts.len(),
        );
        proof {
            assert(rest@ =~= self.attempts().skip(1));
        }
        vstd::slice::slice_to_vec(rest)
    }

    /// The attempts to make after a dual-stack failure: a family that the network
    /// forces, or else the plan's fallbacks.
    pub fn bearer_fallbacks_after(&self, class: FailureClass) -> (r: Vec<IpType>)
        ensures
            r@ == self.fallbacks(class),
    {
        match class.forced_family() {
            Some(IpFamily::Ipv6) => vec![IpType::Ipv6],
            Some(IpFamily::Ipv4) => vec![IpType::Ipv4],
            None => self.single_family_fallbacks(),
        }
    }

    pub open spec fn fallbacks(&self, class: FailureClass) -> Seq<IpType> {
        match class.forced_family() {
            Some(IpFamily::Ipv6) => seq![IpType::Ipv6],
            Some(IpFamily::Ipv4) => seq![IpType::Ipv4],
            None => self.attempts().skip(1),
        }
    }

    /// The `+CGDCONT` types to probe, in plan order.
    pub fn pdp_types(&self) -> (r: Vec<&'static str>)
        ensures
            r@.len() == self.attempts().len(),
            forall|i: int| 0 <= i < r@.len() ==> (#[trigger] r@[i])@ == self.attempts()[i].pdp_name(),
    {
        let mut out: Vec<&'static str> = Vec::with_capacity(self.bearer_attempts.len());
        let mut i: usize = 0;
        while i < self.bearer_attempts.len()
            invariant
                i <= self.attempts().len(),
                self.attempts() == self.bearer_attempts@,
                out@.len() == i,
                forall|j: int| 0 <= j < i ==> (#[trigger] out@[j])@ == self.attempts()[j].pdp_name(),
            decreases self.attempts().len() - i,
        {
            out.push(self.bearer_attempts[i].as_pdp_str());
            i += 1;
        }
        out
    }

    /// The single families for P-CSCF and SIP, in plan order.
    pub fn pcscf_order(&self) -> (r: &[IpFamily])
        ensures
            r@ == self.order(),
    {
        self.pcscf_order.as_slice()
    }
}

impl Clone for ImsConnectionPlan {
    fn clone(&self) -> (r: Self)
        ensures
            r.label() == self.label(),
            r.attempts() == self.attempts(),
            r.order() == self.order(),
    {
        proof {
            use_type_invariant(self);
        }
        ImsConnectionPlan {
            preference: self.preference,
            bearer_attempts: vstd::slice::slice_to_vec(self.bearer_attempts.as_slice()),
            pcscf_order: vstd::slice::slice_to_vec(self.pcscf_order.as_slice()),
        }
    }
}

} // verus!
