//! The IP settings of an IMS bearer.

use vstd::prelude::*;

use crate::errors::{code, failure, VolteError};
use crate::ip::{address_of, parse_ip, IpAddr};
use crate::plan::{with, ImsConnectionPlan, IpFamily};
use crate::text;
use crate::text::{halves, lines_of, lower, pieces, texts, trimmed, words};

pub mod labelled;

verus! {

/// The IP settings of an IMS bearer.
#[derive(Debug, PartialEq, Eq)]
pub struct ImsIpSettings {
    pub ipv6_address: Option<IpAddr>,
    pub ipv6_gateway: Option<IpAddr>,
    pub ipv6_dns: Vec<IpAddr>,
    pub ipv4_address: Option<IpAddr>,
    pub ipv4_gateway: Option<IpAddr>,
    pub ipv4_dns: Vec<IpAddr>,
    /// P-CSCF addresses that the network delivered itself.
    pub pcscf: Vec<IpAddr>,
}

pub struct SettingsView {
    pub ipv6_address: Option<IpAddr>,
    pub ipv6_gateway: Option<IpAddr>,
    pub ipv6_dns: Seq<IpAddr>,
    pub ipv4_address: Option<IpAddr>,
    pub ipv4_gateway: Option<IpAddr>,
    pub ipv4_dns: Seq<IpAddr>,
    pub pcscf: Seq<IpAddr>,
}

impl View for ImsIpSettings {
    type V = SettingsView;

    open spec fn view(&self) -> SettingsView {
        SettingsView {
            ipv6_address: self.ipv6_address,
            ipv6_gateway: self.ipv6_gateway,
            ipv6_dns: self.ipv6_dns@,
            ipv4_address: self.ipv4_address,
            ipv4_gateway: self.ipv4_gateway,
            ipv4_dns: self.ipv4_dns@,
            pcscf: self.pcscf@,
        }
    }
}

/// No settings.
pub open spec fn no_settings() -> SettingsView {
    SettingsView {
        ipv6_address: None,
        ipv6_gateway: None,
        ipv6_dns: Seq::empty(),
        ipv4_address: None,
        ipv4_gateway: None,
        ipv4_dns: Seq::empty(),
        pcscf: Seq::empty(),
    }
}

impl Default for ImsIpSettings {
    fn default() -> (r: Self)
        ensures
            r@ == no_settings(),
    {
        ImsIpSettings {
            ipv6_address: None,
            ipv6_gateway: None,
            ipv6_dns: Vec::new(),
            ipv4_address: None,
            ipv4_gateway: None,
            ipv4_dns: Vec::new(),
            pcscf: Vec::new(),
        }
    }
}

impl Clone for ImsIpSettings {
    fn clone(&self) -> (r: Self)
        ensures
            r@ == self@,
    {
        ImsIpSettings {
            ipv6_address: self.ipv6_address,
            ipv6_gateway: self.ipv6_gateway,
            ipv6_dns: vstd::slice::slice_to_vec(self.ipv6_dns.as_slice()),
            ipv4_address: self.ipv4_address,
            ipv4_gateway: self.ipv4_gateway,
            ipv4_dns: vstd::slice::slice_to_vec(self.ipv4_dns.as_slice()),
            pcscf: vstd::slice::slice_to_vec(self.pcscf.as_slice()),
        }
    }
}

pub open spec fn family_matches(left: IpAddr, right: IpAddr) -> bool {
    left.is_ipv6() == right.is_ipv6()
}

/// Whether two addresses are of one family.
pub fn same_family(left: IpAddr, right: IpAddr) -> (r: bool)
    ensures
        r == family_matches(left, right),
{
    left.is_ipv6() == right.is_ipv6()
}

/// The first address of the family of `local`.
pub open spec fn first_of_family(list: Seq<IpAddr>, local: IpAddr) -> Option<IpAddr>
    decreases list.len(),
{
    if list.len() == 0 {
        None
    } else if family_matches(local, list[0]) {
        Some(list[0])
    } else {
        first_of_family(list.drop_first(), local)
    }
}

/// An address that was found is in the list and of the right family.
pub proof fn lemma_first_of_family(list: Seq<IpAddr>, local: IpAddr)
    ensures
        match first_of_family(list, local) {
            Some(found) => list.contains(found) && family_matches(local, found),
            None => forall|i: int|
                0 <= i < list.len() ==> !family_matches(local, #[trigger] list[i]),
        },
    decreases list.len(),
{
    if list.len() > 0 {
        if family_matches(local, list[0]) {
            assert(list.contains(list[0]));
        } else {
            lemma_first_of_family(list.drop_first(), local);
            match first_of_family(list.drop_first(), local) {
                Some(found) => {
                    let i = list.drop_first().index_of(found);
                    assert(list[i + 1] == found);
                },
                None => {
                    assert forall|i: int| 0 <= i < list.len() implies !family_matches(
                        local,
                        #[trigger] list[i],
                    ) by {
                        if i > 0 {
                            assert(list.drop_first()[i - 1] == list[i]);
                        }
                    }
                },
            }
        }
    }
}

/// Finds the first address of the family of `local`.
pub fn find_of_family(list: &[IpAddr], local: IpAddr) -> (r: Option<IpAddr>)
    ensures
        r == first_of_family(list@, local),
{
    let mut i: usize = 0;
    proof {
        assert(list@.skip(0) =~= list@);
    }
    while i < list.len()
        invariant
            i <= list@.len(),
            first_of_family(list@, local) == first_of_family(list@.skip(i as int), local),
        decreases list@.len() - i,
    {
        proof {
            assert(list@.skip(i as int).drop_first() =~= list@.skip(i as int + 1));
            assert(list@.skip(i as int)[0] == list@[i as int]);
        }
        if same_family(local, list[i]) {
            return Some(list[i]);
        }
        i += 1;
    }
    None
}

fn has_address(list: &Vec<IpAddr>, addr: IpAddr) -> (r: bool)
    ensures
        r == list@.contains(addr),
{
    let mut i: usize = 0;
    while i < list.len()
        invariant
            i <= list@.len(),
            forall|j: int| 0 <= j < i ==> list@[j] != addr,
        decreases list@.len() - i,
    {
        if list[i] == addr {
            assert(list@[i as int] == addr);
            return true;
        }
        i += 1;
    }
    false
}

/// Appends an address, unless it is in the list already.
pub fn push_new(list: &mut Vec<IpAddr>, addr: IpAddr)
    ensures
        final(list)@ == with(old(list)@, addr),
{
    if !has_address(list, addr) {
        list.push(addr);
    }
}

/// The list with the addresses of another one appended, each once.
pub open spec fn with_all(list: Seq<IpAddr>, more: Seq<IpAddr>) -> Seq<IpAddr>
    decreases more.len(),
{
    if more.len() == 0 {
        list
    } else {
        with(with_all(list, more.drop_last()), more.last())
    }
}

/// Appends the addresses of another list, each once.
pub fn push_all_new(list: &mut Vec<IpAddr>, more: &[IpAddr])
    ensures
        final(list)@ == with_all(old(list)@, more@),
{
    let ghost before = list@;
    let mut i: usize = 0;
    proof {
        assert(more@.take(0) =~= Seq::<IpAddr>::empty());
    }
    while i < more.len()
        invariant
            i <= more@.len(),
            list@ == with_all(before, more@.take(i as int)),
        decreases more@.len() - i,
    {
        proof {
            assert(more@.take(i as int + 1).drop_last() =~= more@.take(i as int));
        }
        push_new(list, more[i]);
        i += 1;
    }
    proof {
        assert(more@.take(more@.len() as int) =~= more@);
    }
}

/// The optional address at the end of the list, unless it is there already.
pub open spec fn with_opt(list: Seq<IpAddr>, addr: Option<IpAddr>) -> Seq<IpAddr> {
    match addr {
        Some(addr) => with(list, addr),
        None => list,
    }
}

impl SettingsView {
    /// The bearer's address in one family.
    pub open spec fn address_in(self, family: IpFamily) -> Option<IpAddr> {
        match family {
            IpFamily::Ipv6 => self.ipv6_address,
            IpFamily::Ipv4 => self.ipv4_address,
        }
    }

    /// The bearer's addresses in the order of the families.
    pub open spec fn ordered(self, order: Seq<IpFamily>) -> Seq<IpAddr>
        decreases order.len(),
    {
        if order.len() == 0 {
            Seq::empty()
        } else {
            with_opt(self.ordered(order.drop_last()), self.address_in(order.last()))
        }
    }

    /// The preferred local address: IPv6 before IPv4.
    pub open spec fn preferred(self) -> Option<IpAddr> {
        if self.ipv6_address is Some {
            self.ipv6_address
        } else {
            self.ipv4_address
        }
    }
}

impl ImsIpSettings {
    /// The preferred local address: IPv6 before IPv4.
    pub fn local_addr(&self) -> (r: Option<IpAddr>)
        ensures
            r == self@.preferred(),
    {
        match self.ipv6_address {
            Some(addr) => Some(addr),
            None => self.ipv4_address,
        }
    }

    /// The local address in the family of a destination.
    pub fn local_addr_for_family(&self, destination: IpAddr) -> (r: Option<IpAddr>)
        ensures
            r == (if destination.is_ipv6() {
                self.ipv6_address
            } else {
                self.ipv4_address
            }),
    {
        if destination.is_ipv6() {
            self.ipv6_address
        } else {
            self.ipv4_address
        }
    }

    /// The next hop in the family of a destination.
    pub fn gateway_for_family(&self, destination: IpAddr) -> (r: Option<IpAddr>)
        ensures
            r == (if destination.is_ipv6() {
                self.ipv6_gateway
            } else {
                self.ipv4_gateway
            }),
    {
        if destination.is_ipv6() {
            self.ipv6_gateway
        } else {
            self.ipv4_gateway
        }
    }

    /// The bearer's addresses in the plan's family order.
    pub fn ordered_local_addrs(&self, plan: &ImsConnectionPlan) -> (r: Vec<IpAddr>)
        ensures
            r@ == self@.ordered(plan.order()),
    {
        self.ordered_by(plan.pcscf_order())
    }

    /// The bearer's addresses in a family order.
    pub fn ordered_by(&self, order: &[IpFamily]) -> (r: Vec<IpAddr>)
        ensures
            r@ == self@.ordered(order@),
    {
        let mut addresses: Vec<IpAddr> = Vec::with_capacity(2);
        let mut i: usize = 0;
        proof {
            assert(order@.take(0) =~= Seq::<IpFamily>::empty());
        }
        while i < order.len()
            invariant
                i <= order@.len(),
                addresses@ == self@.ordered(order@.take(i as int)),
            decreases order@.len() - i,
        {
            proof {
                assert(order@.take(i as int + 1).drop_last() =~= order@.take(i as int));
            }
            let addr = match order[i] {
                IpFamily::Ipv6 => self.ipv6_address,
                IpFamily::Ipv4 => self.ipv4_address,
            };
            if let Some(addr) = addr {
                push_new(&mut addresses, addr);
            }
            i += 1;
        }
        proof {
            assert(order@.take(order@.len() as int) =~= order@);
        }
        addresses
    }

    /// A P-CSCF that the network delivered itself, in the family of `local`. Name
    /// servers are never taken for one.
    pub fn resolve_pcscf_for(&self, local: IpAddr) -> (r: Result<IpAddr, VolteError>)
        ensures
            match r {
                Ok(addr) => first_of_family(self.pcscf@, local) == Some(addr),
                Err(error) => first_of_family(self.pcscf@, local) is None && error@ == failure(
                    code::RUNTIME_ALL_PCSCF_FAILED@,
                ),
            },
    {
        match find_of_family(self.pcscf.as_slice(), local) {
            Some(addr) => Ok(addr),
            None => Err(VolteError::new(code::RUNTIME_ALL_PCSCF_FAILED)),
        }
    }

    /// The P-CSCF, where it is of the family of `local`.
    pub fn ensure_family_match(&self, local: IpAddr, pcscf: IpAddr) -> (r: Result<
        IpAddr,
        VolteError,
    >)
        ensures
            match r {
                Ok(addr) => family_matches(local, pcscf) && addr == pcscf,
                Err(error) => !family_matches(local, pcscf) && error@ == failure(
                    code::PCSCF_FAMILY_MISMATCH@,
                ),
            },
    {
        if same_family(local, pcscf) {
            Ok(pcscf)
        } else {
            Err(VolteError::new(code::PCSCF_FAMILY_MISMATCH))
        }
    }
}

// ---------------------------------------------------------------------------
// Reading settings.

/// The address at the start of a value, without a prefix length or netmask.
pub open spec fn address_in_value(value: Seq<char>) -> Option<IpAddr> {
    let head = if words(value).len() > 0 {
        words(value)[0]
    } else {
        value
    };
    address_of(pieces(head, '/')[0])
}

/// Reads the address at the start of a value.
pub fn parse_addr(value: &str) -> (r: Option<IpAddr>)
    ensures
        r == address_in_value(value@),
{
    let w = text::split_words(value);
    proof {
        assert(texts(w@).len() == w@.len());
    }
    let head = if w.len() > 0 {
        proof {
            assert(texts(w@)[0] == w@[0]@);
        }
        w[0].clone()
    } else {
        value.to_string()
    };
    let p = text::split(head.as_str(), '/');
    proof {
        text::lemma_pieces_nonempty(head@, '/');
        assert(texts(p@).len() == p@.len());
        assert(texts(p@)[0] == p@[0]@);
    }
    parse_ip(p[0].as_str())
}

/// The settings with what one labelled value adds.
pub open spec fn with_setting(
    s: SettingsView,
    label: Seq<char>,
    value: Seq<char>,
) -> SettingsView {
    let addr = address_in_value(value);
    if label == "ipv6 address"@ {
        SettingsView { ipv6_address: addr, ..s }
    } else if label == "ipv6 gateway address"@ || label == "ipv6 gateway"@ {
        SettingsView { ipv6_gateway: addr, ..s }
    } else if label == "ipv6 primary dns"@ || label == "ipv6 secondary dns"@ {
        SettingsView { ipv6_dns: with_opt(s.ipv6_dns, addr), ..s }
    } else if label == "ipv4 address"@ {
        SettingsView { ipv4_address: addr, ..s }
    } else if label == "ipv4 gateway address"@ || label == "ipv4 gateway"@ {
        SettingsView { ipv4_gateway: addr, ..s }
    } else if label == "ipv4 primary dns"@ || label == "ipv4 secondary dns"@ {
        SettingsView { ipv4_dns: with_opt(s.ipv4_dns, addr), ..s }
    } else if label == "p-cscf"@ || label == "pcscf"@ {
        SettingsView { pcscf: with_opt(s.pcscf, addr), ..s }
    } else {
        s
    }
}

/// The settings with what one line adds.
pub open spec fn with_line(s: SettingsView, line: Seq<char>) -> SettingsView {
    match halves(line, ':') {
        Some((label, value)) => if trimmed(value).len() > 0 {
            with_setting(s, lower(trimmed(label)), trimmed(value))
        } else {
            s
        },
        None => s,
    }
}

/// The settings that lines give, the later over the earlier.
pub open spec fn settings_in(lines: Seq<Seq<char>>) -> SettingsView
    decreases lines.len(),
{
    if lines.len() == 0 {
        no_settings()
    } else {
        with_line(settings_in(lines.drop_last()), lines.last())
    }
}

fn push_opt(list: &mut Vec<IpAddr>, addr: Option<IpAddr>)
    ensures
        final(list)@ == with_opt(old(list)@, addr),
{
    match addr {
        Some(addr) => push_new(list, addr),
        None => {},
    }
}

fn apply_setting(s: &mut ImsIpSettings, label: &str, value: &str)
    ensures
        final(s)@ == with_setting(old(s)@, label@, value@),
{
    let addr = parse_addr(value);
    if text::same(label, "ipv6 address") {
        s.ipv6_address = addr;
    } else if text::same(label, "ipv6 gateway address") || text::same(label, "ipv6 gateway") {
        s.ipv6_gateway = addr;
    } else if text::same(label, "ipv6 primary dns") || text::same(label, "ipv6 secondary dns") {
        push_opt(&mut s.ipv6_dns, addr);
    } else if text::same(label, "ipv4 address") {
        s.ipv4_address = addr;
    } else if text::same(label, "ipv4 gateway address") || text::same(label, "ipv4 gateway") {
        s.ipv4_gateway = addr;
    } else if text::same(label, "ipv4 primary dns") || text::same(label, "ipv4 secondary dns") {
        push_opt(&mut s.ipv4_dns, addr);
    } else if text::same(label, "p-cscf") || text::same(label, "pcscf") {
        push_opt(&mut s.pcscf, addr);
    }
}

/// Reads settings from lines of the form `Label: value`.
pub fn parse_ip_settings(block: &str) -> (r: ImsIpSettings)
    ensures
        r@ == settings_in(lines_of(block@)),
{
    let lines = text::lines(block);
    let ghost all = texts(lines@);
    let mut s = ImsIpSettings::default();
    let mut i: usize = 0;
    proof {
        assert(all.take(0) =~= Seq::<Seq<char>>::empty());
    }
    while i < lines.len()
        invariant
            i <= lines@.len(),
            all == texts(lines@),
            s@ == settings_in(all.take(i as int)),
        decreases lines@.len() - i,
    {
        proof {
            assert(all.take(i as int + 1).drop_last() =~= all.take(i as int));
            assert(all.take(i as int + 1).last() == lines@[i as int]@);
        }
        if let Some((label, value)) = text::split_once(lines[i].as_str(), ':') {
            let value = text::trim(value.as_str());
            if !value.as_str().is_empty() {
                let label = text::lower_case(text::trim(label.as_str()).as_str());
                apply_setting(&mut s, label.as_str(), value.as_str());
            }
        }
        i += 1;
    }
    proof {
        assert(all.take(all.len() as int) =~= all);
    }
    s
}

} // verus!
