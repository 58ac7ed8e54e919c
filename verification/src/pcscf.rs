//! Finding the P-CSCF: what is asked where, and in which order.

use vstd::prelude::*;
use vstd::string::*;

use crate::at;
use crate::at::{
    active_cids, activation_command, activation_text, cids_for, contexts_in, contexts_of,
    define_context_command, define_text, pcscf_in, pcscf_reporting_command, reporting_text,
    restore_profile_command, restore_text, PdpContext, PROFILE_PCSCF_READ_ROUNDS,
};
use crate::dns::{DnsRecords, RecordsView, DNS_TYPE_A, DNS_TYPE_AAAA, DNS_TYPE_SRV};
use crate::errors::{code, detailed, failure, opt_error, VolteError};
use crate::ip::{address_of, parse_ip, IpAddr, SocketAddr};
use crate::ip_settings;
use crate::ip_settings::{
    family_matches, first_of_family, push_new, push_all_new, with_all, ImsIpSettings, SettingsView,
};
use crate::lists::has_number;
use crate::plan::{with, ImsConnectionPlan, IpType};
use crate::text;
use crate::text::{decimal, has_prefix, lines_of, opt, texts, trimmed, words};

pub mod finding;

verus! {

/// The port that SIP is spoken on.
pub const SIP_PORT: u16 = 5060;

/// The SIP endpoint of a P-CSCF.
pub fn pcscf_socket(address: IpAddr) -> (r: SocketAddr)
    ensures
        r == (SocketAddr { ip: address, port: SIP_PORT }),
{
    SocketAddr::new(address, SIP_PORT)
}

// ---------------------------------------------------------------------------
// Lists of addresses.

/// The text with commas and semicolons turned into spaces.
pub open spec fn separators_blanked(s: Seq<char>) -> Seq<char> {
    Seq::new(
        s.len(),
        |i: int|
            if s[i] == ',' || s[i] == ';' {
                ' '
            } else {
                s[i]
            },
    )
}

/// The addresses among words, each once.
pub open spec fn addresses_in(w: Seq<Seq<char>>) -> Seq<IpAddr>
    decreases w.len(),
{
    if w.len() == 0 {
        Seq::empty()
    } else {
        match address_of(w.last()) {
            Some(addr) => with(addresses_in(w.drop_last()), addr),
            None => addresses_in(w.drop_last()),
        }
    }
}

/// The addresses in a list with commas, semicolons or white space between them.
pub open spec fn listed_addresses(value: Seq<char>) -> Seq<IpAddr> {
    addresses_in(words(separators_blanked(value)))
}

/// Reads the addresses of a list.
pub fn parse_pcscf_override(value: &str) -> (r: Vec<IpAddr>)
    ensures
        r@ == listed_addresses(value@),
{
    let c = text::chars(value);
    let mut blanked: Vec<char> = Vec::new();
    let mut i: usize = 0;
    while i < c.len()
        invariant
            i <= c@.len(),
            blanked@.len() == i,
            forall|j: int| 0 <= j < i ==> blanked@[j] == separators_blanked(c@)[j],
        decreases c@.len() - i,
    {
        blanked.push(
            if c[i] == ',' || c[i] == ';' {
                ' '
            } else {
                c[i]
            },
        );
        i += 1;
    }
    proof {
        assert(blanked@ =~= separators_blanked(value@));
    }
    let w = text::split_words(text::string(blanked.as_slice()).as_str());
    let ghost all = texts(w@);
    let mut out: Vec<IpAddr> = Vec::new();
    let mut k: usize = 0;
    proof {
        assert(all.take(0) =~= Seq::<Seq<char>>::empty());
    }
    while k < w.len()
        invariant
            k <= w@.len(),
            all == texts(w@),
            out@ == addresses_in(all.take(k as int)),
        decreases w@.len() - k,
    {
        proof {
            assert(all.take(k as int + 1).drop_last() =~= all.take(k as int));
            assert(all.take(k as int + 1).last() == w@[k as int]@);
        }
        if let Some(addr) = parse_ip(w[k].as_str()) {
            push_new(&mut out, addr);
        }
        k += 1;
    }
    proof {
        assert(all.take(all.len() as int) =~= all);
    }
    out
}

// ---------------------------------------------------------------------------
// The configured host.

/// The text without the copies of `prefix` at its start.
pub open spec fn without_prefixes(s: Seq<char>, prefix: Seq<char>) -> Seq<char>
    decreases s.len(),
{
    if prefix.len() > 0 && has_prefix(s, prefix) {
        without_prefixes(s.skip(prefix.len() as int), prefix)
    } else {
        s
    }
}

pub open spec fn is_bracket(c: char) -> bool {
    c == '[' || c == ']'
}

pub open spec fn unbracket_start(s: Seq<char>) -> Seq<char>
    decreases s.len(),
{
    if s.len() > 0 && is_bracket(s[0]) {
        unbracket_start(s.drop_first())
    } else {
        s
    }
}

pub open spec fn unbracket_end(s: Seq<char>) -> Seq<char>
    decreases s.len(),
{
    if s.len() > 0 && is_bracket(s.last()) {
        unbracket_end(s.drop_last())
    } else {
        s
    }
}

/// How many characters stand before the first `;` or `:`.
pub open spec fn host_len(s: Seq<char>) -> int
    decreases s.len(),
{
    if s.len() == 0 || s[0] == ';' || s[0] == ':' {
        0
    } else {
        1 + host_len(s.drop_first())
    }
}

/// The host name in a configured P-CSCF: without scheme, brackets, port and
/// parameters.
pub open spec fn configured_host_of(value: Seq<char>) -> Seq<char> {
    let bare = unbracket_end(
        unbracket_start(without_prefixes(without_prefixes(value, "sip:"@), "sips:"@)),
    );
    bare.take(host_len(bare))
}

fn drop_prefixes(s: &str, prefix: &str) -> (r: String)
    requires
        prefix@.len() > 0,
    ensures
        r@ == without_prefixes(s@, prefix@),
{
    let mut rest = s.to_string();
    loop
        invariant
            prefix@.len() > 0,
            without_prefixes(s@, prefix@) == without_prefixes(rest@, prefix@),
        decreases rest@.len(),
    {
        match text::strip_prefix(rest.as_str(), prefix) {
            Some(next) => {
                rest = next;
            },
            None => return rest,
        }
    }
}

/// Reads the host name in a configured P-CSCF.
pub fn configured_host(value: &str) -> (r: String)
    ensures
        r@ == configured_host_of(value@),
{
    proof {
        reveal_strlit("sip:");
        reveal_strlit("sips:");
    }
    let bare = drop_prefixes(drop_prefixes(value, "sip:").as_str(), "sips:");
    let c = text::chars(bare.as_str());
    let mut from: usize = 0;
    proof {
        assert(c@.skip(0) =~= c@);
    }
    while from < c.len() && (c[from] == '[' || c[from] == ']')
        invariant
            from <= c.len(),
            unbracket_start(c@) == unbracket_start(c@.skip(from as int)),
        decreases c.len() - from,
    {
        proof {
            assert(c@.skip(from as int).drop_first() =~= c@.skip(from as int + 1));
        }
        from += 1;
    }
    let ghost rest = c@.skip(from as int);
    assert(unbracket_start(c@) == rest);
    proof {
        assert(c@.subrange(from as int, c@.len() as int) =~= rest);
    }
    let mut to: usize = c.len();
    while to > from && (c[to - 1] == '[' || c[to - 1] == ']')
        invariant
            from <= to <= c.len(),
            rest == c@.skip(from as int),
            unbracket_end(rest) == unbracket_end(c@.subrange(from as int, to as int)),
        decreases to,
    {
        proof {
            let now = c@.subrange(from as int, to as int);
            assert(now.drop_last() =~= c@.subrange(from as int, to as int - 1));
            assert(now.last() == c@[to as int - 1]);
        }
        to -= 1;
    }
    let ghost inner = c@.subrange(from as int, to as int);
    proof {
        if inner.len() > 0 {
            assert(inner.last() == c@[to as int - 1]);
        }
        assert(unbracket_end(inner) == inner);
        assert(inner.skip(0) =~= inner);
    }
    let mut end: usize = from;
    while end < to && c[end] != ';' && c[end] != ':'
        invariant
            from <= end <= to <= c@.len(),
            inner == c@.subrange(from as int, to as int),
            host_len(inner) == end - from + host_len(inner.skip(end - from)),
        decreases to - end,
    {
        proof {
            let now = inner.skip(end - from);
            assert(now.drop_first() =~= inner.skip(end - from + 1));
            assert(now[0] == c@[end as int]);
        }
        end += 1;
    }
    proof {
        if end < to {
            assert(inner.skip(end - from)[0] == c@[end as int]);
        }
        assert(c@.subrange(from as int, end as int) =~= inner.take(end - from));
    }
    text::part(c.as_slice(), from, end)
}

// ---------------------------------------------------------------------------
// DNS names.

/// The names under which the P-CSCF service is looked up, the 3GPP ones first.
pub fn pcscf_srv_names(home_domain: &str) -> (r: Vec<String>)
    ensures
        texts(r@) == srv_names_of(home_domain@),
{
    let mut a = "_sip._udp.pcscf.".to_string();
    a.append(home_domain);
    let mut b = "_sip._tcp.pcscf.".to_string();
    b.append(home_domain);
    let mut c = "_sip._udp.".to_string();
    c.append(home_domain);
    let mut d = "_sip._tcp.".to_string();
    d.append(home_domain);
    let names = vec![a, b, c, d];
    proof {
        assert(texts(names@) =~= srv_names_of(home_domain@));
    }
    names
}

pub open spec fn srv_names_of(domain: Seq<char>) -> Seq<Seq<char>> {
    seq![
        "_sip._udp.pcscf."@ + domain,
        "_sip._tcp.pcscf."@ + domain,
        "_sip._udp."@ + domain,
        "_sip._tcp."@ + domain,
    ]
}

/// The record type of addresses in the family of `local`.
pub open spec fn address_type_of(local: IpAddr) -> u16 {
    if local.is_ipv6() {
        DNS_TYPE_AAAA
    } else {
        DNS_TYPE_A
    }
}

/// The servers of the family of `local`, in order.
pub open spec fn servers_for(servers: Seq<IpAddr>, local: IpAddr) -> Seq<IpAddr>
    decreases servers.len(),
{
    if servers.len() == 0 {
        Seq::empty()
    } else {
        let front = servers_for(servers.drop_last(), local);
        if family_matches(local, servers.last()) {
            front.push(servers.last())
        } else {
            front
        }
    }
}

fn select_servers(servers: &[IpAddr], local: IpAddr) -> (r: Vec<IpAddr>)
    ensures
        r@ == servers_for(servers@, local),
{
    let mut out: Vec<IpAddr> = Vec::new();
    let mut i: usize = 0;
    proof {
        assert(servers@.take(0) =~= Seq::<IpAddr>::empty());
    }
    while i < servers.len()
        invariant
            i <= servers@.len(),
            out@ == servers_for(servers@.take(i as int), local),
        decreases servers@.len() - i,
    {
        proof {
            assert(servers@.take(i as int + 1).drop_last() =~= servers@.take(i as int));
        }
        if ip_settings::same_family(local, servers[i]) {
            out.push(servers[i]);
        }
        i += 1;
    }
    proof {
        assert(servers@.take(servers@.len() as int) =~= servers@);
    }
    out
}

// ---------------------------------------------------------------------------
// The search.

/// A P-CSCF that is known without asking: from the environment, from the
/// network itself, or configured as an address.
pub open spec fn known_pcscf(
    environment: Option<Seq<char>>,
    settings: SettingsView,
    configured: Option<Seq<char>>,
    local: IpAddr,
) -> Option<IpAddr> {
    let from_environment = match environment {
        Some(value) => first_of_family(listed_addresses(value), local),
        None => None,
    };
    let from_configuration = match configured {
        Some(value) => if trimmed(value).len() > 0 {
            first_of_family(listed_addresses(trimmed(value)), local)
        } else {
            None
        },
        None => None,
    };
    if from_environment is Some {
        from_environment
    } else if first_of_family(settings.pcscf, local) is Some {
        first_of_family(settings.pcscf, local)
    } else {
        from_configuration
    }
}

/// The configured host to look up, where one is configured.
pub open spec fn host_to_look_up(configured: Option<Seq<char>>) -> Option<Seq<char>> {
    match configured {
        Some(value) => if trimmed(value).len() > 0 {
            Some(configured_host_of(trimmed(value)))
        } else {
            None
        },
        None => None,
    }
}

/// The name servers of the family of `local`.
pub open spec fn search_servers(settings: SettingsView, local: IpAddr) -> Seq<IpAddr> {
    if local.is_ipv6() {
        servers_for(settings.ipv6_dns, local)
    } else {
        servers_for(settings.ipv4_dns, local)
    }
}

/// How far the search has come.
#[derive(Debug, Clone, Copy, PartialEq, Eq, Structural)]
pub enum SearchPosition {
    /// The configured host at this server.
    Configured { server: usize },
    /// The address of the P-CSCF name at this server.
    Address { server: usize },
    /// This service name at this server.
    Service { server: usize, name: usize },
    /// This target of the service name at this server.
    Target { server: usize, name: usize, target: usize },
    /// Nothing is left to ask.
    Exhausted,
}

/// A search for the P-CSCF by DNS.
#[derive(Debug, PartialEq, Eq)]
pub struct PcscfSearch {
    pub local: IpAddr,
    pub servers: Vec<IpAddr>,
    pub configured_host: Option<String>,
    pub home_domain: String,
    /// The targets of the service name that is being looked up.
    pub targets: Vec<String>,
    pub position: SearchPosition,
}

/// A question to a name server.
#[derive(Debug, PartialEq, Eq)]
pub struct DnsQuestion {
    pub server: IpAddr,
    pub name: String,
    pub record_type: u16,
}

pub struct QuestionView {
    pub server: IpAddr,
    pub name: Seq<char>,
    pub record_type: u16,
}

impl View for DnsQuestion {
    type V = QuestionView;

    open spec fn view(&self) -> QuestionView {
        QuestionView { server: self.server, name: self.name@, record_type: self.record_type }
    }
}

pub struct SearchView {
    pub local: IpAddr,
    pub servers: Seq<IpAddr>,
    pub configured_host: Option<Seq<char>>,
    pub home_domain: Seq<char>,
    pub targets: Seq<Seq<char>>,
    pub position: SearchPosition,
}

impl View for PcscfSearch {
    type V = SearchView;

    open spec fn view(&self) -> SearchView {
        SearchView {
            local: self.local,
            servers: self.servers@,
            configured_host: opt(self.configured_host),
            home_domain: self.home_domain@,
            targets: texts(self.targets@),
            position: self.position,
        }
    }
}

/// The position at server `server`, or the end where there is none.
pub open spec fn at_server(servers: int, server: int) -> SearchPosition {
    if server < servers {
        SearchPosition::Address { server: server as usize }
    } else {
        SearchPosition::Exhausted
    }
}

/// The position behind the service name `name` at a server.
pub open spec fn behind_name(servers: int, server: int, name: int) -> SearchPosition {
    if name + 1 < 4 {
        SearchPosition::Service { server: server as usize, name: (name + 1) as usize }
    } else {
        at_server(servers, server + 1)
    }
}

impl SearchView {
    /// The position fits what there is to ask.
    pub open spec fn wf(self) -> bool {
        match self.position {
            SearchPosition::Configured { server } => server < self.servers.len()
                && self.configured_host is Some,
            SearchPosition::Address { server } => server < self.servers.len(),
            SearchPosition::Service { server, name } => server < self.servers.len() && name < 4,
            SearchPosition::Target { server, name, target } => server < self.servers.len() && name
                < 4 && target < self.targets.len(),
            SearchPosition::Exhausted => true,
        }
    }

    /// The question to ask now.
    pub open spec fn question(self) -> Option<QuestionView> {
        match self.position {
            SearchPosition::Configured { server } => Some(
                QuestionView {
                    server: self.servers[server as int],
                    name: self.configured_host->0,
                    record_type: address_type_of(self.local),
                },
            ),
            SearchPosition::Address { server } => Some(
                QuestionView {
                    server: self.servers[server as int],
                    name: "pcscf."@ + self.home_domain,
                    record_type: address_type_of(self.local),
                },
            ),
            SearchPosition::Service { server, name } => Some(
                QuestionView {
                    server: self.servers[server as int],
                    name: srv_names_of(self.home_domain)[name as int],
                    record_type: DNS_TYPE_SRV,
                },
            ),
            SearchPosition::Target { server, name, target } => Some(
                QuestionView {
                    server: self.servers[server as int],
                    name: self.targets[target as int],
                    record_type: address_type_of(self.local),
                },
            ),
            SearchPosition::Exhausted => None,
        }
    }

    /// The address that an answer brings: one of the right family, to a question
    /// for addresses.
    pub open spec fn found(self, answer: Option<RecordsView>) -> Option<IpAddr> {
        match (self.position, answer) {
            (SearchPosition::Service { .. }, _) => None,
            (SearchPosition::Exhausted, _) => None,
            (_, Some(records)) => first_of_family(records.addresses, self.local),
            (_, None) => None,
        }
    }

    /// The search after an answer that brought no address. An answer that did not
    /// come counts as one.
    pub open spec fn moved_on(self, answer: Option<RecordsView>) -> SearchView {
        let n = self.servers.len() as int;
        match self.position {
            SearchPosition::Configured { server } => SearchView {
                position: if server + 1 < n {
                    SearchPosition::Configured { server: (server + 1) as usize }
                } else {
                    at_server(n, 0)
                },
                ..self
            },
            SearchPosition::Address { server } => SearchView {
                position: SearchPosition::Service { server, name: 0 },
                ..self
            },
            SearchPosition::Service { server, name } => {
                let targets = match answer {
                    Some(records) => records.srv_targets,
                    None => Seq::empty(),
                };
                SearchView {
                    targets,
                    position: if targets.len() > 0 {
                        SearchPosition::Target { server, name, target: 0 }
                    } else {
                        behind_name(n, server as int, name as int)
                    },
                    ..self
                }
            },
            SearchPosition::Target { server, name, target } => SearchView {
                position: if target + 1 < self.targets.len() {
                    SearchPosition::Target { server, name, target: (target + 1) as usize }
                } else {
                    behind_name(n, server as int, name as int)
                },
                ..self
            },
            SearchPosition::Exhausted => self,
        }
    }

    /// How much is left to ask, the targets of one service name aside.
    pub open spec fn remaining(self) -> int {
        let n = self.servers.len() as int;
        match self.position {
            SearchPosition::Configured { server } => 6 * n + (n - server),
            SearchPosition::Address { server } => 6 * (n - server) - 1,
            SearchPosition::Service { server, name } => 6 * (n - server) - 2 - name,
            SearchPosition::Target { server, name, target } => 6 * (n - server) - 2 - name,
            SearchPosition::Exhausted => 0,
        }
    }

    /// How many targets of the current service name are left.
    pub open spec fn targets_left(self) -> int {
        match self.position {
            SearchPosition::Service { .. } => usize::MAX + 1,
            SearchPosition::Target { server, name, target } => self.targets.len() - target,
            _ => 0,
        }
    }
}

/// How a search begins.
#[derive(Debug, PartialEq, Eq)]
pub enum PcscfStart {
    /// The P-CSCF is known.
    Known(IpAddr),
    /// It has to be looked up.
    Search(PcscfSearch),
}

/// Begins a search: what is known without asking comes first.
pub fn begin_pcscf_search(
    settings: &ImsIpSettings,
    home_domain: &str,
    configured: Option<&str>,
    environment: Option<&str>,
    local: IpAddr,
) -> (r: PcscfStart)
    ensures
        ({
            let env = match environment {
                Some(value) => Some(value@),
                None => None,
            };
            let conf = match configured {
                Some(value) => Some(value@),
                None => None,
            };
            match r {
                PcscfStart::Known(addr) => known_pcscf(env, settings@, conf, local) == Some(addr)
                    && family_matches(local, addr),
                PcscfStart::Search(search) => {
                    &&& known_pcscf(env, settings@, conf, local) is None
                    &&& search@.wf()
                    &&& search@ == (SearchView {
                        local,
                        servers: search_servers(settings@, local),
                        configured_host: host_to_look_up(conf),
                        home_domain: home_domain@,
                        targets: Seq::empty(),
                        position: if host_to_look_up(conf) is Some && search_servers(
                            settings@,
                            local,
                        ).len() > 0 {
                            SearchPosition::Configured { server: 0 }
                        } else {
                            at_server(search_servers(settings@, local).len() as int, 0)
                        },
                    })
                },
            }
        }),
{
    if let Some(value) = environment {
        let list = parse_pcscf_override(value);
        if let Some(addr) = ip_settings::find_of_family(list.as_slice(), local) {
            proof {
                ip_settings::lemma_first_of_family(list@, local);
            }
            return PcscfStart::Known(addr);
        }
    }
    if let Some(addr) = ip_settings::find_of_family(settings.pcscf.as_slice(), local) {
        proof {
            ip_settings::lemma_first_of_family(settings.pcscf@, local);
        }
        return PcscfStart::Known(addr);
    }
    let mut host: Option<String> = None;
    if let Some(value) = configured {
        let value = text::trim(value);
        if !value.as_str().is_empty() {
            let list = parse_pcscf_override(value.as_str());
            if let Some(addr) = ip_settings::find_of_family(list.as_slice(), local) {
                proof {
                    ip_settings::lemma_first_of_family(list@, local);
                }
                return PcscfStart::Known(addr);
            }
            host = Some(configured_host(value.as_str()));
        }
    }
    let servers = if local.is_ipv6() {
        select_servers(settings.ipv6_dns.as_slice(), local)
    } else {
        select_servers(settings.ipv4_dns.as_slice(), local)
    };
    let position = if servers.len() == 0 {
        SearchPosition::Exhausted
    } else if host.is_some() {
        SearchPosition::Configured { server: 0 }
    } else {
        SearchPosition::Address { server: 0 }
    };
    let search = PcscfSearch {
        local,
        servers,
        configured_host: host,
        home_domain: home_domain.to_string(),
        targets: Vec::new(),
        position,
    };
    proof {
        assert(texts(search.targets@) =~= Seq::<Seq<char>>::empty());
    }
    PcscfStart::Search(search)
}

fn next_server(servers: usize, server: usize) -> (r: SearchPosition)
    requires
        server < servers,
    ensures
        r == at_server(servers as int, server + 1),
{
    if server + 1 < servers {
        SearchPosition::Address { server: server + 1 }
    } else {
        SearchPosition::Exhausted
    }
}

fn next_name(servers: usize, server: usize, name: usize) -> (r: SearchPosition)
    requires
        server < servers,
        name < 4,
    ensures
        r == behind_name(servers as int, server as int, name as int),
{
    if name + 1 < 4 {
        SearchPosition::Service { server, name: name + 1 }
    } else {
        next_server(servers, server)
    }
}

impl PcscfSearch {
    /// The question to ask now; none where the search is at its end.
    pub fn question(&self) -> (r: Option<DnsQuestion>)
        requires
            self@.wf(),
        ensures
            match r {
                Some(question) => self@.question() == Some(question@),
                None => self@.question() is None,
            },
    {
        let address_type = if self.local.is_ipv6() {
            DNS_TYPE_AAAA
        } else {
            DNS_TYPE_A
        };
        match self.position {
            SearchPosition::Configured { server } => {
                let name = match &self.configured_host {
                    Some(host) => host.clone(),
                    None => String::new(),
                };
                Some(
                    DnsQuestion { server: self.servers[server], name, record_type: address_type },
                )
            },
            SearchPosition::Address { server } => {
                let mut name = "pcscf.".to_string();
                name.append(self.home_domain.as_str());
                Some(
                    DnsQuestion { server: self.servers[server], name, record_type: address_type },
                )
            },
            SearchPosition::Service { server, name } => {
                let names = pcscf_srv_names(self.home_domain.as_str());
                proof {
                    assert(texts(names@).len() == names@.len());
                    assert(texts(names@)[name as int] == names@[name as int]@);
                }
                Some(
                    DnsQuestion {
                        server: self.servers[server],
                        name: names[name].clone(),
                        record_type: DNS_TYPE_SRV,
                    },
                )
            },
            SearchPosition::Target { server, name: _, target } => {
                proof {
                    assert(texts(self.targets@)[target as int] == self.targets@[target as int]@);
                }
                Some(
                    DnsQuestion {
                        server: self.servers[server],
                        name: self.targets[target].clone(),
                        record_type: address_type,
                    },
                )
            },
            SearchPosition::Exhausted => None,
        }
    }

    /// Takes the answer to the question in. An address of the right family ends
    /// the search; otherwise it moves on.
    pub fn answered(&mut self, answer: Option<DnsRecords>) -> (r: Option<IpAddr>)
        requires
            old(self)@.wf(),
        ensures
            ({
                let records = match answer {
                    Some(records) => Some(records@),
                    None => None,
                };
                &&& r == old(self)@.found(records)
                &&& r is Some ==> final(self)@ == old(self)@ && family_matches(
                    old(self)@.local,
                    r->0,
                )
                &&& r is None ==> final(self)@ == old(self)@.moved_on(records)
                &&& final(self)@.wf()
            }),
    {
        let is_service = matches!(self.position, SearchPosition::Service { .. });
        let is_over = matches!(self.position, SearchPosition::Exhausted);
        if !is_service && !is_over {
            if let Some(records) = &answer {
                if let Some(addr) = ip_settings::find_of_family(
                    records.addresses.as_slice(),
                    self.local,
                ) {
                    proof {
                        ip_settings::lemma_first_of_family(records.addresses@, self.local);
                    }
                    return Some(addr);
                }
            }
        }
        let n = self.servers.len();
        match self.position {
            SearchPosition::Configured { server } => {
                self.position = if server + 1 < n {
                    SearchPosition::Configured { server: server + 1 }
                } else {
                    SearchPosition::Address { server: 0 }
                };
            },
            SearchPosition::Address { server } => {
                self.position = SearchPosition::Service { server, name: 0 };
            },
            SearchPosition::Service { server, name } => {
                let targets = match answer {
                    Some(records) => records.srv_targets,
                    None => Vec::new(),
                };
                proof {
                    assert(texts(targets@).len() == targets@.len());
                    if targets@.len() == 0 {
                        assert(texts(targets@) =~= Seq::<Seq<char>>::empty());
                    }
                }
                self.position = if targets.len() > 0 {
                    SearchPosition::Target { server, name, target: 0 }
                } else {
                    next_name(n, server, name)
                };
                self.targets = targets;
            },
            SearchPosition::Target { server, name, target } => {
                proof {
                    assert(texts(self.targets@).len() == self.targets@.len());
                }
                let count = self.targets.len();
                self.position = if target + 1 < count {
                    SearchPosition::Target { server, name, target: target + 1 }
                } else {
                    next_name(n, server, name)
                };
            },
            SearchPosition::Exhausted => {},
        }
        None
    }

    /// The error of a search that found nothing.
    pub fn exhausted() -> (r: VolteError)
        ensures
            r@ == failure(code::RUNTIME_ALL_PCSCF_FAILED@),
    {
        VolteError::new(code::RUNTIME_ALL_PCSCF_FAILED)
    }
}

/// A search that moves on comes closer to its end, so it ends.
pub proof fn search_comes_to_an_end(search: SearchView, answer: Option<RecordsView>)
    requires
        search.wf(),
        search.position != SearchPosition::Exhausted,
        search.servers.len() <= usize::MAX,
        search.targets.len() <= usize::MAX,
        answer is Some ==> answer->0.srv_targets.len() <= usize::MAX,
    ensures
        ({
            let next = search.moved_on(answer);
            &&& next.wf()
            &&& next.remaining() >= 0
            &&& next.remaining() < search.remaining() || (next.remaining() == search.remaining()
                && next.targets_left() < search.targets_left() && next.targets_left() >= 0)
        }),
{
}

/// A search never ends at an address of the other family.
pub proof fn search_keeps_to_the_family(search: SearchView, answer: Option<RecordsView>)
    ensures
        search.found(answer) is Some ==> family_matches(search.local, search.found(answer)->0),
{
    match answer {
        Some(records) => {
            ip_settings::lemma_first_of_family(records.addresses, search.local);
        },
        None => {},
    }
}

// ---------------------------------------------------------------------------
// Reading the settings of active contexts.

/// How early a context is asked: the preferred one first, then those defined for
/// IMS, then the others.
pub open spec fn cid_rank(cid: u8, ims: Seq<u8>, preferred: u8) -> nat {
    if cid == preferred {
        0
    } else if ims.contains(cid) {
        1
    } else {
        2
    }
}

/// The contexts of one rank, in order.
pub open spec fn cids_of_rank(active: Seq<u8>, ims: Seq<u8>, preferred: u8, rank: nat) -> Seq<u8>
    decreases active.len(),
{
    if active.len() == 0 {
        Seq::empty()
    } else {
        let front = cids_of_rank(active.drop_last(), ims, preferred, rank);
        if cid_rank(active.last(), ims, preferred) == rank {
            front.push(active.last())
        } else {
            front
        }
    }
}

/// The active contexts in the order in which they are asked for P-CSCF addresses.
pub open spec fn ordered_cids(active: Seq<u8>, ims: Seq<u8>, preferred: u8) -> Seq<u8> {
    cids_of_rank(active, ims, preferred, 0) + cids_of_rank(active, ims, preferred, 1)
        + cids_of_rank(active, ims, preferred, 2)
}

/// Numbers in brackets with commas between them.
pub open spec fn list_text(list: Seq<u8>) -> Seq<char> {
    "["@ + items_text(list) + "]"@
}

pub open spec fn items_text(list: Seq<u8>) -> Seq<char>
    decreases list.len(),
{
    if list.len() == 0 {
        Seq::empty()
    } else if list.len() == 1 {
        decimal(list[0] as nat)
    } else {
        items_text(list.drop_last()) + ", "@ + decimal(list.last() as nat)
    }
}

fn list_string(list: &Vec<u8>) -> (r: String)
    ensures
        r@ == list_text(list@),
{
    let mut items = String::new();
    let mut i: usize = 0;
    proof {
        assert(list@.take(0) =~= Seq::<u8>::empty());
    }
    while i < list.len()
        invariant
            i <= list@.len(),
            items@ == items_text(list@.take(i as int)),
        decreases list@.len() - i,
    {
        let digits = text::decimal_string(list[i] as u64);
        proof {
            let next = list@.take(i as int + 1);
            assert(next.drop_last() =~= list@.take(i as int));
            if i == 0 {
                assert(items@ + digits@ =~= digits@);
            }
        }
        if i > 0 {
            items.append(", ");
        }
        items.append(digits.as_str());
        i += 1;
    }
    proof {
        assert(list@.take(list@.len() as int) =~= list@);
    }
    let mut out = "[".to_string();
    out.append(items.as_str());
    out.append("]");
    out
}

fn order_cids(active: &Vec<u8>, ims: &Vec<u8>, preferred: u8) -> (r: Vec<u8>)
    ensures
        r@ == ordered_cids(active@, ims@, preferred),
{
    let mut a: Vec<u8> = Vec::new();
    let mut b: Vec<u8> = Vec::new();
    let mut c: Vec<u8> = Vec::new();
    let mut i: usize = 0;
    proof {
        assert(active@.take(0) =~= Seq::<u8>::empty());
    }
    while i < active.len()
        invariant
            i <= active@.len(),
            a@ == cids_of_rank(active@.take(i as int), ims@, preferred, 0),
            b@ == cids_of_rank(active@.take(i as int), ims@, preferred, 1),
            c@ == cids_of_rank(active@.take(i as int), ims@, preferred, 2),
        decreases active@.len() - i,
    {
        let cid = active[i];
        proof {
            assert(active@.take(i as int + 1).drop_last() =~= active@.take(i as int));
            assert(active@.take(i as int + 1).last() == cid);
        }
        if cid == preferred {
            a.push(cid);
        } else if has_number(ims, cid) {
            b.push(cid);
        } else {
            c.push(cid);
        }
        i += 1;
    }
    proof {
        assert(active@.take(active@.len() as int) =~= active@);
    }
    a.append(&mut b);
    a.append(&mut c);
    a
}

/// The P-CSCF addresses of an active context.
#[derive(Debug, PartialEq, Eq)]
pub struct AtPcscfDiscovery {
    pub candidates: Vec<IpAddr>,
    pub cid: u8,
}

/// Reading the settings of the active contexts, one after the other. Nothing is
/// activated or changed.
#[derive(Debug, PartialEq, Eq)]
pub struct ActiveContextScan {
    pub cids: Vec<u8>,
    pub ims_cids: Vec<u8>,
    /// How many contexts were read.
    pub done: usize,
}

/// Begins to read the active contexts, given the replies to `AT+CGACT?` and
/// `AT+CGDCONT?`.
pub fn begin_active_context_scan(
    active_output: &str,
    contexts_output: &str,
    preferred: u8,
    apn: &str,
) -> (r: Result<ActiveContextScan, VolteError>)
    ensures
        ({
            let active = active_cids(lines_of(active_output@));
            let ims = cids_for(contexts_in(lines_of(contexts_output@)), apn@);
            match r {
                Ok(scan) => {
                    &&& active.len() > 0
                    &&& scan.cids@ == ordered_cids(active, ims, preferred)
                    &&& scan.ims_cids@ == ims
                    &&& scan.done == 0
                },
                Err(error) => active.len() == 0 && error@ == detailed(
                    code::RUNTIME_ALL_PCSCF_FAILED@,
                    "at_active_context_missing:ims="@ + list_text(ims),
                ),
            }
        }),
{
    let active = at::parse_active_context_cids(active_output);
    let ims_cids = at::parse_ims_context_cids(contexts_output, apn);
    if active.len() == 0 {
        let mut detail = "at_active_context_missing:ims=".to_string();
        detail.append(list_string(&ims_cids).as_str());
        return Err(VolteError::with_detail(code::RUNTIME_ALL_PCSCF_FAILED, detail.as_str()));
    }
    Ok(
        ActiveContextScan {
            cids: order_cids(&active, &ims_cids, preferred),
            ims_cids,
            done: 0,
        },
    )
}

impl ActiveContextScan {
    /// The context to read now.
    pub fn current(&self) -> (r: Option<u8>)
        ensures
            r == (if self.done < self.cids@.len() {
                Some(self.cids@[self.done as int])
            } else {
                None
            }),
    {
        if self.done < self.cids.len() {
            Some(self.cids[self.done])
        } else {
            None
        }
    }

    /// Takes the reply for the current context in; a command that failed gave
    /// none. The first context with addresses ends the scan.
    pub fn read(&mut self, settings: Option<&str>, apn: &str) -> (r: Option<AtPcscfDiscovery>)
        requires
            old(self).done < old(self).cids@.len(),
        ensures
            ({
                let cid = old(self).cids@[old(self).done as int];
                let found = match settings {
                    Some(output) => pcscf_in(lines_of(output@), cid, apn@),
                    None => Seq::empty(),
                };
                &&& match r {
                    Some(discovery) => found.len() > 0 && discovery.candidates@ == found
                        && discovery.cid == cid,
                    None => found.len() == 0,
                }
                &&& final(self).done == old(self).done + 1
                &&& final(self).cids@ == old(self).cids@
                &&& final(self).ims_cids@ == old(self).ims_cids@
            }),
    {
        let n = self.cids.len();
        let cid = self.cids[self.done];
        self.done = self.done + 1;
        match settings {
            Some(output) => {
                let candidates = at::parse_cgcontrdp_pcscf(output, cid, apn);
                if candidates.len() > 0 {
                    Some(AtPcscfDiscovery { candidates, cid })
                } else {
                    None
                }
            },
            None => None,
        }
    }

    /// The error of a scan that found nothing.
    pub fn exhausted(&self) -> (r: VolteError)
        ensures
            r@ == detailed(
                code::RUNTIME_ALL_PCSCF_FAILED@,
                "at_active_ims_context_no_pcscf:cids="@ + list_text(self.cids@) + ":ims="@
                    + list_text(self.ims_cids@),
            ),
    {
        let mut detail = "at_active_ims_context_no_pcscf:cids=".to_string();
        detail.append(list_string(&self.cids).as_str());
        detail.append(":ims=");
        detail.append(list_string(&self.ims_cids).as_str());
        VolteError::with_detail(code::RUNTIME_ALL_PCSCF_FAILED, detail.as_str())
    }
}

// ---------------------------------------------------------------------------
// Activating an IMS context ahead of the bearer.

/// A candidate at the end of the list, where it is one of 1 to 16 and new.
pub open spec fn with_candidate(list: Seq<u8>, cid: u8) -> Seq<u8> {
    if 1 <= cid <= 16 {
        with(list, cid)
    } else {
        list
    }
}

/// Appends a candidate, where it is one of 1 to 16 and new.
pub fn push_profile_candidate(candidates: &mut Vec<u8>, cid: u8)
    ensures
        final(candidates)@ == with_candidate(old(candidates)@, cid),
{
    if 1 <= cid && cid <= 16 && !has_number(candidates, cid) {
        candidates.push(cid);
    }
}

/// The contexts to try: the configured one, then 2, then 1.
pub open spec fn profile_candidates(configured: u8) -> Seq<u8> {
    with_candidate(with_candidate(with_candidate(Seq::empty(), configured), 2), 1)
}

/// One attempt to activate an IMS context: these commands in order, and in case
/// of failure those that undo them.
#[derive(Debug, PartialEq, Eq)]
pub struct ProfileAttempt {
    pub cid: u8,
    /// Its outcome does not matter.
    pub deactivate: String,
    pub define: String,
    pub report: String,
    pub activate: String,
    pub restore: String,
}

/// Trying contexts and types until one is activated.
#[derive(Debug, PartialEq, Eq)]
pub struct ProfilePrefetch {
    pub cids: Vec<u8>,
    pub contexts: Vec<PdpContext>,
    pub apn: String,
    pub types: Vec<IpType>,
    /// Which context and which type is tried.
    pub cid_index: usize,
    pub type_index: usize,
    pub last_error: Option<VolteError>,
}

/// A type is left to be tried.
pub open spec fn attempt_left(p: ProfilePrefetch) -> bool {
    p.cid_index < p.cids@.len() && p.type_index < p.types@.len()
}

/// Begins to try contexts, given the reply to `AT+CGDCONT?`.
pub fn begin_profile_prefetch(
    contexts_output: &str,
    plan: &ImsConnectionPlan,
    configured: u8,
    apn: &str,
) -> (r: ProfilePrefetch)
    ensures
        r.cids@ == profile_candidates(configured),
        contexts_of(r.contexts@) == contexts_in(lines_of(contexts_output@)),
        r.apn@ == apn@,
        r.types@ == plan.attempts(),
        r.cid_index == 0,
        r.type_index == 0,
        r.last_error is None,
        attempt_left(r),
{
    let mut cids: Vec<u8> = Vec::with_capacity(3);
    push_profile_candidate(&mut cids, configured);
    push_profile_candidate(&mut cids, 2);
    push_profile_candidate(&mut cids, 1);
    proof {
        let a = with_candidate(Seq::<u8>::empty(), configured);
        let b = with_candidate(a, 2);
        if a.contains(2u8) {
            assert(b.len() > 0);
        } else {
            assert(b.last() == 2u8);
        }
        assert(b.len() > 0);
    }
    let types = vstd::slice::slice_to_vec(plan.bearer_attempts());
    ProfilePrefetch {
        cids,
        contexts: at::parse_pdp_contexts(contexts_output),
        apn: apn.to_string(),
        types,
        cid_index: 0,
        type_index: 0,
        last_error: None,
    }
}

impl ProfilePrefetch {
    /// The attempt to make now.
    pub fn attempt(&self) -> (r: Option<ProfileAttempt>)
        ensures
            match r {
                Some(attempt) => {
                    let cid = self.cids@[self.cid_index as int];
                    &&& attempt_left(*self)
                    &&& attempt.cid == cid
                    &&& attempt.deactivate@ == activation_text(cid, false)
                    &&& attempt.define@ == define_text(
                        cid,
                        self.types@[self.type_index as int].pdp_name(),
                        self.apn@,
                    )
                    &&& attempt.report@ == reporting_text(cid, true)
                    &&& attempt.activate@ == activation_text(cid, true)
                    &&& attempt.restore@ == restore_text(contexts_of(self.contexts@), cid)
                },
                None => !attempt_left(*self),
            },
    {
        if self.cid_index >= self.cids.len() || self.type_index >= self.types.len() {
            return None;
        }
        let cid = self.cids[self.cid_index];
        let pdp_type = self.types[self.type_index].as_pdp_str();
        Some(
            ProfileAttempt {
                cid,
                deactivate: activation_command(cid, false),
                define: define_context_command(cid, pdp_type, self.apn.as_str()),
                report: pcscf_reporting_command(cid, true),
                activate: activation_command(cid, true),
                restore: restore_profile_command(self.contexts.as_slice(), cid),
            },
        )
    }

    /// The attempt failed: the next type, and after the last one the next context.
    pub fn failed(&mut self, error: VolteError)
        requires
            attempt_left(*old(self)),
        ensures
            opt_error(final(self).last_error) == Some(error@),
            final(self).cids@ == old(self).cids@,
            final(self).types@ == old(self).types@,
            final(self).contexts@ == old(self).contexts@,
            final(self).apn@ == old(self).apn@,
            old(self).type_index + 1 < old(self).types@.len() ==> final(self).type_index
                == old(self).type_index + 1 && final(self).cid_index == old(self).cid_index,
            old(self).type_index + 1 == old(self).types@.len() ==> final(self).type_index == 0
                && final(self).cid_index == old(self).cid_index + 1,
    {
        let cids = self.cids.len();
        let types = self.types.len();
        self.last_error = Some(error);
        if self.type_index + 1 < types {
            self.type_index = self.type_index + 1;
        } else {
            self.type_index = 0;
            self.cid_index = self.cid_index + 1;
        }
    }

    /// The error once nothing is left to try.
    pub fn exhausted(&self) -> (r: VolteError)
        ensures
            r@ == (match opt_error(self.last_error) {
                Some(error) => error,
                None => detailed(
                    code::RUNTIME_PROFILE_PCSCF_MISSING@,
                    "beta2_profile_candidates_exhausted"@,
                ),
            }),
    {
        match &self.last_error {
            Some(error) => error.clone(),
            None => VolteError::with_detail(
                code::RUNTIME_PROFILE_PCSCF_MISSING,
                "beta2_profile_candidates_exhausted",
            ),
        }
    }
}

/// The commands that give an activated context up: deactivate it, stop the
/// delivery of addresses, restore its definition.
pub fn profile_cleanup_commands(cid: u8, restore: &str) -> (r: Vec<String>)
    ensures
        texts(r@) == seq![activation_text(cid, false), reporting_text(cid, false), restore@],
{
    let commands = vec![
        activation_command(cid, false),
        pcscf_reporting_command(cid, false),
        restore.to_string(),
    ];
    proof {
        assert(texts(commands@) =~= seq![
            activation_text(cid, false),
            reporting_text(cid, false),
            restore@,
        ]);
    }
    commands
}

/// A context of the modem that was activated for a session, and what gives it back.
#[derive(Debug, PartialEq, Eq)]
pub struct ImsProfileLease {
    pub modem: String,
    pub cid: u8,
    /// Restores the definition that the context had before.
    pub restore_command: String,
}

impl ImsProfileLease {
    /// The commands that give the context back.
    pub fn cleanup(&self) -> (r: Vec<String>)
        ensures
            texts(r@) == seq![
                activation_text(self.cid, false),
                reporting_text(self.cid, false),
                self.restore_command@,
            ],
    {
        profile_cleanup_commands(self.cid, self.restore_command.as_str())
    }
}

/// An activated context with the P-CSCF addresses that it gave.
#[derive(Debug, PartialEq, Eq)]
pub struct ImsProfilePrefetch {
    pub candidates: Vec<IpAddr>,
    pub lease: ImsProfileLease,
}

/// How the settings of an activated context are read on.
#[derive(Debug, Clone, Copy, PartialEq, Eq, Structural)]
pub enum ReadStep {
    /// Read them.
    Read,
    /// Read them after a pause.
    WaitThenRead,
    /// They were read often enough, or gave an address.
    Stop,
}

/// How the settings of an activated context are read on, once `rounds` readings were
/// made and the last one gave an address, or not.
pub fn next_read(rounds: usize, found: bool) -> (r: ReadStep)
    ensures
        r == (if found || rounds >= PROFILE_PCSCF_READ_ROUNDS {
            ReadStep::Stop
        } else if rounds == 0 {
            ReadStep::Read
        } else {
            ReadStep::WaitThenRead
        }),
{
    if found || rounds >= PROFILE_PCSCF_READ_ROUNDS {
        ReadStep::Stop
    } else if rounds == 0 {
        ReadStep::Read
    } else {
        ReadStep::WaitThenRead
    }
}

/// Adds the addresses of one reply; `true` where the reading is over.
pub fn collect_prefetched(
    candidates: &mut Vec<IpAddr>,
    settings: Option<&str>,
    cid: u8,
    apn: &str,
) -> (done: bool)
    ensures
        final(candidates)@ == (match settings {
            Some(output) => with_all(old(candidates)@, pcscf_in(lines_of(output@), cid, apn@)),
            None => old(candidates)@,
        }),
        done == (settings is Some && final(candidates)@.len() > 0),
{
    match settings {
        Some(output) => {
            let found = at::parse_cgcontrdp_pcscf(output, cid, apn);
            push_all_new(candidates, found.as_slice());
            candidates.len() > 0
        },
        None => false,
    }
}

} // verus!
