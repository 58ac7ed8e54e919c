//! What holds of every search for the P-CSCF: who is asked, for what, in which order, and
//! which address it ends at.

use vstd::prelude::*;
use vstd::string::*;

use crate::dns::RecordsView;
use crate::ip::{address_of, IpAddr};
use crate::ip_settings;
use crate::ip_settings::{first_of_family, SettingsView};
use crate::pcscf::{
    addresses_in, cid_rank, cids_of_rank, configured_host_of, known_pcscf, listed_addresses,
    ordered_cids, profile_candidates, search_servers, separators_blanked, servers_for,
    SearchPosition, SearchView,
};
use crate::plan::with;
use crate::text;
use crate::text::{has_prefix, is_space, trim_start, trimmed, words};

verus! {

/// The address at `k` is the first of a list in the family of `local`.
pub open spec fn leads(list: Seq<IpAddr>, local: IpAddr, k: int) -> bool {
    &&& 0 <= k < list.len()
    &&& list[k].is_ipv6() == local.is_ipv6()
    &&& forall|i: int| 0 <= i < k ==> (#[trigger] list[i]).is_ipv6() != local.is_ipv6()
}

/// No address of a list is in the family of `local`.
pub open spec fn lacks(list: Seq<IpAddr>, local: IpAddr) -> bool {
    forall|i: int| 0 <= i < list.len() ==> (#[trigger] list[i]).is_ipv6() != local.is_ipv6()
}

/// Every address of a list is in the family of `local`.
pub open spec fn of_family(list: Seq<IpAddr>, local: IpAddr) -> bool {
    forall|i: int| 0 <= i < list.len() ==> (#[trigger] list[i]).is_ipv6() == local.is_ipv6()
}

proof fn lemma_leads(list: Seq<IpAddr>, local: IpAddr, k: int)
    requires
        leads(list, local, k),
    ensures
        first_of_family(list, local) == Some(list[k]),
    decreases k,
{
    if k > 0 {
        let rest = list.drop_first();
        assert(list[0].is_ipv6() != local.is_ipv6());
        assert forall|i: int| 0 <= i < k - 1 implies (#[trigger] rest[i]).is_ipv6()
            != local.is_ipv6() by {
            assert(rest[i] == list[i + 1]);
        }
        lemma_leads(rest, local, k - 1);
    }
}

proof fn lemma_lacks(list: Seq<IpAddr>, local: IpAddr)
    requires
        lacks(list, local),
    ensures
        first_of_family(list, local) is None,
{
    ip_settings::lemma_first_of_family(list, local);
    if first_of_family(list, local) is Some {
        let i = list.index_of(first_of_family(list, local)->0);
        assert(list[i].is_ipv6() != local.is_ipv6());
    }
}

// ---------------------------------------------------------------------------
// What is known without asking.

/// A P-CSCF that the environment names is taken before any other. Only where it names none
/// of the family does that of the network count, and only where the network gives none the
/// configured one. In each list the first address of the family is taken.
pub proof fn environment_comes_before_network_and_configuration(
    environment: Seq<char>,
    settings: SettingsView,
    configured: Seq<char>,
    local: IpAddr,
    k: int,
)
    ensures
        ({
            let named = listed_addresses(environment);
            let given = settings.pcscf;
            let written = listed_addresses(trimmed(configured));
            let env = Some(environment);
            let conf = Some(configured);
            &&& leads(named, local, k) ==> known_pcscf(env, settings, conf, local) == Some(named[k])
                && known_pcscf(env, settings, None, local) == Some(named[k])
            &&& leads(given, local, k) ==> {
                &&& known_pcscf(None, settings, conf, local) == Some(given[k])
                &&& known_pcscf(None, settings, None, local) == Some(given[k])
                &&& lacks(named, local) ==> known_pcscf(env, settings, conf, local) == Some(
                    given[k],
                )
            }
            &&& lacks(given, local) && leads(written, local, k) && trimmed(configured).len() > 0
                ==> {
                &&& known_pcscf(None, settings, conf, local) == Some(written[k])
                &&& lacks(named, local) ==> known_pcscf(env, settings, conf, local) == Some(
                    written[k],
                )
            }
            &&& lacks(given, local) ==> known_pcscf(None, settings, None, local) is None
            &&& lacks(given, local) && lacks(named, local) && lacks(written, local) ==> known_pcscf(
                env,
                settings,
                conf,
                local,
            ) is None
        }),
{
    let named = listed_addresses(environment);
    let given = settings.pcscf;
    let written = listed_addresses(trimmed(configured));
    if leads(named, local, k) {
        lemma_leads(named, local, k);
    }
    if leads(given, local, k) {
        lemma_leads(given, local, k);
    }
    if leads(written, local, k) {
        lemma_leads(written, local, k);
    }
    if lacks(named, local) {
        lemma_lacks(named, local);
    }
    if lacks(given, local) {
        lemma_lacks(given, local);
    }
    if lacks(written, local) {
        lemma_lacks(written, local);
    }
}

/// A word without a separator of lists in it.
pub open spec fn list_word(w: Seq<char>) -> bool {
    &&& w.len() > 0
    &&& forall|i: int|
        0 <= i < w.len() ==> #[trigger] w[i] != ',' && w[i] != ';' && !is_space(w[i])
}

/// One of the words is the address `x`.
pub open spec fn written_in(w: Seq<Seq<char>>, x: IpAddr) -> bool {
    exists|i: int| 0 <= i < w.len() && #[trigger] writes(w[i], x)
}

/// The word is the address `x`.
pub open spec fn writes(w: Seq<char>, x: IpAddr) -> bool {
    address_of(w) == Some(x)
}

proof fn lemma_with(front: Seq<IpAddr>, a: IpAddr, x: IpAddr)
    ensures
        with(front, a).contains(x) <==> front.contains(x) || x == a,
{
    let all = with(front, a);
    if front.contains(x) {
        let i = front.index_of(x);
        assert(all[i] == x);
    }
    if x == a && !front.contains(a) {
        assert(all[front.len() as int] == x);
    }
    if all.contains(x) && x != a {
        let i = all.index_of(x);
        assert(front[i] == x);
    }
}

proof fn lemma_written_in(d: Seq<Seq<char>>, last: Seq<char>, x: IpAddr)
    ensures
        written_in(d.push(last), x) <==> written_in(d, x) || writes(last, x),
{
    let w = d.push(last);
    if written_in(d, x) {
        let i = choose|i: int| 0 <= i < d.len() && #[trigger] writes(d[i], x);
        assert(writes(w[i], x));
    }
    if writes(last, x) {
        assert(writes(w[d.len() as int], x));
    }
    if written_in(w, x) && !writes(last, x) {
        let i = choose|i: int| 0 <= i < w.len() && #[trigger] writes(w[i], x);
        assert(writes(d[i], x));
    }
}

proof fn lemma_addresses_in(w: Seq<Seq<char>>, x: IpAddr)
    ensures
        addresses_in(w).contains(x) <==> written_in(w, x),
    decreases w.len(),
{
    if w.len() > 0 {
        let d = w.drop_last();
        lemma_addresses_in(d, x);
        assert(w =~= d.push(w.last()));
        lemma_written_in(d, w.last(), x);
        if address_of(w.last()) is Some {
            lemma_with(addresses_in(d), address_of(w.last())->0, x);
        }
    }
}

proof fn lemma_first_address(w: Seq<Seq<char>>, x: IpAddr)
    requires
        w.len() > 0,
        address_of(w[0]) == Some(x),
    ensures
        addresses_in(w).len() > 0,
        addresses_in(w)[0] == x,
    decreases w.len(),
{
    let d = w.drop_last();
    if w.len() > 1 {
        assert(d[0] == w[0]);
        lemma_first_address(d, x);
    } else {
        assert(d.len() == 0);
        assert(addresses_in(d) =~= Seq::empty());
        assert(w.last() == w[0]);
    }
}

/// An address in front of a list comes first, whatever separates it from the rest, and
/// takes no other address away; a word that is no address adds none. An address alone is a
/// list of one.
pub proof fn listed_addresses_are_read_in_order(
    w: Seq<char>,
    sep: char,
    rest: Seq<char>,
    x: IpAddr,
)
    requires
        list_word(w),
        sep == ',' || sep == ';' || sep == ' ',
    ensures
        ({
            let all = listed_addresses(w + seq![sep] + rest);
            let others = listed_addresses(rest);
            &&& address_of(w) is Some ==> all.len() > 0 && Some(all[0]) == address_of(w)
            &&& all.contains(x) <==> address_of(w) == Some(x) || others.contains(x)
            &&& address_of(w) is Some ==> listed_addresses(w) == seq![address_of(w)->0]
            &&& address_of(w) is None ==> listed_addresses(w).len() == 0
        }),
{
    let s = w + seq![sep] + rest;
    let tail = seq![' '] + separators_blanked(rest);
    assert(separators_blanked(w) =~= w);
    assert(separators_blanked(s) =~= w + tail) by {
        assert forall|i: int| 0 <= i < s.len() implies #[trigger] separators_blanked(s)[i] == (w
            + tail)[i] by {
            if i < w.len() {
                assert(s[i] == w[i]);
            } else if i == w.len() {
                assert(s[i] == sep);
            } else {
                assert(s[i] == rest[i - w.len() - 1]);
            }
        }
    }
    text::lemma_first_word(w, tail);
    assert(tail.drop_first() =~= separators_blanked(rest));
    assert(trim_start(tail) == trim_start(separators_blanked(rest)));
    assert(words(tail) == words(separators_blanked(rest)));
    let all = seq![w] + words(separators_blanked(rest));
    assert(words(separators_blanked(s)) == all);
    if address_of(w) is Some {
        assert(all[0] == w);
        lemma_first_address(all, address_of(w)->0);
    }
    lemma_addresses_in(all, x);
    let r = words(separators_blanked(rest));
    lemma_addresses_in(r, x);
    if written_in(all, x) && !writes(w, x) {
        let i = choose|i: int| 0 <= i < all.len() && #[trigger] writes(all[i], x);
        assert(writes(r[i - 1], x));
    }
    if written_in(r, x) {
        let i = choose|i: int| 0 <= i < r.len() && #[trigger] writes(r[i], x);
        assert(writes(all[i + 1], x));
    }
    if writes(w, x) {
        assert(writes(all[0], x));
    }
    text::lemma_first_word(w, Seq::empty());
    assert(w + Seq::<char>::empty() =~= w);
    assert(words(Seq::<char>::empty()) =~= Seq::empty());
    assert(words(w) =~= seq![w]);
    assert(seq![w].drop_last() =~= Seq::<Seq<char>>::empty());
    assert(addresses_in(seq![w].drop_last()) =~= Seq::empty());
    assert(seq![w].last() == w);
    if address_of(w) is Some {
        assert(listed_addresses(w) =~= seq![address_of(w)->0]);
    }
}

/// A host is configured by its name alone, or as a SIP address with a port or parameters
/// behind it: each form gives the name.
pub proof fn configured_forms_name_the_host(host: Seq<char>, rest: Seq<char>)
    requires
        host.len() > 0,
        forall|i: int|
            0 <= i < host.len() ==> #[trigger] host[i] != ':' && host[i] != ';' && host[i] != '['
                && host[i] != ']',
        rest.len() == 0 || ((rest[0] == ':' || rest[0] == ';') && rest.last() != '[' && rest.last()
            != ']'),
        !has_prefix(host + rest, "sip:"@),
        !has_prefix(host + rest, "sips:"@),
    ensures
        configured_host_of(host + rest) == host,
        configured_host_of("sip:"@ + host + rest) == host,
        configured_host_of("sips:"@ + host + rest) == host,
{
    let s = host + rest;
    reveal_strlit("sip:");
    reveal_strlit("sips:");
    assert(s[0] == host[0]);
    assert(s.last() == if rest.len() > 0 {
        rest.last()
    } else {
        host[host.len() - 1]
    });
    assert(crate::pcscf::unbracket_start(s) == s);
    assert(crate::pcscf::unbracket_end(s) == s);
    lemma_host_len(host, rest);
    assert(s.take(host.len() as int) =~= host);
    let a = "sip:"@ + host + rest;
    assert(a.take(4) =~= "sip:"@);
    assert(a.skip(4) =~= s);
    assert(crate::pcscf::without_prefixes(a, "sip:"@) == crate::pcscf::without_prefixes(s, "sip:"@));
    let b = "sips:"@ + host + rest;
    assert(b.take(4)[3] == 's');
    assert(b.take(5) =~= "sips:"@);
    assert(b.skip(5) =~= s);
    assert(crate::pcscf::without_prefixes(b, "sips:"@) == crate::pcscf::without_prefixes(
        s,
        "sips:"@,
    ));
}

proof fn lemma_host_len(host: Seq<char>, rest: Seq<char>)
    requires
        forall|i: int| 0 <= i < host.len() ==> #[trigger] host[i] != ':' && host[i] != ';',
        rest.len() == 0 || rest[0] == ':' || rest[0] == ';',
    ensures
        crate::pcscf::host_len(host + rest) == host.len(),
    decreases host.len(),
{
    if host.len() > 0 {
        assert((host + rest).drop_first() =~= host.drop_first() + rest);
        assert((host + rest)[0] == host[0]);
        assert forall|i: int| 0 <= i < host.drop_first().len() implies #[trigger] host.drop_first()[i]
            != ':' && host.drop_first()[i] != ';' by {
            assert(host.drop_first()[i] == host[i + 1]);
        }
        lemma_host_len(host.drop_first(), rest);
    } else {
        assert(host + rest =~= rest);
    }
}

// ---------------------------------------------------------------------------
// Who is asked, and for what.

/// The servers to ask are those that the network gave for the family, all of them, and none
/// of the other family.
pub proof fn servers_of_the_family_are_asked(settings: SettingsView, local: IpAddr, x: IpAddr)
    ensures
        ({
            let given = if local.is_ipv6() {
                settings.ipv6_dns
            } else {
                settings.ipv4_dns
            };
            let asked = search_servers(settings, local);
            &&& asked.contains(x) <==> given.contains(x) && x.is_ipv6() == local.is_ipv6()
            &&& of_family(given, local) ==> asked == given
        }),
{
    let given = if local.is_ipv6() {
        settings.ipv6_dns
    } else {
        settings.ipv4_dns
    };
    lemma_servers(given, local, x);
}

proof fn lemma_servers(given: Seq<IpAddr>, local: IpAddr, x: IpAddr)
    ensures
        servers_for(given, local).contains(x) <==> given.contains(x) && x.is_ipv6()
            == local.is_ipv6(),
        of_family(given, local) ==> servers_for(given, local) == given,
    decreases given.len(),
{
    if given.len() > 0 {
        let d = given.drop_last();
        lemma_servers(d, local, x);
        let front = servers_for(d, local);
        let all = servers_for(given, local);
        if given.contains(x) && x.is_ipv6() == local.is_ipv6() {
            let i = given.index_of(x);
            if i < d.len() {
                assert(d[i] == x);
                let j = front.index_of(x);
                assert(all[j] == x);
            } else {
                assert(all.last() == x);
            }
        }
        if all.contains(x) {
            let j = all.index_of(x);
            if j < front.len() {
                assert(front[j] == x);
                let i = d.index_of(x);
                assert(given[i] == x);
            } else {
                assert(given[given.len() - 1] == x);
            }
        }
        if of_family(given, local) {
            assert forall|i: int| 0 <= i < d.len() implies (#[trigger] d[i]).is_ipv6()
                == local.is_ipv6() by {
                assert(d[i] == given[i]);
            }
            assert(given[given.len() - 1].is_ipv6() == local.is_ipv6());
            assert(all =~= given);
        }
    }
}

/// Names are asked for addresses of the family: records of type 28 for IPv6 and 1 for IPv4.
/// The service names are asked for services, type 33. Each question goes to one of the
/// servers; its name is the configured host, one in the home domain, or a service's target.
pub proof fn questions_ask_for_the_family(search: SearchView)
    requires
        search.wf(),
    ensures
        search.position == SearchPosition::Exhausted <==> search.question() is None,
        search.question() is Some ==> search.servers.contains(search.question()->0.server),
        search.position is Service ==> search.question()->0.record_type == 33,
        search.question() is Some && !(search.position is Service) ==> search.question()->0
            .record_type == (if search.local.is_ipv6() {
            28u16
        } else {
            1u16
        }),
        search.position is Configured ==> Some(search.question()->0.name)
            == search.configured_host,
        search.position is Address || search.position is Service ==> text::has_suffix(
            search.question()->0.name,
            "pcscf."@ + search.home_domain,
        ) || text::has_suffix(search.question()->0.name, "."@ + search.home_domain),
        search.position is Target ==> search.targets.contains(search.question()->0.name),
{
    if search.question() is Some {
        let k = match search.position {
            SearchPosition::Configured { server } => server as int,
            SearchPosition::Address { server } => server as int,
            SearchPosition::Service { server, name } => server as int,
            SearchPosition::Target { server, name, target } => server as int,
            SearchPosition::Exhausted => 0,
        };
        assert(search.servers[k] == search.question()->0.server);
        if search.position is Target {
            assert(search.targets[search.position->target as int] == search.question()->0.name);
        }
        if search.position is Address {
            let n = search.question()->0.name;
            assert(n.skip(0) =~= n);
        }
        if search.position is Service {
            reveal_strlit("_sip._udp.pcscf.");
            reveal_strlit("_sip._tcp.pcscf.");
            reveal_strlit("_sip._udp.");
            reveal_strlit("_sip._tcp.");
            reveal_strlit(".");
            let n = search.question()->0.name;
            let suffix = "."@ + search.home_domain;
            assert(n.skip(n.len() - suffix.len()) =~= suffix);
        }
    }
}

/// The order of the questions. The configured host is asked of each server in turn. Then
/// each server in turn is asked for the P-CSCF's address in the home domain, and for its
/// services, over UDP before TCP and under the P-CSCF's name before the domain's; where a
/// service has targets, for their addresses in their order.
pub proof fn questions_come_in_order(search: SearchView, answer: Option<RecordsView>)
    requires
        search.wf(),
        search.servers.len() <= usize::MAX,
        search.targets.len() <= usize::MAX,
    ensures
        ({
            let next = search.moved_on(answer).question();
            let n = search.servers.len();
            let domain = search.home_domain;
            match search.position {
                SearchPosition::Configured { server } => {
                    &&& next is Some
                    &&& server + 1 < n ==> next->0.server == search.servers[server + 1] && Some(
                        next->0.name,
                    ) == search.configured_host
                    &&& server + 1 == n ==> next->0.server == search.servers[0] && next->0.name
                        == "pcscf."@ + domain
                },
                SearchPosition::Address { server } => {
                    &&& next is Some
                    &&& next->0.server == search.servers[server as int]
                    &&& next->0.name == "_sip._udp.pcscf."@ + domain
                    &&& next->0.record_type == 33
                },
                SearchPosition::Service { server, name } => {
                    let found = answer is Some && answer->0.srv_targets.len() > 0;
                    &&& found ==> next is Some && next->0.server == search.servers[server as int]
                        && next->0.name == answer->0.srv_targets[0] && next->0.record_type != 33
                    &&& !found && name == 0 ==> next is Some && next->0.server
                        == search.servers[server as int] && next->0.name == "_sip._tcp.pcscf."@
                        + domain
                    &&& !found && name == 1 ==> next is Some && next->0.server
                        == search.servers[server as int] && next->0.name == "_sip._udp."@ + domain
                    &&& !found && name == 2 ==> next is Some && next->0.server
                        == search.servers[server as int] && next->0.name == "_sip._tcp."@ + domain
                    &&& !found && name == 3 && server + 1 < n ==> next is Some && next->0.server
                        == search.servers[server + 1] && next->0.name == "pcscf."@ + domain
                    &&& !found && name == 3 && server + 1 == n ==> next is None
                },
                SearchPosition::Target { server, name, target } => {
                    let more = target + 1 < search.targets.len();
                    &&& more ==> next is Some && next->0.server == search.servers[server as int]
                        && next->0.name == search.targets[target + 1] && next->0.record_type != 33
                    &&& !more && name == 0 ==> next is Some && next->0.server
                        == search.servers[server as int] && next->0.name == "_sip._tcp.pcscf."@
                        + domain && next->0.record_type == 33
                    &&& !more && name == 1 ==> next is Some && next->0.name == "_sip._udp."@
                        + domain && next->0.record_type == 33
                    &&& !more && name == 2 ==> next is Some && next->0.name == "_sip._tcp."@
                        + domain && next->0.record_type == 33
                    &&& !more && name == 3 && server + 1 < n ==> next is Some && next->0.server
                        == search.servers[server + 1] && next->0.name == "pcscf."@ + domain
                    &&& !more && name == 3 && server + 1 == n ==> next is None
                },
                SearchPosition::Exhausted => next is None,
            }
        }),
{
}

/// An answer to a question for addresses ends the search at its first address of the
/// family; one without such an address does not end it. What a service's answer says of
/// addresses is not taken.
pub proof fn first_address_of_the_family_is_taken(
    search: SearchView,
    records: RecordsView,
    k: int,
)
    requires
        search.wf(),
    ensures
        search.question() is Some && search.question()->0.record_type != 33 && leads(
            records.addresses,
            search.local,
            k,
        ) ==> search.found(Some(records)) == Some(records.addresses[k]),
        lacks(records.addresses, search.local) ==> search.found(Some(records)) is None,
        search.question() is Some && search.question()->0.record_type == 33 ==> search.found(
            Some(records),
        ) is None,
        search.found(None) is None,
{
    if leads(records.addresses, search.local, k) {
        lemma_leads(records.addresses, search.local, k);
    }
    if lacks(records.addresses, search.local) {
        lemma_lacks(records.addresses, search.local);
    }
}

// ---------------------------------------------------------------------------
// The modem's contexts.

proof fn lemma_rank(active: Seq<u8>, ims: Seq<u8>, preferred: u8, rank: nat, x: u8)
    ensures
        cids_of_rank(active, ims, preferred, rank).contains(x) <==> active.contains(x) && cid_rank(
            x,
            ims,
            preferred,
        ) == rank,
    decreases active.len(),
{
    if active.len() > 0 {
        let d = active.drop_last();
        lemma_rank(d, ims, preferred, rank, x);
        let front = cids_of_rank(d, ims, preferred, rank);
        let all = cids_of_rank(active, ims, preferred, rank);
        if active.contains(x) && cid_rank(x, ims, preferred) == rank {
            let i = active.index_of(x);
            if i < d.len() {
                assert(d[i] == x);
                let j = front.index_of(x);
                assert(all[j] == x);
            } else {
                assert(all.last() == x);
            }
        }
        if all.contains(x) {
            let j = all.index_of(x);
            if j < front.len() {
                assert(front[j] == x);
                let i = d.index_of(x);
                assert(active[i] == x);
            } else {
                assert(active[active.len() - 1] == x);
            }
        }
    }
}

proof fn lemma_ranks_cover(active: Seq<u8>, ims: Seq<u8>, preferred: u8)
    ensures
        ordered_cids(active, ims, preferred).len() == active.len(),
    decreases active.len(),
{
    if active.len() > 0 {
        lemma_ranks_cover(active.drop_last(), ims, preferred);
    }
}

/// Every active context is asked, and no other. The preferred one comes first; those
/// defined for IMS come before the rest.
pub proof fn contexts_are_asked_by_their_rank(
    active: Seq<u8>,
    ims: Seq<u8>,
    preferred: u8,
    x: u8,
    i: int,
    j: int,
)
    ensures
        ({
            let order = ordered_cids(active, ims, preferred);
            &&& order.len() == active.len()
            &&& order.contains(x) <==> active.contains(x)
            &&& active.contains(preferred) ==> order[0] == preferred
            &&& 0 <= i < j < order.len() && order[j] == preferred ==> order[i] == preferred
            &&& 0 <= i < j < order.len() && ims.contains(order[j]) ==> order[i] == preferred
                || ims.contains(order[i])
        }),
{
    let order = ordered_cids(active, ims, preferred);
    let a = cids_of_rank(active, ims, preferred, 0);
    let b = cids_of_rank(active, ims, preferred, 1);
    let c = cids_of_rank(active, ims, preferred, 2);
    lemma_ranks_cover(active, ims, preferred);
    lemma_rank(active, ims, preferred, 0, x);
    lemma_rank(active, ims, preferred, 1, x);
    lemma_rank(active, ims, preferred, 2, x);
    if order.contains(x) {
        let k = order.index_of(x);
        if k < a.len() {
            assert(a[k] == x);
        } else if k < a.len() + b.len() {
            assert(b[k - a.len()] == x);
        } else {
            assert(c[k - a.len() - b.len()] == x);
        }
    }
    if a.contains(x) {
        let k = a.index_of(x);
        assert(order[k] == x);
    }
    if b.contains(x) {
        let k = b.index_of(x);
        assert(order[k + a.len()] == x);
    }
    if c.contains(x) {
        let k = c.index_of(x);
        assert(order[k + a.len() + b.len()] == x);
    }
    lemma_place(active, ims, preferred, i);
    lemma_place(active, ims, preferred, j);
    if active.contains(preferred) {
        lemma_rank(active, ims, preferred, 0, preferred);
        let k = a.index_of(preferred);
        assert(a[k] == preferred);
        assert(order[0] == a[0]);
        lemma_rank(active, ims, preferred, 0, a[0]);
    }
}

proof fn lemma_place(active: Seq<u8>, ims: Seq<u8>, preferred: u8, k: int)
    ensures
        ({
            let order = ordered_cids(active, ims, preferred);
            let a = cids_of_rank(active, ims, preferred, 0).len();
            let b = cids_of_rank(active, ims, preferred, 1).len();
            0 <= k < order.len() ==> cid_rank(order[k], ims, preferred) == (if k < a {
                0nat
            } else if k < a + b {
                1nat
            } else {
                2nat
            })
        }),
{
    let order = ordered_cids(active, ims, preferred);
    let a = cids_of_rank(active, ims, preferred, 0);
    let b = cids_of_rank(active, ims, preferred, 1);
    let c = cids_of_rank(active, ims, preferred, 2);
    if 0 <= k < order.len() {
        lemma_rank(active, ims, preferred, 0, order[k]);
        lemma_rank(active, ims, preferred, 1, order[k]);
        lemma_rank(active, ims, preferred, 2, order[k]);
        if k < a.len() {
            assert(a[k] == order[k]);
        } else if k < a.len() + b.len() {
            assert(b[k - a.len()] == order[k]);
        } else {
            assert(c[k - a.len() - b.len()] == order[k]);
        }
    }
}

/// The contexts that are tried for IMS: the configured one first, where it is one that a
/// modem has, then 2 and 1, none of them twice.
pub proof fn configured_context_is_tried_first(configured: u8)
    ensures
        ({
            let tried = profile_candidates(configured);
            &&& 1 <= configured <= 16 ==> tried[0] == configured
            &&& !(1 <= configured <= 16) ==> tried == seq![2u8, 1u8]
            &&& tried.contains(1u8) && tried.contains(2u8)
            &&& tried.no_duplicates()
            &&& tried.len() <= 3
            &&& forall|i: int| 0 <= i < tried.len() ==> 1 <= #[trigger] tried[i] <= 16
        }),
{
    let e = Seq::<u8>::empty();
    let a = crate::pcscf::with_candidate(e, configured);
    let b = crate::pcscf::with_candidate(a, 2u8);
    let c = crate::pcscf::with_candidate(b, 1u8);
    assert(!e.contains(configured));
    if 1 <= configured <= 16 {
        assert(a =~= seq![configured]);
        assert(a[0] == configured);
        if configured == 2 {
            assert(b =~= a);
            assert(!b.contains(1u8));
            assert(c =~= seq![2u8, 1u8]);
        } else {
            assert(!a.contains(2u8));
            assert(b =~= seq![configured, 2u8]);
            assert(b[0] == configured && b[1] == 2u8);
            if configured == 1 {
                assert(c =~= b);
            } else {
                assert(!b.contains(1u8));
                assert(c =~= seq![configured, 2u8, 1u8]);
                assert(c[1] == 2u8 && c[2] == 1u8);
            }
        }
    } else {
        assert(a =~= e);
        assert(!e.contains(2u8));
        assert(b =~= seq![2u8]);
        assert(!b.contains(1u8));
        assert(c =~= seq![2u8, 1u8]);
    }
    if configured == 1 {
        assert(c[0] == 1u8 && c[1] == 2u8);
    } else if configured == 2 || !(1 <= configured <= 16) {
        assert(c[0] == 2u8 && c[1] == 1u8);
    }
}

} // verus!
