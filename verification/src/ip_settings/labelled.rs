//! The settings of a bearer are read from under their labels.

use vstd::prelude::*;
use vstd::string::*;

use crate::ip::{address_of, IpAddr};
use crate::ip_settings::{
    address_in_value, settings_in, with_line, with_opt, SettingsView,
};
use crate::plan::{with, IpFamily};
use crate::text;
use crate::text::{is_space, lower, trimmed, words};

verus! {

/// A text that is an address without white space or a prefix length.
pub open spec fn bare(w: Seq<char>) -> bool {
    &&& w.len() > 0
    &&& forall|i: int| 0 <= i < w.len() ==> #[trigger] w[i] != '/' && !is_space(w[i])
}

/// An address is read alone, with a prefix length, and with other words behind it.
pub proof fn addresses_are_read_without_their_prefix(
    w: Seq<char>,
    prefix: Seq<char>,
    rest: Seq<char>,
)
    requires
        bare(w),
        forall|i: int| 0 <= i < prefix.len() ==> !is_space(#[trigger] prefix[i]),
        rest.len() == 0 || is_space(rest[0]),
    ensures
        address_in_value(w + rest) == address_of(w),
        address_in_value(w + seq!['/'] + prefix + rest) == address_of(w),
{
    let a = w + rest;
    text::lemma_first_word(w, rest);
    assert(words(a)[0] == w);
    text::lemma_no_separator(w, '/');
    let long = w + seq!['/'] + prefix;
    let b = long + rest;
    assert forall|i: int| 0 <= i < long.len() implies !is_space(#[trigger] long[i]) by {
        if i < w.len() {
            assert(long[i] == w[i]);
        } else if i > w.len() {
            assert(long[i] == prefix[i - w.len() - 1]);
        }
    }
    text::lemma_first_word(long, rest);
    assert(words(b)[0] == long);
    text::lemma_first_piece(w, '/', prefix);
}

/// The line that gives the value of a setting.
pub open spec fn setting_line(label: Seq<char>, value: Seq<char>) -> Seq<char> {
    label + seq![':'] + value
}

/// A label that can stand in a line.
pub open spec fn is_label(label: Seq<char>) -> bool {
    forall|i: int| 0 <= i < label.len() ==> #[trigger] label[i] != ':'
}

proof fn lemma_line(s: SettingsView, label: Seq<char>, value: Seq<char>)
    requires
        is_label(label),
        trimmed(value).len() > 0,
    ensures
        with_line(s, setting_line(label, value)) == crate::ip_settings::with_setting(
            s,
            lower(trimmed(label)),
            trimmed(value),
        ),
{
    let line = setting_line(label, value);
    text::lemma_index_of(line, ':');
    lemma_colon(label, value);
    assert(line.take(label.len() as int) =~= label);
    assert(line.skip(label.len() as int + 1) =~= value);
}

proof fn lemma_colon(label: Seq<char>, value: Seq<char>)
    requires
        is_label(label),
    ensures
        text::index_of(label + seq![':'] + value, ':') == label.len(),
    decreases label.len(),
{
    let line = label + seq![':'] + value;
    if label.len() > 0 {
        let d = label.drop_first();
        assert(line.drop_first() =~= d + seq![':'] + value);
        assert(line[0] == label[0]);
        assert forall|i: int| 0 <= i < d.len() implies #[trigger] d[i] != ':' by {
            assert(d[i] == label[i + 1]);
        }
        lemma_colon(d, value);
    }
}

proof fn lemma_labels_differ()
    ensures
        "ipv6 address"@.len() == 12,
        "ipv4 address"@.len() == 12,
        "ipv6 address"@ != "ipv4 address"@,
        "ipv6 gateway address"@.len() == 20,
        "ipv4 gateway address"@.len() == 20,
        "ipv6 gateway address"@ != "ipv4 gateway address"@,
        "ipv6 primary dns"@.len() == 16,
        "ipv4 primary dns"@.len() == 16,
        "ipv6 primary dns"@ != "ipv4 primary dns"@,
        "ipv6 secondary dns"@.len() == 18,
        "ipv4 secondary dns"@.len() == 18,
        "ipv6 secondary dns"@ != "ipv4 secondary dns"@,
        "ipv6 gateway"@.len() == 12,
        "ipv4 gateway"@.len() == 12,
        "ipv6 gateway"@ != "ipv4 gateway"@,
        "ipv6 gateway"@ != "ipv4 address"@,
        "ipv4 gateway"@ != "ipv4 address"@,
        "ipv6 gateway"@ != "ipv6 address"@,
        "ipv4 gateway"@ != "ipv6 address"@,
        "p-cscf"@.len() == 6,
        "pcscf"@.len() == 5,
{
    reveal_strlit("ipv6 address");
    reveal_strlit("ipv4 address");
    reveal_strlit("ipv6 gateway address");
    reveal_strlit("ipv4 gateway address");
    reveal_strlit("ipv6 gateway");
    reveal_strlit("ipv4 gateway");
    reveal_strlit("ipv6 primary dns");
    reveal_strlit("ipv4 primary dns");
    reveal_strlit("ipv6 secondary dns");
    reveal_strlit("ipv4 secondary dns");
    reveal_strlit("p-cscf");
    reveal_strlit("pcscf");
    assert("ipv6 address"@[3] == '6' && "ipv4 address"@[3] == '4');
    assert("ipv6 gateway address"@[3] == '6' && "ipv4 gateway address"@[3] == '4');
    assert("ipv6 primary dns"@[3] == '6' && "ipv4 primary dns"@[3] == '4');
    assert("ipv6 secondary dns"@[3] == '6' && "ipv4 secondary dns"@[3] == '4');
    assert("ipv6 gateway"@[3] == '6' && "ipv4 gateway"@[3] == '4');
    assert("ipv6 gateway"@[5] == 'g' && "ipv4 gateway"@[5] == 'g');
    assert("ipv6 address"@[5] == 'a' && "ipv4 address"@[5] == 'a');
}

/// Each setting is read from under its label, in any case and with spaces around it: an
/// address, a gateway and name servers for each family, and the P-CSCF addresses. A line
/// leaves every other setting as it was, and one with another label leaves all of them.
pub proof fn settings_are_read_under_their_labels(
    s: SettingsView,
    label: Seq<char>,
    value: Seq<char>,
)
    requires
        is_label(label),
        trimmed(value).len() > 0,
    ensures
        ({
            let r = with_line(s, setting_line(label, value));
            let name = lower(trimmed(label));
            let a = address_in_value(trimmed(value));
            let address6 = name == "ipv6 address"@;
            let gateway6 = name == "ipv6 gateway address"@ || name == "ipv6 gateway"@;
            let servers6 = name == "ipv6 primary dns"@ || name == "ipv6 secondary dns"@;
            let address4 = name == "ipv4 address"@;
            let gateway4 = name == "ipv4 gateway address"@ || name == "ipv4 gateway"@;
            let servers4 = name == "ipv4 primary dns"@ || name == "ipv4 secondary dns"@;
            let pcscf = name == "p-cscf"@ || name == "pcscf"@;
            &&& address6 ==> r.ipv6_address == a
            &&& gateway6 ==> r.ipv6_gateway == a
            &&& servers6 && a is Some ==> r.ipv6_dns.contains(a->0)
            &&& address4 ==> r.ipv4_address == a
            &&& gateway4 ==> r.ipv4_gateway == a
            &&& servers4 && a is Some ==> r.ipv4_dns.contains(a->0)
            &&& pcscf && a is Some ==> r.pcscf.contains(a->0)
            &&& !address6 ==> r.ipv6_address == s.ipv6_address
            &&& !gateway6 ==> r.ipv6_gateway == s.ipv6_gateway
            &&& !servers6 ==> r.ipv6_dns == s.ipv6_dns
            &&& !address4 ==> r.ipv4_address == s.ipv4_address
            &&& !gateway4 ==> r.ipv4_gateway == s.ipv4_gateway
            &&& !servers4 ==> r.ipv4_dns == s.ipv4_dns
            &&& !pcscf ==> r.pcscf == s.pcscf
            &&& keeps_front(s.ipv6_dns, r.ipv6_dns)
            &&& keeps_front(s.ipv4_dns, r.ipv4_dns)
            &&& keeps_front(s.pcscf, r.pcscf)
        }),
{
    lemma_labels_differ();
    lemma_line(s, label, value);
    let a = address_in_value(trimmed(value));
    lemma_with_opt(s.ipv6_dns, a);
    lemma_with_opt(s.ipv4_dns, a);
    lemma_with_opt(s.pcscf, a);
    lemma_with_opt(s.ipv6_dns, None);
    lemma_with_opt(s.ipv4_dns, None);
    lemma_with_opt(s.pcscf, None);
}

/// The second list begins with the first and is at most one longer.
pub open spec fn keeps_front(before: Seq<IpAddr>, after: Seq<IpAddr>) -> bool {
    before.len() <= after.len() <= before.len() + 1 && after.take(before.len() as int) == before
}

proof fn lemma_with_opt(list: Seq<IpAddr>, a: Option<IpAddr>)
    ensures
        keeps_front(list, with_opt(list, a)),
        a is Some ==> with_opt(list, a).contains(a->0),
{
    let all = with_opt(list, a);
    assert(all.take(list.len() as int) =~= list);
    if a is Some && !list.contains(a->0) {
        assert(all[list.len() as int] == a->0);
    }
}

/// A later line is read into what the lines before it gave.
pub proof fn later_lines_add_to_earlier_ones(lines: Seq<Seq<char>>, line: Seq<char>)
    ensures
        settings_in(lines.push(line)) == with_line(settings_in(lines), line),
        settings_in(Seq::empty()).pcscf.len() == 0,
        settings_in(Seq::empty()).ipv6_address is None,
        settings_in(Seq::empty()).ipv4_address is None,
{
    assert(lines.push(line).drop_last() =~= lines);
    assert(lines.push(line).last() == line);
}

/// The local addresses come in the order of the families, those that the bearer has; the
/// preferred one is IPv6 where there is one.
pub proof fn local_addresses_follow_the_families(s: SettingsView, a: IpAddr, b: IpAddr)
    requires
        s.ipv6_address == Some(a),
        s.ipv4_address == Some(b),
        a != b,
    ensures
        s.ordered(seq![IpFamily::Ipv6, IpFamily::Ipv4]) == seq![a, b],
        s.ordered(seq![IpFamily::Ipv4, IpFamily::Ipv6]) == seq![b, a],
        s.ordered(seq![IpFamily::Ipv6]) == seq![a],
        s.ordered(seq![IpFamily::Ipv4]) == seq![b],
        s.preferred() == Some(a),
        (SettingsView { ipv6_address: None, ..s }).preferred() == Some(b),
        (SettingsView { ipv6_address: None, ..s }).ordered(seq![IpFamily::Ipv6, IpFamily::Ipv4])
            == seq![b],
        (SettingsView { ipv4_address: None, ..s }).ordered(seq![IpFamily::Ipv4, IpFamily::Ipv6])
            == seq![a],
{
    lemma_two(s, IpFamily::Ipv6, IpFamily::Ipv4);
    lemma_two(s, IpFamily::Ipv4, IpFamily::Ipv6);
    lemma_two(SettingsView { ipv6_address: None, ..s }, IpFamily::Ipv6, IpFamily::Ipv4);
    lemma_two(SettingsView { ipv4_address: None, ..s }, IpFamily::Ipv4, IpFamily::Ipv6);
    assert(!seq![a].contains(b));
    assert(!seq![b].contains(a));
    let e = Seq::<IpAddr>::empty();
    assert(with(e, a) =~= seq![a] && with(e, b) =~= seq![b]);
    assert(with(seq![a], b) =~= seq![a, b]);
    assert(with(seq![b], a) =~= seq![b, a]);
}

proof fn lemma_two(s: SettingsView, x: IpFamily, y: IpFamily)
    ensures
        s.ordered(seq![x]) == with_opt(Seq::empty(), s.address_in(x)),
        s.ordered(seq![x, y]) == with_opt(
            with_opt(Seq::empty(), s.address_in(x)),
            s.address_in(y),
        ),
{
    reveal_with_fuel(SettingsView::ordered, 3);
    assert(seq![x, y].drop_last() =~= seq![x]);
    assert(seq![x].drop_last() =~= Seq::<IpFamily>::empty());
}

} // verus!
