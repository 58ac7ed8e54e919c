//! What does not decide the class of a failure.

use vstd::prelude::*;
use vstd::string::*;

use crate::errors::code;
use crate::plan::{class_of_details, FailureClass};
use crate::text;
use crate::text::{decimal, has_part, is_digit, lower, lower_char, part_at};

verus! {

/// ASCII lower case in upper case; every other character kept.
pub open spec fn upper_char(c: char) -> char {
    if 'a' <= c <= 'z' {
        (c as u8 - 32) as char
    } else {
        c
    }
}

pub open spec fn upper(s: Seq<char>) -> Seq<char> {
    Seq::new(s.len(), |i: int| upper_char(s[i]))
}

/// The notice that a client id outlives the tool that took it. It comes with every
/// failure on the secondary QMI endpoint.
pub open spec fn client_id_notice(cid: nat) -> Seq<char> {
    " Client ID not released: Service: 'wds' CID: '"@ + decimal(cid) + "'"@
}

/// The letter case of a text does not decide its class.
pub proof fn case_decides_nothing(details: Seq<char>)
    ensures
        class_of_details(upper(details)) == class_of_details(details),
        class_of_details(lower(details)) == class_of_details(details),
{
    assert(lower(upper(details)) =~= lower(details)) by {
        assert forall|i: int| 0 <= i < details.len() implies lower(upper(details))[i] == lower(
            details,
        )[i] by {
            lemma_case(details[i]);
        }
    }
    assert(lower(lower(details)) =~= lower(details)) by {
        assert forall|i: int| 0 <= i < details.len() implies lower(lower(details))[i] == lower(
            details,
        )[i] by {
            lemma_case(details[i]);
        }
    }
}

proof fn lemma_case(c: char)
    ensures
        lower_char(upper_char(c)) == lower_char(c),
        lower_char(lower_char(c)) == lower_char(c),
{
}

/// A character that stands in a signature, but not in the notice.
spec fn telling(c: char) -> bool {
    c == 'p' || c == '_' || c == '-' || c == 'f' || c == 'm'
}

/// The character in either case.
spec fn loud(c: char) -> bool {
    telling(c) || c == 'P' || c == 'F' || c == 'M'
}

spec fn is_r(c: char) -> bool {
    c == 'r' || c == 'R'
}

/// None of the first `n` characters is telling, and no two of them are `r`.
spec fn quiet(s: Seq<char>, n: nat) -> bool
    decreases n,
{
    n == 0 || {
        &&& quiet(s, (n - 1) as nat)
        &&& !loud(s[n - 1])
        &&& n >= 2 ==> !(is_r(s[n - 1]) && is_r(s[n - 2]))
    }
}

proof fn lemma_quiet(s: Seq<char>, n: nat)
    requires
        quiet(s, n),
        n <= s.len(),
    ensures
        forall|i: int| 0 <= i < n ==> !loud(#[trigger] s[i]),
        forall|i: int| 0 <= i < n - 1 ==> !(is_r(#[trigger] s[i]) && is_r(s[i + 1])),
    decreases n,
{
    if n > 0 {
        lemma_quiet(s, (n - 1) as nat);
        assert forall|i: int| 0 <= i < n - 1 implies !(is_r(#[trigger] s[i]) && is_r(s[i + 1])) by {
            if i == n - 2 {
                assert(s[n - 2] == s[i]);
            }
        }
    }
}

/// A text that holds no signature, and that none reaches into.
spec fn harmless(n: Seq<char>) -> bool {
    &&& n.len() >= 2
    &&& n[0] == ' '
    &&& n[1] == 'c'
    &&& forall|i: int| 0 <= i < n.len() ==> !telling(#[trigger] n[i])
    &&& forall|i: int| 0 <= i < n.len() - 1 ==> !(#[trigger] n[i] == 'r' && n[i + 1] == 'r')
}

proof fn lemma_notice(cid: nat)
    ensures
        harmless(lower(client_id_notice(cid))),
{
    let a = " Client ID not released: Service: 'wds' CID: '"@;
    let b = decimal(cid);
    let n = client_id_notice(cid);
    reveal_strlit(" Client ID not released: Service: 'wds' CID: '");
    reveal_strlit("'");
    assert(quiet(a, a.len())) by {
        reveal_with_fuel(quiet, 48);
    }
    lemma_quiet(a, a.len());
    text::lemma_decimal_digits(cid);
    assert(a.last() == '\'');
    assert forall|i: int| 0 <= i < n.len() implies !loud(#[trigger] n[i]) by {
        if i < a.len() {
            assert(n[i] == a[i]);
        } else if i < a.len() + b.len() {
            assert(n[i] == b[i - a.len()]);
            assert(is_digit(n[i]));
        } else {
            assert(n[i] == '\'');
        }
    }
    assert forall|i: int| 0 <= i < n.len() - 1 implies !(is_r(#[trigger] n[i]) && is_r(
        n[i + 1],
    )) by {
        if i < a.len() - 1 {
            assert(n[i] == a[i] && n[i + 1] == a[i + 1]);
        } else if i == a.len() - 1 {
            assert(n[i] == a.last());
        } else if i < a.len() + b.len() {
            assert(n[i] == b[i - a.len()]);
            assert(is_digit(n[i]));
        } else {
            assert(n[i] == '\'');
        }
    }
    let folded = lower(n);
    assert forall|i: int| 0 <= i < folded.len() implies !telling(#[trigger] folded[i]) by {
        lemma_folded(n[i]);
    }
    assert forall|i: int| 0 <= i < folded.len() - 1 implies !(#[trigger] folded[i] == 'r' && folded[
    i + 1] == 'r') by {
        lemma_folded(n[i]);
        lemma_folded(n[i + 1]);
        assert(!(is_r(n[i]) && is_r(n[i + 1])));
    }
    assert(n[0] == ' ' && n[1] == 'C');
}

proof fn lemma_folded(c: char)
    ensures
        telling(lower_char(c)) ==> loud(c),
        lower_char(c) == 'r' ==> is_r(c),
{
}

/// Among the first `n` characters, a space is followed by a character other than `c`.
spec fn firm(p: Seq<char>, n: nat) -> bool
    decreases n,
{
    n == 0 || {
        &&& firm(p, (n - 1) as nat)
        &&& p[n - 1] == ' ' ==> n < p.len() && p[n as int] != 'c'
    }
}

proof fn lemma_firm(p: Seq<char>, n: nat, j: int)
    requires
        firm(p, n),
        0 <= j < n,
    ensures
        p[j] == ' ' ==> j + 1 < p.len() && p[j + 1] != 'c',
    decreases n,
{
    if j < n - 1 {
        lemma_firm(p, (n - 1) as nat, j);
    }
}

/// A harmless text at the end adds no signature. `k` is where the signature tells
/// itself from it.
proof fn lemma_adds_nothing(d: Seq<char>, n: Seq<char>, p: Seq<char>, k: int)
    requires
        harmless(n),
        firm(p, p.len()),
        0 <= k < p.len(),
        telling(p[k]) || (k + 1 < p.len() && p[k] == 'r' && p[k + 1] == 'r'),
    ensures
        has_part(d + n, p) == has_part(d, p),
{
    let s = d + n;
    if has_part(d, p) {
        let i = choose|i: int| #[trigger] part_at(d, p, i);
        assert(s.subrange(i, i + p.len()) =~= d.subrange(i, i + p.len()));
        assert(part_at(s, p, i));
    }
    if has_part(s, p) {
        let i = choose|i: int| #[trigger] part_at(s, p, i);
        let found = s.subrange(i, i + p.len());
        if i + p.len() <= d.len() {
            assert(s.subrange(i, i + p.len()) =~= d.subrange(i, i + p.len()));
            assert(part_at(d, p, i));
        } else if i >= d.len() {
            assert(found[k] == n[i + k - d.len()]);
            if !telling(p[k]) {
                assert(found[k + 1] == n[i + k + 1 - d.len()]);
            }
        } else {
            let j = d.len() - i;
            assert(found[j] == n[0]);
            lemma_firm(p, p.len(), j);
            assert(found[j + 1] == n[1]);
        }
    }
}

/// The notice that a client id was not released never decides the class of a failure,
/// in either direction.
pub proof fn client_id_notice_decides_nothing(details: Seq<char>, cid: nat)
    ensures
        class_of_details(details + client_id_notice(cid)) == class_of_details(details),
        class_of_details(client_id_notice(cid)) == FailureClass::Other,
{
    lemma_notice_adds_nothing(details, cid);
    lemma_notice_adds_nothing(Seq::empty(), cid);
    assert(Seq::<char>::empty() + client_id_notice(cid) =~= client_id_notice(cid));
    lemma_empty();
}

proof fn lemma_empty()
    ensures
        class_of_details(Seq::empty()) == FailureClass::Other,
{
    reveal_strlit("ipv6onlyallowed");
    reveal_strlit("ipv6-only-allowed");
    reveal_strlit("only ipv6 allowed");
    reveal_strlit("ipv4onlyallowed");
    reveal_strlit("ipv4-only-allowed");
    reveal_strlit("only ipv4 allowed");
    reveal_strlit("prefix-unavailable");
    reveal_strlit("volte_bearer_netdev_runtime_error");
    reveal_strlit("interface-in-use-config-match");
    reveal_strlit("endpoint hangup");
    reveal_strlit("mobileequipment.unknown");
    reveal_strlit("call failed");
    reveal_strlit("callfailed");
}

proof fn lemma_notice_adds_nothing(details: Seq<char>, cid: nat)
    ensures
        class_of_details(details + client_id_notice(cid)) == class_of_details(details),
{
    let d = lower(details);
    let n = lower(client_id_notice(cid));
    assert(lower(details + client_id_notice(cid)) =~= d + n);
    lemma_notice(cid);
    reveal_with_fuel(firm, 35);
    reveal_strlit("ipv6onlyallowed");
    lemma_adds_nothing(d, n, "ipv6onlyallowed"@, 1);
    reveal_strlit("ipv6-only-allowed");
    lemma_adds_nothing(d, n, "ipv6-only-allowed"@, 1);
    reveal_strlit("only ipv6 allowed");
    lemma_adds_nothing(d, n, "only ipv6 allowed"@, 6);
    reveal_strlit("ipv4onlyallowed");
    lemma_adds_nothing(d, n, "ipv4onlyallowed"@, 1);
    reveal_strlit("ipv4-only-allowed");
    lemma_adds_nothing(d, n, "ipv4-only-allowed"@, 1);
    reveal_strlit("only ipv4 allowed");
    lemma_adds_nothing(d, n, "only ipv4 allowed"@, 6);
    reveal_strlit("prefix-unavailable");
    lemma_adds_nothing(d, n, "prefix-unavailable"@, 0);
    reveal_strlit("volte_bearer_netdev_runtime_error");
    lemma_adds_nothing(d, n, code::BEARER_NETDEV_RUNTIME_ERROR@, 5);
    reveal_strlit("volte_bearer_netdev_not_up");
    lemma_adds_nothing(d, n, code::BEARER_NETDEV_NOT_UP@, 5);
    reveal_strlit("volte_bearer_netdev_not_ready");
    lemma_adds_nothing(d, n, code::BEARER_NETDEV_NOT_READY@, 5);
    reveal_strlit("interface-in-use-config-match");
    lemma_adds_nothing(d, n, "interface-in-use-config-match"@, 5);
    reveal_strlit("endpoint hangup");
    lemma_adds_nothing(d, n, "endpoint hangup"@, 3);
    reveal_strlit("mobileequipment.unknown");
    lemma_adds_nothing(d, n, "mobileequipment.unknown"@, 0);
    reveal_strlit("call failed");
    lemma_adds_nothing(d, n, "call failed"@, 5);
    reveal_strlit("callfailed");
    lemma_adds_nothing(d, n, "callfailed"@, 4);
    reveal_strlit("internal error");
    lemma_adds_nothing(d, n, "internal error"@, 10);
    reveal_strlit("[internal] error");
    lemma_adds_nothing(d, n, "[internal] error"@, 12);
}

} // verus!
