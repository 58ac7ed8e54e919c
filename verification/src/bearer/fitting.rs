//! What holds of every bearer that is taken for a request, and of every one that is made.

use vstd::prelude::*;
use vstd::string::*;

use crate::bearer::attempt::{AttemptView, TryView};
use crate::bearer::ensure::{existing_bearer, EnsureView, ExistingBearer, StepView};
use crate::bearer::{
    bearer_path_valid, bearer_properties, connection_in, first_bearer_word, listed_bearers,
    wds_argument, RequestView, BEARER_PATH_PREFIX,
};
use crate::errors::{code, ErrorView};
use crate::ip::address_of;
use crate::modem_output::{first_value, line_value, value_of};
use crate::text;
use crate::text::{
    decimal, halves, has_prefix, index_of, is_digit, is_space, lower, number, pieces, trimmed,
    words,
};

verus! {

/// The property says that roaming is allowed.
pub open spec fn allowing(value: Seq<char>) -> bool {
    lower(value) == "yes"@ || lower(value) == "true"@ || lower(value) == "allowed"@
}

/// The property says that roaming is not allowed.
pub open spec fn forbidding(value: Seq<char>) -> bool {
    lower(value) == "no"@ || lower(value) == "false"@ || lower(value) == "forbidden"@
}

/// The bearer states a roaming policy other than the requested one.
pub open spec fn roams_otherwise(details: Seq<char>, allow_roaming: bool) -> bool {
    let stated = value_of(details, "bearer.properties.roaming-allowance"@);
    let older = value_of(details, "bearer.properties.allow-roaming"@);
    if stated is Some && (allowing(trimmed(stated->0)) || forbidding(trimmed(stated->0))) {
        if allow_roaming {
            forbidding(trimmed(stated->0))
        } else {
            allowing(trimmed(stated->0))
        }
    } else if stated is None && older is Some {
        if allow_roaming {
            forbidding(trimmed(older->0))
        } else {
            allowing(trimmed(older->0))
        }
    } else {
        false
    }
}

/// The bearer reports the profile with this number.
pub open spec fn reports_profile(details: Seq<char>, id: u32) -> bool {
    let stated = value_of(details, "bearer.properties.profile-id"@);
    stated is Some && number(stated->0, 0xffff_ffff) == Some(id as nat)
}

/// A bearer is taken as it is, reused or connected again, only where it is one of the
/// requested access point, reports the requested profile where one is requested, states
/// no other roaming policy and serves both families; it is reused as it stands exactly
/// where it is connected.
pub proof fn taken_bearers_fit_the_request(details: Seq<char>, request: RequestView)
    ensures
        ({
            let fate = existing_bearer(details, request);
            let apn = value_of(details, "bearer.properties.apn"@);
            let up = value_of(details, "bearer.status.connected"@) == Some("yes"@);
            let families = value_of(details, "bearer.properties.ip-type"@);
            &&& (fate is Reuse || fate is Reconnect) ==> {
                &&& apn is Some && lower(apn->0) == lower(request.apn)
                &&& request.profile_id is Some ==> reports_profile(details, request.profile_id->0)
                &&& !roams_otherwise(details, request.allow_roaming)
                &&& families is Some && lower(families->0) == lower("ipv4v6"@)
                &&& fate is Reuse <==> up
            }
            &&& fate is Foreign <==> (apn is None || lower(apn->0) != lower(request.apn))
            &&& !(fate is Foreign) && (roams_otherwise(details, request.allow_roaming) || (
            request.profile_id is Some && !reports_profile(details, request.profile_id->0)))
                ==> fate == ExistingBearer::Recreate { disconnect: up }
            &&& fate is Recreate ==> fate->Recreate_disconnect == up
            &&& fate is Discard ==> fate->Discard_disconnect == up && (families is None || lower(
                families->0,
            ) != lower("ipv4v6"@))
        }),
{
    lemma_roaming_words();
}

proof fn lemma_roaming_words()
    ensures
        "yes"@ != "no"@ && "yes"@ != "false"@ && "yes"@ != "forbidden"@,
        "true"@ != "no"@ && "true"@ != "false"@ && "true"@ != "forbidden"@,
        "allowed"@ != "no"@ && "allowed"@ != "false"@ && "allowed"@ != "forbidden"@,
        "no"@ != "1"@ && "no"@ != "any"@,
        "false"@ != "1"@ && "false"@ != "any"@,
        "forbidden"@ != "1"@ && "forbidden"@ != "any"@,
{
    reveal_strlit("yes");
    reveal_strlit("true");
    reveal_strlit("allowed");
    reveal_strlit("no");
    reveal_strlit("false");
    reveal_strlit("forbidden");
    reveal_strlit("1");
    reveal_strlit("any");
    assert("yes"@[0] == 'y' && "true"@[0] == 't' && "allowed"@[0] == 'a');
    assert("no"@[0] == 'n' && "false"@[0] == 'f' && "forbidden"@[0] == 'f');
    assert("1"@[0] == '1' && "any"@[0] == 'a');
}

/// A bearer that fits in every respect is taken, not made anew.
pub proof fn fitting_bearers_are_taken(details: Seq<char>, request: RequestView)
    requires
        value_of(details, "bearer.properties.apn"@) == Some(request.apn),
        value_of(details, "bearer.properties.ip-type"@) == Some("ipv4v6"@),
        request.profile_id is Some ==> reports_profile(details, request.profile_id->0),
        value_of(details, "bearer.properties.roaming-allowance"@) is None,
        value_of(details, "bearer.properties.allow-roaming"@) == Some(
            if request.allow_roaming {
                "yes"@
            } else {
                "no"@
            },
        ) || value_of(details, "bearer.properties.allow-roaming"@) is None,
    ensures
        existing_bearer(details, request) == (if value_of(details, "bearer.status.connected"@)
            == Some("yes"@) {
            ExistingBearer::Reuse
        } else {
            ExistingBearer::Reconnect
        }),
{
    lemma_roaming_words();
    reveal_strlit("yes");
    reveal_strlit("no");
    assert(lower("yes"@) =~= "yes"@);
    assert(lower("no"@) =~= "no"@);
    assert(trimmed("yes"@) == "yes"@);
    assert(trimmed("no"@) == "no"@);
}

/// What becomes of a bearer that was looked at: it is passed over, removed, connected or
/// reused, and a bearer that is reused is described by what was read of it.
pub proof fn inspected_bearers_are_acted_on(
    state: EnsureView,
    path: Seq<char>,
    details: Seq<char>,
)
    ensures
        ({
            let fate = existing_bearer(details, state.request);
            let (next, step) = state.inspected(path, details);
            &&& fate is Reconnect ==> step == StepView::Reconnect { path } && next == state
            &&& fate is Recreate ==> step == (StepView::Remove {
                path,
                disconnect: fate->Recreate_disconnect,
            }) && next.stop_looking == state.stop_looking
            &&& fate is Discard ==> step == (StepView::Remove {
                path,
                disconnect: fate->Discard_disconnect,
            }) && next.stop_looking
            &&& fate is Reuse ==> (step is Reused || step is ReuseFailed) && (step is Reused
                ==> step->Reused_0.path == path)
        }),
{
}

// ---------------------------------------------------------------------------
// What is asked of a new bearer.

/// The value of the first of the parts that sets `name`.
pub open spec fn setting(parts: Seq<Seq<char>>, name: Seq<char>) -> Option<Seq<char>>
    decreases parts.len(),
{
    if parts.len() == 0 {
        None
    } else if halves(parts[0], '=') is Some && (halves(parts[0], '=')->0).0 == name {
        Some((halves(parts[0], '=')->0).1)
    } else {
        setting(parts.drop_first(), name)
    }
}

spec fn assigned(name: Seq<char>, value: Seq<char>) -> Seq<char> {
    name + seq!['='] + value
}

spec fn simple(s: Seq<char>) -> bool {
    forall|i: int| 0 <= i < s.len() ==> #[trigger] s[i] != ',' && s[i] != '='
}

proof fn lemma_assigned(name: Seq<char>, value: Seq<char>)
    requires
        simple(name),
        simple(value),
    ensures
        halves(assigned(name, value), '=') == Some((name, value)),
        forall|i: int|
            0 <= i < assigned(name, value).len() ==> #[trigger] assigned(name, value)[i] != ',',
{
    text::lemma_first_piece(name, '=', value);
    let s = assigned(name, value);
    assert forall|i: int| 0 <= i < s.len() implies #[trigger] s[i] != ',' by {
        if i < name.len() {
            assert(s[i] == name[i]);
        } else if i > name.len() {
            assert(s[i] == value[i - name.len() - 1]);
        }
    }
}

proof fn lemma_setting(
    names: Seq<Seq<char>>,
    values: Seq<Seq<char>>,
    parts: Seq<Seq<char>>,
    name: Seq<char>,
)
    requires
        names.len() == parts.len(),
        values.len() == parts.len(),
        forall|i: int|
            0 <= i < parts.len() ==> halves(#[trigger] parts[i], '=') == Some(
                (names[i], values[i]),
            ),
    ensures
        forall|k: int|
            0 <= k < parts.len() && #[trigger] names[k] == name && (forall|i: int|
                0 <= i < k ==> #[trigger] names[i] != name) ==> setting(parts, name) == Some(
                values[k],
            ),
        (forall|i: int| 0 <= i < parts.len() ==> #[trigger] names[i] != name) ==> setting(
            parts,
            name,
        ) is None,
    decreases parts.len(),
{
    if parts.len() > 0 {
        let n = names.drop_first();
        let v = values.drop_first();
        let p = parts.drop_first();
        assert forall|i: int| 0 <= i < p.len() implies halves(#[trigger] p[i], '=') == Some(
            (n[i], v[i]),
        ) by {
            assert(p[i] == parts[i + 1]);
        }
        lemma_setting(n, v, p, name);
        assert(halves(parts[0], '=') == Some((names[0], values[0])));
        if forall|i: int| 0 <= i < parts.len() ==> #[trigger] names[i] != name {
            assert forall|i: int| 0 <= i < p.len() implies #[trigger] n[i] != name by {
                assert(n[i] == names[i + 1]);
            }
        }
        assert forall|k: int|
            0 <= k < parts.len() && #[trigger] names[k] == name && (forall|i: int|
                0 <= i < k ==> #[trigger] names[i] != name) implies setting(parts, name) == Some(
            values[k],
        ) by {
            if k > 0 {
                assert(names[0] != name);
                assert(n[k - 1] == name);
                assert forall|i: int| 0 <= i < k - 1 implies #[trigger] n[i] != name by {
                    assert(n[i] == names[i + 1]);
                }
                assert(v[k - 1] == values[k]);
            }
        }
    }
}

spec fn roaming_text(allow: bool) -> Seq<char> {
    if allow {
        "yes"@
    } else {
        "no"@
    }
}

proof fn lemma_names()
    ensures
        simple("apn"@),
        simple("ip-type"@),
        simple("allow-roaming"@),
        simple("profile-id"@),
        simple("yes"@),
        simple("no"@),
        "apn"@.len() == 3,
        "ip-type"@.len() == 7,
        "allow-roaming"@.len() == 13,
        "profile-id"@.len() == 10,
{
    reveal_strlit("apn");
    reveal_strlit("ip-type");
    reveal_strlit("allow-roaming");
    reveal_strlit("profile-id");
    reveal_strlit("yes");
    reveal_strlit("no");
}

proof fn lemma_properties_text(request: RequestView, ip_type: Seq<char>)
    ensures
        ({
            let c = seq![','];
            let tail = assigned("apn"@, request.apn) + c + (assigned("ip-type"@, ip_type) + c
                + assigned("allow-roaming"@, roaming_text(request.allow_roaming)));
            bearer_properties(request, ip_type) == (match request.profile_id {
                Some(id) => assigned("profile-id"@, decimal(id as nat)) + c + tail,
                None => tail,
            })
        }),
{
    reveal_strlit("apn");
    reveal_strlit("ip-type");
    reveal_strlit("allow-roaming");
    reveal_strlit("profile-id");
    reveal_strlit("apn=");
    reveal_strlit(",apn=");
    reveal_strlit(",ip-type=");
    reveal_strlit(",allow-roaming=");
    reveal_strlit("profile-id=");
    assert("apn="@ =~= "apn"@ + seq!['=']);
    assert(",apn="@ =~= seq![','] + "apn"@ + seq!['=']);
    assert(",ip-type="@ =~= seq![','] + "ip-type"@ + seq!['=']);
    assert(",allow-roaming="@ =~= seq![','] + "allow-roaming"@ + seq!['=']);
    assert("profile-id="@ =~= "profile-id"@ + seq!['=']);
    let c = seq![','];
    let tail = assigned("apn"@, request.apn) + c + (assigned("ip-type"@, ip_type) + c + assigned(
        "allow-roaming"@,
        roaming_text(request.allow_roaming),
    ));
    match request.profile_id {
        Some(id) => {
            assert(bearer_properties(request, ip_type) =~= assigned(
                "profile-id"@,
                decimal(id as nat),
            ) + c + tail);
        },
        None => {
            assert(bearer_properties(request, ip_type) =~= tail);
        },
    }
}

/// The properties of a new bearer, read by whoever gets them, are the requested ones: the
/// access point, the profile where one is requested, the IP type and the roaming policy.
pub proof fn requested_properties_are_read_back(request: RequestView, ip_type: Seq<char>)
    requires
        forall|i: int| 0 <= i < request.apn.len() ==> #[trigger] request.apn[i] != ','
            && request.apn[i] != '=',
        forall|i: int| 0 <= i < ip_type.len() ==> #[trigger] ip_type[i] != ',' && ip_type[i] != '=',
    ensures
        ({
            let parts = pieces(bearer_properties(request, ip_type), ',');
            &&& setting(parts, "apn"@) == Some(request.apn)
            &&& setting(parts, "ip-type"@) == Some(ip_type)
            &&& setting(parts, "allow-roaming"@) == Some(
                if request.allow_roaming {
                    "yes"@
                } else {
                    "no"@
                },
            )
            &&& setting(parts, "profile-id"@) == (match request.profile_id {
                Some(id) => Some(decimal(id as nat)),
                None => None,
            })
        }),
{
    let roaming = roaming_text(request.allow_roaming);
    let c = seq![','];
    let a = assigned("apn"@, request.apn);
    let t = assigned("ip-type"@, ip_type);
    let r = assigned("allow-roaming"@, roaming);
    let tail = a + c + (t + c + r);
    let text = bearer_properties(request, ip_type);
    lemma_names();
    lemma_properties_text(request, ip_type);
    lemma_assigned("apn"@, request.apn);
    lemma_assigned("ip-type"@, ip_type);
    lemma_assigned("allow-roaming"@, roaming);
    text::lemma_no_separator(r, ',');
    text::lemma_first_piece(t, ',', r);
    text::lemma_first_piece(a, ',', t + c + r);
    let rest = seq![a, t, r];
    assert(pieces(tail, ',') =~= rest);
    let all = pieces(text, ',');
    match request.profile_id {
        Some(id) => {
            let d = decimal(id as nat);
            text::lemma_decimal_digits(id as nat);
            assert forall|i: int| 0 <= i < d.len() implies #[trigger] d[i] != ',' && d[i] != '=' by {
                assert(is_digit(d[i]));
            }
            let p = assigned("profile-id"@, d);
            lemma_assigned("profile-id"@, d);
            text::lemma_first_piece(p, ',', tail);
            assert(all =~= seq![p, a, t, r]);
            let names = seq!["profile-id"@, "apn"@, "ip-type"@, "allow-roaming"@];
            let values = seq![d, request.apn, ip_type, roaming];
            lemma_setting(names, values, all, "apn"@);
            lemma_setting(names, values, all, "ip-type"@);
            lemma_setting(names, values, all, "allow-roaming"@);
            lemma_setting(names, values, all, "profile-id"@);
            assert(names[0] == "profile-id"@);
            assert(names[1] == "apn"@);
            assert(names[2] == "ip-type"@);
            assert(names[3] == "allow-roaming"@);
        },
        None => {
            assert(all =~= rest);
            let names = seq!["apn"@, "ip-type"@, "allow-roaming"@];
            let values = seq![request.apn, ip_type, roaming];
            lemma_setting(names, values, all, "apn"@);
            lemma_setting(names, values, all, "ip-type"@);
            lemma_setting(names, values, all, "allow-roaming"@);
            lemma_setting(names, values, all, "profile-id"@);
            assert(names[0] == "apn"@);
            assert(names[1] == "ip-type"@);
            assert(names[2] == "allow-roaming"@);
        },
    }
}

/// A network that is started over QMI is of the requested access point, and bound to the
/// requested profile where one is requested.
pub proof fn started_networks_name_the_request(request: RequestView)
    ensures
        ({
            let argument = wds_argument(request);
            &&& has_prefix(argument, "--wds-start-network=apn="@ + request.apn)
            &&& request.profile_id is None ==> argument == "--wds-start-network=apn="@ + request.apn
            &&& request.profile_id is Some ==> text::has_suffix(
                argument,
                ",3gpp-profile="@ + decimal(request.profile_id->0 as nat),
            )
        }),
{
    let head = "--wds-start-network=apn="@ + request.apn;
    let argument = wds_argument(request);
    assert(argument.take(head.len() as int) =~= head);
    if request.profile_id is Some {
        let tail = ",3gpp-profile="@ + decimal(request.profile_id->0 as nat);
        assert(argument =~= head + tail);
        assert(argument.skip(argument.len() - tail.len()) =~= tail);
    }
}

// ---------------------------------------------------------------------------
// What a tool says of a bearer.

/// A line of a tool's output.
pub open spec fn output_line(key: Seq<char>, value: Seq<char>) -> Seq<char> {
    key + seq![' ', ':', ' '] + value
}

/// A text that stands in a line as it is.
pub open spec fn bare(s: Seq<char>) -> bool {
    s.len() > 0 && !is_space(s[0]) && !is_space(s.last())
}

/// A line of a tool's output gives its value for its key, and for no other.
pub proof fn output_lines_are_read_back(key: Seq<char>, value: Seq<char>, wanted: Seq<char>)
    requires
        bare(key),
        bare(value),
        forall|i: int| 0 <= i < key.len() ==> #[trigger] key[i] != ':',
    ensures
        line_value(output_line(key, value), wanted) == (if wanted == key {
            Some(value)
        } else {
            None
        }),
{
    let left = key.push(' ');
    let right = seq![' '] + value;
    assert(output_line(key, value) =~= left + seq![':'] + right);
    assert forall|i: int| 0 <= i < left.len() implies left[i] != ':' by {
        if i < key.len() {
            assert(left[i] == key[i]);
        }
    }
    text::lemma_first_piece(left, ':', right);
    assert(left[0] == key[0]);
    assert(text::trim_start(left) == left);
    assert(left.drop_last() =~= key);
    assert(text::trim_end(key) == key);
    assert(right.drop_first() =~= value);
    assert(text::trim_start(value) == value);
    assert(text::trim_end(value) == value);
}

/// The first of the lines that has the key gives the value.
pub proof fn first_line_gives_the_value(lines: Seq<Seq<char>>, key: Seq<char>, k: int)
    requires
        0 <= k < lines.len(),
        line_value(lines[k], key) is Some,
        forall|i: int| 0 <= i < k ==> line_value(#[trigger] lines[i], key) is None,
    ensures
        first_value(lines, key) == line_value(lines[k], key),
    decreases k,
{
    if k > 0 {
        let rest = lines.drop_first();
        assert(line_value(lines[0], key) is None);
        assert(rest[k - 1] == lines[k]);
        assert forall|i: int| 0 <= i < k - 1 implies line_value(#[trigger] rest[i], key) is None by {
            assert(rest[i] == lines[i + 1]);
        }
        first_line_gives_the_value(rest, key, k - 1);
    }
}

/// A bearer counts as connected, and its settings are taken, only where the tool says that
/// it is connected, names its interface and gives an address; each setting is what the
/// tool gives under its own key.
pub proof fn connections_are_read_from_their_keys(path: Seq<char>, output: Seq<char>)
    ensures
        ({
            let read = connection_in(path, output);
            let up = value_of(output, "bearer.status.connected"@) == Some("yes"@);
            let interface = value_of(output, "bearer.status.interface"@);
            let v4 = value_of(output, "bearer.ipv4-config.address"@);
            let v6 = value_of(output, "bearer.ipv6-config.address"@);
            &&& read is Ok ==> {
                &&& up
                &&& read->Ok_0.path == path
                &&& interface == Some(read->Ok_0.interface) && read->Ok_0.interface != "--"@
                &&& read->Ok_0.settings.ipv4_address is Some ==> v4 is Some
                    && read->Ok_0.settings.ipv4_address == address_of(v4->0)
                &&& read->Ok_0.settings.ipv6_address is Some ==> v6 is Some
                    && read->Ok_0.settings.ipv6_address == address_of(v6->0)
                &&& read->Ok_0.settings.ipv4_address is Some
                    || read->Ok_0.settings.ipv6_address is Some
                &&& v4 is Some && v4->0 != "--"@ ==> read->Ok_0.settings.ipv4_address == address_of(
                    v4->0,
                )
                &&& v6 is Some && v6->0 != "--"@ ==> read->Ok_0.settings.ipv6_address == address_of(
                    v6->0,
                )
                &&& read->Ok_0.ipv4_prefix is Some ==> value_of(
                    output,
                    "bearer.ipv4-config.prefix"@,
                ) is Some && number(value_of(output, "bearer.ipv4-config.prefix"@)->0, 255) == Some(
                    read->Ok_0.ipv4_prefix->0 as nat,
                )
                &&& read->Ok_0.ipv6_prefix is Some ==> value_of(
                    output,
                    "bearer.ipv6-config.prefix"@,
                ) is Some && number(value_of(output, "bearer.ipv6-config.prefix"@)->0, 255) == Some(
                    read->Ok_0.ipv6_prefix->0 as nat,
                )
                &&& value_of(output, "bearer.properties.ip-type"@) is Some ==> Some(
                    read->Ok_0.ip_type,
                ) == value_of(output, "bearer.properties.ip-type"@)
            }
            &&& !up ==> read is Err && read->Err_0.code == code::RUNTIME_MM_BEARER_NOT_CONNECTED@
            &&& up && (interface is None || (v4 is None && v6 is None)) ==> read is Err
                && read->Err_0.code == code::IP_SETTINGS_MISSING@
        }),
{
}

/// A line of the modem's output that lists a bearer.
pub open spec fn lists_a_bearer(line: Seq<char>) -> bool {
    halves(line, ':') is Some && has_prefix(
        trimmed((halves(line, ':')->0).0),
        "modem.generic.bearers.value"@,
    ) && bearer_path_valid(trimmed((halves(line, ':')->0).1))
}

/// Every bearer that is listed is one by its path, and stands in a line of the list; none
/// that stands there is left out.
pub proof fn listed_bearers_are_bearers(lines: Seq<Seq<char>>)
    ensures
        forall|k: int|
            0 <= k < listed_bearers(lines).len() ==> bearer_path_valid(
                #[trigger] listed_bearers(lines)[k],
            ),
        forall|i: int|
            0 <= i < lines.len() && lists_a_bearer(#[trigger] lines[i]) ==> listed_bearers(
                lines,
            ).contains(trimmed((halves(lines[i], ':')->0).1)),
    decreases lines.len(),
{
    let all = listed_bearers(lines);
    if lines.len() > 0 {
        let front = lines.drop_last();
        let before = listed_bearers(front);
        listed_bearers_are_bearers(front);
        assert forall|k: int| 0 <= k < all.len() implies bearer_path_valid(#[trigger] all[k]) by {
            if k < before.len() {
                assert(all[k] == before[k]);
            }
        }
        assert forall|i: int|
            0 <= i < lines.len() && lists_a_bearer(#[trigger] lines[i]) implies all.contains(
            trimmed((halves(lines[i], ':')->0).1),
        ) by {
            let path = trimmed((halves(lines[i], ':')->0).1);
            if i < front.len() {
                assert(front[i] == lines[i]);
                assert(before.contains(path));
                let k = before.index_of(path);
                assert(all[k] == path);
            } else {
                assert(all.last() == path);
            }
        }
    }
}

/// A path is a bearer's where a number stands behind the prefix, and nowhere else.
pub proof fn bearer_paths_end_in_a_number(n: nat, rest: Seq<char>)
    ensures
        bearer_path_valid(BEARER_PATH_PREFIX@ + decimal(n)),
        bearer_path_valid(BEARER_PATH_PREFIX@ + rest) ==> rest.len() > 0 && forall|i: int|
            0 <= i < rest.len() ==> is_digit(#[trigger] rest[i]),
        !bearer_path_valid(BEARER_PATH_PREFIX@),
{
    text::lemma_decimal_digits(n);
    let p = BEARER_PATH_PREFIX@ + decimal(n);
    let q = BEARER_PATH_PREFIX@ + rest;
    let l = BEARER_PATH_PREFIX@.len() as int;
    assert(p.take(l) =~= BEARER_PATH_PREFIX@);
    assert(p.skip(l) =~= decimal(n));
    assert(q.skip(l) =~= rest);
}

// ---------------------------------------------------------------------------
// One attempt.

/// An attempt succeeds only with what was read of the bearer after it was connected, and
/// that bearer is the one it was made with: the one that was created, or the one at hand.
pub proof fn attempts_succeed_with_their_bearer(
    state: TryView,
    outcome: Result<Seq<char>, ErrorView>,
)
    ensures
        ({
            let (next, step) = state.ran(outcome);
            &&& step is Connected ==> {
                &&& state.stage is ReadingAfter
                &&& outcome is Ok
                &&& step->Connected_0.path == state.path
                &&& value_of(outcome->Ok_0, "bearer.status.connected"@) == Some("yes"@)
            }
            &&& state.stage is Creating && outcome is Ok && step is Run ==> {
                &&& bearer_path_valid(next.path)
                &&& step->Run_0 == seq!["-b"@, next.path, "--output-keyvalue"@]
            }
            &&& state.stage is ReadingBefore && outcome is Ok ==> step == AttemptView::Run(
                if value_of(outcome->Ok_0, "bearer.status.connected"@) == Some("yes"@) {
                    seq!["-b"@, state.path, "--output-keyvalue"@]
                } else {
                    seq!["-b"@, state.path, "--connect"@]
                },
            )
            &&& state.stage is Connecting && outcome is Ok ==> step == AttemptView::Run(
                seq!["-b"@, state.path, "--output-keyvalue"@],
            )
            &&& state.stage is Connecting && outcome is Err && !state.temporary ==> step is Failed
                && step->error.code == code::RUNTIME_MM_BEARER_CONNECT_FAILED@
            &&& state.stage is Creating && outcome is Err ==> step is Failed && step->error
                == outcome->Err_0
        }),
{
    if state.stage is Creating && outcome is Ok {
        lemma_bearer_word(words(outcome->Ok_0));
    }
}

proof fn lemma_bearer_word(w: Seq<Seq<char>>)
    ensures
        first_bearer_word(w) is Some ==> bearer_path_valid(first_bearer_word(w)->0),
    decreases w.len(),
{
    if w.len() > 0 {
        lemma_bearer_word(w.drop_first());
    }
}

} // verus!
