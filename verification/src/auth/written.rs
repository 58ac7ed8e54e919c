//! Authorization headers that the library writes, read back by its own reader of
//! challenges.

use vstd::prelude::*;
use vstd::string::*;

use crate::auth::{challenge_in, comma_at, first_set, list_parts, set_value, ChallengeView};
use crate::carrier::CarrierProfile;
use crate::channel::ImsRoute;
use crate::connect::registering::initial_view;
use crate::errors::ErrorView;
use crate::identity::IdentityView;
use crate::register::empty_aka_header;
use crate::register::request::{IdsView, TargetView};
use crate::register::VariantView;
use crate::register::VolteInitialAuthorization;
use crate::security::SecAgree;
use crate::session::{refresh_view, LineView};
use crate::text;
use crate::text::{has_prefix, is_space, lower, same_folded, trimmed, unwrapped};

verus! {

/// A text that can stand between quotes.
pub open spec fn quotable(s: Seq<char>) -> bool {
    !s.contains('"')
}

proof fn lemma_comma_plain(a: Seq<char>, rest: Seq<char>)
    requires
        forall|i: int| 0 <= i < a.len() ==> a[i] != ',' && a[i] != '"',
    ensures
        comma_at(a + rest, false) == a.len() + comma_at(rest, false),
    decreases a.len(),
{
    if a.len() > 0 {
        let s = a + rest;
        lemma_comma_plain(a.skip(1), rest);
        assert(s.skip(1) =~= a.skip(1) + rest);
        assert(s[0] == a[0]);
    } else {
        assert(a + rest =~= rest);
    }
}

proof fn lemma_comma_quoted(a: Seq<char>, rest: Seq<char>)
    requires
        quotable(a),
    ensures
        comma_at(a + rest, true) == a.len() + comma_at(rest, true),
    decreases a.len(),
{
    if a.len() > 0 {
        let s = a + rest;
        let b = a.skip(1);
        assert(quotable(b)) by {
            if b.contains('"') {
                let i = b.index_of('"');
                assert(a[i + 1] == '"');
            }
        }
        lemma_comma_quoted(b, rest);
        assert(s.skip(1) =~= b + rest);
        assert(s[0] == a[0]);
        assert(a.contains(a[0]));
    } else {
        assert(a + rest =~= rest);
    }
}

/// A parameter with its value between quotes.
pub open spec fn quoted(name: Seq<char>, value: Seq<char>) -> Seq<char> {
    name + seq!['=', '"'] + value + seq!['"']
}

spec fn plain_name(name: Seq<char>) -> bool {
    &&& name.len() > 0
    &&& forall|i: int|
        0 <= i < name.len() ==> #[trigger] name[i] != ',' && name[i] != '"' && name[i] != '='
            && !is_space(name[i])
}

proof fn lemma_quoted_comma(name: Seq<char>, value: Seq<char>, rest: Seq<char>)
    requires
        plain_name(name),
        quotable(value),
    ensures
        comma_at(quoted(name, value) + rest, false) == quoted(name, value).len() + comma_at(
            rest,
            false,
        ),
{
    let tail = seq!['"'] + rest;
    let mid = value + tail;
    let head = name + seq!['='];
    assert(quoted(name, value) + rest =~= head + (seq!['"'] + mid));
    lemma_comma_plain(head, seq!['"'] + mid);
    assert((seq!['"'] + mid).skip(1) =~= mid);
    lemma_comma_quoted(value, tail);
    assert(tail.skip(1) =~= rest);
}

proof fn lemma_part(a: Seq<char>, rest: Seq<char>)
    requires
        comma_at(a + (seq![','] + rest), false) == a.len() + comma_at(seq![','] + rest, false),
    ensures
        list_parts(a + (seq![','] + rest)) == seq![a] + list_parts(rest),
{
    let s = a + (seq![','] + rest);
    assert(comma_at(seq![','] + rest, false) == 0);
    assert(s.take(a.len() as int) =~= a);
    assert(s.skip(a.len() as int + 1) =~= rest);
}

/// A quoted parameter sets its name to its value.
proof fn lemma_quoted_set(name: Seq<char>, value: Seq<char>, wanted: Seq<char>)
    requires
        plain_name(name),
        quotable(value),
    ensures
        set_value(quoted(name, value), wanted) == (if same_folded(name, wanted) {
            Some(value)
        } else {
            None
        }),
{
    let q = seq!['"'] + value + seq!['"'];
    assert(quoted(name, value) =~= name + seq!['='] + q);
    text::lemma_first_piece(name, '=', q);
    assert(trimmed(name) == name);
    assert(q[0] == '"' && q.last() == '"');
    assert(trimmed(q) == q);
    let v = value + seq!['"'];
    assert(q.drop_first() =~= v);
    if value.len() > 0 {
        assert(v[0] == value[0]);
        assert(value.contains(value[0]));
        assert(text::strip_start(v, '"') == v);
        assert(v.drop_last() =~= value);
        assert(value.contains(value.last()));
        assert(text::strip_end(value, '"') == value);
        assert(text::strip_end(v, '"') == value);
    } else {
        assert(v =~= seq!['"']);
        assert(v.drop_first() =~= Seq::<char>::empty());
        reveal_with_fuel(text::strip_start, 3);
        assert(text::strip_start(v.drop_first(), '"') =~= Seq::<char>::empty());
        assert(text::strip_start(v, '"') =~= Seq::<char>::empty());
        assert(value =~= Seq::<char>::empty());
    }
    assert(unwrapped(q, '"') == value);
}

proof fn lemma_plain_set(name: Seq<char>, value: Seq<char>, wanted: Seq<char>)
    requires
        plain_name(name),
        plain_name(value),
    ensures
        set_value(name + seq!['='] + value, wanted) == (if same_folded(name, wanted) {
            Some(value)
        } else {
            None
        }),
{
    text::lemma_first_piece(name, '=', value);
    assert(trimmed(name) == name);
    assert(trimmed(value) == value);
    assert(text::strip_start(value, '"') == value);
    assert(text::strip_end(value, '"') == value);
}

/// The parameters of the header, behind its scheme.
spec fn parameters(realm: Seq<char>, user: Seq<char>, uri: Seq<char>) -> Seq<Seq<char>> {
    let empty = Seq::<char>::empty();
    seq![
        quoted("uri"@, uri),
        quoted("username"@, user),
        quoted("realm"@, realm),
        quoted("nonce"@, empty),
        quoted("response"@, empty),
        "algorithm"@ + seq!['='] + "AKAv1-MD5"@,
    ]
}

proof fn lemma_header(realm: Seq<char>, user: Seq<char>, uri: Seq<char>)
    requires
        quotable(realm),
        quotable(user),
        quotable(uri),
    ensures
        has_prefix(empty_aka_header(realm, user, uri), "Authorization: Digest "@),
        list_parts(empty_aka_header(realm, user, uri).skip(22)) == parameters(realm, user, uri),
{
    let h = empty_aka_header(realm, user, uri);
    let empty = Seq::<char>::empty();
    reveal_strlit("Authorization: Digest ");
    reveal_strlit("Authorization: Digest uri=\"");
    reveal_strlit("\",username=\"");
    reveal_strlit("\",realm=\"");
    reveal_strlit("\",nonce=\"\",response=\"\",algorithm=AKAv1-MD5");
    reveal_strlit("uri");
    reveal_strlit("username");
    reveal_strlit("realm");
    reveal_strlit("nonce");
    reveal_strlit("response");
    reveal_strlit("algorithm");
    reveal_strlit("AKAv1-MD5");
    let c = seq![','];
    let p = parameters(realm, user, uri);
    let r5 = p[5];
    let r4 = p[4] + (c + r5);
    let r3 = p[3] + (c + r4);
    let r2 = p[2] + (c + r3);
    let r1 = p[1] + (c + r2);
    let r0 = p[0] + (c + r1);
    assert(h.take(22) =~= "Authorization: Digest "@);
    assert("\",nonce=\"\",response=\"\",algorithm=AKAv1-MD5"@ =~= seq!['"'] + (c + r3));
    let tail = "\",nonce=\"\",response=\"\",algorithm=AKAv1-MD5"@;
    assert("\",realm=\""@ =~= seq!['"', ','] + "realm"@ + seq!['=', '"']);
    assert("\",realm=\""@ + realm + tail =~= seq!['"'] + (c + r2));
    assert("\",username=\""@ =~= seq!['"', ','] + "username"@ + seq!['=', '"']);
    assert("\",username=\""@ + user + ("\",realm=\""@ + realm + tail) =~= seq!['"'] + (c + r1));
    assert("Authorization: Digest uri=\""@ =~= "Authorization: Digest "@ + "uri"@ + seq!['=', '"']);
    assert(h =~= "Authorization: Digest uri=\""@ + uri + ("\",username=\""@ + user + (
    "\",realm=\""@ + realm + tail)));
    assert(h =~= "Authorization: Digest "@ + r0);
    assert(h.skip(22) =~= r0);
    lemma_quoted_comma("uri"@, uri, c + r1);
    lemma_part(p[0], r1);
    lemma_quoted_comma("username"@, user, c + r2);
    lemma_part(p[1], r2);
    lemma_quoted_comma("realm"@, realm, c + r3);
    lemma_part(p[2], r3);
    assert(quotable(empty));
    lemma_quoted_comma("nonce"@, empty, c + r4);
    lemma_part(p[3], r4);
    lemma_quoted_comma("response"@, empty, c + r5);
    lemma_part(p[4], r5);
    lemma_comma_plain(r5, empty);
    assert(r5 + empty =~= r5);
    assert(list_parts(r5) == seq![r5]);
    assert(list_parts(r0) =~= p);
}

proof fn lemma_names_apart(a: Seq<char>, b: Seq<char>)
    requires
        a.len() != b.len() || (a.len() > 0 && text::lower_char(a[0]) != text::lower_char(b[0])),
    ensures
        !same_folded(a, b),
{
    if same_folded(a, b) {
        assert(lower(a).len() == lower(b).len());
        assert(lower(a)[0] == lower(b)[0]);
    }
}

proof fn lemma_first_set(parts: Seq<Seq<char>>, name: Seq<char>, k: int)
    requires
        0 <= k < parts.len(),
        set_value(parts[k], name) is Some,
        forall|i: int| 0 <= i < k ==> set_value(#[trigger] parts[i], name) is None,
    ensures
        first_set(parts, name) == set_value(parts[k], name),
    decreases k,
{
    if k > 0 {
        let rest = parts.drop_first();
        assert(set_value(parts[0], name) is None);
        assert(rest[k - 1] == parts[k]);
        assert forall|i: int| 0 <= i < k - 1 implies set_value(#[trigger] rest[i], name) is None by {
            assert(rest[i] == parts[i + 1]);
        }
        lemma_first_set(rest, name, k - 1);
    }
}

proof fn lemma_not_set(parts: Seq<Seq<char>>, name: Seq<char>)
    requires
        forall|i: int| 0 <= i < parts.len() ==> set_value(#[trigger] parts[i], name) is None,
    ensures
        first_set(parts, name) is None,
    decreases parts.len(),
{
    if parts.len() > 0 {
        let rest = parts.drop_first();
        assert(set_value(parts[0], name) is None);
        assert forall|i: int| 0 <= i < rest.len() implies set_value(
            #[trigger] rest[i],
            name,
        ) is None by {
            assert(rest[i] == parts[i + 1]);
        }
        lemma_not_set(rest, name);
    }
}

/// What the part at `k` sets, for a name that none of the others has.
proof fn lemma_parameter(realm: Seq<char>, user: Seq<char>, uri: Seq<char>, wanted: Seq<char>)
    requires
        quotable(realm),
        quotable(user),
        quotable(uri),
    ensures
        ({
            let p = parameters(realm, user, uri);
            let empty = Seq::<char>::empty();
            &&& set_value(p[0], wanted) == (if same_folded("uri"@, wanted) {
                Some(uri)
            } else {
                None
            })
            &&& set_value(p[1], wanted) == (if same_folded("username"@, wanted) {
                Some(user)
            } else {
                None
            })
            &&& set_value(p[2], wanted) == (if same_folded("realm"@, wanted) {
                Some(realm)
            } else {
                None
            })
            &&& set_value(p[3], wanted) == (if same_folded("nonce"@, wanted) {
                Some(empty)
            } else {
                None
            })
            &&& set_value(p[4], wanted) == (if same_folded("response"@, wanted) {
                Some(empty)
            } else {
                None
            })
            &&& set_value(p[5], wanted) == (if same_folded("algorithm"@, wanted) {
                Some("AKAv1-MD5"@)
            } else {
                None
            })
        }),
{
    reveal_strlit("uri");
    reveal_strlit("username");
    reveal_strlit("realm");
    reveal_strlit("nonce");
    reveal_strlit("response");
    reveal_strlit("algorithm");
    reveal_strlit("AKAv1-MD5");
    let empty = Seq::<char>::empty();
    assert(quotable(empty));
    lemma_quoted_set("uri"@, uri, wanted);
    lemma_quoted_set("username"@, user, wanted);
    lemma_quoted_set("realm"@, realm, wanted);
    lemma_quoted_set("nonce"@, empty, wanted);
    lemma_quoted_set("response"@, empty, wanted);
    lemma_plain_set("algorithm"@, "AKAv1-MD5"@, wanted);
}

/// A header reads as an empty AKA answer: these parameters, and no challenge answered.
pub open spec fn reads_as_empty_aka(
    header: Seq<char>,
    realm: Seq<char>,
    user: Seq<char>,
    uri: Seq<char>,
) -> bool {
    let parts = list_parts(header.skip(22));
    &&& has_prefix(header, "Authorization: Digest "@)
    &&& first_set(parts, "username"@) == Some(user)
    &&& first_set(parts, "realm"@) == Some(realm)
    &&& first_set(parts, "uri"@) == Some(uri)
    &&& set_value(parts[0], "uri"@) == Some(uri)
    &&& first_set(parts, "nonce"@) == Some(Seq::<char>::empty())
    &&& first_set(parts, "response"@) == Some(Seq::<char>::empty())
    &&& first_set(parts, "algorithm"@) == Some("AKAv1-MD5"@)
    &&& parts.len() == 6
}

/// The first authorization, read with the reader of challenges, names the private
/// identity as its user, the realm as its realm and the request's URI as its URI, which
/// comes first; its nonce and its answer are empty.
pub proof fn empty_authorization_is_read_back(realm: Seq<char>, user: Seq<char>, uri: Seq<char>)
    requires
        quotable(realm),
        quotable(user),
        quotable(uri),
    ensures
        reads_as_empty_aka(empty_aka_header(realm, user, uri), realm, user, uri),
{
    lemma_header(realm, user, uri);
    let p = parameters(realm, user, uri);
    reveal_strlit("uri");
    reveal_strlit("username");
    reveal_strlit("realm");
    reveal_strlit("nonce");
    reveal_strlit("response");
    reveal_strlit("algorithm");
    let names = seq!["uri"@, "username"@, "realm"@, "nonce"@, "response"@, "algorithm"@];
    assert forall|i: int, j: int| 0 <= i < j < 6 implies !same_folded(
        #[trigger] names[i],
        #[trigger] names[j],
    ) by {
        lemma_names_apart(names[i], names[j]);
    }
    assert forall|j: int| 0 <= j < 6 implies first_set(p, #[trigger] names[j]) == set_value(
        p[j],
        names[j],
    ) by {
        lemma_parameter(realm, user, uri, names[j]);
        assert forall|i: int| 0 <= i < j implies set_value(#[trigger] p[i], names[j]) is None by {
            assert(!same_folded(names[i], names[j]));
        }
        assert(same_folded(names[j], names[j]));
        lemma_first_set(p, names[j], j);
    }
    assert(first_set(p, names[0]) == set_value(p[0], names[0]));
    assert(first_set(p, names[1]) == set_value(p[1], names[1]));
    assert(first_set(p, names[2]) == set_value(p[2], names[2]));
    assert(first_set(p, names[3]) == set_value(p[3], names[3]));
    assert(first_set(p, names[4]) == set_value(p[4], names[4]));
    assert(first_set(p, names[5]) == set_value(p[5], names[5]));
    lemma_parameter(realm, user, uri, "uri"@);
    lemma_parameter(realm, user, uri, "username"@);
    lemma_parameter(realm, user, uri, "realm"@);
    lemma_parameter(realm, user, uri, "nonce"@);
    lemma_parameter(realm, user, uri, "response"@);
    lemma_parameter(realm, user, uri, "algorithm"@);
}

/// The first REGISTER carries an authorization where its way to register asks for one:
/// it names the subscriber's private identity, the target's realm, and the very URI that
/// the request asks for.
pub proof fn first_register_names_the_subscriber(
    profile: CarrierProfile,
    identity: IdentityView,
    route: ImsRoute,
    ids: IdsView,
    variant: VariantView,
    binding: SecAgree,
    target: TargetView,
    sip_instance: Seq<char>,
)
    requires
        quotable(target.realm),
        quotable(identity.private_user),
        quotable(
            initial_view(
                profile,
                identity,
                route,
                ids,
                variant,
                binding,
                target,
                sip_instance,
            ).request_uri,
        ),
    ensures
        ({
            let request = initial_view(
                profile,
                identity,
                route,
                ids,
                variant,
                binding,
                target,
                sip_instance,
            );
            match variant.authorization {
                VolteInitialAuthorization::UriFirstEmptyAka => request.parts.authorization is Some
                    && reads_as_empty_aka(
                    request.parts.authorization->0,
                    target.realm,
                    identity.private_user,
                    request.request_uri,
                ),
                VolteInitialAuthorization::Absent => request.parts.authorization is None,
            }
        }),
{
    let request = initial_view(profile, identity, route, ids, variant, binding, target, sip_instance);
    empty_authorization_is_read_back(target.realm, identity.private_user, request.request_uri);
}

/// A refresh, and the request that ends a registration, carry the same authorization as
/// a first REGISTER would.
pub proof fn refresh_names_the_subscriber(
    line: LineView,
    ids: IdsView,
    route: ImsRoute,
    variant: VariantView,
    target: TargetView,
    security_verify: Option<Seq<char>>,
    sip_instance: Seq<char>,
    expires_seconds: u32,
)
    requires
        quotable(target.realm),
        quotable(line.identity.private_user),
        quotable(
            refresh_view(
                line,
                ids,
                route,
                variant,
                target,
                security_verify,
                sip_instance,
                expires_seconds,
            ).request_uri,
        ),
    ensures
        ({
            let request = refresh_view(
                line,
                ids,
                route,
                variant,
                target,
                security_verify,
                sip_instance,
                expires_seconds,
            );
            match variant.authorization {
                VolteInitialAuthorization::UriFirstEmptyAka => request.parts.authorization is Some
                    && reads_as_empty_aka(
                    request.parts.authorization->0,
                    target.realm,
                    line.identity.private_user,
                    request.request_uri,
                ),
                VolteInitialAuthorization::Absent => request.parts.authorization is None,
            }
        }),
{
    let request = refresh_view(
        line,
        ids,
        route,
        variant,
        target,
        security_verify,
        sip_instance,
        expires_seconds,
    );
    empty_authorization_is_read_back(target.realm, line.identity.private_user, request.request_uri);
}

/// A challenge as a registrar writes it.
pub open spec fn written_challenge(realm: Seq<char>, nonce: Seq<char>) -> Seq<char> {
    "Digest "@ + quoted("realm"@, realm) + seq![','] + quoted("nonce"@, nonce) + seq![',']
        + "algorithm"@ + seq!['='] + "AKAv1-MD5"@
}

/// The realm and the nonce that a registrar writes into its challenge are the ones that
/// are read, and so is its algorithm.
pub proof fn challenge_is_read_back(realm: Seq<char>, nonce: Seq<char>, proxy: bool)
    requires
        quotable(realm),
        quotable(nonce),
    ensures
        challenge_in(written_challenge(realm, nonce), proxy) == Ok::<ChallengeView, ErrorView>(
            ChallengeView {
                realm,
                nonce,
                algorithm: "AKAv1-MD5"@,
                qop: None,
                opaque: None,
                proxy,
            },
        ),
{
    reveal_strlit("Digest ");
    reveal_strlit("Digest");
    reveal_strlit("realm");
    reveal_strlit("nonce");
    reveal_strlit("algorithm");
    reveal_strlit("AKAv1-MD5");
    reveal_strlit("qop");
    reveal_strlit("opaque");
    let v = written_challenge(realm, nonce);
    let c = seq![','];
    let p2 = "algorithm"@ + seq!['='] + "AKAv1-MD5"@;
    let p1 = quoted("nonce"@, nonce);
    let p0 = quoted("realm"@, realm);
    let r1 = p1 + (c + p2);
    let r0 = p0 + (c + r1);
    assert(v =~= "Digest"@ + seq![' '] + r0);
    assert(v.last() == '5' && v[0] == 'D');
    assert(trimmed(v) == v);
    text::lemma_first_piece("Digest"@, ' ', r0);
    lemma_quoted_comma("realm"@, realm, c + r1);
    lemma_part(p0, r1);
    lemma_quoted_comma("nonce"@, nonce, c + p2);
    lemma_part(p1, p2);
    lemma_comma_plain(p2, Seq::empty());
    assert(p2 + Seq::<char>::empty() =~= p2);
    let p = list_parts(r0);
    assert(p =~= seq![p0, p1, p2]);
    lemma_challenge_parts(p, realm, nonce);
}

proof fn lemma_challenge_parts(p: Seq<Seq<char>>, realm: Seq<char>, nonce: Seq<char>)
    requires
        quotable(realm),
        quotable(nonce),
        p == seq![
            quoted("realm"@, realm),
            quoted("nonce"@, nonce),
            "algorithm"@ + seq!['='] + "AKAv1-MD5"@,
        ],
    ensures
        first_set(p, "realm"@) == Some(realm),
        first_set(p, "nonce"@) == Some(nonce),
        first_set(p, "algorithm"@) == Some("AKAv1-MD5"@),
        first_set(p, "qop"@) is None,
        first_set(p, "opaque"@) is None,
{
    reveal_strlit("realm");
    reveal_strlit("nonce");
    reveal_strlit("algorithm");
    reveal_strlit("AKAv1-MD5");
    reveal_strlit("qop");
    reveal_strlit("opaque");
    let names = seq!["realm"@, "nonce"@, "algorithm"@, "qop"@, "opaque"@];
    assert forall|i: int, j: int| 0 <= i < j < 5 implies !same_folded(
        #[trigger] names[i],
        #[trigger] names[j],
    ) by {
        lemma_names_apart(names[i], names[j]);
    }
    assert forall|j: int| 0 <= j < 5 implies (set_value(p[0], #[trigger] names[j]) == (if j == 0 {
        Some(realm)
    } else {
        None
    }) && set_value(p[1], names[j]) == (if j == 1 {
        Some(nonce)
    } else {
        None
    }) && set_value(p[2], names[j]) == (if j == 2 {
        Some("AKAv1-MD5"@)
    } else {
        None
    })) by {
        lemma_quoted_set("realm"@, realm, names[j]);
        lemma_quoted_set("nonce"@, nonce, names[j]);
        lemma_plain_set("algorithm"@, "AKAv1-MD5"@, names[j]);
        assert(names[0] == "realm"@ && names[1] == "nonce"@ && names[2] == "algorithm"@);
        if j != 0 {
            assert(!same_folded(names[0], names[j]));
        }
        if j != 1 {
            if j < 1 {
                assert(!same_folded(names[j], names[1]));
            } else {
                assert(!same_folded(names[1], names[j]));
            }
        }
        if j != 2 {
            if j < 2 {
                assert(!same_folded(names[j], names[2]));
            } else {
                assert(!same_folded(names[2], names[j]));
            }
        }
    }
    assert(set_value(p[0], names[0]) == Some(realm));
    lemma_first_set(p, names[0], 0);
    assert(set_value(p[0], names[1]) is None);
    lemma_first_set(p, names[1], 1);
    assert(set_value(p[0], names[2]) is None);
    lemma_first_set(p, names[2], 2);
    assert(set_value(p[0], names[3]) is None);
    lemma_not_set(p, names[3]);
    assert(set_value(p[0], names[4]) is None);
    lemma_not_set(p, names[4]);
}

} // verus!
