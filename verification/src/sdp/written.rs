//! Session descriptions that the relay writes are read back as they were meant.

use vstd::prelude::*;
use vstd::string::*;
use vstd::utf8::{decode_utf8, encode_utf8};

use crate::ip::written::{is_address_char, written_addresses_are_plain};
use crate::ip::{IpAddr, SocketAddr};
use crate::sdp::{
    addr_type_of, all_codec_lines, audio_of, audio_text, codec_lines, connection_in, connection_of,
    direction_in, direction_named, dtmf_lines, encoding_in, encoding_of, event_of, first_event,
    fmtp_in, format_in, formats_in, is_direction_line, is_telephone_event, line_with,
    line_with_dtmf, lines_with_dtmf, media_part, payload_list, relayed_audio, relayed_offer,
    relayed_video, sdp_lines, session_part, speech, video_of, with_dtmf, EventView, Format,
    MediaDirection, OfferView, SdpAddrType, VideoView,
};
use crate::sip::first_after_prefix;
use crate::text;
use crate::text::{
    after_prefix, decimal, has_prefix, is_digit, is_space, lines_of, number, pieces, trimmed,
    words,
};

verus! {

// ---------------------------------------------------------------------------
// Lines.

/// A text that is one line.
pub open spec fn one_line(s: Seq<char>) -> bool {
    forall|i: int| 0 <= i < s.len() ==> #[trigger] s[i] != '\n'
}

/// Texts that are one line each.
pub open spec fn all_lines(l: Seq<Seq<char>>) -> bool {
    forall|i: int| 0 <= i < l.len() ==> one_line(#[trigger] l[i])
}

/// Lines as they go on the wire.
pub open spec fn ended(l: Seq<Seq<char>>) -> Seq<char>
    decreases l.len(),
{
    if l.len() == 0 {
        Seq::empty()
    } else {
        ended(l.drop_last()) + l.last() + "\r\n"@
    }
}

pub(crate) proof fn lemma_ended_push(l: Seq<Seq<char>>, line: Seq<char>)
    ensures
        ended(l.push(line)) == ended(l) + line + "\r\n"@,
{
    assert(l.push(line).drop_last() =~= l);
}

proof fn lemma_ended_one(line: Seq<char>)
    ensures
        ended(seq![line]) == line + "\r\n"@,
{
    let e = Seq::<Seq<char>>::empty();
    assert(seq![line].drop_last() =~= e);
    assert(seq![line].last() == line);
    assert(ended(e) == Seq::<char>::empty());
    assert(Seq::<char>::empty() + line =~= line);
}

proof fn lemma_ended_concat(a: Seq<Seq<char>>, b: Seq<Seq<char>>)
    ensures
        ended(a + b) == ended(a) + ended(b),
    decreases b.len(),
{
    if b.len() == 0 {
        assert(a + b =~= a);
        assert(ended(a) + ended(b) =~= ended(a));
    } else {
        let d = b.drop_last();
        lemma_ended_concat(a, d);
        assert((a + b).drop_last() =~= a + d);
        assert((a + b).last() == b.last());
        assert(ended(a) + ended(d) + b.last() + "\r\n"@ =~= ended(a) + (ended(d) + b.last()
            + "\r\n"@));
    }
}

proof fn lemma_line_feed(a: Seq<char>, rest: Seq<char>)
    requires
        one_line(a),
    ensures
        text::index_of(a + seq!['\n'] + rest, '\n') == a.len(),
    decreases a.len(),
{
    let s = a + seq!['\n'] + rest;
    if a.len() > 0 {
        let d = a.drop_first();
        assert(s[0] == a[0]);
        assert(s.drop_first() =~= d + seq!['\n'] + rest);
        assert forall|i: int| 0 <= i < d.len() implies #[trigger] d[i] != '\n' by {
            assert(d[i] == a[i + 1]);
        }
        lemma_line_feed(d, rest);
    }
}

pub(crate) proof fn lemma_lines(l: Seq<Seq<char>>)
    requires
        all_lines(l),
    ensures
        lines_of(ended(l)) == l,
    decreases l.len(),
{
    if l.len() == 0 {
        assert(lines_of(ended(l)) =~= l);
    } else {
        let a = l[0];
        let m = l.drop_first();
        assert(l =~= seq![a] + m);
        lemma_ended_concat(seq![a], m);
        lemma_ended_one(a);
        reveal_strlit("\r\n");
        let cr = a + seq!['\r'];
        let s = ended(l);
        assert(s =~= cr + seq!['\n'] + ended(m));
        assert(one_line(a));
        assert forall|i: int| 0 <= i < cr.len() implies #[trigger] cr[i] != '\n' by {
            if i < a.len() {
                assert(cr[i] == a[i]);
            }
        }
        lemma_line_feed(cr, ended(m));
        assert(s.take(cr.len() as int) =~= cr);
        assert(cr.drop_last() =~= a);
        assert(s.skip(cr.len() as int + 1) =~= ended(m));
        assert forall|i: int| 0 <= i < m.len() implies one_line(#[trigger] m[i]) by {
            assert(m[i] == l[i + 1]);
        }
        lemma_lines(m);
        assert(lines_of(s) == seq![a] + lines_of(ended(m)));
    }
}

// ---------------------------------------------------------------------------
// Formats.

/// A name without white space or a slash.
pub open spec fn is_token(s: Seq<char>) -> bool {
    s.len() > 0 && forall|i: int|
        0 <= i < s.len() ==> #[trigger] s[i] != '/' && !is_space(s[i])
}

/// A format that a description can hold.
pub open spec fn writable(f: Format) -> bool {
    &&& f.payload <= 255
    &&& f.clock <= 0xffff_ffff
    &&& is_token(f.name)
    &&& f.fmtp is Some ==> f.fmtp->0.len() > 0 && one_line(f.fmtp->0) && !is_space(
        f.fmtp->0.last(),
    )
}

/// Formats that a description can hold together: a number stands for one format.
pub open spec fn writable_all(fs: Seq<Format>) -> bool {
    &&& forall|i: int| 0 <= i < fs.len() ==> writable(#[trigger] fs[i])
    &&& forall|i: int, j: int|
        0 <= i < fs.len() && 0 <= j < fs.len() && (#[trigger] fs[i]).payload == (
        #[trigger] fs[j]).payload ==> fs[i] == fs[j]
}

/// Telephone events as a format.
pub open spec fn event_format(e: EventView) -> Format {
    Format { payload: e.payload, name: "telephone-event"@, clock: e.clock, fmtp: e.events }
}

spec fn map_prefix(p: nat) -> Seq<char> {
    "a=rtpmap:"@ + decimal(p) + " "@
}

spec fn fmtp_prefix(p: nat) -> Seq<char> {
    "a=fmtp:"@ + decimal(p) + " "@
}

spec fn encoding_text(f: Format) -> Seq<char> {
    f.name + seq!['/'] + decimal(f.clock)
}

spec fn attrs(f: Format) -> Seq<Seq<char>> {
    let map = seq![map_prefix(f.payload) + encoding_text(f)];
    match f.fmtp {
        Some(fmtp) => map.push(fmtp_prefix(f.payload) + fmtp),
        None => map,
    }
}

spec fn all_attrs(fs: Seq<Format>) -> Seq<Seq<char>>
    decreases fs.len(),
{
    if fs.len() == 0 {
        Seq::empty()
    } else {
        all_attrs(fs.drop_last()) + attrs(fs.last())
    }
}

proof fn lemma_digits(n: nat)
    ensures
        decimal(n).len() > 0,
        forall|i: int| 0 <= i < decimal(n).len() ==> is_digit(#[trigger] decimal(n)[i]),
        is_digit(decimal(n).last()),
{
    text::lemma_decimal_digits(n);
    assert(is_digit(decimal(n)[decimal(n).len() - 1]));
}

/// A line that maps or describes a format.
spec fn attr_line(l: Seq<char>) -> bool {
    &&& l.len() > 7
    &&& l[0] == 'a' && l[1] == '='
    &&& (l[2] == 'r' && l[3] == 't') || (l[2] == 'f' && l[3] == 'm')
    &&& !is_space(l.last())
    &&& one_line(l)
}

spec fn all_attr_lines(l: Seq<Seq<char>>) -> bool {
    forall|i: int| 0 <= i < l.len() ==> attr_line(#[trigger] l[i])
}

proof fn lemma_one_line(a: Seq<char>, b: Seq<char>)
    requires
        one_line(a),
        one_line(b),
    ensures
        one_line(a + b),
{
    let s = a + b;
    assert forall|i: int| 0 <= i < s.len() implies #[trigger] s[i] != '\n' by {
        if i < a.len() {
            assert(s[i] == a[i]);
        } else {
            assert(s[i] == b[i - a.len()]);
        }
    }
}

proof fn lemma_number_line(n: nat)
    ensures
        one_line(decimal(n)),
{
    lemma_digits(n);
    let d = decimal(n);
    assert forall|i: int| 0 <= i < d.len() implies #[trigger] d[i] != '\n' by {
        assert(is_digit(d[i]));
    }
}

proof fn lemma_token_line(s: Seq<char>)
    requires
        is_token(s),
    ensures
        one_line(s),
{
    assert forall|i: int| 0 <= i < s.len() implies #[trigger] s[i] != '\n' by {
        assert(!is_space(s[i]));
    }
}

proof fn lemma_attrs(f: Format)
    requires
        writable(f),
    ensures
        all_attr_lines(attrs(f)),
{
    reveal_strlit("a=rtpmap:");
    reveal_strlit("a=fmtp:");
    reveal_strlit(" ");
    let pt = decimal(f.payload);
    lemma_number_line(f.payload);
    lemma_number_line(f.clock);
    lemma_digits(f.payload);
    lemma_digits(f.clock);
    lemma_token_line(f.name);
    lemma_one_line("a=rtpmap:"@, pt);
    lemma_one_line("a=rtpmap:"@ + pt, " "@);
    lemma_one_line(f.name, seq!['/']);
    lemma_one_line(f.name + seq!['/'], decimal(f.clock));
    let m = map_prefix(f.payload) + encoding_text(f);
    lemma_one_line(map_prefix(f.payload), encoding_text(f));
    assert(m.last() == decimal(f.clock).last());
    assert(attr_line(m));
    if f.fmtp is Some {
        let x = fmtp_prefix(f.payload) + f.fmtp->0;
        lemma_one_line("a=fmtp:"@, pt);
        lemma_one_line("a=fmtp:"@ + pt, " "@);
        lemma_one_line(fmtp_prefix(f.payload), f.fmtp->0);
        assert(x.last() == f.fmtp->0.last());
        assert(attr_line(x));
    }
}

proof fn lemma_all_attrs(fs: Seq<Format>)
    requires
        forall|i: int| 0 <= i < fs.len() ==> writable(#[trigger] fs[i]),
    ensures
        all_attr_lines(all_attrs(fs)),
    decreases fs.len(),
{
    if fs.len() > 0 {
        let d = fs.drop_last();
        assert forall|i: int| 0 <= i < d.len() implies writable(#[trigger] d[i]) by {
            assert(d[i] == fs[i]);
        }
        lemma_all_attrs(d);
        assert(writable(fs[fs.len() - 1]));
        lemma_attrs(fs.last());
        let l = all_attrs(fs);
        assert forall|i: int| 0 <= i < l.len() implies attr_line(#[trigger] l[i]) by {
            if i < all_attrs(d).len() {
                assert(l[i] == all_attrs(d)[i]);
            } else {
                assert(l[i] == attrs(fs.last())[i - all_attrs(d).len()]);
            }
        }
    }
}

proof fn lemma_codec_lines(f: Format)
    ensures
        codec_lines(f) == ended(attrs(f)),
{
    reveal_strlit("/");
    let map = map_prefix(f.payload) + encoding_text(f);
    lemma_ended_one(map);
    assert("/"@ =~= seq!['/']);
    assert("a=rtpmap:"@ + decimal(f.payload) + " "@ + f.name + "/"@ + decimal(f.clock) =~= map);
    if f.fmtp is Some {
        let x = fmtp_prefix(f.payload) + f.fmtp->0;
        lemma_ended_push(seq![map], x);
        assert(map + "\r\n"@ + (x + "\r\n"@) =~= map + "\r\n"@ + x + "\r\n"@);
    }
}

proof fn lemma_all_codec_lines(fs: Seq<Format>)
    ensures
        all_codec_lines(fs) == ended(all_attrs(fs)),
    decreases fs.len(),
{
    if fs.len() > 0 {
        lemma_all_codec_lines(fs.drop_last());
        lemma_codec_lines(fs.last());
        lemma_ended_concat(all_attrs(fs.drop_last()), attrs(fs.last()));
    }
}

proof fn lemma_dtmf_lines(e: EventView)
    ensures
        dtmf_lines(e) == ended(attrs(event_format(e))),
{
    let f = event_format(e);
    lemma_codec_lines(f);
    reveal_strlit(" telephone-event/");
    reveal_strlit("telephone-event");
    reveal_strlit("/");
    reveal_strlit(" ");
    let pt = decimal(e.payload);
    assert(" telephone-event/"@ =~= " "@ + "telephone-event"@ + "/"@);
    assert("a=rtpmap:"@ + pt + " telephone-event/"@ =~= "a=rtpmap:"@ + pt + " "@
        + "telephone-event"@ + "/"@);
}

// ---------------------------------------------------------------------------
// The description as lines.

spec fn head(ip: IpAddr) -> Seq<Seq<char>> {
    let t = addr_type_of(ip).name();
    seq![
        "v=0"@,
        "o=- 0 0 IN "@ + t + " "@ + ip.text(),
        "s=-"@,
        "c=IN "@ + t + " "@ + ip.text(),
        "t=0 0"@,
    ]
}

spec fn audio_line(port: nat, fs: Seq<Format>) -> Seq<char> {
    "m=audio "@ + decimal(port) + " RTP/AVP"@ + payload_list(fs)
}

spec fn direction_line(d: MediaDirection) -> Seq<char> {
    "a="@ + d.name()
}

spec fn section(port: nat, fs: Seq<Format>, d: MediaDirection) -> Seq<Seq<char>> {
    seq![audio_line(port, fs)] + all_attrs(fs) + seq![direction_line(d)]
}

spec fn described(local: SocketAddr, fs: Seq<Format>, d: MediaDirection) -> Seq<Seq<char>> {
    head(local.ip) + section(local.port as nat, fs, d)
}

proof fn lemma_ended_five(a: Seq<char>, b: Seq<char>, c: Seq<char>, d: Seq<char>, e: Seq<char>)
    ensures
        ended(seq![a, b, c, d, e]) == a + "\r\n"@ + b + "\r\n"@ + c + "\r\n"@ + d + "\r\n"@ + e
            + "\r\n"@,
{
    lemma_ended_one(a);
    lemma_ended_push(seq![a], b);
    assert(seq![a].push(b) =~= seq![a, b]);
    lemma_ended_push(seq![a, b], c);
    assert(seq![a, b].push(c) =~= seq![a, b, c]);
    lemma_ended_push(seq![a, b, c], d);
    assert(seq![a, b, c].push(d) =~= seq![a, b, c, d]);
    lemma_ended_push(seq![a, b, c, d], e);
    assert(seq![a, b, c, d].push(e) =~= seq![a, b, c, d, e]);
}

proof fn lemma_head_literals()
    ensures
        "v=0\r\no=- 0 0 IN "@ == "v=0"@ + "\r\n"@ + "o=- 0 0 IN "@,
        "\r\ns=-\r\nc=IN "@ == "\r\n"@ + "s=-"@ + "\r\n"@ + "c=IN "@,
        "\r\nt=0 0\r\nm=audio "@ == "\r\n"@ + "t=0 0"@ + "\r\n"@ + "m=audio "@,
        "\r\nc=IN "@ == "\r\n"@ + "c=IN "@,
        " RTP/AVP "@ == " RTP/AVP"@ + " "@,
{
    reveal_strlit("v=0\r\no=- 0 0 IN ");
    reveal_strlit("v=0");
    reveal_strlit("\r\n");
    reveal_strlit("o=- 0 0 IN ");
    reveal_strlit("\r\ns=-\r\nc=IN ");
    reveal_strlit("s=-");
    reveal_strlit("c=IN ");
    reveal_strlit("\r\nt=0 0\r\nm=audio ");
    reveal_strlit("t=0 0");
    reveal_strlit("m=audio ");
    reveal_strlit("\r\nc=IN ");
    reveal_strlit(" RTP/AVP ");
    reveal_strlit(" RTP/AVP");
    reveal_strlit(" ");
    assert("v=0\r\no=- 0 0 IN "@ =~= "v=0"@ + "\r\n"@ + "o=- 0 0 IN "@);
    assert("\r\ns=-\r\nc=IN "@ =~= "\r\n"@ + "s=-"@ + "\r\n"@ + "c=IN "@);
    assert("\r\nt=0 0\r\nm=audio "@ =~= "\r\n"@ + "t=0 0"@ + "\r\n"@ + "m=audio "@);
    assert("\r\nc=IN "@ =~= "\r\n"@ + "c=IN "@);
    assert(" RTP/AVP "@ =~= " RTP/AVP"@ + " "@);
}

/// The front of a description, up to its media line, as one text.
proof fn lemma_front_text(ip: IpAddr, tail: Seq<char>)
    ensures
        ({
            let t = addr_type_of(ip).name();
            let a = ip.text();
            "v=0\r\no=- 0 0 IN "@ + t + " "@ + a + "\r\ns=-\r\nc=IN "@ + t + " "@ + a
                + "\r\nt=0 0\r\nm=audio "@ + tail == ended(head(ip)) + ("m=audio "@ + tail)
        }),
{
    let t = addr_type_of(ip).name();
    let a = ip.text();
    let n = "\r\n"@;
    lemma_head_literals();
    let o = "o=- 0 0 IN "@ + t + " "@ + a;
    let c = "c=IN "@ + t + " "@ + a;
    lemma_ended_five("v=0"@, o, "s=-"@, c, "t=0 0"@);
    let one = "v=0"@ + n + o;
    assert("v=0"@ + n + "o=- 0 0 IN "@ + t + " "@ + a =~= one);
    let two = one + n + "s=-"@ + n + c;
    assert(one + (n + "s=-"@ + n + "c=IN "@) + t + " "@ + a =~= two);
    assert(two + (n + "t=0 0"@ + n + "m=audio "@) + tail =~= two + n + "t=0 0"@ + n + ("m=audio "@
        + tail));
    assert(ended(head(ip)) == two + n + "t=0 0"@ + n);
}

proof fn lemma_section_text(port: nat, fs: Seq<Format>, d: MediaDirection)
    ensures
        ended(section(port, fs, d)) == audio_line(port, fs) + "\r\n"@ + all_codec_lines(fs) + "a="@
            + d.name() + "\r\n"@,
{
    let m = seq![audio_line(port, fs)];
    let x = seq![direction_line(d)];
    lemma_ended_concat(m + all_attrs(fs), x);
    lemma_ended_concat(m, all_attrs(fs));
    lemma_ended_one(audio_line(port, fs));
    lemma_ended_one(direction_line(d));
    lemma_all_codec_lines(fs);
    let y = audio_line(port, fs) + "\r\n"@ + all_codec_lines(fs);
    assert(y + ("a="@ + d.name() + "\r\n"@) =~= y + "a="@ + d.name() + "\r\n"@);
}

/// What follows the words `m=audio `.
spec fn behind_media(port: nat, fs: Seq<Format>, d: MediaDirection) -> Seq<char> {
    decimal(port) + " RTP/AVP"@ + payload_list(fs) + "\r\n"@ + all_codec_lines(fs) + "a="@
        + d.name() + "\r\n"@
}

proof fn lemma_behind_media(x: Seq<char>, port: nat, fs: Seq<Format>, d: MediaDirection)
    ensures
        x + behind_media(port, fs, d) == x + decimal(port) + " RTP/AVP"@ + payload_list(fs)
            + "\r\n"@ + all_codec_lines(fs) + "a="@ + d.name() + "\r\n"@,
{
    let a = decimal(port);
    let b = a + " RTP/AVP"@;
    let c = b + payload_list(fs);
    let e = c + "\r\n"@;
    let f = e + all_codec_lines(fs);
    let g = f + "a="@;
    let h = g + d.name();
    text::lemma_concat(x, h, "\r\n"@);
    text::lemma_concat(x, g, d.name());
    text::lemma_concat(x, f, "a="@);
    text::lemma_concat(x, e, all_codec_lines(fs));
    text::lemma_concat(x, c, "\r\n"@);
    text::lemma_concat(x, b, payload_list(fs));
    text::lemma_concat(x, a, " RTP/AVP"@);
}

proof fn lemma_audio_text(local: SocketAddr, fs: Seq<Format>, d: MediaDirection)
    ensures
        audio_text(local.ip.text(), addr_type_of(local.ip), local.port as nat, fs, d) == ended(
            described(local, fs, d),
        ),
{
    let port = local.port as nat;
    let t = addr_type_of(local.ip).name();
    let a = local.ip.text();
    lemma_section_text(port, fs, d);
    lemma_ended_concat(head(local.ip), section(port, fs, d));
    lemma_front_text(local.ip, behind_media(port, fs, d));
    lemma_behind_media("m=audio "@, port, fs, d);
    let front = "v=0\r\no=- 0 0 IN "@ + t + " "@ + a + "\r\ns=-\r\nc=IN "@ + t + " "@ + a
        + "\r\nt=0 0\r\nm=audio "@;
    lemma_behind_media(front, port, fs, d);
}

// ---------------------------------------------------------------------------
// Each line for itself.

proof fn lemma_address(ip: IpAddr)
    ensures
        ip.text().len() > 0,
        forall|i: int| 0 <= i < ip.text().len() ==> !is_space(#[trigger] ip.text()[i]),
        one_line(ip.text()),
{
    written_addresses_are_plain(ip);
    let s = ip.text();
    assert forall|i: int| 0 <= i < s.len() implies !is_space(#[trigger] s[i]) by {
        assert(is_address_char(s[i]));
    }
    assert forall|i: int| 0 <= i < s.len() implies #[trigger] s[i] != '\n' by {
        assert(!is_space(s[i]));
    }
}

/// A line of the front of a description: neither a media line nor an attribute.
spec fn front_line(l: Seq<char>) -> bool {
    &&& l.len() >= 3
    &&& l[1] == '='
    &&& l[0] == 'v' || l[0] == 'o' || l[0] == 's' || l[0] == 'c' || l[0] == 't'
    &&& !is_space(l.last())
    &&& one_line(l)
}

spec fn all_front_lines(l: Seq<Seq<char>>) -> bool {
    forall|i: int| 0 <= i < l.len() ==> front_line(#[trigger] l[i])
}

proof fn lemma_head(ip: IpAddr)
    ensures
        all_front_lines(head(ip)),
        head(ip).len() == 5,
        head(ip)[0][0] == 'v',
        head(ip)[1][0] == 'o',
        head(ip)[2][0] == 's',
        head(ip)[3][0] == 'c',
{
    lemma_address(ip);
    let t = addr_type_of(ip).name();
    let a = ip.text();
    reveal_strlit("v=0");
    reveal_strlit("o=- 0 0 IN ");
    reveal_strlit("s=-");
    reveal_strlit("c=IN ");
    reveal_strlit("t=0 0");
    reveal_strlit(" ");
    reveal_strlit("IP4");
    reveal_strlit("IP6");
    let o = "o=- 0 0 IN "@ + t + " "@ + a;
    let c = "c=IN "@ + t + " "@ + a;
    lemma_one_line("o=- 0 0 IN "@, t);
    lemma_one_line("o=- 0 0 IN "@ + t, " "@);
    lemma_one_line("o=- 0 0 IN "@ + t + " "@, a);
    lemma_one_line("c=IN "@, t);
    lemma_one_line("c=IN "@ + t, " "@);
    lemma_one_line("c=IN "@ + t + " "@, a);
    assert(!is_space(a[a.len() - 1]));
    assert(o.last() == a[a.len() - 1] && c.last() == a[a.len() - 1]);
    assert(front_line(o) && front_line(c));
    assert(front_line("v=0"@) && front_line("s=-"@) && front_line("t=0 0"@));
}

proof fn lemma_front_line(l: Seq<char>)
    requires
        front_line(l),
    ensures
        trimmed(l) == l,
        !has_prefix(l, "m="@),
        !has_prefix(l, "m=audio "@),
        !has_prefix(l, "m=video "@),
        !is_direction_line(l),
        l[0] != 'c' ==> !has_prefix(l, "c=IN "@),
{
    text::lemma_bare(l);
    reveal_strlit("m=");
    reveal_strlit("m=audio ");
    reveal_strlit("m=video ");
    reveal_strlit("a=send");
    reveal_strlit("a=recvonly");
    reveal_strlit("a=inactive");
    reveal_strlit("c=IN ");
    lemma_no_prefix(l, "m="@, 0);
    lemma_no_prefix(l, "m=audio "@, 0);
    lemma_no_prefix(l, "m=video "@, 0);
    lemma_no_prefix(l, "a=send"@, 0);
    if l[0] != 'c' {
        lemma_no_prefix(l, "c=IN "@, 0);
    }
}

/// A text that differs from another at some place does not begin with it.
proof fn lemma_no_prefix(l: Seq<char>, p: Seq<char>, i: int)
    requires
        0 <= i < p.len(),
        i < l.len() ==> l[i] != p[i],
    ensures
        !has_prefix(l, p),
{
    if has_prefix(l, p) {
        assert(l.take(p.len() as int)[i] == l[i]);
    }
}

proof fn lemma_attr_line(l: Seq<char>)
    requires
        attr_line(l),
    ensures
        trimmed(l) == l,
        !has_prefix(l, "m="@),
        !has_prefix(l, "m=audio "@),
        !has_prefix(l, "m=video "@),
        !is_direction_line(l),
        !has_prefix(l, "c=IN "@),
        direction_named(l) is None,
{
    text::lemma_bare(l);
    reveal_strlit("m=");
    reveal_strlit("m=audio ");
    reveal_strlit("m=video ");
    reveal_strlit("a=send");
    reveal_strlit("a=sendrecv");
    reveal_strlit("a=sendonly");
    reveal_strlit("a=recvonly");
    reveal_strlit("a=inactive");
    reveal_strlit("c=IN ");
    lemma_no_prefix(l, "m="@, 0);
    lemma_no_prefix(l, "m=audio "@, 0);
    lemma_no_prefix(l, "m=video "@, 0);
    lemma_no_prefix(l, "a=send"@, 2);
    lemma_no_prefix(l, "c=IN "@, 0);
}

proof fn lemma_direction_line(d: MediaDirection)
    ensures
        ({
            let l = direction_line(d);
            &&& trimmed(l) == l
            &&& one_line(l)
            &&& is_direction_line(l)
            &&& direction_named(l) == Some(d)
            &&& !has_prefix(l, "m="@)
            &&& !has_prefix(l, "m=audio "@)
            &&& !has_prefix(l, "m=video "@)
            &&& !has_prefix(l, "c=IN "@)
            &&& l.len() == 10 && l[0] == 'a' && l[2] != 'f' && l[3] != 't'
        }),
{
    let l = direction_line(d);
    reveal_strlit("a=");
    reveal_strlit("sendrecv");
    reveal_strlit("sendonly");
    reveal_strlit("recvonly");
    reveal_strlit("inactive");
    reveal_strlit("a=sendrecv");
    reveal_strlit("a=sendonly");
    reveal_strlit("a=recvonly");
    reveal_strlit("a=inactive");
    reveal_strlit("a=send");
    reveal_strlit("m=");
    reveal_strlit("m=audio ");
    reveal_strlit("m=video ");
    reveal_strlit("c=IN ");
    text::lemma_bare(l);
    lemma_no_prefix(l, "m="@, 0);
    lemma_no_prefix(l, "m=audio "@, 0);
    lemma_no_prefix(l, "m=video "@, 0);
    lemma_no_prefix(l, "c=IN "@, 0);
    assert("a=sendrecv"@[6] == 'r' && "a=sendonly"@[6] == 'o');
    assert("a=recvonly"@[2] == 'r' && "a=inactive"@[2] == 'i' && "a=sendrecv"@[2] == 's'
        && "a=sendonly"@[2] == 's');
    match d {
        MediaDirection::SendRecv => {
            assert(l =~= "a=sendrecv"@);
            assert(l.take(6) =~= "a=send"@);
        },
        MediaDirection::SendOnly => {
            assert(l =~= "a=sendonly"@);
            assert(l.take(6) =~= "a=send"@);
        },
        MediaDirection::RecvOnly => {
            assert(l =~= "a=recvonly"@);
        },
        MediaDirection::Inactive => {
            assert(l =~= "a=inactive"@);
        },
    }
}

// ---------------------------------------------------------------------------
// The media line.

spec fn entries(fs: Seq<Format>) -> Seq<Seq<char>> {
    Seq::new(fs.len(), |i: int| decimal(fs[i].payload))
}

proof fn lemma_payload_front(fs: Seq<Format>)
    requires
        fs.len() > 0,
    ensures
        payload_list(fs) == seq![' '] + (decimal(fs[0].payload) + payload_list(fs.drop_first())),
    decreases fs.len(),
{
    reveal_strlit(" ");
    assert(" "@ =~= seq![' ']);
    let x = decimal(fs[0].payload);
    let d = fs.drop_last();
    if fs.len() == 1 {
        assert(fs.drop_first().len() == 0);
        assert(payload_list(d) =~= Seq::empty());
        assert(payload_list(fs.drop_first()) =~= Seq::empty());
        assert(fs.last() == fs[0]);
        assert(payload_list(fs) =~= seq![' '] + (x + Seq::empty()));
    } else {
        lemma_payload_front(d);
        assert(d[0] == fs[0]);
        let r = fs.drop_first();
        assert(r.drop_last() =~= d.drop_first());
        assert(r.last() == fs.last());
        let y = decimal(fs.last().payload);
        let q = payload_list(d.drop_first());
        assert(seq![' '] + (x + q) + seq![' '] + y =~= seq![' '] + (x + (q + seq![' '] + y)));
    }
}

proof fn lemma_payload_words(fs: Seq<Format>)
    ensures
        words(payload_list(fs)) == entries(fs),
        payload_list(fs).len() == 0 || is_space(payload_list(fs)[0]),
        one_line(payload_list(fs)),
        payload_list(fs).len() > 0 ==> !is_space(payload_list(fs).last()),
    decreases fs.len(),
{
    if fs.len() == 0 {
        assert(payload_list(fs) =~= Seq::empty());
        text::lemma_no_words();
        assert(entries(fs) =~= Seq::empty());
    } else {
        let x = decimal(fs[0].payload);
        let r = fs.drop_first();
        let rest = payload_list(r);
        lemma_payload_front(fs);
        lemma_payload_words(r);
        lemma_digits(fs[0].payload);
        lemma_number_line(fs[0].payload);
        assert forall|i: int| 0 <= i < x.len() implies !is_space(#[trigger] x[i]) by {
            assert(is_digit(x[i]));
        }
        text::lemma_first_word(x, rest);
        text::lemma_space_in_front(x + rest);
        assert(entries(fs) =~= seq![x] + entries(r));
        lemma_one_line(x, rest);
        assert(one_line(seq![' ']));
        lemma_one_line(seq![' '], x + rest);
        if rest.len() == 0 {
            assert(payload_list(fs).last() == x.last());
        } else {
            assert(payload_list(fs).last() == rest.last());
        }
    }
}

proof fn lemma_media_words(media: Seq<char>, port: nat, list: Seq<char>)
    requires
        media.len() > 0,
        forall|i: int| 0 <= i < media.len() ==> !is_space(#[trigger] media[i]),
        list.len() == 0 || is_space(list[0]),
    ensures
        words(media + " "@ + decimal(port) + " RTP/AVP"@ + list) == seq![
            media,
            decimal(port),
            "RTP/AVP"@,
        ] + words(list),
{
    reveal_strlit(" ");
    reveal_strlit(" RTP/AVP");
    reveal_strlit("RTP/AVP");
    let d = decimal(port);
    let c = "RTP/AVP"@;
    lemma_digits(port);
    assert forall|i: int| 0 <= i < d.len() implies !is_space(#[trigger] d[i]) by {
        assert(is_digit(d[i]));
    }
    assert forall|i: int| 0 <= i < c.len() implies !is_space(#[trigger] c[i]) by {}
    let three = c + list;
    let two = d + (seq![' '] + three);
    let one = media + (seq![' '] + two);
    text::lemma_first_word(c, list);
    text::lemma_space_in_front(three);
    text::lemma_first_word(d, seq![' '] + three);
    text::lemma_space_in_front(two);
    text::lemma_first_word(media, seq![' '] + two);
    assert(media + " "@ + d + " RTP/AVP"@ + list =~= one);
    assert(seq![media] + (seq![d] + (seq![c] + words(list))) =~= seq![media, d, c] + words(list));
}

proof fn lemma_audio_line(port: nat, fs: Seq<Format>)
    ensures
        ({
            let m = audio_line(port, fs);
            &&& words(m) == seq!["m=audio"@, decimal(port), "RTP/AVP"@] + entries(fs)
            &&& trimmed(m) == m
            &&& one_line(m)
            &&& m.len() > 8 && m[0] == 'm'
            &&& has_prefix(m, "m=audio "@)
            &&& has_prefix(m, "m="@)
            &&& !has_prefix(m, "m=video "@)
            &&& !has_prefix(m, "c=IN "@)
            &&& direction_named(m) is None
        }),
{
    let m = audio_line(port, fs);
    reveal_strlit("m=audio");
    reveal_strlit("m=audio ");
    reveal_strlit("m=video ");
    reveal_strlit("m=");
    reveal_strlit(" ");
    reveal_strlit(" RTP/AVP");
    reveal_strlit("c=IN ");
    reveal_strlit("a=sendrecv");
    reveal_strlit("a=sendonly");
    reveal_strlit("a=recvonly");
    reveal_strlit("a=inactive");
    let l = payload_list(fs);
    lemma_payload_words(fs);
    lemma_digits(port);
    lemma_number_line(port);
    assert("m=audio "@ =~= "m=audio"@ + " "@);
    lemma_media_words("m=audio"@, port, l);
    lemma_one_line("m=audio "@, decimal(port));
    lemma_one_line("m=audio "@ + decimal(port), " RTP/AVP"@);
    lemma_one_line("m=audio "@ + decimal(port) + " RTP/AVP"@, l);
    if l.len() == 0 {
        assert(m.last() == 'P');
    } else {
        assert(m.last() == l.last());
    }
    text::lemma_bare(m);
    assert(m.take(8) =~= "m=audio "@);
    assert(m.take(2) =~= "m="@);
    assert(m[2] == 'a');
    lemma_no_prefix(m, "m=video "@, 2);
    lemma_no_prefix(m, "c=IN "@, 0);
}

// ---------------------------------------------------------------------------
// Telephone events.

proof fn lemma_lines_concat(a: Seq<Seq<char>>, b: Seq<Seq<char>>, e: EventView)
    ensures
        lines_with_dtmf(a + b, e) == lines_with_dtmf(a, e) + lines_with_dtmf(b, e),
    decreases b.len(),
{
    if b.len() == 0 {
        assert(a + b =~= a);
        assert(lines_with_dtmf(a, e) + lines_with_dtmf(b, e) =~= lines_with_dtmf(a, e));
    } else {
        let d = b.drop_last();
        lemma_lines_concat(a, d, e);
        assert((a + b).drop_last() =~= a + d);
        assert((a + b).last() == b.last());
        text::lemma_concat(
            lines_with_dtmf(a, e),
            lines_with_dtmf(d, e),
            line_with_dtmf(b.last(), e),
        );
    }
}

proof fn lemma_kept_lines(l: Seq<Seq<char>>, e: EventView)
    requires
        forall|i: int|
            0 <= i < l.len() ==> !has_prefix(#[trigger] l[i], "m=audio "@) && !is_direction_line(
                l[i],
            ),
    ensures
        lines_with_dtmf(l, e) == ended(l),
    decreases l.len(),
{
    if l.len() > 0 {
        let d = l.drop_last();
        assert forall|i: int| 0 <= i < d.len() implies !has_prefix(#[trigger] d[i], "m=audio "@)
            && !is_direction_line(d[i]) by {
            assert(d[i] == l[i]);
        }
        lemma_kept_lines(d, e);
        assert(l[l.len() - 1] == l.last());
        text::lemma_concat(ended(d), l.last(), "\r\n"@);
    }
}

proof fn lemma_single_line(l: Seq<char>, e: EventView)
    ensures
        lines_with_dtmf(seq![l], e) == line_with_dtmf(l, e),
{
    let n = Seq::<Seq<char>>::empty();
    assert(seq![l].drop_last() =~= n);
    assert(seq![l].last() == l);
    assert(lines_with_dtmf(n, e) == Seq::<char>::empty());
    assert(Seq::<char>::empty() + line_with_dtmf(l, e) =~= line_with_dtmf(l, e));
}

proof fn lemma_described_lines(local: SocketAddr, fs: Seq<Format>, d: MediaDirection)
    requires
        forall|i: int| 0 <= i < fs.len() ==> writable(#[trigger] fs[i]),
    ensures
        all_lines(described(local, fs, d)),
{
    let h = head(local.ip);
    let a = all_attrs(fs);
    let port = local.port as nat;
    lemma_head(local.ip);
    lemma_all_attrs(fs);
    lemma_audio_line(port, fs);
    lemma_direction_line(d);
    let all = described(local, fs, d);
    assert forall|i: int| 0 <= i < all.len() implies one_line(#[trigger] all[i]) by {
        if i < 5 {
            assert(all[i] == h[i]);
            assert(front_line(h[i]));
        } else if i == 5 {
            assert(all[i] == audio_line(port, fs));
        } else if i < 6 + a.len() {
            assert(all[i] == a[i - 6]);
            assert(attr_line(a[i - 6]));
        } else {
            assert(all[i] == direction_line(d));
        }
    }
}

proof fn lemma_with_event(
    local: SocketAddr,
    fs: Seq<Format>,
    d: MediaDirection,
    e: EventView,
)
    requires
        forall|i: int| 0 <= i < fs.len() ==> writable(#[trigger] fs[i]),
    ensures
        with_dtmf(ended(described(local, fs, d)), Some(e)) == ended(
            described(local, fs.push(event_format(e)), d),
        ),
{
    let port = local.port as nat;
    let h = head(local.ip);
    let a = all_attrs(fs);
    let m = audio_line(port, fs);
    let x = direction_line(d);
    let ev = event_format(e);
    let gs = fs.push(ev);
    lemma_described_lines(local, fs, d);
    lemma_lines(described(local, fs, d));
    lemma_head(local.ip);
    lemma_all_attrs(fs);
    lemma_audio_line(port, fs);
    lemma_direction_line(d);
    let mid = seq![m] + a;
    lemma_lines_concat(h, mid + seq![x], e);
    lemma_lines_concat(mid, seq![x], e);
    lemma_lines_concat(seq![m], a, e);
    assert forall|i: int| 0 <= i < h.len() implies !has_prefix(#[trigger] h[i], "m=audio "@)
        && !is_direction_line(h[i]) by {
        assert(front_line(h[i]));
        lemma_front_line(h[i]);
    }
    lemma_kept_lines(h, e);
    assert forall|i: int| 0 <= i < a.len() implies !has_prefix(#[trigger] a[i], "m=audio "@)
        && !is_direction_line(a[i]) by {
        assert(attr_line(a[i]));
        lemma_attr_line(a[i]);
    }
    lemma_kept_lines(a, e);
    lemma_single_line(m, e);
    lemma_single_line(x, e);
    lemma_dtmf_lines(e);
    assert(gs.drop_last() =~= fs);
    assert(gs.last() == ev);
    let m2 = audio_line(port, gs);
    assert(m2 =~= m + " "@ + decimal(e.payload));
    assert(all_attrs(gs) == a + attrs(ev));
    lemma_ended_concat(h, section(port, gs, d));
    lemma_ended_concat(seq![m2] + all_attrs(gs), seq![x]);
    lemma_ended_concat(seq![m2], all_attrs(gs));
    lemma_ended_concat(a, attrs(ev));
    lemma_ended_one(m2);
    lemma_ended_one(x);
    lemma_event_regroup(ended(h), m2 + "\r\n"@, ended(a), ended(attrs(ev)), x);
    lemma_not_media(x);
}

proof fn lemma_not_media(x: Seq<char>)
    requires
        x.len() > 0,
        x[0] == 'a',
    ensures
        !has_prefix(x, "m=audio "@),
{
    reveal_strlit("m=audio ");
    lemma_no_prefix(x, "m=audio "@, 0);
}

proof fn lemma_event_regroup(
    h: Seq<char>,
    m: Seq<char>,
    a: Seq<char>,
    ev: Seq<char>,
    x: Seq<char>,
)
    ensures
        h + (m + a + (ev + x + "\r\n"@)) == h + (m + (a + ev) + (x + "\r\n"@)),
{
    assert(h + (m + a + (ev + x + "\r\n"@)) =~= h + (m + (a + ev) + (x + "\r\n"@)));
}

// ---------------------------------------------------------------------------
// Reading lines.

proof fn lemma_after_concat(a: Seq<Seq<char>>, b: Seq<Seq<char>>, p: Seq<char>)
    ensures
        first_after_prefix(a + b, p) == (match first_after_prefix(a, p) {
            Some(rest) => Some(rest),
            None => first_after_prefix(b, p),
        }),
    decreases a.len(),
{
    if a.len() == 0 {
        assert(a + b =~= b);
    } else {
        lemma_after_concat(a.drop_first(), b, p);
        assert((a + b).drop_first() =~= a.drop_first() + b);
        assert((a + b)[0] == a[0]);
    }
}

proof fn lemma_after_none(l: Seq<Seq<char>>, p: Seq<char>)
    requires
        forall|i: int| 0 <= i < l.len() ==> !has_prefix(trimmed(#[trigger] l[i]), p),
    ensures
        first_after_prefix(l, p) is None,
    decreases l.len(),
{
    if l.len() > 0 {
        let r = l.drop_first();
        assert(!has_prefix(trimmed(l[0]), p));
        assert forall|i: int| 0 <= i < r.len() implies !has_prefix(trimmed(#[trigger] r[i]), p) by {
            assert(r[i] == l[i + 1]);
        }
        lemma_after_none(r, p);
    }
}

proof fn lemma_after_one(l: Seq<char>, p: Seq<char>)
    ensures
        first_after_prefix(seq![l], p) == after_prefix(trimmed(l), p),
{
    assert(seq![l].drop_first() =~= Seq::<Seq<char>>::empty());
    assert(first_after_prefix(Seq::empty(), p) is None);
    assert(seq![l][0] == l);
}

proof fn lemma_line_with(a: Seq<Seq<char>>, b: Seq<Seq<char>>, p: Seq<char>)
    requires
        forall|i: int| 0 <= i < a.len() ==> !has_prefix(#[trigger] a[i], p),
    ensures
        line_with(a + b, p) == a.len() + line_with(b, p),
    decreases a.len(),
{
    if a.len() == 0 {
        assert(a + b =~= b);
    } else {
        let r = a.drop_first();
        assert(!has_prefix(a[0], p));
        assert forall|i: int| 0 <= i < r.len() implies !has_prefix(#[trigger] r[i], p) by {
            assert(r[i] == a[i + 1]);
        }
        lemma_line_with(r, b, p);
        assert((a + b).drop_first() =~= r + b);
        assert((a + b)[0] == a[0]);
    }
}

proof fn lemma_direction_behind(a: Seq<Seq<char>>, b: Seq<Seq<char>>)
    requires
        forall|i: int| 0 <= i < a.len() ==> direction_named(trimmed(#[trigger] a[i])) is None,
    ensures
        direction_in(a + b) == direction_in(b),
    decreases a.len(),
{
    if a.len() == 0 {
        assert(a + b =~= b);
    } else {
        let r = a.drop_first();
        assert(direction_named(trimmed(a[0])) is None);
        assert forall|i: int| 0 <= i < r.len() implies direction_named(trimmed(#[trigger] r[i]))
            is None by {
            assert(r[i] == a[i + 1]);
        }
        lemma_direction_behind(r, b);
        assert((a + b).drop_first() =~= r + b);
        assert((a + b)[0] == a[0]);
    }
}

/// Two numbers whose digits agree up to a space are one number.
proof fn lemma_number_prefix(tag: Seq<char>, p: nat, q: nat, rest: Seq<char>)
    ensures
        has_prefix(tag + decimal(q) + " "@ + rest, tag + decimal(p) + " "@) <==> p == q,
{
    reveal_strlit(" ");
    let a = decimal(p);
    let b = decimal(q);
    let l = tag + b + " "@ + rest;
    let x = tag + a + " "@;
    lemma_digits(p);
    lemma_digits(q);
    if p == q {
        assert(l.take(x.len() as int) =~= x);
    } else if has_prefix(l, x) {
        assert forall|i: int| 0 <= i < x.len() implies l[i] == #[trigger] x[i] by {
            assert(l.take(x.len() as int)[i] == l[i]);
        }
        let t = tag.len() as int;
        if a.len() < b.len() {
            assert(x[t + a.len()] == ' ');
            assert(l[t + a.len()] == b[a.len() as int]);
            assert(is_digit(b[a.len() as int]));
        } else if a.len() > b.len() {
            assert(l[t + b.len()] == ' ');
            assert(x[t + b.len()] == a[b.len() as int]);
            assert(is_digit(a[b.len() as int]));
        } else {
            assert forall|i: int| 0 <= i < a.len() implies a[i] == b[i] by {
                assert(x[t + i] == a[i]);
                assert(l[t + i] == b[i]);
            }
            assert(a =~= b);
            text::number_reads_decimal(p, p + q);
            text::number_reads_decimal(q, p + q);
        }
    }
}

proof fn lemma_prefixes(p: nat)
    ensures
        map_prefix(p).len() > 9,
        map_prefix(p)[0] == 'a' && map_prefix(p)[2] == 'r' && map_prefix(p)[3] == 't',
        fmtp_prefix(p).len() > 7,
        fmtp_prefix(p)[0] == 'a' && fmtp_prefix(p)[2] == 'f' && fmtp_prefix(p)[3] == 'm',
{
    reveal_strlit("a=rtpmap:");
    reveal_strlit("a=fmtp:");
    reveal_strlit(" ");
    lemma_digits(p);
}

proof fn lemma_after_attrs(f: Format, p: nat)
    requires
        writable(f),
    ensures
        first_after_prefix(attrs(f), map_prefix(p)) == (if f.payload == p {
            Some(encoding_text(f))
        } else {
            None
        }),
        first_after_prefix(attrs(f), fmtp_prefix(p)) == (if f.payload == p {
            f.fmtp
        } else {
            None
        }),
{
    lemma_attrs(f);
    lemma_prefixes(p);
    lemma_prefixes(f.payload);
    let m = map_prefix(f.payload) + encoding_text(f);
    assert(attrs(f)[0] == m);
    assert(attr_line(m));
    lemma_attr_line(m);
    lemma_number_prefix("a=rtpmap:"@, p, f.payload, encoding_text(f));
    assert(m[2] == 'r');
    lemma_no_prefix(m, fmtp_prefix(p), 2);
    lemma_after_one(m, map_prefix(p));
    lemma_after_one(m, fmtp_prefix(p));
    assert(m.skip(map_prefix(f.payload).len() as int) =~= encoding_text(f));
    match f.fmtp {
        Some(v) => {
            let x = fmtp_prefix(f.payload) + v;
            assert(attrs(f) =~= seq![m] + seq![x]);
            assert(attrs(f)[1] == x);
            assert(attr_line(x));
            lemma_attr_line(x);
            lemma_number_prefix("a=fmtp:"@, p, f.payload, v);
            assert(x[2] == 'f');
            lemma_no_prefix(x, map_prefix(p), 2);
            lemma_after_one(x, map_prefix(p));
            lemma_after_one(x, fmtp_prefix(p));
            lemma_after_concat(seq![m], seq![x], map_prefix(p));
            lemma_after_concat(seq![m], seq![x], fmtp_prefix(p));
            assert(x.skip(fmtp_prefix(f.payload).len() as int) =~= v);
        },
        None => {},
    }
}

proof fn lemma_after_all(fs: Seq<Format>, p: nat, k: int)
    requires
        writable_all(fs),
    ensures
        (forall|i: int| 0 <= i < fs.len() ==> (#[trigger] fs[i]).payload != p)
            ==> first_after_prefix(all_attrs(fs), map_prefix(p)) is None && first_after_prefix(
            all_attrs(fs),
            fmtp_prefix(p),
        ) is None,
        0 <= k < fs.len() && fs[k].payload == p ==> first_after_prefix(
            all_attrs(fs),
            map_prefix(p),
        ) == Some(encoding_text(fs[k])) && first_after_prefix(all_attrs(fs), fmtp_prefix(p))
            == fs[k].fmtp,
    decreases fs.len(),
{
    if fs.len() == 0 {
        assert(first_after_prefix(Seq::empty(), map_prefix(p)) is None);
        assert(first_after_prefix(Seq::empty(), fmtp_prefix(p)) is None);
    } else {
        let d = fs.drop_last();
        let l = fs.last();
        assert forall|i: int| 0 <= i < d.len() implies writable(#[trigger] d[i]) by {
            assert(d[i] == fs[i]);
        }
        assert forall|i: int, j: int|
            0 <= i < d.len() && 0 <= j < d.len() && (#[trigger] d[i]).payload == (
            #[trigger] d[j]).payload implies d[i] == d[j] by {
            assert(d[i] == fs[i] && d[j] == fs[j]);
        }
        assert(l == fs[fs.len() - 1]);
        assert(writable(l));
        lemma_after_all(d, p, k);
        lemma_after_attrs(l, p);
        lemma_after_concat(all_attrs(d), attrs(l), map_prefix(p));
        lemma_after_concat(all_attrs(d), attrs(l), fmtp_prefix(p));
        if forall|i: int| 0 <= i < fs.len() ==> (#[trigger] fs[i]).payload != p {
            assert forall|i: int| 0 <= i < d.len() implies (#[trigger] d[i]).payload != p by {
                assert(d[i] == fs[i]);
            }
        }
        if 0 <= k < fs.len() && fs[k].payload == p {
            if k < d.len() {
                assert(d[k] == fs[k]);
                assert(l.payload == p ==> fs[fs.len() - 1] == fs[k]);
            } else if exists|i: int| 0 <= i < d.len() && (#[trigger] d[i]).payload == p {
                let i = choose|i: int| 0 <= i < d.len() && (#[trigger] d[i]).payload == p;
                assert(d[i] == fs[i]);
                assert(fs[i] == fs[k]);
                lemma_after_all(d, p, i);
            }
        }
    }
}

/// Lines that are no attributes.
spec fn no_attributes(l: Seq<Seq<char>>) -> bool {
    forall|i: int|
        0 <= i < l.len() ==> (#[trigger] l[i]).len() > 0 && l[i][0] != 'a' && trimmed(l[i]) == l[i]
}

spec fn body(pre: Seq<Seq<char>>, fs: Seq<Format>, d: MediaDirection) -> Seq<Seq<char>> {
    pre + all_attrs(fs) + seq![direction_line(d)]
}

proof fn lemma_format_found(pre: Seq<Seq<char>>, fs: Seq<Format>, d: MediaDirection, k: int)
    requires
        writable_all(fs),
        no_attributes(pre),
        0 <= k < fs.len(),
    ensures
        format_in(body(pre, fs, d), decimal(fs[k].payload)) == Some(fs[k]),
{
    let f = fs[k];
    let p = f.payload;
    let b = body(pre, fs, d);
    let x = direction_line(d);
    assert(writable(f));
    lemma_prefixes(p);
    lemma_after_all(fs, p, k);
    assert forall|i: int| 0 <= i < pre.len() implies !has_prefix(
        trimmed(#[trigger] pre[i]),
        map_prefix(p),
    ) by {
        lemma_no_prefix(pre[i], map_prefix(p), 0);
    }
    assert forall|i: int| 0 <= i < pre.len() implies !has_prefix(
        trimmed(#[trigger] pre[i]),
        fmtp_prefix(p),
    ) by {
        lemma_no_prefix(pre[i], fmtp_prefix(p), 0);
    }
    lemma_after_none(pre, map_prefix(p));
    lemma_after_none(pre, fmtp_prefix(p));
    lemma_after_concat(pre, all_attrs(fs), map_prefix(p));
    lemma_after_concat(pre, all_attrs(fs), fmtp_prefix(p));
    lemma_after_concat(pre + all_attrs(fs), seq![x], map_prefix(p));
    lemma_after_concat(pre + all_attrs(fs), seq![x], fmtp_prefix(p));
    lemma_direction_line(d);
    lemma_no_prefix(x, fmtp_prefix(p), 2);
    lemma_after_one(x, fmtp_prefix(p));
    text::number_reads_decimal(p, 255);
    lemma_encoding(f);
    assert(encoding_in(b, p) == Some((f.name, f.clock)));
    assert(fmtp_in(b, p) == f.fmtp);
}

proof fn lemma_encoding(f: Format)
    requires
        writable(f),
    ensures
        encoding_of(encoding_text(f)) == Some((f.name, f.clock)),
{
    let e = encoding_text(f);
    lemma_digits(f.clock);
    assert(e[0] == f.name[0] && !is_space(f.name[0]));
    assert(e.last() == decimal(f.clock).last());
    text::lemma_bare(e);
    text::lemma_first_piece(f.name, '/', decimal(f.clock));
    let d = decimal(f.clock);
    assert forall|i: int| 0 <= i < d.len() implies d[i] != '/' by {
        assert(is_digit(d[i]));
    }
    text::lemma_no_separator(d, '/');
    text::number_reads_decimal(f.clock, 0xffff_ffff);
    let p = pieces(e, '/');
    assert(p =~= seq![f.name, d]);
    assert(p[0] == f.name && p[1] == d);
}

proof fn lemma_formats_found(
    pre: Seq<Seq<char>>,
    fs: Seq<Format>,
    d: MediaDirection,
    k: int,
)
    requires
        writable_all(fs),
        no_attributes(pre),
        0 <= k <= fs.len(),
    ensures
        formats_in(body(pre, fs, d), entries(fs).take(k)) == fs.take(k),
    decreases k,
{
    if k == 0 {
        assert(entries(fs).take(0) =~= Seq::<Seq<char>>::empty());
        assert(fs.take(0) =~= Seq::<Format>::empty());
    } else {
        lemma_formats_found(pre, fs, d, k - 1);
        lemma_format_found(pre, fs, d, k - 1);
        let e = entries(fs).take(k);
        assert(e.drop_last() =~= entries(fs).take(k - 1));
        assert(e.last() == decimal(fs[k - 1].payload));
        assert(fs.take(k) =~= fs.take(k - 1).push(fs[k - 1]));
    }
}

proof fn lemma_body_direction(pre: Seq<Seq<char>>, fs: Seq<Format>, d: MediaDirection)
    requires
        forall|i: int| 0 <= i < fs.len() ==> writable(#[trigger] fs[i]),
        no_attributes(pre),
    ensures
        direction_in(body(pre, fs, d)) == Some(d),
        forall|i: int| 0 <= i < all_attrs(fs).len() ==> !has_prefix(
            #[trigger] all_attrs(fs)[i],
            "m="@,
        ),
{
    let a = all_attrs(fs);
    let x = direction_line(d);
    lemma_all_attrs(fs);
    lemma_direction_line(d);
    reveal_strlit("a=sendrecv");
    reveal_strlit("a=sendonly");
    reveal_strlit("a=recvonly");
    reveal_strlit("a=inactive");
    let l = pre + a;
    assert forall|i: int| 0 <= i < l.len() implies direction_named(trimmed(#[trigger] l[i]))
        is None by {
        if i < pre.len() {
            assert(l[i] == pre[i]);
        } else {
            assert(l[i] == a[i - pre.len()]);
            assert(attr_line(a[i - pre.len()]));
            lemma_attr_line(l[i]);
        }
    }
    lemma_direction_behind(l, seq![x]);
    assert(seq![x][0] == x);
    assert forall|i: int| 0 <= i < a.len() implies !has_prefix(#[trigger] a[i], "m="@) by {
        assert(attr_line(a[i]));
        lemma_attr_line(a[i]);
    }
}

/// The connection line of an address.
proof fn lemma_connection(ip: IpAddr)
    ensures
        connection_of(addr_type_of(ip).name() + " "@ + ip.text()) == Some(
            (addr_type_of(ip), ip.text()),
        ),
        after_prefix("c=IN "@ + addr_type_of(ip).name() + " "@ + ip.text(), "c=IN "@) == Some(
            addr_type_of(ip).name() + " "@ + ip.text(),
        ),
{
    let t = addr_type_of(ip).name();
    let a = ip.text();
    reveal_strlit(" ");
    reveal_strlit("IP4");
    reveal_strlit("IP6");
    assert("IP4"@[2] == '4' && "IP6"@[2] == '6');
    lemma_address(ip);
    let rest = t + " "@ + a;
    assert(rest =~= t + (seq![' '] + a));
    text::lemma_first_word(t, seq![' '] + a);
    text::lemma_space_in_front(a);
    text::lemma_first_word(a, Seq::empty());
    text::lemma_no_words();
    assert(a + Seq::<char>::empty() =~= a);
    let w = words(rest);
    assert(w =~= seq![t, a]);
    assert(w[0] == t && w[1] == a);
    let c = "c=IN "@ + t + " "@ + a;
    assert(c.take("c=IN "@.len() as int) =~= "c=IN "@);
    assert(c.skip("c=IN "@.len() as int) =~= rest);
}

proof fn lemma_head_connection(ip: IpAddr)
    ensures
        connection_in(head(ip)) == Some((addr_type_of(ip), ip.text())),
{
    let h = head(ip);
    lemma_head(ip);
    lemma_connection(ip);
    let a = h.take(3);
    let b = h.skip(3);
    assert(h =~= a + b);
    assert forall|i: int| 0 <= i < a.len() implies !has_prefix(trimmed(#[trigger] a[i]), "c=IN "@) by {
        assert(a[i] == h[i]);
        assert(front_line(h[i]));
        lemma_front_line(h[i]);
    }
    lemma_after_none(a, "c=IN "@);
    lemma_after_concat(a, b, "c=IN "@);
    assert(b[0] == h[3]);
    assert(front_line(h[3]));
    lemma_front_line(h[3]);
}

// ---------------------------------------------------------------------------
// Whole descriptions.

/// Lines that can follow an audio section: none, or another media line first.
spec fn follows(v: Seq<Seq<char>>) -> bool {
    v.len() == 0 || has_prefix(v[0], "m="@)
}

proof fn lemma_parts(
    local: SocketAddr,
    fs: Seq<Format>,
    d: MediaDirection,
    v: Seq<Seq<char>>,
)
    requires
        forall|i: int| 0 <= i < fs.len() ==> writable(#[trigger] fs[i]),
        follows(v),
    ensures
        ({
            let all = described(local, fs, d) + v;
            &&& session_part(all) == head(local.ip)
            &&& media_part(all, "m=audio "@) == section(local.port as nat, fs, d)
            &&& line_with(described(local, fs, d) + v, "m=video "@) == described(local, fs, d).len()
                + line_with(v, "m=video "@)
        }),
{
    let port = local.port as nat;
    let h = head(local.ip);
    let a = all_attrs(fs);
    let m = audio_line(port, fs);
    let x = direction_line(d);
    let sec = section(port, fs, d);
    let all = described(local, fs, d) + v;
    lemma_head(local.ip);
    lemma_all_attrs(fs);
    lemma_audio_line(port, fs);
    lemma_direction_line(d);
    assert forall|i: int| 0 <= i < h.len() implies !has_prefix(#[trigger] h[i], "m="@)
        && !has_prefix(h[i], "m=audio "@) && !has_prefix(h[i], "m=video "@) by {
        assert(front_line(h[i]));
        lemma_front_line(h[i]);
    }
    let rest = sec + v;
    assert(all =~= h + rest);
    lemma_line_with(h, rest, "m="@);
    lemma_line_with(h, rest, "m=audio "@);
    assert(rest[0] == m);
    assert(all.take(5) =~= h);
    assert(all.skip(5) =~= rest);
    let behind = a + seq![x];
    assert(rest.skip(1) =~= behind + v);
    assert forall|i: int| 0 <= i < behind.len() implies !has_prefix(#[trigger] behind[i], "m="@)
        && !has_prefix(behind[i], "m=video "@) by {
        if i < a.len() {
            assert(behind[i] == a[i]);
            assert(attr_line(a[i]));
            lemma_attr_line(a[i]);
        } else {
            assert(behind[i] == x);
        }
    }
    lemma_line_with(behind, v, "m="@);
    assert(line_with(v, "m="@) == 0);
    assert(rest.take(1 + behind.len() as int) =~= sec);
    let full = described(local, fs, d);
    assert forall|i: int| 0 <= i < full.len() implies !has_prefix(
        #[trigger] full[i],
        "m=video "@,
    ) by {
        if i < 5 {
            assert(full[i] == h[i]);
        } else if i == 5 {
            assert(full[i] == m);
        } else {
            assert(full[i] == behind[i - 6]);
        }
    }
    lemma_line_with(full, v, "m=video "@);
}

proof fn lemma_body_of(t: Seq<char>, l: Seq<Seq<char>>)
    requires
        t == ended(l),
        l.len() > 0,
        all_lines(l),
    ensures
        sdp_lines(encode_utf8(t)) == Ok::<Seq<Seq<char>>, Seq<char>>(l),
{
    vstd::utf8::encode_utf8_valid_utf8(t);
    vstd::utf8::encode_utf8_decode_utf8(t);
    lemma_lines(l);
    reveal_strlit("\r\n");
    assert(t.len() > 0);
    let b = encode_utf8(t);
    if b.len() == 0 {
        assert(b =~= Seq::<u8>::empty());
        assert(decode_utf8(b).len() == 0);
    }
}

proof fn lemma_speech(fs: Seq<Format>)
    requires
        forall|i: int| 0 <= i < fs.len() ==> !is_telephone_event(#[trigger] fs[i]),
    ensures
        speech(fs) == fs,
        first_event(fs) is None,
    decreases fs.len(),
{
    reveal(Seq::filter);
    if fs.len() == 0 {
        assert(speech(fs) =~= fs);
    } else {
        let d = fs.drop_last();
        assert forall|i: int| 0 <= i < d.len() implies !is_telephone_event(#[trigger] d[i]) by {
            assert(d[i] == fs[i]);
        }
        lemma_speech(d);
        assert(fs[fs.len() - 1] == fs.last());
        assert(speech(fs) =~= fs);
        let r = fs.drop_first();
        assert(!is_telephone_event(fs[0]));
        lemma_no_event(r, fs);
    }
}

proof fn lemma_no_event(r: Seq<Format>, fs: Seq<Format>)
    requires
        r.len() <= fs.len(),
        r == fs.skip(fs.len() - r.len()),
        forall|i: int| 0 <= i < fs.len() ==> !is_telephone_event(#[trigger] fs[i]),
    ensures
        first_event(r) is None,
    decreases r.len(),
{
    if r.len() > 0 {
        assert(r[0] == fs[fs.len() - r.len()]);
        assert(r.drop_first() =~= fs.skip(fs.len() - r.drop_first().len()));
        lemma_no_event(r.drop_first(), fs);
    }
}

proof fn lemma_speech_and_event(fs: Seq<Format>, ev: Format)
    requires
        forall|i: int| 0 <= i < fs.len() ==> !is_telephone_event(#[trigger] fs[i]),
        is_telephone_event(ev),
    ensures
        speech(fs.push(ev)) == fs,
        first_event(fs.push(ev)) == Some(ev),
    decreases fs.len(),
{
    reveal(Seq::filter);
    let g = fs.push(ev);
    assert(g.drop_last() =~= fs);
    assert(g.last() == ev);
    lemma_speech(fs);
    if fs.len() > 0 {
        let r = fs.drop_first();
        assert(!is_telephone_event(fs[0]));
        assert(g[0] == fs[0]);
        assert(g.drop_first() =~= r.push(ev));
        assert forall|i: int| 0 <= i < r.len() implies !is_telephone_event(#[trigger] r[i]) by {
            assert(r[i] == fs[i + 1]);
        }
        lemma_speech_and_event(r, ev);
    } else {
        assert(g[0] == ev);
    }
}

/// All that is read of the audio in a description of these formats.
proof fn lemma_audio_read(
    t: Seq<char>,
    local: SocketAddr,
    fs: Seq<Format>,
    d: MediaDirection,
    v: Seq<Seq<char>>,
)
    requires
        t == ended(described(local, fs, d) + v),
        writable_all(fs),
        all_lines(v),
        follows(v),
    ensures
        ({
            let read = audio_of(encode_utf8(t));
            &&& read is Ok
            &&& read->Ok_0.addr == local.ip.text()
            &&& read->Ok_0.addr_type == addr_type_of(local.ip)
            &&& read->Ok_0.port == local.port
            &&& read->Ok_0.formats == speech(fs)
            &&& read->Ok_0.direction == d
            &&& event_of(encode_utf8(t)) == (match first_event(fs) {
                Some(f) => Some(EventView { payload: f.payload, clock: f.clock, events: f.fmtp }),
                None => None,
            })
        }),
{
    let port = local.port as nat;
    let all = described(local, fs, d) + v;
    let m = audio_line(port, fs);
    let sec = section(port, fs, d);
    let pre = seq![m];
    lemma_described_lines(local, fs, d);
    assert forall|i: int| 0 <= i < all.len() implies one_line(#[trigger] all[i]) by {
        if i < described(local, fs, d).len() {
            assert(all[i] == described(local, fs, d)[i]);
        } else {
            assert(all[i] == v[i - described(local, fs, d).len()]);
        }
    }
    lemma_body_of(t, all);
    lemma_parts(local, fs, d, v);
    lemma_audio_line(port, fs);
    assert(sec == body(pre, fs, d));
    assert(sec[0] == m);
    lemma_formats_found(pre, fs, d, fs.len() as int);
    assert(entries(fs).take(fs.len() as int) =~= entries(fs));
    assert(fs.take(fs.len() as int) =~= fs);
    lemma_body_direction(pre, fs, d);
    lemma_head_connection(local.ip);
    lemma_section_connection(port, fs, d);
    text::number_reads_decimal(port, 65535);
    let w = words(m);
    assert(w[1] == decimal(port));
    assert(w.skip(3) =~= entries(fs));
}

proof fn lemma_section_connection(port: nat, fs: Seq<Format>, d: MediaDirection)
    requires
        forall|i: int| 0 <= i < fs.len() ==> writable(#[trigger] fs[i]),
    ensures
        connection_in(section(port, fs, d)) is None,
{
    let a = all_attrs(fs);
    let sec = section(port, fs, d);
    lemma_all_attrs(fs);
    lemma_audio_line(port, fs);
    lemma_direction_line(d);
    assert forall|i: int| 0 <= i < sec.len() implies !has_prefix(
        trimmed(#[trigger] sec[i]),
        "c=IN "@,
    ) by {
        if i == 0 {
            assert(sec[i] == audio_line(port, fs));
        } else if i < 1 + a.len() {
            assert(sec[i] == a[i - 1]);
            assert(attr_line(a[i - 1]));
            lemma_attr_line(a[i - 1]);
        } else {
            assert(sec[i] == direction_line(d));
        }
    }
    lemma_after_none(sec, "c=IN "@);
}

// ---------------------------------------------------------------------------
// The video section.

spec fn video_line(port: nat, f: Format) -> Seq<char> {
    "m=video "@ + decimal(port) + " RTP/AVP"@ + payload_list(seq![f])
}

spec fn video_front(local: SocketAddr, f: Format) -> Seq<Seq<char>> {
    seq![
        video_line(local.port as nat, f),
        "c=IN "@ + addr_type_of(local.ip).name() + " "@ + local.ip.text(),
    ]
}

proof fn lemma_single_format(f: Format)
    ensures
        all_attrs(seq![f]) == attrs(f),
        payload_list(seq![f]) == " "@ + decimal(f.payload),
        entries(seq![f]) == seq![decimal(f.payload)],
{
    assert(seq![f].drop_last() =~= Seq::<Format>::empty());
    assert(seq![f].last() == f);
    assert(all_attrs(Seq::empty()) == Seq::<Seq<char>>::empty());
    assert(payload_list(Seq::empty()) == Seq::<char>::empty());
    assert(Seq::<Seq<char>>::empty() + attrs(f) =~= attrs(f));
    assert(Seq::<char>::empty() + " "@ + decimal(f.payload) =~= " "@ + decimal(f.payload));
    assert(entries(seq![f]) =~= seq![decimal(f.payload)]);
}

proof fn lemma_video_text(local: SocketAddr, f: Format, d: MediaDirection)
    ensures
        relayed_video(f, d, local) == ended(body(video_front(local, f), seq![f], d)),
{
    let port = local.port as nat;
    let t = addr_type_of(local.ip).name();
    let a = local.ip.text();
    let n = "\r\n"@;
    let pre = video_front(local, f);
    let vm = video_line(port, f);
    let c = "c=IN "@ + t + " "@ + a;
    lemma_head_literals();
    lemma_single_format(f);
    lemma_codec_lines(f);
    lemma_ended_one(vm);
    lemma_ended_push(seq![vm], c);
    assert(pre =~= seq![vm].push(c));
    lemma_ended_concat(pre, attrs(f));
    lemma_ended_concat(pre + attrs(f), seq![direction_line(d)]);
    lemma_ended_one(direction_line(d));
    let pt = decimal(f.payload);
    let one = "m=video "@ + decimal(port) + " RTP/AVP "@ + pt;
    assert(one =~= vm);
    assert(one + "\r\nc=IN "@ + t + " "@ + a =~= vm + n + c);
    let three = vm + n + c + n + codec_lines(f);
    assert(three + ("a="@ + d.name() + n) =~= three + "a="@ + d.name() + n);
}

proof fn lemma_video_line(port: nat, f: Format)
    ensures
        ({
            let m = video_line(port, f);
            &&& words(m) == seq!["m=video"@, decimal(port), "RTP/AVP"@, decimal(f.payload)]
            &&& trimmed(m) == m
            &&& one_line(m)
            &&& m.len() > 8 && m[0] == 'm'
            &&& has_prefix(m, "m=video "@)
            &&& has_prefix(m, "m="@)
            &&& !has_prefix(m, "c=IN "@)
        }),
{
    let m = video_line(port, f);
    reveal_strlit("m=video");
    reveal_strlit("m=video ");
    reveal_strlit("m=");
    reveal_strlit(" ");
    reveal_strlit(" RTP/AVP");
    reveal_strlit("c=IN ");
    let l = payload_list(seq![f]);
    lemma_single_format(f);
    lemma_payload_words(seq![f]);
    lemma_digits(port);
    lemma_number_line(port);
    assert("m=video "@ =~= "m=video"@ + " "@);
    lemma_media_words("m=video"@, port, l);
    lemma_one_line("m=video "@, decimal(port));
    lemma_one_line("m=video "@ + decimal(port), " RTP/AVP"@);
    lemma_one_line("m=video "@ + decimal(port) + " RTP/AVP"@, l);
    assert(l.len() > 0);
    assert(m.last() == l.last());
    text::lemma_bare(m);
    assert(m.take(8) =~= "m=video "@);
    assert(m.take(2) =~= "m="@);
    lemma_no_prefix(m, "c=IN "@, 0);
    assert(words(m) =~= seq!["m=video"@, decimal(port), "RTP/AVP"@, decimal(f.payload)]);
}

proof fn lemma_video_front(local: SocketAddr, f: Format)
    ensures
        ({
            let pre = video_front(local, f);
            let c = pre[1];
            &&& no_attributes(pre)
            &&& all_lines(pre)
            &&& trimmed(c) == c
            &&& !has_prefix(c, "m="@)
            &&& c.len() > 0 && c[0] == 'c'
        }),
{
    let port = local.port as nat;
    let pre = video_front(local, f);
    let c = pre[1];
    lemma_video_line(port, f);
    lemma_head(local.ip);
    assert(c == head(local.ip)[3]);
    assert(front_line(head(local.ip)[3]));
    lemma_front_line(c);
    assert(pre[0] == video_line(port, f));
}

proof fn lemma_video_read(
    t: Seq<char>,
    before: Seq<Seq<char>>,
    local: SocketAddr,
    f: Format,
    d: MediaDirection,
)
    requires
        t == ended(before + body(video_front(local, f), seq![f], d)),
        all_lines(before),
        writable(f),
        line_with(before + body(video_front(local, f), seq![f], d), "m=video "@) == before.len()
            + line_with(body(video_front(local, f), seq![f], d), "m=video "@),
    ensures
        video_of(encode_utf8(t)) == Some(
            VideoView {
                addr: Some(local.ip.text()),
                addr_type: Some(addr_type_of(local.ip)),
                port: local.port as nat,
                format: f,
                direction: d,
            },
        ),
        all_lines(body(video_front(local, f), seq![f], d)),
        follows(body(video_front(local, f), seq![f], d)),
{
    let port = local.port as nat;
    let pre = video_front(local, f);
    let fs = seq![f];
    let v = body(pre, fs, d);
    let m = video_line(port, f);
    let a = all_attrs(fs);
    let x = direction_line(d);
    let all = before + v;
    lemma_single_format(f);
    lemma_all_attrs(fs);
    lemma_video_line(port, f);
    lemma_direction_line(d);
    lemma_connection(local.ip);
    lemma_video_front(local, f);
    let c = pre[1];
    assert(pre[0] == m);
    assert(v[0] == m);
    assert forall|i: int| 0 <= i < v.len() implies one_line(#[trigger] v[i]) by {
        if i < 2 {
            assert(v[i] == pre[i]);
        } else if i < 2 + a.len() {
            assert(v[i] == a[i - 2]);
            assert(attr_line(a[i - 2]));
        } else {
            assert(v[i] == x);
        }
    }
    assert forall|i: int| 0 <= i < all.len() implies one_line(#[trigger] all[i]) by {
        if i < before.len() {
            assert(all[i] == before[i]);
        } else {
            assert(all[i] == v[i - before.len()]);
        }
    }
    lemma_body_of(t, all);
    let rest = all.skip(before.len() as int);
    assert(rest =~= v);
    let behind = v.skip(1);
    assert forall|i: int| 0 <= i < behind.len() implies !has_prefix(#[trigger] behind[i], "m="@) by {
        if i == 0 {
            assert(behind[i] == c);
        } else if i < 1 + a.len() {
            assert(behind[i] == a[i - 1]);
            assert(attr_line(a[i - 1]));
            lemma_attr_line(a[i - 1]);
        } else {
            assert(behind[i] == x);
        }
    }
    let e = Seq::<Seq<char>>::empty();
    lemma_line_with(behind, e, "m="@);
    assert(behind + e =~= behind);
    assert(v.take(v.len() as int) =~= v);
    assert(media_part(all, "m=video "@) == v);
    lemma_format_found(pre, fs, d, 0);
    lemma_body_direction(pre, fs, d);
    text::number_reads_decimal(port, 65535);
    let w = words(m);
    assert(w[1] == decimal(port) && w[3] == decimal(f.payload));
    assert(v =~= seq![m] + v.skip(1));
    lemma_after_one(m, "c=IN "@);
    lemma_after_concat(seq![m], v.skip(1), "c=IN "@);
    assert(v.skip(1)[0] == c);
}

// ---------------------------------------------------------------------------
// The laws.

/// Speech formats and telephone events that a description can hold together.
pub open spec fn offerable(fs: Seq<Format>, event: Option<EventView>) -> bool {
    &&& writable_all(fs)
    &&& forall|i: int| 0 <= i < fs.len() ==> !is_telephone_event(#[trigger] fs[i])
    &&& event is Some ==> writable(event_format(event->0))
    &&& event is Some ==> forall|i: int|
        0 <= i < fs.len() ==> (#[trigger] fs[i]).payload != event->0.payload
}

/// The direction that one side sees where the other has this one.
pub open spec fn opposite(d: MediaDirection) -> MediaDirection {
    match d {
        MediaDirection::SendRecv => MediaDirection::SendRecv,
        MediaDirection::SendOnly => MediaDirection::RecvOnly,
        MediaDirection::RecvOnly => MediaDirection::SendOnly,
        MediaDirection::Inactive => MediaDirection::Inactive,
    }
}

spec fn listed(fs: Seq<Format>, event: Option<EventView>) -> Seq<Format> {
    match event {
        Some(e) => fs.push(event_format(e)),
        None => fs,
    }
}

proof fn lemma_listed(fs: Seq<Format>, event: Option<EventView>)
    requires
        offerable(fs, event),
    ensures
        writable_all(listed(fs, event)),
        speech(listed(fs, event)) == fs,
        first_event(listed(fs, event)) == (match event {
            Some(e) => Some(event_format(e)),
            None => None,
        }),
{
    let g = listed(fs, event);
    match event {
        Some(e) => {
            let ev = event_format(e);
            lemma_speech_and_event(fs, ev);
            assert forall|i: int| 0 <= i < g.len() implies writable(#[trigger] g[i]) by {
                if i < fs.len() {
                    assert(g[i] == fs[i]);
                } else {
                    assert(g[i] == ev);
                }
            }
            assert forall|i: int, j: int|
                0 <= i < g.len() && 0 <= j < g.len() && (#[trigger] g[i]).payload == (
                #[trigger] g[j]).payload implies g[i] == g[j] by {
                if i < fs.len() {
                    assert(g[i] == fs[i]);
                } else {
                    assert(g[i] == ev);
                }
                if j < fs.len() {
                    assert(g[j] == fs[j]);
                } else {
                    assert(g[j] == ev);
                }
            }
        },
        None => {
            lemma_speech(fs);
        },
    }
}

proof fn lemma_relayed_audio(
    fs: Seq<Format>,
    d: MediaDirection,
    event: Option<EventView>,
    local: SocketAddr,
)
    requires
        offerable(fs, event),
    ensures
        relayed_audio(fs, d, event, local) == ended(described(local, listed(fs, event), d)),
{
    lemma_audio_text(local, fs, d);
    match event {
        Some(e) => {
            lemma_with_event(local, fs, d, e);
        },
        None => {},
    }
}

/// What the relay writes of its audio is what the other side reads: the relay's own address
/// and port, the formats with their numbers, encodings and parameters, telephone events,
/// and the direction.
pub proof fn relayed_audio_is_read_back(
    fs: Seq<Format>,
    d: MediaDirection,
    event: Option<EventView>,
    local: SocketAddr,
)
    requires
        offerable(fs, event),
    ensures
        ({
            let body = encode_utf8(relayed_audio(fs, d, event, local));
            let read = audio_of(body);
            &&& read is Ok
            &&& read->Ok_0.addr == local.ip.text()
            &&& read->Ok_0.addr_type is Ip6 <==> local.ip.is_ipv6()
            &&& read->Ok_0.port == local.port
            &&& read->Ok_0.formats == fs
            &&& read->Ok_0.direction == d
            &&& event_of(body) == event
        }),
{
    let g = listed(fs, event);
    let e = Seq::<Seq<char>>::empty();
    lemma_listed(fs, event);
    lemma_relayed_audio(fs, d, event, local);
    assert(described(local, g, d) + e =~= described(local, g, d));
    lemma_audio_read(relayed_audio(fs, d, event, local), local, g, d, e);
}

/// A video section behind the audio is read as it was meant, at its own address and port,
/// and leaves the audio as it is.
pub proof fn relayed_video_is_read_back(
    fs: Seq<Format>,
    d: MediaDirection,
    event: Option<EventView>,
    local: SocketAddr,
    f: Format,
    video_direction: MediaDirection,
    video_local: SocketAddr,
)
    requires
        offerable(fs, event),
        writable(f),
    ensures
        ({
            let audio = relayed_audio(fs, d, event, local);
            let both = encode_utf8(audio + relayed_video(f, video_direction, video_local));
            let read = video_of(both);
            &&& audio_of(both) == audio_of(encode_utf8(audio))
            &&& event_of(both) == event
            &&& read is Some
            &&& read->0.addr == Some(video_local.ip.text())
            &&& read->0.addr_type == Some(
                if video_local.ip.is_ipv6() {
                    SdpAddrType::Ip6
                } else {
                    SdpAddrType::Ip4
                },
            )
            &&& read->0.port == video_local.port
            &&& read->0.format == f
            &&& read->0.direction == video_direction
            &&& video_of(encode_utf8(audio)) is None
        }),
{
    let g = listed(fs, event);
    let audio = described(local, g, d);
    let v = body(video_front(video_local, f), seq![f], video_direction);
    let alone = relayed_audio(fs, d, event, local);
    let text = alone + relayed_video(f, video_direction, video_local);
    lemma_listed(fs, event);
    lemma_relayed_audio(fs, d, event, local);
    lemma_described_lines(local, g, d);
    lemma_video_text(video_local, f, video_direction);
    lemma_ended_concat(audio, v);
    lemma_video_line(video_local.port as nat, f);
    assert(v[0] == video_line(video_local.port as nat, f));
    lemma_parts(local, g, d, v);
    lemma_video_read(text, audio, video_local, f, video_direction);
    lemma_audio_read(text, local, g, d, v);
    let e = Seq::<Seq<char>>::empty();
    assert(audio + e =~= audio);
    lemma_audio_read(alone, local, g, d, e);
    audio_alone_holds_no_video(fs, d, event, local);
}

/// Audio without a video section behind it holds no video.
pub proof fn audio_alone_holds_no_video(
    fs: Seq<Format>,
    d: MediaDirection,
    event: Option<EventView>,
    local: SocketAddr,
)
    requires
        offerable(fs, event),
    ensures
        video_of(encode_utf8(relayed_audio(fs, d, event, local))) is None,
{
    let g = listed(fs, event);
    let audio = described(local, g, d);
    let e = Seq::<Seq<char>>::empty();
    lemma_listed(fs, event);
    lemma_relayed_audio(fs, d, event, local);
    lemma_described_lines(local, g, d);
    assert(audio + e =~= audio);
    lemma_parts(local, g, d, e);
    lemma_body_of(relayed_audio(fs, d, event, local), audio);
    assert(line_with(e, "m=video "@) == 0);
    assert(audio.skip(audio.len() as int).len() == 0);
}

/// What the relay offers in place of one side is what the other side reads: audio and video
/// at the relay's own endpoints, in the formats of the offer, each direction seen from the
/// other side. Without a video in the offer, or an endpoint for it, there is none.
pub proof fn relayed_offer_is_read_back(
    offer: OfferView,
    audio_local: SocketAddr,
    video_local: Option<SocketAddr>,
)
    requires
        offerable(offer.audio.formats, offer.event),
        offer.video is Some ==> writable(offer.video->0.description.format),
    ensures
        ({
            let body = encode_utf8(relayed_offer(offer, audio_local, video_local));
            let audio = audio_of(body);
            let video = video_of(body);
            &&& audio is Ok
            &&& audio->Ok_0.addr == audio_local.ip.text()
            &&& audio->Ok_0.addr_type is Ip6 <==> audio_local.ip.is_ipv6()
            &&& audio->Ok_0.port == audio_local.port
            &&& audio->Ok_0.formats == offer.audio.formats
            &&& audio->Ok_0.direction == opposite(offer.audio.direction)
            &&& event_of(body) == offer.event
            &&& video is Some <==> offer.video is Some && video_local is Some
            &&& video is Some ==> {
                &&& video->0.addr == Some(video_local->0.ip.text())
                &&& video->0.addr_type == Some(
                    if video_local->0.ip.is_ipv6() {
                        SdpAddrType::Ip6
                    } else {
                        SdpAddrType::Ip4
                    },
                )
                &&& video->0.port == video_local->0.port
                &&& video->0.format == offer.video->0.description.format
                &&& video->0.direction == opposite(offer.video->0.description.direction)
            }
        }),
{
    let fs = offer.audio.formats;
    let d = opposite(offer.audio.direction);
    relayed_audio_is_read_back(fs, d, offer.event, audio_local);
    audio_alone_holds_no_video(fs, d, offer.event, audio_local);
    if offer.video is Some && video_local is Some {
        relayed_video_is_read_back(
            fs,
            d,
            offer.event,
            audio_local,
            offer.video->0.description.format,
            opposite(offer.video->0.description.direction),
            video_local->0,
        );
    }
}

} // verus!
