//! Session descriptions: what an audio or video offer says, and the text of the
//! descriptions that the RTP relay advertises in its place.

use vstd::prelude::*;
use vstd::string::*;

use crate::errors::{failure, ErrorView, VolteError};
use crate::ip::{address_of, parse_ip, IpAddr, SocketAddr};
use crate::sip;
use crate::sip::first_after_prefix;
use crate::text;
use crate::text::{
    decimal, has_prefix, lines_of, number, opt, pieces, same_folded, texts, trimmed, words,
};

pub mod written;

verus! {

#[derive(Debug, Clone, Copy, PartialEq, Eq, Structural)]
pub enum SdpAddrType {
    Ip4,
    Ip6,
}

impl SdpAddrType {
    pub open spec fn name(self) -> Seq<char> {
        match self {
            SdpAddrType::Ip4 => "IP4"@,
            SdpAddrType::Ip6 => "IP6"@,
        }
    }

    pub fn as_str(self) -> (r: &'static str)
        ensures
            r@ == self.name(),
    {
        match self {
            SdpAddrType::Ip4 => "IP4",
            SdpAddrType::Ip6 => "IP6",
        }
    }

    /// The address type of an endpoint.
    pub fn of(addr: IpAddr) -> (r: Self)
        ensures
            r == addr_type_of(addr),
    {
        if addr.is_ipv4() {
            SdpAddrType::Ip4
        } else {
            SdpAddrType::Ip6
        }
    }
}

pub open spec fn addr_type_of(addr: IpAddr) -> SdpAddrType {
    if addr.is_ipv6() {
        SdpAddrType::Ip6
    } else {
        SdpAddrType::Ip4
    }
}

#[derive(Debug, Clone, Copy, PartialEq, Eq, Structural)]
pub enum MediaDirection {
    SendRecv,
    SendOnly,
    RecvOnly,
    Inactive,
}

impl MediaDirection {
    pub open spec fn name(self) -> Seq<char> {
        match self {
            MediaDirection::SendRecv => "sendrecv"@,
            MediaDirection::SendOnly => "sendonly"@,
            MediaDirection::RecvOnly => "recvonly"@,
            MediaDirection::Inactive => "inactive"@,
        }
    }

    pub open spec fn peer(self) -> MediaDirection {
        match self {
            MediaDirection::SendOnly => MediaDirection::RecvOnly,
            MediaDirection::RecvOnly => MediaDirection::SendOnly,
            other => other,
        }
    }

    pub fn as_str(self) -> (r: &'static str)
        ensures
            r@ == self.name(),
    {
        match self {
            MediaDirection::SendRecv => "sendrecv",
            MediaDirection::SendOnly => "sendonly",
            MediaDirection::RecvOnly => "recvonly",
            MediaDirection::Inactive => "inactive",
        }
    }

    /// The direction as the other side of the relay sees it.
    pub fn for_peer(self) -> (r: Self)
        ensures
            r == self.peer(),
    {
        match self {
            MediaDirection::SendOnly => MediaDirection::RecvOnly,
            MediaDirection::RecvOnly => MediaDirection::SendOnly,
            other => other,
        }
    }
}

/// Turning a direction round twice gives it back.
pub proof fn peer_of_peer(direction: MediaDirection)
    ensures
        direction.peer().peer() == direction,
{
}

/// One audio format of an offer.
#[derive(Debug, PartialEq, Eq)]
pub struct AudioCodec {
    pub payload_type: u8,
    pub name: String,
    pub clock_rate: u32,
    pub fmtp: Option<String>,
}

impl Clone for AudioCodec {
    fn clone(&self) -> (r: Self)
        ensures
            r == *self,
    {
        AudioCodec {
            payload_type: self.payload_type,
            name: self.name.clone(),
            clock_rate: self.clock_rate,
            fmtp: self.fmtp.clone(),
        }
    }
}

/// The audio part of a session description.
#[derive(Debug, PartialEq, Eq)]
pub struct SdpAudioDescription {
    pub connection_addr: String,
    pub addr_type: SdpAddrType,
    pub media_port: u16,
    pub codecs: Vec<AudioCodec>,
    pub direction: MediaDirection,
}

/// The video part of a session description; it may carry an address of its own.
#[derive(Debug, PartialEq, Eq)]
pub struct VideoMediaDescription {
    pub connection_addr: Option<String>,
    pub addr_type: Option<SdpAddrType>,
    pub media_port: u16,
    pub payload_type: u8,
    pub codec: String,
    pub clock_rate: u32,
    pub fmtp: Option<String>,
    pub direction: MediaDirection,
}

impl Clone for VideoMediaDescription {
    fn clone(&self) -> (r: Self)
        ensures
            r == *self,
    {
        VideoMediaDescription {
            connection_addr: self.connection_addr.clone(),
            addr_type: self.addr_type,
            media_port: self.media_port,
            payload_type: self.payload_type,
            codec: self.codec.clone(),
            clock_rate: self.clock_rate,
            fmtp: self.fmtp.clone(),
            direction: self.direction,
        }
    }
}

/// The RTP telephone-event format of an offer.
#[derive(Debug, PartialEq, Eq)]
pub struct RtpTelephoneEvent {
    pub payload_type: u8,
    pub clock_rate: u32,
    pub events: Option<String>,
}

impl Clone for RtpTelephoneEvent {
    fn clone(&self) -> (r: Self)
        ensures
            r == *self,
    {
        RtpTelephoneEvent {
            payload_type: self.payload_type,
            clock_rate: self.clock_rate,
            events: self.events.clone(),
        }
    }
}

/// How a side prefers to carry DTMF.
#[derive(Debug, Clone, Copy, PartialEq, Eq, Structural)]
pub enum DtmfSource {
    RtpEvent,
    SipInfo,
}

#[derive(Debug, PartialEq, Eq)]
pub struct DtmfCapabilities {
    pub rtp_event: Option<RtpTelephoneEvent>,
    pub sip_info: bool,
    pub preferred: DtmfSource,
}

#[derive(Debug, PartialEq, Eq)]
pub struct VideoOffer {
    pub description: VideoMediaDescription,
    pub endpoint: SocketAddr,
}

/// What one side of a call offers.
#[derive(Debug, PartialEq, Eq)]
pub struct MediaOffer {
    pub audio: SdpAudioDescription,
    pub audio_endpoint: SocketAddr,
    pub video: Option<VideoOffer>,
    pub dtmf: DtmfCapabilities,
}

/// What is said of one format.
pub struct Format {
    pub payload: nat,
    pub name: Seq<char>,
    pub clock: nat,
    pub fmtp: Option<Seq<char>>,
}

pub open spec fn codec_format(c: AudioCodec) -> Format {
    Format {
        payload: c.payload_type as nat,
        name: c.name@,
        clock: c.clock_rate as nat,
        fmtp: opt(c.fmtp),
    }
}

pub open spec fn codec_formats(c: Seq<AudioCodec>) -> Seq<Format> {
    Seq::new(c.len(), |i: int| codec_format(c[i]))
}

/// What is said of an audio description.
pub struct AudioView {
    pub addr: Seq<char>,
    pub addr_type: SdpAddrType,
    pub port: nat,
    pub formats: Seq<Format>,
    pub direction: MediaDirection,
}

impl View for SdpAudioDescription {
    type V = AudioView;

    open spec fn view(&self) -> AudioView {
        AudioView {
            addr: self.connection_addr@,
            addr_type: self.addr_type,
            port: self.media_port as nat,
            formats: codec_formats(self.codecs@),
            direction: self.direction,
        }
    }
}

/// What is said of a video section.
pub struct VideoView {
    pub addr: Option<Seq<char>>,
    pub addr_type: Option<SdpAddrType>,
    pub port: nat,
    pub format: Format,
    pub direction: MediaDirection,
}

impl View for VideoMediaDescription {
    type V = VideoView;

    open spec fn view(&self) -> VideoView {
        VideoView {
            addr: opt(self.connection_addr),
            addr_type: self.addr_type,
            port: self.media_port as nat,
            format: Format {
                payload: self.payload_type as nat,
                name: self.codec@,
                clock: self.clock_rate as nat,
                fmtp: opt(self.fmtp),
            },
            direction: self.direction,
        }
    }
}

/// What is said of telephone events.
pub struct EventView {
    pub payload: nat,
    pub clock: nat,
    pub events: Option<Seq<char>>,
}

impl View for RtpTelephoneEvent {
    type V = EventView;

    open spec fn view(&self) -> EventView {
        EventView {
            payload: self.payload_type as nat,
            clock: self.clock_rate as nat,
            events: opt(self.events),
        }
    }
}

/// What is said of telephone events, where they are offered.
pub open spec fn opt_event(event: Option<RtpTelephoneEvent>) -> Option<EventView> {
    match event {
        Some(e) => Some(e@),
        None => None,
    }
}

/// What is said of an offered video.
pub struct VideoOfferView {
    pub description: VideoView,
    pub endpoint: SocketAddr,
}

/// What one side of a call is known to offer.
pub struct OfferView {
    pub audio: AudioView,
    pub audio_endpoint: SocketAddr,
    pub video: Option<VideoOfferView>,
    pub event: Option<EventView>,
    pub sip_info: bool,
    pub preferred: DtmfSource,
}

impl View for MediaOffer {
    type V = OfferView;

    open spec fn view(&self) -> OfferView {
        OfferView {
            audio: self.audio@,
            audio_endpoint: self.audio_endpoint,
            video: match self.video {
                Some(video) => Some(
                    VideoOfferView { description: video.description@, endpoint: video.endpoint },
                ),
                None => None,
            },
            event: opt_event(self.dtmf.rtp_event),
            sip_info: self.dtmf.sip_info,
            preferred: self.dtmf.preferred,
        }
    }
}

impl Clone for SdpAudioDescription {
    fn clone(&self) -> (r: Self)
        ensures
            r@ == self@,
    {
        let mut codecs: Vec<AudioCodec> = Vec::new();
        let mut i: usize = 0;
        while i < self.codecs.len()
            invariant
                i <= self.codecs@.len(),
                codecs@ == self.codecs@.take(i as int),
            decreases self.codecs@.len() - i,
        {
            codecs.push(self.codecs[i].clone());
            i += 1;
            proof {
                assert(codecs@ =~= self.codecs@.take(i as int));
            }
        }
        proof {
            assert(codecs@ =~= self.codecs@);
        }
        SdpAudioDescription {
            connection_addr: self.connection_addr.clone(),
            addr_type: self.addr_type,
            media_port: self.media_port,
            codecs,
            direction: self.direction,
        }
    }
}

impl Clone for MediaOffer {
    fn clone(&self) -> (r: Self)
        ensures
            r@ == self@,
    {
        MediaOffer {
            audio: self.audio.clone(),
            audio_endpoint: self.audio_endpoint,
            video: match &self.video {
                Some(video) => Some(
                    VideoOffer { description: video.description.clone(), endpoint: video.endpoint },
                ),
                None => None,
            },
            dtmf: DtmfCapabilities {
                rtp_event: match &self.dtmf.rtp_event {
                    Some(event) => Some(event.clone()),
                    None => None,
                },
                sip_info: self.dtmf.sip_info,
                preferred: self.dtmf.preferred,
            },
        }
    }
}

// ---------------------------------------------------------------------------
// Text of a description.

pub open spec fn codec_lines(c: Format) -> Seq<char> {
    let pt = decimal(c.payload);
    let map = "a=rtpmap:"@ + pt + " "@ + c.name + "/"@ + decimal(c.clock) + "\r\n"@;
    match c.fmtp {
        Some(fmtp) => map + ("a=fmtp:"@ + pt + " "@ + fmtp + "\r\n"@),
        None => map,
    }
}

/// The payload numbers of the formats, each with a space in front.
pub open spec fn payload_list(codecs: Seq<Format>) -> Seq<char>
    decreases codecs.len(),
{
    if codecs.len() == 0 {
        Seq::empty()
    } else {
        payload_list(codecs.drop_last()) + " "@ + decimal(codecs.last().payload)
    }
}

pub open spec fn all_codec_lines(codecs: Seq<Format>) -> Seq<char>
    decreases codecs.len(),
{
    if codecs.len() == 0 {
        Seq::empty()
    } else {
        all_codec_lines(codecs.drop_last()) + codec_lines(codecs.last())
    }
}

/// An audio session description as it goes on the wire.
pub open spec fn audio_text(
    addr: Seq<char>,
    addr_type: SdpAddrType,
    port: nat,
    codecs: Seq<Format>,
    direction: MediaDirection,
) -> Seq<char> {
    "v=0\r\no=- 0 0 IN "@ + addr_type.name() + " "@ + addr + "\r\ns=-\r\nc=IN "@ + addr_type.name()
        + " "@ + addr + "\r\nt=0 0\r\nm=audio "@ + decimal(port) + " RTP/AVP"@ + payload_list(codecs)
        + "\r\n"@ + all_codec_lines(codecs) + "a="@ + direction.name() + "\r\n"@
}

/// A video section as it goes on the wire.
pub open spec fn video_text(
    format: Format,
    addr_type: SdpAddrType,
    addr: Seq<char>,
    port: nat,
    direction: MediaDirection,
) -> Seq<char> {
    let pt = decimal(format.payload);
    "m=video "@ + decimal(port) + " RTP/AVP "@ + pt + "\r\nc=IN "@ + addr_type.name() + " "@ + addr
        + "\r\n"@ + codec_lines(format) + "a="@ + direction.name() + "\r\n"@
}

fn push_number(out: &mut String, n: u64)
    ensures
        final(out)@ == old(out)@ + decimal(n as nat),
{
    let digits = text::decimal_string(n);
    out.append(digits.as_str());
}

fn audio_string(
    addr: &str,
    addr_type: SdpAddrType,
    port: u16,
    codecs: &[AudioCodec],
    direction: MediaDirection,
) -> (r: String)
    ensures
        r@ == audio_text(addr@, addr_type, port as nat, codec_formats(codecs@), direction),
{
    let mut out = "v=0\r\no=- 0 0 IN ".to_string();
    out.append(addr_type.as_str());
    out.append(" ");
    out.append(addr);
    out.append("\r\ns=-\r\nc=IN ");
    out.append(addr_type.as_str());
    out.append(" ");
    out.append(addr);
    out.append("\r\nt=0 0\r\nm=audio ");
    push_number(&mut out, port as u64);
    out.append(" RTP/AVP");
    let payloads = payload_string(codecs);
    out.append(payloads.as_str());
    out.append("\r\n");
    let formats = codec_string(codecs);
    out.append(formats.as_str());
    out.append("a=");
    out.append(direction.as_str());
    out.append("\r\n");
    out
}

fn payload_string(codecs: &[AudioCodec]) -> (r: String)
    ensures
        r@ == payload_list(codec_formats(codecs@)),
{
    let mut out = String::new();
    let mut i: usize = 0;
    proof {
        assert(codec_formats(codecs@).take(0) =~= Seq::<Format>::empty());
    }
    while i < codecs.len()
        invariant
            i <= codecs@.len(),
            out@ == payload_list(codec_formats(codecs@).take(i as int)),
        decreases codecs@.len() - i,
    {
        proof {
            let all = codec_formats(codecs@);
            assert(all.take(i as int + 1).drop_last() =~= all.take(i as int));
        }
        out.append(" ");
        push_number(&mut out, codecs[i].payload_type as u64);
        i += 1;
    }
    proof {
        assert(codec_formats(codecs@).take(codecs@.len() as int) =~= codec_formats(codecs@));
    }
    out
}

fn codec_string(codecs: &[AudioCodec]) -> (r: String)
    ensures
        r@ == all_codec_lines(codec_formats(codecs@)),
{
    let mut out = String::new();
    let mut i: usize = 0;
    proof {
        assert(codec_formats(codecs@).take(0) =~= Seq::<Format>::empty());
    }
    while i < codecs.len()
        invariant
            i <= codecs@.len(),
            out@ == all_codec_lines(codec_formats(codecs@).take(i as int)),
        decreases codecs@.len() - i,
    {
        proof {
            let all = codec_formats(codecs@);
            assert(all.take(i as int + 1).drop_last() =~= all.take(i as int));
        }
        let lines = one_codec_string(&codecs[i]);
        out.append(lines.as_str());
        i += 1;
    }
    proof {
        assert(codec_formats(codecs@).take(codecs@.len() as int) =~= codec_formats(codecs@));
    }
    out
}

fn one_codec_string(codec: &AudioCodec) -> (r: String)
    ensures
        r@ == codec_lines(codec_format(*codec)),
{
    format_string(codec.payload_type, codec.name.as_str(), codec.clock_rate, &codec.fmtp)
}

fn format_string(payload: u8, name: &str, clock: u32, fmtp: &Option<String>) -> (r: String)
    ensures
        r@ == codec_lines(
            Format { payload: payload as nat, name: name@, clock: clock as nat, fmtp: opt(*fmtp) },
        ),
{
    let mut map = "a=rtpmap:".to_string();
    push_number(&mut map, payload as u64);
    map.append(" ");
    map.append(name);
    map.append("/");
    push_number(&mut map, clock as u64);
    map.append("\r\n");
    if let Some(fmtp) = fmtp {
        let mut line = "a=fmtp:".to_string();
        push_number(&mut line, payload as u64);
        line.append(" ");
        line.append(fmtp.as_str());
        line.append("\r\n");
        map.append(line.as_str());
    }
    map
}

fn video_string(
    v: &VideoMediaDescription,
    addr_type: SdpAddrType,
    addr: &str,
    port: u16,
    direction: MediaDirection,
) -> (r: String)
    ensures
        r@ == video_text(v@.format, addr_type, addr@, port as nat, direction),
{
    let mut out = "m=video ".to_string();
    push_number(&mut out, port as u64);
    out.append(" RTP/AVP ");
    push_number(&mut out, v.payload_type as u64);
    out.append("\r\nc=IN ");
    out.append(addr_type.as_str());
    out.append(" ");
    out.append(addr);
    out.append("\r\n");
    let format = format_string(v.payload_type, v.codec.as_str(), v.clock_rate, &v.fmtp);
    out.append(format.as_str());
    out.append("a=");
    out.append(direction.as_str());
    out.append("\r\n");
    out
}

// ---------------------------------------------------------------------------
// Relayed descriptions.

/// The two attribute lines that advertise telephone events.
pub open spec fn dtmf_lines(dtmf: EventView) -> Seq<char> {
    let pt = decimal(dtmf.payload);
    let map = "a=rtpmap:"@ + pt + " telephone-event/"@ + decimal(dtmf.clock) + "\r\n"@;
    match dtmf.events {
        Some(events) => map + ("a=fmtp:"@ + pt + " "@ + events + "\r\n"@),
        None => map,
    }
}

pub open spec fn is_direction_line(line: Seq<char>) -> bool {
    has_prefix(line, "a=send"@) || line == "a=recvonly"@ || line == "a=inactive"@
}

/// One line of a description that also advertises telephone events: the audio
/// line lists the format; its attributes come right before the direction.
pub open spec fn line_with_dtmf(line: Seq<char>, dtmf: EventView) -> Seq<char> {
    if has_prefix(line, "m=audio "@) {
        line + " "@ + decimal(dtmf.payload) + "\r\n"@
    } else if is_direction_line(line) {
        dtmf_lines(dtmf) + line + "\r\n"@
    } else {
        line + "\r\n"@
    }
}

pub open spec fn lines_with_dtmf(lines: Seq<Seq<char>>, dtmf: EventView) -> Seq<char>
    decreases lines.len(),
{
    if lines.len() == 0 {
        Seq::empty()
    } else {
        lines_with_dtmf(lines.drop_last(), dtmf) + line_with_dtmf(lines.last(), dtmf)
    }
}

/// A description with telephone events advertised in it.
pub open spec fn with_dtmf(base: Seq<char>, dtmf: Option<EventView>) -> Seq<char> {
    match dtmf {
        Some(dtmf) => lines_with_dtmf(lines_of(base), dtmf),
        None => base,
    }
}

/// The description of `audio` with the relay's own endpoint in place of the
/// peer's, these formats, and the direction given.
pub open spec fn relayed_audio(
    codecs: Seq<Format>,
    direction: MediaDirection,
    dtmf: Option<EventView>,
    local: SocketAddr,
) -> Seq<char> {
    with_dtmf(
        audio_text(
            local.ip.text(),
            addr_type_of(local.ip),
            local.port as nat,
            codecs,
            direction,
        ),
        dtmf,
    )
}

/// The video section with the relay's own endpoint in place of the peer's.
pub open spec fn relayed_video(
    format: Format,
    direction: MediaDirection,
    local: SocketAddr,
) -> Seq<char> {
    video_text(format, addr_type_of(local.ip), local.ip.text(), local.port as nat, direction)
}

/// What the relay offers to the other side in place of `offer`.
pub open spec fn relayed_offer(
    offer: OfferView,
    audio_local: SocketAddr,
    video_local: Option<SocketAddr>,
) -> Seq<char> {
    let audio = relayed_audio(
        offer.audio.formats,
        offer.audio.direction.peer(),
        offer.event,
        audio_local,
    );
    match (offer.video, video_local) {
        (Some(video), Some(local)) => audio + relayed_video(
            video.description.format,
            video.description.direction.peer(),
            local,
        ),
        _ => audio,
    }
}

fn dtmf_string(dtmf: &RtpTelephoneEvent) -> (r: String)
    ensures
        r@ == dtmf_lines(dtmf@),
{
    let mut map = "a=rtpmap:".to_string();
    push_number(&mut map, dtmf.payload_type as u64);
    map.append(" telephone-event/");
    push_number(&mut map, dtmf.clock_rate as u64);
    map.append("\r\n");
    if let Some(events) = &dtmf.events {
        let mut line = "a=fmtp:".to_string();
        push_number(&mut line, dtmf.payload_type as u64);
        line.append(" ");
        line.append(events.as_str());
        line.append("\r\n");
        map.append(line.as_str());
    }
    map
}

/// Advertises telephone events in a description.
pub fn advertise_dtmf(base: &str, dtmf: &RtpTelephoneEvent) -> (r: String)
    ensures
        r@ == with_dtmf(base@, Some(dtmf@)),
{
    let lines = text::lines(base);
    let ghost all = texts(lines@);
    let mut out = String::new();
    let mut i: usize = 0;
    proof {
        assert(all.take(0) =~= Seq::<Seq<char>>::empty());
    }
    while i < lines.len()
        invariant
            i <= lines@.len(),
            all == texts(lines@),
            out@ == lines_with_dtmf(all.take(i as int), dtmf@),
        decreases lines@.len() - i,
    {
        let line = lines[i].as_str();
        proof {
            assert(all.take(i as int + 1).drop_last() =~= all.take(i as int));
            assert(all.take(i as int + 1).last() == line@);
        }
        let mut piece = String::new();
        if text::starts_with(line, "m=audio ") {
            piece = line.to_string();
            piece.append(" ");
            push_number(&mut piece, dtmf.payload_type as u64);
            piece.append("\r\n");
        } else {
            if text::starts_with(line, "a=send") || text::same(line, "a=recvonly") || text::same(
                line,
                "a=inactive",
            ) {
                piece = dtmf_string(dtmf);
                piece.append(line);
            } else {
                piece = line.to_string();
            }
            piece.append("\r\n");
        }
        out.append(piece.as_str());
        i += 1;
    }
    proof {
        assert(all.take(all.len() as int) =~= all);
    }
    out
}

/// The audio description with these formats that the relay advertises at `local`.
pub fn relay_formats_sdp(
    codecs: &[AudioCodec],
    direction: MediaDirection,
    dtmf: Option<&RtpTelephoneEvent>,
    local: SocketAddr,
) -> (r: String)
    ensures
        r@ == relayed_audio(
            codec_formats(codecs@),
            direction,
            match dtmf {
                Some(d) => Some(d@),
                None => None,
            },
            local,
        ),
{
    let addr = local.ip.to_string();
    let base = audio_string(
        addr.as_str(),
        SdpAddrType::of(local.ip),
        local.port,
        codecs,
        direction,
    );
    match dtmf {
        Some(dtmf) => advertise_dtmf(base.as_str(), dtmf),
        None => base,
    }
}

/// `description` with the relay's own endpoint `local` in place of its own.
pub fn relay_audio_sdp(
    description: &SdpAudioDescription,
    dtmf: Option<&RtpTelephoneEvent>,
    local: SocketAddr,
) -> (r: String)
    ensures
        r@ == relayed_audio(
            description@.formats,
            description.direction,
            match dtmf {
                Some(d) => Some(d@),
                None => None,
            },
            local,
        ),
{
    relay_formats_sdp(description.codecs.as_slice(), description.direction, dtmf, local)
}

/// The video section that the relay advertises at `local`.
pub fn relay_video_sdp(
    video: &VideoMediaDescription,
    direction: MediaDirection,
    local: SocketAddr,
) -> (r: String)
    ensures
        r@ == relayed_video(video@.format, direction, local),
{
    let addr = local.ip.to_string();
    video_string(video, SdpAddrType::of(local.ip), addr.as_str(), local.port, direction)
}

/// What the relay offers to the other side in place of `offer`.
pub fn relay_media_sdp(
    offer: &MediaOffer,
    audio_local: SocketAddr,
    video_local: Option<SocketAddr>,
) -> (r: String)
    ensures
        r@ == relayed_offer(offer@, audio_local, video_local),
{
    let dtmf = match &offer.dtmf.rtp_event {
        Some(event) => Some(event),
        None => None,
    };
    let mut output = relay_formats_sdp(
        offer.audio.codecs.as_slice(),
        offer.audio.direction.for_peer(),
        dtmf,
        audio_local,
    );
    if let Some(video) = &offer.video {
        if let Some(local) = video_local {
            let section = relay_video_sdp(
                &video.description,
                video.description.direction.for_peer(),
                local,
            );
            output.append(section.as_str());
        }
    }
    output
}

// ---------------------------------------------------------------------------
// Reading a description.

/// Where the first line with `prefix` stands, or the number of lines.
pub open spec fn line_with(lines: Seq<Seq<char>>, prefix: Seq<char>) -> int
    decreases lines.len(),
{
    if lines.len() == 0 || has_prefix(lines[0], prefix) {
        0
    } else {
        1 + line_with(lines.drop_first(), prefix)
    }
}

/// The lines that stand before the first media line.
pub open spec fn session_part(lines: Seq<Seq<char>>) -> Seq<Seq<char>> {
    lines.take(line_with(lines, "m="@))
}

/// The media line that begins with `media` and the attributes that belong to it.
pub open spec fn media_part(lines: Seq<Seq<char>>, media: Seq<char>) -> Seq<Seq<char>> {
    let rest = lines.skip(line_with(lines, media));
    if rest.len() == 0 {
        rest
    } else {
        rest.take(1 + line_with(rest.skip(1), "m="@))
    }
}

/// The address type and address of a connection line behind `c=IN `.
pub open spec fn connection_of(rest: Seq<char>) -> Option<(SdpAddrType, Seq<char>)> {
    let w = words(rest);
    if w.len() >= 2 && w[0] == "IP4"@ {
        Some((SdpAddrType::Ip4, w[1]))
    } else if w.len() >= 2 && w[0] == "IP6"@ {
        Some((SdpAddrType::Ip6, w[1]))
    } else {
        None
    }
}

pub open spec fn connection_in(lines: Seq<Seq<char>>) -> Option<(SdpAddrType, Seq<char>)> {
    match first_after_prefix(lines, "c=IN "@) {
        Some(rest) => connection_of(rest),
        None => None,
    }
}

pub open spec fn direction_named(line: Seq<char>) -> Option<MediaDirection> {
    if line == "a=sendrecv"@ {
        Some(MediaDirection::SendRecv)
    } else if line == "a=sendonly"@ {
        Some(MediaDirection::SendOnly)
    } else if line == "a=recvonly"@ {
        Some(MediaDirection::RecvOnly)
    } else if line == "a=inactive"@ {
        Some(MediaDirection::Inactive)
    } else {
        None
    }
}

/// The direction that the first direction line names.
pub open spec fn direction_in(lines: Seq<Seq<char>>) -> Option<MediaDirection>
    decreases lines.len(),
{
    if lines.len() == 0 {
        None
    } else {
        match direction_named(trimmed(lines[0])) {
            Some(direction) => Some(direction),
            None => direction_in(lines.drop_first()),
        }
    }
}

/// The direction of a section: its own, or the session's, or both ways.
pub open spec fn direction_for(
    section: Seq<Seq<char>>,
    session: Seq<Seq<char>>,
) -> MediaDirection {
    match direction_in(section) {
        Some(direction) => direction,
        None => match direction_in(session) {
            Some(direction) => direction,
            None => MediaDirection::SendRecv,
        },
    }
}

/// The encoding name and clock rate that `name/rate` writes.
pub open spec fn encoding_of(rest: Seq<char>) -> Option<(Seq<char>, nat)> {
    let p = pieces(trimmed(rest), '/');
    if p.len() >= 2 && number(p[1], 0xffff_ffff) is Some {
        Some((p[0], number(p[1], 0xffff_ffff)->0))
    } else {
        None
    }
}

/// The encoding that a payload number has without being mapped.
pub open spec fn static_encoding(payload: nat) -> Option<(Seq<char>, nat)> {
    if payload == 0 {
        Some(("PCMU"@, 8000))
    } else if payload == 3 {
        Some(("GSM"@, 8000))
    } else if payload == 8 {
        Some(("PCMA"@, 8000))
    } else if payload == 9 {
        Some(("G722"@, 8000))
    } else if payload == 18 {
        Some(("G729"@, 8000))
    } else {
        None
    }
}

/// The encoding of a payload number in a section.
pub open spec fn encoding_in(section: Seq<Seq<char>>, payload: nat) -> Option<(Seq<char>, nat)> {
    match first_after_prefix(section, "a=rtpmap:"@ + decimal(payload) + " "@) {
        Some(rest) => encoding_of(rest),
        None => static_encoding(payload),
    }
}

pub open spec fn fmtp_in(section: Seq<Seq<char>>, payload: nat) -> Option<Seq<char>> {
    first_after_prefix(section, "a=fmtp:"@ + decimal(payload) + " "@)
}

/// The format behind one entry of the media line.
pub open spec fn format_in(section: Seq<Seq<char>>, entry: Seq<char>) -> Option<Format> {
    match number(entry, 255) {
        Some(payload) => match encoding_in(section, payload) {
            Some((name, clock)) => Some(
                Format { payload, name, clock, fmtp: fmtp_in(section, payload) },
            ),
            None => None,
        },
        None => None,
    }
}

/// The formats behind the entries of the media line; an entry without a known
/// encoding is passed over.
pub open spec fn formats_in(section: Seq<Seq<char>>, entries: Seq<Seq<char>>) -> Seq<Format>
    decreases entries.len(),
{
    if entries.len() == 0 {
        Seq::empty()
    } else {
        let front = formats_in(section, entries.drop_last());
        match format_in(section, entries.last()) {
            Some(format) => front.push(format),
            None => front,
        }
    }
}

pub open spec fn is_telephone_event(format: Format) -> bool {
    same_folded(format.name, "telephone-event"@)
}

/// The formats that carry speech.
pub open spec fn speech(formats: Seq<Format>) -> Seq<Format> {
    formats.filter(|f: Format| !is_telephone_event(f))
}

/// The first telephone-event format.
pub open spec fn first_event(formats: Seq<Format>) -> Option<Format>
    decreases formats.len(),
{
    if formats.len() == 0 {
        None
    } else if is_telephone_event(formats[0]) {
        Some(formats[0])
    } else {
        first_event(formats.drop_first())
    }
}

/// The text of a body, or why it cannot be read.
pub open spec fn sdp_lines(body: Seq<u8>) -> Result<Seq<Seq<char>>, Seq<char>> {
    if body.len() == 0 {
        Err("voice_sdp_empty"@)
    } else if !vstd::utf8::valid_utf8(body) {
        Err("voice_sdp_not_utf8"@)
    } else {
        Ok(lines_of(vstd::utf8::decode_utf8(body)))
    }
}

/// The audio description that a body holds, or why there is none.
pub open spec fn audio_of(body: Seq<u8>) -> Result<AudioView, Seq<char>> {
    match sdp_lines(body) {
        Err(reason) => Err(reason),
        Ok(lines) => {
            let session = session_part(lines);
            let section = media_part(lines, "m=audio "@);
            let connection = match connection_in(section) {
                Some(own) => Some(own),
                None => connection_in(session),
            };
            if section.len() == 0 {
                Err("voice_sdp_audio_missing"@)
            } else if words(section[0]).len() < 3 || number(words(section[0])[1], 65535) is None {
                Err("voice_sdp_media_invalid"@)
            } else if connection is None {
                Err("voice_sdp_connection_missing"@)
            } else {
                Ok(
                    AudioView {
                        addr: (connection->0).1,
                        addr_type: (connection->0).0,
                        port: number(words(section[0])[1], 65535)->0,
                        formats: speech(formats_in(section, words(section[0]).skip(3))),
                        direction: direction_for(section, session),
                    },
                )
            }
        },
    }
}

/// The video section that a body holds, where its media line and its first
/// format can be read.
pub open spec fn video_of(body: Seq<u8>) -> Option<VideoView> {
    match sdp_lines(body) {
        Err(_) => None,
        Ok(lines) => {
            let section = media_part(lines, "m=video "@);
            if section.len() == 0 || words(section[0]).len() < 4 || number(
                words(section[0])[1],
                65535,
            ) is None || format_in(section, words(section[0])[3]) is None {
                None
            } else {
                Some(
                    VideoView {
                        addr: match connection_in(section) {
                            Some((_, host)) => Some(host),
                            None => None,
                        },
                        addr_type: match connection_in(section) {
                            Some((t, _)) => Some(t),
                            None => None,
                        },
                        port: number(words(section[0])[1], 65535)->0,
                        format: format_in(section, words(section[0])[3])->0,
                        direction: direction_for(section, session_part(lines)),
                    },
                )
            }
        },
    }
}

/// The telephone-event format that a body's audio section lists first.
pub open spec fn event_of(body: Seq<u8>) -> Option<EventView> {
    match sdp_lines(body) {
        Err(_) => None,
        Ok(lines) => {
            let section = media_part(lines, "m=audio "@);
            if section.len() == 0 || words(section[0]).len() < 3 {
                None
            } else {
                match first_event(formats_in(section, words(section[0]).skip(3))) {
                    Some(f) => Some(EventView { payload: f.payload, clock: f.clock, events: f.fmtp }),
                    None => None,
                }
            }
        },
    }
}

fn find_line(lines: &[String], from: usize, prefix: &str) -> (r: usize)
    requires
        from <= lines@.len(),
    ensures
        r == from + line_with(texts(lines@).skip(from as int), prefix@),
        from <= r <= lines@.len(),
{
    let ghost all = texts(lines@);
    let mut i: usize = from;
    while i < lines.len() && !text::starts_with(lines[i].as_str(), prefix)
        invariant
            from <= i <= lines@.len(),
            all == texts(lines@),
            line_with(all.skip(from as int), prefix@) == i - from + line_with(
                all.skip(i as int),
                prefix@,
            ),
        decreases lines@.len() - i,
    {
        proof {
            assert(all.skip(i as int).drop_first() =~= all.skip(i as int + 1));
            assert(all.skip(i as int)[0] == lines@[i as int]@);
        }
        i += 1;
    }
    proof {
        if i < lines@.len() {
            assert(all.skip(i as int)[0] == lines@[i as int]@);
        }
    }
    i
}

fn read_session(lines: &[String]) -> (r: &[String])
    ensures
        texts(r@) == session_part(texts(lines@)),
{
    let end = find_line(lines, 0, "m=");
    let part = vstd::slice::slice_subrange(lines, 0, end);
    proof {
        assert(texts(lines@).skip(0) =~= texts(lines@));
        assert(texts(part@) =~= texts(lines@).take(end as int));
    }
    part
}

fn read_media<'a>(lines: &'a [String], media: &str) -> (r: &'a [String])
    ensures
        texts(r@) == media_part(texts(lines@), media@),
{
    let from = find_line(lines, 0, media);
    proof {
        assert(texts(lines@).skip(0) =~= texts(lines@));
    }
    let ghost rest = texts(lines@).skip(from as int);
    if from >= lines.len() {
        let part = vstd::slice::slice_subrange(lines, 0, 0);
        proof {
            assert(texts(part@) =~= rest);
        }
        return part;
    }
    let to = find_line(lines, from + 1, "m=");
    let part = vstd::slice::slice_subrange(lines, from, to);
    proof {
        assert(rest.skip(1) =~= texts(lines@).skip(from as int + 1));
        assert(texts(part@) =~= rest.take(to - from));
    }
    part
}

fn read_connection(lines: &[String]) -> (r: Option<(SdpAddrType, String)>)
    ensures
        match r {
            Some((t, host)) => connection_in(texts(lines@)) == Some((t, host@)),
            None => connection_in(texts(lines@)) is None,
        },
{
    match sip::find_after_prefix(lines, "c=IN ") {
        Some(rest) => {
            let mut w = text::split_words(rest.as_str());
            proof {
                assert(texts(w@).len() == w@.len());
            }
            if w.len() < 2 {
                return None;
            }
            proof {
                assert(texts(w@)[0] == w@[0]@);
                assert(texts(w@)[1] == w@[1]@);
            }
            let ip4 = text::same(w[0].as_str(), "IP4");
            let ip6 = text::same(w[0].as_str(), "IP6");
            let host = w.swap_remove(1);
            if ip4 {
                Some((SdpAddrType::Ip4, host))
            } else if ip6 {
                Some((SdpAddrType::Ip6, host))
            } else {
                None
            }
        },
        None => None,
    }
}

fn read_direction(lines: &[String]) -> (r: Option<MediaDirection>)
    ensures
        r == direction_in(texts(lines@)),
{
    let ghost all = texts(lines@);
    let mut i: usize = 0;
    proof {
        assert(all.skip(0) =~= all);
    }
    while i < lines.len()
        invariant
            i <= lines@.len(),
            all == texts(lines@),
            direction_in(all) == direction_in(all.skip(i as int)),
        decreases lines@.len() - i,
    {
        proof {
            assert(all.skip(i as int).drop_first() =~= all.skip(i as int + 1));
            assert(all.skip(i as int)[0] == lines@[i as int]@);
        }
        let line = text::trim(lines[i].as_str());
        if text::same(line.as_str(), "a=sendrecv") {
            return Some(MediaDirection::SendRecv);
        }
        if text::same(line.as_str(), "a=sendonly") {
            return Some(MediaDirection::SendOnly);
        }
        if text::same(line.as_str(), "a=recvonly") {
            return Some(MediaDirection::RecvOnly);
        }
        if text::same(line.as_str(), "a=inactive") {
            return Some(MediaDirection::Inactive);
        }
        i += 1;
    }
    None
}

fn read_direction_for(section: &[String], session: &[String]) -> (r: MediaDirection)
    ensures
        r == direction_for(texts(section@), texts(session@)),
{
    match read_direction(section) {
        Some(direction) => direction,
        None => match read_direction(session) {
            Some(direction) => direction,
            None => MediaDirection::SendRecv,
        },
    }
}

fn read_encoding(section: &[String], payload: u8) -> (r: Option<(String, u32)>)
    ensures
        match r {
            Some((name, clock)) => encoding_in(texts(section@), payload as nat) == Some(
                (name@, clock as nat),
            ),
            None => encoding_in(texts(section@), payload as nat) is None,
        },
{
    let mut prefix = "a=rtpmap:".to_string();
    push_number(&mut prefix, payload as u64);
    prefix.append(" ");
    match sip::find_after_prefix(section, prefix.as_str()) {
        Some(rest) => {
            let mut p = text::split(text::trim(rest.as_str()).as_str(), '/');
            proof {
                assert(texts(p@).len() == p@.len());
            }
            if p.len() < 2 {
                return None;
            }
            proof {
                assert(texts(p@)[0] == p@[0]@);
                assert(texts(p@)[1] == p@[1]@);
            }
            match text::parse_number(p[1].as_str(), 0xffff_ffff) {
                Some(clock) => Some((p.swap_remove(0), clock as u32)),
                None => None,
            }
        },
        None => match payload {
            0 => Some(("PCMU".to_string(), 8000)),
            3 => Some(("GSM".to_string(), 8000)),
            8 => Some(("PCMA".to_string(), 8000)),
            9 => Some(("G722".to_string(), 8000)),
            18 => Some(("G729".to_string(), 8000)),
            _ => None,
        },
    }
}

fn read_format(section: &[String], entry: &str) -> (r: Option<AudioCodec>)
    ensures
        match r {
            Some(codec) => format_in(texts(section@), entry@) == Some(codec_format(codec)),
            None => format_in(texts(section@), entry@) is None,
        },
{
    match text::parse_number(entry, 255) {
        Some(payload) => {
            let payload_type = payload as u8;
            match read_encoding(section, payload_type) {
                Some((name, clock_rate)) => {
                    let mut prefix = "a=fmtp:".to_string();
                    push_number(&mut prefix, payload);
                    prefix.append(" ");
                    let fmtp = sip::find_after_prefix(section, prefix.as_str());
                    Some(AudioCodec { payload_type, name, clock_rate, fmtp })
                },
                None => None,
            }
        },
        None => None,
    }
}

fn read_formats(section: &[String], entries: &[String]) -> (r: Vec<AudioCodec>)
    ensures
        codec_formats(r@) == formats_in(texts(section@), texts(entries@)),
{
    let ghost all = texts(entries@);
    let ghost lines = texts(section@);
    let mut out: Vec<AudioCodec> = Vec::new();
    let mut i: usize = 0;
    proof {
        assert(all.take(0) =~= Seq::<Seq<char>>::empty());
        assert(codec_formats(out@) =~= Seq::<Format>::empty());
    }
    while i < entries.len()
        invariant
            i <= entries@.len(),
            all == texts(entries@),
            lines == texts(section@),
            codec_formats(out@) == formats_in(lines, all.take(i as int)),
        decreases entries@.len() - i,
    {
        proof {
            assert(all.take(i as int + 1).drop_last() =~= all.take(i as int));
            assert(all.take(i as int + 1).last() == entries@[i as int]@);
        }
        if let Some(codec) = read_format(section, entries[i].as_str()) {
            let ghost before = out@;
            out.push(codec);
            proof {
                assert(codec_formats(out@) =~= codec_formats(before).push(codec_format(codec)));
            }
        }
        i += 1;
    }
    proof {
        assert(all.take(all.len() as int) =~= all);
    }
    out
}

fn keep_speech(formats: &[AudioCodec]) -> (r: Vec<AudioCodec>)
    ensures
        codec_formats(r@) == speech(codec_formats(formats@)),
{
    let ghost all = codec_formats(formats@);
    let mut out: Vec<AudioCodec> = Vec::new();
    let mut i: usize = 0;
    proof {
        reveal(Seq::filter);
        assert(all.take(0) =~= Seq::<Format>::empty());
        assert(speech(all.take(0)) =~= Seq::<Format>::empty());
        assert(codec_formats(out@) =~= Seq::<Format>::empty());
    }
    while i < formats.len()
        invariant
            i <= formats@.len(),
            all == codec_formats(formats@),
            codec_formats(out@) == speech(all.take(i as int)),
        decreases formats@.len() - i,
    {
        proof {
            reveal(Seq::filter);
            assert(all.take(i as int + 1).drop_last() =~= all.take(i as int));
            assert(all.take(i as int + 1).last() == codec_format(formats@[i as int]));
        }
        if !text::same_ignoring_case(formats[i].name.as_str(), "telephone-event") {
            let ghost before = out@;
            out.push(formats[i].clone());
            proof {
                assert(codec_formats(out@) =~= codec_formats(before).push(
                    codec_format(formats@[i as int]),
                ));
            }
        }
        i += 1;
    }
    proof {
        assert(all.take(all.len() as int) =~= all);
    }
    out
}

/// The lines of a body.
fn read_lines(body: &[u8]) -> (r: Result<Vec<String>, &'static str>)
    ensures
        match r {
            Ok(lines) => sdp_lines(body@) == Ok::<Seq<Seq<char>>, Seq<char>>(texts(lines@)),
            Err(reason) => sdp_lines(body@) == Err::<Seq<Seq<char>>, Seq<char>>(reason@),
        },
{
    if body.len() == 0 {
        return Err("voice_sdp_empty");
    }
    match sip::utf8_text(body) {
        Some(body) => Ok(text::lines(body.as_str())),
        None => Err("voice_sdp_not_utf8"),
    }
}

fn tail_words(w: &Vec<String>, from: usize) -> (r: &[String])
    requires
        from <= w@.len(),
    ensures
        texts(r@) == texts(w@).skip(from as int),
{
    let part = vstd::slice::slice_subrange(w.as_slice(), from, w.len());
    proof {
        assert(texts(part@) =~= texts(w@).skip(from as int));
    }
    part
}

/// Reads the audio description of a body.
pub fn parse_audio_sdp(body: &[u8]) -> (r: Result<SdpAudioDescription, &'static str>)
    ensures
        match r {
            Ok(audio) => audio_of(body@) == Ok::<AudioView, Seq<char>>(audio@),
            Err(reason) => audio_of(body@) == Err::<AudioView, Seq<char>>(reason@),
        },
{
    let lines = match read_lines(body) {
        Ok(lines) => lines,
        Err(reason) => return Err(reason),
    };
    let session = read_session(lines.as_slice());
    let section = read_media(lines.as_slice(), "m=audio ");
    proof {
        assert(texts(section@).len() == section@.len());
    }
    if section.len() == 0 {
        return Err("voice_sdp_audio_missing");
    }
    proof {
        assert(texts(section@)[0] == section@[0]@);
    }
    let w = text::split_words(section[0].as_str());
    proof {
        assert(texts(w@).len() == w@.len());
    }
    if w.len() < 3 {
        return Err("voice_sdp_media_invalid");
    }
    proof {
        assert(texts(w@)[1] == w@[1]@);
    }
    let media_port = match text::parse_number(w[1].as_str(), 65535) {
        Some(port) => port as u16,
        None => return Err("voice_sdp_media_invalid"),
    };
    let connection = match read_connection(section) {
        Some(own) => Some(own),
        None => read_connection(session),
    };
    match connection {
        Some((addr_type, connection_addr)) => {
            let formats = read_formats(section, tail_words(&w, 3));
            let codecs = keep_speech(formats.as_slice());
            let direction = read_direction_for(section, session);
            Ok(SdpAudioDescription { connection_addr, addr_type, media_port, codecs, direction })
        },
        None => Err("voice_sdp_connection_missing"),
    }
}

/// Reads the video section of a body.
pub fn parse_video_sdp(body: &[u8]) -> (r: Option<VideoMediaDescription>)
    ensures
        match r {
            Some(video) => video_of(body@) == Some(video@),
            None => video_of(body@) is None,
        },
{
    let lines = match read_lines(body) {
        Ok(lines) => lines,
        Err(_) => return None,
    };
    let section = read_media(lines.as_slice(), "m=video ");
    proof {
        assert(texts(section@).len() == section@.len());
    }
    if section.len() == 0 {
        return None;
    }
    proof {
        assert(texts(section@)[0] == section@[0]@);
    }
    let w = text::split_words(section[0].as_str());
    proof {
        assert(texts(w@).len() == w@.len());
    }
    if w.len() < 4 {
        return None;
    }
    proof {
        assert(texts(w@)[1] == w@[1]@);
        assert(texts(w@)[3] == w@[3]@);
    }
    let media_port = match text::parse_number(w[1].as_str(), 65535) {
        Some(port) => port as u16,
        None => return None,
    };
    let direction = read_direction_for(section, read_session(lines.as_slice()));
    match read_format(section, w[3].as_str()) {
        Some(format) => {
            let (addr_type, connection_addr) = match read_connection(section) {
                Some((t, host)) => (Some(t), Some(host)),
                None => (None, None),
            };
            Some(
                VideoMediaDescription {
                    connection_addr,
                    addr_type,
                    media_port,
                    payload_type: format.payload_type,
                    codec: format.name,
                    clock_rate: format.clock_rate,
                    fmtp: format.fmtp,
                    direction,
                },
            )
        },
        None => None,
    }
}

/// Reads the telephone-event format that a body's audio section lists first.
pub fn parse_rtp_telephone_event(body: &[u8]) -> (r: Option<RtpTelephoneEvent>)
    ensures
        opt_event(r) == event_of(body@),
{
    let lines = match read_lines(body) {
        Ok(lines) => lines,
        Err(_) => return None,
    };
    let section = read_media(lines.as_slice(), "m=audio ");
    proof {
        assert(texts(section@).len() == section@.len());
    }
    if section.len() == 0 {
        return None;
    }
    proof {
        assert(texts(section@)[0] == section@[0]@);
    }
    let w = text::split_words(section[0].as_str());
    proof {
        assert(texts(w@).len() == w@.len());
    }
    if w.len() < 3 {
        return None;
    }
    let formats = read_formats(section, tail_words(&w, 3));
    let ghost all = codec_formats(formats@);
    let mut i: usize = 0;
    proof {
        assert(all.skip(0) =~= all);
    }
    while i < formats.len()
        invariant
            i <= formats@.len(),
            all == codec_formats(formats@),
            event_of(body@) == (match first_event(all.skip(i as int)) {
                Some(f) => Some(EventView { payload: f.payload, clock: f.clock, events: f.fmtp }),
                None => None,
            }),
        decreases formats@.len() - i,
    {
        proof {
            assert(all.skip(i as int).drop_first() =~= all.skip(i as int + 1));
            assert(all.skip(i as int)[0] == codec_format(formats@[i as int]));
        }
        if text::same_ignoring_case(formats[i].name.as_str(), "telephone-event") {
            return Some(
                RtpTelephoneEvent {
                    payload_type: formats[i].payload_type,
                    clock_rate: formats[i].clock_rate,
                    events: formats[i].fmtp.clone(),
                },
            );
        }
        i += 1;
    }
    None
}

// ---------------------------------------------------------------------------
// Endpoints and formats that two sides have in common.

/// The endpoint that an audio description names.
pub open spec fn audio_endpoint(audio: AudioView) -> Result<SocketAddr, ErrorView> {
    match address_of(audio.addr) {
        None => Err(failure("volte_voice_media_address_invalid"@)),
        Some(ip) => if audio.port == 0 {
            Err(failure("volte_voice_media_port_invalid"@))
        } else {
            Ok(SocketAddr { ip, port: audio.port as u16 })
        },
    }
}

/// The endpoint that a video section names; the audio's address serves where it
/// has none of its own.
pub open spec fn video_endpoint(
    audio: AudioView,
    video: VideoView,
) -> Result<SocketAddr, ErrorView> {
    let host = match video.addr {
        Some(own) => own,
        None => audio.addr,
    };
    match address_of(host) {
        None => Err(failure("vilte_video_address_invalid"@)),
        Some(ip) => if video.port == 0 {
            Err(failure("vilte_video_port_invalid"@))
        } else {
            Ok(SocketAddr { ip, port: video.port as u16 })
        },
    }
}

/// The endpoint that an audio description names.
pub fn media_socket_addr(audio: &SdpAudioDescription) -> (r: Result<SocketAddr, VolteError>)
    ensures
        match r {
            Ok(endpoint) => audio_endpoint(audio@) == Ok::<SocketAddr, ErrorView>(endpoint),
            Err(error) => audio_endpoint(audio@) == Err::<SocketAddr, ErrorView>(error@),
        },
{
    match parse_ip(audio.connection_addr.as_str()) {
        None => Err(VolteError::new("volte_voice_media_address_invalid")),
        Some(ip) => if audio.media_port == 0 {
            Err(VolteError::new("volte_voice_media_port_invalid"))
        } else {
            Ok(SocketAddr::new(ip, audio.media_port))
        },
    }
}

/// The endpoint that a video section names.
pub fn media_endpoint_for_video(
    audio: &SdpAudioDescription,
    video: &VideoMediaDescription,
) -> (r: Result<SocketAddr, VolteError>)
    ensures
        match r {
            Ok(endpoint) => video_endpoint(audio@, video@) == Ok::<SocketAddr, ErrorView>(endpoint),
            Err(error) => video_endpoint(audio@, video@) == Err::<SocketAddr, ErrorView>(error@),
        },
{
    let host = match &video.connection_addr {
        Some(own) => own.as_str(),
        None => audio.connection_addr.as_str(),
    };
    match parse_ip(host) {
        None => Err(VolteError::new("vilte_video_address_invalid")),
        Some(ip) => if video.media_port == 0 {
            Err(VolteError::new("vilte_video_port_invalid"))
        } else {
            Ok(SocketAddr::new(ip, video.media_port))
        },
    }
}

/// Two formats are the same encoding at the same clock rate.
pub open spec fn formats_match(a: Format, b: Format) -> bool {
    same_folded(a.name, b.name) && a.clock == b.clock
}

/// The first of `formats` that is the same encoding as `wanted`.
pub open spec fn matching(formats: Seq<Format>, wanted: Format) -> Option<Format>
    decreases formats.len(),
{
    if formats.len() == 0 {
        None
    } else if formats_match(formats[0], wanted) {
        Some(formats[0])
    } else {
        matching(formats.drop_first(), wanted)
    }
}

impl SdpAudioDescription {
    /// The first format that is the same encoding as `wanted`.
    pub fn find_matching_codec(&self, wanted: &AudioCodec) -> (r: Option<&AudioCodec>)
        ensures
            match r {
                Some(codec) => matching(self@.formats, codec_format(*wanted)) == Some(
                    codec_format(*codec),
                ),
                None => matching(self@.formats, codec_format(*wanted)) is None,
            },
    {
        let ghost all = self@.formats;
        let ghost want = codec_format(*wanted);
        let mut i: usize = 0;
        proof {
            assert(all.skip(0) =~= all);
        }
        while i < self.codecs.len()
            invariant
                i <= self.codecs@.len(),
                all == codec_formats(self.codecs@),
                want == codec_format(*wanted),
                matching(all, want) == matching(all.skip(i as int), want),
            decreases self.codecs@.len() - i,
        {
            proof {
                assert(all.skip(i as int).drop_first() =~= all.skip(i as int + 1));
                assert(all.skip(i as int)[0] == codec_format(self.codecs@[i as int]));
            }
            if text::same_ignoring_case(self.codecs[i].name.as_str(), wanted.name.as_str())
                && self.codecs[i].clock_rate == wanted.clock_rate {
                return Some(&self.codecs[i]);
            }
            i += 1;
        }
        None
    }
}

} // verus!
