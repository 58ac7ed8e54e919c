//! Negotiating a call's media between the operator and the trunk side.

use vstd::prelude::*;
use vstd::string::*;

use crate::calls::{CallView, LiveVoiceCall};
use crate::errors::{detailed, failure, ErrorView, VolteError};
use crate::ip::SocketAddr;
use crate::sdp;
use crate::sdp::{
    audio_endpoint, audio_of, codec_format, codec_formats, event_of, formats_match, matching,
    relayed_audio, relayed_video, video_endpoint, video_of, AudioCodec, AudioView,
    EventView, Format, MediaDirection, RtpTelephoneEvent, SdpAudioDescription,
    VideoMediaDescription, VideoView,
};
use crate::text;

verus! {

/// The payload number of one format on the two sides of the relay.
#[derive(Debug, Clone, Copy, PartialEq, Eq, Structural)]
pub struct PayloadTypeMapping {
    pub operator: u8,
    pub internal: u8,
}

/// A relay that is to start forwarding.
#[derive(Debug, PartialEq, Eq)]
pub struct RelayActivation {
    pub relay: u64,
    pub operator_remote: SocketAddr,
    pub internal_remote: SocketAddr,
    pub mappings: Vec<PayloadTypeMapping>,
    /// The directions that the operator and the trunk side asked for, where the
    /// relay is to honor them.
    pub directions: Option<(MediaDirection, MediaDirection)>,
}

pub struct ActivationView {
    pub relay: u64,
    pub operator_remote: SocketAddr,
    pub internal_remote: SocketAddr,
    pub mappings: Seq<PayloadTypeMapping>,
    pub directions: Option<(MediaDirection, MediaDirection)>,
}

impl View for RelayActivation {
    type V = ActivationView;

    open spec fn view(&self) -> ActivationView {
        ActivationView {
            relay: self.relay,
            operator_remote: self.operator_remote,
            internal_remote: self.internal_remote,
            mappings: self.mappings@,
            directions: self.directions,
        }
    }
}

pub open spec fn activations(list: Seq<RelayActivation>) -> Seq<ActivationView> {
    Seq::new(list.len(), |i: int| list[i]@)
}

/// What negotiating a description leads to.
pub struct MediaOutcome {
    pub call: CallView,
    pub activations: Seq<ActivationView>,
    pub result: Result<Seq<char>, ErrorView>,
}

/// The trunk side's formats that the operator's formats find there.
pub open spec fn internal_formats(
    operator: Seq<Format>,
    internal: Seq<Format>,
) -> Seq<Format>
    decreases operator.len(),
{
    if operator.len() == 0 {
        Seq::empty()
    } else {
        let front = internal_formats(operator.drop_last(), internal);
        match matching(internal, operator.last()) {
            Some(codec) => front.push(codec),
            None => front,
        }
    }
}

/// The operator's formats that the trunk side knows too.
pub open spec fn operator_formats(
    operator: Seq<Format>,
    internal: Seq<Format>,
) -> Seq<Format>
    decreases operator.len(),
{
    if operator.len() == 0 {
        Seq::empty()
    } else {
        let front = operator_formats(operator.drop_last(), internal);
        if matching(internal, operator.last()) is Some {
            front.push(operator.last())
        } else {
            front
        }
    }
}

pub open spec fn mapping(operator: nat, internal: nat) -> PayloadTypeMapping {
    PayloadTypeMapping { operator: operator as u8, internal: internal as u8 }
}

/// The payload numbers that differ between the two sides.
pub open spec fn format_mappings(
    operator: Seq<Format>,
    internal: Seq<Format>,
) -> Seq<PayloadTypeMapping>
    decreases operator.len(),
{
    if operator.len() == 0 {
        Seq::empty()
    } else {
        let front = format_mappings(operator.drop_last(), internal);
        match matching(internal, operator.last()) {
            Some(format) => if operator.last().payload != format.payload {
                front.push(mapping(operator.last().payload, format.payload))
            } else {
                front
            },
            None => front,
        }
    }
}

/// The mapping of telephone events, where both sides have them under different numbers.
pub open spec fn event_mapping(
    operator: Option<EventView>,
    internal: Option<EventView>,
) -> Seq<PayloadTypeMapping> {
    match (operator, internal) {
        (Some(o), Some(i)) => if o.payload != i.payload {
            seq![mapping(o.payload, i.payload)]
        } else {
            Seq::empty()
        },
        _ => Seq::empty(),
    }
}

/// The pending relay has to be put to use: none is active, or a new one waits.
pub open spec fn relay_due(pending: Option<u64>, active: Option<u64>) -> bool {
    active is None || pending is Some
}

/// The two video sections can be relayed to each other.
pub open spec fn videos_agree(a: VideoView, b: VideoView) -> bool {
    formats_match(a.format, b.format)
}

/// The mapping of the video payload number, where the two sides differ.
pub open spec fn video_mapping(operator: nat, internal: nat) -> Seq<PayloadTypeMapping> {
    if operator != internal {
        seq![mapping(operator, internal)]
    } else {
        Seq::empty()
    }
}

/// The call without video relays.
pub open spec fn without_video(call: CallView) -> CallView {
    CallView { pending_video_relay: None, active_video_relay: None, ..call }
}

/// The call with its pending audio relay in use.
pub open spec fn with_audio_active(call: CallView) -> CallView {
    if relay_due(call.pending_relay, call.active_relay) {
        CallView { pending_relay: None, active_relay: call.pending_relay, ..call }
    } else {
        call
    }
}

/// The call with its pending video relay in use.
pub open spec fn with_video_active(call: CallView) -> CallView {
    if relay_due(call.pending_video_relay, call.active_video_relay) {
        CallView {
            pending_video_relay: None,
            active_video_relay: call.pending_video_relay,
            ..call
        }
    } else {
        call
    }
}

/// The outcome of a description in which the operator answers the trunk's offer.
#[verifier::opaque]
pub open spec fn operator_outcome(
    call: CallView,
    audio: AudioView,
    video: Option<VideoView>,
    event: Option<EventView>,
) -> MediaOutcome {
    let offer = call.internal_offer;
    let formats = internal_formats(audio.formats, offer.audio.formats);
    match audio_endpoint(audio) {
        Err(error) => MediaOutcome { call, activations: Seq::empty(), result: Err(error) },
        Ok(remote) => if formats.len() == 0 {
            MediaOutcome {
                call,
                activations: Seq::empty(),
                result: Err(failure("volte_voice_no_common_codec"@)),
            }
        } else if relay_due(call.pending_relay, call.active_relay) && call.pending_relay is None {
            MediaOutcome {
                call,
                activations: Seq::empty(),
                result: Err(failure("volte_rtp_relay_missing"@)),
            }
        } else {
            let started = if relay_due(call.pending_relay, call.active_relay) {
                seq![
                    ActivationView {
                        relay: call.pending_relay->0,
                        operator_remote: remote,
                        internal_remote: offer.audio_endpoint,
                        mappings: format_mappings(audio.formats, offer.audio.formats)
                            + event_mapping(event, offer.event),
                        directions: Some((audio.direction, offer.audio.direction)),
                    },
                ]
            } else {
                Seq::empty()
            };
            let answer = relayed_audio(
                formats,
                audio.direction.peer(),
                offer.event,
                call.internal_local,
            );
            let rest = operator_video_outcome(with_audio_active(call), audio, video, answer);
            MediaOutcome { activations: started + rest.activations, ..rest }
        },
    }
}

/// The video part of `operator_outcome`.
pub open spec fn operator_video_outcome(
    call: CallView,
    audio: AudioView,
    video: Option<VideoView>,
    answer: Seq<char>,
) -> MediaOutcome {
    match (call.internal_offer.video, video, call.operator_video_local, call.internal_video_local) {
        (Some(internal), Some(operator), Some(_), Some(local)) => if !videos_agree(
            internal.description,
            operator,
        ) {
            MediaOutcome {
                call,
                activations: Seq::empty(),
                result: Err(
                    detailed("vilte_video_negotiation_failed"@, "video_codec_mismatch"@),
                ),
            }
        } else {
            match video_endpoint(audio, operator) {
                Err(error) => MediaOutcome { call, activations: Seq::empty(), result: Err(error) },
                Ok(remote) => if relay_due(call.pending_video_relay, call.active_video_relay)
                    && call.pending_video_relay is None {
                    MediaOutcome {
                        call,
                        activations: Seq::empty(),
                        result: Err(failure("vilte_rtp_relay_missing"@)),
                    }
                } else {
                    MediaOutcome {
                        call: with_video_active(call),
                        activations: if relay_due(
                            call.pending_video_relay,
                            call.active_video_relay,
                        ) {
                            seq![
                                ActivationView {
                                    relay: call.pending_video_relay->0,
                                    operator_remote: remote,
                                    internal_remote: internal.endpoint,
                                    mappings: video_mapping(
                                        operator.format.payload,
                                        internal.description.format.payload,
                                    ),
                                    directions: None,
                                },
                            ]
                        } else {
                            Seq::empty()
                        },
                        result: Ok(
                            answer + relayed_video(operator.format, operator.direction.peer(), local),
                        ),
                    }
                },
            }
        },
        _ => MediaOutcome {
            call: without_video(call),
            activations: Seq::empty(),
            result: Ok(answer),
        },
    }
}

/// The outcome of a description in which the trunk side answers the operator's offer.
#[verifier::opaque]
pub open spec fn incoming_outcome(
    call: CallView,
    audio: AudioView,
    video: Option<VideoView>,
    event: Option<EventView>,
) -> MediaOutcome {
    let offer = call.internal_offer;
    let formats = operator_formats(offer.audio.formats, audio.formats);
    match audio_endpoint(audio) {
        Err(error) => MediaOutcome { call, activations: Seq::empty(), result: Err(error) },
        Ok(remote) => if formats.len() == 0 {
            MediaOutcome {
                call,
                activations: Seq::empty(),
                result: Err(failure("volte_voice_no_common_codec"@)),
            }
        } else if relay_due(call.pending_relay, call.active_relay) && call.pending_relay is None {
            MediaOutcome {
                call,
                activations: Seq::empty(),
                result: Err(failure("volte_rtp_relay_missing"@)),
            }
        } else {
            let started = if relay_due(call.pending_relay, call.active_relay) {
                seq![
                    ActivationView {
                        relay: call.pending_relay->0,
                        operator_remote: offer.audio_endpoint,
                        internal_remote: remote,
                        mappings: format_mappings(formats, audio.formats) + event_mapping(
                            offer.event,
                            event,
                        ),
                        directions: Some((offer.audio.direction, audio.direction)),
                    },
                ]
            } else {
                Seq::empty()
            };
            let answer = relayed_audio(
                formats,
                audio.direction.peer(),
                offer.event,
                call.operator_local,
            );
            let rest = incoming_video_outcome(with_audio_active(call), audio, video, answer);
            MediaOutcome { activations: started + rest.activations, ..rest }
        },
    }
}

/// The video part of `incoming_outcome`.
pub open spec fn incoming_video_outcome(
    call: CallView,
    audio: AudioView,
    video: Option<VideoView>,
    answer: Seq<char>,
) -> MediaOutcome {
    match (call.internal_offer.video, video, call.operator_video_local) {
        (Some(operator), Some(internal), Some(local)) => if !videos_agree(
            operator.description,
            internal,
        ) {
            MediaOutcome {
                call,
                activations: Seq::empty(),
                result: Err(
                    detailed("vilte_video_negotiation_failed"@, "video_codec_mismatch"@),
                ),
            }
        } else {
            match video_endpoint(audio, internal) {
                Err(error) => MediaOutcome { call, activations: Seq::empty(), result: Err(error) },
                Ok(remote) => if relay_due(call.pending_video_relay, call.active_video_relay)
                    && call.pending_video_relay is None {
                    MediaOutcome {
                        call,
                        activations: Seq::empty(),
                        result: Err(failure("vilte_rtp_relay_missing"@)),
                    }
                } else {
                    MediaOutcome {
                        call: with_video_active(call),
                        activations: if relay_due(
                            call.pending_video_relay,
                            call.active_video_relay,
                        ) {
                            seq![
                                ActivationView {
                                    relay: call.pending_video_relay->0,
                                    operator_remote: operator.endpoint,
                                    internal_remote: remote,
                                    mappings: video_mapping(
                                        operator.description.format.payload,
                                        internal.format.payload,
                                    ),
                                    directions: None,
                                },
                            ]
                        } else {
                            Seq::empty()
                        },
                        result: Ok(
                            answer + relayed_video(
                                operator.description.format,
                                internal.direction.peer(),
                                local,
                            ),
                        ),
                    }
                },
            }
        },
        _ => MediaOutcome {
            call: without_video(call),
            activations: Seq::empty(),
            result: Ok(answer),
        },
    }
}

/// `outcome` is what came about: the call, the relays started and the answer.
pub open spec fn came_about(
    outcome: MediaOutcome,
    call: CallView,
    before: Seq<ActivationView>,
    after: Seq<ActivationView>,
    result: Result<String, VolteError>,
) -> bool {
    &&& call == outcome.call
    &&& after == before + outcome.activations
    &&& match result {
        Ok(answer) => outcome.result == Ok::<Seq<char>, ErrorView>(answer@),
        Err(error) => outcome.result == Err::<Seq<char>, ErrorView>(error@),
    }
}

/// The outcome of a body in which the operator answers the trunk's offer.
pub open spec fn operator_body_outcome(call: CallView, body: Seq<u8>) -> MediaOutcome {
    match audio_of(body) {
        Ok(audio) => operator_outcome(call, audio, video_of(body), event_of(body)),
        Err(reason) => unreadable(call, reason),
    }
}

/// The outcome of a body in which the trunk side answers the operator's offer.
pub open spec fn incoming_body_outcome(call: CallView, body: Seq<u8>) -> MediaOutcome {
    match audio_of(body) {
        Ok(audio) => incoming_outcome(call, audio, video_of(body), event_of(body)),
        Err(reason) => unreadable(call, reason),
    }
}

/// The outcome of a body whose audio description cannot be read.
pub open spec fn unreadable(call: CallView, reason: Seq<char>) -> MediaOutcome {
    MediaOutcome {
        call,
        activations: Seq::empty(),
        result: Err(detailed("volte_voice_sdp_invalid"@, reason)),
    }
}

/// The outcome of the body of a final answer. An empty one repeats the answer
/// that a provisional response already carried.
pub open spec fn final_body_outcome(call: CallView, body: Seq<u8>) -> MediaOutcome {
    if body.len() == 0 {
        MediaOutcome {
            call,
            activations: Seq::empty(),
            result: match call.early_answer {
                Some(answer) => Ok(answer),
                None => Err(detailed("volte_voice_sdp_invalid"@, "voice_sdp_empty"@)),
            },
        }
    } else {
        operator_body_outcome(call, body)
    }
}

fn common_internal(operator: &[AudioCodec], internal: &SdpAudioDescription) -> (r: Vec<AudioCodec>)
    ensures
        codec_formats(r@) == internal_formats(codec_formats(operator@), internal@.formats),
{
    let ghost all = codec_formats(operator@);
    let mut out: Vec<AudioCodec> = Vec::new();
    let mut i: usize = 0;
    proof {
        assert(codec_formats(out@) =~= Seq::<Format>::empty());
        assert(all.take(0) =~= Seq::<Format>::empty());
    }
    while i < operator.len()
        invariant
            i <= operator@.len(),
            all == codec_formats(operator@),
            codec_formats(out@) == internal_formats(all.take(i as int), internal@.formats),
        decreases operator@.len() - i,
    {
        proof {
            assert(all.take(i as int + 1).drop_last() =~= all.take(i as int));
            assert(all.take(i as int + 1).last() == codec_format(operator@[i as int]));
        }
        if let Some(codec) = internal.find_matching_codec(&operator[i]) {
            let ghost before = out@;
            out.push(codec.clone());
            proof {
                assert(codec_formats(out@) =~= codec_formats(before).push(codec_format(*codec)));
            }
        }
        i += 1;
    }
    proof {
        assert(all.take(operator@.len() as int) =~= all);
    }
    out
}

fn common_operator(operator: &[AudioCodec], internal: &SdpAudioDescription) -> (r: Vec<AudioCodec>)
    ensures
        codec_formats(r@) == operator_formats(codec_formats(operator@), internal@.formats),
{
    let ghost all = codec_formats(operator@);
    let mut out: Vec<AudioCodec> = Vec::new();
    let mut i: usize = 0;
    proof {
        assert(codec_formats(out@) =~= Seq::<Format>::empty());
        assert(all.take(0) =~= Seq::<Format>::empty());
    }
    while i < operator.len()
        invariant
            i <= operator@.len(),
            all == codec_formats(operator@),
            codec_formats(out@) == operator_formats(all.take(i as int), internal@.formats),
        decreases operator@.len() - i,
    {
        proof {
            assert(all.take(i as int + 1).drop_last() =~= all.take(i as int));
            assert(all.take(i as int + 1).last() == codec_format(operator@[i as int]));
        }
        if internal.find_matching_codec(&operator[i]).is_some() {
            let ghost before = out@;
            out.push(operator[i].clone());
            proof {
                assert(codec_formats(out@) =~= codec_formats(before).push(
                    codec_format(operator@[i as int]),
                ));
            }
        }
        i += 1;
    }
    proof {
        assert(all.take(operator@.len() as int) =~= all);
    }
    out
}

fn mappings_between(
    operator: &[AudioCodec],
    internal: &SdpAudioDescription,
    operator_event: Option<&RtpTelephoneEvent>,
    internal_event: Option<&RtpTelephoneEvent>,
) -> (r: Vec<PayloadTypeMapping>)
    ensures
        r@ == format_mappings(codec_formats(operator@), internal@.formats) + event_mapping(
            event_at(operator_event),
            event_at(internal_event),
        ),
{
    let ghost all = codec_formats(operator@);
    let mut out: Vec<PayloadTypeMapping> = Vec::new();
    let mut i: usize = 0;
    proof {
        assert(all.take(0) =~= Seq::<Format>::empty());
    }
    while i < operator.len()
        invariant
            i <= operator@.len(),
            all == codec_formats(operator@),
            out@ == format_mappings(all.take(i as int), internal@.formats),
        decreases operator@.len() - i,
    {
        proof {
            assert(all.take(i as int + 1).drop_last() =~= all.take(i as int));
            assert(all.take(i as int + 1).last() == codec_format(operator@[i as int]));
        }
        if let Some(codec) = internal.find_matching_codec(&operator[i]) {
            if operator[i].payload_type != codec.payload_type {
                out.push(
                    PayloadTypeMapping {
                        operator: operator[i].payload_type,
                        internal: codec.payload_type,
                    },
                );
            }
        }
        i += 1;
    }
    let ghost formats = format_mappings(all, internal@.formats);
    proof {
        assert(all.take(operator@.len() as int) =~= all);
        assert(formats + Seq::<PayloadTypeMapping>::empty() =~= formats);
    }
    if let Some(o) = operator_event {
        if let Some(e) = internal_event {
            if o.payload_type != e.payload_type {
                let mapping = PayloadTypeMapping {
                    operator: o.payload_type,
                    internal: e.payload_type,
                };
                out.push(mapping);
                proof {
                    assert(formats + seq![mapping] =~= formats.push(mapping));
                }
            }
        }
    }
    out
}

fn video_mapping_list(operator: u8, internal: u8) -> (r: Vec<PayloadTypeMapping>)
    ensures
        r@ == video_mapping(operator as nat, internal as nat),
{
    let mut out: Vec<PayloadTypeMapping> = Vec::new();
    if operator != internal {
        out.push(PayloadTypeMapping { operator, internal });
        proof {
            assert(out@ =~= video_mapping(operator as nat, internal as nat));
        }
    }
    out
}

fn video_formats_agree(a: &VideoMediaDescription, b: &VideoMediaDescription) -> (r: bool)
    ensures
        r == videos_agree(a@, b@),
{
    text::same_ignoring_case(a.codec.as_str(), b.codec.as_str()) && a.clock_rate == b.clock_rate
}

fn start(started: &mut Vec<RelayActivation>, activation: RelayActivation)
    ensures
        activations(final(started)@) == activations(old(started)@).push(activation@),
{
    started.push(activation);
    proof {
        assert(activations(started@) =~= activations(old(started)@).push(activation@));
    }
}

/// The pending audio relay is put to use, where one is due.
fn activate_audio(
    call: &mut LiveVoiceCall,
    operator_remote: SocketAddr,
    internal_remote: SocketAddr,
    mappings: Vec<PayloadTypeMapping>,
    directions: (MediaDirection, MediaDirection),
    started: &mut Vec<RelayActivation>,
) -> (r: bool)
    ensures
        r == !(relay_due(old(call).pending_relay, old(call).active_relay)
            && old(call).pending_relay is None),
        !r ==> final(call)@ == old(call)@ && final(started)@ == old(started)@,
        r ==> final(call)@ == with_audio_active(old(call)@),
        r ==> activations(final(started)@) == activations(old(started)@) + (if relay_due(
            old(call).pending_relay,
            old(call).active_relay,
        ) {
            seq![
                ActivationView {
                    relay: old(call).pending_relay->0,
                    operator_remote,
                    internal_remote,
                    mappings: mappings@,
                    directions: Some(directions),
                },
            ]
        } else {
            Seq::empty()
        }),
{
    let ghost before = activations(started@);
    if call.active_relay.is_none() || call.pending_relay.is_some() {
        let relay = match call.pending_relay {
            Some(relay) => relay,
            None => return false,
        };
        let activation = RelayActivation {
            relay,
            operator_remote,
            internal_remote,
            mappings,
            directions: Some(directions),
        };
        call.pending_relay = None;
        call.active_relay = Some(relay);
        start(started, activation);
        proof {
            assert(before.push(activation@) =~= before + seq![activation@]);
        }
    } else {
        proof {
            assert(before + Seq::<ActivationView>::empty() =~= before);
        }
    }
    true
}

/// The pending video relay is put to use, where one is due.
fn activate_video(
    call: &mut LiveVoiceCall,
    operator_remote: SocketAddr,
    internal_remote: SocketAddr,
    mappings: Vec<PayloadTypeMapping>,
    started: &mut Vec<RelayActivation>,
) -> (r: bool)
    ensures
        r == !(relay_due(old(call).pending_video_relay, old(call).active_video_relay)
            && old(call).pending_video_relay is None),
        !r ==> final(call)@ == old(call)@ && final(started)@ == old(started)@,
        r ==> final(call)@ == with_video_active(old(call)@),
        r ==> activations(final(started)@) == activations(old(started)@) + (if relay_due(
            old(call).pending_video_relay,
            old(call).active_video_relay,
        ) {
            seq![
                ActivationView {
                    relay: old(call).pending_video_relay->0,
                    operator_remote,
                    internal_remote,
                    mappings: mappings@,
                    directions: None,
                },
            ]
        } else {
            Seq::empty()
        }),
{
    let ghost before = activations(started@);
    if call.active_video_relay.is_none() || call.pending_video_relay.is_some() {
        let relay = match call.pending_video_relay {
            Some(relay) => relay,
            None => return false,
        };
        let activation = RelayActivation {
            relay,
            operator_remote,
            internal_remote,
            mappings,
            directions: None,
        };
        call.pending_video_relay = None;
        call.active_video_relay = Some(relay);
        start(started, activation);
        proof {
            assert(before.push(activation@) =~= before + seq![activation@]);
        }
    } else {
        proof {
            assert(before + Seq::<ActivationView>::empty() =~= before);
        }
    }
    true
}

/// The description behind an optional reference.
pub open spec fn video_at(video: Option<&VideoMediaDescription>) -> Option<VideoView> {
    match video {
        Some(v) => Some(v@),
        None => None,
    }
}

/// The telephone events behind an optional reference.
pub open spec fn event_at(event: Option<&RtpTelephoneEvent>) -> Option<EventView> {
    match event {
        Some(e) => Some(e@),
        None => None,
    }
}

fn negotiate_operator_video(
    call: &mut LiveVoiceCall,
    audio: &SdpAudioDescription,
    video: Option<&VideoMediaDescription>,
    answer: String,
    started: &mut Vec<RelayActivation>,
) -> (r: Result<String, VolteError>)
    ensures
        came_about(
            operator_video_outcome(old(call)@, audio@, video_at(video), answer@),
            final(call)@,
            activations(old(started)@),
            activations(final(started)@),
            r,
        ),
{
    let ghost before = activations(started@);
    proof {
        assert(before + Seq::<ActivationView>::empty() =~= before);
    }
    match (&call.internal_offer.video, video, call.operator_video_local, call.internal_video_local) {
        (Some(internal_video), Some(operator_video), Some(_), Some(internal_local)) => {
            if !video_formats_agree(&internal_video.description, operator_video) {
                return Err(
                    VolteError::with_detail(
                        "vilte_video_negotiation_failed",
                        "video_codec_mismatch",
                    ),
                );
            }
            let remote = match sdp::media_endpoint_for_video(audio, operator_video) {
                Ok(remote) => remote,
                Err(error) => return Err(error),
            };
            let internal_remote = internal_video.endpoint;
            let mappings = video_mapping_list(
                operator_video.payload_type,
                internal_video.description.payload_type,
            );
            if !activate_video(call, remote, internal_remote, mappings, started) {
                return Err(VolteError::new("vilte_rtp_relay_missing"));
            }
            let section = sdp::relay_video_sdp(
                operator_video,
                operator_video.direction.for_peer(),
                internal_local,
            );
            let mut answer = answer;
            answer.append(section.as_str());
            Ok(answer)
        },
        _ => {
            call.pending_video_relay = None;
            call.active_video_relay = None;
            Ok(answer)
        },
    }
}

fn negotiate_incoming_video(
    call: &mut LiveVoiceCall,
    audio: &SdpAudioDescription,
    video: Option<&VideoMediaDescription>,
    answer: String,
    started: &mut Vec<RelayActivation>,
) -> (r: Result<String, VolteError>)
    ensures
        came_about(
            incoming_video_outcome(old(call)@, audio@, video_at(video), answer@),
            final(call)@,
            activations(old(started)@),
            activations(final(started)@),
            r,
        ),
{
    let ghost before = activations(started@);
    proof {
        assert(before + Seq::<ActivationView>::empty() =~= before);
    }
    match (&call.internal_offer.video, video, call.operator_video_local) {
        (Some(operator_video), Some(internal_video), Some(operator_local)) => {
            if !video_formats_agree(&operator_video.description, internal_video) {
                return Err(
                    VolteError::with_detail(
                        "vilte_video_negotiation_failed",
                        "video_codec_mismatch",
                    ),
                );
            }
            let remote = match sdp::media_endpoint_for_video(audio, internal_video) {
                Ok(remote) => remote,
                Err(error) => return Err(error),
            };
            let operator_remote = operator_video.endpoint;
            let mappings = video_mapping_list(
                operator_video.description.payload_type,
                internal_video.payload_type,
            );
            let section = sdp::relay_video_sdp(
                &operator_video.description,
                internal_video.direction.for_peer(),
                operator_local,
            );
            if !activate_video(call, operator_remote, remote, mappings, started) {
                return Err(VolteError::new("vilte_rtp_relay_missing"));
            }
            let mut answer = answer;
            answer.append(section.as_str());
            Ok(answer)
        },
        _ => {
            call.pending_video_relay = None;
            call.active_video_relay = None;
            Ok(answer)
        },
    }
}

/// Applies a description in which the operator answers the trunk's offer.
pub fn negotiate_operator_media(
    call: &mut LiveVoiceCall,
    audio: &SdpAudioDescription,
    video: Option<&VideoMediaDescription>,
    event: Option<&RtpTelephoneEvent>,
    started: &mut Vec<RelayActivation>,
) -> (r: Result<String, VolteError>)
    ensures
        came_about(
            operator_outcome(old(call)@, audio@, video_at(video), event_at(event)),
            final(call)@,
            activations(old(started)@),
            activations(final(started)@),
            r,
        ),
{
    let ghost before = activations(started@);
    proof {
        reveal(operator_outcome);
        assert(before + Seq::<ActivationView>::empty() =~= before);
    }
    let remote = match sdp::media_socket_addr(audio) {
        Ok(remote) => remote,
        Err(error) => return Err(error),
    };
    let formats = common_internal(audio.codecs.as_slice(), &call.internal_offer.audio);
    if formats.len() == 0 {
        return Err(VolteError::new("volte_voice_no_common_codec"));
    }
    let internal_event = match &call.internal_offer.dtmf.rtp_event {
        Some(event) => Some(event),
        None => None,
    };
    let mappings = mappings_between(
        audio.codecs.as_slice(),
        &call.internal_offer.audio,
        event,
        internal_event,
    );
    let answer = sdp::relay_formats_sdp(
        formats.as_slice(),
        audio.direction.for_peer(),
        internal_event,
        call.internal_local,
    );
    let internal_remote = call.internal_offer.audio_endpoint;
    let directions = (audio.direction, call.internal_offer.audio.direction);
    if !activate_audio(call, remote, internal_remote, mappings, directions, started) {
        return Err(VolteError::new("volte_rtp_relay_missing"));
    }
    let ghost running = activations(started@);
    let r = negotiate_operator_video(call, audio, video, answer, started);
    proof {
        let rest = operator_video_outcome(
            with_audio_active(old(call)@),
            audio@,
            video_at(video),
            answer@,
        );
        let first = running.skip(before.len() as int);
        assert(running =~= before + first);
        assert(running + rest.activations =~= before + (first + rest.activations));
        if relay_due(old(call).pending_relay, old(call).active_relay) {
            assert(first =~= seq![running.last()]);
        } else {
            assert(first =~= Seq::<ActivationView>::empty());
        }
    }
    r
}

/// Applies a description in which the trunk side answers the operator's offer.
pub fn negotiate_incoming_media(
    call: &mut LiveVoiceCall,
    audio: &SdpAudioDescription,
    video: Option<&VideoMediaDescription>,
    event: Option<&RtpTelephoneEvent>,
    started: &mut Vec<RelayActivation>,
) -> (r: Result<String, VolteError>)
    ensures
        came_about(
            incoming_outcome(old(call)@, audio@, video_at(video), event_at(event)),
            final(call)@,
            activations(old(started)@),
            activations(final(started)@),
            r,
        ),
{
    let ghost before = activations(started@);
    proof {
        reveal(incoming_outcome);
        assert(before + Seq::<ActivationView>::empty() =~= before);
    }
    let remote = match sdp::media_socket_addr(audio) {
        Ok(remote) => remote,
        Err(error) => return Err(error),
    };
    let formats = common_operator(call.internal_offer.audio.codecs.as_slice(), audio);
    if formats.len() == 0 {
        return Err(VolteError::new("volte_voice_no_common_codec"));
    }
    let operator_event = match &call.internal_offer.dtmf.rtp_event {
        Some(event) => Some(event),
        None => None,
    };
    let mappings = mappings_between(formats.as_slice(), audio, operator_event, event);
    let answer = sdp::relay_formats_sdp(
        formats.as_slice(),
        audio.direction.for_peer(),
        operator_event,
        call.operator_local,
    );
    let operator_remote = call.internal_offer.audio_endpoint;
    let directions = (call.internal_offer.audio.direction, audio.direction);
    if !activate_audio(call, operator_remote, remote, mappings, directions, started) {
        return Err(VolteError::new("volte_rtp_relay_missing"));
    }
    let ghost running = activations(started@);
    let r = negotiate_incoming_video(call, audio, video, answer, started);
    proof {
        let rest = incoming_video_outcome(
            with_audio_active(old(call)@),
            audio@,
            video_at(video),
            answer@,
        );
        let first = running.skip(before.len() as int);
        assert(running =~= before + first);
        assert(running + rest.activations =~= before + (first + rest.activations));
        if relay_due(old(call).pending_relay, old(call).active_relay) {
            assert(first =~= seq![running.last()]);
        } else {
            assert(first =~= Seq::<ActivationView>::empty());
        }
    }
    r
}

/// Applies a body in which the operator answers the trunk's offer.
pub fn prepare_operator_media(
    call: &mut LiveVoiceCall,
    body: &[u8],
    started: &mut Vec<RelayActivation>,
) -> (r: Result<String, VolteError>)
    ensures
        came_about(
            operator_body_outcome(old(call)@, body@),
            final(call)@,
            activations(old(started)@),
            activations(final(started)@),
            r,
        ),
{
    match sdp::parse_audio_sdp(body) {
        Ok(audio) => {
            let video = sdp::parse_video_sdp(body);
            let event = sdp::parse_rtp_telephone_event(body);
            negotiate_operator_media(call, &audio, video.as_ref(), event.as_ref(), started)
        },
        Err(reason) => {
            proof {
                let before = activations(started@);
                assert(before + Seq::<ActivationView>::empty() =~= before);
            }
            Err(VolteError::with_detail("volte_voice_sdp_invalid", reason))
        },
    }
}

/// Applies a body in which the trunk side answers the operator's offer: the
/// answer carries the payload numbers and the relay address of the operator's dialog.
pub fn prepare_incoming_media(
    call: &mut LiveVoiceCall,
    body: &[u8],
    started: &mut Vec<RelayActivation>,
) -> (r: Result<String, VolteError>)
    ensures
        came_about(
            incoming_body_outcome(old(call)@, body@),
            final(call)@,
            activations(old(started)@),
            activations(final(started)@),
            r,
        ),
{
    match sdp::parse_audio_sdp(body) {
        Ok(audio) => {
            let video = sdp::parse_video_sdp(body);
            let event = sdp::parse_rtp_telephone_event(body);
            negotiate_incoming_media(call, &audio, video.as_ref(), event.as_ref(), started)
        },
        Err(reason) => {
            proof {
                let before = activations(started@);
                assert(before + Seq::<ActivationView>::empty() =~= before);
            }
            Err(VolteError::with_detail("volte_voice_sdp_invalid", reason))
        },
    }
}

/// Applies the body of the operator's final answer.
pub fn prepare_final_operator_media(
    call: &mut LiveVoiceCall,
    body: &[u8],
    started: &mut Vec<RelayActivation>,
) -> (r: Result<String, VolteError>)
    ensures
        came_about(
            final_body_outcome(old(call)@, body@),
            final(call)@,
            activations(old(started)@),
            activations(final(started)@),
            r,
        ),
{
    if body.len() == 0 {
        proof {
            let before = activations(started@);
            assert(before + Seq::<ActivationView>::empty() =~= before);
        }
        return match &call.early_answer {
            Some(answer) => Ok(answer.clone()),
            None => Err(VolteError::with_detail("volte_voice_sdp_invalid", "voice_sdp_empty")),
        };
    }
    prepare_operator_media(call, body, started)
}

/// The relay whose first operator packet answers the trunk side, where that is
/// not waited for already and a relay is in use.
pub open spec fn first_rtp_relay(call: CallView) -> Option<u64> {
    if call.ip_answer_wait_armed {
        None
    } else {
        call.active_relay
    }
}

/// The call once it waits for the operator's first packet.
pub open spec fn armed(call: CallView) -> CallView {
    CallView {
        ip_answer_wait_armed: call.ip_answer_wait_armed || call.active_relay is Some,
        ..call
    }
}

/// Waits, once per call, for the first packet of the operator.
pub fn arm_first_rtp_ip_answer(call: &mut LiveVoiceCall) -> (r: Option<u64>)
    ensures
        r == first_rtp_relay(old(call)@),
        final(call)@ == armed(old(call)@),
{
    if call.ip_answer_wait_armed {
        return None;
    }
    match call.active_relay {
        Some(relay) => {
            call.ip_answer_wait_armed = true;
            Some(relay)
        },
        None => None,
    }
}

/// The wait for the operator's first packet is armed at most once.
pub proof fn first_rtp_is_armed_once(call: CallView)
    requires
        first_rtp_relay(call) is Some,
    ensures
        first_rtp_relay(armed(call)) is None,
{
}

/// An empty final answer repeats the early answer and starts no relay.
pub proof fn empty_final_answer_repeats_early_answer(call: CallView, body: Seq<u8>)
    requires
        call.early_answer is Some,
        body.len() == 0,
    ensures
        final_body_outcome(call, body).result == Ok::<Seq<char>, ErrorView>(call.early_answer->0),
        final_body_outcome(call, body).call == call,
        final_body_outcome(call, body).activations.len() == 0,
{
}

} // verus!
