//! What the two sides of a call read in the descriptions that the relay answers with.

use vstd::prelude::*;
use vstd::string::*;
use vstd::utf8::encode_utf8;

use crate::calls::media::{
    incoming_outcome, internal_formats, operator_formats, operator_outcome,
};
use crate::calls::relaying::{lemma_matching, same_encoding};
use crate::calls::CallView;
use crate::sdp::written::{
    audio_alone_holds_no_video, offerable, opposite, relayed_audio_is_read_back,
    relayed_video_is_read_back, writable,
};
use crate::sdp::{audio_of, event_of, matching, video_of, AudioView, EventView, Format, VideoView};

verus! {

/// Some format of the list is the encoding of `f`.
pub open spec fn encodes(list: Seq<Format>, f: Format) -> bool {
    exists|i: int| 0 <= i < list.len() && #[trigger] same_encoding(list[i], f)
}

proof fn lemma_internal(operator: Seq<Format>, internal: Seq<Format>)
    ensures
        ({
            let r = internal_formats(operator, internal);
            forall|k: int|
                0 <= k < r.len() ==> internal.contains(#[trigger] r[k]) && encodes(operator, r[k])
        }),
    decreases operator.len(),
{
    let r = internal_formats(operator, internal);
    if operator.len() > 0 {
        let d = operator.drop_last();
        let last = operator.last();
        let front = internal_formats(d, internal);
        lemma_internal(d, internal);
        lemma_matching(internal, last);
        assert forall|k: int| 0 <= k < r.len() implies internal.contains(#[trigger] r[k])
            && encodes(operator, r[k]) by {
            if k < front.len() {
                assert(r[k] == front[k]);
                let i = choose|i: int| 0 <= i < d.len() && #[trigger] same_encoding(d[i], r[k]);
                assert(same_encoding(operator[i], r[k]));
            } else {
                assert(same_encoding(operator[operator.len() - 1], r[k]));
            }
        }
    }
}

proof fn lemma_operator(operator: Seq<Format>, internal: Seq<Format>)
    ensures
        ({
            let r = operator_formats(operator, internal);
            forall|k: int|
                0 <= k < r.len() ==> operator.contains(#[trigger] r[k]) && encodes(internal, r[k])
        }),
    decreases operator.len(),
{
    let r = operator_formats(operator, internal);
    if operator.len() > 0 {
        let d = operator.drop_last();
        let last = operator.last();
        let front = operator_formats(d, internal);
        lemma_operator(d, internal);
        lemma_matching(internal, last);
        assert forall|k: int| 0 <= k < r.len() implies operator.contains(#[trigger] r[k])
            && encodes(internal, r[k]) by {
            if k < front.len() {
                assert(r[k] == front[k]);
                let i = choose|i: int| 0 <= i < d.len() && d[i] == r[k];
                assert(operator[i] == r[k]);
            } else {
                assert(r[k] == operator[operator.len() - 1]);
                let m = matching(internal, last)->0;
                let j = choose|j: int| 0 <= j < internal.len() && internal[j] == m && same_encoding(
                    last,
                    #[trigger] internal[j],
                );
                assert(same_encoding(internal[j], r[k]));
            }
        }
    }
}

proof fn lemma_still_offerable(all: Seq<Format>, some: Seq<Format>, event: Option<EventView>)
    requires
        offerable(all, event),
        forall|k: int| 0 <= k < some.len() ==> all.contains(#[trigger] some[k]),
    ensures
        offerable(some, event),
{
    assert forall|i: int| 0 <= i < some.len() implies writable(#[trigger] some[i])
        && !crate::sdp::is_telephone_event(some[i]) by {
        let j = all.index_of(some[i]);
        assert(all[j] == some[i]);
    }
    assert forall|i: int, j: int|
        0 <= i < some.len() && 0 <= j < some.len() && (#[trigger] some[i]).payload == (
        #[trigger] some[j]).payload implies some[i] == some[j] by {
        let a = all.index_of(some[i]);
        let b = all.index_of(some[j]);
        assert(all[a] == some[i] && all[b] == some[j]);
    }
    if event is Some {
        assert forall|i: int| 0 <= i < some.len() implies (#[trigger] some[i]).payload
            != event->0.payload by {
            let j = all.index_of(some[i]);
            assert(all[j] == some[i]);
        }
    }
}

/// Where the operator's answer is agreed on, the trunk reads the relay's own endpoint, only
/// formats that it offered itself and the operator knows, its own telephone events, and the
/// operator's direction seen from its side; and a video section exactly where both sides
/// have video and the relay has endpoints for it.
pub proof fn trunk_reads_the_relay(
    call: CallView,
    audio: AudioView,
    video: Option<VideoView>,
    event: Option<EventView>,
)
    requires
        operator_outcome(call, audio, video, event).result is Ok,
        offerable(call.internal_offer.audio.formats, call.internal_offer.event),
        video is Some ==> writable(video->0.format),
    ensures
        ({
            let offer = call.internal_offer;
            let body = encode_utf8(operator_outcome(call, audio, video, event).result->Ok_0);
            let heard = audio_of(body);
            let seen = video_of(body);
            &&& heard is Ok
            &&& heard->Ok_0.addr == call.internal_local.ip.text()
            &&& heard->Ok_0.port == call.internal_local.port
            &&& heard->Ok_0.direction == opposite(audio.direction)
            &&& heard->Ok_0.formats.len() > 0
            &&& forall|k: int|
                0 <= k < heard->Ok_0.formats.len() ==> offer.audio.formats.contains(
                    #[trigger] heard->Ok_0.formats[k],
                ) && encodes(audio.formats, heard->Ok_0.formats[k])
            &&& event_of(body) == offer.event
            &&& seen is Some <==> offer.video is Some && video is Some
                && call.operator_video_local is Some && call.internal_video_local is Some
            &&& seen is Some ==> {
                &&& seen->0.addr == Some(call.internal_video_local->0.ip.text())
                &&& seen->0.port == call.internal_video_local->0.port
                &&& same_encoding(seen->0.format, offer.video->0.description.format)
                &&& seen->0.direction == opposite(video->0.direction)
            }
        }),
{
    reveal(operator_outcome);
    let offer = call.internal_offer;
    let formats = internal_formats(audio.formats, offer.audio.formats);
    let d = opposite(audio.direction);
    lemma_internal(audio.formats, offer.audio.formats);
    lemma_still_offerable(offer.audio.formats, formats, offer.event);
    relayed_audio_is_read_back(formats, d, offer.event, call.internal_local);
    audio_alone_holds_no_video(formats, d, offer.event, call.internal_local);
    if offer.video is Some && video is Some && call.operator_video_local is Some
        && call.internal_video_local is Some {
        relayed_video_is_read_back(
            formats,
            d,
            offer.event,
            call.internal_local,
            video->0.format,
            opposite(video->0.direction),
            call.internal_video_local->0,
        );
    }
}

/// Where the trunk's answer is agreed on, the operator reads the relay's own endpoint
/// towards it, only formats that it offered itself and the trunk knows, its own telephone
/// events, and the trunk's direction seen from its side; and its own video format, where
/// both sides have video and the relay has an endpoint for it.
pub proof fn operator_reads_the_relay(
    call: CallView,
    audio: AudioView,
    video: Option<VideoView>,
    event: Option<EventView>,
)
    requires
        incoming_outcome(call, audio, video, event).result is Ok,
        offerable(call.internal_offer.audio.formats, call.internal_offer.event),
        call.internal_offer.video is Some ==> writable(
            call.internal_offer.video->0.description.format,
        ),
    ensures
        ({
            let offer = call.internal_offer;
            let body = encode_utf8(incoming_outcome(call, audio, video, event).result->Ok_0);
            let heard = audio_of(body);
            let seen = video_of(body);
            &&& heard is Ok
            &&& heard->Ok_0.addr == call.operator_local.ip.text()
            &&& heard->Ok_0.port == call.operator_local.port
            &&& heard->Ok_0.direction == opposite(audio.direction)
            &&& heard->Ok_0.formats.len() > 0
            &&& forall|k: int|
                0 <= k < heard->Ok_0.formats.len() ==> offer.audio.formats.contains(
                    #[trigger] heard->Ok_0.formats[k],
                ) && encodes(audio.formats, heard->Ok_0.formats[k])
            &&& event_of(body) == offer.event
            &&& seen is Some <==> offer.video is Some && video is Some
                && call.operator_video_local is Some
            &&& seen is Some ==> {
                &&& seen->0.addr == Some(call.operator_video_local->0.ip.text())
                &&& seen->0.port == call.operator_video_local->0.port
                &&& seen->0.format == offer.video->0.description.format
                &&& same_encoding(seen->0.format, video->0.format)
                &&& seen->0.direction == opposite(video->0.direction)
            }
        }),
{
    reveal(incoming_outcome);
    let offer = call.internal_offer;
    let formats = operator_formats(offer.audio.formats, audio.formats);
    let d = opposite(audio.direction);
    lemma_operator(offer.audio.formats, audio.formats);
    lemma_still_offerable(offer.audio.formats, formats, offer.event);
    relayed_audio_is_read_back(formats, d, offer.event, call.operator_local);
    audio_alone_holds_no_video(formats, d, offer.event, call.operator_local);
    if offer.video is Some && video is Some && call.operator_video_local is Some {
        relayed_video_is_read_back(
            formats,
            d,
            offer.event,
            call.operator_local,
            offer.video->0.description.format,
            opposite(video->0.direction),
            call.operator_video_local->0,
        );
    }
}

} // verus!
