//! What holds of every relay that a negotiation starts: its numbers, its endpoints and
//! its answer.

use vstd::prelude::*;
use vstd::string::*;

use crate::calls::media::{
    event_mapping, format_mappings, incoming_outcome, internal_formats, mapping, operator_formats,
    operator_outcome, PayloadTypeMapping,
};
use crate::calls::CallView;
use crate::sdp::{
    audio_endpoint, formats_match, matching, video_endpoint, AudioView, EventView, Format,
    VideoView,
};
use crate::text::lower;

verus! {

/// The two formats are one encoding: the same name, in any case, at the same clock rate.
pub open spec fn same_encoding(a: Format, b: Format) -> bool {
    lower(a.name) == lower(b.name) && a.clock == b.clock
}

/// The payload numbers fit a packet.
pub open spec fn numbers_fit(formats: Seq<Format>) -> bool {
    forall|i: int| 0 <= i < formats.len() ==> (#[trigger] formats[i]).payload < 256
}

pub open spec fn event_fits(event: Option<EventView>) -> bool {
    event is Some ==> event->0.payload < 256
}

/// The first trunk format that is the encoding of an operator's format.
pub open spec fn counterpart(operator: Format, internal: Seq<Format>, j: int) -> bool {
    &&& 0 <= j < internal.len()
    &&& same_encoding(operator, internal[j])
    &&& forall|k: int| 0 <= k < j ==> !same_encoding(operator, #[trigger] internal[k])
}

/// The mapping takes a number of the operator's to the number that the trunk has for the
/// same encoding, and the two differ.
pub open spec fn names_a_format(
    m: PayloadTypeMapping,
    operator: Seq<Format>,
    internal: Seq<Format>,
) -> bool {
    exists|i: int, j: int|
        0 <= i < operator.len() && #[trigger] counterpart(operator[i], internal, j) && m.operator
            == operator[i].payload && m.internal == internal[j].payload && m.operator != m.internal
}

/// The mapping takes the operator's telephone events to the trunk's.
pub open spec fn names_events(
    m: PayloadTypeMapping,
    operator: Option<EventView>,
    internal: Option<EventView>,
) -> bool {
    operator is Some && internal is Some && m.operator == operator->0.payload && m.internal
        == internal->0.payload && m.operator != m.internal
}

/// Every mapping is one between the two sides, and none is missing: each encoding that
/// both sides list under different numbers is mapped, and so are telephone events.
pub open spec fn translates(
    mappings: Seq<PayloadTypeMapping>,
    operator: Seq<Format>,
    internal: Seq<Format>,
    operator_event: Option<EventView>,
    internal_event: Option<EventView>,
) -> bool {
    &&& forall|k: int|
        0 <= k < mappings.len() ==> names_a_format(#[trigger] mappings[k], operator, internal)
            || names_events(mappings[k], operator_event, internal_event)
    &&& forall|i: int, j: int|
        0 <= i < operator.len() && #[trigger] counterpart(operator[i], internal, j)
            && operator[i].payload != internal[j].payload ==> exists|k: int|
            0 <= k < mappings.len() && (#[trigger] mappings[k]).operator == operator[i].payload
                && mappings[k].internal == internal[j].payload
    &&& operator_event is Some && internal_event is Some && operator_event->0.payload
        != internal_event->0.payload ==> exists|k: int|
        0 <= k < mappings.len() && (#[trigger] mappings[k]).operator == operator_event->0.payload
            && mappings[k].internal == internal_event->0.payload
}

pub(crate) proof fn lemma_matching(formats: Seq<Format>, wanted: Format)
    ensures
        match matching(formats, wanted) {
            Some(found) => exists|j: int|
                #[trigger] counterpart(wanted, formats, j) && formats[j] == found,
            None => forall|j: int|
                0 <= j < formats.len() ==> !same_encoding(wanted, #[trigger] formats[j]),
        },
    decreases formats.len(),
{
    if formats.len() > 0 {
        let rest = formats.drop_first();
        if formats_match(formats[0], wanted) {
            assert(counterpart(wanted, formats, 0));
        } else {
            lemma_matching(rest, wanted);
            assert(!same_encoding(wanted, formats[0]));
            if matching(rest, wanted) is Some {
                let j = choose|j: int|
                    #[trigger] counterpart(wanted, rest, j) && rest[j] == matching(rest, wanted)->0;
                assert(formats[j + 1] == rest[j]);
                assert forall|k: int| 0 <= k < j + 1 implies !same_encoding(
                    wanted,
                    #[trigger] formats[k],
                ) by {
                    if k > 0 {
                        assert(rest[k - 1] == formats[k]);
                    }
                }
                assert(counterpart(wanted, formats, j + 1));
            } else {
                assert forall|k: int| 0 <= k < formats.len() implies !same_encoding(
                    wanted,
                    #[trigger] formats[k],
                ) by {
                    if k > 0 {
                        assert(rest[k - 1] == formats[k]);
                    }
                }
            }
        }
    }
}

/// There is one counterpart at most.
proof fn lemma_one_counterpart(operator: Format, internal: Seq<Format>, a: int, b: int)
    requires
        counterpart(operator, internal, a),
        counterpart(operator, internal, b),
    ensures
        a == b,
{
    if a < b {
        assert(!same_encoding(operator, internal[a]));
    } else if b < a {
        assert(!same_encoding(operator, internal[b]));
    }
}

proof fn lemma_found(operator: Format, internal: Seq<Format>, j: int)
    requires
        counterpart(operator, internal, j),
    ensures
        matching(internal, operator) == Some(internal[j]),
{
    lemma_matching(internal, operator);
    if matching(internal, operator) is Some {
        let k = choose|k: int|
            #[trigger] counterpart(operator, internal, k) && internal[k] == matching(
                internal,
                operator,
            )->0;
        lemma_one_counterpart(operator, internal, j, k);
    } else {
        assert(!same_encoding(operator, internal[j]));
    }
}

proof fn lemma_format_mappings(operator: Seq<Format>, internal: Seq<Format>)
    requires
        numbers_fit(operator),
        numbers_fit(internal),
    ensures
        forall|k: int|
            0 <= k < format_mappings(operator, internal).len() ==> names_a_format(
                #[trigger] format_mappings(operator, internal)[k],
                operator,
                internal,
            ),
        forall|i: int, j: int|
            0 <= i < operator.len() && #[trigger] counterpart(operator[i], internal, j)
                && operator[i].payload != internal[j].payload ==> format_mappings(
                operator,
                internal,
            ).contains(mapping(operator[i].payload, internal[j].payload)),
    decreases operator.len(),
{
    let all = format_mappings(operator, internal);
    if operator.len() > 0 {
        let front = operator.drop_last();
        let before = format_mappings(front, internal);
        let last = operator.last();
        let n = operator.len() - 1;
        assert forall|i: int| 0 <= i < front.len() implies (#[trigger] front[i]).payload < 256 by {
            assert(front[i] == operator[i]);
        }
        lemma_format_mappings(front, internal);
        lemma_matching(internal, last);
        assert(operator[n].payload < 256);
        assert forall|k: int| 0 <= k < all.len() implies names_a_format(
            #[trigger] all[k],
            operator,
            internal,
        ) by {
            if k < before.len() {
                assert(all[k] == before[k]);
                assert(names_a_format(before[k], front, internal));
                let (i, j) = choose|i: int, j: int|
                    0 <= i < front.len() && #[trigger] counterpart(front[i], internal, j)
                        && before[k].operator == front[i].payload && before[k].internal
                        == internal[j].payload && before[k].operator != before[k].internal;
                assert(front[i] == operator[i]);
                assert(counterpart(operator[i], internal, j));
            } else {
                let j = choose|j: int|
                    #[trigger] counterpart(last, internal, j) && internal[j] == matching(
                        internal,
                        last,
                    )->0;
                assert(internal[j].payload < 256);
                assert(counterpart(operator[n], internal, j));
            }
        }
        assert forall|i: int, j: int|
            0 <= i < operator.len() && #[trigger] counterpart(operator[i], internal, j)
                && operator[i].payload != internal[j].payload implies all.contains(
            mapping(operator[i].payload, internal[j].payload),
        ) by {
            let m = mapping(operator[i].payload, internal[j].payload);
            if i < n {
                assert(front[i] == operator[i]);
                assert(counterpart(front[i], internal, j));
                assert(before.contains(m));
                let k = before.index_of(m);
                assert(all[k] == m);
            } else {
                lemma_found(last, internal, j);
                assert(all.last() == m);
            }
        }
    }
}

proof fn lemma_translates(
    operator: Seq<Format>,
    internal: Seq<Format>,
    operator_event: Option<EventView>,
    internal_event: Option<EventView>,
)
    requires
        numbers_fit(operator),
        numbers_fit(internal),
        event_fits(operator_event),
        event_fits(internal_event),
    ensures
        translates(
            format_mappings(operator, internal) + event_mapping(operator_event, internal_event),
            operator,
            internal,
            operator_event,
            internal_event,
        ),
{
    let formats = format_mappings(operator, internal);
    let events = event_mapping(operator_event, internal_event);
    let all = formats + events;
    lemma_format_mappings(operator, internal);
    assert forall|k: int| 0 <= k < all.len() implies names_a_format(
        #[trigger] all[k],
        operator,
        internal,
    ) || names_events(all[k], operator_event, internal_event) by {
        if k < formats.len() {
            assert(all[k] == formats[k]);
        }
    }
    assert forall|i: int, j: int|
        0 <= i < operator.len() && #[trigger] counterpart(operator[i], internal, j)
            && operator[i].payload != internal[j].payload implies exists|k: int|
        0 <= k < all.len() && (#[trigger] all[k]).operator == operator[i].payload && all[k].internal
            == internal[j].payload by {
        let m = mapping(operator[i].payload, internal[j].payload);
        assert(operator[i].payload < 256 && internal[j].payload < 256);
        assert(formats.contains(m));
        let k = formats.index_of(m);
        assert(all[k] == m);
    }
    if events.len() > 0 {
        assert(all[formats.len() as int] == events[0]);
    }
}

/// The operator's formats that are mapped are those of its offer.
proof fn lemma_operator_formats(operator: Seq<Format>, internal: Seq<Format>)
    ensures
        forall|f: Format| #[trigger]
            operator_formats(operator, internal).contains(f) <==> operator.contains(f) && matching(
                internal,
                f,
            ) is Some,
    decreases operator.len(),
{
    let all = operator_formats(operator, internal);
    if operator.len() > 0 {
        let front = operator.drop_last();
        let before = operator_formats(front, internal);
        let last = operator.last();
        lemma_operator_formats(front, internal);
        assert forall|f: Format| #[trigger] all.contains(f) <==> operator.contains(f) && matching(
            internal,
            f,
        ) is Some by {
            if before.contains(f) {
                let k = before.index_of(f);
                assert(all[k] == f);
            }
            if front.contains(f) {
                let k = front.index_of(f);
                assert(operator[k] == f);
            }
            assert(operator[operator.len() - 1] == last);
            if matching(internal, last) is Some {
                assert(all[all.len() - 1] == last);
            }
            if all.contains(f) && f != last {
                let k = all.index_of(f);
                assert(before[k] == f);
            }
            if operator.contains(f) && f != last {
                let k = operator.index_of(f);
                assert(front[k] == f);
            }
        }
    }
}

proof fn lemma_translates_offer(
    offered: Seq<Format>,
    internal: Seq<Format>,
    operator_event: Option<EventView>,
    internal_event: Option<EventView>,
)
    requires
        numbers_fit(offered),
        numbers_fit(internal),
        event_fits(operator_event),
        event_fits(internal_event),
    ensures
        translates(
            format_mappings(operator_formats(offered, internal), internal) + event_mapping(
                operator_event,
                internal_event,
            ),
            offered,
            internal,
            operator_event,
            internal_event,
        ),
{
    let formats = operator_formats(offered, internal);
    lemma_operator_formats(offered, internal);
    assert forall|i: int| 0 <= i < formats.len() implies (#[trigger] formats[i]).payload < 256 by {
        assert(formats.contains(formats[i]));
        let k = offered.index_of(formats[i]);
        assert(offered[k].payload < 256);
    }
    lemma_translates(formats, internal, operator_event, internal_event);
    let all = format_mappings(formats, internal) + event_mapping(operator_event, internal_event);
    assert forall|k: int| 0 <= k < all.len() implies names_a_format(
        #[trigger] all[k],
        offered,
        internal,
    ) || names_events(all[k], operator_event, internal_event) by {
        if names_a_format(all[k], formats, internal) {
            let (i, j) = choose|i: int, j: int|
                0 <= i < formats.len() && #[trigger] counterpart(formats[i], internal, j)
                    && all[k].operator == formats[i].payload && all[k].internal
                    == internal[j].payload && all[k].operator != all[k].internal;
            assert(formats.contains(formats[i]));
            let n = offered.index_of(formats[i]);
            assert(counterpart(offered[n], internal, j));
        }
    }
    assert forall|i: int, j: int|
        0 <= i < offered.len() && #[trigger] counterpart(offered[i], internal, j)
            && offered[i].payload != internal[j].payload implies exists|k: int|
        0 <= k < all.len() && (#[trigger] all[k]).operator == offered[i].payload && all[k].internal
            == internal[j].payload by {
        lemma_found(offered[i], internal, j);
        assert(offered.contains(offered[i]));
        assert(formats.contains(offered[i]));
        let n = formats.index_of(offered[i]);
        assert(counterpart(formats[n], internal, j));
    }
}

/// The relay that an answer of the operator starts joins the two sides: it sends to the
/// operator's endpoint and to the trunk's, translates each side's payload numbers into
/// the other's, and keeps the direction that each side asked for. It is the relay that
/// was bound for the call, and it is the one in use from then on.
pub proof fn operator_answer_joins_the_sides(
    call: CallView,
    audio: AudioView,
    video: Option<VideoView>,
    event: Option<EventView>,
)
    requires
        call.pending_relay is Some,
        operator_outcome(call, audio, video, event).activations.len() > 0,
        numbers_fit(audio.formats),
        numbers_fit(call.internal_offer.audio.formats),
        event_fits(event),
        event_fits(call.internal_offer.event),
    ensures
        ({
            let outcome = operator_outcome(call, audio, video, event);
            let relay = outcome.activations[0];
            let offer = call.internal_offer;
            &&& relay.relay == call.pending_relay->0
            &&& outcome.call.active_relay == call.pending_relay
            &&& outcome.call.pending_relay is None
            &&& audio_endpoint(audio) is Ok
            &&& relay.operator_remote == audio_endpoint(audio)->Ok_0
            &&& relay.internal_remote == offer.audio_endpoint
            &&& relay.directions == Some((audio.direction, offer.audio.direction))
            &&& translates(
                relay.mappings,
                audio.formats,
                offer.audio.formats,
                event,
                offer.event,
            )
        }),
{
    reveal(operator_outcome);
    lemma_translates(audio.formats, call.internal_offer.audio.formats, event, call.internal_offer.event);
}

/// The relay that an answer of the trunk starts joins the two sides in the same way; here
/// the operator's side is the one that was offered.
pub proof fn trunk_answer_joins_the_sides(
    call: CallView,
    audio: AudioView,
    video: Option<VideoView>,
    event: Option<EventView>,
)
    requires
        call.pending_relay is Some,
        incoming_outcome(call, audio, video, event).activations.len() > 0,
        numbers_fit(audio.formats),
        numbers_fit(call.internal_offer.audio.formats),
        event_fits(event),
        event_fits(call.internal_offer.event),
    ensures
        ({
            let outcome = incoming_outcome(call, audio, video, event);
            let relay = outcome.activations[0];
            let offer = call.internal_offer;
            &&& relay.relay == call.pending_relay->0
            &&& outcome.call.active_relay == call.pending_relay
            &&& outcome.call.pending_relay is None
            &&& audio_endpoint(audio) is Ok
            &&& relay.operator_remote == offer.audio_endpoint
            &&& relay.internal_remote == audio_endpoint(audio)->Ok_0
            &&& relay.directions == Some((offer.audio.direction, audio.direction))
            &&& translates(
                relay.mappings,
                offer.audio.formats,
                audio.formats,
                offer.event,
                event,
            )
        }),
{
    reveal(incoming_outcome);
    lemma_translates_offer(
        call.internal_offer.audio.formats,
        audio.formats,
        call.internal_offer.event,
        event,
    );
}

/// The two sides have an encoding in common.
pub open spec fn share_an_encoding(a: Seq<Format>, b: Seq<Format>) -> bool {
    exists|i: int, j: int|
        0 <= i < a.len() && 0 <= j < b.len() && #[trigger] same_encoding(a[i], b[j])
}

proof fn lemma_common(operator: Seq<Format>, internal: Seq<Format>)
    ensures
        internal_formats(operator, internal).len() > 0 <==> share_an_encoding(operator, internal),
        operator_formats(operator, internal).len() > 0 <==> share_an_encoding(operator, internal),
    decreases operator.len(),
{
    if operator.len() > 0 {
        let front = operator.drop_last();
        let last = operator.last();
        let n = operator.len() - 1;
        lemma_common(front, internal);
        lemma_matching(internal, last);
        if share_an_encoding(front, internal) {
            let (i, j) = choose|i: int, j: int|
                0 <= i < front.len() && 0 <= j < internal.len() && #[trigger] same_encoding(
                    front[i],
                    internal[j],
                );
            assert(same_encoding(operator[i], internal[j]));
        }
        if matching(internal, last) is Some {
            let j = choose|j: int|
                #[trigger] counterpart(last, internal, j) && internal[j] == matching(
                    internal,
                    last,
                )->0;
            assert(same_encoding(operator[n], internal[j]));
        }
        if share_an_encoding(operator, internal) {
            let (i, j) = choose|i: int, j: int|
                0 <= i < operator.len() && 0 <= j < internal.len() && #[trigger] same_encoding(
                    operator[i],
                    internal[j],
                );
            if i < n {
                assert(same_encoding(front[i], internal[j]));
            } else {
                assert(same_encoding(last, internal[j]));
            }
        }
    }
}

/// Media is agreed on exactly where the answer names an endpoint, the two sides have an
/// encoding in common and there is a relay for it; nothing is started otherwise. Here
/// for calls without video.
pub proof fn audio_is_agreed_on_when_it_can_be(
    call: CallView,
    audio: AudioView,
    event: Option<EventView>,
)
    ensures
        ({
            let able = audio_endpoint(audio) is Ok && (call.pending_relay is Some
                || call.active_relay is Some);
            let ours = call.internal_offer.audio.formats;
            let heard = operator_outcome(call, audio, None, event);
            let told = incoming_outcome(call, audio, None, event);
            &&& heard.result is Ok <==> able && share_an_encoding(audio.formats, ours)
            &&& told.result is Ok <==> able && share_an_encoding(ours, audio.formats)
            &&& heard.result is Err ==> heard.activations.len() == 0 && heard.call == call
            &&& told.result is Err ==> told.activations.len() == 0 && told.call == call
            &&& heard.result is Ok && call.pending_relay is Some ==> heard.activations.len() == 1
            &&& told.result is Ok && call.pending_relay is Some ==> told.activations.len() == 1
            &&& call.pending_relay is None ==> heard.activations.len() == 0
                && told.activations.len() == 0
        }),
{
    reveal(operator_outcome);
    reveal(incoming_outcome);
    lemma_common(audio.formats, call.internal_offer.audio.formats);
    lemma_common(call.internal_offer.audio.formats, audio.formats);
}

/// The video relay that a negotiation starts is the one that was bound for video: it
/// sends to the two sides' video endpoints and translates the operator's payload number
/// into the trunk's where they differ. It is only started for one and the same encoding.
pub proof fn video_relay_joins_the_sides(
    call: CallView,
    audio: AudioView,
    video: VideoView,
    event: Option<EventView>,
)
    requires
        call.pending_relay is Some,
        call.pending_video_relay is Some,
        call.internal_offer.video is Some,
        call.internal_offer.video->0.description.format.payload < 256,
        video.format.payload < 256,
    ensures
        ({
            let ours = call.internal_offer.video->0;
            let heard = operator_outcome(call, audio, Some(video), event);
            let told = incoming_outcome(call, audio, Some(video), event);
            &&& heard.activations.len() == 2 ==> {
                let relay = heard.activations[1];
                &&& same_encoding(video.format, ours.description.format)
                &&& relay.relay == call.pending_video_relay->0
                &&& heard.call.active_video_relay == call.pending_video_relay
                &&& video_endpoint(audio, video) is Ok
                &&& relay.operator_remote == video_endpoint(audio, video)->Ok_0
                &&& relay.internal_remote == ours.endpoint
                &&& translates(
                    relay.mappings,
                    seq![video.format],
                    seq![ours.description.format],
                    None,
                    None,
                )
            }
            &&& told.activations.len() == 2 ==> {
                let relay = told.activations[1];
                &&& same_encoding(video.format, ours.description.format)
                &&& relay.relay == call.pending_video_relay->0
                &&& told.call.active_video_relay == call.pending_video_relay
                &&& relay.operator_remote == ours.endpoint
                &&& video_endpoint(audio, video) is Ok
                &&& relay.internal_remote == video_endpoint(audio, video)->Ok_0
                &&& translates(
                    relay.mappings,
                    seq![ours.description.format],
                    seq![video.format],
                    None,
                    None,
                )
            }
            &&& !same_encoding(video.format, ours.description.format)
                && call.operator_video_local is Some && call.internal_video_local is Some
                ==> heard.result is Err && told.result is Err
        }),
{
    reveal(operator_outcome);
    reveal(incoming_outcome);
    let ours = call.internal_offer.video->0.description.format;
    if same_encoding(video.format, ours) {
        lemma_single(video.format, ours);
        lemma_single(ours, video.format);
    }
}

proof fn lemma_single(operator: Format, internal: Format)
    requires
        operator.payload < 256,
        internal.payload < 256,
        same_encoding(operator, internal),
    ensures
        translates(
            crate::calls::media::video_mapping(operator.payload, internal.payload),
            seq![operator],
            seq![internal],
            None,
            None,
        ),
{
    let all = crate::calls::media::video_mapping(operator.payload, internal.payload);
    assert(counterpart(seq![operator][0], seq![internal], 0));
    assert forall|k: int| 0 <= k < all.len() implies names_a_format(
        #[trigger] all[k],
        seq![operator],
        seq![internal],
    ) by {
        assert(counterpart(seq![operator][0], seq![internal], 0));
    }
    assert forall|i: int, j: int|
        0 <= i < 1 && #[trigger] counterpart(seq![operator][i], seq![internal], j)
            && seq![operator][i].payload != seq![internal][j].payload implies exists|k: int|
        0 <= k < all.len() && (#[trigger] all[k]).operator == operator.payload && all[k].internal
            == internal.payload by {
        assert(all[0].operator == operator.payload);
    }
}

} // verus!
