//! Voice calls of one registered line: their state and how it changes.

use vstd::prelude::*;

use crate::ip::SocketAddr;
use crate::sdp::{MediaOffer, OfferView};
use crate::text::opt;

pub mod actions;
pub mod commands;
pub mod dispatching;
pub mod frames;
pub mod lifecycle;
pub mod media;
pub mod answering;
pub mod relaying;
pub mod signalling;
pub mod table;

verus! {

/// Two independent dialogs are kept for call waiting; a further call is
/// rejected before any relay is allocated for it.
pub const MAX_CONCURRENT_CALLS: usize = 2;

/// How long a re-INVITE may stay unanswered, in milliseconds.
pub const REINVITE_TIMEOUT_MS: u64 = 32000;

/// How long a REFER may stay unanswered, in milliseconds.
pub const REFER_RESPONSE_TIMEOUT_MS: u64 = 32000;

#[derive(Debug, Clone, Copy, PartialEq, Eq, Structural)]
pub enum LiveVoiceDirection {
    MobileOriginated,
    MobileTerminated,
}

/// The identifiers of one SIP dialog.
#[derive(Debug, PartialEq, Eq)]
pub struct DialogIds {
    pub call_id: String,
    pub local_tag: String,
    pub remote_tag: Option<String>,
    pub cseq: u32,
}

impl Clone for DialogIds {
    fn clone(&self) -> (r: Self)
        ensures
            r == *self,
    {
        DialogIds {
            call_id: self.call_id.clone(),
            local_tag: self.local_tag.clone(),
            remote_tag: self.remote_tag.clone(),
            cseq: self.cseq,
        }
    }
}

/// What a dialog is identified by.
pub struct DialogView {
    pub call_id: Seq<char>,
    pub local_tag: Seq<char>,
    pub remote_tag: Option<Seq<char>>,
    pub cseq: u32,
}

impl View for DialogIds {
    type V = DialogView;

    open spec fn view(&self) -> DialogView {
        DialogView {
            call_id: self.call_id@,
            local_tag: self.local_tag@,
            remote_tag: opt(self.remote_tag),
            cseq: self.cseq,
        }
    }
}

/// The relay sockets bound for one media stream. `relay` is the number by which
/// the owner of the sockets knows them.
#[derive(Debug, Clone, Copy, PartialEq, Eq, Structural)]
pub struct RelaySockets {
    pub relay: u64,
    pub operator_local: SocketAddr,
    pub internal_local: SocketAddr,
}

/// The progress of a transfer that was asked for in a dialog.
#[derive(Debug, Clone, Copy, PartialEq, Eq, Structural)]
pub struct DialogTransfer {
    /// The sequence number of the REFER.
    pub refer_cseq: u32,
    /// The transfer has come to its end, in success or failure.
    pub finished: bool,
}

/// The confirmed media of a call, kept while a re-INVITE is in flight.
#[derive(Debug, PartialEq, Eq)]
pub struct LiveVoiceMediaSnapshot {
    pub internal_offer: MediaOffer,
    pub operator_local: SocketAddr,
    pub internal_local: SocketAddr,
    pub operator_video_local: Option<SocketAddr>,
    pub internal_video_local: Option<SocketAddr>,
}

/// One call. Relays are held by number; deadlines are in milliseconds.
#[derive(Debug, PartialEq, Eq)]
pub struct LiveVoiceCall {
    pub direction: LiveVoiceDirection,
    pub dialog: DialogIds,
    pub callee_uri: String,
    pub invite_branch: String,
    pub initial_invite: Option<Vec<u8>>,
    pub internal_offer: MediaOffer,
    pub operator_local: SocketAddr,
    pub internal_local: SocketAddr,
    pub pending_relay: Option<u64>,
    pub active_relay: Option<u64>,
    pub ip_answer_wait_armed: bool,
    pub operator_answered: bool,
    pub next_cseq: u32,
    pub pending_operator_reinvite: Option<Vec<u8>>,
    pub pending_asterisk_reinvite: bool,
    pub pending_video_relay: Option<u64>,
    pub active_video_relay: Option<u64>,
    pub operator_video_local: Option<SocketAddr>,
    pub internal_video_local: Option<SocketAddr>,
    pub pending_media_rollback: Option<LiveVoiceMediaSnapshot>,
    pub renegotiation_deadline: Option<u64>,
    /// The answer already negotiated from a provisional response. The operator
    /// does not repeat it in the final one, so it is kept for that.
    pub early_answer: Option<String>,
    pub transfer: Option<DialogTransfer>,
    pub transfer_deadline: Option<u64>,
}

/// What is known of a call.
pub struct CallView {
    pub direction: LiveVoiceDirection,
    pub dialog: DialogView,
    pub callee_uri: Seq<char>,
    pub invite_branch: Seq<char>,
    pub initial_invite: Option<Seq<u8>>,
    pub internal_offer: OfferView,
    pub operator_local: SocketAddr,
    pub internal_local: SocketAddr,
    pub pending_relay: Option<u64>,
    pub active_relay: Option<u64>,
    pub ip_answer_wait_armed: bool,
    pub operator_answered: bool,
    pub next_cseq: u32,
    pub pending_operator_reinvite: Option<Seq<u8>>,
    pub pending_asterisk_reinvite: bool,
    pub pending_video_relay: Option<u64>,
    pub active_video_relay: Option<u64>,
    pub operator_video_local: Option<SocketAddr>,
    pub internal_video_local: Option<SocketAddr>,
    pub pending_media_rollback: Option<SnapshotView>,
    pub renegotiation_deadline: Option<u64>,
    pub early_answer: Option<Seq<char>>,
    pub transfer: Option<DialogTransfer>,
    pub transfer_deadline: Option<u64>,
}

/// What is known of the confirmed media of a call.
pub struct SnapshotView {
    pub internal_offer: OfferView,
    pub operator_local: SocketAddr,
    pub internal_local: SocketAddr,
    pub operator_video_local: Option<SocketAddr>,
    pub internal_video_local: Option<SocketAddr>,
}

impl View for LiveVoiceMediaSnapshot {
    type V = SnapshotView;

    open spec fn view(&self) -> SnapshotView {
        SnapshotView {
            internal_offer: self.internal_offer@,
            operator_local: self.operator_local,
            internal_local: self.internal_local,
            operator_video_local: self.operator_video_local,
            internal_video_local: self.internal_video_local,
        }
    }
}

/// The bytes behind an optional frame.
pub open spec fn opt_bytes(frame: Option<Vec<u8>>) -> Option<Seq<u8>> {
    match frame {
        Some(bytes) => Some(bytes@),
        None => None,
    }
}

impl View for LiveVoiceCall {
    type V = CallView;

    open spec fn view(&self) -> CallView {
        CallView {
            direction: self.direction,
            dialog: self.dialog@,
            callee_uri: self.callee_uri@,
            invite_branch: self.invite_branch@,
            initial_invite: opt_bytes(self.initial_invite),
            internal_offer: self.internal_offer@,
            operator_local: self.operator_local,
            internal_local: self.internal_local,
            pending_relay: self.pending_relay,
            active_relay: self.active_relay,
            ip_answer_wait_armed: self.ip_answer_wait_armed,
            operator_answered: self.operator_answered,
            next_cseq: self.next_cseq,
            pending_operator_reinvite: opt_bytes(self.pending_operator_reinvite),
            pending_asterisk_reinvite: self.pending_asterisk_reinvite,
            pending_video_relay: self.pending_video_relay,
            active_video_relay: self.active_video_relay,
            operator_video_local: self.operator_video_local,
            internal_video_local: self.internal_video_local,
            pending_media_rollback: match self.pending_media_rollback {
                Some(snapshot) => Some(snapshot@),
                None => None,
            },
            renegotiation_deadline: self.renegotiation_deadline,
            early_answer: opt(self.early_answer),
            transfer: self.transfer,
            transfer_deadline: self.transfer_deadline,
        }
    }
}

/// The local endpoint of an optional video relay.
pub open spec fn video_operator_local(video: Option<RelaySockets>) -> Option<SocketAddr> {
    match video {
        Some(sockets) => Some(sockets.operator_local),
        None => None,
    }
}

pub open spec fn video_internal_local(video: Option<RelaySockets>) -> Option<SocketAddr> {
    match video {
        Some(sockets) => Some(sockets.internal_local),
        None => None,
    }
}

pub open spec fn video_relay(video: Option<RelaySockets>) -> Option<u64> {
    match video {
        Some(sockets) => Some(sockets.relay),
        None => None,
    }
}

impl CallView {
    /// The confirmed media of this call.
    pub open spec fn confirmed_media(self) -> SnapshotView {
        SnapshotView {
            internal_offer: self.internal_offer,
            operator_local: self.operator_local,
            internal_local: self.internal_local,
            operator_video_local: self.operator_video_local,
            internal_video_local: self.internal_video_local,
        }
    }

    /// The call with new media staged and the old kept for rollback.
    pub open spec fn staged(
        self,
        offer: OfferView,
        audio: RelaySockets,
        video: Option<RelaySockets>,
    ) -> CallView {
        CallView {
            pending_media_rollback: Some(self.confirmed_media()),
            internal_offer: offer,
            pending_relay: Some(audio.relay),
            operator_local: audio.operator_local,
            internal_local: audio.internal_local,
            pending_video_relay: video_relay(video),
            operator_video_local: video_operator_local(video),
            internal_video_local: video_internal_local(video),
            ..self
        }
    }

    /// The call with its staged media given up.
    pub open spec fn rolled_back(self) -> CallView {
        match self.pending_media_rollback {
            Some(snapshot) => CallView {
                pending_relay: None,
                pending_video_relay: None,
                pending_media_rollback: None,
                internal_offer: snapshot.internal_offer,
                operator_local: snapshot.operator_local,
                internal_local: snapshot.internal_local,
                operator_video_local: snapshot.operator_video_local,
                internal_video_local: snapshot.internal_video_local,
                ..self
            },
            None => CallView { pending_relay: None, pending_video_relay: None, ..self },
        }
    }
}

impl LiveVoiceCall {
    /// Stages new media for a re-INVITE; the confirmed media is kept.
    pub fn stage_media_update(
        &mut self,
        offer: MediaOffer,
        audio: RelaySockets,
        video: Option<RelaySockets>,
    )
        ensures
            final(self)@ == old(self)@.staged(offer@, audio, video),
    {
        let mut confirmed = offer;
        core::mem::swap(&mut self.internal_offer, &mut confirmed);
        self.pending_media_rollback = Some(
            LiveVoiceMediaSnapshot {
                internal_offer: confirmed,
                operator_local: self.operator_local,
                internal_local: self.internal_local,
                operator_video_local: self.operator_video_local,
                internal_video_local: self.internal_video_local,
            },
        );
        self.pending_relay = Some(audio.relay);
        self.operator_local = audio.operator_local;
        self.internal_local = audio.internal_local;
        match video {
            Some(sockets) => {
                self.pending_video_relay = Some(sockets.relay);
                self.operator_video_local = Some(sockets.operator_local);
                self.internal_video_local = Some(sockets.internal_local);
            },
            None => {
                self.pending_video_relay = None;
                self.operator_video_local = None;
                self.internal_video_local = None;
            },
        }
    }

    /// Confirms the staged media.
    pub fn commit_media_update(&mut self)
        ensures
            final(self)@ == (CallView { pending_media_rollback: None, ..old(self)@ }),
    {
        self.pending_media_rollback = None;
    }

    /// Gives up the staged media; the relays in use stay as they are.
    pub fn rollback_media_update(&mut self)
        ensures
            final(self)@ == old(self)@.rolled_back(),
    {
        self.pending_relay = None;
        self.pending_video_relay = None;
        match self.pending_media_rollback.take() {
            Some(snapshot) => {
                self.internal_offer = snapshot.internal_offer;
                self.operator_local = snapshot.operator_local;
                self.internal_local = snapshot.internal_local;
                self.operator_video_local = snapshot.operator_video_local;
                self.internal_video_local = snapshot.internal_video_local;
            },
            None => {},
        }
    }
}

/// Rolling staged media back restores the confirmed media, and leaves the relays
/// that are in use untouched.
pub proof fn rollback_restores_confirmed_media(
    call: CallView,
    offer: OfferView,
    audio: RelaySockets,
    video: Option<RelaySockets>,
)
    ensures
        call.staged(offer, audio, video).rolled_back() == (CallView {
            pending_relay: None,
            pending_video_relay: None,
            pending_media_rollback: None,
            ..call
        }),
{
}

} // verus!
