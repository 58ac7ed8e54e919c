//! The subscription to the state of a line's mailbox.

use vstd::prelude::*;
use vstd::string::*;

use crate::auth::answering::{counted_signature, opt_bytes, sign_counted, Signature};
use crate::auth::{
    challenge_of, parse_digest_challenge, saturating, saturating_sum, ChallengeView,
    DigestChallenge,
};
use crate::carrier::CarrierProfile;
use crate::errors::{failure, ErrorView, VolteError};
use crate::identity::ImsIdentity;
use crate::text;
use crate::text::{halves, opt, trimmed};

verus! {

/// How long a subscription is asked for, in seconds.
pub const MWI_SUBSCRIBE_EXPIRES_SECONDS: u32 = 3600;

/// When a subscription is refreshed, in seconds: after eleven twelfths of its time.
pub const MWI_REFRESH_SECONDS: u64 = 3300;

/// The refresh comes before the subscription runs out.
pub proof fn subscription_is_refreshed_in_time()
    ensures
        MWI_REFRESH_SECONDS == (MWI_SUBSCRIBE_EXPIRES_SECONDS * 11) / 12,
        0 < MWI_REFRESH_SECONDS < MWI_SUBSCRIBE_EXPIRES_SECONDS,
{
}

/// What identifies a SUBSCRIBE request.
#[derive(Debug, PartialEq, Eq)]
pub struct SubscribeIds {
    pub branch: String,
    pub from_tag: String,
    pub to_tag: Option<String>,
    pub call_id: String,
    pub cseq: u32,
}

pub struct SubscribeView {
    pub branch: Seq<char>,
    pub from_tag: Seq<char>,
    pub to_tag: Option<Seq<char>>,
    pub call_id: Seq<char>,
    pub cseq: u32,
}

impl View for SubscribeIds {
    type V = SubscribeView;

    open spec fn view(&self) -> SubscribeView {
        SubscribeView {
            branch: self.branch@,
            from_tag: self.from_tag@,
            to_tag: opt(self.to_tag),
            call_id: self.call_id@,
            cseq: self.cseq,
        }
    }
}

impl Clone for SubscribeIds {
    fn clone(&self) -> (r: Self)
        ensures
            r@ == self@,
    {
        SubscribeIds {
            branch: self.branch.clone(),
            from_tag: self.from_tag.clone(),
            to_tag: self.to_tag.clone(),
            call_id: self.call_id.clone(),
            cseq: self.cseq,
        }
    }
}

/// A subscription that was sent.
#[derive(Debug, PartialEq, Eq)]
pub struct MwiSubscription {
    pub ids: SubscribeIds,
    /// When it is to be refreshed, in seconds.
    pub refresh_at: u64,
    /// A challenge to it was answered.
    pub authenticated: bool,
}

/// What to do about the subscription.
#[derive(Debug, Clone, Copy, PartialEq, Eq, Structural)]
pub enum SubscribeStart {
    /// No one is interested.
    Nothing,
    /// Another registration has taken the subscription over.
    Drop,
    /// Announce a new one, then send it.
    Begin,
    /// Send it again.
    Refresh,
}

/// Decides what to do about the subscription.
pub fn start_volte_mwi_subscription(interested: bool, subscribed: bool, owned: bool) -> (r:
    SubscribeStart)
    ensures
        r == (if !interested {
            SubscribeStart::Nothing
        } else if !subscribed {
            SubscribeStart::Begin
        } else if owned {
            SubscribeStart::Refresh
        } else {
            SubscribeStart::Drop
        }),
{
    if !interested {
        SubscribeStart::Nothing
    } else if !subscribed {
        SubscribeStart::Begin
    } else if owned {
        SubscribeStart::Refresh
    } else {
        SubscribeStart::Drop
    }
}

/// What identifies the next SUBSCRIBE: it stays in the dialog of the one before it.
pub open spec fn next_ids(
    previous: Option<SubscribeView>,
    branch: Seq<char>,
    from_tag: Seq<char>,
    call_id: Seq<char>,
) -> SubscribeView {
    match previous {
        Some(ids) => SubscribeView { branch, cseq: saturating(ids.cseq, 1), ..ids },
        None => SubscribeView { branch, from_tag, to_tag: None, call_id, cseq: 1 },
    }
}

/// What identifies the next SUBSCRIBE, given fresh identifiers.
pub fn next_subscribe_ids(
    previous: Option<&MwiSubscription>,
    branch: &str,
    from_tag: &str,
    call_id: &str,
) -> (r: SubscribeIds)
    ensures
        r@ == next_ids(
            match previous {
                Some(subscription) => Some(subscription.ids@),
                None => None,
            },
            branch@,
            from_tag@,
            call_id@,
        ),
{
    match previous {
        Some(subscription) => SubscribeIds {
            branch: branch.to_string(),
            from_tag: subscription.ids.from_tag.clone(),
            to_tag: subscription.ids.to_tag.clone(),
            call_id: subscription.ids.call_id.clone(),
            cseq: saturating_sum(subscription.ids.cseq, 1),
        },
        None => SubscribeIds {
            branch: branch.to_string(),
            from_tag: from_tag.to_string(),
            to_tag: None,
            call_id: call_id.to_string(),
            cseq: 1,
        },
    }
}

/// A refreshed subscription stays in its dialog, with a higher sequence number.
pub proof fn refresh_stays_in_the_dialog(
    ids: SubscribeView,
    branch: Seq<char>,
    from_tag: Seq<char>,
    call_id: Seq<char>,
)
    ensures
        ({
            let next = next_ids(Some(ids), branch, from_tag, call_id);
            &&& next.call_id == ids.call_id
            &&& next.from_tag == ids.from_tag
            &&& next.to_tag == ids.to_tag
            &&& ids.cseq < u32::MAX ==> next.cseq == ids.cseq + 1
        }),
{
}

/// The subscription after its SUBSCRIBE was sent, or not.
pub fn subscription_sent(ids: SubscribeIds, sent: bool, now: u64) -> (r: Option<MwiSubscription>)
    requires
        now + MWI_REFRESH_SECONDS <= u64::MAX,
    ensures
        match r {
            Some(subscription) => sent && subscription.ids@ == ids@ && subscription.refresh_at
                == now + MWI_REFRESH_SECONDS && !subscription.authenticated,
            None => !sent,
        },
{
    if sent {
        Some(MwiSubscription { ids, refresh_at: now + MWI_REFRESH_SECONDS, authenticated: false })
    } else {
        None
    }
}

/// Whether the subscription is to be refreshed.
pub fn refresh_due(subscription: Option<&MwiSubscription>, now: u64) -> (r: bool)
    ensures
        r == (subscription is Some && now >= subscription->0.refresh_at),
{
    match subscription {
        Some(subscription) => now >= subscription.refresh_at,
        None => false,
    }
}

/// A frame, as far as the subscription is concerned.
#[derive(Debug, PartialEq, Eq)]
pub enum MwiIncomingFrame {
    /// A notification, with the status to answer it with.
    Notify { response_status: u16 },
    /// An answer to the SUBSCRIBE, where it has a readable status.
    SubscribeResponse { status: Option<u16>, to_tag: Option<String> },
    /// Something else.
    Other,
}

/// What to do about a frame.
#[derive(Debug, PartialEq, Eq)]
pub enum MwiReaction {
    /// It is none of the subscription's.
    NotHandled,
    /// Answer it, and pass on what it says.
    Answer { status: u16, reason: &'static str },
    /// Nothing more.
    Done,
    /// The subscription is in force.
    Subscribed { to_tag: Option<String> },
    /// Answer the challenge.
    Authenticate,
    /// The subscription failed.
    Failed { code: &'static str },
}

/// Decides what to do about a frame.
pub fn handle_volte_mwi_frame(frame: &MwiIncomingFrame, interested: bool) -> (r: MwiReaction)
    ensures
        match *frame {
            MwiIncomingFrame::Other => r is NotHandled,
            MwiIncomingFrame::Notify { response_status } => r is Answer && r->status
                == response_status && r->reason@ == (if response_status == 200 {
                "OK"@
            } else {
                "Call/Transaction Does Not Exist"@
            }),
            MwiIncomingFrame::SubscribeResponse { status, to_tag } => if !interested {
                r is Done
            } else if status is Some && 200 <= status->0 < 300 {
                r is Subscribed && opt(r->to_tag) == opt(to_tag)
            } else if status == Some(401u16) || status == Some(407u16) {
                r is Authenticate
            } else {
                r is Failed && r->code@ == "mwi_subscribe_rejected"@
            },
        },
{
    match frame {
        MwiIncomingFrame::Other => MwiReaction::NotHandled,
        MwiIncomingFrame::Notify { response_status } => MwiReaction::Answer {
            status: *response_status,
            reason: if *response_status == 200 {
                "OK"
            } else {
                "Call/Transaction Does Not Exist"
            },
        },
        MwiIncomingFrame::SubscribeResponse { status, to_tag } => {
            if !interested {
                return MwiReaction::Done;
            }
            match *status {
                Some(status) => if 200 <= status && status < 300 {
                    MwiReaction::Subscribed { to_tag: to_tag.clone() }
                } else if status == 401 || status == 407 {
                    MwiReaction::Authenticate
                } else {
                    MwiReaction::Failed { code: "mwi_subscribe_rejected" }
                },
                None => MwiReaction::Failed { code: "mwi_subscribe_rejected" },
            }
        },
    }
}

/// The subscription is in force: the other side's tag completes its dialog.
pub fn note_subscribed(subscription: &mut Option<MwiSubscription>, to_tag: Option<String>)
    ensures
        match *old(subscription) {
            Some(before) => *final(subscription) == Some(
                MwiSubscription {
                    ids: SubscribeIds {
                        to_tag: if to_tag is Some {
                            to_tag
                        } else {
                            before.ids.to_tag
                        },
                        ..before.ids
                    },
                    ..before
                },
            ),
            None => *final(subscription) is None,
        },
{
    let mut held: Option<MwiSubscription> = None;
    core::mem::swap(subscription, &mut held);
    if let Some(mut known) = held {
        if to_tag.is_some() {
            known.ids.to_tag = to_tag;
        }
        *subscription = Some(known);
    }
}

/// Why a challenge to the subscription cannot be answered: there is none, or one was
/// answered already.
pub open spec fn authentication_error(subscription: Option<MwiSubscription>) -> Option<Seq<char>> {
    match subscription {
        None => Some("mwi_subscription_missing"@),
        Some(subscription) => if subscription.authenticated {
            Some("mwi_subscribe_authentication_rejected"@)
        } else {
            None
        },
    }
}

/// Whether a challenge to the subscription can be answered.
pub fn may_authenticate(subscription: &Option<MwiSubscription>) -> (r: Result<(), VolteError>)
    ensures
        match r {
            Ok(_) => authentication_error(*subscription) is None,
            Err(error) => authentication_error(*subscription) is Some && error@ == failure(
                authentication_error(*subscription)->0,
            ),
        },
{
    match subscription {
        None => Err(VolteError::new("mwi_subscription_missing")),
        Some(subscription) => if subscription.authenticated {
            Err(VolteError::new("mwi_subscribe_authentication_rejected"))
        } else {
            Ok(())
        },
    }
}

/// Reads the challenge to the subscription, where it can be answered.
pub fn read_challenge(subscription: &Option<MwiSubscription>, frame: &[u8]) -> (r: Result<
    DigestChallenge,
    VolteError,
>)
    ensures
        match authentication_error(*subscription) {
            Some(code) => r is Err && r->Err_0@ == failure(code),
            None => match r {
                Ok(challenge) => challenge_of(frame@) == Ok::<ChallengeView, ErrorView>(challenge@),
                Err(error) => challenge_of(frame@) == Err::<ChallengeView, ErrorView>(error@),
            },
        },
{
    match may_authenticate(subscription) {
        Ok(_) => parse_digest_challenge(frame),
        Err(error) => Err(error),
    }
}

/// The header that answers a challenge, as its name and its value.
pub fn split_authorization(authorization: &str) -> (r: Result<(String, String), VolteError>)
    ensures
        match r {
            Ok((name, value)) => halves(authorization@, ':') is Some && name@ == trimmed(
                (halves(authorization@, ':')->0).0,
            ) && value@ == trimmed((halves(authorization@, ':')->0).1),
            Err(error) => halves(authorization@, ':') is None && error@ == failure(
                "mwi_authorization_header_invalid"@,
            ),
        },
{
    match text::split_once(authorization, ':') {
        Some((name, value)) => Ok((text::trim(name.as_str()), text::trim(value.as_str()))),
        None => Err(VolteError::new("mwi_authorization_header_invalid")),
    }
}

/// A header as its name and its value.
pub open spec fn header_view(header: (String, String)) -> (Seq<char>, Seq<char>) {
    (header.0@, header.1@)
}

pub open spec fn header_views(headers: Seq<(String, String)>) -> Seq<(Seq<char>, Seq<char>)> {
    headers.map_values(|header: (String, String)| header_view(header))
}

/// The headers of a SUBSCRIBE that tell of the access: its name, then the answer to a
/// challenge, then the protection in use.
pub open spec fn access_header_list(
    access: Seq<char>,
    authorization: Option<(Seq<char>, Seq<char>)>,
    security_verify: Option<Seq<char>>,
) -> Seq<(Seq<char>, Seq<char>)> {
    seq![("P-Access-Network-Info"@, access)] + (match authorization {
        Some(header) => seq![header],
        None => Seq::empty(),
    }) + (match security_verify {
        Some(verify) => seq![("Security-Verify"@, verify)],
        None => Seq::empty(),
    })
}

/// The headers of a SUBSCRIBE that tell of the access.
pub fn access_headers(
    access: &str,
    authorization: Option<(String, String)>,
    security_verify: Option<String>,
) -> (r: Vec<(String, String)>)
    ensures
        header_views(r@) == access_header_list(
            access@,
            match authorization {
                Some(header) => Some(header_view(header)),
                None => None,
            },
            opt(security_verify),
        ),
{
    let mut headers: Vec<(String, String)> = Vec::new();
    headers.push(("P-Access-Network-Info".to_string(), access.to_string()));
    if let Some(header) = authorization {
        headers.push(header);
    }
    if let Some(verify) = security_verify {
        headers.push(("Security-Verify".to_string(), verify));
    }
    proof {
        assert(header_views(headers@) =~= access_header_list(
            access@,
            match authorization {
                Some(header) => Some(header_view(header)),
                None => None,
            },
            opt(security_verify),
        ));
    }
    headers
}

/// What the answer to a challenge to the subscription is computed from.
pub fn subscribe_signature(
    identity: &ImsIdentity,
    challenge: &DigestChallenge,
    auts: Option<Vec<u8>>,
) -> (r: Signature)
    ensures
        r@ == counted_signature(
            identity@.private_user,
            "SUBSCRIBE"@,
            identity@.public_uri,
            challenge@,
            opt_bytes(auts),
        ),
{
    sign_counted(
        identity.private_user.as_str(),
        "SUBSCRIBE",
        identity.public_uri.as_str(),
        challenge,
        auts,
    )
}

/// What goes into a SUBSCRIBE besides who sends it and where it goes.
#[derive(Debug, PartialEq, Eq)]
pub struct SubscribeParts {
    pub ids: SubscribeIds,
    pub expires_seconds: u32,
    pub user_agent: String,
    pub headers: Vec<(String, String)>,
}

pub struct SubscribePartsView {
    pub ids: SubscribeView,
    pub expires_seconds: u32,
    pub user_agent: Seq<char>,
    pub headers: Seq<(Seq<char>, Seq<char>)>,
}

impl View for SubscribeParts {
    type V = SubscribePartsView;

    open spec fn view(&self) -> SubscribePartsView {
        SubscribePartsView {
            ids: self.ids@,
            expires_seconds: self.expires_seconds,
            user_agent: self.user_agent@,
            headers: header_views(self.headers@),
        }
    }
}

/// A SUBSCRIBE that answers no challenge. It names the stack.
pub fn unanswered_subscribe(
    ids: SubscribeIds,
    access: &str,
    stack: &str,
    security_verify: Option<String>,
) -> (r: SubscribeParts)
    ensures
        r@ == (SubscribePartsView {
            ids: ids@,
            expires_seconds: MWI_SUBSCRIBE_EXPIRES_SECONDS,
            user_agent: stack@,
            headers: access_header_list(access@, None, opt(security_verify)),
        }),
{
    SubscribeParts {
        ids,
        expires_seconds: MWI_SUBSCRIBE_EXPIRES_SECONDS,
        user_agent: stack.to_string(),
        headers: access_headers(access, None, security_verify),
    }
}

/// A SUBSCRIBE that answers a challenge. It names what the carrier expects.
pub fn answered_subscribe(
    ids: SubscribeIds,
    access: &str,
    profile: &CarrierProfile,
    authorization: (String, String),
    security_verify: Option<String>,
) -> (r: SubscribeParts)
    ensures
        r@ == (SubscribePartsView {
            ids: ids@,
            expires_seconds: MWI_SUBSCRIBE_EXPIRES_SECONDS,
            user_agent: profile.ims.user_agent@,
            headers: access_header_list(
                access@,
                Some(header_view(authorization)),
                opt(security_verify),
            ),
        }),
{
    SubscribeParts {
        ids,
        expires_seconds: MWI_SUBSCRIBE_EXPIRES_SECONDS,
        user_agent: profile.ims.user_agent.to_string(),
        headers: access_headers(access, Some(authorization), security_verify),
    }
}

/// The subscription under other identifiers, with nothing answered yet.
pub open spec fn retried(
    before: Option<MwiSubscription>,
    after: Option<MwiSubscription>,
    ids: SubscribeView,
) -> bool {
    after is Some && after->0.ids@ == ids && after->0.refresh_at == before->0.refresh_at
        && !after->0.authenticated
}

/// Prepares the SUBSCRIBE that answers a challenge: same dialog, next number.
pub fn retry_subscription(subscription: &mut Option<MwiSubscription>, branch: &str) -> (r: Result<
    SubscribeIds,
    VolteError,
>)
    ensures
        match r {
            Ok(ids) => authentication_error(*old(subscription)) is None && ids@ == next_ids(
                Some((*old(subscription))->0.ids@),
                branch@,
                ""@,
                ""@,
            ) && retried(*old(subscription), *final(subscription), ids@),
            Err(error) => authentication_error(*old(subscription)) is Some && error@ == failure(
                authentication_error(*old(subscription))->0,
            ) && *final(subscription) == *old(subscription),
        },
{
    match may_authenticate(subscription) {
        Ok(_) => {},
        Err(error) => return Err(error),
    }
    let mut held: Option<MwiSubscription> = None;
    core::mem::swap(subscription, &mut held);
    match held {
        Some(mut known) => {
            known.ids.branch = branch.to_string();
            known.ids.cseq = saturating_sum(known.ids.cseq, 1);
            let ids = known.ids.clone();
            *subscription = Some(known);
            Ok(ids)
        },
        None => Err(VolteError::new("mwi_subscription_missing")),
    }
}

/// The answer to the challenge was sent; another challenge is a rejection.
pub fn note_authenticated(subscription: &mut Option<MwiSubscription>)
    ensures
        match *old(subscription) {
            Some(before) => *final(subscription) == Some(
                MwiSubscription { authenticated: true, ..before },
            ),
            None => *final(subscription) is None,
        },
        authentication_error(*final(subscription)) is Some,
{
    let mut held: Option<MwiSubscription> = None;
    core::mem::swap(subscription, &mut held);
    if let Some(mut known) = held {
        known.authenticated = true;
        *subscription = Some(known);
    }
}

} // verus!
