//! Short messages over a registered line.

use vstd::prelude::*;
use vstd::string::*;

use crate::channel::ImsRoute;
use crate::errors::{code, detailed, failure, ErrorView, VolteError};
use crate::identity::ImsIdentity;
use crate::runtime::{SnapshotView, VoltePhase, VolteRuntime};
use crate::text;
use crate::text::{decimal, is_digit, opt, trimmed};

verus! {

// ---------------------------------------------------------------------------
// Addresses.

/// The text is a phone number: digits, with a plus before them where it is
/// international.
pub open spec fn phone_number(s: Seq<char>) -> bool {
    s.len() > 0 && forall|i: int|
        0 <= i < s.len() ==> is_digit(#[trigger] s[i]) || (i == 0 && s[i] == '+')
}

/// The address of a phone number in a domain.
pub open spec fn phone_address(number: Seq<char>, domain: Seq<char>) -> Seq<char> {
    "sip:"@ + number + "@"@ + domain + ";user=phone"@
}

/// Writes the address of a phone number in a domain.
pub fn phone_uri(number: &str, domain: &str) -> (r: Result<String, VolteError>)
    ensures
        match r {
            Ok(uri) => phone_number(trimmed(number@)) && uri@ == phone_address(
                trimmed(number@),
                domain@,
            ),
            Err(error) => !phone_number(trimmed(number@)) && error@ == failure(
                code::PHONE_URI_INVALID@,
            ),
        },
{
    let digits = text::trim(number);
    let c = text::chars(digits.as_str());
    if c.len() == 0 {
        return Err(VolteError::new(code::PHONE_URI_INVALID));
    }
    let mut i: usize = 0;
    while i < c.len()
        invariant
            i <= c@.len(),
            c@ == digits@,
            digits@ == trimmed(number@),
            forall|j: int| 0 <= j < i ==> is_digit(#[trigger] c@[j]) || (j == 0 && c@[j] == '+'),
        decreases c@.len() - i,
    {
        if !text::char_is_digit(c[i]) && !(i == 0 && c[i] == '+') {
            assert(!phone_number(digits@)) by {
                assert(!is_digit(digits@[i as int]));
            }
            return Err(VolteError::new(code::PHONE_URI_INVALID));
        }
        i += 1;
    }
    let mut uri = "sip:".to_string();
    uri.append(digits.as_str());
    uri.append("@");
    uri.append(domain);
    uri.append(";user=phone");
    Ok(uri)
}

/// The addresses of a message: it is sent to the service center and meant for the
/// recipient.
pub fn mo_sms_uris(recipient: &str, service_center: &str, domain: &str) -> (r: Result<
    (String, String),
    VolteError,
>)
    ensures
        match r {
            Ok((center, target)) => phone_number(trimmed(service_center@)) && phone_number(
                trimmed(recipient@),
            ) && center@ == phone_address(trimmed(service_center@), domain@) && target@
                == phone_address(trimmed(recipient@), domain@),
            Err(error) => (!phone_number(trimmed(service_center@)) || !phone_number(
                trimmed(recipient@),
            )) && error@ == failure(code::PHONE_URI_INVALID@),
        },
{
    let center = match phone_uri(service_center, domain) {
        Ok(center) => center,
        Err(error) => return Err(error),
    };
    match phone_uri(recipient, domain) {
        Ok(target) => Ok((center, target)),
        Err(error) => Err(error),
    }
}

/// The address that a line can be reached at on a route.
pub open spec fn contact_of(user: Seq<char>, route: ImsRoute) -> Seq<char> {
    "sip:"@ + user + "@"@ + route.local_addr.ip.host() + ":"@ + decimal(
        route.local_addr.port as nat,
    ) + ";transport="@ + route.transport.name()
}

/// Writes the address that a line can be reached at on a route.
pub fn ims_contact(identity: &ImsIdentity, route: &ImsRoute) -> (r: String)
    ensures
        r@ == contact_of(identity@.contact_user, *route),
{
    let mut contact = "sip:".to_string();
    contact.append(identity.contact_user.as_str());
    contact.append("@");
    let host = route.local_addr.ip.to_host();
    contact.append(host.as_str());
    contact.append(":");
    let port = text::decimal_string(route.local_addr.port as u64);
    contact.append(port.as_str());
    contact.append(";transport=");
    contact.append(route.transport.as_str());
    contact
}

// ---------------------------------------------------------------------------
// Sending.

/// What came of sending a message.
#[derive(Debug, PartialEq, Eq)]
pub struct VolteSmsSendResult {
    pub message_id: String,
    pub trace_id: String,
    pub part_count: usize,
    pub sip_statuses: Vec<u16>,
}

/// One part of a message that was encoded.
#[derive(Debug, PartialEq, Eq)]
pub struct SmsSubmission {
    pub message_id: String,
    pub trace_id: String,
    pub body: Vec<u8>,
}

/// The code of a message that the network rejected.
pub const SMS_MESSAGE_REJECTED: &'static str = "volte_sms_message_rejected";

/// The code of an operation that needs a registered line.
pub const NOT_REGISTERED: &'static str = "volte_runtime_not_registered";

/// Why a message cannot be sent at all.
pub open spec fn send_error(phase: VoltePhase, service_center: Seq<char>) -> Option<ErrorView> {
    if phase != VoltePhase::Registered {
        Some(failure(NOT_REGISTERED@))
    } else if trimmed(service_center).len() == 0 {
        Some(failure(code::SMSC_MISSING@))
    } else {
        None
    }
}

/// Whether a message can be sent: the line is registered and a service center known.
pub fn check_sms(runtime: &VolteRuntime, service_center: &str) -> (r: Result<(), VolteError>)
    ensures
        match r {
            Ok(_) => send_error(runtime.snapshot@.phase, service_center@) is None,
            Err(error) => send_error(runtime.snapshot@.phase, service_center@) == Some(error@),
        },
{
    if !runtime.snapshot.registered() {
        return Err(VolteError::new(NOT_REGISTERED));
    }
    if text::trim(service_center).as_str().is_empty() {
        return Err(VolteError::new(code::SMSC_MISSING));
    }
    Ok(())
}

/// A message of which parts are being sent.
#[derive(Debug, PartialEq, Eq)]
pub struct SmsSending {
    pub message_id: String,
    pub trace_id: String,
    pub part_count: usize,
    /// The statuses of the parts that were accepted.
    pub statuses: Vec<u16>,
}

/// A status by which a part was accepted.
pub open spec fn accepted(status: u16) -> bool {
    200 <= status < 300
}

impl SmsSending {
    /// Every part so far was accepted, and there are no more of them than parts.
    pub open spec fn wf(self) -> bool {
        self.statuses@.len() <= self.part_count && forall|i: int|
            0 <= i < self.statuses@.len() ==> accepted(#[trigger] self.statuses@[i])
    }

    /// The message was encoded. It goes by the identifiers of its first part; one
    /// without parts cannot be sent.
    pub fn begin(submissions: &[SmsSubmission]) -> (r: Result<Self, VolteError>)
        ensures
            match r {
                Ok(sending) => submissions@.len() > 0 && sending.wf() && sending.message_id@
                    == submissions@[0].message_id@ && sending.trace_id@ == submissions@[0].trace_id@
                    && sending.part_count == submissions@.len() && sending.statuses@.len() == 0,
                Err(error) => submissions@.len() == 0 && error@ == failure(
                    code::SMS_ENCODE_FAILED@,
                ),
            },
    {
        if submissions.len() == 0 {
            return Err(VolteError::new(code::SMS_ENCODE_FAILED));
        }
        Ok(
            SmsSending {
                message_id: submissions[0].message_id.clone(),
                trace_id: submissions[0].trace_id.clone(),
                part_count: submissions.len(),
                statuses: Vec::new(),
            },
        )
    }

    /// The network answered a part. A rejection ends the message.
    pub fn part_answered(&mut self, status: u16) -> (r: Result<(), VolteError>)
        requires
            old(self).wf(),
            old(self).statuses@.len() < old(self).part_count,
        ensures
            final(self).wf(),
            final(self).message_id == old(self).message_id,
            final(self).trace_id == old(self).trace_id,
            final(self).part_count == old(self).part_count,
            match r {
                Ok(_) => accepted(status) && final(self).statuses@ == old(self).statuses@.push(
                    status,
                ),
                Err(error) => !accepted(status) && final(self).statuses@ == old(self).statuses@
                    && error@ == detailed(SMS_MESSAGE_REJECTED@, decimal(status as nat)),
            },
    {
        if status < 200 || status >= 300 {
            let digits = text::decimal_string(status as u64);
            return Err(VolteError::with_detail(SMS_MESSAGE_REJECTED, digits.as_str()));
        }
        self.statuses.push(status);
        Ok(())
    }

    /// All parts were accepted.
    pub fn finish(self, runtime: &mut VolteRuntime) -> (r: VolteSmsSendResult)
        requires
            self.wf(),
            self.statuses@.len() == self.part_count,
            old(runtime).snapshot@.sent_count < u64::MAX,
        ensures
            final(runtime).generation == old(runtime).generation,
            final(runtime).snapshot@ == (SnapshotView {
                sent_count: (old(runtime).snapshot@.sent_count + 1) as u64,
                ..old(runtime).snapshot@
            }),
            r.message_id@ == self.message_id@,
            r.trace_id@ == self.trace_id@,
            r.part_count == self.part_count,
            r.sip_statuses@ == self.statuses@,
    {
        runtime.snapshot.sent_count = runtime.snapshot.sent_count + 1;
        VolteSmsSendResult {
            message_id: self.message_id,
            trace_id: self.trace_id,
            part_count: self.part_count,
            sip_statuses: self.statuses,
        }
    }
}

/// The error of a message that could not be encoded.
pub fn encode_error(reason: &str) -> (r: VolteError)
    ensures
        r@ == detailed(code::SMS_ENCODE_FAILED@, reason@),
{
    VolteError::with_detail(code::SMS_ENCODE_FAILED, reason)
}

/// A frame was sent.
pub fn note_sent(runtime: &mut VolteRuntime, at: &str)
    ensures
        final(runtime).generation == old(runtime).generation,
        final(runtime).snapshot@ == (SnapshotView {
            last_tx_at: Some(at@),
            ..old(runtime).snapshot@
        }),
{
    runtime.snapshot.last_tx_at = Some(at.to_string());
}

/// A frame was received.
pub fn note_received(runtime: &mut VolteRuntime, at: &str)
    ensures
        final(runtime).generation == old(runtime).generation,
        final(runtime).snapshot@ == (SnapshotView {
            last_rx_at: Some(at@),
            ..old(runtime).snapshot@
        }),
{
    runtime.snapshot.last_rx_at = Some(at.to_string());
}

// ---------------------------------------------------------------------------
// Receiving.

/// A message as it is stored.
#[derive(Debug, PartialEq, Eq)]
pub struct SmsMessage {
    pub direction: String,
    pub phone_number: String,
    pub content: String,
    pub timestamp: String,
    pub status: String,
    pub pdu: Option<String>,
    pub transport: String,
    pub line_id: Option<String>,
}

/// A message that was put together from its segments.
#[derive(Debug, PartialEq, Eq)]
pub struct ReceivedSms {
    pub originator: String,
    pub text: String,
    pub service_center_timestamp: String,
    pub dedup_marker: String,
}

/// What becomes of a message that was received.
#[derive(Debug, PartialEq, Eq)]
pub enum ReceivedStep {
    /// It is known already.
    Duplicate,
    /// Store it.
    Store(SmsMessage),
}

/// The message is known: another path claimed it, or it is stored already.
pub open spec fn is_duplicate(claimed: Option<bool>, stored: bool) -> bool {
    claimed == Some(false) || stored
}

/// The time of a message: the service center's, or else now.
pub open spec fn message_time(center: Seq<char>, now: Seq<char>) -> Seq<char> {
    if trimmed(center).len() == 0 {
        now
    } else {
        center
    }
}

/// Decides what becomes of a message that was received. `claimed` says whether it
/// could be claimed, where that is asked for, and `stored` whether it is stored
/// already. A message that is known counts as a duplicate.
pub fn take_received(
    runtime: &mut VolteRuntime,
    message: &ReceivedSms,
    claimed: Option<bool>,
    stored: bool,
    transport: &str,
    line_id: &str,
    now: &str,
) -> (r: ReceivedStep)
    requires
        old(runtime).snapshot@.duplicate_count < u64::MAX,
    ensures
        final(runtime).generation == old(runtime).generation,
        r is Duplicate <==> is_duplicate(claimed, stored),
        final(runtime).snapshot@ == (if is_duplicate(claimed, stored) {
            SnapshotView {
                duplicate_count: (old(runtime).snapshot@.duplicate_count + 1) as u64,
                ..old(runtime).snapshot@
            }
        } else {
            old(runtime).snapshot@
        }),
        match r {
            ReceivedStep::Store(sms) => sms.direction@ == "incoming"@ && sms.phone_number@
                == message.originator@ && sms.content@ == message.text@ && sms.timestamp@
                == message_time(message.service_center_timestamp@, now@) && sms.status@
                == "received"@ && opt(sms.pdu) == Some(message.dedup_marker@) && sms.transport@
                == transport@ && opt(sms.line_id) == Some(line_id@),
            ReceivedStep::Duplicate => true,
        },
{
    let refused = match claimed {
        Some(claimed) => !claimed,
        None => false,
    };
    if refused || stored {
        runtime.snapshot.duplicate_count = runtime.snapshot.duplicate_count + 1;
        return ReceivedStep::Duplicate;
    }
    let timestamp = if text::trim(message.service_center_timestamp.as_str()).as_str().is_empty() {
        now.to_string()
    } else {
        message.service_center_timestamp.clone()
    };
    ReceivedStep::Store(
        SmsMessage {
            direction: "incoming".to_string(),
            phone_number: message.originator.clone(),
            content: message.text.clone(),
            timestamp,
            status: "received".to_string(),
            pdu: Some(message.dedup_marker.clone()),
            transport: transport.to_string(),
            line_id: Some(line_id.to_string()),
        },
    )
}

/// A message was stored.
pub fn note_stored(runtime: &mut VolteRuntime)
    requires
        old(runtime).snapshot@.received_count < u64::MAX,
    ensures
        final(runtime).generation == old(runtime).generation,
        final(runtime).snapshot@ == (SnapshotView {
            received_count: (old(runtime).snapshot@.received_count + 1) as u64,
            ..old(runtime).snapshot@
        }),
{
    runtime.snapshot.received_count = runtime.snapshot.received_count + 1;
}

} // verus!
