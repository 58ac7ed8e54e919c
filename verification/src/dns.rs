//! DNS queries for P-CSCF addresses and the answers to them.

use vstd::prelude::*;
use vstd::string::*;
use vstd::utf8::{decode_utf8, encode_utf8, valid_utf8};

use crate::errors::{code, failure, VolteError};
use crate::ip::IpAddr;
use crate::sip;
use crate::text;
use crate::text::{pieces, strip_end, texts};

pub mod written;

verus! {

/// The record type of an IPv4 address.
pub const DNS_TYPE_A: u16 = 1;

/// The record type of an IPv6 address.
pub const DNS_TYPE_AAAA: u16 = 28;

/// The record type of a service location.
pub const DNS_TYPE_SRV: u16 = 33;

/// The bytes of a number, the most significant first.
pub open spec fn be16(n: u16) -> Seq<u8> {
    seq![(n / 256) as u8, (n % 256) as u8]
}

/// The number that two bytes write.
pub open spec fn number_at(packet: Seq<u8>, i: int) -> nat {
    (packet[i] as nat) * 256 + packet[i + 1] as nat
}

/// A number written is read back.
pub proof fn number_is_read_back(n: u16, packet: Seq<u8>, i: int)
    requires
        0 <= i,
        i + 2 <= packet.len(),
        packet.subrange(i, i + 2) == be16(n),
    ensures
        number_at(packet, i) == n,
{
    assert(packet.subrange(i, i + 2)[0] == packet[i]);
    assert(packet.subrange(i, i + 2)[1] == packet[i + 1]);
}

/// The bits of a 16-bit number moved left by five places, round the end.
pub open spec fn rotated(n: u16) -> u16 {
    (n << 5) | (n >> 11)
}

/// The identifier of a query, folded from the bytes of its name.
pub open spec fn query_id(bytes: Seq<u8>, record_type: u16) -> u16
    decreases bytes.len(),
{
    if bytes.len() == 0 {
        0x5a17u16 ^ record_type
    } else {
        rotated(query_id(bytes.drop_last(), record_type)) ^ (bytes.last() as u16)
    }
}

/// The identifier of a query for a name.
pub fn dns_query_id(name: &str, record_type: u16) -> (r: u16)
    ensures
        r == query_id(encode_utf8(name@), record_type),
{
    let bytes = name.as_bytes();
    let mut hash: u16 = 0x5a17u16 ^ record_type;
    let mut i: usize = 0;
    proof {
        assert(bytes@.take(0) =~= Seq::<u8>::empty());
    }
    while i < bytes.len()
        invariant
            i <= bytes@.len(),
            hash == query_id(bytes@.take(i as int), record_type),
        decreases bytes@.len() - i,
    {
        proof {
            assert(bytes@.take(i as int + 1).drop_last() =~= bytes@.take(i as int));
        }
        hash = ((hash << 5) | (hash >> 11)) ^ (bytes[i] as u16);
        i += 1;
    }
    proof {
        assert(bytes@.take(bytes@.len() as int) =~= bytes@);
    }
    hash
}

// ---------------------------------------------------------------------------
// Queries.

/// The labels of a name; dots at its end do not count.
pub open spec fn labels_of(name: Seq<char>) -> Seq<Seq<char>> {
    pieces(strip_end(name, '.'), '.')
}

/// A label of one to 63 bytes.
pub open spec fn is_label(label: Seq<char>) -> bool {
    label.len() > 0 && encode_utf8(label).len() <= 63
}

pub open spec fn all_labels(labels: Seq<Seq<char>>) -> bool {
    forall|i: int| 0 <= i < labels.len() ==> is_label(#[trigger] labels[i])
}

/// The labels as they are sent: each behind its length.
pub open spec fn encoded_labels(labels: Seq<Seq<char>>) -> Seq<u8>
    decreases labels.len(),
{
    if labels.len() == 0 {
        Seq::empty()
    } else {
        encoded_labels(labels.drop_last()).push(encode_utf8(labels.last()).len() as u8)
            + encode_utf8(labels.last())
    }
}

/// The header of a query: recursion desired, one question.
pub open spec fn query_header(id: u16) -> Seq<u8> {
    be16(id) + seq![1u8, 0, 0, 1, 0, 0, 0, 0, 0, 0]
}

/// A query for one name and record type.
pub open spec fn query_packet(id: u16, name: Seq<char>, record_type: u16) -> Seq<u8> {
    query_header(id) + encoded_labels(labels_of(name)) + seq![0u8] + be16(record_type) + seq![
        0u8,
        1u8,
    ]
}

fn strip_dots(name: &str) -> (r: String)
    ensures
        r@ == strip_end(name@, '.'),
{
    let c = text::chars(name);
    let mut to: usize = c.len();
    proof {
        assert(c@.take(c@.len() as int) =~= c@);
    }
    while to > 0 && c[to - 1] == '.'
        invariant
            to <= c@.len(),
            strip_end(c@, '.') == strip_end(c@.take(to as int), '.'),
        decreases to,
    {
        proof {
            assert(c@.take(to as int).drop_last() =~= c@.take(to as int - 1));
        }
        to -= 1;
    }
    proof {
        let left = c@.take(to as int);
        assert(strip_end(left, '.') == left);
        assert(c@.subrange(0, to as int) =~= left);
    }
    text::part(c.as_slice(), 0, to)
}

fn push_bytes(out: &mut Vec<u8>, bytes: &[u8])
    ensures
        final(out)@ == old(out)@ + bytes@,
{
    let ghost before = out@;
    let mut i: usize = 0;
    proof {
        assert(before + bytes@.take(0) =~= before);
    }
    while i < bytes.len()
        invariant
            i <= bytes@.len(),
            out@ == before + bytes@.take(i as int),
        decreases bytes@.len() - i,
    {
        out.push(bytes[i]);
        proof {
            assert(before + bytes@.take(i as int + 1) =~= (before + bytes@.take(i as int)).push(
                bytes@[i as int],
            ));
        }
        i += 1;
    }
    proof {
        assert(bytes@.take(bytes@.len() as int) =~= bytes@);
    }
}

fn push_be16(out: &mut Vec<u8>, n: u16)
    ensures
        final(out)@ == old(out)@ + be16(n),
{
    let ghost before = out@;
    out.push((n / 256) as u8);
    out.push((n % 256) as u8);
    proof {
        assert(out@ =~= before + be16(n));
    }
}

/// Builds a query. A name with an empty label, or one of more than 63 bytes, has none.
pub fn build_dns_query(id: u16, name: &str, record_type: u16) -> (r: Result<Vec<u8>, VolteError>)
    ensures
        match r {
            Ok(packet) => all_labels(labels_of(name@)) && packet@ == query_packet(
                id,
                name@,
                record_type,
            ),
            Err(error) => !all_labels(labels_of(name@)) && error@ == failure(
                code::RUNTIME_ALL_PCSCF_FAILED@,
            ),
        },
{
    let mut query: Vec<u8> = Vec::new();
    push_be16(&mut query, id);
    push_be16(&mut query, 0x0100);
    push_be16(&mut query, 1);
    push_be16(&mut query, 0);
    push_be16(&mut query, 0);
    push_be16(&mut query, 0);
    proof {
        assert(query@ =~= query_header(id));
    }
    let ghost header = query@;
    let bare = strip_dots(name);
    let labels = text::split(bare.as_str(), '.');
    let ghost all = texts(labels@);
    proof {
        assert(all.len() == labels@.len());
        assert(all.take(0) =~= Seq::<Seq<char>>::empty());
        assert(header + encoded_labels(all.take(0)) =~= header);
    }
    let mut i: usize = 0;
    while i < labels.len()
        invariant
            i <= labels@.len(),
            all == texts(labels@),
            all.len() == labels@.len(),
            all == labels_of(name@),
            query@ == header + encoded_labels(all.take(i as int)),
            forall|j: int| 0 <= j < i ==> is_label(#[trigger] all[j]),
        decreases labels@.len() - i,
    {
        let label = labels[i].as_str();
        let bytes = label.as_bytes();
        proof {
            assert(all[i as int] == label@);
            assert(all.take(i as int + 1).drop_last() =~= all.take(i as int));
            assert(all.take(i as int + 1).last() == label@);
        }
        if label.is_empty() || bytes.len() > 63 {
            assert(!is_label(all[i as int]));
            return Err(VolteError::new(code::RUNTIME_ALL_PCSCF_FAILED));
        }
        let ghost before = query@;
        let ghost front = encoded_labels(all.take(i as int));
        let length = bytes.len() as u8;
        query.push(length);
        push_bytes(&mut query, bytes);
        proof {
            assert((header + front).push(length) + bytes@ =~= header + (front.push(length)
                + bytes@));
        }
        i += 1;
    }
    proof {
        assert(all.take(all.len() as int) =~= all);
    }
    let ghost named = query@;
    query.push(0);
    proof {
        assert(query@ =~= named + seq![0u8]);
    }
    push_be16(&mut query, record_type);
    push_be16(&mut query, 1);
    proof {
        assert(be16(1) =~= seq![0u8, 1u8]);
    }
    Ok(query)
}

// ---------------------------------------------------------------------------
// Names in an answer.

/// The name behind labels that were read: joined by dots.
pub open spec fn joined_labels(labels: Seq<Seq<char>>) -> Seq<char>
    decreases labels.len(),
{
    if labels.len() == 0 {
        Seq::empty()
    } else if labels.len() == 1 {
        labels[0]
    } else {
        joined_labels(labels.drop_last()) + "."@ + labels.last()
    }
}

/// Where a pointer points to.
pub open spec fn pointer_target(high: u8, low: u8) -> int {
    ((high % 64) as int) * 256 + low as int
}

/// The labels of the name at `offset` and where the name ends, read in at most
/// `fuel` steps. `end` is where it ends if a pointer was followed already.
pub open spec fn name_at(
    packet: Seq<u8>,
    offset: int,
    labels: Seq<Seq<char>>,
    end: Option<int>,
    fuel: nat,
) -> Option<(Seq<char>, int)>
    decreases fuel,
{
    if fuel == 0 || offset < 0 || offset >= packet.len() {
        None
    } else {
        let length = packet[offset];
        if length == 0 {
            Some(
                (
                    joined_labels(labels),
                    match end {
                        Some(end) => end,
                        None => offset + 1,
                    },
                ),
            )
        } else if length >= 192 {
            if offset + 1 < packet.len() {
                name_at(
                    packet,
                    pointer_target(length, packet[offset + 1]),
                    labels,
                    match end {
                        Some(end) => Some(end),
                        None => Some(offset + 2),
                    },
                    (fuel - 1) as nat,
                )
            } else {
                None
            }
        } else if length >= 64 {
            None
        } else if offset + 1 + length <= packet.len() && valid_utf8(
            packet.subrange(offset + 1, offset + 1 + length),
        ) {
            name_at(
                packet,
                offset + 1 + length,
                labels.push(decode_utf8(packet.subrange(offset + 1, offset + 1 + length))),
                end,
                (fuel - 1) as nat,
            )
        } else {
            None
        }
    }
}

/// The name at `start` and where it ends. Pointers are followed, so a name can
/// be written in part elsewhere; after 128 steps it is given up.
pub open spec fn dns_name(packet: Seq<u8>, start: int) -> Option<(Seq<char>, int)> {
    name_at(packet, start, Seq::empty(), None, 128)
}

/// The first `k` labels come first in what is sent.
proof fn lemma_encoded_prefix(labels: Seq<Seq<char>>, k: int)
    requires
        0 <= k <= labels.len(),
    ensures
        encoded_labels(labels.take(k)).len() <= encoded_labels(labels).len(),
        encoded_labels(labels).take(encoded_labels(labels.take(k)).len() as int) == encoded_labels(
            labels.take(k),
        ),
    decreases labels.len(),
{
    if k == labels.len() {
        assert(labels.take(k) =~= labels);
        assert(encoded_labels(labels).take(encoded_labels(labels).len() as int) =~= encoded_labels(
            labels,
        ));
    } else {
        let front = labels.drop_last();
        lemma_encoded_prefix(front, k);
        assert(front.take(k) =~= labels.take(k));
        let n = encoded_labels(labels.take(k)).len() as int;
        assert(encoded_labels(labels).take(n) =~= encoded_labels(front).take(n));
    }
}

/// Labels of one to 63 bytes.
pub open spec fn short_labels(labels: Seq<Seq<char>>) -> bool {
    forall|i: int|
        0 <= i < labels.len() ==> 0 < (#[trigger] labels[i]).len() && encode_utf8(
            labels[i],
        ).len() <= 63
}

/// The labels stand at `base`, and a zero behind them.
spec fn written_at(packet: Seq<u8>, base: int, labels: Seq<Seq<char>>) -> bool {
    let end = base + encoded_labels(labels).len();
    0 <= base && end < packet.len() && packet.subrange(base, end) == encoded_labels(labels)
        && packet[end] == 0
}

proof fn lemma_label_at(packet: Seq<u8>, base: int, labels: Seq<Seq<char>>, k: int)
    requires
        written_at(packet, base, labels),
        short_labels(labels),
        0 <= k < labels.len(),
    ensures
        ({
            let at = base + encoded_labels(labels.take(k)).len();
            let bytes = encode_utf8(labels[k]);
            &&& at + 1 + bytes.len() <= packet.len()
            &&& packet[at] == bytes.len()
            &&& packet.subrange(at + 1, at + 1 + bytes.len()) == bytes
            &&& at + 1 + bytes.len() == base + encoded_labels(labels.take(k + 1)).len()
        }),
{
    lemma_encoded_prefix(labels, k + 1);
    let all = encoded_labels(labels);
    let next = encoded_labels(labels.take(k + 1));
    let front = encoded_labels(labels.take(k));
    let bytes = encode_utf8(labels[k]);
    let at = base + front.len();
    assert(labels.take(k + 1).drop_last() =~= labels.take(k));
    assert(labels.take(k + 1).last() == labels[k]);
    assert(next == front.push(bytes.len() as usize as u8) + bytes);
    assert(bytes.len() <= 63);
    assert(packet.subrange(base, base + all.len()) == all);
    assert(packet[at] == all[front.len() as int]);
    assert(all[front.len() as int] == all.take(next.len() as int)[front.len() as int]);
    assert forall|j: int| 0 <= j < bytes.len() implies packet[at + 1 + j] == bytes[j] by {
        let m = front.len() + 1 + j;
        assert(packet[base + m] == all[m]);
        assert(all[m] == all.take(next.len() as int)[m]);
        assert(next[m] == bytes[j]);
    }
    assert(packet.subrange(at + 1, at + 1 + bytes.len()) =~= bytes);
}

proof fn lemma_read_labels(
    packet: Seq<u8>,
    base: int,
    labels: Seq<Seq<char>>,
    k: int,
    end: Option<int>,
    fuel: nat,
)
    requires
        written_at(packet, base, labels),
        short_labels(labels),
        0 <= k <= labels.len(),
        fuel > labels.len() - k,
    ensures
        name_at(
            packet,
            base + encoded_labels(labels.take(k)).len(),
            labels.take(k),
            end,
            fuel,
        ) == Some(
            (
                joined_labels(labels),
                match end {
                    Some(end) => end,
                    None => base + encoded_labels(labels).len() + 1,
                },
            ),
        ),
    decreases labels.len() - k,
{
    if k == labels.len() {
        assert(labels.take(k) =~= labels);
    } else {
        let at = base + encoded_labels(labels.take(k)).len();
        let bytes = encode_utf8(labels[k]);
        lemma_label_at(packet, base, labels, k);
        vstd::utf8::encode_utf8_valid_utf8(labels[k]);
        vstd::utf8::encode_utf8_decode_utf8(labels[k]);
        assert(labels.take(k).push(labels[k]) =~= labels.take(k + 1));
        if bytes.len() == 0 {
            assert(decode_utf8(bytes).len() == 0);
        }
        lemma_read_labels(packet, base, labels, k + 1, end, (fuel - 1) as nat);
    }
}

proof fn lemma_joined_front(a: Seq<char>, rest: Seq<Seq<char>>)
    requires
        rest.len() > 0,
    ensures
        joined_labels(seq![a] + rest) == a + "."@ + joined_labels(rest),
    decreases rest.len(),
{
    let all = seq![a] + rest;
    assert(all.last() == rest.last());
    if rest.len() == 1 {
        assert(all.drop_last() =~= seq![a]);
        assert(joined_labels(seq![a]) == a);
    } else {
        lemma_joined_front(a, rest.drop_last());
        assert(all.drop_last() =~= seq![a] + rest.drop_last());
        assert(a + "."@ + joined_labels(rest.drop_last()) + "."@ + rest.last() =~= a + "."@
            + joined_labels(rest));
    }
}

proof fn lemma_joined_pieces(s: Seq<char>)
    ensures
        joined_labels(pieces(s, '.')) == s,
    decreases s.len(),
{
    let i = text::index_of(s, '.');
    text::lemma_index_of(s, '.');
    reveal_strlit(".");
    if i < s.len() {
        let rest = s.skip(i + 1);
        lemma_joined_pieces(rest);
        text::lemma_pieces_nonempty(rest, '.');
        lemma_joined_front(s.take(i), pieces(rest, '.'));
        assert(s.take(i) + "."@ + rest =~= s);
    }
}

/// The name in a query is read back, without the dots at its end, by whoever reads
/// the query: as long as its labels are of one to 63 bytes and few enough to be read
/// in the steps that reading takes at most.
pub proof fn query_name_is_read_back(id: u16, name: Seq<char>, record_type: u16)
    requires
        short_labels(labels_of(name)),
        labels_of(name).len() < 128,
    ensures
        dns_name(query_packet(id, name, record_type), 12) == Some(
            (strip_end(name, '.'), 13 + encoded_labels(labels_of(name)).len() as int),
        ),
{
    let labels = labels_of(name);
    let packet = query_packet(id, name, record_type);
    let body = encoded_labels(labels);
    assert(query_header(id).len() == 12);
    assert(packet.subrange(12, 12 + body.len() as int) =~= body);
    assert(packet[12 + body.len() as int] == 0);
    assert(written_at(packet, 12, labels));
    assert(labels.take(0) =~= Seq::<Seq<char>>::empty());
    lemma_read_labels(packet, 12, labels, 0, None, 128);
    lemma_joined_pieces(strip_end(name, '.'));
}

fn join_labels(labels: &Vec<String>) -> (r: String)
    ensures
        r@ == joined_labels(texts(labels@)),
{
    let ghost all = texts(labels@);
    let mut out = String::new();
    let mut i: usize = 0;
    proof {
        assert(all.take(0) =~= Seq::<Seq<char>>::empty());
    }
    while i < labels.len()
        invariant
            i <= labels@.len(),
            all == texts(labels@),
            out@ == joined_labels(all.take(i as int)),
        decreases labels@.len() - i,
    {
        proof {
            let next = all.take(i as int + 1);
            assert(next.drop_last() =~= all.take(i as int));
            assert(next.last() == labels@[i as int]@);
            if i == 0 {
                assert(out@ + labels@[0]@ =~= labels@[0]@);
            }
        }
        if i > 0 {
            out.append(".");
        }
        out.append(labels[i].as_str());
        i += 1;
    }
    proof {
        assert(all.take(all.len() as int) =~= all);
    }
    out
}

/// Reads the name at `start` and where it ends.
pub fn read_dns_name(packet: &[u8], start: usize) -> (r: Result<(String, usize), VolteError>)
    ensures
        match r {
            Ok((name, end)) => dns_name(packet@, start as int) == Some((name@, end as int)),
            Err(error) => dns_name(packet@, start as int) is None && error@ == failure(
                code::RUNTIME_ALL_PCSCF_FAILED@,
            ),
        },
{
    let n = packet.len();
    let mut labels: Vec<String> = Vec::new();
    let mut offset: usize = start;
    let mut end: Option<usize> = None;
    let mut fuel: u32 = 128;
    proof {
        assert(texts(labels@) =~= Seq::<Seq<char>>::empty());
    }
    while fuel > 0
        invariant
            n == packet@.len(),
            fuel <= 128,
            dns_name(packet@, start as int) == name_at(
                packet@,
                offset as int,
                texts(labels@),
                match end {
                    Some(end) => Some(end as int),
                    None => None,
                },
                fuel as nat,
            ),
        decreases fuel,
    {
        if offset >= n {
            return Err(VolteError::new(code::RUNTIME_ALL_PCSCF_FAILED));
        }
        let length = packet[offset];
        if length == 0 {
            let name = join_labels(&labels);
            let at = match end {
                Some(end) => end,
                None => offset + 1,
            };
            return Ok((name, at));
        }
        if length >= 192 {
            if n - offset < 2 {
                return Err(VolteError::new(code::RUNTIME_ALL_PCSCF_FAILED));
            }
            let low = packet[offset + 1];
            if end.is_none() {
                end = Some(offset + 2);
            }
            offset = (length % 64) as usize * 256 + low as usize;
        } else if length >= 64 {
            return Err(VolteError::new(code::RUNTIME_ALL_PCSCF_FAILED));
        } else {
            let count = length as usize;
            if n - offset < count + 1 {
                return Err(VolteError::new(code::RUNTIME_ALL_PCSCF_FAILED));
            }
            let bytes = vstd::slice::slice_subrange(packet, offset + 1, offset + 1 + count);
            match sip::utf8_text(bytes) {
                Some(label) => {
                    let ghost before = labels@;
                    labels.push(label);
                    proof {
                        assert(texts(labels@) =~= texts(before).push(label@));
                    }
                },
                None => return Err(VolteError::new(code::RUNTIME_ALL_PCSCF_FAILED)),
            }
            offset = offset + 1 + count;
        }
        fuel -= 1;
    }
    Err(VolteError::new(code::RUNTIME_ALL_PCSCF_FAILED))
}

// ---------------------------------------------------------------------------
// Answers.

/// What an answer holds.
#[derive(Debug, PartialEq, Eq)]
pub struct DnsRecords {
    pub addresses: Vec<IpAddr>,
    /// The hosts of a service, each once.
    pub srv_targets: Vec<String>,
}

pub struct RecordsView {
    pub addresses: Seq<IpAddr>,
    pub srv_targets: Seq<Seq<char>>,
}

impl View for DnsRecords {
    type V = RecordsView;

    open spec fn view(&self) -> RecordsView {
        RecordsView { addresses: self.addresses@, srv_targets: texts(self.srv_targets@) }
    }
}

/// The value of `n` bytes at `i`, the most significant first.
pub open spec fn value_at(packet: Seq<u8>, i: int, n: nat) -> nat
    decreases n,
{
    if n == 0 {
        0
    } else {
        value_at(packet, i, (n - 1) as nat) * 256 + packet[i + n - 1] as nat
    }
}

/// Where the questions end.
pub open spec fn after_questions(packet: Seq<u8>, offset: int, count: nat) -> Option<int>
    decreases count,
{
    if count == 0 {
        Some(offset)
    } else {
        match dns_name(packet, offset) {
            Some((_, end)) => if end + 4 <= packet.len() {
                after_questions(packet, end + 4, (count - 1) as nat)
            } else {
                None
            },
            None => None,
        }
    }
}

/// The target at the end of the list, unless it is empty or there already.
pub open spec fn with_target(targets: Seq<Seq<char>>, target: Seq<char>) -> Seq<Seq<char>> {
    if target.len() == 0 || targets.contains(target) {
        targets
    } else {
        targets.push(target)
    }
}

/// What one record adds: addresses of the right length, and service targets.
/// Anything else is passed over.
pub open spec fn with_record(
    records: RecordsView,
    packet: Seq<u8>,
    record_type: nat,
    data: int,
    length: nat,
) -> Option<RecordsView> {
    if record_type == 1 && length == 4 {
        Some(
            RecordsView {
                addresses: records.addresses.push(IpAddr::V4(value_at(packet, data, 4) as u32)),
                ..records
            },
        )
    } else if record_type == 28 && length == 16 {
        Some(
            RecordsView {
                addresses: records.addresses.push(IpAddr::V6(value_at(packet, data, 16) as u128)),
                ..records
            },
        )
    } else if record_type == 33 && length >= 6 {
        match dns_name(packet, data + 6) {
            Some((target, _)) => Some(
                RecordsView { srv_targets: with_target(records.srv_targets, target), ..records },
            ),
            None => None,
        }
    } else {
        Some(records)
    }
}

/// The records from `offset` on.
pub open spec fn records_from(
    packet: Seq<u8>,
    offset: int,
    count: nat,
    records: RecordsView,
) -> Option<RecordsView>
    decreases count,
{
    if count == 0 {
        Some(records)
    } else {
        match dns_name(packet, offset) {
            Some((_, end)) => if end + 10 <= packet.len() && end + 10 + number_at(packet, end + 8)
                <= packet.len() {
                let length = number_at(packet, end + 8);
                match with_record(records, packet, number_at(packet, end), end + 10, length) {
                    Some(more) => records_from(packet, end + 10 + length, (count - 1) as nat, more),
                    None => None,
                }
            } else {
                None
            },
            None => None,
        }
    }
}

/// What the answer to the query `id` holds; none where it is damaged, reports a
/// failure or answers another query.
pub open spec fn answer_of(id: u16, packet: Seq<u8>) -> Option<RecordsView> {
    if packet.len() < 12 || number_at(packet, 0) != id || packet[3] % 16 != 0 {
        None
    } else {
        match after_questions(packet, 12, number_at(packet, 4)) {
            Some(offset) => records_from(
                packet,
                offset,
                number_at(packet, 6) + number_at(packet, 8) + number_at(packet, 10),
                RecordsView { addresses: Seq::empty(), srv_targets: Seq::empty() },
            ),
            None => None,
        }
    }
}

fn read_be16(packet: &[u8], i: usize) -> (r: u16)
    requires
        i + 2 <= packet@.len(),
    ensures
        r == number_at(packet@, i as int),
{
    let n = packet.len();
    packet[i] as u16 * 256 + packet[i + 1] as u16
}

fn read_value(packet: &[u8], i: usize, n: usize) -> (r: u128)
    requires
        i + n <= packet@.len(),
        n <= 16,
    ensures
        r == value_at(packet@, i as int, n as nat),
        n == 4 ==> r <= 0xffff_ffff,
{
    let len = packet.len();
    let mut v: u128 = 0;
    let mut k: usize = 0;
    while k < n
        invariant
            len == packet@.len(),
            k <= n <= 16,
            i + n <= len,
            v == value_at(packet@, i as int, k as nat),
            v < power(k as nat),
        decreases n - k,
    {
        proof {
            lemma_power((k + 1) as nat);
            assert(v * 256 + packet@[i + k] < power((k + 1) as nat)) by (nonlinear_arith)
                requires
                    v < power(k as nat),
                    packet@[i + k] <= 255,
                    power((k + 1) as nat) == 256 * power(k as nat),
            ;
        }
        v = v * 256 + packet[i + k] as u128;
        k += 1;
    }
    proof {
        reveal_with_fuel(power, 5);
    }
    v
}

spec fn power(n: nat) -> nat
    decreases n,
{
    if n == 0 {
        1
    } else {
        256 * power((n - 1) as nat)
    }
}

proof fn lemma_power(n: nat)
    requires
        0 < n <= 16,
    ensures
        power(n) <= 0x1_0000_0000_0000_0000_0000_0000_0000_0000,
        power(n) == 256 * power((n - 1) as nat),
{
    reveal_with_fuel(power, 17);
}

fn has_target(targets: &Vec<String>, target: &str) -> (r: bool)
    ensures
        r == texts(targets@).contains(target@),
{
    let ghost all = texts(targets@);
    let mut i: usize = 0;
    while i < targets.len()
        invariant
            i <= targets@.len(),
            all == texts(targets@),
            forall|j: int| 0 <= j < i ==> all[j] != target@,
        decreases targets@.len() - i,
    {
        if text::same(targets[i].as_str(), target) {
            assert(all[i as int] == target@);
            return true;
        }
        i += 1;
    }
    false
}

fn add_record(
    records: &mut DnsRecords,
    packet: &[u8],
    record_type: u16,
    data: usize,
    length: usize,
) -> (r: bool)
    requires
        data + length <= packet@.len(),
    ensures
        match with_record(
            old(records)@,
            packet@,
            record_type as nat,
            data as int,
            length as nat,
        ) {
            Some(more) => r && final(records)@ == more,
            None => !r,
        },
{
    let n = packet.len();
    if record_type == 1 && length == 4 {
        let value = read_value(packet, data, 4) as u32;
        records.addresses.push(IpAddr::V4(value));
        true
    } else if record_type == 28 && length == 16 {
        let value = read_value(packet, data, 16);
        records.addresses.push(IpAddr::V6(value));
        true
    } else if record_type == 33 && length >= 6 {
        match read_dns_name(packet, data + 6) {
            Ok((target, _)) => {
                let ghost before = records.srv_targets@;
                if !target.as_str().is_empty() && !has_target(
                    &records.srv_targets,
                    target.as_str(),
                ) {
                    records.srv_targets.push(target);
                    proof {
                        assert(texts(records.srv_targets@) =~= texts(before).push(target@));
                    }
                }
                true
            },
            Err(_) => false,
        }
    } else {
        true
    }
}

fn skip_questions(packet: &[u8], count: usize) -> (r: Option<usize>)
    ensures
        match r {
            Some(offset) => after_questions(packet@, 12, count as nat) == Some(offset as int),
            None => after_questions(packet@, 12, count as nat) is None,
        },
{
    let n = packet.len();
    let mut offset: usize = 12;
    let mut left: usize = count;
    while left > 0
        invariant
            n == packet@.len(),
            left <= count,
            after_questions(packet@, 12, count as nat) == after_questions(
                packet@,
                offset as int,
                left as nat,
            ),
        decreases left,
    {
        match read_dns_name(packet, offset) {
            Ok((_, end)) => {
                if end > n || n - end < 4 {
                    return None;
                }
                offset = end + 4;
            },
            Err(_) => return None,
        }
        left -= 1;
    }
    Some(offset)
}

/// Reads the answer to the query `id`.
pub fn parse_dns_response(id: u16, packet: &[u8]) -> (r: Result<DnsRecords, VolteError>)
    ensures
        match r {
            Ok(records) => answer_of(id, packet@) == Some(records@),
            Err(error) => answer_of(id, packet@) is None && error@ == failure(
                code::RUNTIME_ALL_PCSCF_FAILED@,
            ),
        },
{
    let n = packet.len();
    if n < 12 || read_be16(packet, 0) != id || packet[3] % 16 != 0 {
        return Err(VolteError::new(code::RUNTIME_ALL_PCSCF_FAILED));
    }
    let questions = read_be16(packet, 4) as usize;
    let total: u32 = read_be16(packet, 6) as u32 + read_be16(packet, 8) as u32 + read_be16(
        packet,
        10,
    ) as u32;
    let mut offset: usize = match skip_questions(packet, questions) {
        Some(offset) => offset,
        None => return Err(VolteError::new(code::RUNTIME_ALL_PCSCF_FAILED)),
    };
    let mut records = DnsRecords { addresses: Vec::new(), srv_targets: Vec::new() };
    let mut left: u32 = total;
    proof {
        assert(texts(records.srv_targets@) =~= Seq::<Seq<char>>::empty());
    }
    while left > 0
        invariant
            n == packet@.len(),
            left <= total,
            answer_of(id, packet@) == records_from(
                packet@,
                offset as int,
                left as nat,
                records@,
            ),
        decreases left,
    {
        let end = match read_dns_name(packet, offset) {
            Ok((_, end)) => end,
            Err(_) => return Err(VolteError::new(code::RUNTIME_ALL_PCSCF_FAILED)),
        };
        if end > n || n - end < 10 {
            return Err(VolteError::new(code::RUNTIME_ALL_PCSCF_FAILED));
        }
        let record_type = read_be16(packet, end);
        let length = read_be16(packet, end + 8) as usize;
        let data = end + 10;
        if n - data < length {
            return Err(VolteError::new(code::RUNTIME_ALL_PCSCF_FAILED));
        }
        if !add_record(&mut records, packet, record_type, data, length) {
            return Err(VolteError::new(code::RUNTIME_ALL_PCSCF_FAILED));
        }
        offset = data + length;
        left -= 1;
    }
    Ok(records)
}

} // verus!
