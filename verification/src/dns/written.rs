//! Responses as name servers write them are read back.

use vstd::prelude::*;
use vstd::string::*;

use crate::dns::{
    after_questions, answer_of, be16, dns_name, encoded_labels, labels_of, lemma_joined_pieces,
    lemma_read_labels, name_at, number_at, query_header, query_packet, records_from, short_labels,
    value_at, with_record, written_at, RecordsView,
};
use crate::ip::IpAddr;
use crate::text::strip_end;

verus! {

/// The number that bytes write, the most significant first.
pub open spec fn be_value(bytes: Seq<u8>) -> nat
    decreases bytes.len(),
{
    if bytes.len() == 0 {
        0
    } else {
        be_value(bytes.drop_last()) * 256 + bytes.last() as nat
    }
}

/// A resource record for the name of the question, which it points back to.
pub open spec fn record(rtype: u16, ttl: Seq<u8>, data: Seq<u8>) -> Seq<u8> {
    seq![0xc0u8, 12u8] + be16(rtype) + seq![0u8, 1u8] + ttl + be16(data.len() as u16) + data
}

/// The header of a response with one question: the query's number, no failure, and so
/// many answers.
pub open spec fn response_header(id: u16, answers: u16) -> Seq<u8> {
    be16(id) + seq![0x81u8, 0x80u8, 0u8, 1u8] + be16(answers) + seq![0u8, 0u8, 0u8, 0u8]
}

/// A response: its question and what follows it.
pub open spec fn response(
    id: u16,
    name: Seq<char>,
    qtype: u16,
    answers: u16,
    records: Seq<u8>,
) -> Seq<u8> {
    response_header(id, answers) + encoded_labels(labels_of(name)) + seq![0u8] + be16(qtype) + seq![
        0u8,
        1u8,
    ] + records
}

/// The labels of the name can be written, and be read in the steps that reading takes.
pub open spec fn writable(name: Seq<char>) -> bool {
    short_labels(labels_of(name)) && labels_of(name).len() < 127
}

/// Where what follows the question begins.
spec fn behind_question(name: Seq<char>) -> int {
    17 + encoded_labels(labels_of(name)).len() as int
}

proof fn lemma_response(id: u16, name: Seq<char>, qtype: u16, answers: u16, records: Seq<u8>)
    requires
        writable(name),
    ensures
        ({
            let packet = response(id, name, qtype, answers, records);
            &&& packet.len() == behind_question(name) + records.len()
            &&& packet.skip(behind_question(name)) == records
            &&& written_at(packet, 12, labels_of(name))
            &&& number_at(packet, 0) == id
            &&& packet[3] % 16 == 0
            &&& number_at(packet, 4) == 1
            &&& number_at(packet, 6) == answers
            &&& number_at(packet, 8) == 0
            &&& number_at(packet, 10) == 0
            &&& after_questions(packet, 12, 1) == Some(behind_question(name))
        }),
{
    let packet = response(id, name, qtype, answers, records);
    let labels = labels_of(name);
    let body = encoded_labels(labels);
    let header = response_header(id, answers);
    assert(header.len() == 12);
    assert(packet.subrange(12, 12 + body.len() as int) =~= body);
    assert(packet[12 + body.len() as int] == 0);
    assert(packet.skip(behind_question(name)) =~= records);
    assert(written_at(packet, 12, labels));
    assert(packet[0] == (id / 256) as u8 && packet[1] == (id % 256) as u8);
    assert(packet[2] == 0x81u8 && packet[3] == 0x80u8);
    assert(packet[4] == 0 && packet[5] == 1);
    assert(packet[6] == (answers / 256) as u8 && packet[7] == (answers % 256) as u8);
    assert(packet[8] == 0 && packet[9] == 0 && packet[10] == 0 && packet[11] == 0);
    assert(labels.take(0) =~= Seq::<Seq<char>>::empty());
    assert(encoded_labels(labels.take(0)) =~= Seq::<u8>::empty());
    lemma_read_labels(packet, 12, labels, 0, None, 128);
    reveal_with_fuel(after_questions, 3);
}

/// A record at `at` is read as what it says.
proof fn lemma_record(
    packet: Seq<u8>,
    labels: Seq<Seq<char>>,
    at: int,
    rtype: u16,
    ttl: Seq<u8>,
    data: Seq<u8>,
    count: nat,
    records: RecordsView,
)
    requires
        written_at(packet, 12, labels),
        short_labels(labels),
        labels.len() < 127,
        ttl.len() == 4,
        data.len() < 65536,
        0 <= at,
        at + 12 + data.len() <= packet.len(),
        packet.subrange(at, at + 12 + data.len()) == record(rtype, ttl, data),
        count > 0,
    ensures
        records_from(packet, at, count, records) == (match with_record(
            records,
            packet,
            rtype as nat,
            at + 12,
            data.len(),
        ) {
            Some(more) => records_from(packet, at + 12 + data.len(), (count - 1) as nat, more),
            None => None,
        }),
        packet.subrange(at + 12, at + 12 + data.len()) == data,
{
    let r = record(rtype, ttl, data);
    let sub = packet.subrange(at, at + 12 + data.len());
    assert(r.len() == 12 + data.len());
    assert forall|i: int| 0 <= i < r.len() implies packet[at + i] == #[trigger] r[i] by {
        assert(sub[i] == packet[at + i]);
    }
    assert(r[0] == 0xc0u8 && r[1] == 12u8);
    assert(packet[at + 0] == r[0] && packet[at + 1] == r[1]);
    assert(r[2] == (rtype / 256) as u8 && r[3] == (rtype % 256) as u8);
    assert(packet[at + 2] == r[2] && packet[at + 3] == r[3]);
    let n = data.len() as u16;
    assert(r[10] == (n / 256) as u8 && r[11] == (n % 256) as u8);
    assert(packet[at + 10] == r[10] && packet[at + 11] == r[11]);
    assert(number_at(packet, at + 2) == rtype);
    assert(number_at(packet, at + 10) == data.len());
    assert(packet.subrange(at + 12, at + 12 + data.len()) =~= data) by {
        assert forall|j: int| 0 <= j < data.len() implies packet[at + 12 + j] == data[j] by {
            assert(r[12 + j] == data[j]);
            assert(packet[at + (12 + j)] == r[12 + j]);
        }
    }
    assert(labels.take(0) =~= Seq::<Seq<char>>::empty());
    assert(encoded_labels(labels.take(0)) =~= Seq::<u8>::empty());
    lemma_read_labels(packet, 12, labels, 0, Some(at + 2), 127);
    assert(crate::dns::pointer_target(0xc0u8, 12u8) == 12);
    assert(dns_name(packet, at) == name_at(packet, 12, Seq::empty(), Some(at + 2), 127));
    assert(dns_name(packet, at) is Some && (dns_name(packet, at)->0).1 == at + 2);
}

proof fn lemma_value(packet: Seq<u8>, at: int, data: Seq<u8>, n: nat)
    requires
        0 <= at,
        at + data.len() <= packet.len(),
        packet.subrange(at, at + data.len()) == data,
        n <= data.len(),
    ensures
        value_at(packet, at, n) == be_value(data.take(n as int)),
    decreases n,
{
    if n > 0 {
        lemma_value(packet, at, data, (n - 1) as nat);
        let d = data.take(n as int);
        assert(d.drop_last() =~= data.take(n - 1));
        assert(d.last() == packet.subrange(at, at + data.len())[n - 1]);
    }
}

/// The bytes write a number of at most so many bits.
proof fn lemma_bound(data: Seq<u8>)
    requires
        data.len() <= 16,
    ensures
        be_value(data) <= u128::MAX,
        data.len() == 4 ==> be_value(data) <= u32::MAX,
{
    lemma_small(data);
    reveal_with_fuel(size, 17);
}

spec fn size(n: nat) -> nat
    decreases n,
{
    if n == 0 {
        1
    } else {
        256 * size((n - 1) as nat)
    }
}

proof fn lemma_small(data: Seq<u8>)
    ensures
        be_value(data) < size(data.len()),
    decreases data.len(),
{
    if data.len() > 0 {
        lemma_small(data.drop_last());
        assert(be_value(data.drop_last()) * 256 + data.last() < 256 * size((data.len() - 1) as nat))
            by (nonlinear_arith)
            requires
                be_value(data.drop_last()) < size((data.len() - 1) as nat),
                data.last() <= 255,
        ;
    }
}

/// The records of a list, one behind the other.
pub open spec fn records_of(rtype: u16, ttl: Seq<u8>, list: Seq<Seq<u8>>) -> Seq<u8>
    decreases list.len(),
{
    if list.len() == 0 {
        Seq::empty()
    } else {
        record(rtype, ttl, list[0]) + records_of(rtype, ttl, list.drop_first())
    }
}

/// Each of the list is an address of this many bytes.
pub open spec fn all_of_length(list: Seq<Seq<u8>>, n: nat) -> bool {
    forall|i: int| 0 <= i < list.len() ==> (#[trigger] list[i]).len() == n
}

proof fn lemma_addresses(
    packet: Seq<u8>,
    labels: Seq<Seq<char>>,
    at: int,
    six: bool,
    ttl: Seq<u8>,
    list: Seq<Seq<u8>>,
    found: Seq<IpAddr>,
)
    requires
        written_at(packet, 12, labels),
        short_labels(labels),
        labels.len() < 127,
        ttl.len() == 4,
        0 <= at <= packet.len(),
        packet.skip(at) == records_of(
            if six {
                28u16
            } else {
                1u16
            },
            ttl,
            list,
        ),
        all_of_length(
            list,
            if six {
                16
            } else {
                4
            },
        ),
    ensures
        ({
            let read = records_from(
                packet,
                at,
                list.len(),
                RecordsView { addresses: found, srv_targets: Seq::empty() },
            );
            &&& read is Some
            &&& read->0.srv_targets.len() == 0
            &&& read->0.addresses.len() == found.len() + list.len()
            &&& read->0.addresses.take(found.len() as int) == found
            &&& forall|i: int|
                0 <= i < list.len() ==> #[trigger] read->0.addresses[found.len() + i] == (if six {
                    IpAddr::V6(be_value(list[i]) as u128)
                } else {
                    IpAddr::V4(be_value(list[i]) as u32)
                })
        }),
    decreases list.len(),
{
    let rtype: u16 = if six {
        28
    } else {
        1
    };
    let before = RecordsView { addresses: found, srv_targets: Seq::empty() };
    if list.len() == 0 {
        assert(found.take(found.len() as int) =~= found);
    } else {
        let data = list[0];
        let rest = list.drop_first();
        let first = record(rtype, ttl, data);
        let whole = records_of(rtype, ttl, list);
        let next = at + 12 + data.len();
        assert(first.len() == 12 + data.len());
        assert(packet.skip(at).len() == whole.len());
        assert(packet.subrange(at, next) =~= first) by {
            assert forall|i: int| 0 <= i < first.len() implies packet[at + i] == first[i] by {
                assert(packet.skip(at)[i] == packet[at + i]);
                assert(whole[i] == first[i]);
            }
        }
        assert(packet.skip(next) =~= records_of(rtype, ttl, rest)) by {
            assert forall|i: int| 0 <= i < packet.len() - next implies packet[next + i]
                == records_of(rtype, ttl, rest)[i] by {
                assert(packet.skip(at)[12 + data.len() + i] == packet[next + i]);
                assert(whole[12 + data.len() + i] == records_of(rtype, ttl, rest)[i]);
            }
        }
        lemma_record(packet, labels, at, rtype, ttl, data, list.len(), before);
        lemma_value(packet, at + 12, data, data.len());
        assert(data.take(data.len() as int) =~= data);
        let address = if six {
            IpAddr::V6(be_value(data) as u128)
        } else {
            IpAddr::V4(be_value(data) as u32)
        };
        assert forall|i: int| 0 <= i < rest.len() implies (#[trigger] rest[i]).len() == data.len() by {
            assert(rest[i] == list[i + 1]);
        }
        let more = found.push(address);
        lemma_addresses(packet, labels, next, six, ttl, rest, more);
        let read = records_from(
            packet,
            next,
            rest.len(),
            RecordsView { addresses: more, srv_targets: Seq::empty() },
        );
        assert(records_from(packet, at, list.len(), before) == read);
        let got = read->0.addresses;
        assert(got.take(found.len() as int) =~= found) by {
            assert forall|i: int| 0 <= i < found.len() implies got[i] == found[i] by {
                assert(got.take(more.len() as int)[i] == more[i]);
            }
        }
        assert forall|i: int| 0 <= i < list.len() implies #[trigger] got[found.len() + i] == (
        if six {
            IpAddr::V6(be_value(list[i]) as u128)
        } else {
            IpAddr::V4(be_value(list[i]) as u32)
        }) by {
            if i == 0 {
                assert(got.take(more.len() as int)[found.len() as int] == address);
            } else {
                assert(rest[i - 1] == list[i]);
                assert(got[more.len() + (i - 1)] == got[found.len() + i]);
            }
        }
    }
}

/// The addresses that a name server writes are the ones that are read: of a response to
/// the query with records of type A, each of four bytes, every address is found, with
/// the very number that its bytes write, in the order of the records; and nothing else.
pub proof fn ipv4_records_are_read_back(
    id: u16,
    name: Seq<char>,
    qtype: u16,
    ttl: Seq<u8>,
    list: Seq<Seq<u8>>,
)
    requires
        writable(name),
        ttl.len() == 4,
        list.len() < 65536,
        all_of_length(list, 4),
    ensures
        ({
            let read = answer_of(
                id,
                response(id, name, qtype, list.len() as u16, records_of(1, ttl, list)),
            );
            &&& read is Some
            &&& read->0.srv_targets.len() == 0
            &&& read->0.addresses.len() == list.len()
            &&& forall|i: int|
                0 <= i < list.len() ==> {
                    &&& (#[trigger] read->0.addresses[i]) is V4
                    &&& read->0.addresses[i]->V4_0 == be_value(list[i])
                }
        }),
{
    let records = records_of(1, ttl, list);
    let packet = response(id, name, qtype, list.len() as u16, records);
    lemma_response(id, name, qtype, list.len() as u16, records);
    lemma_addresses(
        packet,
        labels_of(name),
        behind_question(name),
        false,
        ttl,
        list,
        Seq::empty(),
    );
    let read = answer_of(id, packet);
    assert forall|i: int| 0 <= i < list.len() implies (#[trigger] read->0.addresses[i]) is V4
        && read->0.addresses[i]->V4_0 == be_value(list[i]) by {
        assert(read->0.addresses[Seq::<IpAddr>::empty().len() + i] == IpAddr::V4(
            be_value(list[i]) as u32,
        ));
        assert(list[i].len() == 4);
        lemma_bound(list[i]);
    }
}

/// The same of records of type AAAA, each of sixteen bytes.
pub proof fn ipv6_records_are_read_back(
    id: u16,
    name: Seq<char>,
    qtype: u16,
    ttl: Seq<u8>,
    list: Seq<Seq<u8>>,
)
    requires
        writable(name),
        ttl.len() == 4,
        list.len() < 65536,
        all_of_length(list, 16),
    ensures
        ({
            let read = answer_of(
                id,
                response(id, name, qtype, list.len() as u16, records_of(28, ttl, list)),
            );
            &&& read is Some
            &&& read->0.srv_targets.len() == 0
            &&& read->0.addresses.len() == list.len()
            &&& forall|i: int|
                0 <= i < list.len() ==> {
                    &&& (#[trigger] read->0.addresses[i]) is V6
                    &&& read->0.addresses[i]->V6_0 == be_value(list[i])
                }
        }),
{
    let records = records_of(28, ttl, list);
    let packet = response(id, name, qtype, list.len() as u16, records);
    lemma_response(id, name, qtype, list.len() as u16, records);
    lemma_addresses(packet, labels_of(name), behind_question(name), true, ttl, list, Seq::empty());
    let read = answer_of(id, packet);
    assert forall|i: int| 0 <= i < list.len() implies (#[trigger] read->0.addresses[i]) is V6
        && read->0.addresses[i]->V6_0 == be_value(list[i]) by {
        assert(read->0.addresses[Seq::<IpAddr>::empty().len() + i] == IpAddr::V6(
            be_value(list[i]) as u128,
        ));
        assert(list[i].len() == 16);
        lemma_bound(list[i]);
    }
}

/// A service record names its target: of a response with one record of type SRV the host
/// that stands behind its priority, weight and port is found, and no address.
pub proof fn service_target_is_read_back(
    id: u16,
    name: Seq<char>,
    qtype: u16,
    ttl: Seq<u8>,
    numbers: Seq<u8>,
    target: Seq<char>,
)
    requires
        writable(name),
        writable(target),
        strip_end(target, '.').len() > 0,
        encoded_labels(labels_of(target)).len() < 60000,
        ttl.len() == 4,
        numbers.len() == 6,
    ensures
        ({
            let data = numbers + encoded_labels(labels_of(target)) + seq![0u8];
            answer_of(id, response(id, name, qtype, 1, record(33, ttl, data))) == Some(
                RecordsView {
                    addresses: Seq::empty(),
                    srv_targets: seq![strip_end(target, '.')],
                },
            )
        }),
{
    let labels = labels_of(target);
    let body = encoded_labels(labels);
    let data = numbers + body + seq![0u8];
    let r = record(33, ttl, data);
    let packet = response(id, name, qtype, 1, r);
    let at = behind_question(name);
    lemma_response(id, name, qtype, 1, r);
    let none = RecordsView { addresses: Seq::empty(), srv_targets: Seq::empty() };
    assert(packet.subrange(at, at + 12 + data.len()) =~= r) by {
        assert forall|i: int| 0 <= i < r.len() implies packet[at + i] == r[i] by {
            assert(packet.skip(at)[i] == packet[at + i]);
        }
    }
    lemma_record(packet, labels_of(name), at, 33, ttl, data, 1, none);
    let base = at + 18;
    let sub = packet.subrange(at + 12, at + 12 + data.len());
    assert(packet.subrange(base, base + body.len()) =~= body) by {
        assert forall|i: int| 0 <= i < body.len() implies packet[base + i] == body[i] by {
            assert(sub[6 + i] == packet[base + i]);
            assert(data[6 + i] == body[i]);
        }
    }
    assert(sub[6 + body.len() as int] == packet[base + body.len()]);
    assert(data[6 + body.len() as int] == 0);
    assert(written_at(packet, base, labels));
    assert(labels.take(0) =~= Seq::<Seq<char>>::empty());
    assert(encoded_labels(labels.take(0)) =~= Seq::<u8>::empty());
    lemma_read_labels(packet, base, labels, 0, None, 128);
    lemma_joined_pieces(strip_end(target, '.'));
    let none_yet = Seq::<Seq<char>>::empty();
    assert(none_yet.push(strip_end(target, '.')) =~= seq![strip_end(target, '.')]);
    reveal_with_fuel(records_from, 3);
}

/// A response to another query, or one that reports a failure, holds nothing; neither does
/// a packet that is too short to be one.
pub proof fn foreign_responses_are_refused(id: u16, packet: Seq<u8>)
    ensures
        packet.len() < 12 ==> answer_of(id, packet) is None,
        packet.len() >= 12 && be_value(packet.take(2)) != id ==> answer_of(id, packet) is None,
        packet.len() >= 12 && packet[3] % 16 != 0 ==> answer_of(id, packet) is None,
{
    if packet.len() >= 12 {
        reveal_with_fuel(be_value, 4);
        let two = packet.take(2);
        assert(two.drop_last().last() == packet[0] && two.last() == packet[1]);
        assert(two.drop_last().drop_last() =~= Seq::<u8>::empty());
    }
}

/// A query asks for what it is built for: it bears its number, asks one question with
/// recursion, and the question's name and type are the ones asked for.
pub proof fn query_asks_its_question(id: u16, name: Seq<char>, record_type: u16)
    requires
        writable(name),
    ensures
        ({
            let packet = query_packet(id, name, record_type);
            let end = 13 + encoded_labels(labels_of(name)).len() as int;
            &&& be_value(packet.take(2)) == id
            &&& packet[2] % 2 == 1
            &&& packet[3] == 0
            &&& be_value(packet.subrange(4, 6)) == 1
            &&& be_value(packet.subrange(6, 12)) == 0
            &&& dns_name(packet, 12) is Some
            &&& (dns_name(packet, 12)->0).0 == strip_end(name, '.')
            &&& (dns_name(packet, 12)->0).1 == end
            &&& be_value(packet.subrange(end, end + 2)) == record_type
            &&& be_value(packet.subrange(end + 2, end + 4)) == 1
            &&& packet.len() == end + 4
        }),
{
    let packet = query_packet(id, name, record_type);
    let body = encoded_labels(labels_of(name));
    let end = 13 + body.len() as int;
    crate::dns::query_name_is_read_back(id, name, record_type);
    assert(query_header(id).len() == 12);
    reveal_with_fuel(be_value, 8);
    let a = packet.take(2);
    assert(a =~= seq![(id / 256) as u8, (id % 256) as u8]);
    assert(a.drop_last() =~= seq![(id / 256) as u8]);
    assert(a.drop_last().drop_last() =~= Seq::<u8>::empty());
    let q = packet.subrange(4, 6);
    assert(q =~= seq![0u8, 1u8]);
    assert(q.drop_last() =~= seq![0u8]);
    assert(q.drop_last().drop_last() =~= Seq::<u8>::empty());
    let z = packet.subrange(6, 12);
    assert(z =~= seq![0u8, 0u8, 0u8, 0u8, 0u8, 0u8]);
    lemma_zeros(z);
    let t = packet.subrange(end, end + 2);
    assert(t =~= be16(record_type));
    assert(t.drop_last() =~= seq![(record_type / 256) as u8]);
    assert(t.drop_last().drop_last() =~= Seq::<u8>::empty());
    let c = packet.subrange(end + 2, end + 4);
    assert(c =~= seq![0u8, 1u8]);
    assert(c.drop_last() =~= seq![0u8]);
    assert(c.drop_last().drop_last() =~= Seq::<u8>::empty());
}

proof fn lemma_zeros(z: Seq<u8>)
    requires
        forall|i: int| 0 <= i < z.len() ==> #[trigger] z[i] == 0,
    ensures
        be_value(z) == 0,
    decreases z.len(),
{
    if z.len() > 0 {
        lemma_zeros(z.drop_last());
    }
}

} // verus!
