//! The advertised host and service, and the answer records the responder
//! synthesizes for a matching question.

use vstd::prelude::*;

use crate::address::Ipv6Address;
use crate::query::{question_views, Query, Question, QuestionModel};
use crate::wire::{
    append_bytes, append_label, append_name_tail, append_record, append_sub_label, be16, bytes_eq,
    lbl, name_tail, push_be16, spec_record, sub_label,
};

verus! {

pub const TYPE_A: u16 = 1;

pub const TYPE_PTR: u16 = 12;

pub const TYPE_TXT: u16 = 16;

pub const TYPE_AAAA: u16 = 28;

pub const TYPE_SRV: u16 = 33;

pub const TYPE_ANY: u16 = 255;

/// The internet class.
pub const CLASS_IN: u16 = 1;

/// The internet class with the cache-flush bit, used on records only one
/// host may hold.
pub const CLASS_IN_FLUSH: u16 = 0x8001;

/// The internet class with the unicast-response bit, as a questioner sets it.
pub const CLASS_IN_QU: u16 = 0x8001;

/// The host a responder session announces: its one hostname label, its
/// addresses, and the TTL of every record of the session.
#[derive(Clone, Debug, PartialEq, Eq)]
pub struct HostRecord {
    pub hostname: Vec<u8>,
    pub ipv4: crate::address::Ipv4Address,
    pub ipv6: Option<Ipv6Address>,
    pub ttl: u32,
}

/// One key/value attribute pair of the service's TXT record.
#[derive(Clone, Debug, PartialEq, Eq)]
pub struct TxtPair {
    pub key: Vec<u8>,
    pub value: Vec<u8>,
}

/// The service a responder session advertises.
#[derive(Clone, Debug, PartialEq, Eq)]
pub struct ServiceDescriptor {
    /// The instance label, typically a device serial number.
    pub instance: Vec<u8>,
    /// The service type label, for instance `_pigg`.
    pub service: Vec<u8>,
    /// The transport protocol label, for instance `_tcp`.
    pub protocol: Vec<u8>,
    pub port: u16,
    pub priority: u16,
    pub weight: u16,
    /// Service subtype labels; may be empty.
    pub subtypes: Vec<Vec<u8>>,
    /// The attribute pairs of the TXT record, in the order they are
    /// advertised.
    pub txt: Vec<TxtPair>,
}

/// A DNS label holds 1 to 63 bytes.
pub open spec fn label_wf(x: Seq<u8>) -> bool {
    1 <= x.len() <= 63
}

/// A TXT pair fits one TXT string: a nonempty key, and key, separator and
/// value within 255 bytes.
pub open spec fn txt_pair_wf(p: TxtPair) -> bool {
    &&& 1 <= p.key@.len()
    &&& p.key@.len() + p.value@.len() <= 254
}

pub open spec fn spec_host_wf(h: HostRecord) -> bool {
    label_wf(h.hostname@)
}

pub open spec fn spec_service_wf(s: ServiceDescriptor) -> bool {
    &&& label_wf(s.instance@)
    &&& label_wf(s.service@)
    &&& label_wf(s.protocol@)
    &&& forall|i: int| 0 <= i < s.subtypes@.len() ==> label_wf(#[trigger] s.subtypes@[i]@)
    &&& s.txt@.len() <= 255
    &&& forall|i: int| 0 <= i < s.txt@.len() ==> txt_pair_wf(#[trigger] s.txt@[i])
}

/// The service type name, `<service>.<protocol>.local.` in wire form.
pub open spec fn spec_service_type_name(s: ServiceDescriptor) -> Seq<u8> {
    lbl(s.service@) + lbl(s.protocol@) + name_tail()
}

/// The service instance name, `<instance>.<service>.<protocol>.local.`.
pub open spec fn spec_instance_name(s: ServiceDescriptor) -> Seq<u8> {
    lbl(s.instance@) + spec_service_type_name(s)
}

/// A subtype name, `<subtype>._sub.<service>.<protocol>.local.`.
pub open spec fn spec_subtype_name(s: ServiceDescriptor, j: int) -> Seq<u8> {
    lbl(s.subtypes@[j]@) + sub_label() + spec_service_type_name(s)
}

/// The host name, `<hostname>.local.`.
pub open spec fn spec_host_name(h: HostRecord) -> Seq<u8> {
    lbl(h.hostname@) + name_tail()
}

/// The SRV record data: priority, weight, port, and the host name.
pub open spec fn spec_srv_rdata(s: ServiceDescriptor, h: HostRecord) -> Seq<u8> {
    be16(s.priority) + be16(s.weight) + be16(s.port) + spec_host_name(h)
}

/// The A record data: the four IPv4 octets.
pub open spec fn spec_a_rdata(h: HostRecord) -> Seq<u8> {
    h.ipv4.octets@
}

/// The AAAA record data: the sixteen IPv6 octets.
pub open spec fn spec_aaaa_rdata(v6: Ipv6Address) -> Seq<u8> {
    v6.octets@
}

/// One TXT string: its length in one byte, then `key=value`.
pub open spec fn spec_txt_entry(p: TxtPair) -> Seq<u8> {
    seq![(p.key@.len() + 1 + p.value@.len()) as u8] + p.key@ + seq![61u8] + p.value@
}

/// The TXT strings of the pairs, in their configured order.
pub open spec fn spec_txt_entries(pairs: Seq<TxtPair>) -> Seq<u8>
    decreases pairs.len(),
{
    if pairs.len() == 0 {
        Seq::empty()
    } else {
        spec_txt_entries(pairs.drop_last()) + spec_txt_entry(pairs.last())
    }
}

/// The TXT record data: the strings of every configured pair in order, or
/// one empty string when no pair is configured.
pub open spec fn spec_txt_rdata(pairs: Seq<TxtPair>) -> Seq<u8> {
    if pairs.len() == 0 {
        seq![0u8]
    } else {
        spec_txt_entries(pairs)
    }
}

/// Each TXT string takes at most 256 bytes.
pub proof fn lemma_txt_entries_len(pairs: Seq<TxtPair>)
    requires
        forall|i: int| 0 <= i < pairs.len() ==> txt_pair_wf(#[trigger] pairs[i]),
    ensures
        spec_txt_entries(pairs).len() <= 256 * pairs.len(),
    decreases pairs.len(),
{
    if pairs.len() > 0 {
        assert(forall|i: int|
            0 <= i < pairs.drop_last().len() ==> txt_pair_wf(#[trigger] pairs.drop_last()[i]));
        lemma_txt_entries_len(pairs.drop_last());
    }
}

/// Build the service type name.
pub fn service_type_name(s: &ServiceDescriptor) -> (r: Vec<u8>)
    requires
        spec_service_wf(*s),
    ensures
        r@ == spec_service_type_name(*s),
        r@.len() <= 255,
{
    let mut out: Vec<u8> = Vec::new();
    append_label(&mut out, &s.service);
    append_label(&mut out, &s.protocol);
    append_name_tail(&mut out);
    proof {
        assert(out@ =~= spec_service_type_name(*s));
    }
    out
}

/// Build the service instance name.
pub fn instance_name(s: &ServiceDescriptor) -> (r: Vec<u8>)
    requires
        spec_service_wf(*s),
    ensures
        r@ == spec_instance_name(*s),
        r@.len() <= 255,
{
    let mut out: Vec<u8> = Vec::new();
    append_label(&mut out, &s.instance);
    append_label(&mut out, &s.service);
    append_label(&mut out, &s.protocol);
    append_name_tail(&mut out);
    proof {
        assert(out@ =~= spec_instance_name(*s));
    }
    out
}

/// Build the name of the subtype at index `j`.
pub fn subtype_name(s: &ServiceDescriptor, j: usize) -> (r: Vec<u8>)
    requires
        spec_service_wf(*s),
        j < s.subtypes@.len(),
    ensures
        r@ == spec_subtype_name(*s, j as int),
{
    let mut out: Vec<u8> = Vec::new();
    append_label(&mut out, &s.subtypes[j]);
    append_sub_label(&mut out);
    append_label(&mut out, &s.service);
    append_label(&mut out, &s.protocol);
    append_name_tail(&mut out);
    proof {
        assert(out@ =~= spec_subtype_name(*s, j as int));
    }
    out
}

/// Build the host name.
pub fn host_name(h: &HostRecord) -> (r: Vec<u8>)
    requires
        spec_host_wf(*h),
    ensures
        r@ == spec_host_name(*h),
        r@.len() <= 255,
{
    let mut out: Vec<u8> = Vec::new();
    append_label(&mut out, &h.hostname);
    append_name_tail(&mut out);
    proof {
        assert(out@ =~= spec_host_name(*h));
    }
    out
}

/// Build the SRV record data.
pub fn srv_rdata(s: &ServiceDescriptor, h: &HostRecord) -> (r: Vec<u8>)
    requires
        spec_service_wf(*s),
        spec_host_wf(*h),
    ensures
        r@ == spec_srv_rdata(*s, *h),
        r@.len() <= 0xffff,
{
    let mut out: Vec<u8> = Vec::new();
    push_be16(&mut out, s.priority);
    push_be16(&mut out, s.weight);
    push_be16(&mut out, s.port);
    append_label(&mut out, &h.hostname);
    append_name_tail(&mut out);
    proof {
        assert(out@ =~= spec_srv_rdata(*s, *h));
    }
    out
}

/// Build the A record data.
pub fn a_rdata(h: &HostRecord) -> (r: Vec<u8>)
    ensures
        r@ == spec_a_rdata(*h),
        r@.len() == 4,
{
    let mut out: Vec<u8> = Vec::new();
    out.push(h.ipv4.octets[0]);
    out.push(h.ipv4.octets[1]);
    out.push(h.ipv4.octets[2]);
    out.push(h.ipv4.octets[3]);
    proof {
        assert(out@ =~= h.ipv4.octets@);
    }
    out
}

/// Build the AAAA record data.
pub fn aaaa_rdata(v6: &Ipv6Address) -> (r: Vec<u8>)
    ensures
        r@ == spec_aaaa_rdata(*v6),
        r@.len() == 16,
{
    let mut out: Vec<u8> = Vec::new();
    let mut k: usize = 0;
    while k < 16
        invariant
            k <= 16,
            out@ == v6.octets@.subrange(0, k as int),
        decreases 16 - k,
    {
        out.push(v6.octets[k]);
        k = k + 1;
        proof {
            assert(out@ =~= v6.octets@.subrange(0, k as int));
        }
    }
    proof {
        assert(v6.octets@.subrange(0, 16) =~= v6.octets@);
    }
    out
}

/// Build the TXT record data.
pub fn txt_rdata(pairs: &Vec<TxtPair>) -> (r: Vec<u8>)
    requires
        pairs@.len() <= 255,
        forall|i: int| 0 <= i < pairs@.len() ==> txt_pair_wf(#[trigger] pairs@[i]),
    ensures
        r@ == spec_txt_rdata(pairs@),
        r@.len() <= 0xffff,
{
    if pairs.len() == 0 {
        let mut out: Vec<u8> = Vec::new();
        out.push(0);
        proof {
            assert(out@ =~= seq![0u8]);
        }
        return out;
    }
    let mut out: Vec<u8> = Vec::new();
    let mut i: usize = 0;
    proof {
        assert(pairs@.take(0) =~= Seq::<TxtPair>::empty());
    }
    while i < pairs.len()
        invariant
            i <= pairs@.len(),
            pairs@.len() <= 255,
            forall|k: int| 0 <= k < pairs@.len() ==> txt_pair_wf(#[trigger] pairs@[k]),
            out@ == spec_txt_entries(pairs@.take(i as int)),
            out@.len() <= 256 * i,
        decreases pairs@.len() - i,
    {
        let p = &pairs[i];
        let ghost prev = out@;
        out.push((p.key.len() + 1 + p.value.len()) as u8);
        append_bytes(&mut out, &p.key);
        out.push(61);
        append_bytes(&mut out, &p.value);
        i = i + 1;
        proof {
            assert(pairs@.take(i as int).drop_last() =~= pairs@.take(i - 1));
            assert(pairs@.take(i as int).last() == pairs@[i - 1]);
            assert(out@ =~= prev + spec_txt_entry(pairs@[i - 1]));
        }
    }
    proof {
        assert(pairs@.take(pairs@.len() as int) =~= pairs@);
    }
    out
}

/// Does the class of a question name the internet class, with or without
/// the unicast-response bit?
pub open spec fn class_in(c: u16) -> bool {
    c == CLASS_IN || c == CLASS_IN_QU
}

/// Is the name one of the advertised subtype names?
pub open spec fn spec_is_subtype_name(name: Seq<u8>, s: ServiceDescriptor) -> bool {
    exists|j: int| 0 <= j < s.subtypes@.len() && name == spec_subtype_name(s, j)
}

/// The detail records that accompany a service enumeration answer: SRV and
/// TXT for the instance, and the host addresses.
pub open spec fn spec_detail_records(h: HostRecord, s: ServiceDescriptor) -> Seq<u8> {
    spec_record(spec_instance_name(s), TYPE_SRV, CLASS_IN_FLUSH, h.ttl, spec_srv_rdata(s, h))
        + spec_record(spec_instance_name(s), TYPE_TXT, CLASS_IN_FLUSH, h.ttl, spec_txt_rdata(s.txt@))
        + spec_record(spec_host_name(h), TYPE_A, CLASS_IN_FLUSH, h.ttl, spec_a_rdata(h)) + (
    match h.ipv6 {
        Some(v6) => spec_record(spec_host_name(h), TYPE_AAAA, CLASS_IN_FLUSH, h.ttl, spec_aaaa_rdata(v6)),
        None => Seq::<u8>::empty(),
    })
}

pub open spec fn spec_detail_count(h: HostRecord) -> nat {
    if h.ipv6 is Some {
        4nat
    } else {
        3nat
    }
}

/// The answer records one question earns: a PTR with full details for a
/// service-type or subtype enumeration, SRV and TXT detail for the
/// instance name, addresses for the host name, and nothing for any other
/// question.
pub open spec fn spec_answers_for_question(
    q: QuestionModel,
    h: HostRecord,
    s: ServiceDescriptor,
) -> Seq<u8> {
    if !class_in(q.qclass) {
        Seq::<u8>::empty()
    } else if q.name == spec_service_type_name(s) && (q.qtype == TYPE_PTR || q.qtype == TYPE_ANY) {
        spec_record(spec_service_type_name(s), TYPE_PTR, CLASS_IN, h.ttl, spec_instance_name(s))
            + spec_detail_records(h, s)
    } else if q.name == spec_instance_name(s) {
        if q.qtype == TYPE_SRV {
            spec_record(spec_instance_name(s), TYPE_SRV, CLASS_IN_FLUSH, h.ttl, spec_srv_rdata(s, h))
        } else if q.qtype == TYPE_TXT {
            spec_record(spec_instance_name(s), TYPE_TXT, CLASS_IN_FLUSH, h.ttl, spec_txt_rdata(s.txt@))
        } else if q.qtype == TYPE_ANY {
            spec_record(spec_instance_name(s), TYPE_SRV, CLASS_IN_FLUSH, h.ttl, spec_srv_rdata(s, h))
                + spec_record(spec_instance_name(s), TYPE_TXT, CLASS_IN_FLUSH, h.ttl, spec_txt_rdata(s.txt@))
        } else {
            Seq::<u8>::empty()
        }
    } else if q.name == spec_host_name(h) {
        if q.qtype == TYPE_A {
            spec_record(spec_host_name(h), TYPE_A, CLASS_IN_FLUSH, h.ttl, spec_a_rdata(h))
        } else if q.qtype == TYPE_AAAA {
            match h.ipv6 {
                Some(v6) => spec_record(spec_host_name(h), TYPE_AAAA, CLASS_IN_FLUSH, h.ttl, spec_aaaa_rdata(v6)),
                None => Seq::<u8>::empty(),
            }
        } else if q.qtype == TYPE_ANY {
            spec_record(spec_host_name(h), TYPE_A, CLASS_IN_FLUSH, h.ttl, spec_a_rdata(h)) + (
            match h.ipv6 {
                Some(v6) => spec_record(spec_host_name(h), TYPE_AAAA, CLASS_IN_FLUSH, h.ttl, spec_aaaa_rdata(v6)),
                None => Seq::<u8>::empty(),
            })
        } else {
            Seq::<u8>::empty()
        }
    } else if (q.qtype == TYPE_PTR || q.qtype == TYPE_ANY) && spec_is_subtype_name(q.name, s) {
        spec_record(q.name, TYPE_PTR, CLASS_IN, h.ttl, spec_instance_name(s))
            + spec_detail_records(h, s)
    } else {
        Seq::<u8>::empty()
    }
}

/// How many records `spec_answers_for_question` yields.
pub open spec fn spec_answer_count_for_question(
    q: QuestionModel,
    h: HostRecord,
    s: ServiceDescriptor,
) -> nat {
    if !class_in(q.qclass) {
        0nat
    } else if q.name == spec_service_type_name(s) && (q.qtype == TYPE_PTR || q.qtype == TYPE_ANY) {
        1 + spec_detail_count(h)
    } else if q.name == spec_instance_name(s) {
        if q.qtype == TYPE_SRV || q.qtype == TYPE_TXT {
            1nat
        } else if q.qtype == TYPE_ANY {
            2nat
        } else {
            0nat
        }
    } else if q.name == spec_host_name(h) {
        if q.qtype == TYPE_A {
            1nat
        } else if q.qtype == TYPE_AAAA {
            if h.ipv6 is Some {
                1nat
            } else {
                0nat
            }
        } else if q.qtype == TYPE_ANY {
            if h.ipv6 is Some {
                2nat
            } else {
                1nat
            }
        } else {
            0nat
        }
    } else if (q.qtype == TYPE_PTR || q.qtype == TYPE_ANY) && spec_is_subtype_name(q.name, s) {
        1 + spec_detail_count(h)
    } else {
        0nat
    }
}

/// Is the name one of the advertised subtype names?
fn matches_subtype(name: &Vec<u8>, s: &ServiceDescriptor) -> (r: bool)
    requires
        spec_service_wf(*s),
    ensures
        r == spec_is_subtype_name(name@, *s),
{
    let mut j: usize = 0;
    while j < s.subtypes.len()
        invariant
            j <= s.subtypes@.len(),
            spec_service_wf(*s),
            forall|k: int| 0 <= k < j ==> name@ != spec_subtype_name(*s, k),
        decreases s.subtypes@.len() - j,
    {
        let cand = subtype_name(s, j);
        if bytes_eq(name, &cand) {
            return true;
        }
        j = j + 1;
    }
    false
}

/// Append the SRV, TXT and address detail records.
fn append_detail_records(
    out: &mut Vec<u8>,
    h: &HostRecord,
    s: &ServiceDescriptor,
    iname: &Vec<u8>,
    hname: &Vec<u8>,
    srv_rd: &Vec<u8>,
    txt_rd: &Vec<u8>,
    a_rd: &Vec<u8>,
) -> (count: usize)
    requires
        iname@ == spec_instance_name(*s),
        hname@ == spec_host_name(*h),
        srv_rd@ == spec_srv_rdata(*s, *h),
        srv_rd@.len() <= 0xffff,
        txt_rd@ == spec_txt_rdata(s.txt@),
        txt_rd@.len() <= 0xffff,
        a_rd@ == spec_a_rdata(*h),
    ensures
        final(out)@ == old(out)@ + spec_detail_records(*h, *s),
        count == spec_detail_count(*h),
        count <= 4,
{
    append_record(out, iname, TYPE_SRV, CLASS_IN_FLUSH, h.ttl, srv_rd);
    append_record(out, iname, TYPE_TXT, CLASS_IN_FLUSH, h.ttl, txt_rd);
    append_record(out, hname, TYPE_A, CLASS_IN_FLUSH, h.ttl, a_rd);
    match &h.ipv6 {
        Some(v6) => {
            let aaaa = aaaa_rdata(v6);
            append_record(out, hname, TYPE_AAAA, CLASS_IN_FLUSH, h.ttl, &aaaa);
            proof {
                assert(out@ =~= old(out)@ + spec_detail_records(*h, *s));
            }
            4
        },
        None => {
            proof {
                assert(out@ =~= old(out)@ + spec_detail_records(*h, *s));
            }
            3
        },
    }
}

/// Append the answer records one question earns, and say how many there
/// were.
fn append_answers_for_question(
    out: &mut Vec<u8>,
    q: &Question,
    h: &HostRecord,
    s: &ServiceDescriptor,
    stype: &Vec<u8>,
    iname: &Vec<u8>,
    hname: &Vec<u8>,
    srv_rd: &Vec<u8>,
    txt_rd: &Vec<u8>,
    a_rd: &Vec<u8>,
) -> (count: usize)
    requires
        spec_service_wf(*s),
        stype@ == spec_service_type_name(*s),
        iname@ == spec_instance_name(*s),
        iname@.len() <= 0xffff,
        hname@ == spec_host_name(*h),
        srv_rd@ == spec_srv_rdata(*s, *h),
        srv_rd@.len() <= 0xffff,
        txt_rd@ == spec_txt_rdata(s.txt@),
        txt_rd@.len() <= 0xffff,
        a_rd@ == spec_a_rdata(*h),
    ensures
        final(out)@ == old(out)@ + spec_answers_for_question(q@, *h, *s),
        count == spec_answer_count_for_question(q@, *h, *s),
        count <= 5,
{
    proof {
        assert(old(out)@ + Seq::<u8>::empty() =~= old(out)@);
    }
    if !(q.qclass == CLASS_IN || q.qclass == CLASS_IN_QU) {
        return 0;
    }
    if bytes_eq(&q.name, stype) && (q.qtype == TYPE_PTR || q.qtype == TYPE_ANY) {
        append_record(out, stype, TYPE_PTR, CLASS_IN, h.ttl, iname);
        let c = append_detail_records(out, h, s, iname, hname, srv_rd, txt_rd, a_rd);
        proof {
            assert(out@ =~= old(out)@ + spec_answers_for_question(q@, *h, *s));
        }
        1 + c
    } else if bytes_eq(&q.name, iname) {
        if q.qtype == TYPE_SRV {
            append_record(out, iname, TYPE_SRV, CLASS_IN_FLUSH, h.ttl, srv_rd);
            1
        } else if q.qtype == TYPE_TXT {
            append_record(out, iname, TYPE_TXT, CLASS_IN_FLUSH, h.ttl, txt_rd);
            1
        } else if q.qtype == TYPE_ANY {
            append_record(out, iname, TYPE_SRV, CLASS_IN_FLUSH, h.ttl, srv_rd);
            append_record(out, iname, TYPE_TXT, CLASS_IN_FLUSH, h.ttl, txt_rd);
            proof {
                assert(out@ =~= old(out)@ + spec_answers_for_question(q@, *h, *s));
            }
            2
        } else {
            0
        }
    } else if bytes_eq(&q.name, hname) {
        if q.qtype == TYPE_A {
            append_record(out, hname, TYPE_A, CLASS_IN_FLUSH, h.ttl, a_rd);
            1
        } else if q.qtype == TYPE_AAAA {
            match &h.ipv6 {
                Some(v6) => {
                    let aaaa = aaaa_rdata(v6);
                    append_record(out, hname, TYPE_AAAA, CLASS_IN_FLUSH, h.ttl, &aaaa);
                    1
                },
                None => 0,
            }
        } else if q.qtype == TYPE_ANY {
            append_record(out, hname, TYPE_A, CLASS_IN_FLUSH, h.ttl, a_rd);
            match &h.ipv6 {
                Some(v6) => {
                    let aaaa = aaaa_rdata(v6);
                    append_record(out, hname, TYPE_AAAA, CLASS_IN_FLUSH, h.ttl, &aaaa);
                    proof {
                        assert(out@ =~= old(out)@ + spec_answers_for_question(q@, *h, *s));
                    }
                    2
                },
                None => 1,
            }
        } else {
            0
        }
    } else if (q.qtype == TYPE_PTR || q.qtype == TYPE_ANY) && matches_subtype(&q.name, s) {
        append_record(out, &q.name, TYPE_PTR, CLASS_IN, h.ttl, iname);
        let c = append_detail_records(out, h, s, iname, hname, srv_rd, txt_rd, a_rd);
        proof {
            assert(out@ =~= old(out)@ + spec_answers_for_question(q@, *h, *s));
        }
        1 + c
    } else {
        0
    }
}

/// The answer records of every question of a query, concatenated in
/// question order.
pub open spec fn spec_answers_bytes(
    qs: Seq<QuestionModel>,
    h: HostRecord,
    s: ServiceDescriptor,
) -> Seq<u8>
    decreases qs.len(),
{
    if qs.len() == 0 {
        Seq::<u8>::empty()
    } else {
        spec_answers_bytes(qs.drop_last(), h, s) + spec_answers_for_question(qs.last(), h, s)
    }
}

/// The total number of answer records of a query.
pub open spec fn spec_answer_count(
    qs: Seq<QuestionModel>,
    h: HostRecord,
    s: ServiceDescriptor,
) -> nat
    decreases qs.len(),
{
    if qs.len() == 0 {
        0nat
    } else {
        spec_answer_count(qs.drop_last(), h, s) + spec_answer_count_for_question(qs.last(), h, s)
    }
}

/// Whether some answered question asked for a unicast response.
pub open spec fn spec_wants_unicast(
    qs: Seq<QuestionModel>,
    h: HostRecord,
    s: ServiceDescriptor,
) -> bool
    decreases qs.len(),
{
    if qs.len() == 0 {
        false
    } else {
        spec_wants_unicast(qs.drop_last(), h, s) || (spec_answer_count_for_question(
            qs.last(),
            h,
            s,
        ) > 0 && qs.last().qclass == CLASS_IN_QU)
    }
}

/// The header of a response: the query's identifier, the response and
/// authoritative bits, and the answer count.
pub open spec fn spec_header(id: u16, ancount: u16) -> Seq<u8> {
    be16(id) + be16(0x8400) + be16(0) + be16(ancount) + be16(0) + be16(0)
}

/// The response a query earns: `None` when no question matches (the query
/// is irrelevant and stays unanswered), otherwise the response datagram
/// and whether it is to be sent unicast to the querier rather than
/// multicast.
pub open spec fn spec_response(
    q: crate::query::QueryModel,
    h: HostRecord,
    s: ServiceDescriptor,
) -> Option<(Seq<u8>, bool)> {
    let total = spec_answer_count(q.questions, h, s);
    if total == 0 || total > 0xffff {
        None
    } else {
        Some(
            (
                spec_header(q.id, total as u16) + spec_answers_bytes(q.questions, h, s),
                spec_wants_unicast(q.questions, h, s),
            ),
        )
    }
}

/// Build the response to a parsed query, or report that it earns none.
pub fn build_response(q: &Query, h: &HostRecord, s: &ServiceDescriptor) -> (r: Option<
    (Vec<u8>, bool),
>)
    requires
        spec_host_wf(*h),
        spec_service_wf(*s),
        q.questions@.len() <= 0xffff,
    ensures
        (match spec_response(q@, *h, *s) {
            None => r is None,
            Some(p) => r is Some && r.unwrap().0@ == p.0 && r.unwrap().1 == p.1,
        }),
{
    let stype = service_type_name(s);
    let iname = instance_name(s);
    let hname = host_name(h);
    let srv_rd = srv_rdata(s, h);
    let txt_rd = txt_rdata(&s.txt);
    let a_rd = a_rdata(h);

    let ghost vs = question_views(q.questions@);
    let mut body: Vec<u8> = Vec::new();
    let mut count: usize = 0;
    let mut unicast = false;
    let mut i: usize = 0;
    proof {
        assert(vs.take(0) =~= Seq::<QuestionModel>::empty());
    }
    while i < q.questions.len()
        invariant
            i <= q.questions@.len(),
            q.questions@.len() <= 0xffff,
            vs == question_views(q.questions@),
            spec_host_wf(*h),
            spec_service_wf(*s),
            stype@ == spec_service_type_name(*s),
            iname@ == spec_instance_name(*s),
            iname@.len() <= 0xffff,
            hname@ == spec_host_name(*h),
            srv_rd@ == spec_srv_rdata(*s, *h),
            srv_rd@.len() <= 0xffff,
            txt_rd@ == spec_txt_rdata(s.txt@),
            txt_rd@.len() <= 0xffff,
            a_rd@ == spec_a_rdata(*h),
            body@ == spec_answers_bytes(vs.take(i as int), *h, *s),
            count == spec_answer_count(vs.take(i as int), *h, *s),
            count <= 5 * i,
            unicast == spec_wants_unicast(vs.take(i as int), *h, *s),
        decreases q.questions@.len() - i,
    {
        let qq = &q.questions[i];
        let ghost prev_body = body@;
        let c = append_answers_for_question(
            &mut body,
            qq,
            h,
            s,
            &stype,
            &iname,
            &hname,
            &srv_rd,
            &txt_rd,
            &a_rd,
        );
        if c > 0 && qq.qclass == CLASS_IN_QU {
            unicast = true;
        }
        count = count + c;
        i = i + 1;
        proof {
            assert(vs.take(i as int).drop_last() =~= vs.take(i - 1));
            assert(vs.take(i as int).last() == qq@);
        }
    }
    proof {
        assert(vs.take(q.questions@.len() as int) =~= vs);
    }
    if count == 0 {
        return None;
    }
    if count > 0xffff {
        return None;
    }
    let mut out: Vec<u8> = Vec::new();
    push_be16(&mut out, q.id);
    push_be16(&mut out, 0x8400);
    push_be16(&mut out, 0);
    push_be16(&mut out, count as u16);
    push_be16(&mut out, 0);
    push_be16(&mut out, 0);
    append_bytes(&mut out, &body);
    proof {
        assert(out@ =~= spec_header(q@.id, count as u16) + spec_answers_bytes(q@.questions, *h, *s));
    }
    Some((out, unicast))
}

} // verus!
