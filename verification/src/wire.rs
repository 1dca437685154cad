//! Byte-level building blocks of the DNS wire format: big-endian integers,
//! length-prefixed labels, and resource records.

use vstd::prelude::*;

verus! {

/// A 16-bit value in network (big-endian) byte order.
pub open spec fn be16(v: u16) -> Seq<u8> {
    seq![(v / 256) as u8, (v % 256) as u8]
}

/// A 32-bit value in network (big-endian) byte order.
pub open spec fn be32(v: u32) -> Seq<u8> {
    seq![
        (v / 0x1000000) as u8,
        ((v / 0x10000) % 256) as u8,
        ((v / 256) % 256) as u8,
        (v % 256) as u8,
    ]
}

/// The 16-bit value read from two bytes in network order.
pub open spec fn u16_of(hi: u8, lo: u8) -> u16 {
    ((hi as u16) * 256 + (lo as u16)) as u16
}

/// A DNS label: its length in one byte, then its bytes. Meaningful for
/// labels of 1 to 63 bytes.
pub open spec fn lbl(x: Seq<u8>) -> Seq<u8> {
    seq![x.len() as u8] + x
}

/// The tail every advertised name ends with: the label `local` and the
/// terminating root label.
pub open spec fn name_tail() -> Seq<u8> {
    seq![5u8, 108u8, 111u8, 99u8, 97u8, 108u8, 0u8]
}

/// The label `_sub` that separates a service subtype from its service type.
pub open spec fn sub_label() -> Seq<u8> {
    seq![4u8, 95u8, 115u8, 117u8, 98u8]
}

/// A resource record: owner name, type, class, TTL, and its data behind a
/// 16-bit length. Meaningful for data of at most 65535 bytes.
pub open spec fn spec_record(
    name: Seq<u8>,
    rtype: u16,
    rclass: u16,
    ttl: u32,
    rdata: Seq<u8>,
) -> Seq<u8> {
    name + be16(rtype) + be16(rclass) + be32(ttl) + be16(rdata.len() as u16) + rdata
}

pub fn push_be16(out: &mut Vec<u8>, v: u16)
    ensures
        final(out)@ == old(out)@ + be16(v),
{
    out.push((v / 256) as u8);
    out.push((v % 256) as u8);
    proof {
        assert(out@ =~= old(out)@ + be16(v));
    }
}

pub fn push_be32(out: &mut Vec<u8>, v: u32)
    ensures
        final(out)@ == old(out)@ + be32(v),
{
    out.push((v / 0x1000000) as u8);
    out.push(((v / 0x10000) % 256) as u8);
    out.push(((v / 256) % 256) as u8);
    out.push((v % 256) as u8);
    proof {
        assert(out@ =~= old(out)@ + be32(v));
    }
}

pub fn read_u16(hi: u8, lo: u8) -> (r: u16)
    ensures
        r == u16_of(hi, lo),
{
    (hi as u16) * 256 + (lo as u16)
}

/// Append every byte of `src` to `out`.
pub fn append_bytes(out: &mut Vec<u8>, src: &Vec<u8>)
    ensures
        final(out)@ == old(out)@ + src@,
{
    let mut i: usize = 0;
    proof {
        assert(out@ =~= old(out)@ + src@.subrange(0, 0));
    }
    while i < src.len()
        invariant
            i <= src@.len(),
            out@ == old(out)@ + src@.subrange(0, i as int),
        decreases src@.len() - i,
    {
        out.push(src[i]);
        i = i + 1;
        proof {
            assert(out@ =~= old(out)@ + src@.subrange(0, i as int));
        }
    }
    proof {
        assert(src@.subrange(0, src@.len() as int) =~= src@);
    }
}

/// Append the bytes `src[from..to]` to `out`.
pub fn append_byte_range(out: &mut Vec<u8>, src: &Vec<u8>, from: usize, to: usize)
    requires
        from <= to <= src@.len(),
    ensures
        final(out)@ == old(out)@ + src@.subrange(from as int, to as int),
{
    let mut i: usize = from;
    proof {
        assert(out@ =~= old(out)@ + src@.subrange(from as int, from as int));
    }
    while i < to
        invariant
            from <= i <= to <= src@.len(),
            out@ == old(out)@ + src@.subrange(from as int, i as int),
        decreases to - i,
    {
        out.push(src[i]);
        i = i + 1;
        proof {
            assert(out@ =~= old(out)@ + src@.subrange(from as int, i as int));
        }
    }
}

/// Append a label as its length byte followed by its bytes.
pub fn append_label(out: &mut Vec<u8>, label: &Vec<u8>)
    requires
        1 <= label@.len() <= 63,
    ensures
        final(out)@ == old(out)@ + lbl(label@),
{
    out.push(label.len() as u8);
    append_bytes(out, label);
    proof {
        assert(out@ =~= old(out)@ + lbl(label@));
    }
}

/// Append the `local` label and the terminating root label.
pub fn append_name_tail(out: &mut Vec<u8>)
    ensures
        final(out)@ == old(out)@ + name_tail(),
{
    out.push(5);
    out.push(108);
    out.push(111);
    out.push(99);
    out.push(97);
    out.push(108);
    out.push(0);
    proof {
        assert(out@ =~= old(out)@ + name_tail());
    }
}

/// Append the `_sub` label.
pub fn append_sub_label(out: &mut Vec<u8>)
    ensures
        final(out)@ == old(out)@ + sub_label(),
{
    out.push(4);
    out.push(95);
    out.push(115);
    out.push(117);
    out.push(98);
    proof {
        assert(out@ =~= old(out)@ + sub_label());
    }
}

/// Append one resource record.
pub fn append_record(
    out: &mut Vec<u8>,
    name: &Vec<u8>,
    rtype: u16,
    rclass: u16,
    ttl: u32,
    rdata: &Vec<u8>,
)
    requires
        rdata@.len() <= 0xffff,
    ensures
        final(out)@ == old(out)@ + spec_record(name@, rtype, rclass, ttl, rdata@),
{
    append_bytes(out, name);
    push_be16(out, rtype);
    push_be16(out, rclass);
    push_be32(out, ttl);
    push_be16(out, rdata.len() as u16);
    append_bytes(out, rdata);
    proof {
        assert(out@ =~= old(out)@ + spec_record(name@, rtype, rclass, ttl, rdata@));
    }
}

/// Byte-sequence equality.
pub fn bytes_eq(a: &Vec<u8>, b: &Vec<u8>) -> (r: bool)
    ensures
        r == (a@ == b@),
{
    if a.len() != b.len() {
        return false;
    }
    let mut i: usize = 0;
    while i < a.len()
        invariant
            i <= a@.len(),
            a@.len() == b@.len(),
            forall|k: int| 0 <= k < i ==> a@[k] == b@[k],
        decreases a@.len() - i,
    {
        if a[i] != b[i] {
            return false;
        }
        i = i + 1;
    }
    proof {
        assert(a@ =~= b@);
    }
    true
}

} // verus!
