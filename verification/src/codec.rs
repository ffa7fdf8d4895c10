//! Packet codec: decoding a raw IP datagram down to its transport payload,
//! and synthesizing a TCP teardown segment for a blocked connection.
//!
//! The decoder finds the first TCP or UDP header behind the IP header chain
//! (IPv4, or IPv6 with its extension headers) and recovers the connection
//! 4-tuple, the TCP sequencing state and the transport payload. Fragmented
//! datagrams and unknown protocols decode to `Other`: they carry no payload
//! the rule engine could inspect. The kernel hands over each datagram
//! exactly, so the transport payload runs to the end of the given bytes.

use vstd::prelude::*;
use vstd::slice::{slice_subrange, slice_to_vec};

verus! {

/// Big-endian 16-bit field at byte offset `i`.
pub open spec fn be16(b: Seq<u8>, i: int) -> u16 {
    ((b[i] as int) * 0x100 + (b[i + 1] as int)) as u16
}

/// Big-endian 32-bit field at byte offset `i`.
pub open spec fn be32(b: Seq<u8>, i: int) -> u32 {
    ((b[i] as int) * 0x1000000 + (b[i + 1] as int) * 0x10000 + (b[i + 2] as int) * 0x100 + (b[i
        + 3] as int)) as u32
}

/// Everything the verdict path needs of one decoded TCP segment.
pub struct TcpMeta {
    pub ip_version: u8,
    pub src_ip: Vec<u8>,
    pub dst_ip: Vec<u8>,
    pub src_port: u16,
    pub dst_port: u16,
    pub seq_no: u32,
    pub ack_no: u32,
    pub flags: u8,
    pub window: u16,
    pub payload: Vec<u8>,
}

/// Everything the verdict path needs of one decoded UDP datagram.
pub struct UdpMeta {
    pub ip_version: u8,
    pub src_ip: Vec<u8>,
    pub dst_ip: Vec<u8>,
    pub src_port: u16,
    pub dst_port: u16,
    pub payload: Vec<u8>,
}

/// Mathematical image of `TcpMeta`.
pub struct SpecTcpMeta {
    pub ip_version: u8,
    pub src_ip: Seq<u8>,
    pub dst_ip: Seq<u8>,
    pub src_port: u16,
    pub dst_port: u16,
    pub seq_no: u32,
    pub ack_no: u32,
    pub flags: u8,
    pub window: u16,
    pub payload: Seq<u8>,
}

/// Mathematical image of `UdpMeta`.
pub struct SpecUdpMeta {
    pub ip_version: u8,
    pub src_ip: Seq<u8>,
    pub dst_ip: Seq<u8>,
    pub src_port: u16,
    pub dst_port: u16,
    pub payload: Seq<u8>,
}

impl View for TcpMeta {
    type V = SpecTcpMeta;

    open spec fn view(&self) -> SpecTcpMeta {
        SpecTcpMeta {
            ip_version: self.ip_version,
            src_ip: self.src_ip@,
            dst_ip: self.dst_ip@,
            src_port: self.src_port,
            dst_port: self.dst_port,
            seq_no: self.seq_no,
            ack_no: self.ack_no,
            flags: self.flags,
            window: self.window,
            payload: self.payload@,
        }
    }
}

impl View for UdpMeta {
    type V = SpecUdpMeta;

    open spec fn view(&self) -> SpecUdpMeta {
        SpecUdpMeta {
            ip_version: self.ip_version,
            src_ip: self.src_ip@,
            dst_ip: self.dst_ip@,
            src_port: self.src_port,
            dst_port: self.dst_port,
            payload: self.payload@,
        }
    }
}

/// A decoded datagram: a TCP segment, a UDP datagram, or anything else
/// (`Other`), which carries no transport payload to inspect.
pub enum Decoded {
    Tcp(TcpMeta),
    Udp(UdpMeta),
    Other,
}

/// Mathematical image of `Decoded`.
pub enum SpecDecoded {
    Tcp(SpecTcpMeta),
    Udp(SpecUdpMeta),
    Other,
}

impl View for Decoded {
    type V = SpecDecoded;

    open spec fn view(&self) -> SpecDecoded {
        match self {
            Decoded::Tcp(t) => SpecDecoded::Tcp(t@),
            Decoded::Udp(u) => SpecDecoded::Udp(u@),
            Decoded::Other => SpecDecoded::Other,
        }
    }
}

impl SpecTcpMeta {
    /// The addresses have the length the IP version dictates.
    pub open spec fn wf(self) -> bool {
        ||| (self.ip_version == 4 && self.src_ip.len() == 4 && self.dst_ip.len() == 4)
        ||| (self.ip_version == 6 && self.src_ip.len() == 16 && self.dst_ip.len() == 16)
    }
}

impl SpecUdpMeta {
    /// The addresses have the length the IP version dictates.
    pub open spec fn wf(self) -> bool {
        ||| (self.ip_version == 4 && self.src_ip.len() == 4 && self.dst_ip.len() == 4)
        ||| (self.ip_version == 6 && self.src_ip.len() == 16 && self.dst_ip.len() == 16)
    }
}

/// A TCP header expected at offset `h`: recover ports, sequencing state,
/// flags and payload, or `Other` when the header does not fit.
pub open spec fn spec_decode_tcp(
    raw: Seq<u8>,
    h: int,
    src: Seq<u8>,
    dst: Seq<u8>,
    ver: u8,
) -> SpecDecoded {
    if h + 20 > raw.len() {
        SpecDecoded::Other
    } else {
        let doff = (raw[h + 12] >> 4) as int;
        if doff < 5 || h + doff * 4 > raw.len() {
            SpecDecoded::Other
        } else {
            SpecDecoded::Tcp(
                SpecTcpMeta {
                    ip_version: ver,
                    src_ip: src,
                    dst_ip: dst,
                    src_port: be16(raw, h),
                    dst_port: be16(raw, h + 2),
                    seq_no: be32(raw, h + 4),
                    ack_no: be32(raw, h + 8),
                    flags: raw[h + 13],
                    window: be16(raw, h + 14),
                    payload: raw.subrange(h + doff * 4, raw.len() as int),
                },
            )
        }
    }
}

/// A UDP header expected at offset `h`: recover ports and payload, or
/// `Other` when the header does not fit.
pub open spec fn spec_decode_udp(
    raw: Seq<u8>,
    h: int,
    src: Seq<u8>,
    dst: Seq<u8>,
    ver: u8,
) -> SpecDecoded {
    if h + 8 > raw.len() {
        SpecDecoded::Other
    } else {
        SpecDecoded::Udp(
            SpecUdpMeta {
                ip_version: ver,
                src_ip: src,
                dst_ip: dst,
                src_port: be16(raw, h),
                dst_port: be16(raw, h + 2),
                payload: raw.subrange(h + 8, raw.len() as int),
            },
        )
    }
}

/// An IPv4 datagram: header length from the IHL nibble, fragments decode to
/// `Other` (no reassembly), then TCP or UDP behind the header.
pub open spec fn spec_decode_v4(raw: Seq<u8>) -> SpecDecoded {
    if raw.len() < 20 {
        SpecDecoded::Other
    } else {
        let ihl = (raw[0] & 0x0f) as int;
        let hlen = ihl * 4;
        if ihl < 5 || hlen > raw.len() {
            SpecDecoded::Other
        } else if (be16(raw, 6) & 0x3fff) != 0 {
            SpecDecoded::Other
        } else {
            let src = raw.subrange(12, 16);
            let dst = raw.subrange(16, 20);
            if raw[9] == 6 {
                spec_decode_tcp(raw, hlen, src, dst, 4)
            } else if raw[9] == 17 {
                spec_decode_udp(raw, hlen, src, dst, 4)
            } else {
                SpecDecoded::Other
            }
        }
    }
}

/// The IPv6 extension headers that the decoder walks through: hop-by-hop
/// options, routing, destination options.
pub open spec fn is_v6_ext(nh: u8) -> bool {
    nh == 0 || nh == 43 || nh == 60
}

/// Walk the IPv6 header chain from offset `off`, where `nh` names the next
/// header: skip extension headers until TCP or UDP; a fragment header or an
/// unknown protocol decodes to `Other`.
pub open spec fn spec_walk_v6(raw: Seq<u8>, nh: u8, off: int) -> SpecDecoded
    decreases raw.len() - off,
{
    if nh == 6 {
        spec_decode_tcp(raw, off, raw.subrange(8, 24), raw.subrange(24, 40), 6)
    } else if nh == 17 {
        spec_decode_udp(raw, off, raw.subrange(8, 24), raw.subrange(24, 40), 6)
    } else if is_v6_ext(nh) {
        if off < 0 || off + 8 > raw.len() {
            SpecDecoded::Other
        } else {
            let ext_len = 8 + (raw[off + 1] as int) * 8;
            if off + ext_len > raw.len() {
                SpecDecoded::Other
            } else {
                spec_walk_v6(raw, raw[off], off + ext_len)
            }
        }
    } else {
        SpecDecoded::Other
    }
}

/// An IPv6 datagram: the fixed 40-byte header, then the header chain.
pub open spec fn spec_decode_v6(raw: Seq<u8>) -> SpecDecoded {
    if raw.len() < 40 {
        SpecDecoded::Other
    } else {
        spec_walk_v6(raw, raw[6], 40)
    }
}

/// Decode a raw datagram by the version nibble of its first byte. Anything
/// that is not a well-formed, unfragmented IPv4 or IPv6 datagram carrying a
/// complete TCP or UDP header decodes to `Other`.
pub open spec fn spec_decode(raw: Seq<u8>) -> SpecDecoded {
    if raw.len() >= 1 && (raw[0] >> 4) == 4 {
        spec_decode_v4(raw)
    } else if raw.len() >= 1 && (raw[0] >> 4) == 6 {
        spec_decode_v6(raw)
    } else {
        SpecDecoded::Other
    }
}

/// A decoded TCP or UDP result always carries addresses of the length its
/// IP version dictates.
pub proof fn lemma_spec_decode_wf(raw: Seq<u8>)
    ensures
        (spec_decode(raw) matches SpecDecoded::Tcp(t) ==> t.wf()),
        (spec_decode(raw) matches SpecDecoded::Udp(u) ==> u.wf()),
{
    if raw.len() >= 1 && (raw[0] >> 4) == 6 && raw.len() >= 40 {
        lemma_spec_walk_v6_wf(raw, raw[6], 40);
    }
}

proof fn lemma_spec_walk_v6_wf(raw: Seq<u8>, nh: u8, off: int)
    requires
        raw.len() >= 40,
    ensures
        (spec_walk_v6(raw, nh, off) matches SpecDecoded::Tcp(t) ==> t.wf()),
        (spec_walk_v6(raw, nh, off) matches SpecDecoded::Udp(u) ==> u.wf()),
    decreases raw.len() - off,
{
    if is_v6_ext(nh) && 0 <= off && off + 8 <= raw.len() && off + 8 + (raw[off + 1] as int) * 8
        <= raw.len() {
        lemma_spec_walk_v6_wf(raw, raw[off], off + 8 + (raw[off + 1] as int) * 8);
    }
}

fn read_be16(b: &[u8], i: usize) -> (r: u16)
    requires
        i + 2 <= b@.len(),
    ensures
        r == be16(b@, i as int),
{
    (b[i] as u16) * 0x100 + (b[i + 1] as u16)
}

fn read_be32(b: &[u8], i: usize) -> (r: u32)
    requires
        i + 4 <= b@.len(),
    ensures
        r == be32(b@, i as int),
{
    (b[i] as u32) * 0x1000000 + (b[i + 1] as u32) * 0x10000 + (b[i + 2] as u32) * 0x100 + (b[i
        + 3] as u32)
}

fn decode_tcp_at(raw: &[u8], h: usize, src: Vec<u8>, dst: Vec<u8>, ver: u8) -> (d: Decoded)
    requires
        h <= raw@.len(),
    ensures
        d@ == spec_decode_tcp(raw@, h as int, src@, dst@, ver),
{
    if raw.len() - h < 20 {
        return Decoded::Other;
    }
    let doff = (raw[h + 12] >> 4) as usize;
    if doff < 5 || raw.len() - h < doff * 4 {
        return Decoded::Other;
    }
    let payload = slice_to_vec(slice_subrange(raw, h + doff * 4, raw.len()));
    Decoded::Tcp(
        TcpMeta {
            ip_version: ver,
            src_ip: src,
            dst_ip: dst,
            src_port: read_be16(raw, h),
            dst_port: read_be16(raw, h + 2),
            seq_no: read_be32(raw, h + 4),
            ack_no: read_be32(raw, h + 8),
            flags: raw[h + 13],
            window: read_be16(raw, h + 14),
            payload,
        },
    )
}

fn decode_udp_at(raw: &[u8], h: usize, src: Vec<u8>, dst: Vec<u8>, ver: u8) -> (d: Decoded)
    requires
        h <= raw@.len(),
    ensures
        d@ == spec_decode_udp(raw@, h as int, src@, dst@, ver),
{
    if raw.len() - h < 8 {
        return Decoded::Other;
    }
    let payload = slice_to_vec(slice_subrange(raw, h + 8, raw.len()));
    Decoded::Udp(
        UdpMeta {
            ip_version: ver,
            src_ip: src,
            dst_ip: dst,
            src_port: read_be16(raw, h),
            dst_port: read_be16(raw, h + 2),
            payload,
        },
    )
}

/// Decode one raw datagram. The result is exactly what `spec_decode` gives
/// on the raw bytes.
pub fn decode(raw: &[u8]) -> (d: Decoded)
    ensures
        d@ == spec_decode(raw@),
{
    if raw.len() < 1 {
        return Decoded::Other;
    }
    let version = raw[0] >> 4;
    if version == 4 {
        if raw.len() < 20 {
            return Decoded::Other;
        }
        let ihl = (raw[0] & 0x0f) as usize;
        if ihl < 5 || raw.len() < ihl * 4 {
            return Decoded::Other;
        }
        if read_be16(raw, 6) & 0x3fff != 0 {
            return Decoded::Other;
        }
        let src = slice_to_vec(slice_subrange(raw, 12, 16));
        let dst = slice_to_vec(slice_subrange(raw, 16, 20));
        if raw[9] == 6 {
            decode_tcp_at(raw, ihl * 4, src, dst, 4)
        } else if raw[9] == 17 {
            decode_udp_at(raw, ihl * 4, src, dst, 4)
        } else {
            Decoded::Other
        }
    } else if version == 6 {
        if raw.len() < 40 {
            return Decoded::Other;
        }
        let mut nh: u8 = raw[6];
        let mut off: usize = 40;
        while is_v6_ext_byte(nh)
            invariant
                off <= raw@.len(),
                spec_decode(raw@) == spec_walk_v6(raw@, nh, off as int),
                raw@.len() >= 40,
            decreases raw@.len() - off,
        {
            if raw.len() - off < 8 {
                return Decoded::Other;
            }
            let ext_len: usize = 8 + (raw[off + 1] as usize) * 8;
            if raw.len() - off < ext_len {
                return Decoded::Other;
            }
            let next = raw[off];
            proof {
                assert(spec_walk_v6(raw@, nh, off as int) == spec_walk_v6(
                    raw@,
                    raw@[off as int],
                    off + ext_len,
                ));
            }
            nh = next;
            off = off + ext_len;
        }
        if nh == 6 {
            let src = slice_to_vec(slice_subrange(raw, 8, 24));
            let dst = slice_to_vec(slice_subrange(raw, 24, 40));
            decode_tcp_at(raw, off, src, dst, 6)
        } else if nh == 17 {
            let src = slice_to_vec(slice_subrange(raw, 8, 24));
            let dst = slice_to_vec(slice_subrange(raw, 24, 40));
            decode_udp_at(raw, off, src, dst, 6)
        } else {
            Decoded::Other
        }
    } else {
        Decoded::Other
    }
}

fn is_v6_ext_byte(nh: u8) -> (r: bool)
    ensures
        r == is_v6_ext(nh),
{
    nh == 0 || nh == 43 || nh == 60
}

/// The two bytes of a 16-bit field in big-endian order.
pub open spec fn be16_bytes(x: u16) -> Seq<u8> {
    seq![(x >> 8) as u8, (x & 0xff) as u8]
}

/// The four bytes of a 32-bit field in big-endian order.
pub open spec fn be32_bytes(x: u32) -> Seq<u8> {
    seq![(x >> 24) as u8, ((x >> 16) & 0xff) as u8, ((x >> 8) & 0xff) as u8, (x & 0xff) as u8]
}

/// The 20 bytes of the synthesized teardown TCP header: the original
/// 4-tuple's ports, the original sequencing numbers and window, FIN and ACK
/// set and every other flag clear, no options, no payload.
pub open spec fn reset_tcp_bytes(t: SpecTcpMeta, ck: u16) -> Seq<u8> {
    be16_bytes(t.src_port) + be16_bytes(t.dst_port) + be32_bytes(t.seq_no) + be32_bytes(t.ack_no)
        + seq![0x50u8, 0x11u8] + be16_bytes(t.window) + be16_bytes(ck) + seq![0u8, 0u8]
}

/// The 20 bytes of the synthesized IPv4 header: no options, total length
/// 40, no fragmentation, TTL 64, protocol TCP, the original addresses.
pub open spec fn reset_v4_header(t: SpecTcpMeta, ck: u16) -> Seq<u8> {
    seq![0x45u8, 0u8, 0u8, 40u8, 0u8, 0u8, 0u8, 0u8, 64u8, 6u8] + be16_bytes(ck) + t.src_ip
        + t.dst_ip
}

/// The IPv4 pseudo-header for the TCP checksum of a 20-byte segment.
pub open spec fn tcp4_pseudo(t: SpecTcpMeta) -> Seq<u8> {
    t.src_ip + t.dst_ip + seq![0u8, 6u8, 0u8, 20u8]
}

/// The 40 bytes of the synthesized IPv6 header: payload length 20, next
/// header TCP, hop limit 64, the original addresses.
pub open spec fn reset_v6_header(t: SpecTcpMeta) -> Seq<u8> {
    seq![0x60u8, 0u8, 0u8, 0u8, 0u8, 20u8, 6u8, 64u8] + t.src_ip + t.dst_ip
}

/// The IPv6 pseudo-header for the TCP checksum of a 20-byte segment.
pub open spec fn tcp6_pseudo(t: SpecTcpMeta) -> Seq<u8> {
    t.src_ip + t.dst_ip + seq![0u8, 0u8, 0u8, 20u8, 0u8, 0u8, 0u8, 6u8]
}

/// The whole synthesized teardown datagram for one decoded TCP segment,
/// with both checksums filled in.
pub open spec fn spec_reset(t: SpecTcpMeta) -> Seq<u8> {
    if t.ip_version == 4 {
        reset_v4_header(t, crate::checksum::spec_checksum(reset_v4_header(t, 0)))
            + reset_tcp_bytes(
            t,
            crate::checksum::spec_checksum(tcp4_pseudo(t) + reset_tcp_bytes(t, 0)),
        )
    } else {
        reset_v6_header(t) + reset_tcp_bytes(
            t,
            crate::checksum::spec_checksum(tcp6_pseudo(t) + reset_tcp_bytes(t, 0)),
        )
    }
}

fn push_be16(v: &mut Vec<u8>, x: u16)
    ensures
        final(v)@ == old(v)@ + be16_bytes(x),
{
    v.push((x >> 8) as u8);
    v.push((x & 0xff) as u8);
    assert(v@ =~= old(v)@ + be16_bytes(x));
}

fn push_be32(v: &mut Vec<u8>, x: u32)
    ensures
        final(v)@ == old(v)@ + be32_bytes(x),
{
    v.push((x >> 24) as u8);
    v.push(((x >> 16) & 0xff) as u8);
    v.push(((x >> 8) & 0xff) as u8);
    v.push((x & 0xff) as u8);
    assert(v@ =~= old(v)@ + be32_bytes(x));
}

fn push_bytes(v: &mut Vec<u8>, b: &[u8])
    ensures
        final(v)@ == old(v)@ + b@,
{
    let mut i: usize = 0;
    while i < b.len()
        invariant
            i <= b@.len(),
            v@ == old(v)@ + b@.take(i as int),
        decreases b@.len() - i,
    {
        v.push(b[i]);
        assert(v@ =~= old(v)@ + b@.take(i + 1));
        i += 1;
    }
    assert(v@ =~= old(v)@ + b@);
}

fn build_tcp_reset(t: &TcpMeta, ck: u16) -> (v: Vec<u8>)
    ensures
        v@ == reset_tcp_bytes(t@, ck),
{
    let mut v: Vec<u8> = Vec::new();
    push_be16(&mut v, t.src_port);
    push_be16(&mut v, t.dst_port);
    push_be32(&mut v, t.seq_no);
    push_be32(&mut v, t.ack_no);
    v.push(0x50);
    v.push(0x11);
    push_be16(&mut v, t.window);
    push_be16(&mut v, ck);
    v.push(0);
    v.push(0);
    assert(v@ =~= reset_tcp_bytes(t@, ck));
    v
}

fn build_v4_header(t: &TcpMeta, ck: u16) -> (v: Vec<u8>)
    ensures
        v@ == reset_v4_header(t@, ck),
{
    let mut v: Vec<u8> = Vec::new();
    v.push(0x45);
    v.push(0);
    v.push(0);
    v.push(40);
    v.push(0);
    v.push(0);
    v.push(0);
    v.push(0);
    v.push(64);
    v.push(6);
    push_be16(&mut v, ck);
    push_bytes(&mut v, t.src_ip.as_slice());
    push_bytes(&mut v, t.dst_ip.as_slice());
    assert(v@ =~= reset_v4_header(t@, ck));
    v
}

fn build_tcp4_pseudo(t: &TcpMeta) -> (v: Vec<u8>)
    ensures
        v@ == tcp4_pseudo(t@),
{
    let mut v: Vec<u8> = Vec::new();
    push_bytes(&mut v, t.src_ip.as_slice());
    push_bytes(&mut v, t.dst_ip.as_slice());
    v.push(0);
    v.push(6);
    v.push(0);
    v.push(20);
    assert(v@ =~= tcp4_pseudo(t@));
    v
}

fn build_v6_header(t: &TcpMeta) -> (v: Vec<u8>)
    ensures
        v@ == reset_v6_header(t@),
{
    let mut v: Vec<u8> = Vec::new();
    v.push(0x60);
    v.push(0);
    v.push(0);
    v.push(0);
    v.push(0);
    v.push(20);
    v.push(6);
    v.push(64);
    push_bytes(&mut v, t.src_ip.as_slice());
    push_bytes(&mut v, t.dst_ip.as_slice());
    assert(v@ =~= reset_v6_header(t@));
    v
}

fn build_tcp6_pseudo(t: &TcpMeta) -> (v: Vec<u8>)
    ensures
        v@ == tcp6_pseudo(t@),
{
    let mut v: Vec<u8> = Vec::new();
    push_bytes(&mut v, t.src_ip.as_slice());
    push_bytes(&mut v, t.dst_ip.as_slice());
    v.push(0);
    v.push(0);
    v.push(0);
    v.push(20);
    v.push(0);
    v.push(0);
    v.push(0);
    v.push(6);
    assert(v@ =~= tcp6_pseudo(t@));
    v
}

proof fn lemma_be16_round(x: u16)
    ensures
        ((x >> 8) as u8 as int) * 0x100 + ((x & 0xff) as u8 as int) == x as int,
{
    assert(((x >> 8) as u8 as u16) * 0x100 + ((x & 0xff) as u8 as u16) == x) by (bit_vector);
}

proof fn lemma_be32_round(x: u32)
    ensures
        ((x >> 24) as u8 as int) * 0x1000000 + (((x >> 16) & 0xff) as u8 as int) * 0x10000 + (((x
            >> 8) & 0xff) as u8 as int) * 0x100 + ((x & 0xff) as u8 as int) == x as int,
{
    assert(((x >> 24) as u8 as u32) * 0x1000000 + (((x >> 16) & 0xff) as u8 as u32) * 0x10000 + (((
    x >> 8) & 0xff) as u8 as u32) * 0x100 + ((x & 0xff) as u8 as u32) == x) by (bit_vector);
}

#[verifier::rlimit(60)]
proof fn lemma_reset_v4_decodes(t: SpecTcpMeta, ip_ck: u16, tcp_ck: u16)
    requires
        t.wf(),
        t.ip_version == 4,
    ensures
        (spec_decode(reset_v4_header(t, ip_ck) + reset_tcp_bytes(t, tcp_ck))
            matches SpecDecoded::Tcp(r) && r.ip_version == 4 && r.src_ip == t.src_ip && r.dst_ip
            == t.dst_ip && r.src_port == t.src_port && r.dst_port == t.dst_port && r.seq_no
            == t.seq_no && r.ack_no == t.ack_no && r.flags == 0x11 && r.window == t.window
            && r.payload.len() == 0),
{
    let h = reset_v4_header(t, ip_ck);
    let b = reset_tcp_bytes(t, tcp_ck);
    let s = h + b;
    lemma_be16_round(t.src_port);
    lemma_be16_round(t.dst_port);
    lemma_be16_round(t.window);
    lemma_be32_round(t.seq_no);
    lemma_be32_round(t.ack_no);
    assert(h.len() == 20);
    assert(b.len() == 20);
    assert(s.len() == 40);
    assert(b[0] == (t.src_port >> 8) as u8 && b[1] == (t.src_port & 0xff) as u8);
    assert(b[2] == (t.dst_port >> 8) as u8 && b[3] == (t.dst_port & 0xff) as u8);
    assert(b[4] == (t.seq_no >> 24) as u8 && b[5] == ((t.seq_no >> 16) & 0xff) as u8 && b[6] == ((
    t.seq_no >> 8) & 0xff) as u8 && b[7] == (t.seq_no & 0xff) as u8);
    assert(b[8] == (t.ack_no >> 24) as u8 && b[9] == ((t.ack_no >> 16) & 0xff) as u8 && b[10] == ((
    t.ack_no >> 8) & 0xff) as u8 && b[11] == (t.ack_no & 0xff) as u8);
    assert(b[12] == 0x50u8 && b[13] == 0x11u8);
    assert(b[14] == (t.window >> 8) as u8 && b[15] == (t.window & 0xff) as u8);
    assert(s[0] == 0x45u8 && s[6] == 0u8 && s[7] == 0u8 && s[9] == 6u8);
    assert(0x45u8 >> 4 == 4 && 0x45u8 & 0x0f == 5 && 0x50u8 >> 4 == 5 && 0u16 & 0x3fff == 0)
        by (bit_vector);
    assert(be16(s, 6) == 0);
    assert(s.subrange(12, 16) =~= t.src_ip);
    assert(s.subrange(16, 20) =~= t.dst_ip);
    assert(s[32] == 0x50u8 && s[33] == 0x11u8);
    assert(be16(s, 20) == t.src_port);
    assert(be16(s, 22) == t.dst_port);
    assert(be32(s, 24) == t.seq_no);
    assert(be32(s, 28) == t.ack_no);
    assert(be16(s, 34) == t.window);
    assert(s.subrange(40, 40).len() == 0);
    assert(spec_decode(s) == spec_decode_tcp(s, 20, s.subrange(12, 16), s.subrange(16, 20), 4));
}

#[verifier::rlimit(60)]
proof fn lemma_reset_v6_decodes(t: SpecTcpMeta, tcp_ck: u16)
    requires
        t.wf(),
        t.ip_version == 6,
    ensures
        (spec_decode(reset_v6_header(t) + reset_tcp_bytes(t, tcp_ck)) matches SpecDecoded::Tcp(r)
            && r.ip_version == 6 && r.src_ip == t.src_ip && r.dst_ip == t.dst_ip && r.src_port
            == t.src_port && r.dst_port == t.dst_port && r.seq_no == t.seq_no && r.ack_no
            == t.ack_no && r.flags == 0x11 && r.window == t.window && r.payload.len() == 0),
{
    let h = reset_v6_header(t);
    let b = reset_tcp_bytes(t, tcp_ck);
    let s = h + b;
    lemma_be16_round(t.src_port);
    lemma_be16_round(t.dst_port);
    lemma_be16_round(t.window);
    lemma_be32_round(t.seq_no);
    lemma_be32_round(t.ack_no);
    assert(h.len() == 40);
    assert(b.len() == 20);
    assert(s.len() == 60);
    assert(b[0] == (t.src_port >> 8) as u8 && b[1] == (t.src_port & 0xff) as u8);
    assert(b[2] == (t.dst_port >> 8) as u8 && b[3] == (t.dst_port & 0xff) as u8);
    assert(b[4] == (t.seq_no >> 24) as u8 && b[5] == ((t.seq_no >> 16) & 0xff) as u8 && b[6] == ((
    t.seq_no >> 8) & 0xff) as u8 && b[7] == (t.seq_no & 0xff) as u8);
    assert(b[8] == (t.ack_no >> 24) as u8 && b[9] == ((t.ack_no >> 16) & 0xff) as u8 && b[10] == ((
    t.ack_no >> 8) & 0xff) as u8 && b[11] == (t.ack_no & 0xff) as u8);
    assert(b[12] == 0x50u8 && b[13] == 0x11u8);
    assert(b[14] == (t.window >> 8) as u8 && b[15] == (t.window & 0xff) as u8);
    assert(s[0] == 0x60u8 && s[6] == 6u8);
    assert(0x60u8 >> 4 == 6 && 0x50u8 >> 4 == 5) by (bit_vector);
    assert(!is_v6_ext(6u8));
    assert(s.subrange(8, 24) =~= t.src_ip);
    assert(s.subrange(24, 40) =~= t.dst_ip);
    assert(s[52] == 0x50u8 && s[53] == 0x11u8);
    assert(be16(s, 40) == t.src_port);
    assert(be16(s, 42) == t.dst_port);
    assert(be32(s, 44) == t.seq_no);
    assert(be32(s, 48) == t.ack_no);
    assert(be16(s, 54) == t.window);
    assert(s.subrange(60, 60).len() == 0);
    assert(spec_decode(s) == spec_decode_tcp(s, 40, s.subrange(8, 24), s.subrange(24, 40), 6));
}

/// The synthesized teardown datagram decodes as a TCP segment again, on the
/// same 4-tuple and with the same sequencing state, with exactly FIN and
/// ACK set (in particular SYN clear) and an empty payload.
pub proof fn lemma_reset_decodes(t: SpecTcpMeta)
    requires
        t.wf(),
    ensures
        (spec_decode(spec_reset(t)) matches SpecDecoded::Tcp(r) && r.ip_version == t.ip_version
            && r.src_ip == t.src_ip && r.dst_ip == t.dst_ip && r.src_port == t.src_port
            && r.dst_port == t.dst_port && r.seq_no == t.seq_no && r.ack_no == t.ack_no && r.flags
            == 0x11 && r.window == t.window && r.payload.len() == 0),
{
    if t.ip_version == 4 {
        lemma_reset_v4_decodes(
            t,
            crate::checksum::spec_checksum(reset_v4_header(t, 0)),
            crate::checksum::spec_checksum(tcp4_pseudo(t) + reset_tcp_bytes(t, 0)),
        );
    } else {
        lemma_reset_v6_decodes(
            t,
            crate::checksum::spec_checksum(tcp6_pseudo(t) + reset_tcp_bytes(t, 0)),
        );
    }
}

/// The synthesized IPv4 header passes header-checksum verification: its
/// ones'-complement word sum, checksum field included, is `0xffff`.
pub proof fn lemma_reset_ip_checksum_valid(t: SpecTcpMeta)
    requires
        t.wf(),
        t.ip_version == 4,
    ensures
        crate::checksum::oc_sum(spec_reset(t).take(20), 20) == 0xffff,
{
    let ip_ck = crate::checksum::spec_checksum(reset_v4_header(t, 0));
    let b0 = reset_v4_header(t, 0);
    assert((0u16 >> 8) == 0 && (0u16 & 0xff) == 0) by (bit_vector);
    assert(b0.len() == 20);
    assert(b0[10] == 0u8 && b0[11] == 0u8);
    crate::checksum::lemma_patched_sum_is_ffff(b0, 10);
    let b = b0.update(10, (ip_ck >> 8) as u8).update(11, (ip_ck & 0xff) as u8);
    assert(reset_v4_header(t, ip_ck) =~= b);
    assert(spec_reset(t).take(20) =~= reset_v4_header(t, ip_ck));
}

/// The synthesized TCP segment passes TCP-checksum verification against
/// the pseudo-header its IP version prescribes: the ones'-complement word
/// sum of pseudo-header and segment, checksum field included, is `0xffff`.
pub proof fn lemma_reset_tcp_checksum_valid(t: SpecTcpMeta)
    requires
        t.wf(),
    ensures
        t.ip_version == 4 ==> crate::checksum::oc_sum(tcp4_pseudo(t) + spec_reset(t).skip(20), 32)
            == 0xffff,
        t.ip_version == 6 ==> crate::checksum::oc_sum(tcp6_pseudo(t) + spec_reset(t).skip(40), 60)
            == 0xffff,
{
    assert((0u16 >> 8) == 0 && (0u16 & 0xff) == 0) by (bit_vector);
    if t.ip_version == 4 {
        let tcp_ck = crate::checksum::spec_checksum(tcp4_pseudo(t) + reset_tcp_bytes(t, 0));
        let b0 = tcp4_pseudo(t) + reset_tcp_bytes(t, 0);
        assert(b0.len() == 32);
        assert(b0[28] == 0u8 && b0[29] == 0u8);
        crate::checksum::lemma_patched_sum_is_ffff(b0, 28);
        let b = b0.update(28, (tcp_ck >> 8) as u8).update(29, (tcp_ck & 0xff) as u8);
        assert(tcp4_pseudo(t) + reset_tcp_bytes(t, tcp_ck) =~= b);
        assert(spec_reset(t).skip(20) =~= reset_tcp_bytes(t, tcp_ck));
        assert(tcp4_pseudo(t) + spec_reset(t).skip(20) == b);
    } else {
        let tcp_ck = crate::checksum::spec_checksum(tcp6_pseudo(t) + reset_tcp_bytes(t, 0));
        let b0 = tcp6_pseudo(t) + reset_tcp_bytes(t, 0);
        assert(b0.len() == 60);
        assert(b0[56] == 0u8 && b0[57] == 0u8);
        crate::checksum::lemma_patched_sum_is_ffff(b0, 56);
        let b = b0.update(56, (tcp_ck >> 8) as u8).update(57, (tcp_ck & 0xff) as u8);
        assert(tcp6_pseudo(t) + reset_tcp_bytes(t, tcp_ck) =~= b);
        assert(spec_reset(t).skip(40) =~= reset_tcp_bytes(t, tcp_ck));
        assert(tcp6_pseudo(t) + spec_reset(t).skip(40) == b);
    }
}

/// Build the teardown datagram that replaces a blocked TCP segment: the
/// same 4-tuple and sequencing numbers, FIN and ACK set, an empty payload,
/// and both checksums computed.
pub fn synthesize_reset(t: &TcpMeta) -> (out: Vec<u8>)
    requires
        t@.wf(),
    ensures
        out@ == spec_reset(t@),
{
    if t.ip_version == 4 {
        let h0 = build_v4_header(t, 0);
        let ip_ck = crate::checksum::internet_checksum(h0.as_slice());
        let mut pseudo = build_tcp4_pseudo(t);
        let tcp0 = build_tcp_reset(t, 0);
        push_bytes(&mut pseudo, tcp0.as_slice());
        let tcp_ck = crate::checksum::internet_checksum(pseudo.as_slice());
        let mut out = build_v4_header(t, ip_ck);
        let tcp = build_tcp_reset(t, tcp_ck);
        push_bytes(&mut out, tcp.as_slice());
        out
    } else {
        let mut pseudo = build_tcp6_pseudo(t);
        let tcp0 = build_tcp_reset(t, 0);
        push_bytes(&mut pseudo, tcp0.as_slice());
        let tcp_ck = crate::checksum::internet_checksum(pseudo.as_slice());
        let mut out = build_v6_header(t);
        let tcp = build_tcp_reset(t, tcp_ck);
        push_bytes(&mut out, tcp.as_slice());
        out
    }
}

} // verus!
