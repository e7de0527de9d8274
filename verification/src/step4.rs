//! Fourth layer: the payload is a chain of IPv4/UDP packets. Only packets
//! from 10.1.1.10 to 10.1.1.200 port 42069 whose IP-header and UDP
//! checksums verify contribute their UDP payload; everything else is
//! dropped.

use vstd::prelude::*;

use crate::base85::base85;
use crate::base85::base85_decode;
use crate::base85::base85_input_ok;

verus! {

/// The big-endian 16-bit word stored at `i`.
pub open spec fn be16(s: Seq<u8>, i: int) -> u16
    recommends
        0 <= i && i + 2 <= s.len(),
{
    (s[i] * 0x100 + s[i + 1]) as u16
}

/// One step of the ones'-complement sum: add with end-around carry.
pub open spec fn ocsum_add(acc: u16, w: u16) -> u16 {
    if acc + w > 0xffff {
        (acc + w - 0xffff) as u16
    } else {
        (acc + w) as u16
    }
}

/// Ones'-complement sum of big-endian 16-bit words, starting from `acc`;
/// an odd trailing byte is padded with a zero low byte.
pub open spec fn ocsum(acc: u16, s: Seq<u8>) -> u16
    decreases s.len(),
{
    if s.len() >= 2 {
        ocsum(ocsum_add(acc, (s[0] * 0x100 + s[1]) as u16), s.skip(2))
    } else if s.len() == 1 {
        ocsum_add(acc, (s[0] * 0x100) as u16)
    } else {
        acc
    }
}

/// The sender every kept packet must name.
pub open spec fn required_source() -> Seq<u8> {
    seq![10u8, 1u8, 1u8, 10u8]
}

/// The receiver every kept packet must name.
pub open spec fn required_dest() -> Seq<u8> {
    seq![10u8, 1u8, 1u8, 200u8]
}

/// The IP header checksum verifies: the complement of the sum over the
/// header with the checksum field skipped equals the stored checksum.
pub open spec fn spec_ip_header_ok(p: Seq<u8>) -> bool
    recommends
        p.len() >= 20,
{
    !ocsum(ocsum(0, p.subrange(0, 10)), p.subrange(12, 20)) == be16(p, 10)
}

/// The bytes the UDP checksum is computed over besides the UDP payload:
/// the RFC 768 pseudo-header (addresses, zero, protocol, UDP length)
/// followed by the UDP header fields with the checksum skipped and the
/// length repeated in its place.
pub open spec fn pseudo_header(p: Seq<u8>, src: Seq<u8>, dst: Seq<u8>, proto: u8) -> Seq<u8> {
    src + dst + seq![0u8, proto] + p.subrange(24, 26) + p.subrange(20, 22) + p.subrange(22, 24)
        + p.subrange(24, 26)
}

/// The UDP checksum verifies and is not the reserved 0xffff.
pub open spec fn spec_udp_ok(p: Seq<u8>, src: Seq<u8>, dst: Seq<u8>, proto: u8) -> bool
    recommends
        p.len() >= 28,
{
    &&& be16(p, 26) != 0xffff
    &&& !ocsum(ocsum(0, pseudo_header(p, src, dst, proto)), p.skip(28)) == be16(p, 26)
}

/// Total length field of the packet starting at `start`.
pub open spec fn packet_len(s: Seq<u8>, start: int) -> int
    recommends
        0 <= start && start + 4 <= s.len(),
{
    be16(s, start + 2) as int
}

/// Every packet's length field covers at least its own 28 header bytes and
/// stays inside the buffer, so the walk over the chain is well defined.
pub open spec fn packets_ok(s: Seq<u8>, start: int) -> bool
    decreases s.len() - start,
{
    if s.len() - start <= 28 {
        true
    } else {
        let l = packet_len(s, start);
        &&& 28 <= l
        &&& start + l <= s.len()
        &&& packets_ok(s, start + l)
    }
}

/// The filter: both checksums verify, the addresses are the required ones,
/// and the destination port is 42069.
pub open spec fn accept_packet(s: Seq<u8>, start: int, l: int) -> bool {
    let suf = s.skip(start);
    let pkt = s.subrange(start, start + l);
    &&& spec_ip_header_ok(suf)
    &&& spec_udp_ok(pkt, required_source(), required_dest(), 0x11)
    &&& suf.subrange(12, 16) == required_source()
    &&& suf.subrange(16, 20) == required_dest()
    &&& be16(suf, 22) == 42069
}

/// The concatenated UDP payloads of the accepted packets from `start` on;
/// the walk stops once fewer than 29 bytes remain.
pub open spec fn extract_packets(s: Seq<u8>, start: int) -> Seq<u8>
    recommends
        packets_ok(s, start),
    decreases s.len() - start,
{
    if s.len() - start <= 28 {
        Seq::empty()
    } else {
        let l = packet_len(s, start);
        if 28 <= l && start + l <= s.len() {
            (if accept_packet(s, start, l) {
                s.subrange(start + 28, start + l)
            } else {
                Seq::empty()
            }) + extract_packets(s, start + l)
        } else {
            Seq::empty()
        }
    }
}

/// Adds the big-endian 16-bit words of the payload into the running
/// ones'-complement sum, with end-around carry; an odd final byte is
/// padded with zero.
pub fn ones_complement_sum(sum: &mut u16, payload: &[u8])
    ensures
        *final(sum) == ocsum(*old(sum), payload@),
{
    let n = payload.len();
    proof {
        assert(payload@.skip(0) =~= payload@);
    }
    let mut k: usize = 0;
    while n - k >= 2
        invariant
            k <= n,
            n == payload@.len(),
            ocsum(*old(sum), payload@) == ocsum(*sum, payload@.skip(k as int)),
        decreases n - k,
    {
        let ghost s2 = payload@.skip(k as int);
        let w: u16 = payload[k] as u16 * 0x100 + payload[k + 1] as u16;
        let t: u32 = *sum as u32 + w as u32;
        proof {
            assert(s2[0] == payload@[k as int]);
            assert(s2[1] == payload@[k + 1]);
            assert(s2.skip(2) =~= payload@.skip(k + 2));
        }
        if t > 0xffff {
            *sum = (t - 0xffff) as u16;
        } else {
            *sum = t as u16;
        }
        k = k + 2;
    }
    if n - k == 1 {
        let ghost s2 = payload@.skip(k as int);
        proof {
            assert(s2.len() == 1);
            assert(s2[0] == payload@[k as int]);
        }
        let w: u16 = payload[k] as u16 * 0x100;
        let t: u32 = *sum as u32 + w as u32;
        if t > 0xffff {
            *sum = (t - 0xffff) as u16;
        } else {
            *sum = t as u16;
        }
    } else {
        proof {
            assert(payload@.skip(k as int).len() == 0);
        }
    }
}

/// The packet's total length field.
pub fn get_total_length_ip(payload: &[u8]) -> (r: usize)
    requires
        payload@.len() >= 4,
    ensures
        r == packet_len(payload@, 0),
{
    let r: u16 = payload[2] as u16 * 0x100 + payload[3] as u16;
    r as usize
}

/// Source and destination IPv4 addresses of the packet, four octets each.
pub fn get_source_dest_ip(payload: &[u8]) -> (r: ([u8; 4], [u8; 4]))
    requires
        payload@.len() >= 20,
    ensures
        r.0@ == payload@.subrange(12, 16),
        r.1@ == payload@.subrange(16, 20),
{
    let src: [u8; 4] = [payload[12], payload[13], payload[14], payload[15]];
    let dst: [u8; 4] = [payload[16], payload[17], payload[18], payload[19]];
    proof {
        assert(src@ =~= payload@.subrange(12, 16));
        assert(dst@ =~= payload@.subrange(16, 20));
    }
    (src, dst)
}

/// Whether the IP header checksum verifies.
pub fn checksum_correct_ip_header(payload: &[u8]) -> (r: bool)
    requires
        payload@.len() >= 20,
    ensures
        r == spec_ip_header_ok(payload@),
{
    let mut checksum: u16 = 0;
    // the header with the checksum field skipped
    ones_complement_sum(&mut checksum, &payload[0..10]);
    ones_complement_sum(&mut checksum, &payload[12..20]);
    let stored: u16 = payload[10] as u16 * 0x100 + payload[11] as u16;
    !checksum == stored
}

/// Source and destination UDP ports of the packet.
pub fn get_ports_udp(payload: &[u8]) -> (r: (u16, u16))
    requires
        payload@.len() >= 24,
    ensures
        r.0 == be16(payload@, 20),
        r.1 == be16(payload@, 22),
{
    (
        payload[20] as u16 * 0x100 + payload[21] as u16,
        payload[22] as u16 * 0x100 + payload[23] as u16,
    )
}

/// Whether the UDP checksum of the whole packet verifies against the given
/// pseudo-header addresses and protocol.
pub fn checksum_correct_udp_header(
    payload: &[u8],
    src_ip: [u8; 4],
    dest_ip: [u8; 4],
    protocol_byte: u8,
) -> (r: bool)
    requires
        payload@.len() >= 28,
    ensures
        r == spec_udp_ok(payload@, src_ip@, dest_ip@, protocol_byte),
{
    let checksum_header: u16 = payload[26] as u16 * 0x100 + payload[27] as u16;
    if checksum_header == 0xffff {
        return false;
    }
    let mut header: Vec<u8> = Vec::with_capacity(18);
    header.push(src_ip[0]);
    header.push(src_ip[1]);
    header.push(src_ip[2]);
    header.push(src_ip[3]);
    header.push(dest_ip[0]);
    header.push(dest_ip[1]);
    header.push(dest_ip[2]);
    header.push(dest_ip[3]);
    header.push(0x0);
    header.push(protocol_byte);
    header.push(payload[24]);
    header.push(payload[25]);
    header.push(payload[20]);
    header.push(payload[21]);
    header.push(payload[22]);
    header.push(payload[23]);
    header.push(payload[24]);
    header.push(payload[25]);
    proof {
        assert(header@ =~= pseudo_header(payload@, src_ip@, dest_ip@, protocol_byte));
    }
    let mut checksum_check: u16 = 0;
    ones_complement_sum(&mut checksum_check, header.as_slice());
    ones_complement_sum(&mut checksum_check, &payload[28..payload.len()]);
    proof {
        assert(payload@.subrange(28, payload@.len() as int) =~= payload@.skip(28));
    }
    !checksum_check == checksum_header
}

/// Walks the packet chain and concatenates the UDP payloads of the packets
/// the filter accepts.
#[verifier::rlimit(100)]
pub fn step4_extension(payload: &[u8]) -> (ret: Vec<u8>)
    requires
        packets_ok(payload@, 0),
    ensures
        ret@ == extract_packets(payload@, 0),
{
    let mut ret: Vec<u8> = Vec::new();
    let n = payload.len();
    let must_source: [u8; 4] = [10, 1, 1, 10];
    let must_dest: [u8; 4] = [10, 1, 1, 200];
    let mut packet_start: usize = 0;
    while n - packet_start > 28
        invariant
            packet_start <= n,
            n == payload@.len(),
            packets_ok(payload@, packet_start as int),
            must_source@ == required_source(),
            must_dest@ == required_dest(),
            extract_packets(payload@, 0) == ret@ + extract_packets(
                payload@,
                packet_start as int,
            ),
        decreases n - packet_start,
    {
        let ghost start = packet_start as int;
        let suf = &payload[packet_start..n];
        proof {
            assert(suf@ =~= payload@.skip(start));
        }
        let len = get_total_length_ip(suf);
        let pkt = &payload[packet_start..packet_start + len];
        let (source, dest) = get_source_dest_ip(suf);
        let (_s_port, d_port) = get_ports_udp(suf);
        let ip_correct = checksum_correct_ip_header(suf);
        let udp_correct = checksum_correct_udp_header(pkt, must_source, must_dest, 0x11);
        let source_matches = source[0] == 10 && source[1] == 1 && source[2] == 1 && source[3]
            == 10;
        let dest_matches = dest[0] == 10 && dest[1] == 1 && dest[2] == 1 && dest[3] == 200;
        proof {
            assert(source_matches == (payload@.skip(start).subrange(12, 16)
                =~= required_source()));
            assert(dest_matches == (payload@.skip(start).subrange(16, 20) =~= required_dest()));
        }
        let ghost accepted = accept_packet(payload@, start, len as int);
        if ip_correct && udp_correct && source_matches && dest_matches && d_port == 42069 {
            proof {
                assert(accepted);
            }
            let ghost before = ret@;
            let mut q = packet_start + 28;
            while q < packet_start + len
                invariant
                    packet_start + 28 <= q <= packet_start + len,
                    packet_start + len <= n,
                    n == payload@.len(),
                    ret@ == before + payload@.subrange(packet_start + 28, q as int),
                decreases packet_start + len - q,
            {
                proof {
                    assert(payload@.subrange(packet_start + 28, q + 1) =~= payload@.subrange(
                        packet_start + 28,
                        q as int,
                    ).push(payload@[q as int]));
                }
                ret.push(payload[q]);
                q = q + 1;
            }
        } else {
            proof {
                assert(!accepted);
            }
        }
        proof {
            let l = len as int;
            assert(extract_packets(payload@, start) == (if accepted {
                payload@.subrange(start + 28, start + l)
            } else {
                Seq::<u8>::empty()
            }) + extract_packets(payload@, start + l));
            if accepted {
                assert(ret@ =~= (ret@ + Seq::<u8>::empty()));
            } else {
                assert(ret@ + Seq::<u8>::empty() =~= ret@);
            }
            assert(extract_packets(payload@, 0) =~= ret@ + extract_packets(payload@, start + l));
        }
        packet_start = packet_start + len;
    }
    proof {
        assert(extract_packets(payload@, packet_start as int) =~= Seq::<u8>::empty());
        assert(ret@ =~= ret@ + Seq::<u8>::empty());
    }
    ret
}

/// The whole layer: strips the Ascii85 layer, then filters the packet
/// chain.
pub fn run_step(payload: &[u8]) -> (r: Vec<u8>)
    requires
        base85_input_ok(payload@),
        packets_ok(base85_decode(payload@), 0),
    ensures
        r@ == extract_packets(base85_decode(payload@), 0),
{
    let encode = base85(payload);
    step4_extension(encode.as_slice())
}

} // verus!
