//! Second layer: every byte carries seven data bits and one parity bit
//! (bit 0). Bytes whose parity is wrong are dropped; the data bits of each
//! group of eight surviving bytes are repacked into seven bytes.

use vstd::prelude::*;

use crate::base85::base85;
use crate::base85::base85_decode;
use crate::base85::base85_input_ok;

verus! {

/// Sum of the data bits (bits 1 through `k - 1`) of a byte.
pub open spec fn data_bit_sum(b: u8, k: int) -> int
    decreases k,
{
    if k <= 1 {
        0
    } else {
        data_bit_sum(b, k - 1) + ((b >> ((k - 1) as u8)) & 1)
    }
}

/// The parity convention of this layer: bit 0 equals the parity of the
/// seven data bits.
pub open spec fn spec_parity_ok(b: u8) -> bool {
    data_bit_sum(b, 8) % 2 == (b & 1)
}

/// The bytes whose parity checks out, order kept.
pub open spec fn correct_parity_bytes(s: Seq<u8>) -> Seq<u8>
    decreases s.len(),
{
    if s.len() == 0 {
        Seq::empty()
    } else {
        let rest = correct_parity_bytes(s.drop_last());
        if spec_parity_ok(s.last()) {
            rest.push(s.last())
        } else {
            rest
        }
    }
}

/// Place value of the byte at position `i` of a group: its seven data bits
/// land `7 * (7 - i)` bits up in the 56-bit packed word.
pub open spec fn place(i: int) -> int {
    if i == 0 {
        0x2_0000_0000_0000
    } else if i == 1 {
        0x400_0000_0000
    } else if i == 2 {
        0x8_0000_0000
    } else if i == 3 {
        0x1000_0000
    } else if i == 4 {
        0x20_0000
    } else if i == 5 {
        0x4000
    } else if i == 6 {
        0x80
    } else {
        1
    }
}

/// Largest packed word a group of `k` bytes can produce.
pub open spec fn place_sum(k: int) -> int
    decreases k,
{
    if k <= 0 {
        0
    } else {
        place_sum(k - 1) + 0x7f * place(k - 1)
    }
}

proof fn lemma_place_sum_bound(k: int)
    requires
        0 <= k <= 8,
    ensures
        0 <= place_sum(k) <= 0xff_ffff_ffff_ffff,
{
    assert(place_sum(0) == 0);
    assert(place_sum(1) == 0xfe_0000_0000_0000);
    assert(place_sum(2) == 0xff_fc00_0000_0000);
    assert(place_sum(3) == 0xff_fff8_0000_0000);
    assert(place_sum(4) == 0xff_ffff_f000_0000);
    assert(place_sum(5) == 0xff_ffff_ffe0_0000);
    assert(place_sum(6) == 0xff_ffff_ffff_c000);
    assert(place_sum(7) == 0xff_ffff_ffff_ff80);
    assert(place_sum(8) == 0xff_ffff_ffff_ffff);
}

/// The packed word of one group of up to eight bytes: the data bits of the
/// byte at position `i` contribute at place `7 * (7 - i)`; positions a
/// short final group leaves empty contribute zero.
pub open spec fn packed_value(chunk: Seq<u8>) -> int
    recommends
        chunk.len() <= 8,
    decreases chunk.len(),
{
    if chunk.len() == 0 {
        0
    } else {
        packed_value(chunk.drop_last()) + (chunk.last() >> 1) * place(chunk.len() - 1)
    }
}

/// The seven bytes of one packed word, most significant first.
#[verifier::opaque]
pub open spec fn packed_bytes(chunk: Seq<u8>) -> Seq<u8>
    recommends
        chunk.len() <= 8,
{
    let n = packed_value(chunk);
    seq![
        ((n / 0x1_0000_0000_0000) % 0x100) as u8,
        ((n / 0x100_0000_0000) % 0x100) as u8,
        ((n / 0x1_0000_0000) % 0x100) as u8,
        ((n / 0x100_0000) % 0x100) as u8,
        ((n / 0x1_0000) % 0x100) as u8,
        ((n / 0x100) % 0x100) as u8,
        (n % 0x100) as u8,
    ]
}

/// The repacking: eight-byte groups, a shorter final group packed the same
/// way, seven output bytes per group.
pub open spec fn repack(s: Seq<u8>) -> Seq<u8>
    decreases s.len(),
{
    if s.len() == 0 {
        Seq::empty()
    } else if s.len() <= 8 {
        packed_bytes(s)
    } else {
        packed_bytes(s.take(8)) + repack(s.skip(8))
    }
}

/// The whole layer on an already Ascii85-decoded payload.
pub open spec fn step2_decode(s: Seq<u8>) -> Seq<u8> {
    repack(correct_parity_bytes(s))
}

/// True exactly when bit 0 equals the parity of the byte's other seven
/// bits.
pub fn parity_is_correct(byte: u8) -> (r: bool)
    ensures
        r == spec_parity_ok(byte),
{
    let parity_bit = byte & 1;
    let mut odd_bits: u8 = 0;
    let mut k: u8 = 1;
    while k < 8
        invariant
            1 <= k <= 8,
            odd_bits == data_bit_sum(byte, k as int),
            odd_bits <= k - 1,
        decreases 8 - k,
    {
        let bit = (byte >> k) & 1;
        proof {
            assert(((byte >> k) & 1) < 2) by (bit_vector);
        }
        odd_bits = odd_bits + bit;
        k = k + 1;
    }
    (odd_bits % 2) == parity_bit
}

/// Drops the bytes with bad parity, then packs each group of eight
/// surviving bytes into seven bytes of data bits.
#[verifier::rlimit(100)]
pub fn step2_extension(payload: &[u8]) -> (r: Vec<u8>)
    ensures
        r@ == step2_decode(payload@),
{
    let mut good: Vec<u8> = Vec::new();
    let mut i: usize = 0;
    while i < payload.len()
        invariant
            i <= payload@.len(),
            good@ == correct_parity_bytes(payload@.take(i as int)),
        decreases payload@.len() - i,
    {
        let b = payload[i];
        proof {
            assert(payload@.take(i + 1).drop_last() =~= payload@.take(i as int));
            assert(payload@.take(i + 1).last() == payload@[i as int]);
        }
        if parity_is_correct(b) {
            good.push(b);
        }
        i = i + 1;
    }
    proof {
        assert(payload@.take(payload@.len() as int) =~= payload@);
    }
    repack_stream(&good)
}

/// Packs each group of eight bytes (a shorter final group the same way)
/// into seven bytes of data bits.
#[verifier::rlimit(100)]
fn repack_stream(good: &Vec<u8>) -> (r: Vec<u8>)
    ensures
        r@ == repack(good@),
{
    let mut out: Vec<u8> = Vec::new();
    let n = good.len();
    let mut pos: usize = 0;
    while pos < n
        invariant
            n == good@.len(),
            pos <= good@.len(),
            pos % 8 == 0 || pos == good@.len(),
            out@ == repack(good@.take(pos as int)),
        decreases good@.len() - pos,
    {
        let end = if n - pos >= 8 {
            pos + 8
        } else {
            n
        };
        let ghost chunk = good@.subrange(pos as int, end as int);
        let shifted = pack_group(&good, pos, end);
        push_group_bytes(&mut out, shifted, Ghost(chunk));
        proof {
            let done = good@.take(pos as int);
            let next = good@.take(end as int);
            assert(next =~= done + chunk);
            lemma_repack_append_group(done, chunk);
        }
        pos = end;
    }
    proof {
        assert(good@.take(good@.len() as int) =~= good@);
    }
    out
}

/// Appends the seven bytes of one packed word, most significant first.
fn push_group_bytes(out: &mut Vec<u8>, shifted: u64, Ghost(chunk): Ghost<Seq<u8>>)
    requires
        shifted == packed_value(chunk),
    ensures
        final(out)@ == old(out)@ + packed_bytes(chunk),
{
    out.push(((shifted / 0x1_0000_0000_0000) % 0x100) as u8);
    out.push(((shifted / 0x100_0000_0000) % 0x100) as u8);
    out.push(((shifted / 0x1_0000_0000) % 0x100) as u8);
    out.push(((shifted / 0x100_0000) % 0x100) as u8);
    out.push(((shifted / 0x1_0000) % 0x100) as u8);
    out.push(((shifted / 0x100) % 0x100) as u8);
    out.push((shifted % 0x100) as u8);
    proof {
        reveal(packed_bytes);
        assert(out@ =~= old(out)@ + packed_bytes(chunk));
    }
}

/// Packs the data bits of one group of up to eight bytes into one word.
fn pack_group(good: &Vec<u8>, pos: usize, end: usize) -> (r: u64)
    requires
        pos <= end <= good@.len(),
        end - pos <= 8,
    ensures
        r == packed_value(good@.subrange(pos as int, end as int)),
{
    let ghost chunk = good@.subrange(pos as int, end as int);
    let mut shifted: u64 = 0;
    let mut k: usize = pos;
    while k < end
        invariant
            pos <= k <= end,
            end <= good@.len(),
            end - pos <= 8,
            chunk == good@.subrange(pos as int, end as int),
            shifted == packed_value(good@.subrange(pos as int, k as int)),
            shifted <= place_sum((k - pos) as int),
        decreases end - k,
    {
        let b = good[k];
        let idx = k - pos;
        let p: u64 = if idx == 0 {
            0x2_0000_0000_0000
        } else if idx == 1 {
            0x400_0000_0000
        } else if idx == 2 {
            0x8_0000_0000
        } else if idx == 3 {
            0x1000_0000
        } else if idx == 4 {
            0x20_0000
        } else if idx == 5 {
            0x4000
        } else if idx == 6 {
            0x80
        } else {
            1
        };
        proof {
            let pre = good@.subrange(pos as int, k as int);
            let cur = good@.subrange(pos as int, k + 1);
            assert(cur.drop_last() =~= pre);
            assert(cur.last() == good@[k as int]);
            assert((b >> 1) <= 0x7f) by (bit_vector);
            lemma_place_sum_bound((k - pos) as int);
            lemma_place_sum_bound((k + 1 - pos) as int);
        }
        shifted = shifted + ((b >> 1) as u64) * p;
        k = k + 1;
    }
    shifted
}

/// Appending one group of up to eight bytes to a stream of whole groups
/// appends the group's seven packed bytes to the repacking.
proof fn lemma_repack_append_group(done: Seq<u8>, chunk: Seq<u8>)
    requires
        done.len() % 8 == 0,
        0 < chunk.len() <= 8,
    ensures
        repack(done + chunk) == repack(done) + packed_bytes(chunk),
    decreases done.len(),
{
    let s = done + chunk;
    if done.len() == 0 {
        assert(s =~= chunk);
        assert(repack(done) =~= Seq::<u8>::empty());
        assert(repack(done) + packed_bytes(chunk) =~= packed_bytes(chunk));
    } else {
        assert(done.len() >= 8);
        assert(s.len() > 8);
        assert(s.take(8) =~= done.take(8));
        assert(s.skip(8) =~= done.skip(8) + chunk);
        lemma_repack_append_group(done.skip(8), chunk);
        if done.len() == 8 {
            assert(repack(done) == packed_bytes(done.take(8))) by {
                assert(done.take(8) =~= done);
            }
            assert(done.skip(8) =~= Seq::<u8>::empty());
            assert(repack(done.skip(8)) =~= Seq::<u8>::empty());
        } else {
            assert(repack(done) == packed_bytes(done.take(8)) + repack(done.skip(8)));
        }
        assert(repack(s) == packed_bytes(done.take(8)) + repack(done.skip(8) + chunk));
        assert(repack(done + chunk) =~= repack(done) + packed_bytes(chunk));
    }
}

/// The whole layer: strips the Ascii85 layer, then drops bad-parity bytes
/// and repacks the rest.
pub fn run_step(payload: &[u8]) -> (r: Vec<u8>)
    requires
        base85_input_ok(payload@),
    ensures
        r@ == step2_decode(base85_decode(payload@)),
{
    let encode = base85(payload);
    step2_extension(encode.as_slice())
}

} // verus!
