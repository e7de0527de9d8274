//! Instruction encoding: the inverse of the decoder, with a proof that
//! decoding an encoded instruction yields the instruction back together
//! with its declared width.

use vstd::prelude::*;

use crate::vm::reg32_of;
use crate::vm::reg8_of;
use crate::vm::spec_fetch;
use crate::vm::spec_width;
use crate::vm::word_at;
use crate::vm::Instruction;
use crate::vm::RegU32;
use crate::vm::RegU8;
use crate::vm::VmError;

verus! {

/// Numeric id of a byte register in a 3-bit opcode field.
pub open spec fn reg8_id(r: RegU8) -> u8 {
    match r {
        RegU8::a => 1,
        RegU8::b => 2,
        RegU8::c => 3,
        RegU8::d => 4,
        RegU8::e => 5,
        RegU8::f => 6,
        RegU8::ptr_c => 7,
    }
}

/// Numeric id of a word register in a 3-bit opcode field.
pub open spec fn reg32_id(r: RegU32) -> u8 {
    match r {
        RegU32::la => 1,
        RegU32::lb => 2,
        RegU32::lc => 3,
        RegU32::ld => 4,
        RegU32::ptr => 5,
        RegU32::pc => 6,
    }
}

/// The four little-endian bytes of a word.
pub open spec fn word_bytes(v: u32) -> Seq<u8> {
    seq![
        (v % 0x100) as u8,
        ((v / 0x100) % 0x100) as u8,
        ((v / 0x1_0000) % 0x100) as u8,
        ((v / 0x100_0000) % 0x100) as u8,
    ]
}

/// The encoding of an instruction per the opcode table: fixed single-byte
/// opcodes, and the bit-packed register-move families.
pub open spec fn spec_encode(ins: Instruction) -> Seq<u8> {
    match ins {
        Instruction::Add => seq![0xc2u8],
        Instruction::Aptr(n) => seq![0xe1u8, n],
        Instruction::Cmp => seq![0xc1u8],
        Instruction::Halt => seq![0x01u8],
        Instruction::Jez(t) => seq![0x21u8] + word_bytes(t),
        Instruction::Jnz(t) => seq![0x22u8] + word_bytes(t),
        Instruction::Out => seq![0x02u8],
        Instruction::Sub => seq![0xc3u8],
        Instruction::Xor => seq![0xc4u8],
        Instruction::Mvi(dst, imm) => seq![(0x40 | (reg8_id(dst) << 3)), imm],
        Instruction::Mv(dst, src) => seq![(0x40 | (reg8_id(dst) << 3) | reg8_id(src))],
        Instruction::Mvi32(dst, imm) => seq![(0x80 | (reg32_id(dst) << 3))] + word_bytes(imm),
        Instruction::Mv32(dst, src) => seq![(0x80 | (reg32_id(dst) << 3) | reg32_id(src))],
    }
}

/// The numeric id of a byte register, as the encoder uses it.
pub fn reg8_code(r: RegU8) -> (v: u8)
    ensures
        v == reg8_id(r),
{
    match r {
        RegU8::a => 1,
        RegU8::b => 2,
        RegU8::c => 3,
        RegU8::d => 4,
        RegU8::e => 5,
        RegU8::f => 6,
        RegU8::ptr_c => 7,
    }
}

/// The numeric id of a word register, as the encoder uses it.
pub fn reg32_code(r: RegU32) -> (v: u8)
    ensures
        v == reg32_id(r),
{
    match r {
        RegU32::la => 1,
        RegU32::lb => 2,
        RegU32::lc => 3,
        RegU32::ld => 4,
        RegU32::ptr => 5,
        RegU32::pc => 6,
    }
}

/// Encodes one instruction into the bytes the decoder reads back.
pub fn encode_instruction(ins: Instruction) -> (r: Vec<u8>)
    ensures
        r@ == spec_encode(ins),
{
    let mut out: Vec<u8> = Vec::new();
    match ins {
        Instruction::Add => out.push(0xc2),
        Instruction::Aptr(n) => {
            out.push(0xe1);
            out.push(n);
        },
        Instruction::Cmp => out.push(0xc1),
        Instruction::Halt => out.push(0x01),
        Instruction::Jez(t) => {
            out.push(0x21);
            push_word(&mut out, t);
        },
        Instruction::Jnz(t) => {
            out.push(0x22);
            push_word(&mut out, t);
        },
        Instruction::Out => out.push(0x02),
        Instruction::Sub => out.push(0xc3),
        Instruction::Xor => out.push(0xc4),
        Instruction::Mvi(dst, imm) => {
            out.push(0x40 | (reg8_code(dst) << 3));
            out.push(imm);
        },
        Instruction::Mv(dst, src) => {
            out.push(0x40 | (reg8_code(dst) << 3) | reg8_code(src));
        },
        Instruction::Mvi32(dst, imm) => {
            out.push(0x80 | (reg32_code(dst) << 3));
            push_word(&mut out, imm);
        },
        Instruction::Mv32(dst, src) => {
            out.push(0x80 | (reg32_code(dst) << 3) | reg32_code(src));
        },
    }
    proof {
        assert(out@ =~= spec_encode(ins));
    }
    out
}

/// Appends the four little-endian bytes of a word.
fn push_word(out: &mut Vec<u8>, v: u32)
    ensures
        final(out)@ == old(out)@ + word_bytes(v),
{
    out.push((v % 0x100) as u8);
    out.push(((v / 0x100) % 0x100) as u8);
    out.push(((v / 0x1_0000) % 0x100) as u8);
    out.push(((v / 0x100_0000) % 0x100) as u8);
    proof {
        assert(out@ =~= old(out)@ + word_bytes(v));
    }
}

/// The little-endian bytes of a word read back as that word.
proof fn lemma_word_roundtrip(mem: Seq<u8>, i: int, t: u32)
    requires
        0 <= i && i + 4 <= mem.len(),
        mem[i] == word_bytes(t)[0],
        mem[i + 1] == word_bytes(t)[1],
        mem[i + 2] == word_bytes(t)[2],
        mem[i + 3] == word_bytes(t)[3],
    ensures
        word_at(mem, i) == t,
{
    assert(t % 0x100 + ((t / 0x100) % 0x100) * 0x100 + ((t / 0x1_0000) % 0x100) * 0x1_0000 + ((t
        / 0x100_0000) % 0x100) * 0x100_0000 == t) by (bit_vector);
}

/// Law: the encoder and the decoder round-trip. An instruction encoded
/// anywhere in memory decodes back to itself, and its encoding occupies
/// exactly the width the program counter advances by.
pub proof fn lemma_encode_decode(ins: Instruction, mem: Seq<u8>, pc: u32)
    requires
        pc + spec_width(ins) <= mem.len(),
        mem.subrange(pc as int, pc as int + spec_width(ins)) == spec_encode(ins),
    ensures
        spec_encode(ins).len() == spec_width(ins),
        spec_fetch(mem, pc) == Ok::<Instruction, VmError>(ins),
{
    let e = spec_encode(ins);
    let p = pc as int;
    assert(forall|j: int|
        0 <= j < spec_width(ins) ==> mem[p + j] == #[trigger] mem.subrange(
            p,
            p + spec_width(ins),
        )[j]);
    assert(e[0] == mem.subrange(p, p + spec_width(ins))[0]);
    let op = mem[p];
    assert(op == e[0]);
    match ins {
        Instruction::Add => {},
        Instruction::Aptr(_n) => {
            assert(mem[p + 1] == e[1]);
        },
        Instruction::Cmp => {},
        Instruction::Halt => {},
        Instruction::Jez(t) => {
            assert(mem[p + 1] == e[1]);
            assert(mem[p + 2] == e[2]);
            assert(mem[p + 3] == e[3]);
            assert(mem[p + 4] == e[4]);
            lemma_word_roundtrip(mem, p + 1, t);
        },
        Instruction::Jnz(t) => {
            assert(mem[p + 1] == e[1]);
            assert(mem[p + 2] == e[2]);
            assert(mem[p + 3] == e[3]);
            assert(mem[p + 4] == e[4]);
            lemma_word_roundtrip(mem, p + 1, t);
        },
        Instruction::Out => {},
        Instruction::Sub => {},
        Instruction::Xor => {},
        Instruction::Mvi(dst, _imm) => {
            assert(e[0] == mem.subrange(p, p + spec_width(ins))[0]);
            assert(op == e[0]);
            let id = reg8_id(dst);
            assert(op == 0x40 | (id << 3));
            assert({
                let q = 0x40 | (id << 3);
                1 <= id <= 7 ==> q != 0xc2 && q != 0xe1 && q != 0xc1 && q != 0x01 && q != 0x21
                    && q != 0x22 && q != 0x02 && q != 0xc3 && q != 0xc4 && (q & 0x47) == 0x40 && ((
                q >> 3) & 7) == id
            }) by (bit_vector);
            assert(mem[p + 1] == e[1]);
            assert(reg8_of(id) == Some(dst));
        },
        Instruction::Mv(dst, src) => {
            assert(e[0] == mem.subrange(p, p + spec_width(ins))[0]);
            assert(op == e[0]);
            let di = reg8_id(dst);
            let si = reg8_id(src);
            assert(op == 0x40 | (di << 3) | si);
            assert({
                let q = 0x40 | (di << 3) | si;
                (1 <= di <= 7 && 1 <= si <= 7) ==> q != 0xc2 && q != 0xe1 && q != 0xc1 && q
                    != 0x01 && q != 0x21 && q != 0x22 && q != 0x02 && q != 0xc3 && q != 0xc4 && (q
                    & 0x47) != 0x40 && (q & 0x40) == 0x40 && ((q >> 3) & 7) == di && (q & 7) == si
            }) by (bit_vector);
            assert(reg8_of(di) == Some(dst));
            assert(reg8_of(si) == Some(src));
        },
        Instruction::Mvi32(dst, imm) => {
            assert(e[0] == mem.subrange(p, p + spec_width(ins))[0]);
            assert(op == e[0]);
            let id = reg32_id(dst);
            assert(op == 0x80 | (id << 3));
            assert({
                let q = 0x80 | (id << 3);
                1 <= id <= 6 ==> q != 0xc2 && q != 0xe1 && q != 0xc1 && q != 0x01 && q != 0x21
                    && q != 0x22 && q != 0x02 && q != 0xc3 && q != 0xc4 && (q & 0x47) != 0x40 && (q
                    & 0x40) != 0x40 && (q & 0x87) == 0x80 && ((q >> 3) & 7) == id
            }) by (bit_vector);
            assert(mem[p + 1] == e[1]);
            assert(mem[p + 2] == e[2]);
            assert(mem[p + 3] == e[3]);
            assert(mem[p + 4] == e[4]);
            lemma_word_roundtrip(mem, p + 1, imm);
            assert(reg32_of(id) == Some(dst));
        },
        Instruction::Mv32(dst, src) => {
            assert(e[0] == mem.subrange(p, p + spec_width(ins))[0]);
            assert(op == e[0]);
            let di = reg32_id(dst);
            let si = reg32_id(src);
            assert(op == 0x80 | (di << 3) | si);
            assert({
                let q = 0x80 | (di << 3) | si;
                (1 <= di <= 6 && 1 <= si <= 6) ==> q != 0xc2 && q != 0xe1 && q != 0xc1 && q
                    != 0x01 && q != 0x21 && q != 0x22 && q != 0x02 && q != 0xc3 && q != 0xc4 && (q
                    & 0x47) != 0x40 && (q & 0x40) != 0x40 && (q & 0x87) != 0x80 && (q & 0x80)
                    == 0x80 && ((q >> 3) & 7) == di && (q & 7) == si
            }) by (bit_vector);
            assert(reg32_of(di) == Some(dst));
            assert(reg32_of(si) == Some(src));
        },
    }
}

/// Law: a byte that matches no fixed opcode and no move family never
/// decodes; the machine reports it with the program counter it sat at.
pub proof fn lemma_invalid_opcode(mem: Seq<u8>, pc: u32)
    requires
        pc < mem.len(),
        ({
            let op = mem[pc as int];
            op != 0xc2 && op != 0xe1 && op != 0xc1 && op != 0x01 && op != 0x21 && op != 0x22 && op
                != 0x02 && op != 0xc3 && op != 0xc4 && (op & 0x40) != 0x40 && (op & 0x80) != 0x80
        }),
    ensures
        spec_fetch(mem, pc) == Err::<Instruction, VmError>(
            VmError::Decode { pc, opcode: mem[pc as int] },
        ),
{
    let op = mem[pc as int];
    assert((op & 0x40) != 0x40 ==> (op & 0x47) != 0x40) by (bit_vector);
    assert((op & 0x80) != 0x80 ==> (op & 0x87) != 0x80) by (bit_vector);
}

} // verus!
