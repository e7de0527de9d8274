//! The Tomtel machine: a byte-addressed processor with six 8-bit registers,
//! six 32-bit registers, a unified code/data memory image, and an append-only
//! output stream.
//!
//! The machine's behaviour is given by the spec-level functions `spec_fetch`,
//! `spec_execute`, `spec_cycle` and `spec_run`; the executable emulator is
//! proved to follow them step for step, so a run's outcome is a function of
//! the initial memory image alone.

use vstd::prelude::*;

verus! {

/// The register file: byte registers `a`..`f` (`f` holds the comparison
/// flag), word registers `la`..`ld`, the memory pointer `ptr` and the program
/// counter `pc`. All zero at construction.
#[derive(Clone, Copy, PartialEq, Eq, Structural, Debug)]
pub struct Registers {
    pub a: u8,
    pub b: u8,
    pub c: u8,
    pub d: u8,
    pub e: u8,
    pub f: u8,
    pub la: u32,
    pub lb: u32,
    pub lc: u32,
    pub ld: u32,
    pub ptr: u32,
    pub pc: u32,
}

/// A byte-register operand: the six byte registers, or the indirect
/// pseudo-register addressing memory at `ptr + c`.
#[allow(non_camel_case_types)]
#[derive(Clone, Copy, PartialEq, Eq, Structural, Debug)]
pub enum RegU8 {
    a,
    b,
    c,
    d,
    e,
    f,
    ptr_c,
}

/// A word-register operand.
#[allow(non_camel_case_types)]
#[derive(Clone, Copy, PartialEq, Eq, Structural, Debug)]
pub enum RegU32 {
    la,
    lb,
    lc,
    ld,
    ptr,
    pc,
}

/// Which 3-bit field of an opcode names a register.
#[derive(Clone, Copy, PartialEq, Eq, Structural, Debug)]
pub enum DestSrc {
    Src,
    Dest,
}

/// One decoded instruction.
#[derive(Clone, Copy, PartialEq, Eq, Structural, Debug)]
pub enum Instruction {
    Add,
    Aptr(u8),
    Cmp,
    Halt,
    Jez(u32),
    Jnz(u32),
    Mv(RegU8, RegU8),
    Mv32(RegU32, RegU32),
    Mvi(RegU8, u8),
    Mvi32(RegU32, u32),
    Out,
    Sub,
    Xor,
}

/// A fatal condition: either an opcode that decodes to nothing, or a memory
/// reference past the end of the image. Both carry the program counter at
/// the failing fetch; a decode fault carries the offending opcode byte.
#[derive(Clone, Copy, PartialEq, Eq, Structural, Debug)]
pub enum VmError {
    Decode { pc: u32, opcode: u8 },
    Address { pc: u32 },
}

/// How a cycle (or a whole run) ended: still running, halted, or stopped by
/// a fault.
#[derive(Clone, Copy, PartialEq, Eq, Structural, Debug)]
pub enum VmStatus {
    Running,
    Halted,
    Faulted(VmError),
}

/// The mathematical state of one machine: register file, memory image and
/// output stream.
#[verifier::ext_equal]
pub ghost struct MachineView {
    pub regs: Registers,
    pub mem: Seq<u8>,
    pub out: Seq<u8>,
}

/// 32-bit modular addition.
pub open spec fn wadd32(x: u32, y: u32) -> u32 {
    ((x + y) % 0x1_0000_0000) as u32
}

/// 8-bit modular addition.
pub open spec fn wadd8(x: u8, y: u8) -> u8 {
    ((x + y) % 0x100) as u8
}

/// 8-bit modular subtraction.
pub open spec fn wsub8(x: u8, y: u8) -> u8 {
    ((x + 0x100 - y) % 0x100) as u8
}

/// The little-endian 32-bit word stored at `i`.
pub open spec fn word_at(mem: Seq<u8>, i: int) -> u32
    recommends
        0 <= i && i + 4 <= mem.len(),
{
    (mem[i] + mem[i + 1] * 0x100 + mem[i + 2] * 0x1_0000 + mem[i + 3] * 0x100_0000) as u32
}

/// The byte register a 3-bit opcode field selects; field value zero selects
/// nothing and is a decode fault.
pub open spec fn reg8_of(n: u8) -> Option<RegU8> {
    if n == 1 {
        Some(RegU8::a)
    } else if n == 2 {
        Some(RegU8::b)
    } else if n == 3 {
        Some(RegU8::c)
    } else if n == 4 {
        Some(RegU8::d)
    } else if n == 5 {
        Some(RegU8::e)
    } else if n == 6 {
        Some(RegU8::f)
    } else if n == 7 {
        Some(RegU8::ptr_c)
    } else {
        None
    }
}

/// The word register a 3-bit opcode field selects; zero and seven select
/// nothing and are a decode fault.
pub open spec fn reg32_of(n: u8) -> Option<RegU32> {
    if n == 1 {
        Some(RegU32::la)
    } else if n == 2 {
        Some(RegU32::lb)
    } else if n == 3 {
        Some(RegU32::lc)
    } else if n == 4 {
        Some(RegU32::ld)
    } else if n == 5 {
        Some(RegU32::ptr)
    } else if n == 6 {
        Some(RegU32::pc)
    } else {
        None
    }
}

/// Encoded width of an instruction: how far the program counter advances at
/// decode time.
pub open spec fn spec_width(ins: Instruction) -> u32 {
    match ins {
        Instruction::Aptr(_) => 2,
        Instruction::Mvi(_, _) => 2,
        Instruction::Jez(_) => 5,
        Instruction::Jnz(_) => 5,
        Instruction::Mvi32(_, _) => 5,
        _ => 1,
    }
}

/// Decodes the instruction at `pc`. The fixed one-byte opcodes are tried
/// first; then the bit-packed move families, the most specific mask first:
/// immediate-to-byte-register, byte-to-byte, immediate-to-word-register,
/// word-to-word. Anything else, and any register field that selects no
/// register, is a decode fault; an opcode or operand that would sit past the
/// end of memory is an address fault.
pub open spec fn spec_fetch(mem: Seq<u8>, pc: u32) -> Result<Instruction, VmError> {
    if !(pc < mem.len()) {
        Err(VmError::Address { pc })
    } else {
        let op = mem[pc as int];
        if op == 0xC2 {
            Ok(Instruction::Add)
        } else if op == 0xE1 {
            if pc + 2 <= mem.len() {
                Ok(Instruction::Aptr(mem[pc + 1]))
            } else {
                Err(VmError::Address { pc })
            }
        } else if op == 0xC1 {
            Ok(Instruction::Cmp)
        } else if op == 0x01 {
            Ok(Instruction::Halt)
        } else if op == 0x21 {
            if pc + 5 <= mem.len() {
                Ok(Instruction::Jez(word_at(mem, pc + 1)))
            } else {
                Err(VmError::Address { pc })
            }
        } else if op == 0x22 {
            if pc + 5 <= mem.len() {
                Ok(Instruction::Jnz(word_at(mem, pc + 1)))
            } else {
                Err(VmError::Address { pc })
            }
        } else if op == 0x02 {
            Ok(Instruction::Out)
        } else if op == 0xC3 {
            Ok(Instruction::Sub)
        } else if op == 0xC4 {
            Ok(Instruction::Xor)
        } else if op & 0x47 == 0x40 {
            match reg8_of((op >> 3) & 7) {
                Some(dst) => if pc + 2 <= mem.len() {
                    Ok(Instruction::Mvi(dst, mem[pc + 1]))
                } else {
                    Err(VmError::Address { pc })
                },
                None => Err(VmError::Decode { pc, opcode: op }),
            }
        } else if op & 0x40 == 0x40 {
            match (reg8_of((op >> 3) & 7), reg8_of(op & 7)) {
                (Some(dst), Some(src)) => Ok(Instruction::Mv(dst, src)),
                _ => Err(VmError::Decode { pc, opcode: op }),
            }
        } else if op & 0x87 == 0x80 {
            match reg32_of((op >> 3) & 7) {
                Some(dst) => if pc + 5 <= mem.len() {
                    Ok(Instruction::Mvi32(dst, word_at(mem, pc + 1)))
                } else {
                    Err(VmError::Address { pc })
                },
                None => Err(VmError::Decode { pc, opcode: op }),
            }
        } else if op & 0x80 == 0x80 {
            match (reg32_of((op >> 3) & 7), reg32_of(op & 7)) {
                (Some(dst), Some(src)) => Ok(Instruction::Mv32(dst, src)),
                _ => Err(VmError::Decode { pc, opcode: op }),
            }
        } else {
            Err(VmError::Decode { pc, opcode: op })
        }
    }
}

/// The state after a successful fetch: the program counter has moved past
/// the instruction, modulo 2^32.
pub open spec fn advanced(m: MachineView, ins: Instruction) -> MachineView {
    MachineView { regs: Registers { pc: wadd32(m.regs.pc, spec_width(ins)), ..m.regs }, ..m }
}

/// Reading a byte-register operand; `ptr_c` reads memory at `ptr + c` and
/// faults past the end of the image.
pub open spec fn spec_read_u8(m: MachineView, r: RegU8) -> Result<u8, VmError> {
    match r {
        RegU8::a => Ok(m.regs.a),
        RegU8::b => Ok(m.regs.b),
        RegU8::c => Ok(m.regs.c),
        RegU8::d => Ok(m.regs.d),
        RegU8::e => Ok(m.regs.e),
        RegU8::f => Ok(m.regs.f),
        RegU8::ptr_c => {
            let addr = wadd32(m.regs.ptr, m.regs.c as u32);
            if addr < m.mem.len() {
                Ok(m.mem[addr as int])
            } else {
                Err(VmError::Address { pc: m.regs.pc })
            }
        },
    }
}

/// Writing a byte-register operand; `ptr_c` writes memory at `ptr + c` and
/// faults past the end of the image.
pub open spec fn spec_write_u8(m: MachineView, r: RegU8, v: u8) -> Result<MachineView, VmError> {
    match r {
        RegU8::a => Ok(MachineView { regs: Registers { a: v, ..m.regs }, ..m }),
        RegU8::b => Ok(MachineView { regs: Registers { b: v, ..m.regs }, ..m }),
        RegU8::c => Ok(MachineView { regs: Registers { c: v, ..m.regs }, ..m }),
        RegU8::d => Ok(MachineView { regs: Registers { d: v, ..m.regs }, ..m }),
        RegU8::e => Ok(MachineView { regs: Registers { e: v, ..m.regs }, ..m }),
        RegU8::f => Ok(MachineView { regs: Registers { f: v, ..m.regs }, ..m }),
        RegU8::ptr_c => {
            let addr = wadd32(m.regs.ptr, m.regs.c as u32);
            if addr < m.mem.len() {
                Ok(MachineView { mem: m.mem.update(addr as int, v), ..m })
            } else {
                Err(VmError::Address { pc: m.regs.pc })
            }
        },
    }
}

/// Reading a word-register operand; never faults.
pub open spec fn spec_read_u32(m: MachineView, r: RegU32) -> u32 {
    match r {
        RegU32::la => m.regs.la,
        RegU32::lb => m.regs.lb,
        RegU32::lc => m.regs.lc,
        RegU32::ld => m.regs.ld,
        RegU32::ptr => m.regs.ptr,
        RegU32::pc => m.regs.pc,
    }
}

/// Writing a word-register operand; never faults. Writing `pc` redirects
/// the next fetch.
pub open spec fn spec_write_u32(m: MachineView, r: RegU32, v: u32) -> MachineView {
    match r {
        RegU32::la => MachineView { regs: Registers { la: v, ..m.regs }, ..m },
        RegU32::lb => MachineView { regs: Registers { lb: v, ..m.regs }, ..m },
        RegU32::lc => MachineView { regs: Registers { lc: v, ..m.regs }, ..m },
        RegU32::ld => MachineView { regs: Registers { ld: v, ..m.regs }, ..m },
        RegU32::ptr => MachineView { regs: Registers { ptr: v, ..m.regs }, ..m },
        RegU32::pc => MachineView { regs: Registers { pc: v, ..m.regs }, ..m },
    }
}

/// One byte-register write step: the state it yields, and whether it faults.
pub open spec fn write8_step(m: MachineView, r: RegU8, v: u8) -> (MachineView, Result<
    bool,
    VmError,
>) {
    match spec_write_u8(m, r, v) {
        Ok(m2) => (m2, Ok(false)),
        Err(e) => (m, Err(e)),
    }
}

/// The effect of one decoded instruction on a machine state whose program
/// counter has already advanced past it. `Ok(true)` means the machine
/// halted; all arithmetic wraps silently.
pub open spec fn spec_execute(m: MachineView, ins: Instruction) -> (MachineView, Result<
    bool,
    VmError,
>) {
    match ins {
        Instruction::Add => (
            MachineView { regs: Registers { a: wadd8(m.regs.a, m.regs.b), ..m.regs }, ..m },
            Ok(false),
        ),
        Instruction::Sub => (
            MachineView { regs: Registers { a: wsub8(m.regs.a, m.regs.b), ..m.regs }, ..m },
            Ok(false),
        ),
        Instruction::Xor => (
            MachineView { regs: Registers { a: m.regs.a ^ m.regs.b, ..m.regs }, ..m },
            Ok(false),
        ),
        Instruction::Cmp => (
            MachineView {
                regs: Registers {
                    f: if m.regs.a != m.regs.b {
                        1
                    } else {
                        0
                    },
                    ..m.regs
                },
                ..m
            },
            Ok(false),
        ),
        Instruction::Halt => (m, Ok(true)),
        Instruction::Jez(t) => (
            if m.regs.f == 0 {
                MachineView { regs: Registers { pc: t, ..m.regs }, ..m }
            } else {
                m
            },
            Ok(false),
        ),
        Instruction::Jnz(t) => (
            if m.regs.f != 0 {
                MachineView { regs: Registers { pc: t, ..m.regs }, ..m }
            } else {
                m
            },
            Ok(false),
        ),
        Instruction::Aptr(n) => (
            MachineView { regs: Registers { ptr: wadd32(m.regs.ptr, n as u32), ..m.regs }, ..m },
            Ok(false),
        ),
        Instruction::Out => (MachineView { out: m.out.push(m.regs.a), ..m }, Ok(false)),
        Instruction::Mvi(dst, imm) => write8_step(m, dst, imm),
        Instruction::Mv(dst, src) => match spec_read_u8(m, src) {
            Ok(v) => write8_step(m, dst, v),
            Err(e) => (m, Err(e)),
        },
        Instruction::Mvi32(dst, imm) => (spec_write_u32(m, dst, imm), Ok(false)),
        Instruction::Mv32(dst, src) => (spec_write_u32(m, dst, spec_read_u32(m, src)), Ok(false)),
    }
}

/// One full cycle: fetch and decode at `pc`, advance `pc` by the decoded
/// width, then apply the instruction.
pub open spec fn spec_cycle(m: MachineView) -> (MachineView, VmStatus) {
    match spec_fetch(m.mem, m.regs.pc) {
        Err(e) => (m, VmStatus::Faulted(e)),
        Ok(ins) => {
            let m1 = advanced(m, ins);
            match spec_execute(m1, ins) {
                (m2, Ok(true)) => (m2, VmStatus::Halted),
                (m2, Ok(false)) => (m2, VmStatus::Running),
                (m2, Err(e)) => (m2, VmStatus::Faulted(e)),
            }
        },
    }
}

/// Up to `fuel` cycles from `m`: the resulting state, and whether the
/// machine halted, faulted, or was still running when the budget ran out.
pub open spec fn spec_run(m: MachineView, fuel: nat) -> (MachineView, VmStatus)
    decreases fuel,
{
    if fuel == 0 {
        (m, VmStatus::Running)
    } else {
        let (m1, st) = spec_cycle(m);
        if st == VmStatus::Running {
            spec_run(m1, (fuel - 1) as nat)
        } else {
            (m1, st)
        }
    }
}

/// The machine state a program boots in: all registers zero, the program
/// bytes as memory, the output empty.
pub open spec fn boot(prog: Seq<u8>) -> MachineView {
    MachineView {
        regs: Registers {
            a: 0,
            b: 0,
            c: 0,
            d: 0,
            e: 0,
            f: 0,
            la: 0,
            lb: 0,
            lc: 0,
            ld: 0,
            ptr: 0,
            pc: 0,
        },
        mem: prog,
        out: Seq::empty(),
    }
}

/// Running with a larger budget continues where the smaller budget stopped.
pub proof fn lemma_run_snoc(m: MachineView, n: nat)
    requires
        spec_run(m, n).1 == VmStatus::Running,
    ensures
        spec_run(m, n + 1) == spec_cycle(spec_run(m, n).0),
    decreases n,
{
    let (m1, st) = spec_cycle(m);
    if n == 0 {
        if st == VmStatus::Running {
            assert(spec_run(m1, 0) == (m1, VmStatus::Running));
            assert(spec_run(m, 1) == (m1, st));
        } else {
            assert(spec_run(m, 1) == (m1, st));
        }
        assert(spec_run(m, 0).0 == m);
    } else {
        assert(st == VmStatus::Running);
        lemma_run_snoc(m1, (n - 1) as nat);
        assert(spec_run(m, n + 1) == spec_run(m1, n));
        assert(spec_run(m, n) == spec_run(m1, (n - 1) as nat));
    }
}

/// A halted or faulted run keeps its state and status under any larger
/// budget: the outcome at the first halt or fault is the run's outcome.
pub proof fn lemma_run_stable(m: MachineView, n: nat, k: nat)
    requires
        n <= k,
        spec_run(m, n).1 != VmStatus::Running,
    ensures
        spec_run(m, k) == spec_run(m, n),
    decreases n,
{
    if n > 0 {
        let (m1, st) = spec_cycle(m);
        if st == VmStatus::Running {
            lemma_run_stable(m1, (n - 1) as nat, (k - 1) as nat);
        }
    }
}

/// Law: on a memory image smaller than 4 GiB, a successful fetch advances
/// the program counter by the instruction's exact width: the modular
/// addition never wraps, because the decoder has already checked that the
/// whole instruction lies inside the image.
pub proof fn lemma_pc_advance_exact(mem: Seq<u8>, pc: u32)
    requires
        mem.len() <= 0xffff_ffff,
        spec_fetch(mem, pc) is Ok,
    ensures
        ({
            let w = spec_width(spec_fetch(mem, pc)->Ok_0);
            wadd32(pc, w) == pc + w
        }),
{
    let ins = spec_fetch(mem, pc)->Ok_0;
    assert(pc + spec_width(ins) <= mem.len());
}

/// Law: the machine is deterministic. Two machines whose register files,
/// memory images and output streams agree run to the same state and the
/// same outcome on the same step budget.
pub proof fn lemma_run_deterministic(m1: MachineView, m2: MachineView, fuel: nat)
    requires
        m1.regs == m2.regs,
        m1.mem == m2.mem,
        m1.out == m2.out,
    ensures
        spec_run(m1, fuel) == spec_run(m2, fuel),
{
    assert(m1 =~= m2);
}

/// One Tomtel machine: register file, memory image and the bytes emitted so
/// far. Single-use: boot it over a program image, run it, take the output.
pub struct TomtelI69 {
    pub reg: Registers,
    pub mem: Vec<u8>,
    pub out: Vec<u8>,
}

impl View for TomtelI69 {
    type V = MachineView;

    open spec fn view(&self) -> MachineView {
        MachineView { regs: self.reg, mem: self.mem@, out: self.out@ }
    }
}

impl Registers {
    /// A zeroed register file.
    pub fn new() -> (r: Registers)
        ensures
            r == (Registers {
                a: 0,
                b: 0,
                c: 0,
                d: 0,
                e: 0,
                f: 0,
                la: 0,
                lb: 0,
                lc: 0,
                ld: 0,
                ptr: 0,
                pc: 0,
            }),
    {
        Registers {
            a: 0,
            b: 0,
            c: 0,
            d: 0,
            e: 0,
            f: 0,
            la: 0,
            lb: 0,
            lc: 0,
            ld: 0,
            ptr: 0,
            pc: 0,
        }
    }

    /// The indirect address: `ptr + c`, modulo 2^32.
    pub fn ptr_c(&self) -> (r: u32)
        ensures
            r == wadd32(self.ptr, self.c as u32),
    {
        self.ptr.wrapping_add(self.c as u32)
    }
}

impl RegU8 {
    /// The byte register named by the destination or source field of an
    /// opcode; `None` when the field selects no register.
    pub fn from_opcode(op: u8, dest_src: DestSrc) -> (r: Option<RegU8>)
        ensures
            dest_src == DestSrc::Dest ==> r == reg8_of((op >> 3) & 7),
            dest_src == DestSrc::Src ==> r == reg8_of(op & 7),
    {
        let field = match dest_src {
            DestSrc::Dest => (op >> 3) & 7,
            DestSrc::Src => op & 7,
        };
        match field {
            1 => Some(RegU8::a),
            2 => Some(RegU8::b),
            3 => Some(RegU8::c),
            4 => Some(RegU8::d),
            5 => Some(RegU8::e),
            6 => Some(RegU8::f),
            7 => Some(RegU8::ptr_c),
            _ => None,
        }
    }
}

impl RegU32 {
    /// The word register named by the destination or source field of an
    /// opcode; `None` when the field selects no register.
    pub fn from_opcode(op: u8, dest_src: DestSrc) -> (r: Option<RegU32>)
        ensures
            dest_src == DestSrc::Dest ==> r == reg32_of((op >> 3) & 7),
            dest_src == DestSrc::Src ==> r == reg32_of(op & 7),
    {
        let field = match dest_src {
            DestSrc::Dest => (op >> 3) & 7,
            DestSrc::Src => op & 7,
        };
        match field {
            1 => Some(RegU32::la),
            2 => Some(RegU32::lb),
            3 => Some(RegU32::lc),
            4 => Some(RegU32::ld),
            5 => Some(RegU32::ptr),
            6 => Some(RegU32::pc),
            _ => None,
        }
    }
}

impl Instruction {
    /// Encoded width: how many bytes the instruction occupies in memory.
    pub fn get_instruction_size(&self) -> (r: u32)
        ensures
            r == spec_width(*self),
    {
        match self {
            Instruction::Add => 1,
            Instruction::Aptr(_) => 2,
            Instruction::Cmp => 1,
            Instruction::Halt => 1,
            Instruction::Jez(_) => 5,
            Instruction::Jnz(_) => 5,
            Instruction::Mv(_, _) => 1,
            Instruction::Mv32(_, _) => 1,
            Instruction::Mvi(_, _) => 2,
            Instruction::Mvi32(_, _) => 5,
            Instruction::Out => 1,
            Instruction::Sub => 1,
            Instruction::Xor => 1,
        }
    }
}

impl TomtelI69 {
    /// A machine booted over a program image: registers zeroed, output
    /// empty. `memsize` only pre-sizes the output buffer.
    pub fn new(memsize: usize, mem: Vec<u8>) -> (r: TomtelI69)
        ensures
            r@ == boot(mem@),
    {
        TomtelI69 { reg: Registers::new(), mem, out: Vec::with_capacity(memsize) }
    }

    /// Reads a byte-register operand.
    pub fn read_u8_re(&self, reg: RegU8) -> (r: Result<u8, VmError>)
        ensures
            r == spec_read_u8(self@, reg),
    {
        match reg {
            RegU8::a => Ok(self.reg.a),
            RegU8::b => Ok(self.reg.b),
            RegU8::c => Ok(self.reg.c),
            RegU8::d => Ok(self.reg.d),
            RegU8::e => Ok(self.reg.e),
            RegU8::f => Ok(self.reg.f),
            RegU8::ptr_c => {
                let addr = self.reg.ptr_c();
                if (addr as usize) < self.mem.len() {
                    Ok(self.mem[addr as usize])
                } else {
                    Err(VmError::Address { pc: self.reg.pc })
                }
            },
        }
    }

    /// Writes a byte-register operand.
    pub fn write_u8_re(&mut self, reg: RegU8, val: u8) -> (r: Result<(), VmError>)
        ensures
            (match spec_write_u8(old(self)@, reg, val) {
                Ok(m2) => r == Ok::<(), VmError>(()) && final(self)@ == m2,
                Err(e) => r == Err::<(), VmError>(e) && final(self)@ == old(self)@,
            }),
    {
        match reg {
            RegU8::a => {
                self.reg.a = val;
                Ok(())
            },
            RegU8::b => {
                self.reg.b = val;
                Ok(())
            },
            RegU8::c => {
                self.reg.c = val;
                Ok(())
            },
            RegU8::d => {
                self.reg.d = val;
                Ok(())
            },
            RegU8::e => {
                self.reg.e = val;
                Ok(())
            },
            RegU8::f => {
                self.reg.f = val;
                Ok(())
            },
            RegU8::ptr_c => {
                let addr = self.reg.ptr_c();
                if (addr as usize) < self.mem.len() {
                    self.mem[addr as usize] = val;
                    Ok(())
                } else {
                    Err(VmError::Address { pc: self.reg.pc })
                }
            },
        }
    }

    /// Reads a word-register operand.
    pub fn read_u32_re(&self, reg: RegU32) -> (r: u32)
        ensures
            r == spec_read_u32(self@, reg),
    {
        match reg {
            RegU32::la => self.reg.la,
            RegU32::lb => self.reg.lb,
            RegU32::lc => self.reg.lc,
            RegU32::ld => self.reg.ld,
            RegU32::ptr => self.reg.ptr,
            RegU32::pc => self.reg.pc,
        }
    }

    /// Writes a word-register operand.
    pub fn write_u32_re(&mut self, reg: RegU32, val: u32)
        ensures
            final(self)@ == spec_write_u32(old(self)@, reg, val),
    {
        match reg {
            RegU32::la => self.reg.la = val,
            RegU32::lb => self.reg.lb = val,
            RegU32::lc => self.reg.lc = val,
            RegU32::ld => self.reg.ld = val,
            RegU32::ptr => self.reg.ptr = val,
            RegU32::pc => self.reg.pc = val,
        }
    }

    /// Fetches and decodes the instruction at `pc`, advancing `pc` past it
    /// (modulo 2^32); on a fault the machine is unchanged.
    pub fn fetch_decode(&mut self) -> (r: Result<Instruction, VmError>)
        ensures
            (match spec_fetch(old(self)@.mem, old(self).reg.pc) {
                Ok(ins) => r == Ok::<Instruction, VmError>(ins) && final(self)@ == advanced(
                    old(self)@,
                    ins,
                ),
                Err(e) => r == Err::<Instruction, VmError>(e) && final(self)@ == old(self)@,
            }),
    {
        let pc = self.reg.pc;
        let pcu = pc as usize;
        let n = self.mem.len();
        if !(pcu < n) {
            return Err(VmError::Address { pc });
        }
        let op = self.mem[pcu];
        let ins: Instruction = if op == 0xC2 {
            Instruction::Add
        } else if op == 0xE1 {
            if n - pcu >= 2 {
                Instruction::Aptr(self.mem[pcu + 1])
            } else {
                return Err(VmError::Address { pc });
            }
        } else if op == 0xC1 {
            Instruction::Cmp
        } else if op == 0x01 {
            Instruction::Halt
        } else if op == 0x21 {
            if n - pcu >= 5 {
                Instruction::Jez(self.word_operand(pcu + 1))
            } else {
                return Err(VmError::Address { pc });
            }
        } else if op == 0x22 {
            if n - pcu >= 5 {
                Instruction::Jnz(self.word_operand(pcu + 1))
            } else {
                return Err(VmError::Address { pc });
            }
        } else if op == 0x02 {
            Instruction::Out
        } else if op == 0xC3 {
            Instruction::Sub
        } else if op == 0xC4 {
            Instruction::Xor
        } else if op & 0x47 == 0x40 {
            match RegU8::from_opcode(op, DestSrc::Dest) {
                Some(dst) => {
                    if n - pcu >= 2 {
                        Instruction::Mvi(dst, self.mem[pcu + 1])
                    } else {
                        return Err(VmError::Address { pc });
                    }
                },
                None => {
                    return Err(VmError::Decode { pc, opcode: op });
                },
            }
        } else if op & 0x40 == 0x40 {
            match (RegU8::from_opcode(op, DestSrc::Dest), RegU8::from_opcode(op, DestSrc::Src)) {
                (Some(dst), Some(src)) => Instruction::Mv(dst, src),
                _ => {
                    return Err(VmError::Decode { pc, opcode: op });
                },
            }
        } else if op & 0x87 == 0x80 {
            match RegU32::from_opcode(op, DestSrc::Dest) {
                Some(dst) => {
                    if n - pcu >= 5 {
                        Instruction::Mvi32(dst, self.word_operand(pcu + 1))
                    } else {
                        return Err(VmError::Address { pc });
                    }
                },
                None => {
                    return Err(VmError::Decode { pc, opcode: op });
                },
            }
        } else if op & 0x80 == 0x80 {
            match (RegU32::from_opcode(op, DestSrc::Dest), RegU32::from_opcode(op, DestSrc::Src)) {
                (Some(dst), Some(src)) => Instruction::Mv32(dst, src),
                _ => {
                    return Err(VmError::Decode { pc, opcode: op });
                },
            }
        } else {
            return Err(VmError::Decode { pc, opcode: op });
        };
        let width = ins.get_instruction_size();
        self.reg.pc = self.reg.pc.wrapping_add(width);
        Ok(ins)
    }

    /// Reads the little-endian word operand at byte offset `i`.
    fn word_operand(&self, i: usize) -> (r: u32)
        requires
            i + 4 <= self@.mem.len(),
        ensures
            r == word_at(self@.mem, i as int),
    {
        let _bound = self.mem.len();
        self.mem[i] as u32 + self.mem[i + 1] as u32 * 0x100 + self.mem[i + 2] as u32 * 0x1_0000
            + self.mem[i + 3] as u32 * 0x100_0000
    }

    /// Applies one decoded instruction; returns `Ok(true)` exactly when it
    /// was `Halt`. On a fault the machine keeps the state it had when the
    /// fault was found.
    pub fn execute(&mut self, ins: Instruction) -> (r: Result<bool, VmError>)
        ensures
            (spec_execute(old(self)@, ins) == (final(self)@, r)),
    {
        match ins {
            Instruction::Add => {
                self.reg.a = self.reg.a.wrapping_add(self.reg.b);
                Ok(false)
            },
            Instruction::Sub => {
                self.reg.a = self.reg.a.wrapping_sub(self.reg.b);
                Ok(false)
            },
            Instruction::Xor => {
                self.reg.a = self.reg.a ^ self.reg.b;
                Ok(false)
            },
            Instruction::Cmp => {
                self.reg.f = if self.reg.a != self.reg.b {
                    1
                } else {
                    0
                };
                Ok(false)
            },
            Instruction::Halt => Ok(true),
            Instruction::Jez(t) => {
                if self.reg.f == 0 {
                    self.reg.pc = t;
                }
                Ok(false)
            },
            Instruction::Jnz(t) => {
                if self.reg.f != 0 {
                    self.reg.pc = t;
                }
                Ok(false)
            },
            Instruction::Aptr(n) => {
                self.reg.ptr = self.reg.ptr.wrapping_add(n as u32);
                Ok(false)
            },
            Instruction::Out => {
                let v = self.reg.a;
                self.out.push(v);
                Ok(false)
            },
            Instruction::Mvi(dst, imm) => {
                match self.write_u8_re(dst, imm) {
                    Ok(()) => Ok(false),
                    Err(e) => Err(e),
                }
            },
            Instruction::Mv(dst, src) => {
                match self.read_u8_re(src) {
                    Ok(v) => match self.write_u8_re(dst, v) {
                        Ok(()) => Ok(false),
                        Err(e) => Err(e),
                    },
                    Err(e) => Err(e),
                }
            },
            Instruction::Mvi32(dst, imm) => {
                self.write_u32_re(dst, imm);
                Ok(false)
            },
            Instruction::Mv32(dst, src) => {
                let v = self.read_u32_re(src);
                self.write_u32_re(dst, v);
                Ok(false)
            },
        }
    }

    /// One fetch-decode-execute cycle. `Ok(Some(out))` carries a copy of the
    /// output stream when the cycle executed `Halt`; `Ok(None)` means the
    /// machine is still running.
    pub fn run_cycle(&mut self) -> (r: Result<Option<Vec<u8>>, VmError>)
        ensures
            ({
                let (m2, st) = spec_cycle(old(self)@);
                &&& final(self)@ == m2
                &&& match st {
                    VmStatus::Running => r == Ok::<Option<Vec<u8>>, VmError>(None),
                    VmStatus::Halted => r matches Ok(Some(v)) && v@ == m2.out,
                    VmStatus::Faulted(e) => r == Err::<Option<Vec<u8>>, VmError>(e),
                }
            }),
    {
        let ins = match self.fetch_decode() {
            Ok(ins) => ins,
            Err(e) => {
                return Err(e);
            },
        };
        match self.execute(ins) {
            Ok(true) => {
                let snapshot = self.out.clone();
                proof {
                    assert(snapshot@ =~= self.out@);
                }
                Ok(Some(snapshot))
            },
            Ok(false) => Ok(None),
            Err(e) => Err(e),
        }
    }

    /// Runs at most `max_steps` cycles. `Ok(Some(out))` is the output at a
    /// `Halt`; `Ok(None)` means the budget ran out first; a fault aborts the
    /// run and reports where.
    pub fn run(&mut self, max_steps: u64) -> (r: Result<Option<Vec<u8>>, VmError>)
        ensures
            ({
                let (m2, st) = spec_run(old(self)@, max_steps as nat);
                &&& final(self)@ == m2
                &&& match st {
                    VmStatus::Running => r == Ok::<Option<Vec<u8>>, VmError>(None),
                    VmStatus::Halted => r matches Ok(Some(v)) && v@ == m2.out,
                    VmStatus::Faulted(e) => r == Err::<Option<Vec<u8>>, VmError>(e),
                }
            }),
    {
        let mut steps: u64 = 0;
        while steps < max_steps
            invariant
                steps <= max_steps,
                spec_run(old(self)@, steps as nat) == (self@, VmStatus::Running),
            decreases max_steps - steps,
        {
            proof {
                lemma_run_snoc(old(self)@, steps as nat);
            }
            let cycle = self.run_cycle();
            match cycle {
                Ok(None) => {},
                Ok(Some(v)) => {
                    proof {
                        lemma_run_stable(old(self)@, (steps + 1) as nat, max_steps as nat);
                    }
                    return Ok(Some(v));
                },
                Err(e) => {
                    proof {
                        lemma_run_stable(old(self)@, (steps + 1) as nat, max_steps as nat);
                    }
                    return Err(e);
                },
            }
            steps = steps + 1;
        }
        Ok(None)
    }
}

} // verus!
