use tomtel::encode::encode_instruction;
use tomtel::step6::run_step;
use tomtel::step6::step6_extension;
use tomtel::vm::DestSrc;
use tomtel::vm::Instruction;
use tomtel::vm::RegU32;
use tomtel::vm::RegU8;
use tomtel::vm::Registers;
use tomtel::vm::TomtelI69;
use tomtel::vm::VmError;

fn machine(mem: Vec<u8>) -> TomtelI69 {
    let len = mem.len();
    TomtelI69::new(len, mem)
}

#[test]
fn test_registers_start_zeroed() {
    let r = Registers::new();
    assert_eq!((r.a, r.b, r.c, r.d, r.e, r.f), (0, 0, 0, 0, 0, 0));
    assert_eq!((r.la, r.lb, r.lc, r.ld, r.ptr, r.pc), (0, 0, 0, 0, 0, 0));
}

#[test]
fn test_ptr_c_wraps_modulo_32_bits() {
    let mut r = Registers::new();
    r.ptr = u32::MAX;
    r.c = 5;
    assert_eq!(r.ptr_c(), 4);
}

#[test]
fn test_add_wraps_at_256() {
    let mut cpu = machine(vec![]);
    cpu.reg.a = 250;
    cpu.reg.b = 10;
    assert_eq!(cpu.execute(Instruction::Add), Ok(false));
    assert_eq!(cpu.reg.a, 4);
}

#[test]
fn test_sub_wraps_below_zero() {
    let mut cpu = machine(vec![]);
    cpu.reg.a = 5;
    cpu.reg.b = 10;
    assert_eq!(cpu.execute(Instruction::Sub), Ok(false));
    assert_eq!(cpu.reg.a, 251);
}

#[test]
fn test_cmp_equal_then_jez_jumps() {
    let mut cpu = machine(vec![]);
    cpu.reg.a = 7;
    cpu.reg.b = 7;
    cpu.execute(Instruction::Cmp).unwrap();
    assert_eq!(cpu.reg.f, 0);
    cpu.execute(Instruction::Jez(1234)).unwrap();
    assert_eq!(cpu.reg.pc, 1234);
    // the opposite branch does not jump
    cpu.execute(Instruction::Jnz(99)).unwrap();
    assert_eq!(cpu.reg.pc, 1234);
}

#[test]
fn test_cmp_unequal_then_jnz_jumps() {
    let mut cpu = machine(vec![]);
    cpu.reg.a = 7;
    cpu.reg.b = 9;
    cpu.execute(Instruction::Cmp).unwrap();
    assert_eq!(cpu.reg.f, 1);
    cpu.execute(Instruction::Jez(99)).unwrap();
    assert_eq!(cpu.reg.pc, 0);
    cpu.execute(Instruction::Jnz(77)).unwrap();
    assert_eq!(cpu.reg.pc, 77);
}

#[test]
fn test_indirect_addressing_hits_ptr_plus_c() {
    let mut cpu = machine(vec![0u8; 200]);
    cpu.reg.ptr = 100;
    cpu.reg.c = 5;
    assert_eq!(cpu.write_u8_re(RegU8::ptr_c, 0xab), Ok(()));
    assert_eq!(cpu.mem[105], 0xab);
    assert_eq!(cpu.mem[104], 0);
    assert_eq!(cpu.mem[106], 0);
    assert_eq!(cpu.read_u8_re(RegU8::ptr_c), Ok(0xab));
}

#[test]
fn test_out_of_range_indirect_access_is_address_error() {
    let mut cpu = machine(vec![0u8; 5]);
    cpu.reg.ptr = 100;
    assert_eq!(cpu.read_u8_re(RegU8::ptr_c), Err(VmError::Address { pc: 0 }));
    assert_eq!(cpu.write_u8_re(RegU8::ptr_c, 1), Err(VmError::Address { pc: 0 }));
    // the memory is untouched
    assert_eq!(cpu.mem, vec![0u8; 5]);
}

#[test]
fn test_end_to_end_emit_one_byte() {
    // Mvi(a, 0x41); Out; Halt — on an otherwise-empty buffer
    let mut program = vec![0x48, 0x41, 0x02, 0x01];
    program.resize(16, 0);
    let r = step6_extension(program, 1000);
    assert_eq!(r, Ok(Some(vec![0x41])));
}

#[test]
fn test_invalid_opcode_is_decode_error() {
    // 0x00 matches no fixed opcode and no move family
    let mut cpu = machine(vec![0x00]);
    assert_eq!(
        cpu.run_cycle(),
        Err(VmError::Decode { pc: 0, opcode: 0x00 })
    );
    // 0x40 selects byte-register zero, which does not exist
    let mut cpu = machine(vec![0x40, 0x00]);
    assert_eq!(
        cpu.run_cycle(),
        Err(VmError::Decode { pc: 0, opcode: 0x40 })
    );
}

#[test]
fn test_determinism_two_runs_agree() {
    let mut program = vec![0x48, 0x41, 0x02, 0xc2, 0x02, 0x01];
    program.resize(16, 0);
    let mut first = machine(program.clone());
    let mut second = machine(program);
    let r1 = first.run(10_000);
    let r2 = second.run(10_000);
    assert_eq!(r1, r2);
    assert_eq!(first.reg, second.reg);
    assert_eq!(first.out, second.out);
    assert_eq!(first.mem, second.mem);
}

#[test]
fn test_run_budget_exhausted_returns_none() {
    // an empty loop never halts; the step budget stops it
    let mut cpu = machine(vec![0x21, 0, 0, 0, 0]);
    assert_eq!(cpu.run(100), Ok(None));
}

#[test]
fn test_register_ids_from_opcode() {
    assert_eq!(RegU8::from_opcode(0x48, DestSrc::Dest), Some(RegU8::a));
    assert_eq!(RegU8::from_opcode(0x79, DestSrc::Dest), Some(RegU8::ptr_c));
    assert_eq!(RegU8::from_opcode(0x79, DestSrc::Src), Some(RegU8::a));
    assert_eq!(RegU8::from_opcode(0x40, DestSrc::Dest), None);
    assert_eq!(RegU32::from_opcode(0x88, DestSrc::Dest), Some(RegU32::la));
    assert_eq!(RegU32::from_opcode(0xb8, DestSrc::Dest), None);
}

fn all_instructions() -> Vec<Instruction> {
    vec![
        Instruction::Add,
        Instruction::Aptr(0x7f),
        Instruction::Cmp,
        Instruction::Halt,
        Instruction::Jez(0xdead_beef),
        Instruction::Jnz(0x1234_5678),
        Instruction::Mv(RegU8::d, RegU8::ptr_c),
        Instruction::Mv32(RegU32::pc, RegU32::ptr),
        Instruction::Mvi(RegU8::f, 0x99),
        Instruction::Mvi32(RegU32::lc, 0xcafe_f00d),
        Instruction::Out,
        Instruction::Sub,
        Instruction::Xor,
    ]
}

#[test]
fn test_encode_decode_round_trip() {
    for ins in all_instructions() {
        let bytes = encode_instruction(ins);
        let width = ins.get_instruction_size();
        assert_eq!(bytes.len() as u32, width, "width of {:?}", ins);
        let mut cpu = machine(bytes);
        let decoded = cpu.fetch_decode();
        assert_eq!(decoded, Ok(ins));
        assert_eq!(cpu.reg.pc, width, "pc advance of {:?}", ins);
    }
}

#[test]
fn test_instruction_sizes_match_table() {
    assert_eq!(Instruction::Add.get_instruction_size(), 1);
    assert_eq!(Instruction::Aptr(1).get_instruction_size(), 2);
    assert_eq!(Instruction::Jez(1).get_instruction_size(), 5);
    assert_eq!(Instruction::Jnz(1).get_instruction_size(), 5);
    assert_eq!(Instruction::Mv(RegU8::a, RegU8::b).get_instruction_size(), 1);
    assert_eq!(Instruction::Mvi(RegU8::a, 1).get_instruction_size(), 2);
    assert_eq!(Instruction::Mvi32(RegU32::la, 1).get_instruction_size(), 5);
}

#[test]
fn test_aptr_moves_the_pointer() {
    let mut cpu = machine(vec![]);
    cpu.reg.ptr = 10;
    cpu.execute(Instruction::Aptr(0xff)).unwrap();
    assert_eq!(cpu.reg.ptr, 265);
}

#[test]
fn test_xor_and_moves() {
    let mut cpu = machine(vec![]);
    cpu.reg.a = 0b1010;
    cpu.reg.b = 0b0110;
    cpu.execute(Instruction::Xor).unwrap();
    assert_eq!(cpu.reg.a, 0b1100);
    cpu.execute(Instruction::Mvi32(RegU32::ld, 7)).unwrap();
    assert_eq!(cpu.reg.ld, 7);
    cpu.execute(Instruction::Mv32(RegU32::la, RegU32::ld)).unwrap();
    assert_eq!(cpu.reg.la, 7);
    cpu.execute(Instruction::Mvi(RegU8::e, 3)).unwrap();
    assert_eq!(cpu.reg.e, 3);
    cpu.execute(Instruction::Mv(RegU8::b, RegU8::e)).unwrap();
    assert_eq!(cpu.reg.b, 3);
}

#[test]
fn test_run_step_strips_the_ascii85_layer() {
    // the digit stream `z~>` decodes to [0x00, 0x09, 0xee, 0x4f]; the
    // machine boots over those bytes and faults on opcode 0x00 at pc 0 —
    // proof that it ran the decoded bytes, not the payload
    assert_eq!(
        run_step(b"<~z~>", 100),
        Err(VmError::Decode { pc: 0, opcode: 0x00 })
    );
}

#[test]
fn test_all_ones_opcode_is_an_indirect_move() {
    // 0xff sets bit 6, so the byte-to-byte move family claims it before the
    // word families are tried: both register fields read 7, the indirect
    // pseudo-register
    let mut cpu = machine(vec![0xff, 0x00]);
    assert_eq!(cpu.fetch_decode(), Ok(Instruction::Mv(RegU8::ptr_c, RegU8::ptr_c)));
}
