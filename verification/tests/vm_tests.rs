use lun_vm::bc::{opcode_byte, opcode_from_byte, BcBlob, Opcode};
use lun_vm::mem::{Size, TrapKind};
use lun_vm::vm::{FloatOp, FloatWidth, Vm};
use lun_vm::{BASE_STACK, PROGRAM_START};

fn op(o: Opcode) -> u8 {
    opcode_byte(o)
}

fn li_b(rd: u8, imm: u8) -> Vec<u8> {
    vec![op(Opcode::LiB), rd, imm]
}

fn li_h(rd: u8, imm: u16) -> Vec<u8> {
    let b = imm.to_le_bytes();
    vec![op(Opcode::LiH), rd, b[0], b[1]]
}

fn li_w(rd: u8, imm: u32) -> Vec<u8> {
    let b = imm.to_le_bytes();
    vec![op(Opcode::LiW), rd, b[0], b[1], b[2], b[3]]
}

fn li_d(rd: u8, imm: u64) -> Vec<u8> {
    let mut v = vec![op(Opcode::LiD), rd];
    v.extend_from_slice(&imm.to_le_bytes());
    v
}

fn a_type(o: Opcode, funct: u8, rd: u8, rs1: u8, rs2: u8) -> Vec<u8> {
    vec![op(o), (funct << 4) | rd, (rs1 << 4) | rs2]
}

fn rir(o: Opcode, r1: u8, r2: u8, imm: u16) -> Vec<u8> {
    let b = imm.to_le_bytes();
    vec![op(o), (r1 << 4) | r2, b[0], b[1]]
}

fn call(target: u32) -> Vec<u8> {
    let mut v = vec![op(Opcode::Call)];
    v.extend_from_slice(&target.to_le_bytes());
    v
}

fn prog(parts: &[Vec<u8>]) -> Vec<u8> {
    let mut v = Vec::new();
    for p in parts {
        v.extend_from_slice(p);
    }
    v
}

fn vm_with(code: Vec<u8>) -> Vm {
    Vm::new(BASE_STACK, BcBlob { code })
}

#[test]
fn s1_add_integers() {
    let code = prog(&[
        li_b(1, 3),
        li_b(2, 4),
        a_type(Opcode::Add, 0, 3, 1, 2),
    ]);
    let mut vm = vm_with(code);
    vm.step();
    vm.step();
    vm.step();
    assert_eq!(vm.reg(3), 7);
    assert_eq!(vm.pc(), PROGRAM_START + 9);
    assert!(!vm.is_done());
}

#[test]
fn s2_push_pop_roundtrip() {
    let code = prog(&[
        li_d(1, 0xDEADBEEFCAFEBABE),
        vec![op(Opcode::Push), 1],
        li_b(1, 0),
        vec![op(Opcode::Pop), 2],
    ]);
    let mut vm = vm_with(code);
    let sp0 = vm.reg(15);
    vm.step();
    vm.step();
    vm.step();
    vm.step();
    assert_eq!(vm.reg(2), 0xDEADBEEFCAFEBABE);
    assert_eq!(vm.reg(1), 0);
    assert_eq!(vm.reg(15), sp0);
}

#[test]
fn s3_branch_taken_skips_instruction() {
    let code = prog(&[
        li_b(1, 5),
        li_b(2, 5),
        rir(Opcode::Beq, 1, 2, 3),
        li_b(3, 1),
        li_b(3, 2),
    ]);
    let mut vm = vm_with(code);
    for _ in 0..4 {
        vm.step();
    }
    assert_eq!(vm.reg(3), 2);
}

#[test]
fn s3_branch_not_taken_falls_through() {
    let code = prog(&[
        li_b(1, 5),
        li_b(2, 6),
        rir(Opcode::Beq, 1, 2, 3),
        li_b(3, 1),
        li_b(3, 2),
    ]);
    let mut vm = vm_with(code);
    for _ in 0..5 {
        vm.step();
    }
    assert_eq!(vm.reg(3), 2);
    let mut vm2 = vm_with(prog(&[
        li_b(1, 5),
        li_b(2, 6),
        rir(Opcode::Beq, 1, 2, 3),
        li_b(3, 1),
    ]));
    for _ in 0..4 {
        vm2.step();
    }
    assert_eq!(vm2.reg(3), 1);
}

#[test]
fn s4_float_add_f32() {
    let code = prog(&[
        li_w(1, 1.5f32.to_bits()),
        li_w(2, 2.25f32.to_bits()),
        a_type(Opcode::Add, 2, 3, 1, 2),
    ]);
    let mut vm = vm_with(code);
    vm.step();
    vm.step();
    vm.step();
    let req = vm.pending_float().expect("float request");
    assert_eq!(req.op, FloatOp::Add);
    assert_eq!(req.width, FloatWidth::F32);
    assert_eq!(req.rd, 3);
    assert_eq!(req.lhs, 1.5f32.to_bits() as u64);
    assert_eq!(req.rhs, 2.25f32.to_bits() as u64);
    let res = f32::from_bits(req.lhs as u32) + f32::from_bits(req.rhs as u32);
    vm.resolve_float(res.to_bits() as u64);
    assert_eq!(vm.reg(3), 3.75f32.to_bits() as u64);
    assert!(vm.pending_float().is_none());
}

#[test]
fn float_add_f16_bits() {
    let code = prog(&[
        li_h(1, 0x3E00),
        li_h(2, 0x4080),
        a_type(Opcode::Add, 1, 3, 1, 2),
    ]);
    let mut vm = vm_with(code);
    vm.step();
    vm.step();
    vm.step();
    let req = vm.pending_float().expect("float request");
    assert_eq!(req.width, FloatWidth::F16);
    let res = half::f16::from_bits(req.lhs as u16) + half::f16::from_bits(req.rhs as u16);
    vm.resolve_float(res.to_bits() as u64);
    assert_eq!(vm.reg(3), 0x4380);
}

#[test]
fn float_compare_stores_flag() {
    let code = prog(&[
        li_w(1, 1.0f32.to_bits()),
        li_w(2, 2.0f32.to_bits()),
        a_type(Opcode::Clt, 2, 3, 1, 2),
    ]);
    let mut vm = vm_with(code);
    vm.step();
    vm.step();
    vm.step();
    let req = vm.pending_float().expect("float request");
    assert_eq!(req.op, FloatOp::Clt);
    let taken = f32::from_bits(req.lhs as u32) < f32::from_bits(req.rhs as u32);
    vm.resolve_float(taken as u64);
    assert_eq!(vm.reg(3), 1);
}

#[test]
fn s5_call_ret_symmetry() {
    let f_off: u32 = 8;
    let code = prog(&[
        call(PROGRAM_START as u32 + f_off),
        li_b(2, 7),
        li_b(1, 42),
        vec![op(Opcode::Ret)],
    ]);
    let mut vm = vm_with(code);
    let sp0 = vm.reg(15);
    vm.step();
    assert_eq!(vm.pc(), PROGRAM_START + f_off as u64);
    assert_eq!(vm.reg(15), sp0 - 8);
    vm.step();
    assert_eq!(vm.reg(1), 42);
    vm.step();
    assert_eq!(vm.pc(), PROGRAM_START + 5);
    assert_eq!(vm.reg(15), sp0);
    vm.step();
    assert_eq!(vm.reg(2), 7);
}

#[test]
fn s6_access_violation_in_special_region() {
    let code = prog(&[rir(Opcode::LdB, 1, 0, 0)]);
    let mut vm = vm_with(code);
    vm.step();
    assert!(vm.is_done());
    let trap = vm.trap().expect("trap recorded");
    assert_eq!(trap.kind, TrapKind::AccessViolation);
    assert_eq!(trap.pc, PROGRAM_START);
}

#[test]
fn zero_register_reads_zero_after_write() {
    let code = prog(&[li_b(0, 5), li_b(1, 9), a_type(Opcode::Add, 0, 0, 1, 1)]);
    let mut vm = vm_with(code);
    vm.step();
    assert_eq!(vm.reg(0), 0);
    vm.step();
    vm.step();
    assert_eq!(vm.reg(0), 0);
    assert_eq!(vm.reg(1), 9);
}

#[test]
fn pc_advances_by_encoded_length() {
    let code = prog(&[
        li_b(1, 1),
        li_h(1, 2),
        li_w(1, 3),
        li_d(1, 4),
        vec![op(Opcode::Mov), 0x21],
        a_type(Opcode::Xor, 0, 3, 1, 2),
    ]);
    let mut vm = vm_with(code);
    let base = PROGRAM_START;
    vm.step();
    assert_eq!(vm.pc(), base + 3);
    vm.step();
    assert_eq!(vm.pc(), base + 7);
    vm.step();
    assert_eq!(vm.pc(), base + 13);
    vm.step();
    assert_eq!(vm.pc(), base + 23);
    vm.step();
    assert_eq!(vm.pc(), base + 25);
    vm.step();
    assert_eq!(vm.pc(), base + 28);
}

#[test]
fn endianness_write_read_roundtrip() {
    let code = prog(&[li_b(1, 1)]);
    let mut vm = vm_with(code);
    let a = vm.stack_top();
    let v: u64 = 0x1122334455667788;
    for (size, mask) in [
        (Size::Byte, 0xFFu64),
        (Size::Half, 0xFFFF),
        (Size::Word, 0xFFFF_FFFF),
        (Size::Double, u64::MAX),
    ] {
        vm.write(a, size, v).unwrap();
        assert_eq!(vm.read(a, size).unwrap(), v & mask);
    }
}

#[test]
fn endianness_byte_order_is_little() {
    let code = prog(&[li_b(1, 1)]);
    let mut vm = vm_with(code);
    let a = vm.stack_top();
    vm.write(a, Size::Word, 0x90ABCDEF).unwrap();
    assert_eq!(vm.read(a, Size::Byte).unwrap(), 0xEF);
    assert_eq!(vm.read(a + 1, Size::Byte).unwrap(), 0xCD);
    assert_eq!(vm.read(a + 2, Size::Byte).unwrap(), 0xAB);
    assert_eq!(vm.read(a + 3, Size::Byte).unwrap(), 0x90);
}

#[test]
fn trap_totality_of_memory_windows() {
    let code = prog(&[li_b(1, 1)]);
    let mut vm = vm_with(code);
    // special region: no read, no write
    assert_eq!(vm.read(0, Size::Byte), Err(TrapKind::AccessViolation));
    assert_eq!(vm.read(255, Size::Byte), Err(TrapKind::AccessViolation));
    assert_eq!(vm.write(0, Size::Byte, 1), Err(TrapKind::AccessViolation));
    // program region: read-only
    assert!(vm.read(PROGRAM_START, Size::Byte).is_ok());
    assert_eq!(
        vm.write(PROGRAM_START, Size::Byte, 1),
        Err(TrapKind::WriteToReadOnly)
    );
    // the unmapped gap byte between program and stack
    let gap = PROGRAM_START + 3;
    assert_eq!(vm.read(gap, Size::Byte), Err(TrapKind::AccessViolation));
    assert_eq!(vm.write(gap, Size::Byte, 1), Err(TrapKind::AccessViolation));
    // a range straddling program end
    assert_eq!(
        vm.read(PROGRAM_START + 2, Size::Half),
        Err(TrapKind::AccessViolation)
    );
    // stack region: read/write
    let st = vm.stack_top();
    assert!(vm.write(st, Size::Double, 7).is_ok());
    assert_eq!(vm.read(st, Size::Double).unwrap(), 7);
    // canary: unmapped
    assert_eq!(
        vm.read(vm.canary_start(), Size::Byte),
        Err(TrapKind::AccessViolation)
    );
    // a range straddling the stack bottom
    assert_eq!(
        vm.read(vm.canary_start() - 2, Size::Word),
        Err(TrapKind::AccessViolation)
    );
    // heap: reserved, unmapped in this revision
    assert_eq!(
        vm.read(vm.heap_base(), Size::Byte),
        Err(TrapKind::AccessViolation)
    );
}

#[test]
fn invalid_opcode_traps() {
    let code = vec![200u8];
    let mut vm = vm_with(code);
    vm.step();
    assert!(vm.is_done());
    assert_eq!(vm.trap().unwrap().kind, TrapKind::InvalidOpcode);
}

#[test]
fn invalid_funct_traps() {
    let code = prog(&[a_type(Opcode::Add, 4, 3, 1, 2)]);
    let mut vm = vm_with(code);
    vm.step();
    assert_eq!(vm.trap().unwrap().kind, TrapKind::InvalidFunct);
}

#[test]
fn bitwise_on_float_traps() {
    let code = prog(&[a_type(Opcode::And, 2, 3, 1, 2)]);
    let mut vm = vm_with(code);
    vm.step();
    assert_eq!(vm.trap().unwrap().kind, TrapKind::BitwiseOnFloat);
}

#[test]
fn div_by_zero_traps() {
    let code = prog(&[li_b(1, 8), a_type(Opcode::Div, 0, 3, 1, 2)]);
    let mut vm = vm_with(code);
    vm.step();
    vm.step();
    assert_eq!(vm.trap().unwrap().kind, TrapKind::DivByZero);
    let code2 = prog(&[li_b(1, 8), a_type(Opcode::Rem, 0, 3, 1, 2)]);
    let mut vm2 = vm_with(code2);
    vm2.step();
    vm2.step();
    assert_eq!(vm2.trap().unwrap().kind, TrapKind::DivByZero);
}

#[test]
fn stack_overflow_traps() {
    let code = prog(&[vec![op(Opcode::Push), 1], vec![op(Opcode::Push), 1]]);
    let mut vm = Vm::new(8, BcBlob { code });
    vm.step();
    assert!(!vm.is_done());
    vm.step();
    assert_eq!(vm.trap().unwrap().kind, TrapKind::StackOverflow);
}

#[test]
fn stack_underflow_traps() {
    let code = prog(&[vec![op(Opcode::Pop), 1]]);
    let mut vm = vm_with(code);
    vm.step();
    assert_eq!(vm.trap().unwrap().kind, TrapKind::StackUnderflow);
}

#[test]
fn write_to_program_region_traps() {
    let code = prog(&[li_h(1, PROGRAM_START as u16), rir(Opcode::StB, 1, 2, 0)]);
    let mut vm = vm_with(code);
    vm.step();
    vm.step();
    assert!(vm.is_done());
    assert_eq!(vm.trap().unwrap().kind, TrapKind::WriteToReadOnly);
}

#[test]
fn integer_comparisons_are_unsigned() {
    let code = prog(&[
        li_d(1, u64::MAX),
        li_b(2, 1),
        a_type(Opcode::Clt, 0, 3, 1, 2),
        a_type(Opcode::Cge, 0, 4, 1, 2),
        a_type(Opcode::Ceq, 0, 5, 1, 2),
        a_type(Opcode::Cne, 0, 6, 1, 2),
    ]);
    let mut vm = vm_with(code);
    for _ in 0..6 {
        vm.step();
    }
    assert_eq!(vm.reg(3), 0);
    assert_eq!(vm.reg(4), 1);
    assert_eq!(vm.reg(5), 0);
    assert_eq!(vm.reg(6), 1);
}

#[test]
fn branches_compare_unsigned() {
    // Blt with a "negative" two's-complement value: unsigned, so not taken.
    let code = prog(&[
        li_d(1, u64::MAX),
        li_b(2, 1),
        rir(Opcode::Blt, 1, 2, 3),
        li_b(3, 1),
    ]);
    let mut vm = vm_with(code);
    for _ in 0..4 {
        vm.step();
    }
    assert_eq!(vm.reg(3), 1);
}

#[test]
fn integer_arithmetic_wraps() {
    let code = prog(&[
        li_d(1, u64::MAX),
        li_b(2, 1),
        a_type(Opcode::Add, 0, 3, 1, 2),
        a_type(Opcode::Sub, 0, 4, 2, 1),
        a_type(Opcode::Mul, 0, 5, 1, 1),
    ]);
    let mut vm = vm_with(code);
    for _ in 0..5 {
        vm.step();
    }
    assert_eq!(vm.reg(3), 0);
    assert_eq!(vm.reg(4), 2);
    assert_eq!(vm.reg(5), 1);
}

#[test]
fn div_rem_and_bitwise_values() {
    let code = prog(&[
        li_b(1, 23),
        li_b(2, 5),
        a_type(Opcode::Div, 0, 3, 1, 2),
        a_type(Opcode::Rem, 0, 4, 1, 2),
        a_type(Opcode::And, 0, 5, 1, 2),
        a_type(Opcode::Or, 0, 6, 1, 2),
        a_type(Opcode::Xor, 0, 7, 1, 2),
    ]);
    let mut vm = vm_with(code);
    for _ in 0..7 {
        vm.step();
    }
    assert_eq!(vm.reg(3), 4);
    assert_eq!(vm.reg(4), 3);
    assert_eq!(vm.reg(5), 23 & 5);
    assert_eq!(vm.reg(6), 23 | 5);
    assert_eq!(vm.reg(7), 23 ^ 5);
}

#[test]
fn load_store_with_signed_offset() {
    // sp starts at the stack bottom; offsets below it are in the stack.
    let code = prog(&[
        li_d(2, 0x0123456789ABCDEF),
        rir(Opcode::StD, 15, 2, 0xFFF8),
        rir(Opcode::LdD, 3, 15, 0xFFF8),
        rir(Opcode::LdW, 4, 15, 0xFFF8),
        rir(Opcode::LdH, 5, 15, 0xFFF8),
        rir(Opcode::LdB, 6, 15, 0xFFF8),
    ]);
    let mut vm = vm_with(code);
    for _ in 0..6 {
        vm.step();
    }
    assert_eq!(vm.reg(3), 0x0123456789ABCDEF);
    assert_eq!(vm.reg(4), 0x89ABCDEF);
    assert_eq!(vm.reg(5), 0xCDEF);
    assert_eq!(vm.reg(6), 0xEF);
}

#[test]
fn mov_copies_register() {
    let code = prog(&[li_b(1, 77), vec![op(Opcode::Mov), 0x41]]);
    let mut vm = vm_with(code);
    vm.step();
    vm.step();
    assert_eq!(vm.reg(4), 77);
}

#[test]
fn jze_jumps_when_zero() {
    // Jze r1, r2, imm: taken when [r2] == 0; target = pc + 4 + imm + [r1].
    let code = prog(&[
        rir(Opcode::Jze, 0, 0, 3),
        li_b(3, 1),
        li_b(3, 2),
    ]);
    let mut vm = vm_with(code);
    vm.step();
    assert_eq!(vm.pc(), PROGRAM_START + 7);
    vm.step();
    assert_eq!(vm.reg(3), 2);
}

#[test]
fn jze_falls_through_when_nonzero() {
    let code = prog(&[
        li_b(2, 1),
        rir(Opcode::Jze, 0, 2, 3),
        li_b(3, 1),
    ]);
    let mut vm = vm_with(code);
    vm.step();
    vm.step();
    assert_eq!(vm.pc(), PROGRAM_START + 7);
    vm.step();
    assert_eq!(vm.reg(3), 1);
}

#[test]
fn run_executes_until_trap() {
    let code = prog(&[
        li_b(1, 3),
        li_b(2, 4),
        a_type(Opcode::Add, 0, 3, 1, 2),
    ]);
    let mut vm = vm_with(code);
    vm.run(1000);
    // no halt instruction exists: running off the program's end traps
    assert!(vm.is_done());
    assert_eq!(vm.reg(3), 7);
    assert_eq!(vm.trap().unwrap().kind, TrapKind::AccessViolation);
}

#[test]
fn run_stops_at_float_request() {
    let code = prog(&[
        li_w(1, 1.5f32.to_bits()),
        li_w(2, 2.25f32.to_bits()),
        a_type(Opcode::Mul, 2, 3, 1, 2),
        a_type(Opcode::Add, 0, 4, 1, 2),
    ]);
    let mut vm = vm_with(code);
    vm.run(1000);
    assert!(!vm.is_done());
    let req = vm.pending_float().expect("float request");
    assert_eq!(req.op, FloatOp::Mul);
    let res = f32::from_bits(req.lhs as u32) * f32::from_bits(req.rhs as u32);
    vm.resolve_float(res.to_bits() as u64);
    assert_eq!(vm.reg(3), 3.375f32.to_bits() as u64);
}

#[test]
fn step_after_done_does_nothing() {
    let code = vec![200u8];
    let mut vm = vm_with(code);
    vm.step();
    assert!(vm.is_done());
    let pc = vm.pc();
    vm.step();
    assert!(vm.is_done());
    assert_eq!(vm.pc(), pc);
}

#[test]
fn resolve_without_pending_does_nothing() {
    let code = prog(&[li_b(1, 1)]);
    let mut vm = vm_with(code);
    vm.resolve_float(0x1234);
    for i in 0..16 {
        if i == 15 {
            continue;
        }
        assert_eq!(vm.reg(i), 0);
    }
}

#[test]
fn trap_records_faulting_instruction_pc() {
    // r2 stays zero, so the division at offset 3 traps there.
    let code = prog(&[li_b(1, 8), a_type(Opcode::Div, 0, 3, 1, 2)]);
    let mut vm = vm_with(code);
    vm.step();
    vm.step();
    let trap = vm.trap().unwrap();
    assert_eq!(trap.kind, TrapKind::DivByZero);
    assert_eq!(trap.pc, PROGRAM_START + 3);
}

#[test]
fn opcode_bytes_roundtrip() {
    let all = [
        Opcode::Add,
        Opcode::Sub,
        Opcode::Mul,
        Opcode::Div,
        Opcode::Rem,
        Opcode::Clt,
        Opcode::Cge,
        Opcode::Ceq,
        Opcode::Cne,
        Opcode::And,
        Opcode::Or,
        Opcode::Xor,
        Opcode::Call,
        Opcode::Ret,
        Opcode::Jze,
        Opcode::Beq,
        Opcode::Bne,
        Opcode::Blt,
        Opcode::Bge,
        Opcode::LdB,
        Opcode::LdH,
        Opcode::LdW,
        Opcode::LdD,
        Opcode::StB,
        Opcode::StH,
        Opcode::StW,
        Opcode::StD,
        Opcode::LiB,
        Opcode::LiH,
        Opcode::LiW,
        Opcode::LiD,
        Opcode::Mov,
        Opcode::Push,
        Opcode::Pop,
    ];
    for (i, o) in all.iter().enumerate() {
        assert_eq!(opcode_byte(*o) as usize, i);
        assert_eq!(opcode_from_byte(i as u8), Some(*o));
    }
    assert_eq!(opcode_from_byte(34), None);
    assert_eq!(opcode_from_byte(255), None);
}

#[test]
fn size_widths() {
    assert_eq!(Size::Byte.bytes(), 1);
    assert_eq!(Size::Half.bytes(), 2);
    assert_eq!(Size::Word.bytes(), 4);
    assert_eq!(Size::Double.bytes(), 8);
}

#[test]
fn region_boundaries() {
    let code = vec![op(Opcode::Ret), 0, 0];
    let vm = Vm::new(0x100, BcBlob { code });
    assert_eq!(vm.stack_top(), PROGRAM_START + 3 + 1);
    assert_eq!(vm.canary_start(), vm.stack_top() + 0x100 + 1);
    assert_eq!(vm.heap_base(), vm.canary_start() + 1024);
    assert_eq!(vm.reg(15), vm.stack_top() + 0x100);
}

#[test]
fn bne_and_bge_branch_on_unsigned_comparison() {
    let code = prog(&[
        li_b(1, 2),
        li_b(2, 2),
        rir(Opcode::Bne, 1, 2, 3),
        li_b(3, 1),
        rir(Opcode::Bge, 1, 2, 3),
        li_b(4, 1),
        li_b(4, 2),
    ]);
    let mut vm = vm_with(code);
    for _ in 0..6 {
        vm.step();
    }
    // Bne not taken (equal); Bge taken (equal), skipping the first LiB r4.
    assert_eq!(vm.reg(3), 1);
    assert_eq!(vm.reg(4), 2);
}

#[test]
fn stores_truncate_to_their_width() {
    let code = prog(&[
        li_d(2, 0x1122334455667788),
        rir(Opcode::StH, 15, 2, 0xFFF8),
        rir(Opcode::LdD, 3, 15, 0xFFF8),
    ]);
    let mut vm = vm_with(code);
    vm.step();
    vm.step();
    vm.step();
    // only the low half-word was stored; the rest of the slot stays zero
    assert_eq!(vm.reg(3), 0x7788);
}

#[test]
fn immediate_loads_zero_extend_max_values() {
    let code = prog(&[
        li_b(1, 0xFF),
        li_h(2, 0xFFFF),
        li_w(3, 0xFFFF_FFFF),
        li_d(4, u64::MAX),
    ]);
    let mut vm = vm_with(code);
    for _ in 0..4 {
        vm.step();
    }
    assert_eq!(vm.reg(1), 0xFF);
    assert_eq!(vm.reg(2), 0xFFFF);
    assert_eq!(vm.reg(3), 0xFFFF_FFFF);
    assert_eq!(vm.reg(4), u64::MAX);
}

#[test]
fn pop_into_stack_pointer_uses_loaded_value() {
    // Pop into sp: sp ends at the loaded value plus 8.
    let code = prog(&[
        li_b(1, 0),
        vec![op(Opcode::Push), 1],
        vec![op(Opcode::Pop), 15],
    ]);
    let mut vm = vm_with(code);
    vm.step();
    vm.step();
    vm.step();
    assert_eq!(vm.reg(15), 8);
}
