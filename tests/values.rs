use lwvm::block::{BasicBlock, UnsafeBasicBlock};
use lwvm::interpret::{binary, compare, not, BinaryOp};
use lwvm::ops::Operation;
use lwvm::reg::{AsRegister, Register, RegisterMap, RegisterType};
use lwvm::types::{i64_bits, Comparator, IntImmed, IntType, LValue, ZippedIntImmed};

#[test]
fn add_wraps_at_each_width() {
    assert_eq!(binary(BinaryOp::Add, IntImmed::I8(200), IntImmed::I8(100), false), IntImmed::I8(44));
    assert_eq!(
        binary(BinaryOp::Add, IntImmed::I16(0xffff), IntImmed::I16(2), false),
        IntImmed::I16(1)
    );
    assert_eq!(
        binary(BinaryOp::Add, IntImmed::I32(0xffff_fff0), IntImmed::I32(0x20), true),
        IntImmed::I32(0x10)
    );
    assert_eq!(
        binary(BinaryOp::Add, IntImmed::I64(u64::MAX), IntImmed::I64(u64::MAX), false),
        IntImmed::I64(u64::MAX - 1)
    );
}

#[test]
fn sub_wraps_at_each_width() {
    assert_eq!(binary(BinaryOp::Sub, IntImmed::I8(3), IntImmed::I8(5), false), IntImmed::I8(254));
    assert_eq!(binary(BinaryOp::Sub, IntImmed::I16(3), IntImmed::I16(5), true), IntImmed::I16(0xfffe));
    assert_eq!(
        binary(BinaryOp::Sub, IntImmed::I32(0), IntImmed::I32(1), false),
        IntImmed::I32(u32::MAX)
    );
    assert_eq!(binary(BinaryOp::Sub, IntImmed::I64(0), IntImmed::I64(1), true), IntImmed::I64(u64::MAX));
}

#[test]
fn signedness_does_not_change_add_and_sub_results() {
    for (a, b) in [(0u16, 0u16), (1, 0xffff), (0x8000, 0x8000), (1234, 60000)] {
        for op in [BinaryOp::Add, BinaryOp::Sub] {
            assert_eq!(
                binary(op, IntImmed::I16(a), IntImmed::I16(b), true),
                binary(op, IntImmed::I16(a), IntImmed::I16(b), false)
            );
        }
        assert_eq!(
            binary(BinaryOp::Add, IntImmed::I16(a), IntImmed::I16(b), false),
            IntImmed::I16(a.wrapping_add(b))
        );
        assert_eq!(
            binary(BinaryOp::Sub, IntImmed::I16(a), IntImmed::I16(b), false),
            IntImmed::I16(a.wrapping_sub(b))
        );
    }
}

#[test]
fn bool_operands_are_added_as_bytes() {
    assert_eq!(binary(BinaryOp::Add, IntImmed::Bool(true), IntImmed::Bool(true), false), IntImmed::I8(2));
    assert_eq!(binary(BinaryOp::Sub, IntImmed::Bool(false), IntImmed::Bool(true), false), IntImmed::I8(0xff));
}

#[test]
fn mixed_widths_upcast_first() {
    assert_eq!(binary(BinaryOp::Add, IntImmed::I8(0xff), IntImmed::I32(1), true), IntImmed::I32(0));
    assert_eq!(binary(BinaryOp::Add, IntImmed::I8(0xff), IntImmed::I32(1), false), IntImmed::I32(0x100));
    assert_eq!(binary(BinaryOp::Sub, IntImmed::I8(1), IntImmed::I16(3), false), IntImmed::I16(0xfffe));
}

#[test]
fn mult_div_rem() {
    assert_eq!(binary(BinaryOp::Mult, IntImmed::I8(16), IntImmed::I8(17), false), IntImmed::I8(0x10));
    assert_eq!(
        binary(BinaryOp::Mult, IntImmed::I64(u64::MAX), IntImmed::I64(3), true),
        IntImmed::I64(u64::MAX - 2)
    );
    assert_eq!(binary(BinaryOp::Div, IntImmed::I8(0xf9), IntImmed::I8(2), true), IntImmed::I8(0xfd));
    assert_eq!(binary(BinaryOp::Rem, IntImmed::I8(0xf9), IntImmed::I8(2), true), IntImmed::I8(0xff));
    assert_eq!(binary(BinaryOp::Div, IntImmed::I8(7), IntImmed::I8(0xfe), true), IntImmed::I8(0xfd));
    assert_eq!(binary(BinaryOp::Rem, IntImmed::I8(7), IntImmed::I8(0xfe), true), IntImmed::I8(1));
    assert_eq!(binary(BinaryOp::Div, IntImmed::I8(0x80), IntImmed::I8(0xff), true), IntImmed::I8(0x80));
    assert_eq!(
        binary(BinaryOp::Div, IntImmed::I64(1 << 63), IntImmed::I64(u64::MAX), true),
        IntImmed::I64(1 << 63)
    );
    assert_eq!(binary(BinaryOp::Div, IntImmed::I16(1000), IntImmed::I16(7), false), IntImmed::I16(142));
    assert_eq!(binary(BinaryOp::Rem, IntImmed::I16(1000), IntImmed::I16(7), false), IntImmed::I16(6));
}

#[test]
fn bitwise_and_not() {
    assert_eq!(binary(BinaryOp::And, IntImmed::I8(0xf0), IntImmed::I8(0x3c), false), IntImmed::I8(0x30));
    assert_eq!(binary(BinaryOp::Or, IntImmed::I8(0xf0), IntImmed::I8(0x3c), false), IntImmed::I8(0xfc));
    assert_eq!(binary(BinaryOp::Xor, IntImmed::I8(0xf0), IntImmed::I8(0x3c), false), IntImmed::I8(0xcc));
    assert_eq!(not(IntImmed::I16(0x00ff)), IntImmed::I16(0xff00));
    assert_eq!(not(IntImmed::Bool(false)), IntImmed::Bool(true));
}

#[test]
fn comparisons_by_signedness() {
    assert!(compare(Comparator::SLT, IntImmed::I8(0xff), IntImmed::I8(1)));
    assert!(!compare(Comparator::ULT, IntImmed::I8(0xff), IntImmed::I8(1)));
    assert!(compare(Comparator::UGT, IntImmed::I8(0xff), IntImmed::I8(1)));
    assert!(!compare(Comparator::SGT, IntImmed::I8(0xff), IntImmed::I8(1)));
    assert!(compare(Comparator::EQ, IntImmed::I8(5), IntImmed::I32(5)));
    assert!(compare(Comparator::NEQ, IntImmed::I8(5), IntImmed::I32(6)));
    assert!(compare(Comparator::SLT, IntImmed::I8(0x80), IntImmed::I64(0)));
}

#[test]
fn flattening_to_64_bits() {
    assert_eq!(IntImmed::I8(0xff).to_u64(), 0xff);
    assert_eq!(IntImmed::I8(0xff).to_i64(), -1);
    assert_eq!(IntImmed::I16(0x8000).to_i64(), -32768);
    assert_eq!(IntImmed::I32(0x7fff_ffff).to_i64(), 0x7fff_ffff);
    assert_eq!(IntImmed::I64(u64::MAX).to_i64(), -1);
    assert_eq!(IntImmed::I64(1 << 63).to_i64(), i64::MIN);
    assert_eq!(IntImmed::Bool(true).to_u64(), 1);
    assert_eq!(IntImmed::Bool(true).to_i64(), 1);
    assert_eq!(IntImmed::I8(0x80).to_bits64(true), 0xffff_ffff_ffff_ff80);
    assert_eq!(IntImmed::I8(0x80).to_bits64(false), 0x80);
    assert_eq!(i64_bits(-2), u64::MAX - 1);
    assert_eq!(i64_bits(i64::MIN), 1 << 63);
}

#[test]
fn sizes_and_types() {
    assert_eq!(IntImmed::Bool(false).size(), 1);
    assert_eq!(IntImmed::I8(0).size(), 8);
    assert_eq!(IntImmed::I16(0).size(), 16);
    assert_eq!(IntImmed::I32(0).size(), 32);
    assert_eq!(IntImmed::I64(0).size(), 64);
    assert_eq!(IntImmed::I32(0).get_type(), IntType::I32);
    assert_eq!(IntImmed::I16(9).maybe_u16(), Some(9));
    assert_eq!(IntImmed::I16(9).maybe_u8(), None);
    assert_eq!(IntImmed::Bool(true).maybe_bool(), Some(true));
    assert_eq!(IntImmed::I32(3).maybe_u32(), Some(3));
    assert_eq!(IntImmed::I64(4).maybe_u64(), Some(4));
}

#[test]
fn casts_truncate_and_extend() {
    assert_eq!(IntImmed::I16(0x1234).cast(IntType::I8, false), IntImmed::I8(0x34));
    assert_eq!(IntImmed::I16(0x1234).cast(IntType::I8, true), IntImmed::I8(0x34));
    assert_eq!(IntImmed::I8(0x80).cast(IntType::I32, true), IntImmed::I32(0xffff_ff80));
    assert_eq!(IntImmed::I8(0x80).cast(IntType::I32, false), IntImmed::I32(0x80));
    assert_eq!(IntImmed::I16(0x100).cast(IntType::Bool, false), IntImmed::Bool(true));
    assert_eq!(IntImmed::I16(0).cast(IntType::Bool, true), IntImmed::Bool(false));
    assert_eq!(IntImmed::Bool(true).cast(IntType::I64, true), IntImmed::I64(1));
    assert_eq!(IntType::I8.from_i64(-1), IntImmed::I8(0xff));
    assert_eq!(IntType::I16.from_u64(0x12345), IntImmed::I16(0x2345));
}

#[test]
fn upcast_widens_the_narrower_and_keeps_order() {
    let (a, b) = IntImmed::upcast(&IntImmed::I8(0xff), &IntImmed::I32(1), true);
    assert_eq!((a, b), (IntImmed::I32(0xffff_ffff), IntImmed::I32(1)));
    let (a, b) = IntImmed::upcast(&IntImmed::I32(1), &IntImmed::I8(0xff), false);
    assert_eq!((a, b), (IntImmed::I32(1), IntImmed::I32(0xff)));
    let (a, b) = IntImmed::upcast(&IntImmed::I16(2), &IntImmed::I16(3), true);
    assert_eq!((a, b), (IntImmed::I16(2), IntImmed::I16(3)));
    assert_eq!(
        IntImmed::upcast(&IntImmed::I8(1), &IntImmed::I64(2), true).0.get_type(),
        IntImmed::upcast(&IntImmed::I64(2), &IntImmed::I8(1), true).0.get_type()
    );
    assert_eq!(
        IntImmed::upcast_zip(&IntImmed::I8(0x80), &IntImmed::I16(1), true),
        ZippedIntImmed::I16(0xff80, 1)
    );
}

#[test]
fn widening_and_narrowing_round_trips() {
    for v in [0u8, 1, 0x7f, 0x80, 0xff] {
        for signed in [false, true] {
            for wide in [IntType::I8, IntType::I16, IntType::I32, IntType::I64] {
                let x = IntImmed::I8(v);
                assert_eq!(x.cast(wide, signed).cast(IntType::I8, signed), x);
            }
        }
    }
}

#[test]
fn builder_records_operations_and_terminates() {
    let mut b = BasicBlock::builder();
    b.add(LValue::Register(0), IntImmed::I8(1).into(), IntImmed::I8(2).into(), false);
    b.shift_left(LValue::Register(1), IntImmed::I8(1).into(), IntImmed::I8(2).into());
    b.shift_right(LValue::Register(1), IntImmed::I8(1).into(), IntImmed::I8(2).into(), true);
    b.guest_mem_write(IntImmed::I64(0).into(), IntImmed::I8(2).into(), 1);
    let block = b.finish_exit(3);
    assert!(block.validate());
    let ops = block.to_vec();
    assert_eq!(ops.len(), 5);
    assert!(matches!(ops[0], Operation::Add(LValue::Register(0), _, _, false)));
    assert!(matches!(ops[4], Operation::Exit(3)));
    let copy = block.clone();
    assert_eq!(copy.to_vec().len(), 5);
}

#[test]
fn empty_builder_finishes_into_a_terminated_block() {
    let block = BasicBlock::builder().finish_branch(
        IntImmed::I8(0).into(),
        String::from("x"),
        String::from("y"),
    );
    assert!(block.validate());
    assert_eq!(block.to_vec().len(), 1);
    assert!(block.to_vec()[0].terminates());
}

#[test]
fn unsafe_builder_adds_host_memory_operations() {
    let mut u = UnsafeBasicBlock::from_builder(BasicBlock::builder());
    u.host_mem_read(LValue::Register(0), IntImmed::I64(0x10).into());
    u.host_mem_write(IntImmed::I64(0x10).into(), IntImmed::I8(1).into());
    let block = u.into_builder().finish_exit(0);
    let ops = block.to_vec();
    assert!(matches!(ops[0], Operation::HostReadMem(LValue::Register(0), _)));
    assert!(matches!(ops[1], Operation::HostWriteMem(_, _)));
}

#[test]
fn array_register_tables() {
    let regs = <[u32; 3] as RegisterMap>::register_offsets();
    assert_eq!(
        regs,
        vec![
            Register { offset: 0, ty: RegisterType::I32 },
            Register { offset: 4, ty: RegisterType::I32 },
            Register { offset: 8, ty: RegisterType::I32 },
        ]
    );
    assert_eq!(<u8 as AsRegister>::to_reg_type(), RegisterType::I8);
}

#[test]
fn register_overlay_is_little_endian() {
    let mut state = [0u64; 2];
    let r = Register { offset: 4, ty: RegisterType::I16 };
    assert!(r.write(0xabcd_1234, &mut state));
    assert_eq!(state, [0x1234u64 << 32, 0]);
    assert_eq!(r.read(&state), Some(IntImmed::I16(0x1234)));
    let wide = Register { offset: 8, ty: RegisterType::I64 };
    assert!(wide.write(u64::MAX, &mut state));
    assert_eq!(state[1], u64::MAX);
    assert_eq!(wide.read(&state), Some(IntImmed::I64(u64::MAX)));
    let outside = Register { offset: 12, ty: RegisterType::I64 };
    assert_eq!(outside.read(&state), None);
    assert!(!outside.write(1, &mut state));
    assert_eq!(state[1], u64::MAX);
}

#[test]
fn byte_view_of_arrays() {
    let mut state = [0x0102u16, 0x0304];
    assert!(state.has_byte(3));
    assert!(!state.has_byte(4));
    assert_eq!(state.read_byte(0), 0x02);
    assert_eq!(state.read_byte(3), 0x03);
    state.write_byte(1, 0xaa);
    assert_eq!(state, [0xaa02, 0x0304]);
    assert_eq!(<u64 as AsRegister>::set_byte(0, 7, 0x80), 0x8000_0000_0000_0000);
    assert_eq!(<u32 as AsRegister>::get_byte(0x1122_3344, 2), 0x22);
}

#[test]
fn truncating_to_a_register_type() {
    let r = Register { offset: 0, ty: RegisterType::I8 };
    assert_eq!(r.trunc_to_type(IntImmed::I32(0x1ff)), IntImmed::I8(0xff));
    let r = Register { offset: 0, ty: RegisterType::I64 };
    assert_eq!(r.trunc_to_type(IntImmed::I8(0x80)), IntImmed::I64(0x80));
}

#[test]
fn shifts_within_width() {
    assert_eq!(binary(BinaryOp::LShift, IntImmed::I8(0x81), IntImmed::I8(1), false), IntImmed::I8(0x02));
    assert_eq!(
        binary(BinaryOp::LShift, IntImmed::I64(0xffff_0000_0000_0001), IntImmed::I8(16), false),
        IntImmed::I64(0x0000_0000_0001_0000)
    );
    assert_eq!(binary(BinaryOp::RShift, IntImmed::I8(0x80), IntImmed::I8(3), false), IntImmed::I8(0x10));
    assert_eq!(binary(BinaryOp::RShift, IntImmed::I8(0x80), IntImmed::I8(3), true), IntImmed::I8(0xf0));
    assert_eq!(binary(BinaryOp::RShift, IntImmed::I16(0x7000), IntImmed::I8(4), true), IntImmed::I16(0x0700));
    assert_eq!(
        binary(BinaryOp::RShift, IntImmed::I64(u64::MAX - 6), IntImmed::I64(1), true),
        IntImmed::I64(u64::MAX - 3)
    );
}

#[test]
fn shifts_by_width_or_more() {
    assert_eq!(binary(BinaryOp::LShift, IntImmed::I8(0xff), IntImmed::I8(8), false), IntImmed::I8(0));
    assert_eq!(binary(BinaryOp::LShift, IntImmed::I32(1), IntImmed::I32(200), false), IntImmed::I32(0));
    assert_eq!(binary(BinaryOp::RShift, IntImmed::I16(0xffff), IntImmed::I8(16), false), IntImmed::I16(0));
    assert_eq!(binary(BinaryOp::RShift, IntImmed::I16(0x8000), IntImmed::I8(40), true), IntImmed::I16(0xffff));
    assert_eq!(binary(BinaryOp::RShift, IntImmed::I16(0x7fff), IntImmed::I8(16), true), IntImmed::I16(0));
    assert_eq!(binary(BinaryOp::LShift, IntImmed::I64(3), IntImmed::I64(64), false), IntImmed::I64(0));
}
