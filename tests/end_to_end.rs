use lwvm::backend::PlatformDefaultBackend;
use lwvm::block::BasicBlock;
use lwvm::context::{ExecError, ExecutionContext};
use lwvm::interpret::{ExecFault, InterpreterBackend, InterpreterExecutable};
use lwvm::reg::RegisterMap;
use lwvm::types::{Comparator, IntImmed, LValue, RValue};
use lwvm::unit::{TranslationUnit, UnitError};

fn single_block_unit(block: BasicBlock) -> TranslationUnit {
    let mut unit = TranslationUnit::default();
    unit.add_basic_block(String::from("main"), block).unwrap();
    unit.set_entry(String::from("main")).unwrap();
    unit
}

fn run_on_registers(unit: TranslationUnit) -> ([u64; 10], Result<(), ExecError>) {
    let mut ctx: ExecutionContext<InterpreterBackend> = ExecutionContext::default();
    let mut tb = ctx.compile::<[u64; 10]>(Box::new(unit)).unwrap();
    let mut state = [0u64; 10];
    let r = tb.execute(&mut ctx, &mut state);
    (state, r)
}

#[test]
fn lib_it_works() {
    let mut block = BasicBlock::builder();
    block.add(
        LValue::Register(0),
        IntImmed::I16(-3 as i16 as u16).into(),
        IntImmed::I16(-4 as i16 as u16).into(),
        true,
    );
    let block = block.finish_exit(10);

    let mut unit = TranslationUnit::default();
    unit.add_basic_block(String::from("main"), block).unwrap();
    unit.set_entry(String::from("main")).unwrap();

    let mut ctx: ExecutionContext<InterpreterBackend> = ExecutionContext::default();
    let mut tb = ctx.compile(Box::new(unit)).unwrap();

    let mut state = [0u64; 10];
    tb.execute(&mut ctx, &mut state).unwrap();

    assert_eq!(state[0], -7 as i16 as u64);
}

#[test]
fn add_three_and_four() {
    let mut block = BasicBlock::builder();
    block.add(LValue::Register(0), IntImmed::I16(3).into(), IntImmed::I16(4).into(), true);
    let (state, r) = run_on_registers(single_block_unit(block.finish_exit(10)));
    assert!(r.is_ok());
    assert_eq!(state[0], 7);
    assert_eq!(&state[1..], &[0u64; 9]);
}

#[test]
fn signed_wraparound_is_sign_extended() {
    let mut block = BasicBlock::builder();
    block.add(
        LValue::Register(0),
        IntImmed::I16(-3i16 as u16).into(),
        IntImmed::I16(-4i16 as u16).into(),
        true,
    );
    let (state, r) = run_on_registers(single_block_unit(block.finish_exit(10)));
    assert!(r.is_ok());
    assert_eq!(state[0], (-7i64) as u64);
}

#[test]
fn unsigned_result_is_zero_extended() {
    let mut block = BasicBlock::builder();
    block.add(
        LValue::Register(0),
        IntImmed::I16(-3i16 as u16).into(),
        IntImmed::I16(-4i16 as u16).into(),
        false,
    );
    let (state, _) = run_on_registers(single_block_unit(block.finish_exit(0)));
    assert_eq!(state[0], 0xfff9);
}

fn branching_unit(lhs: u64, rhs: u64) -> TranslationUnit {
    let mut main = BasicBlock::builder();
    main.int_cmp(
        LValue::Register(0),
        Comparator::ULT,
        IntImmed::I64(lhs).into(),
        IntImmed::I64(rhs).into(),
    );
    let main = main.finish_branch(LValue::Register(0).into(), String::from("a"), String::from("b"));
    let mut a = BasicBlock::builder();
    a.add(LValue::Register(1), IntImmed::I64(100).into(), IntImmed::I64(0).into(), false);
    let a = a.finish_exit(1);
    let mut b = BasicBlock::builder();
    b.add(LValue::Register(1), IntImmed::I64(200).into(), IntImmed::I64(0).into(), false);
    let b = b.finish_exit(2);

    let mut unit = TranslationUnit::default();
    unit.add_basic_block(String::from("main"), main).unwrap();
    unit.add_basic_block(String::from("a"), a).unwrap();
    unit.add_basic_block(String::from("b"), b).unwrap();
    unit.set_entry(String::from("main")).unwrap();
    unit
}

#[test]
fn branch_taken_when_comparison_holds() {
    let (state, r) = run_on_registers(branching_unit(3, 5));
    assert!(r.is_ok());
    assert_eq!(state[0], 1);
    assert_eq!(state[1], 100);
}

#[test]
fn branch_not_taken_when_comparison_fails() {
    let (state, r) = run_on_registers(branching_unit(5, 3));
    assert!(r.is_ok());
    assert_eq!(state[0], 0);
    assert_eq!(state[1], 200);
}

#[test]
fn loop_counts_down_through_branches() {
    // head: r1 = r1 + 1; r2 = (r1 < 5); branch r2 ? head : done
    let mut head = BasicBlock::builder();
    head.add(LValue::Register(1), LValue::Register(1).into(), IntImmed::I64(1).into(), false);
    head.int_cmp(
        LValue::Register(2),
        Comparator::ULT,
        LValue::Register(1).into(),
        IntImmed::I64(5).into(),
    );
    let head = head.finish_branch(LValue::Register(2).into(), String::from("head"), String::from("done"));
    let done = BasicBlock::builder().finish_exit(0);
    let mut unit = TranslationUnit::default();
    unit.add_basic_block(String::from("head"), head).unwrap();
    unit.add_basic_block(String::from("done"), done).unwrap();
    unit.set_entry(String::from("head")).unwrap();
    let (state, r) = run_on_registers(unit);
    assert!(r.is_ok());
    assert_eq!(state[1], 5);
    assert_eq!(state[2], 0);
}

#[test]
fn recompiles_after_artifact_is_dropped() {
    let mut block = BasicBlock::builder();
    block.add(LValue::Register(3), LValue::Register(3).into(), IntImmed::I32(9).into(), false);
    let unit = single_block_unit(block.finish_exit(0));
    let mut ctx: ExecutionContext<InterpreterBackend> = ExecutionContext::default();
    let mut tb = ctx.compile::<[u64; 10]>(Box::new(unit)).unwrap();
    // No strong reference to the artifact outlives `compile`.
    let mut first = [0u64; 10];
    tb.execute(&mut ctx, &mut first).unwrap();
    let mut second = [0u64; 10];
    tb.execute(&mut ctx, &mut second).unwrap();
    assert_eq!(first, second);
    assert_eq!(first[3], 9);
    tb.execute(&mut ctx, &mut second).unwrap();
    assert_eq!(second[3], 18);
}

#[test]
fn signed_division_truncates_toward_zero() {
    let mut block = BasicBlock::builder();
    block.div(LValue::Register(0), IntImmed::I8(-7i8 as u8).into(), IntImmed::I8(2).into(), true);
    block.rem(LValue::Register(1), IntImmed::I8(-7i8 as u8).into(), IntImmed::I8(2).into(), true);
    block.div(LValue::Register(2), IntImmed::I8(0xf9).into(), IntImmed::I8(2).into(), false);
    let (state, r) = run_on_registers(single_block_unit(block.finish_exit(0)));
    assert!(r.is_ok());
    assert_eq!(state[0], (-3i64) as u64);
    assert_eq!(state[1], (-1i64) as u64);
    assert_eq!(state[2], 0x7c);
}

#[test]
fn unknown_register_faults() {
    let mut block = BasicBlock::builder();
    block.add(LValue::Register(10), IntImmed::I64(1).into(), IntImmed::I64(2).into(), false);
    let (_, r) = run_on_registers(single_block_unit(block.finish_exit(0)));
    assert!(matches!(r, Err(ExecError::Fault(ExecFault::UnknownRegister))));
}

#[test]
fn guest_memory_is_unsupported() {
    let mut block = BasicBlock::builder();
    block.guest_mem_read(LValue::Register(0), IntImmed::I64(0x1000).into(), 4);
    let (_, r) = run_on_registers(single_block_unit(block.finish_exit(0)));
    assert!(matches!(r, Err(ExecError::Fault(ExecFault::UnsupportedOperation))));
}

#[test]
fn branch_to_missing_label_faults() {
    let block = BasicBlock::builder().finish_branch(
        IntImmed::Bool(true).into(),
        String::from("nowhere"),
        String::from("main"),
    );
    let (_, r) = run_on_registers(single_block_unit(block));
    assert!(matches!(r, Err(ExecError::Fault(ExecFault::UnknownLabel))));
}

#[test]
fn run_stops_at_block_limit() {
    let block = BasicBlock::builder().finish_branch(
        IntImmed::I8(1).into(),
        String::from("main"),
        String::from("main"),
    );
    let unit = single_block_unit(block);
    let exec = InterpreterExecutable::new(unit, <[u64; 10] as RegisterMap>::register_offsets());
    let mut state = [0u64; 10];
    assert_eq!(exec.run(&mut state, 3), Err(ExecFault::StepLimit));
}

#[test]
fn set_entry_unknown_label_keeps_entry() {
    let mut unit = TranslationUnit::default();
    unit.add_basic_block(String::from("main"), BasicBlock::builder().finish_exit(0)).unwrap();
    let r = unit.set_entry(String::from("other"));
    match r {
        Err(UnitError::UnknownLabel(l)) => assert_eq!(l, "other"),
        _ => panic!("expected an unknown label"),
    }
    assert_eq!(unit.entrypoint(), None);
    unit.set_entry(String::from("main")).unwrap();
    assert_eq!(unit.entrypoint(), Some(0));
    assert!(unit.set_entry(String::from("missing")).is_err());
    assert_eq!(unit.entrypoint(), Some(0));
}

#[test]
fn readding_a_label_names_the_new_block() {
    let mut first = BasicBlock::builder();
    first.add(LValue::Register(0), IntImmed::I64(1).into(), IntImmed::I64(0).into(), false);
    let mut second = BasicBlock::builder();
    second.add(LValue::Register(0), IntImmed::I64(2).into(), IntImmed::I64(0).into(), false);
    let mut unit = TranslationUnit::default();
    unit.add_basic_block(String::from("main"), first.finish_exit(0)).unwrap();
    unit.add_basic_block(String::from("main"), second.finish_exit(0)).unwrap();
    assert_eq!(unit.num_blocks(), 2);
    assert_eq!(unit.lookup(&String::from("main")), Some(1));
    unit.set_entry(String::from("main")).unwrap();
    let (state, r) = run_on_registers(unit);
    assert!(r.is_ok());
    assert_eq!(state[0], 2);
}

#[test]
fn platform_backend_refuses_to_compile() {
    let unit = single_block_unit(BasicBlock::builder().finish_exit(0));
    let mut ctx: ExecutionContext<PlatformDefaultBackend> = ExecutionContext::default();
    match ctx.compile::<[u64; 10]>(Box::new(unit)) {
        Err(msg) => assert_eq!(msg, "No platform backend available"),
        Ok(_) => panic!("expected a refusal"),
    }
}

#[test]
fn select_picks_by_condition() {
    let mut block = BasicBlock::builder();
    block.select(IntImmed::I8(0).into(), LValue::Register(0), IntImmed::I64(11).into(), IntImmed::I64(22).into());
    block.select(IntImmed::I8(3).into(), LValue::Register(1), IntImmed::I64(11).into(), IntImmed::I64(22).into());
    let (state, r) = run_on_registers(single_block_unit(block.finish_exit(0)));
    assert!(r.is_ok());
    assert_eq!(state[0], 22);
    assert_eq!(state[1], 11);
}

#[test]
fn extensions_and_bitwise_ops() {
    let mut block = BasicBlock::builder();
    block.sign_extend(LValue::Register(0), IntImmed::I8(0x80).into(), lwvm::types::IntType::I16);
    block.zero_extend(LValue::Register(1), IntImmed::I8(0x80).into(), lwvm::types::IntType::I16);
    block.and(LValue::Register(2), IntImmed::I16(0x0ff0).into(), IntImmed::I16(0x00ff).into());
    block.or(LValue::Register(3), IntImmed::I16(0x0f00).into(), IntImmed::I16(0x00f0).into());
    block.xor(LValue::Register(4), IntImmed::I16(0x0ff0).into(), IntImmed::I16(0x00ff).into());
    block.not(LValue::Register(5), IntImmed::I8(0x0f).into());
    block.mult(LValue::Register(6), IntImmed::I8(16).into(), IntImmed::I8(17).into(), false);
    block.sub(LValue::Register(7), IntImmed::I8(1).into(), IntImmed::I16(3).into(), false);
    let (state, r) = run_on_registers(single_block_unit(block.finish_exit(0)));
    assert!(r.is_ok());
    assert_eq!(state[0], 0xffff_ffff_ffff_ff80);
    assert_eq!(state[1], 0x80);
    assert_eq!(state[2], 0x00f0);
    assert_eq!(state[3], 0x0ff0);
    assert_eq!(state[4], 0x0f0f);
    assert_eq!(state[5], 0xf0);
    assert_eq!(state[6], 0x10);
    assert_eq!(state[7], 0xfffe);
}

#[test]
fn narrow_registers_truncate_on_store() {
    let mut block = BasicBlock::builder();
    block.add(LValue::Register(0), IntImmed::I32(0x1234).into(), IntImmed::I32(0).into(), false);
    block.add(LValue::Register(1), LValue::Register(0).into(), IntImmed::I8(1).into(), false);
    let unit = single_block_unit(block.finish_exit(0));
    let mut ctx: ExecutionContext<InterpreterBackend> = ExecutionContext::default();
    let mut tb = ctx.compile::<[u8; 4]>(Box::new(unit)).unwrap();
    let mut state = [0u8; 4];
    tb.execute(&mut ctx, &mut state).unwrap();
    assert_eq!(state, [0x34, 0x35, 0, 0]);
}

#[test]
fn register_operand_reads_state() {
    let mut block = BasicBlock::builder();
    block.add(LValue::Register(2), LValue::Register(0).into(), LValue::Register(1).into(), false);
    let unit = single_block_unit(block.finish_exit(0));
    let mut ctx: ExecutionContext<InterpreterBackend> = ExecutionContext::default();
    let mut tb = ctx.compile::<[u16; 3]>(Box::new(unit)).unwrap();
    let mut state = [0xfffeu16, 5, 0];
    tb.execute(&mut ctx, &mut state).unwrap();
    assert_eq!(state, [0xfffe, 5, 3]);
}

#[test]
fn rvalue_from_conversions() {
    let r: RValue<IntImmed> = LValue::Register(3).into();
    assert!(matches!(r, RValue::LValue(LValue::Register(3))));
    let r: RValue<IntImmed> = IntImmed::I8(4).into();
    assert!(matches!(r, RValue::Immediate(IntImmed::I8(4))));
    let i: IntImmed = 7u32.into();
    assert_eq!(i, IntImmed::I32(7));
}

#[test]
fn shifts_in_a_block() {
    let mut block = BasicBlock::builder();
    block.shift_left(LValue::Register(0), IntImmed::I16(0x0101).into(), IntImmed::I8(4).into());
    block.shift_right(LValue::Register(1), IntImmed::I8(0x90).into(), IntImmed::I8(2).into(), true);
    block.shift_right(LValue::Register(2), IntImmed::I8(0x90).into(), IntImmed::I8(2).into(), false);
    let (state, r) = run_on_registers(single_block_unit(block.finish_exit(0)));
    assert!(r.is_ok());
    assert_eq!(state[0], 0x1010);
    assert_eq!(state[1], 0xffff_ffff_ffff_ffe4);
    assert_eq!(state[2], 0x24);
}
