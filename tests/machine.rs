use dog_vm::{DogCompileError, DogEvent, DogInst, DogRegs, DogRuntimeError, DogVm};

const DOG: &str = "\u{1F415}";
const PUPPY: &str = "\u{1F436}";
const CAT: &str = "\u{1F431}";

fn line(op: &str, k: usize) -> String {
    format!("{}{}{}", op, CAT, DOG.repeat(k))
}

fn vm_with(insts: Vec<DogInst>) -> DogVm {
    let mut vm = DogVm::new();
    vm.insts = insts;
    vm
}

fn regs(vm: &DogVm) -> [u64; 6] {
    let r = &vm.regs;
    [r.srg, r.r1, r.r2, r.r3, r.r4, r.r5]
}

#[test]
fn registers_start_at_zero() {
    let r = DogRegs::new();
    assert_eq!([r.srg, r.r1, r.r2, r.r3, r.r4, r.r5, r.pc], [0; 7]);
    let vm = DogVm::new();
    assert!(vm.stack.is_empty());
    assert!(vm.insts.is_empty());
}

#[test]
fn mov_copies_between_registers() {
    let mut r = DogRegs::new();
    r.r2 = 42;
    assert_eq!(r.mov(2, 0), Ok(()));
    assert_eq!(r.srg, 42);
    assert_eq!(r.mov(0, 5), Ok(()));
    assert_eq!(r.r5, 42);
    assert_eq!(r.get(5), Ok(42));
    assert_eq!(r.r2, 42);
}

#[test]
fn mov_rejects_bad_ids() {
    let mut r = DogRegs::new();
    r.r1 = 7;
    assert_eq!(r.mov(6, 1), Err(DogRuntimeError::InvalidRegisterError(6)));
    assert_eq!(r.mov(1, 256), Err(DogRuntimeError::InvalidRegisterError(256)));
    assert_eq!(r.mov(9, 256), Err(DogRuntimeError::InvalidRegisterError(9)));
    assert_eq!(r.r1, 7);
    assert_eq!(r.get(6), Err(DogRuntimeError::InvalidRegisterError(6)));
}

#[test]
fn push_then_pop_one() {
    let mut vm = vm_with(vec![DogInst::Push(9), DogInst::Pop(1)]);
    vm.stack = vec![4, 5];
    assert_eq!(vm.run(2), Ok(DogEvent::Continue));
    assert_eq!(vm.regs.srg, 9);
    assert_eq!(vm.stack, vec![4, 5]);
    assert_eq!(vm.regs.pc, 2);
}

#[test]
fn pop_needs_enough_values() {
    let mut vm = vm_with(vec![DogInst::Pop(3)]);
    vm.stack = vec![1, 2];
    assert_eq!(vm.step(), Err(DogRuntimeError::EmptyStackError()));
    assert_eq!(vm.stack, vec![1, 2]);

    let mut vm = vm_with(vec![DogInst::Pop(2)]);
    vm.stack = vec![1, 2, 3];
    assert_eq!(vm.step(), Ok(DogEvent::Continue));
    assert_eq!(vm.stack, vec![1]);
    assert_eq!(vm.regs.srg, 2);
}

#[test]
fn pop_zero_changes_nothing_but_pc() {
    let mut vm = vm_with(vec![DogInst::Pop(0)]);
    vm.regs.srg = 11;
    vm.stack = vec![1];
    assert_eq!(vm.step(), Ok(DogEvent::Continue));
    assert_eq!(vm.regs.srg, 11);
    assert_eq!(vm.stack, vec![1]);
    assert_eq!(vm.regs.pc, 1);
}

#[test]
fn add_pushes_r1_plus_operand() {
    let mut vm = vm_with(vec![DogInst::Add(5)]);
    vm.regs.r1 = 10;
    assert_eq!(vm.step(), Ok(DogEvent::Continue));
    assert_eq!(vm.stack, vec![15]);
    assert_eq!(vm.regs.r1, 10);

    let mut vm = vm_with(vec![DogInst::Add(2)]);
    vm.regs.r1 = u64::MAX;
    assert_eq!(vm.step(), Ok(DogEvent::Continue));
    assert_eq!(vm.stack, vec![1]);
}

#[test]
fn mul_pushes_product_and_wraps() {
    let mut vm = vm_with(vec![DogInst::Mul(6)]);
    vm.regs.r1 = 7;
    assert_eq!(vm.step(), Ok(DogEvent::Continue));
    assert_eq!(vm.stack, vec![42]);

    let mut vm = vm_with(vec![DogInst::Mul(2)]);
    vm.regs.r1 = 1 << 63;
    assert_eq!(vm.step(), Ok(DogEvent::Continue));
    assert_eq!(vm.stack, vec![0]);
}

#[test]
fn mul_with_a_zero_pushes_zero() {
    let mut vm = vm_with(vec![DogInst::Mul(5)]);
    assert_eq!(vm.step(), Ok(DogEvent::Continue));
    assert_eq!(vm.stack, vec![0]);

    let mut vm = vm_with(vec![DogInst::Mul(0)]);
    vm.regs.r1 = 99;
    assert_eq!(vm.step(), Ok(DogEvent::Continue));
    assert_eq!(vm.stack, vec![0]);
}

#[test]
fn jump_lands_on_target() {
    let mut vm = vm_with(vec![
        DogInst::Jmp(3),
        DogInst::Push(1),
        DogInst::Push(2),
        DogInst::Push(3),
    ]);
    assert_eq!(vm.step(), Ok(DogEvent::Continue));
    assert_eq!(vm.regs.pc, 3);
    assert_eq!(vm.step(), Ok(DogEvent::Continue));
    assert_eq!(vm.stack, vec![3]);
}

#[test]
fn jump_to_zero_and_out_of_range() {
    let mut vm = vm_with(vec![DogInst::Push(1), DogInst::Jmp(0)]);
    assert_eq!(vm.run(5), Ok(DogEvent::Continue));
    assert_eq!(vm.stack, vec![1, 1, 1]);
    assert_eq!(vm.regs.pc, 1);

    let mut vm = vm_with(vec![DogInst::Jmp(7)]);
    assert_eq!(vm.step(), Ok(DogEvent::Continue));
    assert_eq!(vm.regs.pc, 7);
    assert_eq!(vm.step(), Err(DogRuntimeError::InvalidPcError(7)));
}

#[test]
fn move_instruction_copies_source() {
    let mut vm = vm_with(vec![DogInst::Mov(3, 1)]);
    vm.regs.r3 = 123;
    assert_eq!(vm.step(), Ok(DogEvent::Continue));
    assert_eq!(regs(&vm), [0, 123, 0, 123, 0, 0]);

    let mut vm = vm_with(vec![DogInst::Mov(6, 0)]);
    assert_eq!(vm.step(), Err(DogRuntimeError::InvalidRegisterError(6)));
}

#[test]
fn print_pops_low_bytes() {
    let mut vm = vm_with(vec![DogInst::Print(2)]);
    vm.stack = vec![0x100 + b'i' as u64, b'H' as u64];
    assert_eq!(vm.step(), Ok(DogEvent::Output("Hi".to_string())));
    assert!(vm.stack.is_empty());
    assert_eq!(vm.regs.srg, 0x100 + b'i' as u64);
    assert_eq!(vm.regs.pc, 1);
}

#[test]
fn print_rejects_invalid_text() {
    let mut vm = vm_with(vec![DogInst::Print(1)]);
    vm.stack = vec![0xFF];
    assert_eq!(vm.step(), Err(DogRuntimeError::InvalidTextError()));

    let mut vm = vm_with(vec![DogInst::Print(2)]);
    vm.stack = vec![1];
    assert_eq!(vm.step(), Err(DogRuntimeError::EmptyStackError()));
}

#[test]
fn input_and_invalid_fault() {
    let mut vm = vm_with(vec![DogInst::Push(0), DogInst::Input(1)]);
    assert_eq!(vm.run(2), Err(DogRuntimeError::UnsupportedInstruction(1)));

    let mut vm = vm_with(vec![DogInst::Push(0), DogInst::Invalid]);
    assert_eq!(vm.run(2), Err(DogRuntimeError::InvalidInstruction(1)));
}

#[test]
fn empty_program_faults_on_fetch() {
    let mut vm = DogVm::new();
    assert_eq!(vm.run(1), Err(DogRuntimeError::InvalidPcError(0)));
}

#[test]
fn run_with_no_steps_does_nothing() {
    let mut vm = vm_with(vec![DogInst::Push(1)]);
    assert_eq!(vm.run(0), Ok(DogEvent::Continue));
    assert!(vm.stack.is_empty());
}

#[test]
fn program_push_three_then_print_three() {
    let prog = [line(DOG, 3), line(&PUPPY.repeat(3), 3)].join("\n");
    let mut vm = DogVm::new();
    assert_eq!(vm.load(prog), Ok(()));
    assert_eq!(vm.insts, vec![DogInst::Push(3), DogInst::Print(3)]);
    assert_eq!(vm.run(10), Err(DogRuntimeError::EmptyStackError()));
}

#[test]
fn program_push_three_then_print_one() {
    let prog = [line(DOG, 3), line(&PUPPY.repeat(3), 1)].join("\n");
    let mut vm = DogVm::new();
    assert_eq!(vm.load(prog), Ok(()));
    assert_eq!(vm.run(10), Ok(DogEvent::Output("\u{3}".to_string())));
    assert_eq!(vm.regs.srg, 3);
}

#[test]
fn program_with_bad_first_line_does_not_load() {
    let prog = [format!("{DOG}{DOG}{DOG}"), line(DOG, 1)].join("\n");
    let mut vm = DogVm::new();
    assert_eq!(
        vm.load(prog),
        Err(DogCompileError::InvalidLine(format!("{DOG}{DOG}{DOG}")))
    );
    assert!(vm.insts.is_empty());
    assert_eq!(vm.run(1), Err(DogRuntimeError::InvalidPcError(0)));
}

#[test]
fn program_exit_only() {
    let mut vm = DogVm::new();
    assert_eq!(vm.load(line(&DOG.repeat(10), 0)), Ok(()));
    assert_eq!(vm.run(10), Ok(DogEvent::Exit));
    assert!(vm.stack.is_empty());
    assert_eq!(vm.regs.pc, 0);
}

#[test]
fn run_one_push_then_pop_restores_stack() {
    let mut vm = DogVm::new();
    vm.stack = vec![8];
    vm.regs.r3 = 5;
    assert_eq!(vm.run_one(DogInst::Push(21)), Ok(DogEvent::Continue));
    assert_eq!(vm.run_one(DogInst::Pop(1)), Ok(DogEvent::Continue));
    assert_eq!(vm.regs.srg, 21);
    assert_eq!(vm.stack, vec![8]);
    assert_eq!(regs(&vm), [21, 0, 0, 5, 0, 0]);
    assert_eq!(vm.regs.pc, 2);
}

#[test]
fn run_one_jump_sets_pc_and_keeps_state() {
    let mut vm = DogVm::new();
    vm.regs.pc = 9;
    vm.stack = vec![1, 2];
    assert_eq!(vm.run_one(DogInst::Jmp(0)), Ok(DogEvent::Continue));
    assert_eq!(vm.regs.pc, 0);
    assert_eq!(vm.stack, vec![1, 2]);
    assert_eq!(regs(&vm), [0; 6]);
}

#[test]
fn loaded_jump_skips_ahead() {
    let jump = format!("{PUPPY}{PUPPY}{PUPPY}{PUPPY}{DOG}");
    let prog = [line(&jump, 2), line(DOG, 1), line(&DOG.repeat(10), 0)].join("\n");
    let mut vm = DogVm::new();
    assert_eq!(vm.load(prog), Ok(()));
    assert_eq!(vm.insts[0], DogInst::Jmp(2));
    assert_eq!(vm.run(10), Ok(DogEvent::Exit));
    assert!(vm.stack.is_empty());
}
