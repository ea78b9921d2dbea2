use opvm2::parser::program::Program;
use opvm2::register::{Register, Registers};
use opvm2::vm::Vm;

fn read_registers(vm: &Vm) -> Registers {
    vm.context.registers.clone()
}

#[test]
fn lib_can_add_two_numbers() -> Result<(), String> {
    let mut vm = Vm::new_e();
    let program = Program::from(
        r"
            mov ra, 1
            mov rb, 2
            add ra, rb
        ",
    )
    .unwrap();
    vm.run_program(program)?;
    assert_eq!(read_registers(&vm).get(&Register::Ra), 3);
    Ok(())
}

#[test]
fn lib_can_inc() {
    let mut vm = Vm::new_e();
    let program = Program::from(
        r"
            mov ra, 1
            inc ra
        ",
    )
    .unwrap();
    vm.run_program(program).unwrap();
    assert_eq!(read_registers(&vm).get(&Register::Ra), 2);
}

#[test]
fn lib_can_dec() {
    let mut vm = Vm::new_e();
    let program = Program::from(
        r"
            mov ra, 1
            dec ra
        ",
    )
    .unwrap();
    vm.run_program(program).unwrap();
    assert_eq!(read_registers(&vm).get(&Register::Ra), 0);
}

#[test]
fn lib_can_xor_two_numbers() {
    let mut vm = Vm::new_e();
    let program = Program::from(
        r"
            mov ra, 3
            mov rb, 5
            xor ra, rb
        ",
    )
    .unwrap();
    vm.run_program(program).unwrap();
    assert_eq!(read_registers(&vm).get(&Register::Ra), 6);
}

#[test]
fn lib_can_push_and_pop() {
    let mut vm = Vm::new_e();
    let program = Program::from(
        r"
            mov ra, 1
            push ra
            pop rb
        ",
    )
    .unwrap();
    vm.run_program(program).unwrap();
    assert_eq!(read_registers(&vm).get(&Register::Rb), 1);
}

#[test]
fn lib_can_dup_stack() {
    let mut vm = Vm::new_e();
    let program = Program::from(
        r"
            mov ra, 5
            push ra
            dup
            pop rb
            pop rc
        ",
    )
    .unwrap();
    vm.run_program(program).unwrap();
    assert_eq!(read_registers(&vm).get(&Register::Rb), 5);
    assert_eq!(read_registers(&vm).get(&Register::Rc), 5);
}

#[test]
fn lib_can_jump() -> Result<(), String> {
    let mut vm = Vm::new_e();
    let program = Program::from(
        r"
            mov r0, 64
            jmp r0
            mov ra, 2   ; this should be skipped
            mov rb, 3   ; this should be skipped
            mov rc, 5
        ",
    )
    .unwrap();
    vm.run_program(program)?;
    assert_eq!(read_registers(&vm).get(&Register::Ra), 0);
    assert_eq!(read_registers(&vm).get(&Register::Rb), 0);
    assert_eq!(read_registers(&vm).get(&Register::Rc), 5);
    Ok(())
}

#[test]
fn lib_can_jump_with_labels() -> Result<(), String> {
    let mut vm = Vm::new_e();
    let program = Program::from(
        r"
            jmp _start
            mov ra, 2   ; this should be skipped
            mov rb, 3   ; this should be skipped
            _start: mov rc, 5
        ",
    )
    .unwrap();
    vm.run_program(program)?;
    assert_eq!(read_registers(&vm).get(&Register::Ra), 0);
    assert_eq!(read_registers(&vm).get(&Register::Rb), 0);
    assert_eq!(read_registers(&vm).get(&Register::Rc), 5);
    Ok(())
}

#[test]
fn lib_can_jump_when_less_than() {
    let mut vm = Vm::new_e();
    let program = Program::from(
        r"
            mov ra, 2
            mov rb, 3
            test ra, rb
            jl _less_than
            mov rc, 5
            jmp _exit
            _less_than: mov rc, 10
            _exit:
        ",
    )
    .unwrap();
    vm.run_program(program).unwrap();
    assert_eq!(read_registers(&vm).get(&Register::Rc), 10);
}

#[test]
fn lib_can_jump_when_less_than_or_equal() {
    let mut vm = Vm::new_e();
    let program = Program::from(
        r"
            mov ra, 3
            mov rb, 3
            test ra, rb
            jle _less_than
            mov rc, 5
            jmp _exit
            _less_than: mov rc, 10
            _exit:
        ",
    )
    .unwrap();
    vm.run_program(program).unwrap();
    assert_eq!(read_registers(&vm).get(&Register::Rc), 10);
}

#[test]
fn lib_can_jump_when_greater_than() {
    let mut vm = Vm::new_e();
    let program = Program::from(
        r"
            mov ra, 4
            mov rb, 3
            test ra, rb
            jg _greater_than
            mov rc, 5
            jmp _exit
            _greater_than: mov rc, 10
            _exit:
        ",
    )
    .unwrap();
    vm.run_program(program).unwrap();
    assert_eq!(read_registers(&vm).get(&Register::Rc), 10);
}

#[test]
fn lib_can_jump_when_greater_than_or_equal() {
    let mut vm = Vm::new_e();
    let program = Program::from(
        r"
            mov ra, 3
            mov rb, 3
            test ra, rb
            jge _greater_than
            mov rc, 5
            jmp _exit
            _greater_than: mov rc, 10
            _exit:
        ",
    )
    .unwrap();
    vm.run_program(program).unwrap();
    assert_eq!(read_registers(&vm).get(&Register::Rc), 10);
}

#[test]
fn lib_can_jump_when_equal() {
    let mut vm = Vm::new_e();
    let program = Program::from(
        r"
            mov ra, 3
            mov rb, 3
            test ra, rb
            je _equal
            mov rc, 5
            jmp _exit
            _equal: mov rc, 10
            _exit:
        ",
    )
    .unwrap();
    vm.run_program(program).unwrap();
    assert_eq!(read_registers(&vm).get(&Register::Rc), 10);
}

#[test]
fn lib_can_jump_when_not_equal() {
    let mut vm = Vm::new_e();
    let program = Program::from(
        r"
            mov ra, 3
            mov rb, 4
            test ra, rb
            jne _not_equal
            mov rc, 5
            jmp _exit
            _not_equal: mov rc, 10
            _exit:
        ",
    )
    .unwrap();
    vm.run_program(program).unwrap();
    assert_eq!(read_registers(&vm).get(&Register::Rc), 10);
}

#[test]
fn lib_can_call_and_return() {
    let mut vm = Vm::new_e();
    let program = Program::from(
        r"
            call add
            jmp exit
            add: mov ra, 3
            mov rb, 4
            add ra, rb
            ret
            mov rc, 5
            exit:
            mov rd, 6
        ",
    )
    .unwrap();
    vm.run_program(program).unwrap();
    assert_eq!(read_registers(&vm).get(&Register::Ra), 7);
    assert_eq!(read_registers(&vm).get(&Register::Rd), 6);
    assert_ne!(read_registers(&vm).get(&Register::Rc), 5);
}
