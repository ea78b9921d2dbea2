use opvm2::instruction::Instruction;
use opvm2::opcode::Opcode;
use opvm2::operand::Operand;
use opvm2::parser::program::{LabelValue, Labels, Program};
use opvm2::register::{Register, Registers};
use opvm2::vm::Vm;

fn run(input: Vec<Instruction>) -> Result<Vm, String> {
    let mut vm = Vm::new_e();
    let program = Program { instructions: input, labels: Labels::new(), plugins: vec![] };
    vm.run_program(program)?;
    Ok(vm)
}

fn run_l(input: Vec<Instruction>, labels: Vec<(String, LabelValue)>) -> Result<Vm, String> {
    let mut vm = Vm::new_e();
    let program = Program { instructions: input, labels: Labels::from(labels), plugins: vec![] };
    vm.run_program(program)?;
    Ok(vm)
}

fn read_registers(vm: &Vm) -> Registers {
    vm.context.registers.clone()
}

fn pop_stack(vm: &mut Vm) -> Result<u64, String> {
    vm.context.stack.pop().ok_or("Stack is empty".to_string())
}

#[test]
fn vm_can_run_vm() -> Result<(), String> {
    let input = vec![
        Instruction::new(Opcode::Mov, Operand::Register(Register::Ra), Operand::Number(10)),
        Instruction::new(Opcode::Mov, Operand::Register(Register::Rb), Operand::Number(10)),
        Instruction::new(Opcode::Mov, Operand::Register(Register::Rc), Operand::Number(10)),
        Instruction::new(
            Opcode::Add,
            Operand::Register(Register::Ra),
            Operand::Register(Register::Rb),
        ),
        Instruction::new(
            Opcode::Add,
            Operand::Register(Register::Ra),
            Operand::Register(Register::Rc),
        ),
    ];
    let vm = run(input)?;
    assert_eq!(read_registers(&vm).ra, 30);
    Ok(())
}

#[test]
fn vm_can_mov_value_to_register() -> Result<(), String> {
    let input = vec![Instruction::new(
        Opcode::Mov,
        Operand::Register(Register::Ra),
        Operand::Number(10),
    )];
    let vm = run(input)?;
    assert_eq!(read_registers(&vm).ra, 10);
    Ok(())
}

#[test]
fn vm_can_mov_value_from_register_to_register() {
    let input = vec![
        Instruction::new(Opcode::Mov, Operand::Register(Register::Ra), Operand::Number(10)),
        Instruction::new(
            Opcode::Mov,
            Operand::Register(Register::Rb),
            Operand::Register(Register::Ra),
        ),
    ];
    let vm = run(input).unwrap();
    assert_eq!(read_registers(&vm).ra, 10);
    assert_eq!(read_registers(&vm).rb, 10);
}

#[test]
fn vm_can_push_and_pop() -> Result<(), String> {
    let input = vec![
        Instruction::new_l(Opcode::Push, Operand::Number(10)),
        Instruction::new_l(Opcode::Pop, Operand::Register(Register::Ra)),
    ];
    let vm = run(input)?;
    assert_eq!(read_registers(&vm).ra, 10);
    Ok(())
}

#[test]
fn vm_can_push_and_pop_multiple() {
    let input = vec![
        Instruction::new_l(Opcode::Push, Operand::Number(10)),
        Instruction::new_l(Opcode::Push, Operand::Number(20)),
        Instruction::new_l(Opcode::Push, Operand::Number(30)),
        Instruction::new_l(Opcode::Pop, Operand::Register(Register::Ra)),
        Instruction::new_l(Opcode::Pop, Operand::Register(Register::Rb)),
    ];
    let mut vm = run(input).unwrap();
    assert_eq!(read_registers(&vm).ra, 30);
    assert_eq!(read_registers(&vm).rb, 20);
    assert_eq!(pop_stack(&mut vm), Ok(10));
}

#[test]
fn vm_can_jump() -> Result<(), String> {
    let input = vec![
        Instruction::new(Opcode::Mov, Operand::Register(Register::R0), Operand::Number(64)),
        Instruction::new_l(Opcode::Jmp, Operand::Register(Register::R0)),
        Instruction::new(Opcode::Mov, Operand::Register(Register::Ra), Operand::Number(10)),
        Instruction::new(Opcode::Mov, Operand::Register(Register::Rb), Operand::Number(20)),
        Instruction::new(Opcode::Mov, Operand::Register(Register::Rc), Operand::Number(30)),
    ];
    let vm = run(input)?;
    assert_eq!(read_registers(&vm).ra, 0);
    assert_eq!(read_registers(&vm).rb, 0);
    assert_eq!(read_registers(&vm).rc, 30);
    Ok(())
}

#[test]
fn vm_can_jump_to_label() {
    let input = vec![
        Instruction::new_l(Opcode::Jmp, Operand::Label(LabelValue::Literal("start".to_string()))),
        Instruction::new(Opcode::Mov, Operand::Register(Register::Ra), Operand::Number(10)),
        Instruction::new(Opcode::Mov, Operand::Register(Register::Rb), Operand::Number(20)),
        Instruction::new(Opcode::Mov, Operand::Register(Register::Rc), Operand::Number(30)),
    ];
    let labels = vec![("start".to_string(), LabelValue::Address(3))];
    let vm = run_l(input, labels).unwrap();
    assert_eq!(read_registers(&vm).ra, 0);
    assert_eq!(read_registers(&vm).rb, 0);
    assert_eq!(read_registers(&vm).rc, 30);
}

#[test]
fn vm_can_test() {
    let input = vec![
        Instruction::new(Opcode::Mov, Operand::Register(Register::Ra), Operand::Number(10)),
        Instruction::new(Opcode::Mov, Operand::Register(Register::Rb), Operand::Number(20)),
        Instruction::new(
            Opcode::Test,
            Operand::Register(Register::Ra),
            Operand::Register(Register::Rb),
        ),
        Instruction::new_l(Opcode::Jle, Operand::Label(LabelValue::Literal("less".to_string()))),
        Instruction::new(Opcode::Mov, Operand::Register(Register::Rd), Operand::Number(1)),
        Instruction::new_l(Opcode::Jmp, Operand::Label(LabelValue::Literal("end".to_string()))),
        Instruction::new(Opcode::Mov, Operand::Register(Register::Rc), Operand::Number(1)),
    ];
    let labels = vec![
        ("less".to_string(), LabelValue::Address(6)),
        ("end".to_string(), LabelValue::Address(7)),
    ];
    let vm = run_l(input, labels).unwrap();
    assert_eq!(read_registers(&vm).ra, 10);
    assert_eq!(read_registers(&vm).rb, 20);
    assert_eq!(read_registers(&vm).rc, 1);
    assert_ne!(read_registers(&vm).rd, 1);
}

#[test]
fn vm_can_call_and_return() {
    let input = vec![
        Instruction::new_l(Opcode::Call, Operand::Label(LabelValue::Literal("start".to_string()))),
        Instruction::new_l(Opcode::Jmp, Operand::Label(LabelValue::Literal("end".to_string()))),
        Instruction::new(Opcode::Mov, Operand::Register(Register::Ra), Operand::Number(20)),
        Instruction::new(
            Opcode::Add,
            Operand::Register(Register::Rb),
            Operand::Register(Register::Ra),
        ),
        Instruction::new_e(Opcode::Return),
    ];
    let labels = vec![
        ("start".to_string(), LabelValue::Address(2)),
        ("end".to_string(), LabelValue::Address(5)),
    ];
    let vm = run_l(input, labels).unwrap();
    assert_eq!(read_registers(&vm).ra, 20);
    assert_eq!(read_registers(&vm).rb, 20);
}

#[test]
fn vm_can_jump_if_equal() {
    let input = vec![
        Instruction::new(Opcode::Mov, Operand::Register(Register::Ra), Operand::Number(10)),
        Instruction::new(Opcode::Mov, Operand::Register(Register::Rb), Operand::Number(10)),
        Instruction::new(
            Opcode::Test,
            Operand::Register(Register::Ra),
            Operand::Register(Register::Rb),
        ),
        Instruction::new_l(Opcode::Je, Operand::Label(LabelValue::Literal("end".to_string()))),
        Instruction::new(Opcode::Mov, Operand::Register(Register::Rc), Operand::Number(1)),
    ];
    let labels = vec![("end".to_string(), LabelValue::Address(6))];
    let vm = run_l(input, labels).unwrap();
    assert_eq!(read_registers(&vm).ra, 10);
    assert_eq!(read_registers(&vm).rb, 10);
    assert_eq!(read_registers(&vm).rc, 0);
}

#[test]
fn vm_can_jump_if_not_equal() {
    let input = vec![
        Instruction::new(Opcode::Mov, Operand::Register(Register::Ra), Operand::Number(10)),
        Instruction::new(Opcode::Mov, Operand::Register(Register::Rb), Operand::Number(20)),
        Instruction::new(
            Opcode::Test,
            Operand::Register(Register::Ra),
            Operand::Register(Register::Rb),
        ),
        Instruction::new_l(Opcode::Jne, Operand::Label(LabelValue::Literal("end".to_string()))),
        Instruction::new(Opcode::Mov, Operand::Register(Register::Rc), Operand::Number(1)),
    ];
    let labels = vec![("end".to_string(), LabelValue::Address(6))];
    let vm = run_l(input, labels).unwrap();
    assert_eq!(read_registers(&vm).ra, 10);
    assert_eq!(read_registers(&vm).rb, 20);
    assert_eq!(read_registers(&vm).rc, 0);
}

#[test]
fn vm_can_jump_if_greater_than_or_equal() {
    let input = vec![
        Instruction::new(Opcode::Mov, Operand::Register(Register::Ra), Operand::Number(10)),
        Instruction::new(Opcode::Mov, Operand::Register(Register::Rb), Operand::Number(10)),
        Instruction::new(
            Opcode::Test,
            Operand::Register(Register::Ra),
            Operand::Register(Register::Rb),
        ),
        Instruction::new_l(Opcode::Jge, Operand::Label(LabelValue::Literal("end".to_string()))),
        Instruction::new(Opcode::Mov, Operand::Register(Register::Rc), Operand::Number(1)),
    ];
    let labels = vec![("end".to_string(), LabelValue::Address(6))];
    let vm = run_l(input, labels).unwrap();
    assert_eq!(read_registers(&vm).ra, 10);
    assert_eq!(read_registers(&vm).rb, 10);
    assert_ne!(read_registers(&vm).rc, 1);
}

#[test]
fn vm_can_jump_if_less_than_or_equal() {
    let input = vec![
        Instruction::new(Opcode::Mov, Operand::Register(Register::Ra), Operand::Number(10)),
        Instruction::new(Opcode::Mov, Operand::Register(Register::Rb), Operand::Number(20)),
        Instruction::new(
            Opcode::Test,
            Operand::Register(Register::Ra),
            Operand::Register(Register::Rb),
        ),
        Instruction::new_l(Opcode::Jle, Operand::Label(LabelValue::Literal("end".to_string()))),
        Instruction::new(Opcode::Mov, Operand::Register(Register::Rc), Operand::Number(1)),
    ];
    let labels = vec![("end".to_string(), LabelValue::Address(6))];
    let vm = run_l(input, labels).unwrap();
    assert_eq!(read_registers(&vm).ra, 10);
    assert_eq!(read_registers(&vm).rb, 20);
    assert_ne!(read_registers(&vm).rc, 1);
}

#[test]
fn vm_can_jump_if_greater_than() {
    let input = vec![
        Instruction::new(Opcode::Mov, Operand::Register(Register::Ra), Operand::Number(10)),
        Instruction::new(Opcode::Mov, Operand::Register(Register::Rb), Operand::Number(20)),
        Instruction::new(
            Opcode::Test,
            Operand::Register(Register::Ra),
            Operand::Register(Register::Rb),
        ),
        Instruction::new_l(Opcode::Jg, Operand::Label(LabelValue::Literal("end".to_string()))),
        Instruction::new(Opcode::Mov, Operand::Register(Register::Rc), Operand::Number(1)),
    ];
    let labels = vec![("end".to_string(), LabelValue::Address(6))];
    let vm = run_l(input, labels).unwrap();
    assert_eq!(read_registers(&vm).ra, 10);
    assert_eq!(read_registers(&vm).rb, 20);
    assert_eq!(read_registers(&vm).rc, 1);
}

#[test]
fn vm_can_jump_if_less_than() {
    let input = vec![
        Instruction::new(Opcode::Mov, Operand::Register(Register::Ra), Operand::Number(20)),
        Instruction::new(Opcode::Mov, Operand::Register(Register::Rb), Operand::Number(10)),
        Instruction::new(
            Opcode::Test,
            Operand::Register(Register::Ra),
            Operand::Register(Register::Rb),
        ),
        Instruction::new_l(Opcode::Jl, Operand::Label(LabelValue::Literal("end".to_string()))),
        Instruction::new(Opcode::Mov, Operand::Register(Register::Rc), Operand::Number(1)),
    ];
    let labels = vec![("end".to_string(), LabelValue::Address(6))];
    let vm = run_l(input, labels).unwrap();
    assert_eq!(read_registers(&vm).ra, 20);
    assert_eq!(read_registers(&vm).rb, 10);
    assert_eq!(read_registers(&vm).rc, 1);
}

#[test]
fn vm_nop_does_nothing() {
    let input = vec![Instruction::new_e(Opcode::Nop)];
    let vm = run(input).unwrap();
    assert_eq!(read_registers(&vm).ra, 0);
}

#[test]
fn vm_can_halt() {
    let input = vec![
        Instruction::new_e(Opcode::Halt),
        Instruction::new(Opcode::Mov, Operand::Register(Register::Ra), Operand::Number(10)),
    ];
    let vm = run(input).unwrap();
    assert_eq!(read_registers(&vm).ra, 0);
}

#[test]
fn vm_can_assert() {
    let input = vec![
        Instruction::new(Opcode::Mov, Operand::Register(Register::Ra), Operand::Number(10)),
        Instruction::new(Opcode::Mov, Operand::Register(Register::Rb), Operand::Number(10)),
        Instruction::new(
            Opcode::Assert,
            Operand::Register(Register::Ra),
            Operand::Register(Register::Rb),
        ),
        Instruction::new(Opcode::Mov, Operand::Register(Register::Rc), Operand::Number(1)),
    ];
    let labels = vec![("end".to_string(), LabelValue::Address(6))];
    let vm = run_l(input, labels).unwrap();
    assert_eq!(read_registers(&vm).ra, 10);
    assert_eq!(read_registers(&vm).rb, 10);
    assert_eq!(read_registers(&vm).rc, 1);
}

#[test]
fn vm_can_assert_failure() {
    let input = vec![
        Instruction::new(Opcode::Mov, Operand::Register(Register::Ra), Operand::Number(10)),
        Instruction::new(Opcode::Mov, Operand::Register(Register::Rb), Operand::Number(20)),
        Instruction::new(
            Opcode::Assert,
            Operand::Register(Register::Ra),
            Operand::Register(Register::Rb),
        ),
        Instruction::new(Opcode::Mov, Operand::Register(Register::Rc), Operand::Number(1)),
    ];
    let labels = vec![("end".to_string(), LabelValue::Address(5))];
    let vm = run_l(input, labels);
    assert_eq!(vm.unwrap_err(), "Assertion failed at ins 32.".to_string());
}
