use opvm2::compile::CompiledProgram;
use opvm2::instruction::Instruction;
use opvm2::memory::Memory;
use opvm2::opcode::{Opcode, PluginValue};
use opvm2::operand::Operand;
use opvm2::parser::program::{LabelValue, Program};
use opvm2::register::Register;
use opvm2::table::LiteralTable;
use opvm2::vm::Vm;

#[test]
fn operands_parse_hex_and_decimal() {
    assert_eq!(Operand::from_text("16".to_string()), Operand::Number(16));
    assert_eq!(Operand::from_text("0x10".to_string()), Operand::Number(16));
    assert_eq!(Operand::from_text("0xff".to_string()), Operand::Number(255));
    assert_eq!(Operand::from_text("0".to_string()), Operand::Number(0));
    assert_eq!(Operand::from_text("ra".to_string()), Operand::Register(Register::Ra));
    assert_eq!(
        Operand::from_text("loop_start".to_string()),
        Operand::Label(LabelValue::Literal("loop_start".to_string()))
    );
}

#[test]
fn encode_then_decode_resolves_labels() {
    let mut table = LiteralTable::new();
    table.insert("msg".to_string(), 3);
    let ins = Instruction::new_l(Opcode::Jmp, Operand::Label(LabelValue::Literal("msg".to_string())));
    let word = ins.encode(&table);
    let back = Instruction::decode(word);
    assert_eq!(
        back,
        Instruction::new(Opcode::Jmp, Operand::Label(LabelValue::Address(3)), Operand::Empty)
    );
}

#[test]
fn encode_keeps_registers_and_numbers() {
    let table = LiteralTable::new();
    let ins = Instruction::new(Opcode::Mov, Operand::Register(Register::Rc), Operand::Number(77));
    assert_eq!(Instruction::decode(ins.encode(&table)), ins);
}

#[test]
fn encode_truncates_wide_numbers_to_32_bits() {
    let table = LiteralTable::new();
    let big: u64 = (1u64 << 35) | 9;
    let ins = Instruction::new(Opcode::Mov, Operand::Register(Register::Ra), Operand::Number(big));
    let back = Instruction::decode(ins.encode(&table));
    assert_eq!(
        back,
        Instruction::new(Opcode::Mov, Operand::Register(Register::Ra), Operand::Number(9))
    );
}

#[test]
fn decode_refuses_bad_register_payload() {
    let table = LiteralTable::new();
    let good = Instruction::new(Opcode::Mov, Operand::Register(Register::R9), Operand::Number(1));
    let word = good.encode(&table);
    // Overwrite the left operand payload (bits 86 and up) with 20, which
    // names no register.
    let bad = (word & !(0xFFFF_FFFFu128 << 86)) | (20u128 << 86);
    assert_eq!(Instruction::try_decode(bad).unwrap_err(), "Bad register format!".to_string());
}

#[test]
fn division_by_zero_is_a_runtime_error() {
    let mut vm = Vm::new_e();
    let program = Program::from(
        r"
            mov ra, 4
            mov rb, 0
            div ra, rb
        ",
    )
    .unwrap();
    assert_eq!(vm.run_program(program).unwrap_err(), "Division by zero at ins 32.".to_string());
}

#[test]
fn modulus_by_zero_is_a_runtime_error() {
    let mut vm = Vm::new_e();
    let program = Program::from("mov ra, 4\nmod ra, 0").unwrap();
    assert_eq!(vm.run_program(program).unwrap_err(), "Division by zero at ins 16.".to_string());
}

#[test]
fn pop_on_empty_stack_is_a_runtime_error() {
    let mut vm = Vm::new_e();
    let program = Program::from("pop ra").unwrap();
    assert_eq!(vm.run_program(program).unwrap_err(), "Stack is empty at ins 0.".to_string());
}

#[test]
fn dup_on_empty_stack_is_a_runtime_error() {
    let mut vm = Vm::new_e();
    let program = Program::from("dup").unwrap();
    assert_eq!(vm.run_program(program).unwrap_err(), "Stack is empty at ins 0.".to_string());
}

#[test]
fn unknown_opcode_without_handler_fails_at_compile_time() {
    let program = Program::from("life ra").unwrap();
    let mut compiled = CompiledProgram::new_e();
    let err = compiled.compile(program, &vec![]).unwrap_err();
    assert_eq!(err, "No plugins found for handling opcode: `life`. ".to_string());

    let program = Program::from("life ra").unwrap();
    let mut compiled = CompiledProgram::new_e();
    let err = compiled.compile(program, &vec!["handle_other".to_string()]).unwrap_err();
    assert_eq!(err, "No plugin found for handling opcode: `life`. ".to_string());

    let program = Program::from("life ra").unwrap();
    let mut compiled = CompiledProgram::new_e();
    assert!(compiled.compile(program, &vec!["handle_life".to_string()]).is_ok());
}

#[test]
fn start_address_follows_the_literal_pass() {
    let program = Program::from(
        r"
            msg: 'abc'
            mov ra, 1
            mov rb, 2
        ",
    )
    .unwrap();
    let mut compiled = CompiledProgram::new_e();
    compiled.compile(program, &vec![]).unwrap();
    // The literal pass placed the three bytes of 'abc' and one zero
    // terminator, so the bump pointer and with it the start address is 4.
    assert_eq!(compiled.start_address, 4);
    assert_eq!(compiled.memory_address, 4 + 2 * 16);
}

#[test]
fn instruction_slots_sit_at_start_plus_sixteen_times_index() {
    let program = Program::from(
        r"
            msg: 'abc'
            mov ra, 1
            mov rb, 2
        ",
    )
    .unwrap();
    let mut compiled = CompiledProgram::new_e();
    compiled.compile(program, &vec![]).unwrap();
    let memory = Memory::from_raw(compiled.program, compiled.memory_address);
    let first = Instruction::decode(memory.get_instruction(compiled.start_address));
    let second = Instruction::decode(memory.get_instruction(compiled.start_address + 16));
    assert_eq!(
        first,
        Instruction::new(Opcode::Mov, Operand::Register(Register::Ra), Operand::Number(1))
    );
    assert_eq!(
        second,
        Instruction::new(Opcode::Mov, Operand::Register(Register::Rb), Operand::Number(2))
    );
}

#[test]
fn run_reports_the_missing_plugin_by_name() {
    let program = Program::from("life ra").unwrap();
    let mut compiled = CompiledProgram::new_e();
    compiled.compile(program, &vec!["handle_life".to_string()]).unwrap();
    // Without plugins loaded the dispatch loop reaches the plugin opcode
    // itself and reports it, reading the name back from memory.
    let mut vm = Vm::new_e();
    assert_eq!(vm.run(compiled).unwrap_err(), "Plugin for 'life' not found".to_string());
}

#[test]
fn plugin_dispatch_drives_the_machine_through_the_host_decisions() {
    // A plugin exposing `handle_life` sets its first-operand register to
    // 42; the loop outside this crate performs the call and hands the
    // answer back through `apply_plugin_return`.
    let program = Program::from("life ra\nhlt").unwrap();
    let mut compiled = CompiledProgram::new_e();
    compiled.compile(program, &vec!["handle_life".to_string()]).unwrap();
    let start = compiled.start_address;
    let mut vm = Vm::new_e();
    vm.context.registers.set_pc(start as u64);
    vm.context.memory = Memory::from_raw(compiled.program, compiled.memory_address);
    vm.context.base_address = start;
    let ins = vm.get_instruction().unwrap();
    let address = match ins.opcode {
        Opcode::Plugin(PluginValue::Address(a)) => a,
        _ => panic!("expected a plugin opcode"),
    };
    let name_bytes = vm.context.memory.get_literal(address as usize);
    assert_eq!(name_bytes, b"life".to_vec());
    // The handler runs: it sets the first-operand register to 42 and
    // returns no address, so the counter advances one slot.
    assert_eq!(ins.lhs, Operand::Register(Register::Ra));
    vm.context.registers.set(&Register::Ra, 42);
    vm.apply_plugin_return(start, None, false);
    assert_eq!(vm.context.registers.get(&Register::Ra), 42);
    assert_eq!(vm.context.registers.check_pc(), start as u64 + 16);
}

#[test]
fn print_and_sleep_effects_are_reported_to_the_caller() {
    let mut vm = Vm::new_e();
    let program = Program::from(
        r"
            mov ra, 5
            print ra
            sleep 100
        ",
    )
    .unwrap();
    let out = vm.run_program(program).unwrap();
    assert_eq!(out.printed, vec![5]);
    assert_eq!(out.slept, vec![100]);
    assert!(!out.halted);
}

#[test]
fn halting_is_reported_to_the_caller() {
    let mut vm = Vm::new_e();
    let program = Program::from("hlt").unwrap();
    let out = vm.run_program(program).unwrap();
    assert!(out.halted);
}

#[test]
fn test_is_idempotent_on_the_same_values() {
    let mut once = Vm::new_e();
    once.run_program(Program::from("mov ra, 2\nmov rb, 3\ntest ra, rb").unwrap()).unwrap();
    let mut twice = Vm::new_e();
    twice
        .run_program(Program::from("mov ra, 2\nmov rb, 3\ntest ra, rb\ntest ra, rb").unwrap())
        .unwrap();
    assert_eq!(once.context.registers.equals_flag, twice.context.registers.equals_flag);
    assert_eq!(once.context.registers.less_than_flag, twice.context.registers.less_than_flag);
    assert_eq!(
        once.context.registers.greater_than_flag,
        twice.context.registers.greater_than_flag
    );
    assert!(twice.context.registers.less_than_flag);
    assert!(!twice.context.registers.equals_flag);
    assert!(!twice.context.registers.greater_than_flag);
}

#[test]
fn arithmetic_opcodes_compute_their_table() {
    let cases: Vec<(&str, u64, u64, u64)> = vec![
        ("add", 1, 2, 3),
        ("sub", 10, 5, 5),
        ("mul", 2, 3, 6),
        ("div", 10, 2, 5),
        ("mod", 10, 3, 1),
        ("xor", 10, 3, 9),
    ];
    for (op, l, r, expected) in cases {
        let mut vm = Vm::new_e();
        let source = format!("mov ra, {}\nmov rb, {}\n{} ra, rb", l, r, op);
        vm.run_program(Program::from(source.as_str()).unwrap()).unwrap();
        assert_eq!(vm.context.registers.ra, expected, "{} gave a wrong result", op);
    }
}

#[test]
fn wrapping_arithmetic_wraps_modulo_the_word() {
    let mut vm = Vm::new_e();
    vm.run_program(Program::from("mov ra, 0\ndec ra").unwrap()).unwrap();
    assert_eq!(vm.context.registers.ra, u64::MAX);
    let mut vm = Vm::new_e();
    vm.run_program(Program::from("mov ra, 0\ndec ra\ninc ra").unwrap()).unwrap();
    assert_eq!(vm.context.registers.ra, 0);
}

#[test]
fn labels_scan_reads_the_literal_region() {
    let program = Program::from(
        r"
            label1: 'test'
            label2: 'testa'
            label3: 'tesb'
            l1: mov ra, rb
            end:",
    )
    .unwrap();
    let mut compiled = CompiledProgram::new_e();
    compiled.compile(program, &vec![]).unwrap();
    let mut vm = Vm::new_e();
    vm.context.registers.set_pc(compiled.start_address as u64);
    vm.context.base_address = compiled.start_address;
    vm.context.memory = Memory::from_raw(compiled.program, compiled.memory_address);
    let labels = vm.get_labels().unwrap();
    assert_eq!(labels.len(), 3);
    assert_eq!(labels[0].name, "test");
    assert_eq!(labels[0].address, 0);
    assert_eq!(labels[1].name, "testa");
    assert_eq!(labels[1].address, 5);
    assert_eq!(labels[2].name, "tesb");
    assert_eq!(labels[2].address, 11);
}

#[test]
fn injected_instructions_run_once_and_resume() {
    let program = Program::from("mov ra, 1\nhlt").unwrap();
    let mut compiled = CompiledProgram::new_e();
    compiled.compile(program, &vec![]).unwrap();
    let start = compiled.start_address;
    let mut vm = Vm::new_e();
    vm.context.registers.set_pc(start as u64);
    vm.context.base_address = start;
    vm.context.memory = Memory::from_raw(compiled.program, compiled.memory_address);
    vm.step().unwrap();
    assert_eq!(vm.context.registers.ra, 1);
    // A plugin injects one instruction mid-run; the next fetch runs it and
    // the jump appended after it resumes at the interrupted counter.
    vm.execute(Instruction::new(
        Opcode::Mov,
        Operand::Register(Register::Rb),
        Operand::Number(9),
    ))
    .unwrap();
    vm.step().unwrap();
    assert_eq!(vm.context.registers.rb, 9);
    vm.step().unwrap();
    assert_eq!(vm.context.registers.check_pc(), start as u64 + 16);
}

#[test]
fn spaced_push_writes_zero_terminator() {
    let mut memory = Memory::new();
    // Dirty the byte the terminator lands on, so the test sees it written.
    memory.data[3] = 7;
    let address = memory.push(&[b'a', b'b', b'c'], true);
    assert_eq!(address, 0);
    assert_eq!(memory.address(), 4);
    assert_eq!(&memory.data[0..4], &[97, 98, 99, 0]);
}

#[test]
fn unlexable_source_fails_to_parse() {
    let err = Program::from("mov ra, 1\n,,,").unwrap_err();
    assert_eq!(err, "Line 1: unrecognized input `,,,`".to_string());
}

#[test]
fn jmp_to_label_lands_only_on_instruction_slots() {
    let labels = vec![
        opvm2::machine_context::Label { name: "slot".to_string(), address: 16 },
        opvm2::machine_context::Label { name: "odd".to_string(), address: 5 },
        opvm2::machine_context::Label { name: "far".to_string(), address: 64 },
    ];
    assert_eq!(opvm2::vm::jmp_to_label_target(&labels, "slot", 4, 52), Some(20));
    assert_eq!(opvm2::vm::jmp_to_label_target(&labels, "odd", 4, 52), None);
    assert_eq!(opvm2::vm::jmp_to_label_target(&labels, "far", 4, 52), None);
    assert_eq!(opvm2::vm::jmp_to_label_target(&labels, "missing", 4, 52), None);
}
