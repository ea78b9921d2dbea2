//! The dispatch loop: fetch one 16-byte word at the program counter,
//! decode it, apply the opcode's semantics, advance.  Every step is given
//! by a spec-level machine model, and the loop is proved to follow it.
//!
//! Plugins are invoked outside this crate; the loop here runs a program
//! without plugins, and `execute_instruction` together with
//! `apply_plugin_return` gives an outer loop with plugins the same
//! verified semantics for everything but the plugin calls themselves.

use vstd::prelude::*;

use crate::compile::{compile_ok, compile_model, CompiledProgram};
use crate::instruction::Instruction;
use crate::machine_context::MachineContext;
use crate::memory::{literal_end, u128_of_le_bytes, Memory};
use crate::numbers::dec_text;
use crate::opcode::{Opcode, PluginValue};
use crate::operand::Operand;
use crate::parser::program::Program;
use crate::register::{Register, Registers};
use crate::text::ascii_chars;

verus! {

/// The mathematical state of one machine: the register file, the two
/// stacks, the memory bytes with the end of the program image, and the
/// base address of the first instruction slot.
pub struct MState {
    pub base: usize,
    pub regs: Registers,
    pub stack: Seq<u64>,
    pub call_stack: Seq<u64>,
    pub mem: Seq<u8>,
    pub mem_end: usize,
}

/// The state a machine context stands for.
pub open spec fn ctx_view(c: MachineContext) -> MState {
    MState {
        base: c.base_address,
        regs: c.registers,
        stack: c.stack@,
        call_stack: c.call_stack@,
        mem: c.memory.data@,
        mem_end: c.memory.pointer,
    }
}

/// What one step does beyond changing machine state: nothing, a value
/// written to standard output, a request to sleep for some milliseconds,
/// or a halt.
#[derive(Debug, Clone, Copy, PartialEq, Eq, Structural)]
pub enum StepEffect {
    Proceeded,
    Printed(u64),
    Slept(u64),
    Halted,
}

/// What one step gives: the next state and its effect, or an error text.
pub enum StepModel {
    StepOk(MState, StepEffect),
    StepErr(Seq<char>),
}

/// The value an operand stands for: a word, nothing (an empty or offset
/// operand), or a symbolic label that has no value at run time.
pub enum SpecVal {
    Val(u64),
    Absent,
    NotAddress,
}

/// The value-of rules: a number is itself, a register reads the register
/// file, an address label is its byte offset.
pub open spec fn spec_value(s: MState, o: Operand) -> SpecVal {
    match o {
        Operand::Number(n) => SpecVal::Val(n),
        Operand::Register(r) => SpecVal::Val(s.regs.read(r)),
        Operand::Label(l) => match l {
            crate::parser::program::LabelValue::Address(n) => SpecVal::Val(n as u64),
            crate::parser::program::LabelValue::Literal(_) => SpecVal::NotAddress,
        },
        _ => SpecVal::Absent,
    }
}

/// An error text that carries the failing program counter.
pub open spec fn at_ins(prefix: Seq<char>, pc: u64) -> Seq<char> {
    prefix + dec_text(pc as nat) + "."@
}

/// The register file with the program counter advanced one slot.
pub open spec fn advance_regs(regs: Registers) -> Registers {
    Registers { pc: (regs.pc + 16) as u64, ..regs }
}

/// The jump target `base + value`, capped at the top of the address
/// space; a capped target is past every program, so the run just ends.
pub open spec fn jump_pc(base: usize, v: u64) -> u64 {
    if base + v > u64::MAX {
        u64::MAX
    } else {
        (base + v) as u64
    }
}

/// The register file after `Test` on two values: flags cleared, then
/// equals, less-than and greater-than set by comparing.
pub open spec fn test_flags(regs: Registers, l: u64, r: u64) -> Registers {
    Registers {
        equals_flag: l == r,
        less_than_flag: l < r,
        greater_than_flag: l > r,
        ..regs
    }
}

/// The error a plugin opcode raises when no plugin handled it, naming the
/// opcode: by the name bytes its address points at in memory, or by the
/// name it still carries.
pub open spec fn spec_plugin_error(s: MState, v: PluginValue) -> StepModel {
    match v {
        PluginValue::Address(a) => if a > s.mem.len() {
            StepModel::StepErr("Plugin name is not valid"@)
        } else {
            let bytes = s.mem.subrange(a as int, literal_end(s.mem, a as int));
            if forall|j: int| 0 <= j < bytes.len() ==> bytes[j] < 128 {
                StepModel::StepErr(
                    "Plugin for '"@ + ascii_chars(bytes) + "' not found"@,
                )
            } else {
                StepModel::StepErr("Plugin name is not valid"@)
            }
        },
        PluginValue::Name(n) => StepModel::StepErr("Plugin for '"@ + n@ + "' not found"@),

        PluginValue::Unset => StepModel::StepErr("Plugin for '"@ + "None"@ + "' not found"@),
    }
}

/// One instruction's semantics on a machine state: the opcode table of the
/// dispatch loop.  Arithmetic wraps modulo the word size; division and
/// modulus by zero, a pop or dup on an empty stack, a return with nothing
/// to return to, a failed assertion, an operand without a value, and a
/// plugin opcode that nothing handled all stop the run with an error that
/// names the failing instruction's byte offset.
pub open spec fn exec_instruction_spec(s: MState, i: Instruction) -> StepModel {
    let lv = spec_value(s, i.lhs);
    let rv = spec_value(s, i.rhs);
    if lv is NotAddress || rv is NotAddress {
        StepModel::StepErr("Label is not an address"@)
    } else {
        let pc = s.regs.pc;
        match i.opcode {
            Opcode::Mov => if !(i.lhs is Register) {
                StepModel::StepErr("Register not valid"@)
            } else {
                match rv {
                    SpecVal::Val(v) => StepModel::StepOk(
                        MState { regs: advance_regs(s.regs.write(i.lhs->Register_0, v)), ..s },
                        StepEffect::Proceeded,
                    ),
                    _ => StepModel::StepErr(at_ins("Operand has no value at ins "@, pc)),
                }
            },
            Opcode::Add => spec_math(s, i, |a: u64, b: u64| vstd::wrapping::u64_specs::wrapping_add(a, b), false),
            Opcode::Sub => spec_math(s, i, |a: u64, b: u64| vstd::wrapping::u64_specs::wrapping_sub(a, b), false),
            Opcode::Mul => spec_math(s, i, |a: u64, b: u64| vstd::wrapping::u64_specs::wrapping_mul(a, b), false),
            Opcode::Div => spec_math(s, i, |a: u64, b: u64| (a as nat / b as nat) as u64, true),
            Opcode::Mod => spec_math(s, i, |a: u64, b: u64| (a as nat % b as nat) as u64, true),
            Opcode::Xor => spec_math(s, i, |a: u64, b: u64| a ^ b, false),
            Opcode::Inc => if !(i.lhs is Register) {
                StepModel::StepErr("Register not valid"@)
            } else {
                match lv {
                    SpecVal::Val(v) => StepModel::StepOk(
                        MState {
                            regs: advance_regs(
                                s.regs.write(
                                    i.lhs->Register_0,
                                    vstd::wrapping::u64_specs::wrapping_add(v, 1),
                                ),
                            ),
                            ..s
                        },
                        StepEffect::Proceeded,
                    ),
                    _ => StepModel::StepErr(at_ins("Operand has no value at ins "@, pc)),
                }
            },
            Opcode::Dec => if !(i.lhs is Register) {
                StepModel::StepErr("Register not valid"@)
            } else {
                match lv {
                    SpecVal::Val(v) => StepModel::StepOk(
                        MState {
                            regs: advance_regs(
                                s.regs.write(
                                    i.lhs->Register_0,
                                    vstd::wrapping::u64_specs::wrapping_sub(v, 1),
                                ),
                            ),
                            ..s
                        },
                        StepEffect::Proceeded,
                    ),
                    _ => StepModel::StepErr(at_ins("Operand has no value at ins "@, pc)),
                }
            },
            Opcode::Print => match lv {
                SpecVal::Val(v) => StepModel::StepOk(
                    MState { regs: advance_regs(s.regs), ..s },
                    StepEffect::Printed(v),
                ),
                _ => StepModel::StepErr(at_ins("Operand has no value at ins "@, pc)),
            },
            Opcode::Push => match lv {
                SpecVal::Val(v) => StepModel::StepOk(
                    MState {
                        regs: advance_regs(
                            Registers { stack_len: (s.stack.len() + 1) as u64, ..s.regs },
                        ),
                        stack: s.stack.push(v),
                        ..s
                    },
                    StepEffect::Proceeded,
                ),
                _ => StepModel::StepErr(at_ins("Operand has no value at ins "@, pc)),
            },
            Opcode::Pop => if !(i.lhs is Register) {
                StepModel::StepErr("Register not valid"@)
            } else if s.stack.len() == 0 {
                StepModel::StepErr(at_ins("Stack is empty at ins "@, pc))
            } else {
                StepModel::StepOk(
                    MState {
                        regs: advance_regs(
                            Registers {
                                stack_len: (s.stack.len() - 1) as u64,
                                ..s.regs.write(i.lhs->Register_0, s.stack.last())
                            },
                        ),
                        stack: s.stack.drop_last(),
                        ..s
                    },
                    StepEffect::Proceeded,
                )
            },
            Opcode::Dup => if s.stack.len() == 0 {
                StepModel::StepErr(at_ins("Stack is empty at ins "@, pc))
            } else {
                StepModel::StepOk(
                    MState {
                        regs: advance_regs(
                            Registers { stack_len: (s.stack.len() + 1) as u64, ..s.regs },
                        ),
                        stack: s.stack.push(s.stack.last()),
                        ..s
                    },
                    StepEffect::Proceeded,
                )
            },
            Opcode::Test => match (lv, rv) {
                (SpecVal::Val(l), SpecVal::Val(r)) => StepModel::StepOk(
                    MState { regs: advance_regs(test_flags(s.regs, l, r)), ..s },
                    StepEffect::Proceeded,
                ),
                _ => StepModel::StepErr(at_ins("Operand has no value at ins "@, pc)),
            },
            Opcode::Jmp => match lv {
                SpecVal::Val(v) => StepModel::StepOk(
                    MState { regs: Registers { pc: jump_pc(s.base, v), ..s.regs }, ..s },
                    StepEffect::Proceeded,
                ),
                _ => StepModel::StepErr(at_ins("Operand has no value at ins "@, pc)),
            },
            Opcode::Je => spec_branch(s, lv, s.regs.equals_flag),
            Opcode::Jne => spec_branch(s, lv, !s.regs.equals_flag),
            Opcode::Jle => spec_branch(s, lv, s.regs.equals_flag || s.regs.less_than_flag),
            Opcode::Jge => spec_branch(s, lv, s.regs.equals_flag || s.regs.greater_than_flag),
            Opcode::Jl => spec_branch(s, lv, s.regs.less_than_flag),
            Opcode::Jg => spec_branch(s, lv, s.regs.greater_than_flag),
            Opcode::Call => match lv {
                SpecVal::Val(v) => StepModel::StepOk(
                    MState {
                        regs: Registers {
                            pc: jump_pc(s.base, v),
                            call_stack_len: (s.call_stack.len() + 1) as u64,
                            ..s.regs
                        },
                        call_stack: s.call_stack.push((pc + 16) as u64),
                        ..s
                    },
                    StepEffect::Proceeded,
                ),
                _ => StepModel::StepErr(at_ins("Operand has no value at ins "@, pc)),
            },
            Opcode::Return => if s.call_stack.len() == 0 {
                StepModel::StepErr(at_ins("Call stack is empty at ins "@, pc))
            } else {
                StepModel::StepOk(
                    MState {
                        regs: Registers {
                            pc: s.call_stack.last(),
                            call_stack_len: (s.call_stack.len() - 1) as u64,
                            ..s.regs
                        },
                        call_stack: s.call_stack.drop_last(),
                        ..s
                    },
                    StepEffect::Proceeded,
                )
            },
            Opcode::Assert => match (lv, rv) {
                (SpecVal::Val(l), SpecVal::Val(r)) => if l != r {
                    StepModel::StepErr(at_ins("Assertion failed at ins "@, pc))
                } else {
                    StepModel::StepOk(
                        MState {
                            regs: advance_regs(
                                Registers {
                                    equals_flag: false,
                                    less_than_flag: false,
                                    greater_than_flag: false,
                                    ..s.regs
                                },
                            ),
                            ..s
                        },
                        StepEffect::Proceeded,
                    )
                },
                _ => StepModel::StepErr(at_ins("Operand has no value at ins "@, pc)),
            },
            Opcode::Sleep => match lv {
                SpecVal::Val(v) => StepModel::StepOk(
                    MState { regs: advance_regs(s.regs), ..s },
                    StepEffect::Slept(v),
                ),
                _ => StepModel::StepErr(at_ins("Operand has no value at ins "@, pc)),
            },
            Opcode::Nop => StepModel::StepOk(
                MState { regs: advance_regs(s.regs), ..s },
                StepEffect::Proceeded,
            ),
            Opcode::Halt => StepModel::StepOk(s, StepEffect::Halted),
            Opcode::Plugin(v) => spec_plugin_error(s, v),
        }
    }
}

/// An arithmetic opcode: both operand values, the operation applied, the
/// result written to the left register; division and modulus refuse a
/// zero divisor.
pub open spec fn spec_math(
    s: MState,
    i: Instruction,
    op: spec_fn(u64, u64) -> u64,
    div_like: bool,
) -> StepModel {
    let lv = spec_value(s, i.lhs);
    let rv = spec_value(s, i.rhs);
    let pc = s.regs.pc;
    match (lv, rv) {
        (SpecVal::Val(l), SpecVal::Val(r)) => if div_like && r == 0 {
            StepModel::StepErr(at_ins("Division by zero at ins "@, pc))
        } else if !(i.lhs is Register) {
            StepModel::StepErr("Register not valid"@)
        } else {
            StepModel::StepOk(
                MState { regs: advance_regs(s.regs.write(i.lhs->Register_0, op(l, r))), ..s },
                StepEffect::Proceeded,
            )
        },
        _ => StepModel::StepErr(at_ins("Operand has no value at ins "@, pc)),
    }
}

/// A conditional jump: when the flag combination holds, jump to
/// `base + value`; otherwise fall through to the next slot.
pub open spec fn spec_branch(s: MState, lv: SpecVal, cond: bool) -> StepModel {
    if cond {
        match lv {
            SpecVal::Val(v) => StepModel::StepOk(
                MState { regs: Registers { pc: jump_pc(s.base, v), ..s.regs }, ..s },
                StepEffect::Proceeded,
            ),
            _ => StepModel::StepErr(at_ins("Operand has no value at ins "@, s.regs.pc)),
        }
    } else {
        StepModel::StepOk(MState { regs: advance_regs(s.regs), ..s }, StepEffect::Proceeded)
    }
}

/// One step of the dispatch loop: fetch sixteen bytes at the program
/// counter, decode them, execute the instruction.
pub open spec fn step_spec(s: MState) -> StepModel {
    if !(s.regs.pc + 16 <= s.mem.len()) {
        StepModel::StepErr(at_ins("Instruction fetch out of bounds at ins "@, s.regs.pc))
    } else {
        let w = u128_of_le_bytes(s.mem.subrange(s.regs.pc as int, s.regs.pc + 16));
        if !Instruction::spec_decodable(w) {
            StepModel::StepErr("Bad register format!"@)
        } else {
            exec_instruction_spec(s, Instruction::spec_decode(w))
        }
    }
}

/// Where a run stands after at most `fuel` steps: still going, ended
/// (normally or by `Halt`), or stopped by an error; with everything
/// printed and every sleep requested so far.
pub enum RunModel {
    Running(MState, Seq<u64>, Seq<u64>),
    Done(MState, bool, Seq<u64>, Seq<u64>),
    Failed(Seq<char>, Seq<u64>, Seq<u64>),
}

/// Runs the step model for at most `fuel` steps.  The loop ends normally
/// as soon as the program counter leaves the program image.
pub open spec fn run_steps(s: MState, printed: Seq<u64>, slept: Seq<u64>, fuel: nat) -> RunModel
    decreases fuel,
{
    if s.regs.pc >= s.mem_end {
        RunModel::Done(s, false, printed, slept)
    } else if fuel == 0 {
        RunModel::Running(s, printed, slept)
    } else {
        match step_spec(s) {
            StepModel::StepOk(s2, eff) => match eff {
                StepEffect::Halted => RunModel::Done(s2, true, printed, slept),
                StepEffect::Printed(v) => run_steps(s2, printed.push(v), slept, (fuel - 1) as nat),
                StepEffect::Slept(v) => run_steps(s2, printed, slept.push(v), (fuel - 1) as nat),
                StepEffect::Proceeded => run_steps(s2, printed, slept, (fuel - 1) as nat),
            },
            StepModel::StepErr(e) => RunModel::Failed(e, printed, slept),
        }
    }
}

/// The run one model step after a still-running point: the next step
/// applied, with no further fuel.
pub open spec fn run_extend_result(s1: MState, p1: Seq<u64>, sl1: Seq<u64>) -> RunModel {
    match step_spec(s1) {
        StepModel::StepOk(s2, eff) => match eff {
            StepEffect::Halted => RunModel::Done(s2, true, p1, sl1),
            StepEffect::Printed(v) => run_steps(s2, p1.push(v), sl1, 0),
            StepEffect::Slept(v) => run_steps(s2, p1, sl1.push(v), 0),
            StepEffect::Proceeded => run_steps(s2, p1, sl1, 0),
        },
        StepModel::StepErr(e) => RunModel::Failed(e, p1, sl1),
    }
}

/// One more step of fuel takes a still-running run exactly one model step
/// further.
pub proof fn lemma_run_steps_extend(s: MState, printed: Seq<u64>, slept: Seq<u64>, fuel: nat)
    requires
        run_steps(s, printed, slept, fuel) is Running,
    ensures
        ({
            let r = run_steps(s, printed, slept, fuel);
            run_steps(s, printed, slept, (fuel + 1) as nat) == run_extend_result(
                r->Running_0,
                r->Running_1,
                r->Running_2,
            )
        }),
    decreases fuel,
{
    if s.regs.pc >= s.mem_end {
    } else if fuel == 0 {
    } else {
        match step_spec(s) {
            StepModel::StepOk(s2, eff) => match eff {
                StepEffect::Halted => {},
                StepEffect::Printed(v) => {
                    lemma_run_steps_extend(s2, printed.push(v), slept, (fuel - 1) as nat);
                },
                StepEffect::Slept(v) => {
                    lemma_run_steps_extend(s2, printed, slept.push(v), (fuel - 1) as nat);
                },
                StepEffect::Proceeded => {
                    lemma_run_steps_extend(s2, printed, slept, (fuel - 1) as nat);
                },
            },
            StepModel::StepErr(e) => {},
        }
    }
}

/// A program image padded with zeros to the full memory capacity, as a
/// fresh memory region holds it.
pub open spec fn pad_image(full: Seq<u8>) -> Seq<u8> {
    full + Seq::new((crate::memory::MAX_MEMORY_SIZE - full.len()) as nat, |i: int| 0u8)
}

/// The state a run starts from: the given image loaded, the program
/// counter and base at the image's start address, registers and stacks
/// carried over from the context as it was.
pub open spec fn load_model(s: MState, start: usize, mem: Seq<u8>, mem_end: usize) -> MState {
    MState {
        base: start,
        regs: Registers { pc: start as u64, ..s.regs },
        stack: s.stack,
        call_stack: s.call_stack,
        mem,
        mem_end,
    }
}

/// The literal region read back as labels: from `i` up to `bound`, each
/// zero-terminated byte run with the offset it starts at.
pub open spec fn scan_labels(mem: Seq<u8>, i: int, bound: int) -> Seq<(Seq<u8>, int)>
    decreases bound - i when 0 <= i && bound <= mem.len()
{
    if i >= bound {
        seq![]
    } else {
        let end = literal_end(mem, i);
        if i <= end <= mem.len() {
            let next = if end + 1 <= bound {
                end + 1
            } else {
                bound
            };
            seq![(mem.subrange(i, end), i)] + scan_labels(mem, next, bound)
        } else {
            seq![]
        }
    }
}

/// Whether every byte of every scanned name is in the ASCII range.
pub open spec fn labels_ascii(found: Seq<(Seq<u8>, int)>) -> bool {
    forall|k: int, j: int|
        0 <= k < found.len() && 0 <= j < found[k].0.len() ==> #[trigger] found[k].0[j] < 128
}

/// The most steps one run takes before giving up: no real program comes
/// near it, but it makes every run provably finite.
pub const MAX_RUN_STEPS: u64 = 0xFFFF_FFFF_FFFF_FFFF;

/// What a finished run reports: whether `Halt` ended it, every value
/// `Print` wrote, and every sleep `Sleep` requested, in order.
#[derive(Debug, Clone, PartialEq)]
pub struct RunOutcome {
    pub halted: bool,
    pub printed: Vec<u64>,
    pub slept: Vec<u64>,
}

/// The virtual machine: one machine context driven by the dispatch loop.
#[derive(Debug, Clone, PartialEq)]
pub struct Vm {
    pub context: MachineContext,
}

impl Vm {
    pub fn new(context: MachineContext) -> (r: Vm)
        ensures
            r.context == context,
    {
        Vm { context }
    }

    pub fn new_e() -> (r: Vm)
        ensures
            ctx_view(r.context) == (MState {
                base: 0,
                regs: Registers::initial(),
                stack: Seq::<u64>::empty(),
                call_stack: Seq::<u64>::empty(),
                mem: ctx_view(r.context).mem,
                mem_end: 0,
            }),
            ctx_view(r.context).mem.len() == crate::memory::MAX_MEMORY_SIZE,
            forall|i: int|
                0 <= i < ctx_view(r.context).mem.len() ==> ctx_view(r.context).mem[i] == 0,
    {
        Vm { context: MachineContext::new() }
    }

    /// The current program counter.
    pub fn check_pc(&self) -> (r: u64)
        ensures
            r == self.context.registers.pc,
    {
        self.context.registers.check_pc()
    }

    /// The first free byte of memory: the end of the program image.
    pub fn check_address(&self) -> (r: usize)
        ensures
            r == self.context.memory.pointer,
    {
        self.context.memory.address()
    }

    /// Fetches and decodes the instruction at the program counter.
    pub fn get_instruction(&self) -> (r: Result<Instruction, String>)
        ensures
            ({
                let s = ctx_view(self.context);
                match r {
                    Ok(i) => s.regs.pc + 16 <= s.mem.len() && ({
                        let w = u128_of_le_bytes(s.mem.subrange(s.regs.pc as int, s.regs.pc + 16));
                        Instruction::spec_decodable(w) && i == Instruction::spec_decode(w)
                    }),
                    Err(e) => step_spec(s) matches StepModel::StepErr(m) && m == e@,
                }
            }),
    {
        let pc = self.context.registers.check_pc();
        let len = self.context.memory.data.len();
        if len < 16 || pc > (len - 16) as u64 {
            return Err(msg_at("Instruction fetch out of bounds at ins ", pc));
        }
        let w = self.context.memory.get_instruction(pc as usize);
        match Instruction::try_decode(w) {
            Ok(i) => Ok(i),
            Err(e) => Err(e),
        }
    }

    /// Applies one decoded instruction to the machine, as the opcode table
    /// gives it.  A plugin opcode is not handled here: the outer loop asks
    /// the plugins first and only a step nothing handled comes in, so it
    /// reports the plugin as missing.
    #[verifier::rlimit(60)]
    #[verifier::spinoff_prover]
    pub fn execute_instruction(&mut self, item: Instruction) -> (r: Result<StepEffect, String>)
        requires
            ctx_view(old(self).context).regs.pc + 16 <= u64::MAX,
        ensures
            ({
                let m = exec_instruction_spec(ctx_view(old(self).context), item);
                match r {
                    Ok(eff) => m == StepModel::StepOk(ctx_view(final(self).context), eff),
                    Err(e) => m matches StepModel::StepErr(msg) && msg == e@ && ctx_view(
                        final(self).context,
                    ) == ctx_view(old(self).context),
                }
            }),
    {
        let pc = self.context.registers.check_pc();
        let lv = get_value(&self.context, &item.lhs);
        let rv = get_value(&self.context, &item.rhs);
        if lv.is_err() || rv.is_err() {
            return Err(String::from_str("Label is not an address"));
        }
        let lv = lv.unwrap();
        let rv = rv.unwrap();
        match item.opcode {
            Opcode::Mov => {
                let reg = match item.lhs.get_register() {
                    Ok(reg) => reg,
                    Err(e) => {
                        return Err(e);
                    },
                };
                match rv {
                    Some(v) => {
                        self.context.registers.set(&reg, v);
                        self.context.registers.increment_pc();
                        Ok(StepEffect::Proceeded)
                    },
                    None => Err(msg_at("Operand has no value at ins ", pc)),
                }
            },
            Opcode::Add | Opcode::Sub | Opcode::Mul | Opcode::Div | Opcode::Mod | Opcode::Xor => {
                let l = match lv {
                    Some(l) => l,
                    None => {
                        return Err(msg_at("Operand has no value at ins ", pc));
                    },
                };
                let r = match rv {
                    Some(r) => r,
                    None => {
                        return Err(msg_at("Operand has no value at ins ", pc));
                    },
                };
                let div_like = match item.opcode {
                    Opcode::Div | Opcode::Mod => true,
                    _ => false,
                };
                if div_like && r == 0 {
                    return Err(msg_at("Division by zero at ins ", pc));
                }
                let reg = match item.lhs.get_register() {
                    Ok(reg) => reg,
                    Err(e) => {
                        return Err(e);
                    },
                };
                let value = match item.opcode {
                    Opcode::Add => l.wrapping_add(r),
                    Opcode::Sub => l.wrapping_sub(r),
                    Opcode::Mul => l.wrapping_mul(r),
                    Opcode::Div => l / r,
                    Opcode::Mod => l % r,
                    _ => l ^ r,
                };
                self.context.registers.set(&reg, value);
                self.context.registers.increment_pc();
                Ok(StepEffect::Proceeded)
            },
            Opcode::Inc | Opcode::Dec => {
                let reg = match item.lhs.get_register() {
                    Ok(reg) => reg,
                    Err(e) => {
                        return Err(e);
                    },
                };
                let l = match lv {
                    Some(l) => l,
                    None => {
                        return Err(msg_at("Operand has no value at ins ", pc));
                    },
                };
                let value = match item.opcode {
                    Opcode::Inc => l.wrapping_add(1),
                    _ => l.wrapping_sub(1),
                };
                self.context.registers.set(&reg, value);
                self.context.registers.increment_pc();
                Ok(StepEffect::Proceeded)
            },
            Opcode::Print => match lv {
                Some(v) => {
                    self.context.registers.increment_pc();
                    Ok(StepEffect::Printed(v))
                },
                None => Err(msg_at("Operand has no value at ins ", pc)),
            },
            Opcode::Push => match lv {
                Some(v) => {
                    self.context.stack.push(v);
                    let n = self.context.stack.len();
                    self.context.registers.set_stack_len(n as u64);
                    self.context.registers.increment_pc();
                    Ok(StepEffect::Proceeded)
                },
                None => Err(msg_at("Operand has no value at ins ", pc)),
            },
            Opcode::Pop => {
                let reg = match item.lhs.get_register() {
                    Ok(reg) => reg,
                    Err(e) => {
                        return Err(e);
                    },
                };
                match self.context.stack.pop() {
                    Some(value) => {
                        self.context.registers.set(&reg, value);
                        let n = self.context.stack.len();
                        self.context.registers.set_stack_len(n as u64);
                        self.context.registers.increment_pc();
                        Ok(StepEffect::Proceeded)
                    },
                    None => Err(msg_at("Stack is empty at ins ", pc)),
                }
            },
            Opcode::Dup => {
                let peeked = match self.context.stack.peek() {
                    Some(v) => *v,
                    None => {
                        return Err(msg_at("Stack is empty at ins ", pc));
                    },
                };
                self.context.stack.push(peeked);
                let n = self.context.stack.len();
                self.context.registers.set_stack_len(n as u64);
                self.context.registers.increment_pc();
                Ok(StepEffect::Proceeded)
            },
            Opcode::Test => {
                let l = match lv {
                    Some(l) => l,
                    None => {
                        return Err(msg_at("Operand has no value at ins ", pc));
                    },
                };
                let r = match rv {
                    Some(r) => r,
                    None => {
                        return Err(msg_at("Operand has no value at ins ", pc));
                    },
                };
                self.context.registers.reset_flags();
                self.context.registers.set_equals_flag(l == r);
                self.context.registers.set_less_than_flag(l < r);
                self.context.registers.set_greater_than_flag(l > r);
                self.context.registers.increment_pc();
                Ok(StepEffect::Proceeded)
            },
            Opcode::Jmp => match lv {
                Some(v) => {
                    let target = jump_target(self.context.base_address, v);
                    self.context.registers.set_pc(target);
                    Ok(StepEffect::Proceeded)
                },
                None => Err(msg_at("Operand has no value at ins ", pc)),
            },
            Opcode::Je | Opcode::Jne | Opcode::Jle | Opcode::Jge | Opcode::Jl | Opcode::Jg => {
                let cond = match item.opcode {
                    Opcode::Je => self.context.registers.check_equals_flag(),
                    Opcode::Jne => !self.context.registers.check_equals_flag(),
                    Opcode::Jle => self.context.registers.check_equals_flag()
                        || self.context.registers.check_less_than_flag(),
                    Opcode::Jge => self.context.registers.check_equals_flag()
                        || self.context.registers.check_greater_than_flag(),
                    Opcode::Jl => self.context.registers.check_less_than_flag(),
                    _ => self.context.registers.check_greater_than_flag(),
                };
                if cond {
                    match lv {
                        Some(v) => {
                            let target = jump_target(self.context.base_address, v);
                            self.context.registers.set_pc(target);
                            Ok(StepEffect::Proceeded)
                        },
                        None => Err(msg_at("Operand has no value at ins ", pc)),
                    }
                } else {
                    self.context.registers.increment_pc();
                    Ok(StepEffect::Proceeded)
                }
            },
            Opcode::Call => match lv {
                Some(v) => {
                    self.context.call_stack.push(pc + 16);
                    let n = self.context.call_stack.len();
                    self.context.registers.set_call_stack_len(n as u64);
                    let target = jump_target(self.context.base_address, v);
                    self.context.registers.set_pc(target);
                    Ok(StepEffect::Proceeded)
                },
                None => Err(msg_at("Operand has no value at ins ", pc)),
            },
            Opcode::Return => match self.context.call_stack.pop() {
                Some(return_address) => {
                    let n = self.context.call_stack.len();
                    self.context.registers.set_call_stack_len(n as u64);
                    self.context.registers.set_pc(return_address);
                    Ok(StepEffect::Proceeded)
                },
                None => Err(msg_at("Call stack is empty at ins ", pc)),
            },
            Opcode::Assert => {
                let l = match lv {
                    Some(l) => l,
                    None => {
                        return Err(msg_at("Operand has no value at ins ", pc));
                    },
                };
                let r = match rv {
                    Some(r) => r,
                    None => {
                        return Err(msg_at("Operand has no value at ins ", pc));
                    },
                };
                if l != r {
                    return Err(msg_at("Assertion failed at ins ", pc));
                }
                self.context.registers.reset_flags();
                self.context.registers.increment_pc();
                Ok(StepEffect::Proceeded)
            },
            Opcode::Sleep => match lv {
                Some(v) => {
                    self.context.registers.increment_pc();
                    Ok(StepEffect::Slept(v))
                },
                None => Err(msg_at("Operand has no value at ins ", pc)),
            },
            Opcode::Nop => {
                self.context.registers.increment_pc();
                Ok(StepEffect::Proceeded)
            },
            Opcode::Halt => Ok(StepEffect::Halted),
            Opcode::Plugin(v) => Err(self.plugin_error(&v)),
        }
    }

    /// The error a plugin opcode nothing handled raises, naming the opcode
    /// by the name bytes its address points at.
    fn plugin_error(&self, v: &PluginValue) -> (r: String)
        ensures
            spec_plugin_error(ctx_view(self.context), *v) matches StepModel::StepErr(m) && m == r@,
    {
        match v {
            PluginValue::Address(a) => {
                let addr = *a as usize;
                if addr > self.context.memory.data.len() {
                    return String::from_str("Plugin name is not valid");
                }
                let bytes = self.context.memory.get_literal(addr);
                match crate::text::ascii_string(&bytes) {
                    Some(name) => plugin_not_found_msg(name.as_str()),
                    None => String::from_str("Plugin name is not valid"),
                }
            },
            PluginValue::Name(n) => plugin_not_found_msg(n.as_str()),
            PluginValue::Unset => plugin_not_found_msg("None"),
        }
    }

    /// One step of the plugin-free dispatch loop: fetch, decode, execute.
    pub fn step(&mut self) -> (r: Result<StepEffect, String>)
        ensures
            ({
                let m = step_spec(ctx_view(old(self).context));
                match r {
                    Ok(eff) => m == StepModel::StepOk(ctx_view(final(self).context), eff),
                    Err(e) => m matches StepModel::StepErr(msg) && msg == e@ && ctx_view(
                        final(self).context,
                    ) == ctx_view(old(self).context),
                }
            }),
    {
        let item = match self.get_instruction() {
            Ok(item) => item,
            Err(e) => {
                return Err(e);
            },
        };
        proof {
            assert(self.context.memory.data.len() == self.context.memory.data@.len());
        }
        self.execute_instruction(item)
    }

    /// What the dispatch loop does with a plugin's answer: an address sent
    /// back becomes the new program counter relative to the base; no
    /// answer advances one slot, unless the call was the pre-instruction
    /// hook, which leaves the counter alone.
    pub fn apply_plugin_return(&mut self, base_address: usize, addr: Option<u64>, is_hook: bool)
        ensures
            final(self).context == (MachineContext {
                registers: Registers {
                    pc: match addr {
                        Some(a) => jump_pc(base_address, a),
                        None => if is_hook {
                            old(self).context.registers.pc
                        } else {
                            if old(self).context.registers.pc + 16 > u64::MAX {
                                u64::MAX
                            } else {
                                (old(self).context.registers.pc + 16) as u64
                            }
                        },
                    },
                    ..old(self).context.registers
                },
                ..old(self).context
            }),
    {
        match addr {
            Some(a) => {
                let target = jump_target(base_address, a);
                self.context.registers.set_pc(target);
            },
            None => {
                if !is_hook {
                    let pc = self.context.registers.check_pc();
                    if pc > u64::MAX - 16 {
                        self.context.registers.set_pc(u64::MAX);
                    } else {
                        self.context.registers.set_pc(pc + 16);
                    }
                }
            },
        }
    }

    /// The labels a plugin sees: the literal region of memory, from offset
    /// zero up to the base address, read back as zero-terminated strings
    /// with their byte offsets.  The scan reads names as ASCII and is
    /// refused, exactly, when a scanned name carries a byte outside that
    /// range; names are never silently mangled.
    pub fn get_labels(&self) -> (r: Result<Vec<crate::machine_context::Label>, String>)
        ensures
            ({
                let s = ctx_view(self.context);
                let bound = if s.base <= s.mem.len() {
                    s.base as int
                } else {
                    s.mem.len() as int
                };
                let found = scan_labels(s.mem, 0, bound);
                match r {
                    Ok(labels) => labels_ascii(found) && labels@.len() == found.len() && (forall|k: int|
                        0 <= k < found.len() ==> (#[trigger] labels@[k]).name@ == ascii_chars(
                            found[k].0,
                        ) && labels@[k].address == found[k].1),
                    Err(e) => !labels_ascii(found) && e@ == "Label name is not valid"@,
                }
            }),
    {
        let base = self.context.base_address;
        let len = self.context.memory.data.len();
        let bound = if base <= len {
            base
        } else {
            len
        };
        let ghost s = ctx_view(self.context);
        let ghost found = scan_labels(s.mem, 0, bound as int);
        let mut labels: Vec<crate::machine_context::Label> = Vec::new();
        let mut i: usize = 0;
        proof {
            assert(s.mem.len() == self.context.memory.data.len());
            assert(found.skip(0) =~= found);
        }
        while i < bound
            invariant
                bound <= ctx_view(self.context).mem.len(),
                i <= ctx_view(self.context).mem.len(),
                s == ctx_view(self.context),
                bound as int == (if s.base <= s.mem.len() {
                    s.base as int
                } else {
                    s.mem.len() as int
                }),
                found == scan_labels(s.mem, 0, bound as int),
                labels@.len() <= found.len(),
                forall|k: int|
                    0 <= k < labels@.len() ==> (#[trigger] labels@[k]).name@ == ascii_chars(
                        found[k].0,
                    ) && labels@[k].address == found[k].1,
                forall|k: int, j: int|
                    0 <= k < labels@.len() && 0 <= j < found[k].0.len() ==> #[trigger] found[k].0[j]
                        < 128,
                scan_labels(s.mem, i as int, bound as int) == found.skip(labels@.len() as int),
            decreases bound - i,
        {
            proof {
                crate::memory::lemma_literal_end(s.mem, i as int);
                assert(self.context.memory.data.len() == self.context.memory.data@.len());
            }
            let val = self.context.memory.get_literal(i);
            let ghost done = labels@.len() as int;
            proof {
                assert(found.skip(done).len() == scan_labels(s.mem, i as int, bound as int).len());
                assert(found.skip(done)[0] == (val@, i as int));
                assert(found[done] == found.skip(done)[0]);
                assert(found.skip(done).drop_first() =~= found.skip(done + 1));
            }
            let name = match crate::text::ascii_string(&val) {
                Some(name) => name,
                None => {
                    proof {
                        if labels_ascii(found) {
                            assert forall|j: int| 0 <= j < val@.len() implies val@[j] < 128 by {
                                assert(found[done].0[j] < 128);
                            }
                            assert(false);
                        }
                    }
                    return Err(String::from_str("Label name is not valid"));
                },
            };
            labels.push(crate::machine_context::Label { name, address: i });
            proof {
                assert(val@.len() == literal_end(s.mem, i as int) - i);
            }
            let end = i + val.len();
            if end >= bound {
                i = bound;
            } else {
                i = end + 1;
            }
        }
        proof {
            assert(scan_labels(s.mem, i as int, bound as int) =~= Seq::<(Seq<u8>, int)>::empty());
            assert(found.skip(labels@.len() as int).len() == 0);
            assert(labels@.len() == found.len());
            assert(labels_ascii(found));
        }
        Ok(labels)
    }

    /// The re-entrant trampoline behind the `execute` host capability: a
    /// jump over the injection to a landing pad, the supplied instruction,
    /// and a jump back to the current counter are appended to memory, and
    /// the counter is set to the injected instruction's slot, so the next
    /// fetch runs it and the jump after it resumes.  Every injection permanently
    /// extends memory; one that does not fit, or an instruction that needs
    /// a literal table, is refused.
    pub fn execute(&mut self, data: Instruction) -> (r: Result<(), String>)
        ensures
            match r {
                Ok(_) => ({
                    let s = ctx_view(old(self).context);
                    let s2 = ctx_view(final(self).context);
                    let empty = Seq::<(Seq<char>, usize)>::empty();
                    &&& s.base <= s.mem_end
                    &&& s.base <= s.regs.pc <= u64::MAX - 16
                    &&& s.regs.pc <= usize::MAX
                    &&& s.mem_end + 48 <= s.mem.len()
                    &&& data.encodable(empty)
                    &&& s2.mem_end == s.mem_end + 48
                    &&& s2.base == s.base
                    &&& s2.stack == s.stack
                    &&& s2.call_stack == s.call_stack
                    &&& s2.regs == (Registers { pc: (s.mem_end + 16) as u64, ..s.regs })
                    &&& s2.mem.len() == s.mem.len()
                    &&& s2.mem.subrange(0, s.mem_end as int) == s.mem.subrange(
                        0,
                        s.mem_end as int,
                    )
                    &&& s2.mem.subrange(s.mem_end as int, s.mem_end + 16) == crate::memory::le_bytes_of_u128(
                        (Instruction {
                            opcode: Opcode::Jmp,
                            lhs: Operand::Label(
                                crate::parser::program::LabelValue::Address(
                                    ((s.mem_end - s.base) + 48) as usize,
                                ),
                            ),
                            rhs: Operand::Empty,
                        }).spec_encode(empty),
                    )
                    &&& s2.mem.subrange(s.mem_end + 16, s.mem_end + 32) == crate::memory::le_bytes_of_u128(
                        data.spec_encode(empty),
                    )
                    &&& s2.mem.subrange(s.mem_end + 32, s.mem_end + 48) == crate::memory::le_bytes_of_u128(
                        (Instruction {
                            opcode: Opcode::Jmp,
                            lhs: Operand::Label(
                                crate::parser::program::LabelValue::Address(
                                    (s.regs.pc - s.base) as usize,
                                ),
                            ),
                            rhs: Operand::Empty,
                        }).spec_encode(empty),
                    )
                }),
                Err(e) => ({
                    let s = ctx_view(old(self).context);
                    &&& ctx_view(final(self).context) == s
                    &&& e@ == "Cannot inject the instruction here"@
                    &&& !(s.base <= s.mem_end && s.base <= s.regs.pc && s.regs.pc <= u64::MAX - 16
                        && s.regs.pc <= usize::MAX && s.mem_end + 48 <= s.mem.len()
                        && data.encodable(Seq::<(Seq<char>, usize)>::empty()))
                }),
            },
    {
        let base = self.context.base_address;
        let current_end = self.context.memory.address();
        let pc = self.context.registers.check_pc();
        let ok_layout = base <= current_end && (base as u64) <= pc && pc <= u64::MAX - 16
            && pc <= usize::MAX as u64 && self.context.memory.data.len() >= 48 && current_end
            <= self.context.memory.data.len() - 48;
        let encodable_here = match &data.opcode {
            Opcode::Plugin(PluginValue::Address(_)) => true,
            Opcode::Plugin(_) => false,
            _ => true,
        } && (match &data.lhs {
            Operand::Offset(_) => false,
            Operand::Number(n) => *n < 0x1_0000_0000,
            Operand::Label(crate::parser::program::LabelValue::Address(a)) => (*a as u64) < 0x1_0000_0000u64,
            _ => true,
        }) && (match &data.rhs {
            Operand::Offset(_) => false,
            Operand::Number(n) => *n < 0x1_0000_0000,
            Operand::Label(crate::parser::program::LabelValue::Address(a)) => (*a as u64) < 0x1_0000_0000u64,
            _ => true,
        }) && (match (&data.lhs, &data.rhs) {
            (Operand::Empty, Operand::Empty) => true,
            (Operand::Empty, _) => false,
            _ => true,
        });
        if !(ok_layout && encodable_here) {
            proof {
                let s = ctx_view(self.context);
                let empty = Seq::<(Seq<char>, usize)>::empty();
                assert(encodable_here == data.encodable(empty));
            }
            return Err(String::from_str("Cannot inject the instruction here"));
        }
        let table = crate::table::LiteralTable::new();
        let pad = Instruction::new_l(
            Opcode::Jmp,
            Operand::Label(
                crate::parser::program::LabelValue::Address((current_end - base) + 48),
            ),
        );
        let back = Instruction::new_l(
            Opcode::Jmp,
            Operand::Label(crate::parser::program::LabelValue::Address((pc as usize) - base)),
        );
        let jmp_address = self.context.memory.push(
            crate::memory::u128_to_le_bytes(pad.encode(&table)).as_slice(),
            false,
        );
        self.context.memory.push(
            crate::memory::u128_to_le_bytes(data.encode(&table)).as_slice(),
            false,
        );
        self.context.memory.push(
            crate::memory::u128_to_le_bytes(back.encode(&table)).as_slice(),
            false,
        );
        self.context.registers.set_pc((jmp_address + 16) as u64);
        proof {
            let s = ctx_view(old(self).context);
            let s2 = ctx_view(self.context);
            assert(s2.mem.subrange(0, s.mem_end as int) =~= s.mem.subrange(0, s.mem_end as int));
            assert(s2.mem.subrange(s.mem_end as int, s.mem_end + 16) =~= crate::memory::le_bytes_of_u128(
                pad.spec_encode(Seq::<(Seq<char>, usize)>::empty()),
            ));
            assert(s2.mem.subrange(s.mem_end + 16, s.mem_end + 32) =~= crate::memory::le_bytes_of_u128(
                data.spec_encode(Seq::<(Seq<char>, usize)>::empty()),
            ));
            assert(s2.mem.subrange(s.mem_end + 32, s.mem_end + 48) =~= crate::memory::le_bytes_of_u128(
                back.spec_encode(Seq::<(Seq<char>, usize)>::empty()),
            ));
        }
        Ok(())
    }

    /// Runs a compiled program without plugins: the image is loaded, the
    /// counter set to the start address, and the loop steps until the
    /// counter leaves the image, `Halt` ends the run, or an error stops
    /// it.  The outcome carries everything printed and every sleep
    /// requested, for the caller to perform.
    pub fn run(&mut self, program: CompiledProgram) -> (r: Result<RunOutcome, String>)
        ensures
            ({
                let init = load_model(
                    ctx_view(old(self).context),
                    program.start_address,
                    program.program@,
                    program.memory_address,
                );
                match r {
                    Ok(out) => exists|n: nat|
                        run_steps(init, Seq::empty(), Seq::empty(), n) == RunModel::Done(
                            ctx_view(final(self).context),
                            out.halted,
                            out.printed@,
                            out.slept@,
                        ),
                    Err(e) => (exists|n: nat|
                        #[trigger] run_steps(init, Seq::empty(), Seq::empty(), n) matches
                            RunModel::Failed(msg, _, _) && msg == e@) || (run_steps(
                        init,
                        Seq::empty(),
                        Seq::empty(),
                        MAX_RUN_STEPS as nat,
                    ) is Running && e@ == "Step limit reached"@),
                }
            }),
            r matches Ok(out) ==> out.halted || final(self).context.registers.pc
                >= final(self).context.memory.pointer as u64,
    {
        let start_address = program.start_address;
        self.context.registers.set_pc(start_address as u64);
        self.context.memory = Memory::from_raw(program.program, program.memory_address);
        self.context.base_address = start_address;
        let ghost init = ctx_view(self.context);
        let mut printed: Vec<u64> = Vec::new();
        let mut slept: Vec<u64> = Vec::new();
        let mut steps: u64 = 0;
        proof {
            assert(run_steps(init, Seq::empty(), Seq::empty(), 0) == (
            if init.regs.pc >= init.mem_end {
                RunModel::Done(init, false, Seq::<u64>::empty(), Seq::<u64>::empty())
            } else {
                RunModel::Running(init, Seq::<u64>::empty(), Seq::<u64>::empty())
            }));
        }
        while steps < MAX_RUN_STEPS
            invariant
                init == load_model(
                    ctx_view(old(self).context),
                    program.start_address,
                    program.program@,
                    program.memory_address,
                ),
                ctx_view(self.context).mem_end == init.mem_end,
                run_steps(init, Seq::empty(), Seq::empty(), steps as nat) == (
                if ctx_view(self.context).regs.pc >= ctx_view(self.context).mem_end {
                    RunModel::Done(ctx_view(self.context), false, printed@, slept@)
                } else {
                    RunModel::Running(ctx_view(self.context), printed@, slept@)
                }),
            decreases MAX_RUN_STEPS - steps,
        {
            let pc = self.context.registers.check_pc();
            let end = self.context.memory.address();
            if pc >= end as u64 {
                return Ok(RunOutcome { halted: false, printed, slept });
            }
            proof {
                lemma_run_steps_extend(init, Seq::empty(), Seq::empty(), steps as nat);
                assert(self.context.memory.data.len() == self.context.memory.data@.len());
            }
            match self.step() {
                Ok(eff) => {
                    steps = steps + 1;
                    match eff {
                        StepEffect::Proceeded => {},
                        StepEffect::Printed(v) => {
                            printed.push(v);
                        },
                        StepEffect::Slept(v) => {
                            slept.push(v);
                        },
                        StepEffect::Halted => {
                            return Ok(RunOutcome { halted: true, printed, slept });
                        },
                    }
                },
                Err(e) => {
                    return Err(e);
                },
            }
        }
        let pc = self.context.registers.check_pc();
        let end = self.context.memory.address();
        if pc >= end as u64 {
            return Ok(RunOutcome { halted: false, printed, slept });
        }
        Err(String::from_str("Step limit reached"))
    }

    /// Compiles a program with no plugins loaded and runs it.  Fails exactly
    /// when compilation fails, with the error compilation fixes and the
    /// machine untouched, or when the run itself stops with an error.
    pub fn run_program(&mut self, program: Program) -> (r: Result<RunOutcome, String>)
        ensures
            ({
                let hs = Seq::<Seq<char>>::empty();
                match r {
                    Ok(out) => compile_ok(program, hs) && (compile_model(program) matches Some(cm)
                        && exists|n: nat|
                        #[trigger] run_steps(
                            load_model(
                                ctx_view(old(self).context),
                                cm.start as usize,
                                pad_image(cm.full),
                                cm.full.len() as usize,
                            ),
                            Seq::empty(),
                            Seq::empty(),
                            n,
                        ) == RunModel::Done(
                            ctx_view(final(self).context),
                            out.halted,
                            out.printed@,
                            out.slept@,
                        )),
                    Err(e) => match compile_model(program) {
                        None => ctx_view(final(self).context) == ctx_view(old(self).context) && (e@
                            == "Out of memory"@ || e@ == "Plugin value is not an address or name"@
                            || e@ == "Label address does not fit in memory"@),
                        Some(cm) => ({
                            let init = load_model(
                                ctx_view(old(self).context),
                                cm.start as usize,
                                pad_image(cm.full),
                                cm.full.len() as usize,
                            );
                            if compile_ok(program, hs) {
                                (exists|n: nat|
                                    #[trigger] run_steps(init, Seq::empty(), Seq::empty(), n)
                                        matches RunModel::Failed(msg, _, _) && msg == e@) || (
                                run_steps(
                                    init,
                                    Seq::empty(),
                                    Seq::empty(),
                                    MAX_RUN_STEPS as nat,
                                ) is Running && e@ == "Step limit reached"@)
                            } else {
                                ctx_view(final(self).context) == ctx_view(old(self).context) && e@
                                    == crate::compile::missing_msg_acc(
                                    program.instructions@,
                                    hs,
                                    Seq::empty(),
                                )
                            }
                        }),
                    },
                }
            }),
            r matches Ok(out) ==> out.halted || final(self).context.registers.pc
                >= final(self).context.memory.pointer as u64,
    {
        let mut compiled = CompiledProgram::new_e();
        let handlers: Vec<String> = Vec::new();
        proof {
            assert(crate::compile::handler_views(handlers@) =~= Seq::<Seq<char>>::empty());
        }
        match compiled.compile(program, &handlers) {
            Ok(_) => {},
            Err(e) => {
                return Err(e);
            },
        }
        proof {
            let cm = compile_model(program)->Some_0;
            assert(compiled.program@ =~= pad_image(cm.full));
        }
        let ghost pre = ctx_view(self.context);
        let ghost cstart = compiled.start_address;
        let ghost cimage = compiled.program@;
        let ghost cend = compiled.memory_address;
        let r = self.run(compiled);
        proof {
            let cm = compile_model(program)->Some_0;
            assert(load_model(pre, cstart, cimage, cend) == load_model(
                pre,
                cm.start as usize,
                pad_image(cm.full),
                cm.full.len() as usize,
            ));
        }
        r
    }
}

/// The byte offset the scanned labels bind to a name: the first binding,
/// in the order `get_labels` reports them.
pub open spec fn label_offset_of(
    labels: Seq<crate::machine_context::Label>,
    name: Seq<char>,
) -> Option<usize>
    decreases labels.len(),
{
    if labels.len() == 0 {
        None
    } else if labels[0].name@ == name {
        Some(labels[0].address)
    } else {
        label_offset_of(labels.drop_first(), name)
    }
}

/// The decision behind the `jmp_to_label` host capability: the counter a
/// jump to `name` sets, resolved against the scanned labels.  The jump is
/// taken exactly when the name is bound and its offset lands on an aligned
/// instruction slot of the image: sixteen-byte aligned and, added to the
/// base, still before the image's end.
pub fn jmp_to_label_target(
    labels: &Vec<crate::machine_context::Label>,
    name: &str,
    base: usize,
    mem_end: usize,
) -> (r: Option<u64>)
    ensures
        ({
            match label_offset_of(labels@, name@) {
                Some(off) => if off % 16 == 0 && base + off < mem_end {
                    r == Some((base + off) as u64)
                } else {
                    r is None
                },
                None => r is None,
            }
        }),
{
    let mut k: usize = 0;
    proof {
        assert(labels@.skip(0) =~= labels@);
    }
    while k < labels.len()
        invariant
            k <= labels@.len(),
            label_offset_of(labels@, name@) == label_offset_of(labels@.skip(k as int), name@),
        decreases labels@.len() - k,
    {
        proof {
            assert(labels@.skip(k as int)[0] == labels@[k as int]);
            assert(labels@.skip(k as int).drop_first() =~= labels@.skip(k as int + 1));
        }
        if crate::text::str_eq(labels[k].name.as_str(), name) {
            let off = labels[k].address;
            if off % 16 == 0 && off <= usize::MAX - base && base + off < mem_end {
                return Some((base + off) as u64);
            }
            return None;
        }
        k = k + 1;
    }
    proof {
        assert(labels@.skip(labels@.len() as int) =~= Seq::<crate::machine_context::Label>::empty());
    }
    None
}

/// The value-of rules, executably: numbers, registers and address labels
/// have values; an empty or offset operand has none; a symbolic label is
/// refused.
fn get_value(ctx: &MachineContext, operand: &Operand) -> (r: Result<Option<u64>, String>)
    ensures
        match spec_value(ctx_view(*ctx), *operand) {
            SpecVal::Val(v) => r matches Ok(o) && o == Some(v),
            SpecVal::Absent => r matches Ok(o) && o is None,
            SpecVal::NotAddress => r matches Err(e) && e@ == "Label is not an address"@,
        },
{
    match operand {
        Operand::Number(n) => Ok(Some(*n)),
        Operand::Register(reg) => Ok(Some(ctx.registers.get(reg))),
        Operand::Label(l) => match l {
            crate::parser::program::LabelValue::Address(n) => Ok(Some(*n as u64)),
            crate::parser::program::LabelValue::Literal(_) => Err(
                String::from_str("Label is not an address"),
            ),
        },
        _ => Ok(None),
    }
}

/// The jump target `base + value`, capped at the top of the address space.
fn jump_target(base: usize, v: u64) -> (r: u64)
    ensures
        r == jump_pc(base, v),
{
    let b = base as u64;
    if v > u64::MAX - b {
        u64::MAX
    } else {
        b + v
    }
}

/// An error text carrying the failing program counter.
fn msg_at(prefix: &str, pc: u64) -> (r: String)
    ensures
        r@ == at_ins(prefix@, pc),
{
    let mut m = String::from_str(prefix);
    let d = crate::numbers::u64_to_dec(pc);
    m.append(d.as_str());
    m.append(".");
    m
}

/// The error text for a plugin opcode nothing handled.
fn plugin_not_found_msg(name: &str) -> (r: String)
    ensures
        r@ == "Plugin for '"@ + name@ + "' not found"@,
{
    let mut m = String::from_str("Plugin for '");
    m.append(name);
    m.append("' not found");
    m
}

/// Running `Test` twice on the same operand values leaves exactly the
/// flag state one `Test` leaves: the comparison flags are a function of
/// the values alone.
pub proof fn lemma_test_idempotent(regs: Registers, l: u64, r: u64)
    ensures
        test_flags(test_flags(regs, l, r), l, r) == test_flags(regs, l, r),
{
}

/// A `Call` followed by a `Return`, with the call stack as the call left
/// it, puts the call stack back at its original depth and the program
/// counter on the instruction right after the `Call`.
pub proof fn lemma_call_return_round_trip(s1: MState, target: Operand, s3: MState)
    requires
        s1.regs.pc + 16 <= u64::MAX,
        exec_instruction_spec(
            s1,
            (Instruction { opcode: Opcode::Call, lhs: target, rhs: Operand::Empty }),
        ) matches StepModel::StepOk(s2, _),
        ({
            let m = exec_instruction_spec(
                s1,
                (Instruction { opcode: Opcode::Call, lhs: target, rhs: Operand::Empty }),
            );
            s3.call_stack == m->StepOk_0.call_stack
        }),
    ensures
        ({
            let m = exec_instruction_spec(
                s3,
                (Instruction { opcode: Opcode::Return, lhs: Operand::Empty, rhs: Operand::Empty }),
            );
            m matches StepModel::StepOk(s4, _) && s4.call_stack == s1.call_stack && s4.regs.pc
                == s1.regs.pc + 16
        }),
{
    assert(s3.call_stack.len() > 0);
    let m = exec_instruction_spec(
        s3,
        (Instruction { opcode: Opcode::Return, lhs: Operand::Empty, rhs: Operand::Empty }),
    );
    assert(s3.call_stack.drop_last() =~= s1.call_stack);
}

} // verus!
