//! The register file: sixteen general-purpose registers plus the hidden
//! comparison flags, stack-length counters and the program counter.

use vstd::prelude::*;

use crate::text::str_eq;

verus! {

/// One of the sixteen named general-purpose registers.  Each holds an
/// unsigned 64-bit machine word and is encoded as a 4-bit index.
#[derive(Debug, Clone, Copy, PartialEq, Eq, Structural)]
pub enum Register {
    Ra,
    Rb,
    Rc,
    Rd,
    Re,
    Rf,
    R0,
    R1,
    R2,
    R3,
    R4,
    R5,
    R6,
    R7,
    R8,
    R9,
}

impl Register {
    /// The 4-bit index of this register in the instruction encoding.
    pub open spec fn spec_encode(&self) -> u32 {
        match self {
            Register::Ra => 0,
            Register::Rb => 1,
            Register::Rc => 2,
            Register::Rd => 3,
            Register::Re => 4,
            Register::Rf => 5,
            Register::R0 => 6,
            Register::R1 => 7,
            Register::R2 => 8,
            Register::R3 => 9,
            Register::R4 => 10,
            Register::R5 => 11,
            Register::R6 => 12,
            Register::R7 => 13,
            Register::R8 => 14,
            Register::R9 => 15,
        }
    }

    /// The register with the given 4-bit index.
    pub open spec fn spec_decode(value: u32) -> Register {
        match value {
            0 => Register::Ra,
            1 => Register::Rb,
            2 => Register::Rc,
            3 => Register::Rd,
            4 => Register::Re,
            5 => Register::Rf,
            6 => Register::R0,
            7 => Register::R1,
            8 => Register::R2,
            9 => Register::R3,
            10 => Register::R4,
            11 => Register::R5,
            12 => Register::R6,
            13 => Register::R7,
            14 => Register::R8,
            _ => Register::R9,
        }
    }

    #[verifier::when_used_as_spec(spec_encode)]
    pub fn encode(&self) -> (r: u32)
        ensures
            r == self.spec_encode(),
            r < 16,
    {
        match self {
            Register::Ra => 0,
            Register::Rb => 1,
            Register::Rc => 2,
            Register::Rd => 3,
            Register::Re => 4,
            Register::Rf => 5,
            Register::R0 => 6,
            Register::R1 => 7,
            Register::R2 => 8,
            Register::R3 => 9,
            Register::R4 => 10,
            Register::R5 => 11,
            Register::R6 => 12,
            Register::R7 => 13,
            Register::R8 => 14,
            Register::R9 => 15,
        }
    }

    /// Decodes a 4-bit register index.  Indices of 16 and above do not name
    /// a register, so they are ruled out here; `Operand::decode` checks the
    /// payload before calling.
    pub fn decode(value: u32) -> (r: Register)
        requires
            value < 16,
        ensures
            r == Register::spec_decode(value),
            r.spec_encode() == value,
    {
        match value {
            0 => Register::Ra,
            1 => Register::Rb,
            2 => Register::Rc,
            3 => Register::Rd,
            4 => Register::Re,
            5 => Register::Rf,
            6 => Register::R0,
            7 => Register::R1,
            8 => Register::R2,
            9 => Register::R3,
            10 => Register::R4,
            11 => Register::R5,
            12 => Register::R6,
            13 => Register::R7,
            14 => Register::R8,
            _ => Register::R9,
        }
    }

    /// The register named by an assembly-source operand, or `None` when the
    /// text is not a register name.
    pub fn from_name(value: &str) -> (r: Option<Register>)
        ensures
            r == Register::spec_from_name(value@),
    {
        if str_eq(value, "ra") {
            Some(Register::Ra)
        } else if str_eq(value, "rb") {
            Some(Register::Rb)
        } else if str_eq(value, "rc") {
            Some(Register::Rc)
        } else if str_eq(value, "rd") {
            Some(Register::Rd)
        } else if str_eq(value, "re") {
            Some(Register::Re)
        } else if str_eq(value, "rf") {
            Some(Register::Rf)
        } else if str_eq(value, "r0") {
            Some(Register::R0)
        } else if str_eq(value, "r1") {
            Some(Register::R1)
        } else if str_eq(value, "r2") {
            Some(Register::R2)
        } else if str_eq(value, "r3") {
            Some(Register::R3)
        } else if str_eq(value, "r4") {
            Some(Register::R4)
        } else if str_eq(value, "r5") {
            Some(Register::R5)
        } else if str_eq(value, "r6") {
            Some(Register::R6)
        } else if str_eq(value, "r7") {
            Some(Register::R7)
        } else if str_eq(value, "r8") {
            Some(Register::R8)
        } else if str_eq(value, "r9") {
            Some(Register::R9)
        } else {
            None
        }
    }

    /// Which register a piece of source text names, if any.
    pub open spec fn spec_from_name(value: Seq<char>) -> Option<Register> {
        if value == "ra"@ {
            Some(Register::Ra)
        } else if value == "rb"@ {
            Some(Register::Rb)
        } else if value == "rc"@ {
            Some(Register::Rc)
        } else if value == "rd"@ {
            Some(Register::Rd)
        } else if value == "re"@ {
            Some(Register::Re)
        } else if value == "rf"@ {
            Some(Register::Rf)
        } else if value == "r0"@ {
            Some(Register::R0)
        } else if value == "r1"@ {
            Some(Register::R1)
        } else if value == "r2"@ {
            Some(Register::R2)
        } else if value == "r3"@ {
            Some(Register::R3)
        } else if value == "r4"@ {
            Some(Register::R4)
        } else if value == "r5"@ {
            Some(Register::R5)
        } else if value == "r6"@ {
            Some(Register::R6)
        } else if value == "r7"@ {
            Some(Register::R7)
        } else if value == "r8"@ {
            Some(Register::R8)
        } else if value == "r9"@ {
            Some(Register::R9)
        } else {
            None
        }
    }
}

/// The register file of one machine context: the sixteen general registers,
/// the three comparison flags written by `Test`, the stack-length counters,
/// and the program counter.  The flags and the program counter are not
/// addressable by user code; the dispatch loop and host calls read and write
/// them through the dedicated accessors.
#[derive(Debug, Clone, PartialEq, Eq, Structural)]
pub struct Registers {
    pub ra: u64,
    pub rb: u64,
    pub rc: u64,
    pub rd: u64,
    pub re: u64,
    pub rf: u64,
    pub r0: u64,
    pub r1: u64,
    pub r2: u64,
    pub r3: u64,
    pub r4: u64,
    pub r5: u64,
    pub r6: u64,
    pub r7: u64,
    pub r8: u64,
    pub r9: u64,
    pub equals_flag: bool,
    pub greater_than_flag: bool,
    pub less_than_flag: bool,
    pub stack_len: u64,
    pub call_stack_len: u64,
    pub pc: u64,
}

impl Registers {
    /// The register file at machine start: every register zero, every flag
    /// clear, the program counter zero.
    pub open spec fn initial() -> Registers {
        Registers {
            ra: 0,
            rb: 0,
            rc: 0,
            rd: 0,
            re: 0,
            rf: 0,
            r0: 0,
            r1: 0,
            r2: 0,
            r3: 0,
            r4: 0,
            r5: 0,
            r6: 0,
            r7: 0,
            r8: 0,
            r9: 0,
            equals_flag: false,
            greater_than_flag: false,
            less_than_flag: false,
            stack_len: 0,
            call_stack_len: 0,
            pc: 0,
        }
    }

    /// The value of one general register.
    pub open spec fn read(self, register: Register) -> u64 {
        match register {
            Register::Ra => self.ra,
            Register::Rb => self.rb,
            Register::Rc => self.rc,
            Register::Rd => self.rd,
            Register::Re => self.re,
            Register::Rf => self.rf,
            Register::R0 => self.r0,
            Register::R1 => self.r1,
            Register::R2 => self.r2,
            Register::R3 => self.r3,
            Register::R4 => self.r4,
            Register::R5 => self.r5,
            Register::R6 => self.r6,
            Register::R7 => self.r7,
            Register::R8 => self.r8,
            Register::R9 => self.r9,
        }
    }

    /// The register file after writing one general register; all other
    /// fields are unchanged.
    pub open spec fn write(self, register: Register, value: u64) -> Registers {
        match register {
            Register::Ra => Registers { ra: value, ..self },
            Register::Rb => Registers { rb: value, ..self },
            Register::Rc => Registers { rc: value, ..self },
            Register::Rd => Registers { rd: value, ..self },
            Register::Re => Registers { re: value, ..self },
            Register::Rf => Registers { rf: value, ..self },
            Register::R0 => Registers { r0: value, ..self },
            Register::R1 => Registers { r1: value, ..self },
            Register::R2 => Registers { r2: value, ..self },
            Register::R3 => Registers { r3: value, ..self },
            Register::R4 => Registers { r4: value, ..self },
            Register::R5 => Registers { r5: value, ..self },
            Register::R6 => Registers { r6: value, ..self },
            Register::R7 => Registers { r7: value, ..self },
            Register::R8 => Registers { r8: value, ..self },
            Register::R9 => Registers { r9: value, ..self },
        }
    }

    pub fn new() -> (r: Registers)
        ensures
            r == Registers::initial(),
    {
        Registers {
            ra: 0,
            rb: 0,
            rc: 0,
            rd: 0,
            re: 0,
            rf: 0,
            r0: 0,
            r1: 0,
            r2: 0,
            r3: 0,
            r4: 0,
            r5: 0,
            r6: 0,
            r7: 0,
            r8: 0,
            r9: 0,
            equals_flag: false,
            greater_than_flag: false,
            less_than_flag: false,
            stack_len: 0,
            call_stack_len: 0,
            pc: 0,
        }
    }

    pub fn get(&self, register: &Register) -> (r: u64)
        ensures
            r == self.read(*register),
    {
        match register {
            Register::Ra => self.ra,
            Register::Rb => self.rb,
            Register::Rc => self.rc,
            Register::Rd => self.rd,
            Register::Re => self.re,
            Register::Rf => self.rf,
            Register::R0 => self.r0,
            Register::R1 => self.r1,
            Register::R2 => self.r2,
            Register::R3 => self.r3,
            Register::R4 => self.r4,
            Register::R5 => self.r5,
            Register::R6 => self.r6,
            Register::R7 => self.r7,
            Register::R8 => self.r8,
            Register::R9 => self.r9,
        }
    }

    pub fn set(&mut self, register: &Register, value: u64)
        ensures
            *final(self) == old(self).write(*register, value),
    {
        match register {
            Register::Ra => self.ra = value,
            Register::Rb => self.rb = value,
            Register::Rc => self.rc = value,
            Register::Rd => self.rd = value,
            Register::Re => self.re = value,
            Register::Rf => self.rf = value,
            Register::R0 => self.r0 = value,
            Register::R1 => self.r1 = value,
            Register::R2 => self.r2 = value,
            Register::R3 => self.r3 = value,
            Register::R4 => self.r4 = value,
            Register::R5 => self.r5 = value,
            Register::R6 => self.r6 = value,
            Register::R7 => self.r7 = value,
            Register::R8 => self.r8 = value,
            Register::R9 => self.r9 = value,
        }
    }

    pub fn check_equals_flag(&self) -> (r: bool)
        ensures
            r == self.equals_flag,
    {
        self.equals_flag
    }

    pub fn set_equals_flag(&mut self, u: bool)
        ensures
            *final(self) == (Registers { equals_flag: u, ..*old(self) }),
    {
        self.equals_flag = u;
    }

    pub fn check_greater_than_flag(&self) -> (r: bool)
        ensures
            r == self.greater_than_flag,
    {
        self.greater_than_flag
    }

    pub fn set_greater_than_flag(&mut self, u: bool)
        ensures
            *final(self) == (Registers { greater_than_flag: u, ..*old(self) }),
    {
        self.greater_than_flag = u;
    }

    pub fn check_less_than_flag(&self) -> (r: bool)
        ensures
            r == self.less_than_flag,
    {
        self.less_than_flag
    }

    pub fn set_less_than_flag(&mut self, u: bool)
        ensures
            *final(self) == (Registers { less_than_flag: u, ..*old(self) }),
    {
        self.less_than_flag = u;
    }

    pub fn check_stack_len(&self) -> (r: u64)
        ensures
            r == self.stack_len,
    {
        self.stack_len
    }

    pub fn set_stack_len(&mut self, u: u64)
        ensures
            *final(self) == (Registers { stack_len: u, ..*old(self) }),
    {
        self.stack_len = u;
    }

    pub fn check_call_stack_len(&self) -> (r: u64)
        ensures
            r == self.call_stack_len,
    {
        self.call_stack_len
    }

    pub fn set_call_stack_len(&mut self, u: u64)
        ensures
            *final(self) == (Registers { call_stack_len: u, ..*old(self) }),
    {
        self.call_stack_len = u;
    }

    pub fn check_pc(&self) -> (r: u64)
        ensures
            r == self.pc,
    {
        self.pc
    }

    pub fn set_pc(&mut self, u: u64)
        ensures
            *final(self) == (Registers { pc: u, ..*old(self) }),
    {
        self.pc = u;
    }

    /// Advances the program counter by one 16-byte instruction slot.
    pub fn increment_pc(&mut self)
        requires
            old(self).pc + 16 <= u64::MAX,
        ensures
            *final(self) == (Registers { pc: (old(self).pc + 16) as u64, ..*old(self) }),
    {
        self.pc = self.pc + 16;
    }

    /// Clears the three comparison flags, as `Test` does before comparing.
    pub fn reset_flags(&mut self)
        ensures
            *final(self) == (Registers {
                equals_flag: false,
                greater_than_flag: false,
                less_than_flag: false,
                ..*old(self)
            }),
    {
        self.equals_flag = false;
        self.greater_than_flag = false;
        self.less_than_flag = false;
    }
}

} // verus!
