//! The opcode set: a closed arithmetic/flow set encoded as small integers,
//! plus an open `Plugin` variant that carries the name of an externally
//! handled opcode, or after encoding the address of that name in memory.

use vstd::prelude::*;

use crate::table::LiteralTable;
use crate::text::{lower_seq, str_eq, to_ascii_lower};

verus! {

/// What a `Plugin` opcode carries: nothing yet, the opcode's name as
/// written in the source, or after encoding the byte address of that name
/// in memory.
#[derive(Debug, Clone, PartialEq)]
pub enum PluginValue {
    Unset,
    Name(String),
    Address(u32),
}

/// One operation of the instruction set.  The closed set encodes to a
/// fixed tag; `Plugin` encodes to the reserved tag 27 and additionally
/// carries the address of its name string.
#[derive(Debug, Clone, PartialEq)]
pub enum Opcode {
    Mov,
    Add,
    Sub,
    Mul,
    Div,
    Mod,
    Xor,
    Inc,
    Dec,
    Push,
    Pop,
    Dup,
    Test,
    Jmp,
    Je,
    Jne,
    Jle,
    Jge,
    Jl,
    Jg,
    Call,
    Return,
    Assert,
    Print,
    Sleep,
    Nop,
    Halt,
    Plugin(PluginValue),
}

/// The closed-set opcode written with the given (lowercased) mnemonic, if
/// there is one.  A mnemonic outside the closed set names a plugin opcode.
pub open spec fn opcode_of_mnemonic(l: Seq<char>) -> Option<Opcode> {
    if l == "mov"@ {
        Some(Opcode::Mov)
    } else if l == "add"@ {
        Some(Opcode::Add)
    } else if l == "sub"@ {
        Some(Opcode::Sub)
    } else if l == "mul"@ {
        Some(Opcode::Mul)
    } else if l == "div"@ {
        Some(Opcode::Div)
    } else if l == "mod"@ {
        Some(Opcode::Mod)
    } else if l == "xor"@ {
        Some(Opcode::Xor)
    } else if l == "inc"@ {
        Some(Opcode::Inc)
    } else if l == "dec"@ {
        Some(Opcode::Dec)
    } else if l == "push"@ {
        Some(Opcode::Push)
    } else if l == "pop"@ {
        Some(Opcode::Pop)
    } else if l == "dup"@ {
        Some(Opcode::Dup)
    } else if l == "test"@ {
        Some(Opcode::Test)
    } else if l == "jmp"@ {
        Some(Opcode::Jmp)
    } else if l == "je"@ {
        Some(Opcode::Je)
    } else if l == "jne"@ {
        Some(Opcode::Jne)
    } else if l == "jle"@ {
        Some(Opcode::Jle)
    } else if l == "jge"@ {
        Some(Opcode::Jge)
    } else if l == "jl"@ {
        Some(Opcode::Jl)
    } else if l == "jg"@ {
        Some(Opcode::Jg)
    } else if l == "call"@ {
        Some(Opcode::Call)
    } else if l == "ret"@ {
        Some(Opcode::Return)
    } else if l == "assert"@ {
        Some(Opcode::Assert)
    } else if l == "print"@ {
        Some(Opcode::Print)
    } else if l == "sleep"@ {
        Some(Opcode::Sleep)
    } else if l == "nop"@ {
        Some(Opcode::Nop)
    } else if l == "hlt"@ {
        Some(Opcode::Halt)
    } else {
        None
    }
}

impl Opcode {
    /// The 6-bit tag this opcode encodes to.
    pub open spec fn spec_to_u8(&self) -> u8 {
        match self {
            Opcode::Mov => 0,
            Opcode::Add => 1,
            Opcode::Sub => 2,
            Opcode::Mul => 3,
            Opcode::Div => 4,
            Opcode::Mod => 5,
            Opcode::Xor => 6,
            Opcode::Inc => 7,
            Opcode::Dec => 8,
            Opcode::Push => 9,
            Opcode::Pop => 10,
            Opcode::Dup => 11,
            Opcode::Test => 12,
            Opcode::Jmp => 13,
            Opcode::Je => 14,
            Opcode::Jne => 15,
            Opcode::Jle => 16,
            Opcode::Jge => 17,
            Opcode::Jl => 18,
            Opcode::Jg => 19,
            Opcode::Call => 20,
            Opcode::Return => 21,
            Opcode::Assert => 22,
            Opcode::Print => 23,
            Opcode::Sleep => 24,
            Opcode::Nop => 25,
            Opcode::Halt => 26,
            Opcode::Plugin(_) => 27,
        }
    }

    /// The opcode a 6-bit tag decodes to.  Tags above 27 fall back to
    /// `Nop`; tag 27 gives a `Plugin` opcode whose value the instruction
    /// decoder fills in from the address field.
    pub open spec fn spec_from_u8(value: u8) -> Opcode {
        match value {
            0 => Opcode::Mov,
            1 => Opcode::Add,
            2 => Opcode::Sub,
            3 => Opcode::Mul,
            4 => Opcode::Div,
            5 => Opcode::Mod,
            6 => Opcode::Xor,
            7 => Opcode::Inc,
            8 => Opcode::Dec,
            9 => Opcode::Push,
            10 => Opcode::Pop,
            11 => Opcode::Dup,
            12 => Opcode::Test,
            13 => Opcode::Jmp,
            14 => Opcode::Je,
            15 => Opcode::Jne,
            16 => Opcode::Jle,
            17 => Opcode::Jge,
            18 => Opcode::Jl,
            19 => Opcode::Jg,
            20 => Opcode::Call,
            21 => Opcode::Return,
            22 => Opcode::Assert,
            23 => Opcode::Print,
            24 => Opcode::Sleep,
            25 => Opcode::Nop,
            26 => Opcode::Halt,
            27 => Opcode::Plugin(PluginValue::Unset),
            _ => Opcode::Nop,
        }
    }

    /// Whether this is a `Plugin` opcode.
    pub fn is_plugin(&self) -> (r: bool)
        ensures
            r == (self is Plugin),
    {
        match self {
            Opcode::Plugin(_) => true,
            _ => false,
        }
    }

    /// The byte address of this plugin opcode's name: the carried address,
    /// or the literal table's entry for the carried name.  Only a `Plugin`
    /// opcode whose name the table resolves has one.
    pub fn get_plugin_address(&self, literal_map: &LiteralTable) -> (r: u32)
        requires
            match self {
                Opcode::Plugin(v) => match v {
                    PluginValue::Address(_) => true,
                    PluginValue::Name(n) => literal_map.spec_contains(n@),
                    PluginValue::Unset => false,
                },
                _ => false,
            },
        ensures
            match self {
                Opcode::Plugin(v) => match v {
                    PluginValue::Address(a) => r == a,
                    PluginValue::Name(n) => literal_map.spec_get(n@) matches Some(a) && r == a as u32,
                    PluginValue::Unset => false,
                },
                _ => false,
            },
    {
        match self {
            Opcode::Plugin(v) => match v {
                PluginValue::Address(address) => *address,
                PluginValue::Name(name) => {
                    let address = literal_map.get(name.as_str()).unwrap();
                    address as u32
                },
                PluginValue::Unset => unreached(),
            },
            _ => unreached(),
        }
    }

    #[verifier::when_used_as_spec(spec_to_u8)]
    pub fn to_u8(&self) -> (r: u8)
        ensures
            r == self.spec_to_u8(),
            r <= 27,
    {
        match self {
            Opcode::Mov => 0,
            Opcode::Add => 1,
            Opcode::Sub => 2,
            Opcode::Mul => 3,
            Opcode::Div => 4,
            Opcode::Mod => 5,
            Opcode::Xor => 6,
            Opcode::Inc => 7,
            Opcode::Dec => 8,
            Opcode::Push => 9,
            Opcode::Pop => 10,
            Opcode::Dup => 11,
            Opcode::Test => 12,
            Opcode::Jmp => 13,
            Opcode::Je => 14,
            Opcode::Jne => 15,
            Opcode::Jle => 16,
            Opcode::Jge => 17,
            Opcode::Jl => 18,
            Opcode::Jg => 19,
            Opcode::Call => 20,
            Opcode::Return => 21,
            Opcode::Assert => 22,
            Opcode::Print => 23,
            Opcode::Sleep => 24,
            Opcode::Nop => 25,
            Opcode::Halt => 26,
            Opcode::Plugin(_) => 27,
        }
    }

    pub fn from_u8(value: u8) -> (r: Opcode)
        ensures
            r == Opcode::spec_from_u8(value),
    {
        match value {
            0 => Opcode::Mov,
            1 => Opcode::Add,
            2 => Opcode::Sub,
            3 => Opcode::Mul,
            4 => Opcode::Div,
            5 => Opcode::Mod,
            6 => Opcode::Xor,
            7 => Opcode::Inc,
            8 => Opcode::Dec,
            9 => Opcode::Push,
            10 => Opcode::Pop,
            11 => Opcode::Dup,
            12 => Opcode::Test,
            13 => Opcode::Jmp,
            14 => Opcode::Je,
            15 => Opcode::Jne,
            16 => Opcode::Jle,
            17 => Opcode::Jge,
            18 => Opcode::Jl,
            19 => Opcode::Jg,
            20 => Opcode::Call,
            21 => Opcode::Return,
            22 => Opcode::Assert,
            23 => Opcode::Print,
            24 => Opcode::Sleep,
            25 => Opcode::Nop,
            26 => Opcode::Halt,
            27 => Opcode::Plugin(PluginValue::Unset),
            _ => Opcode::Nop,
        }
    }

    /// The opcode written with this mnemonic: the closed-set opcode when the
    /// lowercased text is one of the fixed mnemonics, otherwise a plugin
    /// opcode carrying the text as written.
    pub fn from_mnemonic(value: String) -> (r: Opcode)
        ensures
            match opcode_of_mnemonic(lower_seq(value@)) {
                Some(op) => r == op,
                None => r matches Opcode::Plugin(PluginValue::Name(n)) && n@ == value@,
            },
    {
        let lowered = to_ascii_lower(value.as_str());
        let l = lowered.as_str();
        if str_eq(l, "mov") {
            Opcode::Mov
        } else if str_eq(l, "add") {
            Opcode::Add
        } else if str_eq(l, "sub") {
            Opcode::Sub
        } else if str_eq(l, "mul") {
            Opcode::Mul
        } else if str_eq(l, "div") {
            Opcode::Div
        } else if str_eq(l, "mod") {
            Opcode::Mod
        } else if str_eq(l, "xor") {
            Opcode::Xor
        } else if str_eq(l, "inc") {
            Opcode::Inc
        } else if str_eq(l, "dec") {
            Opcode::Dec
        } else if str_eq(l, "push") {
            Opcode::Push
        } else if str_eq(l, "pop") {
            Opcode::Pop
        } else if str_eq(l, "dup") {
            Opcode::Dup
        } else if str_eq(l, "test") {
            Opcode::Test
        } else if str_eq(l, "jmp") {
            Opcode::Jmp
        } else if str_eq(l, "je") {
            Opcode::Je
        } else if str_eq(l, "jne") {
            Opcode::Jne
        } else if str_eq(l, "jle") {
            Opcode::Jle
        } else if str_eq(l, "jge") {
            Opcode::Jge
        } else if str_eq(l, "jl") {
            Opcode::Jl
        } else if str_eq(l, "jg") {
            Opcode::Jg
        } else if str_eq(l, "call") {
            Opcode::Call
        } else if str_eq(l, "ret") {
            Opcode::Return
        } else if str_eq(l, "assert") {
            Opcode::Assert
        } else if str_eq(l, "print") {
            Opcode::Print
        } else if str_eq(l, "sleep") {
            Opcode::Sleep
        } else if str_eq(l, "nop") {
            Opcode::Nop
        } else if str_eq(l, "hlt") {
            Opcode::Halt
        } else {
            Opcode::Plugin(PluginValue::Name(value))
        }
    }
}

} // verus!
