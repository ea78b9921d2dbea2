//! Operands: the tagged union of nothing, a register, a number, a label
//! (symbolic before encoding, an address after) and a bracketed offset
//! form, together with their 32-bit payload encoding.

use vstd::prelude::*;

use crate::numbers::{dec_value, hex_value, is_dec_text, is_hex_text, parse_dec, parse_hex};
use crate::parser::program::LabelValue;
use crate::register::Register;
use crate::table::{assoc_lookup, LiteralTable};
use crate::text::str_to_chars;

verus! {

/// A bracketed offset operand, `[base (+|-) disp]`, kept in its source
/// form.  Offsets are reserved: the encoder and the dispatch loop do not
/// give them a meaning yet.
#[derive(Debug, Clone, PartialEq)]
pub struct Offset {
    pub lhs_operand: String,
    pub operator: Option<String>,
    pub rhs_operand: Option<String>,
}

impl View for Offset {
    type V = crate::lexer::token::OffsetView;

    open spec fn view(&self) -> crate::lexer::token::OffsetView {
        crate::lexer::token::OffsetView {
            lhs: self.lhs_operand@,
            operator: match self.operator {
                Some(o) => Some(o@),
                None => None,
            },
            rhs: match self.rhs_operand {
                Some(r) => Some(r@),
                None => None,
            },
        }
    }
}

/// One side of an instruction.
#[derive(Debug, Clone, PartialEq)]
pub enum Operand {
    Empty,
    Register(Register),
    Number(u64),
    Label(LabelValue),
    Offset(Offset),
}

/// The number a source operand stands for, if it is one: either one or
/// more decimal digits, or `0x` followed by hexadecimal digits, in both
/// cases with a value that fits in a 64-bit word.
pub open spec fn spec_number_of_text(s: Seq<char>) -> Option<u64> {
    if is_dec_text(s) && dec_value(s) <= u64::MAX {
        Some(dec_value(s) as u64)
    } else if s.len() >= 2 && s[0] == '0' && s[1] == 'x' && is_hex_text(s.skip(2)) && hex_value(
        s.skip(2),
    ) <= u64::MAX {
        Some(hex_value(s.skip(2)) as u64)
    } else {
        None
    }
}

impl Operand {
    /// The register this operand names.  Anything but a register operand is
    /// refused.
    pub fn get_register(&self) -> (r: Result<Register, String>)
        ensures
            match self {
                Operand::Register(reg) => r matches Ok(g) && g == reg,
                _ => r matches Err(e) && e@ == "Register not valid"@,
            },
    {
        match self {
            Operand::Register(register) => Ok(*register),
            _ => Err(String::from_str("Register not valid")),
        }
    }

    /// The number this operand holds.  Anything but a number operand is
    /// refused.
    pub fn get_number(&self) -> (r: Result<u64, String>)
        ensures
            match self {
                Operand::Number(n) => r matches Ok(m) && m == n,
                _ => r matches Err(e) && e@ == "Number not valid"@,
            },
    {
        match self {
            Operand::Number(number) => Ok(*number),
            _ => Err(String::from_str("Number not valid")),
        }
    }

    /// The type tag of this operand in the instruction encoding.
    pub open spec fn spec_operand_type(&self) -> u8 {
        match self {
            Operand::Empty => 0,
            Operand::Register(_) => 1,
            Operand::Number(_) => 2,
            Operand::Label(_) => 3,
            Operand::Offset(_) => 4,
        }
    }

    #[verifier::when_used_as_spec(spec_operand_type)]
    pub fn operand_type(&self) -> (r: u8)
        ensures
            r == self.spec_operand_type(),
    {
        match self {
            Operand::Empty => 0,
            Operand::Register(_) => 1,
            Operand::Number(_) => 2,
            Operand::Label(_) => 3,
            Operand::Offset(_) => 4,
        }
    }

    /// The 32-bit payload this operand encodes to: nothing and offsets give
    /// zero; a register its index; a number its low 32 bits; a label its
    /// byte address, a still-symbolic name resolved through the literal
    /// table, or zero when the table does not know it.
    pub open spec fn spec_encode(&self, literal_map: Seq<(Seq<char>, usize)>) -> u32 {
        match self {
            Operand::Empty => 0,
            Operand::Register(reg) => reg.spec_encode(),
            Operand::Number(n) => n as u32,
            Operand::Label(label) => match label {
                LabelValue::Literal(l) => match assoc_lookup(literal_map, l@) {
                    Some(a) => a as u32,
                    None => 0,
                },
                LabelValue::Address(a) => a as u32,
            },
            Operand::Offset(_) => 0,
        }
    }

    pub fn encode(&self, literal_map: &LiteralTable) -> (r: u32)
        ensures
            r == self.spec_encode(literal_map@),
    {
        match self {
            Operand::Register(register) => register.encode(),
            Operand::Number(number) => *number as u32,
            Operand::Label(label) => match label {
                LabelValue::Literal(literal) => match literal_map.get(literal.as_str()) {
                    Some(res) => res as u32,
                    None => 0,
                },
                LabelValue::Address(address) => *address as u32,
            },
            _ => 0,
        }
    }

    /// The operand a type tag and payload decode to.  A register payload of
    /// 16 or above names no register; `Instruction::try_decode` rejects such
    /// a word before this runs.
    pub open spec fn spec_decode(operand_type: u8, operand: u32) -> Operand {
        if operand_type == 1 {
            Operand::Register(Register::spec_decode(operand))
        } else if operand_type == 2 {
            Operand::Number(operand as u64)
        } else if operand_type == 3 {
            Operand::Label(LabelValue::Address(operand as usize))
        } else {
            Operand::Empty
        }
    }

    pub fn decode(operand_type: u8, operand: u32) -> (r: Operand)
        requires
            operand_type == 1 ==> operand < 16,
        ensures
            r == Operand::spec_decode(operand_type, operand),
    {
        match operand_type {
            1 => Operand::Register(Register::decode(operand)),
            2 => Operand::Number(operand as u64),
            3 => Operand::Label(LabelValue::Address(operand as usize)),
            _ => Operand::Empty,
        }
    }

    /// Whether the operand is an offset form.
    pub fn is_offset(&self) -> (r: bool)
        ensures
            r == (self is Offset),
    {
        match self {
            Operand::Offset(_) => true,
            _ => false,
        }
    }

    /// The operand a piece of source text stands for: a number if the text
    /// is decimal digits or `0x`-prefixed hexadecimal digits, else a
    /// register if the text names one, else a symbolic label.
    pub fn from_text(value: String) -> (r: Operand)
        ensures
            match spec_number_of_text(value@) {
                Some(n) => r == Operand::Number(n),
                None => match Register::spec_from_name(value@) {
                    Some(reg) => r == Operand::Register(reg),
                    None => r matches Operand::Label(LabelValue::Literal(l)) && l@ == value@,
                },
            },
    {
        let chars = str_to_chars(value.as_str());
        proof {
            assert(chars@.subrange(0, chars@.len() as int) =~= chars@);
        }
        if let Some(n) = parse_dec(&chars, 0, chars.len()) {
            return Operand::Number(n);
        }
        if chars.len() >= 2 && chars[0] == '0' && chars[1] == 'x' {
            proof {
                assert(chars@.subrange(2, chars@.len() as int) =~= chars@.skip(2));
            }
            if let Some(n) = parse_hex(&chars, 2, chars.len()) {
                return Operand::Number(n);
            }
        }
        match Register::from_name(value.as_str()) {
            Some(reg) => Operand::Register(reg),
            None => Operand::Label(LabelValue::Literal(value)),
        }
    }
}

} // verus!
