//! Instructions and their 128-bit encoding.  One instruction is an opcode
//! with up to two operands; it encodes into one 16-byte slot laid out, from
//! the most significant bit down: a 6-bit opcode tag, a 2-bit operand
//! count, a 2-bit type tag and 32-bit payload for each side, a 32-bit
//! plugin-name address, and 20 reserved zero bits.

use vstd::prelude::*;

use crate::opcode::{Opcode, PluginValue};
use crate::operand::Operand;
use crate::parser::program::LabelValue;
use crate::register::Register;
use crate::table::{assoc_lookup, LiteralTable};

verus! {

/// One instruction: an opcode and its two operand sides.
#[derive(Debug, Clone, PartialEq)]
pub struct Instruction {
    pub opcode: Opcode,
    pub lhs: Operand,
    pub rhs: Operand,
}

/// The 32-bit plugin-name address field: a plugin opcode's carried address,
/// or its name's offset in the literal table (zero while unresolved); zero
/// for the closed set.
pub open spec fn spec_plugin_payload(opcode: Opcode, literal_map: Seq<(Seq<char>, usize)>) -> u32 {
    match opcode {
        Opcode::Plugin(v) => match v {
            PluginValue::Address(a) => a,
            PluginValue::Name(n) => match assoc_lookup(literal_map, n@) {
                Some(a) => a as u32,
                None => 0,
            },
            PluginValue::Unset => 0,
        },
        _ => 0,
    }
}

impl Instruction {
    pub fn new(opcode: Opcode, lhs: Operand, rhs: Operand) -> (r: Instruction)
        ensures
            r == (Instruction { opcode, lhs, rhs }),
    {
        Instruction { opcode, lhs, rhs }
    }

    pub fn new_l(opcode: Opcode, lhs: Operand) -> (r: Instruction)
        ensures
            r == (Instruction { opcode, lhs, rhs: Operand::Empty }),
    {
        Instruction { opcode, lhs, rhs: Operand::Empty }
    }

    pub fn new_e(opcode: Opcode) -> (r: Instruction)
        ensures
            r == (Instruction { opcode, lhs: Operand::Empty, rhs: Operand::Empty }),
    {
        Instruction { opcode, lhs: Operand::Empty, rhs: Operand::Empty }
    }

    /// The 2-bit operand count field: no operands, or one or two sides in
    /// use.  A left side alone still counts as two, with an empty right
    /// side; only a wholly empty pair counts as zero.
    pub open spec fn spec_operand_count(&self) -> u8 {
        match (&self.lhs, &self.rhs) {
            (Operand::Empty, Operand::Empty) => 0,
            (Operand::Empty, _) => 1,
            _ => 2,
        }
    }

    pub fn operand_count(&self) -> (r: u8)
        ensures
            r == self.spec_operand_count(),
    {
        match (&self.lhs, &self.rhs) {
            (Operand::Empty, Operand::Empty) => 0,
            (Operand::Empty, _) => 1,
            _ => 2,
        }
    }

    /// The 128-bit word this instruction encodes to, with symbolic labels
    /// and plugin names resolved through the literal table.
    pub open spec fn spec_encode(&self, literal_map: Seq<(Seq<char>, usize)>) -> u128 {
        ((self.opcode.spec_to_u8() as u128) << 122) | ((self.spec_operand_count() as u128) << 120)
            | ((self.lhs.spec_operand_type() as u128) << 118) | ((self.lhs.spec_encode(
            literal_map,
        ) as u128) << 86) | ((self.rhs.spec_operand_type() as u128) << 84) | ((self.rhs.spec_encode(
            literal_map,
        ) as u128) << 52) | ((spec_plugin_payload(self.opcode, literal_map) as u128) << 20)
    }

    pub fn encode(&self, literal_map: &LiteralTable) -> (r: u128)
        requires
            self.opcode matches Opcode::Plugin(v) ==> match v {
                PluginValue::Address(_) => true,
                PluginValue::Name(n) => assoc_lookup(literal_map@, n@) is Some,
                PluginValue::Unset => false,
            },
        ensures
            r == self.spec_encode(literal_map@),
    {
        let mut instruction = 0u128;
        instruction = instruction | ((self.opcode.to_u8() as u128) << 122);
        instruction = instruction | ((self.operand_count() as u128) << 120);
        instruction = instruction | ((self.lhs.operand_type() as u128) << 118);
        instruction = instruction | ((self.lhs.encode(literal_map) as u128) << 86);
        instruction = instruction | ((self.rhs.operand_type() as u128) << 84);
        instruction = instruction | ((self.rhs.encode(literal_map) as u128) << 52);
        if self.opcode.is_plugin() {
            instruction = instruction | ((self.opcode.get_plugin_address(literal_map) as u128)
                << 20);
        } else {
            proof {
                let w = instruction;
                assert(w | ((0u32 as u128) << 20) == w) by (bit_vector);
            }
        }
        proof {
            assert(0u128 | ((self.opcode.spec_to_u8() as u128) << 122) == (
            self.opcode.spec_to_u8() as u128) << 122) by (bit_vector);
        }
        instruction
    }

    /// Whether a 128-bit word decodes without naming a register that does
    /// not exist: wherever an operand in use carries the register type tag,
    /// its payload is a 4-bit register index.
    pub open spec fn spec_decodable(w: u128) -> bool {
        let count = (w >> 120) & 3;
        let lhs_ok = ((w >> 118) & 3) != 1 || ((w >> 86) & 0xFFFF_FFFF) < 16;
        let rhs_ok = ((w >> 84) & 3) != 1 || ((w >> 52) & 0xFFFF_FFFF) < 16;
        &&& (count == 1 ==> lhs_ok)
        &&& (count == 2 ==> lhs_ok && rhs_ok)
    }

    /// The instruction a 128-bit word decodes to.  Label operands come out
    /// address-valued, and a plugin opcode carries the address of its name.
    pub open spec fn spec_decode(w: u128) -> Instruction {
        let tag_opcode = Opcode::spec_from_u8((w >> 122) as u8);
        let opcode = if tag_opcode is Plugin {
            Opcode::Plugin(PluginValue::Address(((w >> 20) & 0xFFFF_FFFF) as u32))
        } else {
            tag_opcode
        };
        let count = (w >> 120) & 3;
        let lhs = Operand::spec_decode(((w >> 118) & 3) as u8, ((w >> 86) & 0xFFFF_FFFF) as u32);
        let rhs = Operand::spec_decode(((w >> 84) & 3) as u8, ((w >> 52) & 0xFFFF_FFFF) as u32);
        if count == 1 {
            Instruction { opcode, lhs, rhs: Operand::Empty }
        } else if count == 2 {
            Instruction { opcode, lhs, rhs }
        } else {
            Instruction { opcode, lhs: Operand::Empty, rhs: Operand::Empty }
        }
    }

    /// Decodes a 128-bit word, refusing one whose register-typed operand
    /// payload is not a register index, as the dispatch loop must on a
    /// corrupt fetch.
    pub fn try_decode(instruction: u128) -> (r: Result<Instruction, String>)
        ensures
            match r {
                Ok(i) => Instruction::spec_decodable(instruction) && i == Instruction::spec_decode(
                    instruction,
                ),
                Err(e) => !Instruction::spec_decodable(instruction) && e@
                    == "Bad register format!"@,
            },
    {
        proof {
            let w = instruction;
            assert((w >> 120) & 3 < 4 && (w >> 118) & 3 < 4 && (w >> 84) & 3 < 4 && (w >> 86)
                & 0xFFFF_FFFF < 0x1_0000_0000 && (w >> 52) & 0xFFFF_FFFF < 0x1_0000_0000) by (bit_vector);
        }
        let count = ((instruction >> 120) & 3) as u8;
        let lhs_type = ((instruction >> 118) & 3) as u8;
        let lhs_payload = ((instruction >> 86) & 0xFFFF_FFFF) as u32;
        let rhs_type = ((instruction >> 84) & 3) as u8;
        let rhs_payload = ((instruction >> 52) & 0xFFFF_FFFF) as u32;
        let lhs_ok = lhs_type != 1 || lhs_payload < 16;
        let rhs_ok = rhs_type != 1 || rhs_payload < 16;
        let ok = if count == 1 {
            lhs_ok
        } else if count == 2 {
            lhs_ok && rhs_ok
        } else {
            true
        };
        if !ok {
            return Err(String::from_str("Bad register format!"));
        }
        let mut opcode = Opcode::from_u8((instruction >> 122) as u8);
        if opcode.is_plugin() {
            opcode = Opcode::Plugin(PluginValue::Address(((instruction >> 20) & 0xFFFF_FFFF) as u32));
        }
        if count == 1 {
            let lhs = Operand::decode(lhs_type, lhs_payload);
            Ok(Instruction::new_l(opcode, lhs))
        } else if count == 2 {
            let lhs = Operand::decode(lhs_type, lhs_payload);
            let rhs = Operand::decode(rhs_type, rhs_payload);
            Ok(Instruction::new(opcode, lhs, rhs))
        } else {
            Ok(Instruction::new_e(opcode))
        }
    }

    /// Decodes a 128-bit word known to carry well-formed register indices,
    /// as every word that `encode` produced does.
    pub fn decode(instruction: u128) -> (r: Instruction)
        requires
            Instruction::spec_decodable(instruction),
        ensures
            r == Instruction::spec_decode(instruction),
    {
        match Instruction::try_decode(instruction) {
            Ok(i) => i,
            Err(_) => unreached(),
        }
    }

    /// What encoding keeps of an instruction: symbolic label operands
    /// resolve to their literal-table address (zero when the table does not
    /// know the name), a plugin opcode's value becomes the address of its
    /// name, and everything else stays as it is.
    pub open spec fn normalize(&self, literal_map: Seq<(Seq<char>, usize)>) -> Instruction {
        Instruction {
            opcode: if self.opcode is Plugin {
                Opcode::Plugin(PluginValue::Address(spec_plugin_payload(self.opcode, literal_map)))
            } else {
                self.opcode
            },
            lhs: normalize_operand(self.lhs, literal_map),
            rhs: normalize_operand(self.rhs, literal_map),
        }
    }

    /// Whether the encoding loses nothing of this instruction: no reserved
    /// offset operand, no right side without a left side, every number and
    /// address payload within 32 bits, and a plugin opcode whose name the
    /// literal table resolves to a 32-bit address.
    pub open spec fn encodable(&self, literal_map: Seq<(Seq<char>, usize)>) -> bool {
        &&& operand_encodable(self.lhs, literal_map)
        &&& operand_encodable(self.rhs, literal_map)
        &&& (self.lhs is Empty ==> self.rhs is Empty)
        &&& match self.opcode {
            Opcode::Plugin(v) => match v {
                PluginValue::Address(_) => true,
                PluginValue::Name(n) => assoc_lookup(literal_map, n@) matches Some(a) && a
                    < 0x1_0000_0000,
                PluginValue::Unset => false,
            },
            _ => true,
        }
    }
}

/// The operand after encoding: a symbolic label resolves to its address,
/// all else is unchanged.
pub open spec fn normalize_operand(o: Operand, literal_map: Seq<(Seq<char>, usize)>) -> Operand {
    match o {
        Operand::Label(lv) => match lv {
            LabelValue::Literal(l) => Operand::Label(
                LabelValue::Address(
                    match assoc_lookup(literal_map, l@) {
                        Some(a) => a,
                        None => 0,
                    },
                ),
            ),
            LabelValue::Address(a) => o,
        },
        _ => o,
    }
}

/// Whether an operand's payload survives the 32-bit field unchanged.
pub open spec fn operand_encodable(o: Operand, literal_map: Seq<(Seq<char>, usize)>) -> bool {
    match o {
        Operand::Empty => true,
        Operand::Register(_) => true,
        Operand::Number(n) => n < 0x1_0000_0000,
        Operand::Label(lv) => match lv {
            LabelValue::Literal(l) => match assoc_lookup(literal_map, l@) {
                Some(a) => a < 0x1_0000_0000,
                None => true,
            },
            LabelValue::Address(a) => a < 0x1_0000_0000,
        },
        Operand::Offset(_) => false,
    }
}

/// Unpacking the packed 128-bit word gives each field back.
#[verifier::spinoff_prover]
proof fn lemma_unpack(w: u128, op: u128, cnt: u128, lt: u128, lp: u128, rt: u128, rp: u128, pa: u128)
    by (bit_vector)
    requires
        op < 64,
        cnt < 4,
        lt < 4,
        lp < 0x1_0000_0000,
        rt < 4,
        rp < 0x1_0000_0000,
        pa < 0x1_0000_0000,
        w == (op << 122) | (cnt << 120) | (lt << 118) | (lp << 86) | (rt << 84) | (rp << 52) | (pa
            << 20),
    ensures
        w >> 122 == op,
        (w >> 120) & 3 == cnt,
        (w >> 118) & 3 == lt,
        (w >> 86) & 0xFFFF_FFFF == lp,
        (w >> 84) & 3 == rt,
        (w >> 52) & 0xFFFF_FFFF == rp,
        (w >> 20) & 0xFFFF_FFFF == pa,
{
}

/// Decoding an encoded instruction gives the instruction back, with its
/// symbolic labels resolved: for every instruction and literal table,
/// `decode(encode(i, t))` is `normalize(i, t)`, whenever the encoding loses
/// nothing of `i`.
pub proof fn lemma_encode_decode_round_trip(i: Instruction, literal_map: Seq<(Seq<char>, usize)>)
    requires
        i.encodable(literal_map),
    ensures
        Instruction::spec_decode(i.spec_encode(literal_map)) == i.normalize(literal_map),
{
    let op = i.opcode.spec_to_u8() as u128;
    let cnt = i.spec_operand_count() as u128;
    let lt = i.lhs.spec_operand_type() as u128;
    let lp = i.lhs.spec_encode(literal_map) as u128;
    let rt = i.rhs.spec_operand_type() as u128;
    let rp = i.rhs.spec_encode(literal_map) as u128;
    let pa = spec_plugin_payload(i.opcode, literal_map) as u128;
    let w = i.spec_encode(literal_map);
    lemma_unpack(w, op, cnt, lt, lp, rt, rp, pa);
    assert(Opcode::spec_from_u8(i.opcode.spec_to_u8()) == if i.opcode is Plugin {
        Opcode::Plugin(PluginValue::Unset)
    } else {
        i.opcode
    });
    lemma_operand_round_trip(i.lhs, literal_map);
    lemma_operand_round_trip(i.rhs, literal_map);
    assert((w >> 122) as u8 == i.opcode.spec_to_u8());
    assert(((w >> 118) & 3) as u8 == i.lhs.spec_operand_type());
    assert(((w >> 86) & 0xFFFF_FFFF) as u32 == i.lhs.spec_encode(literal_map));
    assert(((w >> 84) & 3) as u8 == i.rhs.spec_operand_type());
    assert(((w >> 52) & 0xFFFF_FFFF) as u32 == i.rhs.spec_encode(literal_map));
    assert(((w >> 20) & 0xFFFF_FFFF) as u32 == spec_plugin_payload(i.opcode, literal_map));
    if cnt == 0 {
        assert(i.lhs is Empty && i.rhs is Empty);
    } else {
        assert(cnt == 2);
        assert(Operand::spec_decode(i.lhs.spec_operand_type(), i.lhs.spec_encode(literal_map))
            == normalize_operand(i.lhs, literal_map));
        assert(Operand::spec_decode(i.rhs.spec_operand_type(), i.rhs.spec_encode(literal_map))
            == normalize_operand(i.rhs, literal_map));
    }
}

/// An operand's payload decodes back to the operand, normalized.
proof fn lemma_operand_round_trip(o: Operand, literal_map: Seq<(Seq<char>, usize)>)
    requires
        operand_encodable(o, literal_map),
    ensures
        Operand::spec_decode(o.spec_operand_type(), o.spec_encode(literal_map))
            == normalize_operand(o, literal_map),
{
    match o {
        Operand::Register(reg) => {
            assert(Register::spec_decode(reg.spec_encode()) == reg);
        },
        _ => {},
    }
}

} // verus!
