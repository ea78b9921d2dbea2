//! Verified parsing and printing of unsigned numbers: decimal and
//! `0x`-prefixed hexadecimal operands, and the decimal form that `Print`
//! and error messages use.

use vstd::prelude::*;


verus! {

/// Whether the character is a decimal digit.
pub open spec fn is_dec_digit(c: char) -> bool {
    '0' <= c <= '9'
}

/// The value of a decimal digit.
pub open spec fn dec_digit_val(c: char) -> nat {
    (c as nat - '0' as nat) as nat
}

/// Whether the character is a hexadecimal digit.
pub open spec fn is_hex_digit(c: char) -> bool {
    ('0' <= c <= '9') || ('a' <= c <= 'f') || ('A' <= c <= 'F')
}

/// The value of a hexadecimal digit.
pub open spec fn hex_digit_val(c: char) -> nat {
    if '0' <= c <= '9' {
        (c as nat - '0' as nat) as nat
    } else if 'a' <= c <= 'f' {
        (c as nat - 'a' as nat + 10) as nat
    } else {
        (c as nat - 'A' as nat + 10) as nat
    }
}

/// Whether the text is one or more decimal digits.
pub open spec fn is_dec_text(s: Seq<char>) -> bool {
    s.len() > 0 && forall|i: int| 0 <= i < s.len() ==> is_dec_digit(#[trigger] s[i])
}

/// Whether the text is one or more hexadecimal digits.
pub open spec fn is_hex_text(s: Seq<char>) -> bool {
    s.len() > 0 && forall|i: int| 0 <= i < s.len() ==> is_hex_digit(#[trigger] s[i])
}

/// The number the decimal digit text stands for.
pub open spec fn dec_value(s: Seq<char>) -> nat
    decreases s.len(),
{
    if s.len() == 0 {
        0
    } else {
        dec_value(s.drop_last()) * 10 + dec_digit_val(s.last())
    }
}

/// The number the hexadecimal digit text stands for.
pub open spec fn hex_value(s: Seq<char>) -> nat
    decreases s.len(),
{
    if s.len() == 0 {
        0
    } else {
        hex_value(s.drop_last()) * 16 + hex_digit_val(s.last())
    }
}

/// A longer digit text never stands for a smaller number.
proof fn lemma_dec_value_prefix(s: Seq<char>, i: int)
    requires
        0 <= i <= s.len(),
    ensures
        dec_value(s.subrange(0, i)) <= dec_value(s),
    decreases s.len() - i,
{
    if i < s.len() {
        lemma_dec_value_prefix(s, i + 1);
        assert(s.subrange(0, i + 1).drop_last() =~= s.subrange(0, i));
        assert(dec_value(s.subrange(0, i)) <= dec_value(s.subrange(0, i + 1)));
    } else {
        assert(s.subrange(0, i) =~= s);
    }
}

proof fn lemma_hex_value_prefix(s: Seq<char>, i: int)
    requires
        0 <= i <= s.len(),
    ensures
        hex_value(s.subrange(0, i)) <= hex_value(s),
    decreases s.len() - i,
{
    if i < s.len() {
        lemma_hex_value_prefix(s, i + 1);
        assert(s.subrange(0, i + 1).drop_last() =~= s.subrange(0, i));
        assert(hex_value(s.subrange(0, i)) <= hex_value(s.subrange(0, i + 1)));
    } else {
        assert(s.subrange(0, i) =~= s);
    }
}

fn dec_digit_of(c: char) -> (r: Option<u64>)
    ensures
        match r {
            Some(v) => is_dec_digit(c) && v == dec_digit_val(c) && v < 10,
            None => !is_dec_digit(c),
        },
{
    if '0' <= c && c <= '9' {
        Some((c as u32 - '0' as u32) as u64)
    } else {
        None
    }
}

fn hex_digit_of(c: char) -> (r: Option<u64>)
    ensures
        match r {
            Some(v) => is_hex_digit(c) && v == hex_digit_val(c) && v < 16,
            None => !is_hex_digit(c),
        },
{
    if '0' <= c && c <= '9' {
        Some((c as u32 - '0' as u32) as u64)
    } else if 'a' <= c && c <= 'f' {
        Some((c as u32 - 'a' as u32) as u64 + 10)
    } else if 'A' <= c && c <= 'F' {
        Some((c as u32 - 'A' as u32) as u64 + 10)
    } else {
        None
    }
}

/// Parses the characters `s[from..to]` as an unsigned decimal number.
/// Succeeds exactly on one or more decimal digits whose value fits in a
/// 64-bit word.
pub fn parse_dec(s: &Vec<char>, from: usize, to: usize) -> (r: Option<u64>)
    requires
        from <= to <= s@.len(),
    ensures
        ({
            let text = s@.subrange(from as int, to as int);
            match r {
                Some(v) => is_dec_text(text) && v == dec_value(text),
                None => !(is_dec_text(text) && dec_value(text) <= u64::MAX),
            }
        }),
{
    let ghost text = s@.subrange(from as int, to as int);
    if from == to {
        return None;
    }
    let mut acc: u64 = 0;
    let mut i: usize = from;
    while i < to
        invariant
            from <= i <= to <= s@.len(),
            text == s@.subrange(from as int, to as int),
            acc == dec_value(text.subrange(0, i - from)),
            forall|j: int| 0 <= j < i - from ==> is_dec_digit(#[trigger] text[j]),
        decreases to - i,
    {
        let d = match dec_digit_of(s[i]) {
            Some(d) => d,
            None => {
                proof {
                    assert(!is_dec_digit(text[i - from]));
                }
                return None;
            },
        };
        if acc > 0xFFFF_FFFF_FFFF_FFFF / 10 || 10 * acc > 0xFFFF_FFFF_FFFF_FFFF - d {
            proof {
                assert(text.subrange(0, i - from + 1).drop_last() =~= text.subrange(0, i - from));
                lemma_dec_value_prefix(text, i - from + 1);
            }
            return None;
        }
        acc = 10 * acc + d;
        proof {
            assert(text.subrange(0, i - from + 1).drop_last() =~= text.subrange(0, i - from));
        }
        i = i + 1;
    }
    proof {
        assert(text.subrange(0, to - from) =~= text);
    }
    Some(acc)
}

/// Parses the characters `s[from..to]` as a hexadecimal number, without the
/// `0x` prefix.  Succeeds exactly on one or more hexadecimal digits whose
/// value fits in a 64-bit word.
pub fn parse_hex(s: &Vec<char>, from: usize, to: usize) -> (r: Option<u64>)
    requires
        from <= to <= s@.len(),
    ensures
        ({
            let text = s@.subrange(from as int, to as int);
            match r {
                Some(v) => is_hex_text(text) && v == hex_value(text),
                None => !(is_hex_text(text) && hex_value(text) <= u64::MAX),
            }
        }),
{
    let ghost text = s@.subrange(from as int, to as int);
    if from == to {
        return None;
    }
    let mut acc: u64 = 0;
    let mut i: usize = from;
    while i < to
        invariant
            from <= i <= to <= s@.len(),
            text == s@.subrange(from as int, to as int),
            acc == hex_value(text.subrange(0, i - from)),
            forall|j: int| 0 <= j < i - from ==> is_hex_digit(#[trigger] text[j]),
        decreases to - i,
    {
        let d = match hex_digit_of(s[i]) {
            Some(d) => d,
            None => {
                proof {
                    assert(!is_hex_digit(text[i - from]));
                }
                return None;
            },
        };
        if acc > 0xFFFF_FFFF_FFFF_FFFF / 16 || 16 * acc > 0xFFFF_FFFF_FFFF_FFFF - d {
            proof {
                assert(text.subrange(0, i - from + 1).drop_last() =~= text.subrange(0, i - from));
                lemma_hex_value_prefix(text, i - from + 1);
            }
            return None;
        }
        acc = 16 * acc + d;
        proof {
            assert(text.subrange(0, i - from + 1).drop_last() =~= text.subrange(0, i - from));
        }
        i = i + 1;
    }
    proof {
        assert(text.subrange(0, to - from) =~= text);
    }
    Some(acc)
}

/// The decimal digit character for a value below ten.
pub open spec fn dec_digit_char(v: nat) -> char {
    if v == 0 {
        '0'
    } else if v == 1 {
        '1'
    } else if v == 2 {
        '2'
    } else if v == 3 {
        '3'
    } else if v == 4 {
        '4'
    } else if v == 5 {
        '5'
    } else if v == 6 {
        '6'
    } else if v == 7 {
        '7'
    } else if v == 8 {
        '8'
    } else {
        '9'
    }
}

/// The decimal form of a number: one or more digit characters, without
/// leading zeros except for the number zero itself.
pub open spec fn dec_text(n: nat) -> Seq<char>
    decreases n,
{
    if n < 10 {
        seq![dec_digit_char(n)]
    } else {
        dec_text(n / 10).push(dec_digit_char(n % 10))
    }
}

fn dec_digit_char_of(v: u64) -> (r: char)
    requires
        v < 10,
    ensures
        r == dec_digit_char(v as nat),
{
    match v {
        0 => '0',
        1 => '1',
        2 => '2',
        3 => '3',
        4 => '4',
        5 => '5',
        6 => '6',
        7 => '7',
        8 => '8',
        _ => '9',
    }
}

fn dec_chars(n: u64) -> (r: Vec<char>)
    ensures
        r@ == dec_text(n as nat),
    decreases n,
{
    if n < 10 {
        let mut v: Vec<char> = Vec::new();
        v.push(dec_digit_char_of(n));
        proof {
            assert(v@ =~= dec_text(n as nat));
        }
        v
    } else {
        let mut v = dec_chars(n / 10);
        v.push(dec_digit_char_of(n % 10));
        v
    }
}

/// The decimal form of a 64-bit word, as `Print` writes it and as error
/// messages carry the failing program counter.
pub fn u64_to_dec(n: u64) -> (r: String)
    ensures
        r@ == dec_text(n as nat),
{
    let v = dec_chars(n);
    crate::text::string_from_chars(&v)
}

} // verus!
