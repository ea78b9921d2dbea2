//! The lexer: turns source text into a line-oriented token stream.  Each
//! line is matched, in recognition order, against comment, label with
//! literal, bare label, directive and expression, retrying from the
//! remainder after each match.  A line whose text stops fitting tokens
//! before its end is an error, collected with its 0-based line number and
//! surfaced with every other line's error as one joined message.
//!
//! The grammar is stated by spec functions over character sequences, and
//! every matcher is proved to return exactly what the grammar gives.

pub mod token;

use vstd::prelude::*;

use crate::lexer::token::{
    Expression, ExpressionOffset, ExpressionView, LabelWithLiteral, OffsetView, SideType, SideView,
    Token, TokenView,
};
use crate::text::{str_to_chars, string_range};

verus! {

/// Whether a character counts as blank when a line or rest of line is
/// tested for emptiness.
pub open spec fn is_blank_char(c: char) -> bool {
    c == ' ' || c == '\t' || c == '\r'
}

/// Whether a character can stand in an identifier: ASCII letters, digits
/// and the underscore.
pub open spec fn is_ident_char(c: char) -> bool {
    ('a' <= c <= 'z') || ('A' <= c <= 'Z') || ('0' <= c <= '9') || c == '_'
}

/// The first position at or after `i` that does not hold a space.
pub open spec fn skip_spaces(s: Seq<char>, i: int) -> int
    decreases s.len() - i when 0 <= i <= s.len()
{
    if i >= s.len() || s[i] != ' ' {
        i
    } else {
        skip_spaces(s, i + 1)
    }
}

/// The first position at or after `i` that does not hold an identifier
/// character.
pub open spec fn ident_end(s: Seq<char>, i: int) -> int
    decreases s.len() - i when 0 <= i <= s.len()
{
    if i >= s.len() || !is_ident_char(s[i]) {
        i
    } else {
        ident_end(s, i + 1)
    }
}

/// The first position at or after `i` that does not hold a decimal digit.
pub open spec fn digits_end(s: Seq<char>, i: int) -> int
    decreases s.len() - i when 0 <= i <= s.len()
{
    if i >= s.len() || !crate::numbers::is_dec_digit(s[i]) {
        i
    } else {
        digits_end(s, i + 1)
    }
}

/// The first position at or after `i` that holds a space.
pub open spec fn nonspace_end(s: Seq<char>, i: int) -> int
    decreases s.len() - i when 0 <= i <= s.len()
{
    if i >= s.len() || s[i] == ' ' {
        i
    } else {
        nonspace_end(s, i + 1)
    }
}

/// The first position at or after `i` that holds the given character.
pub open spec fn find_char(s: Seq<char>, i: int, c: char) -> int
    decreases s.len() - i when 0 <= i <= s.len()
{
    if i >= s.len() || s[i] == c {
        i
    } else {
        find_char(s, i + 1, c)
    }
}

/// Whether everything from `i` to the end of the line is blank.
pub open spec fn blank_from(s: Seq<char>, i: int) -> bool {
    forall|j: int| i <= j < s.len() ==> is_blank_char(#[trigger] s[j])
}

/// Every scan stays between its start and the end of the line.
pub proof fn lemma_scan_bounds(s: Seq<char>, i: int, c: char)
    requires
        0 <= i <= s.len(),
    ensures
        i <= skip_spaces(s, i) <= s.len(),
        i <= ident_end(s, i) <= s.len(),
        i <= digits_end(s, i) <= s.len(),
        i <= nonspace_end(s, i) <= s.len(),
        i <= find_char(s, i, c) <= s.len(),
    decreases s.len() - i,
{
    if i < s.len() {
        lemma_scan_bounds(s, i + 1, c);
    }
}

/// A comment at `i`: optional spaces, `;`, then (after leading spaces) the
/// text to the end of the line.
pub open spec fn comment_at(s: Seq<char>, i: int) -> Option<(int, Seq<char>)>
    recommends
        0 <= i <= s.len(),
{
    let a = skip_spaces(s, i);
    if 0 <= a < s.len() && s[a] == ';' {
        let b = skip_spaces(s, a + 1);
        if 0 <= b <= s.len() {
            Some((s.len() as int, s.subrange(b, s.len() as int)))
        } else {
            None
        }
    } else {
        None
    }
}

/// A label at `i`: optional spaces, an identifier that does not start with
/// a digit, then a colon directly after it.
pub open spec fn label_at(s: Seq<char>, i: int) -> Option<(int, Seq<char>)>
    recommends
        0 <= i <= s.len(),
{
    let a = skip_spaces(s, i);
    let e = ident_end(s, a);
    if 0 <= a <= e <= s.len() && e > a && !crate::numbers::is_dec_digit(s[a]) && e < s.len() && s[e]
        == ':' {
        Some((e + 1, s.subrange(a, e)))
    } else {
        None
    }
}

/// A label with a literal at `i`: a label, then a single-quoted or
/// double-quoted string or a run of decimal digits.  An empty literal is
/// no match.
pub open spec fn literal_at(s: Seq<char>, i: int) -> Option<(int, Seq<char>, Seq<char>)>
    recommends
        0 <= i <= s.len(),
{
    match label_at(s, i) {
        Some((p, name)) => {
            let b = skip_spaces(s, p);
            if 0 <= b < s.len() && s[b] == '\'' {
                let q = find_char(s, b + 1, '\'');
                if q < s.len() && q > b + 1 {
                    Some((q + 1, name, s.subrange(b + 1, q)))
                } else {
                    None
                }
            } else if 0 <= b < s.len() && s[b] == '"' {
                let q = find_char(s, b + 1, '"');
                if q < s.len() && q > b + 1 {
                    Some((q + 1, name, s.subrange(b + 1, q)))
                } else {
                    None
                }
            } else if 0 <= b <= s.len() {
                let d = digits_end(s, b);
                if d > b {
                    Some((d, name, s.subrange(b, d)))
                } else {
                    None
                }
            } else {
                None
            }
        },
        None => None,
    }
}

/// A directive at `i`: optional spaces, the text `section .`, then the
/// section name up to the next space.
pub open spec fn directive_at(s: Seq<char>, i: int) -> Option<(int, Seq<char>)>
    recommends
        0 <= i <= s.len(),
{
    let a = skip_spaces(s, i);
    if 0 <= a && a + 9 <= s.len() && s.subrange(a, a + 9) == "section ."@ {
        let d = nonspace_end(s, a + 9);
        Some((d, s.subrange(a + 9, d)))
    } else {
        None
    }
}

/// The offset form a whole operand text stands for, if any: `[`, a base
/// identifier, an optional `+` or `-`, an optional displacement
/// identifier, `]`, each part between optional spaces.
pub open spec fn offset_of_text(t: Seq<char>) -> Option<OffsetView> {
    let a = skip_spaces(t, 0);
    if 0 <= a < t.len() && t[a] == '[' {
        let b = skip_spaces(t, a + 1);
        let c = ident_end(t, b);
        if 0 <= b <= c <= t.len() && c > b {
            let d = skip_spaces(t, c);
            if 0 <= d <= t.len() {
                let has_op = d < t.len() && (t[d] == '+' || t[d] == '-');
                let e = if has_op {
                    d + 1
                } else {
                    d
                };
                let f = skip_spaces(t, e);
                let g = ident_end(t, f);
                if 0 <= f <= g <= t.len() {
                    let h = skip_spaces(t, g);
                    if 0 <= h < t.len() && t[h] == ']' {
                        Some(
                            OffsetView {
                                lhs: t.subrange(b, c),
                                operator: if has_op {
                                    Some(seq![t[d]])
                                } else {
                                    None
                                },
                                rhs: if g > f {
                                    Some(t.subrange(f, g))
                                } else {
                                    None
                                },
                            },
                        )
                    } else {
                        None
                    }
                } else {
                    None
                }
            } else {
                None
            }
        } else {
            None
        }
    } else {
        None
    }
}

/// The side a captured operand text stands for: the offset form when the
/// text parses as one, else the text itself.
pub open spec fn side_of_text(t: Seq<char>) -> SideView {
    match offset_of_text(t) {
        Some(o) => SideView::Offset(o),
        None => SideView::Normal(t),
    }
}

/// An expression at `i`: an opcode mnemonic that does not start with a
/// digit, then, unless the rest of the line is blank, an optional left
/// side, an optional comma, and an optional right side that may be a
/// bracketed offset.
pub open spec fn expression_at(s: Seq<char>, i: int) -> Option<(int, ExpressionView)>
    recommends
        0 <= i <= s.len(),
{
    let a = skip_spaces(s, i);
    let e = ident_end(s, a);
    if !(0 <= a <= e <= s.len()) || e == a || crate::numbers::is_dec_digit(s[a]) {
        None
    } else {
        let opcode = s.subrange(a, e);
        let f = skip_spaces(s, e);
        if blank_from(s, f) {
            Some((f, ExpressionView { opcode, lhs: SideView::Empty, rhs: SideView::Empty }))
        } else {
            let lhs_end = ident_end(s, f);
            let lhs = if 0 <= f < lhs_end <= s.len() {
                SideView::Normal(s.subrange(f, lhs_end))
            } else {
                SideView::Empty
            };
            let h = if lhs_end < s.len() && s[lhs_end] == ',' {
                lhs_end + 1
            } else {
                lhs_end
            };
            let k = skip_spaces(s, h);
            let m = ident_end(s, k);
            if 0 <= k < m <= s.len() {
                Some((m, ExpressionView { opcode, lhs, rhs: side_of_text(s.subrange(k, m)) }))
            } else if 0 <= k < s.len() && s[k] == '[' {
                let q = find_char(s, k + 1, ']');
                if k + 1 < q < s.len() {
                    Some(
                        (
                            q + 1,
                            ExpressionView {
                                opcode,
                                lhs,
                                rhs: side_of_text(s.subrange(k, q + 1)),
                            },
                        ),
                    )
                } else {
                    Some((k, ExpressionView { opcode, lhs, rhs: SideView::Empty }))
                }
            } else {
                Some((k, ExpressionView { opcode, lhs, rhs: SideView::Empty }))
            }
        }
    }
}

/// The first token at `i`, in recognition order.
pub open spec fn try_token(s: Seq<char>, i: int) -> Option<(int, TokenView)>
    recommends
        0 <= i <= s.len(),
{
    match comment_at(s, i) {
        Some((p, text)) => Some((p, TokenView::Comment(text))),
        None => match literal_at(s, i) {
            Some((p, name, value)) => Some((p, TokenView::LabelWithLiteral(name, value))),
            None => match label_at(s, i) {
                Some((p, name)) => Some((p, TokenView::Label(name))),
                None => match directive_at(s, i) {
                    Some((p, name)) => Some((p, TokenView::Directive(name))),
                    None => match expression_at(s, i) {
                        Some((p, e)) => Some((p, TokenView::Expression(e))),
                        None => None,
                    },
                },
            },
        },
    }
}

/// Every match moves the position strictly forward and stays on the line.
pub proof fn lemma_try_token_progress(s: Seq<char>, i: int)
    requires
        0 <= i <= s.len(),
        try_token(s, i) is Some,
    ensures
        ({
            let (p, _) = try_token(s, i)->Some_0;
            i < p <= s.len()
        }),
{
    lemma_scan_bounds(s, i, ' ');
    let a = skip_spaces(s, i);
    lemma_scan_bounds(s, a, ' ');
    if comment_at(s, i) is Some {
        assert(a < s.len());
    } else if literal_at(s, i) is Some {
        let (lp, _) = label_at(s, i)->Some_0;
        let e = ident_end(s, a);
        lemma_scan_bounds(s, lp, '\'');
        let b = skip_spaces(s, lp);
        lemma_scan_bounds(s, b, '\'');
        lemma_scan_bounds(s, b + 1, '\'');
        if b < s.len() && s[b] == '\'' {
        } else if b < s.len() && s[b] == '"' {
            lemma_scan_bounds(s, b + 1, '"');
        } else {
        }
    } else if label_at(s, i) is Some {
    } else if directive_at(s, i) is Some {
        lemma_scan_bounds(s, a + 9, ' ');
    } else {
        let e = ident_end(s, a);
        lemma_scan_bounds(s, e, ' ');
        let f = skip_spaces(s, e);
        if !blank_from(s, f) {
            lemma_scan_bounds(s, f, ' ');
            let lhs_end = ident_end(s, f);
            lemma_scan_bounds(s, lhs_end, ' ');
            let h = if lhs_end < s.len() && s[lhs_end] == ',' {
                lhs_end + 1
            } else {
                lhs_end
            };
            lemma_scan_bounds(s, h, ' ');
            let k = skip_spaces(s, h);
            lemma_scan_bounds(s, k, ' ');
            if k < s.len() {
                lemma_scan_bounds(s, k + 1, ']');
            }
        }
    }
}

/// The tokens of one line from position `i` on: the next token, then the
/// rest, stopping at a blank remainder or at text that fits no token.
pub open spec fn lex_line_spec(s: Seq<char>, i: int) -> Seq<TokenView>
    decreases s.len() - i when 0 <= i <= s.len()
{
    if blank_from(s, i) {
        seq![]
    } else {
        match try_token(s, i) {
            Some((p, tv)) => if i < p <= s.len() {
                seq![tv] + lex_line_spec(s, p)
            } else {
                seq![tv]
            },
            None => seq![],
        }
    }
}

/// The position where lexing one line stops, from `i` on: after the last
/// token that fits, or where text first fits nothing.
pub open spec fn lex_line_end(s: Seq<char>, i: int) -> int
    decreases s.len() - i when 0 <= i <= s.len()
{
    if blank_from(s, i) {
        i
    } else {
        match try_token(s, i) {
            Some((p, _)) => if i < p <= s.len() {
                lex_line_end(s, p)
            } else {
                i
            },
            None => i,
        }
    }
}

/// Whether one line lexes to its end: only blanks remain where matching
/// stops.
pub open spec fn lex_line_ok(s: Seq<char>) -> bool {
    blank_from(s, lex_line_end(s, 0))
}

/// The error reported for one line that stops lexing early: its 0-based
/// number and the text that fits no token.
pub open spec fn line_err_text(s: Seq<char>, n: nat) -> Seq<char> {
    "Line "@ + crate::numbers::dec_text(n) + ": unrecognized input `"@ + s.subrange(
        lex_line_end(s, 0),
        s.len() as int,
    ) + "`"@
}

/// The per-line errors of a sequence of source lines, numbered from `n`:
/// one message for each line that does not lex to its end, in order, none
/// dropped.
pub open spec fn line_errors(lines: Seq<Seq<char>>, n: nat) -> Seq<Seq<char>>
    decreases lines.len(),
{
    if lines.len() == 0 {
        seq![]
    } else {
        let rest = line_errors(lines.drop_first(), n + 1);
        if lex_line_ok(lines[0]) {
            rest
        } else {
            seq![line_err_text(lines[0], n)] + rest
        }
    }
}

/// Messages joined by line feeds, in order.
pub open spec fn joined_msgs(msgs: Seq<Seq<char>>) -> Seq<char>
    decreases msgs.len(),
{
    if msgs.len() == 0 {
        Seq::empty()
    } else if msgs.len() == 1 {
        msgs[0]
    } else {
        joined_msgs(msgs.drop_last()) + "\n"@ + msgs.last()
    }
}

/// A line without its trailing carriage return, if it has one.
pub open spec fn strip_cr(l: Seq<char>) -> Seq<char> {
    if l.len() > 0 && l.last() == '\r' {
        l.drop_last()
    } else {
        l
    }
}

/// The lines of the input from position `i` on, split at line feeds, each
/// without a trailing carriage return.
pub open spec fn split_lines_from(s: Seq<char>, i: int) -> Seq<Seq<char>>
    decreases s.len() - i when 0 <= i <= s.len()
{
    if i >= s.len() {
        seq![]
    } else {
        let nl = find_char(s, i, '\n');
        if i <= nl <= s.len() {
            let line = strip_cr(s.subrange(i, nl));
            if nl < s.len() {
                seq![line] + split_lines_from(s, nl + 1)
            } else {
                seq![line]
            }
        } else {
            seq![]
        }
    }
}

/// The token lines of a sequence of source lines: each line lexed, lines
/// without tokens left out.
pub open spec fn lex_lines(lines: Seq<Seq<char>>) -> Seq<Seq<TokenView>>
    decreases lines.len(),
{
    if lines.len() == 0 {
        seq![]
    } else {
        let ts = lex_line_spec(lines[0], 0);
        let rest = lex_lines(lines.drop_first());
        if ts.len() == 0 {
            rest
        } else {
            seq![ts] + rest
        }
    }
}

/// What the lexer produces for a whole input: every line lexed in order,
/// lines without tokens left out.
pub open spec fn lex_input_spec(s: Seq<char>) -> Seq<Seq<TokenView>> {
    lex_lines(split_lines_from(s, 0))
}

/// The views of a vector of token lines.
pub open spec fn token_lists_view(lists: Seq<Vec<Token>>) -> Seq<Seq<TokenView>> {
    lists.map_values(|v: Vec<Token>| v@.map_values(|t: Token| t@))
}

fn skip_spaces_exec(s: &Vec<char>, i: usize) -> (r: usize)
    requires
        i <= s@.len(),
    ensures
        r == skip_spaces(s@, i as int),
        i <= r <= s@.len(),
{
    let mut j = i;
    while j < s.len() && s[j] == ' '
        invariant
            i <= j <= s@.len(),
            skip_spaces(s@, i as int) == skip_spaces(s@, j as int),
        decreases s@.len() - j,
    {
        j = j + 1;
    }
    j
}

fn ident_end_exec(s: &Vec<char>, i: usize) -> (r: usize)
    requires
        i <= s@.len(),
    ensures
        r == ident_end(s@, i as int),
        i <= r <= s@.len(),
{
    let mut j = i;
    while j < s.len() && (('a' <= s[j] && s[j] <= 'z') || ('A' <= s[j] && s[j] <= 'Z') || ('0' <= s[j]
        && s[j] <= '9') || s[j] == '_')
        invariant
            i <= j <= s@.len(),
            ident_end(s@, i as int) == ident_end(s@, j as int),
        decreases s@.len() - j,
    {
        j = j + 1;
    }
    j
}

fn digits_end_exec(s: &Vec<char>, i: usize) -> (r: usize)
    requires
        i <= s@.len(),
    ensures
        r == digits_end(s@, i as int),
        i <= r <= s@.len(),
{
    let mut j = i;
    while j < s.len() && '0' <= s[j] && s[j] <= '9'
        invariant
            i <= j <= s@.len(),
            digits_end(s@, i as int) == digits_end(s@, j as int),
        decreases s@.len() - j,
    {
        j = j + 1;
    }
    j
}

fn nonspace_end_exec(s: &Vec<char>, i: usize) -> (r: usize)
    requires
        i <= s@.len(),
    ensures
        r == nonspace_end(s@, i as int),
        i <= r <= s@.len(),
{
    let mut j = i;
    while j < s.len() && s[j] != ' '
        invariant
            i <= j <= s@.len(),
            nonspace_end(s@, i as int) == nonspace_end(s@, j as int),
        decreases s@.len() - j,
    {
        j = j + 1;
    }
    j
}

fn find_char_exec(s: &Vec<char>, i: usize, c: char) -> (r: usize)
    requires
        i <= s@.len(),
    ensures
        r == find_char(s@, i as int, c),
        i <= r <= s@.len(),
{
    let mut j = i;
    while j < s.len() && s[j] != c
        invariant
            i <= j <= s@.len(),
            find_char(s@, i as int, c) == find_char(s@, j as int, c),
        decreases s@.len() - j,
    {
        j = j + 1;
    }
    j
}

fn blank_from_exec(s: &Vec<char>, i: usize) -> (r: bool)
    requires
        i <= s@.len(),
    ensures
        r == blank_from(s@, i as int),
{
    let mut j = i;
    while j < s.len()
        invariant
            i <= j <= s@.len(),
            forall|x: int| i <= x < j ==> is_blank_char(#[trigger] s@[x]),
        decreases s@.len() - j,
    {
        let c = s[j];
        if !(c == ' ' || c == '\t' || c == '\r') {
            return false;
        }
        j = j + 1;
    }
    true
}

/// Matches a comment at `i`: the token text and the position after it.
pub fn comment(chars: &Vec<char>, i: usize) -> (r: Option<(usize, String)>)
    requires
        i <= chars@.len(),
    ensures
        match r {
            Some(t) => comment_at(chars@, i as int) == Some((t.0 as int, t.1@)) && t.0
                <= chars@.len(),
            None => comment_at(chars@, i as int) is None,
        },
{
    let a = skip_spaces_exec(chars, i);
    if a < chars.len() && chars[a] == ';' {
        let b = skip_spaces_exec(chars, a + 1);
        Some((chars.len(), string_range(chars, b, chars.len())))
    } else {
        None
    }
}

/// Matches a bare label at `i`: its name and the position after the colon.
pub fn label(chars: &Vec<char>, i: usize) -> (r: Option<(usize, String)>)
    requires
        i <= chars@.len(),
    ensures
        match r {
            Some(t) => label_at(chars@, i as int) == Some((t.0 as int, t.1@)) && t.0
                <= chars@.len(),
            None => label_at(chars@, i as int) is None,
        },
{
    let a = skip_spaces_exec(chars, i);
    let e = ident_end_exec(chars, a);
    if e > a && e < chars.len() && chars[e] == ':' && !('0' <= chars[a] && chars[a] <= '9') {
        Some((e + 1, string_range(chars, a, e)))
    } else {
        None
    }
}

/// Matches a label with a literal at `i`.
pub fn literal(chars: &Vec<char>, i: usize) -> (r: Option<(usize, LabelWithLiteral)>)
    requires
        i <= chars@.len(),
    ensures
        match r {
            Some(t) => literal_at(chars@, i as int) == Some((t.0 as int, t.1.name@, t.1.value@))
                && t.0 <= chars@.len(),
            None => literal_at(chars@, i as int) is None,
        },
{
    let (p, name) = match label(chars, i) {
        Some(t) => t,
        None => {
            return None;
        },
    };
    let b = skip_spaces_exec(chars, p);
    if b < chars.len() && chars[b] == '\'' {
        let q = find_char_exec(chars, b + 1, '\'');
        if q < chars.len() && q > b + 1 {
            Some((q + 1, LabelWithLiteral { name, value: string_range(chars, b + 1, q) }))
        } else {
            None
        }
    } else if b < chars.len() && chars[b] == '"' {
        let q = find_char_exec(chars, b + 1, '"');
        if q < chars.len() && q > b + 1 {
            Some((q + 1, LabelWithLiteral { name, value: string_range(chars, b + 1, q) }))
        } else {
            None
        }
    } else {
        let d = digits_end_exec(chars, b);
        if d > b {
            Some((d, LabelWithLiteral { name, value: string_range(chars, b, d) }))
        } else {
            None
        }
    }
}

/// Matches a `section .name` directive at `i`: the section name and the
/// position after it.
pub fn directive(chars: &Vec<char>, i: usize) -> (r: Option<(usize, String)>)
    requires
        i <= chars@.len(),
    ensures
        match r {
            Some(t) => directive_at(chars@, i as int) == Some((t.0 as int, t.1@)) && t.0
                <= chars@.len(),
            None => directive_at(chars@, i as int) is None,
        },
{
    proof {
        reveal_strlit("section .");
    }
    let a = skip_spaces_exec(chars, i);
    if chars.len() - a >= 9 && chars[a] == 's' && chars[a + 1] == 'e' && chars[a + 2] == 'c'
        && chars[a + 3] == 't' && chars[a + 4] == 'i' && chars[a + 5] == 'o' && chars[a + 6] == 'n'
        && chars[a + 7] == ' ' && chars[a + 8] == '.' {
        proof {
            assert(chars@.subrange(a as int, a + 9) =~= "section ."@);
        }
        let d = nonspace_end_exec(chars, a + 9);
        Some((d, string_range(chars, a + 9, d)))
    } else {
        proof {
            if a + 9 <= chars@.len() {
                if chars@.subrange(a as int, a + 9) == "section ."@ {
                    assert(chars@.subrange(a as int, a + 9)[0] == 's');
                    assert(chars@.subrange(a as int, a + 9)[1] == 'e');
                    assert(chars@.subrange(a as int, a + 9)[2] == 'c');
                    assert(chars@.subrange(a as int, a + 9)[3] == 't');
                    assert(chars@.subrange(a as int, a + 9)[4] == 'i');
                    assert(chars@.subrange(a as int, a + 9)[5] == 'o');
                    assert(chars@.subrange(a as int, a + 9)[6] == 'n');
                    assert(chars@.subrange(a as int, a + 9)[7] == ' ');
                    assert(chars@.subrange(a as int, a + 9)[8] == '.');
                }
            }
        }
        None
    }
}

fn side_of_chars(chars: &Vec<char>, from: usize, to: usize) -> (r: SideType)
    requires
        from <= to <= chars@.len(),
    ensures
        r@ == side_of_text(chars@.subrange(from as int, to as int)),
{
    let text = crate::text::string_range(chars, from, to);
    let t = str_to_chars(text.as_str());
    match offset_of_chars(&t) {
        Some(o) => SideType::Offset(o),
        None => SideType::Normal(text),
    }
}

fn offset_of_chars(t: &Vec<char>) -> (r: Option<ExpressionOffset>)
    ensures
        match r {
            Some(o) => offset_of_text(t@) == Some(o@),
            None => offset_of_text(t@) is None,
        },
{
    let a = skip_spaces_exec(t, 0);
    if !(a < t.len() && t[a] == '[') {
        return None;
    }
    let b = skip_spaces_exec(t, a + 1);
    let c = ident_end_exec(t, b);
    if !(c > b) {
        return None;
    }
    let d = skip_spaces_exec(t, c);
    let has_op = d < t.len() && (t[d] == '+' || t[d] == '-');
    let e = if has_op {
        d + 1
    } else {
        d
    };
    let f = skip_spaces_exec(t, e);
    let g = ident_end_exec(t, f);
    let h = skip_spaces_exec(t, g);
    if !(h < t.len() && t[h] == ']') {
        return None;
    }
    let operator = if has_op {
        Some(crate::text::char_to_string(t[d]))
    } else {
        None
    };
    let rhs = if g > f {
        Some(string_range(t, f, g))
    } else {
        None
    };
    Some(ExpressionOffset { lhs: string_range(t, b, c), operator, rhs })
}

/// The side a captured operand text stands for: the offset form when the
/// text parses as one, else the text unchanged; an absent capture is an
/// empty side.
pub fn side_type_or_none(i: Option<&str>) -> (r: SideType)
    ensures
        match i {
            Some(s) => r@ == side_of_text(s@),
            None => r@ == SideView::Empty,
        },
{
    match i {
        Some(s) => {
            let t = str_to_chars(s);
            proof {
                assert(t@.subrange(0, t@.len() as int) =~= t@);
            }
            side_of_chars(&t, 0, t.len())
        },
        None => SideType::Empty,
    }
}

/// Matches an expression at `i`: the expression and the position after it.
pub fn expression(chars: &Vec<char>, i: usize) -> (r: Option<(usize, Expression)>)
    requires
        i <= chars@.len(),
    ensures
        match r {
            Some(t) => expression_at(chars@, i as int) == Some((t.0 as int, t.1@)) && t.0
                <= chars@.len(),
            None => expression_at(chars@, i as int) is None,
        },
{
    let a = skip_spaces_exec(chars, i);
    let e = ident_end_exec(chars, a);
    if e == a {
        return None;
    }
    if '0' <= chars[a] && chars[a] <= '9' {
        return None;
    }
    let opcode = string_range(chars, a, e);
    let f = skip_spaces_exec(chars, e);
    if blank_from_exec(chars, f) {
        return Some(
            (f, Expression { opcode, lhs: SideType::Empty, rhs: SideType::Empty }),
        );
    }
    let lhs_end = ident_end_exec(chars, f);
    let lhs = if lhs_end > f {
        side_of_chars(chars, f, lhs_end)
    } else {
        SideType::Empty
    };
    proof {
        if lhs_end > f {
            lemma_ident_text_not_offset(chars@, f as int, lhs_end as int);
        }
    }
    let h = if lhs_end < chars.len() && chars[lhs_end] == ',' {
        lhs_end + 1
    } else {
        lhs_end
    };
    let k = skip_spaces_exec(chars, h);
    let m = ident_end_exec(chars, k);
    if m > k {
        Some((m, Expression { opcode, lhs, rhs: side_of_chars(chars, k, m) }))
    } else if k < chars.len() && chars[k] == '[' {
        let q = find_char_exec(chars, k + 1, ']');
        if q > k + 1 && q < chars.len() {
            Some((q + 1, Expression { opcode, lhs, rhs: side_of_chars(chars, k, q + 1) }))
        } else {
            Some((k, Expression { opcode, lhs, rhs: SideType::Empty }))
        }
    } else {
        Some((k, Expression { opcode, lhs, rhs: SideType::Empty }))
    }
}

/// A run of identifier characters is never an offset form, so a left side
/// is always plain text.
proof fn lemma_ident_text_not_offset(s: Seq<char>, from: int, to: int)
    requires
        0 <= from < to <= s.len(),
        ident_end(s, from) >= to,
    ensures
        side_of_text(s.subrange(from, to)) == SideView::Normal(s.subrange(from, to)),
{
    let t = s.subrange(from, to);
    lemma_ident_chars(s, from, to, from);
    assert(t[0] == s[from]);
    assert(is_ident_char(t[0]));
    assert(skip_spaces(t, 0) == 0);
    assert(t[0] != '[');
}

/// Between a position and the end of its identifier run, every character
/// is an identifier character.
proof fn lemma_ident_chars(s: Seq<char>, from: int, to: int, j: int)
    requires
        0 <= from <= j < to <= s.len(),
        ident_end(s, from) >= to,
    ensures
        is_ident_char(s[j]),
    decreases j - from,
{
    lemma_scan_bounds(s, from, ' ');
    if ident_end(s, from) == from {
    } else {
        if j > from {
            lemma_ident_chars(s, from + 1, to, j);
        }
    }
}

/// The next token of the line at `i`, in recognition order.
fn next_token(chars: &Vec<char>, i: usize) -> (r: Option<(usize, Token)>)
    requires
        i <= chars@.len(),
    ensures
        match r {
            Some(t) => try_token(chars@, i as int) == Some((t.0 as int, t.1@)) && t.0
                <= chars@.len(),
            None => try_token(chars@, i as int) is None,
        },
{
    proof {
        lemma_scan_bounds(chars@, i as int, ' ');
    }
    if let Some((p, text)) = comment(chars, i) {
        return Some((p, Token::Comment(text)));
    }
    if let Some((p, l)) = literal(chars, i) {
        proof {
            lemma_scan_bounds(chars@, i as int, '\'');
        }
        return Some((p, Token::LabelWithLiteral(l)));
    }
    if let Some((p, name)) = label(chars, i) {
        return Some((p, Token::Label(name)));
    }
    if let Some((p, name)) = directive(chars, i) {
        return Some((p, Token::Directive(name)));
    }
    if let Some((p, e)) = expression(chars, i) {
        proof {
            lemma_try_token_progress(chars@, i as int);
        }
        return Some((p, Token::Expression(e)));
    }
    None
}

/// The tokens of one line in recognition order, together with the position
/// where matching stopped: at a blank remainder, or at text that fits no
/// token.
fn lex_line_at(chars: &Vec<char>) -> (r: (Vec<Token>, usize))
    ensures
        r.0@.map_values(|t: Token| t@) == lex_line_spec(chars@, 0),
        r.1 == lex_line_end(chars@, 0),
        r.1 <= chars@.len(),
{
    let mut tokens: Vec<Token> = Vec::new();
    let mut pos: usize = 0;
    let ghost total = lex_line_spec(chars@, 0);
    proof {
        assert(tokens@.map_values(|t: Token| t@) =~= Seq::<TokenView>::empty());
    }
    loop
        invariant
            pos <= chars@.len(),
            total == lex_line_spec(chars@, 0),
            total == tokens@.map_values(|t: Token| t@) + lex_line_spec(chars@, pos as int),
            lex_line_end(chars@, 0) == lex_line_end(chars@, pos as int),
        decreases chars@.len() - pos,
    {
        if blank_from_exec(chars, pos) {
            proof {
                assert(total =~= tokens@.map_values(|t: Token| t@));
            }
            return (tokens, pos);
        }
        match next_token(chars, pos) {
            Some((p, tok)) => {
                proof {
                    lemma_try_token_progress(chars@, pos as int);
                    assert(lex_line_spec(chars@, pos as int) == seq![tok@] + lex_line_spec(
                        chars@,
                        p as int,
                    ));
                }
                let ghost before = tokens@.map_values(|t: Token| t@);
                tokens.push(tok);
                proof {
                    assert(tokens@.map_values(|t: Token| t@) =~= before.push(tok@));
                    assert(before.push(tok@) + lex_line_spec(chars@, p as int) =~= before + (
                    seq![tok@] + lex_line_spec(chars@, p as int)));
                }
                pos = p;
            },
            None => {
                proof {
                    assert(total =~= tokens@.map_values(|t: Token| t@));
                }
                return (tokens, pos);
            },
        }
    }
}

/// The tokens of one line, in recognition order, stopping at a blank
/// remainder or at text that fits no token.
pub fn lex_line(chars: &Vec<char>) -> (r: Vec<Token>)
    ensures
        r@.map_values(|t: Token| t@) == lex_line_spec(chars@, 0),
{
    let (tokens, _) = lex_line_at(chars);
    tokens
}

/// Lexes a whole input, line by line: for each line that holds tokens, its
/// tokens in order; a line of only blanks contributes nothing.  A line
/// whose text stops fitting tokens before its end is an error; the errors
/// of all such lines are collected with their 0-based line numbers and
/// surfaced as one message joined by line feeds.
#[verifier::rlimit(100)]
#[verifier::spinoff_prover]
pub fn lex_input(i: &str) -> (r: Result<Vec<Vec<Token>>, String>)
    ensures
        ({
            let errs = line_errors(split_lines_from(i@, 0), 0);
            match r {
                Ok(lists) => errs.len() == 0 && token_lists_view(lists@) == lex_input_spec(i@),
                Err(e) => errs.len() > 0 && e@ == joined_msgs(errs),
            }
        }),
{
    let chars = str_to_chars(i);
    let mut out: Vec<Vec<Token>> = Vec::new();
    let mut err = String::new();
    let mut nerr: usize = 0;
    let mut line_num: usize = 0;
    let mut pos: usize = 0;
    let ghost whole = chars@;
    let ghost mut msgs: Seq<Seq<char>> = Seq::empty();
    proof {
        assert(token_lists_view(out@) =~= Seq::<Seq<TokenView>>::empty());
        assert(token_lists_view(out@) + lex_lines(split_lines_from(whole, 0)) =~= lex_lines(
            split_lines_from(whole, 0),
        ));
        assert(msgs + line_errors(split_lines_from(whole, 0), 0) =~= line_errors(
            split_lines_from(whole, 0),
            0,
        ));
    }
    while pos < chars.len()
        invariant
            pos <= whole.len(),
            line_num <= pos,
            nerr <= line_num,
            whole == chars@,
            lex_lines(split_lines_from(whole, 0)) == token_lists_view(out@) + lex_lines(
                split_lines_from(whole, pos as int),
            ),
            line_errors(split_lines_from(whole, 0), 0) == msgs + line_errors(
                split_lines_from(whole, pos as int),
                line_num as nat,
            ),
            nerr == msgs.len(),
            err@ == joined_msgs(msgs),
        decreases whole.len() - pos,
    {
        let ghost lines_here = split_lines_from(whole, pos as int);
        let nl = find_char_exec(&chars, pos, '\n');
        let mut end = nl;
        if end > pos && chars[end - 1] == '\r' {
            end = end - 1;
        }
        let line = crate::text::chars_range(&chars, pos, end);
        proof {
            if end < nl {
                assert(whole.subrange(pos as int, nl as int).last() == '\r');
                assert(line@ =~= whole.subrange(pos as int, nl as int).drop_last());
            } else if nl > pos {
                assert(whole.subrange(pos as int, nl as int).last() == whole[nl - 1]);
            }
            assert(line@ == strip_cr(whole.subrange(pos as int, nl as int)));
            assert(lines_here[0] == line@);
            if nl < whole.len() {
                assert(lines_here.drop_first() =~= split_lines_from(whole, nl + 1));
            } else {
                assert(lines_here.drop_first() =~= Seq::<Seq<char>>::empty());
                assert(split_lines_from(whole, nl as int) =~= Seq::<Seq<char>>::empty());
            }
        }
        let (toks, stop) = lex_line_at(&line);
        let ghost tv = toks@.map_values(|t: Token| t@);
        let ghost before = token_lists_view(out@);
        if toks.len() > 0 {
            out.push(toks);
            proof {
                assert(token_lists_view(out@) =~= before.push(tv));
                assert(lex_lines(lines_here) == seq![tv] + lex_lines(lines_here.drop_first()));
                assert(before.push(tv) + lex_lines(lines_here.drop_first()) =~= before + (seq![tv]
                    + lex_lines(lines_here.drop_first())));
            }
        } else {
            proof {
                assert(lex_lines(lines_here) == lex_lines(lines_here.drop_first()));
            }
        }
        if !blank_from_exec(&line, stop) {
            let mut msg = String::from_str("Line ");
            let d = crate::numbers::u64_to_dec(line_num as u64);
            msg.append(d.as_str());
            msg.append(": unrecognized input `");
            let rest = string_range(&line, stop, line.len());
            msg.append(rest.as_str());
            msg.append("`");
            proof {
                assert(msg@ == line_err_text(line@, line_num as nat));
            }
            let ghost msgs_before = msgs;
            if nerr == 0 {
                err = msg;
            } else {
                err.append("\n");
                err.append(msg.as_str());
            }
            nerr = nerr + 1;
            proof {
                msgs = msgs.push(line_err_text(line@, line_num as nat));
                assert(msgs.drop_last() =~= msgs_before);
                assert(err@ == joined_msgs(msgs));
                assert(line_errors(lines_here, line_num as nat) == seq![
                    line_err_text(line@, line_num as nat),
                ] + line_errors(lines_here.drop_first(), (line_num + 1) as nat));
                assert(msgs_before + line_errors(lines_here, line_num as nat) =~= msgs
                    + line_errors(lines_here.drop_first(), (line_num + 1) as nat));
            }
        } else {
            proof {
                assert(lex_line_ok(line@));
                assert(line_errors(lines_here, line_num as nat) == line_errors(
                    lines_here.drop_first(),
                    (line_num + 1) as nat,
                ));
            }
        }
        line_num = line_num + 1;
        if nl < chars.len() {
            pos = nl + 1;
        } else {
            pos = nl;
        }
    }
    proof {
        assert(split_lines_from(whole, pos as int) =~= Seq::<Seq<char>>::empty());
        assert(lex_lines(Seq::<Seq<char>>::empty()) == Seq::<Seq<TokenView>>::empty());
        assert(token_lists_view(out@) + Seq::<Seq<TokenView>>::empty() =~= token_lists_view(out@));
        assert(line_errors(Seq::<Seq<char>>::empty(), line_num as nat) =~= Seq::<
            Seq<char>,
        >::empty());
        assert(msgs + Seq::<Seq<char>>::empty() =~= msgs);
    }
    if nerr > 0 {
        return Err(err);
    }
    Ok(out)
}

} // verus!
