//! The logical program: an ordered instruction list plus a label table
//! mapping names to instruction indices or string literals, built from the
//! lexer's tokens.

use vstd::prelude::*;

use crate::instruction::Instruction;
use crate::lexer::token::{ExpressionView, SideType, SideView, Token, TokenView};
use crate::lexer::token_lists_view;
use crate::numbers::{dec_value, is_dec_text};
use crate::opcode::{opcode_of_mnemonic, Opcode, PluginValue};
use crate::operand::{spec_number_of_text, Offset, Operand};
use crate::register::Register;
use crate::table::{assoc_index, assoc_lookup, assoc_view, find_key, lemma_find_key_same_names};

verus! {

/// What a label stands for: the index of an instruction, or a string
/// literal that the encoder will place into memory.  Every label that
/// survives encoding is an address; literals are a source-level
/// convenience.
#[derive(Debug, Clone, PartialEq)]
pub enum LabelValue {
    Address(usize),
    Literal(String),
}

/// The view of a label value: literal text as its characters.
pub enum LabelValueView {
    Address(usize),
    Literal(Seq<char>),
}

impl View for LabelValue {
    type V = LabelValueView;

    open spec fn view(&self) -> LabelValueView {
        match self {
            LabelValue::Address(a) => LabelValueView::Address(*a),
            LabelValue::Literal(l) => LabelValueView::Literal(l@),
        }
    }
}

/// The label table of a program.  Entries keep the order in which the
/// parser first saw each name; redefining a name replaces its value in
/// place.  The encoder walks the entries in this order when it lays
/// literals out in memory.
#[derive(Debug, Clone, PartialEq)]
pub struct Labels {
    pub list: Vec<(String, LabelValue)>,
}

impl View for Labels {
    type V = Seq<(Seq<char>, LabelValueView)>;

    open spec fn view(&self) -> Seq<(Seq<char>, LabelValueView)> {
        self.list@.map_values(|e: (String, LabelValue)| (e.0@, e.1@))
    }
}

impl Labels {
    /// The value bound to a name, if any.
    pub open spec fn spec_get(self, name: Seq<char>) -> Option<LabelValueView> {
        assoc_lookup(self@, name)
    }

    pub fn new() -> (r: Labels)
        ensures
            r@ == Seq::<(Seq<char>, LabelValueView)>::empty(),
    {
        let r = Labels { list: Vec::new() };
        proof {
            assert(r@ =~= Seq::<(Seq<char>, LabelValueView)>::empty());
        }
        r
    }

    /// A label table holding exactly the given bindings, in order.
    pub fn from(list: Vec<(String, LabelValue)>) -> (r: Labels)
        ensures
            r.list == list,
    {
        Labels { list }
    }

    pub fn get(&self, name: &str) -> (r: Option<&LabelValue>)
        ensures
            match r {
                Some(v) => self.spec_get(name@) == Some(v@),
                None => self.spec_get(name@) is None,
            },
    {
        match assoc_index_labels(&self.list, name) {
            Some(i) => Some(&self.list[i].1),
            None => None,
        }
    }

    /// Binds a name.  A name bound before keeps its place in the walk
    /// order and gets the new value; a new name is appended.
    pub fn insert(&mut self, name: String, value: LabelValue)
        ensures
            final(self)@ == label_insert(old(self)@, name@, value@),
    {
        let ghost before = self@;
        let ghost nview = name@;
        let ghost v = value@;
        match assoc_index_labels(&self.list, name.as_str()) {
            Some(i) => {
                self.list.set(i, (name, value));
                proof {
                    assert(self@ =~= before.update(i as int, (nview, v)));
                }
            },
            None => {
                self.list.push((name, value));
                proof {
                    assert(self@ =~= before.push((nview, v)));
                }
            },
        }
    }
}

/// A label table after binding one name: the new value in the name's old
/// place, or appended for a new name.
pub open spec fn label_insert(
    entries: Seq<(Seq<char>, LabelValueView)>,
    name: Seq<char>,
    value: LabelValueView,
) -> Seq<(Seq<char>, LabelValueView)> {
    match find_key(entries, name) {
        Some(k) => entries.update(k, (name, value)),
        None => entries.push((name, value)),
    }
}

/// The index of the first binding of a name, as `find_key` gives it on the
/// label table's view.
fn assoc_index_labels(entries: &Vec<(String, LabelValue)>, name: &str) -> (r: Option<usize>)
    ensures
        ({
            let view = entries@.map_values(|e: (String, LabelValue)| (e.0@, e.1@));
            match r {
                Some(i) => i < entries@.len() && find_key(view, name@) == Some(i as int),
                None => find_key(view, name@) is None,
            }
        }),
{
    let ghost view = entries@.map_values(|e: (String, LabelValue)| (e.0@, e.1@));
    let ghost raw = assoc_view(entries@);
    proof {
        lemma_find_key_same_names(raw, view, name@);
    }
    assoc_index(entries, name)
}

/// A logical program: its instructions in order, its label table, and the
/// plugin binaries to load alongside it.
#[derive(Debug, Clone, PartialEq)]
pub struct Program {
    pub instructions: Vec<Instruction>,
    pub labels: Labels,
    pub plugins: Vec<Vec<u8>>,
}

/// All tokens of all token lines, in order.
pub open spec fn all_tokens(tl: Seq<Seq<TokenView>>) -> Seq<TokenView>
    decreases tl.len(),
{
    if tl.len() == 0 {
        seq![]
    } else {
        tl[0] + all_tokens(tl.drop_first())
    }
}

/// Whether any token is a directive, which the parser rejects.
pub open spec fn has_directive(toks: Seq<TokenView>) -> bool
    decreases toks.len(),
{
    if toks.len() == 0 {
        false
    } else {
        toks[0] is Directive || has_directive(toks.drop_first())
    }
}

/// The expression tokens among `toks`, appended to `acc` in order.
pub open spec fn expressions_acc(toks: Seq<TokenView>, acc: Seq<ExpressionView>) -> Seq<
    ExpressionView,
>
    decreases toks.len(),
{
    if toks.len() == 0 {
        acc
    } else {
        match toks[0] {
            TokenView::Expression(e) => expressions_acc(toks.drop_first(), acc.push(e)),
            _ => expressions_acc(toks.drop_first(), acc),
        }
    }
}

/// The label a `name: value` token binds: an instruction index when the
/// value is decimal digits that fit an address, else the literal text.
pub open spec fn label_literal_value(value: Seq<char>) -> LabelValueView {
    if is_dec_text(value) && dec_value(value) <= usize::MAX {
        LabelValueView::Address(dec_value(value) as usize)
    } else {
        LabelValueView::Literal(value)
    }
}

/// The label table the parser builds from `toks`, starting from `acc` with
/// `ins_count` instructions already seen: a bare label binds to the next
/// instruction index, a label with a literal to its value.
pub open spec fn labels_acc(
    toks: Seq<TokenView>,
    ins_count: int,
    acc: Seq<(Seq<char>, LabelValueView)>,
) -> Seq<(Seq<char>, LabelValueView)>
    decreases toks.len(),
{
    if toks.len() == 0 {
        acc
    } else {
        match toks[0] {
            TokenView::Label(name) => labels_acc(
                toks.drop_first(),
                ins_count,
                label_insert(acc, name, LabelValueView::Address(ins_count as usize)),
            ),
            TokenView::LabelWithLiteral(name, value) => labels_acc(
                toks.drop_first(),
                ins_count,
                label_insert(acc, name, label_literal_value(value)),
            ),
            TokenView::Expression(_) => labels_acc(toks.drop_first(), ins_count + 1, acc),
            _ => labels_acc(toks.drop_first(), ins_count, acc),
        }
    }
}

/// Whether an operand is the one a captured side stands for: a number for
/// digit or hexadecimal text, a register for a register name, a symbolic
/// label for any other text, an offset for the offset form.
pub open spec fn operand_matches(sv: SideView, o: Operand) -> bool {
    match sv {
        SideView::Empty => o is Empty,
        SideView::Normal(t) => match spec_number_of_text(t) {
            Some(n) => o == Operand::Number(n),
            None => match Register::spec_from_name(t) {
                Some(reg) => o == Operand::Register(reg),
                None => o matches Operand::Label(LabelValue::Literal(l)) && l@ == t,
            },
        },
        SideView::Offset(ov) => o matches Operand::Offset(off) && off@ == ov,
    }
}

/// Whether an instruction is the one an expression token stands for.
pub open spec fn instruction_matches(e: ExpressionView, i: Instruction) -> bool {
    &&& match opcode_of_mnemonic(crate::text::lower_seq(e.opcode)) {
        Some(op) => i.opcode == op,
        None => i.opcode matches Opcode::Plugin(PluginValue::Name(n)) && n@ == e.opcode,
    }
    &&& operand_matches(e.lhs, i.lhs)
    &&& operand_matches(e.rhs, i.rhs)
}

/// What holds of a program the parser accepted: no directive among the
/// tokens, every expression turned into its instruction in order, the
/// label table exactly as the walk built it, and no plugins yet.
pub open spec fn parse_ok(toks: Seq<TokenView>, p: Program) -> bool {
    let es = expressions_acc(toks, Seq::<ExpressionView>::empty());
    &&& !has_directive(toks)
    &&& p.instructions@.len() == es.len()
    &&& forall|k: int|
        0 <= k < es.len() ==> instruction_matches(es[k], #[trigger] p.instructions@[k])
    &&& p.labels@ == labels_acc(toks, 0, Seq::<(Seq<char>, LabelValueView)>::empty())
    &&& p.plugins@.len() == 0
}

/// The operand one side of an expression stands for.
pub fn parse_side_type(s: SideType) -> (r: Operand)
    ensures
        operand_matches(s@, r),
{
    match s {
        SideType::Normal(text) => Operand::from_text(text),
        SideType::Offset(offset) => Operand::Offset(
            Offset {
                lhs_operand: offset.lhs,
                operator: offset.operator,
                rhs_operand: offset.rhs,
            },
        ),
        SideType::Empty => Operand::Empty,
    }
}

impl Program {
    /// Parses source text into a program: the lexer's tokens folded into
    /// instructions and a label table.  Fails exactly when a line holds
    /// text that lexes to no token, with the lexer's joined per-line
    /// errors, or when a line holds a directive, which is reserved and
    /// must not be skipped silently.
    pub fn from(input: &str) -> (r: Result<Program, String>)
        ensures
            ({
                let errs = crate::lexer::line_errors(
                    crate::lexer::split_lines_from(input@, 0),
                    0,
                );
                let toks = all_tokens(crate::lexer::lex_input_spec(input@));
                match r {
                    Ok(p) => errs.len() == 0 && parse_ok(toks, p),
                    Err(e) => (errs.len() > 0 && e@ == crate::lexer::joined_msgs(errs)) || (
                    errs.len() == 0 && has_directive(toks) && e@
                        == "Directives are not supported yet"@),
                }
            }),
    {
        let tokens = crate::lexer::lex_input(input)?;
        Self::new(tokens)
    }

    /// Folds token lines into a program.  Fails exactly when a directive
    /// token appears.
    pub fn new(tokens: Vec<Vec<Token>>) -> (r: Result<Program, String>)
        ensures
            ({
                let toks = all_tokens(token_lists_view(tokens@));
                match r {
                    Ok(p) => parse_ok(toks, p),
                    Err(e) => has_directive(toks) && e@ == "Directives are not supported yet"@,
                }
            }),
    {
        Self::tokens_to_program(tokens)
    }

    fn tokens_to_program(tokens: Vec<Vec<Token>>) -> (r: Result<Program, String>)
        ensures
            ({
                let toks = all_tokens(token_lists_view(tokens@));
                match r {
                    Ok(p) => parse_ok(toks, p),
                    Err(e) => has_directive(toks) && e@ == "Directives are not supported yet"@,
                }
            }),
    {
        let ghost whole = all_tokens(token_lists_view(tokens@));
        let mut flat: Vec<Token> = Vec::new();
        let mut rest = tokens;
        proof {
            assert(flat@.map_values(|t: Token| t@) + all_tokens(token_lists_view(rest@)) =~= whole);
        }
        while rest.len() > 0
            invariant
                whole == flat@.map_values(|t: Token| t@) + all_tokens(token_lists_view(rest@)),
            decreases rest@.len(),
        {
            let ghost fview = flat@.map_values(|t: Token| t@);
            let ghost rview = token_lists_view(rest@);
            let mut line = rest.remove(0);
            proof {
                assert(token_lists_view(rest@) =~= rview.drop_first());
                assert(rview[0] == line@.map_values(|t: Token| t@));
                assert(all_tokens(rview) == rview[0] + all_tokens(rview.drop_first()));
                assert(fview + (line@.map_values(|t: Token| t@) + all_tokens(
                    token_lists_view(rest@),
                )) =~= fview + all_tokens(rview));
            }
            while line.len() > 0
                invariant
                    whole == flat@.map_values(|t: Token| t@) + (line@.map_values(|t: Token| t@)
                        + all_tokens(token_lists_view(rest@))),
                decreases line@.len(),
            {
                let ghost fv = flat@.map_values(|t: Token| t@);
                let ghost lv = line@.map_values(|t: Token| t@);
                let t = line.remove(0);
                proof {
                    assert(lv[0] == t@);
                }
                flat.push(t);
                proof {
                    assert(flat@.map_values(|t: Token| t@) =~= fv.push(lv[0]));
                    assert(line@.map_values(|t: Token| t@) =~= lv.drop_first());
                    assert(fv.push(lv[0]) + (lv.drop_first() + all_tokens(token_lists_view(rest@)))
                        =~= fv + (lv + all_tokens(token_lists_view(rest@))));
                }
            }
            proof {
                assert(line@.map_values(|t: Token| t@) =~= Seq::<TokenView>::empty());
                assert(flat@.map_values(|t: Token| t@) + (Seq::<TokenView>::empty() + all_tokens(
                    token_lists_view(rest@),
                )) =~= flat@.map_values(|t: Token| t@) + all_tokens(token_lists_view(rest@)));
            }
        }
        proof {
            assert(token_lists_view(rest@) =~= Seq::<Seq<TokenView>>::empty());
            assert(whole =~= flat@.map_values(|t: Token| t@));
        }
        let mut instructions: Vec<Instruction> = Vec::new();
        let mut labels: Labels = Labels::new();
        let ghost empty_exprs = Seq::<ExpressionView>::empty();
        let ghost empty_labels = Seq::<(Seq<char>, LabelValueView)>::empty();
        let ghost mut exprs_done = empty_exprs;
        let mut work = flat;
        while work.len() > 0
            invariant
                whole == all_tokens(token_lists_view(tokens@)),
                instructions@.len() == exprs_done.len(),
                forall|k: int|
                    0 <= k < exprs_done.len() ==> instruction_matches(
                        exprs_done[k],
                        #[trigger] instructions@[k],
                    ),
                expressions_acc(work@.map_values(|t: Token| t@), exprs_done) == expressions_acc(
                    whole,
                    empty_exprs,
                ),
                labels_acc(work@.map_values(|t: Token| t@), instructions@.len() as int, labels@)
                    == labels_acc(whole, 0, empty_labels),
                has_directive(whole) == has_directive(work@.map_values(|t: Token| t@)),
            decreases work@.len(),
        {
            let ghost wv = work@.map_values(|t: Token| t@);
            let t = work.remove(0);
            proof {
                assert(wv[0] == t@);
                assert(work@.map_values(|t: Token| t@) =~= wv.drop_first());
            }
            match t {
                Token::Label(l) => {
                    let idx = instructions.len();
                    labels.insert(l, LabelValue::Address(idx));
                },
                Token::LabelWithLiteral(l) => {
                    let chars = crate::text::str_to_chars(l.value.as_str());
                    proof {
                        assert(chars@.subrange(0, chars@.len() as int) =~= chars@);
                    }
                    match crate::numbers::parse_dec(&chars, 0, chars.len()) {
                        Some(v) => {
                            if v <= usize::MAX as u64 {
                                labels.insert(l.name, LabelValue::Address(v as usize));
                            } else {
                                labels.insert(l.name, LabelValue::Literal(l.value));
                            }
                        },
                        None => {
                            labels.insert(l.name, LabelValue::Literal(l.value));
                        },
                    }
                },
                Token::Directive(_) => {
                    proof {
                        assert(wv.len() > 0);
                        assert(wv[0] is Directive);
                        assert(has_directive(wv));
                    }
                    return Err(String::from_str("Directives are not supported yet"));
                },
                Token::Expression(e) => {
                    let ghost ev = wv[0]->Expression_0;
                    let lhs = parse_side_type(e.lhs);
                    let rhs = parse_side_type(e.rhs);
                    let instruction = Instruction::new(Opcode::from_mnemonic(e.opcode), lhs, rhs);
                    instructions.push(instruction);
                    proof {
                        exprs_done = exprs_done.push(ev);
                    }
                },
                Token::Comment(_) => {},
            }
        }
        proof {
            assert(work@.map_values(|t: Token| t@) =~= Seq::<TokenView>::empty());
        }
        Ok(Program { instructions, labels, plugins: Vec::new() })
    }

    /// A program with nothing in it.
    pub fn empty() -> (r: Program)
        ensures
            r.instructions@.len() == 0,
            r.labels@ == Seq::<(Seq<char>, LabelValueView)>::empty(),
            r.plugins@.len() == 0,
    {
        Program { instructions: Vec::new(), labels: Labels::new(), plugins: Vec::new() }
    }
}

} // verus!
