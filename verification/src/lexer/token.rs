//! The lexer's tokens, and their views as plain character sequences.

use vstd::prelude::*;

verus! {

/// What one line of source may hold, in recognition order: a comment, a
/// label with a literal, a bare label, a directive, or an expression.
#[derive(Debug, Clone, PartialEq)]
pub enum Token {
    Comment(String),
    Label(String),
    LabelWithLiteral(LabelWithLiteral),
    Directive(String),
    Expression(Expression),
}

/// The token kinds that carry bare text.
#[derive(Debug, Clone, PartialEq)]
pub enum TokenType {
    Comment,
    Label,
    Directive,
}

/// A label bound to a literal on the same line: `name: 'text'`,
/// `name: "text"` or `name: 1234`.
#[derive(Debug, Clone, PartialEq)]
pub struct LabelWithLiteral {
    pub name: String,
    pub value: String,
}

/// An instruction line: an opcode mnemonic and up to two operand sides.
#[derive(Debug, Clone, PartialEq)]
pub struct Expression {
    pub opcode: String,
    pub lhs: SideType,
    pub rhs: SideType,
}

/// One side of an expression: absent, plain text, or a bracketed offset.
#[derive(Debug, Clone, PartialEq)]
pub enum SideType {
    Empty,
    Normal(String),
    Offset(ExpressionOffset),
}

/// A bracketed offset side, `[base (+|-) disp]`, in its parts.
#[derive(Debug, Clone, PartialEq)]
pub struct ExpressionOffset {
    pub lhs: String,
    pub operator: Option<String>,
    pub rhs: Option<String>,
}

/// The view of an offset side: its parts as character sequences.
pub struct OffsetView {
    pub lhs: Seq<char>,
    pub operator: Option<Seq<char>>,
    pub rhs: Option<Seq<char>>,
}

/// The view of an expression side.
pub enum SideView {
    Empty,
    Normal(Seq<char>),
    Offset(OffsetView),
}

/// The view of an expression.
pub struct ExpressionView {
    pub opcode: Seq<char>,
    pub lhs: SideView,
    pub rhs: SideView,
}

/// The view of a token: the same shape over character sequences.
pub enum TokenView {
    Comment(Seq<char>),
    Label(Seq<char>),
    LabelWithLiteral(Seq<char>, Seq<char>),
    Directive(Seq<char>),
    Expression(ExpressionView),
}

impl View for ExpressionOffset {
    type V = OffsetView;

    open spec fn view(&self) -> OffsetView {
        OffsetView {
            lhs: self.lhs@,
            operator: match self.operator {
                Some(o) => Some(o@),
                None => None,
            },
            rhs: match self.rhs {
                Some(r) => Some(r@),
                None => None,
            },
        }
    }
}

impl View for SideType {
    type V = SideView;

    open spec fn view(&self) -> SideView {
        match self {
            SideType::Empty => SideView::Empty,
            SideType::Normal(s) => SideView::Normal(s@),
            SideType::Offset(o) => SideView::Offset(o@),
        }
    }
}

impl View for Expression {
    type V = ExpressionView;

    open spec fn view(&self) -> ExpressionView {
        ExpressionView { opcode: self.opcode@, lhs: self.lhs@, rhs: self.rhs@ }
    }
}

impl View for Token {
    type V = TokenView;

    open spec fn view(&self) -> TokenView {
        match self {
            Token::Comment(s) => TokenView::Comment(s@),
            Token::Label(s) => TokenView::Label(s@),
            Token::LabelWithLiteral(l) => TokenView::LabelWithLiteral(l.name@, l.value@),
            Token::Directive(s) => TokenView::Directive(s@),
            Token::Expression(e) => TokenView::Expression(e@),
        }
    }
}

} // verus!
