//! The operators of the language and how tightly they bind.

use vstd::prelude::*;

use crate::kind::{erroneous, starts_expression, Kind};

verus! {

/// A prefix operator.
#[derive(Debug, Clone, Copy, PartialEq, Eq, Hash, Structural)]
pub enum PrefixOperator {
    /// `+`
    Swwallation,
    /// `-`
    Negation,
    /// `!`
    Not,
    /// `?`
    Try,
}

/// An infix operator.
#[derive(Debug, Clone, Copy, PartialEq, Eq, Hash, Structural)]
pub enum InfixOperator {
    /// `,`
    Same,
    /// `;`
    Sequence,
    /// Juxtaposition: application without an operator token.
    ImplicitApply,
    /// `<|`
    Apply,
    /// `|>`
    Pipe,
    /// `++`
    Concat,
    /// `:`
    Construct,
    /// `.`
    Select,
    /// `//`
    Update,
    /// `<=`
    LessOrEqual,
    /// `<`
    Less,
    /// `>=`
    MoreOrEqual,
    /// `>`
    More,
    /// `=`
    Equal,
    /// `!=`
    NotEqual,
    /// `&&`
    And,
    /// `||`
    Or,
    /// `->`
    Implication,
    /// `&`
    All,
    /// `|`
    Any,
    /// `+`
    Addition,
    /// `-`
    Subtraction,
    /// `*`
    Multiplication,
    /// `^`
    Power,
    /// `/`
    Division,
    /// `=>`
    Lambda,
}

/// A suffix operator.
#[derive(Debug, Clone, Copy, PartialEq, Eq, Hash, Structural)]
pub enum SuffixOperator {
    /// `,`
    Same,
    /// `;`
    Sequence,
}

/// The prefix operator that a token kind stands for, if any.
pub open spec fn prefix_operator_of(kind: Kind) -> Option<PrefixOperator> {
    match kind {
        Kind::TOKEN_PLUS => Some(PrefixOperator::Swwallation),
        Kind::TOKEN_MINUS => Some(PrefixOperator::Negation),
        Kind::TOKEN_EXCLAMATIONMARK => Some(PrefixOperator::Not),
        Kind::TOKEN_QUESTIONMARK => Some(PrefixOperator::Try),
        _ => None,
    }
}

/// The infix operator that a token kind stands for, if any. A token that
/// can be an argument stands for application by juxtaposition.
pub open spec fn infix_operator_of(kind: Kind) -> Option<InfixOperator> {
    match kind {
        Kind::TOKEN_COMMA => Some(InfixOperator::Same),
        Kind::TOKEN_SEMICOLON => Some(InfixOperator::Sequence),
        Kind::TOKEN_LESS_PIPE => Some(InfixOperator::Apply),
        Kind::TOKEN_PIPE_MORE => Some(InfixOperator::Pipe),
        Kind::TOKEN_PLUS_PLUS => Some(InfixOperator::Concat),
        Kind::TOKEN_COLON => Some(InfixOperator::Construct),
        Kind::TOKEN_PERIOD => Some(InfixOperator::Select),
        Kind::TOKEN_SLASH_SLASH => Some(InfixOperator::Update),
        Kind::TOKEN_LESS_EQUAL => Some(InfixOperator::LessOrEqual),
        Kind::TOKEN_LESS => Some(InfixOperator::Less),
        Kind::TOKEN_MORE_EQUAL => Some(InfixOperator::MoreOrEqual),
        Kind::TOKEN_MORE => Some(InfixOperator::More),
        Kind::TOKEN_EQUAL => Some(InfixOperator::Equal),
        Kind::TOKEN_EXCLAMATION_EQUAL => Some(InfixOperator::NotEqual),
        Kind::TOKEN_AMPERSAND_AMPERSAND => Some(InfixOperator::And),
        Kind::TOKEN_PIPE_PIPE => Some(InfixOperator::Or),
        Kind::TOKEN_MINUS_MORE => Some(InfixOperator::Implication),
        Kind::TOKEN_AMPERSAND => Some(InfixOperator::All),
        Kind::TOKEN_PIPE => Some(InfixOperator::Any),
        Kind::TOKEN_PLUS => Some(InfixOperator::Addition),
        Kind::TOKEN_MINUS => Some(InfixOperator::Subtraction),
        Kind::TOKEN_ASTERISK => Some(InfixOperator::Multiplication),
        Kind::TOKEN_CARET => Some(InfixOperator::Power),
        Kind::TOKEN_SLASH => Some(InfixOperator::Division),
        Kind::TOKEN_EQUAL_GREATER => Some(InfixOperator::Lambda),
        other => if (starts_expression(other) && other != Kind::TOKEN_KEYWORD_IF) || erroneous(
            other,
        ) {
            Some(InfixOperator::ImplicitApply)
        } else {
            None
        },
    }
}

/// The suffix operator that a token kind stands for, if any.
pub open spec fn suffix_operator_of(kind: Kind) -> Option<SuffixOperator> {
    match kind {
        Kind::TOKEN_COMMA => Some(SuffixOperator::Same),
        Kind::TOKEN_SEMICOLON => Some(SuffixOperator::Sequence),
        _ => None,
    }
}

/// How tightly a prefix operator binds what stands to its right.
pub open spec fn prefix_power(operator: PrefixOperator) -> u16 {
    match operator {
        PrefixOperator::Swwallation | PrefixOperator::Negation => 145,
        PrefixOperator::Not => 125,
        PrefixOperator::Try => 105,
    }
}

/// How tightly an infix operator binds to its left and to its right. An
/// operator that binds tighter to its right groups to the left, and the
/// other way round.
pub open spec fn infix_power(operator: InfixOperator) -> (u16, u16) {
    match operator {
        InfixOperator::Select => (185, 180),
        InfixOperator::ImplicitApply => (170, 175),
        InfixOperator::Concat => (160, 165),
        InfixOperator::Multiplication | InfixOperator::Division => (150, 155),
        InfixOperator::Power => (155, 150),
        InfixOperator::Addition | InfixOperator::Subtraction => (130, 135),
        InfixOperator::Update => (110, 115),
        InfixOperator::LessOrEqual
        | InfixOperator::Less
        | InfixOperator::MoreOrEqual
        | InfixOperator::More => (100, 105),
        InfixOperator::Construct => (95, 90),
        InfixOperator::And | InfixOperator::All => (85, 80),
        InfixOperator::Or | InfixOperator::Any => (75, 70),
        InfixOperator::Implication => (65, 60),
        InfixOperator::Pipe => (50, 55),
        InfixOperator::Apply => (55, 50),
        InfixOperator::Lambda => (45, 40),
        InfixOperator::Equal | InfixOperator::NotEqual => (35, 30),
        InfixOperator::Same => (25, 20),
        InfixOperator::Sequence => (15, 10),
    }
}

impl PrefixOperator {
    /// Returns the prefix operator that a token kind stands for, if any.
    pub fn try_from(from: Kind) -> (result: Option<Self>)
        ensures
            result == prefix_operator_of(from),
    {
        match from {
            Kind::TOKEN_PLUS => Some(PrefixOperator::Swwallation),
            Kind::TOKEN_MINUS => Some(PrefixOperator::Negation),
            Kind::TOKEN_EXCLAMATIONMARK => Some(PrefixOperator::Not),
            Kind::TOKEN_QUESTIONMARK => Some(PrefixOperator::Try),
            _ => None,
        }
    }

    /// Returns the binding power of this operator.
    pub fn binding_power(self) -> (result: ((), u16))
        ensures
            result.1 == prefix_power(self),
    {
        match self {
            PrefixOperator::Swwallation | PrefixOperator::Negation => ((), 145),
            PrefixOperator::Not => ((), 125),
            PrefixOperator::Try => ((), 105),
        }
    }

    /// The symbol of the operator.
    pub open spec fn symbol_of(self) -> Seq<char> {
        match self {
            PrefixOperator::Swwallation => "+"@,
            PrefixOperator::Negation => "-"@,
            PrefixOperator::Not => "!"@,
            PrefixOperator::Try => "?"@,
        }
    }

    /// Returns the symbol of the operator.
    pub fn symbol(self) -> (result: &'static str)
        ensures
            result@ == self.symbol_of(),
    {
        match self {
            PrefixOperator::Swwallation => "+",
            PrefixOperator::Negation => "-",
            PrefixOperator::Not => "!",
            PrefixOperator::Try => "?",
        }
    }
}

impl InfixOperator {
    /// Returns the infix operator that a token kind stands for, if any.
    pub fn try_from(from: Kind) -> (result: Option<Self>)
        ensures
            result == infix_operator_of(from),
    {
        match from {
            Kind::TOKEN_COMMA => Some(InfixOperator::Same),
            Kind::TOKEN_SEMICOLON => Some(InfixOperator::Sequence),
            Kind::TOKEN_LESS_PIPE => Some(InfixOperator::Apply),
            Kind::TOKEN_PIPE_MORE => Some(InfixOperator::Pipe),
            Kind::TOKEN_PLUS_PLUS => Some(InfixOperator::Concat),
            Kind::TOKEN_COLON => Some(InfixOperator::Construct),
            Kind::TOKEN_PERIOD => Some(InfixOperator::Select),
            Kind::TOKEN_SLASH_SLASH => Some(InfixOperator::Update),
            Kind::TOKEN_LESS_EQUAL => Some(InfixOperator::LessOrEqual),
            Kind::TOKEN_LESS => Some(InfixOperator::Less),
            Kind::TOKEN_MORE_EQUAL => Some(InfixOperator::MoreOrEqual),
            Kind::TOKEN_MORE => Some(InfixOperator::More),
            Kind::TOKEN_EQUAL => Some(InfixOperator::Equal),
            Kind::TOKEN_EXCLAMATION_EQUAL => Some(InfixOperator::NotEqual),
            Kind::TOKEN_AMPERSAND_AMPERSAND => Some(InfixOperator::And),
            Kind::TOKEN_PIPE_PIPE => Some(InfixOperator::Or),
            Kind::TOKEN_MINUS_MORE => Some(InfixOperator::Implication),
            Kind::TOKEN_AMPERSAND => Some(InfixOperator::All),
            Kind::TOKEN_PIPE => Some(InfixOperator::Any),
            Kind::TOKEN_PLUS => Some(InfixOperator::Addition),
            Kind::TOKEN_MINUS => Some(InfixOperator::Subtraction),
            Kind::TOKEN_ASTERISK => Some(InfixOperator::Multiplication),
            Kind::TOKEN_CARET => Some(InfixOperator::Power),
            Kind::TOKEN_SLASH => Some(InfixOperator::Division),
            Kind::TOKEN_EQUAL_GREATER => Some(InfixOperator::Lambda),
            other => if other.is_argument() {
                Some(InfixOperator::ImplicitApply)
            } else {
                None
            },
        }
    }

    /// Returns the binding power of this operator, to its left and to its
    /// right.
    pub fn binding_power(self) -> (result: (u16, u16))
        ensures
            result == infix_power(self),
    {
        match self {
            InfixOperator::Select => (185, 180),
            InfixOperator::ImplicitApply => (170, 175),
            InfixOperator::Concat => (160, 165),
            InfixOperator::Multiplication | InfixOperator::Division => (150, 155),
            InfixOperator::Power => (155, 150),
            InfixOperator::Addition | InfixOperator::Subtraction => (130, 135),
            InfixOperator::Update => (110, 115),
            InfixOperator::LessOrEqual
            | InfixOperator::Less
            | InfixOperator::MoreOrEqual
            | InfixOperator::More => (100, 105),
            InfixOperator::Construct => (95, 90),
            InfixOperator::And | InfixOperator::All => (85, 80),
            InfixOperator::Or | InfixOperator::Any => (75, 70),
            InfixOperator::Implication => (65, 60),
            InfixOperator::Pipe => (50, 55),
            InfixOperator::Apply => (55, 50),
            InfixOperator::Lambda => (45, 40),
            InfixOperator::Equal | InfixOperator::NotEqual => (35, 30),
            InfixOperator::Same => (25, 20),
            InfixOperator::Sequence => (15, 10),
        }
    }

    /// Whether this operator owns a token. Application by juxtaposition
    /// does not: no token stands for it.
    pub fn is_token_owning(self) -> (result: bool)
        ensures
            result == (self != InfixOperator::ImplicitApply),
    {
        !matches!(self, InfixOperator::ImplicitApply)
    }

    /// The symbol the operator is written with between its operands. The
    /// two applications have none: they are written by juxtaposition, as is
    /// the pipe, with its operands swapped.
    pub open spec fn symbol_of(self) -> Option<Seq<char>> {
        match self {
            InfixOperator::Select => Some("."@),
            InfixOperator::Same => Some(","@),
            InfixOperator::Sequence => Some(";"@),
            InfixOperator::ImplicitApply | InfixOperator::Apply | InfixOperator::Pipe => None,
            InfixOperator::Concat => Some("++"@),
            InfixOperator::Construct => Some(":"@),
            InfixOperator::Update => Some("//"@),
            InfixOperator::LessOrEqual => Some("<="@),
            InfixOperator::Less => Some("<"@),
            InfixOperator::MoreOrEqual => Some(">="@),
            InfixOperator::More => Some(">"@),
            InfixOperator::Equal => Some("="@),
            InfixOperator::NotEqual => Some("!="@),
            InfixOperator::Addition => Some("+"@),
            InfixOperator::Subtraction => Some("-"@),
            InfixOperator::Multiplication => Some("*"@),
            InfixOperator::Power => Some("^"@),
            InfixOperator::Division => Some("/"@),
            InfixOperator::And => Some("&&"@),
            InfixOperator::Or => Some("||"@),
            InfixOperator::Implication => Some("->"@),
            InfixOperator::All => Some("&"@),
            InfixOperator::Any => Some("|"@),
            InfixOperator::Lambda => Some("=>"@),
        }
    }

    /// Returns the symbol the operator is written with between its
    /// operands, if it has one.
    pub fn symbol(self) -> (result: Option<&'static str>)
        ensures
            result.is_some() == self.symbol_of().is_some(),
            result.is_some() ==> result.unwrap()@ == self.symbol_of().unwrap(),
    {
        match self {
            InfixOperator::Select => Some("."),
            InfixOperator::Same => Some(","),
            InfixOperator::Sequence => Some(";"),
            InfixOperator::ImplicitApply | InfixOperator::Apply | InfixOperator::Pipe => None,
            InfixOperator::Concat => Some("++"),
            InfixOperator::Construct => Some(":"),
            InfixOperator::Update => Some("//"),
            InfixOperator::LessOrEqual => Some("<="),
            InfixOperator::Less => Some("<"),
            InfixOperator::MoreOrEqual => Some(">="),
            InfixOperator::More => Some(">"),
            InfixOperator::Equal => Some("="),
            InfixOperator::NotEqual => Some("!="),
            InfixOperator::Addition => Some("+"),
            InfixOperator::Subtraction => Some("-"),
            InfixOperator::Multiplication => Some("*"),
            InfixOperator::Power => Some("^"),
            InfixOperator::Division => Some("/"),
            InfixOperator::And => Some("&&"),
            InfixOperator::Or => Some("||"),
            InfixOperator::Implication => Some("->"),
            InfixOperator::All => Some("&"),
            InfixOperator::Any => Some("|"),
            InfixOperator::Lambda => Some("=>"),
        }
    }
}

impl SuffixOperator {
    /// Returns the suffix operator that a token kind stands for, if any.
    pub fn try_from(from: Kind) -> (result: Option<Self>)
        ensures
            result == suffix_operator_of(from),
    {
        match from {
            Kind::TOKEN_COMMA => Some(SuffixOperator::Same),
            Kind::TOKEN_SEMICOLON => Some(SuffixOperator::Sequence),
            _ => None,
        }
    }

    /// The symbol of the operator.
    pub open spec fn symbol_of(self) -> Seq<char> {
        match self {
            SuffixOperator::Same => ","@,
            SuffixOperator::Sequence => ";"@,
        }
    }

    /// Returns the symbol of the operator.
    pub fn symbol(self) -> (result: &'static str)
        ensures
            result@ == self.symbol_of(),
    {
        match self {
            SuffixOperator::Same => ",",
            SuffixOperator::Sequence => ";",
        }
    }
}

} // verus!
