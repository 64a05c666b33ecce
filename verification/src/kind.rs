//! The syntax kind: the label of every token and node.

use vstd::prelude::*;

verus! {

/// The syntax kind. A kind whose name starts with `TOKEN_` labels a leaf, one
/// whose name starts with `NODE_` labels an inner node.
#[derive(Debug, Clone, Copy, PartialEq, Eq, Hash, Structural)]
#[allow(non_camel_case_types)]
#[non_exhaustive]
pub enum Kind {
    /// Represents any sequence of tokens that was not recognized.
    TOKEN_ERROR_UNKNOWN,
    /// A run of whitespace characters.
    TOKEN_WHITESPACE,
    /// Anything that starts with a `#`. With a nonzero number of `=` after the
    /// `#` the comment spans lines and may be closed by the same number of `=`
    /// and a `#`.
    TOKEN_COMMENT,
    TOKEN_SEMICOLON,
    TOKEN_QUESTIONMARK,
    TOKEN_LESS_PIPE,
    TOKEN_PIPE_MORE,
    TOKEN_PARENTHESIS_LEFT,
    TOKEN_PARENTHESIS_RIGHT,
    TOKEN_INTERPOLATION_START,
    TOKEN_INTERPOLATION_END,
    TOKEN_COMMA,
    TOKEN_EQUAL_GREATER,
    TOKEN_COLON,
    TOKEN_PLUS_PLUS,
    TOKEN_BRACKET_LEFT,
    TOKEN_BRACKET_RIGHT,
    TOKEN_SLASH_SLASH,
    TOKEN_PERIOD,
    TOKEN_CURLYBRACE_LEFT,
    TOKEN_CURLYBRACE_RIGHT,
    TOKEN_EXCLAMATION_EQUAL,
    TOKEN_EQUAL,
    TOKEN_LESS_EQUAL,
    TOKEN_LESS,
    TOKEN_MORE_EQUAL,
    TOKEN_MORE,
    TOKEN_AMPERSAND_AMPERSAND,
    TOKEN_PIPE_PIPE,
    TOKEN_EXCLAMATIONMARK,
    TOKEN_MINUS_MORE,
    TOKEN_AMPERSAND,
    TOKEN_PIPE,
    TOKEN_PLUS,
    TOKEN_MINUS,
    TOKEN_ASTERISK,
    TOKEN_CARET,
    TOKEN_SLASH,
    TOKEN_ERROR_NUMBER_NO_DIGIT,
    TOKEN_INTEGER,
    TOKEN_FLOAT,
    TOKEN_ERROR_FLOAT_NO_EXPONENT,
    TOKEN_KEYWORD_IF,
    TOKEN_KEYWORD_THEN,
    TOKEN_KEYWORD_ELSE,
    /// The literal text between the delimiters and interpolations of a stringlike.
    TOKEN_CONTENT,
    /// A zero width token for the start of a path. Has no content.
    TOKEN_PATH_START,
    /// A zero width token for the end of a path. Has no content.
    TOKEN_PATH_END,
    /// A plain identifier: alphanumeric characters, `_`, `-` or `'`, not starting with a digit, `-` or `'`.
    TOKEN_IDENTIFIER,
    TOKEN_AT,
    TOKEN_IDENTIFIER_START,
    TOKEN_IDENTIFIER_END,
    TOKEN_STRING_START,
    TOKEN_STRING_END,
    TOKEN_RUNE_START,
    TOKEN_RUNE_END,
    TOKEN_ISLAND_HEADER_START,
    TOKEN_ISLAND_HEADER_END,
    /// The root of a tree.
    NODE_ROOT,
    NODE_ERROR,
    NODE_PREFIX_OPERATION,
    NODE_INFIX_OPERATION,
    NODE_SUFFIX_OPERATION,
    NODE_PARENTHESIS,
    NODE_LIST,
    NODE_ATTRIBUTES,
    /// Starts with a [`TOKEN_INTERPOLATION_START`](Kind::TOKEN_INTERPOLATION_START),
    /// ends with a [`TOKEN_INTERPOLATION_END`](Kind::TOKEN_INTERPOLATION_END) and
    /// holds an expression in between.
    NODE_INTERPOLATION,
    /// The header of an island.
    NODE_ISLAND_HEADER,
    NODE_ISLAND,
    /// A stringlike delimited by the zero width path tokens.
    NODE_PATH,
    /// Starts with a [`TOKEN_AT`](Kind::TOKEN_AT) and holds the identifier to bind to.
    NODE_BIND,
    /// A plain identifier token, or a stringlike delimited by backticks.
    NODE_IDENTIFIER,
    /// A stringlike delimited by `"` and any number of `=`. The token children
    /// of a stringlike are delimiters or content, its node children are
    /// interpolations.
    NODE_STRING,
    /// A stringlike that holds a single character, delimited by `'`.
    NODE_RUNE,
    NODE_INTEGER,
    NODE_FLOAT,
    NODE_IF,
}

/// The words that name a kind in a diagnostic. The root, interpolations and
/// island headers are never named in one.
pub open spec fn description_of(kind: Kind) -> Option<Seq<char>> {
    match kind {
        Kind::TOKEN_ERROR_UNKNOWN => Some("an unknown token sequence"@),
        Kind::TOKEN_WHITESPACE => Some("whitespace"@),
        Kind::TOKEN_COMMENT => Some("a comment"@),
        Kind::TOKEN_SEMICOLON => Some("';'"@),
        Kind::TOKEN_QUESTIONMARK => Some("'?'"@),
        Kind::TOKEN_LESS_PIPE => Some("'<|'"@),
        Kind::TOKEN_PIPE_MORE => Some("'|>'"@),
        Kind::TOKEN_PARENTHESIS_LEFT => Some("'('"@),
        Kind::TOKEN_PARENTHESIS_RIGHT => Some("')'"@),
        Kind::TOKEN_INTERPOLATION_START => Some("'\\('"@),
        Kind::TOKEN_INTERPOLATION_END => Some("')'"@),
        Kind::TOKEN_COMMA => Some("','"@),
        Kind::TOKEN_EQUAL_GREATER => Some("'=>'"@),
        Kind::TOKEN_COLON => Some("':'"@),
        Kind::TOKEN_PLUS_PLUS => Some("'++'"@),
        Kind::TOKEN_BRACKET_LEFT => Some("'['"@),
        Kind::TOKEN_BRACKET_RIGHT => Some("']'"@),
        Kind::TOKEN_SLASH_SLASH => Some("'//'"@),
        Kind::TOKEN_PERIOD => Some("'.'"@),
        Kind::TOKEN_CURLYBRACE_LEFT => Some("'{'"@),
        Kind::TOKEN_CURLYBRACE_RIGHT => Some("'}'"@),
        Kind::TOKEN_EXCLAMATION_EQUAL => Some("'!='"@),
        Kind::TOKEN_EQUAL => Some("'='"@),
        Kind::TOKEN_LESS_EQUAL => Some("'<='"@),
        Kind::TOKEN_LESS => Some("'<'"@),
        Kind::TOKEN_MORE_EQUAL => Some("'>='"@),
        Kind::TOKEN_MORE => Some("'>'"@),
        Kind::TOKEN_AMPERSAND_AMPERSAND => Some("'&&'"@),
        Kind::TOKEN_PIPE_PIPE => Some("'||'"@),
        Kind::TOKEN_EXCLAMATIONMARK => Some("'!'"@),
        Kind::TOKEN_MINUS_MORE => Some("'->'"@),
        Kind::TOKEN_AMPERSAND => Some("'&'"@),
        Kind::TOKEN_PIPE => Some("'|'"@),
        Kind::TOKEN_PLUS => Some("'+'"@),
        Kind::TOKEN_MINUS => Some("'-'"@),
        Kind::TOKEN_ASTERISK => Some("'*'"@),
        Kind::TOKEN_CARET => Some("'^'"@),
        Kind::TOKEN_SLASH => Some("'/'"@),
        Kind::TOKEN_ERROR_NUMBER_NO_DIGIT => Some("a non-decimal number with no digits"@),
        Kind::TOKEN_INTEGER => Some("an integer"@),
        Kind::TOKEN_FLOAT => Some("a float"@),
        Kind::TOKEN_ERROR_FLOAT_NO_EXPONENT => Some("a float with a missing exponent"@),
        Kind::TOKEN_KEYWORD_IF => Some("the keyword 'if'"@),
        Kind::TOKEN_KEYWORD_THEN => Some("the keyword 'then'"@),
        Kind::TOKEN_KEYWORD_ELSE => Some("the keyword 'else'"@),
        Kind::TOKEN_CONTENT => Some("content"@),
        Kind::TOKEN_PATH_START => Some("a path"@),
        Kind::TOKEN_PATH_END => Some("the closing delimiter of a path"@),
        Kind::TOKEN_IDENTIFIER => Some("an identifier"@),
        Kind::TOKEN_AT => Some("'@'"@),
        Kind::TOKEN_IDENTIFIER_START => Some("an identifier"@),
        Kind::TOKEN_IDENTIFIER_END => Some("the closing delimiter of an identifier"@),
        Kind::TOKEN_STRING_START => Some("a string"@),
        Kind::TOKEN_STRING_END => Some("the closing delimiter of a string"@),
        Kind::TOKEN_RUNE_START => Some("a rune"@),
        Kind::TOKEN_RUNE_END => Some("the closing delimiter of a rune"@),
        Kind::TOKEN_ISLAND_HEADER_START => Some("an island"@),
        Kind::TOKEN_ISLAND_HEADER_END => Some("the closing delimiter of an island"@),
        Kind::NODE_ROOT => None,
        Kind::NODE_ERROR => Some("an erroneous expression"@),
        Kind::NODE_PREFIX_OPERATION => Some("a prefix operation"@),
        Kind::NODE_INFIX_OPERATION => Some("an infix operation"@),
        Kind::NODE_SUFFIX_OPERATION => Some("a suffix operation"@),
        Kind::NODE_PARENTHESIS => Some("a parenthesized expression"@),
        Kind::NODE_LIST => Some("a list"@),
        Kind::NODE_ATTRIBUTES => Some("attributes"@),
        Kind::NODE_INTERPOLATION => None,
        Kind::NODE_ISLAND_HEADER => None,
        Kind::NODE_ISLAND => Some("an island"@),
        Kind::NODE_PATH => Some("a path"@),
        Kind::NODE_BIND => Some("a bind"@),
        Kind::NODE_IDENTIFIER => Some("an identifier"@),
        Kind::NODE_STRING => Some("a string"@),
        Kind::NODE_RUNE => Some("a rune"@),
        Kind::NODE_INTEGER => Some("an integer"@),
        Kind::NODE_FLOAT => Some("a float"@),
        Kind::NODE_IF => Some("an if"@),
    }
}

/// The fixed text of the tokens that always read the same, `None` for the
/// others and for nodes.
pub open spec fn static_text_of(kind: Kind) -> Option<Seq<char>> {
    match kind {
        Kind::TOKEN_SEMICOLON => Some(";"@),
        Kind::TOKEN_QUESTIONMARK => Some("?"@),
        Kind::TOKEN_LESS_PIPE => Some("<|"@),
        Kind::TOKEN_PIPE_MORE => Some("|>"@),
        Kind::TOKEN_PARENTHESIS_LEFT => Some("("@),
        Kind::TOKEN_PARENTHESIS_RIGHT => Some(")"@),
        Kind::TOKEN_INTERPOLATION_END => Some(")"@),
        Kind::TOKEN_COMMA => Some(","@),
        Kind::TOKEN_EQUAL_GREATER => Some("=>"@),
        Kind::TOKEN_COLON => Some(":"@),
        Kind::TOKEN_PLUS_PLUS => Some("++"@),
        Kind::TOKEN_BRACKET_LEFT => Some("["@),
        Kind::TOKEN_BRACKET_RIGHT => Some("]"@),
        Kind::TOKEN_SLASH_SLASH => Some("//"@),
        Kind::TOKEN_PERIOD => Some("."@),
        Kind::TOKEN_CURLYBRACE_LEFT => Some("{"@),
        Kind::TOKEN_CURLYBRACE_RIGHT => Some("}"@),
        Kind::TOKEN_EXCLAMATION_EQUAL => Some("!="@),
        Kind::TOKEN_EQUAL => Some("="@),
        Kind::TOKEN_LESS_EQUAL => Some("<="@),
        Kind::TOKEN_LESS => Some("<"@),
        Kind::TOKEN_MORE_EQUAL => Some(">="@),
        Kind::TOKEN_MORE => Some(">"@),
        Kind::TOKEN_AMPERSAND_AMPERSAND => Some("&&"@),
        Kind::TOKEN_PIPE_PIPE => Some("||"@),
        Kind::TOKEN_EXCLAMATIONMARK => Some("!"@),
        Kind::TOKEN_MINUS_MORE => Some("->"@),
        Kind::TOKEN_AMPERSAND => Some("&"@),
        Kind::TOKEN_PIPE => Some("|"@),
        Kind::TOKEN_PLUS => Some("+"@),
        Kind::TOKEN_MINUS => Some("-"@),
        Kind::TOKEN_ASTERISK => Some("*"@),
        Kind::TOKEN_CARET => Some("^"@),
        Kind::TOKEN_SLASH => Some("/"@),
        Kind::TOKEN_KEYWORD_IF => Some("if"@),
        Kind::TOKEN_KEYWORD_THEN => Some("then"@),
        Kind::TOKEN_KEYWORD_ELSE => Some("else"@),
        Kind::TOKEN_PATH_START => Some(""@),
        Kind::TOKEN_PATH_END => Some(""@),
        Kind::TOKEN_AT => Some("@"@),
        Kind::TOKEN_ISLAND_HEADER_START => Some("<"@),
        _ => None,
    }
}

impl Kind {
    /// Returns the words that name this kind in a diagnostic.
    pub fn description(self) -> (result: Option<&'static str>)
        ensures
            result.is_some() == description_of(self).is_some(),
            result.is_some() ==> result.unwrap()@ == description_of(self).unwrap(),
    {
        match self {
            Kind::TOKEN_ERROR_UNKNOWN => Some("an unknown token sequence"),
            Kind::TOKEN_WHITESPACE => Some("whitespace"),
            Kind::TOKEN_COMMENT => Some("a comment"),
            Kind::TOKEN_SEMICOLON => Some("';'"),
            Kind::TOKEN_QUESTIONMARK => Some("'?'"),
            Kind::TOKEN_LESS_PIPE => Some("'<|'"),
            Kind::TOKEN_PIPE_MORE => Some("'|>'"),
            Kind::TOKEN_PARENTHESIS_LEFT => Some("'('"),
            Kind::TOKEN_PARENTHESIS_RIGHT => Some("')'"),
            Kind::TOKEN_INTERPOLATION_START => Some("'\\('"),
            Kind::TOKEN_INTERPOLATION_END => Some("')'"),
            Kind::TOKEN_COMMA => Some("','"),
            Kind::TOKEN_EQUAL_GREATER => Some("'=>'"),
            Kind::TOKEN_COLON => Some("':'"),
            Kind::TOKEN_PLUS_PLUS => Some("'++'"),
            Kind::TOKEN_BRACKET_LEFT => Some("'['"),
            Kind::TOKEN_BRACKET_RIGHT => Some("']'"),
            Kind::TOKEN_SLASH_SLASH => Some("'//'"),
            Kind::TOKEN_PERIOD => Some("'.'"),
            Kind::TOKEN_CURLYBRACE_LEFT => Some("'{'"),
            Kind::TOKEN_CURLYBRACE_RIGHT => Some("'}'"),
            Kind::TOKEN_EXCLAMATION_EQUAL => Some("'!='"),
            Kind::TOKEN_EQUAL => Some("'='"),
            Kind::TOKEN_LESS_EQUAL => Some("'<='"),
            Kind::TOKEN_LESS => Some("'<'"),
            Kind::TOKEN_MORE_EQUAL => Some("'>='"),
            Kind::TOKEN_MORE => Some("'>'"),
            Kind::TOKEN_AMPERSAND_AMPERSAND => Some("'&&'"),
            Kind::TOKEN_PIPE_PIPE => Some("'||'"),
            Kind::TOKEN_EXCLAMATIONMARK => Some("'!'"),
            Kind::TOKEN_MINUS_MORE => Some("'->'"),
            Kind::TOKEN_AMPERSAND => Some("'&'"),
            Kind::TOKEN_PIPE => Some("'|'"),
            Kind::TOKEN_PLUS => Some("'+'"),
            Kind::TOKEN_MINUS => Some("'-'"),
            Kind::TOKEN_ASTERISK => Some("'*'"),
            Kind::TOKEN_CARET => Some("'^'"),
            Kind::TOKEN_SLASH => Some("'/'"),
            Kind::TOKEN_ERROR_NUMBER_NO_DIGIT => Some("a non-decimal number with no digits"),
            Kind::TOKEN_INTEGER => Some("an integer"),
            Kind::TOKEN_FLOAT => Some("a float"),
            Kind::TOKEN_ERROR_FLOAT_NO_EXPONENT => Some("a float with a missing exponent"),
            Kind::TOKEN_KEYWORD_IF => Some("the keyword 'if'"),
            Kind::TOKEN_KEYWORD_THEN => Some("the keyword 'then'"),
            Kind::TOKEN_KEYWORD_ELSE => Some("the keyword 'else'"),
            Kind::TOKEN_CONTENT => Some("content"),
            Kind::TOKEN_PATH_START => Some("a path"),
            Kind::TOKEN_PATH_END => Some("the closing delimiter of a path"),
            Kind::TOKEN_IDENTIFIER => Some("an identifier"),
            Kind::TOKEN_AT => Some("'@'"),
            Kind::TOKEN_IDENTIFIER_START => Some("an identifier"),
            Kind::TOKEN_IDENTIFIER_END => Some("the closing delimiter of an identifier"),
            Kind::TOKEN_STRING_START => Some("a string"),
            Kind::TOKEN_STRING_END => Some("the closing delimiter of a string"),
            Kind::TOKEN_RUNE_START => Some("a rune"),
            Kind::TOKEN_RUNE_END => Some("the closing delimiter of a rune"),
            Kind::TOKEN_ISLAND_HEADER_START => Some("an island"),
            Kind::TOKEN_ISLAND_HEADER_END => Some("the closing delimiter of an island"),
            Kind::NODE_ROOT => None,
            Kind::NODE_ERROR => Some("an erroneous expression"),
            Kind::NODE_PREFIX_OPERATION => Some("a prefix operation"),
            Kind::NODE_INFIX_OPERATION => Some("an infix operation"),
            Kind::NODE_SUFFIX_OPERATION => Some("a suffix operation"),
            Kind::NODE_PARENTHESIS => Some("a parenthesized expression"),
            Kind::NODE_LIST => Some("a list"),
            Kind::NODE_ATTRIBUTES => Some("attributes"),
            Kind::NODE_INTERPOLATION => None,
            Kind::NODE_ISLAND_HEADER => None,
            Kind::NODE_ISLAND => Some("an island"),
            Kind::NODE_PATH => Some("a path"),
            Kind::NODE_BIND => Some("a bind"),
            Kind::NODE_IDENTIFIER => Some("an identifier"),
            Kind::NODE_STRING => Some("a string"),
            Kind::NODE_RUNE => Some("a rune"),
            Kind::NODE_INTEGER => Some("an integer"),
            Kind::NODE_FLOAT => Some("a float"),
            Kind::NODE_IF => Some("an if"),
        }
    }

    /// Returns the fixed text of this kind, if it has one.
    pub fn static_text(self) -> (result: Option<&'static str>)
        ensures
            result.is_some() == static_text_of(self).is_some(),
            result.is_some() ==> result.unwrap()@ == static_text_of(self).unwrap(),
    {
        match self {
            Kind::TOKEN_SEMICOLON => Some(";"),
            Kind::TOKEN_QUESTIONMARK => Some("?"),
            Kind::TOKEN_LESS_PIPE => Some("<|"),
            Kind::TOKEN_PIPE_MORE => Some("|>"),
            Kind::TOKEN_PARENTHESIS_LEFT => Some("("),
            Kind::TOKEN_PARENTHESIS_RIGHT => Some(")"),
            Kind::TOKEN_INTERPOLATION_END => Some(")"),
            Kind::TOKEN_COMMA => Some(","),
            Kind::TOKEN_EQUAL_GREATER => Some("=>"),
            Kind::TOKEN_COLON => Some(":"),
            Kind::TOKEN_PLUS_PLUS => Some("++"),
            Kind::TOKEN_BRACKET_LEFT => Some("["),
            Kind::TOKEN_BRACKET_RIGHT => Some("]"),
            Kind::TOKEN_SLASH_SLASH => Some("//"),
            Kind::TOKEN_PERIOD => Some("."),
            Kind::TOKEN_CURLYBRACE_LEFT => Some("{"),
            Kind::TOKEN_CURLYBRACE_RIGHT => Some("}"),
            Kind::TOKEN_EXCLAMATION_EQUAL => Some("!="),
            Kind::TOKEN_EQUAL => Some("="),
            Kind::TOKEN_LESS_EQUAL => Some("<="),
            Kind::TOKEN_LESS => Some("<"),
            Kind::TOKEN_MORE_EQUAL => Some(">="),
            Kind::TOKEN_MORE => Some(">"),
            Kind::TOKEN_AMPERSAND_AMPERSAND => Some("&&"),
            Kind::TOKEN_PIPE_PIPE => Some("||"),
            Kind::TOKEN_EXCLAMATIONMARK => Some("!"),
            Kind::TOKEN_MINUS_MORE => Some("->"),
            Kind::TOKEN_AMPERSAND => Some("&"),
            Kind::TOKEN_PIPE => Some("|"),
            Kind::TOKEN_PLUS => Some("+"),
            Kind::TOKEN_MINUS => Some("-"),
            Kind::TOKEN_ASTERISK => Some("*"),
            Kind::TOKEN_CARET => Some("^"),
            Kind::TOKEN_SLASH => Some("/"),
            Kind::TOKEN_KEYWORD_IF => Some("if"),
            Kind::TOKEN_KEYWORD_THEN => Some("then"),
            Kind::TOKEN_KEYWORD_ELSE => Some("else"),
            Kind::TOKEN_PATH_START => Some(""),
            Kind::TOKEN_PATH_END => Some(""),
            Kind::TOKEN_AT => Some("@"),
            Kind::TOKEN_ISLAND_HEADER_START => Some("<"),
            _ => None,
        }
    }
}

/// The tokens that may start an expression.
pub open spec fn starts_expression(kind: Kind) -> bool {
    matches!(
        kind,
        Kind::TOKEN_PARENTHESIS_LEFT
            | Kind::TOKEN_BRACKET_LEFT
            | Kind::TOKEN_CURLYBRACE_LEFT
            | Kind::TOKEN_INTEGER
            | Kind::TOKEN_FLOAT
            | Kind::TOKEN_KEYWORD_IF
            | Kind::TOKEN_PATH_START
            | Kind::TOKEN_AT
            | Kind::TOKEN_IDENTIFIER
            | Kind::TOKEN_IDENTIFIER_START
            | Kind::TOKEN_STRING_START
            | Kind::TOKEN_RUNE_START
            | Kind::TOKEN_ISLAND_HEADER_START
    )
}

/// The tokens that may start an identifier.
pub open spec fn starts_identifier(kind: Kind) -> bool {
    matches!(kind, Kind::TOKEN_IDENTIFIER | Kind::TOKEN_IDENTIFIER_START)
}

/// Whitespace and comments.
pub open spec fn trivia(kind: Kind) -> bool {
    matches!(kind, Kind::TOKEN_COMMENT | Kind::TOKEN_WHITESPACE)
}

/// The tokens that stand for a lexical error.
pub open spec fn erroneous(kind: Kind) -> bool {
    matches!(
        kind,
        Kind::TOKEN_ERROR_UNKNOWN
            | Kind::TOKEN_ERROR_NUMBER_NO_DIGIT
            | Kind::TOKEN_ERROR_FLOAT_NO_EXPONENT
    )
}

/// For the opener of a stringlike, the kind of the node it opens and the kind
/// of the token that closes it.
pub open spec fn node_and_closing(kind: Kind) -> Option<(Kind, Kind)> {
    match kind {
        Kind::TOKEN_PATH_START => Some((Kind::NODE_PATH, Kind::TOKEN_PATH_END)),
        Kind::TOKEN_IDENTIFIER_START => Some((Kind::NODE_IDENTIFIER, Kind::TOKEN_IDENTIFIER_END)),
        Kind::TOKEN_STRING_START => Some((Kind::NODE_STRING, Kind::TOKEN_STRING_END)),
        Kind::TOKEN_RUNE_START => Some((Kind::NODE_RUNE, Kind::TOKEN_RUNE_END)),
        _ => None,
    }
}

impl Kind {
    /// Whether this token may start an expression.
    pub fn is_expression(self) -> (result: bool)
        ensures
            result == starts_expression(self),
    {
        matches!(
            self,
            Kind::TOKEN_PARENTHESIS_LEFT
                | Kind::TOKEN_BRACKET_LEFT
                | Kind::TOKEN_CURLYBRACE_LEFT
                | Kind::TOKEN_INTEGER
                | Kind::TOKEN_FLOAT
                | Kind::TOKEN_KEYWORD_IF
                | Kind::TOKEN_PATH_START
                | Kind::TOKEN_AT
                | Kind::TOKEN_IDENTIFIER
                | Kind::TOKEN_IDENTIFIER_START
                | Kind::TOKEN_STRING_START
                | Kind::TOKEN_RUNE_START
                | Kind::TOKEN_ISLAND_HEADER_START
        )
    }

    /// Whether this token may start an identifier.
    pub fn is_identifier(self) -> (result: bool)
        ensures
            result == starts_identifier(self),
    {
        matches!(self, Kind::TOKEN_IDENTIFIER | Kind::TOKEN_IDENTIFIER_START)
    }

    /// Whether this token can be used as an argument of an application
    /// written by juxtaposition.
    ///
    /// ```txt
    /// max 42 (38) + 61
    ///     t  t    f
    /// ```
    pub fn is_argument(self) -> (result: bool)
        ensures
            result == ((starts_expression(self) && self != Kind::TOKEN_KEYWORD_IF) || erroneous(
                self,
            )),
    {
        let expression = self.is_expression() && !matches!(self, Kind::TOKEN_KEYWORD_IF);

        // Error tokens stand where an expression would.
        expression || self.is_error()
    }

    /// Whether the token is skipped between the significant ones.
    pub fn is_trivia(self) -> (result: bool)
        ensures
            result == trivia(self),
    {
        matches!(self, Kind::TOKEN_COMMENT | Kind::TOKEN_WHITESPACE)
    }

    /// Whether this token is erroneous.
    pub fn is_error(self) -> (result: bool)
        ensures
            result == erroneous(self),
    {
        matches!(
            self,
            Kind::TOKEN_ERROR_UNKNOWN
                | Kind::TOKEN_ERROR_NUMBER_NO_DIGIT
                | Kind::TOKEN_ERROR_FLOAT_NO_EXPONENT
        )
    }

    /// Returns the node and closing kinds of this kind.
    pub fn as_node_and_closing(self) -> (result: Option<(Kind, Kind)>)
        ensures
            result == node_and_closing(self),
    {
        match self {
            Kind::TOKEN_PATH_START => Some((Kind::NODE_PATH, Kind::TOKEN_PATH_END)),
            Kind::TOKEN_IDENTIFIER_START => Some(
                (Kind::NODE_IDENTIFIER, Kind::TOKEN_IDENTIFIER_END),
            ),
            Kind::TOKEN_STRING_START => Some((Kind::NODE_STRING, Kind::TOKEN_STRING_END)),
            Kind::TOKEN_RUNE_START => Some((Kind::NODE_RUNE, Kind::TOKEN_RUNE_END)),
            _ => None,
        }
    }
}

} // verus!
