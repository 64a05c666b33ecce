//! What tokenizing means: the tokens of a source text as mathematical
//! functions of its characters. The executable tokenizer is proved against
//! these definitions.

use vstd::prelude::*;

use crate::context::{Context, Quote};
use crate::kind::Kind;
use crate::text::{
    all_underscores, ascii_digit, equals_at, initial_identifier_character, path_character, peek,
    scan_while, whitespace, CharClass,
};

verus! {

/// Where the tokenizer stands: a position in the text, counted in
/// characters, and the contexts it is in, innermost last.
pub struct LexState {
    pub offset: int,
    pub stack: Seq<Context>,
}

/// One move of the tokenizer: the kind it read and where it stands after.
pub struct Step {
    pub kind: Kind,
    pub state: LexState,
}

/// How a stretch of content ends.
#[derive(Debug, Clone, Copy, PartialEq, Eq, Structural)]
pub enum ContentEnd {
    /// At the closing delimiter of the stringlike.
    Close,
    /// At the end of the text, with the stringlike left open.
    Eof,
    /// At the `\(` of an interpolation.
    Interpolation,
}

/// The innermost context, if there is one.
pub open spec fn top(stack: Seq<Context>) -> Option<Context> {
    if stack.len() > 0 {
        Some(stack.last())
    } else {
        None
    }
}

/// The state before anything is read.
pub open spec fn initial_state() -> LexState {
    LexState { offset: 0, stack: Seq::empty() }
}

/// The punctuation that reads the same in every context: the kind and the
/// number of characters, given the character at hand and the one after it.
/// Two-character punctuation wins over one-character punctuation.
pub open spec fn punctuation(c: char, next: Option<char>) -> Option<(Kind, int)> {
    if c == ';' {
        Some((Kind::TOKEN_SEMICOLON, 1))
    } else if c == '?' {
        Some((Kind::TOKEN_QUESTIONMARK, 1))
    } else if c == '<' && next == Some('|') {
        Some((Kind::TOKEN_LESS_PIPE, 2))
    } else if c == '|' {
        if next == Some('>') {
            Some((Kind::TOKEN_PIPE_MORE, 2))
        } else if next == Some('|') {
            Some((Kind::TOKEN_PIPE_PIPE, 2))
        } else {
            Some((Kind::TOKEN_PIPE, 1))
        }
    } else if c == '=' {
        if next == Some('>') {
            Some((Kind::TOKEN_EQUAL_GREATER, 2))
        } else {
            Some((Kind::TOKEN_EQUAL, 1))
        }
    } else if c == ',' {
        Some((Kind::TOKEN_COMMA, 1))
    } else if c == ':' {
        Some((Kind::TOKEN_COLON, 1))
    } else if c == '+' {
        if next == Some('+') {
            Some((Kind::TOKEN_PLUS_PLUS, 2))
        } else {
            Some((Kind::TOKEN_PLUS, 1))
        }
    } else if c == '[' {
        Some((Kind::TOKEN_BRACKET_LEFT, 1))
    } else if c == ']' {
        Some((Kind::TOKEN_BRACKET_RIGHT, 1))
    } else if c == '/' && next == Some('/') {
        Some((Kind::TOKEN_SLASH_SLASH, 2))
    } else if c == '{' {
        Some((Kind::TOKEN_CURLYBRACE_LEFT, 1))
    } else if c == '}' {
        Some((Kind::TOKEN_CURLYBRACE_RIGHT, 1))
    } else if c == '!' {
        if next == Some('=') {
            Some((Kind::TOKEN_EXCLAMATION_EQUAL, 2))
        } else {
            Some((Kind::TOKEN_EXCLAMATIONMARK, 1))
        }
    } else if c == '>' {
        if next == Some('=') {
            Some((Kind::TOKEN_MORE_EQUAL, 2))
        } else {
            Some((Kind::TOKEN_MORE, 1))
        }
    } else if c == '&' {
        if next == Some('&') {
            Some((Kind::TOKEN_AMPERSAND_AMPERSAND, 2))
        } else {
            Some((Kind::TOKEN_AMPERSAND, 1))
        }
    } else if c == '-' {
        if next == Some('>') {
            Some((Kind::TOKEN_MINUS_MORE, 2))
        } else {
            Some((Kind::TOKEN_MINUS, 1))
        }
    } else if c == '*' {
        Some((Kind::TOKEN_ASTERISK, 1))
    } else if c == '^' {
        Some((Kind::TOKEN_CARET, 1))
    } else {
        None
    }
}

/// The digits that follow a radix prefix `0b`, `0o` or `0x`, in either case.
pub open spec fn radix_class(prefix: Option<char>) -> Option<CharClass> {
    if prefix == Some('b') || prefix == Some('B') {
        Some(CharClass::Binary)
    } else if prefix == Some('o') || prefix == Some('O') {
        Some(CharClass::Octal)
    } else if prefix == Some('x') || prefix == Some('X') {
        Some(CharClass::Hexadecimal)
    } else {
        None
    }
}

/// The exponent that may follow the fraction of a float, read from `at`: an
/// `e` or `E`, a sign if there is one, and decimal digits. An exponent
/// without a digit is an error.
pub open spec fn scientific(text: Seq<char>, at: int) -> (Kind, int) {
    if peek(text, at) == Some('e') || peek(text, at) == Some('E') {
        let signed = peek(text, at + 1) == Some('+') || peek(text, at + 1) == Some('-');
        let digits = if signed {
            at + 2
        } else {
            at + 1
        };
        let end = scan_while(text, digits, CharClass::Decimal);
        if all_underscores(text, digits, end) {
            (Kind::TOKEN_ERROR_FLOAT_NO_EXPONENT, end)
        } else {
            (Kind::TOKEN_FLOAT, end)
        }
    } else {
        (Kind::TOKEN_FLOAT, at)
    }
}

/// What follows the integer digits of a number, which end at `digits_end`:
/// a `.` and a digit of the class make it a float, with a fraction and
/// perhaps an exponent. `missing` says that the integer digits held no
/// digit, which makes the whole number an error of that kind.
pub open spec fn number_tail(text: Seq<char>, digits_end: int, class: CharClass, missing: bool) -> (
    Kind,
    int,
) {
    let after = peek(text, digits_end + 1);
    if peek(text, digits_end) == Some('.') && after.is_some() && class.has(after.unwrap()) {
        let tail = scientific(text, scan_while(text, digits_end + 1, class));
        (
            if missing {
                Kind::TOKEN_ERROR_NUMBER_NO_DIGIT
            } else {
                tail.0
            },
            tail.1,
        )
    } else {
        (
            if missing {
                Kind::TOKEN_ERROR_NUMBER_NO_DIGIT
            } else {
                Kind::TOKEN_INTEGER
            },
            digits_end,
        )
    }
}

/// The number that starts at `at` with `0` and a radix prefix.
pub open spec fn radix_number(text: Seq<char>, at: int, class: CharClass) -> (Kind, int) {
    let digits_end = scan_while(text, at + 2, class);
    number_tail(text, digits_end, class, all_underscores(text, at + 2, digits_end))
}

/// The decimal number that starts at `at`.
pub open spec fn decimal_number(text: Seq<char>, at: int) -> (Kind, int) {
    number_tail(text, scan_while(text, at + 1, CharClass::Decimal), CharClass::Decimal, false)
}

/// The kind of a word: one of the three keywords, or an identifier.
pub open spec fn word_kind(word: Seq<char>) -> Kind {
    if word == seq!['i', 'f'] {
        Kind::TOKEN_KEYWORD_IF
    } else if word == seq!['t', 'h', 'e', 'n'] {
        Kind::TOKEN_KEYWORD_THEN
    } else if word == seq!['e', 'l', 's', 'e'] {
        Kind::TOKEN_KEYWORD_ELSE
    } else {
        Kind::TOKEN_IDENTIFIER
    }
}

/// The end of the block comment whose `#` stands at `at`, followed by at
/// least one `=`.
pub open spec fn block_comment(text: Seq<char>, at: int) -> int
    decreases text.len() - at, 0int,
{
    let body = scan_while(text, at + 1, CharClass::Equals);
    if 0 <= at && at + 1 < body <= text.len() {
        comment_body(text, body, body - (at + 1))
    } else {
        body
    }
}

/// The end of a block comment opened with `equals` characters `=`, read
/// from `at` inside it. The comment is closed by that many `=` and a `#`; a
/// longer run of `=` is passed over whole; a `#=` inside opens a nested
/// comment, which is read to its own end; the end of the text leaves the
/// comment open.
pub open spec fn comment_body(text: Seq<char>, at: int, equals: int) -> int
    decreases text.len() - at, 1int,
{
    if !(0 <= at < text.len()) {
        at
    } else if text[at] == '=' {
        if equals_at(text, at, equals) && peek(text, at + equals) == Some('#') {
            at + equals + 1
        } else {
            let run = scan_while(text, at, CharClass::Equals);
            if at < run <= text.len() {
                comment_body(text, run, equals)
            } else {
                run
            }
        }
    } else if text[at] == '#' && peek(text, at + 1) == Some('=') {
        let nested = block_comment(text, at);
        if at < nested <= text.len() {
            comment_body(text, nested, equals)
        } else {
            nested
        }
    } else {
        comment_body(text, at + 1, equals)
    }
}

/// The quote that a character is, if it is one.
pub open spec fn quote_of(c: char) -> Option<Quote> {
    if c == '`' {
        Some(Quote::Identifier)
    } else if c == '"' {
        Some(Quote::String)
    } else if c == '\'' {
        Some(Quote::Rune)
    } else {
        None
    }
}

/// The kind of the token that opens a quoted stringlike.
pub open spec fn opening_kind(quote: Quote) -> Kind {
    match quote {
        Quote::Identifier => Kind::TOKEN_IDENTIFIER_START,
        Quote::String => Kind::TOKEN_STRING_START,
        Quote::Rune => Kind::TOKEN_RUNE_START,
    }
}

/// The kind of the token that closes a quoted stringlike.
pub open spec fn closing_kind(quote: Quote) -> Kind {
    match quote {
        Quote::Identifier => Kind::TOKEN_IDENTIFIER_END,
        Quote::String => Kind::TOKEN_STRING_END,
        Quote::Rune => Kind::TOKEN_RUNE_END,
    }
}

/// Whether a path starts at a character, given the one after it: at a `\`,
/// at `./` or `..`, or at a `/` followed by a character of a path.
pub open spec fn starts_path(c: char, next: Option<char>) -> bool {
    ||| c == '\\'
    ||| c == '.' && (next == Some('.') || next == Some('/'))
    ||| c == '/' && next.is_some() && path_character(next.unwrap())
}

/// Whether the header of an island starts at a `<`, given the character
/// after it.
pub open spec fn starts_island(next: Option<char>) -> bool {
    next.is_some() && (initial_identifier_character(next.unwrap()) || next.unwrap() == '\\')
}

/// A step that only moves on in the text.
pub open spec fn advance(kind: Kind, offset: int, stack: Seq<Context>) -> Step {
    Step { kind, state: LexState { offset, stack } }
}

/// The step on a `(` or `)`. Inside an interpolation the parentheses are
/// counted, and the `)` that matches none of them ends the interpolation.
pub open spec fn parenthesis_step(c: char, state: LexState) -> Step {
    let after = state.offset + 1;
    match top(state.stack) {
        Some(Context::Interpolation { parentheses }) => {
            let rest = state.stack.drop_last();
            if c == '(' {
                advance(
                    Kind::TOKEN_PARENTHESIS_LEFT,
                    after,
                    rest.push(Context::Interpolation { parentheses: (parentheses + 1) as usize }),
                )
            } else if parentheses > 0 {
                advance(
                    Kind::TOKEN_PARENTHESIS_RIGHT,
                    after,
                    rest.push(Context::Interpolation { parentheses: (parentheses - 1) as usize }),
                )
            } else {
                advance(Kind::TOKEN_INTERPOLATION_END, after, rest)
            }
        },
        _ => advance(
            if c == '(' {
                Kind::TOKEN_PARENTHESIS_LEFT
            } else {
                Kind::TOKEN_PARENTHESIS_RIGHT
            },
            after,
            state.stack,
        ),
    }
}

/// The step in the ordinary mode, where expression tokens are read: outside
/// of every context and directly inside an interpolation. There is none at
/// the end of the text. The rules are tried in the order written.
pub open spec fn normal_step(text: Seq<char>, state: LexState) -> Option<Step> {
    let at = state.offset;
    if !(0 <= at < text.len()) {
        None
    } else {
        let c = text[at];
        let next = peek(text, at + 1);
        let stack = state.stack;
        Some(
            if whitespace(c) {
                advance(
                    Kind::TOKEN_WHITESPACE,
                    scan_while(text, at + 1, CharClass::Whitespace),
                    stack,
                )
            } else if c == '#' {
                if next == Some('=') {
                    advance(Kind::TOKEN_COMMENT, block_comment(text, at), stack)
                } else {
                    advance(
                        Kind::TOKEN_COMMENT,
                        scan_while(text, at + 1, CharClass::NotNewline),
                        stack,
                    )
                }
            } else if punctuation(c, next).is_some() {
                advance(punctuation(c, next).unwrap().0, at + punctuation(c, next).unwrap().1, stack)
            } else if c == '(' || c == ')' {
                parenthesis_step(c, state)
            } else if c == '0' && radix_class(next).is_some() {
                let number = radix_number(text, at, radix_class(next).unwrap());
                advance(number.0, number.1, stack)
            } else if ascii_digit(c) {
                let number = decimal_number(text, at);
                advance(number.0, number.1, stack)
            } else if initial_identifier_character(c) {
                let end = scan_while(text, at + 1, CharClass::Identifier);
                advance(word_kind(text.subrange(at, end)), end, stack)
            } else if starts_path(c, next) {
                advance(Kind::TOKEN_PATH_START, at, stack.push(Context::Path))
            } else if c == '@' {
                advance(Kind::TOKEN_AT, at + 1, stack)
            } else if quote_of(c).is_some() {
                let quote = quote_of(c).unwrap();
                let end = scan_while(text, at + 1, CharClass::Equals);
                advance(
                    opening_kind(quote),
                    end,
                    stack.push(Context::Delimited { equals: (end - (at + 1)) as usize, quote }),
                )
            } else if c == '.' {
                advance(Kind::TOKEN_PERIOD, at + 1, stack)
            } else if c == '/' {
                advance(Kind::TOKEN_SLASH, at + 1, stack)
            } else if c == '<' {
                if starts_island(next) {
                    advance(
                        Kind::TOKEN_ISLAND_HEADER_START,
                        at + 1,
                        stack.push(Context::IslandHeader),
                    )
                } else if next == Some('=') {
                    advance(Kind::TOKEN_LESS_EQUAL, at + 2, stack)
                } else {
                    advance(Kind::TOKEN_LESS, at + 1, stack)
                }
            } else {
                advance(Kind::TOKEN_ERROR_UNKNOWN, at + 1, stack)
            },
        )
    }
}

/// Whether the content of a stringlike stops at `at` for its closing
/// delimiter. A path closes where its characters end; a quoted stringlike
/// at its run of `=` followed by its quote; the header of an island at a
/// `>` or `:`.
pub open spec fn closes(text: Seq<char>, at: int, context: Context) -> bool {
    match context {
        Context::Path => !(0 <= at < text.len()) || !path_character(text[at]),
        Context::Delimited { equals, quote } => equals_at(text, at, equals as int) && peek(
            text,
            at + equals,
        ) == Some(quote.character()),
        Context::IslandHeader => peek(text, at) == Some('>') || peek(text, at) == Some(':'),
        _ => false,
    }
}

/// Where the content of a stringlike that is read from `at` ends, and how.
/// A `\` takes the character after it along as content, unless that is a
/// `(`, which opens an interpolation.
pub open spec fn content_end(text: Seq<char>, at: int, context: Context) -> (int, ContentEnd)
    decreases text.len() - at,
{
    if closes(text, at, context) {
        (at, ContentEnd::Close)
    } else if !(0 <= at < text.len()) {
        (at, ContentEnd::Eof)
    } else if text[at] == '\\' && peek(text, at + 1) == Some('(') {
        (at, ContentEnd::Interpolation)
    } else if text[at] == '\\' && at + 1 < text.len() {
        content_end(text, at + 2, context)
    } else {
        content_end(text, at + 1, context)
    }
}

/// The context that follows a content context when its closing delimiter
/// is reached.
pub open spec fn closing_context(context: Context) -> Context {
    match context {
        Context::Path => Context::PathEnd,
        Context::Delimited { equals, quote } => Context::DelimitedEnd { equals, quote },
        Context::IslandHeader => Context::IslandHeaderEnd,
        other => other,
    }
}

/// The step inside a stringlike: content up to the closing delimiter, to an
/// interpolation or to the end of the text. The content may be empty.
pub open spec fn content_step(text: Seq<char>, state: LexState) -> Step {
    let context = state.stack.last();
    let (end, how) = content_end(text, state.offset, context);
    let stack = match how {
        ContentEnd::Close => state.stack.drop_last().push(closing_context(context)),
        ContentEnd::Eof => state.stack.drop_last(),
        ContentEnd::Interpolation => state.stack.push(Context::InterpolationStart),
    };
    advance(Kind::TOKEN_CONTENT, end, stack)
}

/// One step of the tokenizer, as its innermost context has it.
pub open spec fn step(text: Seq<char>, state: LexState) -> Option<Step> {
    let at = state.offset;
    match top(state.stack) {
        Some(Context::IslandHeader) | Some(Context::Path) | Some(Context::Delimited { .. }) => Some(
            content_step(text, state),
        ),
        Some(Context::IslandHeaderEnd) => Some(
            advance(Kind::TOKEN_ISLAND_HEADER_END, at + 1, state.stack.drop_last()),
        ),
        Some(Context::PathEnd) => Some(advance(Kind::TOKEN_PATH_END, at, state.stack.drop_last())),
        Some(Context::DelimitedEnd { equals, quote }) => Some(
            advance(closing_kind(quote), at + equals + 1, state.stack.drop_last()),
        ),
        Some(Context::InterpolationStart) => Some(
            advance(
                Kind::TOKEN_INTERPOLATION_START,
                at + 2,
                state.stack.drop_last().push(Context::Interpolation { parentheses: 0 }),
            ),
        ),
        Some(Context::Interpolation { .. }) | None => normal_step(text, state),
    }
}

/// Whether a step read content and nothing of it.
pub open spec fn is_empty_content(state: LexState, taken: Step) -> bool {
    taken.kind == Kind::TOKEN_CONTENT && taken.state.offset == state.offset
}

/// The next token: the step from the state, or the step after it where the
/// first one read empty content, which is never handed out. The token's text
/// runs from the state's offset to the offset of the state reached.
pub open spec fn next_token(text: Seq<char>, state: LexState) -> Option<Step> {
    match step(text, state) {
        Some(first) => if is_empty_content(state, first) {
            step(text, first.state)
        } else {
            Some(first)
        },
        None => None,
    }
}

/// Whether `tokens` are the tokens read from `from` until `to` is reached,
/// each with its kind and its text.
pub open spec fn reads(
    text: Seq<char>,
    from: LexState,
    tokens: Seq<(Kind, Seq<char>)>,
    to: LexState,
) -> bool
    decreases tokens.len(),
{
    if tokens.len() == 0 {
        from == to
    } else {
        match next_token(text, from) {
            Some(taken) => {
                &&& tokens[0] == (taken.kind, text.subrange(from.offset, taken.state.offset))
                &&& reads(text, taken.state, tokens.drop_first(), to)
            },
            None => false,
        }
    }
}

/// Whether `tokens` are all the tokens of the text when read from `from`:
/// each is the next token after the one before, and none follows the last.
pub open spec fn tokenizes(text: Seq<char>, from: LexState, tokens: Seq<(Kind, Seq<char>)>) -> bool
    decreases tokens.len(),
{
    match next_token(text, from) {
        Some(taken) => {
            &&& tokens.len() > 0
            &&& tokens[0] == (taken.kind, text.subrange(from.offset, taken.state.offset))
            &&& tokenizes(text, taken.state, tokens.drop_first())
        },
        None => tokens.len() == 0,
    }
}

/// The texts of tokens, one after the other.
pub open spec fn concatenation(tokens: Seq<(Kind, Seq<char>)>) -> Seq<char>
    decreases tokens.len(),
{
    if tokens.len() == 0 {
        Seq::empty()
    } else {
        concatenation(tokens.drop_last()) + tokens.last().1
    }
}

/// Whether the entry at `index` of a stack may stand where it stands.
/// Content contexts stand at the bottom or directly inside an
/// interpolation; a closing context likewise, and only innermost; an
/// interpolation or its start directly inside a content context, the start
/// only innermost. No interpolation has more parentheses open than
/// characters were read.
pub open spec fn entry_fits(stack: Seq<Context>, index: int, offset: int) -> bool {
    let outermost = index == 0 || stack[index - 1] is Interpolation;
    let in_content = index > 0 && stack[index - 1].reads_content();
    let innermost = index == stack.len() - 1;
    match stack[index] {
        Context::Path | Context::Delimited { .. } | Context::IslandHeader => outermost,
        Context::PathEnd | Context::DelimitedEnd { .. } | Context::IslandHeaderEnd => outermost
            && innermost,
        Context::InterpolationStart => in_content && innermost,
        Context::Interpolation { parentheses } => in_content && parentheses <= offset,
    }
}

/// Whether every entry of a stack may stand where it stands.
pub open spec fn stack_fits(stack: Seq<Context>, offset: int) -> bool {
    forall|index: int| 0 <= index < stack.len() ==> #[trigger] entry_fits(stack, index, offset)
}

/// Whether the text at the offset is what the innermost context stands for:
/// a closing context stands at its delimiter, the start of an
/// interpolation at a `\(`.
pub open spec fn top_fits(text: Seq<char>, state: LexState) -> bool {
    let at = state.offset;
    match top(state.stack) {
        Some(Context::PathEnd) => closes(text, at, Context::Path),
        Some(Context::DelimitedEnd { equals, quote }) => closes(
            text,
            at,
            Context::Delimited { equals, quote },
        ),
        Some(Context::IslandHeaderEnd) => closes(text, at, Context::IslandHeader),
        Some(Context::InterpolationStart) => peek(text, at) == Some('\\') && peek(text, at + 1)
            == Some('('),
        _ => true,
    }
}

/// The states that the tokenizer can be in on a text.
pub open spec fn well_formed(text: Seq<char>, state: LexState) -> bool {
    &&& 0 <= state.offset <= text.len()
    &&& stack_fits(state.stack, state.offset)
    &&& top_fits(text, state)
}

/// How many steps can follow one another from a state without moving on in
/// the text, at most. In the ordinary mode a path can start only at a
/// character of a path; a path that ends without content ends where no such
/// character stands.
pub open spec fn rank(text: Seq<char>, state: LexState) -> int {
    let in_path = 0 <= state.offset < text.len() && path_character(text[state.offset]);
    match top(state.stack) {
        Some(Context::Path) | Some(Context::Delimited { .. }) | Some(Context::IslandHeader) => 2,
        Some(Context::PathEnd)
        | Some(Context::DelimitedEnd { .. })
        | Some(Context::IslandHeaderEnd) => 1,
        Some(Context::InterpolationStart) => 0,
        Some(Context::Interpolation { .. }) | None => if in_path {
            3
        } else {
            0
        },
    }
}

/// A number that gets smaller with every step: what is left of the text
/// weighs most, then the steps that may follow without moving on.
pub open spec fn remaining_work(text: Seq<char>, state: LexState) -> int {
    4 * (text.len() - state.offset) + rank(text, state)
}

} // verus!
