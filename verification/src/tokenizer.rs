//! The tokenizer: a pull interface over a source text that hands out typed
//! tokens with their exact slices.

use vstd::prelude::*;

use crate::context::{Context, ContextStack, Quote};
use crate::kind::Kind;
use crate::lexer::{
    advance, block_comment, closes, comment_body, concatenation, content_end, entry_fits,
    initial_state, is_empty_content, next_token, number_tail, parenthesis_step, punctuation,
    quote_of, radix_class, reads, remaining_work, scientific, stack_fits, starts_island,
    starts_path, step, tokenizes, top, well_formed, word_kind, ContentEnd, LexState, Step,
};
use crate::text::{
    characters, consume_while, encoded_len, has_equals_at, is_all_underscores, is_ascii_digit,
    is_valid_initial_identifier_character, is_valid_path_character, is_whitespace,
    lemma_utf8_len_of_joined, lemma_utf8_len_of_stretch, peek, peek_character, slice_of, utf8_len,
    CharClass,
};

verus! {

/// Moving on in the text keeps a stack fitting.
pub proof fn lemma_fits_later(stack: Seq<Context>, offset: int, later: int)
    requires
        stack_fits(stack, offset),
        offset <= later,
    ensures
        stack_fits(stack, later),
{
    assert forall|index: int| 0 <= index < stack.len() implies #[trigger] entry_fits(
        stack,
        index,
        later,
    ) by {
        assert(entry_fits(stack, index, offset));
    }
}

/// Leaving the innermost context keeps a stack fitting.
pub proof fn lemma_fits_without_last(stack: Seq<Context>, offset: int)
    requires
        stack_fits(stack, offset),
        stack.len() > 0,
    ensures
        stack_fits(stack.drop_last(), offset),
{
    let rest = stack.drop_last();
    assert forall|index: int| 0 <= index < rest.len() implies #[trigger] entry_fits(
        rest,
        index,
        offset,
    ) by {
        assert(entry_fits(stack, index, offset));
    }
}

/// Whether a context may be entered from a stack.
pub open spec fn may_enter(stack: Seq<Context>, context: Context, offset: int) -> bool {
    match context {
        Context::InterpolationStart => stack.len() > 0 && stack.last().reads_content(),
        Context::Interpolation { parentheses } => stack.len() > 0 && stack.last().reads_content()
            && parentheses <= offset,
        _ => stack.len() == 0 || stack.last() is Interpolation,
    }
}

/// Entering a context that may be entered keeps a stack fitting.
pub proof fn lemma_fits_with(stack: Seq<Context>, context: Context, offset: int)
    requires
        stack_fits(stack, offset),
        may_enter(stack, context, offset),
    ensures
        stack_fits(stack.push(context), offset),
{
    let grown = stack.push(context);
    assert forall|index: int| 0 <= index < grown.len() implies #[trigger] entry_fits(
        grown,
        index,
        offset,
    ) by {
        if index < stack.len() {
            assert(entry_fits(stack, index, offset));
        }
    }
}

/// What stands below the innermost context of a fitting stack.
pub proof fn lemma_below_top(stack: Seq<Context>, offset: int)
    requires
        stack_fits(stack, offset),
        stack.len() > 0,
    ensures
        stack.last() is InterpolationStart || stack.last() is Interpolation ==> stack.len() > 1
            && stack.drop_last().last().reads_content(),
        !(stack.last() is InterpolationStart || stack.last() is Interpolation) ==> stack.len() == 1
            || stack.drop_last().last() is Interpolation,
        stack.last() matches Context::Interpolation { parentheses } ==> parentheses <= offset,
{
    assert(entry_fits(stack, stack.len() - 1, offset));
}

/// Returns the punctuation that stands at a character, given the one after
/// it, and its width.
fn lex_punctuation(c: char, next: Option<char>) -> (result: Option<(Kind, usize)>)
    ensures
        result.is_some() == punctuation(c, next).is_some(),
        result.is_some() ==> result.unwrap().0 == punctuation(c, next).unwrap().0
            && result.unwrap().1 == punctuation(c, next).unwrap().1,
        result.is_some() ==> 1 <= result.unwrap().1 <= 2,
        result.is_some() && result.unwrap().1 == 2 ==> next.is_some(),
{
    if c == ';' {
        Some((Kind::TOKEN_SEMICOLON, 1))
    } else if c == '?' {
        Some((Kind::TOKEN_QUESTIONMARK, 1))
    } else if c == '<' && next == Some('|') {
        Some((Kind::TOKEN_LESS_PIPE, 2))
    } else if c == '|' {
        if next == Some('>') {
            Some((Kind::TOKEN_PIPE_MORE, 2))
        } else if next == Some('|') {
            Some((Kind::TOKEN_PIPE_PIPE, 2))
        } else {
            Some((Kind::TOKEN_PIPE, 1))
        }
    } else if c == '=' {
        if next == Some('>') {
            Some((Kind::TOKEN_EQUAL_GREATER, 2))
        } else {
            Some((Kind::TOKEN_EQUAL, 1))
        }
    } else if c == ',' {
        Some((Kind::TOKEN_COMMA, 1))
    } else if c == ':' {
        Some((Kind::TOKEN_COLON, 1))
    } else if c == '+' {
        if next == Some('+') {
            Some((Kind::TOKEN_PLUS_PLUS, 2))
        } else {
            Some((Kind::TOKEN_PLUS, 1))
        }
    } else if c == '[' {
        Some((Kind::TOKEN_BRACKET_LEFT, 1))
    } else if c == ']' {
        Some((Kind::TOKEN_BRACKET_RIGHT, 1))
    } else if c == '/' && next == Some('/') {
        Some((Kind::TOKEN_SLASH_SLASH, 2))
    } else if c == '{' {
        Some((Kind::TOKEN_CURLYBRACE_LEFT, 1))
    } else if c == '}' {
        Some((Kind::TOKEN_CURLYBRACE_RIGHT, 1))
    } else if c == '!' {
        if next == Some('=') {
            Some((Kind::TOKEN_EXCLAMATION_EQUAL, 2))
        } else {
            Some((Kind::TOKEN_EXCLAMATIONMARK, 1))
        }
    } else if c == '>' {
        if next == Some('=') {
            Some((Kind::TOKEN_MORE_EQUAL, 2))
        } else {
            Some((Kind::TOKEN_MORE, 1))
        }
    } else if c == '&' {
        if next == Some('&') {
            Some((Kind::TOKEN_AMPERSAND_AMPERSAND, 2))
        } else {
            Some((Kind::TOKEN_AMPERSAND, 1))
        }
    } else if c == '-' {
        if next == Some('>') {
            Some((Kind::TOKEN_MINUS_MORE, 2))
        } else {
            Some((Kind::TOKEN_MINUS, 1))
        }
    } else if c == '*' {
        Some((Kind::TOKEN_ASTERISK, 1))
    } else if c == '^' {
        Some((Kind::TOKEN_CARET, 1))
    } else {
        None
    }
}

/// Returns the digits that follow a radix prefix.
fn lex_radix(prefix: Option<char>) -> (result: Option<CharClass>)
    ensures
        result == radix_class(prefix),
{
    if prefix == Some('b') || prefix == Some('B') {
        Some(CharClass::Binary)
    } else if prefix == Some('o') || prefix == Some('O') {
        Some(CharClass::Octal)
    } else if prefix == Some('x') || prefix == Some('X') {
        Some(CharClass::Hexadecimal)
    } else {
        None
    }
}

/// Reads the exponent that may follow the fraction of a float.
fn consume_scientific(text: &[char], at: usize) -> (result: (Kind, usize))
    requires
        at <= text.len(),
    ensures
        result.0 == scientific(text@, at as int).0,
        result.1 == scientific(text@, at as int).1,
        at <= result.1 <= text.len(),
{
    let marker = peek_character(text, at);
    if marker == Some('e') || marker == Some('E') {
        let sign = peek_character(text, at + 1);
        let digits: usize = if sign == Some('+') || sign == Some('-') {
            at + 2
        } else {
            at + 1
        };
        let end = consume_while(text, digits, CharClass::Decimal);
        if is_all_underscores(text, digits, end) {
            (Kind::TOKEN_ERROR_FLOAT_NO_EXPONENT, end)
        } else {
            (Kind::TOKEN_FLOAT, end)
        }
    } else {
        (Kind::TOKEN_FLOAT, at)
    }
}

/// Reads what follows the integer digits of a number.
fn consume_number_tail(text: &[char], digits_end: usize, class: CharClass, missing: bool) -> (result:
    (Kind, usize))
    requires
        digits_end <= text.len(),
    ensures
        result.0 == number_tail(text@, digits_end as int, class, missing).0,
        result.1 == number_tail(text@, digits_end as int, class, missing).1,
        digits_end <= result.1 <= text.len(),
{
    let is_float = if peek_character(text, digits_end) == Some('.') {
        match peek_character(text, digits_end + 1) {
            Some(after) => class.contains(after),
            None => false,
        }
    } else {
        false
    };
    if is_float {
        let fraction_end = consume_while(text, digits_end + 1, class);
        let tail = consume_scientific(text, fraction_end);
        if missing {
            (Kind::TOKEN_ERROR_NUMBER_NO_DIGIT, tail.1)
        } else {
            tail
        }
    } else if missing {
        (Kind::TOKEN_ERROR_NUMBER_NO_DIGIT, digits_end)
    } else {
        (Kind::TOKEN_INTEGER, digits_end)
    }
}

/// Returns the kind of the word that stands from `from` up to `to`.
fn classify_word(text: &[char], from: usize, to: usize) -> (kind: Kind)
    requires
        from <= to <= text.len(),
    ensures
        kind == word_kind(text@.subrange(from as int, to as int)),
{
    let ghost word = text@.subrange(from as int, to as int);
    let length: usize = to - from;
    if length == 2 && text[from] == 'i' && text[from + 1] == 'f' {
        assert(word =~= seq!['i', 'f']);
        Kind::TOKEN_KEYWORD_IF
    } else if length == 4 && text[from] == 't' && text[from + 1] == 'h' && text[from + 2] == 'e'
        && text[from + 3] == 'n' {
        assert(word =~= seq!['t', 'h', 'e', 'n']);
        assert(word != seq!['i', 'f']) by {
            assert(seq!['i', 'f'].len() == 2);
        }
        Kind::TOKEN_KEYWORD_THEN
    } else if length == 4 && text[from] == 'e' && text[from + 1] == 'l' && text[from + 2] == 's'
        && text[from + 3] == 'e' {
        assert(word =~= seq!['e', 'l', 's', 'e']);
        assert(word != seq!['i', 'f']) by {
            assert(seq!['i', 'f'].len() == 2);
        }
        assert(word != seq!['t', 'h', 'e', 'n']) by {
            assert(seq!['t', 'h', 'e', 'n'][0] == 't');
        }
        Kind::TOKEN_KEYWORD_ELSE
    } else {
        assert(word != seq!['i', 'f']) by {
            if word == seq!['i', 'f'] {
                assert(word.len() == 2);
                assert(word[0] == 'i' && word[1] == 'f');
            }
        }
        assert(word != seq!['t', 'h', 'e', 'n']) by {
            if word == seq!['t', 'h', 'e', 'n'] {
                assert(word.len() == 4);
                assert(word[0] == 't' && word[1] == 'h' && word[2] == 'e' && word[3] == 'n');
            }
        }
        assert(word != seq!['e', 'l', 's', 'e']) by {
            if word == seq!['e', 'l', 's', 'e'] {
                assert(word.len() == 4);
                assert(word[0] == 'e' && word[1] == 'l' && word[2] == 's' && word[3] == 'e');
            }
        }
        Kind::TOKEN_IDENTIFIER
    }
}

/// Reads the block comment whose `#` stands at `at` and returns its end.
fn consume_block_comment(text: &[char], at: usize) -> (end: usize)
    requires
        at < text.len(),
        peek(text@, at + 1) == Some('='),
    ensures
        end == block_comment(text@, at as int),
        at < end <= text.len(),
    decreases text.len() - at, 0int,
{
    let body = consume_while(text, at + 1, CharClass::Equals);
    consume_comment_body(text, body, body - (at + 1))
}

/// Reads a block comment opened with `equals` characters `=` from `from`
/// inside it, and returns its end.
fn consume_comment_body(text: &[char], from: usize, equals: usize) -> (end: usize)
    requires
        from <= text.len(),
    ensures
        end == comment_body(text@, from as int, equals as int),
        from <= end <= text.len(),
    decreases text.len() - from, 1int,
{
    let mut at: usize = from;
    loop
        invariant
            from <= at <= text.len(),
            comment_body(text@, from as int, equals as int) == comment_body(
                text@,
                at as int,
                equals as int,
            ),
        decreases text.len() - at,
    {
        if at >= text.len() {
            return at;
        }
        let c = text[at];
        if c == '=' {
            if has_equals_at(text, at, equals) && peek_character(text, at + equals) == Some('#') {
                return at + equals + 1;
            }
            at = consume_while(text, at, CharClass::Equals);
        } else if c == '#' && peek_character(text, at + 1) == Some('=') {
            at = consume_block_comment(text, at);
        } else {
            at += 1;
        }
    }
}

/// Whether the content of a stringlike stops at `at` for its closing
/// delimiter.
fn closes_here(text: &[char], at: usize, context: Context) -> (result: bool)
    requires
        at <= text.len(),
    ensures
        result == closes(text@, at as int, context),
{
    match context {
        Context::Path => match peek_character(text, at) {
            Some(c) => !is_valid_path_character(c),
            None => true,
        },
        Context::Delimited { equals, quote } => has_equals_at(text, at, equals) && peek_character(
            text,
            at + equals,
        ) == Some(quote.to_char()),
        Context::IslandHeader => {
            let c = peek_character(text, at);
            c == Some('>') || c == Some(':')
        },
        _ => false,
    }
}

/// Reads the content of a stringlike from `from` and returns where it ends,
/// and how.
fn consume_content(text: &[char], from: usize, context: Context) -> (result: (usize, ContentEnd))
    requires
        from <= text.len(),
    ensures
        (result.0 as int, result.1) == content_end(text@, from as int, context),
        from <= result.0 <= text.len(),
        result.1 == ContentEnd::Close ==> closes(text@, result.0 as int, context),
        result.1 == ContentEnd::Eof ==> result.0 == text.len(),
        result.1 == ContentEnd::Interpolation ==> peek(text@, result.0 as int) == Some('\\')
            && peek(text@, result.0 + 1) == Some('('),
{
    let mut at: usize = from;
    loop
        invariant
            from <= at <= text.len(),
            content_end(text@, from as int, context) == content_end(text@, at as int, context),
        decreases text.len() - at,
    {
        if closes_here(text, at, context) {
            return (at, ContentEnd::Close);
        }
        if at >= text.len() {
            return (at, ContentEnd::Eof);
        }
        if text[at] == '\\' {
            if peek_character(text, at + 1) == Some('(') {
                return (at, ContentEnd::Interpolation);
            }
            if at + 1 < text.len() {
                at += 2;
            } else {
                at += 1;
            }
        } else {
            at += 1;
        }
    }
}

/// Returns the quote that a character is, if it is one.
fn lex_quote(c: char) -> (result: Option<Quote>)
    ensures
        result == quote_of(c),
{
    if c == '`' {
        Some(Quote::Identifier)
    } else if c == '"' {
        Some(Quote::String)
    } else if c == '\'' {
        Some(Quote::Rune)
    } else {
        None
    }
}

/// Whether a path starts at a character, given the one after it.
fn lex_starts_path(c: char, next: Option<char>) -> (result: bool)
    ensures
        result == starts_path(c, next),
{
    if c == '\\' {
        true
    } else if c == '.' {
        next == Some('.') || next == Some('/')
    } else if c == '/' {
        match next {
            Some(after) => is_valid_path_character(after),
            None => false,
        }
    } else {
        false
    }
}

/// Whether the header of an island starts at a `<`, given the character
/// after it.
fn lex_starts_island(next: Option<char>) -> (result: bool)
    ensures
        result == starts_island(next),
{
    match next {
        Some(after) => is_valid_initial_identifier_character(after) || after == '\\',
        None => false,
    }
}

/// A tokenizer over a source text. Each call of [`Tokenizer::next`] hands
/// out the next token with its slice of the source.
pub struct Tokenizer<'a> {
    source: &'a str,
    text: Vec<char>,
    offset: usize,
    byte: usize,
    context: ContextStack,
}

impl<'a> Tokenizer<'a> {
    /// The characters of the source text.
    pub closed spec fn text(&self) -> Seq<char> {
        self.source@
    }

    /// Where the tokenizer stands.
    pub closed spec fn state(&self) -> LexState {
        LexState { offset: self.offset as int, stack: self.context@ }
    }

    /// The tokenizer holds the characters of its source and stands in a
    /// state that tokenizing can reach.
    spec fn steady(&self) -> bool {
        &&& self.text@ == self.source@
        &&& well_formed(self.source@, self.state())
    }

    /// The tokenizer is steady, and it knows at which byte of the source
    /// it stands.
    pub closed spec fn well_formed(&self) -> bool {
        &&& self.steady()
        &&& utf8_len(self.source@) <= usize::MAX
        &&& self.byte == utf8_len(self.source@.subrange(0, self.offset as int))
    }

    /// Creates a tokenizer that stands at the start of the source.
    pub fn new(source: &'a str) -> (result: Self)
        ensures
            result.well_formed(),
            result.text() == source@,
            result.state() == initial_state(),
    {
        let result = Tokenizer {
            source,
            text: characters(source),
            offset: 0,
            byte: 0,
            context: ContextStack::new(),
        };
        proof {
            assert(result.context@ =~= Seq::<Context>::empty());
            assert(source@.subrange(0, 0) =~= Seq::<char>::empty());
            lemma_utf8_len_of_joined(Seq::empty(), Seq::empty());
        }
        result
    }

    /// Enters a context.
    fn context_push(&mut self, context: Context)
        requires
            stack_fits(old(self).context@, old(self).offset as int),
            may_enter(old(self).context@, context, old(self).offset as int),
        ensures
            final(self).context@ == old(self).context@.push(context),
            stack_fits(final(self).context@, final(self).offset as int),
            final(self).source == old(self).source,
            final(self).text == old(self).text,
            final(self).byte == old(self).byte,
            final(self).offset == old(self).offset,
    {
        proof {
            lemma_fits_with(self.context@, context, self.offset as int);
        }
        self.context.push(context);
    }

    /// Leaves the innermost context.
    fn context_pop(&mut self)
        requires
            stack_fits(old(self).context@, old(self).offset as int),
            old(self).context@.len() > 0,
        ensures
            final(self).context@ == old(self).context@.drop_last(),
            stack_fits(final(self).context@, final(self).offset as int),
            final(self).source == old(self).source,
            final(self).text == old(self).text,
            final(self).byte == old(self).byte,
            final(self).offset == old(self).offset,
    {
        proof {
            lemma_fits_without_last(self.context@, self.offset as int);
        }
        self.context.pop();
    }

    /// Moves on in the text.
    fn advance_to(&mut self, offset: usize)
        requires
            stack_fits(old(self).context@, old(self).offset as int),
            old(self).offset <= offset,
        ensures
            final(self).context@ == old(self).context@,
            stack_fits(final(self).context@, final(self).offset as int),
            final(self).source == old(self).source,
            final(self).text == old(self).text,
            final(self).byte == old(self).byte,
            final(self).offset == offset,
    {
        proof {
            lemma_fits_later(self.context@, self.offset as int, offset as int);
        }
        self.offset = offset;
    }

    /// Takes the step on a `(` or `)`.
    fn consume_parenthesis(&mut self, c: char) -> (kind: Kind)
        requires
            old(self).steady(),
            old(self).offset < old(self).text@.len(),
            c == '(' || c == ')',
            !(top(old(self).context@) matches Some(context) && !(context is Interpolation)),
        ensures
            final(self).steady(),
            final(self).byte == old(self).byte,
            final(self).text() == old(self).text(),
            advance(kind, final(self).offset as int, final(self).context@)
                == parenthesis_step(c, old(self).state()),
            final(self).offset == old(self).offset + 1,
    {
        let length: usize = self.text.len();
        let after: usize = self.offset + 1;
        match self.context.last() {
            Some(Context::Interpolation { parentheses }) => {
                proof {
                    lemma_below_top(self.context@, self.offset as int);
                }
                self.context_pop();
                self.advance_to(after);
                if c == '(' {
                    self.context_push(Context::Interpolation { parentheses: parentheses + 1 });
                    Kind::TOKEN_PARENTHESIS_LEFT
                } else if parentheses > 0 {
                    self.context_push(Context::Interpolation { parentheses: parentheses - 1 });
                    Kind::TOKEN_PARENTHESIS_RIGHT
                } else {
                    Kind::TOKEN_INTERPOLATION_END
                }
            },
            _ => {
                self.advance_to(after);
                if c == '(' {
                    Kind::TOKEN_PARENTHESIS_LEFT
                } else {
                    Kind::TOKEN_PARENTHESIS_RIGHT
                }
            },
        }
    }

    /// Takes the step in the ordinary mode.
    fn consume_normal(&mut self) -> (kind: Option<Kind>)
        requires
            old(self).steady(),
            !(top(old(self).context@) matches Some(context) && !(context is Interpolation)),
        ensures
            final(self).steady(),
            final(self).byte == old(self).byte,
            final(self).text() == old(self).text(),
            stepped(old(self).text(), old(self).state(), kind, final(self).state()),
    {
        if self.offset >= self.text.len() {
            return None;
        }
        let at: usize = self.offset;
        let c = self.text[at];
        let next = peek_character(self.text.as_slice(), at + 1);

        if is_whitespace(c) {
            let end = consume_while(self.text.as_slice(), at + 1, CharClass::Whitespace);
            self.advance_to(end);
            return Some(Kind::TOKEN_WHITESPACE);
        }
        if c == '#' {
            let end = if next == Some('=') {
                consume_block_comment(self.text.as_slice(), at)
            } else {
                consume_while(self.text.as_slice(), at + 1, CharClass::NotNewline)
            };
            self.advance_to(end);
            return Some(Kind::TOKEN_COMMENT);
        }
        if let Some((kind, width)) = lex_punctuation(c, next) {
            self.advance_to(at + width);
            return Some(kind);
        }
        if c == '(' || c == ')' {
            return Some(self.consume_parenthesis(c));
        }
        if c == '0' {
            if let Some(class) = lex_radix(next) {
                let digits_end = consume_while(self.text.as_slice(), at + 2, class);
                let missing = is_all_underscores(self.text.as_slice(), at + 2, digits_end);
                let number = consume_number_tail(self.text.as_slice(), digits_end, class, missing);
                self.advance_to(number.1);
                return Some(number.0);
            }
        }
        if is_ascii_digit(c) {
            let digits_end = consume_while(self.text.as_slice(), at + 1, CharClass::Decimal);
            let number = consume_number_tail(
                self.text.as_slice(),
                digits_end,
                CharClass::Decimal,
                false,
            );
            self.advance_to(number.1);
            return Some(number.0);
        }
        if is_valid_initial_identifier_character(c) {
            let end = consume_while(self.text.as_slice(), at + 1, CharClass::Identifier);
            self.advance_to(end);
            return Some(classify_word(self.text.as_slice(), at, end));
        }
        if lex_starts_path(c, next) {
            // The path's first character is read again as its content.
            self.context_push(Context::Path);
            return Some(Kind::TOKEN_PATH_START);
        }
        if c == '@' {
            self.advance_to(at + 1);
            return Some(Kind::TOKEN_AT);
        }
        if let Some(quote) = lex_quote(c) {
            let end = consume_while(self.text.as_slice(), at + 1, CharClass::Equals);
            self.advance_to(end);
            self.context_push(Context::Delimited { equals: end - (at + 1), quote });
            return Some(
                match quote {
                    Quote::Identifier => Kind::TOKEN_IDENTIFIER_START,
                    Quote::String => Kind::TOKEN_STRING_START,
                    Quote::Rune => Kind::TOKEN_RUNE_START,
                },
            );
        }
        if c == '.' {
            self.advance_to(at + 1);
            return Some(Kind::TOKEN_PERIOD);
        }
        if c == '/' {
            self.advance_to(at + 1);
            return Some(Kind::TOKEN_SLASH);
        }
        if c == '<' {
            if lex_starts_island(next) {
                self.advance_to(at + 1);
                self.context_push(Context::IslandHeader);
                return Some(Kind::TOKEN_ISLAND_HEADER_START);
            }
            if next == Some('=') {
                self.advance_to(at + 2);
                return Some(Kind::TOKEN_LESS_EQUAL);
            }
            self.advance_to(at + 1);
            return Some(Kind::TOKEN_LESS);
        }
        self.advance_to(at + 1);
        Some(Kind::TOKEN_ERROR_UNKNOWN)
    }

    /// Takes the step inside a stringlike.
    fn consume_delimited(&mut self, context: Context) -> (kind: Kind)
        requires
            old(self).steady(),
            top(old(self).context@) == Some(context),
            context.reads_content(),
        ensures
            final(self).steady(),
            final(self).byte == old(self).byte,
            final(self).text() == old(self).text(),
            stepped(old(self).text(), old(self).state(), Some(kind), final(self).state()),
    {
        proof {
            lemma_below_top(self.context@, self.offset as int);
        }
        let (end, how) = consume_content(self.text.as_slice(), self.offset, context);
        self.advance_to(end);
        match how {
            ContentEnd::Close => {
                self.context_pop();
                self.context_push(
                    match context {
                        Context::Path => Context::PathEnd,
                        Context::Delimited { equals, quote } => Context::DelimitedEnd {
                            equals,
                            quote,
                        },
                        _ => Context::IslandHeaderEnd,
                    },
                );
            },
            ContentEnd::Eof => {
                self.context_pop();
            },
            ContentEnd::Interpolation => {
                self.context_push(Context::InterpolationStart);
            },
        }
        Kind::TOKEN_CONTENT
    }

    /// Takes one step, as the innermost context has it.
    fn consume_kind(&mut self) -> (kind: Option<Kind>)
        requires
            old(self).steady(),
        ensures
            final(self).steady(),
            final(self).byte == old(self).byte,
            final(self).text() == old(self).text(),
            stepped(old(self).text(), old(self).state(), kind, final(self).state()),
    {
        proof {
            if self.context@.len() > 0 {
                lemma_below_top(self.context@, self.offset as int);
            }
        }
        let length: usize = self.text.len();
        match self.context.last() {
            Some(Context::IslandHeader) => Some(self.consume_delimited(Context::IslandHeader)),
            Some(Context::Path) => Some(self.consume_delimited(Context::Path)),
            Some(Context::Delimited { equals, quote }) => Some(
                self.consume_delimited(Context::Delimited { equals, quote }),
            ),
            Some(Context::IslandHeaderEnd) => {
                self.context_pop();
                self.advance_to(self.offset + 1);
                Some(Kind::TOKEN_ISLAND_HEADER_END)
            },
            Some(Context::PathEnd) => {
                self.context_pop();
                Some(Kind::TOKEN_PATH_END)
            },
            Some(Context::DelimitedEnd { equals, quote }) => {
                self.context_pop();
                self.advance_to(self.offset + equals + 1);
                Some(
                    match quote {
                        Quote::Identifier => Kind::TOKEN_IDENTIFIER_END,
                        Quote::String => Kind::TOKEN_STRING_END,
                        Quote::Rune => Kind::TOKEN_RUNE_END,
                    },
                )
            },
            Some(Context::InterpolationStart) => {
                self.context_pop();
                self.advance_to(self.offset + 2);
                self.context_push(Context::Interpolation { parentheses: 0 });
                Some(Kind::TOKEN_INTERPOLATION_START)
            },
            Some(Context::Interpolation { .. }) | None => self.consume_normal(),
        }
    }

    /// Hands out the next token with its slice of the source, or `None`
    /// where the text has ended. Empty content is passed over.
    pub fn next(&mut self) -> (result: Option<(Kind, &'a str)>)
        requires
            old(self).well_formed(),
        ensures
            final(self).well_formed(),
            final(self).text() == old(self).text(),
            match next_token(old(self).text(), old(self).state()) {
                Some(taken) => {
                    &&& result.is_some()
                    &&& result.unwrap().0 == taken.kind
                    &&& result.unwrap().1@ == old(self).text().subrange(
                        old(self).state().offset,
                        taken.state.offset,
                    )
                    &&& final(self).state() == taken.state
                    &&& old(self).state().offset <= taken.state.offset <= old(self).text().len()
                    &&& remaining_work(old(self).text(), taken.state) < remaining_work(
                        old(self).text(),
                        old(self).state(),
                    )
                    &&& result.unwrap().1@.len() == 0 ==> taken.kind == Kind::TOKEN_PATH_START
                        || taken.kind == Kind::TOKEN_PATH_END
                },
                None => {
                    &&& result.is_none()
                    &&& old(self).state().offset == old(self).text().len()
                    &&& final(self).state().offset == old(self).text().len()
                    &&& next_token(old(self).text(), final(self).state()).is_none()
                },
            },
    {
        let start: usize = self.offset;
        let first = match self.consume_kind() {
            Some(kind) => kind,
            None => {
                return None;
            },
        };
        let kind = if matches!(first, Kind::TOKEN_CONTENT) && self.offset == start {
            match self.consume_kind() {
                Some(kind) => kind,
                None => {
                    return None;
                },
            }
        } else {
            first
        };
        proof {
            lemma_utf8_len_of_stretch(self.source@, 0, start as int, self.offset as int);
        }
        let length = encoded_len(self.text.as_slice(), start, self.offset);
        let slice = slice_of(
            self.source,
            self.byte,
            length,
            Ghost(start as int),
            Ghost(self.offset as int),
        );
        self.byte = self.byte + length;
        Some((kind, slice))
    }
}

/// A step as the tokenizer takes it: it is the step that the text and the
/// state call for, it never goes back in the text, and it gets the
/// tokenizer closer to the end. A step of no width is the start or end of a
/// path, or empty content, after which no content is read.
pub open spec fn stepped(text: Seq<char>, before: LexState, kind: Option<Kind>, after: LexState) -> bool {
    match step(text, before) {
        Some(taken) => {
            &&& kind == Some(taken.kind)
            &&& after == taken.state
            &&& before.offset <= after.offset <= text.len()
            &&& remaining_work(text, after) < remaining_work(text, before)
            &&& taken.kind == Kind::TOKEN_CONTENT ==> top(before.stack).is_some() && top(
                before.stack,
            ).unwrap().reads_content()
            &&& after.offset == before.offset ==> taken.kind == Kind::TOKEN_PATH_START || taken.kind
                == Kind::TOKEN_PATH_END || taken.kind == Kind::TOKEN_CONTENT
            &&& is_empty_content(before, taken) ==> !(top(after.stack).is_some() && top(
                after.stack,
            ).unwrap().reads_content())
        },
        None => {
            &&& kind.is_none()
            &&& after == before
            &&& before.offset == text.len()
            &&& !(top(before.stack) matches Some(context) && !(context is Interpolation))
        },
    }
}


/// The kinds and texts of tokens that hold slices of a source.
pub open spec fn token_views(tokens: Seq<(Kind, &str)>) -> Seq<(Kind, Seq<char>)> {
    Seq::new(tokens.len(), |i: int| (tokens[i].0, tokens[i].1@))
}

/// Tokens read up to a state, and the next token from there, are the tokens
/// read up to the state after it.
pub proof fn lemma_reads_one_more(
    text: Seq<char>,
    from: LexState,
    tokens: Seq<(Kind, Seq<char>)>,
    to: LexState,
    taken: Step,
)
    requires
        reads(text, from, tokens, to),
        next_token(text, to) == Some(taken),
    ensures
        reads(
            text,
            from,
            tokens.push((taken.kind, text.subrange(to.offset, taken.state.offset))),
            taken.state,
        ),
    decreases tokens.len(),
{
    let token = (taken.kind, text.subrange(to.offset, taken.state.offset));
    let more = tokens.push(token);
    if tokens.len() == 0 {
        assert(more.drop_first() =~= Seq::empty());
        assert(reads(text, taken.state, more.drop_first(), taken.state));
    } else {
        let first = next_token(text, from).unwrap();
        lemma_reads_one_more(text, first.state, tokens.drop_first(), to, taken);
        assert(more.drop_first() =~= tokens.drop_first().push(token));
    }
}

/// Tokens read up to a state from which no token follows are all the
/// tokens of the text.
pub proof fn lemma_reads_to_the_end(
    text: Seq<char>,
    from: LexState,
    tokens: Seq<(Kind, Seq<char>)>,
    to: LexState,
)
    requires
        reads(text, from, tokens, to),
        next_token(text, to).is_none(),
    ensures
        tokenizes(text, from, tokens),
    decreases tokens.len(),
{
    if tokens.len() > 0 {
        let first = next_token(text, from).unwrap();
        lemma_reads_to_the_end(text, first.state, tokens.drop_first(), to);
    }
}

/// Tokens read from the start up to a state make up the source up to that
/// state, also with the next token from there.
pub proof fn lemma_token_read(
    text: Seq<char>,
    tokens: Seq<(Kind, Seq<char>)>,
    to: LexState,
    taken: Step,
)
    requires
        reads(text, initial_state(), tokens, to),
        next_token(text, to) == Some(taken),
        concatenation(tokens) == text.subrange(0, to.offset),
        0 <= to.offset <= taken.state.offset <= text.len(),
    ensures
        reads(
            text,
            initial_state(),
            tokens.push((taken.kind, text.subrange(to.offset, taken.state.offset))),
            taken.state,
        ),
        concatenation(tokens.push((taken.kind, text.subrange(to.offset, taken.state.offset))))
            == text.subrange(0, taken.state.offset),
{
    let token = (taken.kind, text.subrange(to.offset, taken.state.offset));
    lemma_reads_one_more(text, initial_state(), tokens, to, taken);
    assert(tokens.push(token).drop_last() =~= tokens);
    assert(text.subrange(0, to.offset) + text.subrange(to.offset, taken.state.offset)
        =~= text.subrange(0, taken.state.offset));
}

/// Returns the tokens of a source text, each with its kind and its slice
/// of the source.
///
/// The result is exactly the run of tokens that the text calls for. The
/// slices follow one another without gap or overlap and make up the whole
/// source, and none of them is empty but those of the two tokens of no
/// width that start and end a path.
pub fn tokenize(source: &str) -> (tokens: Vec<(Kind, &str)>)
    ensures
        tokenizes(source@, initial_state(), token_views(tokens@)),
        concatenation(token_views(tokens@)) == source@,
        forall|i: int|
            0 <= i < tokens.len() && (#[trigger] tokens[i]).1@.len() == 0 ==> tokens[i].0
                == Kind::TOKEN_PATH_START || tokens[i].0 == Kind::TOKEN_PATH_END,
{
    let mut tokenizer = Tokenizer::new(source);
    let mut tokens: Vec<(Kind, &str)> = Vec::new();
    let mut done = false;
    proof {
        assert(token_views(tokens@) =~= Seq::empty());
        assert(source@.subrange(0, 0) =~= Seq::empty());
    }
    while !done
        invariant
            tokenizer.well_formed(),
            tokenizer.text() == source@,
            0 <= tokenizer.state().offset <= source@.len(),
            !done ==> reads(source@, initial_state(), token_views(tokens@), tokenizer.state()),
            concatenation(token_views(tokens@)) == source@.subrange(0, tokenizer.state().offset),
            forall|i: int|
                0 <= i < tokens.len() && (#[trigger] tokens[i]).1@.len() == 0 ==> tokens[i].0
                    == Kind::TOKEN_PATH_START || tokens[i].0 == Kind::TOKEN_PATH_END,
            done ==> tokenizes(source@, initial_state(), token_views(tokens@))
                && tokenizer.state().offset == source@.len(),
        decreases
                if done {
                    0
                } else {
                    remaining_work(source@, tokenizer.state()) + 1
                },
    {
        let ghost before = tokenizer.state();
        let ghost read = token_views(tokens@);
        match tokenizer.next() {
            Some(token) => {
                proof {
                    lemma_token_read(
                        source@,
                        read,
                        before,
                        next_token(source@, before).unwrap(),
                    );
                    assert(token_views(tokens@.push(token)) =~= read.push((token.0, token.1@)));
                }
                tokens.push(token);
            },
            None => {
                proof {
                    lemma_reads_to_the_end(source@, initial_state(), read, before);
                }
                done = true;
            },
        }
    }
    proof {
        assert(source@.subrange(0, source@.len() as int) =~= source@);
    }
    tokens
}

} // verus!
