//! What holds of every run of tokens: the tokenizer never leaves the text,
//! its tokens follow one another without gap or overlap, and they make up
//! the whole source.

use vstd::prelude::*;

use crate::context::Context;
use crate::kind::Kind;
use crate::lexer::{
    block_comment, closes, comment_body, concatenation, content_end, content_step, initial_state,
    is_empty_content, next_token, normal_step, number_tail, parenthesis_step, punctuation,
    quote_of, radix_class, scientific, stack_fits, starts_island, starts_path, step, tokenizes,
    top, well_formed, ContentEnd, LexState, Step,
};
use crate::text::{
    ascii_digit, equals_at, initial_identifier_character, peek, scan_while, whitespace, CharClass,
};
use crate::tokenizer::{
    lemma_below_top, lemma_fits_later, lemma_fits_with, lemma_fits_without_last, stepped,
};
use crate::tree::Node;

verus! {

/// A run of characters of a class ends inside the text, not before it
/// starts.
pub proof fn lemma_scan_bounds(text: Seq<char>, from: int, class: CharClass)
    requires
        0 <= from <= text.len(),
    ensures
        from <= scan_while(text, from, class) <= text.len(),
    decreases text.len() - from,
{
    if from < text.len() && class.has(text[from]) {
        lemma_scan_bounds(text, from + 1, class);
    }
}

/// A block comment ends inside the text, behind its `#`.
pub proof fn lemma_comment_bounds(text: Seq<char>, at: int)
    requires
        0 <= at < text.len(),
    ensures
        at < block_comment(text, at) <= text.len(),
    decreases text.len() - at, 0int,
{
    lemma_scan_bounds(text, at + 1, CharClass::Equals);
    let body = scan_while(text, at + 1, CharClass::Equals);
    if at + 1 < body {
        lemma_comment_body_bounds(text, body, body - (at + 1));
    }
}

/// The body of a block comment ends inside the text, not before the place
/// it is read from.
pub proof fn lemma_comment_body_bounds(text: Seq<char>, at: int, equals: int)
    requires
        0 <= at <= text.len(),
        0 <= equals,
    ensures
        at <= comment_body(text, at, equals) <= text.len(),
    decreases text.len() - at, 1int,
{
    if at < text.len() {
        if text[at] == '=' {
            if !(equals_at(text, at, equals) && peek(text, at + equals) == Some('#')) {
                lemma_scan_bounds(text, at, CharClass::Equals);
                let run = scan_while(text, at, CharClass::Equals);
                if at < run {
                    lemma_comment_body_bounds(text, run, equals);
                }
            }
        } else if text[at] == '#' && peek(text, at + 1) == Some('=') {
            lemma_comment_bounds(text, at);
            lemma_comment_body_bounds(text, block_comment(text, at), equals);
        } else {
            lemma_comment_body_bounds(text, at + 1, equals);
        }
    }
}

/// An exponent ends inside the text, not before the place it is read
/// from.
pub proof fn lemma_scientific_bounds(text: Seq<char>, at: int)
    requires
        0 <= at <= text.len(),
    ensures
        at <= scientific(text, at).1 <= text.len(),
{
    if peek(text, at) == Some('e') || peek(text, at) == Some('E') {
        let signed = peek(text, at + 1) == Some('+') || peek(text, at + 1) == Some('-');
        if signed {
            lemma_scan_bounds(text, at + 2, CharClass::Decimal);
        } else {
            lemma_scan_bounds(text, at + 1, CharClass::Decimal);
        }
    }
}

/// What follows the integer digits of a number ends inside the text, not
/// before the digits end.
pub proof fn lemma_number_tail_bounds(
    text: Seq<char>,
    digits_end: int,
    class: CharClass,
    missing: bool,
)
    requires
        0 <= digits_end <= text.len(),
    ensures
        digits_end <= number_tail(text, digits_end, class, missing).1 <= text.len(),
{
    let after = peek(text, digits_end + 1);
    if peek(text, digits_end) == Some('.') && after.is_some() && class.has(after.unwrap()) {
        lemma_scan_bounds(text, digits_end + 1, class);
        lemma_scientific_bounds(text, scan_while(text, digits_end + 1, class));
    }
}

/// Content ends inside the text, not before the place it is read from, and
/// where it ends stands what ends it.
pub proof fn lemma_content_end(text: Seq<char>, at: int, context: Context)
    requires
        0 <= at <= text.len(),
    ensures
        ({
            let (end, how) = content_end(text, at, context);
            &&& at <= end <= text.len()
            &&& how == ContentEnd::Close ==> closes(text, end, context)
            &&& how == ContentEnd::Eof ==> end == text.len()
            &&& how == ContentEnd::Interpolation ==> peek(text, end) == Some('\\') && peek(
                text,
                end + 1,
            ) == Some('(')
        }),
    decreases text.len() - at,
{
    if !closes(text, at, context) && at < text.len() && !(text[at] == '\\' && peek(text, at + 1)
        == Some('(')) {
        if text[at] == '\\' && at + 1 < text.len() {
            lemma_content_end(text, at + 2, context);
        } else {
            lemma_content_end(text, at + 1, context);
        }
    }
}

/// A step on a `(` or `)` is a step as the tokenizer takes it.
pub proof fn lemma_parenthesis_step(text: Seq<char>, state: LexState)
    requires
        well_formed(text, state),
        0 <= state.offset < text.len(),
        text[state.offset] == '(' || text[state.offset] == ')',
        !(top(state.stack) matches Some(context) && !(context is Interpolation)),
    ensures
        well_formed(text, parenthesis_step(text[state.offset], state).state),
        parenthesis_step(text[state.offset], state).state.offset == state.offset + 1,
{
    let taken = parenthesis_step(text[state.offset], state);
    let after = state.offset + 1;
    match top(state.stack) {
        Some(Context::Interpolation { parentheses }) => {
            let rest = state.stack.drop_last();
            lemma_below_top(state.stack, state.offset);
            lemma_fits_without_last(state.stack, state.offset);
            lemma_fits_later(rest, state.offset, after);
            if text[state.offset] == '(' {
                lemma_fits_with(
                    rest,
                    Context::Interpolation { parentheses: (parentheses + 1) as usize },
                    after,
                );
            } else if parentheses > 0 {
                lemma_fits_with(
                    rest,
                    Context::Interpolation { parentheses: (parentheses - 1) as usize },
                    after,
                );
            }
        },
        _ => {
            lemma_fits_later(state.stack, state.offset, after);
        },
    }
}

/// A step in the ordinary mode is a step as the tokenizer takes it, and
/// leads to a state that the tokenizer can be in.
pub proof fn lemma_normal_step(text: Seq<char>, state: LexState)
    requires
        well_formed(text, state),
        !(top(state.stack) matches Some(context) && !(context is Interpolation)),
    ensures
        match normal_step(text, state) {
            Some(taken) => stepped_to(text, state, taken),
            None => state.offset == text.len(),
        },
{
    let at = state.offset;
    if at < text.len() {
        let c = text[at];
        let next = peek(text, at + 1);
        let stack = state.stack;
        let taken = normal_step(text, state).unwrap();
        lemma_scan_bounds(text, at + 1, CharClass::Whitespace);
        lemma_scan_bounds(text, at + 1, CharClass::NotNewline);
        lemma_scan_bounds(text, at + 1, CharClass::Identifier);
        lemma_scan_bounds(text, at + 1, CharClass::Equals);
        lemma_scan_bounds(text, at + 1, CharClass::Decimal);
        lemma_number_tail_bounds(
            text,
            scan_while(text, at + 1, CharClass::Decimal),
            CharClass::Decimal,
            false,
        );
        if c == '#' && next == Some('=') {
            lemma_comment_bounds(text, at);
        }
        if radix_class(next).is_some() {
            let class = radix_class(next).unwrap();
            lemma_scan_bounds(text, at + 2, class);
            let digits_end = scan_while(text, at + 2, class);
            lemma_number_tail_bounds(
                text,
                digits_end,
                class,
                crate::text::all_underscores(text, at + 2, digits_end),
            );
        }
        if whitespace(c) || c == '#' || punctuation(c, next).is_some() {
            lemma_fits_later(stack, at, taken.state.offset);
        } else if c == '(' || c == ')' {
            lemma_parenthesis_step(text, state);
        } else if (c == '0' && radix_class(next).is_some()) || ascii_digit(c)
            || initial_identifier_character(c) {
            lemma_fits_later(stack, at, taken.state.offset);
        } else if starts_path(c, next) {
            lemma_fits_with(stack, Context::Path, at);
        } else if c == '@' {
            lemma_fits_later(stack, at, taken.state.offset);
        } else if quote_of(c).is_some() {
            let end = scan_while(text, at + 1, CharClass::Equals);
            lemma_fits_later(stack, at, end);
            lemma_fits_with(
                stack,
                Context::Delimited { equals: (end - (at + 1)) as usize, quote: quote_of(c).unwrap() },
                end,
            );
        } else if c == '<' && starts_island(next) {
            lemma_fits_later(stack, at, at + 1);
            lemma_fits_with(stack, Context::IslandHeader, at + 1);
        } else {
            lemma_fits_later(stack, at, taken.state.offset);
        }
    }
}

/// A step inside a stringlike is a step as the tokenizer takes it, and
/// leads to a state that the tokenizer can be in.
pub proof fn lemma_content_step(text: Seq<char>, state: LexState)
    requires
        well_formed(text, state),
        state.stack.len() > 0,
        state.stack.last().reads_content(),
    ensures
        stepped_to(text, state, content_step(text, state)),
{
    let context = state.stack.last();
    let (end, how) = content_end(text, state.offset, context);
    let rest = state.stack.drop_last();
    lemma_content_end(text, state.offset, context);
    lemma_below_top(state.stack, state.offset);
    lemma_fits_later(state.stack, state.offset, end);
    lemma_fits_without_last(state.stack, end);
    match how {
        ContentEnd::Close => {
            lemma_fits_with(rest, crate::lexer::closing_context(context), end);
        },
        ContentEnd::Eof => {},
        ContentEnd::Interpolation => {
            lemma_fits_with(state.stack, Context::InterpolationStart, end);
        },
    }
}

/// Whether a step from a state is one as the tokenizer takes it and leads
/// to a state that the tokenizer can be in.
pub open spec fn stepped_to(text: Seq<char>, state: LexState, taken: Step) -> bool {
    &&& step(text, state) == Some(taken) ==> stepped(text, state, Some(taken.kind), taken.state)
    &&& well_formed(text, taken.state)
    &&& state.offset <= taken.state.offset <= text.len()
    &&& taken.state.offset == state.offset ==> taken.kind == Kind::TOKEN_PATH_START || taken.kind
        == Kind::TOKEN_PATH_END || taken.kind == Kind::TOKEN_CONTENT
    &&& taken.kind == Kind::TOKEN_CONTENT ==> top(state.stack).is_some() && top(
        state.stack,
    ).unwrap().reads_content()
    &&& is_empty_content(state, taken) ==> !(top(taken.state.stack).is_some() && top(
        taken.state.stack,
    ).unwrap().reads_content())
}

/// Every step from a state that the tokenizer can be in leads to such a
/// state, never back in the text and never beyond its end. Without a step
/// the text has ended. A step of no width starts or ends a path, or reads
/// empty content, after which no content is read.
pub proof fn lemma_step(text: Seq<char>, state: LexState)
    requires
        well_formed(text, state),
    ensures
        match step(text, state) {
            Some(taken) => stepped_to(text, state, taken),
            None => state.offset == text.len(),
        },
{
    if state.stack.len() > 0 {
        lemma_below_top(state.stack, state.offset);
    }
    match top(state.stack) {
        Some(Context::IslandHeader) | Some(Context::Path) | Some(Context::Delimited { .. }) => {
            lemma_content_step(text, state);
        },
        Some(Context::IslandHeaderEnd) => {
            lemma_fits_without_last(state.stack, state.offset);
            lemma_fits_later(state.stack.drop_last(), state.offset, state.offset + 1);
        },
        Some(Context::PathEnd) => {
            lemma_fits_without_last(state.stack, state.offset);
        },
        Some(Context::DelimitedEnd { equals, quote }) => {
            lemma_fits_without_last(state.stack, state.offset);
            lemma_fits_later(state.stack.drop_last(), state.offset, state.offset + equals + 1);
        },
        Some(Context::InterpolationStart) => {
            let rest = state.stack.drop_last();
            lemma_fits_without_last(state.stack, state.offset);
            lemma_fits_later(rest, state.offset, state.offset + 2);
            lemma_fits_with(rest, Context::Interpolation { parentheses: 0 }, state.offset + 2);
        },
        Some(Context::Interpolation { .. }) | None => {
            lemma_normal_step(text, state);
        },
    }
}

/// The next token from a state that the tokenizer can be in leads to such
/// a state, never back in the text and never beyond its end. It has no
/// width only where it starts or ends a path. Without a next token the
/// text has ended.
pub proof fn lemma_next_token(text: Seq<char>, state: LexState)
    requires
        well_formed(text, state),
    ensures
        match next_token(text, state) {
            Some(taken) => {
                &&& well_formed(text, taken.state)
                &&& state.offset <= taken.state.offset <= text.len()
                &&& taken.state.offset == state.offset ==> taken.kind == Kind::TOKEN_PATH_START
                    || taken.kind == Kind::TOKEN_PATH_END
            },
            None => state.offset == text.len(),
        },
{
    lemma_step(text, state);
    if let Some(first) = step(text, state) {
        if is_empty_content(state, first) {
            lemma_step(text, first.state);
        }
    }
}

/// The tokens read from a state that the tokenizer can be in make up the
/// text from that state on, and none of them is empty but the tokens that
/// start and end a path.
pub proof fn lemma_tokens_cover(text: Seq<char>, state: LexState, tokens: Seq<(Kind, Seq<char>)>)
    requires
        well_formed(text, state),
        tokenizes(text, state, tokens),
    ensures
        concatenation(tokens) == text.subrange(state.offset, text.len() as int),
        forall|index: int|
            0 <= index < tokens.len() && (#[trigger] tokens[index]).1.len() == 0
                ==> tokens[index].0 == Kind::TOKEN_PATH_START || tokens[index].0
                == Kind::TOKEN_PATH_END,
    decreases tokens.len(),
{
    lemma_next_token(text, state);
    match next_token(text, state) {
        Some(taken) => {
            let rest = tokens.drop_first();
            lemma_tokens_cover(text, taken.state, rest);
            crate::builder::lemma_concatenation_starts(tokens);
            assert(rest =~= tokens.subrange(1, tokens.len() as int));
            assert(text.subrange(state.offset, taken.state.offset) + text.subrange(
                taken.state.offset,
                text.len() as int,
            ) =~= text.subrange(state.offset, text.len() as int));
            assert forall|index: int|
                0 <= index < tokens.len() && (#[trigger] tokens[index]).1.len()
                    == 0 implies tokens[index].0 == Kind::TOKEN_PATH_START || tokens[index].0
                == Kind::TOKEN_PATH_END by {
                if index > 0 {
                    assert(tokens[index] == rest[index - 1]);
                }
            }
        },
        None => {
            assert(tokens =~= Seq::empty());
            assert(text.subrange(state.offset, text.len() as int) =~= Seq::<char>::empty());
        },
    }
}

/// The texts of the tokens of a source, one after the other, are the
/// source; and no token is empty but the two of no width that start and
/// end a path.
pub proof fn lemma_tokens_make_up_source(text: Seq<char>, tokens: Seq<(Kind, Seq<char>)>)
    requires
        tokenizes(text, initial_state(), tokens),
    ensures
        concatenation(tokens) == text,
        forall|index: int|
            0 <= index < tokens.len() && (#[trigger] tokens[index]).1.len() == 0
                ==> tokens[index].0 == Kind::TOKEN_PATH_START || tokens[index].0
                == Kind::TOKEN_PATH_END,
{
    assert(stack_fits(initial_state().stack, 0));
    lemma_tokens_cover(text, initial_state(), tokens);
    assert(text.subrange(0, text.len() as int) =~= text);
}

/// A tree whose tokens are the tokens of a source, in their order, has the
/// source as its text: nothing of the source is lost in the tree.
pub proof fn lemma_tree_keeps_source(source: Seq<char>, root: Node)
    requires
        tokenizes(source, initial_state(), root.leaves()),
    ensures
        root.text() == source,
{
    lemma_tokens_make_up_source(source, root.leaves());
}

} // verus!
