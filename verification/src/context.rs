//! The lexical contexts of the tokenizer and the stack that holds them.

use smallvec::SmallVec;
use vstd::prelude::*;

verus! {

/// The three quotes that open a delimited stringlike.
#[derive(Debug, Clone, Copy, PartialEq, Eq, Structural)]
pub enum Quote {
    /// A backtick: a quoted identifier.
    Identifier,
    /// A double quote: a string.
    String,
    /// A single quote: a rune.
    Rune,
}

impl Quote {
    /// The character that opens and closes the stringlike.
    pub open spec fn character(self) -> char {
        match self {
            Quote::Identifier => '`',
            Quote::String => '"',
            Quote::Rune => '\'',
        }
    }

    /// Returns the character that opens and closes the stringlike.
    pub fn to_char(self) -> (result: char)
        ensures
            result == self.character(),
    {
        match self {
            Quote::Identifier => '`',
            Quote::String => '"',
            Quote::Rune => '\'',
        }
    }
}

/// A lexical mode of the tokenizer. Outside of every context, and directly
/// inside an interpolation, the tokenizer reads ordinary expression tokens.
#[derive(Debug, Clone, Copy, PartialEq, Eq, Structural)]
pub enum Context {
    /// Inside the header of an island, reading content.
    IslandHeader,
    /// At the `>` or `:` that ends the header of an island.
    IslandHeaderEnd,
    /// Inside a path, reading content.
    Path,
    /// At the end of a path.
    PathEnd,
    /// Inside a quoted stringlike that `equals` characters `=` and then the
    /// quote close.
    Delimited { equals: usize, quote: Quote },
    /// At the closing delimiter of a quoted stringlike.
    DelimitedEnd { equals: usize, quote: Quote },
    /// At the `\(` that opens an interpolation.
    InterpolationStart,
    /// Inside an interpolation, with this many parentheses left open in it.
    Interpolation { parentheses: usize },
}

impl Context {
    /// Whether content is read in this context.
    pub open spec fn reads_content(self) -> bool {
        self is Path || self is Delimited || self is IslandHeader
    }
}

/// The stack of contexts, innermost last. Its storage is a
/// `smallvec::SmallVec` with room for four contexts before it allocates.
#[verifier::external_body]
pub struct ContextStack {
    inner: SmallVec<Context, 4>,
}

/// The contexts that a stack holds, innermost last.
pub uninterp spec fn stack_contents(stack: &ContextStack) -> Seq<Context>;

impl View for ContextStack {
    type V = Seq<Context>;

    open spec fn view(&self) -> Seq<Context> {
        stack_contents(self)
    }
}

impl ContextStack {
    /// `SmallVec::new`: a stack that holds nothing.
    #[verifier::external_body]
    pub(crate) fn new() -> (result: ContextStack)
        ensures
            stack_contents(&result) == Seq::<Context>::empty(),
    {
        ContextStack { inner: SmallVec::new() }
    }

    /// `SmallVec::push`: the context is added as the innermost one, the
    /// others stay as they are.
    #[verifier::external_body]
    pub(crate) fn push(&mut self, context: Context)
        ensures
            stack_contents(final(self)) == stack_contents(old(self)).push(context),
    {
        self.inner.push(context)
    }

    /// `SmallVec::pop`: the innermost context is removed and returned, if
    /// there is one; the others stay as they are.
    #[verifier::external_body]
    pub(crate) fn pop(&mut self) -> (result: Option<Context>)
        ensures
            stack_contents(old(self)).len() == 0 ==> result.is_none() && stack_contents(
                final(self),
            ) == stack_contents(old(self)),
            stack_contents(old(self)).len() > 0 ==> result == Some(
                stack_contents(old(self)).last(),
            ) && stack_contents(final(self)) == stack_contents(old(self)).drop_last(),
    {
        self.inner.pop()
    }

    /// `<[T]>::last` on the stack's slice: a copy of the innermost context,
    /// if there is one.
    #[verifier::external_body]
    pub(crate) fn last(&self) -> (result: Option<Context>)
        ensures
            stack_contents(self).len() == 0 ==> result.is_none(),
            stack_contents(self).len() > 0 ==> result == Some(stack_contents(self).last()),
    {
        self.inner.last().copied()
    }
}

} // verus!
