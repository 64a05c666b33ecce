//! The concrete syntax tree: every byte of the source is kept in a token,
//! every node spans exactly what its children span.

use vstd::prelude::*;
use vstd::string::StringExecFns;

use crate::kind::Kind;
use crate::lexer::concatenation;
use crate::text::utf8_len;

verus! {

/// A range of bytes of the source, from `start` up to `end`.
#[derive(Debug, Clone, Copy, PartialEq, Eq, Hash, Structural)]
pub struct Span {
    pub start: u32,
    pub end: u32,
}

impl Span {
    /// Returns the span from `start` up to `end`.
    pub fn new(start: u32, end: u32) -> (result: Span)
        ensures
            result == (Span { start, end }),
    {
        Span { start, end }
    }

    /// Returns the empty span at an offset.
    pub fn empty(at: u32) -> (result: Span)
        ensures
            result == (Span { start: at, end: at }),
    {
        Span { start: at, end: at }
    }

    /// Returns the span of `len` bytes that starts at `start`.
    pub fn at(start: u32, len: u32) -> (result: Span)
        requires
            start + len <= u32::MAX,
        ensures
            result == (Span { start, end: (start + len) as u32 }),
    {
        Span { start, end: start + len }
    }

    /// Returns the span of `len` bytes that ends at `end`.
    pub fn at_end(end: u32, len: u32) -> (result: Span)
        requires
            len <= end,
        ensures
            result == (Span { start: (end - len) as u32, end }),
    {
        Span { start: end - len, end }
    }

    /// The span of `len` bytes that starts at `start`, cut off where
    /// offsets end.
    pub open spec fn clamped_at(start: u32, len: nat) -> Span {
        Span {
            start,
            end: if start + len <= u32::MAX {
                (start + len) as u32
            } else {
                u32::MAX
            },
        }
    }

    /// The span of `len` bytes that ends at `end`, cut off where offsets
    /// start.
    pub open spec fn clamped_at_end(end: u32, len: nat) -> Span {
        Span {
            start: if len <= end {
                (end - len) as u32
            } else {
                0
            },
            end,
        }
    }

    /// Returns the span of `len` bytes that starts at `start`, cut off
    /// where offsets end.
    pub fn starting_at(start: u32, len: usize) -> (result: Span)
        ensures
            result == Span::clamped_at(start, len as nat),
    {
        if len <= (u32::MAX - start) as usize {
            Span { start, end: start + len as u32 }
        } else {
            Span { start, end: u32::MAX }
        }
    }

    /// Returns the span of `len` bytes that ends at `end`, cut off where
    /// offsets start.
    pub fn ending_at(end: u32, len: usize) -> (result: Span)
        ensures
            result == Span::clamped_at_end(end, len as nat),
    {
        if len <= end as usize {
            Span { start: end - len as u32, end }
        } else {
            Span { start: 0, end }
        }
    }

    /// Whether the span holds no byte.
    pub fn is_empty(&self) -> (result: bool)
        ensures
            result == (self.start == self.end),
    {
        self.start == self.end
    }
}

/// A leaf of the tree: a kind, the text it stands for and where the text
/// stands in the source.
#[derive(Debug, Clone, PartialEq, Eq, Hash)]
pub struct Token {
    pub kind: Kind,
    pub text: String,
    pub span: Span,
}

/// An inner node of the tree: a kind and children in the order of the
/// source.
#[derive(Debug, PartialEq, Eq, Hash)]
pub struct Node {
    pub kind: Kind,
    pub children: Vec<Element>,
    pub span: Span,
}

/// A child of a node.
#[derive(Debug, PartialEq, Eq, Hash)]
pub enum Element {
    Node(Node),
    Token(Token),
}

impl Token {
    /// The token spans as many bytes as its text has.
    pub open spec fn well_formed(&self) -> bool {
        self.span.end == self.span.start + utf8_len(self.text@)
    }

    /// Creates the token of a text that starts at `start`, or `None` where
    /// its end would lie beyond what an offset can hold.
    pub fn new(kind: Kind, text: &str, start: u32) -> (result: Option<Token>)
        ensures
            result.is_some() == (start + utf8_len(text@) <= u32::MAX),
            result.is_some() ==> {
                let token = result.unwrap();
                &&& token.well_formed()
                &&& token.kind == kind
                &&& token.text@ == text@
                &&& token.span.start == start
            },
    {
        let len: usize = text.as_bytes().len();
        if len > (u32::MAX - start) as usize {
            return None;
        }
        Some(Token { kind, text: String::from_str(text), span: Span::at(start, len as u32) })
    }

    /// Returns the kind of the token.
    pub fn kind(&self) -> (result: Kind)
        ensures
            result == self.kind,
    {
        self.kind
    }

    /// Returns the text of the token.
    pub fn text(&self) -> (result: &str)
        ensures
            result@ == self.text@,
    {
        self.text.as_str()
    }

    /// Returns where the token stands in the source.
    pub fn span(&self) -> (result: Span)
        ensures
            result == self.span,
    {
        self.span
    }
}

impl Element {
    /// Where the element stands in the source.
    pub open spec fn span_of(self) -> Span {
        match self {
            Element::Node(node) => node.span,
            Element::Token(token) => token.span,
        }
    }

    /// The kind of the element.
    pub open spec fn kind_of(self) -> Kind {
        match self {
            Element::Node(node) => node.kind,
            Element::Token(token) => token.kind,
        }
    }

    /// The tokens below the element, in the order of the source, each with
    /// its kind and text.
    pub open spec fn leaves(self) -> Seq<(Kind, Seq<char>)>
        decreases self,
    {
        match self {
            Element::Node(node) => leaves(node.children@),
            Element::Token(token) => seq![(token.kind, token.text@)],
        }
    }

    /// Tokens span their text, nodes span their children.
    pub open spec fn well_formed(self) -> bool
        decreases self,
    {
        match self {
            Element::Node(node) => {
                &&& node.span.start <= node.span.end
                &&& chained(node.children@, node.span.start as int, node.span.end as int)
            },
            Element::Token(token) => token.well_formed(),
        }
    }

    /// The number of nodes and tokens of the element, itself included.
    pub open spec fn size(self) -> nat
        decreases self,
    {
        match self {
            Element::Node(node) => 1 + sizes(node.children@),
            Element::Token(_) => 1,
        }
    }

    /// Returns the kind of the element.
    pub fn kind(&self) -> (result: Kind)
        ensures
            result == self.kind_of(),
    {
        match self {
            Element::Node(node) => node.kind,
            Element::Token(token) => token.kind,
        }
    }

    /// Returns where the element stands in the source.
    pub fn span(&self) -> (result: Span)
        ensures
            result == self.span_of(),
    {
        match self {
            Element::Node(node) => node.span,
            Element::Token(token) => token.span,
        }
    }
}

/// The tokens below a run of elements, in the order of the source.
pub open spec fn leaves(elements: Seq<Element>) -> Seq<(Kind, Seq<char>)>
    decreases elements,
{
    if elements.len() == 0 {
        Seq::empty()
    } else {
        leaves(elements.drop_last()) + elements.last().leaves()
    }
}

/// The number of nodes and tokens in a run of elements.
pub open spec fn sizes(elements: Seq<Element>) -> nat
    decreases elements,
{
    if elements.len() == 0 {
        0
    } else {
        sizes(elements.drop_last()) + elements.last().size()
    }
}

/// Whether a run of elements covers the bytes from `start` up to `end`
/// without gap or overlap, each element well formed.
pub open spec fn chained(elements: Seq<Element>, start: int, end: int) -> bool
    decreases elements,
{
    if elements.len() == 0 {
        start == end
    } else {
        let last = elements.last();
        &&& last.well_formed()
        &&& last.span_of().start <= last.span_of().end == end
        &&& chained(elements.drop_last(), start, last.span_of().start as int)
    }
}

impl Node {
    /// The node spans exactly what its children span, one after the other,
    /// and so does every node below it; every token spans its text.
    pub open spec fn well_formed(&self) -> bool {
        Element::Node(*self).well_formed()
    }

    /// The tokens below the node, in the order of the source, each with its
    /// kind and text.
    pub open spec fn leaves(&self) -> Seq<(Kind, Seq<char>)> {
        leaves(self.children@)
    }

    /// The text of the node: the texts of its tokens in the order of the
    /// source.
    pub open spec fn text(&self) -> Seq<char> {
        concatenation(self.leaves())
    }

    /// The number of nodes and tokens of the node, itself included.
    pub open spec fn size(&self) -> nat {
        Element::Node(*self).size()
    }

    /// Returns the kind of the node.
    pub fn kind(&self) -> (result: Kind)
        ensures
            result == self.kind,
    {
        self.kind
    }

    /// Returns where the node stands in the source.
    pub fn span(&self) -> (result: Span)
        ensures
            result == self.span,
    {
        self.span
    }

    /// Returns the children of the node, tokens included, in the order of
    /// the source.
    pub fn children_with_tokens(&self) -> (result: &Vec<Element>)
        ensures
            result@ == self.children@,
    {
        &self.children
    }

    /// Appends the text of the node to a string.
    pub fn write_text(&self, to: &mut String)
        ensures
            final(to)@ == old(to)@ + self.text(),
        decreases self,
    {
        let ghost initial = to@;
        let mut index: usize = 0;
        proof {
            assert(self.children@.take(0) =~= Seq::empty());
            assert(initial + Seq::<char>::empty() =~= initial);
        }
        while index < self.children.len()
            invariant
                index <= self.children.len(),
                to@ == initial + concatenation(leaves(self.children@.take(index as int))),
            decreases self.children.len() - index,
        {
            let ghost before = self.children@.take(index as int);
            let ghost child = self.children@[index as int];
            proof {
                assert(self.children@.take(index + 1).drop_last() =~= before);
                assert(self.children@.take(index + 1).last() == child);
                lemma_concatenation_of_joined(leaves(before), child.leaves());
            }
            match &self.children[index] {
                Element::Node(node) => {
                    node.write_text(to);
                },
                Element::Token(token) => {
                    proof {
                        let leaf = seq![(token.kind, token.text@)];
                        assert(leaf.drop_last() =~= Seq::empty());
                        assert(concatenation(leaf.drop_last()) =~= Seq::<char>::empty());
                        assert(concatenation(leaf) =~= token.text@);
                    }
                    to.append(token.text.as_str());
                },
            }
            proof {
                assert(initial + concatenation(leaves(before)) + concatenation(child.leaves())
                    =~= initial + (concatenation(leaves(before)) + concatenation(child.leaves())));
            }
            index += 1;
        }
        proof {
            assert(self.children@.take(self.children@.len() as int) =~= self.children@);
        }
    }

    /// Returns the text of the node: the texts of its tokens in the order
    /// of the source.
    pub fn to_text(&self) -> (result: String)
        ensures
            result@ == self.text(),
    {
        let mut result = String::new();
        proof {
            assert(Seq::<char>::empty() + self.text() =~= self.text());
        }
        self.write_text(&mut result);
        result
    }
}

/// The texts of two runs of tokens, joined, are the text of the joined
/// runs.
pub proof fn lemma_concatenation_of_joined(
    first: Seq<(Kind, Seq<char>)>,
    second: Seq<(Kind, Seq<char>)>,
)
    ensures
        concatenation(first + second) == concatenation(first) + concatenation(second),
    decreases second.len(),
{
    if second.len() == 0 {
        assert(first + second =~= first);
        assert(concatenation(first) + Seq::<char>::empty() =~= concatenation(first));
    } else {
        lemma_concatenation_of_joined(first, second.drop_last());
        assert((first + second).drop_last() =~= first + second.drop_last());
        assert(concatenation(first) + concatenation(second.drop_last()) + second.last().1
            =~= concatenation(first) + (concatenation(second.drop_last()) + second.last().1));
    }
}

/// The tokens below two runs of elements, joined, are the tokens below the
/// joined runs.
pub proof fn lemma_leaves_of_joined(first: Seq<Element>, second: Seq<Element>)
    ensures
        leaves(first + second) == leaves(first) + leaves(second),
    decreases second.len(),
{
    if second.len() == 0 {
        assert(first + second =~= first);
        assert(leaves(first) + Seq::<(Kind, Seq<char>)>::empty() =~= leaves(first));
    } else {
        lemma_leaves_of_joined(first, second.drop_last());
        assert((first + second).drop_last() =~= first + second.drop_last());
        assert(leaves(first) + leaves(second.drop_last()) + second.last().leaves() =~= leaves(first)
            + (leaves(second.drop_last()) + second.last().leaves()));
    }
}

} // verus!
