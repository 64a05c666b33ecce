//! Rendering of an expression with fully explicit grouping.
//!
//! The rendering is a run of fragments, each a text with the style it is
//! to be shown in. Styles are advice for display; the texts, one after the
//! other, are the rendering.

use vstd::prelude::*;
use vstd::string::StringExecFns;

use crate::items::list_items;
use crate::kind::Kind;
use crate::node::{
    expression_of, identifier_value, infix_operator_in, lemma_expression_smaller, node_of,
    prefix_operator_in, suffix_operator_in, token_of, ExpressionRef, IdentifierValueRef,
    InfixOperation, List, PrefixOperation, SuffixOperation, TokenFilter,
};
use crate::number::{integer_decimal, integer_value};
use crate::operator::InfixOperator;
use crate::tree::{Element, Node};
use crate::validate::lemma_node_smaller_or_token;

verus! {

/// How a fragment is to be shown.
#[derive(Debug, Clone, Copy, PartialEq, Eq, Hash, Structural)]
pub enum Style {
    /// Without emphasis.
    Plain,
    /// A bracket, with the number of brackets that are open around it. The
    /// number picks a colour from a palette, going round.
    Bracket(usize),
    /// A delimiter of a stringlike.
    Delimiter,
    /// Content of a stringlike.
    Content,
    /// The `\(` and `)` of an interpolation.
    Interpolation,
    /// An error.
    Error,
    /// The words of an if-else.
    Keyword,
    /// `true` and `false`.
    Boolean,
    /// `null` and `undefined`.
    Inexistent,
    /// `import`.
    Import,
    /// An integer.
    Integer,
    /// A float, as written in the source.
    Float,
}

/// A piece of a rendering: a text and how it is to be shown.
#[derive(Debug, Clone, PartialEq, Eq, Hash)]
pub struct Fragment {
    pub text: String,
    pub style: Style,
}

/// What a fragment holds, as plain values.
pub struct FragmentView {
    pub text: Seq<char>,
    pub style: Style,
}

impl View for Fragment {
    type V = FragmentView;

    open spec fn view(&self) -> FragmentView {
        FragmentView { text: self.text@, style: self.style }
    }
}

/// What a run of fragments holds, as plain values.
pub open spec fn fragment_views(fragments: Seq<Fragment>) -> Seq<FragmentView> {
    fragments.map_values(|fragment: Fragment| fragment@)
}

/// The texts of fragments, one after the other.
pub open spec fn plain_text(fragments: Seq<FragmentView>) -> Seq<char>
    decreases fragments.len(),
{
    if fragments.len() == 0 {
        Seq::empty()
    } else {
        plain_text(fragments.drop_last()) + fragments.last().text
    }
}

/// A run of one fragment.
pub open spec fn piece(text: Seq<char>, style: Style) -> Seq<FragmentView> {
    seq![FragmentView { text, style }]
}

/// The number of open brackets inside one more bracket. It stops counting
/// where numbers end.
pub open spec fn deeper(depth: usize) -> usize {
    if depth < usize::MAX {
        (depth + 1) as usize
    } else {
        depth
    }
}

/// The style of a plain identifier: some words carry a meaning.
pub open spec fn identifier_style(word: Seq<char>) -> Style {
    if word == "true"@ || word == "false"@ {
        Style::Boolean
    } else if word == "null"@ || word == "undefined"@ {
        Style::Inexistent
    } else if word == "import"@ {
        Style::Import
    } else {
        Style::Plain
    }
}

/// The text of an integer literal: its value in decimal digits, or the
/// literal as it is written where it stands for no number.
pub open spec fn integer_text(literal: Seq<char>) -> Seq<char> {
    match integer_value(literal) {
        Some(decimal) => decimal,
        None => literal,
    }
}

/// The rendering of the token of a kind among the children of a node, as
/// written in the source; nothing where there is no such token.
pub open spec fn token_rendered(node: &Node, kind: Kind, style: Style) -> Seq<FragmentView> {
    match token_of(node, TokenFilter::Kind(kind)) {
        Some(token) => piece(token.text@, style),
        None => Seq::empty(),
    }
}

/// The rendering of an expression inside `depth` open brackets.
///
/// An error is the word `error`. A parenthesis is what it holds: the
/// rendering groups by itself. A list is `[ a, b ]`, or `[]` where it is
/// empty; attributes are `{ a }` or `{}`. Operations stand in parentheses:
/// `(- a)`, `(a + b)`, `(a ,)`. The two applications have no symbol, `(f
/// a)`, and a pipe is the application it stands for, with its operands
/// swapped. Stringlikes are their parts as written, an interpolation
/// between `\(` and `)`. A bind is `@` and its identifier. A number is its
/// value. An if-else is `(if c then a else b)`, always with its `else`.
pub open spec fn rendered(expression: ExpressionRef, depth: usize) -> Seq<FragmentView>
    decreases expression.node().size(), 2nat, 0nat,
{
    let node = expression.node();
    let inner = deeper(depth);
    let open = piece("("@, Style::Bracket(depth));
    let close = piece(")"@, Style::Bracket(depth));
    let space = piece(" "@, Style::Plain);
    match expression {
        ExpressionRef::Error(_) => piece("error"@, Style::Error),
        ExpressionRef::Parenthesis(_) => operand_rendered(node, 0, depth),
        ExpressionRef::List(list) => piece("["@, Style::Bracket(depth)) + (if list_items(
            list,
        ).len() > 0 {
            space
        } else {
            Seq::empty()
        }) + items_rendered(
            list_items(list),
            list_items(list).len() as int,
            node.size(),
            inner,
        ) + piece("]"@, Style::Bracket(depth)),
        ExpressionRef::Attributes(_) => piece("{"@, Style::Bracket(depth)) + (if expression_of(
            node,
            0,
        ).is_some() {
            space + operand_rendered(node, 0, inner) + space
        } else {
            Seq::empty()
        }) + piece("}"@, Style::Bracket(depth)),
        ExpressionRef::PrefixOperation(_) => open + (match prefix_operator_in(node) {
            Some(operator) => piece(operator.symbol_of(), Style::Plain),
            None => Seq::empty(),
        }) + space + operand_rendered(node, 0, inner) + close,
        ExpressionRef::InfixOperation(_) => if infix_operator_in(node) == InfixOperator::Pipe {
            open + operand_rendered(node, 1, inner) + space + operand_rendered(node, 0, inner)
                + close
        } else {
            open + operand_rendered(node, 0, inner) + space + (match infix_operator_in(
                node,
            ).symbol_of() {
                Some(symbol) => piece(symbol, Style::Plain) + space,
                None => Seq::empty(),
            }) + operand_rendered(node, 1, inner) + close
        },
        ExpressionRef::SuffixOperation(_) => open + operand_rendered(node, 0, inner) + space + (
        match suffix_operator_in(node) {
            Some(operator) => piece(operator.symbol_of(), Style::Plain),
            None => Seq::empty(),
        }) + close,
        ExpressionRef::Path(_) | ExpressionRef::SString(_) | ExpressionRef::Rune(_) => parts_rendered(
            node.children@,
            node.children@.len() as int,
            node.size(),
            depth,
        ),
        ExpressionRef::Island(_) => match node_of(node, Kind::NODE_ISLAND_HEADER) {
            Some(header) => if header.size() < node.size() {
                parts_rendered(
                    header.children@,
                    header.children@.len() as int,
                    header.size(),
                    depth,
                )
            } else {
                Seq::empty()
            },
            None => Seq::empty(),
        },
        ExpressionRef::Bind(_) => piece("@"@, Style::Plain) + operand_rendered(node, 0, depth),
        ExpressionRef::Identifier(_) => match identifier_value(node) {
            IdentifierValueRef::Plain(token) => piece(token.text@, identifier_style(token.text@)),
            IdentifierValueRef::Quoted(_) => parts_rendered(
                node.children@,
                node.children@.len() as int,
                node.size(),
                depth,
            ),
        },
        ExpressionRef::Integer(_) => match token_of(node, TokenFilter::Kind(Kind::TOKEN_INTEGER)) {
            Some(token) => piece(integer_text(token.text@), Style::Integer),
            None => Seq::empty(),
        },
        ExpressionRef::Float(_) => token_rendered(node, Kind::TOKEN_FLOAT, Style::Float),
        ExpressionRef::If(_) => open + piece("if "@, Style::Keyword) + operand_rendered(
            node,
            0,
            inner,
        ) + piece(" then "@, Style::Keyword) + operand_rendered(node, 1, inner) + piece(
            " else "@,
            Style::Keyword,
        ) + operand_rendered(node, 2, inner) + close,
    }
}

/// The rendering of the expression among the children of a node that comes
/// after `skip` others; nothing where there is no such expression.
pub open spec fn operand_rendered(node: &Node, skip: nat, depth: usize) -> Seq<FragmentView>
    decreases node.size(), 0nat, 0nat,
{
    match expression_of(node, skip) {
        Some(operand) => {
            proof {
                lemma_expression_smaller(node, skip);
            }
            rendered(operand, depth)
        },
        None => Seq::empty(),
    }
}

/// The rendering of the first `upto` items of a list: each is followed by
/// a space, and by a comma before it if it is not the last of all.
pub open spec fn items_rendered(items: Seq<ExpressionRef>, upto: int, limit: nat, depth: usize)
    -> Seq<FragmentView>
    decreases limit, 1nat, upto,
{
    if upto <= 0 || upto > items.len() {
        Seq::empty()
    } else {
        items_rendered(items, upto - 1, limit, depth) + (if items[upto - 1].node().size() < limit {
            rendered(items[upto - 1], depth)
        } else {
            Seq::empty()
        }) + (if upto < items.len() {
            piece(","@, Style::Plain)
        } else {
            Seq::empty()
        }) + piece(" "@, Style::Plain)
    }
}

/// The rendering of the first `upto` children of a stringlike: tokens as
/// written, content and delimiters each in their style; the expression of
/// an interpolation between `\(` and `)`.
pub open spec fn parts_rendered(children: Seq<Element>, upto: int, limit: nat, depth: usize) -> Seq<
    FragmentView,
>
    decreases limit, 1nat, upto,
{
    if upto <= 0 || upto > children.len() {
        Seq::empty()
    } else {
        parts_rendered(children, upto - 1, limit, depth) + match children[upto - 1] {
            Element::Token(token) => piece(
                token.text@,
                if token.kind == Kind::TOKEN_CONTENT {
                    Style::Content
                } else {
                    Style::Delimiter
                },
            ),
            Element::Node(node) => if node.kind == Kind::NODE_INTERPOLATION && node.size()
                < limit {
                piece("\\("@, Style::Interpolation) + operand_rendered(&node, 0, depth) + piece(
                    ")"@,
                    Style::Interpolation,
                )
            } else {
                Seq::empty()
            },
        }
    }
}

/// Returns the style of a plain identifier.
pub fn style_of_identifier(word: &str) -> (result: Style)
    ensures
        result == identifier_style(word@),
{
    if str_equal(word, "true") || str_equal(word, "false") {
        Style::Boolean
    } else if str_equal(word, "null") || str_equal(word, "undefined") {
        Style::Inexistent
    } else if str_equal(word, "import") {
        Style::Import
    } else {
        Style::Plain
    }
}

/// Whether two texts are the same.
fn str_equal(first: &str, second: &str) -> (result: bool)
    ensures
        result == (first@ == second@),
{
    let left = crate::text::characters(first);
    let right = crate::text::characters(second);
    if left.len() != right.len() {
        return false;
    }
    let mut index: usize = 0;
    while index < left.len()
        invariant
            index <= left.len() == right.len(),
            left@ == first@,
            right@ == second@,
            forall|before: int| 0 <= before < index ==> left@[before] == right@[before],
        decreases left.len() - index,
    {
        if left[index] != right[index] {
            return false;
        }
        index += 1;
    }
    assert(left@ =~= right@);
    true
}

/// Returns the text that an integer literal is rendered with, given its
/// value in decimal digits where it has one.
pub fn text_of_integer(literal: &str, decimal: Option<String>) -> (result: String)
    ensures
        result@ == match decimal {
            Some(digits) => digits@,
            None => literal@,
        },
{
    match decimal {
        Some(digits) => digits,
        None => String::from_str(literal),
    }
}

/// Renders expressions into a run of fragments and keeps count of the
/// brackets that are open.
pub struct Formatter {
    inner: Vec<Fragment>,
    bracket_count: usize,
}

impl Formatter {
    /// The fragments written so far.
    pub closed spec fn written(&self) -> Seq<FragmentView> {
        fragment_views(self.inner@)
    }

    /// The number of brackets that are open.
    pub closed spec fn depth(&self) -> usize {
        self.bracket_count
    }

    /// Creates a formatter that has written nothing and has no bracket
    /// open.
    pub fn new() -> (result: Formatter)
        ensures
            result.written() == Seq::<FragmentView>::empty(),
            result.depth() == 0,
    {
        let result = Formatter { inner: Vec::new(), bracket_count: 0 };
        assert(result.written() =~= Seq::<FragmentView>::empty());
        result
    }

    /// Returns the fragments written.
    pub fn finish(self) -> (result: Vec<Fragment>)
        ensures
            fragment_views(result@) == self.written(),
    {
        self.inner
    }

    /// Writes a fragment.
    pub fn write(&mut self, text: &str, style: Style)
        ensures
            final(self).written() == old(self).written() + piece(text@, style),
            final(self).depth() == old(self).depth(),
    {
        let fragment = Fragment { text: String::from_str(text), style };
        proof {
            assert(fragment_views(self.inner@.push(fragment)) =~= fragment_views(self.inner@)
                + piece(text@, style));
        }
        self.inner.push(fragment);
    }

    /// Writes an opening bracket in the style of its depth and counts it
    /// as open. Returns the depth, which the closing bracket is to be
    /// written with.
    pub fn bracket_start(&mut self, bracket: &str) -> (depth: usize)
        ensures
            depth == old(self).depth(),
            final(self).written() == old(self).written() + piece(bracket@, Style::Bracket(depth)),
            final(self).depth() == deeper(depth),
    {
        let depth = self.bracket_count;
        self.write(bracket, Style::Bracket(depth));
        if depth < usize::MAX {
            self.bracket_count = depth + 1;
        }
        depth
    }

    /// Writes a closing bracket in the style of the depth that its opening
    /// bracket was written with, and counts it as closed.
    pub fn bracket_end(&mut self, bracket: &str, depth: usize)
        ensures
            final(self).written() == old(self).written() + piece(bracket@, Style::Bracket(depth)),
            final(self).depth() == depth,
    {
        self.bracket_count = depth;
        self.write(bracket, Style::Bracket(depth));
    }

    /// Writes the expression among the children of a node that comes after
    /// `skip` others, if there is one.
    fn parenthesize_operand(&mut self, node: &Node, skip: usize)
        ensures
            final(self).written() == old(self).written() + operand_rendered(
                node,
                skip as nat,
                old(self).depth(),
            ),
            final(self).depth() == old(self).depth(),
        decreases node.size(), 0nat,
    {
        match node.find_expression(skip) {
            Some(operand) => self.parenthesize(operand),
            None => {
                assert(self.written() + Seq::<FragmentView>::empty() =~= self.written());
            },
        }
    }

    /// Writes the parts of a stringlike as they are written in the source,
    /// the expressions of its interpolations between `\(` and `)`.
    pub fn parenthesize_parted(&mut self, node: &Node)
        ensures
            final(self).written() == old(self).written() + parts_rendered(
                node.children@,
                node.children@.len() as int,
                node.size(),
                old(self).depth(),
            ),
            final(self).depth() == old(self).depth(),
        decreases node.size(), 0nat,
    {
        let ghost before = self.written();
        let ghost depth = self.depth();
        let mut index: usize = 0;
        proof {
            assert(before + Seq::<FragmentView>::empty() =~= before);
        }
        while index < node.children.len()
            invariant
                index <= node.children.len(),
                self.depth() == depth,
                self.written() == before + parts_rendered(
                    node.children@,
                    index as int,
                    node.size(),
                    depth,
                ),
            decreases node.children.len() - index,
        {
            let ghost found = parts_rendered(node.children@, index as int, node.size(), depth);
            proof {
                lemma_node_smaller_or_token(node, index as int);
            }
            match &node.children[index] {
                Element::Token(token) => {
                    let style = if matches!(token.kind, Kind::TOKEN_CONTENT) {
                        Style::Content
                    } else {
                        Style::Delimiter
                    };
                    self.write(token.text.as_str(), style);
                    proof {
                        assert(before + found + piece(token.text@, style) =~= before + (found
                            + piece(token.text@, style)));
                    }
                },
                Element::Node(child) => {
                    if matches!(child.kind, Kind::NODE_INTERPOLATION) {
                        self.write("\\(", Style::Interpolation);
                        self.parenthesize_operand(child, 0);
                        self.write(")", Style::Interpolation);
                        proof {
                            let start = piece("\\("@, Style::Interpolation);
                            let middle = operand_rendered(child, 0, depth);
                            let end = piece(")"@, Style::Interpolation);
                            assert(before + found + start + middle + end =~= before + (found + (
                            start + middle + end)));
                        }
                    } else {
                        assert(before + found =~= before + (found + Seq::<FragmentView>::empty()));
                    }
                },
            }
            index += 1;
        }
    }

    /// Writes the items of a list.
    fn parenthesize_items(&mut self, list: List)
        ensures
            final(self).written() == old(self).written() + (if list_items(list).len() > 0 {
                piece(" "@, Style::Plain)
            } else {
                Seq::empty()
            }) + items_rendered(
                list_items(list),
                list_items(list).len() as int,
                list.node.size(),
                old(self).depth(),
            ),
            final(self).depth() == old(self).depth(),
        decreases list.node.size(), 0nat,
    {
        let ghost start = self.written();
        let ghost depth = self.depth();
        let items = list.items();
        if items.len() > 0 {
            self.write(" ", Style::Plain);
        } else {
            assert(start + Seq::<FragmentView>::empty() =~= start);
        }
        let ghost before = self.written();
        let mut index: usize = 0;
        proof {
            assert(before + Seq::<FragmentView>::empty() =~= before);
        }
        while index < items.len()
            invariant
                index <= items.len(),
                items@ == list_items(list),
                forall|item: int|
                    0 <= item < items@.len() ==> (#[trigger] items@[item]).node().size()
                        < list.node.size(),
                self.depth() == depth,
                self.written() == before + items_rendered(
                    items@,
                    index as int,
                    list.node.size(),
                    depth,
                ),
            decreases items.len() - index,
        {
            let ghost found = items_rendered(items@, index as int, list.node.size(), depth);
            let ghost item = rendered(items@[index as int], depth);
            self.parenthesize(items[index]);
            if index + 1 < items.len() {
                self.write(",", Style::Plain);
            } else {
                assert(self.written() + Seq::<FragmentView>::empty() =~= self.written());
            }
            self.write(" ", Style::Plain);
            proof {
                let comma = if index + 1 < items.len() {
                    piece(","@, Style::Plain)
                } else {
                    Seq::empty()
                };
                let space = piece(" "@, Style::Plain);
                assert(before + found + item + comma + space =~= before + (found + item + comma
                    + space));
            }
            index += 1;
        }
    }

    /// Writes a list.
    fn parenthesize_list(&mut self, typed: List)
        ensures
            final(self).written() == old(self).written() + rendered(
                ExpressionRef::List(typed),
                old(self).depth(),
            ),
            final(self).depth() == old(self).depth(),
        decreases typed.node.size(), 1nat,
    {
        let ghost before = self.written();
        let ghost outer = self.depth();
        let ghost inner = deeper(outer);
        let ghost space = piece(" "@, Style::Plain);
        let node = typed.node;
        let list = typed;

        let depth = self.bracket_start("[");
        self.parenthesize_items(list);
        self.bracket_end("]", depth);
        proof {
            let open = piece("["@, Style::Bracket(outer));
            let lead = if list_items(list).len() > 0 {
                space
            } else {
                Seq::empty()
            };
            let items = items_rendered(
                list_items(list),
                list_items(list).len() as int,
                node.size(),
                inner,
            );
            let close = piece("]"@, Style::Bracket(outer));
            assert(before + open + lead + items + close =~= before + (open + lead + items
                + close));
        }
    
    }

    /// Writes attributes.
    fn parenthesize_attributes(&mut self, typed: crate::node::Attributes)
        ensures
            final(self).written() == old(self).written() + rendered(
                ExpressionRef::Attributes(typed),
                old(self).depth(),
            ),
            final(self).depth() == old(self).depth(),
        decreases typed.node.size(), 1nat,
    {
        let ghost before = self.written();
        let ghost outer = self.depth();
        let ghost inner = deeper(outer);
        let ghost space = piece(" "@, Style::Plain);
        let node = typed.node;
        let attributes = typed;

        let depth = self.bracket_start("{");
        if attributes.expression().is_some() {
            self.write(" ", Style::Plain);
            self.parenthesize_operand(node, 0);
            self.write(" ", Style::Plain);
        } else {
            assert(self.written() + Seq::<FragmentView>::empty() =~= self.written());
        }
        self.bracket_end("}", depth);
        proof {
            let open = piece("{"@, Style::Bracket(outer));
            let middle = if expression_of(node, 0).is_some() {
                space + operand_rendered(node, 0, inner) + space
            } else {
                Seq::empty()
            };
            let close = piece("}"@, Style::Bracket(outer));
            assert(before + open + middle + close =~= before + (open + middle + close));
            if expression_of(node, 0).is_some() {
                assert(before + open + space + operand_rendered(node, 0, inner) + space
                    =~= before + open + middle);
            }
        }
    
    }

    /// Writes a prefix operation.
    fn parenthesize_prefix(&mut self, typed: PrefixOperation)
        ensures
            final(self).written() == old(self).written() + rendered(
                ExpressionRef::PrefixOperation(typed),
                old(self).depth(),
            ),
            final(self).depth() == old(self).depth(),
        decreases typed.node.size(), 1nat,
    {
        let ghost before = self.written();
        let ghost outer = self.depth();
        let ghost inner = deeper(outer);
        let ghost space = piece(" "@, Style::Plain);
        let node = typed.node;
        let operation = typed;

        let depth = self.bracket_start("(");
        match operation.operator() {
            Some(operator) => {
                self.write(operator.symbol(), Style::Plain);
            },
            None => {
                assert(self.written() + Seq::<FragmentView>::empty() =~= self.written());
            },
        }
        self.write(" ", Style::Plain);
        self.parenthesize_operand(node, 0);
        self.bracket_end(")", depth);
        proof {
            let open = piece("("@, Style::Bracket(outer));
            let symbol = match prefix_operator_in(node) {
                Some(operator) => piece(operator.symbol_of(), Style::Plain),
                None => Seq::empty(),
            };
            let right = operand_rendered(node, 0, inner);
            let close = piece(")"@, Style::Bracket(outer));
            assert(before + open + symbol + space + right + close =~= before + (open
                + symbol + space + right + close));
        }
    
    }

    /// Writes an infix operation.
    fn parenthesize_infix(&mut self, typed: InfixOperation)
        ensures
            final(self).written() == old(self).written() + rendered(
                ExpressionRef::InfixOperation(typed),
                old(self).depth(),
            ),
            final(self).depth() == old(self).depth(),
        decreases typed.node.size(), 1nat,
    {
        let ghost before = self.written();
        let ghost outer = self.depth();
        let ghost inner = deeper(outer);
        let ghost space = piece(" "@, Style::Plain);
        let node = typed.node;
        let operation = typed;

        let depth = self.bracket_start("(");
        let operator = operation.operator();
        let ghost open = piece("("@, Style::Bracket(outer));
        let ghost close = piece(")"@, Style::Bracket(outer));
        let ghost left = operand_rendered(node, 0, inner);
        let ghost right = operand_rendered(node, 1, inner);
        if matches!(operator, InfixOperator::Pipe) {
            self.parenthesize_operand(node, 1);
            self.write(" ", Style::Plain);
            self.parenthesize_operand(node, 0);
            self.bracket_end(")", depth);
            proof {
                assert(before + open + right + space + left + close =~= before + (open
                    + right + space + left + close));
            }
        } else {
            self.parenthesize_operand(node, 0);
            self.write(" ", Style::Plain);
            let ghost middle = self.written();
            match operator.symbol() {
                Some(symbol) => {
                    self.write(symbol, Style::Plain);
                    self.write(" ", Style::Plain);
                },
                None => {
                    assert(self.written() + Seq::<FragmentView>::empty()
                        =~= self.written());
                },
            }
            self.parenthesize_operand(node, 1);
            self.bracket_end(")", depth);
            proof {
                let symbol = match infix_operator_in(node).symbol_of() {
                    Some(symbol) => piece(symbol, Style::Plain) + space,
                    None => Seq::empty(),
                };
                if infix_operator_in(node).symbol_of().is_some() {
                    assert(middle + piece(
                        infix_operator_in(node).symbol_of().unwrap(),
                        Style::Plain,
                    ) + space =~= middle + symbol);
                }
                assert(before + open + left + space + symbol + right + close =~= before
                    + (open + left + space + symbol + right + close));
            }
        }
    
    }

    /// Writes a suffix operation.
    fn parenthesize_suffix(&mut self, typed: SuffixOperation)
        ensures
            final(self).written() == old(self).written() + rendered(
                ExpressionRef::SuffixOperation(typed),
                old(self).depth(),
            ),
            final(self).depth() == old(self).depth(),
        decreases typed.node.size(), 1nat,
    {
        let ghost before = self.written();
        let ghost outer = self.depth();
        let ghost inner = deeper(outer);
        let ghost space = piece(" "@, Style::Plain);
        let node = typed.node;
        let operation = typed;

        let depth = self.bracket_start("(");
        self.parenthesize_operand(node, 0);
        self.write(" ", Style::Plain);
        match operation.operator() {
            Some(operator) => {
                self.write(operator.symbol(), Style::Plain);
            },
            None => {
                assert(self.written() + Seq::<FragmentView>::empty() =~= self.written());
            },
        }
        self.bracket_end(")", depth);
        proof {
            let open = piece("("@, Style::Bracket(outer));
            let symbol = match suffix_operator_in(node) {
                Some(operator) => piece(operator.symbol_of(), Style::Plain),
                None => Seq::empty(),
            };
            let left = operand_rendered(node, 0, inner);
            let close = piece(")"@, Style::Bracket(outer));
            assert(before + open + left + space + symbol + close =~= before + (open + left
                + space + symbol + close));
        }
    
    }

    /// Writes an island: the parts of its header.
    fn parenthesize_island(&mut self, typed: crate::node::Island)
        ensures
            final(self).written() == old(self).written() + rendered(
                ExpressionRef::Island(typed),
                old(self).depth(),
            ),
            final(self).depth() == old(self).depth(),
        decreases typed.node.size(), 1nat,
    {
        let ghost before = self.written();
        let ghost outer = self.depth();
        let ghost inner = deeper(outer);
        let ghost space = piece(" "@, Style::Plain);
        let node = typed.node;
        let island = typed;

        match island.header() {
            Some(header) => {
                self.parenthesize_parted(header.node);
            },
            None => {
                assert(before + Seq::<FragmentView>::empty() =~= before);
            },
        }
    
    }

    /// Writes a bind.
    fn parenthesize_bind(&mut self, typed: crate::node::Bind)
        ensures
            final(self).written() == old(self).written() + rendered(
                ExpressionRef::Bind(typed),
                old(self).depth(),
            ),
            final(self).depth() == old(self).depth(),
        decreases typed.node.size(), 1nat,
    {
        let ghost before = self.written();
        let ghost outer = self.depth();
        let ghost inner = deeper(outer);
        let ghost space = piece(" "@, Style::Plain);
        let node = typed.node;

        self.write("@", Style::Plain);
        self.parenthesize_operand(node, 0);
        proof {
            let at = piece("@"@, Style::Plain);
            let bound = operand_rendered(node, 0, outer);
            assert(before + at + bound =~= before + (at + bound));
        }
    
    }

    /// Writes an identifier.
    fn parenthesize_identifier(&mut self, typed: crate::node::Identifier)
        ensures
            final(self).written() == old(self).written() + rendered(
                ExpressionRef::Identifier(typed),
                old(self).depth(),
            ),
            final(self).depth() == old(self).depth(),
        decreases typed.node.size(), 1nat,
    {
        let ghost before = self.written();
        let ghost outer = self.depth();
        let ghost inner = deeper(outer);
        let ghost space = piece(" "@, Style::Plain);
        let node = typed.node;
        let identifier = typed;

        match identifier.value() {
            IdentifierValueRef::Plain(token) => {
                let style = style_of_identifier(token.text.as_str());
                self.write(token.text.as_str(), style);
            },
            IdentifierValueRef::Quoted(_) => {
                self.parenthesize_parted(node);
            },
        }
    
    }

    /// Writes an integer.
    fn parenthesize_integer(&mut self, typed: crate::node::Integer)
        ensures
            final(self).written() == old(self).written() + rendered(
                ExpressionRef::Integer(typed),
                old(self).depth(),
            ),
            final(self).depth() == old(self).depth(),
        decreases typed.node.size(), 1nat,
    {
        let ghost before = self.written();
        let ghost outer = self.depth();
        let ghost inner = deeper(outer);
        let ghost space = piece(" "@, Style::Plain);
        let node = typed.node;
        let integer = typed;

        match integer.token_integer() {
            Some(token) => {
                let literal = token.text.as_str();
                let text = text_of_integer(literal, integer_decimal(literal));
                self.write(text.as_str(), Style::Integer);
            },
            None => {
                assert(before + Seq::<FragmentView>::empty() =~= before);
            },
        }
    
    }

    /// Writes a float.
    fn parenthesize_float(&mut self, typed: crate::node::Float)
        ensures
            final(self).written() == old(self).written() + rendered(
                ExpressionRef::Float(typed),
                old(self).depth(),
            ),
            final(self).depth() == old(self).depth(),
        decreases typed.node.size(), 1nat,
    {
        let ghost before = self.written();
        let ghost outer = self.depth();
        let ghost inner = deeper(outer);
        let ghost space = piece(" "@, Style::Plain);
        let node = typed.node;
        let float = typed;

        match float.token_float() {
            Some(token) => {
                self.write(token.text.as_str(), Style::Float);
            },
            None => {
                assert(before + Seq::<FragmentView>::empty() =~= before);
            },
        }
    
    }

    /// Writes an if-else.
    fn parenthesize_if(&mut self, typed: crate::node::If)
        ensures
            final(self).written() == old(self).written() + rendered(
                ExpressionRef::If(typed),
                old(self).depth(),
            ),
            final(self).depth() == old(self).depth(),
        decreases typed.node.size(), 1nat,
    {
        let ghost before = self.written();
        let ghost outer = self.depth();
        let ghost inner = deeper(outer);
        let ghost space = piece(" "@, Style::Plain);
        let node = typed.node;

        let depth = self.bracket_start("(");
        self.write("if ", Style::Keyword);
        self.parenthesize_operand(node, 0);
        self.write(" then ", Style::Keyword);
        self.parenthesize_operand(node, 1);
        self.write(" else ", Style::Keyword);
        self.parenthesize_operand(node, 2);
        self.bracket_end(")", depth);
        proof {
            let open = piece("("@, Style::Bracket(outer));
            let close = piece(")"@, Style::Bracket(outer));
            let condition = operand_rendered(node, 0, inner);
            let consequence = operand_rendered(node, 1, inner);
            let alternative = operand_rendered(node, 2, inner);
            let first = piece("if "@, Style::Keyword);
            let second = piece(" then "@, Style::Keyword);
            let third = piece(" else "@, Style::Keyword);
            assert(before + open + first + condition + second + consequence + third
                + alternative + close =~= before + (open + first + condition + second
                + consequence + third + alternative + close));
        }
    
    }

    /// Writes an expression with fully explicit grouping.
    pub fn parenthesize(&mut self, expression: ExpressionRef)
        ensures
            final(self).written() == old(self).written() + rendered(expression, old(self).depth()),
            final(self).depth() == old(self).depth(),
        decreases expression.node().size(), 2nat,
    {
        match expression {
            ExpressionRef::Error(_) => {
                self.write("error", Style::Error);
            },
            ExpressionRef::Parenthesis(typed) => {
                self.parenthesize_operand(typed.node, 0);
            },
            ExpressionRef::List(typed) => self.parenthesize_list(typed),
            ExpressionRef::Attributes(typed) => self.parenthesize_attributes(typed),
            ExpressionRef::PrefixOperation(typed) => self.parenthesize_prefix(typed),
            ExpressionRef::InfixOperation(typed) => self.parenthesize_infix(typed),
            ExpressionRef::SuffixOperation(typed) => self.parenthesize_suffix(typed),
            ExpressionRef::Path(typed) => self.parenthesize_parted(typed.node),
            ExpressionRef::SString(typed) => self.parenthesize_parted(typed.node),
            ExpressionRef::Rune(typed) => self.parenthesize_parted(typed.node),
            ExpressionRef::Island(typed) => self.parenthesize_island(typed),
            ExpressionRef::Bind(typed) => self.parenthesize_bind(typed),
            ExpressionRef::Identifier(typed) => self.parenthesize_identifier(typed),
            ExpressionRef::Integer(typed) => self.parenthesize_integer(typed),
            ExpressionRef::Float(typed) => self.parenthesize_float(typed),
            ExpressionRef::If(typed) => self.parenthesize_if(typed),
        }
    }
}

/// Renders the given expression with parentheses to disambiguate.
pub fn parenthesize(expression: ExpressionRef) -> (result: Vec<Fragment>)
    ensures
        fragment_views(result@) == rendered(expression, 0),
{
    let mut formatter = Formatter::new();
    formatter.parenthesize(expression);
    proof {
        assert(Seq::<FragmentView>::empty() + rendered(expression, 0) =~= rendered(expression, 0));
    }
    formatter.finish()
}

/// Returns the texts of fragments, one after the other.
pub fn to_plain_text(fragments: &Vec<Fragment>) -> (result: String)
    ensures
        result@ == plain_text(fragment_views(fragments@)),
{
    let mut result = String::new();
    let mut index: usize = 0;
    let ghost views = fragment_views(fragments@);
    proof {
        assert(views.take(0) =~= Seq::empty());
    }
    while index < fragments.len()
        invariant
            index <= fragments.len(),
            views == fragment_views(fragments@),
            result@ == plain_text(views.take(index as int)),
        decreases fragments.len() - index,
    {
        proof {
            assert(views.take(index + 1).drop_last() =~= views.take(index as int));
        }
        result.append(fragments[index].text.as_str());
        index += 1;
    }
    proof {
        assert(views.take(views.len() as int) =~= views);
    }
    result
}

} // verus!
