//! Typed views of the nodes of a tree: what kind of expression a node is
//! and where its parts stand among its children.

use vstd::prelude::*;

use crate::kind::{trivia, Kind};
use crate::operator::{
    infix_operator_of, prefix_operator_of, suffix_operator_of, InfixOperator, PrefixOperator,
    SuffixOperator,
};
use crate::tree::{sizes, Element, Node, Span, Token};

verus! {

/// An error node. Also a valid expression.
#[derive(Debug, Clone, Copy)]
pub struct Error<'a> {
    pub node: &'a Node,
}

/// A parenthesis. Contains a single expression.
#[derive(Debug, Clone, Copy)]
pub struct Parenthesis<'a> {
    pub node: &'a Node,
}

/// A list. Contains expressions delimited by the same operator.
#[derive(Debug, Clone, Copy)]
pub struct List<'a> {
    pub node: &'a Node,
}

/// Attributes. May contain an expression that holds binds.
#[derive(Debug, Clone, Copy)]
pub struct Attributes<'a> {
    pub node: &'a Node,
}

/// A prefix operation.
#[derive(Debug, Clone, Copy)]
pub struct PrefixOperation<'a> {
    pub node: &'a Node,
}

/// An infix operation.
#[derive(Debug, Clone, Copy)]
pub struct InfixOperation<'a> {
    pub node: &'a Node,
}

/// A suffix operation.
#[derive(Debug, Clone, Copy)]
pub struct SuffixOperation<'a> {
    pub node: &'a Node,
}

/// An interpolation: a part of a stringlike that holds an expression.
#[derive(Debug, Clone, Copy)]
pub struct Interpolation<'a> {
    pub node: &'a Node,
}

/// The header of an island.
#[derive(Debug, Clone, Copy)]
pub struct IslandHeader<'a> {
    pub node: &'a Node,
}

/// An island.
#[derive(Debug, Clone, Copy)]
pub struct Island<'a> {
    pub node: &'a Node,
}

/// A path.
#[derive(Debug, Clone, Copy)]
pub struct Path<'a> {
    pub node: &'a Node,
}

/// A bind. Contains the identifier to bind to.
#[derive(Debug, Clone, Copy)]
pub struct Bind<'a> {
    pub node: &'a Node,
}

/// A quoted identifier.
#[derive(Debug, Clone, Copy)]
pub struct IdentifierQuoted<'a> {
    pub node: &'a Node,
}

/// An identifier: a plain identifier token or a quoted identifier.
#[derive(Debug, Clone, Copy)]
pub struct Identifier<'a> {
    pub node: &'a Node,
}

/// A string.
#[derive(Debug, Clone, Copy)]
pub struct SString<'a> {
    pub node: &'a Node,
}

/// A rune. Also known as a character.
#[derive(Debug, Clone, Copy)]
pub struct Rune<'a> {
    pub node: &'a Node,
}

/// An integer.
#[derive(Debug, Clone, Copy)]
pub struct Integer<'a> {
    pub node: &'a Node,
}

/// A float.
#[derive(Debug, Clone, Copy)]
pub struct Float<'a> {
    pub node: &'a Node,
}

/// An if-else.
#[derive(Debug, Clone, Copy)]
pub struct If<'a> {
    pub node: &'a Node,
}

/// An expression. Everything is an expression.
#[derive(Debug, Clone, Copy)]
pub enum ExpressionRef<'a> {
    Error(Error<'a>),
    Parenthesis(Parenthesis<'a>),
    List(List<'a>),
    Attributes(Attributes<'a>),
    PrefixOperation(PrefixOperation<'a>),
    InfixOperation(InfixOperation<'a>),
    SuffixOperation(SuffixOperation<'a>),
    Island(Island<'a>),
    Path(Path<'a>),
    Bind(Bind<'a>),
    Identifier(Identifier<'a>),
    SString(SString<'a>),
    Rune(Rune<'a>),
    Integer(Integer<'a>),
    Float(Float<'a>),
    If(If<'a>),
}

/// A part of a stringlike.
#[derive(Debug, Clone, Copy)]
pub enum InterpolatedPartRef<'a> {
    /// The start or end delimiter.
    Delimiter(&'a Token),
    /// Content.
    Content(&'a Token),
    /// An expression between `\(` and `)`.
    Interpolation(Interpolation<'a>),
}

/// The value of an identifier.
#[derive(Debug, Clone, Copy)]
pub enum IdentifierValueRef<'a> {
    /// A plain identifier, backed by its token.
    Plain(&'a Token),
    /// A quoted identifier.
    Quoted(IdentifierQuoted<'a>),
}

/// Which tokens a search among the children of a node looks for.
#[derive(Debug, Clone, Copy, PartialEq, Eq, Structural)]
pub enum TokenFilter {
    /// Tokens of one kind.
    Kind(Kind),
    /// Tokens that stand for a prefix operator.
    PrefixOperator,
    /// Tokens that stand for an infix operator.
    InfixOperator,
    /// Tokens that stand for a suffix operator.
    SuffixOperator,
}

impl TokenFilter {
    /// Whether a token of the kind is one the search looks for.
    pub open spec fn accepts(self, kind: Kind) -> bool {
        match self {
            TokenFilter::Kind(wanted) => kind == wanted,
            TokenFilter::PrefixOperator => prefix_operator_of(kind).is_some(),
            TokenFilter::InfixOperator => infix_operator_of(kind).is_some(),
            TokenFilter::SuffixOperator => suffix_operator_of(kind).is_some(),
        }
    }

    /// Whether a token of the kind is one the search looks for.
    pub fn matches(self, kind: Kind) -> (result: bool)
        ensures
            result == self.accepts(kind),
    {
        match self {
            TokenFilter::Kind(wanted) => kind == wanted,
            TokenFilter::PrefixOperator => PrefixOperator::try_from(kind).is_some(),
            TokenFilter::InfixOperator => InfixOperator::try_from(kind).is_some(),
            TokenFilter::SuffixOperator => SuffixOperator::try_from(kind).is_some(),
        }
    }
}

/// The kinds of the nodes that are expressions.
pub open spec fn is_expression_kind(kind: Kind) -> bool {
    matches!(
        kind,
        Kind::NODE_ERROR
            | Kind::NODE_PARENTHESIS
            | Kind::NODE_LIST
            | Kind::NODE_ATTRIBUTES
            | Kind::NODE_PREFIX_OPERATION
            | Kind::NODE_INFIX_OPERATION
            | Kind::NODE_SUFFIX_OPERATION
            | Kind::NODE_ISLAND
            | Kind::NODE_PATH
            | Kind::NODE_BIND
            | Kind::NODE_IDENTIFIER
            | Kind::NODE_STRING
            | Kind::NODE_RUNE
            | Kind::NODE_INTEGER
            | Kind::NODE_FLOAT
            | Kind::NODE_IF
    )
}

/// The expression that a node is, by its kind; none where the kind is not
/// that of an expression.
pub open spec fn cast<'a>(node: &'a Node) -> Option<ExpressionRef<'a>> {
    match node.kind {
        Kind::NODE_ERROR => Some(ExpressionRef::Error(Error { node })),
        Kind::NODE_PARENTHESIS => Some(ExpressionRef::Parenthesis(Parenthesis { node })),
        Kind::NODE_LIST => Some(ExpressionRef::List(List { node })),
        Kind::NODE_ATTRIBUTES => Some(ExpressionRef::Attributes(Attributes { node })),
        Kind::NODE_PREFIX_OPERATION => Some(
            ExpressionRef::PrefixOperation(PrefixOperation { node }),
        ),
        Kind::NODE_INFIX_OPERATION => Some(ExpressionRef::InfixOperation(InfixOperation { node })),
        Kind::NODE_SUFFIX_OPERATION => Some(
            ExpressionRef::SuffixOperation(SuffixOperation { node }),
        ),
        Kind::NODE_ISLAND => Some(ExpressionRef::Island(Island { node })),
        Kind::NODE_PATH => Some(ExpressionRef::Path(Path { node })),
        Kind::NODE_BIND => Some(ExpressionRef::Bind(Bind { node })),
        Kind::NODE_IDENTIFIER => Some(ExpressionRef::Identifier(Identifier { node })),
        Kind::NODE_STRING => Some(ExpressionRef::SString(SString { node })),
        Kind::NODE_RUNE => Some(ExpressionRef::Rune(Rune { node })),
        Kind::NODE_INTEGER => Some(ExpressionRef::Integer(Integer { node })),
        Kind::NODE_FLOAT => Some(ExpressionRef::Float(Float { node })),
        Kind::NODE_IF => Some(ExpressionRef::If(If { node })),
        _ => None,
    }
}

/// Where the first token that a search looks for stands among children,
/// searched from `from` on.
pub open spec fn token_index(children: Seq<Element>, from: int, filter: TokenFilter) -> Option<int>
    decreases children.len() - from,
{
    if from < 0 || from >= children.len() {
        None
    } else if children[from] is Token && filter.accepts(children[from]->Token_0.kind) {
        Some(from)
    } else {
        token_index(children, from + 1, filter)
    }
}

/// Where the first node of a kind stands among children, searched from
/// `from` on.
pub open spec fn node_index(children: Seq<Element>, from: int, kind: Kind) -> Option<int>
    decreases children.len() - from,
{
    if from < 0 || from >= children.len() {
        None
    } else if children[from] is Node && children[from]->Node_0.kind == kind {
        Some(from)
    } else {
        node_index(children, from + 1, kind)
    }
}

/// Where the expression stands among children that comes after `skip`
/// others, searched from `from` on.
pub open spec fn expression_index(children: Seq<Element>, from: int, skip: nat) -> Option<int>
    decreases children.len() - from,
{
    if from < 0 || from >= children.len() {
        None
    } else if children[from] is Node && is_expression_kind(children[from]->Node_0.kind) {
        if skip == 0 {
            Some(from)
        } else {
            expression_index(children, from + 1, (skip - 1) as nat)
        }
    } else {
        expression_index(children, from + 1, skip)
    }
}

/// The first token among the children of a node that a search looks for.
pub open spec fn token_of<'a>(node: &'a Node, filter: TokenFilter) -> Option<&'a Token> {
    match token_index(node.children@, 0, filter) {
        Some(index) => Some(&node.children@[index]->Token_0),
        None => None,
    }
}

/// The first node of a kind among the children of a node.
pub open spec fn node_of<'a>(node: &'a Node, kind: Kind) -> Option<&'a Node> {
    match node_index(node.children@, 0, kind) {
        Some(index) => Some(&node.children@[index]->Node_0),
        None => None,
    }
}

/// The expression among the children of a node that comes after `skip`
/// others.
pub open spec fn expression_of<'a>(node: &'a Node, skip: nat) -> Option<ExpressionRef<'a>> {
    match expression_index(node.children@, 0, skip) {
        Some(index) => cast(&node.children@[index]->Node_0),
        None => None,
    }
}

/// The first token below an element that is neither whitespace nor a
/// comment.
pub open spec fn first_leaf_of(element: Element) -> Option<Token>
    decreases element, 0nat,
{
    match element {
        Element::Token(token) => if trivia(token.kind) {
            None
        } else {
            Some(token)
        },
        Element::Node(node) => first_leaf(node.children@, 0),
    }
}

/// The first token below the elements from `from` on that is neither
/// whitespace nor a comment.
pub open spec fn first_leaf(elements: Seq<Element>, from: int) -> Option<Token>
    decreases elements, elements.len() - from,
{
    if from < 0 || from >= elements.len() {
        None
    } else {
        match first_leaf_of(elements[from]) {
            Some(token) => Some(token),
            None => first_leaf(elements, from + 1),
        }
    }
}

/// A child weighs less than all the children together.
pub proof fn lemma_child_size(children: Seq<Element>, index: int)
    requires
        0 <= index < children.len(),
    ensures
        children[index].size() <= sizes(children),
    decreases children.len(),
{
    if index < children.len() - 1 {
        lemma_child_size(children.drop_last(), index);
    }
}

/// Two different children weigh no more than all the children together.
pub proof fn lemma_children_size(children: Seq<Element>, first: int, second: int)
    requires
        0 <= first < second < children.len(),
    ensures
        children[first].size() + children[second].size() <= sizes(children),
    decreases children.len(),
{
    if second < children.len() - 1 {
        lemma_children_size(children.drop_last(), first, second);
    } else {
        lemma_child_size(children.drop_last(), first);
    }
}

/// Where a search finds an expression, an expression stands.
pub proof fn lemma_expression_index(children: Seq<Element>, from: int, skip: nat)
    ensures
        expression_index(children, from, skip) matches Some(index) ==> from <= index
            < children.len() && children[index] is Node && is_expression_kind(
            children[index]->Node_0.kind,
        ),
    decreases children.len() - from,
{
    if 0 <= from < children.len() {
        if children[from] is Node && is_expression_kind(children[from]->Node_0.kind) {
            if skip > 0 {
                lemma_expression_index(children, from + 1, (skip - 1) as nat);
            }
        } else {
            lemma_expression_index(children, from + 1, skip);
        }
    }
}

/// An expression that comes after more others stands further on.
pub proof fn lemma_expression_order(children: Seq<Element>, from: int, skip: nat, more: nat)
    requires
        skip < more,
    ensures
        expression_index(children, from, more) matches Some(later) ==> expression_index(
            children,
            from,
            skip,
        ) matches Some(earlier) && earlier < later,
    decreases children.len() - from,
{
    if 0 <= from < children.len() {
        if children[from] is Node && is_expression_kind(children[from]->Node_0.kind) {
            if skip > 0 {
                lemma_expression_order(
                    children,
                    from + 1,
                    (skip - 1) as nat,
                    (more - 1) as nat,
                );
            } else {
                lemma_expression_index(children, from + 1, (more - 1) as nat);
            }
        } else {
            lemma_expression_order(children, from + 1, skip, more);
        }
    }
}

/// An expression among the children of a node weighs less than the node.
pub proof fn lemma_expression_smaller(node: &Node, skip: nat)
    ensures
        expression_of(node, skip) matches Some(expression) ==> expression.node().size()
            < node.size(),
{
    lemma_expression_index(node.children@, 0, skip);
    if let Some(index) = expression_index(node.children@, 0, skip) {
        lemma_child_size(node.children@, index);
    }
}

/// Two different expressions among the children of a node weigh less than
/// the node, taken together.
pub proof fn lemma_expressions_smaller(node: &Node, skip: nat, more: nat)
    requires
        skip < more,
    ensures
        expression_of(node, skip).is_some() && expression_of(node, more).is_some()
            ==> expression_of(node, skip).unwrap().node().size() + expression_of(
            node,
            more,
        ).unwrap().node().size() < node.size(),
{
    lemma_expression_index(node.children@, 0, skip);
    lemma_expression_index(node.children@, 0, more);
    lemma_expression_order(node.children@, 0, skip, more);
    if expression_of(node, skip).is_some() && expression_of(node, more).is_some() {
        let first = expression_index(node.children@, 0, skip).unwrap();
        let second = expression_index(node.children@, 0, more).unwrap();
        lemma_children_size(node.children@, first, second);
    }
}

/// A node among the children of a node weighs less than the node.
pub proof fn lemma_node_smaller(node: &Node, index: int)
    requires
        0 <= index < node.children@.len(),
        node.children@[index] is Node,
    ensures
        node.children@[index]->Node_0.size() < node.size(),
{
    lemma_child_size(node.children@, index);
}

impl<'a> ExpressionRef<'a> {
    /// The node that the expression is a view of.
    pub open spec fn node(self) -> &'a Node {
        match self {
            ExpressionRef::Error(typed) => typed.node,
            ExpressionRef::Parenthesis(typed) => typed.node,
            ExpressionRef::List(typed) => typed.node,
            ExpressionRef::Attributes(typed) => typed.node,
            ExpressionRef::PrefixOperation(typed) => typed.node,
            ExpressionRef::InfixOperation(typed) => typed.node,
            ExpressionRef::SuffixOperation(typed) => typed.node,
            ExpressionRef::Island(typed) => typed.node,
            ExpressionRef::Path(typed) => typed.node,
            ExpressionRef::Bind(typed) => typed.node,
            ExpressionRef::Identifier(typed) => typed.node,
            ExpressionRef::SString(typed) => typed.node,
            ExpressionRef::Rune(typed) => typed.node,
            ExpressionRef::Integer(typed) => typed.node,
            ExpressionRef::Float(typed) => typed.node,
            ExpressionRef::If(typed) => typed.node,
        }
    }

    /// Returns the expression that a node is, by its kind, or `None` where
    /// the kind is not that of an expression.
    pub fn try_from(node: &'a Node) -> (result: Option<ExpressionRef<'a>>)
        ensures
            result == cast(node),
            result.is_some() == is_expression_kind(node.kind),
            result.is_some() ==> result.unwrap().node() == node,
    {
        match node.kind {
            Kind::NODE_ERROR => Some(ExpressionRef::Error(Error { node })),
            Kind::NODE_PARENTHESIS => Some(ExpressionRef::Parenthesis(Parenthesis { node })),
            Kind::NODE_LIST => Some(ExpressionRef::List(List { node })),
            Kind::NODE_ATTRIBUTES => Some(ExpressionRef::Attributes(Attributes { node })),
            Kind::NODE_PREFIX_OPERATION => Some(
                ExpressionRef::PrefixOperation(PrefixOperation { node }),
            ),
            Kind::NODE_INFIX_OPERATION => Some(
                ExpressionRef::InfixOperation(InfixOperation { node }),
            ),
            Kind::NODE_SUFFIX_OPERATION => Some(
                ExpressionRef::SuffixOperation(SuffixOperation { node }),
            ),
            Kind::NODE_ISLAND => Some(ExpressionRef::Island(Island { node })),
            Kind::NODE_PATH => Some(ExpressionRef::Path(Path { node })),
            Kind::NODE_BIND => Some(ExpressionRef::Bind(Bind { node })),
            Kind::NODE_IDENTIFIER => Some(ExpressionRef::Identifier(Identifier { node })),
            Kind::NODE_STRING => Some(ExpressionRef::SString(SString { node })),
            Kind::NODE_RUNE => Some(ExpressionRef::Rune(Rune { node })),
            Kind::NODE_INTEGER => Some(ExpressionRef::Integer(Integer { node })),
            Kind::NODE_FLOAT => Some(ExpressionRef::Float(Float { node })),
            Kind::NODE_IF => Some(ExpressionRef::If(If { node })),
            _ => None,
        }
    }

    /// Returns the node that the expression is a view of.
    pub fn as_node(self) -> (result: &'a Node)
        ensures
            result == self.node(),
    {
        match self {
            ExpressionRef::Error(typed) => typed.node,
            ExpressionRef::Parenthesis(typed) => typed.node,
            ExpressionRef::List(typed) => typed.node,
            ExpressionRef::Attributes(typed) => typed.node,
            ExpressionRef::PrefixOperation(typed) => typed.node,
            ExpressionRef::InfixOperation(typed) => typed.node,
            ExpressionRef::SuffixOperation(typed) => typed.node,
            ExpressionRef::Island(typed) => typed.node,
            ExpressionRef::Path(typed) => typed.node,
            ExpressionRef::Bind(typed) => typed.node,
            ExpressionRef::Identifier(typed) => typed.node,
            ExpressionRef::SString(typed) => typed.node,
            ExpressionRef::Rune(typed) => typed.node,
            ExpressionRef::Integer(typed) => typed.node,
            ExpressionRef::Float(typed) => typed.node,
            ExpressionRef::If(typed) => typed.node,
        }
    }
}

impl Node {
    /// Returns the first token among the children that a search looks for.
    pub fn find_token<'a>(&'a self, filter: TokenFilter) -> (result: Option<&'a Token>)
        ensures
            result == token_of(self, filter),
            result.is_some() ==> filter.accepts(result.unwrap().kind),
    {
        let mut index: usize = 0;
        while index < self.children.len()
            invariant
                index <= self.children.len(),
                token_index(self.children@, 0, filter) == token_index(
                    self.children@,
                    index as int,
                    filter,
                ),
            decreases self.children.len() - index,
        {
            match &self.children[index] {
                Element::Token(token) => {
                    if filter.matches(token.kind) {
                        return Some(token);
                    }
                },
                Element::Node(_) => {},
            }
            index += 1;
        }
        None
    }

    /// Returns the first node of a kind among the children.
    pub fn find_node<'a>(&'a self, kind: Kind) -> (result: Option<&'a Node>)
        ensures
            result == node_of(self, kind),
            result.is_some() ==> result.unwrap().kind == kind && result.unwrap().size()
                < self.size(),
    {
        let mut index: usize = 0;
        while index < self.children.len()
            invariant
                index <= self.children.len(),
                node_index(self.children@, 0, kind) == node_index(
                    self.children@,
                    index as int,
                    kind,
                ),
            decreases self.children.len() - index,
        {
            match &self.children[index] {
                Element::Node(node) => {
                    if node.kind == kind {
                        proof {
                            lemma_node_smaller(self, index as int);
                        }
                        return Some(node);
                    }
                },
                Element::Token(_) => {},
            }
            index += 1;
        }
        None
    }

    /// Returns the expression among the children that comes after `skip`
    /// others.
    pub fn find_expression<'a>(&'a self, skip: usize) -> (result: Option<ExpressionRef<'a>>)
        ensures
            result == expression_of(self, skip as nat),
            result.is_some() ==> result.unwrap().node().size() < self.size(),
    {
        let mut index: usize = 0;
        let mut left: usize = skip;
        while index < self.children.len()
            invariant
                index <= self.children.len(),
                expression_index(self.children@, 0, skip as nat) == expression_index(
                    self.children@,
                    index as int,
                    left as nat,
                ),
            decreases self.children.len() - index,
        {
            match &self.children[index] {
                Element::Node(child) => {
                    match ExpressionRef::try_from(child) {
                        Some(expression) => {
                            if left == 0 {
                                proof {
                                    lemma_node_smaller(self, index as int);
                                }
                                return Some(expression);
                            }
                            left -= 1;
                        },
                        None => {},
                    }
                },
                Element::Token(_) => {},
            }
            index += 1;
        }
        None
    }

    /// Returns the first token below the node that is neither whitespace
    /// nor a comment.
    pub fn first_token<'a>(&'a self) -> (result: Option<&'a Token>)
        ensures
            result.is_some() == first_leaf(self.children@, 0).is_some(),
            result.is_some() ==> *result.unwrap() == first_leaf(self.children@, 0).unwrap(),
        decreases self,
    {
        let mut index: usize = 0;
        while index < self.children.len()
            invariant
                index <= self.children.len(),
                first_leaf(self.children@, 0) == first_leaf(self.children@, index as int),
            decreases self.children.len() - index,
        {
            let ghost element = self.children@[index as int];
            match &self.children[index] {
                Element::Token(token) => {
                    assert(first_leaf_of(element) == if trivia(token.kind) {
                        None
                    } else {
                        Some(*token)
                    });
                    if !token.kind.is_trivia() {
                        return Some(token);
                    }
                },
                Element::Node(node) => {
                    assert(first_leaf_of(element) == first_leaf(node.children@, 0));
                    match node.first_token() {
                        Some(token) => {
                            return Some(token);
                        },
                        None => {},
                    }
                },
            }
            index += 1;
        }
        None
    }
}

/// The parts of a stringlike with these children: tokens of content are
/// content, other tokens delimiters, interpolation nodes interpolations.
/// Other nodes are no part of a stringlike.
pub open spec fn parts_of<'a>(children: Seq<Element>) -> Seq<InterpolatedPartRef<'a>>
    decreases children.len(),
{
    if children.len() == 0 {
        Seq::empty()
    } else {
        let before = parts_of(children.drop_last());
        match children.last() {
            Element::Token(token) => before.push(
                if token.kind == Kind::TOKEN_CONTENT {
                    InterpolatedPartRef::Content(&token)
                } else {
                    InterpolatedPartRef::Delimiter(&token)
                },
            ),
            Element::Node(node) => if node.kind == Kind::NODE_INTERPOLATION {
                before.push(InterpolatedPartRef::Interpolation(Interpolation { node: &node }))
            } else {
                before
            },
        }
    }
}

/// Returns the parts of the stringlike that a node is.
pub fn parts_in<'a>(node: &'a Node) -> (result: Vec<InterpolatedPartRef<'a>>)
    ensures
        result@ == parts_of(node.children@),
{
    let mut result: Vec<InterpolatedPartRef<'a>> = Vec::new();
    let mut index: usize = 0;
    proof {
        assert(node.children@.take(0) =~= Seq::empty());
    }
    while index < node.children.len()
        invariant
            index <= node.children.len(),
            result@ == parts_of(node.children@.take(index as int)),
        decreases node.children.len() - index,
    {
        proof {
            assert(node.children@.take(index + 1).drop_last() =~= node.children@.take(
                index as int,
            ));
        }
        match &node.children[index] {
            Element::Token(token) => {
                if matches!(token.kind, Kind::TOKEN_CONTENT) {
                    result.push(InterpolatedPartRef::Content(token));
                } else {
                    result.push(InterpolatedPartRef::Delimiter(token));
                }
            },
            Element::Node(child) => {
                if matches!(child.kind, Kind::NODE_INTERPOLATION) {
                    result.push(InterpolatedPartRef::Interpolation(Interpolation { node: child }));
                }
            },
        }
        index += 1;
    }
    proof {
        assert(node.children@.take(node.children@.len() as int) =~= node.children@);
    }
    result
}

/// A node that is made of interpolated parts.
pub trait Parted<'a> {
    /// The node whose children are the parts.
    spec fn parted_node(&self) -> &'a Node;

    /// Returns the interpolated parts in the order of the source.
    fn parts(&self) -> (result: Vec<InterpolatedPartRef<'a>>)
        ensures
            result@ == parts_of(self.parted_node().children@),
    ;
}

impl<'a> Parted<'a> for IslandHeader<'a> {
    open spec fn parted_node(&self) -> &'a Node {
        self.node
    }

    fn parts(&self) -> (result: Vec<InterpolatedPartRef<'a>>) {
        parts_in(self.node)
    }
}

impl<'a> Parted<'a> for Path<'a> {
    open spec fn parted_node(&self) -> &'a Node {
        self.node
    }

    fn parts(&self) -> (result: Vec<InterpolatedPartRef<'a>>) {
        parts_in(self.node)
    }
}

impl<'a> Parted<'a> for IdentifierQuoted<'a> {
    open spec fn parted_node(&self) -> &'a Node {
        self.node
    }

    fn parts(&self) -> (result: Vec<InterpolatedPartRef<'a>>) {
        parts_in(self.node)
    }
}

impl<'a> Parted<'a> for SString<'a> {
    open spec fn parted_node(&self) -> &'a Node {
        self.node
    }

    fn parts(&self) -> (result: Vec<InterpolatedPartRef<'a>>) {
        parts_in(self.node)
    }
}

impl<'a> Parted<'a> for Rune<'a> {
    open spec fn parted_node(&self) -> &'a Node {
        self.node
    }

    fn parts(&self) -> (result: Vec<InterpolatedPartRef<'a>>) {
        parts_in(self.node)
    }
}

impl<'a> InterpolatedPartRef<'a> {
    /// Where the part stands in the source.
    pub open spec fn span_of(self) -> Span {
        match self {
            InterpolatedPartRef::Delimiter(delimiter) => delimiter.span,
            InterpolatedPartRef::Content(content) => content.span,
            InterpolatedPartRef::Interpolation(interpolation) => interpolation.node.span,
        }
    }

    /// Whether or not this part is a delimiter.
    pub fn is_delimiter(self) -> (result: bool)
        ensures
            result == (self is Delimiter),
    {
        matches!(self, InterpolatedPartRef::Delimiter(_))
    }

    /// Returns where the part stands in the source.
    pub fn span(self) -> (result: Span)
        ensures
            result == self.span_of(),
    {
        match self {
            InterpolatedPartRef::Delimiter(delimiter) => delimiter.span,
            InterpolatedPartRef::Content(content) => content.span,
            InterpolatedPartRef::Interpolation(interpolation) => interpolation.node.span,
        }
    }
}

impl<'a> Parenthesis<'a> {
    /// Returns the `(`, if it is there.
    pub fn token_parenthesis_left(&self) -> (result: Option<&'a Token>)
        ensures
            result == token_of(self.node, TokenFilter::Kind(Kind::TOKEN_PARENTHESIS_LEFT)),
    {
        self.node.find_token(TokenFilter::Kind(Kind::TOKEN_PARENTHESIS_LEFT))
    }

    /// Returns the expression between the parentheses, if there is one.
    pub fn expression(&self) -> (result: Option<ExpressionRef<'a>>)
        ensures
            result == expression_of(self.node, 0),
            result.is_some() ==> result.unwrap().node().size() < self.node.size(),
    {
        self.node.find_expression(0)
    }

    /// Returns the `)`, if it is there.
    pub fn token_parenthesis_right(&self) -> (result: Option<&'a Token>)
        ensures
            result == token_of(self.node, TokenFilter::Kind(Kind::TOKEN_PARENTHESIS_RIGHT)),
    {
        self.node.find_token(TokenFilter::Kind(Kind::TOKEN_PARENTHESIS_RIGHT))
    }
}

impl<'a> List<'a> {
    /// Returns the `[`, if it is there.
    pub fn token_bracket_left(&self) -> (result: Option<&'a Token>)
        ensures
            result == token_of(self.node, TokenFilter::Kind(Kind::TOKEN_BRACKET_LEFT)),
    {
        self.node.find_token(TokenFilter::Kind(Kind::TOKEN_BRACKET_LEFT))
    }

    /// Returns the expression between the brackets, if there is one.
    pub fn expression(&self) -> (result: Option<ExpressionRef<'a>>)
        ensures
            result == expression_of(self.node, 0),
            result.is_some() ==> result.unwrap().node().size() < self.node.size(),
    {
        self.node.find_expression(0)
    }

    /// Returns the `]`, if it is there.
    pub fn token_bracket_right(&self) -> (result: Option<&'a Token>)
        ensures
            result == token_of(self.node, TokenFilter::Kind(Kind::TOKEN_BRACKET_RIGHT)),
    {
        self.node.find_token(TokenFilter::Kind(Kind::TOKEN_BRACKET_RIGHT))
    }
}

impl<'a> Attributes<'a> {
    /// Returns the `{`, if it is there.
    pub fn token_curlybrace_left(&self) -> (result: Option<&'a Token>)
        ensures
            result == token_of(self.node, TokenFilter::Kind(Kind::TOKEN_CURLYBRACE_LEFT)),
    {
        self.node.find_token(TokenFilter::Kind(Kind::TOKEN_CURLYBRACE_LEFT))
    }

    /// Returns the expression between the braces, if there is one.
    pub fn expression(&self) -> (result: Option<ExpressionRef<'a>>)
        ensures
            result == expression_of(self.node, 0),
            result.is_some() ==> result.unwrap().node().size() < self.node.size(),
    {
        self.node.find_expression(0)
    }

    /// Returns the `}`, if it is there.
    pub fn token_curlybrace_right(&self) -> (result: Option<&'a Token>)
        ensures
            result == token_of(self.node, TokenFilter::Kind(Kind::TOKEN_CURLYBRACE_RIGHT)),
    {
        self.node.find_token(TokenFilter::Kind(Kind::TOKEN_CURLYBRACE_RIGHT))
    }
}

/// The operator of a prefix operation: that of its first operator token.
pub open spec fn prefix_operator_in(node: &Node) -> Option<PrefixOperator> {
    match token_of(node, TokenFilter::PrefixOperator) {
        Some(token) => prefix_operator_of(token.kind),
        None => None,
    }
}

/// The operator of an infix operation: that of its first operator token,
/// or application by juxtaposition where it has none.
pub open spec fn infix_operator_in(node: &Node) -> InfixOperator {
    match token_of(node, TokenFilter::InfixOperator) {
        Some(token) => infix_operator_of(token.kind).unwrap(),
        None => InfixOperator::ImplicitApply,
    }
}

/// The operator of a suffix operation: that of its first operator token.
pub open spec fn suffix_operator_in(node: &Node) -> Option<SuffixOperator> {
    match token_of(node, TokenFilter::SuffixOperator) {
        Some(token) => suffix_operator_of(token.kind),
        None => None,
    }
}

impl<'a> PrefixOperation<'a> {
    /// Returns the operand.
    pub fn right(&self) -> (result: Option<ExpressionRef<'a>>)
        ensures
            result == expression_of(self.node, 0),
            result.is_some() ==> result.unwrap().node().size() < self.node.size(),
    {
        self.node.find_expression(0)
    }

    /// Returns the operator token of this operation.
    pub fn operator_token(&self) -> (result: Option<&'a Token>)
        ensures
            result == token_of(self.node, TokenFilter::PrefixOperator),
    {
        self.node.find_token(TokenFilter::PrefixOperator)
    }

    /// Returns the operator of this operation.
    pub fn operator(&self) -> (result: Option<PrefixOperator>)
        ensures
            result == prefix_operator_in(self.node),
            result.is_some() == token_of(self.node, TokenFilter::PrefixOperator).is_some(),
    {
        match self.node.find_token(TokenFilter::PrefixOperator) {
            Some(token) => PrefixOperator::try_from(token.kind),
            None => None,
        }
    }
}

impl<'a> InfixOperation<'a> {
    /// Returns the left operand.
    pub fn left(&self) -> (result: Option<ExpressionRef<'a>>)
        ensures
            result == expression_of(self.node, 0),
            result.is_some() ==> result.unwrap().node().size() < self.node.size(),
    {
        self.node.find_expression(0)
    }

    /// Returns the right operand.
    pub fn right(&self) -> (result: Option<ExpressionRef<'a>>)
        ensures
            result == expression_of(self.node, 1),
            result.is_some() ==> result.unwrap().node().size() < self.node.size(),
    {
        self.node.find_expression(1)
    }

    /// Returns the operator token of this operation.
    pub fn operator_token(&self) -> (result: Option<&'a Token>)
        ensures
            result == token_of(self.node, TokenFilter::InfixOperator),
    {
        self.node.find_token(TokenFilter::InfixOperator)
    }

    /// Returns the operator of this operation.
    pub fn operator(&self) -> (result: InfixOperator)
        ensures
            result == infix_operator_in(self.node),
    {
        match self.node.find_token(TokenFilter::InfixOperator) {
            Some(token) => match InfixOperator::try_from(token.kind) {
                Some(operator) => operator,
                None => InfixOperator::ImplicitApply,
            },
            None => InfixOperator::ImplicitApply,
        }
    }
}

impl<'a> SuffixOperation<'a> {
    /// Returns the operand.
    pub fn left(&self) -> (result: Option<ExpressionRef<'a>>)
        ensures
            result == expression_of(self.node, 0),
            result.is_some() ==> result.unwrap().node().size() < self.node.size(),
    {
        self.node.find_expression(0)
    }

    /// Returns the operator token of this operation.
    pub fn operator_token(&self) -> (result: Option<&'a Token>)
        ensures
            result == token_of(self.node, TokenFilter::SuffixOperator),
    {
        self.node.find_token(TokenFilter::SuffixOperator)
    }

    /// Returns the operator of this operation.
    pub fn operator(&self) -> (result: Option<SuffixOperator>)
        ensures
            result == suffix_operator_in(self.node),
            result.is_some() == token_of(self.node, TokenFilter::SuffixOperator).is_some(),
    {
        match self.node.find_token(TokenFilter::SuffixOperator) {
            Some(token) => SuffixOperator::try_from(token.kind),
            None => None,
        }
    }
}

impl<'a> Interpolation<'a> {
    /// Returns the `\(`, if it is there.
    pub fn interpolation_token_start(&self) -> (result: Option<&'a Token>)
        ensures
            result == token_of(self.node, TokenFilter::Kind(Kind::TOKEN_INTERPOLATION_START)),
    {
        self.node.find_token(TokenFilter::Kind(Kind::TOKEN_INTERPOLATION_START))
    }

    /// Returns the expression of the interpolation, if there is one.
    pub fn expression(&self) -> (result: Option<ExpressionRef<'a>>)
        ensures
            result == expression_of(self.node, 0),
            result.is_some() ==> result.unwrap().node().size() < self.node.size(),
    {
        self.node.find_expression(0)
    }

    /// Returns the `)` that ends the interpolation, if it is there.
    pub fn interpolation_token_end(&self) -> (result: Option<&'a Token>)
        ensures
            result == token_of(self.node, TokenFilter::Kind(Kind::TOKEN_INTERPOLATION_END)),
    {
        self.node.find_token(TokenFilter::Kind(Kind::TOKEN_INTERPOLATION_END))
    }
}

impl<'a> Island<'a> {
    /// Returns the header of the island, if it has one.
    pub fn header(&self) -> (result: Option<IslandHeader<'a>>)
        ensures
            result.is_some() == node_of(self.node, Kind::NODE_ISLAND_HEADER).is_some(),
            result.is_some() ==> result.unwrap().node == node_of(
                self.node,
                Kind::NODE_ISLAND_HEADER,
            ).unwrap() && result.unwrap().node.size() < self.node.size(),
    {
        match self.node.find_node(Kind::NODE_ISLAND_HEADER) {
            Some(node) => Some(IslandHeader { node }),
            None => None,
        }
    }
}

impl<'a> Bind<'a> {
    /// Returns the `@`, if it is there.
    pub fn token_at(&self) -> (result: Option<&'a Token>)
        ensures
            result == token_of(self.node, TokenFilter::Kind(Kind::TOKEN_AT)),
    {
        self.node.find_token(TokenFilter::Kind(Kind::TOKEN_AT))
    }

    /// Returns the expression that stands where the identifier belongs, if
    /// there is one.
    pub fn identifier(&self) -> (result: Option<ExpressionRef<'a>>)
        ensures
            result == expression_of(self.node, 0),
            result.is_some() ==> result.unwrap().node().size() < self.node.size(),
    {
        self.node.find_expression(0)
    }
}

/// The value of the identifier that a node is: plain where the first token
/// below it that is no trivia is a plain identifier, quoted otherwise.
pub open spec fn identifier_value<'a>(node: &'a Node) -> IdentifierValueRef<'a> {
    match first_leaf(node.children@, 0) {
        Some(token) => if token.kind == Kind::TOKEN_IDENTIFIER {
            IdentifierValueRef::Plain(&token)
        } else {
            IdentifierValueRef::Quoted(IdentifierQuoted { node })
        },
        None => IdentifierValueRef::Quoted(IdentifierQuoted { node }),
    }
}

impl<'a> Identifier<'a> {
    /// Returns the value of this identifier: a plain identifier token or a
    /// quoted identifier.
    pub fn value(&self) -> (result: IdentifierValueRef<'a>)
        ensures
            result == identifier_value(self.node),
    {
        match self.node.first_token() {
            Some(token) => {
                if matches!(token.kind, Kind::TOKEN_IDENTIFIER) {
                    IdentifierValueRef::Plain(token)
                } else {
                    IdentifierValueRef::Quoted(IdentifierQuoted { node: self.node })
                }
            },
            None => IdentifierValueRef::Quoted(IdentifierQuoted { node: self.node }),
        }
    }
}

impl<'a> Integer<'a> {
    /// Returns the token that holds the digits, if it is there.
    pub fn token_integer(&self) -> (result: Option<&'a Token>)
        ensures
            result == token_of(self.node, TokenFilter::Kind(Kind::TOKEN_INTEGER)),
    {
        self.node.find_token(TokenFilter::Kind(Kind::TOKEN_INTEGER))
    }
}

impl<'a> Float<'a> {
    /// Returns the token that holds the digits, if it is there.
    pub fn token_float(&self) -> (result: Option<&'a Token>)
        ensures
            result == token_of(self.node, TokenFilter::Kind(Kind::TOKEN_FLOAT)),
    {
        self.node.find_token(TokenFilter::Kind(Kind::TOKEN_FLOAT))
    }
}

impl<'a> If<'a> {
    /// Returns the keyword `if`, if it is there.
    pub fn token_if(&self) -> (result: Option<&'a Token>)
        ensures
            result == token_of(self.node, TokenFilter::Kind(Kind::TOKEN_KEYWORD_IF)),
    {
        self.node.find_token(TokenFilter::Kind(Kind::TOKEN_KEYWORD_IF))
    }

    /// Returns the condition.
    pub fn condition(&self) -> (result: Option<ExpressionRef<'a>>)
        ensures
            result == expression_of(self.node, 0),
            result.is_some() ==> result.unwrap().node().size() < self.node.size(),
    {
        self.node.find_expression(0)
    }

    /// Returns the keyword `then`, if it is there.
    pub fn token_then(&self) -> (result: Option<&'a Token>)
        ensures
            result == token_of(self.node, TokenFilter::Kind(Kind::TOKEN_KEYWORD_THEN)),
    {
        self.node.find_token(TokenFilter::Kind(Kind::TOKEN_KEYWORD_THEN))
    }

    /// Returns what the expression is where the condition holds.
    pub fn consequence(&self) -> (result: Option<ExpressionRef<'a>>)
        ensures
            result == expression_of(self.node, 1),
            result.is_some() ==> result.unwrap().node().size() < self.node.size(),
    {
        self.node.find_expression(1)
    }

    /// Returns the keyword `else`, if it is there.
    pub fn token_else(&self) -> (result: Option<&'a Token>)
        ensures
            result == token_of(self.node, TokenFilter::Kind(Kind::TOKEN_KEYWORD_ELSE)),
    {
        self.node.find_token(TokenFilter::Kind(Kind::TOKEN_KEYWORD_ELSE))
    }

    /// Returns what the expression is where the condition does not hold.
    pub fn alternative(&self) -> (result: Option<ExpressionRef<'a>>)
        ensures
            result == expression_of(self.node, 2),
            result.is_some() ==> result.unwrap().node().size() < self.node.size(),
    {
        self.node.find_expression(2)
    }
}

} // verus!
