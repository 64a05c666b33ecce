//! Validation: the structural faults of an expression, found after
//! parsing and handed out as reports. Validation never fails; it
//! accumulates.

use vstd::prelude::*;
use vstd::string::StringExecFns;

use crate::items::list_items;
use crate::kind::{description_of, Kind};
use crate::node::{
    expression_of, identifier_value, infix_operator_in, lemma_expression_smaller,
    lemma_node_smaller, node_of, token_of, Attributes, Bind, ExpressionRef,
    Identifier, IdentifierQuoted, IdentifierValueRef, If, InfixOperation, Interpolation, Island,
    List, Parenthesis, Path, PrefixOperation, Rune, SString, SuffixOperation,
    TokenFilter,
};
use crate::operator::InfixOperator;
use crate::report::{
    error, lemma_views_of_pushed, primary, report_views, secondary, LabelView, PointKind, Report,
    ReportView,
};
use crate::text::{
    characters, consume_while, control, encoded_len, is_control, is_whitespace, scan_while,
    utf8_len, whitespace, CharClass,
};
use crate::tree::{Element, Node, Span};

verus! {

/// The three pairs of delimiters that enclose an expression.
#[derive(Debug, Clone, Copy, PartialEq, Eq, Structural)]
pub enum Enclosure {
    Parenthesis,
    List,
    Attributes,
}

impl Enclosure {
    /// The kind of the token that opens the enclosure.
    pub open spec fn opener(self) -> Kind {
        match self {
            Enclosure::Parenthesis => Kind::TOKEN_PARENTHESIS_LEFT,
            Enclosure::List => Kind::TOKEN_BRACKET_LEFT,
            Enclosure::Attributes => Kind::TOKEN_CURLYBRACE_LEFT,
        }
    }

    /// The kind of the token that closes the enclosure.
    pub open spec fn closer(self) -> Kind {
        match self {
            Enclosure::Parenthesis => Kind::TOKEN_PARENTHESIS_RIGHT,
            Enclosure::List => Kind::TOKEN_BRACKET_RIGHT,
            Enclosure::Attributes => Kind::TOKEN_CURLYBRACE_RIGHT,
        }
    }

    /// The title of the report on an enclosure left open.
    pub open spec fn title(self) -> Seq<char> {
        match self {
            Enclosure::Parenthesis => "unclosed parenthesis"@,
            Enclosure::List => "unclosed list"@,
            Enclosure::Attributes => "unclosed attributes"@,
        }
    }

    /// What is said where the closing token is missing.
    pub open spec fn expected(self) -> Seq<char> {
        match self {
            Enclosure::Parenthesis => "expected ')' here"@,
            Enclosure::List => "expected ']' here"@,
            Enclosure::Attributes => "expected '}' here"@,
        }
    }

    /// What is said at the opening token.
    pub open spec fn unclosed(self) -> Seq<char> {
        match self {
            Enclosure::Parenthesis => "unclosed '(' here"@,
            Enclosure::List => "unclosed '[' here"@,
            Enclosure::Attributes => "unclosed '{' here"@,
        }
    }
}

/// The report on an enclosure whose closing token is missing: it points at
/// the end of the node, and at the opening token where that is there. None
/// where the closing token is there.
pub open spec fn unclosed_reports(node: &Node, enclosure: Enclosure) -> Seq<ReportView> {
    if token_of(node, TokenFilter::Kind(enclosure.closer())).is_some() {
        Seq::empty()
    } else {
        let at_end = error(enclosure.title()).label(
            primary(Span { start: node.span.end, end: node.span.end }, enclosure.expected()),
        );
        seq![
            match token_of(node, TokenFilter::Kind(enclosure.opener())) {
                Some(opener) => at_end.label(secondary(opener.span, enclosure.unclosed())),
                None => at_end,
            },
        ]
    }
}

/// The report on a parenthesis that holds no expression: it points behind
/// the `(`, or at the start of the node where there is no `(`.
pub open spec fn missing_inner(node: &Node) -> ReportView {
    let at = match token_of(node, TokenFilter::Kind(Kind::TOKEN_PARENTHESIS_LEFT)) {
        Some(opener) => opener.span.end,
        None => node.span.start,
    };
    error("parenthesis without inner expression"@).label(
        primary(Span { start: at, end: at }, "expeted an expression here"@),
    )
}

/// The report on a list whose inner expression is a sequence written with
/// `;`.
pub open spec fn sequence_reports(node: &Node) -> Seq<ReportView> {
    match expression_of(node, 0) {
        Some(ExpressionRef::InfixOperation(operation)) => if infix_operator_in(operation.node)
            == InfixOperator::Sequence {
            seq![
                error("inner expression of list cannot be sequence"@).label(
                    primary(operation.node.span, "consider parenthesizing this"@),
                ),
            ]
        } else {
            Seq::empty()
        },
        _ => Seq::empty(),
    }
}

/// Whether an operator is one of the two that apply a function with an
/// operator token: `<|` and `|>`.
pub open spec fn applies(operator: InfixOperator) -> bool {
    operator == InfixOperator::Apply || operator == InfixOperator::Pipe
}

/// The report on an operand of `<|` or `|>` that is an operation of the
/// other of the two.
pub open spec fn association_report(node: &Node, operand: Option<ExpressionRef>) -> Seq<
    ReportView,
> {
    match operand {
        Some(ExpressionRef::InfixOperation(operation)) => if applies(infix_operator_in(node))
            && applies(infix_operator_in(operation.node)) && infix_operator_in(operation.node)
            != infix_operator_in(node) {
            seq![
                error("application and pipe operators do not associate"@).label(
                    secondary(node.span, "this"@),
                ).label(primary(operation.node.span, "does not associate with this"@)),
            ]
        } else {
            Seq::empty()
        },
        _ => Seq::empty(),
    }
}

/// The reports on the operands of `<|` and `|>`, the left one first.
pub open spec fn association_reports(node: &Node) -> Seq<ReportView> {
    association_report(node, expression_of(node, 0)) + association_report(
        node,
        expression_of(node, 1),
    )
}

/// The report on an if-else without its alternative, which every if-else
/// must have: it points at the end of the node, and at the `if` where that
/// is there. None where the alternative is there.
pub open spec fn missing_else_reports(node: &Node) -> Seq<ReportView> {
    if expression_of(node, 2).is_some() {
        Seq::empty()
    } else {
        let at_end = error("if without else"@).label(
            primary(Span { start: node.span.end, end: node.span.end }, "expected 'else' here"@),
        );
        seq![
            match token_of(node, TokenFilter::Kind(Kind::TOKEN_KEYWORD_IF)) {
                Some(keyword) => at_end.label(secondary(keyword.span, "'if' without 'else' here"@)),
                None => at_end,
            },
        ]
    }
}

/// The report on a bind to what is no identifier.
pub open spec fn invalid_bind(bound: &Node) -> ReportView {
    error("invalid bind"@).label(
        primary(
            bound.span,
            "expected an identifier, not "@ + match description_of(bound.kind) {
                Some(words) => words,
                None => Seq::empty(),
            },
        ),
    )
}

/// Whether a text holds a control character.
pub open spec fn contains_control(text: Seq<char>) -> bool {
    exists|index: int| 0 <= index < text.len() && control(#[trigger] text[index])
}

/// Where the first content with a control character stands among
/// children, searched from `from` on.
pub open spec fn control_content(children: Seq<Element>, from: int) -> Option<Span>
    decreases children.len() - from,
{
    if from < 0 || from >= children.len() {
        None
    } else {
        match children[from] {
            Element::Token(token) => if token.kind == Kind::TOKEN_CONTENT && contains_control(
                token.text@,
            ) {
                Some(token.span)
            } else {
                control_content(children, from + 1)
            },
            Element::Node(_) => control_content(children, from + 1),
        }
    }
}

/// The stringlikes that may hold no control character, runes apart.
#[derive(Debug, Clone, Copy, PartialEq, Eq, Structural)]
pub enum Stringlike {
    Island,
    Path,
    Identifier,
}

impl Stringlike {
    /// The title of the report on a stringlike.
    pub open spec fn title(self) -> Seq<char> {
        match self {
            Stringlike::Island => "invalid island"@,
            Stringlike::Path => "invalid path"@,
            Stringlike::Identifier => "invalid identifier"@,
        }
    }

    /// What is said at the content that holds a control character.
    pub open spec fn at_content(self) -> Seq<char> {
        match self {
            Stringlike::Island => "here"@,
            Stringlike::Path => "contains control characters"@,
            Stringlike::Identifier => "contains control characters"@,
        }
    }

    /// The remark on control characters.
    pub open spec fn remark(self) -> (PointKind, Seq<char>) {
        match self {
            Stringlike::Island => (
                PointKind::Tip,
                "islands cannot contain control characters (non-escaped newlines, tabs, ...)"@,
            ),
            Stringlike::Path => (
                PointKind::Help,
                "paths cannot contain control characters (non-escaped newlines, tabs, ...)"@,
            ),
            Stringlike::Identifier => (
                PointKind::Help,
                "quoted identifiers cannot contain control characters (non-escaped newlines, tabs, ...)"@,
            ),
        }
    }
}

/// The report on the first content of a stringlike that holds a control
/// character; none where no content holds one.
pub open spec fn control_reports(node: &Node, flavor: Stringlike) -> Seq<ReportView> {
    match control_content(node.children@, 0) {
        Some(span) => seq![
            error(flavor.title()).label(primary(span, flavor.at_content())).point(
                flavor.remark().0,
                flavor.remark().1,
            ),
        ],
        None => Seq::empty(),
    }
}

/// Whether the characters from `from` up to `to` are all whitespace.
pub open spec fn blank(text: Seq<char>, from: int, to: int) -> bool {
    forall|index: int| from <= index < to ==> whitespace(#[trigger] text[index])
}

/// Where the stretch from `from` up to `to` starts once the whitespace at
/// its start is taken off.
pub open spec fn trimmed_start(text: Seq<char>, from: int, to: int) -> int
    decreases to - from,
{
    if 0 <= from < to <= text.len() && whitespace(text[from]) {
        trimmed_start(text, from + 1, to)
    } else {
        from
    }
}

/// Where the stretch from `from` up to `to` ends once the whitespace at its
/// end is taken off.
pub open spec fn trimmed_end(text: Seq<char>, from: int, to: int) -> int
    decreases to - from,
{
    if 0 <= from < to <= text.len() && whitespace(text[to - 1]) {
        trimmed_end(text, from, to - 1)
    } else {
        to
    }
}

/// Where the line that starts at `from` ends: at the next line feed, or at
/// the end of the text.
pub open spec fn line_end(text: Seq<char>, from: int) -> int {
    scan_while(text, from, CharClass::NotNewline)
}

/// What the scan of a string has found so far.
#[derive(Debug, Clone, Copy)]
pub struct StringScan {
    /// Whether two different characters of whitespace were found in
    /// indentation.
    pub mixed: bool,
    /// Whether some content of the string holds a line feed.
    pub multiline: bool,
    /// What stands on the first line of the string, if anything does.
    pub first_line: Option<Span>,
    /// What stands on the last line of the string, if anything does.
    pub last_line: Option<Span>,
    /// The character that lines are indented with.
    pub indentation: Option<char>,
    /// Where the part before the one at hand stands, if there is one.
    pub previous: Option<Span>,
}

/// Where a content stands, how it is placed among the parts of its string,
/// and what follows it.
#[derive(Debug, Clone, Copy)]
pub struct ContentPlace {
    /// Where the content stands in the source.
    pub span: Span,
    /// Whether no part but delimiters stands before the content.
    pub first: bool,
    /// Whether no part but delimiters stands after the content.
    pub last: bool,
    /// Where the part after the content stands, if it is no delimiter.
    pub next: Option<Span>,
}

/// The state before any part of a string is read.
pub open spec fn initial_scan() -> StringScan {
    StringScan {
        mixed: false,
        multiline: false,
        first_line: None,
        last_line: None,
        indentation: None,
        previous: None,
    }
}

/// The scan of the whitespace that a line starts with, from `from` on:
/// the first such character of the string is what lines are indented
/// with, and every other one must be the same.
pub open spec fn scan_indentation(scan: StringScan, text: Seq<char>, from: int, to: int)
    -> StringScan
    decreases to - from,
{
    if 0 <= from < to <= text.len() && whitespace(text[from]) {
        scan_indentation(
            match scan.indentation {
                None => StringScan { indentation: Some(text[from]), ..scan },
                Some(known) => StringScan { mixed: scan.mixed || known != text[from], ..scan },
            },
            text,
            from + 1,
            to,
        )
    } else {
        scan
    }
}

/// The scan of the line of a content that runs from `from` up to `to`.
///
/// The very first line of a string, if it is not blank, is what stands on
/// the first line; if all of the content is blank and a part that is no
/// delimiter follows, that part is. The very last line likewise: if it is
/// not blank it is what stands on the last line, from its first character
/// that is no whitespace on; if it is blank, its content holds no line feed
/// and a part stands before it, that part is. Every other line is scanned
/// for its indentation, but for the first line after another part.
pub open spec fn scan_line(
    scan: StringScan,
    text: Seq<char>,
    place: ContentPlace,
    from: int,
    to: int,
) -> StringScan {
    let firstest = place.first && from == 0;
    let lastest = place.last && to >= text.len();
    let found = if firstest {
        if !blank(text, from, to) {
            StringScan {
                first_line: Some(
                    Span::clamped_at(
                        place.span.start,
                        utf8_len(text.subrange(from, trimmed_end(text, from, to))),
                    ),
                ),
                ..scan
            }
        } else if blank(text, 0, text.len() as int) && place.next.is_some() {
            StringScan { first_line: place.next, ..scan }
        } else {
            scan
        }
    } else if lastest {
        if !blank(text, from, to) {
            StringScan {
                last_line: Some(
                    Span::clamped_at_end(
                        place.span.end,
                        utf8_len(text.subrange(trimmed_start(text, from, to), to)),
                    ),
                ),
                ..scan
            }
        } else if line_end(text, 0) >= text.len() && scan.previous.is_some() {
            StringScan { last_line: scan.previous, ..scan }
        } else {
            scan
        }
    } else {
        scan
    };
    if !(firstest || lastest) && !(scan.previous.is_some() && from == 0) {
        scan_indentation(found, text, from, to)
    } else {
        found
    }
}

/// The scan of the lines of a content from the line on that starts at
/// `from`.
pub open spec fn scan_lines(scan: StringScan, text: Seq<char>, place: ContentPlace, from: int)
    -> StringScan
    decreases text.len() - from,
{
    let to = line_end(text, from);
    if 0 <= from <= to < text.len() {
        scan_lines(scan_line(scan, text, place, from, to), text, place, to + 1)
    } else {
        scan_line(scan, text, place, from, to)
    }
}

/// The scan of a content: that of its lines; after it, the content is the
/// part before, and the string is multiline if the content holds a line
/// feed.
pub open spec fn scan_content(scan: StringScan, text: Seq<char>, place: ContentPlace)
    -> StringScan {
    let scanned = scan_lines(scan, text, place, 0);
    StringScan {
        previous: Some(place.span),
        multiline: scanned.multiline || line_end(text, 0) < text.len(),
        ..scanned
    }
}

/// The scan of an interpolation: where it is the first part of its
/// string it is what stands on the first line, where it is the last part
/// and not the first, what stands on the last line.
pub open spec fn scan_interpolation(scan: StringScan, span: Span, last: bool) -> StringScan {
    if scan.previous.is_none() {
        StringScan { first_line: Some(span), previous: Some(span), ..scan }
    } else if last {
        StringScan { last_line: Some(span), previous: Some(span), ..scan }
    } else {
        StringScan { previous: Some(span), ..scan }
    }
}

/// Whether a child is a part of a stringlike: a token, or an
/// interpolation.
pub open spec fn is_part(child: Element) -> bool {
    match child {
        Element::Token(_) => true,
        Element::Node(node) => node.kind == Kind::NODE_INTERPOLATION,
    }
}

/// Whether a child is a delimiter of a stringlike: a token that is no
/// content.
pub open spec fn is_delimiter(child: Element) -> bool {
    match child {
        Element::Token(token) => token.kind != Kind::TOKEN_CONTENT,
        Element::Node(_) => false,
    }
}

/// Where the next part stands among children, searched from `from` on.
pub open spec fn part_index(children: Seq<Element>, from: int) -> Option<int>
    decreases children.len() - from,
{
    if from < 0 || from >= children.len() {
        None
    } else if is_part(children[from]) {
        Some(from)
    } else {
        part_index(children, from + 1)
    }
}

/// How the part at `index` is placed: whether only delimiters follow it,
/// and where the part after it stands if that is no delimiter.
pub open spec fn place_of(scan: StringScan, children: Seq<Element>, index: int) -> ContentPlace {
    let next = part_index(children, index + 1);
    ContentPlace {
        span: children[index].span_of(),
        first: scan.previous.is_none(),
        last: next.is_none() || is_delimiter(children[next.unwrap()]),
        next: if next.is_some() && !is_delimiter(children[next.unwrap()]) {
            Some(children[next.unwrap()].span_of())
        } else {
            None
        },
    }
}

/// The scan of the parts of a string from the child at `from` on.
pub open spec fn scan_parts(scan: StringScan, children: Seq<Element>, from: int) -> StringScan
    decreases children.len() - from,
{
    if from < 0 || from >= children.len() {
        scan
    } else {
        let place = place_of(scan, children, from);
        scan_parts(
            match children[from] {
                Element::Token(token) => if token.kind == Kind::TOKEN_CONTENT {
                    scan_content(scan, token.text@, place)
                } else {
                    scan
                },
                Element::Node(node) => if node.kind == Kind::NODE_INTERPOLATION {
                    scan_interpolation(scan, node.span, place.last)
                } else {
                    scan
                },
            },
            children,
            from + 1,
        )
    }
}

/// One label, if there is a span to put it at.
pub open spec fn optional_label(span: Option<Span>, text: Seq<char>) -> Seq<LabelView> {
    match span {
        Some(span) => seq![primary(span, text)],
        None => Seq::empty(),
    }
}

/// The labels of the report on a string: one at the whole string where its
/// indentation mixes different whitespace; and, where the string is
/// multiline, one at what stands on its first line and one at what stands
/// on its last line, which both must be empty.
pub open spec fn string_labels(node: &Node) -> Seq<LabelView> {
    let scan = scan_parts(initial_scan(), node.children@, 0);
    let mixed = if scan.mixed {
        seq![
            primary(node.span, "strings cannot mix different kinds of whitespace in indentation"@),
        ]
    } else {
        Seq::empty()
    };
    if scan.multiline {
        mixed + optional_label(
            scan.first_line,
            "multiline strings' first and last lines must be empty"@,
        ) + optional_label(scan.last_line, "multiline strings' first and last lines must be empty"@)
    } else {
        mixed
    }
}

/// The report on a string, if there is anything to report.
pub open spec fn string_reports(node: &Node) -> Seq<ReportView> {
    if string_labels(node).len() > 0 {
        seq![error("invalid string"@).labelled(string_labels(node))]
    } else {
        Seq::empty()
    }
}

/// Whether the content of a rune is one character, or one escape: a `\`
/// and the character after it.
pub open spec fn rune_sized(text: Seq<char>) -> bool {
    text.len() == 1 || (text.len() == 2 && text[0] == '\\')
}

/// What the scan of a rune has found so far.
pub struct RuneScan {
    /// Whether a content of a wrong size was reported.
    pub size: bool,
    /// Whether a control character was reported.
    pub control: bool,
    /// Whether an interpolation was reported.
    pub interpolation: bool,
    /// Whether the rune holds anything.
    pub filled: bool,
    /// The labels of the report so far.
    pub labels: Seq<LabelView>,
}

/// The scan of a content of a rune: its size and its characters, each
/// reported once per rune.
pub open spec fn scan_rune_content(scan: RuneScan, span: Span, text: Seq<char>) -> RuneScan {
    let sized = if !scan.size && !rune_sized(text) {
        RuneScan {
            size: true,
            labels: scan.labels.push(primary(span, "invalid rune literal len"@)),
            ..scan
        }
    } else {
        scan
    };
    let cleared = if !sized.control && contains_control(text) {
        RuneScan {
            control: true,
            labels: sized.labels.push(
                primary(
                    span,
                    "runes cannot contain control characters (non-escaped newlines, tabs, ...)"@,
                ),
            ),
            ..sized
        }
    } else {
        sized
    };
    RuneScan { filled: true, ..cleared }
}

/// The scan of the parts of a rune from the child at `from` on. The first
/// interpolation is reported.
pub open spec fn scan_rune(scan: RuneScan, children: Seq<Element>, from: int) -> RuneScan
    decreases children.len() - from,
{
    if from < 0 || from >= children.len() {
        scan
    } else {
        scan_rune(
            match children[from] {
                Element::Token(token) => if token.kind == Kind::TOKEN_CONTENT {
                    scan_rune_content(scan, token.span, token.text@)
                } else {
                    scan
                },
                Element::Node(node) => if node.kind == Kind::NODE_INTERPOLATION
                    && !scan.interpolation {
                    RuneScan {
                        interpolation: true,
                        filled: true,
                        labels: scan.labels.push(
                            primary(node.span, "runes cannot contain interpolation"@),
                        ),
                        ..scan
                    }
                } else {
                    scan
                },
            },
            children,
            from + 1,
        )
    }
}

/// The labels of the report on a rune: a rune holds one character or one
/// escape, no control character and no interpolation, and it is not empty.
pub open spec fn rune_labels(node: &Node) -> Seq<LabelView> {
    let scan = scan_rune(
        RuneScan {
            size: false,
            control: false,
            interpolation: false,
            filled: false,
            labels: Seq::empty(),
        },
        node.children@,
        0,
    );
    if scan.filled {
        scan.labels
    } else {
        scan.labels.push(primary(node.span, "runes cannot be empty"@))
    }
}

/// The report on a rune, if there is anything to report.
pub open spec fn rune_reports(node: &Node) -> Seq<ReportView> {
    if rune_labels(node).len() > 0 {
        seq![error("invalid rune"@).labelled(rune_labels(node))]
    } else {
        Seq::empty()
    }
}

/// The reports on an expression, in the order in which they are found.
///
/// A parenthesis reports on its inner expression, or that it has none, and
/// then that it is not closed. A list reports an inner sequence written
/// with `;`, then on its items, then that it is not closed. Attributes
/// report that they are not closed. An operation reports on its operands,
/// an infix operation also where `<|` and `|>` meet. A stringlike reports
/// on the expressions of its interpolations and then on itself, a rune on
/// itself alone. A bind reports on its identifier, or that it binds to
/// something else. An if-else reports on its three expressions, and that
/// it has no alternative.
pub open spec fn reports(expression: ExpressionRef) -> Seq<ReportView>
    decreases expression.node().size(), 2nat, 0nat,
{
    let node = expression.node();
    match expression {
        ExpressionRef::Parenthesis(_) => (if expression_of(node, 0).is_some() {
            operand_reports(node, 0)
        } else {
            seq![missing_inner(node)]
        }) + unclosed_reports(node, Enclosure::Parenthesis),
        ExpressionRef::List(list) => sequence_reports(node) + items_reports(
            list_items(list),
            node.size(),
        ) + unclosed_reports(node, Enclosure::List),
        ExpressionRef::Attributes(_) => unclosed_reports(node, Enclosure::Attributes),
        ExpressionRef::PrefixOperation(_) | ExpressionRef::SuffixOperation(_) => operand_reports(
            node,
            0,
        ),
        ExpressionRef::InfixOperation(_) => operand_reports(node, 0) + operand_reports(node, 1)
            + association_reports(node),
        ExpressionRef::Path(_) => interpolation_reports(node.children@, node.size())
            + control_reports(node, Stringlike::Path),
        ExpressionRef::Bind(_) => match expression_of(node, 0) {
            Some(ExpressionRef::Identifier(_)) => operand_reports(node, 0),
            Some(other) => if other.node().kind != Kind::NODE_ERROR {
                seq![invalid_bind(other.node())]
            } else {
                Seq::empty()
            },
            None => Seq::empty(),
        },
        ExpressionRef::Identifier(_) => match identifier_value(node) {
            IdentifierValueRef::Quoted(_) => interpolation_reports(node.children@, node.size())
                + control_reports(node, Stringlike::Identifier),
            IdentifierValueRef::Plain(_) => Seq::empty(),
        },
        ExpressionRef::SString(_) => interpolation_reports(node.children@, node.size())
            + string_reports(node),
        ExpressionRef::Rune(_) => rune_reports(node),
        ExpressionRef::Island(_) => match node_of(node, Kind::NODE_ISLAND_HEADER) {
            Some(header) => (if header.size() < node.size() {
                interpolation_reports(header.children@, header.size())
            } else {
                Seq::empty()
            }) + control_reports(header, Stringlike::Island),
            None => Seq::empty(),
        },
        ExpressionRef::If(_) => operand_reports(node, 0) + operand_reports(node, 1)
            + operand_reports(node, 2) + missing_else_reports(node),
        ExpressionRef::Error(_) | ExpressionRef::Integer(_) | ExpressionRef::Float(_) => Seq::empty(),
    }
}

/// The reports on the expression among the children of a node that comes
/// after `skip` others; none where there is no such expression.
pub open spec fn operand_reports(node: &Node, skip: nat) -> Seq<ReportView>
    decreases node.size(), 0nat, 0nat,
{
    match expression_of(node, skip) {
        Some(operand) => {
            proof {
                lemma_expression_smaller(node, skip);
            }
            reports(operand)
        },
        None => Seq::empty(),
    }
}

/// The reports on expressions that each weigh less than a limit, one
/// after the other.
pub open spec fn items_reports(items: Seq<ExpressionRef>, limit: nat) -> Seq<ReportView>
    decreases limit, 1nat, items.len(),
{
    if items.len() == 0 {
        Seq::empty()
    } else {
        items_reports(items.drop_last(), limit) + (if items.last().node().size() < limit {
            reports(items.last())
        } else {
            Seq::empty()
        })
    }
}

/// The reports on the expressions of the interpolations among children
/// that each weigh less than a limit, one after the other.
pub open spec fn interpolation_reports(children: Seq<Element>, limit: nat) -> Seq<ReportView>
    decreases limit, 1nat, children.len(),
{
    if children.len() == 0 {
        Seq::empty()
    } else {
        interpolation_reports(children.drop_last(), limit) + match children.last() {
            Element::Node(node) => if node.kind == Kind::NODE_INTERPOLATION && node.size()
                < limit {
                operand_reports(&node, 0)
            } else {
                Seq::empty()
            },
            Element::Token(_) => Seq::empty(),
        }
    }
}

impl Enclosure {
    /// Returns the kind of the token that opens the enclosure.
    fn opener_kind(self) -> (result: Kind)
        ensures
            result == self.opener(),
    {
        match self {
            Enclosure::Parenthesis => Kind::TOKEN_PARENTHESIS_LEFT,
            Enclosure::List => Kind::TOKEN_BRACKET_LEFT,
            Enclosure::Attributes => Kind::TOKEN_CURLYBRACE_LEFT,
        }
    }

    /// Returns the kind of the token that closes the enclosure.
    fn closer_kind(self) -> (result: Kind)
        ensures
            result == self.closer(),
    {
        match self {
            Enclosure::Parenthesis => Kind::TOKEN_PARENTHESIS_RIGHT,
            Enclosure::List => Kind::TOKEN_BRACKET_RIGHT,
            Enclosure::Attributes => Kind::TOKEN_CURLYBRACE_RIGHT,
        }
    }

    /// Returns the title of the report and what is said at the end of the
    /// node and at the opening token.
    fn words(self) -> (result: (&'static str, &'static str, &'static str))
        ensures
            result.0@ == self.title(),
            result.1@ == self.expected(),
            result.2@ == self.unclosed(),
    {
        match self {
            Enclosure::Parenthesis => (
                "unclosed parenthesis",
                "expected ')' here",
                "unclosed '(' here",
            ),
            Enclosure::List => ("unclosed list", "expected ']' here", "unclosed '[' here"),
            Enclosure::Attributes => (
                "unclosed attributes",
                "expected '}' here",
                "unclosed '{' here",
            ),
        }
    }
}

impl Stringlike {
    /// Returns the title of the report, what is said at the content, and
    /// the remark.
    fn words(self) -> (result: (&'static str, &'static str, PointKind, &'static str))
        ensures
            result.0@ == self.title(),
            result.1@ == self.at_content(),
            result.2 == self.remark().0,
            result.3@ == self.remark().1,
    {
        match self {
            Stringlike::Island => (
                "invalid island",
                "here",
                PointKind::Tip,
                "islands cannot contain control characters (non-escaped newlines, tabs, ...)",
            ),
            Stringlike::Path => (
                "invalid path",
                "contains control characters",
                PointKind::Help,
                "paths cannot contain control characters (non-escaped newlines, tabs, ...)",
            ),
            Stringlike::Identifier => (
                "invalid identifier",
                "contains control characters",
                PointKind::Help,
                "quoted identifiers cannot contain control characters (non-escaped newlines, tabs, ...)",
            ),
        }
    }
}

/// A report with labels added one by one has them all, in their order.
pub proof fn lemma_labelled_one_more(report: ReportView, labels: Seq<LabelView>, label: LabelView)
    ensures
        report.labelled(labels).label(label) == report.labelled(labels.push(label)),
        report.labelled(Seq::empty()) == report,
{
    assert((report.labels + labels).push(label) =~= report.labels + labels.push(label));
    assert(report.labels + Seq::<LabelView>::empty() =~= report.labels);
}

/// Appends a report.
fn emit(to: &mut Vec<Report>, report: Report)
    ensures
        report_views(final(to)@) == report_views(old(to)@).push(report@),
        report_views(final(to)@) == report_views(old(to)@) + seq![report@],
{
    proof {
        lemma_views_of_pushed(to@, report);
        assert(report_views(to@).push(report@) =~= report_views(to@) + seq![report@]);
    }
    to.push(report);
}

/// Appends the report on an enclosure that is not closed, if it is not.
fn validate_closing(node: &Node, enclosure: Enclosure, to: &mut Vec<Report>)
    ensures
        report_views(final(to)@) == report_views(old(to)@) + unclosed_reports(node, enclosure),
{
    if node.find_token(TokenFilter::Kind(enclosure.closer_kind())).is_none() {
        let words = enclosure.words();
        let report = Report::error(words.0).primary(Span::empty(node.span.end), words.1);
        let report = match node.find_token(TokenFilter::Kind(enclosure.opener_kind())) {
            Some(opener) => report.secondary(opener.span, words.2),
            None => report,
        };
        emit(to, report);
    } else {
        assert(report_views(to@) + Seq::<ReportView>::empty() =~= report_views(to@));
    }
}

/// Whether a text holds a control character.
fn has_control(text: &str) -> (result: bool)
    ensures
        result == contains_control(text@),
{
    let chars = characters(text);
    let mut index: usize = 0;
    while index < chars.len()
        invariant
            index <= chars.len(),
            chars@ == text@,
            forall|before: int| 0 <= before < index ==> !control(#[trigger] chars@[before]),
        decreases chars.len() - index,
    {
        if is_control(chars[index]) {
            return true;
        }
        index += 1;
    }
    false
}

/// Returns where the first content with a control character stands among
/// the children of a node.
fn find_control_content(node: &Node) -> (result: Option<Span>)
    ensures
        result == control_content(node.children@, 0),
{
    let mut index: usize = 0;
    while index < node.children.len()
        invariant
            index <= node.children.len(),
            control_content(node.children@, 0) == control_content(node.children@, index as int),
        decreases node.children.len() - index,
    {
        match &node.children[index] {
            Element::Token(token) => {
                if matches!(token.kind, Kind::TOKEN_CONTENT) && has_control(token.text.as_str()) {
                    return Some(token.span);
                }
            },
            Element::Node(_) => {},
        }
        index += 1;
    }
    None
}

/// Appends the report on the first content of a stringlike that holds a
/// control character, if there is one.
fn validate_content(node: &Node, flavor: Stringlike, to: &mut Vec<Report>)
    ensures
        report_views(final(to)@) == report_views(old(to)@) + control_reports(node, flavor),
{
    match find_control_content(node) {
        Some(span) => {
            let words = flavor.words();
            let mut report = Report::error(words.0).primary(span, words.1);
            match words.2 {
                PointKind::Tip => report.push_tip(words.3),
                PointKind::Help => report.push_help(words.3),
            }
            emit(to, report);
        },
        None => {
            assert(report_views(to@) + Seq::<ReportView>::empty() =~= report_views(to@));
        },
    }
}

/// Whether the characters from `from` up to `to` are all whitespace.
fn is_blank(text: &[char], from: usize, to: usize) -> (result: bool)
    requires
        from <= to <= text.len(),
    ensures
        result == blank(text@, from as int, to as int),
{
    let mut index: usize = from;
    while index < to
        invariant
            from <= index <= to <= text.len(),
            blank(text@, from as int, index as int),
        decreases to - index,
    {
        if !is_whitespace(text[index]) {
            return false;
        }
        index += 1;
    }
    true
}

/// Returns where the stretch starts once the whitespace at its start is
/// taken off.
fn trim_start(text: &[char], from: usize, to: usize) -> (result: usize)
    requires
        from <= to <= text.len(),
    ensures
        result == trimmed_start(text@, from as int, to as int),
        from <= result <= to,
{
    let mut start: usize = from;
    while start < to && is_whitespace(text[start])
        invariant
            from <= start <= to <= text.len(),
            trimmed_start(text@, from as int, to as int) == trimmed_start(
                text@,
                start as int,
                to as int,
            ),
        decreases to - start,
    {
        start += 1;
    }
    start
}

/// Returns where the stretch ends once the whitespace at its end is taken
/// off.
fn trim_end(text: &[char], from: usize, to: usize) -> (result: usize)
    requires
        from <= to <= text.len(),
    ensures
        result == trimmed_end(text@, from as int, to as int),
        from <= result <= to,
{
    let mut end: usize = to;
    while from < end && is_whitespace(text[end - 1])
        invariant
            from <= end <= to <= text.len(),
            trimmed_end(text@, from as int, to as int) == trimmed_end(
                text@,
                from as int,
                end as int,
            ),
        decreases end - from,
    {
        end -= 1;
    }
    end
}

/// Scans the whitespace that a line starts with.
fn read_indentation(scan: StringScan, text: &[char], from: usize, to: usize) -> (result:
    StringScan)
    requires
        from <= to <= text.len(),
    ensures
        result == scan_indentation(scan, text@, from as int, to as int),
{
    let mut current = scan;
    let mut at: usize = from;
    while at < to && is_whitespace(text[at])
        invariant
            from <= at <= to <= text.len(),
            scan_indentation(scan, text@, from as int, to as int) == scan_indentation(
                current,
                text@,
                at as int,
                to as int,
            ),
        decreases to - at,
    {
        let c = text[at];
        current = match current.indentation {
            None => StringScan { indentation: Some(c), ..current },
            Some(known) => StringScan { mixed: current.mixed || known != c, ..current },
        };
        at += 1;
    }
    current
}

/// Scans the line of a content that runs from `from` up to `to`.
fn read_line(scan: StringScan, text: &[char], place: ContentPlace, from: usize, to: usize)
    -> (result: StringScan)
    requires
        from <= to <= text.len(),
        utf8_len(text@) <= usize::MAX,
    ensures
        result == scan_line(scan, text@, place, from as int, to as int),
{
    let length: usize = text.len();
    let firstest = place.first && from == 0;
    let lastest = place.last && to >= length;
    let found = if firstest {
        if !is_blank(text, from, to) {
            let end = trim_end(text, from, to);
            StringScan {
                first_line: Some(Span::starting_at(place.span.start, encoded_len(text, from, end))),
                ..scan
            }
        } else if place.next.is_some() && is_blank(text, 0, length) {
            StringScan { first_line: place.next, ..scan }
        } else {
            scan
        }
    } else if lastest {
        if !is_blank(text, from, to) {
            let start = trim_start(text, from, to);
            StringScan {
                last_line: Some(Span::ending_at(place.span.end, encoded_len(text, start, to))),
                ..scan
            }
        } else if scan.previous.is_some() && consume_while(text, 0, CharClass::NotNewline)
            >= length {
            StringScan { last_line: scan.previous, ..scan }
        } else {
            scan
        }
    } else {
        scan
    };
    if !(firstest || lastest) && !(scan.previous.is_some() && from == 0) {
        read_indentation(found, text, from, to)
    } else {
        found
    }
}

/// Scans a content of a string.
fn read_content(scan: StringScan, text: &str, place: ContentPlace) -> (result: StringScan)
    ensures
        result == scan_content(scan, text@, place),
{
    let chars = characters(text);
    let length: usize = chars.len();
    let mut current = scan;
    let mut from: usize = 0;
    loop
        invariant
            from <= length == chars.len(),
            chars@ == text@,
            utf8_len(chars@) <= usize::MAX,
            scan_lines(scan, text@, place, 0) == scan_lines(current, text@, place, from as int),
        decreases length - from,
    {
        let to = consume_while(chars.as_slice(), from, CharClass::NotNewline);
        current = read_line(current, chars.as_slice(), place, from, to);
        if to >= length {
            let multiline = current.multiline || consume_while(
                chars.as_slice(),
                0,
                CharClass::NotNewline,
            ) < length;
            return StringScan { previous: Some(place.span), multiline, ..current };
        }
        from = to + 1;
    }
}

/// Returns where the next part stands among the children of a node,
/// searched from `from` on.
fn find_part(node: &Node, from: usize) -> (result: Option<usize>)
    requires
        from <= node.children.len(),
    ensures
        result.is_some() == part_index(node.children@, from as int).is_some(),
        result.is_some() ==> result.unwrap() == part_index(node.children@, from as int).unwrap()
            && result.unwrap() < node.children.len(),
{
    let mut index: usize = from;
    while index < node.children.len()
        invariant
            from <= index <= node.children.len(),
            part_index(node.children@, from as int) == part_index(node.children@, index as int),
        decreases node.children.len() - index,
    {
        let found = match &node.children[index] {
            Element::Token(_) => true,
            Element::Node(child) => matches!(child.kind, Kind::NODE_INTERPOLATION),
        };
        if found {
            return Some(index);
        }
        index += 1;
    }
    None
}

/// Returns how the part at `index` is placed among the parts of its
/// string.
fn find_place(scan: StringScan, node: &Node, index: usize) -> (result: ContentPlace)
    requires
        index < node.children.len(),
    ensures
        result == place_of(scan, node.children@, index as int),
{
    let span = node.children[index].span();
    let first = scan.previous.is_none();
    match find_part(node, index + 1) {
        Some(next) => {
            let delimiter = match &node.children[next] {
                Element::Token(token) => !matches!(token.kind, Kind::TOKEN_CONTENT),
                Element::Node(_) => false,
            };
            ContentPlace {
                span,
                first,
                last: delimiter,
                next: if delimiter {
                    None
                } else {
                    Some(node.children[next].span())
                },
            }
        },
        None => ContentPlace { span, first, last: true, next: None },
    }
}

/// Scans the parts of a string.
fn read_parts(node: &Node) -> (result: StringScan)
    ensures
        result == scan_parts(initial_scan(), node.children@, 0),
{
    let mut scan = StringScan {
        mixed: false,
        multiline: false,
        first_line: None,
        last_line: None,
        indentation: None,
        previous: None,
    };
    let mut index: usize = 0;
    while index < node.children.len()
        invariant
            index <= node.children.len(),
            scan_parts(initial_scan(), node.children@, 0) == scan_parts(
                scan,
                node.children@,
                index as int,
            ),
        decreases node.children.len() - index,
    {
        let place = find_place(scan, node, index);
        match &node.children[index] {
            Element::Token(token) => {
                if matches!(token.kind, Kind::TOKEN_CONTENT) {
                    scan = read_content(scan, token.text.as_str(), place);
                }
            },
            Element::Node(child) => {
                if matches!(child.kind, Kind::NODE_INTERPOLATION) {
                    scan = if scan.previous.is_none() {
                        StringScan {
                            first_line: Some(child.span),
                            previous: Some(child.span),
                            ..scan
                        }
                    } else if place.last {
                        StringScan {
                            last_line: Some(child.span),
                            previous: Some(child.span),
                            ..scan
                        }
                    } else {
                        StringScan { previous: Some(child.span), ..scan }
                    };
                }
            },
        }
        index += 1;
    }
    scan
}

/// Appends the report on a string, if there is anything to report.
fn validate_string(node: &Node, to: &mut Vec<Report>)
    ensures
        report_views(final(to)@) == report_views(old(to)@) + string_reports(node),
{
    let scan = read_parts(node);
    let mut report = Report::error("invalid string");
    let ghost title = error("invalid string"@);
    let ghost mut labels: Seq<LabelView> = Seq::empty();
    proof {
        lemma_labelled_one_more(title, labels, primary(node.span, Seq::empty()));
    }
    if scan.mixed {
        proof {
            let label = primary(
                node.span,
                "strings cannot mix different kinds of whitespace in indentation"@,
            );
            lemma_labelled_one_more(title, labels, label);
            labels = labels.push(label);
        }
        report.push_primary(
            node.span,
            "strings cannot mix different kinds of whitespace in indentation",
        );
    }
    if scan.multiline {
        if let Some(span) = scan.first_line {
            proof {
                let label = primary(span, "multiline strings' first and last lines must be empty"@);
                lemma_labelled_one_more(title, labels, label);
                labels = labels.push(label);
            }
            report.push_primary(span, "multiline strings' first and last lines must be empty");
        }
        if let Some(span) = scan.last_line {
            proof {
                let label = primary(span, "multiline strings' first and last lines must be empty"@);
                lemma_labelled_one_more(title, labels, label);
                labels = labels.push(label);
            }
            report.push_primary(span, "multiline strings' first and last lines must be empty");
        }
    }
    proof {
        assert(labels =~= string_labels(node));
    }
    if !report.is_empty() {
        emit(to, report);
    } else {
        assert(report_views(to@) + Seq::<ReportView>::empty() =~= report_views(to@));
    }
}

/// Whether the content of a rune is one character, or one escape.
fn is_rune_sized(text: &str) -> (result: bool)
    ensures
        result == rune_sized(text@),
{
    let chars = characters(text);
    chars.len() == 1 || (chars.len() == 2 && chars[0] == '\\')
}

/// Appends the report on a rune, if there is anything to report.
fn validate_rune(node: &Node, to: &mut Vec<Report>)
    ensures
        report_views(final(to)@) == report_views(old(to)@) + rune_reports(node),
{
    let mut report = Report::error("invalid rune");
    let ghost title = error("invalid rune"@);
    let ghost initial = RuneScan {
        size: false,
        control: false,
        interpolation: false,
        filled: false,
        labels: Seq::empty(),
    };
    let ghost mut scan = initial;
    let mut reported_size = false;
    let mut reported_control = false;
    let mut reported_interpolation = false;
    let mut filled = false;
    let mut index: usize = 0;
    proof {
        lemma_labelled_one_more(title, scan.labels, primary(node.span, Seq::empty()));
    }
    while index < node.children.len()
        invariant
            index <= node.children.len(),
            scan_rune(initial, node.children@, 0) == scan_rune(scan, node.children@, index as int),
            report@ == title.labelled(scan.labels),
            reported_size == scan.size,
            reported_control == scan.control,
            reported_interpolation == scan.interpolation,
            filled == scan.filled,
        decreases node.children.len() - index,
    {
        match &node.children[index] {
            Element::Token(token) => {
                if matches!(token.kind, Kind::TOKEN_CONTENT) {
                    if !reported_size && !is_rune_sized(token.text.as_str()) {
                        proof {
                            let label = primary(token.span, "invalid rune literal len"@);
                            lemma_labelled_one_more(title, scan.labels, label);
                            scan = RuneScan { size: true, labels: scan.labels.push(label), ..scan };
                        }
                        reported_size = true;
                        report.push_primary(token.span, "invalid rune literal len");
                    }
                    if !reported_control && has_control(token.text.as_str()) {
                        proof {
                            let label = primary(
                                token.span,
                                "runes cannot contain control characters (non-escaped newlines, tabs, ...)"@,
                            );
                            lemma_labelled_one_more(title, scan.labels, label);
                            scan = RuneScan {
                                control: true,
                                labels: scan.labels.push(label),
                                ..scan
                            };
                        }
                        reported_control = true;
                        report.push_primary(
                            token.span,
                            "runes cannot contain control characters (non-escaped newlines, tabs, ...)",
                        );
                    }
                    proof {
                        scan = RuneScan { filled: true, ..scan };
                    }
                    filled = true;
                }
            },
            Element::Node(child) => {
                if matches!(child.kind, Kind::NODE_INTERPOLATION) && !reported_interpolation {
                    proof {
                        let label = primary(child.span, "runes cannot contain interpolation"@);
                        lemma_labelled_one_more(title, scan.labels, label);
                        scan = RuneScan {
                            interpolation: true,
                            filled: true,
                            labels: scan.labels.push(label),
                            ..scan
                        };
                    }
                    reported_interpolation = true;
                    filled = true;
                    report.push_primary(child.span, "runes cannot contain interpolation");
                }
            },
        }
        index += 1;
    }
    if !filled {
        proof {
            lemma_labelled_one_more(
                title,
                scan.labels,
                primary(node.span, "runes cannot be empty"@),
            );
        }
        report.push_primary(node.span, "runes cannot be empty");
    }
    if !report.is_empty() {
        emit(to, report);
    } else {
        assert(report_views(to@) + Seq::<ReportView>::empty() =~= report_views(to@));
    }
}

/// Appends the report on a bind to what is no identifier.
fn validate_bound(bound: &Node, to: &mut Vec<Report>)
    ensures
        report_views(final(to)@) == report_views(old(to)@) + seq![invalid_bind(bound)],
{
    let mut text = String::from_str("expected an identifier, not ");
    match bound.kind.description() {
        Some(words) => {
            text.append(words);
        },
        None => {
            assert(text@ + Seq::<char>::empty() =~= text@);
        },
    }
    emit(to, Report::error("invalid bind").primary(bound.span, text.as_str()));
}

/// Appends the report on an operand of `<|` or `|>` that is an operation
/// of the other of the two.
fn validate_association(node: &Node, operand: Option<ExpressionRef>, to: &mut Vec<Report>)
    ensures
        report_views(final(to)@) == report_views(old(to)@) + association_report(node, operand),
{
    let operator = (InfixOperation { node }).operator();
    if let Some(ExpressionRef::InfixOperation(operation)) = operand {
        let inner = operation.operator();
        if matches!(operator, InfixOperator::Apply | InfixOperator::Pipe) && matches!(
            inner,
            InfixOperator::Apply | InfixOperator::Pipe
        ) && inner != operator {
            emit(
                to,
                Report::error("application and pipe operators do not associate").secondary(
                    node.span,
                    "this",
                ).primary(operation.node.span, "does not associate with this"),
            );
            return ;
        }
    }
    assert(report_views(to@) + Seq::<ReportView>::empty() =~= report_views(to@));
}

/// Appends the reports on the expression among the children of a node that
/// comes after `skip` others.
fn validate_operand(node: &Node, skip: usize, to: &mut Vec<Report>)
    ensures
        report_views(final(to)@) == report_views(old(to)@) + operand_reports(node, skip as nat),
    decreases node.size(), 0nat,
{
    match node.find_expression(skip) {
        Some(operand) => operand.validate(to),
        None => {
            assert(report_views(to@) + Seq::<ReportView>::empty() =~= report_views(to@));
        },
    }
}

/// Appends the reports on the expressions of the interpolations among the
/// children of a node.
fn validate_interpolations(node: &Node, to: &mut Vec<Report>)
    ensures
        report_views(final(to)@) == report_views(old(to)@) + interpolation_reports(
            node.children@,
            node.size(),
        ),
    decreases node.size(), 0nat,
{
    let ghost before = report_views(to@);
    let mut index: usize = 0;
    proof {
        assert(node.children@.take(0) =~= Seq::empty());
        assert(before + Seq::<ReportView>::empty() =~= before);
    }
    while index < node.children.len()
        invariant
            index <= node.children.len(),
            report_views(to@) == before + interpolation_reports(
                node.children@.take(index as int),
                node.size(),
            ),
        decreases node.children.len() - index,
    {
        let ghost found = interpolation_reports(node.children@.take(index as int), node.size());
        proof {
            assert(node.children@.take(index + 1).drop_last() =~= node.children@.take(
                index as int,
            ));
            lemma_node_smaller_or_token(node, index as int);
        }
        match &node.children[index] {
            Element::Node(child) => {
                if matches!(child.kind, Kind::NODE_INTERPOLATION) {
                    (Interpolation { node: child }).validate(to);
                    proof {
                        assert(before + found + operand_reports(child, 0) =~= before + (found
                            + operand_reports(child, 0)));
                    }
                } else {
                    assert(before + found =~= before + (found + Seq::<ReportView>::empty()));
                }
            },
            Element::Token(_) => {
                assert(before + found =~= before + (found + Seq::<ReportView>::empty()));
            },
        }
        index += 1;
    }
    proof {
        assert(node.children@.take(node.children@.len() as int) =~= node.children@);
    }
}

/// A node among the children of a node weighs less than the node.
pub proof fn lemma_node_smaller_or_token(node: &Node, index: int)
    requires
        0 <= index < node.children@.len(),
    ensures
        node.children@[index] matches Element::Node(child) ==> child.size() < node.size(),
{
    if node.children@[index] is Node {
        lemma_node_smaller(node, index);
    }
}

impl<'a> ExpressionRef<'a> {
    /// Appends the reports on the expression, in the order in which they
    /// are found.
    pub fn validate(self, to: &mut Vec<Report>)
        ensures
            report_views(final(to)@) == report_views(old(to)@) + reports(self),
        decreases self.node().size(), 3nat,
    {
        match self {
            ExpressionRef::Parenthesis(parenthesis) => parenthesis.validate(to),
            ExpressionRef::List(list) => list.validate(to),
            ExpressionRef::Attributes(attributes) => attributes.validate(to),
            ExpressionRef::PrefixOperation(operation) => operation.validate(to),
            ExpressionRef::InfixOperation(operation) => operation.validate(to),
            ExpressionRef::SuffixOperation(operation) => operation.validate(to),
            ExpressionRef::Path(path) => path.validate(to),
            ExpressionRef::Bind(bind) => bind.validate(to),
            ExpressionRef::Identifier(identifier) => identifier.validate(to),
            ExpressionRef::SString(string) => string.validate(to),
            ExpressionRef::Rune(rune) => rune.validate(to),
            ExpressionRef::Island(island) => island.validate(to),
            ExpressionRef::If(if_else) => if_else.validate(to),
            ExpressionRef::Error(_) | ExpressionRef::Integer(_) | ExpressionRef::Float(_) => {
                assert(report_views(to@) + Seq::<ReportView>::empty() =~= report_views(to@));
            },
        }
    }
}

impl<'a> Parenthesis<'a> {
    /// Appends the reports on the parenthesis.
    pub fn validate(&self, to: &mut Vec<Report>)
        ensures
            report_views(final(to)@) == report_views(old(to)@) + reports(
                ExpressionRef::Parenthesis(*self),
            ),
        decreases self.node.size(), 2nat,
    {
        let ghost before = report_views(to@);
        match self.expression() {
            Some(expression) => {
                expression.validate(to);
            },
            None => {
                let at = match self.token_parenthesis_left() {
                    Some(opener) => opener.span.end,
                    None => self.node.span.start,
                };
                emit(
                    to,
                    Report::error("parenthesis without inner expression").primary(
                        Span::empty(at),
                        "expeted an expression here",
                    ),
                );
            },
        }
        validate_closing(self.node, Enclosure::Parenthesis, to);
        proof {
            let closing = unclosed_reports(self.node, Enclosure::Parenthesis);
            let first = if expression_of(self.node, 0).is_some() {
                operand_reports(self.node, 0)
            } else {
                seq![missing_inner(self.node)]
            };
            assert(before + first + closing =~= before + (first + closing));
        }
    }
}

impl<'a> List<'a> {
    /// Appends the reports on the list.
    pub fn validate(&self, to: &mut Vec<Report>)
        ensures
            report_views(final(to)@) == report_views(old(to)@) + reports(
                ExpressionRef::List(*self),
            ),
        decreases self.node.size(), 2nat,
    {
        let ghost before = report_views(to@);
        let mut reported = false;
        if let Some(ExpressionRef::InfixOperation(operation)) = self.expression() {
            if matches!(operation.operator(), InfixOperator::Sequence) {
                emit(
                    to,
                    Report::error("inner expression of list cannot be sequence").primary(
                        operation.node.span,
                        "consider parenthesizing this",
                    ),
                );
                reported = true;
            }
        }
        if !reported {
            assert(report_views(to@) + Seq::<ReportView>::empty() =~= report_views(to@));
        }
        let ghost sequence = sequence_reports(self.node);
        let items = self.items();
        let mut index: usize = 0;
        proof {
            assert(items@.take(0) =~= Seq::empty());
            assert(before + sequence + Seq::<ReportView>::empty() =~= before + sequence);
        }
        while index < items.len()
            invariant
                index <= items.len(),
                items@ == list_items(*self),
                forall|item: int|
                    0 <= item < items@.len() ==> (#[trigger] items@[item]).node().size()
                        < self.node.size(),
                report_views(to@) == before + sequence + items_reports(
                    items@.take(index as int),
                    self.node.size(),
                ),
            decreases items.len() - index,
        {
            let ghost found = items_reports(items@.take(index as int), self.node.size());
            proof {
                assert(items@.take(index + 1).drop_last() =~= items@.take(index as int));
            }
            items[index].validate(to);
            proof {
                assert(before + sequence + found + reports(items@[index as int]) =~= before
                    + sequence + (found + reports(items@[index as int])));
            }
            index += 1;
        }
        proof {
            assert(items@.take(items@.len() as int) =~= items@);
        }
        validate_closing(self.node, Enclosure::List, to);
        proof {
            let all = items_reports(list_items(*self), self.node.size());
            let closing = unclosed_reports(self.node, Enclosure::List);
            assert(before + sequence + all + closing =~= before + (sequence + all + closing));
        }
    }
}

impl<'a> Attributes<'a> {
    /// Appends the reports on the attributes.
    pub fn validate(&self, to: &mut Vec<Report>)
        ensures
            report_views(final(to)@) == report_views(old(to)@) + reports(
                ExpressionRef::Attributes(*self),
            ),
        decreases self.node.size(), 2nat,
    {
        validate_closing(self.node, Enclosure::Attributes, to);
    }
}

impl<'a> PrefixOperation<'a> {
    /// Appends the reports on the operand.
    pub fn validate(&self, to: &mut Vec<Report>)
        ensures
            report_views(final(to)@) == report_views(old(to)@) + reports(
                ExpressionRef::PrefixOperation(*self),
            ),
        decreases self.node.size(), 2nat,
    {
        validate_operand(self.node, 0, to);
    }
}

impl<'a> InfixOperation<'a> {
    /// Appends the reports on the operands, and on `<|` and `|>` where
    /// they meet.
    pub fn validate(&self, to: &mut Vec<Report>)
        ensures
            report_views(final(to)@) == report_views(old(to)@) + reports(
                ExpressionRef::InfixOperation(*self),
            ),
        decreases self.node.size(), 2nat,
    {
        let ghost before = report_views(to@);
        validate_operand(self.node, 0, to);
        validate_operand(self.node, 1, to);
        validate_association(self.node, self.left(), to);
        validate_association(self.node, self.right(), to);
        proof {
            let left = operand_reports(self.node, 0);
            let right = operand_reports(self.node, 1);
            let first = association_report(self.node, expression_of(self.node, 0));
            let second = association_report(self.node, expression_of(self.node, 1));
            assert(before + left + right + first + second =~= before + (left + right + (first
                + second)));
        }
    }
}

impl<'a> SuffixOperation<'a> {
    /// Appends the reports on the operand.
    pub fn validate(&self, to: &mut Vec<Report>)
        ensures
            report_views(final(to)@) == report_views(old(to)@) + reports(
                ExpressionRef::SuffixOperation(*self),
            ),
        decreases self.node.size(), 2nat,
    {
        validate_operand(self.node, 0, to);
    }
}

impl<'a> Interpolation<'a> {
    /// Appends the reports on the expression of the interpolation.
    pub fn validate(&self, to: &mut Vec<Report>)
        ensures
            report_views(final(to)@) == report_views(old(to)@) + operand_reports(self.node, 0),
        decreases self.node.size(), 2nat,
    {
        validate_operand(self.node, 0, to);
    }
}

impl<'a> Island<'a> {
    /// Appends the reports on the island: those on the interpolations of
    /// its header, and one where the header holds a control character.
    pub fn validate(&self, to: &mut Vec<Report>)
        ensures
            report_views(final(to)@) == report_views(old(to)@) + reports(
                ExpressionRef::Island(*self),
            ),
        decreases self.node.size(), 2nat,
    {
        let ghost before = report_views(to@);
        match self.header() {
            Some(header) => {
                validate_interpolations(header.node, to);
                validate_content(header.node, Stringlike::Island, to);
                proof {
                    let inner = interpolation_reports(header.node.children@, header.node.size());
                    let own = control_reports(header.node, Stringlike::Island);
                    assert(before + inner + own =~= before + (inner + own));
                }
            },
            None => {
                assert(before + Seq::<ReportView>::empty() =~= before);
            },
        }
    }
}

impl<'a> Path<'a> {
    /// Appends the reports on the path: those on its interpolations, and
    /// one where it holds a control character.
    pub fn validate(&self, to: &mut Vec<Report>)
        ensures
            report_views(final(to)@) == report_views(old(to)@) + reports(
                ExpressionRef::Path(*self),
            ),
        decreases self.node.size(), 2nat,
    {
        let ghost before = report_views(to@);
        validate_interpolations(self.node, to);
        validate_content(self.node, Stringlike::Path, to);
        proof {
            let inner = interpolation_reports(self.node.children@, self.node.size());
            let own = control_reports(self.node, Stringlike::Path);
            assert(before + inner + own =~= before + (inner + own));
        }
    }
}

impl<'a> Bind<'a> {
    /// Appends the reports on the bind: those on its identifier, or one
    /// where it binds to what is neither an identifier nor an error.
    pub fn validate(&self, to: &mut Vec<Report>)
        ensures
            report_views(final(to)@) == report_views(old(to)@) + reports(
                ExpressionRef::Bind(*self),
            ),
        decreases self.node.size(), 2nat,
    {
        match self.identifier() {
            Some(ExpressionRef::Identifier(identifier)) => {
                identifier.validate(to);
            },
            Some(other) => {
                let bound = other.as_node();
                if !matches!(bound.kind, Kind::NODE_ERROR) {
                    validate_bound(bound, to);
                } else {
                    assert(report_views(to@) + Seq::<ReportView>::empty() =~= report_views(to@));
                }
            },
            None => {
                assert(report_views(to@) + Seq::<ReportView>::empty() =~= report_views(to@));
            },
        }
    }
}

impl<'a> IdentifierQuoted<'a> {
    /// Appends the reports on the quoted identifier: those on its
    /// interpolations, and one where it holds a control character.
    pub fn validate(&self, to: &mut Vec<Report>)
        ensures
            report_views(final(to)@) == report_views(old(to)@) + (interpolation_reports(
                self.node.children@,
                self.node.size(),
            ) + control_reports(self.node, Stringlike::Identifier)),
        decreases self.node.size(), 1nat,
    {
        let ghost before = report_views(to@);
        validate_interpolations(self.node, to);
        validate_content(self.node, Stringlike::Identifier, to);
        proof {
            let inner = interpolation_reports(self.node.children@, self.node.size());
            let own = control_reports(self.node, Stringlike::Identifier);
            assert(before + inner + own =~= before + (inner + own));
        }
    }
}

impl<'a> Identifier<'a> {
    /// Appends the reports on the identifier, which has none unless it is
    /// quoted.
    pub fn validate(&self, to: &mut Vec<Report>)
        ensures
            report_views(final(to)@) == report_views(old(to)@) + reports(
                ExpressionRef::Identifier(*self),
            ),
        decreases self.node.size(), 2nat,
    {
        match self.value() {
            IdentifierValueRef::Quoted(quoted) => {
                (IdentifierQuoted { node: self.node }).validate(to);
            },
            IdentifierValueRef::Plain(_) => {
                assert(report_views(to@) + Seq::<ReportView>::empty() =~= report_views(to@));
            },
        }
    }
}

impl<'a> SString<'a> {
    /// Appends the reports on the string: those on its interpolations, and
    /// one on its lines and its indentation.
    pub fn validate(&self, to: &mut Vec<Report>)
        ensures
            report_views(final(to)@) == report_views(old(to)@) + reports(
                ExpressionRef::SString(*self),
            ),
        decreases self.node.size(), 2nat,
    {
        let ghost before = report_views(to@);
        validate_interpolations(self.node, to);
        validate_string(self.node, to);
        proof {
            let inner = interpolation_reports(self.node.children@, self.node.size());
            let own = string_reports(self.node);
            assert(before + inner + own =~= before + (inner + own));
        }
    }
}

impl<'a> Rune<'a> {
    /// Appends the report on the rune, if there is anything to report.
    pub fn validate(&self, to: &mut Vec<Report>)
        ensures
            report_views(final(to)@) == report_views(old(to)@) + reports(
                ExpressionRef::Rune(*self),
            ),
        decreases self.node.size(), 2nat,
    {
        validate_rune(self.node, to);
    }
}

impl<'a> If<'a> {
    /// Appends the reports on the condition, on the consequence and on the
    /// alternative, and one where there is no alternative.
    pub fn validate(&self, to: &mut Vec<Report>)
        ensures
            report_views(final(to)@) == report_views(old(to)@) + reports(ExpressionRef::If(*self)),
        decreases self.node.size(), 2nat,
    {
        let ghost before = report_views(to@);
        validate_operand(self.node, 0, to);
        validate_operand(self.node, 1, to);
        validate_operand(self.node, 2, to);
        if self.alternative().is_none() {
            let report = Report::error("if without else").primary(
                Span::empty(self.node.span.end),
                "expected 'else' here",
            );
            let report = match self.token_if() {
                Some(keyword) => report.secondary(keyword.span, "'if' without 'else' here"),
                None => report,
            };
            emit(to, report);
        } else {
            assert(report_views(to@) + Seq::<ReportView>::empty() =~= report_views(to@));
        }
        proof {
            let condition = operand_reports(self.node, 0);
            let consequence = operand_reports(self.node, 1);
            let alternative = operand_reports(self.node, 2);
            let missing = missing_else_reports(self.node);
            assert(before + condition + consequence + alternative + missing =~= before + (
            condition + consequence + alternative + missing));
        }
    }
}

} // verus!
