use cab_syntax::builder::{flat_tree, TreeBuilder};
use cab_syntax::format::{parenthesize, to_plain_text, Formatter, Style};
use cab_syntax::kind::Kind;
use cab_syntax::node::{
    ExpressionRef, IdentifierValueRef, InterpolatedPartRef, List, Parted, SString,
};
use cab_syntax::number::integer_decimal;
use cab_syntax::operator::{InfixOperator, PrefixOperator, SuffixOperator};
use cab_syntax::report::{LabelRole, PointKind, Report, Severity};
use cab_syntax::tree::{Element, Node, Span};

/// A tree written down for a test: a node with children, or a token.
enum Tree {
    Node(Kind, Vec<Tree>),
    Token(Kind, &'static str),
}

fn add(builder: &mut TreeBuilder, tree: &Tree) {
    match tree {
        Tree::Node(kind, children) => {
            builder.start_node(*kind);
            for child in children {
                add(builder, child);
            }
            assert!(builder.finish_node());
        }
        Tree::Token(kind, text) => {
            assert!(builder.token(*kind, text));
        }
    }
}

/// Builds the tree and returns its root node, whose single child is the
/// node written down.
fn build(tree: Tree) -> Node {
    let mut builder = TreeBuilder::new(Kind::NODE_ROOT);
    add(&mut builder, &tree);
    builder.finish()
}

fn first_node(root: &Node) -> &Node {
    match &root.children[0] {
        Element::Node(node) => node,
        Element::Token(_) => panic!("the root holds a token"),
    }
}

fn expression(root: &Node) -> ExpressionRef<'_> {
    ExpressionRef::try_from(first_node(root)).expect("the node is no expression")
}

fn identifier(name: &'static str) -> Tree {
    Tree::Node(Kind::NODE_IDENTIFIER, vec![Tree::Token(Kind::TOKEN_IDENTIFIER, name)])
}

fn space() -> Tree {
    Tree::Token(Kind::TOKEN_WHITESPACE, " ")
}

fn infix(left: Tree, operator: Kind, symbol: &'static str, right: Tree) -> Tree {
    Tree::Node(
        Kind::NODE_INFIX_OPERATION,
        vec![left, space(), Tree::Token(operator, symbol), space(), right],
    )
}

fn string(parts: Vec<Tree>) -> Tree {
    let mut children = vec![Tree::Token(Kind::TOKEN_STRING_START, "\"")];
    children.extend(parts);
    children.push(Tree::Token(Kind::TOKEN_STRING_END, "\""));
    Tree::Node(Kind::NODE_STRING, children)
}

fn content(text: &'static str) -> Tree {
    Tree::Token(Kind::TOKEN_CONTENT, text)
}

fn interpolation(inner: Tree) -> Tree {
    Tree::Node(
        Kind::NODE_INTERPOLATION,
        vec![
            Tree::Token(Kind::TOKEN_INTERPOLATION_START, "\\("),
            inner,
            Tree::Token(Kind::TOKEN_INTERPOLATION_END, ")"),
        ],
    )
}

fn render(tree: Tree) -> String {
    let root = build(tree);
    to_plain_text(&parenthesize(expression(&root)))
}

fn validate(tree: Tree) -> Vec<Report> {
    let root = build(tree);
    let mut reports = Vec::new();
    expression(&root).validate(&mut reports);
    reports
}

fn names(items: Vec<ExpressionRef<'_>>) -> Vec<String> {
    items.into_iter().map(|item| item.as_node().to_text()).collect()
}

#[test]
fn parenthesize_groups_by_precedence() {
    let tree = infix(
        identifier("a"),
        Kind::TOKEN_PLUS,
        "+",
        infix(identifier("b"), Kind::TOKEN_ASTERISK, "*", identifier("c")),
    );
    assert_eq!(render(tree), "(a + (b * c))");
}

#[test]
fn parenthesize_writes_pipe_as_application() {
    let tree = infix(identifier("x"), Kind::TOKEN_PIPE_MORE, "|>", identifier("f"));
    assert_eq!(render(tree), "(f x)");
}

#[test]
fn parenthesize_writes_applications_without_symbol() {
    let apply = infix(identifier("f"), Kind::TOKEN_LESS_PIPE, "<|", identifier("x"));
    assert_eq!(render(apply), "(f x)");
    let implicit = Tree::Node(
        Kind::NODE_INFIX_OPERATION,
        vec![identifier("f"), space(), identifier("x")],
    );
    assert_eq!(render(implicit), "(f x)");
}

#[test]
fn parenthesize_writes_every_infix_symbol() {
    let cases = [
        (Kind::TOKEN_PERIOD, ".", "(a . b)"),
        (Kind::TOKEN_COMMA, ",", "(a , b)"),
        (Kind::TOKEN_SEMICOLON, ";", "(a ; b)"),
        (Kind::TOKEN_PLUS_PLUS, "++", "(a ++ b)"),
        (Kind::TOKEN_COLON, ":", "(a : b)"),
        (Kind::TOKEN_SLASH_SLASH, "//", "(a // b)"),
        (Kind::TOKEN_LESS_EQUAL, "<=", "(a <= b)"),
        (Kind::TOKEN_LESS, "<", "(a < b)"),
        (Kind::TOKEN_MORE_EQUAL, ">=", "(a >= b)"),
        (Kind::TOKEN_MORE, ">", "(a > b)"),
        (Kind::TOKEN_EQUAL, "=", "(a = b)"),
        (Kind::TOKEN_EXCLAMATION_EQUAL, "!=", "(a != b)"),
        (Kind::TOKEN_MINUS, "-", "(a - b)"),
        (Kind::TOKEN_CARET, "^", "(a ^ b)"),
        (Kind::TOKEN_SLASH, "/", "(a / b)"),
        (Kind::TOKEN_AMPERSAND_AMPERSAND, "&&", "(a && b)"),
        (Kind::TOKEN_PIPE_PIPE, "||", "(a || b)"),
        (Kind::TOKEN_MINUS_MORE, "->", "(a -> b)"),
        (Kind::TOKEN_AMPERSAND, "&", "(a & b)"),
        (Kind::TOKEN_PIPE, "|", "(a | b)"),
        (Kind::TOKEN_EQUAL_GREATER, "=>", "(a => b)"),
    ];
    for (kind, symbol, expected) in cases {
        assert_eq!(render(infix(identifier("a"), kind, symbol, identifier("b"))), expected);
    }
}

#[test]
fn parenthesize_prefix_and_suffix() {
    let prefix = Tree::Node(
        Kind::NODE_PREFIX_OPERATION,
        vec![Tree::Token(Kind::TOKEN_MINUS, "-"), identifier("a")],
    );
    assert_eq!(render(prefix), "(- a)");
    let suffix = Tree::Node(
        Kind::NODE_SUFFIX_OPERATION,
        vec![identifier("a"), Tree::Token(Kind::TOKEN_SEMICOLON, ";")],
    );
    assert_eq!(render(suffix), "(a ;)");
}

#[test]
fn parenthesize_lists_and_attributes() {
    let list = Tree::Node(
        Kind::NODE_LIST,
        vec![
            Tree::Token(Kind::TOKEN_BRACKET_LEFT, "["),
            infix(
                identifier("a"),
                Kind::TOKEN_COMMA,
                ",",
                infix(identifier("b"), Kind::TOKEN_COMMA, ",", identifier("c")),
            ),
            Tree::Token(Kind::TOKEN_BRACKET_RIGHT, "]"),
        ],
    );
    assert_eq!(render(list), "[ a, b, c ]");
    let empty = Tree::Node(
        Kind::NODE_LIST,
        vec![
            Tree::Token(Kind::TOKEN_BRACKET_LEFT, "["),
            Tree::Token(Kind::TOKEN_BRACKET_RIGHT, "]"),
        ],
    );
    assert_eq!(render(empty), "[]");
    let attributes = Tree::Node(
        Kind::NODE_ATTRIBUTES,
        vec![
            Tree::Token(Kind::TOKEN_CURLYBRACE_LEFT, "{"),
            identifier("a"),
            Tree::Token(Kind::TOKEN_CURLYBRACE_RIGHT, "}"),
        ],
    );
    assert_eq!(render(attributes), "{ a }");
    let none = Tree::Node(
        Kind::NODE_ATTRIBUTES,
        vec![
            Tree::Token(Kind::TOKEN_CURLYBRACE_LEFT, "{"),
            Tree::Token(Kind::TOKEN_CURLYBRACE_RIGHT, "}"),
        ],
    );
    assert_eq!(render(none), "{}");
}

#[test]
fn parenthesize_drops_parentheses_of_the_source() {
    let tree = Tree::Node(
        Kind::NODE_PARENTHESIS,
        vec![
            Tree::Token(Kind::TOKEN_PARENTHESIS_LEFT, "("),
            identifier("a"),
            Tree::Token(Kind::TOKEN_PARENTHESIS_RIGHT, ")"),
        ],
    );
    assert_eq!(render(tree), "a");
}

#[test]
fn parenthesize_if_always_writes_else() {
    let full = Tree::Node(
        Kind::NODE_IF,
        vec![
            Tree::Token(Kind::TOKEN_KEYWORD_IF, "if"),
            identifier("c"),
            Tree::Token(Kind::TOKEN_KEYWORD_THEN, "then"),
            identifier("a"),
            Tree::Token(Kind::TOKEN_KEYWORD_ELSE, "else"),
            identifier("b"),
        ],
    );
    assert_eq!(render(full), "(if c then a else b)");
    let open = Tree::Node(
        Kind::NODE_IF,
        vec![
            Tree::Token(Kind::TOKEN_KEYWORD_IF, "if"),
            identifier("c"),
            Tree::Token(Kind::TOKEN_KEYWORD_THEN, "then"),
            identifier("a"),
        ],
    );
    assert_eq!(render(open), "(if c then a else )");
}

#[test]
fn parenthesize_stringlikes_as_written() {
    let tree = string(vec![content("foo "), interpolation(identifier("bar")), content("!")]);
    assert_eq!(render(tree), "\"foo \\(bar)!\"");
    let bind = Tree::Node(
        Kind::NODE_BIND,
        vec![Tree::Token(Kind::TOKEN_AT, "@"), identifier("x")],
    );
    assert_eq!(render(bind), "@x");
    let error = Tree::Node(Kind::NODE_ERROR, vec![Tree::Token(Kind::TOKEN_ERROR_UNKNOWN, "~")]);
    assert_eq!(render(error), "error");
}

#[test]
fn parenthesize_numbers_by_value() {
    let hexadecimal = Tree::Node(
        Kind::NODE_INTEGER,
        vec![Tree::Token(Kind::TOKEN_INTEGER, "0x10")],
    );
    assert_eq!(render(hexadecimal), "16");
    let separated = Tree::Node(
        Kind::NODE_INTEGER,
        vec![Tree::Token(Kind::TOKEN_INTEGER, "1_000")],
    );
    assert_eq!(render(separated), "1000");
    let float = Tree::Node(Kind::NODE_FLOAT, vec![Tree::Token(Kind::TOKEN_FLOAT, "1.5")]);
    assert_eq!(render(float), "1.5");
}

#[test]
fn integer_values() {
    assert_eq!(integer_decimal("0b101"), Some("5".to_string()));
    assert_eq!(integer_decimal("0O17"), Some("15".to_string()));
    assert_eq!(integer_decimal("0xff"), Some("255".to_string()));
    assert_eq!(integer_decimal("007"), Some("7".to_string()));
    assert_eq!(
        integer_decimal("340282366920938463463374607431768211456"),
        Some("340282366920938463463374607431768211456".to_string())
    );
    assert_eq!(integer_decimal("0x_1"), None);
    assert_eq!(integer_decimal("0x"), None);
}

#[test]
fn fragments_carry_styles_and_depths() {
    let tree = Tree::Node(
        Kind::NODE_PREFIX_OPERATION,
        vec![
            Tree::Token(Kind::TOKEN_EXCLAMATIONMARK, "!"),
            infix(identifier("true"), Kind::TOKEN_PLUS, "+", identifier("null")),
        ],
    );
    let root = build(tree);
    let fragments = parenthesize(expression(&root));
    let styles: Vec<(&str, Style)> =
        fragments.iter().map(|fragment| (fragment.text.as_str(), fragment.style)).collect();
    assert_eq!(
        styles,
        vec![
            ("(", Style::Bracket(0)),
            ("!", Style::Plain),
            (" ", Style::Plain),
            ("(", Style::Bracket(1)),
            ("true", Style::Boolean),
            (" ", Style::Plain),
            ("+", Style::Plain),
            (" ", Style::Plain),
            ("null", Style::Inexistent),
            (")", Style::Bracket(1)),
            (")", Style::Bracket(0)),
        ]
    );
}

#[test]
fn formatter_counts_brackets() {
    let mut formatter = Formatter::new();
    let outer = formatter.bracket_start("(");
    let inner = formatter.bracket_start("[");
    formatter.write("x", Style::Import);
    formatter.bracket_end("]", inner);
    formatter.bracket_end(")", outer);
    let fragments = formatter.finish();
    assert_eq!((outer, inner), (0, 1));
    assert_eq!(to_plain_text(&fragments), "([x])");
    assert_eq!(fragments[1].style, Style::Bracket(1));
    assert_eq!(fragments[4].style, Style::Bracket(0));
}

#[test]
fn validate_multiline_string_with_text_on_first_line() {
    let reports = validate(string(vec![content("hello\n")]));
    assert_eq!(reports.len(), 1);
    let report = &reports[0];
    assert_eq!(report.severity, Severity::Error);
    assert_eq!(report.title, "invalid string");
    assert_eq!(report.labels.len(), 1);
    assert_eq!(report.labels[0].role, LabelRole::Primary);
    assert_eq!(report.labels[0].span, Span { start: 1, end: 6 });
    assert_eq!(report.labels[0].text, "multiline strings' first and last lines must be empty");
}

#[test]
fn validate_multiline_string_with_text_on_last_line() {
    let reports = validate(string(vec![content("\n  a\n  b  ")]));
    assert_eq!(reports.len(), 1);
    assert_eq!(reports[0].labels.len(), 1);
    // The last line is reported from its first letter up to the end of the content.
    assert_eq!(reports[0].labels[0].span, Span { start: 8, end: 11 });
}

#[test]
fn validate_accepts_well_formed_strings() {
    assert!(validate(string(vec![content("hello")])).is_empty());
    assert!(validate(string(vec![content("\n  a\n  b\n")])).is_empty());
    assert!(validate(string(vec![])).is_empty());
}

#[test]
fn validate_mixed_indentation() {
    let reports = validate(string(vec![content("\n  a\n\tb\n")]));
    assert_eq!(reports.len(), 1);
    assert_eq!(reports[0].labels.len(), 1);
    assert_eq!(
        reports[0].labels[0].text,
        "strings cannot mix different kinds of whitespace in indentation"
    );
    assert_eq!(reports[0].labels[0].span, Span { start: 0, end: 10 });
}

#[test]
fn validate_string_with_interpolation_on_first_line() {
    let reports = validate(string(vec![interpolation(identifier("a")), content("\nb\n")]));
    assert_eq!(reports.len(), 1);
    assert_eq!(reports[0].labels.len(), 1);
    assert_eq!(reports[0].labels[0].span, Span { start: 1, end: 5 });
}

#[test]
fn validate_application_and_pipe_do_not_associate() {
    let tree = infix(
        infix(identifier("a"), Kind::TOKEN_LESS_PIPE, "<|", identifier("b")),
        Kind::TOKEN_PIPE_MORE,
        "|>",
        identifier("c"),
    );
    let reports = validate(tree);
    assert_eq!(reports.len(), 1);
    assert_eq!(reports[0].title, "application and pipe operators do not associate");
    assert_eq!(reports[0].labels.len(), 2);
    assert_eq!(reports[0].labels[0].role, LabelRole::Secondary);
    assert_eq!(reports[0].labels[0].span, Span { start: 0, end: 11 });
    assert_eq!(reports[0].labels[1].role, LabelRole::Primary);
    assert_eq!(reports[0].labels[1].span, Span { start: 0, end: 6 });
}

#[test]
fn validate_same_application_operator_associates() {
    let tree = infix(
        infix(identifier("a"), Kind::TOKEN_PIPE_MORE, "|>", identifier("b")),
        Kind::TOKEN_PIPE_MORE,
        "|>",
        identifier("c"),
    );
    assert!(validate(tree).is_empty());
}

#[test]
fn validate_parenthesis() {
    let empty = Tree::Node(
        Kind::NODE_PARENTHESIS,
        vec![
            Tree::Token(Kind::TOKEN_PARENTHESIS_LEFT, "("),
            Tree::Token(Kind::TOKEN_PARENTHESIS_RIGHT, ")"),
        ],
    );
    let reports = validate(empty);
    assert_eq!(reports.len(), 1);
    assert_eq!(reports[0].title, "parenthesis without inner expression");
    assert_eq!(reports[0].labels[0].span, Span { start: 1, end: 1 });

    let unclosed = Tree::Node(
        Kind::NODE_PARENTHESIS,
        vec![Tree::Token(Kind::TOKEN_PARENTHESIS_LEFT, "("), identifier("a")],
    );
    let reports = validate(unclosed);
    assert_eq!(reports.len(), 1);
    assert_eq!(reports[0].title, "unclosed parenthesis");
    assert_eq!(reports[0].labels.len(), 2);
    assert_eq!(reports[0].labels[0].role, LabelRole::Primary);
    assert_eq!(reports[0].labels[0].span, Span { start: 2, end: 2 });
    assert_eq!(reports[0].labels[0].text, "expected ')' here");
    assert_eq!(reports[0].labels[1].role, LabelRole::Secondary);
    assert_eq!(reports[0].labels[1].span, Span { start: 0, end: 1 });

    let both = Tree::Node(
        Kind::NODE_PARENTHESIS,
        vec![Tree::Token(Kind::TOKEN_PARENTHESIS_LEFT, "(")],
    );
    let titles: Vec<String> = validate(both).into_iter().map(|report| report.title).collect();
    assert_eq!(titles, vec!["parenthesis without inner expression", "unclosed parenthesis"]);
}

#[test]
fn validate_list() {
    let sequence = Tree::Node(
        Kind::NODE_LIST,
        vec![
            Tree::Token(Kind::TOKEN_BRACKET_LEFT, "["),
            infix(identifier("a"), Kind::TOKEN_SEMICOLON, ";", identifier("b")),
        ],
    );
    let titles: Vec<String> = validate(sequence).into_iter().map(|report| report.title).collect();
    assert_eq!(titles, vec!["inner expression of list cannot be sequence", "unclosed list"]);

    let unclosed_inside = Tree::Node(
        Kind::NODE_LIST,
        vec![
            Tree::Token(Kind::TOKEN_BRACKET_LEFT, "["),
            infix(
                identifier("a"),
                Kind::TOKEN_COMMA,
                ",",
                Tree::Node(
                    Kind::NODE_ATTRIBUTES,
                    vec![Tree::Token(Kind::TOKEN_CURLYBRACE_LEFT, "{")],
                ),
            ),
            Tree::Token(Kind::TOKEN_BRACKET_RIGHT, "]"),
        ],
    );
    let titles: Vec<String> =
        validate(unclosed_inside).into_iter().map(|report| report.title).collect();
    assert_eq!(titles, vec!["unclosed attributes"]);
}

#[test]
fn validate_rune() {
    let rune = |parts: Vec<Tree>| {
        let mut children = vec![Tree::Token(Kind::TOKEN_RUNE_START, "'")];
        children.extend(parts);
        children.push(Tree::Token(Kind::TOKEN_RUNE_END, "'"));
        Tree::Node(Kind::NODE_RUNE, children)
    };
    assert!(validate(rune(vec![content("a")])).is_empty());
    assert!(validate(rune(vec![content("\\n")])).is_empty());
    assert!(validate(rune(vec![content("𓃰")])).is_empty());

    let texts = |reports: Vec<Report>| -> Vec<String> {
        assert_eq!(reports.len(), 1);
        assert_eq!(reports[0].title, "invalid rune");
        reports[0].labels.iter().map(|label| label.text.clone()).collect()
    };
    assert_eq!(texts(validate(rune(vec![]))), vec!["runes cannot be empty"]);
    assert_eq!(texts(validate(rune(vec![content("ab")]))), vec!["invalid rune literal len"]);
    assert_eq!(
        texts(validate(rune(vec![content("\t")]))),
        vec!["runes cannot contain control characters (non-escaped newlines, tabs, ...)"]
    );
    assert_eq!(
        texts(validate(rune(vec![
            interpolation(identifier("a")),
            interpolation(identifier("b"))
        ]))),
        vec!["runes cannot contain interpolation"]
    );
}

#[test]
fn validate_bind() {
    let good = Tree::Node(
        Kind::NODE_BIND,
        vec![Tree::Token(Kind::TOKEN_AT, "@"), identifier("x")],
    );
    assert!(validate(good).is_empty());
    let bad = Tree::Node(
        Kind::NODE_BIND,
        vec![
            Tree::Token(Kind::TOKEN_AT, "@"),
            Tree::Node(Kind::NODE_INTEGER, vec![Tree::Token(Kind::TOKEN_INTEGER, "1")]),
        ],
    );
    let reports = validate(bad);
    assert_eq!(reports.len(), 1);
    assert_eq!(reports[0].title, "invalid bind");
    assert_eq!(reports[0].labels[0].text, "expected an identifier, not an integer");
    assert_eq!(reports[0].labels[0].span, Span { start: 1, end: 2 });
    let error = Tree::Node(
        Kind::NODE_BIND,
        vec![
            Tree::Token(Kind::TOKEN_AT, "@"),
            Tree::Node(Kind::NODE_ERROR, vec![Tree::Token(Kind::TOKEN_ERROR_UNKNOWN, "~")]),
        ],
    );
    assert!(validate(error).is_empty());
}

#[test]
fn validate_control_characters_in_stringlikes() {
    let quoted = Tree::Node(
        Kind::NODE_IDENTIFIER,
        vec![
            Tree::Token(Kind::TOKEN_IDENTIFIER_START, "`"),
            content("a\tb"),
            content("c\nd"),
            Tree::Token(Kind::TOKEN_IDENTIFIER_END, "`"),
        ],
    );
    let reports = validate(quoted);
    assert_eq!(reports.len(), 1);
    assert_eq!(reports[0].title, "invalid identifier");
    assert_eq!(reports[0].labels.len(), 1);
    assert_eq!(reports[0].labels[0].span, Span { start: 1, end: 4 });
    assert_eq!(reports[0].points.len(), 1);
    assert_eq!(reports[0].points[0].kind, PointKind::Help);

    let island = Tree::Node(
        Kind::NODE_ISLAND,
        vec![Tree::Node(
            Kind::NODE_ISLAND_HEADER,
            vec![
                Tree::Token(Kind::TOKEN_ISLAND_HEADER_START, "<"),
                content("a\u{7}"),
                Tree::Token(Kind::TOKEN_ISLAND_HEADER_END, ">"),
            ],
        )],
    );
    let reports = validate(island);
    assert_eq!(reports.len(), 1);
    assert_eq!(reports[0].title, "invalid island");
    assert_eq!(reports[0].points[0].kind, PointKind::Tip);

    let path = Tree::Node(
        Kind::NODE_PATH,
        vec![
            Tree::Token(Kind::TOKEN_PATH_START, ""),
            content("./a"),
            interpolation(Tree::Node(
                Kind::NODE_PARENTHESIS,
                vec![Tree::Token(Kind::TOKEN_PARENTHESIS_LEFT, "(")],
            )),
            Tree::Token(Kind::TOKEN_PATH_END, ""),
        ],
    );
    let titles: Vec<String> = validate(path).into_iter().map(|report| report.title).collect();
    assert_eq!(titles, vec!["parenthesis without inner expression", "unclosed parenthesis"]);
}

#[test]
fn validate_plain_values_report_nothing() {
    assert!(validate(identifier("a")).is_empty());
    assert!(validate(Tree::Node(
        Kind::NODE_INTEGER,
        vec![Tree::Token(Kind::TOKEN_INTEGER, "1")]
    ))
    .is_empty());
    assert!(validate(Tree::Node(Kind::NODE_ERROR, vec![])).is_empty());
}

#[test]
fn same_items_of_right_nested_sequence() {
    let tree = infix(
        identifier("a"),
        Kind::TOKEN_COMMA,
        ",",
        infix(identifier("b"), Kind::TOKEN_COMMA, ",", identifier("c")),
    );
    let root = build(tree);
    assert_eq!(names(expression(&root).same_items()), vec!["a", "b", "c"]);
}

#[test]
fn same_items_is_left_items_then_right_items() {
    let left = identifier("a");
    let right = infix(identifier("b"), Kind::TOKEN_COMMA, ",", identifier("c"));
    let left_root = build(identifier("a"));
    let right_root = build(infix(identifier("b"), Kind::TOKEN_COMMA, ",", identifier("c")));
    let root = build(infix(left, Kind::TOKEN_COMMA, ",", right));
    let mut expected = names(expression(&left_root).same_items());
    expected.extend(names(expression(&right_root).same_items()));
    assert_eq!(names(expression(&root).same_items()), expected);
}

#[test]
fn same_items_descends_level_by_level() {
    let tree = infix(
        infix(identifier("a"), Kind::TOKEN_COMMA, ",", identifier("b")),
        Kind::TOKEN_COMMA,
        ",",
        identifier("c"),
    );
    let root = build(tree);
    assert_eq!(names(expression(&root).same_items()), vec!["c", "a", "b"]);
}

#[test]
fn same_items_unwraps_suffix_and_stops_elsewhere() {
    let suffix = Tree::Node(
        Kind::NODE_SUFFIX_OPERATION,
        vec![identifier("a"), Tree::Token(Kind::TOKEN_COMMA, ",")],
    );
    let root = build(suffix);
    assert_eq!(names(expression(&root).same_items()), vec!["a"]);
    let sum = infix(identifier("a"), Kind::TOKEN_PLUS, "+", identifier("b"));
    let root = build(sum);
    assert_eq!(names(expression(&root).same_items()), vec!["a + b"]);
}

#[test]
fn list_items_of_empty_list() {
    let root = build(Tree::Node(
        Kind::NODE_LIST,
        vec![Tree::Token(Kind::TOKEN_BRACKET_LEFT, "[")],
    ));
    let list = List { node: first_node(&root) };
    assert!(list.items().is_empty());
    assert!(list.token_bracket_right().is_none());
    assert_eq!(list.token_bracket_left().map(|token| token.text()), Some("["));
}

#[test]
fn typed_accessors() {
    let root = build(infix(identifier("a"), Kind::TOKEN_PLUS, "+", identifier("b")));
    let ExpressionRef::InfixOperation(operation) = expression(&root) else {
        panic!("not an infix operation");
    };
    assert_eq!(operation.operator(), InfixOperator::Addition);
    assert_eq!(operation.operator_token().map(|token| token.text()), Some("+"));
    assert_eq!(operation.left().map(|left| left.as_node().to_text()), Some("a".to_string()));
    assert_eq!(operation.right().map(|right| right.as_node().to_text()), Some("b".to_string()));

    let root = build(Tree::Node(
        Kind::NODE_INFIX_OPERATION,
        vec![identifier("f"), space(), identifier("x")],
    ));
    let ExpressionRef::InfixOperation(operation) = expression(&root) else {
        panic!("not an infix operation");
    };
    assert_eq!(operation.operator(), InfixOperator::ImplicitApply);
    assert!(operation.operator_token().is_none());
}

#[test]
fn identifier_values() {
    let root = build(identifier("a"));
    let ExpressionRef::Identifier(plain) = expression(&root) else {
        panic!("not an identifier");
    };
    assert!(matches!(plain.value(), IdentifierValueRef::Plain(token) if token.text() == "a"));
    let root = build(Tree::Node(
        Kind::NODE_IDENTIFIER,
        vec![
            Tree::Token(Kind::TOKEN_IDENTIFIER_START, "`"),
            content("a b"),
            Tree::Token(Kind::TOKEN_IDENTIFIER_END, "`"),
        ],
    ));
    let ExpressionRef::Identifier(quoted) = expression(&root) else {
        panic!("not an identifier");
    };
    assert!(matches!(quoted.value(), IdentifierValueRef::Quoted(_)));
}

#[test]
fn parts_of_a_string() {
    let root = build(string(vec![content("a"), interpolation(identifier("b"))]));
    let parts = (SString { node: first_node(&root) }).parts();
    assert_eq!(parts.len(), 4);
    assert!(parts[0].is_delimiter());
    assert!(matches!(parts[1], InterpolatedPartRef::Content(token) if token.text() == "a"));
    assert!(matches!(parts[2], InterpolatedPartRef::Interpolation(_)));
    assert!(parts[3].is_delimiter());
    assert_eq!(parts[1].span(), Span { start: 1, end: 2 });
    assert_eq!(parts[2].span(), Span { start: 2, end: 6 });
}

#[test]
fn expression_cast_fails_on_other_kinds() {
    let root = build(Tree::Node(Kind::NODE_INTERPOLATION, vec![]));
    assert!(ExpressionRef::try_from(first_node(&root)).is_none());
    assert!(ExpressionRef::try_from(&root).is_none());
}

#[test]
fn operators_of_kinds() {
    assert_eq!(PrefixOperator::try_from(Kind::TOKEN_PLUS), Some(PrefixOperator::Swwallation));
    assert_eq!(PrefixOperator::try_from(Kind::TOKEN_MINUS), Some(PrefixOperator::Negation));
    assert_eq!(PrefixOperator::try_from(Kind::TOKEN_EXCLAMATIONMARK), Some(PrefixOperator::Not));
    assert_eq!(PrefixOperator::try_from(Kind::TOKEN_QUESTIONMARK), Some(PrefixOperator::Try));
    assert_eq!(PrefixOperator::try_from(Kind::TOKEN_COMMA), None);
    assert_eq!(SuffixOperator::try_from(Kind::TOKEN_COMMA), Some(SuffixOperator::Same));
    assert_eq!(SuffixOperator::try_from(Kind::TOKEN_SEMICOLON), Some(SuffixOperator::Sequence));
    assert_eq!(SuffixOperator::try_from(Kind::TOKEN_PLUS), None);
    assert_eq!(InfixOperator::try_from(Kind::TOKEN_EQUAL_GREATER), Some(InfixOperator::Lambda));
    assert_eq!(InfixOperator::try_from(Kind::TOKEN_IDENTIFIER), Some(InfixOperator::ImplicitApply));
    assert_eq!(InfixOperator::try_from(Kind::TOKEN_KEYWORD_IF), None);
    assert_eq!(InfixOperator::try_from(Kind::TOKEN_WHITESPACE), None);
}

#[test]
fn binding_powers() {
    assert_eq!(PrefixOperator::Swwallation.binding_power(), ((), 145));
    assert_eq!(PrefixOperator::Negation.binding_power(), ((), 145));
    assert_eq!(PrefixOperator::Not.binding_power(), ((), 125));
    assert_eq!(PrefixOperator::Try.binding_power(), ((), 105));
    let table = [
        (InfixOperator::Select, (185, 180)),
        (InfixOperator::ImplicitApply, (170, 175)),
        (InfixOperator::Concat, (160, 165)),
        (InfixOperator::Multiplication, (150, 155)),
        (InfixOperator::Division, (150, 155)),
        (InfixOperator::Power, (155, 150)),
        (InfixOperator::Addition, (130, 135)),
        (InfixOperator::Subtraction, (130, 135)),
        (InfixOperator::Update, (110, 115)),
        (InfixOperator::LessOrEqual, (100, 105)),
        (InfixOperator::Less, (100, 105)),
        (InfixOperator::MoreOrEqual, (100, 105)),
        (InfixOperator::More, (100, 105)),
        (InfixOperator::Construct, (95, 90)),
        (InfixOperator::And, (85, 80)),
        (InfixOperator::All, (85, 80)),
        (InfixOperator::Or, (75, 70)),
        (InfixOperator::Any, (75, 70)),
        (InfixOperator::Implication, (65, 60)),
        (InfixOperator::Pipe, (50, 55)),
        (InfixOperator::Apply, (55, 50)),
        (InfixOperator::Lambda, (45, 40)),
        (InfixOperator::Equal, (35, 30)),
        (InfixOperator::NotEqual, (35, 30)),
        (InfixOperator::Same, (25, 20)),
        (InfixOperator::Sequence, (15, 10)),
    ];
    for (operator, power) in table {
        assert_eq!(operator.binding_power(), power);
        assert_eq!(operator.is_token_owning(), operator != InfixOperator::ImplicitApply);
    }
}

#[test]
fn kind_classes() {
    let expressions = [
        Kind::TOKEN_PARENTHESIS_LEFT,
        Kind::TOKEN_BRACKET_LEFT,
        Kind::TOKEN_CURLYBRACE_LEFT,
        Kind::TOKEN_INTEGER,
        Kind::TOKEN_FLOAT,
        Kind::TOKEN_KEYWORD_IF,
        Kind::TOKEN_PATH_START,
        Kind::TOKEN_AT,
        Kind::TOKEN_IDENTIFIER,
        Kind::TOKEN_IDENTIFIER_START,
        Kind::TOKEN_STRING_START,
        Kind::TOKEN_RUNE_START,
        Kind::TOKEN_ISLAND_HEADER_START,
    ];
    for kind in expressions {
        assert!(kind.is_expression());
        assert_eq!(kind.is_argument(), kind != Kind::TOKEN_KEYWORD_IF);
        assert!(!kind.is_error() && !kind.is_trivia());
    }
    let errors = [
        Kind::TOKEN_ERROR_UNKNOWN,
        Kind::TOKEN_ERROR_NUMBER_NO_DIGIT,
        Kind::TOKEN_ERROR_FLOAT_NO_EXPONENT,
    ];
    for kind in errors {
        assert!(kind.is_error() && kind.is_argument() && !kind.is_expression());
    }
    for kind in [Kind::TOKEN_WHITESPACE, Kind::TOKEN_COMMENT] {
        assert!(kind.is_trivia() && !kind.is_argument());
    }
    for kind in [Kind::TOKEN_PLUS, Kind::TOKEN_KEYWORD_THEN, Kind::NODE_LIST, Kind::TOKEN_CONTENT] {
        assert!(!kind.is_argument() && !kind.is_error() && !kind.is_trivia());
    }
    assert!(Kind::TOKEN_IDENTIFIER.is_identifier() && Kind::TOKEN_IDENTIFIER_START.is_identifier());
    assert!(!Kind::TOKEN_STRING_START.is_identifier());
}

#[test]
fn kind_node_and_closing() {
    assert_eq!(
        Kind::TOKEN_PATH_START.as_node_and_closing(),
        Some((Kind::NODE_PATH, Kind::TOKEN_PATH_END))
    );
    assert_eq!(
        Kind::TOKEN_IDENTIFIER_START.as_node_and_closing(),
        Some((Kind::NODE_IDENTIFIER, Kind::TOKEN_IDENTIFIER_END))
    );
    assert_eq!(
        Kind::TOKEN_STRING_START.as_node_and_closing(),
        Some((Kind::NODE_STRING, Kind::TOKEN_STRING_END))
    );
    assert_eq!(
        Kind::TOKEN_RUNE_START.as_node_and_closing(),
        Some((Kind::NODE_RUNE, Kind::TOKEN_RUNE_END))
    );
    assert_eq!(Kind::TOKEN_ISLAND_HEADER_START.as_node_and_closing(), None);
    assert_eq!(Kind::TOKEN_PLUS.as_node_and_closing(), None);
}

#[test]
fn kind_words() {
    assert_eq!(Kind::TOKEN_INTERPOLATION_START.description(), Some("'\\('"));
    assert_eq!(Kind::TOKEN_CURLYBRACE_LEFT.description(), Some("'{'"));
    assert_eq!(Kind::NODE_STRING.description(), Some("a string"));
    assert_eq!(Kind::NODE_ROOT.description(), None);
    assert_eq!(Kind::TOKEN_LESS_PIPE.static_text(), Some("<|"));
    assert_eq!(Kind::TOKEN_PATH_END.static_text(), Some(""));
    assert_eq!(Kind::TOKEN_IDENTIFIER.static_text(), None);
}

#[test]
fn builder_spans_are_contiguous() {
    let root = build(infix(identifier("añ"), Kind::TOKEN_PLUS, "+", identifier("𓃰")));
    assert_eq!(root.span, Span { start: 0, end: 10 });
    let operation = first_node(&root);
    assert_eq!(operation.span, Span { start: 0, end: 10 });
    let spans: Vec<Span> = operation.children.iter().map(|child| child.span()).collect();
    assert_eq!(
        spans,
        vec![
            Span { start: 0, end: 3 },
            Span { start: 3, end: 4 },
            Span { start: 4, end: 5 },
            Span { start: 5, end: 6 },
            Span { start: 6, end: 10 },
        ]
    );
    assert_eq!(root.to_text(), "añ + 𓃰");
}

#[test]
fn builder_wraps_at_checkpoint() {
    let mut builder = TreeBuilder::new(Kind::NODE_ROOT);
    let checkpoint = builder.checkpoint();
    builder.start_node(Kind::NODE_IDENTIFIER);
    assert!(builder.token(Kind::TOKEN_IDENTIFIER, "a"));
    assert!(builder.finish_node());
    assert!(builder.token(Kind::TOKEN_PLUS, "+"));
    assert!(builder.start_node_at(checkpoint, Kind::NODE_INFIX_OPERATION));
    builder.start_node(Kind::NODE_IDENTIFIER);
    assert!(builder.token(Kind::TOKEN_IDENTIFIER, "b"));
    assert!(builder.finish_node());
    assert!(builder.finish_node());
    assert!(!builder.finish_node());
    let stale = builder.checkpoint();
    builder.start_node(Kind::NODE_LIST);
    assert!(!builder.start_node_at(stale, Kind::NODE_ERROR));
    let root = builder.finish();
    assert_eq!(root.children.len(), 2);
    assert_eq!(to_plain_text(&parenthesize(expression(&root))), "(a + b)");
    assert_eq!(first_node(&root).span, Span { start: 0, end: 3 });
    assert_eq!(root.to_text(), "a+b");
}

#[test]
fn flat_tree_keeps_the_source() {
    let source = "f \"a \\(b)\" ./c #= d =#\n";
    let root = flat_tree(source).expect("the source is short");
    assert_eq!(root.kind, Kind::NODE_ROOT);
    assert_eq!(root.to_text(), source);
    assert_eq!(root.span, Span { start: 0, end: source.len() as u32 });
    let mut end = 0;
    for child in &root.children {
        assert_eq!(child.span().start, end);
        end = child.span().end;
    }
    assert_eq!(end, root.span.end);
}

#[test]
fn first_token_skips_trivia() {
    let root = build(Tree::Node(
        Kind::NODE_LIST,
        vec![
            Tree::Token(Kind::TOKEN_WHITESPACE, " "),
            Tree::Node(Kind::NODE_ERROR, vec![Tree::Token(Kind::TOKEN_COMMENT, "# c\n")]),
            identifier("a"),
        ],
    ));
    assert_eq!(first_node(&root).first_token().map(|token| token.text()), Some("a"));
    let root = build(Tree::Node(Kind::NODE_LIST, vec![space()]));
    assert!(first_node(&root).first_token().is_none());
}

#[test]
fn report_building() {
    let report = Report::error("title");
    assert!(report.is_empty());
    let report = report.tip("a tip").help("some help");
    assert!(report.is_empty());
    let report = report
        .primary(Span::at(1, 2), "first")
        .secondary(Span::at_end(9, 4), "second");
    assert!(!report.is_empty());
    assert_eq!(report.labels[0].span, Span::new(1, 3));
    assert_eq!(report.labels[1].span, Span::new(5, 9));
    assert_eq!(report.labels[1].role, LabelRole::Secondary);
    assert_eq!(report.points.len(), 2);
    let report = report.with("source", "a + b");
    assert_eq!(report.attachments.len(), 1);
    assert_eq!(report.attachments[0].key, "source");
    assert_eq!(report.attachments[0].value, "a + b");
    assert!(Span::empty(3).is_empty());
    assert_eq!(Span::starting_at(u32::MAX - 1, 5), Span::new(u32::MAX - 1, u32::MAX));
    assert_eq!(Span::ending_at(2, 5), Span::new(0, 2));
}

#[test]
fn indent_writer_indents_first_line_of_each_write() {
    let mut writer = cab_syntax::indent::indent(String::new(), 2);
    writer.write_str("a\nb");
    assert_eq!(writer.place, cab_syntax::indent::IndentPlace::Start);
    writer.write_str("c\n");
    assert_eq!(writer.place, cab_syntax::indent::IndentPlace::Start);
    writer.write_str("");
    assert_eq!(writer.finish(), "  a\nb  c\n");
}

#[test]
fn indent_writer_writes_header_once() {
    let with = cab_syntax::indent::IndentWith { text: "ab ".to_string(), width: 3 };
    let mut writer =
        cab_syntax::indent::indent_with(String::from("> "), 5, with).expect("the header fits");
    writer.write_indent();
    assert_eq!(writer.place, cab_syntax::indent::IndentPlace::Middle);
    writer.write_str("x\n");
    writer.write_str("y");
    assert_eq!(writer.finish(), "> ab   x\n     y");

    let wide = cab_syntax::indent::IndentWith { text: "abc".to_string(), width: 3 };
    assert!(cab_syntax::indent::indent_with(String::new(), 2, wide).is_none());
}

#[test]
fn validate_if_requires_else() {
    let full = Tree::Node(
        Kind::NODE_IF,
        vec![
            Tree::Token(Kind::TOKEN_KEYWORD_IF, "if"),
            identifier("c"),
            Tree::Token(Kind::TOKEN_KEYWORD_THEN, "then"),
            identifier("a"),
            Tree::Token(Kind::TOKEN_KEYWORD_ELSE, "else"),
            identifier("b"),
        ],
    );
    assert!(validate(full).is_empty());
    let open = Tree::Node(
        Kind::NODE_IF,
        vec![
            Tree::Token(Kind::TOKEN_KEYWORD_IF, "if"),
            identifier("c"),
            Tree::Token(Kind::TOKEN_KEYWORD_THEN, "then"),
            identifier("a"),
        ],
    );
    let reports = validate(open);
    assert_eq!(reports.len(), 1);
    assert_eq!(reports[0].title, "if without else");
    assert_eq!(reports[0].labels.len(), 2);
    assert_eq!(reports[0].labels[0].span, Span { start: 8, end: 8 });
    assert_eq!(reports[0].labels[1].span, Span { start: 0, end: 2 });
}
