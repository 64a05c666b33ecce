use cab_syntax::kind::Kind;
use cab_syntax::tokenizer::{tokenize, Tokenizer};

fn assert_tokens(source: &str, expected: &[(Kind, &str)]) {
    let tokens = tokenize(source);
    assert_eq!(tokens.as_slice(), expected);
}

#[test]
fn no_empty_tokens() {
    assert_tokens(
        r#""foo \(bar)""#,
        &[
            (Kind::TOKEN_STRING_START, r#"""#),
            (Kind::TOKEN_CONTENT, "foo "),
            (Kind::TOKEN_INTERPOLATION_START, r"\("),
            (Kind::TOKEN_IDENTIFIER, "bar"),
            (Kind::TOKEN_INTERPOLATION_END, ")"),
            (Kind::TOKEN_STRING_END, r#"""#),
        ],
    );
}

#[test]
fn number_errors() {
    assert_tokens(
        "0b__e 0x0 0x123.0e 0o777.0e",
        &[
            (Kind::TOKEN_ERROR_NUMBER_NO_DIGIT, "0b__"),
            (Kind::TOKEN_IDENTIFIER, "e"),
            (Kind::TOKEN_WHITESPACE, " "),
            (Kind::TOKEN_INTEGER, "0x0"),
            (Kind::TOKEN_WHITESPACE, " "),
            (Kind::TOKEN_FLOAT, "0x123.0e"), // e is a valid hexadecimal digit.
            (Kind::TOKEN_WHITESPACE, " "),
            (Kind::TOKEN_ERROR_FLOAT_NO_EXPONENT, "0o777.0e"),
        ],
    );
}

#[test]
fn path() {
    assert_tokens(
        r"../foo\(𓃰)///baz",
        &[
            (Kind::TOKEN_PATH_START, ""),
            (Kind::TOKEN_CONTENT, "../foo"),
            (Kind::TOKEN_INTERPOLATION_START, r"\("),
            (Kind::TOKEN_IDENTIFIER, "𓃰"),
            (Kind::TOKEN_INTERPOLATION_END, ")"),
            (Kind::TOKEN_CONTENT, "///baz"),
            (Kind::TOKEN_PATH_END, ""),
        ],
    );
}

#[test]
fn errors_are_individual() {
    assert_tokens(
        "~~~",
        &[
            (Kind::TOKEN_ERROR_UNKNOWN, "~"),
            (Kind::TOKEN_ERROR_UNKNOWN, "~"),
            (Kind::TOKEN_ERROR_UNKNOWN, "~"),
        ],
    );
}

#[test]
fn empty_source_has_no_tokens() {
    assert_tokens("", &[]);
}

#[test]
fn punctuation_prefers_two_characters() {
    assert_tokens(
        "<|>=>++//!=<=>=&&||->",
        &[
            (Kind::TOKEN_LESS_PIPE, "<|"),
            (Kind::TOKEN_MORE_EQUAL, ">="),
            (Kind::TOKEN_MORE, ">"),
            (Kind::TOKEN_PLUS_PLUS, "++"),
            (Kind::TOKEN_SLASH_SLASH, "//"),
            (Kind::TOKEN_EXCLAMATION_EQUAL, "!="),
            (Kind::TOKEN_LESS_EQUAL, "<="),
            (Kind::TOKEN_MORE_EQUAL, ">="),
            (Kind::TOKEN_AMPERSAND_AMPERSAND, "&&"),
            (Kind::TOKEN_PIPE_PIPE, "||"),
            (Kind::TOKEN_MINUS_MORE, "->"),
        ],
    );
    assert_tokens(
        "|> => ; ? , : [ ] { } = ! & | + - * ^ @ . / < >",
        &[
            (Kind::TOKEN_PIPE_MORE, "|>"),
            (Kind::TOKEN_WHITESPACE, " "),
            (Kind::TOKEN_EQUAL_GREATER, "=>"),
            (Kind::TOKEN_WHITESPACE, " "),
            (Kind::TOKEN_SEMICOLON, ";"),
            (Kind::TOKEN_WHITESPACE, " "),
            (Kind::TOKEN_QUESTIONMARK, "?"),
            (Kind::TOKEN_WHITESPACE, " "),
            (Kind::TOKEN_COMMA, ","),
            (Kind::TOKEN_WHITESPACE, " "),
            (Kind::TOKEN_COLON, ":"),
            (Kind::TOKEN_WHITESPACE, " "),
            (Kind::TOKEN_BRACKET_LEFT, "["),
            (Kind::TOKEN_WHITESPACE, " "),
            (Kind::TOKEN_BRACKET_RIGHT, "]"),
            (Kind::TOKEN_WHITESPACE, " "),
            (Kind::TOKEN_CURLYBRACE_LEFT, "{"),
            (Kind::TOKEN_WHITESPACE, " "),
            (Kind::TOKEN_CURLYBRACE_RIGHT, "}"),
            (Kind::TOKEN_WHITESPACE, " "),
            (Kind::TOKEN_EQUAL, "="),
            (Kind::TOKEN_WHITESPACE, " "),
            (Kind::TOKEN_EXCLAMATIONMARK, "!"),
            (Kind::TOKEN_WHITESPACE, " "),
            (Kind::TOKEN_AMPERSAND, "&"),
            (Kind::TOKEN_WHITESPACE, " "),
            (Kind::TOKEN_PIPE, "|"),
            (Kind::TOKEN_WHITESPACE, " "),
            (Kind::TOKEN_PLUS, "+"),
            (Kind::TOKEN_WHITESPACE, " "),
            (Kind::TOKEN_MINUS, "-"),
            (Kind::TOKEN_WHITESPACE, " "),
            (Kind::TOKEN_ASTERISK, "*"),
            (Kind::TOKEN_WHITESPACE, " "),
            (Kind::TOKEN_CARET, "^"),
            (Kind::TOKEN_WHITESPACE, " "),
            (Kind::TOKEN_AT, "@"),
            (Kind::TOKEN_WHITESPACE, " "),
            (Kind::TOKEN_PERIOD, "."),
            (Kind::TOKEN_WHITESPACE, " "),
            (Kind::TOKEN_SLASH, "/"),
            (Kind::TOKEN_WHITESPACE, " "),
            (Kind::TOKEN_LESS, "<"),
            (Kind::TOKEN_WHITESPACE, " "),
            (Kind::TOKEN_MORE, ">"),
        ],
    );
}

#[test]
fn keywords_and_identifiers() {
    assert_tokens(
        "if then else iff the else' _x a-b",
        &[
            (Kind::TOKEN_KEYWORD_IF, "if"),
            (Kind::TOKEN_WHITESPACE, " "),
            (Kind::TOKEN_KEYWORD_THEN, "then"),
            (Kind::TOKEN_WHITESPACE, " "),
            (Kind::TOKEN_KEYWORD_ELSE, "else"),
            (Kind::TOKEN_WHITESPACE, " "),
            (Kind::TOKEN_IDENTIFIER, "iff"),
            (Kind::TOKEN_WHITESPACE, " "),
            (Kind::TOKEN_IDENTIFIER, "the"),
            (Kind::TOKEN_WHITESPACE, " "),
            (Kind::TOKEN_IDENTIFIER, "else'"),
            (Kind::TOKEN_WHITESPACE, " "),
            (Kind::TOKEN_IDENTIFIER, "_x"),
            (Kind::TOKEN_WHITESPACE, " "),
            (Kind::TOKEN_IDENTIFIER, "a-b"),
        ],
    );
}

#[test]
fn decimal_numbers() {
    assert_tokens(
        "1_000 1.5 1.5e10 1.5e+ 2.0E-3 7.x 1._",
        &[
            (Kind::TOKEN_INTEGER, "1_000"),
            (Kind::TOKEN_WHITESPACE, " "),
            (Kind::TOKEN_FLOAT, "1.5"),
            (Kind::TOKEN_WHITESPACE, " "),
            (Kind::TOKEN_FLOAT, "1.5e10"),
            (Kind::TOKEN_WHITESPACE, " "),
            (Kind::TOKEN_ERROR_FLOAT_NO_EXPONENT, "1.5e+"),
            (Kind::TOKEN_WHITESPACE, " "),
            (Kind::TOKEN_FLOAT, "2.0E-3"),
            (Kind::TOKEN_WHITESPACE, " "),
            (Kind::TOKEN_INTEGER, "7"),
            (Kind::TOKEN_PERIOD, "."),
            (Kind::TOKEN_IDENTIFIER, "x"),
            (Kind::TOKEN_WHITESPACE, " "),
            (Kind::TOKEN_FLOAT, "1._"),
        ],
    );
}

#[test]
fn radix_number_without_digit_keeps_its_fraction() {
    assert_tokens(
        "0x_.1 0B1 0O7 0b",
        &[
            (Kind::TOKEN_ERROR_NUMBER_NO_DIGIT, "0x_.1"),
            (Kind::TOKEN_WHITESPACE, " "),
            (Kind::TOKEN_INTEGER, "0B1"),
            (Kind::TOKEN_WHITESPACE, " "),
            (Kind::TOKEN_INTEGER, "0O7"),
            (Kind::TOKEN_WHITESPACE, " "),
            (Kind::TOKEN_ERROR_NUMBER_NO_DIGIT, "0b"),
        ],
    );
}

#[test]
fn line_comment_stops_before_line_feed() {
    assert_tokens(
        "a # b c\nd",
        &[
            (Kind::TOKEN_IDENTIFIER, "a"),
            (Kind::TOKEN_WHITESPACE, " "),
            (Kind::TOKEN_COMMENT, "# b c"),
            (Kind::TOKEN_WHITESPACE, "\n"),
            (Kind::TOKEN_IDENTIFIER, "d"),
        ],
    );
}

#[test]
fn block_comment_closes_on_same_number_of_equals() {
    assert_tokens(
        "#== a =# b ==# c",
        &[
            (Kind::TOKEN_COMMENT, "#== a =# b ==#"),
            (Kind::TOKEN_WHITESPACE, " "),
            (Kind::TOKEN_IDENTIFIER, "c"),
        ],
    );
}

#[test]
fn block_comment_is_not_closed_by_longer_run() {
    assert_tokens("#= ==# x", &[(Kind::TOKEN_COMMENT, "#= ==# x")]);
}

#[test]
fn block_comments_nest() {
    assert_tokens(
        "#= a #== b =# c ==# d =# e",
        &[
            (Kind::TOKEN_COMMENT, "#= a #== b =# c ==# d =#"),
            (Kind::TOKEN_WHITESPACE, " "),
            (Kind::TOKEN_IDENTIFIER, "e"),
        ],
    );
}

#[test]
fn string_with_equals_delimiter() {
    assert_tokens(
        r#""==a"b=="c"#,
        &[
            (Kind::TOKEN_STRING_START, r#""=="#),
            (Kind::TOKEN_CONTENT, r#"a"b"#),
            (Kind::TOKEN_STRING_END, r#"==""#),
            (Kind::TOKEN_IDENTIFIER, "c"),
        ],
    );
}

#[test]
fn empty_string_has_no_content() {
    assert_tokens(
        r#""""#,
        &[(Kind::TOKEN_STRING_START, r#"""#), (Kind::TOKEN_STRING_END, r#"""#)],
    );
}

#[test]
fn unclosed_string_ends_with_content() {
    assert_tokens(
        r#""abc"#,
        &[(Kind::TOKEN_STRING_START, r#"""#), (Kind::TOKEN_CONTENT, "abc")],
    );
    assert_tokens(r#"""#, &[(Kind::TOKEN_STRING_START, r#"""#)]);
}

#[test]
fn escape_takes_next_character_as_content() {
    assert_tokens(
        r#""a\"b""#,
        &[
            (Kind::TOKEN_STRING_START, r#"""#),
            (Kind::TOKEN_CONTENT, r#"a\"b"#),
            (Kind::TOKEN_STRING_END, r#"""#),
        ],
    );
}

#[test]
fn rune_and_quoted_identifier() {
    assert_tokens(
        "'a' `b c`",
        &[
            (Kind::TOKEN_RUNE_START, "'"),
            (Kind::TOKEN_CONTENT, "a"),
            (Kind::TOKEN_RUNE_END, "'"),
            (Kind::TOKEN_WHITESPACE, " "),
            (Kind::TOKEN_IDENTIFIER_START, "`"),
            (Kind::TOKEN_CONTENT, "b c"),
            (Kind::TOKEN_IDENTIFIER_END, "`"),
        ],
    );
}

#[test]
fn interpolation_counts_parentheses() {
    assert_tokens(
        r#""\((a))b""#,
        &[
            (Kind::TOKEN_STRING_START, r#"""#),
            (Kind::TOKEN_INTERPOLATION_START, r"\("),
            (Kind::TOKEN_PARENTHESIS_LEFT, "("),
            (Kind::TOKEN_IDENTIFIER, "a"),
            (Kind::TOKEN_PARENTHESIS_RIGHT, ")"),
            (Kind::TOKEN_INTERPOLATION_END, ")"),
            (Kind::TOKEN_CONTENT, "b"),
            (Kind::TOKEN_STRING_END, r#"""#),
        ],
    );
}

#[test]
fn island_header() {
    assert_tokens(
        "<github:foo>",
        &[
            (Kind::TOKEN_ISLAND_HEADER_START, "<"),
            (Kind::TOKEN_CONTENT, "github"),
            (Kind::TOKEN_ISLAND_HEADER_END, ":"),
            (Kind::TOKEN_IDENTIFIER, "foo"),
            (Kind::TOKEN_MORE, ">"),
        ],
    );
    assert_tokens(
        "<a>",
        &[
            (Kind::TOKEN_ISLAND_HEADER_START, "<"),
            (Kind::TOKEN_CONTENT, "a"),
            (Kind::TOKEN_ISLAND_HEADER_END, ">"),
        ],
    );
}

#[test]
fn path_starts() {
    assert_tokens(
        "./a /b",
        &[
            (Kind::TOKEN_PATH_START, ""),
            (Kind::TOKEN_CONTENT, "./a"),
            (Kind::TOKEN_PATH_END, ""),
            (Kind::TOKEN_WHITESPACE, " "),
            (Kind::TOKEN_PATH_START, ""),
            (Kind::TOKEN_CONTENT, "/b"),
            (Kind::TOKEN_PATH_END, ""),
        ],
    );
    assert_tokens(
        r"\(a)",
        &[
            (Kind::TOKEN_PATH_START, ""),
            (Kind::TOKEN_INTERPOLATION_START, r"\("),
            (Kind::TOKEN_IDENTIFIER, "a"),
            (Kind::TOKEN_INTERPOLATION_END, ")"),
            (Kind::TOKEN_PATH_END, ""),
        ],
    );
}

fn check_cover(source: &str) {
    let tokens = tokenize(source);
    let mut joined = String::new();
    for (kind, slice) in &tokens {
        if slice.is_empty() {
            assert!(matches!(kind, Kind::TOKEN_PATH_START | Kind::TOKEN_PATH_END));
        }
        joined.push_str(slice);
    }
    assert_eq!(joined, source);
}

#[test]
fn slices_cover_the_source() {
    check_cover("");
    check_cover(r#"foo = "a \(b + "c \(d) e") f" ; ../x\(y)z #= c =# <i:j> 'r' `q`"#);
    check_cover("\"unclosed \\(1 + (2");
    check_cover("é ñ 𓃰 \u{85} ~ \\");
    check_cover("\"\\");
    check_cover("<a\\(b)c");
}

#[test]
fn pull_interface_hands_out_the_same_tokens() {
    let source = r#"f "x \(y)" ./p"#;
    let mut tokenizer = Tokenizer::new(source);
    let mut pulled = Vec::new();
    while let Some(token) = tokenizer.next() {
        pulled.push(token);
    }
    assert_eq!(pulled, tokenize(source));
    assert_eq!(tokenizer.next(), None);
}
