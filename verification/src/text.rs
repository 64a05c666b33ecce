//! Character-level helpers shared by the tokenizer and the validator.

use vstd::prelude::*;
use vstd::utf8::{
    char_is_scalar, encode_scalar, encode_utf8, encode_utf8_decode_utf8, encode_utf8_first_scalar,
    encode_utf8_valid_utf8, is_char_boundary, pop_first_scalar,
};

verus! {

/// Whether a character has the Unicode `White_Space` property.
pub uninterp spec fn whitespace(c: char) -> bool;

/// Whether a character is alphabetic or numeric in Unicode's sense.
pub uninterp spec fn alphanumeric(c: char) -> bool;

/// Whether a character is a Unicode control code.
pub uninterp spec fn control(c: char) -> bool;

/// `char::is_whitespace`. The answer is a fixed property of the character,
/// which is all the contract says of it.
#[verifier::external_body]
pub(crate) fn is_whitespace(c: char) -> (result: bool)
    ensures
        result == whitespace(c),
{
    c.is_whitespace()
}

/// `char::is_alphanumeric`. The answer is a fixed property of the character,
/// which is all the contract says of it.
#[verifier::external_body]
pub(crate) fn is_alphanumeric(c: char) -> (result: bool)
    ensures
        result == alphanumeric(c),
{
    c.is_alphanumeric()
}

/// `char::is_control`. The answer is a fixed property of the character,
/// which is all the contract says of it.
#[verifier::external_body]
pub(crate) fn is_control(c: char) -> (result: bool)
    ensures
        result == control(c),
{
    c.is_control()
}

/// The decimal digits `0` to `9`.
pub open spec fn ascii_digit(c: char) -> bool {
    '0' <= c <= '9'
}

/// The digits of base sixteen, in either case.
pub open spec fn ascii_hexdigit(c: char) -> bool {
    ascii_digit(c) || 'a' <= c <= 'f' || 'A' <= c <= 'F'
}

/// The characters an identifier may continue with.
pub open spec fn identifier_character(c: char) -> bool {
    alphanumeric(c) || c == '_' || c == '-' || c == '\''
}

/// The characters an identifier may start with.
pub open spec fn initial_identifier_character(c: char) -> bool {
    !(ascii_digit(c) || c == '-' || c == '\'') && identifier_character(c)
}

/// The characters a path is made of.
pub open spec fn path_character(c: char) -> bool {
    alphanumeric(c) || c == '.' || c == '/' || c == '_' || c == '-' || c == '\\'
}

/// Whether the character is one of `0` to `9`.
pub fn is_ascii_digit(c: char) -> (result: bool)
    ensures
        result == ascii_digit(c),
{
    '0' <= c && c <= '9'
}

/// Whether the character is a digit of base sixteen.
pub fn is_ascii_hexdigit(c: char) -> (result: bool)
    ensures
        result == ascii_hexdigit(c),
{
    is_ascii_digit(c) || ('a' <= c && c <= 'f') || ('A' <= c && c <= 'F')
}

/// Whether an identifier may start with the character.
pub fn is_valid_initial_identifier_character(c: char) -> (result: bool)
    ensures
        result == initial_identifier_character(c),
{
    let invalid = is_ascii_digit(c) || c == '-' || c == '\'';

    !invalid && is_valid_identifier_character(c)
}

/// Whether an identifier may continue with the character.
pub fn is_valid_identifier_character(c: char) -> (result: bool)
    ensures
        result == identifier_character(c),
{
    is_alphanumeric(c) || c == '_' || c == '-' || c == '\''
}

/// Whether a path may hold the character.
pub fn is_valid_path_character(c: char) -> (result: bool)
    ensures
        result == path_character(c),
{
    is_alphanumeric(c) || c == '.' || c == '/' || c == '_' || c == '-' || c == '\\'
}

/// A set of characters that a run is made of.
#[derive(Debug, Clone, Copy, PartialEq, Eq, Structural)]
pub enum CharClass {
    /// Unicode whitespace.
    Whitespace,
    /// The character `=`.
    Equals,
    /// Everything but a line feed.
    NotNewline,
    /// `0`, `1` and the separator `_`.
    Binary,
    /// `0` to `7` and the separator `_`.
    Octal,
    /// `0` to `9` and the separator `_`.
    Decimal,
    /// The digits of base sixteen and the separator `_`.
    Hexadecimal,
    /// The characters an identifier continues with.
    Identifier,
}

impl CharClass {
    /// Whether the character belongs to the class.
    pub open spec fn has(self, c: char) -> bool {
        match self {
            CharClass::Whitespace => whitespace(c),
            CharClass::Equals => c == '=',
            CharClass::NotNewline => c != '\n',
            CharClass::Binary => c == '0' || c == '1' || c == '_',
            CharClass::Octal => '0' <= c <= '7' || c == '_',
            CharClass::Decimal => ascii_digit(c) || c == '_',
            CharClass::Hexadecimal => ascii_hexdigit(c) || c == '_',
            CharClass::Identifier => identifier_character(c),
        }
    }

    /// Whether the character belongs to the class.
    pub fn contains(self, c: char) -> (result: bool)
        ensures
            result == self.has(c),
    {
        match self {
            CharClass::Whitespace => is_whitespace(c),
            CharClass::Equals => c == '=',
            CharClass::NotNewline => c != '\n',
            CharClass::Binary => c == '0' || c == '1' || c == '_',
            CharClass::Octal => ('0' <= c && c <= '7') || c == '_',
            CharClass::Decimal => is_ascii_digit(c) || c == '_',
            CharClass::Hexadecimal => is_ascii_hexdigit(c) || c == '_',
            CharClass::Identifier => is_valid_identifier_character(c),
        }
    }
}

/// The character at a position, if the position is inside the text.
pub open spec fn peek(text: Seq<char>, at: int) -> Option<char> {
    if 0 <= at < text.len() {
        Some(text[at])
    } else {
        None
    }
}

/// The end of the longest run of characters of a class that starts at `from`.
pub open spec fn scan_while(text: Seq<char>, from: int, class: CharClass) -> int
    decreases text.len() - from,
{
    if 0 <= from < text.len() && class.has(text[from]) {
        scan_while(text, from + 1, class)
    } else {
        from
    }
}

/// Whether every character from `from` up to `to` is the separator `_`.
pub open spec fn all_underscores(text: Seq<char>, from: int, to: int) -> bool {
    forall|i: int| from <= i < to ==> #[trigger] text[i] == '_'
}

/// Whether `count` characters `=` stand at `at`.
pub open spec fn equals_at(text: Seq<char>, at: int, count: int) -> bool {
    &&& at + count <= text.len()
    &&& forall|i: int| at <= i < at + count ==> #[trigger] text[i] == '='
}

/// The width in bytes of a character's UTF-8 encoding.
pub open spec fn char_width(c: char) -> nat {
    if (c as u32) < 0x80 {
        1
    } else if (c as u32) < 0x800 {
        2
    } else if (c as u32) < 0x10000 {
        3
    } else {
        4
    }
}

/// The length in bytes of a text's UTF-8 encoding.
pub open spec fn utf8_len(text: Seq<char>) -> nat {
    encode_utf8(text).len()
}

/// The encoding of a text of one character is as long as the character is
/// wide.
pub proof fn lemma_utf8_len_of_one(c: char)
    ensures
        utf8_len(seq![c]) == char_width(c),
{
    char_is_scalar(c);
    let text = seq![c];
    assert(text.drop_first() =~= Seq::<char>::empty());
    assert(encode_utf8(text.drop_first()) =~= Seq::<u8>::empty());
    assert(encode_utf8(text) =~= encode_scalar(c as u32));
}

/// The encoding of two texts, joined, is the encodings of both, joined.
pub proof fn lemma_encoding_of_joined(first: Seq<char>, second: Seq<char>)
    ensures
        encode_utf8(first + second) == encode_utf8(first) + encode_utf8(second),
    decreases first.len(),
{
    if first.len() == 0 {
        assert(first + second =~= second);
        assert(encode_utf8(first) =~= Seq::<u8>::empty());
        assert(encode_utf8(first) + encode_utf8(second) =~= encode_utf8(second));
    } else {
        lemma_encoding_of_joined(first.drop_first(), second);
        assert((first + second).drop_first() =~= first.drop_first() + second);
        assert((first + second)[0] == first[0]);
        assert(encode_scalar(first[0] as u32) + (encode_utf8(first.drop_first()) + encode_utf8(
            second,
        )) =~= (encode_scalar(first[0] as u32) + encode_utf8(first.drop_first())) + encode_utf8(
            second,
        ));
    }
}

/// The encoding of two texts, joined, is as long as both encodings
/// together.
pub proof fn lemma_utf8_len_of_joined(first: Seq<char>, second: Seq<char>)
    ensures
        utf8_len(first + second) == utf8_len(first) + utf8_len(second),
{
    lemma_encoding_of_joined(first, second);
}

/// In the encoding of two texts, joined, a character starts where the
/// encoding of the first text ends.
pub proof fn lemma_boundary_of_joined(first: Seq<char>, second: Seq<char>)
    ensures
        is_char_boundary(encode_utf8(first + second), encode_utf8(first).len() as int),
    decreases first.len(),
{
    let text = first + second;
    let bytes = encode_utf8(text);
    encode_utf8_valid_utf8(text);
    if first.len() == 0 {
        assert(encode_utf8(first) =~= Seq::<u8>::empty());
    } else {
        lemma_encoding_of_joined(first, second);
        encode_utf8_first_scalar(text);
        assert(text[0] == first[0]);
        assert(text.drop_first() =~= first.drop_first() + second);
        assert(pop_first_scalar(bytes) =~= encode_utf8(text.drop_first()));
        lemma_boundary_of_joined(first.drop_first(), second);
    }
}

/// Two texts with the same encoding are the same.
pub proof fn lemma_same_encoding(first: Seq<char>, second: Seq<char>)
    requires
        encode_utf8(first) == encode_utf8(second),
    ensures
        first == second,
{
    encode_utf8_decode_utf8(first);
    encode_utf8_decode_utf8(second);
}

/// A stretch of a text is encoded in no more bytes than the text, and two
/// stretches that follow one another in as many bytes as the stretch they
/// make up.
pub proof fn lemma_utf8_len_of_stretch(text: Seq<char>, from: int, middle: int, to: int)
    requires
        0 <= from <= middle <= to <= text.len(),
    ensures
        utf8_len(text.subrange(from, to)) == utf8_len(text.subrange(from, middle)) + utf8_len(
            text.subrange(middle, to),
        ),
        utf8_len(text.subrange(from, to)) <= utf8_len(text),
{
    lemma_utf8_len_of_joined(text.subrange(from, middle), text.subrange(middle, to));
    assert(text.subrange(from, middle) + text.subrange(middle, to) =~= text.subrange(from, to));
    lemma_utf8_len_of_joined(text.subrange(0, from), text.subrange(from, to));
    assert(text.subrange(0, from) + text.subrange(from, to) =~= text.subrange(0, to));
    lemma_utf8_len_of_joined(text.subrange(0, to), text.subrange(to, text.len() as int));
    assert(text.subrange(0, to) + text.subrange(to, text.len() as int) =~= text);
}

/// Returns the width in bytes of a character's UTF-8 encoding.
pub fn width_of(c: char) -> (result: usize)
    ensures
        result == char_width(c),
        1 <= result <= 4,
{
    let code: u32 = c as u32;
    if code < 0x80 {
        1
    } else if code < 0x800 {
        2
    } else if code < 0x10000 {
        3
    } else {
        4
    }
}

/// Collects the characters of a string slice, in order. The slice is held
/// in memory, so the length of its encoding is a number of the machine.
pub fn characters(source: &str) -> (result: Vec<char>)
    ensures
        result@ == source@,
        utf8_len(result@) <= usize::MAX,
{
    let bytes: usize = source.as_bytes().len();
    let mut result: Vec<char> = Vec::new();
    for c in it: source.chars()
        invariant
            result@ == it.seq().take(it.index()),
            it.seq() == source@,
    {
        result.push(c);
    }
    result
}

/// Returns the length in bytes of the encoding of the characters from
/// `from` up to `to`.
pub fn encoded_len(text: &[char], from: usize, to: usize) -> (result: usize)
    requires
        from <= to <= text.len(),
        utf8_len(text@) <= usize::MAX,
    ensures
        result == utf8_len(text@.subrange(from as int, to as int)),
{
    let mut total: usize = 0;
    let mut at: usize = from;
    proof {
        assert(text@.subrange(from as int, from as int) =~= Seq::<char>::empty());
        assert(encode_utf8(Seq::<char>::empty()) =~= Seq::<u8>::empty());
    }
    while at < to
        invariant
            from <= at <= to <= text.len(),
            utf8_len(text@) <= usize::MAX,
            total == utf8_len(text@.subrange(from as int, at as int)),
        decreases to - at,
    {
        proof {
            lemma_utf8_len_of_stretch(text@, from as int, at as int, at + 1);
            assert(text@.subrange(at as int, at + 1) =~= seq![text@[at as int]]);
            lemma_utf8_len_of_one(text@[at as int]);
        }
        total += width_of(text[at]);
        at += 1;
    }
    total
}

/// Returns the slice of a source that holds its characters from `from` up
/// to `to`, which are known to the caller alone, given where the slice
/// starts and how long it is in bytes.
pub(crate) fn slice_of<'a>(
    source: &'a str,
    start: usize,
    length: usize,
    Ghost(from): Ghost<int>,
    Ghost(to): Ghost<int>,
) -> (result: &'a str)
    requires
        0 <= from <= to <= source@.len(),
        start == utf8_len(source@.subrange(0, from)),
        length == utf8_len(source@.subrange(from, to)),
    ensures
        result@ == source@.subrange(from, to),
{
    let ghost before = source@.subrange(0, from);
    let ghost behind = source@.subrange(from, source@.len() as int);
    let ghost wanted = source@.subrange(from, to);
    let ghost left = source@.subrange(to, source@.len() as int);
    proof {
        assert(before + behind =~= source@);
        lemma_boundary_of_joined(before, behind);
        lemma_encoding_of_joined(before, behind);
    }
    let (_, rest) = source.split_at(start);
    proof {
        assert(encode_utf8(rest@) =~= encode_utf8(behind));
        lemma_same_encoding(rest@, behind);
        assert(wanted + left =~= behind);
        lemma_boundary_of_joined(wanted, left);
        lemma_encoding_of_joined(wanted, left);
    }
    let (slice, _) = rest.split_at(length);
    proof {
        assert(encode_utf8(slice@) =~= encode_utf8(wanted));
        lemma_same_encoding(slice@, wanted);
    }
    slice
}

/// Returns the character at a position, if the position is inside the text.
pub fn peek_character(text: &[char], at: usize) -> (result: Option<char>)
    ensures
        result == peek(text@, at as int),
{
    if at < text.len() {
        Some(text[at])
    } else {
        None
    }
}

/// Returns the end of the longest run of characters of a class that starts
/// at `from`.
pub fn consume_while(text: &[char], from: usize, class: CharClass) -> (end: usize)
    requires
        from <= text.len(),
    ensures
        end == scan_while(text@, from as int, class),
        from <= end <= text.len(),
        forall|i: int| from <= i < end ==> class.has(#[trigger] text@[i]),
        end < text.len() ==> !class.has(text@[end as int]),
{
    let mut end: usize = from;
    while end < text.len() && class.contains(text[end])
        invariant
            from <= end <= text.len(),
            scan_while(text@, from as int, class) == scan_while(text@, end as int, class),
            forall|i: int| from <= i < end ==> class.has(#[trigger] text@[i]),
        decreases text.len() - end,
    {
        end += 1;
    }
    end
}

/// Whether every character from `from` up to `to` is the separator `_`.
pub fn is_all_underscores(text: &[char], from: usize, to: usize) -> (result: bool)
    requires
        from <= to <= text.len(),
    ensures
        result == all_underscores(text@, from as int, to as int),
{
    let mut at: usize = from;
    while at < to
        invariant
            from <= at <= to <= text.len(),
            all_underscores(text@, from as int, at as int),
        decreases to - at,
    {
        if text[at] != '_' {
            return false;
        }
        at += 1;
    }
    true
}

/// Whether `count` characters `=` stand at `at`.
pub fn has_equals_at(text: &[char], at: usize, count: usize) -> (result: bool)
    requires
        at <= text.len(),
    ensures
        result == equals_at(text@, at as int, count as int),
{
    if count > text.len() - at {
        return false;
    }
    let mut seen: usize = 0;
    while seen < count
        invariant
            seen <= count,
            at + count <= text.len(),
            equals_at(text@, at as int, seen as int),
        decreases count - seen,
    {
        if text[at + seen] != '=' {
            return false;
        }
        seen += 1;
    }
    true
}

} // verus!
