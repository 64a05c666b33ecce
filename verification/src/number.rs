//! The values of integer literals.

use vstd::prelude::*;
use vstd::string::StrSliceExecFns;

use crate::kind::Kind;
use crate::node::{token_of, Integer, TokenFilter};
use crate::text::characters;

verus! {

/// The decimal digits of the number that digits of a radix stand for, as
/// `num::BigInt` reads and writes it; none where they stand for no number.
pub uninterp spec fn decimal_of(digits: Seq<char>, radix: u32) -> Option<Seq<char>>;

/// `num::BigInt::parse_bytes`, and `to_string` on the number it returns.
/// Both depend on their arguments alone. The contract names the outcome and
/// says nothing more of it. The radix is kept within 2 and 36, outside of
/// which the parser panics.
#[verifier::external_body]
pub(crate) fn parse_decimal(digits: &str, radix: u32) -> (result: Option<String>)
    requires
        2 <= radix <= 36,
    ensures
        result.is_some() == decimal_of(digits@, radix).is_some(),
        result.is_some() ==> result.unwrap()@ == decimal_of(digits@, radix).unwrap(),
{
    match num::BigInt::parse_bytes(digits.as_bytes(), radix) {
        Some(value) => Some(value.to_string()),
        None => None,
    }
}

/// The radix of an integer literal: 2, 8 or 16 after the prefixes `0b`,
/// `0o` and `0x`, in either case, and 10 without a prefix.
pub open spec fn radix_of(text: Seq<char>) -> u32 {
    if text.len() >= 2 && text[0] == '0' {
        if text[1] == 'b' || text[1] == 'B' {
            2
        } else if text[1] == 'o' || text[1] == 'O' {
            8
        } else if text[1] == 'x' || text[1] == 'X' {
            16
        } else {
            10
        }
    } else {
        10
    }
}

/// The digits of an integer literal: what follows its prefix.
pub open spec fn digits_of(text: Seq<char>) -> Seq<char> {
    if radix_of(text) == 10 {
        text
    } else {
        text.subrange(2, text.len() as int)
    }
}

/// The value of an integer literal in decimal digits; none where the
/// literal stands for no number.
pub open spec fn integer_value(text: Seq<char>) -> Option<Seq<char>> {
    decimal_of(digits_of(text), radix_of(text))
}

/// Returns the radix of an integer literal.
pub fn radix(text: &str) -> (result: u32)
    ensures
        result == radix_of(text@),
        result == 2 || result == 8 || result == 10 || result == 16,
{
    let chars = characters(text);
    if chars.len() >= 2 && chars[0] == '0' {
        let prefix = chars[1];
        if prefix == 'b' || prefix == 'B' {
            2
        } else if prefix == 'o' || prefix == 'O' {
            8
        } else if prefix == 'x' || prefix == 'X' {
            16
        } else {
            10
        }
    } else {
        10
    }
}

/// Returns the value of an integer literal in decimal digits, or `None`
/// where the literal stands for no number.
pub fn integer_decimal(text: &str) -> (result: Option<String>)
    ensures
        result.is_some() == integer_value(text@).is_some(),
        result.is_some() ==> result.unwrap()@ == integer_value(text@).unwrap(),
{
    let base = radix(text);
    if base == 10 {
        parse_decimal(text, base)
    } else {
        parse_decimal(text.substring_char(2, text.unicode_len()), base)
    }
}

impl<'a> Integer<'a> {
    /// Returns the value of the integer in decimal digits, or `None` where
    /// the node holds no integer token or the token stands for no number.
    pub fn value(&self) -> (result: Option<String>)
        ensures
            match token_of(self.node, TokenFilter::Kind(Kind::TOKEN_INTEGER)) {
                Some(token) => result.is_some() == integer_value(token.text@).is_some()
                    && (result.is_some() ==> result.unwrap()@ == integer_value(
                    token.text@,
                ).unwrap()),
                None => result.is_none(),
            },
    {
        match self.token_integer() {
            Some(token) => integer_decimal(token.text.as_str()),
            None => None,
        }
    }
}

} // verus!
