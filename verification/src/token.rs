//! Tokens of the earlier character-by-character scanning stage: a token is
//! recognised from an accumulated piece of text, either as one of the fixed
//! keyword spellings or by the shape of a quoted literal or identifier.

use crate::text::str_eq;
use vstd::prelude::*;
use vstd::string::StrSliceExecFns;

verus! {

/// The kind of a scanned token.
#[derive(Debug, Clone, Copy, PartialEq, Eq, Structural)]
pub enum TokenType {
    Dot,
    StringLiteral,
    Identifier,
    Skriv,
    Spara,
    I,
    Eof,
}

/// One scanned token: its kind, the text it was recognised from, and that
/// text's length in characters.
#[derive(Debug)]
pub struct Token {
    pub token_type: TokenType,
    pub content: String,
    pub length: usize,
}

/// Mathematical model of a [`Token`].
pub struct TokenView {
    pub token_type: TokenType,
    pub content: Seq<char>,
    pub length: int,
}

impl View for Token {
    type V = TokenView;

    open spec fn view(&self) -> TokenView {
        TokenView {
            token_type: self.token_type,
            content: self.content@,
            length: self.length as int,
        }
    }
}

/// A text that begins and ends with a double quote, has at least two
/// characters, and holds no newline in between.
pub open spec fn double_quoted(s: Seq<char>) -> bool {
    &&& s.len() >= 2
    &&& s[0] == '"'
    &&& s[s.len() - 1] == '"'
    &&& (forall|j: int| 0 < j < s.len() - 1 ==> s[j] != '\n')
}

/// A text that begins and ends with a single quote, has at least two
/// characters, and holds no newline in between.
pub open spec fn single_quoted(s: Seq<char>) -> bool {
    &&& s.len() >= 2
    &&& s[0] == '\''
    &&& s[s.len() - 1] == '\''
    &&& (forall|j: int| 0 < j < s.len() - 1 ==> s[j] != '\n')
}

/// Relies on regex::Regex::is_match with the anchored pattern "^\"(.*)\"$":
/// with multi-line mode off, `^` and `$` match only at the two ends of the
/// haystack and `.` matches any character except a newline, so the haystack
/// matches exactly when [`double_quoted`] holds of its characters.
#[verifier::external_body]
fn matches_double_quoted(source: &str) -> (r: bool)
    ensures
        r == double_quoted(source@),
{
    let string_regex = regex::Regex::new("^\"(.*)\"$").expect("Failed to compile String regex");
    string_regex.is_match(source)
}

/// Relies on regex::Regex::is_match with the anchored pattern "^'(.*)'$",
/// under the same reading as [`matches_double_quoted`]: the haystack matches
/// exactly when [`single_quoted`] holds of its characters.
#[verifier::external_body]
fn matches_single_quoted(source: &str) -> (r: bool)
    ensures
        r == single_quoted(source@),
{
    let identifier_regex = regex::Regex::new("^'(.*)'$").expect(
        "Failed to compile Identifier regex",
    );
    identifier_regex.is_match(source)
}

/// The token recognised from a piece of text, if any: the fixed spellings
/// first, then a double-quoted string literal, then a single-quoted
/// identifier. The token carries the text itself and its character count.
pub open spec fn spec_from_string(s: Seq<char>) -> Option<TokenView> {
    if s == "Spara"@ || s == "spara"@ {
        Some(TokenView { token_type: TokenType::Spara, content: s, length: s.len() as int })
    } else if s == "Skriv"@ || s == "skriv"@ {
        Some(TokenView { token_type: TokenType::Skriv, content: s, length: s.len() as int })
    } else if s == "I"@ || s == "i"@ {
        Some(TokenView { token_type: TokenType::I, content: s, length: s.len() as int })
    } else if s == "."@ {
        Some(TokenView { token_type: TokenType::Dot, content: s, length: s.len() as int })
    } else if double_quoted(s) {
        Some(
            TokenView { token_type: TokenType::StringLiteral, content: s, length: s.len() as int },
        )
    } else if single_quoted(s) {
        Some(TokenView { token_type: TokenType::Identifier, content: s, length: s.len() as int })
    } else {
        None
    }
}

impl Token {
    /// The token that `source` spells, if it spells one.
    pub fn from_string(source: &str) -> (r: Option<Token>)
        ensures
            match r {
                Some(t) => spec_from_string(source@) == Some(t@),
                None => spec_from_string(source@) is None,
            },
    {
        let length = source.unicode_len();
        if str_eq(source, "Spara") || str_eq(source, "spara") {
            Some(Token { token_type: TokenType::Spara, content: source.to_owned(), length })
        } else if str_eq(source, "Skriv") || str_eq(source, "skriv") {
            Some(Token { token_type: TokenType::Skriv, content: source.to_owned(), length })
        } else if str_eq(source, "I") || str_eq(source, "i") {
            Some(Token { token_type: TokenType::I, content: source.to_owned(), length })
        } else if str_eq(source, ".") {
            Some(Token { token_type: TokenType::Dot, content: source.to_owned(), length })
        } else if matches_double_quoted(source) {
            Some(
                Token {
                    token_type: TokenType::StringLiteral,
                    content: source.to_owned(),
                    length,
                },
            )
        } else if matches_single_quoted(source) {
            Some(Token { token_type: TokenType::Identifier, content: source.to_owned(), length })
        } else {
            None
        }
    }
}

} // verus!
