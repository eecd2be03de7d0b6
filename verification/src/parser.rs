//! The parser: recursive descent with operator precedence directly over the
//! source characters, modelled one-to-one by spec functions over `Seq<char>`
//! so that `parse`'s contract pins the whole result down.
//!
//! Grammar notes, each a deliberate choice that callers may rely on:
//! - Statement keywords (`skriv`, `spara`, `om`) match independently of ASCII
//!   case and commit: after a keyword, any failure is a hard parse error.
//! - Chains of operators of equal precedence group to the right
//!   (`a minus b minus c` is `a - (b - c)`), because each precedence level
//!   recurses into itself for its right operand.
//! - A number word is tried before a variable name, so a bare word beginning
//!   with a number word is never a variable.
//! - Every print and assignment statement ends with a period; a conditional
//!   closes with the period of the last statement of its final branch.
//! - Parsing fails with the character offset where it stopped and a tag for
//!   the construct that was expected there; the whole input must be consumed.

use crate::ast::Expression;
use crate::ast::ExpressionView;
use crate::ast::Operator;
use crate::ast::Statement;
use crate::ast::StatementView;
use crate::ast::Term;
use crate::ast::TermView;
use crate::ast::lemma_stmts_deep;
use crate::ast::stmts_deep;
use vstd::prelude::*;
use vstd::string::StrSliceExecFns;
use vstd::string::StringExecFns;

verus! {

/// The construct a failed parse was looking for at the reported offset.
#[derive(Debug, Clone, Copy, PartialEq, Eq, Structural)]
pub enum Expected {
    /// A statement keyword.
    Statement,
    /// At least one space or tab.
    Space,
    /// The period that closes a statement.
    Period,
    /// The comma after a conditional's condition.
    Comma,
    /// A term: a number word, a string literal, or a variable name.
    Term,
    /// A variable name.
    Variable,
    /// The word between an assignment's expression and its variable.
    KeywordI,
}

/// Where parsing stopped and what was expected there; offsets count
/// characters from the start of the source.
#[derive(Debug, Clone, Copy, PartialEq, Eq, Structural)]
pub struct ParseError {
    pub offset: usize,
    pub expected: Expected,
}

/// The outcome of a parse function at a position: a value and the position
/// after it, or the rejection that stopped it.
pub enum Parsed<T> {
    Accept { value: T, next: int },
    Reject { at: int, expected: Expected },
}

/// Whether a character is a variable-name character.
pub uninterp spec fn alphabetic(c: char) -> bool;

/// Relies on char::is_alphabetic: whether the character is a letter, a
/// property of the character alone.
#[verifier::external_body]
fn is_alphabetic_char(c: char) -> (r: bool)
    ensures
        r == alphabetic(c),
{
    c.is_alphabetic()
}

/// A space or tab: the blank that keywords and operators require around
/// themselves.
pub open spec fn is_space(c: char) -> bool {
    c == ' ' || c == '\t'
}

/// Any whitespace accepted between statements and after list commas.
pub open spec fn is_multispace(c: char) -> bool {
    c == ' ' || c == '\t' || c == '\n' || c == '\r'
}

/// The first position at or after `i` that does not hold a space or tab.
pub open spec fn skip_sp(s: Seq<char>, i: int) -> int
    decreases s.len() - i,
        when 0 <= i <= s.len()
{
    if i < s.len() && is_space(s[i]) {
        skip_sp(s, i + 1)
    } else {
        i
    }
}

/// The first position at or after `i` that does not hold whitespace.
pub open spec fn skip_ms(s: Seq<char>, i: int) -> int
    decreases s.len() - i,
        when 0 <= i <= s.len()
{
    if i < s.len() && is_multispace(s[i]) {
        skip_ms(s, i + 1)
    } else {
        i
    }
}

/// The first position at or after `i` holding a double quote, or the end.
pub open spec fn scan_nonquote(s: Seq<char>, i: int) -> int
    decreases s.len() - i,
        when 0 <= i <= s.len()
{
    if i < s.len() && s[i] != '"' {
        scan_nonquote(s, i + 1)
    } else {
        i
    }
}

/// The first position at or after `i` holding a single quote, or the end.
pub open spec fn scan_nonsquote(s: Seq<char>, i: int) -> int
    decreases s.len() - i,
        when 0 <= i <= s.len()
{
    if i < s.len() && s[i] != '\'' {
        scan_nonsquote(s, i + 1)
    } else {
        i
    }
}

/// The first position at or after `i` whose character is not alphabetic.
pub open spec fn scan_alpha(s: Seq<char>, i: int) -> int
    decreases s.len() - i,
        when 0 <= i <= s.len()
{
    if i < s.len() && alphabetic(s[i]) {
        scan_alpha(s, i + 1)
    } else {
        i
    }
}

/// Whether the literal `lit` occurs at position `i` of `s`.
pub open spec fn lit_at(s: Seq<char>, i: int, lit: Seq<char>) -> bool {
    &&& 0 <= i
    &&& i + lit.len() <= s.len()
    &&& (forall|k: int| 0 <= k < lit.len() ==> s[i + k] == lit[k])
}

/// A character of the source against a lowercase keyword character: equal
/// outright, or its ASCII uppercase form.
pub open spec fn ascii_ci_eq(c: char, k: char) -> bool {
    c == k || c as u32 == k as u32 - 32
}

/// Whether the lowercase keyword `kw` occurs at position `i` of `s`, each
/// character matched independently of ASCII case.
pub open spec fn kw_at(s: Seq<char>, i: int, kw: Seq<char>) -> bool {
    &&& 0 <= i
    &&& i + kw.len() <= s.len()
    &&& (forall|k: int| 0 <= k < kw.len() ==> ascii_ci_eq(s[i + k], kw[k]))
}

/// The number word at `i`, if any: the first of the eleven table words that
/// occurs there, with its value and the position after it.
pub open spec fn spec_number_at(s: Seq<char>, i: int) -> Option<(i64, int)> {
    if lit_at(s, i, "noll"@) {
        Some((0i64, i + "noll"@.len()))
    } else if lit_at(s, i, "ett"@) {
        Some((1i64, i + "ett"@.len()))
    } else if lit_at(s, i, "två"@) {
        Some((2i64, i + "två"@.len()))
    } else if lit_at(s, i, "tre"@) {
        Some((3i64, i + "tre"@.len()))
    } else if lit_at(s, i, "fyra"@) {
        Some((4i64, i + "fyra"@.len()))
    } else if lit_at(s, i, "fem"@) {
        Some((5i64, i + "fem"@.len()))
    } else if lit_at(s, i, "sex"@) {
        Some((6i64, i + "sex"@.len()))
    } else if lit_at(s, i, "sju"@) {
        Some((7i64, i + "sju"@.len()))
    } else if lit_at(s, i, "åtta"@) {
        Some((8i64, i + "åtta"@.len()))
    } else if lit_at(s, i, "nio"@) {
        Some((9i64, i + "nio"@.len()))
    } else if lit_at(s, i, "tio"@) {
        Some((10i64, i + "tio"@.len()))
    } else {
        None
    }
}

/// The string literal at `i`, if any: a double quote, one or more characters
/// other than a double quote, and a closing double quote. The value is the
/// text between the quotes.
pub open spec fn spec_string_at(s: Seq<char>, i: int) -> Option<(Seq<char>, int)>
    recommends
        0 <= i <= s.len(),
{
    if i < s.len() && s[i] == '"' {
        let e = scan_nonquote(s, i + 1);
        if i + 1 < e && e < s.len() {
            Some((s.subrange(i + 1, e), e + 1))
        } else {
            None
        }
    } else {
        None
    }
}

/// The variable name at `i`, if any: a maximal non-empty run of alphabetic
/// characters, or, in the quoted form, a single quote, one or more characters
/// other than a single quote, and a closing single quote.
pub open spec fn spec_variable_at(s: Seq<char>, i: int) -> Option<(Seq<char>, int)>
    recommends
        0 <= i <= s.len(),
{
    if i < s.len() && s[i] == '\'' {
        let e = scan_nonsquote(s, i + 1);
        if i + 1 < e && e < s.len() {
            Some((s.subrange(i + 1, e), e + 1))
        } else {
            None
        }
    } else {
        let e = scan_alpha(s, i);
        if i < e {
            Some((s.subrange(i, e), e))
        } else {
            None
        }
    }
}

/// The term at `i`: a number word first, then a string literal, then a
/// variable name; the first alternative that matches wins.
pub open spec fn spec_term_at(s: Seq<char>, i: int) -> Parsed<TermView>
    recommends
        0 <= i <= s.len(),
{
    match spec_number_at(s, i) {
        Some(p) => Parsed::Accept { value: TermView::Number(p.0), next: p.1 },
        None => match spec_string_at(s, i) {
            Some(p) => Parsed::Accept { value: TermView::StringLiteral(p.0), next: p.1 },
            None => match spec_variable_at(s, i) {
                Some(p) => Parsed::Accept { value: TermView::Variable(p.0), next: p.1 },
                None => Parsed::Reject { at: i, expected: Expected::Term },
            },
        },
    }
}

/// The multiplication level: a term, optionally followed by spaces, a
/// multiplicative operator word, spaces again, and the level itself as the
/// right operand (grouping to the right).
pub open spec fn spec_mul_div(s: Seq<char>, i: int) -> Parsed<ExpressionView>
    decreases s.len() - i, 2int,
        when 0 <= i <= s.len()
{
    match spec_term_at(s, i) {
        Parsed::Reject { at, expected } => Parsed::Reject { at, expected },
        Parsed::Accept { value: t, next: j } => {
            if !(i < j && j <= s.len()) {
                // a term always advances the position; not reached
                Parsed::Reject { at: i, expected: Expected::Term }
            } else {
                let p = skip_sp(s, j);
                let mul_word = lit_at(s, p, "gånger"@);
                let div_word = lit_at(s, p, "delat med"@);
                if j < p && (mul_word || div_word) {
                    let operator = if mul_word {
                        Operator::Multiply
                    } else {
                        Operator::Divide
                    };
                    let k = if mul_word {
                        p + "gånger"@.len()
                    } else {
                        p + "delat med"@.len()
                    };
                    if k < s.len() && is_space(s[k]) {
                        let k2 = skip_sp(s, k);
                        if !(i < k2 && k2 <= s.len()) {
                            // skipping spaces never moves backward; not reached
                            Parsed::Reject { at: i, expected: Expected::Term }
                        } else {
                            match spec_mul_div(s, k2) {
                                Parsed::Reject { at, expected } => Parsed::Reject {
                                    at,
                                    expected,
                                },
                                Parsed::Accept { value: rhs, next: m } => Parsed::Accept {
                                    value: ExpressionView::Operation {
                                        left: Box::new(ExpressionView::Term(t)),
                                        operator,
                                        right: Box::new(rhs),
                                    },
                                    next: m,
                                },
                            }
                        }
                    } else {
                        Parsed::Reject { at: k, expected: Expected::Space }
                    }
                } else {
                    Parsed::Accept { value: ExpressionView::Term(t), next: j }
                }
            }
        },
    }
}

/// The addition level over the multiplication level, grouping to the right.
pub open spec fn spec_add_sub(s: Seq<char>, i: int) -> Parsed<ExpressionView>
    decreases s.len() - i, 3int,
        when 0 <= i <= s.len()
{
    match spec_mul_div(s, i) {
        Parsed::Reject { at, expected } => Parsed::Reject { at, expected },
        Parsed::Accept { value: l, next: j } => {
            if !(i < j && j <= s.len()) {
                // an expression always advances the position; not reached
                Parsed::Reject { at: i, expected: Expected::Term }
            } else {
                let p = skip_sp(s, j);
                let add_word = lit_at(s, p, "plus"@);
                let sub_word = lit_at(s, p, "minus"@);
                if j < p && (add_word || sub_word) {
                    let operator = if add_word {
                        Operator::Add
                    } else {
                        Operator::Subtract
                    };
                    let k = if add_word {
                        p + "plus"@.len()
                    } else {
                        p + "minus"@.len()
                    };
                    if k < s.len() && is_space(s[k]) {
                        let k2 = skip_sp(s, k);
                        if !(i < k2 && k2 <= s.len()) {
                            // skipping spaces never moves backward; not reached
                            Parsed::Reject { at: i, expected: Expected::Term }
                        } else {
                            match spec_add_sub(s, k2) {
                                Parsed::Reject { at, expected } => Parsed::Reject {
                                    at,
                                    expected,
                                },
                                Parsed::Accept { value: rhs, next: m } => Parsed::Accept {
                                    value: ExpressionView::Operation {
                                        left: Box::new(l),
                                        operator,
                                        right: Box::new(rhs),
                                    },
                                    next: m,
                                },
                            }
                        }
                    } else {
                        Parsed::Reject { at: k, expected: Expected::Space }
                    }
                } else {
                    Parsed::Accept { value: l, next: j }
                }
            }
        },
    }
}

/// The comparison level: an addition-level expression, optionally compared
/// to a whole expression on its right. The operator is spelled as the word
/// pair beginning with "är "; if the full operator spelling with its
/// surrounding spaces is not present, there is no comparison.
pub open spec fn spec_comparison(s: Seq<char>, i: int) -> Parsed<ExpressionView>
    decreases s.len() - i, 4int,
        when 0 <= i <= s.len()
{
    match spec_add_sub(s, i) {
        Parsed::Reject { at, expected } => Parsed::Reject { at, expected },
        Parsed::Accept { value: l, next: j } => {
            if !(i < j && j <= s.len()) {
                // an expression always advances the position; not reached
                Parsed::Reject { at: i, expected: Expected::Term }
            } else {
                let p = skip_sp(s, j);
                if j < p && lit_at(s, p, "är "@) {
                    let q = p + "är "@.len();
                    let eq_word = lit_at(s, q, "lika med"@);
                    let gt_word = lit_at(s, q, "större än"@);
                    let lt_word = lit_at(s, q, "mindre än"@);
                    let operator = if eq_word {
                        Operator::Equals
                    } else if gt_word {
                        Operator::GreaterThan
                    } else {
                        Operator::LessThan
                    };
                    let k = if eq_word {
                        q + "lika med"@.len()
                    } else if gt_word {
                        q + "större än"@.len()
                    } else {
                        q + "mindre än"@.len()
                    };
                    if (eq_word || gt_word || lt_word) && k < s.len() && is_space(s[k]) {
                        let k2 = skip_sp(s, k);
                        if !(i < k2 && k2 <= s.len()) {
                            // skipping spaces never moves backward; not reached
                            Parsed::Reject { at: i, expected: Expected::Term }
                        } else {
                            match spec_expression(s, k2) {
                                Parsed::Reject { at, expected } => Parsed::Reject {
                                    at,
                                    expected,
                                },
                                Parsed::Accept { value: rhs, next: m } => Parsed::Accept {
                                    value: ExpressionView::Operation {
                                        left: Box::new(l),
                                        operator,
                                        right: Box::new(rhs),
                                    },
                                    next: m,
                                },
                            }
                        }
                    } else {
                        Parsed::Accept { value: l, next: j }
                    }
                } else {
                    Parsed::Accept { value: l, next: j }
                }
            }
        },
    }
}

/// An expression: the comparison level.
pub open spec fn spec_expression(s: Seq<char>, i: int) -> Parsed<ExpressionView>
    decreases s.len() - i, 5int,
        when 0 <= i <= s.len()
{
    spec_comparison(s, i)
}

/// A print statement: its keyword, spaces, an expression, and the period.
pub open spec fn spec_print(s: Seq<char>, i: int) -> Parsed<StatementView>
    decreases s.len() - i, 6int,
        when 0 <= i <= s.len()
{
    if !kw_at(s, i, "skriv"@) {
        Parsed::Reject { at: i, expected: Expected::Statement }
    } else {
        let j = i + "skriv"@.len();
        if j < s.len() && is_space(s[j]) {
            let j2 = skip_sp(s, j);
            if !(i < j2 && j2 <= s.len()) {
                // skipping spaces never moves backward; not reached
                Parsed::Reject { at: i, expected: Expected::Space }
            } else {
                match spec_expression(s, j2) {
                    Parsed::Reject { at, expected } => Parsed::Reject { at, expected },
                    Parsed::Accept { value: e, next: m } => {
                        if m < s.len() && s[m] == '.' {
                            Parsed::Accept {
                                value: StatementView::Print { expression: e },
                                next: m + 1,
                            }
                        } else {
                            Parsed::Reject { at: m, expected: Expected::Period }
                        }
                    },
                }
            }
        } else {
            Parsed::Reject { at: j, expected: Expected::Space }
        }
    }
}

/// An assignment statement: its keyword, an expression, the word between
/// expression and target, a variable name, and the period.
pub open spec fn spec_assignment(s: Seq<char>, i: int) -> Parsed<StatementView>
    decreases s.len() - i, 6int,
        when 0 <= i <= s.len()
{
    if !kw_at(s, i, "spara"@) {
        Parsed::Reject { at: i, expected: Expected::Statement }
    } else {
        let j = i + "spara"@.len();
        if j < s.len() && is_space(s[j]) {
            let j2 = skip_sp(s, j);
            if !(i < j2 && j2 <= s.len()) {
                // skipping spaces never moves backward; not reached
                Parsed::Reject { at: i, expected: Expected::Space }
            } else {
                match spec_expression(s, j2) {
                    Parsed::Reject { at, expected } => Parsed::Reject { at, expected },
                    Parsed::Accept { value: e, next: m } => {
                        if !(i < m && m <= s.len()) {
                            // an expression always advances the position; not reached
                            Parsed::Reject { at: i, expected: Expected::Term }
                        } else if m < s.len() && is_space(s[m]) {
                            let m2 = skip_sp(s, m);
                            if m2 < s.len() && s[m2] == 'i' {
                                let m3 = m2 + 1;
                                if m3 < s.len() && is_space(s[m3]) {
                                    let m4 = skip_sp(s, m3);
                                    if !(i < m4 && m4 <= s.len()) {
                                        // skipping spaces never moves backward; not reached
                                        Parsed::Reject { at: i, expected: Expected::Space }
                                    } else {
                                        match spec_variable_at(s, m4) {
                                            Some(p) => {
                                                let name = p.0;
                                                let m5 = p.1;
                                                if m5 < s.len() && s[m5] == '.' {
                                                    Parsed::Accept {
                                                        value: StatementView::Assignment {
                                                            variable: TermView::Variable(name),
                                                            expression: e,
                                                        },
                                                        next: m5 + 1,
                                                    }
                                                } else {
                                                    Parsed::Reject {
                                                        at: m5,
                                                        expected: Expected::Period,
                                                    }
                                                }
                                            },
                                            None => Parsed::Reject {
                                                at: m4,
                                                expected: Expected::Variable,
                                            },
                                        }
                                    }
                                } else {
                                    Parsed::Reject { at: m3, expected: Expected::Space }
                                }
                            } else {
                                Parsed::Reject { at: m2, expected: Expected::KeywordI }
                            }
                        } else {
                            Parsed::Reject { at: m, expected: Expected::Space }
                        }
                    },
                }
            }
        } else {
            Parsed::Reject { at: j, expected: Expected::Space }
        }
    }
}

/// A conditional: its keyword, a condition, a comma, a non-empty branch
/// list, and optionally a comma, the word "annars", and the else list. It
/// closes with the period of the last statement of its final list.
pub open spec fn spec_conditional(s: Seq<char>, i: int) -> Parsed<StatementView>
    decreases s.len() - i, 6int,
        when 0 <= i <= s.len()
{
    if !kw_at(s, i, "om"@) {
        Parsed::Reject { at: i, expected: Expected::Statement }
    } else {
        let j = i + "om"@.len();
        if j < s.len() && is_space(s[j]) {
            let j2 = skip_sp(s, j);
            if !(i < j2 && j2 <= s.len()) {
                // skipping spaces never moves backward; not reached
                Parsed::Reject { at: i, expected: Expected::Space }
            } else {
                match spec_expression(s, j2) {
                    Parsed::Reject { at, expected } => Parsed::Reject { at, expected },
                    Parsed::Accept { value: cond, next: m } => {
                        if m < s.len() && s[m] == ',' {
                            let m2 = skip_ms(s, m + 1);
                            if !(i < m2 && m2 <= s.len()) {
                                // skipping whitespace never moves backward; not reached
                                Parsed::Reject { at: i, expected: Expected::Comma }
                            } else {
                                match spec_stmt_list(s, m2) {
                                    Parsed::Reject { at, expected } => Parsed::Reject {
                                        at,
                                        expected,
                                    },
                                    Parsed::Accept { value: then_branch, next: p } => {
                                        spec_else_part(s, i, p, cond, then_branch)
                                    },
                                }
                            }
                        } else {
                            Parsed::Reject { at: m, expected: Expected::Comma }
                        }
                    },
                }
            }
        } else {
            Parsed::Reject { at: j, expected: Expected::Space }
        }
    }
}

/// The optional else part of a conditional, beginning right after its branch
/// list at `p`: a comma with no space before it, whitespace, the word
/// "annars", at least one space, and the else list.
pub open spec fn spec_else_part(
    s: Seq<char>,
    i: int,
    p: int,
    cond: ExpressionView,
    then_branch: Seq<StatementView>,
) -> Parsed<StatementView>
    decreases s.len() - i, 1int,
        when 0 <= i <= s.len()
{
    if !(i < p && p <= s.len()) {
        // a branch list always advances the position; not reached
        Parsed::Reject { at: i, expected: Expected::Statement }
    } else if p < s.len() && s[p] == ',' {
        let p2 = skip_ms(s, p + 1);
        if lit_at(s, p2, "annars"@) {
            let p3 = p2 + "annars"@.len();
            if p3 < s.len() && is_space(s[p3]) {
                let p4 = skip_sp(s, p3);
                if !(i < p4 && p4 <= s.len()) {
                    // skipping spaces never moves backward; not reached
                    Parsed::Reject { at: i, expected: Expected::Space }
                } else {
                    match spec_stmt_list(s, p4) {
                        Parsed::Reject { at, expected } => Parsed::Reject { at, expected },
                        Parsed::Accept { value: else_branch, next: p5 } => Parsed::Accept {
                            value: StatementView::If { condition: cond, then_branch, else_branch },
                            next: p5,
                        },
                    }
                }
            } else {
                Parsed::Accept {
                    value: StatementView::If {
                        condition: cond,
                        then_branch,
                        else_branch: Seq::empty(),
                    },
                    next: p,
                }
            }
        } else {
            Parsed::Accept {
                value: StatementView::If {
                    condition: cond,
                    then_branch,
                    else_branch: Seq::empty(),
                },
                next: p,
            }
        }
    } else {
        Parsed::Accept {
            value: StatementView::If { condition: cond, then_branch, else_branch: Seq::empty() },
            next: p,
        }
    }
}

/// A statement: dispatched on its leading keyword, which commits.
pub open spec fn spec_statement(s: Seq<char>, i: int) -> Parsed<StatementView>
    decreases s.len() - i, 8int,
        when 0 <= i <= s.len()
{
    if kw_at(s, i, "skriv"@) {
        spec_print(s, i)
    } else if kw_at(s, i, "spara"@) {
        spec_assignment(s, i)
    } else if kw_at(s, i, "om"@) {
        spec_conditional(s, i)
    } else {
        Parsed::Reject { at: i, expected: Expected::Statement }
    }
}

/// A branch list: one statement, then every further statement reachable over
/// a comma separator.
pub open spec fn spec_stmt_list(s: Seq<char>, i: int) -> Parsed<Seq<StatementView>>
    decreases s.len() - i, 9int,
        when 0 <= i <= s.len()
{
    match spec_statement(s, i) {
        Parsed::Reject { at, expected } => Parsed::Reject { at, expected },
        Parsed::Accept { value: st, next: j } => {
            if !(i < j && j <= s.len()) {
                // a statement always advances the position; not reached
                Parsed::Reject { at: i, expected: Expected::Statement }
            } else {
                spec_stmt_more(s, j, seq![st])
            }
        },
    }
}

/// The continuation of a branch list at `i`: whitespace, a comma, whitespace
/// and a further statement, as long as a statement keyword follows; the list
/// ends before the separator otherwise, consuming nothing of it.
pub open spec fn spec_stmt_more(s: Seq<char>, i: int, acc: Seq<StatementView>) -> Parsed<
    Seq<StatementView>,
>
    decreases s.len() - i, 9int,
        when 0 <= i <= s.len()
{
    let p = skip_ms(s, i);
    if !(i <= p && p <= s.len()) {
        // skipping whitespace never moves backward; not reached
        Parsed::Accept { value: acc, next: i }
    } else if p < s.len() && s[p] == ',' {
        let q = skip_ms(s, p + 1);
        if !(i < q && q <= s.len()) {
            // skipping whitespace never moves backward; not reached
            Parsed::Accept { value: acc, next: i }
        } else if kw_at(s, q, "skriv"@) || kw_at(s, q, "spara"@) || kw_at(s, q, "om"@) {
            match spec_statement(s, q) {
                Parsed::Reject { at, expected } => Parsed::Reject { at, expected },
                Parsed::Accept { value: st, next: j } => {
                    if !(q < j && j <= s.len()) {
                        // a statement always advances the position; not reached
                        Parsed::Accept { value: acc, next: i }
                    } else {
                        spec_stmt_more(s, j, acc.push(st))
                    }
                },
            }
        } else {
            Parsed::Accept { value: acc, next: i }
        }
    } else {
        Parsed::Accept { value: acc, next: i }
    }
}

/// The statements after the first one: whitespace between statements, and
/// the end of the input ends the program.
pub open spec fn spec_program_rest(s: Seq<char>, i: int, acc: Seq<StatementView>) -> Parsed<
    Seq<StatementView>,
>
    decreases s.len() - i, 10int,
        when 0 <= i <= s.len()
{
    let p = skip_ms(s, i);
    if !(i <= p && p <= s.len()) {
        // skipping whitespace never moves backward; not reached
        Parsed::Accept { value: acc, next: i }
    } else if p == s.len() {
        Parsed::Accept { value: acc, next: p }
    } else {
        match spec_statement(s, p) {
            Parsed::Reject { at, expected } => Parsed::Reject { at, expected },
            Parsed::Accept { value: st, next: j } => {
                if !(i < j && j <= s.len()) {
                    // a statement always advances the position; not reached
                    Parsed::Accept { value: acc, next: i }
                } else {
                    spec_program_rest(s, j, acc.push(st))
                }
            },
        }
    }
}

/// What parsing the whole source yields: at least one statement, starting at
/// the very first character, with the input consumed to its end.
pub open spec fn spec_parse(s: Seq<char>) -> Parsed<Seq<StatementView>> {
    match spec_statement(s, 0) {
        Parsed::Reject { at, expected } => Parsed::Reject { at, expected },
        Parsed::Accept { value: st, next: j } => {
            if !(0 < j && j <= s.len()) {
                // a statement always advances the position; not reached
                Parsed::Reject { at: 0, expected: Expected::Statement }
            } else {
                spec_program_rest(s, j, seq![st])
            }
        },
    }
}

/// The outcome of an executable term parse, as a [`Parsed`] value.
pub open spec fn term_parsed(r: Result<(Term, usize), ParseError>) -> Parsed<TermView> {
    match r {
        Ok(p) => Parsed::Accept { value: p.0@, next: p.1 as int },
        Err(e) => Parsed::Reject { at: e.offset as int, expected: e.expected },
    }
}

/// The outcome of an executable expression parse, as a [`Parsed`] value.
pub open spec fn expr_parsed(r: Result<(Expression, usize), ParseError>) -> Parsed<
    ExpressionView,
> {
    match r {
        Ok(p) => Parsed::Accept { value: p.0@, next: p.1 as int },
        Err(e) => Parsed::Reject { at: e.offset as int, expected: e.expected },
    }
}

/// The outcome of an executable statement parse, as a [`Parsed`] value.
pub open spec fn stmt_parsed(r: Result<(Statement, usize), ParseError>) -> Parsed<StatementView> {
    match r {
        Ok(p) => Parsed::Accept { value: p.0@, next: p.1 as int },
        Err(e) => Parsed::Reject { at: e.offset as int, expected: e.expected },
    }
}

/// The outcome of an executable statement-list parse, as a [`Parsed`] value.
pub open spec fn stmts_parsed(r: Result<(Vec<Statement>, usize), ParseError>) -> Parsed<
    Seq<StatementView>,
> {
    match r {
        Ok(p) => Parsed::Accept { value: stmts_deep(p.0@), next: p.1 as int },
        Err(e) => Parsed::Reject { at: e.offset as int, expected: e.expected },
    }
}

fn space_char(c: char) -> (r: bool)
    ensures
        r == is_space(c),
{
    c == ' ' || c == '\t'
}

fn multispace_char(c: char) -> (r: bool)
    ensures
        r == is_multispace(c),
{
    c == ' ' || c == '\t' || c == '\n' || c == '\r'
}

fn char_ci_eq(c: char, k: char) -> (r: bool)
    ensures
        r == ascii_ci_eq(c, k),
{
    c == k || (c as u32) + 32 == (k as u32)
}

fn skip_space(s: &str, n: usize, i: usize) -> (r: usize)
    requires
        n == s@.len(),
        i <= n,
    ensures
        r as int == skip_sp(s@, i as int),
        i <= r <= n,
    decreases n - i,
{
    if i < n {
        let c = s.get_char(i);
        if space_char(c) {
            return skip_space(s, n, i + 1);
        }
    }
    i
}

fn skip_multispace(s: &str, n: usize, i: usize) -> (r: usize)
    requires
        n == s@.len(),
        i <= n,
    ensures
        r as int == skip_ms(s@, i as int),
        i <= r <= n,
    decreases n - i,
{
    if i < n {
        let c = s.get_char(i);
        if multispace_char(c) {
            return skip_multispace(s, n, i + 1);
        }
    }
    i
}

fn scan_quote(s: &str, n: usize, i: usize) -> (r: usize)
    requires
        n == s@.len(),
        i <= n,
    ensures
        r as int == scan_nonquote(s@, i as int),
        i <= r <= n,
    decreases n - i,
{
    if i < n && s.get_char(i) != '"' {
        scan_quote(s, n, i + 1)
    } else {
        i
    }
}

fn scan_squote(s: &str, n: usize, i: usize) -> (r: usize)
    requires
        n == s@.len(),
        i <= n,
    ensures
        r as int == scan_nonsquote(s@, i as int),
        i <= r <= n,
    decreases n - i,
{
    if i < n && s.get_char(i) != '\'' {
        scan_squote(s, n, i + 1)
    } else {
        i
    }
}

fn scan_alphabetic(s: &str, n: usize, i: usize) -> (r: usize)
    requires
        n == s@.len(),
        i <= n,
    ensures
        r as int == scan_alpha(s@, i as int),
        i <= r <= n,
    decreases n - i,
{
    if i < n && is_alphabetic_char(s.get_char(i)) {
        scan_alphabetic(s, n, i + 1)
    } else {
        i
    }
}

fn lit_match(s: &str, n: usize, i: usize, lit: &str) -> (r: bool)
    requires
        n == s@.len(),
        i <= n,
    ensures
        r == lit_at(s@, i as int, lit@),
{
    let m = lit.unicode_len();
    if m > n - i {
        return false;
    }
    let mut k: usize = 0;
    while k < m
        invariant
            n == s@.len(),
            m == lit@.len(),
            i + m <= n,
            k <= m,
            forall|t: int| 0 <= t < k ==> s@[i + t] == lit@[t],
        decreases m - k,
    {
        if s.get_char(i + k) != lit.get_char(k) {
            return false;
        }
        k = k + 1;
    }
    true
}

fn kw_match(s: &str, n: usize, i: usize, kw: &str) -> (r: bool)
    requires
        n == s@.len(),
        i <= n,
    ensures
        r == kw_at(s@, i as int, kw@),
{
    let m = kw.unicode_len();
    if m > n - i {
        return false;
    }
    let mut k: usize = 0;
    while k < m
        invariant
            n == s@.len(),
            m == kw@.len(),
            i + m <= n,
            k <= m,
            forall|t: int| 0 <= t < k ==> ascii_ci_eq(s@[i + t], kw@[t]),
        decreases m - k,
    {
        if !char_ci_eq(s.get_char(i + k), kw.get_char(k)) {
            return false;
        }
        k = k + 1;
    }
    true
}

fn parse_number(s: &str, n: usize, i: usize) -> (r: Option<(Term, usize)>)
    requires
        n == s@.len(),
        i <= n,
    ensures
        (match r {
            Some(p) => p.0 matches Term::Number(v) && spec_number_at(s@, i as int) == Some(
                (v, p.1 as int),
            ) && i < p.1 && p.1 <= n,
            None => spec_number_at(s@, i as int) is None,
        }),
{
    proof {
        reveal_strlit("noll");
        reveal_strlit("ett");
        reveal_strlit("tv\u{e5}");
        reveal_strlit("tre");
        reveal_strlit("fyra");
        reveal_strlit("fem");
        reveal_strlit("sex");
        reveal_strlit("sju");
        reveal_strlit("\u{e5}tta");
        reveal_strlit("nio");
        reveal_strlit("tio");
    }
    if lit_match(s, n, i, "noll") {
        Some((Term::Number(0), i + 4))
    } else if lit_match(s, n, i, "ett") {
        Some((Term::Number(1), i + 3))
    } else if lit_match(s, n, i, "tv\u{e5}") {
        Some((Term::Number(2), i + 3))
    } else if lit_match(s, n, i, "tre") {
        Some((Term::Number(3), i + 3))
    } else if lit_match(s, n, i, "fyra") {
        Some((Term::Number(4), i + 4))
    } else if lit_match(s, n, i, "fem") {
        Some((Term::Number(5), i + 3))
    } else if lit_match(s, n, i, "sex") {
        Some((Term::Number(6), i + 3))
    } else if lit_match(s, n, i, "sju") {
        Some((Term::Number(7), i + 3))
    } else if lit_match(s, n, i, "\u{e5}tta") {
        Some((Term::Number(8), i + 4))
    } else if lit_match(s, n, i, "nio") {
        Some((Term::Number(9), i + 3))
    } else if lit_match(s, n, i, "tio") {
        Some((Term::Number(10), i + 3))
    } else {
        None
    }
}

fn parse_string(s: &str, n: usize, i: usize) -> (r: Option<(Term, usize)>)
    requires
        n == s@.len(),
        i <= n,
    ensures
        (match r {
            Some(p) => p.0 matches Term::StringLiteral(c) && spec_string_at(s@, i as int) == Some(
                (c@, p.1 as int),
            ) && i < p.1 && p.1 <= n,
            None => spec_string_at(s@, i as int) is None,
        }),
{
    if i < n && s.get_char(i) == '"' {
        let e = scan_quote(s, n, i + 1);
        if i + 1 < e && e < n {
            let content = s.substring_char(i + 1, e);
            Some((Term::StringLiteral(String::from_str(content)), e + 1))
        } else {
            None
        }
    } else {
        None
    }
}

fn parse_variable(s: &str, n: usize, i: usize) -> (r: Option<(Term, usize)>)
    requires
        n == s@.len(),
        i <= n,
    ensures
        (match r {
            Some(p) => p.0 matches Term::Variable(c) && spec_variable_at(s@, i as int) == Some(
                (c@, p.1 as int),
            ) && i < p.1 && p.1 <= n,
            None => spec_variable_at(s@, i as int) is None,
        }),
{
    if i < n && s.get_char(i) == '\'' {
        let e = scan_squote(s, n, i + 1);
        if i + 1 < e && e < n {
            let content = s.substring_char(i + 1, e);
            Some((Term::Variable(String::from_str(content)), e + 1))
        } else {
            None
        }
    } else {
        let e = scan_alphabetic(s, n, i);
        if i < e {
            let content = s.substring_char(i, e);
            Some((Term::Variable(String::from_str(content)), e))
        } else {
            None
        }
    }
}

fn parse_term(s: &str, n: usize, i: usize) -> (r: Result<(Term, usize), ParseError>)
    requires
        n == s@.len(),
        i <= n,
    ensures
        term_parsed(r) == spec_term_at(s@, i as int),
        r matches Ok(p) ==> i < p.1 && p.1 <= n,
{
    match parse_number(s, n, i) {
        Some(p) => {
            return Ok(p);
        },
        None => {},
    }
    match parse_string(s, n, i) {
        Some(p) => {
            return Ok(p);
        },
        None => {},
    }
    match parse_variable(s, n, i) {
        Some(p) => {
            return Ok(p);
        },
        None => {},
    }
    Err(ParseError { offset: i, expected: Expected::Term })
}

fn parse_mul_div(s: &str, n: usize, i: usize) -> (r: Result<(Expression, usize), ParseError>)
    requires
        n == s@.len(),
        i <= n,
    ensures
        expr_parsed(r) == spec_mul_div(s@, i as int),
        r matches Ok(p) ==> i < p.1 && p.1 <= n,
    decreases n - i, 2int,
{
    let (t, j) = match parse_term(s, n, i) {
        Ok(p) => p,
        Err(e) => {
            return Err(e);
        },
    };
    let ghost t_view = t@;
    let p = skip_space(s, n, j);
    let mul_word = lit_match(s, n, p, "g\u{e5}nger");
    let div_word = lit_match(s, n, p, "delat med");
    if j < p && (mul_word || div_word) {
        proof {
            reveal_strlit("g\u{e5}nger");
            reveal_strlit("delat med");
        }
        let operator = if mul_word {
            Operator::Multiply
        } else {
            Operator::Divide
        };
        let k = if mul_word {
            p + 6
        } else {
            p + 9
        };
        if k < n && space_char(s.get_char(k)) {
            let k2 = skip_space(s, n, k);
            match parse_mul_div(s, n, k2) {
                Ok((rhs, m)) => {
                    let left_term = Expression::Term(t);
                    proof {
                        assert(left_term@ == ExpressionView::Term(t_view));
                    }
                    Ok(
                        (
                            Expression::Operation {
                                left: Box::new(left_term),
                                operator,
                                right: Box::new(rhs),
                            },
                            m,
                        ),
                    )
                },
                Err(e) => Err(e),
            }
        } else {
            Err(ParseError { offset: k, expected: Expected::Space })
        }
    } else {
        Ok((Expression::Term(t), j))
    }
}

fn parse_add_sub(s: &str, n: usize, i: usize) -> (r: Result<(Expression, usize), ParseError>)
    requires
        n == s@.len(),
        i <= n,
    ensures
        expr_parsed(r) == spec_add_sub(s@, i as int),
        r matches Ok(p) ==> i < p.1 && p.1 <= n,
    decreases n - i, 3int,
{
    let (l, j) = match parse_mul_div(s, n, i) {
        Ok(p) => p,
        Err(e) => {
            return Err(e);
        },
    };
    let p = skip_space(s, n, j);
    let add_word = lit_match(s, n, p, "plus");
    let sub_word = lit_match(s, n, p, "minus");
    if j < p && (add_word || sub_word) {
        proof {
            reveal_strlit("plus");
            reveal_strlit("minus");
        }
        let operator = if add_word {
            Operator::Add
        } else {
            Operator::Subtract
        };
        let k = if add_word {
            p + 4
        } else {
            p + 5
        };
        if k < n && space_char(s.get_char(k)) {
            let k2 = skip_space(s, n, k);
            match parse_add_sub(s, n, k2) {
                Ok((rhs, m)) => Ok(
                    (
                        Expression::Operation {
                            left: Box::new(l),
                            operator,
                            right: Box::new(rhs),
                        },
                        m,
                    ),
                ),
                Err(e) => Err(e),
            }
        } else {
            Err(ParseError { offset: k, expected: Expected::Space })
        }
    } else {
        Ok((l, j))
    }
}

fn parse_comparison(s: &str, n: usize, i: usize) -> (r: Result<(Expression, usize), ParseError>)
    requires
        n == s@.len(),
        i <= n,
    ensures
        expr_parsed(r) == spec_comparison(s@, i as int),
        r matches Ok(p) ==> i < p.1 && p.1 <= n,
    decreases n - i, 4int,
{
    let (l, j) = match parse_add_sub(s, n, i) {
        Ok(p) => p,
        Err(e) => {
            return Err(e);
        },
    };
    let p = skip_space(s, n, j);
    if j < p && lit_match(s, n, p, "\u{e4}r ") {
        proof {
            reveal_strlit("\u{e4}r ");
        }
        let q = p + 3;
        let eq_word = lit_match(s, n, q, "lika med");
        let gt_word = lit_match(s, n, q, "st\u{f6}rre \u{e4}n");
        let lt_word = lit_match(s, n, q, "mindre \u{e4}n");
        proof {
            reveal_strlit("lika med");
            reveal_strlit("st\u{f6}rre \u{e4}n");
            reveal_strlit("mindre \u{e4}n");
        }
        if eq_word || gt_word || lt_word {
            let operator = if eq_word {
                Operator::Equals
            } else if gt_word {
                Operator::GreaterThan
            } else {
                Operator::LessThan
            };
            let k = if eq_word {
                q + 8
            } else {
                q + 9
            };
            if k < n && space_char(s.get_char(k)) {
                let k2 = skip_space(s, n, k);
                match parse_expression(s, n, k2) {
                    Ok((rhs, m)) => Ok(
                        (
                            Expression::Operation {
                                left: Box::new(l),
                                operator,
                                right: Box::new(rhs),
                            },
                            m,
                        ),
                    ),
                    Err(e) => Err(e),
                }
            } else {
                Ok((l, j))
            }
        } else {
            Ok((l, j))
        }
    } else {
        Ok((l, j))
    }
}

fn parse_expression(s: &str, n: usize, i: usize) -> (r: Result<(Expression, usize), ParseError>)
    requires
        n == s@.len(),
        i <= n,
    ensures
        expr_parsed(r) == spec_expression(s@, i as int),
        r matches Ok(p) ==> i < p.1 && p.1 <= n,
    decreases n - i, 5int,
{
    parse_comparison(s, n, i)
}

fn parse_print(s: &str, n: usize, i: usize) -> (r: Result<(Statement, usize), ParseError>)
    requires
        n == s@.len(),
        i <= n,
        kw_at(s@, i as int, "skriv"@),
    ensures
        stmt_parsed(r) == spec_print(s@, i as int),
        r matches Ok(p) ==> i < p.1 && p.1 <= n,
    decreases n - i, 6int,
{
    proof {
        reveal_strlit("skriv");
    }
    let j = i + 5;
    if j < n && space_char(s.get_char(j)) {
        let j2 = skip_space(s, n, j);
        match parse_expression(s, n, j2) {
            Err(e) => Err(e),
            Ok((e, m)) => {
                if m < n && s.get_char(m) == '.' {
                    Ok((Statement::Print { expression: e }, m + 1))
                } else {
                    Err(ParseError { offset: m, expected: Expected::Period })
                }
            },
        }
    } else {
        Err(ParseError { offset: j, expected: Expected::Space })
    }
}

fn parse_assignment(s: &str, n: usize, i: usize) -> (r: Result<(Statement, usize), ParseError>)
    requires
        n == s@.len(),
        i <= n,
        kw_at(s@, i as int, "spara"@),
    ensures
        stmt_parsed(r) == spec_assignment(s@, i as int),
        r matches Ok(p) ==> i < p.1 && p.1 <= n,
    decreases n - i, 6int,
{
    proof {
        reveal_strlit("spara");
    }
    let j = i + 5;
    if j < n && space_char(s.get_char(j)) {
        let j2 = skip_space(s, n, j);
        match parse_expression(s, n, j2) {
            Err(e) => Err(e),
            Ok((e, m)) => {
                if m < n && space_char(s.get_char(m)) {
                    let m2 = skip_space(s, n, m);
                    if m2 < n && s.get_char(m2) == 'i' {
                        let m3 = m2 + 1;
                        if m3 < n && space_char(s.get_char(m3)) {
                            let m4 = skip_space(s, n, m3);
                            match parse_variable(s, n, m4) {
                                Some((name, m5)) => {
                                    if m5 < n && s.get_char(m5) == '.' {
                                        Ok(
                                            (
                                                Statement::Assignment {
                                                    variable: name,
                                                    expression: e,
                                                },
                                                m5 + 1,
                                            ),
                                        )
                                    } else {
                                        Err(
                                            ParseError {
                                                offset: m5,
                                                expected: Expected::Period,
                                            },
                                        )
                                    }
                                },
                                None => Err(
                                    ParseError { offset: m4, expected: Expected::Variable },
                                ),
                            }
                        } else {
                            Err(ParseError { offset: m3, expected: Expected::Space })
                        }
                    } else {
                        Err(ParseError { offset: m2, expected: Expected::KeywordI })
                    }
                } else {
                    Err(ParseError { offset: m, expected: Expected::Space })
                }
            },
        }
    } else {
        Err(ParseError { offset: j, expected: Expected::Space })
    }
}

fn parse_if(s: &str, n: usize, i: usize) -> (r: Result<(Statement, usize), ParseError>)
    requires
        n == s@.len(),
        i <= n,
        kw_at(s@, i as int, "om"@),
    ensures
        stmt_parsed(r) == spec_conditional(s@, i as int),
        r matches Ok(p) ==> i < p.1 && p.1 <= n,
    decreases n - i, 6int,
{
    proof {
        reveal_strlit("om");
    }
    let j = i + 2;
    if j < n && space_char(s.get_char(j)) {
        let j2 = skip_space(s, n, j);
        match parse_expression(s, n, j2) {
            Err(e) => Err(e),
            Ok((cond, m)) => {
                if m < n && s.get_char(m) == ',' {
                    let m2 = skip_multispace(s, n, m + 1);
                    match parse_stmt_list(s, n, m2) {
                        Err(e) => Err(e),
                        Ok((then_branch, p)) => parse_else_part(
                            s,
                            n,
                            p,
                            cond,
                            then_branch,
                            Ghost(i as int),
                        ),
                    }
                } else {
                    Err(ParseError { offset: m, expected: Expected::Comma })
                }
            },
        }
    } else {
        Err(ParseError { offset: j, expected: Expected::Space })
    }
}

fn parse_else_part(
    s: &str,
    n: usize,
    p: usize,
    cond: Expression,
    then_branch: Vec<Statement>,
    Ghost(i0): Ghost<int>,
) -> (r: Result<(Statement, usize), ParseError>)
    requires
        n == s@.len(),
        p <= n,
        0 <= i0 < p,
    ensures
        stmt_parsed(r) == spec_else_part(s@, i0, p as int, cond@, stmts_deep(then_branch@)),
        r matches Ok(q) ==> i0 < q.1 && q.1 <= n,
    decreases n - i0, 1int,
{
    if p < n && s.get_char(p) == ',' {
        let p2 = skip_multispace(s, n, p + 1);
        if lit_match(s, n, p2, "annars") {
            proof {
                reveal_strlit("annars");
            }
            let p3 = p2 + 6;
            if p3 < n && space_char(s.get_char(p3)) {
                let p4 = skip_space(s, n, p3);
                match parse_stmt_list(s, n, p4) {
                    Err(e) => Err(e),
                    Ok((else_branch, p5)) => Ok(
                        (
                            Statement::If { condition: cond, then_branch, else_branch },
                            p5,
                        ),
                    ),
                }
            } else {
                Ok(
                    (
                        Statement::If { condition: cond, then_branch, else_branch: Vec::new() },
                        p,
                    ),
                )
            }
        } else {
            Ok(
                (
                    Statement::If { condition: cond, then_branch, else_branch: Vec::new() },
                    p,
                ),
            )
        }
    } else {
        Ok(
            (
                Statement::If { condition: cond, then_branch, else_branch: Vec::new() },
                p,
            ),
        )
    }
}

fn parse_statement(s: &str, n: usize, i: usize) -> (r: Result<(Statement, usize), ParseError>)
    requires
        n == s@.len(),
        i <= n,
    ensures
        stmt_parsed(r) == spec_statement(s@, i as int),
        r matches Ok(p) ==> i < p.1 && p.1 <= n,
    decreases n - i, 8int,
{
    if kw_match(s, n, i, "skriv") {
        parse_print(s, n, i)
    } else if kw_match(s, n, i, "spara") {
        parse_assignment(s, n, i)
    } else if kw_match(s, n, i, "om") {
        parse_if(s, n, i)
    } else {
        Err(ParseError { offset: i, expected: Expected::Statement })
    }
}

fn parse_stmt_list(s: &str, n: usize, i: usize) -> (r: Result<(Vec<Statement>, usize), ParseError>)
    requires
        n == s@.len(),
        i <= n,
    ensures
        stmts_parsed(r) == spec_stmt_list(s@, i as int),
        r matches Ok(p) ==> i < p.1 && p.1 <= n,
    decreases n - i, 9int,
{
    match parse_statement(s, n, i) {
        Err(e) => Err(e),
        Ok((st, j)) => {
            let mut acc: Vec<Statement> = Vec::new();
            acc.push(st);
            proof {
                lemma_stmts_deep(acc@);
                assert(stmts_deep(acc@) =~= seq![acc@[0]@]);
            }
            parse_stmt_more(s, n, j, acc)
        },
    }
}

fn parse_stmt_more(s: &str, n: usize, i: usize, acc: Vec<Statement>) -> (r: Result<
    (Vec<Statement>, usize),
    ParseError,
>)
    requires
        n == s@.len(),
        i <= n,
    ensures
        stmts_parsed(r) == spec_stmt_more(s@, i as int, stmts_deep(acc@)),
        r matches Ok(p) ==> i <= p.1 && p.1 <= n,
    decreases n - i, 9int,
{
    let p = skip_multispace(s, n, i);
    if p < n && s.get_char(p) == ',' {
        let q = skip_multispace(s, n, p + 1);
        if kw_match(s, n, q, "skriv") || kw_match(s, n, q, "spara") || kw_match(s, n, q, "om") {
            match parse_statement(s, n, q) {
                Err(e) => Err(e),
                Ok((st, j)) => {
                    let ghost acc_seq = acc@;
                    let ghost acc_view = stmts_deep(acc@);
                    proof {
                        lemma_stmts_deep(acc_seq);
                    }
                    let mut acc2 = acc;
                    acc2.push(st);
                    proof {
                        lemma_stmts_deep(acc2@);
                        assert(acc2@ == acc_seq.push(st));
                        assert(stmts_deep(acc2@) =~= acc_view.push(st@));
                    }
                    parse_stmt_more(s, n, j, acc2)
                },
            }
        } else {
            Ok((acc, i))
        }
    } else {
        Ok((acc, i))
    }
}

fn parse_program_rest(s: &str, n: usize, i: usize, acc: Vec<Statement>) -> (r: Result<
    (Vec<Statement>, usize),
    ParseError,
>)
    requires
        n == s@.len(),
        i <= n,
    ensures
        stmts_parsed(r) == spec_program_rest(s@, i as int, stmts_deep(acc@)),
        r matches Ok(p) ==> i <= p.1 && p.1 == n,
    decreases n - i, 10int,
{
    let p = skip_multispace(s, n, i);
    if p == n {
        Ok((acc, p))
    } else {
        match parse_statement(s, n, p) {
            Err(e) => Err(e),
            Ok((st, j)) => {
                let ghost acc_seq = acc@;
                let ghost acc_view = stmts_deep(acc@);
                proof {
                    lemma_stmts_deep(acc_seq);
                }
                let mut acc2 = acc;
                acc2.push(st);
                proof {
                    lemma_stmts_deep(acc2@);
                    assert(acc2@ == acc_seq.push(st));
                    assert(stmts_deep(acc2@) =~= acc_view.push(st@));
                }
                parse_program_rest(s, n, j, acc2)
            },
        }
    }
}

/// Parses a whole source text into its statement sequence, or reports where
/// parsing stopped and what was expected there. The result is exactly what
/// the grammar's model [`spec_parse`] yields on the source's characters, and
/// a successful parse consumes the input to its end.
pub fn parse(source: &str) -> (r: Result<Vec<Statement>, ParseError>)
    ensures
        (match r {
            Ok(statements) => spec_parse(source@) == (Parsed::Accept {
                value: stmts_deep(statements@),
                next: source@.len() as int,
            }),
            Err(e) => spec_parse(source@) == (Parsed::<Seq<StatementView>>::Reject {
                at: e.offset as int,
                expected: e.expected,
            }),
        }),
{
    let n = source.unicode_len();
    match parse_statement(source, n, 0) {
        Err(e) => Err(e),
        Ok((st, j)) => {
            let mut acc: Vec<Statement> = Vec::new();
            acc.push(st);
            proof {
                lemma_stmts_deep(acc@);
                assert(stmts_deep(acc@) =~= seq![acc@[0]@]);
            }
            match parse_program_rest(source, n, j, acc) {
                Err(e) => Err(e),
                Ok((statements, _end)) => Ok(statements),
            }
        },
    }
}

} // verus!
