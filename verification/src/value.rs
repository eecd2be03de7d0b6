//! The runtime value model: integers and strings, the dynamically typed
//! semantics of each operator, and the display form used by printing.
//!
//! Arithmetic on integers wraps around on two's-complement overflow, as the
//! machine operations do. Division truncates toward zero and dividing by zero
//! is a fault. The comparison operators are a deliberate design decision that
//! the grammar calls for but the evaluator left open: two integers compare
//! numerically, two strings compare for character equality under `Equals` and
//! are a type mismatch under the ordering operators, and any mixed pair is a
//! type mismatch; a comparison yields the integer one when it holds and zero
//! when it does not.

use crate::ast::Operator;
use crate::text::i64_to_string;
use crate::text::spec_decimal;
use vstd::arithmetic::div_mod::lemma_div_basics_2;
use vstd::arithmetic::div_mod::lemma_div_is_ordered;
use vstd::arithmetic::div_mod::lemma_div_is_ordered_by_denominator;
use vstd::arithmetic::div_mod::lemma_div_nonincreasing;
use vstd::arithmetic::div_mod::lemma_div_pos_is_pos;
use vstd::prelude::*;
use vstd::string::StringExecFns;
use vstd::wrapping::i64_specs;

verus! {

/// The runtime result of evaluating an expression.
#[derive(Debug)]
pub enum VariableValue {
    Integer(i64),
    StringValue(String),
}

/// Mathematical model of a [`VariableValue`].
pub enum ValueView {
    Integer(i64),
    StringValue(Seq<char>),
}

impl View for VariableValue {
    type V = ValueView;

    open spec fn view(&self) -> ValueView {
        match self {
            VariableValue::Integer(n) => ValueView::Integer(*n),
            VariableValue::StringValue(s) => ValueView::StringValue(s@),
        }
    }
}

/// A condition that stops evaluation; surfaced to the caller as a typed
/// error instead of aborting the process.
#[derive(Debug)]
pub enum EvaluationFault {
    /// A variable was read before any assignment bound it.
    UnboundVariable { variable: String },
    /// The target of an assignment statement is not a variable term.
    AssignmentTargetNotVariable,
    /// An operator was applied to a pair of value kinds it does not accept.
    TypeMismatch { operator: Operator },
    /// The divisor of a division evaluated to zero.
    DivisionByZero,
}

/// Mathematical model of an [`EvaluationFault`].
pub enum FaultView {
    UnboundVariable { variable: Seq<char> },
    AssignmentTargetNotVariable,
    TypeMismatch { operator: Operator },
    DivisionByZero,
}

impl View for EvaluationFault {
    type V = FaultView;

    open spec fn view(&self) -> FaultView {
        match self {
            EvaluationFault::UnboundVariable { variable } => FaultView::UnboundVariable {
                variable: variable@,
            },
            EvaluationFault::AssignmentTargetNotVariable => FaultView::AssignmentTargetNotVariable,
            EvaluationFault::TypeMismatch { operator } => FaultView::TypeMismatch {
                operator: *operator,
            },
            EvaluationFault::DivisionByZero => FaultView::DivisionByZero,
        }
    }
}

/// Model of a fallible evaluation step.
pub open spec fn value_result_deep(r: Result<VariableValue, EvaluationFault>) -> Result<
    ValueView,
    FaultView,
> {
    match r {
        Ok(v) => Ok(v@),
        Err(f) => Err(f@),
    }
}

/// The display form of a value: an integer as decimal text, a string as its
/// own characters.
pub open spec fn spec_display(v: ValueView) -> Seq<char> {
    match v {
        ValueView::Integer(n) => spec_decimal(n as int),
        ValueView::StringValue(s) => s,
    }
}

/// The quotient of division truncated toward zero, written over the signs of
/// the operands so that each inner division is on non-negative values.
pub open spec fn trunc_quotient(x: int, d: int) -> int
    recommends
        d != 0,
{
    if x == 0 {
        0
    } else if x > 0 && d > 0 {
        x / d
    } else if x < 0 && d < 0 {
        (x * -1) / (d * -1)
    } else if x < 0 {
        ((x * -1) / d) * -1
    } else {
        (x / (d * -1)) * -1
    }
}

/// The quotient of truncating 64-bit division, with the single two's
/// complement wrap case mapped back into range.
pub open spec fn spec_div_i64(a: i64, b: i64) -> i64
    recommends
        b != 0,
{
    if a == i64::MIN && b == -1 {
        i64::MIN
    } else {
        trunc_quotient(a as int, b as int) as i64
    }
}

/// Away from the one wrapping pair, the truncating quotient of two 64-bit
/// values fits in 64 bits.
proof fn lemma_trunc_quotient_in_range(a: i64, b: i64)
    requires
        b != 0,
        !(a == i64::MIN && b == -1),
    ensures
        i64::MIN <= trunc_quotient(a as int, b as int) <= i64::MAX,
{
    let x = a as int;
    let d = b as int;
    if x == 0 {
    } else if x > 0 && d > 0 {
        lemma_div_pos_is_pos(x, d);
        lemma_div_nonincreasing(x, d);
    } else if x < 0 && d < 0 {
        lemma_div_pos_is_pos(x * -1, d * -1);
        if d == -1 {
            lemma_div_basics_2(x * -1);
        } else {
            lemma_div_is_ordered_by_denominator(x * -1, 2, d * -1);
            lemma_div_is_ordered(x * -1, 0x8000_0000_0000_0000, 2);
            assert(0x8000_0000_0000_0000int / 2int == 0x4000_0000_0000_0000int);
        }
    } else if x < 0 {
        lemma_div_pos_is_pos(x * -1, d);
        lemma_div_nonincreasing(x * -1, d);
    } else {
        lemma_div_pos_is_pos(x, d * -1);
        lemma_div_nonincreasing(x, d * -1);
    }
}

/// What applying `operator` to the pair `(a, b)` yields, for every pair of
/// value kinds. This is the whole operator table of the language.
pub open spec fn spec_apply(operator: Operator, a: ValueView, b: ValueView) -> Result<
    ValueView,
    FaultView,
> {
    match operator {
        Operator::Add => match (a, b) {
            (ValueView::Integer(x), ValueView::Integer(y)) => Ok(
                ValueView::Integer(i64_specs::wrapping_add(x, y)),
            ),
            (ValueView::Integer(x), ValueView::StringValue(s)) => Ok(
                ValueView::StringValue(spec_decimal(x as int) + s),
            ),
            (ValueView::StringValue(s), ValueView::Integer(y)) => Ok(
                ValueView::StringValue(s + spec_decimal(y as int)),
            ),
            (ValueView::StringValue(s), ValueView::StringValue(t)) => Ok(
                ValueView::StringValue(s + t),
            ),
        },
        Operator::Subtract => match (a, b) {
            (ValueView::Integer(x), ValueView::Integer(y)) => Ok(
                ValueView::Integer(i64_specs::wrapping_sub(x, y)),
            ),
            _ => Err(FaultView::TypeMismatch { operator: Operator::Subtract }),
        },
        Operator::Multiply => match (a, b) {
            (ValueView::Integer(x), ValueView::Integer(y)) => Ok(
                ValueView::Integer(i64_specs::wrapping_mul(x, y)),
            ),
            _ => Err(FaultView::TypeMismatch { operator: Operator::Multiply }),
        },
        Operator::Divide => match (a, b) {
            (ValueView::Integer(x), ValueView::Integer(y)) => {
                if y == 0 {
                    Err(FaultView::DivisionByZero)
                } else {
                    Ok(ValueView::Integer(spec_div_i64(x, y)))
                }
            },
            _ => Err(FaultView::TypeMismatch { operator: Operator::Divide }),
        },
        Operator::Equals => match (a, b) {
            (ValueView::Integer(x), ValueView::Integer(y)) => Ok(
                ValueView::Integer(if x == y { 1i64 } else { 0i64 }),
            ),
            (ValueView::StringValue(s), ValueView::StringValue(t)) => Ok(
                ValueView::Integer(if s == t { 1i64 } else { 0i64 }),
            ),
            _ => Err(FaultView::TypeMismatch { operator: Operator::Equals }),
        },
        Operator::GreaterThan => match (a, b) {
            (ValueView::Integer(x), ValueView::Integer(y)) => Ok(
                ValueView::Integer(if x > y { 1i64 } else { 0i64 }),
            ),
            _ => Err(FaultView::TypeMismatch { operator: Operator::GreaterThan }),
        },
        Operator::LessThan => match (a, b) {
            (ValueView::Integer(x), ValueView::Integer(y)) => Ok(
                ValueView::Integer(if x < y { 1i64 } else { 0i64 }),
            ),
            _ => Err(FaultView::TypeMismatch { operator: Operator::LessThan }),
        },
    }
}

impl VariableValue {
    /// Addition: integer sum, or concatenation as soon as either side is a
    /// string, with an integer side rendered as decimal text in place.
    pub fn add(self, other: VariableValue) -> (r: Result<VariableValue, EvaluationFault>)
        ensures
            value_result_deep(r) == spec_apply(Operator::Add, self@, other@),
    {
        match (self, other) {
            (VariableValue::Integer(a), VariableValue::Integer(b)) => Ok(
                VariableValue::Integer(a.wrapping_add(b)),
            ),
            (VariableValue::Integer(a), VariableValue::StringValue(b)) => Ok(
                VariableValue::StringValue(i64_to_string(a).concat(b.as_str())),
            ),
            (VariableValue::StringValue(a), VariableValue::Integer(b)) => Ok(
                VariableValue::StringValue(a.concat(i64_to_string(b).as_str())),
            ),
            (VariableValue::StringValue(a), VariableValue::StringValue(b)) => Ok(
                VariableValue::StringValue(a.concat(b.as_str())),
            ),
        }
    }

    /// Subtraction: defined for two integers only.
    pub fn sub(self, other: VariableValue) -> (r: Result<VariableValue, EvaluationFault>)
        ensures
            value_result_deep(r) == spec_apply(Operator::Subtract, self@, other@),
    {
        match (self, other) {
            (VariableValue::Integer(a), VariableValue::Integer(b)) => Ok(
                VariableValue::Integer(a.wrapping_sub(b)),
            ),
            _ => Err(EvaluationFault::TypeMismatch { operator: Operator::Subtract }),
        }
    }

    /// Multiplication: defined for two integers only.
    pub fn mul(self, other: VariableValue) -> (r: Result<VariableValue, EvaluationFault>)
        ensures
            value_result_deep(r) == spec_apply(Operator::Multiply, self@, other@),
    {
        match (self, other) {
            (VariableValue::Integer(a), VariableValue::Integer(b)) => Ok(
                VariableValue::Integer(a.wrapping_mul(b)),
            ),
            _ => Err(EvaluationFault::TypeMismatch { operator: Operator::Multiply }),
        }
    }

    /// Division: truncating integer quotient; a zero divisor is a fault.
    pub fn div(self, other: VariableValue) -> (r: Result<VariableValue, EvaluationFault>)
        ensures
            value_result_deep(r) == spec_apply(Operator::Divide, self@, other@),
    {
        match (self, other) {
            (VariableValue::Integer(a), VariableValue::Integer(b)) => {
                if b == 0 {
                    Err(EvaluationFault::DivisionByZero)
                } else {
                    match a.checked_div(b) {
                        Some(q) => {
                            proof {
                                if a == i64::MIN && b == -1 {
                                    lemma_div_basics_2((a as int) * -1);
                                }
                            }
                            Ok(VariableValue::Integer(q))
                        },
                        None => {
                            proof {
                                if !(a == i64::MIN && b == -1) {
                                    lemma_trunc_quotient_in_range(a, b);
                                }
                            }
                            Ok(VariableValue::Integer(i64::MIN))
                        },
                    }
                }
            },
            _ => Err(EvaluationFault::TypeMismatch { operator: Operator::Divide }),
        }
    }

    /// One of the three comparison operators, yielding integer one or zero.
    fn compare(self, operator: Operator, other: VariableValue) -> (r: Result<
        VariableValue,
        EvaluationFault,
    >)
        requires
            operator == Operator::Equals || operator == Operator::GreaterThan || operator
                == Operator::LessThan,
        ensures
            value_result_deep(r) == spec_apply(operator, self@, other@),
    {
        match (self, other) {
            (VariableValue::Integer(a), VariableValue::Integer(b)) => {
                let holds: bool = match operator {
                    Operator::Equals => a == b,
                    Operator::GreaterThan => a > b,
                    _ => a < b,
                };
                Ok(VariableValue::Integer(if holds { 1 } else { 0 }))
            },
            (VariableValue::StringValue(a), VariableValue::StringValue(b)) => {
                match operator {
                    Operator::Equals => Ok(
                        VariableValue::Integer(if a == b { 1 } else { 0 }),
                    ),
                    _ => Err(EvaluationFault::TypeMismatch { operator }),
                }
            },
            _ => Err(EvaluationFault::TypeMismatch { operator }),
        }
    }

    /// Applies any operator, dispatching to the method that implements it.
    pub fn apply(self, operator: Operator, other: VariableValue) -> (r: Result<
        VariableValue,
        EvaluationFault,
    >)
        ensures
            value_result_deep(r) == spec_apply(operator, self@, other@),
    {
        match operator {
            Operator::Add => self.add(other),
            Operator::Subtract => self.sub(other),
            Operator::Multiply => self.mul(other),
            Operator::Divide => self.div(other),
            _ => self.compare(operator, other),
        }
    }

    /// An owned copy of this value.
    pub fn duplicate(&self) -> (r: VariableValue)
        ensures
            r == *self,
    {
        match self {
            VariableValue::Integer(n) => VariableValue::Integer(*n),
            VariableValue::StringValue(s) => VariableValue::StringValue(s.clone()),
        }
    }

    /// The display form of this value: decimal text for an integer, the
    /// characters themselves for a string.
    pub fn to_display_string(&self) -> (r: String)
        ensures
            r@ == spec_display(self@),
    {
        match self {
            VariableValue::Integer(n) => i64_to_string(*n),
            VariableValue::StringValue(s) => s.clone(),
        }
    }
}

} // verus!
