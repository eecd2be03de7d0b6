//! An interpreter for a small scripting language whose keywords and operators
//! are spelled as Swedish words and whose statements end with a period.
//!
//! Source text is parsed into a sequence of statements by [`parser::parse`]
//! and executed against a flat variable environment by
//! [`interpreter::Interpreter`], which collects each printed line instead of
//! writing to standard output; [`run`] does both in one call. Every public
//! function's contract ties its result to a spec-level model of the same
//! step, and the laws at the end of this file state the properties that the
//! language guarantees.

use vstd::prelude::*;

pub mod ast;
pub mod text;
pub mod value;
pub mod interpreter;
pub mod parser;
pub mod scanner;
pub mod token;

use crate::ast::Operator;
use crate::ast::StatementView;
use crate::ast::TermView;
use crate::interpreter::Interpreter;
use crate::interpreter::InterpreterView;
use crate::interpreter::spec_eval_term;
use crate::interpreter::spec_exec_stmts;
use crate::parser::Expected;
use crate::parser::ParseError;
use crate::parser::Parsed;
use crate::parser::lit_at;
use crate::parser::parse;
use crate::parser::spec_number_at;
use crate::parser::spec_parse;
use crate::parser::spec_term_at;
use crate::text::spec_decimal;
use crate::value::EvaluationFault;
use crate::value::FaultView;
use crate::value::ValueView;
use crate::value::spec_apply;

verus! {

/// The eleven spelled-out number words recognised by the language, in value
/// order: the word at index `n` denotes the integer `n`.
pub open spec fn spec_number_words() -> Seq<Seq<char>> {
    seq![
        "noll"@,
        "ett"@,
        "två"@,
        "tre"@,
        "fyra"@,
        "fem"@,
        "sex"@,
        "sju"@,
        "åtta"@,
        "nio"@,
        "tio"@,
    ]
}

/// Why a whole run failed: the program did not parse, or its evaluation
/// stopped on a fault.
#[derive(Debug)]
pub enum RunError {
    Parse(ParseError),
    Evaluation(EvaluationFault),
}

/// Mathematical model of a [`RunError`].
pub enum RunErrorView {
    Parse { at: int, expected: Expected },
    Evaluation { fault: FaultView },
}

impl View for RunError {
    type V = RunErrorView;

    open spec fn view(&self) -> RunErrorView {
        match self {
            RunError::Parse(e) => RunErrorView::Parse {
                at: e.offset as int,
                expected: e.expected,
            },
            RunError::Evaluation(f) => RunErrorView::Evaluation { fault: f@ },
        }
    }
}

/// What running a source text yields: the lines it prints, in order, and the
/// error that stopped it, if one did. A parse error prints nothing; an
/// evaluation fault keeps the lines printed before it.
pub open spec fn spec_run(s: Seq<char>) -> (Seq<Seq<char>>, Option<RunErrorView>) {
    match spec_parse(s) {
        Parsed::Reject { at, expected } => (
            Seq::empty(),
            Some(RunErrorView::Parse { at, expected }),
        ),
        Parsed::Accept { value: statements, next } => {
            let start = InterpreterView { variables: Map::empty(), output: Seq::empty() };
            let stepped = spec_exec_stmts(statements, start);
            (
                stepped.0.output,
                match stepped.1 {
                    None => None,
                    Some(f) => Some(RunErrorView::Evaluation { fault: f }),
                },
            )
        },
    }
}

/// Parses `source` and executes it against a fresh environment, handing back
/// the lines it printed, in order, and the error that stopped it, if any.
pub fn run(source: &str) -> (r: (Vec<String>, Option<RunError>))
    ensures
        ({
            let outcome = spec_run(source@);
            &&& r.0.deep_view() == outcome.0
            &&& (match r.1 {
                None => outcome.1 is None,
                Some(e) => outcome.1 == Some(e@),
            })
        }),
{
    match parse(source) {
        Err(e) => {
            let empty: Vec<String> = Vec::new();
            proof {
                assert(empty.deep_view() =~= Seq::<Seq<char>>::empty());
            }
            (empty, Some(RunError::Parse(e)))
        },
        Ok(statements) => {
            let mut interpreter = Interpreter::new();
            proof {
                assert(interpreter@ == (InterpreterView {
                    variables: Map::empty(),
                    output: Seq::empty(),
                }));
            }
            let result = interpreter.interpret(statements);
            let output = interpreter.into_output();
            match result {
                Ok(_) => (output, None),
                Err(f) => (output, Some(RunError::Evaluation(f))),
            }
        },
    }
}

/// Determinism of a whole run: the printed output and the reported error are
/// a function of the source text alone, so two runs of the same text agree.
/// `run`'s contract ties every execution to `spec_run`, and this law says
/// `spec_run` admits one outcome per text.
pub proof fn lemma_run_deterministic(
    source: Seq<char>,
    r1: (Seq<Seq<char>>, Option<RunErrorView>),
    r2: (Seq<Seq<char>>, Option<RunErrorView>),
)
    requires
        r1 == spec_run(source),
        r2 == spec_run(source),
    ensures
        r1 == r2,
{
}

/// Determinism of interpretation alone: from one statement sequence and one
/// starting state, the final state and the reported fault are the same in
/// any two executions, whatever the starting environment held.
pub proof fn lemma_interpret_deterministic(
    statements: Seq<StatementView>,
    start: InterpreterView,
    r1: (InterpreterView, Option<FaultView>),
    r2: (InterpreterView, Option<FaultView>),
)
    requires
        r1 == spec_exec_stmts(statements, start),
        r2 == spec_exec_stmts(statements, start),
    ensures
        r1 == r2,
{
}

/// Number-word round trip: the word at index `k` of the table parses as a
/// number term whose value is exactly `k`, consuming exactly the word, and
/// that term evaluates to the integer `k` under every environment.
pub proof fn lemma_number_word_round_trip(k: int, env: Map<Seq<char>, ValueView>)
    requires
        0 <= k < 11,
    ensures
        ({
            let w = spec_number_words()[k];
            &&& spec_term_at(w, 0) == (Parsed::Accept {
                value: TermView::Number(k as i64),
                next: w.len() as int,
            })
            &&& spec_eval_term(TermView::Number(k as i64), env) == Ok::<ValueView, FaultView>(
                ValueView::Integer(k as i64),
            )
        }),
{
    reveal_number_words();
    let w = spec_number_words()[k];
    if k == 0 {
        assert(lit_at(w, 0, "noll"@));
    } else if k == 1 {
        assert(lit_at(w, 0, "ett"@));
    } else if k == 2 {
        assert(lit_at(w, 0, "två"@));
        assert(!lit_at(w, 0, "ett"@)) by {
            assert(w[0] != "ett"@[0]);
        }
    } else if k == 3 {
        assert(lit_at(w, 0, "tre"@));
        assert(!lit_at(w, 0, "ett"@)) by {
            assert(w[0] != "ett"@[0]);
        }
        assert(!lit_at(w, 0, "två"@)) by {
            assert(w[1] != "två"@[1]);
        }
    } else if k == 4 {
        assert(lit_at(w, 0, "fyra"@));
        assert(!lit_at(w, 0, "noll"@)) by {
            assert(w[0] != "noll"@[0]);
        }
    } else if k == 5 {
        assert(lit_at(w, 0, "fem"@));
        assert(!lit_at(w, 0, "ett"@)) by {
            assert(w[0] != "ett"@[0]);
        }
        assert(!lit_at(w, 0, "två"@)) by {
            assert(w[0] != "två"@[0]);
        }
        assert(!lit_at(w, 0, "tre"@)) by {
            assert(w[0] != "tre"@[0]);
        }
    } else if k == 6 {
        assert(lit_at(w, 0, "sex"@));
        assert(!lit_at(w, 0, "ett"@)) by {
            assert(w[0] != "ett"@[0]);
        }
        assert(!lit_at(w, 0, "två"@)) by {
            assert(w[0] != "två"@[0]);
        }
        assert(!lit_at(w, 0, "tre"@)) by {
            assert(w[0] != "tre"@[0]);
        }
        assert(!lit_at(w, 0, "fem"@)) by {
            assert(w[0] != "fem"@[0]);
        }
    } else if k == 7 {
        assert(lit_at(w, 0, "sju"@));
        assert(!lit_at(w, 0, "ett"@)) by {
            assert(w[0] != "ett"@[0]);
        }
        assert(!lit_at(w, 0, "två"@)) by {
            assert(w[0] != "två"@[0]);
        }
        assert(!lit_at(w, 0, "tre"@)) by {
            assert(w[0] != "tre"@[0]);
        }
        assert(!lit_at(w, 0, "fem"@)) by {
            assert(w[0] != "fem"@[0]);
        }
        assert(!lit_at(w, 0, "sex"@)) by {
            assert(w[1] != "sex"@[1]);
        }
    } else if k == 8 {
        assert(lit_at(w, 0, "åtta"@));
        assert(!lit_at(w, 0, "noll"@)) by {
            assert(w[0] != "noll"@[0]);
        }
        assert(!lit_at(w, 0, "fyra"@)) by {
            assert(w[0] != "fyra"@[0]);
        }
    } else if k == 9 {
        assert(lit_at(w, 0, "nio"@));
        assert(!lit_at(w, 0, "ett"@)) by {
            assert(w[0] != "ett"@[0]);
        }
        assert(!lit_at(w, 0, "två"@)) by {
            assert(w[0] != "två"@[0]);
        }
        assert(!lit_at(w, 0, "tre"@)) by {
            assert(w[0] != "tre"@[0]);
        }
        assert(!lit_at(w, 0, "fem"@)) by {
            assert(w[0] != "fem"@[0]);
        }
        assert(!lit_at(w, 0, "sex"@)) by {
            assert(w[0] != "sex"@[0]);
        }
        assert(!lit_at(w, 0, "sju"@)) by {
            assert(w[0] != "sju"@[0]);
        }
    } else {
        assert(lit_at(w, 0, "tio"@));
        assert(!lit_at(w, 0, "ett"@)) by {
            assert(w[0] != "ett"@[0]);
        }
        assert(!lit_at(w, 0, "två"@)) by {
            assert(w[1] != "två"@[1]);
        }
        assert(!lit_at(w, 0, "tre"@)) by {
            assert(w[1] != "tre"@[1]);
        }
        assert(!lit_at(w, 0, "fem"@)) by {
            assert(w[0] != "fem"@[0]);
        }
        assert(!lit_at(w, 0, "sex"@)) by {
            assert(w[0] != "sex"@[0]);
        }
        assert(!lit_at(w, 0, "sju"@)) by {
            assert(w[0] != "sju"@[0]);
        }
        assert(!lit_at(w, 0, "nio"@)) by {
            assert(w[0] != "nio"@[0]);
        }
    }
}

/// No other word is read as a number: whenever the number parser accepts at
/// a position, one of the eleven table words occurs at that very position,
/// the value is that word's index, and exactly the word was consumed; where
/// none of the words occurs, it rejects.
pub proof fn lemma_number_needs_table_word(s: Seq<char>, i: int)
    ensures
        (match spec_number_at(s, i) {
            Some(p) => exists|k: int|
                0 <= k < 11 && lit_at(s, i, #[trigger] spec_number_words()[k]) && p.0 == k && p.1
                    == i + spec_number_words()[k].len(),
            None => forall|k: int|
                0 <= k < 11 ==> !lit_at(s, i, #[trigger] spec_number_words()[k]),
        }),
{
    reveal_number_words();
    if spec_number_at(s, i) is Some {
        if lit_at(s, i, "noll"@) {
            assert(lit_at(s, i, spec_number_words()[0]));
        } else if lit_at(s, i, "ett"@) {
            assert(lit_at(s, i, spec_number_words()[1]));
        } else if lit_at(s, i, "två"@) {
            assert(lit_at(s, i, spec_number_words()[2]));
        } else if lit_at(s, i, "tre"@) {
            assert(lit_at(s, i, spec_number_words()[3]));
        } else if lit_at(s, i, "fyra"@) {
            assert(lit_at(s, i, spec_number_words()[4]));
        } else if lit_at(s, i, "fem"@) {
            assert(lit_at(s, i, spec_number_words()[5]));
        } else if lit_at(s, i, "sex"@) {
            assert(lit_at(s, i, spec_number_words()[6]));
        } else if lit_at(s, i, "sju"@) {
            assert(lit_at(s, i, spec_number_words()[7]));
        } else if lit_at(s, i, "åtta"@) {
            assert(lit_at(s, i, spec_number_words()[8]));
        } else if lit_at(s, i, "nio"@) {
            assert(lit_at(s, i, spec_number_words()[9]));
        } else {
            assert(lit_at(s, i, spec_number_words()[10]));
        }
    } else {
        assert forall|k: int| 0 <= k < 11 implies !lit_at(
            s,
            i,
            #[trigger] spec_number_words()[k],
        ) by {
            if k == 0 {
                assert(spec_number_words()[0] == "noll"@);
            } else if k == 1 {
                assert(spec_number_words()[1] == "ett"@);
            } else if k == 2 {
                assert(spec_number_words()[2] == "två"@);
            } else if k == 3 {
                assert(spec_number_words()[3] == "tre"@);
            } else if k == 4 {
                assert(spec_number_words()[4] == "fyra"@);
            } else if k == 5 {
                assert(spec_number_words()[5] == "fem"@);
            } else if k == 6 {
                assert(spec_number_words()[6] == "sex"@);
            } else if k == 7 {
                assert(spec_number_words()[7] == "sju"@);
            } else if k == 8 {
                assert(spec_number_words()[8] == "åtta"@);
            } else if k == 9 {
                assert(spec_number_words()[9] == "nio"@);
            } else {
                assert(spec_number_words()[10] == "tio"@);
            }
        }
    }
}

/// Mixed-type addition concatenates, with the integer side rendered as its
/// decimal text, in the order the operands were written.
pub proof fn lemma_mixed_addition(x: i64, s: Seq<char>)
    ensures
        spec_apply(Operator::Add, ValueView::Integer(x), ValueView::StringValue(s)) == Ok::<
            ValueView,
            FaultView,
        >(ValueView::StringValue(spec_decimal(x as int) + s)),
        spec_apply(Operator::Add, ValueView::StringValue(s), ValueView::Integer(x)) == Ok::<
            ValueView,
            FaultView,
        >(ValueView::StringValue(s + spec_decimal(x as int))),
{
}

/// Dividing any integer by zero is the division-by-zero fault, never a
/// value.
pub proof fn lemma_division_by_zero(x: i64)
    ensures
        spec_apply(Operator::Divide, ValueView::Integer(x), ValueView::Integer(0)) == Err::<
            ValueView,
            FaultView,
        >(FaultView::DivisionByZero),
{
}

/// Reading a variable that the environment does not bind is the
/// unbound-variable fault, never a default value.
pub proof fn lemma_unbound_variable(x: Seq<char>, env: Map<Seq<char>, ValueView>)
    requires
        !env.contains_key(x),
    ensures
        spec_eval_term(TermView::Variable(x), env) == Err::<ValueView, FaultView>(
            FaultView::UnboundVariable { variable: x },
        ),
{
}

proof fn reveal_number_words()
    ensures
        "noll"@ == seq!['n', 'o', 'l', 'l'],
        "ett"@ == seq!['e', 't', 't'],
        "två"@ == seq!['t', 'v', 'å'],
        "tre"@ == seq!['t', 'r', 'e'],
        "fyra"@ == seq!['f', 'y', 'r', 'a'],
        "fem"@ == seq!['f', 'e', 'm'],
        "sex"@ == seq!['s', 'e', 'x'],
        "sju"@ == seq!['s', 'j', 'u'],
        "åtta"@ == seq!['å', 't', 't', 'a'],
        "nio"@ == seq!['n', 'i', 'o'],
        "tio"@ == seq!['t', 'i', 'o'],
{
    reveal_strlit("noll");
    reveal_strlit("ett");
    reveal_strlit("två");
    reveal_strlit("tre");
    reveal_strlit("fyra");
    reveal_strlit("fem");
    reveal_strlit("sex");
    reveal_strlit("sju");
    reveal_strlit("åtta");
    reveal_strlit("nio");
    reveal_strlit("tio");
}

} // verus!
