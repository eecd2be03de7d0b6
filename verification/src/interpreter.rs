//! The evaluator: a flat variable environment, expression evaluation, and
//! sequential statement execution. Printing is modelled by collecting each
//! printed line into the interpreter's output, so that the whole run is a
//! function of the program and the starting environment; the caller writes
//! the collected lines wherever it wants them.
//!
//! Every evaluation fault is surfaced as a typed error result; partial
//! effects (bindings made and lines printed before the fault) are kept.

use crate::ast::Expression;
use crate::ast::ExpressionView;
use crate::ast::Statement;
use crate::ast::StatementView;
use crate::ast::Term;
use crate::ast::TermView;
use crate::ast::lemma_stmts_deep;
use crate::ast::stmt_deep;
use crate::ast::stmts_deep;
use crate::text::str_eq;
use crate::value::EvaluationFault;
use crate::value::FaultView;
use crate::value::ValueView;
use crate::value::VariableValue;
use crate::value::spec_apply;
use crate::value::spec_display;
use crate::value::value_result_deep;
use vstd::prelude::*;

verus! {

/// The flat mapping from variable name to current value. Its model is a
/// `Map` from the name's characters to the value's model; the latest
/// assignment to a name wins.
pub struct Environment {
    entries: Vec<(String, VariableValue)>,
}

/// The map denoted by a sequence of bindings, later bindings winning.
pub open spec fn env_map(s: Seq<(String, VariableValue)>) -> Map<Seq<char>, ValueView>
    decreases s.len(),
{
    if s.len() == 0 {
        Map::empty()
    } else {
        env_map(s.drop_last()).insert(s.last().0@, s.last().1@)
    }
}

impl View for Environment {
    type V = Map<Seq<char>, ValueView>;

    closed spec fn view(&self) -> Map<Seq<char>, ValueView> {
        env_map(self.entries@)
    }
}

proof fn lemma_env_map_last_match(s: Seq<(String, VariableValue)>, k: Seq<char>, i: int)
    requires
        0 <= i < s.len(),
        s[i].0@ == k,
        forall|j: int| i < j < s.len() ==> s[j].0@ != k,
    ensures
        env_map(s).contains_key(k),
        env_map(s)[k] == s[i].1@,
    decreases s.len(),
{
    if i < s.len() - 1 {
        lemma_env_map_last_match(s.drop_last(), k, i);
    }
}

proof fn lemma_env_map_absent(s: Seq<(String, VariableValue)>, k: Seq<char>)
    requires
        forall|j: int| 0 <= j < s.len() ==> s[j].0@ != k,
    ensures
        !env_map(s).contains_key(k),
    decreases s.len(),
{
    if s.len() > 0 {
        lemma_env_map_absent(s.drop_last(), k);
    }
}

impl Environment {
    /// An environment with no bindings.
    pub fn new() -> (r: Environment)
        ensures
            r@ == Map::<Seq<char>, ValueView>::empty(),
    {
        Environment { entries: Vec::new() }
    }

    /// Binds `name` to `value`, replacing any earlier binding of the name.
    pub fn insert(&mut self, name: String, value: VariableValue)
        ensures
            final(self)@ == old(self)@.insert(name@, value@),
    {
        let ghost before = self.entries@;
        self.entries.push((name, value));
        proof {
            assert(self.entries@.drop_last() =~= before);
        }
    }

    /// Looks a name up: the bound value, or `None` if the name is unbound.
    pub fn get(&self, name: &str) -> (r: Option<&VariableValue>)
        ensures
            match r {
                Some(v) => self@.contains_key(name@) && v@ == self@[name@],
                None => !self@.contains_key(name@),
            },
    {
        let n: usize = self.entries.len();
        let mut i: usize = n;
        while i > 0
            invariant
                i <= n,
                n == self.entries@.len(),
                forall|j: int| i <= j < n ==> self.entries@[j].0@ != name@,
            decreases i,
        {
            i = i - 1;
            let entry = &self.entries[i];
            if str_eq(entry.0.as_str(), name) {
                proof {
                    lemma_env_map_last_match(self.entries@, name@, i as int);
                }
                return Some(&entry.1);
            }
        }
        proof {
            lemma_env_map_absent(self.entries@, name@);
        }
        None
    }
}

/// What evaluating a term yields under a given environment. Reading an
/// unbound variable is the unbound-variable fault, never a default value.
pub open spec fn spec_eval_term(t: TermView, env: Map<Seq<char>, ValueView>) -> Result<
    ValueView,
    FaultView,
> {
    match t {
        TermView::Number(n) => Ok(ValueView::Integer(n)),
        TermView::StringLiteral(s) => Ok(ValueView::StringValue(s)),
        TermView::Variable(x) => if env.contains_key(x) {
            Ok(env[x])
        } else {
            Err(FaultView::UnboundVariable { variable: x })
        },
    }
}

/// What evaluating an expression yields: leaves by `spec_eval_term`, an
/// operation by evaluating its left side, then its right side, then applying
/// the operator; the first fault wins.
pub open spec fn spec_eval_expr(e: ExpressionView, env: Map<Seq<char>, ValueView>) -> Result<
    ValueView,
    FaultView,
>
    decreases e,
{
    match e {
        ExpressionView::Term(t) => spec_eval_term(t, env),
        ExpressionView::Operation { left, operator, right } => match spec_eval_expr(*left, env) {
            Err(f) => Err(f),
            Ok(a) => match spec_eval_expr(*right, env) {
                Err(f) => Err(f),
                Ok(b) => spec_apply(operator, a, b),
            },
        },
    }
}

impl Term {
    /// Evaluates this term against `variables`.
    pub fn evaluate(&self, variables: &Environment) -> (r: Result<VariableValue, EvaluationFault>)
        ensures
            value_result_deep(r) == spec_eval_term(self@, variables@),
    {
        match self {
            Term::Number(number) => Ok(VariableValue::Integer(*number)),
            Term::StringLiteral(string) => Ok(VariableValue::StringValue(string.clone())),
            Term::Variable(variable) => match variables.get(variable.as_str()) {
                Some(value) => Ok(value.duplicate()),
                None => Err(
                    EvaluationFault::UnboundVariable { variable: variable.clone() },
                ),
            },
        }
    }
}

impl Expression {
    /// Evaluates this expression against `variables`.
    pub fn evaluate(&self, variables: &Environment) -> (r: Result<VariableValue, EvaluationFault>)
        ensures
            value_result_deep(r) == spec_eval_expr(self@, variables@),
        decreases *self,
    {
        match self {
            Expression::Term(term) => term.evaluate(variables),
            Expression::Operation { left, operator, right } => {
                let a = match left.evaluate(variables) {
                    Ok(v) => v,
                    Err(f) => {
                        return Err(f);
                    },
                };
                let b = match right.evaluate(variables) {
                    Ok(v) => v,
                    Err(f) => {
                        return Err(f);
                    },
                };
                a.apply(*operator, b)
            },
        }
    }
}

/// Whether a value selects the then-branch of a conditional: an integer when
/// strictly positive, a string when non-empty.
pub open spec fn spec_truthy(v: ValueView) -> bool {
    match v {
        ValueView::Integer(n) => n > 0,
        ValueView::StringValue(s) => s.len() > 0,
    }
}

/// Mathematical model of an [`Interpreter`]: its bindings and the lines it
/// has printed so far.
pub struct InterpreterView {
    pub variables: Map<Seq<char>, ValueView>,
    pub output: Seq<Seq<char>>,
}

/// What executing one statement does to the interpreter state, and the fault
/// it stops on, if any.
pub open spec fn spec_exec_stmt(s: StatementView, m: InterpreterView) -> (
    InterpreterView,
    Option<FaultView>,
)
    decreases s,
{
    match s {
        StatementView::Assignment { variable, expression } => match variable {
            TermView::Variable(name) => match spec_eval_expr(expression, m.variables) {
                Ok(v) => (
                    InterpreterView { variables: m.variables.insert(name, v), output: m.output },
                    None,
                ),
                Err(f) => (m, Some(f)),
            },
            _ => (m, Some(FaultView::AssignmentTargetNotVariable)),
        },
        StatementView::Print { expression } => match spec_eval_expr(expression, m.variables) {
            Ok(v) => (
                InterpreterView {
                    variables: m.variables,
                    output: m.output.push(spec_display(v)),
                },
                None,
            ),
            Err(f) => (m, Some(f)),
        },
        StatementView::If { condition, then_branch, else_branch } => match spec_eval_expr(
            condition,
            m.variables,
        ) {
            Ok(v) => if spec_truthy(v) {
                spec_exec_stmts(then_branch, m)
            } else {
                spec_exec_stmts(else_branch, m)
            },
            Err(f) => (m, Some(f)),
        },
    }
}

/// What executing a statement sequence does: strictly in order, stopping at
/// the first fault and keeping the effects made before it.
pub open spec fn spec_exec_stmts(ss: Seq<StatementView>, m: InterpreterView) -> (
    InterpreterView,
    Option<FaultView>,
)
    decreases ss,
{
    if ss.len() == 0 {
        (m, None)
    } else {
        let stepped = spec_exec_stmt(ss[0], m);
        if stepped.1 is Some {
            stepped
        } else {
            spec_exec_stmts(ss.subrange(1, ss.len() as int), stepped.0)
        }
    }
}

/// Executes a parsed program for its side effects: variable bindings and
/// printed lines, both held in the interpreter itself.
pub struct Interpreter {
    variables: Environment,
    output: Vec<String>,
}

impl View for Interpreter {
    type V = InterpreterView;

    closed spec fn view(&self) -> InterpreterView {
        InterpreterView { variables: self.variables@, output: self.output.deep_view() }
    }
}

impl Interpreter {
    /// An interpreter with an empty environment and no output.
    pub fn new() -> (r: Interpreter)
        ensures
            r@.variables == Map::<Seq<char>, ValueView>::empty(),
            r@.output == Seq::<Seq<char>>::empty(),
    {
        let r = Interpreter { variables: Environment::new(), output: Vec::new() };
        proof {
            assert(r@.output =~= Seq::<Seq<char>>::empty());
        }
        r
    }

    /// Executes `statements` in order against this interpreter's environment,
    /// appending every printed line to its output; stops at the first fault
    /// and returns it, keeping the effects made before it.
    pub fn interpret(&mut self, statements: Vec<Statement>) -> (r: Result<(), EvaluationFault>)
        ensures
            ({
                let stepped = spec_exec_stmts(stmts_deep(statements@), old(self)@);
                &&& final(self)@ == stepped.0
                &&& (match r {
                    Ok(_) => stepped.1 is None,
                    Err(f) => stepped.1 == Some(f@),
                })
            }),
    {
        proof {
            assert(stmts_deep(statements@).skip(0) =~= stmts_deep(statements@));
        }
        self.run_from(&statements, 0)
    }

    /// Runs the statements of `statements` from index `i` on.
    fn run_from(&mut self, statements: &Vec<Statement>, i: usize) -> (r: Result<
        (),
        EvaluationFault,
    >)
        requires
            i <= statements@.len(),
        ensures
            ({
                let stepped = spec_exec_stmts(stmts_deep(statements@).skip(i as int), old(self)@);
                &&& final(self)@ == stepped.0
                &&& (match r {
                    Ok(_) => stepped.1 is None,
                    Err(f) => stepped.1 == Some(f@),
                })
            }),
        decreases statements@, statements@.len() - i,
    {
        proof {
            lemma_stmts_deep(statements@);
        }
        if i == statements.len() {
            proof {
                assert(stmts_deep(statements@).skip(i as int) =~= Seq::<StatementView>::empty());
            }
            return Ok(());
        }
        let ghost suffix = stmts_deep(statements@).skip(i as int);
        proof {
            assert(suffix[0] == stmt_deep(statements@[i as int]));
            assert(suffix.subrange(1, suffix.len() as int) =~= stmts_deep(statements@).skip(
                i as int + 1,
            ));
        }
        let statement = &statements[i];
        let step_result = self.run_statement(statement);
        proof {
            let m0 = old(self)@;
            let stepped1 = spec_exec_stmt(suffix[0], m0);
            if stepped1.1 is Some {
                assert(spec_exec_stmts(suffix, m0) == stepped1);
            } else {
                assert(spec_exec_stmts(suffix, m0) == spec_exec_stmts(
                    suffix.subrange(1, suffix.len() as int),
                    stepped1.0,
                ));
            }
        }
        match step_result {
            Err(f) => Err(f),
            Ok(_) => self.run_from(statements, i + 1),
        }
    }

    /// Executes one statement, relating the interpreter to `spec_exec_stmt`.
    fn run_statement(&mut self, statement: &Statement) -> (r: Result<(), EvaluationFault>)
        ensures
            ({
                let stepped = spec_exec_stmt(statement@, old(self)@);
                &&& final(self)@ == stepped.0
                &&& (match r {
                    Ok(_) => stepped.1 is None,
                    Err(f) => stepped.1 == Some(f@),
                })
            }),
        decreases *statement, 0int,
    {
        match statement {
            Statement::Print { expression } => {
                match expression.evaluate(&self.variables) {
                    Ok(v) => {
                        let ghost before = self.output.deep_view();
                        let line = v.to_display_string();
                        self.output.push(line);
                        proof {
                            assert(self.output.deep_view() =~= before.push(line@));
                        }
                        Ok(())
                    },
                    Err(f) => Err(f),
                }
            },
            Statement::Assignment { variable, expression } => {
                match variable {
                    Term::Variable(name) => match expression.evaluate(&self.variables) {
                        Ok(v) => {
                            self.variables.insert(name.clone(), v);
                            Ok(())
                        },
                        Err(f) => Err(f),
                    },
                    _ => Err(EvaluationFault::AssignmentTargetNotVariable),
                }
            },
            Statement::If { condition, then_branch, else_branch } => {
                match condition.evaluate(&self.variables) {
                    Ok(v) => {
                        let truthy: bool = match &v {
                            VariableValue::Integer(number) => *number > 0,
                            VariableValue::StringValue(string) => !string.as_str().is_empty(),
                        };
                        if truthy {
                            self.run_from_start(then_branch)
                        } else {
                            self.run_from_start(else_branch)
                        }
                    },
                    Err(f) => Err(f),
                }
            },
        }
    }


    /// Runs a whole nested statement block.
    fn run_from_start(&mut self, statements: &Vec<Statement>) -> (r: Result<(), EvaluationFault>)
        ensures
            ({
                let stepped = spec_exec_stmts(stmts_deep(statements@), old(self)@);
                &&& final(self)@ == stepped.0
                &&& (match r {
                    Ok(_) => stepped.1 is None,
                    Err(f) => stepped.1 == Some(f@),
                })
            }),
        decreases statements@, statements@.len() + 1,
    {
        proof {
            assert(stmts_deep(statements@).skip(0) =~= stmts_deep(statements@));
        }
        self.run_from(statements, 0)
    }

    /// The lines printed so far, in order.
    pub fn output(&self) -> (r: &Vec<String>)
        ensures
            r.deep_view() == self@.output,
    {
        &self.output
    }

    /// Consumes the interpreter, handing its printed lines out.
    pub fn into_output(self) -> (r: Vec<String>)
        ensures
            r.deep_view() == self@.output,
    {
        self.output
    }

    /// The value currently bound to `name`, if any.
    pub fn get_variable(&self, name: &str) -> (r: Option<&VariableValue>)
        ensures
            match r {
                Some(v) => self@.variables.contains_key(name@) && v@ == self@.variables[name@],
                None => !self@.variables.contains_key(name@),
            },
    {
        self.variables.get(name)
    }
}

} // verus!
