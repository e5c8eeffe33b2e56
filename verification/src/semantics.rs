//! What evaluation means: a function from an expression, the scopes, the
//! journal and a depth to an outcome and the scopes and journal afterwards.
//!
//! The executable evaluator is proved to compute exactly this function.

use crate::env::{bind_in, lookup_in, pop_in, value_of, BindingView, Scopes, ONE};
use crate::expr::Op;
use crate::host::{JournalView, RequestView};
use crate::text::{alike, concat, decimal, spaced};
use crate::types::ExprView;
use vstd::prelude::*;

verus! {

/// The bit pattern of the double 0.
pub const ZERO: u64 = 0;

/// All that evaluation reads and changes.
pub struct State {
    pub scopes: Scopes,
    pub journal: JournalView,
}

/// How evaluation ends.
pub enum Outcome {
    /// It failed, with this message.
    Failure(Seq<char>),
    /// It gave a value.
    Value(ExprView),
    /// It gave nothing: a definition or a print.
    Unit,
    /// It needs the host: the journal holds no fitting reply to this
    /// request.
    Pending(RequestView),
}

/// An outcome, and the state that evaluation left.
pub struct Step {
    pub outcome: Outcome,
    pub state: State,
}

/// What is done with each expression of a sequence, one after the other.
pub enum Walk {
    /// It is evaluated.
    Eval,
    /// It is rendered for printing.
    Show,
    /// It is evaluated and turned into an equality key.
    Key,
    /// It is an item of a list under comparison: evaluated and turned
    /// into a part of that list's key.
    Nested,
}

/// Which outcomes let a walk go on to the next expression.
pub enum Pass {
    Numbers,
    Truths,
    Values,
    ValuesAndUnits,
}

/// A text, carried as an outcome.
pub open spec fn text(t: Seq<char>) -> Outcome {
    Outcome::Value(ExprView::Symbol(t))
}

/// The text that an outcome carries.
pub open spec fn text_in(outcome: Outcome) -> Seq<char> {
    match outcome {
        Outcome::Value(ExprView::Symbol(t)) => t,
        _ => Seq::empty(),
    }
}

/// The number that an outcome carries.
pub open spec fn number_in(outcome: Outcome) -> u64 {
    match outcome {
        Outcome::Value(ExprView::Number(bits)) => bits,
        _ => ZERO,
    }
}

/// The value that an outcome carries.
pub open spec fn value_in(outcome: Outcome) -> ExprView {
    match outcome {
        Outcome::Value(v) => v,
        _ => ExprView::List(Seq::empty()),
    }
}

/// Whether a value counts as true: the symbol `True`, or a list that is
/// not empty. A symbol other than `True` and the empty list count as false;
/// nothing else has a truth.
pub open spec fn truth(outcome: Outcome) -> Option<bool> {
    match outcome {
        Outcome::Value(ExprView::Symbol(s)) => Some(s == "True"@),
        Outcome::Value(ExprView::List(items)) => Some(items.len() > 0),
        _ => None,
    }
}

/// Whether `outcome` lets a walk go on.
pub open spec fn passes(pass: Pass, outcome: Outcome) -> bool {
    match pass {
        Pass::Numbers => outcome is Value && outcome->Value_0 is Number,
        Pass::Truths => truth(outcome) is Some,
        Pass::Values => outcome is Value,
        Pass::ValuesAndUnits => outcome is Value || outcome is Unit,
    }
}

/// The canonical symbol for a truth.
pub open spec fn boolean(b: bool) -> ExprView {
    if b {
        ExprView::Symbol("True"@)
    } else {
        ExprView::Symbol("False"@)
    }
}

/// The message for an evaluation that has no depth left.
pub open spec fn too_deep() -> Seq<char> {
    "Evaluation is nested too deeply."@
}

/// Whether an outcome is one that every form hands on as it is: a request
/// to the host, and the failure for want of depth. No form answers these
/// in its own words, and a comparison makes no key of them.
pub open spec fn handed_on(outcome: Outcome) -> bool {
    outcome is Pending || outcome == Outcome::Failure(too_deep())
}

/// The message for an arithmetic form without operands.
pub open spec fn arity_message(op: Op) -> Seq<char> {
    match op {
        Op::Add => "Must perform addition on at least one number"@,
        Op::Sub => "Must perform subtraction on at least one number"@,
        Op::Mul => "Must perform multiplication on at least one number"@,
        Op::Div => "Must perform division on at least one number"@,
    }
}

/// The message for an arithmetic operand that is no number.
pub open spec fn type_message(op: Op) -> Seq<char> {
    match op {
        Op::Add => "Can only sum numbers."@,
        Op::Sub => "Can only subtract numbers."@,
        Op::Mul => "Can only mutiply numbers."@,
        Op::Div => "Can only divide numbers."@,
    }
}

/// An outcome that rests on the host's replies, and the journal after
/// they were read.
pub struct Asked {
    pub outcome: Outcome,
    pub journal: JournalView,
}

impl Asked {
    /// The step that this makes in the given scopes, which it leaves as
    /// they are.
    pub open spec fn within(self, scopes: Scopes) -> Step {
        Step { outcome: self.outcome, state: State { scopes, journal: self.journal } }
    }
}

/// Asks the host for the decimal text of `bits`.
pub open spec fn render(bits: u64, journal: JournalView) -> Asked {
    match journal.text() {
        Some(t) => Asked { outcome: text(t), journal: journal.advanced() },
        None => Asked { outcome: Outcome::Pending(RequestView::Render(bits)), journal },
    }
}

/// Folds `rest` into `acc` from the left, asking the host for each
/// combination.
pub open spec fn chain(op: Op, acc: u64, rest: Seq<u64>, journal: JournalView) -> Asked
    decreases rest.len(),
{
    if rest.len() == 0 {
        Asked { outcome: Outcome::Value(ExprView::Number(acc)), journal }
    } else {
        match journal.number() {
            Some(bits) => chain(op, bits, rest.drop_first(), journal.advanced()),
            None => Asked {
                outcome: Outcome::Pending(RequestView::Arith(op, acc, rest[0])),
                journal,
            },
        }
    }
}

/// Combines the operands of an arithmetic form. Without operands it
/// fails. A single operand is its own sum and product; its difference is
/// zero less the operand, and its quotient one divided by the operand.
/// Two or more are folded from the left, starting with the first.
pub open spec fn fold(op: Op, numbers: Seq<u64>, journal: JournalView) -> Asked {
    if numbers.len() == 0 {
        Asked { outcome: Outcome::Failure(arity_message(op)), journal }
    } else if numbers.len() == 1 && op is Sub {
        chain(op, ZERO, numbers, journal)
    } else if numbers.len() == 1 && op is Div {
        chain(op, ONE, numbers, journal)
    } else {
        chain(op, numbers[0], numbers.drop_first(), journal)
    }
}

/// Asks the host to write `line`.
pub open spec fn emit(line: Seq<char>, journal: JournalView) -> Asked {
    if journal.written() {
        Asked { outcome: Outcome::Unit, journal: journal.advanced() }
    } else {
        Asked { outcome: Outcome::Pending(RequestView::Print(line)), journal }
    }
}

/// The scopes after each parameter is bound to its value in the innermost
/// scope, in order.
pub open spec fn bind_values(
    scopes: Scopes,
    params: Seq<Seq<char>>,
    values: Seq<ExprView>,
    n: int,
) -> Scopes
    decreases n,
{
    if n <= 0 {
        scopes
    } else {
        bind_in(bind_values(scopes, params, values, n - 1), params[n - 1], value_of(values[n - 1]))
    }
}

/// Whether each of `items` is a symbol.
pub open spec fn all_symbols(items: Seq<ExprView>) -> bool {
    forall|i: int| 0 <= i < items.len() ==> (#[trigger] items[i]) is Symbol
}

/// The names of `items`, each of which is a symbol.
pub open spec fn names_of(items: Seq<ExprView>) -> Seq<Seq<char>> {
    Seq::new(items.len(), |i: int| items[i]->Symbol_0)
}

/// The place of a walk in the order in which the definitions below rest on
/// each other: the key of an operand rests on the walk over a list's items.
pub open spec fn rank(walk: Walk) -> nat {
    if walk is Key {
        6
    } else {
        1
    }
}

/// What `e` comes to in `state`, with `fuel` levels of nesting to enter.
///
/// Without fuel it fails. A number is its own value, and so is the empty
/// list. A symbol is looked up. A list whose head is the name of a form is
/// that form on the items behind the head; the names of forms go before
/// any binding of the same name. A list whose head is another symbol that
/// is bound is a call. Every other list is evaluated item by item.
pub open spec fn eval_spec(e: ExprView, state: State, fuel: nat) -> Step
    decreases fuel, 0nat, 0nat,
{
    if fuel == 0 {
        Step { outcome: Outcome::Failure(too_deep()), state }
    } else {
        let inner = (fuel - 1) as nat;
        match e {
            ExprView::Number(_) => Step { outcome: Outcome::Value(e), state },
            ExprView::Symbol(s) => apply_spec(e, s, Seq::empty(), state, inner),
            ExprView::List(items) => {
                if items.len() == 0 {
                    Step { outcome: Outcome::Value(ExprView::List(Seq::empty())), state }
                } else {
                    let operands = items.drop_first();
                    match items[0] {
                        ExprView::Symbol(s) => {
                            if s == "+"@ {
                                arith_spec(Op::Add, operands, state, inner)
                            } else if s == "-"@ {
                                arith_spec(Op::Sub, operands, state, inner)
                            } else if s == "*"@ {
                                arith_spec(Op::Mul, operands, state, inner)
                            } else if s == "/"@ {
                                arith_spec(Op::Div, operands, state, inner)
                            } else if s == "or"@ {
                                or_spec(operands, state, inner)
                            } else if s == "and"@ {
                                and_spec(operands, state, inner)
                            } else if s == "not"@ {
                                not_spec(operands, state, inner)
                            } else if s == "="@ {
                                eq_spec(operands, state, inner)
                            } else if s == "!="@ {
                                neq_spec(operands, state, inner)
                            } else if s == "let"@ {
                                let_spec(operands, state, inner)
                            } else if s == "fn"@ {
                                fn_spec(operands, state)
                            } else if s == "print"@ {
                                print_spec(operands, state, inner)
                            } else if s == "if"@ {
                                if_spec(operands, state, inner)
                            } else if lookup_in(state.scopes, s) is Some {
                                apply_spec(e, s, operands, state, inner)
                            } else {
                                collect_spec(items, state, inner)
                            }
                        },
                        _ => collect_spec(items, state, inner),
                    }
                }
            },
        }
    }
}

/// Renders `e` for printing: the text comes back as a symbol.
pub open spec fn show_spec(e: ExprView, state: State, fuel: nat) -> Step
    decreases fuel, 0nat, 0nat,
{
    if fuel == 0 {
        Step { outcome: Outcome::Failure(too_deep()), state }
    } else {
        let inner = (fuel - 1) as nat;
        match e {
            ExprView::Symbol(s) => match lookup_in(state.scopes, s) {
                None => Step { outcome: text(s), state },
                Some(binding) => if binding.params.len() == 0 {
                    show_spec(binding.body, state, inner)
                } else {
                    Step { outcome: text("<func-object: "@ + s + ">"@), state }
                },
            },
            ExprView::Number(bits) => render(bits, state.journal).within(state.scopes),
            ExprView::List(items) => {
                let stop = first_stop(Walk::Show, Pass::Values, items, state, inner, 0);
                if stop < items.len() {
                    Step {
                        outcome: outcome_at(Walk::Show, items, state, inner, stop),
                        state: before(Walk::Show, items, state, inner, stop + 1),
                    }
                } else {
                    Step {
                        outcome: text(
                            "("@ + spaced(texts_at(Walk::Show, items, state, inner)) + ")"@,
                        ),
                        state: before(Walk::Show, items, state, inner, items.len() as int),
                    }
                }
            },
        }
    }
}

/// Turns an item of a list under comparison into its part of the key: the
/// decimal text of a number, the name of a symbol, and `Error` for all
/// else but what is handed on.
pub open spec fn nested_key(step: Step) -> Step {
    match step.outcome {
        Outcome::Value(ExprView::Number(bits)) => render(bits, step.state.journal).within(
            step.state.scopes,
        ),
        Outcome::Value(ExprView::Symbol(s)) => Step { outcome: text(s), state: step.state },
        _ => if handed_on(step.outcome) {
            step
        } else {
            Step { outcome: text("Error"@), state: step.state }
        },
    }
}

/// The equality key of `e`: the decimal text of a number, the name of a
/// symbol, and for a list the parts of its items one after the other.
pub open spec fn key_spec(e: ExprView, state: State, fuel: nat) -> Step
    decreases fuel, 5nat, 0nat,
{
    let step = eval_spec(e, state, fuel);
    match step.outcome {
        Outcome::Value(ExprView::Number(bits)) => render(bits, step.state.journal).within(
            step.state.scopes,
        ),
        Outcome::Value(ExprView::Symbol(s)) => Step { outcome: text(s), state: step.state },
        Outcome::Value(ExprView::List(items)) => {
            let stop = first_stop(Walk::Nested, Pass::Values, items, step.state, fuel, 0);
            if stop < items.len() {
                Step {
                    outcome: outcome_at(Walk::Nested, items, step.state, fuel, stop),
                    state: before(Walk::Nested, items, step.state, fuel, stop + 1),
                }
            } else {
                Step {
                    outcome: text(concat(texts_at(Walk::Nested, items, step.state, fuel))),
                    state: before(Walk::Nested, items, step.state, fuel, items.len() as int),
                }
            }
        },
        _ => if handed_on(step.outcome) {
            step
        } else {
            Step {
                outcome: Outcome::Failure("Can only perform on boolean values."@),
                state: step.state,
            }
        },
    }
}

/// One step of a walk: what is done with `e`.
pub open spec fn step_of(walk: Walk, e: ExprView, state: State, fuel: nat) -> Step
    decreases fuel, rank(walk), 0nat,
{
    match walk {
        Walk::Eval => eval_spec(e, state, fuel),
        Walk::Show => show_spec(e, state, fuel),
        Walk::Nested => nested_key(eval_spec(e, state, fuel)),
        Walk::Key => key_spec(e, state, fuel),
    }
}

/// The state before the walk comes to `exprs[i]`: after the first `i`
/// expressions.
pub open spec fn before(walk: Walk, exprs: Seq<ExprView>, state: State, fuel: nat, i: int) -> State
    decreases fuel, rank(walk) + 1, i,
{
    if i <= 0 {
        state
    } else {
        step_of(walk, exprs[i - 1], before(walk, exprs, state, fuel, i - 1), fuel).state
    }
}

/// The outcome of the walk's step at `exprs[i]`.
pub open spec fn outcome_at(
    walk: Walk,
    exprs: Seq<ExprView>,
    state: State,
    fuel: nat,
    i: int,
) -> Outcome
    decreases fuel, rank(walk) + 2, 0nat,
{
    step_of(walk, exprs[i], before(walk, exprs, state, fuel, i), fuel).outcome
}

/// The first place from `from` on whose outcome does not pass, or the
/// length of `exprs` where all pass.
pub open spec fn first_stop(
    walk: Walk,
    pass: Pass,
    exprs: Seq<ExprView>,
    state: State,
    fuel: nat,
    from: int,
) -> int
    decreases fuel, rank(walk) + 3, exprs.len() - from,
{
    if from >= exprs.len() {
        exprs.len() as int
    } else if !passes(pass, outcome_at(walk, exprs, state, fuel, from)) {
        from
    } else {
        first_stop(walk, pass, exprs, state, fuel, from + 1)
    }
}

/// The texts that the steps of a walk gave.
pub open spec fn texts_at(walk: Walk, exprs: Seq<ExprView>, state: State, fuel: nat) -> Seq<
    Seq<char>,
>
    decreases fuel, rank(walk) + 3, 0nat,
{
    Seq::new(exprs.len(), |i: int| text_in(outcome_at(walk, exprs, state, fuel, i)))
}

/// The numbers that the steps of an evaluating walk gave.
pub open spec fn numbers_at(exprs: Seq<ExprView>, state: State, fuel: nat) -> Seq<u64>
    decreases fuel, 4nat, 0nat,
{
    Seq::new(exprs.len(), |i: int| number_in(outcome_at(Walk::Eval, exprs, state, fuel, i)))
}

/// The values that the steps of an evaluating walk gave.
pub open spec fn values_at(exprs: Seq<ExprView>, state: State, fuel: nat) -> Seq<ExprView>
    decreases fuel, 4nat, 0nat,
{
    Seq::new(exprs.len(), |i: int| value_in(outcome_at(Walk::Eval, exprs, state, fuel, i)))
}

/// The values among the outcomes of the first `n` steps of an evaluating
/// walk, in order.
pub open spec fn kept(exprs: Seq<ExprView>, state: State, fuel: nat, n: int) -> Seq<ExprView>
    decreases fuel, 4nat, n,
{
    if n <= 0 {
        Seq::empty()
    } else {
        let outcome = outcome_at(Walk::Eval, exprs, state, fuel, n - 1);
        if outcome is Value {
            kept(exprs, state, fuel, n - 1).push(outcome->Value_0)
        } else {
            kept(exprs, state, fuel, n - 1)
        }
    }
}

/// What a walk comes to where it stopped early at `stop`.
pub open spec fn stopped(
    walk: Walk,
    exprs: Seq<ExprView>,
    state: State,
    fuel: nat,
    stop: int,
) -> Step
    decreases fuel, rank(walk) + 3, 0nat,
{
    Step {
        outcome: outcome_at(walk, exprs, state, fuel, stop),
        state: before(walk, exprs, state, fuel, stop + 1),
    }
}

/// `+ - * /`: each operand is evaluated and must give a number; the
/// numbers are then combined. The first operand that gives no number ends
/// the form: what is handed on as it is, all else as the form's own
/// failure.
pub open spec fn arith_spec(op: Op, operands: Seq<ExprView>, state: State, fuel: nat) -> Step
    decreases fuel, 10nat, 0nat,
{
    if operands.len() == 0 {
        Step { outcome: Outcome::Failure(arity_message(op)), state }
    } else {
        let stop = first_stop(Walk::Eval, Pass::Numbers, operands, state, fuel, 0);
        if stop < operands.len() {
            let at = stopped(Walk::Eval, operands, state, fuel, stop);
            if handed_on(at.outcome) {
                at
            } else {
                Step { outcome: Outcome::Failure(type_message(op)), state: at.state }
            }
        } else {
            let after = before(Walk::Eval, operands, state, fuel, operands.len() as int);
            fold(op, numbers_at(operands, state, fuel), after.journal).within(after.scopes)
        }
    }
}

/// The truths of the operands of a logical form, or the failure that
/// ends it.
pub open spec fn truths_spec(operands: Seq<ExprView>, state: State, fuel: nat) -> Step
    decreases fuel, 10nat, 0nat,
{
    if operands.len() == 0 {
        Step { outcome: Outcome::Failure("Must perform on at least one value"@), state }
    } else {
        let stop = first_stop(Walk::Eval, Pass::Truths, operands, state, fuel, 0);
        if stop < operands.len() {
            let at = stopped(Walk::Eval, operands, state, fuel, stop);
            if handed_on(at.outcome) {
                at
            } else {
                Step {
                    outcome: Outcome::Failure("Can only perform on boolean values."@),
                    state: at.state,
                }
            }
        } else {
            Step {
                outcome: Outcome::Unit,
                state: before(Walk::Eval, operands, state, fuel, operands.len() as int),
            }
        }
    }
}

/// The truths that the steps of an evaluating walk gave.
pub open spec fn truths_at(exprs: Seq<ExprView>, state: State, fuel: nat) -> Seq<bool>
    decreases fuel, 4nat, 0nat,
{
    Seq::new(
        exprs.len(),
        |i: int| truth(outcome_at(Walk::Eval, exprs, state, fuel, i)) == Some(true),
    )
}

/// Whether any of `truths` is true.
pub open spec fn any(truths: Seq<bool>) -> bool {
    exists|i: int| 0 <= i < truths.len() && truths[i]
}

/// Whether all of `truths` are true.
pub open spec fn all(truths: Seq<bool>) -> bool {
    forall|i: int| 0 <= i < truths.len() ==> truths[i]
}

/// `or`: true where any operand is true.
pub open spec fn or_spec(operands: Seq<ExprView>, state: State, fuel: nat) -> Step
    decreases fuel, 11nat, 0nat,
{
    let scanned = truths_spec(operands, state, fuel);
    if scanned.outcome is Unit {
        Step {
            outcome: Outcome::Value(boolean(any(truths_at(operands, state, fuel)))),
            state: scanned.state,
        }
    } else {
        scanned
    }
}

/// `and`: true where no operand is false.
pub open spec fn and_spec(operands: Seq<ExprView>, state: State, fuel: nat) -> Step
    decreases fuel, 11nat, 0nat,
{
    let scanned = truths_spec(operands, state, fuel);
    if scanned.outcome is Unit {
        Step {
            outcome: Outcome::Value(boolean(all(truths_at(operands, state, fuel)))),
            state: scanned.state,
        }
    } else {
        scanned
    }
}

/// `not`: every operand is evaluated; the result is true where the first
/// one is false.
pub open spec fn not_spec(operands: Seq<ExprView>, state: State, fuel: nat) -> Step
    decreases fuel, 11nat, 0nat,
{
    let scanned = truths_spec(operands, state, fuel);
    if scanned.outcome is Unit {
        Step {
            outcome: Outcome::Value(boolean(!truths_at(operands, state, fuel)[0])),
            state: scanned.state,
        }
    } else {
        scanned
    }
}

/// The keys of the operands of a comparison, or the failure that ends it.
pub open spec fn keys_spec(operands: Seq<ExprView>, state: State, fuel: nat) -> Step
    decreases fuel, 10nat, 0nat,
{
    if operands.len() < 2 {
        Step { outcome: Outcome::Failure("Must perform on at least two values"@), state }
    } else {
        let stop = first_stop(Walk::Key, Pass::Values, operands, state, fuel, 0);
        if stop < operands.len() {
            stopped(Walk::Key, operands, state, fuel, stop)
        } else {
            Step {
                outcome: Outcome::Unit,
                state: before(Walk::Key, operands, state, fuel, operands.len() as int),
            }
        }
    }
}

/// `=`: true where every operand has the key of the first.
pub open spec fn eq_spec(operands: Seq<ExprView>, state: State, fuel: nat) -> Step
    decreases fuel, 11nat, 0nat,
{
    let scanned = keys_spec(operands, state, fuel);
    if scanned.outcome is Unit {
        Step {
            outcome: Outcome::Value(boolean(alike(texts_at(Walk::Key, operands, state, fuel)))),
            state: scanned.state,
        }
    } else {
        scanned
    }
}

/// `!=`: true where some operand has another key than the first.
pub open spec fn neq_spec(operands: Seq<ExprView>, state: State, fuel: nat) -> Step
    decreases fuel, 11nat, 0nat,
{
    let scanned = keys_spec(operands, state, fuel);
    if scanned.outcome is Unit {
        Step {
            outcome: Outcome::Value(boolean(!alike(texts_at(Walk::Key, operands, state, fuel)))),
            state: scanned.state,
        }
    } else {
        scanned
    }
}

/// `let name expr`: binds the value of `expr` to `name` in the innermost
/// scope.
pub open spec fn let_spec(operands: Seq<ExprView>, state: State, fuel: nat) -> Step
    decreases fuel, 10nat, 0nat,
{
    if operands.len() != 2 {
        Step {
            outcome: Outcome::Failure(
                "Invalid variable definition. Should look like (let someVar someExpr)"@,
            ),
            state,
        }
    } else {
        match operands[0] {
            ExprView::Symbol(name) => {
                let step = eval_spec(operands[1], state, fuel);
                match step.outcome {
                    Outcome::Value(value) => if step.state.scopes.len() == 0 {
                        Step {
                            outcome: Outcome::Failure(
                                "Environment does not have any context to add to."@,
                            ),
                            state: step.state,
                        }
                    } else {
                        Step {
                            outcome: Outcome::Unit,
                            state: State {
                                scopes: bind_in(step.state.scopes, name, value_of(value)),
                                journal: step.state.journal,
                            },
                        }
                    },
                    Outcome::Unit => Step {
                        outcome: Outcome::Failure("Cannot assign unit to a variable."@),
                        state: step.state,
                    },
                    _ => step,
                }
            },
            _ => Step {
                outcome: Outcome::Failure(
                    "Second element of variable definition must be a symbol and third must be an expression."@,
                ),
                state,
            },
        }
    }
}

/// `fn name (params...) body`: binds `name` to a function in the innermost
/// scope. Nothing is evaluated and the host is not asked: the outcome and
/// the scopes afterwards rest on the scopes alone.
pub open spec fn define_spec(
    operands: Seq<ExprView>,
    scopes: Scopes,
) -> (Outcome, Scopes) {
    if operands.len() != 3 {
        (
            Outcome::Failure(
                "Function definitions must follow the pattern of (fn fn-name (arg1 arg2 arg3 .. argn) <Expr>"@,
            ),
            scopes,
        )
    } else {
        match (operands[0], operands[1]) {
            (ExprView::Symbol(name), ExprView::List(params)) => {
                if !all_symbols(params) {
                    (Outcome::Failure("Function parameters must be symbols."@), scopes)
                } else if scopes.len() == 0 {
                    (Outcome::Failure("Environment does not have a context to add to."@), scopes)
                } else {
                    (
                        Outcome::Unit,
                        bind_in(
                            scopes,
                            name,
                            BindingView { params: names_of(params), body: operands[2] },
                        ),
                    )
                }
            },
            _ => (
                Outcome::Failure(
                    "Function definitions must follow the pattern (fn fn-name (arg1 arg2 arg3 .. argn) <Expr>"@,
                ),
                scopes,
            ),
        }
    }
}

/// `fn` as a step of evaluation: the journal stays as it is.
pub open spec fn fn_spec(operands: Seq<ExprView>, state: State) -> Step {
    Step {
        outcome: define_spec(operands, state.scopes).0,
        state: State { scopes: define_spec(operands, state.scopes).1, journal: state.journal },
    }
}

/// `print expr...`: renders each operand and asks the host to write the
/// texts, one space between neighbours, as a line.
pub open spec fn print_spec(operands: Seq<ExprView>, state: State, fuel: nat) -> Step
    decreases fuel, 10nat, 0nat,
{
    let stop = first_stop(Walk::Show, Pass::Values, operands, state, fuel, 0);
    if stop < operands.len() {
        stopped(Walk::Show, operands, state, fuel, stop)
    } else {
        let line = spaced(texts_at(Walk::Show, operands, state, fuel));
        let after = before(Walk::Show, operands, state, fuel, operands.len() as int);
        emit(line, after.journal).within(after.scopes)
    }
}

/// `if predicate then else`: the empty list selects `else`, every other
/// value `then`. Only the selected branch is evaluated.
pub open spec fn if_spec(operands: Seq<ExprView>, state: State, fuel: nat) -> Step
    decreases fuel, 10nat, 0nat,
{
    if operands.len() != 3 {
        Step {
            outcome: Outcome::Failure(
                "If Expressions must have the format (if (<prediacte block>) (<then block>) (<else block>))"@,
            ),
            state,
        }
    } else {
        let step = eval_spec(operands[0], state, fuel);
        match step.outcome {
            Outcome::Value(value) => if value is List && value->List_0.len() == 0 {
                eval_spec(operands[2], step.state, fuel)
            } else {
                eval_spec(operands[1], step.state, fuel)
            },
            Outcome::Unit => Step {
                outcome: Outcome::Failure(
                    "If expression predicates must return an expression."@,
                ),
                state: step.state,
            },
            _ => step,
        }
    }
}

/// The message for a call with the wrong number of arguments.
pub open spec fn call_arity_message(given: nat, expected: nat) -> Seq<char> {
    "Provided "@ + decimal(given) + " arguments but expected "@ + decimal(expected)
}

/// A symbol on its own or at the head of a list. Unbound, the whole
/// expression is its own value. Bound to a value, that value's expression
/// is evaluated. Bound to a function, the arguments are evaluated where
/// the call stands, a scope is entered, the parameters are bound, the body
/// is evaluated and the scope is left again.
pub open spec fn apply_spec(
    e: ExprView,
    name: Seq<char>,
    args: Seq<ExprView>,
    state: State,
    fuel: nat,
) -> Step
    decreases fuel, 10nat, 0nat,
{
    match lookup_in(state.scopes, name) {
        None => Step { outcome: Outcome::Value(e), state },
        Some(binding) => {
            if binding.params.len() == 0 {
                eval_spec(binding.body, state, fuel)
            } else if args.len() != binding.params.len() {
                Step {
                    outcome: Outcome::Failure(
                        call_arity_message(args.len(), binding.params.len()),
                    ),
                    state,
                }
            } else {
                let stop = first_stop(Walk::Eval, Pass::Values, args, state, fuel, 0);
                if stop < args.len() {
                    let at = stopped(Walk::Eval, args, state, fuel, stop);
                    if at.outcome is Unit {
                        Step {
                            outcome: Outcome::Failure(
                                "Cannot pass Unit as an argument to a function."@,
                            ),
                            state: at.state,
                        }
                    } else {
                        at
                    }
                } else {
                    let called = before(Walk::Eval, args, state, fuel, args.len() as int);
                    let entered = State {
                        scopes: bind_values(
                            called.scopes.push(Map::empty()),
                            binding.params,
                            values_at(args, state, fuel),
                            args.len() as int,
                        ),
                        journal: called.journal,
                    };
                    let body = eval_spec(binding.body, entered, fuel);
                    Step {
                        outcome: body.outcome,
                        state: State {
                            scopes: pop_in(body.state.scopes),
                            journal: body.state.journal,
                        },
                    }
                }
            }
        },
    }
}

/// A list that is no form: every item is evaluated, the head too; the
/// values are gathered into a new list, and what gave nothing is left
/// out.
pub open spec fn collect_spec(items: Seq<ExprView>, state: State, fuel: nat) -> Step
    decreases fuel, 10nat, 0nat,
{
    let stop = first_stop(Walk::Eval, Pass::ValuesAndUnits, items, state, fuel, 0);
    if stop < items.len() {
        stopped(Walk::Eval, items, state, fuel, stop)
    } else {
        Step {
            outcome: Outcome::Value(ExprView::List(kept(items, state, fuel, items.len() as int))),
            state: before(Walk::Eval, items, state, fuel, items.len() as int),
        }
    }
}

/// One step of a walk: the state after it, its outcome, and where the
/// walk stops, each in terms of the step taken at `exprs[i]`.
pub proof fn walk_step(
    walk: Walk,
    pass: Pass,
    exprs: Seq<ExprView>,
    start: State,
    fuel: nat,
    i: int,
)
    requires
        0 <= i < exprs.len(),
    ensures
        before(walk, exprs, start, fuel, i + 1) == step_of(
            walk,
            exprs[i],
            before(walk, exprs, start, fuel, i),
            fuel,
        ).state,
        outcome_at(walk, exprs, start, fuel, i) == step_of(
            walk,
            exprs[i],
            before(walk, exprs, start, fuel, i),
            fuel,
        ).outcome,
        first_stop(walk, pass, exprs, start, fuel, i) == if passes(
            pass,
            outcome_at(walk, exprs, start, fuel, i),
        ) {
            first_stop(walk, pass, exprs, start, fuel, i + 1)
        } else {
            i
        },
{
}

} // verus!
