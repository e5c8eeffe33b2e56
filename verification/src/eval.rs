//! The evaluator.
//!
//! Every function here takes the environment and the journal, and a depth:
//! how many levels of nested evaluation it may still enter. Its contract
//! says that the result, the environment and the journal afterwards are
//! those that `crate::semantics` gives.

use crate::balance::{eval_is_balanced, settled};
use crate::env::{Environment, ONE};
use crate::expr::Op;
use crate::host::{Journal, JournalView, Request};
use crate::semantics::{
    all, all_symbols, and_spec, any, apply_spec, arith_spec, arity_message, before, bind_values,
    boolean, call_arity_message, chain, collect_spec, define_spec, eq_spec, eval_spec, first_stop,
    fold, handed_on, if_spec, kept, key_spec, keys_spec, let_spec, names_of, neq_spec, not_spec,
    numbers_at, or_spec, print_spec, render, show_spec, stopped, text, texts_at, truth, truths_at,
    truths_spec, type_message, values_at, walk_step, Asked, Outcome, Pass, State, Step, Walk, ZERO,
};
use crate::text::{all_same, concat_text, decimal_text, same_text, spaced_text, texts};
use crate::types::{
    compared, equal_spec, facing, list_view, same_shape, views, Compared, Expr, ExprView,
};
use std::rc::Rc;
use vstd::prelude::*;

verus! {

/// How an evaluation ended.
#[derive(Debug)]
pub enum EvalResult {
    /// It failed, with this message.
    Failure(String),
    /// It gave this value.
    Expr(Rc<Expr>),
    /// It gave nothing: a definition or a print.
    Unit,
    /// It stopped for the host: the journal holds no fitting reply to this
    /// request.
    Pending(Request),
}

impl View for EvalResult {
    type V = Outcome;

    open spec fn view(&self) -> Outcome {
        match self {
            EvalResult::Failure(message) => Outcome::Failure(message@),
            EvalResult::Expr(value) => Outcome::Value(value@),
            EvalResult::Unit => Outcome::Unit,
            EvalResult::Pending(request) => Outcome::Pending(request@),
        }
    }
}

/// Whether two outcomes differ in the numbers of their values at most.
pub open spec fn same_outcome(a: Outcome, b: Outcome) -> bool {
    match (a, b) {
        (Outcome::Failure(m), Outcome::Failure(n)) => m == n,
        (Outcome::Value(v), Outcome::Value(w)) => same_shape(v, w),
        (Outcome::Unit, Outcome::Unit) => true,
        (Outcome::Pending(r), Outcome::Pending(s)) => r == s,
        _ => false,
    }
}

impl EvalResult {
    /// Compares two results in all but the numbers of their values. `None`
    /// where they differ. Else, for two values, the numbers that stand in
    /// the same place, pair by pair, as `Expr::facing_numbers` gives them,
    /// and no pairs for two results that are no values. The results are
    /// equal where each pair is close.
    pub fn facing_numbers(&self, other: &EvalResult) -> (pairs: Option<Vec<(u64, u64)>>)
        ensures
            pairs is Some <==> same_outcome(self@, other@),
            pairs is Some ==> pairs->Some_0@ == match (self@, other@) {
                (Outcome::Value(v), Outcome::Value(w)) => facing(v, w),
                _ => Seq::empty(),
            },
    {
        match (self, other) {
            (EvalResult::Failure(m), EvalResult::Failure(n)) => {
                if same_text(m.as_str(), n.as_str()) {
                    Some(Vec::new())
                } else {
                    None
                }
            },
            (EvalResult::Expr(v), EvalResult::Expr(w)) => v.facing_numbers(w),
            (EvalResult::Unit, EvalResult::Unit) => Some(Vec::new()),
            (EvalResult::Pending(r), EvalResult::Pending(s)) => {
                if r.same(s) {
                    Some(Vec::new())
                } else {
                    None
                }
            },
            _ => None,
        }
    }
}

/// Whether two results are equal: two failures with one message, two values
/// that are equal, nothing and nothing, two requests for the same.
pub open spec fn results_eq_spec(a: Outcome, b: Outcome, journal: JournalView) -> Compared {
    match (a, b) {
        (Outcome::Value(v), Outcome::Value(w)) => equal_spec(v, w, journal),
        _ => Compared { result: Ok(same_outcome(a, b)), journal },
    }
}

impl EvalResult {
    /// Whether two results are equal: of the same kind, with the same
    /// message or request, and with equal values, which is for the host
    /// to say of their numbers as for `Expr::eq`. The answer, or the
    /// request that the host has to answer first.
    pub fn eq(&self, other: &EvalResult, journal: &mut Journal) -> (r: Result<bool, Request>)
        ensures
            compared(r, *final(journal)) == results_eq_spec(self@, other@, old(journal)@),
    {
        match (self, other) {
            (EvalResult::Expr(v), EvalResult::Expr(w)) => v.eq(w, journal),
            _ => Ok(self.facing_numbers(other).is_some()),
        }
    }
}

/// The state that an environment and a journal make up.
pub open spec fn state(env: Environment, journal: Journal) -> State {
    State { scopes: env@, journal: journal@ }
}

/// An evaluation's result and what it left.
pub open spec fn came(r: EvalResult, env: Environment, journal: Journal) -> Step {
    Step { outcome: r@, state: state(env, journal) }
}

/// The outcome of a rendering: the text where there is one, else why
/// there is none.
pub open spec fn text_or_stop(r: Result<String, EvalResult>) -> Outcome {
    match r {
        Ok(t) => text(t@),
        Err(stop) => stop@,
    }
}

/// An outcome that rests on the host, and the journal that it left.
pub open spec fn asked(outcome: Outcome, journal: Journal) -> Asked {
    Asked { outcome, journal: journal@ }
}

/// A rendering and what it left.
pub open spec fn shown(r: Result<String, EvalResult>, env: Environment, journal: Journal) -> Step {
    Step { outcome: text_or_stop(r), state: state(env, journal) }
}

/// Whether a rendering that gave no text says why: a failure or a
/// request, nothing else.
pub open spec fn stops(r: Result<String, EvalResult>) -> bool {
    r is Err ==> r->Err_0 is Failure || r->Err_0 is Pending
}

/// The failure with the given message.
fn failure(message: &str) -> (r: EvalResult)
    ensures
        r@ == Outcome::Failure(message@),
{
    EvalResult::Failure(message.to_owned())
}

/// Whether a result is one that every form hands on as it is.
fn is_handed_on(r: &EvalResult) -> (b: bool)
    ensures
        b == handed_on(r@),
{
    match r {
        EvalResult::Pending(_) => true,
        EvalResult::Failure(message) => same_text(
            message.as_str(),
            "Evaluation is nested too deeply.",
        ),
        _ => false,
    }
}

/// The canonical symbol for a truth.
fn boolean_symbol(b: bool) -> (e: Rc<Expr>)
    ensures
        e@ == boolean(b),
{
    if b {
        Expr::symbol("True")
    } else {
        Expr::symbol("False")
    }
}

/// All of `vals` but the first.
fn rest(vals: &[Rc<Expr>]) -> (tail: &[Rc<Expr>])
    requires
        vals@.len() > 0,
    ensures
        views(tail@) == views(vals@).drop_first(),
{
    let tail = &vals[1..vals.len()];
    assert(views(tail@) =~= views(vals@).drop_first());
    tail
}

/// The truth of a value, if it has one.
fn truth_of(value: &Rc<Expr>) -> (t: Option<bool>)
    ensures
        t == truth(Outcome::Value(value@)),
{
    match &**value {
        Expr::Symbol(s) => Some(same_text(s.as_str(), "True")),
        Expr::List(items) => {
            proof {
                list_view(*items);
            }
            Some(items.len() > 0)
        },
        Expr::FNum(_) => None,
    }
}

/// Asks the host for the decimal text of `bits`.
fn render_number(bits: u64, journal: &mut Journal) -> (r: Result<String, EvalResult>)
    ensures
        asked(text_or_stop(r), *final(journal)) == render(bits, old(journal)@),
        stops(r),
{
    match journal.text(Request::Render(bits)) {
        Ok(t) => Ok(t),
        Err(request) => Err(EvalResult::Pending(request)),
    }
}

/// Renders `expr` as `print` shows it: a symbol bound to a value as that
/// value's expression, a symbol bound to a function as a tag that names
/// it, any other symbol as its name, a number in decimal, and a list as
/// its items in parentheses, one space between neighbours.
///
/// Gives the text or, in place of it, the request that the host has to
/// answer first, or the failure that `depth` was too small.
#[verifier::loop_isolation(false)]
pub fn gen_print_output(
    expr: Rc<Expr>,
    env: &mut Environment,
    journal: &mut Journal,
    depth: usize,
) -> (r: Result<String, EvalResult>)
    ensures
        shown(r, *final(env), *final(journal)) == show_spec(
            expr@,
            state(*old(env), *old(journal)),
            depth as nat,
        ),
        final(env)@ == old(env)@,
        stops(r),
    decreases depth,
{
    if depth == 0 {
        return Err(failure("Evaluation is nested too deeply."));
    }
    match &*expr {
        Expr::Symbol(s) => match env.lookup(s.as_str()) {
            None => Ok(s.clone()),
            Some((params, body)) => {
                if params.len() == 0 {
                    gen_print_output(body, env, journal, depth - 1)
                } else {
                    let mut tag = "<func-object: ".to_owned();
                    tag.append(s.as_str());
                    tag.append(">");
                    Ok(tag)
                }
            },
        },
        Expr::FNum(bits) => render_number(*bits, journal),
        Expr::List(items) => {
            proof {
                list_view(*items);
            }
            let ghost exprs = views(items@);
            let ghost start = state(*env, *journal);
            let ghost fuel = (depth - 1) as nat;
            let mut parts: Vec<String> = Vec::new();
            let n = items.len();
            let mut i: usize = 0;
            while i < n
                invariant
                    i <= n,
                    env@ == old(env)@,
                    state(*env, *journal) == before(Walk::Show, exprs, start, fuel, i as int),
                    first_stop(Walk::Show, Pass::Values, exprs, start, fuel, 0) == first_stop(
                        Walk::Show,
                        Pass::Values,
                        exprs,
                        start,
                        fuel,
                        i as int,
                    ),
                    parts@.len() == i,
                    forall|k: int|
                        0 <= k < i ==> (#[trigger] parts@[k])@ == texts_at(
                            Walk::Show,
                            exprs,
                            start,
                            fuel,
                        )[k],
                decreases n - i,
            {
                let r = gen_print_output(items[i].clone(), env, journal, depth - 1);
                proof {
                    walk_step(Walk::Show, Pass::Values, exprs, start, fuel, i as int);
                }
                match r {
                    Ok(part) => {
                        parts.push(part);
                    },
                    Err(stop) => {
                        return Err(stop);
                    },
                }
                i += 1;
            }
            let line = spaced_text(&parts);
            assert(texts(parts@) =~= texts_at(Walk::Show, exprs, start, fuel));
            let mut all = "(".to_owned();
            all.append(line.as_str());
            all.append(")");
            Ok(all)
        },
    }
}

/// The message for an arithmetic form without operands.
fn arity_text(op: Op) -> (r: EvalResult)
    ensures
        r@ == Outcome::Failure(arity_message(op)),
{
    match op {
        Op::Add => failure("Must perform addition on at least one number"),
        Op::Sub => failure("Must perform subtraction on at least one number"),
        Op::Mul => failure("Must perform multiplication on at least one number"),
        Op::Div => failure("Must perform division on at least one number"),
    }
}

/// The message for an arithmetic operand that is no number.
fn type_text(op: Op) -> (r: EvalResult)
    ensures
        r@ == Outcome::Failure(type_message(op)),
{
    match op {
        Op::Add => failure("Can only sum numbers."),
        Op::Sub => failure("Can only subtract numbers."),
        Op::Mul => failure("Can only mutiply numbers."),
        Op::Div => failure("Can only divide numbers."),
    }
}

/// Combines the operands of an arithmetic form, asking the host for each
/// combination of two.
pub fn combine(op: Op, numbers: &Vec<u64>, journal: &mut Journal) -> (r: EvalResult)
    ensures
        asked(r@, *final(journal)) == fold(op, numbers@, old(journal)@),
{
    let n = numbers.len();
    if n == 0 {
        return arity_text(op);
    }
    let single = n == 1 && (matches!(op, Op::Sub) || matches!(op, Op::Div));
    let mut acc: u64 = if !single {
        numbers[0]
    } else if matches!(op, Op::Sub) {
        ZERO
    } else {
        ONE
    };
    let mut i: usize = if single {
        0
    } else {
        1
    };
    assert(numbers@.subrange(0, n as int) =~= numbers@);
    assert(numbers@.subrange(1, n as int) =~= numbers@.drop_first());
    while i < n
        invariant
            i <= n,
            n == numbers@.len(),
            chain(op, acc, numbers@.subrange(i as int, n as int), journal@) == fold(
                op,
                numbers@,
                old(journal)@,
            ),
        decreases n - i,
    {
        let ghost pending = numbers@.subrange(i as int, n as int);
        assert(pending.drop_first() =~= numbers@.subrange(i + 1, n as int));
        match journal.number(Request::Arith(op, acc, numbers[i])) {
            Ok(bits) => {
                acc = bits;
            },
            Err(request) => {
                return EvalResult::Pending(request);
            },
        }
        i += 1;
    }
    number_value(acc)
}

/// The value that is the number `bits`.
fn number_value(bits: u64) -> (r: EvalResult)
    ensures
        r@ == Outcome::Value(ExprView::Number(bits)),
{
    EvalResult::Expr(Expr::fnum(bits))
}

/// An arithmetic form: evaluates each operand, which must give a number,
/// then combines the numbers. The first operand that gives no number ends
/// the form: with a request or the failure for want of depth as it is,
/// else with the form's own failure.
#[verifier::loop_isolation(false)]
pub fn arith(
    op: Op,
    vals: &[Rc<Expr>],
    env: &mut Environment,
    journal: &mut Journal,
    depth: usize,
) -> (r: EvalResult)
    ensures
        came(r, *final(env), *final(journal)) == arith_spec(
            op,
            views(vals@),
            state(*old(env), *old(journal)),
            depth as nat,
        ),
    decreases depth, 1nat,
{
    let n = vals.len();
    if n == 0 {
        return arity_text(op);
    }
    let ghost exprs = views(vals@);
    let ghost start = state(*env, *journal);
    let ghost fuel = depth as nat;
    let mut numbers: Vec<u64> = Vec::new();
    let mut i: usize = 0;
    while i < n
        invariant
            i <= n,
            state(*env, *journal) == before(Walk::Eval, exprs, start, fuel, i as int),
            first_stop(Walk::Eval, Pass::Numbers, exprs, start, fuel, 0) == first_stop(
                Walk::Eval,
                Pass::Numbers,
                exprs,
                start,
                fuel,
                i as int,
            ),
            numbers@.len() == i,
            forall|k: int|
                0 <= k < i ==> #[trigger] numbers@[k] == numbers_at(exprs, start, fuel)[k],
        decreases n - i,
    {
        let r = eval(vals[i].clone(), env, journal, depth);
        proof {
            walk_step(Walk::Eval, Pass::Numbers, exprs, start, fuel, i as int);
        }
        match r {
            EvalResult::Expr(value) => match &*value {
                Expr::FNum(bits) => {
                    numbers.push(*bits);
                },
                _ => {
                    return type_text(op);
                },
            },
            stop => {
                if is_handed_on(&stop) {
                    return stop;
                }
                return type_text(op);
            },
        }
        i += 1;
    }
    assert(numbers@ =~= numbers_at(exprs, start, fuel));
    combine(op, &numbers, journal)
}

/// `+`: the sum of the operands.
pub fn add_vals(
    vals: &[Rc<Expr>],
    env: &mut Environment,
    journal: &mut Journal,
    depth: usize,
) -> (r: EvalResult)
    ensures
        came(r, *final(env), *final(journal)) == arith_spec(
            Op::Add,
            views(vals@),
            state(*old(env), *old(journal)),
            depth as nat,
        ),
    decreases depth, 2nat,
{
    arith(Op::Add, vals, env, journal, depth)
}

/// `-`: the first operand less each of the others; with a single
/// operand, zero less it.
pub fn sub_vals(
    vals: &[Rc<Expr>],
    env: &mut Environment,
    journal: &mut Journal,
    depth: usize,
) -> (r: EvalResult)
    ensures
        came(r, *final(env), *final(journal)) == arith_spec(
            Op::Sub,
            views(vals@),
            state(*old(env), *old(journal)),
            depth as nat,
        ),
    decreases depth, 2nat,
{
    arith(Op::Sub, vals, env, journal, depth)
}

/// `*`: the product of the operands.
pub fn mul_vals(
    vals: &[Rc<Expr>],
    env: &mut Environment,
    journal: &mut Journal,
    depth: usize,
) -> (r: EvalResult)
    ensures
        came(r, *final(env), *final(journal)) == arith_spec(
            Op::Mul,
            views(vals@),
            state(*old(env), *old(journal)),
            depth as nat,
        ),
    decreases depth, 2nat,
{
    arith(Op::Mul, vals, env, journal, depth)
}

/// `/`: the first operand divided by each of the others; with a single
/// operand, one divided by it.
pub fn div_vals(
    vals: &[Rc<Expr>],
    env: &mut Environment,
    journal: &mut Journal,
    depth: usize,
) -> (r: EvalResult)
    ensures
        came(r, *final(env), *final(journal)) == arith_spec(
            Op::Div,
            views(vals@),
            state(*old(env), *old(journal)),
            depth as nat,
        ),
    decreases depth, 2nat,
{
    arith(Op::Div, vals, env, journal, depth)
}

/// Evaluates the operands of a logical form and gives their truths, or
/// what ended the form early: a request or the failure for want of depth
/// as it is, else the form's own failure for an operand without a truth.
#[verifier::loop_isolation(false)]
pub fn truths(
    vals: &[Rc<Expr>],
    env: &mut Environment,
    journal: &mut Journal,
    depth: usize,
) -> (r: Result<Vec<bool>, EvalResult>)
    ensures
        match r {
            Ok(found) => {
                &&& came(EvalResult::Unit, *final(env), *final(journal)) == truths_spec(
                    views(vals@),
                    state(*old(env), *old(journal)),
                    depth as nat,
                )
                &&& found@ == truths_at(
                    views(vals@),
                    state(*old(env), *old(journal)),
                    depth as nat,
                )
            },
            Err(stop) => {
                &&& came(stop, *final(env), *final(journal)) == truths_spec(
                    views(vals@),
                    state(*old(env), *old(journal)),
                    depth as nat,
                )
                &&& !(stop is Unit)
            },
        },
    decreases depth, 1nat,
{
    let n = vals.len();
    if n == 0 {
        return Err(failure("Must perform on at least one value"));
    }
    let ghost exprs = views(vals@);
    let ghost start = state(*env, *journal);
    let ghost fuel = depth as nat;
    let mut found: Vec<bool> = Vec::new();
    let mut i: usize = 0;
    while i < n
        invariant
            i <= n,
            state(*env, *journal) == before(Walk::Eval, exprs, start, fuel, i as int),
            first_stop(Walk::Eval, Pass::Truths, exprs, start, fuel, 0) == first_stop(
                Walk::Eval,
                Pass::Truths,
                exprs,
                start,
                fuel,
                i as int,
            ),
            found@.len() == i,
            forall|k: int|
                0 <= k < i ==> #[trigger] found@[k] == truths_at(exprs, start, fuel)[k],
        decreases n - i,
    {
        let r = eval(vals[i].clone(), env, journal, depth);
        proof {
            walk_step(Walk::Eval, Pass::Truths, exprs, start, fuel, i as int);
        }
        match r {
            EvalResult::Expr(value) => match truth_of(&value) {
                Some(t) => {
                    found.push(t);
                },
                None => {
                    return Err(failure("Can only perform on boolean values."));
                },
            },
            stop => {
                if is_handed_on(&stop) {
                    return Err(stop);
                }
                return Err(failure("Can only perform on boolean values."));
            },
        }
        i += 1;
    }
    assert(found@ =~= truths_at(exprs, start, fuel));
    Ok(found)
}

/// Whether any of `found` is true.
fn any_true(found: &Vec<bool>) -> (any: bool)
    ensures
        any == crate::semantics::any(found@),
{
    let n = found.len();
    let mut k: usize = 0;
    while k < n
        invariant
            k <= n,
            n == found@.len(),
            forall|j: int| 0 <= j < k ==> !found@[j],
        decreases n - k,
    {
        if found[k] {
            return true;
        }
        k += 1;
    }
    false
}

/// Whether all of `found` are true.
fn all_true(found: &Vec<bool>) -> (all: bool)
    ensures
        all == crate::semantics::all(found@),
{
    let n = found.len();
    let mut k: usize = 0;
    while k < n
        invariant
            k <= n,
            n == found@.len(),
            forall|j: int| 0 <= j < k ==> found@[j],
        decreases n - k,
    {
        if !found[k] {
            return false;
        }
        k += 1;
    }
    true
}

/// `or`: `True` where any operand is true, else `False`.
pub fn or(
    vals: &[Rc<Expr>],
    env: &mut Environment,
    journal: &mut Journal,
    depth: usize,
) -> (r: EvalResult)
    ensures
        came(r, *final(env), *final(journal)) == or_spec(
            views(vals@),
            state(*old(env), *old(journal)),
            depth as nat,
        ),
    decreases depth, 2nat,
{
    match truths(vals, env, journal, depth) {
        Ok(found) => EvalResult::Expr(boolean_symbol(any_true(&found))),
        Err(stop) => stop,
    }
}

/// `and`: `False` where any operand is false, else `True`.
pub fn and(
    vals: &[Rc<Expr>],
    env: &mut Environment,
    journal: &mut Journal,
    depth: usize,
) -> (r: EvalResult)
    ensures
        came(r, *final(env), *final(journal)) == and_spec(
            views(vals@),
            state(*old(env), *old(journal)),
            depth as nat,
        ),
    decreases depth, 2nat,
{
    match truths(vals, env, journal, depth) {
        Ok(found) => EvalResult::Expr(boolean_symbol(all_true(&found))),
        Err(stop) => stop,
    }
}

/// `not`: every operand is evaluated; the result is `False` where the
/// first one is true, else `True`.
pub fn not(
    vals: &[Rc<Expr>],
    env: &mut Environment,
    journal: &mut Journal,
    depth: usize,
) -> (r: EvalResult)
    ensures
        came(r, *final(env), *final(journal)) == not_spec(
            views(vals@),
            state(*old(env), *old(journal)),
            depth as nat,
        ),
    decreases depth, 2nat,
{
    match truths(vals, env, journal, depth) {
        Ok(found) => EvalResult::Expr(boolean_symbol(!found[0])),
        Err(stop) => stop,
    }
}

/// The equality key of an operand: the decimal text of a number, the name
/// of a symbol, and for a list the parts of its items, each evaluated once
/// more, one after the other. An item that is a list, or fails, or gives
/// nothing, has the part `Error`. A request and the failure for want of
/// depth are no keys: they end the comparison as they are.
#[verifier::loop_isolation(false)]
pub fn key(
    operand: Rc<Expr>,
    env: &mut Environment,
    journal: &mut Journal,
    depth: usize,
) -> (r: Result<String, EvalResult>)
    ensures
        shown(r, *final(env), *final(journal)) == key_spec(
            operand@,
            state(*old(env), *old(journal)),
            depth as nat,
        ),
        stops(r),
    decreases depth, 1nat,
{
    let ghost fuel = depth as nat;
    match eval(operand, env, journal, depth) {
        EvalResult::Expr(value) => match &*value {
            Expr::FNum(bits) => render_number(*bits, journal),
            Expr::Symbol(s) => Ok(s.clone()),
            Expr::List(items) => {
                proof {
                    list_view(*items);
                }
                let ghost exprs = views(items@);
                let ghost start = state(*env, *journal);
                let mut parts: Vec<String> = Vec::new();
                let n = items.len();
                let mut i: usize = 0;
                while i < n
                    invariant
                        i <= n,
                        state(*env, *journal) == before(Walk::Nested, exprs, start, fuel, i as int),
                        first_stop(Walk::Nested, Pass::Values, exprs, start, fuel, 0) == first_stop(
                            Walk::Nested,
                            Pass::Values,
                            exprs,
                            start,
                            fuel,
                            i as int,
                        ),
                        parts@.len() == i,
                        forall|k: int|
                            0 <= k < i ==> (#[trigger] parts@[k])@ == texts_at(
                                Walk::Nested,
                                exprs,
                                start,
                                fuel,
                            )[k],
                    decreases n - i,
                {
                    let r = eval(items[i].clone(), env, journal, depth);
                    proof {
                        walk_step(Walk::Nested, Pass::Values, exprs, start, fuel, i as int);
                    }
                    match r {
                        EvalResult::Expr(item) => match &*item {
                            Expr::FNum(bits) => match render_number(*bits, journal) {
                                Ok(part) => {
                                    parts.push(part);
                                },
                                Err(stop) => {
                                    return Err(stop);
                                },
                            },
                            Expr::Symbol(s) => {
                                parts.push(s.clone());
                            },
                            Expr::List(_) => {
                                parts.push("Error".to_owned());
                            },
                        },
                        stop => {
                            if is_handed_on(&stop) {
                                return Err(stop);
                            }
                            parts.push("Error".to_owned());
                        },
                    }
                    i += 1;
                }
                assert(texts(parts@) =~= texts_at(Walk::Nested, exprs, start, fuel));
                Ok(concat_text(&parts))
            },
        },
        stop => {
            if is_handed_on(&stop) {
                Err(stop)
            } else {
                Err(failure("Can only perform on boolean values."))
            }
        },
    }
}

/// Evaluates the operands of a comparison and gives their keys, or what
/// ended the form early.
#[verifier::loop_isolation(false)]
pub fn keys(
    vals: &[Rc<Expr>],
    env: &mut Environment,
    journal: &mut Journal,
    depth: usize,
) -> (r: Result<Vec<String>, EvalResult>)
    ensures
        match r {
            Ok(found) => {
                &&& came(EvalResult::Unit, *final(env), *final(journal)) == keys_spec(
                    views(vals@),
                    state(*old(env), *old(journal)),
                    depth as nat,
                )
                &&& texts(found@) == texts_at(
                    Walk::Key,
                    views(vals@),
                    state(*old(env), *old(journal)),
                    depth as nat,
                )
            },
            Err(stop) => {
                &&& came(stop, *final(env), *final(journal)) == keys_spec(
                    views(vals@),
                    state(*old(env), *old(journal)),
                    depth as nat,
                )
                &&& !(stop is Unit)
            },
        },
    decreases depth, 2nat,
{
    let n = vals.len();
    if n < 2 {
        return Err(failure("Must perform on at least two values"));
    }
    let ghost exprs = views(vals@);
    let ghost start = state(*env, *journal);
    let ghost fuel = depth as nat;
    let mut found: Vec<String> = Vec::new();
    let mut i: usize = 0;
    while i < n
        invariant
            i <= n,
            state(*env, *journal) == before(Walk::Key, exprs, start, fuel, i as int),
            first_stop(Walk::Key, Pass::Values, exprs, start, fuel, 0) == first_stop(
                Walk::Key,
                Pass::Values,
                exprs,
                start,
                fuel,
                i as int,
            ),
            found@.len() == i,
            forall|k: int|
                0 <= k < i ==> (#[trigger] found@[k])@ == texts_at(Walk::Key, exprs, start, fuel)[k],
        decreases n - i,
    {
        let r = key(vals[i].clone(), env, journal, depth);
        proof {
            walk_step(Walk::Key, Pass::Values, exprs, start, fuel, i as int);
        }
        match r {
            Ok(k) => {
                found.push(k);
            },
            Err(stop) => {
                return Err(stop);
            },
        }
        i += 1;
    }
    assert(texts(found@) =~= texts_at(Walk::Key, exprs, start, fuel));
    Ok(found)
}

/// `=`: `True` where every operand has the key of the first, else
/// `False`.
pub fn eq(
    vals: &[Rc<Expr>],
    env: &mut Environment,
    journal: &mut Journal,
    depth: usize,
) -> (r: EvalResult)
    ensures
        came(r, *final(env), *final(journal)) == eq_spec(
            views(vals@),
            state(*old(env), *old(journal)),
            depth as nat,
        ),
    decreases depth, 3nat,
{
    match keys(vals, env, journal, depth) {
        Ok(found) => EvalResult::Expr(boolean_symbol(all_same(&found))),
        Err(stop) => stop,
    }
}

/// `!=`: `False` where every operand has the key of the first, else
/// `True`.
pub fn neq(
    vals: &[Rc<Expr>],
    env: &mut Environment,
    journal: &mut Journal,
    depth: usize,
) -> (r: EvalResult)
    ensures
        came(r, *final(env), *final(journal)) == neq_spec(
            views(vals@),
            state(*old(env), *old(journal)),
            depth as nat,
        ),
    decreases depth, 3nat,
{
    match keys(vals, env, journal, depth) {
        Ok(found) => EvalResult::Expr(boolean_symbol(!all_same(&found))),
        Err(stop) => stop,
    }
}

/// `let name expr`: evaluates `expr` and binds its value to `name` in the
/// innermost scope.
pub fn add_var_to_env(
    vals: &[Rc<Expr>],
    env: &mut Environment,
    journal: &mut Journal,
    depth: usize,
) -> (r: EvalResult)
    ensures
        came(r, *final(env), *final(journal)) == let_spec(
            views(vals@),
            state(*old(env), *old(journal)),
            depth as nat,
        ),
    decreases depth, 1nat,
{
    if vals.len() != 2 {
        return failure("Invalid variable definition. Should look like (let someVar someExpr)");
    }
    match &*vals[0] {
        Expr::Symbol(name) => match eval(vals[1].clone(), env, journal, depth) {
            EvalResult::Expr(value) => match env.add_var(name.as_str(), value) {
                Ok(_) => EvalResult::Unit,
                Err(message) => EvalResult::Failure(message),
            },
            EvalResult::Unit => failure("Cannot assign unit to a variable."),
            stop => stop,
        },
        _ => failure(
            "Second element of variable definition must be a symbol and third must be an expression.",
        ),
    }
}

/// The names of `items`, if each of them is a symbol.
fn parameter_names(items: &Vec<Rc<Expr>>) -> (names: Option<Vec<String>>)
    ensures
        match names {
            Some(names) => all_symbols(views(items@)) && texts(names@) == names_of(views(items@)),
            None => !all_symbols(views(items@)),
        },
{
    let mut names: Vec<String> = Vec::new();
    let n = items.len();
    let mut i: usize = 0;
    while i < n
        invariant
            i <= n,
            n == items@.len(),
            names@.len() == i,
            forall|k: int| 0 <= k < i ==> (#[trigger] views(items@)[k]) is Symbol,
            forall|k: int|
                0 <= k < i ==> (#[trigger] names@[k])@ == views(items@)[k]->Symbol_0,
        decreases n - i,
    {
        match &*items[i] {
            Expr::Symbol(name) => {
                names.push(name.clone());
            },
            _ => {
                assert(!(views(items@)[i as int] is Symbol));
                return None;
            },
        }
        i += 1;
    }
    assert(texts(names@) =~= names_of(views(items@)));
    Some(names)
}

/// `fn name (params...) body`: binds `name` to a function in the
/// innermost scope. Nothing is evaluated.
pub fn add_fn_to_env(vals: &[Rc<Expr>], env: &mut Environment) -> (r: EvalResult)
    ensures
        (r@, final(env)@) == define_spec(views(vals@), old(env)@),
{
    if vals.len() != 3 {
        return failure(
            "Function definitions must follow the pattern of (fn fn-name (arg1 arg2 arg3 .. argn) <Expr>",
        );
    }
    match (&*vals[0], &*vals[1]) {
        (Expr::Symbol(name), Expr::List(params)) => {
            proof {
                list_view(*params);
            }
            match parameter_names(params) {
                Some(names) => match env.add_fn(name.as_str(), names.as_slice(), vals[2].clone()) {
                    Ok(_) => EvalResult::Unit,
                    Err(message) => EvalResult::Failure(message),
                },
                None => failure("Function parameters must be symbols."),
            }
        },
        _ => failure(
            "Function definitions must follow the pattern (fn fn-name (arg1 arg2 arg3 .. argn) <Expr>",
        ),
    }
}

/// `print expr...`: renders each operand and asks the host to write the
/// texts, one space between neighbours, as a line.
#[verifier::loop_isolation(false)]
pub fn print(
    vals: &[Rc<Expr>],
    env: &mut Environment,
    journal: &mut Journal,
    depth: usize,
) -> (r: EvalResult)
    ensures
        came(r, *final(env), *final(journal)) == print_spec(
            views(vals@),
            state(*old(env), *old(journal)),
            depth as nat,
        ),
{
    let ghost exprs = views(vals@);
    let ghost start = state(*env, *journal);
    let ghost fuel = depth as nat;
    let mut parts: Vec<String> = Vec::new();
    let n = vals.len();
    let mut i: usize = 0;
    while i < n
        invariant
            i <= n,
            state(*env, *journal) == before(Walk::Show, exprs, start, fuel, i as int),
            first_stop(Walk::Show, Pass::Values, exprs, start, fuel, 0) == first_stop(
                Walk::Show,
                Pass::Values,
                exprs,
                start,
                fuel,
                i as int,
            ),
            parts@.len() == i,
            forall|k: int|
                0 <= k < i ==> (#[trigger] parts@[k])@ == texts_at(Walk::Show, exprs, start, fuel)[k],
        decreases n - i,
    {
        let r = gen_print_output(vals[i].clone(), env, journal, depth);
        proof {
            walk_step(Walk::Show, Pass::Values, exprs, start, fuel, i as int);
        }
        match r {
            Ok(part) => {
                parts.push(part);
            },
            Err(stop) => {
                return stop;
            },
        }
        i += 1;
    }
    assert(texts(parts@) =~= texts_at(Walk::Show, exprs, start, fuel));
    match journal.written(Request::Print(spaced_text(&parts))) {
        Ok(_) => EvalResult::Unit,
        Err(request) => EvalResult::Pending(request),
    }
}

/// `if predicate then else`: evaluates the predicate; the empty list
/// selects `else`, every other value `then`. Only the selected branch is
/// evaluated.
pub fn if_then_else(
    blocks: &[Rc<Expr>],
    env: &mut Environment,
    journal: &mut Journal,
    depth: usize,
) -> (r: EvalResult)
    ensures
        came(r, *final(env), *final(journal)) == if_spec(
            views(blocks@),
            state(*old(env), *old(journal)),
            depth as nat,
        ),
    decreases depth, 1nat,
{
    if blocks.len() != 3 {
        return failure(
            "If Expressions must have the format (if (<prediacte block>) (<then block>) (<else block>))",
        );
    }
    match eval(blocks[0].clone(), env, journal, depth) {
        EvalResult::Expr(value) => {
            let empty = match &*value {
                Expr::List(items) => {
                    proof {
                        list_view(*items);
                    }
                    items.len() == 0
                },
                _ => false,
            };
            if empty {
                eval(blocks[2].clone(), env, journal, depth)
            } else {
                eval(blocks[1].clone(), env, journal, depth)
            }
        },
        EvalResult::Unit => failure("If expression predicates must return an expression."),
        stop => stop,
    }
}

/// The message for a call with the wrong number of arguments.
fn call_arity_text(given: usize, expected: usize) -> (r: EvalResult)
    ensures
        r@ == Outcome::Failure(call_arity_message(given as nat, expected as nat)),
{
    let mut message = "Provided ".to_owned();
    message.append(decimal_text(given).as_str());
    message.append(" arguments but expected ");
    message.append(decimal_text(expected).as_str());
    EvalResult::Failure(message)
}

/// A symbol on its own or at the head of a list. Unbound, the whole
/// expression is its own value. Bound to a value, that value's expression
/// is evaluated. Bound to a function of as many parameters as there are
/// arguments, the arguments are evaluated where the call stands, a scope
/// is entered, the parameters are bound, the body is evaluated, and the
/// scope is left again whatever the body came to.
#[verifier::loop_isolation(false)]
pub fn evaluate_symbol(
    expr: Rc<Expr>,
    sym: &str,
    args: &[Rc<Expr>],
    env: &mut Environment,
    journal: &mut Journal,
    depth: usize,
) -> (r: EvalResult)
    ensures
        came(r, *final(env), *final(journal)) == apply_spec(
            expr@,
            sym@,
            views(args@),
            state(*old(env), *old(journal)),
            depth as nat,
        ),
    decreases depth, 1nat,
{
    match env.lookup(sym) {
        None => EvalResult::Expr(expr),
        Some((param_names, body)) => {
            let n = args.len();
            if param_names.len() == 0 {
                return eval(body, env, journal, depth);
            }
            if n != param_names.len() {
                return call_arity_text(n, param_names.len());
            }
            let ghost exprs = views(args@);
            let ghost start = state(*env, *journal);
            let ghost fuel = depth as nat;
            let ghost params = texts(param_names@);
            let mut values: Vec<Rc<Expr>> = Vec::new();
            let mut i: usize = 0;
            while i < n
                invariant
                    i <= n,
                    state(*env, *journal) == before(Walk::Eval, exprs, start, fuel, i as int),
                    first_stop(Walk::Eval, Pass::Values, exprs, start, fuel, 0) == first_stop(
                        Walk::Eval,
                        Pass::Values,
                        exprs,
                        start,
                        fuel,
                        i as int,
                    ),
                    values@.len() == i,
                    forall|k: int|
                        0 <= k < i ==> (#[trigger] values@[k])@ == values_at(exprs, start, fuel)[k],
                decreases n - i,
            {
                let r = eval(args[i].clone(), env, journal, depth);
                proof {
                    walk_step(Walk::Eval, Pass::Values, exprs, start, fuel, i as int);
                }
                match r {
                    EvalResult::Expr(value) => {
                        values.push(value);
                    },
                    EvalResult::Unit => {
                        return failure("Cannot pass Unit as an argument to a function.");
                    },
                    stop => {
                        return stop;
                    },
                }
                i += 1;
            }
            let ghost called = state(*env, *journal);
            env.push_context();
            let mut k: usize = 0;
            while k < n
                invariant
                    k <= n,
                    journal@ == called.journal,
                    env@ == bind_values(
                        called.scopes.push(Map::empty()),
                        params,
                        values_at(exprs, start, fuel),
                        k as int,
                    ),
                decreases n - k,
            {
                let _ = env.add_var(param_names[k].as_str(), values[k].clone());
                k += 1;
            }
            let r = eval(body, env, journal, depth);
            env.pop_context();
            r
        },
    }
}

/// A list that is no form: evaluates every item, the head too, and
/// gathers the values into a new list. What gave nothing is left out;
/// the first failure ends it.
#[verifier::loop_isolation(false)]
pub fn collect(
    vals: &[Rc<Expr>],
    env: &mut Environment,
    journal: &mut Journal,
    depth: usize,
) -> (r: EvalResult)
    ensures
        came(r, *final(env), *final(journal)) == collect_spec(
            views(vals@),
            state(*old(env), *old(journal)),
            depth as nat,
        ),
    decreases depth, 1nat,
{
    let ghost exprs = views(vals@);
    let ghost start = state(*env, *journal);
    let ghost fuel = depth as nat;
    let mut values: Vec<Rc<Expr>> = Vec::new();
    let n = vals.len();
    let mut i: usize = 0;
    while i < n
        invariant
            i <= n,
            state(*env, *journal) == before(Walk::Eval, exprs, start, fuel, i as int),
            first_stop(Walk::Eval, Pass::ValuesAndUnits, exprs, start, fuel, 0) == first_stop(
                Walk::Eval,
                Pass::ValuesAndUnits,
                exprs,
                start,
                fuel,
                i as int,
            ),
            views(values@) == kept(exprs, start, fuel, i as int),
        decreases n - i,
    {
        let r = eval(vals[i].clone(), env, journal, depth);
        proof {
            walk_step(Walk::Eval, Pass::ValuesAndUnits, exprs, start, fuel, i as int);
        }
        match r {
            EvalResult::Expr(value) => {
                let ghost had = views(values@);
                values.push(value);
                assert(views(values@) =~= had.push(value@));
            },
            EvalResult::Unit => {},
            stop => {
                return stop;
            },
        }
        i += 1;
    }
    EvalResult::Expr(Expr::list(values.as_slice()))
}

/// Evaluates `e` in `env`, reading the host's replies from `journal`, and
/// entering at most `depth` levels of nested evaluation.
///
/// The result is a value, nothing, a failure, or the request that the
/// journal has no fitting reply for. Whichever it is, there are as many
/// scopes afterwards as before, every scope but the innermost is as it
/// was, and the journal holds the same replies.
pub fn eval(
    e: Rc<Expr>,
    env: &mut Environment,
    journal: &mut Journal,
    depth: usize,
) -> (r: EvalResult)
    ensures
        came(r, *final(env), *final(journal)) == eval_spec(
            e@,
            state(*old(env), *old(journal)),
            depth as nat,
        ),
        settled(state(*old(env), *old(journal)), state(*final(env), *final(journal))),
    decreases depth, 0nat,
{
    proof {
        eval_is_balanced(e@, state(*env, *journal), depth as nat);
    }
    if depth == 0 {
        return failure("Evaluation is nested too deeply.");
    }
    let inner = depth - 1;
    match &*e {
        Expr::FNum(_) => EvalResult::Expr(e.clone()),
        Expr::Symbol(s) => {
            let none: Vec<Rc<Expr>> = Vec::new();
            assert(views(none@) =~= Seq::<ExprView>::empty());
            evaluate_symbol(e.clone(), s.as_str(), none.as_slice(), env, journal, inner)
        },
        Expr::List(vals) => {
            proof {
                list_view(*vals);
            }
            if vals.len() == 0 {
                let none: Vec<Rc<Expr>> = Vec::new();
                assert(views(none@) =~= Seq::<ExprView>::empty());
                return EvalResult::Expr(Expr::list(none.as_slice()));
            }
            let operands = rest(vals.as_slice());
            match &*vals[0] {
                Expr::Symbol(s) => {
                    let s = s.as_str();
                    if same_text(s, "+") {
                        add_vals(operands, env, journal, inner)
                    } else if same_text(s, "-") {
                        sub_vals(operands, env, journal, inner)
                    } else if same_text(s, "*") {
                        mul_vals(operands, env, journal, inner)
                    } else if same_text(s, "/") {
                        div_vals(operands, env, journal, inner)
                    } else if same_text(s, "or") {
                        or(operands, env, journal, inner)
                    } else if same_text(s, "and") {
                        and(operands, env, journal, inner)
                    } else if same_text(s, "not") {
                        not(operands, env, journal, inner)
                    } else if same_text(s, "=") {
                        eq(operands, env, journal, inner)
                    } else if same_text(s, "!=") {
                        neq(operands, env, journal, inner)
                    } else if same_text(s, "let") {
                        add_var_to_env(operands, env, journal, inner)
                    } else if same_text(s, "fn") {
                        add_fn_to_env(operands, env)
                    } else if same_text(s, "print") {
                        print(operands, env, journal, inner)
                    } else if same_text(s, "if") {
                        if_then_else(operands, env, journal, inner)
                    } else if env.contains_key(s) {
                        evaluate_symbol(e.clone(), s, operands, env, journal, inner)
                    } else {
                        collect(vals.as_slice(), env, journal, inner)
                    }
                },
                _ => collect(vals.as_slice(), env, journal, inner),
            }
        },
    }
}

} // verus!
