//! Evaluation is balanced: it leaves as many scopes as it found, writes to
//! the innermost of them only, and reads the journal forward only.

use crate::env::{bind_in, lookup_in, pop_in, value_of, BindingView, Scopes, ONE};
use crate::expr::Op;
use crate::host::JournalView;
use crate::semantics::{
    and_spec, apply_spec, arith_spec, before, bind_values, chain, collect_spec, eq_spec, eval_spec,
    first_stop, if_spec, key_spec, keys_spec, let_spec, names_of, neq_spec, not_spec, numbers_at,
    or_spec,
    print_spec, rank, show_spec, step_of, truths_spec, values_at, Pass, State, Walk, ZERO,
};
use crate::types::ExprView;
use vstd::prelude::*;

verus! {

/// Whether the cursor went forward from `start` to `end`, and only past
/// replies that are there.
pub open spec fn went_forward(start: JournalView, end: JournalView) -> bool {
    &&& end.replies == start.replies
    &&& end.next >= start.next
    &&& end.next == start.next || end.next <= end.replies.len()
}

/// What every evaluation leaves as it was: the number of scopes, every
/// scope but the innermost, and the host's replies. The cursor never moves
/// back, and moves past recorded replies only.
pub open spec fn settled(start: State, end: State) -> bool {
    &&& end.scopes.len() == start.scopes.len()
    &&& pop_in(end.scopes) == pop_in(start.scopes)
    &&& went_forward(start.journal, end.journal)
}

/// Binding a name changes the innermost scope only.
proof fn bind_keeps(scopes: Scopes, name: Seq<char>, binding: BindingView)
    ensures
        bind_in(scopes, name, binding).len() == scopes.len(),
        pop_in(bind_in(scopes, name, binding)) == pop_in(scopes),
{
    assert(pop_in(bind_in(scopes, name, binding)) =~= pop_in(scopes));
}

proof fn chain_goes_forward(op: Op, acc: u64, rest: Seq<u64>, journal: JournalView)
    ensures
        went_forward(journal, chain(op, acc, rest, journal).journal),
    decreases rest.len(),
{
    if rest.len() > 0 && journal.number() is Some {
        chain_goes_forward(op, journal.number()->Some_0, rest.drop_first(), journal.advanced());
    }
}

proof fn bind_values_keeps(
    scopes: Scopes,
    params: Seq<Seq<char>>,
    values: Seq<ExprView>,
    n: int,
)
    ensures
        bind_values(scopes, params, values, n).len() == scopes.len(),
        pop_in(bind_values(scopes, params, values, n)) == pop_in(scopes),
    decreases n,
{
    if n > 0 {
        bind_values_keeps(scopes, params, values, n - 1);
        bind_keeps(
            bind_values(scopes, params, values, n - 1),
            params[n - 1],
            value_of(values[n - 1]),
        );
    }
}

/// Evaluation is balanced: whatever an expression comes to, a value, a
/// failure or a request to the host, it leaves as many scopes as it found,
/// and every scope but the innermost as it was. Each scope that a call
/// enters is left again, with all that was bound in it. The replies in the
/// journal stay as they are, and the cursor only moves forward.
pub proof fn eval_is_balanced(e: ExprView, state: State, fuel: nat)
    ensures
        settled(state, eval_spec(e, state, fuel).state),
    decreases fuel, 0nat, 0nat,
{
    if fuel > 0 {
        let inner = (fuel - 1) as nat;
        match e {
            ExprView::Number(_) => {},
            ExprView::Symbol(s) => {
                apply_is_balanced(e, s, Seq::empty(), state, inner);
            },
            ExprView::List(items) => {
                if items.len() > 0 {
                    let operands = items.drop_first();
                    if operands.len() == 3 && operands[0] is Symbol && operands[1] is List {
                        bind_keeps(
                            state.scopes,
                            operands[0]->Symbol_0,
                            BindingView {
                                params: names_of(operands[1]->List_0),
                                body: operands[2],
                            },
                        );
                    }
                    arith_is_balanced(Op::Add, operands, state, inner);
                    arith_is_balanced(Op::Sub, operands, state, inner);
                    arith_is_balanced(Op::Mul, operands, state, inner);
                    arith_is_balanced(Op::Div, operands, state, inner);
                    truths_are_balanced(operands, state, inner);
                    keys_are_balanced(operands, state, inner);
                    let_is_balanced(operands, state, inner);
                    print_is_balanced(operands, state, inner);
                    if_is_balanced(operands, state, inner);
                    if items[0] is Symbol {
                        apply_is_balanced(e, items[0]->Symbol_0, operands, state, inner);
                    }
                    collect_is_balanced(items, state, inner);
                }
            },
        }
    }
}

/// Rendering reads the scopes and changes none of them.
pub proof fn show_keeps_the_scopes(e: ExprView, state: State, fuel: nat)
    ensures
        show_spec(e, state, fuel).state.scopes == state.scopes,
        settled(state, show_spec(e, state, fuel).state),
    decreases fuel, 0nat, 0nat,
{
    if fuel > 0 {
        let inner = (fuel - 1) as nat;
        match e {
            ExprView::Symbol(s) => {
                if lookup_in(state.scopes, s) is Some {
                    show_keeps_the_scopes(lookup_in(state.scopes, s)->Some_0.body, state, inner);
                }
            },
            ExprView::Number(_) => {},
            ExprView::List(items) => {
                let stop = first_stop(Walk::Show, Pass::Values, items, state, inner, 0);
                first_stop_is_a_place(Walk::Show, Pass::Values, items, state, inner, 0);
                shown_walk_keeps_the_scopes(items, state, inner, stop + 1);
                shown_walk_keeps_the_scopes(items, state, inner, items.len() as int);
            },
        }
    }
}

proof fn shown_walk_keeps_the_scopes(exprs: Seq<ExprView>, state: State, fuel: nat, i: int)
    ensures
        before(Walk::Show, exprs, state, fuel, i).scopes == state.scopes,
        settled(state, before(Walk::Show, exprs, state, fuel, i)),
    decreases fuel, 2nat, i,
{
    if i > 0 {
        let earlier = before(Walk::Show, exprs, state, fuel, i - 1);
        shown_walk_keeps_the_scopes(exprs, state, fuel, i - 1);
        show_keeps_the_scopes(exprs[i - 1], earlier, fuel);
        assert(step_of(Walk::Show, exprs[i - 1], earlier, fuel) == show_spec(
            exprs[i - 1],
            earlier,
            fuel,
        ));
    }
}

proof fn first_stop_is_a_place(
    walk: Walk,
    pass: Pass,
    exprs: Seq<ExprView>,
    state: State,
    fuel: nat,
    from: int,
)
    requires
        0 <= from,
    ensures
        from <= first_stop(walk, pass, exprs, state, fuel, from) || first_stop(
            walk,
            pass,
            exprs,
            state,
            fuel,
            from,
        ) == exprs.len(),
        0 <= first_stop(walk, pass, exprs, state, fuel, from),
    decreases exprs.len() - from,
{
    if from < exprs.len() {
        first_stop_is_a_place(walk, pass, exprs, state, fuel, from + 1);
    }
}

proof fn key_is_balanced(e: ExprView, state: State, fuel: nat)
    ensures
        settled(state, key_spec(e, state, fuel).state),
    decreases fuel, 5nat, 0nat,
{
    eval_is_balanced(e, state, fuel);
    let step = eval_spec(e, state, fuel);
    if step.outcome is Value && step.outcome->Value_0 is List {
        let items = step.outcome->Value_0->List_0;
        let stop = first_stop(Walk::Nested, Pass::Values, items, step.state, fuel, 0);
        first_stop_is_a_place(Walk::Nested, Pass::Values, items, step.state, fuel, 0);
        walk_is_balanced(Walk::Nested, items, step.state, fuel, stop + 1);
        walk_is_balanced(Walk::Nested, items, step.state, fuel, items.len() as int);
    }
}

proof fn step_is_balanced(walk: Walk, e: ExprView, state: State, fuel: nat)
    ensures
        settled(state, step_of(walk, e, state, fuel).state),
    decreases fuel, rank(walk), 0nat,
{
    match walk {
        Walk::Eval => {
            eval_is_balanced(e, state, fuel);
        },
        Walk::Show => {
            show_keeps_the_scopes(e, state, fuel);
        },
        Walk::Nested => {
            eval_is_balanced(e, state, fuel);
        },
        Walk::Key => {
            key_is_balanced(e, state, fuel);
        },
    }
}

proof fn walk_is_balanced(walk: Walk, exprs: Seq<ExprView>, state: State, fuel: nat, i: int)
    ensures
        settled(state, before(walk, exprs, state, fuel, i)),
    decreases fuel, rank(walk) + 1, i,
{
    if i > 0 {
        walk_is_balanced(walk, exprs, state, fuel, i - 1);
        step_is_balanced(walk, exprs[i - 1], before(walk, exprs, state, fuel, i - 1), fuel);
    }
}

proof fn walks_are_balanced(
    walk: Walk,
    pass: Pass,
    exprs: Seq<ExprView>,
    state: State,
    fuel: nat,
)
    ensures
        settled(
            state,
            before(walk, exprs, state, fuel, first_stop(walk, pass, exprs, state, fuel, 0) + 1),
        ),
        settled(state, before(walk, exprs, state, fuel, exprs.len() as int)),
    decreases fuel, rank(walk) + 2, 0nat,
{
    walk_is_balanced(walk, exprs, state, fuel, first_stop(walk, pass, exprs, state, fuel, 0) + 1);
    walk_is_balanced(walk, exprs, state, fuel, exprs.len() as int);
}

proof fn arith_is_balanced(op: Op, operands: Seq<ExprView>, state: State, fuel: nat)
    ensures
        settled(state, arith_spec(op, operands, state, fuel).state),
    decreases fuel, 10nat, 0nat,
{
    walks_are_balanced(Walk::Eval, Pass::Numbers, operands, state, fuel);
    let after = before(Walk::Eval, operands, state, fuel, operands.len() as int);
    let numbers = numbers_at(operands, state, fuel);
    chain_goes_forward(op, ZERO, numbers, after.journal);
    chain_goes_forward(op, ONE, numbers, after.journal);
    chain_goes_forward(op, numbers[0], numbers.drop_first(), after.journal);
}

proof fn truths_are_balanced(operands: Seq<ExprView>, state: State, fuel: nat)
    ensures
        settled(state, truths_spec(operands, state, fuel).state),
        settled(state, or_spec(operands, state, fuel).state),
        settled(state, and_spec(operands, state, fuel).state),
        settled(state, not_spec(operands, state, fuel).state),
    decreases fuel, 10nat, 0nat,
{
    walks_are_balanced(Walk::Eval, Pass::Truths, operands, state, fuel);
}

proof fn keys_are_balanced(operands: Seq<ExprView>, state: State, fuel: nat)
    ensures
        settled(state, keys_spec(operands, state, fuel).state),
        settled(state, eq_spec(operands, state, fuel).state),
        settled(state, neq_spec(operands, state, fuel).state),
    decreases fuel, 10nat, 0nat,
{
    walks_are_balanced(Walk::Key, Pass::Values, operands, state, fuel);
}

proof fn let_is_balanced(operands: Seq<ExprView>, state: State, fuel: nat)
    ensures
        settled(state, let_spec(operands, state, fuel).state),
    decreases fuel, 10nat, 0nat,
{
    if operands.len() == 2 {
        eval_is_balanced(operands[1], state, fuel);
        let step = eval_spec(operands[1], state, fuel);
        if operands[0] is Symbol && step.outcome is Value {
            bind_keeps(step.state.scopes, operands[0]->Symbol_0, value_of(step.outcome->Value_0));
        }
    }
}

proof fn print_is_balanced(operands: Seq<ExprView>, state: State, fuel: nat)
    ensures
        settled(state, print_spec(operands, state, fuel).state),
    decreases fuel, 10nat, 0nat,
{
    walks_are_balanced(Walk::Show, Pass::Values, operands, state, fuel);
}

proof fn if_is_balanced(operands: Seq<ExprView>, state: State, fuel: nat)
    ensures
        settled(state, if_spec(operands, state, fuel).state),
    decreases fuel, 10nat, 0nat,
{
    if operands.len() == 3 {
        eval_is_balanced(operands[0], state, fuel);
        let step = eval_spec(operands[0], state, fuel);
        eval_is_balanced(operands[1], step.state, fuel);
        eval_is_balanced(operands[2], step.state, fuel);
    }
}

proof fn apply_is_balanced(
    e: ExprView,
    name: Seq<char>,
    args: Seq<ExprView>,
    state: State,
    fuel: nat,
)
    ensures
        settled(state, apply_spec(e, name, args, state, fuel).state),
    decreases fuel, 10nat, 0nat,
{
    if lookup_in(state.scopes, name) is Some {
        let binding = lookup_in(state.scopes, name)->Some_0;
        if binding.params.len() == 0 {
            eval_is_balanced(binding.body, state, fuel);
        } else if args.len() == binding.params.len() {
            walks_are_balanced(Walk::Eval, Pass::Values, args, state, fuel);
            let called = before(Walk::Eval, args, state, fuel, args.len() as int);
            let entered = State {
                scopes: bind_values(
                    called.scopes.push(Map::empty()),
                    binding.params,
                    values_at(args, state, fuel),
                    args.len() as int,
                ),
                journal: called.journal,
            };
            bind_values_keeps(
                called.scopes.push(Map::empty()),
                binding.params,
                values_at(args, state, fuel),
                args.len() as int,
            );
            assert(pop_in(called.scopes.push(Map::empty())) =~= called.scopes);
            eval_is_balanced(binding.body, entered, fuel);
        }
    }
}

proof fn collect_is_balanced(items: Seq<ExprView>, state: State, fuel: nat)
    ensures
        settled(state, collect_spec(items, state, fuel).state),
    decreases fuel, 10nat, 0nat,
{
    walks_are_balanced(Walk::Eval, Pass::ValuesAndUnits, items, state, fuel);
}

} // verus!
