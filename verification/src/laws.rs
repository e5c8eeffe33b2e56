//! Laws of evaluation: what holds of every expression, every state and
//! every depth.

use crate::env::{lookup_in, ONE};
use crate::expr::Op;
use crate::host::{JournalView, RequestView};
use crate::semantics::{
    call_arity_message, chain, eval_spec, fold, if_spec, Asked, Outcome, State, ZERO,
};
use crate::types::ExprView;
use vstd::prelude::*;

verus! {

/// Whether a name at the head of a list selects a form.
pub open spec fn is_form(name: Seq<char>) -> bool {
    ||| name == "+"@
    ||| name == "-"@
    ||| name == "*"@
    ||| name == "/"@
    ||| name == "or"@
    ||| name == "and"@
    ||| name == "not"@
    ||| name == "="@
    ||| name == "!="@
    ||| name == "let"@
    ||| name == "fn"@
    ||| name == "print"@
    ||| name == "if"@
}

/// The call of `name` with the arguments `args`.
pub open spec fn call(name: Seq<char>, args: Seq<ExprView>) -> ExprView {
    ExprView::List(seq![ExprView::Symbol(name)] + args)
}

/// A function of N parameters that is called with another number of
/// arguments fails, and changes nothing: no argument is evaluated, no scope
/// is entered. This holds of the bare name too, which is a call without
/// arguments.
pub proof fn call_with_wrong_arity_fails(
    name: Seq<char>,
    args: Seq<ExprView>,
    state: State,
    fuel: nat,
)
    requires
        !is_form(name),
        lookup_in(state.scopes, name) is Some,
        lookup_in(state.scopes, name)->Some_0.params.len() > 0,
        args.len() != lookup_in(state.scopes, name)->Some_0.params.len(),
    ensures
        eval_spec(call(name, args), state, fuel).outcome is Failure,
        eval_spec(call(name, args), state, fuel).state == state,
        fuel > 0 ==> eval_spec(call(name, args), state, fuel).outcome == Outcome::Failure(
            call_arity_message(args.len(), lookup_in(state.scopes, name)->Some_0.params.len()),
        ),
        eval_spec(ExprView::Symbol(name), state, fuel).outcome is Failure,
        eval_spec(ExprView::Symbol(name), state, fuel).state == state,
{
    let items = seq![ExprView::Symbol(name)] + args;
    assert(items[0] == ExprView::Symbol(name));
    assert(items.drop_first() =~= args);
}

/// The expression `(if predicate then otherwise)`.
pub open spec fn conditional(predicate: ExprView, then: ExprView, otherwise: ExprView) -> ExprView {
    ExprView::List(seq![ExprView::Symbol("if"@), predicate, then, otherwise])
}

/// Where the predicate of an `if` gives a value, the empty list selects the
/// second branch and every other value the first: the form comes to what
/// the selected branch comes to in the state that the predicate left, and
/// the other branch is not evaluated.
pub proof fn if_selects_a_branch(
    predicate: ExprView,
    then: ExprView,
    otherwise: ExprView,
    state: State,
    fuel: nat,
)
    requires
        eval_spec(predicate, state, fuel).outcome is Value,
    ensures
        eval_spec(conditional(predicate, then, otherwise), state, fuel + 1) == eval_spec(
            if eval_spec(predicate, state, fuel).outcome == Outcome::Value(
                ExprView::List(Seq::empty()),
            ) {
                otherwise
            } else {
                then
            },
            eval_spec(predicate, state, fuel).state,
            fuel,
        ),
{
    reveal_strlit("if");
    reveal_strlit("+");
    reveal_strlit("-");
    reveal_strlit("*");
    reveal_strlit("/");
    reveal_strlit("or");
    reveal_strlit("and");
    reveal_strlit("not");
    reveal_strlit("=");
    reveal_strlit("!=");
    reveal_strlit("let");
    reveal_strlit("fn");
    reveal_strlit("print");
    assert("if"@.len() == 2 && "if"@[0] == 'i');
    assert("+"@.len() == 1 && "-"@.len() == 1 && "*"@.len() == 1 && "/"@.len() == 1);
    assert("="@.len() == 1 && "and"@.len() == 3 && "not"@.len() == 3 && "let"@.len() == 3);
    assert("print"@.len() == 5);
    assert("or"@[0] == 'o' && "!="@[0] == '!' && "fn"@[0] == 'f');
    let items = seq![ExprView::Symbol("if"@), predicate, then, otherwise];
    let operands = seq![predicate, then, otherwise];
    assert(items.drop_first() =~= operands);
    assert(items[0] == ExprView::Symbol("if"@));
    let value = eval_spec(predicate, state, fuel).outcome->Value_0;
    if value is List && value->List_0.len() == 0 {
        assert(value->List_0 =~= Seq::<ExprView>::empty());
    }
    assert(eval_spec(conditional(predicate, then, otherwise), state, fuel + 1) == if_spec(
        operands,
        state,
        fuel,
    ));
}

/// A single operand is its own sum and its own product: the host is not
/// asked.
pub proof fn sum_and_product_of_one(op: Op, x: u64, journal: JournalView)
    requires
        op is Add || op is Mul,
    ensures
        fold(op, seq![x], journal) == (Asked {
            outcome: Outcome::Value(ExprView::Number(x)),
            journal,
        }),
{
    assert(seq![x].drop_first().len() == 0);
}

/// The difference of a single operand negates it, and the quotient of a
/// single operand is its reciprocal: the host is asked for zero less the
/// operand, or for one divided by it, and its reply is the result.
pub proof fn difference_and_quotient_of_one(op: Op, x: u64, journal: JournalView)
    requires
        op is Sub || op is Div,
    ensures
        fold(op, seq![x], journal) == match journal.number() {
            Some(bits) => Asked {
                outcome: Outcome::Value(ExprView::Number(bits)),
                journal: journal.advanced(),
            },
            None => Asked {
                outcome: Outcome::Pending(
                    RequestView::Arith(
                        op,
                        if op is Sub {
                            ZERO
                        } else {
                            ONE
                        },
                        x,
                    ),
                ),
                journal,
            },
        },
{
    assert(seq![x].drop_first().len() == 0);
    reveal_with_fuel(chain, 2);
}

/// Whether the `count` replies from the cursor on are numbers.
pub open spec fn numbers_ahead(journal: JournalView, count: int) -> bool {
    forall|i: int|
        0 <= i < count ==> journal.next + i < journal.replies.len() && (
        #[trigger] journal.replies[journal.next + i]) is Number
}

/// The journal with the cursor moved past `count` replies.
pub open spec fn moved(journal: JournalView, count: int) -> JournalView {
    JournalView { replies: journal.replies, next: (journal.next + count) as nat }
}

/// The value folded so far, after `done` combinations: the first operand
/// before any, then the host's latest reply.
pub open spec fn folded(numbers: Seq<u64>, journal: JournalView, done: int) -> u64 {
    if done <= 0 {
        numbers[0]
    } else {
        journal.replies[journal.next + done - 1]->Number_0
    }
}

proof fn chain_goes_left(op: Op, acc: u64, rest: Seq<u64>, journal: JournalView, done: int)
    requires
        0 <= done <= rest.len(),
        numbers_ahead(journal, done),
        done < rest.len() ==> moved(journal, done).number() is None,
    ensures
        chain(op, acc, rest, journal) == if done < rest.len() {
            Asked {
                outcome: Outcome::Pending(
                    RequestView::Arith(
                        op,
                        if done == 0 {
                            acc
                        } else {
                            journal.replies[journal.next + done - 1]->Number_0
                        },
                        rest[done],
                    ),
                ),
                journal: moved(journal, done),
            }
        } else {
            Asked {
                outcome: Outcome::Value(
                    ExprView::Number(
                        if done == 0 {
                            acc
                        } else {
                            journal.replies[journal.next + done - 1]->Number_0
                        },
                    ),
                ),
                journal: moved(journal, done),
            }
        },
    decreases rest.len(),
{
    if done == 0 {
        assert(moved(journal, 0) == journal);
    } else {
        assert(journal.replies[journal.next + 0int] is Number);
        let bits = journal.replies[journal.next as int]->Number_0;
        let after = journal.advanced();
        assert forall|i: int| 0 <= i < done - 1 implies after.next + i < after.replies.len() && (
        #[trigger] after.replies[after.next + i]) is Number by {
            assert(journal.replies[journal.next + (i + 1)] is Number);
        }
        assert(moved(after, done - 1) == moved(journal, done));
        chain_goes_left(op, bits, rest.drop_first(), after, done - 1);
    }
}

/// Two or more operands are folded from the left, starting with the
/// first. After `done` combinations the host is asked to combine what was
/// folded so far, as the left operand, with the next operand; its reply
/// to the last combination is the result.
pub proof fn operands_fold_from_the_left(
    op: Op,
    numbers: Seq<u64>,
    journal: JournalView,
    done: int,
)
    requires
        numbers.len() >= 2,
        0 <= done <= numbers.len() - 1,
        numbers_ahead(journal, done),
        done < numbers.len() - 1 ==> moved(journal, done).number() is None,
    ensures
        fold(op, numbers, journal) == if done < numbers.len() - 1 {
            Asked {
                outcome: Outcome::Pending(
                    RequestView::Arith(op, folded(numbers, journal, done), numbers[done + 1]),
                ),
                journal: moved(journal, done),
            }
        } else {
            Asked {
                outcome: Outcome::Value(ExprView::Number(folded(numbers, journal, done))),
                journal: moved(journal, done),
            }
        },
{
    chain_goes_left(op, numbers[0], numbers.drop_first(), journal, done);
}

} // verus!
