//! Expressions: the tree that the parser builds and the evaluator walks.

use crate::expr::Op;
use crate::host::{Journal, JournalView, Request, RequestView};
use std::rc::Rc;
use vstd::prelude::*;

verus! {

/// An expression. It is never changed once built, and is shared by
/// reference between every tree that holds it.
#[derive(Debug)]
pub enum Expr {
    /// An identifier.
    Symbol(String),
    /// A double, held as its IEEE 754 bit pattern.
    FNum(u64),
    /// An ordered sequence of expressions; it may be empty.
    List(Vec<Rc<Expr>>),
}

/// What an expression is, as a mathematical value.
pub enum ExprView {
    Symbol(Seq<char>),
    Number(u64),
    List(Seq<ExprView>),
}

impl Expr {
    /// The mathematical value of this expression.
    pub open spec fn model(self) -> ExprView
        decreases self,
    {
        match self {
            Expr::Symbol(name) => ExprView::Symbol(name@),
            Expr::FNum(bits) => ExprView::Number(bits),
            Expr::List(items) => ExprView::List(
                Seq::new(
                    items@.len(),
                    |i: int|
                        if 0 <= i < items@.len() {
                            (*items@[i]).model()
                        } else {
                            ExprView::List(Seq::empty())
                        },
                ),
            ),
        }
    }
}

impl View for Expr {
    type V = ExprView;

    open spec fn view(&self) -> ExprView {
        self.model()
    }
}

/// The views of the expressions in `items`, in order.
pub open spec fn views(items: Seq<Rc<Expr>>) -> Seq<ExprView> {
    Seq::new(items.len(), |i: int| items[i]@)
}

/// A list's view is the list of its items' views.
pub proof fn list_view(items: Vec<Rc<Expr>>)
    ensures
        Expr::List(items)@ == ExprView::List(views(items@)),
{
    let shown = Expr::List(items)@->List_0;
    assert(shown.len() == items@.len());
    assert forall|i: int| 0 <= i < items@.len() implies shown[i] == views(items@)[i] by {
        assert(shown[i] == (*items@[i]).model());
    }
    assert(shown =~= views(items@));
}

impl Expr {
    /// A symbol named `s`.
    pub fn symbol(s: &str) -> (e: Rc<Expr>)
        ensures
            e@ == ExprView::Symbol(s@),
    {
        Rc::new(Expr::Symbol(s.to_owned()))
    }

    /// The number whose bit pattern is `n`.
    pub fn fnum(n: u64) -> (e: Rc<Expr>)
        ensures
            e@ == ExprView::Number(n),
    {
        Rc::new(Expr::FNum(n))
    }

    /// The list of the expressions in `xs`, in order. The items are shared,
    /// not copied.
    pub fn list(xs: &[Rc<Expr>]) -> (e: Rc<Expr>)
        ensures
            e@ == ExprView::List(views(xs@)),
    {
        let mut items: Vec<Rc<Expr>> = Vec::new();
        let n = xs.len();
        let mut i: usize = 0;
        while i < n
            invariant
                i <= n,
                n == xs@.len(),
                items@ == xs@.subrange(0, i as int),
            decreases n - i,
        {
            items.push(xs[i].clone());
            assert(items@ =~= xs@.subrange(0, i + 1));
            i += 1;
        }
        assert(items@ =~= xs@);
        proof {
            list_view(items);
        }
        Rc::new(Expr::List(items))
    }
}

/// Structural equality, with `close` to say when two numbers count as
/// equal: symbols are equal where their names are, numbers where they are
/// close, and lists where they are as long as each other and equal item by
/// item.
pub open spec fn equal_under(a: ExprView, b: ExprView, close: spec_fn(u64, u64) -> bool) -> bool
    decreases a,
{
    match (a, b) {
        (ExprView::Symbol(s), ExprView::Symbol(t)) => s == t,
        (ExprView::Number(x), ExprView::Number(y)) => close(x, y),
        (ExprView::List(xs), ExprView::List(ys)) => xs.len() == ys.len() && forall|i: int|
            0 <= i < xs.len() ==> equal_under(#[trigger] xs[i], ys[i], close),
        _ => false,
    }
}

/// Whether two expressions differ in their numbers at most.
pub open spec fn same_shape(a: ExprView, b: ExprView) -> bool
    decreases a,
{
    match (a, b) {
        (ExprView::Symbol(s), ExprView::Symbol(t)) => s == t,
        (ExprView::Number(_), ExprView::Number(_)) => true,
        (ExprView::List(xs), ExprView::List(ys)) => xs.len() == ys.len() && forall|i: int|
            0 <= i < xs.len() ==> same_shape(#[trigger] xs[i], ys[i]),
        _ => false,
    }
}

/// The numbers of two expressions of one shape that stand in the same
/// place, pair by pair, from left to right.
pub open spec fn facing(a: ExprView, b: ExprView) -> Seq<(u64, u64)>
    decreases a, 0nat,
{
    match (a, b) {
        (ExprView::Number(x), ExprView::Number(y)) => seq![(x, y)],
        (ExprView::List(xs), ExprView::List(ys)) => facing_items(xs, ys, xs.len() as int),
        _ => Seq::empty(),
    }
}

/// The facing numbers of the first `n` items of two lists.
pub open spec fn facing_items(xs: Seq<ExprView>, ys: Seq<ExprView>, n: int) -> Seq<(u64, u64)>
    decreases xs, n,
{
    if 0 < n <= xs.len() {
        facing_items(xs, ys, n - 1) + facing(xs[n - 1], ys[n - 1])
    } else {
        Seq::empty()
    }
}

/// Whether each pair is close.
pub open spec fn all_close(pairs: Seq<(u64, u64)>, close: spec_fn(u64, u64) -> bool) -> bool {
    forall|i: int| 0 <= i < pairs.len() ==> close((#[trigger] pairs[i]).0, pairs[i].1)
}

/// Whether the number `n` stands somewhere in `a`.
pub open spec fn holds(a: ExprView, n: u64) -> bool
    decreases a,
{
    match a {
        ExprView::Symbol(_) => false,
        ExprView::Number(x) => x == n,
        ExprView::List(xs) => exists|i: int| 0 <= i < xs.len() && holds(#[trigger] xs[i], n),
    }
}

proof fn facing_items_close(
    xs: Seq<ExprView>,
    ys: Seq<ExprView>,
    n: int,
    close: spec_fn(u64, u64) -> bool,
)
    requires
        0 <= n <= xs.len(),
        xs.len() == ys.len(),
        forall|i: int| 0 <= i < xs.len() ==> same_shape(#[trigger] xs[i], ys[i]),
    ensures
        all_close(facing_items(xs, ys, n), close) <==> forall|i: int|
            0 <= i < n ==> equal_under(#[trigger] xs[i], ys[i], close),
    decreases xs, n,
{
    if n > 0 {
        facing_items_close(xs, ys, n - 1, close);
        equal_by_pairs(xs[n - 1], ys[n - 1], close);
        let head = facing_items(xs, ys, n - 1);
        let tail = facing(xs[n - 1], ys[n - 1]);
        let both = head + tail;
        if all_close(both, close) {
            assert forall|i: int| 0 <= i < head.len() implies close(
                (#[trigger] head[i]).0,
                head[i].1,
            ) by {
                assert(head[i] == both[i]);
            }
            assert forall|i: int| 0 <= i < tail.len() implies close(
                (#[trigger] tail[i]).0,
                tail[i].1,
            ) by {
                assert(tail[i] == both[head.len() + i]);
            }
        }
        if all_close(head, close) && all_close(tail, close) {
            assert forall|i: int| 0 <= i < both.len() implies close(
                (#[trigger] both[i]).0,
                both[i].1,
            ) by {
                if i < head.len() {
                    assert(both[i] == head[i]);
                } else {
                    assert(both[i] == tail[i - head.len()]);
                }
            }
        }
    }
}

/// Two expressions are equal exactly where they have one shape and the
/// numbers that face each other are close.
pub proof fn equal_by_pairs(a: ExprView, b: ExprView, close: spec_fn(u64, u64) -> bool)
    ensures
        equal_under(a, b, close) <==> same_shape(a, b) && all_close(facing(a, b), close),
    decreases a, 0nat,
{
    match (a, b) {
        (ExprView::List(xs), ExprView::List(ys)) => {
            if xs.len() == ys.len() {
                if same_shape(a, b) {
                    facing_items_close(xs, ys, xs.len() as int, close);
                } else {
                    let i = choose|i: int| 0 <= i < xs.len() && !same_shape(#[trigger] xs[i], ys[i]);
                    equal_by_pairs(xs[i], ys[i], close);
                }
            }
        },
        (ExprView::Number(x), ExprView::Number(y)) => {
            assert(facing(a, b)[0] == (x, y));
        },
        _ => {},
    }
}

/// Equality is reflexive: an expression equals itself, where each of its
/// numbers is close to itself.
pub proof fn equality_is_reflexive(a: ExprView, close: spec_fn(u64, u64) -> bool)
    requires
        forall|n: u64| holds(a, n) ==> close(n, n),
    ensures
        equal_under(a, a, close),
    decreases a,
{
    match a {
        ExprView::List(xs) => {
            assert forall|i: int| 0 <= i < xs.len() implies equal_under(
                #[trigger] xs[i],
                xs[i],
                close,
            ) by {
                assert forall|n: u64| holds(xs[i], n) implies close(n, n) by {
                    assert(holds(a, n));
                }
                equality_is_reflexive(xs[i], close);
            }
        },
        ExprView::Symbol(_) => {},
        ExprView::Number(x) => {
            assert(holds(a, x));
        },
    }
}

/// Equality of lists goes item by item: two lists are equal exactly where
/// they are as long as each other and each item of the one equals the item
/// of the other in the same place.
pub proof fn equality_of_lists(
    xs: Seq<ExprView>,
    ys: Seq<ExprView>,
    close: spec_fn(u64, u64) -> bool,
)
    ensures
        equal_under(ExprView::List(xs), ExprView::List(ys), close) <==> xs.len() == ys.len()
            && forall|i: int| 0 <= i < xs.len() ==> equal_under(#[trigger] xs[i], ys[i], close),
{
}

impl Expr {
    /// Compares two expressions in all but their numbers. `None` where
    /// they differ in a name, in a list's length or in kind. Else the
    /// numbers that stand in the same place, pair by pair from left to
    /// right: the expressions are equal where each pair is close.
    #[verifier::loop_isolation(false)]
    pub fn facing_numbers(&self, other: &Expr) -> (pairs: Option<Vec<(u64, u64)>>)
        ensures
            pairs is Some <==> same_shape(self@, other@),
            pairs is Some ==> pairs->Some_0@ == facing(self@, other@),
        decreases self,
    {
        match (self, other) {
            (Expr::Symbol(s), Expr::Symbol(t)) => {
                if crate::text::same_text(s.as_str(), t.as_str()) {
                    Some(Vec::new())
                } else {
                    None
                }
            },
            (Expr::FNum(x), Expr::FNum(y)) => {
                let mut pairs: Vec<(u64, u64)> = Vec::new();
                pairs.push((*x, *y));
                assert(pairs@ =~= seq![(*x, *y)]);
                Some(pairs)
            },
            (Expr::List(xs), Expr::List(ys)) => {
                proof {
                    list_view(*xs);
                    list_view(*ys);
                }
                let n = xs.len();
                if n != ys.len() {
                    return None;
                }
                let mut pairs: Vec<(u64, u64)> = Vec::new();
                let mut i: usize = 0;
                while i < n
                    invariant
                        i <= n,
                        forall|k: int|
                            0 <= k < i ==> same_shape(#[trigger] views(xs@)[k], views(ys@)[k]),
                        pairs@ == facing_items(views(xs@), views(ys@), i as int),
                    decreases n - i,
                {
                    match xs[i].facing_numbers(&ys[i]) {
                        None => {
                            assert(!same_shape(views(xs@)[i as int], views(ys@)[i as int]));
                            return None;
                        },
                        Some(more) => {
                            let mut more = more;
                            pairs.append(&mut more);
                        },
                    }
                    i += 1;
                }
                Some(pairs)
            },
            _ => None,
        }
    }
}

/// The bit pattern of the double 1e-8: two numbers that differ by this
/// much at most are equal.
pub const TOLERANCE: u64 = 0x3E45_798E_E230_8C3A;

/// The bit pattern of a double without its sign.
pub const MAGNITUDE: u64 = 0x7FFF_FFFF_FFFF_FFFF;

/// Whether a difference, given as the bit pattern of a double, is 1e-8 at
/// most in magnitude. Doubles that are not negative are ordered as their
/// bit patterns are, and what is no number lies above them all, so this
/// is a test on the pattern without its sign.
pub open spec fn within_tolerance(difference: u64) -> bool {
    (difference & MAGNITUDE) <= TOLERANCE
}

/// Whether an equality holds, or the request that has no reply yet, and
/// the journal after the replies were read.
pub struct Compared {
    pub result: Result<bool, RequestView>,
    pub journal: JournalView,
}

/// What a comparison came to, with the journal that it left.
pub open spec fn compared(r: Result<bool, Request>, journal: Journal) -> Compared {
    Compared {
        result: match r {
            Ok(equal) => Ok(equal),
            Err(request) => Err(request@),
        },
        journal: journal@,
    }
}

/// Whether each pair is within the tolerance. The host is asked for the
/// difference of each pair in turn, up to the first that is too large.
pub open spec fn pairs_close(pairs: Seq<(u64, u64)>, journal: JournalView) -> Compared
    decreases pairs.len(),
{
    if pairs.len() == 0 {
        Compared { result: Ok(true), journal }
    } else {
        match journal.number() {
            None => Compared {
                result: Err(RequestView::Arith(Op::Sub, pairs[0].0, pairs[0].1)),
                journal,
            },
            Some(difference) => if within_tolerance(difference) {
                pairs_close(pairs.drop_first(), journal.advanced())
            } else {
                Compared { result: Ok(false), journal: journal.advanced() }
            },
        }
    }
}

/// Whether two expressions are equal: they have one shape, and the numbers
/// that face each other are within the tolerance.
pub open spec fn equal_spec(a: ExprView, b: ExprView, journal: JournalView) -> Compared {
    if same_shape(a, b) {
        pairs_close(facing(a, b), journal)
    } else {
        Compared { result: Ok(false), journal }
    }
}

/// Whether the journal holds, from its cursor on, the difference of each
/// pair, and `close` says of each pair what the tolerance says of its
/// difference.
pub open spec fn judged(
    pairs: Seq<(u64, u64)>,
    journal: JournalView,
    close: spec_fn(u64, u64) -> bool,
) -> bool {
    forall|i: int|
        0 <= i < pairs.len() ==> {
            &&& journal.next + i < journal.replies.len()
            &&& (#[trigger] journal.replies[journal.next + i]) is Number
            &&& close(pairs[i].0, pairs[i].1) == within_tolerance(
                journal.replies[journal.next + i]->Number_0,
            )
        }
}

proof fn pairs_close_as_judged(
    pairs: Seq<(u64, u64)>,
    journal: JournalView,
    close: spec_fn(u64, u64) -> bool,
)
    requires
        judged(pairs, journal, close),
    ensures
        pairs_close(pairs, journal).result == Ok::<bool, RequestView>(all_close(pairs, close)),
    decreases pairs.len(),
{
    if pairs.len() > 0 {
        assert(journal.replies[journal.next + 0int] is Number);
        let difference = journal.replies[journal.next as int]->Number_0;
        let rest = pairs.drop_first();
        let after = journal.advanced();
        assert(judged(rest, after, close)) by {
            assert forall|i: int| 0 <= i < rest.len() implies {
                &&& after.next + i < after.replies.len()
                &&& (#[trigger] after.replies[after.next + i]) is Number
                &&& close(rest[i].0, rest[i].1) == within_tolerance(
                    after.replies[after.next + i]->Number_0,
                )
            } by {
                assert(journal.replies[journal.next + (i + 1)] is Number);
                assert(rest[i] == pairs[i + 1]);
            }
        }
        pairs_close_as_judged(rest, after, close);
        if within_tolerance(difference) {
            assert(close(pairs[0].0, pairs[0].1));
            if all_close(rest, close) {
                assert forall|i: int| 0 <= i < pairs.len() implies close(
                    (#[trigger] pairs[i]).0,
                    pairs[i].1,
                ) by {
                    if i > 0 {
                        assert(pairs[i] == rest[i - 1]);
                    }
                }
            } else {
                let i = choose|i: int| 0 <= i < rest.len() && !close((#[trigger] rest[i]).0, rest[i].1);
                assert(rest[i] == pairs[i + 1]);
            }
        } else {
            assert(!close(pairs[0].0, pairs[0].1));
        }
    }
}

/// `eq` is structural equality: where the host has said of each facing
/// pair how far apart it is, two expressions are equal exactly where
/// symbols have the same name, numbers are within the tolerance, and
/// lists are as long as each other and equal item by item.
pub proof fn eq_is_structural(
    a: ExprView,
    b: ExprView,
    journal: JournalView,
    close: spec_fn(u64, u64) -> bool,
)
    requires
        judged(facing(a, b), journal, close),
    ensures
        equal_spec(a, b, journal).result == Ok::<bool, RequestView>(equal_under(a, b, close)),
{
    equal_by_pairs(a, b, close);
    if same_shape(a, b) {
        pairs_close_as_judged(facing(a, b), journal, close);
    }
}

/// `eq` is reflexive: an expression equals itself, where the host finds
/// each of its numbers within the tolerance of itself.
pub proof fn eq_is_reflexive(a: ExprView, journal: JournalView)
    requires
        judged(facing(a, a), journal, |x: u64, y: u64| true),
    ensures
        equal_spec(a, a, journal).result == Ok::<bool, RequestView>(true),
{
    let close = |x: u64, y: u64| true;
    equality_is_reflexive(a, close);
    eq_is_structural(a, a, journal, close);
}

/// Whether each pair is within the tolerance: asks the host for the
/// difference of each pair in turn, up to the first that is too large.
/// The answer, or the request that the host has to answer first.
pub fn pairs_within_tolerance(pairs: &Vec<(u64, u64)>, journal: &mut Journal) -> (r: Result<
    bool,
    Request,
>)
    ensures
        compared(r, *final(journal)) == pairs_close(pairs@, old(journal)@),
{
    let n = pairs.len();
    let mut i: usize = 0;
    assert(pairs@.subrange(0, n as int) =~= pairs@);
    while i < n
        invariant
            i <= n,
            n == pairs@.len(),
            pairs_close(pairs@.subrange(i as int, n as int), journal@) == pairs_close(
                pairs@,
                old(journal)@,
            ),
        decreases n - i,
    {
        let ghost left = pairs@.subrange(i as int, n as int);
        assert(left.drop_first() =~= pairs@.subrange(i + 1, n as int));
        assert(left[0] == pairs@[i as int]);
        let x = pairs[i].0;
        let y = pairs[i].1;
        match journal.number(Request::Arith(Op::Sub, x, y)) {
            Err(request) => {
                return Err(request);
            },
            Ok(difference) => {
                if (difference & MAGNITUDE) > TOLERANCE {
                    return Ok(false);
                }
            },
        }
        i += 1;
    }
    Ok(true)
}

impl Expr {
    /// Whether two expressions are equal: symbols where they have the same
    /// name, numbers where they differ by 1e-8 at most, lists where they
    /// are as long as each other and equal item by item.
    ///
    /// The shapes are compared first. Then the host is asked for the
    /// difference of each two numbers that face each other, from left to
    /// right, up to the first that is too large. The answer, or the
    /// request that the host has to answer first.
    pub fn eq(&self, other: &Expr, journal: &mut Journal) -> (r: Result<bool, Request>)
        ensures
            compared(r, *final(journal)) == equal_spec(self@, other@, old(journal)@),
    {
        match self.facing_numbers(other) {
            None => Ok(false),
            Some(pairs) => pairs_within_tolerance(&pairs, journal),
        }
    }
}

} // verus!
