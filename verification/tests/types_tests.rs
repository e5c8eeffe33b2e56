use mlisp::expr::Op;
use mlisp::host::{Journal, Reply, Request};
use mlisp::types::Expr;
use std::rc::Rc;

fn perform(request: &Request) -> Reply {
    match request {
        Request::Arith(Op::Sub, a, b) => {
            Reply::Number((f64::from_bits(*a) - f64::from_bits(*b)).to_bits())
        }
        other => panic!("equality asks for differences only: {:?}", other),
    }
}

fn fnum(n: f64) -> Rc<Expr> {
    Expr::fnum(n.to_bits())
}

fn same_expr(a: &Expr, b: &Expr) -> bool {
    let mut journal = Journal::new();
    loop {
        journal.rewind();
        match a.eq(b, &mut journal) {
            Ok(equal) => return equal,
            Err(request) => journal.record(perform(&request)),
        }
    }
}

#[test]
fn build_symbol() {
    let sym_str = "a";
    let sym = Expr::symbol(&sym_str);
    match &*sym {
        Expr::Symbol(s) => assert_eq!(sym_str, s),
        _ => assert!(false),
    }
}

#[test]
fn build_fnum() {
    let val = 1.0;
    let fnum = fnum(val);
    match &*fnum {
        Expr::FNum(n) => assert!((f64::from_bits(*n) - val).abs() <= 1e-8),
        _ => assert!(false),
    }
}

#[test]
fn check_fnum_equality() {
    assert!(same_expr(
        &Expr::FNum(1.0f64.to_bits()),
        &Expr::FNum(1.0f64.to_bits())
    ));
    assert!(same_expr(
        &Expr::FNum(0.99f64.to_bits()),
        &Expr::FNum(0.99f64.to_bits())
    ));
}

#[test]
fn build_list() {
    let vals = Expr::list(&[Expr::symbol("+"), fnum(1.0), fnum(1.0)]);
    match &*vals {
        Expr::List(xs) => {
            assert_eq!(xs.len(), 3);
            assert!(same_expr(&Expr::symbol("+"), &xs[0]));
            assert!(same_expr(&fnum(1.0), &xs[1]));
            assert!(same_expr(&fnum(1.0), &xs[2]));
        }
        _ => assert!(false),
    }
}

#[test]
fn numbers_are_equal_within_the_tolerance() {
    assert!(same_expr(&fnum(1.0), &fnum(1.0 + 1e-9)));
    assert!(same_expr(&fnum(1.0), &fnum(1.0 - 5e-9)));
    assert!(!same_expr(&fnum(1.0), &fnum(1.0 + 1e-7)));
    assert!(!same_expr(&fnum(1.0), &fnum(2.0)));
    assert!(same_expr(&fnum(0.0), &fnum(-0.0)));
}

#[test]
fn a_number_that_is_no_number_equals_nothing() {
    assert!(!same_expr(&fnum(f64::NAN), &fnum(f64::NAN)));
    assert!(!same_expr(&fnum(f64::INFINITY), &fnum(f64::INFINITY)));
}

#[test]
fn symbols_are_equal_where_their_names_are() {
    assert!(same_expr(&Expr::symbol("abc"), &Expr::symbol("abc")));
    assert!(!same_expr(&Expr::symbol("abc"), &Expr::symbol("abd")));
    assert!(!same_expr(&Expr::symbol("abc"), &Expr::symbol("ab")));
    assert!(same_expr(&Expr::symbol(""), &Expr::symbol("")));
}

#[test]
fn lists_are_equal_item_by_item() {
    let a = Expr::list(&[Expr::symbol("+"), fnum(1.0), Expr::list(&[fnum(2.0)])]);
    let b = Expr::list(&[Expr::symbol("+"), fnum(1.0), Expr::list(&[fnum(2.0)])]);
    let shorter = Expr::list(&[Expr::symbol("+"), fnum(1.0)]);
    let other = Expr::list(&[Expr::symbol("+"), fnum(1.0), Expr::list(&[fnum(3.0)])]);
    let flat = Expr::list(&[Expr::symbol("+"), fnum(1.0), fnum(2.0)]);
    assert!(same_expr(&a, &a));
    assert!(same_expr(&a, &b));
    assert!(!same_expr(&a, &shorter));
    assert!(!same_expr(&shorter, &a));
    assert!(!same_expr(&a, &other));
    assert!(!same_expr(&a, &flat));
    assert!(same_expr(&Expr::list(&[]), &Expr::list(&[])));
}

#[test]
fn different_kinds_are_never_equal() {
    assert!(!same_expr(&Expr::symbol("1"), &fnum(1.0)));
    assert!(!same_expr(&fnum(1.0), &Expr::list(&[fnum(1.0)])));
    assert!(!same_expr(&Expr::list(&[]), &Expr::symbol("")));
}

#[test]
fn facing_numbers_come_from_left_to_right() {
    let a = Expr::list(&[fnum(1.0), Expr::list(&[Expr::symbol("x"), fnum(2.0)]), fnum(3.0)]);
    let b = Expr::list(&[fnum(4.0), Expr::list(&[Expr::symbol("x"), fnum(5.0)]), fnum(6.0)]);
    let expected = vec![
        (1.0f64.to_bits(), 4.0f64.to_bits()),
        (2.0f64.to_bits(), 5.0f64.to_bits()),
        (3.0f64.to_bits(), 6.0f64.to_bits()),
    ];
    assert_eq!(Some(expected), a.facing_numbers(&b));
    assert_eq!(
        Some(Vec::new()),
        Expr::symbol("x").facing_numbers(&Expr::symbol("x"))
    );
    assert_eq!(None, Expr::symbol("x").facing_numbers(&Expr::symbol("y")));
    assert_eq!(None, a.facing_numbers(&Expr::list(&[fnum(1.0)])));
}

#[test]
fn a_list_shares_its_items() {
    let item = Expr::symbol("shared");
    let list = Expr::list(&[item.clone(), item.clone()]);
    match &*list {
        Expr::List(xs) => {
            assert!(Rc::ptr_eq(&item, &xs[0]));
            assert!(Rc::ptr_eq(&item, &xs[1]));
        }
        _ => assert!(false),
    }
}

#[test]
fn eq_asks_for_the_difference_of_each_pair_in_turn() {
    let a = Expr::list(&[Expr::fnum(10), Expr::symbol("x"), Expr::list(&[Expr::fnum(20)])]);
    let b = Expr::list(&[Expr::fnum(11), Expr::symbol("x"), Expr::list(&[Expr::fnum(21)])]);
    let zero = 0.0f64.to_bits();
    let far = 1.0f64.to_bits();

    let mut journal = Journal::new();
    assert!(a.eq(&b, &mut journal).unwrap_err().same(&Request::Arith(Op::Sub, 10, 11)));
    assert_eq!(0, journal.next);

    journal.record(Reply::Number(zero));
    journal.rewind();
    assert!(a.eq(&b, &mut journal).unwrap_err().same(&Request::Arith(Op::Sub, 20, 21)));
    assert_eq!(1, journal.next);

    journal.record(Reply::Number(zero));
    journal.rewind();
    assert_eq!(true, a.eq(&b, &mut journal).unwrap());
    assert_eq!(2, journal.next);

    let mut journal = Journal::new();
    journal.record(Reply::Number(far));
    assert_eq!(false, a.eq(&b, &mut journal).unwrap());
    assert_eq!(1, journal.next);

    let mut journal = Journal::new();
    journal.record(Reply::Number(zero));
    journal.record(Reply::Number(far));
    assert_eq!(false, a.eq(&b, &mut journal).unwrap());
    assert_eq!(2, journal.next);
}

#[test]
fn eq_of_different_shapes_asks_nothing() {
    let mut journal = Journal::new();
    let a = Expr::list(&[Expr::fnum(1), Expr::symbol("x")]);
    let b = Expr::list(&[Expr::fnum(1), Expr::symbol("y")]);
    assert_eq!(false, a.eq(&b, &mut journal).unwrap());
    assert_eq!(false, a.eq(&Expr::fnum(1), &mut journal).unwrap());
    assert_eq!(true, Expr::symbol("x").eq(&Expr::symbol("x"), &mut journal).unwrap());
    assert_eq!(0, journal.next);
}

#[test]
fn the_tolerance_is_a_test_on_the_pattern_without_its_sign() {
    assert_eq!(1e-8f64.to_bits(), mlisp::types::TOLERANCE);
    let a = Expr::fnum(1);
    let b = Expr::fnum(2);
    let differences = [
        0.0,
        -0.0,
        1e-8,
        -1e-8,
        9.999999999999999e-9,
        1.0000000000000002e-8,
        -1.0000000000000002e-8,
        5e-324,
        -5e-324,
        1e-7,
        -1.0,
        1e300,
        f64::INFINITY,
        f64::NEG_INFINITY,
        f64::NAN,
        -f64::NAN,
        f64::MAX,
        f64::MIN_POSITIVE,
    ];
    for d in differences {
        let mut journal = Journal::new();
        journal.record(Reply::Number(d.to_bits()));
        assert_eq!(d.abs() <= 1e-8, a.eq(&b, &mut journal).unwrap(), "{}", d);
    }
}
