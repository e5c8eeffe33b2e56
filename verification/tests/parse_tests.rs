use mlisp::expr::Op;
use mlisp::host::{Journal, Reply, Request};
use mlisp::lex::Token;
use mlisp::parse::{parser, ParseError, ParseResult};
use mlisp::types::Expr;
use std::rc::Rc;

fn perform(request: &Request) -> Reply {
    match request {
        Request::Read(literal) => match literal.parse::<f64>() {
            Ok(n) => Reply::Number(n.to_bits()),
            Err(_) => Reply::Nothing,
        },
        Request::Arith(op, a, b) => {
            let (a, b) = (f64::from_bits(*a), f64::from_bits(*b));
            let n = match op {
                Op::Add => a + b,
                Op::Sub => a - b,
                Op::Mul => a * b,
                Op::Div => a / b,
            };
            Reply::Number(n.to_bits())
        }
        Request::Render(bits) => Reply::Text(f64::from_bits(*bits).to_string()),
        Request::Print(line) => {
            println!("{}", line);
            Reply::Nothing
        }
    }
}

fn fnum(n: f64) -> Rc<Expr> {
    Expr::fnum(n.to_bits())
}

fn same_expr(a: &Expr, b: &Expr) -> bool {
    let mut journal = Journal::new();
    loop {
        journal.rewind();
        match a.eq(b, &mut journal) {
            Ok(equal) => return equal,
            Err(request) => journal.record(perform(&request)),
        }
    }
}

fn parse(tokens: &[Token]) -> Result<Rc<Expr>, ParseError> {
    let mut journal = Journal::new();
    loop {
        journal.rewind();
        match mlisp::parse::parse(tokens, &mut journal) {
            Err(ParseError::Pending(request)) => journal.record(perform(&request)),
            done => return done,
        }
    }
}

#[test]
fn parse_fnum() {
    match parse(&[Token::Literal("1".into())]) {
        Err(err) => panic!("{:?}", err),
        Ok(expr) => assert!(same_expr(&fnum(1.0), &expr)),
    }
}

#[test]
fn parse_symbol() {
    match parse(&[Token::Literal("hello".into())]) {
        Err(err) => panic!("{:?}", err),
        Ok(expr) => assert!(same_expr(&Expr::symbol("hello"), &expr)),
    }
}

#[test]
fn parse_list() {
    let tokens = [
        Token::LPar,
        Token::Literal("+".into()),
        Token::Literal("1.8".into()),
        Token::Literal("1.2".into()),
        Token::RPar,
    ];
    let expected = Expr::list(&[Expr::symbol("+"), fnum(1.8), fnum(1.2)]);

    match parse(&tokens) {
        Err(err) => panic!("{:?}", err),
        Ok(expr) => assert!(same_expr(&expected, &expr)),
    }
}

#[test]
fn parse_nested_symbol() {
    let tokens = [
        Token::LPar,
        Token::LPar,
        Token::Literal("A".into()),
        Token::RPar,
        Token::RPar,
    ];

    let expected = Expr::list(&[Expr::list(&[Expr::symbol("A")])]);

    match parse(&tokens) {
        Err(err) => panic!("{:?}", err),
        Ok(expr) => assert!(same_expr(&expected, &expr)),
    }
}

#[test]
fn nested_lists() {
    let tokens = [
        Token::LPar,
        Token::Literal("+".into()),
        Token::LPar,
        Token::Literal("+".into()),
        Token::Literal("1.2".into()),
        Token::Literal("-12.8".into()),
        Token::RPar,
        Token::LPar,
        Token::Literal("*".into()),
        Token::Literal("1.2".into()),
        Token::Literal("-12.8".into()),
        Token::RPar,
        Token::RPar,
    ];

    let expected = Expr::list(&[
        Expr::symbol("+"),
        Expr::list(&[Expr::symbol("+"), fnum(1.2), fnum(-12.8)]),
        Expr::list(&[Expr::symbol("*"), fnum(1.2), fnum(-12.8)]),
    ]);

    match parse(&tokens) {
        Err(err) => panic!("{:?}", err),
        Ok(expr) => assert!(same_expr(&expected, &expr)),
    }
}

#[test]
fn no_tokens_are_the_end_of_input() {
    assert!(matches!(parse(&[]), Err(ParseError::EOF)));
}

#[test]
fn leading_closing_parenthesis_is_unexpected() {
    match parse(&[Token::RPar, Token::Literal("a".into())]) {
        Err(ParseError::BadParse(message)) => assert_eq!("Unexpected ) encountered.", message),
        other => panic!("{:?}", other),
    }
}

#[test]
fn unmatched_opening_parenthesis_is_unclosed() {
    match parse(&[Token::LPar, Token::Literal("a".into())]) {
        Err(ParseError::BadParse(message)) => assert_eq!("Unclosed delimeter", message),
        other => panic!("{:?}", other),
    }
    match parse(&[Token::LPar]) {
        Err(ParseError::BadParse(message)) => assert_eq!("Unclosed delimeter", message),
        other => panic!("{:?}", other),
    }
    match parse(&[Token::LPar, Token::LPar, Token::Literal("a".into()), Token::RPar]) {
        Err(ParseError::BadParse(message)) => assert_eq!("Unclosed delimeter", message),
        other => panic!("{:?}", other),
    }
}

#[test]
fn empty_parentheses_are_the_empty_list() {
    match parse(&[Token::LPar, Token::RPar]) {
        Err(err) => panic!("{:?}", err),
        Ok(expr) => assert!(same_expr(&Expr::list(&[]), &expr)),
    }
    let tokens = [
        Token::LPar,
        Token::Literal("fn".into()),
        Token::Literal("f".into()),
        Token::LPar,
        Token::RPar,
        Token::Literal("1".into()),
        Token::RPar,
    ];
    let expected = Expr::list(&[
        Expr::symbol("fn"),
        Expr::symbol("f"),
        Expr::list(&[]),
        fnum(1.0),
    ]);
    assert!(same_expr(&expected, &parse(&tokens).unwrap()));
}

#[test]
fn what_follows_the_first_expression_is_not_read() {
    let tokens = [
        Token::Literal("a".into()),
        Token::RPar,
        Token::Literal("1".into()),
    ];
    assert!(same_expr(&Expr::symbol("a"), &parse(&tokens).unwrap()));
    let mut journal = Journal::new();
    journal.record(Reply::Nothing);
    assert!(parse_once(&tokens, &mut journal).is_ok());
    assert_eq!(1, journal.next);
}

fn parse_once(tokens: &[Token], journal: &mut Journal) -> Result<Rc<Expr>, ParseError> {
    mlisp::parse::parse(tokens, journal)
}

#[test]
fn a_literal_is_what_the_host_reads_it_as() {
    let tokens = [Token::Literal("12".into())];

    let mut journal = Journal::new();
    match parse_once(&tokens, &mut journal) {
        Err(ParseError::Pending(Request::Read(literal))) => assert_eq!("12", literal),
        other => panic!("{:?}", other),
    }
    assert_eq!(0, journal.next);

    journal.record(Reply::Number(7));
    let number = parse_once(&tokens, &mut journal).unwrap();
    assert!(matches!(*number, Expr::FNum(7)));
    assert_eq!(1, journal.next);

    let mut journal = Journal::new();
    journal.record(Reply::Nothing);
    let symbol = parse_once(&tokens, &mut journal).unwrap();
    assert!(same_expr(&Expr::symbol("12"), &symbol));

    let mut journal = Journal::new();
    journal.record(Reply::Text("12".into()));
    assert!(matches!(
        parse_once(&tokens, &mut journal),
        Err(ParseError::Pending(Request::Read(_)))
    ));
    assert_eq!(0, journal.next);
}

#[test]
fn literals_are_read_in_the_order_of_the_tokens() {
    let tokens = [
        Token::LPar,
        Token::Literal("a".into()),
        Token::LPar,
        Token::Literal("b".into()),
        Token::RPar,
        Token::Literal("c".into()),
        Token::RPar,
    ];
    let mut journal = Journal::new();
    journal.record(Reply::Number(1));
    journal.record(Reply::Nothing);
    journal.record(Reply::Number(3));
    let expr = parse_once(&tokens, &mut journal).unwrap();
    match &*expr {
        Expr::List(items) => {
            assert_eq!(3, items.len());
            assert!(matches!(*items[0], Expr::FNum(1)));
            assert!(same_expr(&Expr::list(&[Expr::symbol("b")]), &items[1]));
            assert!(matches!(*items[2], Expr::FNum(3)));
        }
        other => panic!("{:?}", other),
    }
    assert_eq!(3, journal.next);
}

#[test]
fn parser_gives_the_place_behind_the_expression() {
    let tokens = [
        Token::Literal("x".into()),
        Token::LPar,
        Token::Literal("a".into()),
        Token::RPar,
        Token::Literal("y".into()),
    ];
    let mut journal = Journal::new();
    journal.record(Reply::Nothing);
    match parser(&tokens, 1, &mut journal) {
        ParseResult::Success(next, expr) => {
            assert_eq!(4, next);
            assert!(same_expr(&Expr::list(&[Expr::symbol("a")]), &expr));
        }
        other => panic!("{:?}", other),
    }
    let mut journal = Journal::new();
    assert!(matches!(
        parser(&tokens, 5, &mut journal),
        ParseResult::Failure(ParseError::EOF)
    ));
}
