use mlisp::expr::Op;
use mlisp::host::{Journal, Reply, Request};
use mlisp::text::{all_same, concat_text, copy_names, decimal_text, same_text, spaced_text};

fn names(parts: &[&str]) -> Vec<String> {
    parts.iter().map(|s| s.to_string()).collect()
}

#[test]
fn a_new_journal_is_empty() {
    let journal = Journal::new();
    assert!(journal.replies.is_empty());
    assert_eq!(0, journal.next);
}

#[test]
fn replies_are_recorded_in_order() {
    let mut journal = Journal::new();
    journal.record(Reply::Number(1));
    journal.record(Reply::Text("two".to_string()));
    journal.record(Reply::Nothing);
    assert_eq!(3, journal.replies.len());
    assert_eq!(0, journal.next);
    assert!(matches!(journal.replies[0], Reply::Number(1)));
    assert!(matches!(&journal.replies[1], Reply::Text(t) if t == "two"));
    assert!(matches!(journal.replies[2], Reply::Nothing));
}

#[test]
fn each_kind_of_reply_answers_its_kind_of_request() {
    let mut journal = Journal::new();
    journal.record(Reply::Number(5));
    journal.record(Reply::Text("5".to_string()));
    journal.record(Reply::Nothing);
    journal.record(Reply::Number(6));
    journal.record(Reply::Nothing);
    assert_eq!(5, journal.number(Request::Arith(Op::Add, 2, 3)).unwrap());
    assert_eq!(1, journal.next);
    assert_eq!("5", journal.text(Request::Render(5)).unwrap());
    assert_eq!(2, journal.next);
    assert!(journal.written(Request::Print("5".to_string())).is_ok());
    assert_eq!(3, journal.next);
    assert_eq!(Some(6), journal.reading(Request::Read("6".to_string())).unwrap());
    assert_eq!(4, journal.next);
    assert_eq!(None, journal.reading(Request::Read("x".to_string())).unwrap());
    assert_eq!(5, journal.next);
}

#[test]
fn at_the_end_of_the_journal_the_request_comes_back() {
    let mut journal = Journal::new();
    let back = journal.number(Request::Arith(Op::Mul, 2, 3)).unwrap_err();
    assert!(back.same(&Request::Arith(Op::Mul, 2, 3)));
    let back = journal.text(Request::Render(9)).unwrap_err();
    assert!(back.same(&Request::Render(9)));
    let back = journal.reading(Request::Read("lit".to_string())).unwrap_err();
    assert!(back.same(&Request::Read("lit".to_string())));
    let back = journal.written(Request::Print("line".to_string())).unwrap_err();
    assert!(back.same(&Request::Print("line".to_string())));
    assert_eq!(0, journal.next);
}

#[test]
fn a_reply_of_another_kind_stays_where_it_is() {
    let mut journal = Journal::new();
    journal.record(Reply::Text("t".to_string()));
    assert!(journal.number(Request::Arith(Op::Add, 1, 1)).is_err());
    assert!(journal.reading(Request::Read("t".to_string())).is_err());
    assert!(journal.written(Request::Print("t".to_string())).is_err());
    assert_eq!(0, journal.next);
    assert_eq!("t", journal.text(Request::Render(1)).unwrap());

    let mut journal = Journal::new();
    journal.record(Reply::Number(1));
    assert!(journal.text(Request::Render(1)).is_err());
    assert!(journal.written(Request::Print("t".to_string())).is_err());
    assert_eq!(0, journal.next);

    let mut journal = Journal::new();
    journal.record(Reply::Nothing);
    assert!(journal.number(Request::Arith(Op::Add, 1, 1)).is_err());
    assert!(journal.text(Request::Render(1)).is_err());
    assert_eq!(0, journal.next);
}

#[test]
fn rewind_reads_the_same_replies_again() {
    let mut journal = Journal::new();
    journal.record(Reply::Number(5));
    journal.record(Reply::Number(6));
    assert_eq!(5, journal.number(Request::Render(0)).unwrap());
    assert_eq!(6, journal.number(Request::Render(0)).unwrap());
    assert!(journal.number(Request::Render(0)).is_err());
    journal.rewind();
    assert_eq!(0, journal.next);
    assert_eq!(2, journal.replies.len());
    assert_eq!(5, journal.number(Request::Render(0)).unwrap());
}

#[test]
fn a_cursor_behind_the_end_reads_nothing() {
    let mut journal = Journal::new();
    journal.record(Reply::Number(5));
    journal.next = 7;
    assert!(journal.number(Request::Render(0)).is_err());
    assert_eq!(7, journal.next);
}

#[test]
fn requests_compare_by_kind_and_content() {
    assert!(Request::Arith(Op::Add, 1, 2).same(&Request::Arith(Op::Add, 1, 2)));
    assert!(!Request::Arith(Op::Add, 1, 2).same(&Request::Arith(Op::Sub, 1, 2)));
    assert!(!Request::Arith(Op::Add, 1, 2).same(&Request::Arith(Op::Add, 2, 1)));
    assert!(!Request::Arith(Op::Add, 1, 2).same(&Request::Arith(Op::Add, 1, 3)));
    assert!(Request::Render(1).same(&Request::Render(1)));
    assert!(!Request::Render(1).same(&Request::Render(2)));
    assert!(Request::Read("a".to_string()).same(&Request::Read("a".to_string())));
    assert!(!Request::Read("a".to_string()).same(&Request::Read("b".to_string())));
    assert!(Request::Print("a".to_string()).same(&Request::Print("a".to_string())));
    assert!(!Request::Print("a".to_string()).same(&Request::Read("a".to_string())));
    assert!(!Request::Render(0).same(&Request::Print(String::new())));
}

#[test]
fn same_text_compares_character_by_character() {
    assert!(same_text("", ""));
    assert!(same_text("abc", "abc"));
    assert!(!same_text("abc", "abd"));
    assert!(!same_text("abc", "ab"));
    assert!(!same_text("", "a"));
    assert!(same_text("\u{3bb}x", "\u{3bb}x"));
    assert!(!same_text("\u{3bb}", "\u{3bc}"));
    assert!(!same_text("e\u{301}", "\u{e9}"));
}

#[test]
fn decimal_text_writes_a_count() {
    assert_eq!("0", decimal_text(0));
    assert_eq!("7", decimal_text(7));
    assert_eq!("10", decimal_text(10));
    assert_eq!("109", decimal_text(109));
    assert_eq!("1234567890", decimal_text(1234567890));
    assert_eq!(usize::MAX.to_string(), decimal_text(usize::MAX));
}

#[test]
fn spaced_text_sets_one_space_between_neighbours() {
    assert_eq!("", spaced_text(&names(&[])));
    assert_eq!("a", spaced_text(&names(&["a"])));
    assert_eq!("a b c", spaced_text(&names(&["a", "b", "c"])));
    assert_eq!(" a", spaced_text(&names(&["", "a"])));
    assert_eq!("a  b", spaced_text(&names(&["a", "", "b"])));
}

#[test]
fn concat_text_sets_nothing_between_neighbours() {
    assert_eq!("", concat_text(&names(&[])));
    assert_eq!("abc", concat_text(&names(&["a", "", "bc"])));
}

#[test]
fn all_same_compares_each_with_the_first() {
    assert!(all_same(&names(&[])));
    assert!(all_same(&names(&["a"])));
    assert!(all_same(&names(&["a", "a", "a"])));
    assert!(!all_same(&names(&["a", "a", "b"])));
    assert!(!all_same(&names(&["a", "b", "a"])));
    assert!(!all_same(&names(&["b", "a", "a"])));
}

#[test]
fn copy_names_copies_each_name() {
    assert_eq!(names(&["x", "", "y"]), copy_names(&names(&["x", "", "y"])));
    assert!(copy_names(&[]).is_empty());
}
