//! The parser: from tokens to an expression.
//!
//! Whether a literal is a number is for the host to say: the parser asks
//! through the journal, once for each literal, in the order of the tokens.

use crate::host::{Journal, JournalView, Request, RequestView};
use crate::lex::{token_views, Token, TokenView};
use crate::types::{views, Expr, ExprView};
use std::rc::Rc;
use vstd::prelude::*;

verus! {

/// Why there is no expression.
#[derive(Debug)]
pub enum ParseError {
    /// The tokens are no expression.
    BadParse(String),
    /// There are no tokens.
    EOF,
    /// The host has to read a literal first: the journal holds no fitting
    /// reply to this request.
    Pending(Request),
}

/// An expression together with the place of the first token behind it, or
/// why there is none.
#[derive(Debug)]
pub enum ParseResult {
    Success(usize, Rc<Expr>),
    Failure(ParseError),
}

/// What a parse error is, as a mathematical value.
pub enum ParseErrorView {
    BadParse(Seq<char>),
    EOF,
    Pending(RequestView),
}

/// What a parse came to: an expression and the place of the first token
/// behind it, or why there is none.
pub enum Parsed {
    Success(int, ExprView),
    Failure(ParseErrorView),
}

/// What parsing came to, and the journal that it left.
pub struct ParseStep {
    pub parsed: Parsed,
    pub journal: JournalView,
}

impl View for ParseError {
    type V = ParseErrorView;

    open spec fn view(&self) -> ParseErrorView {
        match self {
            ParseError::BadParse(message) => ParseErrorView::BadParse(message@),
            ParseError::EOF => ParseErrorView::EOF,
            ParseError::Pending(request) => ParseErrorView::Pending(request@),
        }
    }
}

impl View for ParseResult {
    type V = Parsed;

    open spec fn view(&self) -> Parsed {
        match self {
            ParseResult::Success(next, expr) => Parsed::Success(*next as int, expr@),
            ParseResult::Failure(error) => Parsed::Failure(error@),
        }
    }
}

/// A failure that leaves the journal as it is.
pub open spec fn refuse(error: ParseErrorView, journal: JournalView) -> ParseStep {
    ParseStep { parsed: Parsed::Failure(error), journal }
}

/// The atom that a literal is: a number where the host reads it as one,
/// else a symbol.
pub open spec fn atom_spec(literal: Seq<char>, next: int, journal: JournalView) -> ParseStep {
    match journal.reading() {
        Some(Some(bits)) => ParseStep {
            parsed: Parsed::Success(next, ExprView::Number(bits)),
            journal: journal.advanced(),
        },
        Some(None) => ParseStep {
            parsed: Parsed::Success(next, ExprView::Symbol(literal)),
            journal: journal.advanced(),
        },
        None => refuse(ParseErrorView::Pending(RequestView::Read(literal)), journal),
    }
}

/// The expression that starts at `index`: an atom for a literal, and for an
/// opening parenthesis the list of the expressions up to the parenthesis
/// that closes it.
pub open spec fn parser_spec(tokens: Seq<TokenView>, index: int, journal: JournalView) -> ParseStep
    decreases tokens.len() - index, 0nat,
{
    if index < 0 || index >= tokens.len() {
        refuse(ParseErrorView::EOF, journal)
    } else {
        match tokens[index] {
            TokenView::Literal(literal) => atom_spec(literal, index + 1, journal),
            TokenView::RPar => refuse(
                ParseErrorView::BadParse("Unexpected ) encountered."@),
                journal,
            ),
            TokenView::LPar => items_spec(tokens, index + 1, journal, Seq::empty()),
        }
    }
}

/// The list whose first items are `items` and whose other items start at
/// `index`, up to the closing parenthesis.
///
/// An item always ends behind where it starts and within the tokens, as
/// `parser_advances` shows; the test for it is what lets this definition
/// come to an end.
pub open spec fn items_spec(
    tokens: Seq<TokenView>,
    index: int,
    journal: JournalView,
    items: Seq<ExprView>,
) -> ParseStep
    decreases tokens.len() - index, 1nat,
{
    if index < 0 || index >= tokens.len() {
        refuse(ParseErrorView::BadParse("Unclosed delimeter"@), journal)
    } else if tokens[index] is RPar {
        ParseStep { parsed: Parsed::Success(index + 1, ExprView::List(items)), journal }
    } else {
        let item = parser_spec(tokens, index, journal);
        match item.parsed {
            Parsed::Success(next, expr) => if index < next <= tokens.len() {
                items_spec(tokens, next, item.journal, items.push(expr))
            } else {
                item
            },
            Parsed::Failure(_) => item,
        }
    }
}

/// An expression ends behind where it starts, and within the tokens.
pub proof fn parser_advances(tokens: Seq<TokenView>, index: int, journal: JournalView)
    ensures
        parser_spec(tokens, index, journal).parsed matches Parsed::Success(next, _) ==> index
            < next <= tokens.len(),
    decreases tokens.len() - index, 0nat,
{
    if 0 <= index < tokens.len() && tokens[index] is LPar {
        items_advance(tokens, index + 1, journal, Seq::empty());
    }
}

/// A list ends behind where its items start, and within the tokens.
pub proof fn items_advance(
    tokens: Seq<TokenView>,
    index: int,
    journal: JournalView,
    items: Seq<ExprView>,
)
    ensures
        items_spec(tokens, index, journal, items).parsed matches Parsed::Success(next, _) ==> index
            < next <= tokens.len(),
    decreases tokens.len() - index, 1nat,
{
    if 0 <= index < tokens.len() && !(tokens[index] is RPar) {
        parser_advances(tokens, index, journal);
        let item = parser_spec(tokens, index, journal);
        if let Parsed::Success(next, expr) = item.parsed {
            items_advance(tokens, next, item.journal, items.push(expr));
        }
    }
}

/// What a parse came to, with the journal that it left.
pub open spec fn parsed(r: ParseResult, journal: Journal) -> ParseStep {
    ParseStep { parsed: r@, journal: journal@ }
}

fn bad_parse(message: &str) -> (r: ParseResult)
    ensures
        r@ == Parsed::Failure(ParseErrorView::BadParse(message@)),
{
    ParseResult::Failure(ParseError::BadParse(message.to_owned()))
}

/// Parses the expression that starts at `index`.
#[verifier::loop_isolation(false)]
pub fn parser(tokens: &[Token], index: usize, journal: &mut Journal) -> (r: ParseResult)
    ensures
        parsed(r, *final(journal)) == parser_spec(
            token_views(tokens@),
            index as int,
            old(journal)@,
        ),
        r matches ParseResult::Success(next, _) ==> index < next <= tokens@.len(),
    decreases tokens@.len() - index,
{
    let ghost seen = token_views(tokens@);
    let n = tokens.len();
    if index >= n {
        return ParseResult::Failure(ParseError::EOF);
    }
    match &tokens[index] {
        Token::Literal(literal) => match journal.reading(Request::Read(literal.clone())) {
            Ok(Some(bits)) => ParseResult::Success(index + 1, Expr::fnum(bits)),
            Ok(None) => ParseResult::Success(index + 1, Expr::symbol(literal.as_str())),
            Err(request) => ParseResult::Failure(ParseError::Pending(request)),
        },
        Token::RPar => bad_parse("Unexpected ) encountered."),
        Token::LPar => {
            let mut exprs: Vec<Rc<Expr>> = Vec::new();
            let mut at: usize = index + 1;
            assert(views(exprs@) =~= Seq::<ExprView>::empty());
            loop
                invariant
                    index < at <= n,
                    items_spec(seen, at as int, journal@, views(exprs@)) == parser_spec(
                        seen,
                        index as int,
                        old(journal)@,
                    ),
                decreases n - at,
            {
                if at >= n {
                    return bad_parse("Unclosed delimeter");
                }
                if let Token::RPar = &tokens[at] {
                    return ParseResult::Success(at + 1, Expr::list(exprs.as_slice()));
                }
                match parser(tokens, at, journal) {
                    ParseResult::Success(next, expr) => {
                        let ghost had = views(exprs@);
                        exprs.push(expr);
                        assert(views(exprs@) =~= had.push(expr@));
                        at = next;
                    },
                    failure => {
                        return failure;
                    },
                }
            }
        },
    }
}

/// Parses the first expression of `tokens`; what follows it is not read.
///
/// An atom is a number where the host reads the literal as one, else a
/// symbol. Parentheses that match make a list of what stands between
/// them. A closing parenthesis where an expression should start, and an
/// opening one that nothing closes, are refused; so are no tokens at all.
pub fn parse(tokens: &[Token], journal: &mut Journal) -> (r: Result<Rc<Expr>, ParseError>)
    ensures
        match parser_spec(token_views(tokens@), 0, old(journal)@).parsed {
            Parsed::Success(_, expr) => r is Ok && r->Ok_0@ == expr,
            Parsed::Failure(error) => r is Err && r->Err_0@ == error,
        },
        final(journal)@ == parser_spec(token_views(tokens@), 0, old(journal)@).journal,
{
    match parser(tokens, 0, journal) {
        ParseResult::Success(_, expr) => Ok(expr),
        ParseResult::Failure(error) => Err(error),
    }
}

} // verus!
