//! The lexer: from source text to tokens.

use crate::text::same_text;
use vstd::prelude::*;
use vstd::std_specs::cmp::PartialEqSpecImpl;

verus! {

/// A token: a parenthesis, or any other run of characters without white
/// space.
#[derive(Debug)]
pub enum Token {
    LPar,
    RPar,
    Literal(String),
}

/// What a token is, as a mathematical value.
pub enum TokenView {
    LPar,
    RPar,
    Literal(Seq<char>),
}

impl View for Token {
    type V = TokenView;

    open spec fn view(&self) -> TokenView {
        match self {
            Token::LPar => TokenView::LPar,
            Token::RPar => TokenView::RPar,
            Token::Literal(word) => TokenView::Literal(word@),
        }
    }
}

impl PartialEq for Token {
    fn eq(&self, other: &Self) -> (same: bool) {
        match (self, other) {
            (Token::Literal(l1), Token::Literal(l2)) => same_text(l1.as_str(), l2.as_str()),
            (Token::LPar, Token::LPar) => true,
            (Token::RPar, Token::RPar) => true,
            _ => false,
        }
    }
}

impl PartialEqSpecImpl for Token {
    open spec fn obeys_eq_spec() -> bool {
        true
    }

    open spec fn eq_spec(&self, other: &Token) -> bool {
        self@ == other@
    }
}

/// What the lexer can fail with. Every run of characters is a token, so
/// it never does.
#[derive(Debug)]
pub enum LexError {
    UnknownToken(String),
}

/// The views of the tokens in `tokens`, in order.
pub open spec fn token_views(tokens: Seq<Token>) -> Seq<TokenView> {
    Seq::new(tokens.len(), |i: int| tokens[i]@)
}

/// ASCII white space: space, tab, line feed, form feed, carriage return.
pub open spec fn is_space(c: char) -> bool {
    c == ' ' || c == '\t' || c == '\n' || c == '\x0C' || c == '\r'
}

/// An opening or a closing parenthesis.
pub open spec fn is_paren(c: char) -> bool {
    c == '(' || c == ')'
}

/// `text` with a space on either side of each parenthesis.
pub open spec fn pad(text: Seq<char>) -> Seq<char>
    decreases text.len(),
{
    if text.len() == 0 {
        Seq::empty()
    } else if is_paren(text.last()) {
        pad(text.drop_last()) + seq![' ', text.last(), ' ']
    } else {
        pad(text.drop_last()).push(text.last())
    }
}

/// How many characters at the start of `text` are no white space.
pub open spec fn run(text: Seq<char>) -> int
    decreases text.len(),
{
    if text.len() == 0 || is_space(text[0]) {
        0
    } else {
        1 + run(text.drop_first())
    }
}

/// The words of `text`: its longest runs of characters that are no white
/// space, in order.
pub open spec fn words(text: Seq<char>) -> Seq<Seq<char>>
    decreases text.len(),
{
    if text.len() == 0 {
        Seq::empty()
    } else if is_space(text[0]) {
        words(text.drop_first())
    } else {
        proof {
            run_bounds(text);
        }
        seq![text.subrange(0, run(text))] + words(text.subrange(run(text), text.len() as int))
    }
}

/// A run is no longer than the text, and not empty where the text starts
/// with a character that is no white space.
pub proof fn run_bounds(text: Seq<char>)
    ensures
        0 <= run(text) <= text.len(),
        text.len() > 0 && !is_space(text[0]) ==> run(text) > 0,
    decreases text.len(),
{
    if text.len() > 0 && !is_space(text[0]) {
        run_bounds(text.drop_first());
    }
}

/// The token that a word is.
pub open spec fn token_of(word: Seq<char>) -> TokenView {
    if word == "("@ {
        TokenView::LPar
    } else if word == ")"@ {
        TokenView::RPar
    } else {
        TokenView::Literal(word)
    }
}

/// The tokens of a source text: the words of the text with its
/// parentheses set apart.
pub open spec fn tokens_of(text: Seq<char>) -> Seq<TokenView> {
    words(pad(text)).map_values(|word: Seq<char>| token_of(word))
}

/// A run is as long as the stretch up to the first white space.
proof fn run_ends(text: Seq<char>, k: int)
    requires
        0 <= k <= text.len(),
        forall|m: int| 0 <= m < k ==> !is_space(text[m]),
        k == text.len() || is_space(text[k]),
    ensures
        run(text) == k,
    decreases k,
{
    if k > 0 {
        run_ends(text.drop_first(), k - 1);
    }
}

fn space(c: char) -> (r: bool)
    ensures
        r == is_space(c),
{
    c == ' ' || c == '\t' || c == '\n' || c == '\x0C' || c == '\r'
}

/// Sets a space on either side of each parenthesis, so that it stands
/// apart from what is next to it.
pub fn add_whitespace(input: &str) -> (padded: String)
    ensures
        padded@ == pad(input@),
{
    let mut padded = String::new();
    let n = input.unicode_len();
    let mut i: usize = 0;
    proof {
        reveal_strlit(" ( ");
        reveal_strlit(" ) ");
        assert(input@.subrange(0, 0) =~= Seq::<char>::empty());
    }
    while i < n
        invariant
            i <= n,
            n == input@.len(),
            padded@ == pad(input@.subrange(0, i as int)),
            " ( "@ == seq![' ', '(', ' '],
            " ) "@ == seq![' ', ')', ' '],
        decreases n - i,
    {
        let c = input.get_char(i);
        proof {
            let upto = input@.subrange(0, i + 1);
            assert(upto.drop_last() =~= input@.subrange(0, i as int));
            assert(upto.last() == c);
        }
        if c == '(' {
            padded.append(" ( ");
        } else if c == ')' {
            padded.append(" ) ");
        } else {
            padded.append(input.substring_char(i, i + 1));
            assert(input@.subrange(i as int, i + 1) =~= seq![c]);
            assert(padded@ =~= pad(input@.subrange(0, i as int)).push(c));
        }
        i += 1;
    }
    assert(input@.subrange(0, n as int) =~= input@);
    padded
}

/// The token that a word is.
fn classify(word: &str) -> (token: Token)
    ensures
        token@ == token_of(word@),
{
    if same_text(word, "(") {
        Token::LPar
    } else if same_text(word, ")") {
        Token::RPar
    } else {
        Token::Literal(word.to_owned())
    }
}

/// Splits a source text into tokens. Each parenthesis is a token of its
/// own, whatever stands next to it; white space separates the others.
#[verifier::loop_isolation(false)]
pub fn lex(input: &str) -> (r: Result<Vec<Token>, LexError>)
    ensures
        r is Ok,
        token_views(r->Ok_0@) == tokens_of(input@),
{
    let padded = add_whitespace(input);
    let text = padded.as_str();
    let n = text.unicode_len();
    let mut tokens: Vec<Token> = Vec::new();
    let mut i: usize = 0;
    assert(text@.subrange(0, n as int) =~= text@);
    while i < n
        invariant
            i <= n,
            n == text@.len(),
            token_views(tokens@) + words(text@.subrange(i as int, n as int)).map_values(
                |word: Seq<char>| token_of(word),
            ) == tokens_of(input@),
        decreases n - i,
    {
        let ghost left = text@.subrange(i as int, n as int);
        let c = text.get_char(i);
        if space(c) {
            assert(left.drop_first() =~= text@.subrange(i + 1, n as int));
            i += 1;
        } else {
            let mut j: usize = i + 1;
            while j < n && !space(text.get_char(j))
                invariant
                    i < j <= n,
                    forall|m: int| i <= m < j ==> !is_space(text@[m]),
                decreases n - j,
            {
                j += 1;
            }
            proof {
                run_ends(left, j - i);
                assert(left.subrange(0, j - i) =~= text@.subrange(i as int, j as int));
                assert(left.subrange(j - i, left.len() as int) =~= text@.subrange(
                    j as int,
                    n as int,
                ));
            }
            let ghost had = token_views(tokens@);
            let token = classify(text.substring_char(i, j));
            tokens.push(token);
            proof {
                let word = text@.subrange(i as int, j as int);
                let later = words(text@.subrange(j as int, n as int));
                assert(token_views(tokens@) =~= had.push(token_of(word)));
                assert(words(left) == seq![word] + later);
                assert((seq![word] + later).map_values(|word: Seq<char>| token_of(word)) =~= seq![
                    token_of(word),
                ] + later.map_values(|word: Seq<char>| token_of(word)));
                assert(had.push(token_of(word)) + later.map_values(
                    |word: Seq<char>| token_of(word),
                ) =~= had + (seq![token_of(word)] + later.map_values(
                    |word: Seq<char>| token_of(word),
                )));
            }
            i = j;
        }
    }
    assert(text@.subrange(n as int, n as int) =~= Seq::<char>::empty());
    assert(token_views(tokens@) =~= tokens_of(input@));
    Ok(tokens)
}

} // verus!
