//! The whole way from source text to a result.

use crate::env::{defaults, Environment};
use crate::eval::{eval, EvalResult};
use crate::host::{Journal, JournalView};
use crate::lex::{lex, tokens_of};
use crate::parse::{parse, parser_spec, ParseError, ParseErrorView, Parsed};
use crate::semantics::{eval_spec, Asked, Outcome, State};
use vstd::prelude::*;

verus! {

/// An estimate of the stack that one level of nested evaluation takes, in
/// bytes, for a host that chooses the depth by the stack it has.
///
/// It is no proved bound: what a level takes rests on the compiler and on
/// the machine, and a host has to check it on its own build. One level
/// passes through several functions, most under a comparison within a
/// call. Measured on a build with full optimisation for a 64 bit machine,
/// on a stack of two mebibytes, that nesting ran 3000 levels deep and did
/// not run 4000: between 500 and 700 bytes a level.
pub const LEVEL_BYTES: usize = 1024;

/// How many levels of nested evaluation a program gets where the caller
/// has no reason to choose: what a stack of two mebibytes carries by the
/// estimate above, which is what a thread has where nothing else is asked
/// for. A program that nests deeper fails for want of depth.
///
/// What an expression evaluates is evaluated one level further in: the
/// operands of a form, the items of a list, the arguments of a call, the
/// body of the function called, and the expression that a name is bound
/// to. So a call costs one level more than its body, and a function that
/// calls itself from within an `if` within its body goes two levels in
/// with each call.
pub const DEPTH: usize = 2048;

/// What running `program` against the journal comes to, read from the
/// journal's cursor on.
///
/// The text is split into tokens and the first expression is parsed. A
/// failure to parse is reported as a failure without the particulars. The
/// expression is evaluated in a fresh environment, to at most `fuel`
/// levels, and what the evaluation comes to is the result as it is: a
/// value, nothing, a failure with its message, or a request.
pub open spec fn run_spec(program: Seq<char>, journal: JournalView, fuel: nat) -> Asked {
    let read = parser_spec(tokens_of(program), 0, journal);
    match read.parsed {
        Parsed::Failure(ParseErrorView::Pending(request)) => Asked {
            outcome: Outcome::Pending(request),
            journal: read.journal,
        },
        Parsed::Failure(_) => Asked {
            outcome: Outcome::Failure("Parse error"@),
            journal: read.journal,
        },
        Parsed::Success(_, expr) => {
            let step = eval_spec(
                expr,
                State { scopes: seq![defaults()], journal: read.journal },
                fuel,
            );
            Asked { outcome: step.outcome, journal: step.state.journal }
        },
    }
}

/// The journal with the cursor back at the first reply.
pub open spec fn rewound(journal: JournalView) -> JournalView {
    JournalView { replies: journal.replies, next: 0 }
}

/// Lexes, parses and evaluates `program` against the replies in
/// `journal`, from the first reply on.
///
/// Where the result is `Pending`, the host carries the request out,
/// records the reply and calls again with the same program and depth.
pub fn run_interpreter(program: &str, journal: &mut Journal, depth: usize) -> (r: EvalResult)
    ensures
        r@ == run_spec(program@, rewound(old(journal)@), depth as nat).outcome,
        final(journal)@ == run_spec(program@, rewound(old(journal)@), depth as nat).journal,
{
    journal.rewind();
    match lex(program) {
        Err(_) => EvalResult::Failure("Lex error".to_owned()),
        Ok(tokens) => match parse(tokens.as_slice(), journal) {
            Err(ParseError::Pending(request)) => EvalResult::Pending(request),
            Err(_) => EvalResult::Failure("Parse error".to_owned()),
            Ok(expr) => {
                let mut env = Environment::default();
                eval(expr, &mut env, journal, depth)
            },
        },
    }
}

} // verus!
