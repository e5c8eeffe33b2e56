//! The conversation with the host: what the library asks for, what the host
//! replies, and the journal that keeps the replies in order.
//!
//! A function that takes a journal reads it from its cursor on. Where it
//! needs a reply and the journal has none left that fits, it stops and hands
//! back the request. The host carries the request out, records the reply,
//! rewinds the journal and calls again.

use crate::expr::Op;
use crate::text::same_text;
use vstd::prelude::*;

verus! {

/// Something that only the host can do.
#[derive(Debug, Clone)]
pub enum Request {
    /// Read a literal as a double, if it is one.
    Read(String),
    /// Combine two doubles, given as bit patterns, left operand first.
    Arith(Op, u64, u64),
    /// Write a double in decimal.
    Render(u64),
    /// Write a line to standard output.
    Print(String),
}

/// What the host answers.
#[derive(Debug, Clone)]
pub enum Reply {
    /// A double, as its bit pattern: the value read or computed.
    Number(u64),
    /// The decimal text of a double.
    Text(String),
    /// The literal is no number, or the line was written.
    Nothing,
}

/// What a request is, as a mathematical value.
pub enum RequestView {
    Read(Seq<char>),
    Arith(Op, u64, u64),
    Render(u64),
    Print(Seq<char>),
}

/// What a reply is, as a mathematical value.
pub enum ReplyView {
    Number(u64),
    Text(Seq<char>),
    Nothing,
}

impl View for Request {
    type V = RequestView;

    open spec fn view(&self) -> RequestView {
        match self {
            Request::Read(literal) => RequestView::Read(literal@),
            Request::Arith(op, a, b) => RequestView::Arith(*op, *a, *b),
            Request::Render(bits) => RequestView::Render(*bits),
            Request::Print(line) => RequestView::Print(line@),
        }
    }
}

impl Request {
    /// Whether two requests ask for the same thing.
    pub fn same(&self, other: &Request) -> (same: bool)
        ensures
            same == (self@ == other@),
    {
        match (self, other) {
            (Request::Read(a), Request::Read(b)) => same_text(a.as_str(), b.as_str()),
            (Request::Arith(op, a, b), Request::Arith(op2, a2, b2)) => *op == *op2 && *a == *a2
                && *b == *b2,
            (Request::Render(a), Request::Render(b)) => *a == *b,
            (Request::Print(a), Request::Print(b)) => same_text(a.as_str(), b.as_str()),
            _ => false,
        }
    }
}

impl View for Reply {
    type V = ReplyView;

    open spec fn view(&self) -> ReplyView {
        match self {
            Reply::Number(bits) => ReplyView::Number(*bits),
            Reply::Text(text) => ReplyView::Text(text@),
            Reply::Nothing => ReplyView::Nothing,
        }
    }
}

/// The replies recorded so far, and how many of them have been read.
#[derive(Debug, Clone)]
pub struct Journal {
    pub replies: Vec<Reply>,
    pub next: usize,
}

/// What a journal is, as a mathematical value: the replies in order, and
/// the cursor, which counts the replies that were read.
pub struct JournalView {
    pub replies: Seq<ReplyView>,
    pub next: nat,
}

impl JournalView {
    /// The reply under the cursor, if there is one.
    pub open spec fn current(self) -> Option<ReplyView> {
        if self.next < self.replies.len() {
            Some(self.replies[self.next as int])
        } else {
            None
        }
    }

    /// The journal with the cursor moved past one reply.
    pub open spec fn advanced(self) -> JournalView {
        JournalView { replies: self.replies, next: self.next + 1 }
    }

    /// The number under the cursor, if a number is there.
    pub open spec fn number(self) -> Option<u64> {
        match self.current() {
            Some(ReplyView::Number(bits)) => Some(bits),
            _ => None,
        }
    }

    /// The text under the cursor, if a text is there.
    pub open spec fn text(self) -> Option<Seq<char>> {
        match self.current() {
            Some(ReplyView::Text(text)) => Some(text),
            _ => None,
        }
    }

    /// The reading of a literal under the cursor: a number, or that it is
    /// none. A text is no reading.
    pub open spec fn reading(self) -> Option<Option<u64>> {
        match self.current() {
            Some(ReplyView::Number(bits)) => Some(Some(bits)),
            Some(ReplyView::Nothing) => Some(None),
            _ => None,
        }
    }

    /// Whether the reply under the cursor says that a line was written.
    pub open spec fn written(self) -> bool {
        self.current() == Some(ReplyView::Nothing)
    }
}

impl View for Journal {
    type V = JournalView;

    open spec fn view(&self) -> JournalView {
        JournalView {
            replies: Seq::new(self.replies@.len(), |i: int| self.replies@[i]@),
            next: self.next as nat,
        }
    }
}

impl Journal {
    /// A journal without replies.
    pub fn new() -> (journal: Journal)
        ensures
            journal@.replies.len() == 0,
            journal@.next == 0,
    {
        Journal { replies: Vec::new(), next: 0 }
    }

    /// Records the host's reply to the request last handed out.
    pub fn record(&mut self, reply: Reply)
        ensures
            final(self)@.replies == old(self)@.replies.push(reply@),
            final(self)@.next == old(self)@.next,
    {
        self.replies.push(reply);
        assert(self@.replies =~= old(self)@.replies.push(reply@));
    }

    /// Moves the cursor back to the first reply.
    pub fn rewind(&mut self)
        ensures
            final(self)@.replies == old(self)@.replies,
            final(self)@.next == 0,
    {
        self.next = 0;
    }

    /// Takes the number that answers `request`. Where the reply under the
    /// cursor is no number, or there is none, nothing is read and the
    /// request comes back.
    pub fn number(&mut self, request: Request) -> (r: Result<u64, Request>)
        ensures
            match old(self)@.number() {
                Some(bits) => r == Ok::<u64, Request>(bits) && final(self)@ == old(self)@.advanced(),
                None => r == Err::<u64, Request>(request) && final(self)@ == old(self)@,
            },
    {
        if self.next < self.replies.len() {
            if let Reply::Number(bits) = &self.replies[self.next] {
                let bits = *bits;
                self.next = self.next + 1;
                return Ok(bits);
            }
        }
        Err(request)
    }

    /// Takes the text that answers `request`. Where the reply under the
    /// cursor is no text, or there is none, nothing is read and the request
    /// comes back.
    pub fn text(&mut self, request: Request) -> (r: Result<String, Request>)
        ensures
            match old(self)@.text() {
                Some(text) => r is Ok && r->Ok_0@ == text && final(self)@ == old(self)@.advanced(),
                None => r == Err::<String, Request>(request) && final(self)@ == old(self)@,
            },
    {
        if self.next < self.replies.len() {
            if let Reply::Text(text) = &self.replies[self.next] {
                let text = text.clone();
                self.next = self.next + 1;
                return Ok(text);
            }
        }
        Err(request)
    }

    /// Takes the reading that answers `request`: `Some` bit pattern where
    /// the literal is a number, `None` where it is not. Where the reply
    /// under the cursor is a text, or there is none, nothing is read and the
    /// request comes back.
    pub fn reading(&mut self, request: Request) -> (r: Result<Option<u64>, Request>)
        ensures
            match old(self)@.reading() {
                Some(reading) => r == Ok::<Option<u64>, Request>(reading) && final(self)@ == old(
                    self,
                )@.advanced(),
                None => r == Err::<Option<u64>, Request>(request) && final(self)@ == old(self)@,
            },
    {
        if self.next < self.replies.len() {
            match &self.replies[self.next] {
                Reply::Number(bits) => {
                    let bits = *bits;
                    self.next = self.next + 1;
                    return Ok(Some(bits));
                },
                Reply::Nothing => {
                    self.next = self.next + 1;
                    return Ok(None);
                },
                Reply::Text(_) => {},
            }
        }
        Err(request)
    }

    /// Takes the reply that says `request` was carried out. Where the reply
    /// under the cursor says something else, or there is none, nothing is
    /// read and the request comes back.
    pub fn written(&mut self, request: Request) -> (r: Result<(), Request>)
        ensures
            if old(self)@.written() {
                r == Ok::<(), Request>(()) && final(self)@ == old(self)@.advanced()
            } else {
                r == Err::<(), Request>(request) && final(self)@ == old(self)@
            },
    {
        if self.next < self.replies.len() {
            if let Reply::Nothing = &self.replies[self.next] {
                self.next = self.next + 1;
                return Ok(());
            }
        }
        Err(request)
    }
}

} // verus!
