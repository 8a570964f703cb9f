//! The loop controller: a body is captured once, then replayed line by line
//! while the loop's condition holds.
use vstd::prelude::*;
use crate::interp::{cond_view, ConditionError};
use crate::text::{trim, trim_spec, views};

verus! {

/// The body of a loop being captured: the non-blank input lines, trimmed.
pub struct Capture {
    lines: Vec<String>,
}

impl Capture {
    /// The lines captured so far.
    pub closed spec fn body(&self) -> Seq<Seq<char>> {
        views(self.lines@)
    }

    /// A capture with no line yet.
    pub fn new() -> (r: Capture)
        ensures
            r.body() == Seq::<Seq<char>>::empty(),
    {
        Capture { lines: Vec::new() }
    }

    /// Takes one input line. A blank line ends the capture and is not kept;
    /// any other line is kept, trimmed.
    pub fn feed(&mut self, raw: &str) -> (ended: bool)
        ensures
            ended == (trim_spec(raw@).len() == 0),
            ended ==> final(self).body() == old(self).body(),
            !ended ==> final(self).body() == old(self).body().push(trim_spec(raw@)),
    {
        let t = trim(raw);
        if t.unicode_len() == 0 {
            return true;
        }
        let ghost before = views(self.lines@);
        self.lines.push(t);
        assert(views(self.lines@) == before.push(trim_spec(raw@)));
        false
    }

    /// The captured lines.
    pub fn into_body(self) -> (r: Vec<String>)
        ensures
            views(r@) == self.body(),
    {
        self.lines
    }
}

/// What the loop asks for next.
#[derive(Debug, PartialEq, Eq)]
pub enum LoopAction {
    /// Evaluate the condition and pass the result to [`Replay::on_condition`].
    CheckCondition,
    /// Execute this body line, then call [`Replay::on_line_done`].
    Run(String),
    /// The loop is over.
    Finish,
}

/// The mathematical view of a [`LoopAction`].
pub enum LoopActionModel {
    CheckCondition,
    Run(Seq<char>),
    Finish,
}

impl View for LoopAction {
    type V = LoopActionModel;

    open spec fn view(&self) -> LoopActionModel {
        match self {
            LoopAction::CheckCondition => LoopActionModel::CheckCondition,
            LoopAction::Run(s) => LoopActionModel::Run(s@),
            LoopAction::Finish => LoopActionModel::Finish,
        }
    }
}

/// The replay of a captured body. The body never changes; `next` is the
/// index of the line to run next, and equals the body's length while the
/// condition is awaited.
pub struct Replay {
    body: Vec<String>,
    next: usize,
    finished: bool,
}

impl Replay {
    /// The body being replayed.
    pub closed spec fn lines(&self) -> Seq<Seq<char>> {
        views(self.body@)
    }

    /// The index of the next line to run.
    pub closed spec fn position(&self) -> nat {
        self.next as nat
    }

    /// Whether the loop is over.
    pub closed spec fn is_finished(&self) -> bool {
        self.finished
    }

    /// Whether the replay waits for the condition.
    pub open spec fn awaits_condition(&self) -> bool {
        !self.is_finished() && self.position() == self.lines().len()
    }

    /// Whether the replay waits for a body line to be done.
    pub open spec fn awaits_line(&self) -> bool {
        !self.is_finished() && 0 < self.position() <= self.lines().len()
    }

    /// A replay of `body` that first asks for the condition.
    pub fn new(body: Vec<String>) -> (r: Replay)
        ensures
            r.lines() == views(body@),
            r.awaits_condition(),
    {
        let n = body.len();
        Replay { body, next: n, finished: false }
    }

    /// Takes the condition's result. The body starts over only when the
    /// condition evaluated to true; false or an error ends the loop.
    pub fn on_condition(&mut self, result: &Result<bool, ConditionError>) -> (a: LoopAction)
        requires
            old(self).awaits_condition(),
        ensures
            final(self).lines() == old(self).lines(),
            cond_view(*result) == Ok::<bool, crate::interp::ConditionErrorModel>(true) ==> (
                if old(self).lines().len() == 0 {
                    a@ == LoopActionModel::CheckCondition && final(self).awaits_condition()
                } else {
                    a@ == LoopActionModel::Run(old(self).lines()[0]) && final(self).position() == 1
                        && final(self).awaits_line()
                }),
            cond_view(*result) != Ok::<bool, crate::interp::ConditionErrorModel>(true) ==> (
                a@ == LoopActionModel::Finish && final(self).is_finished()),
    {
        let go = match result {
            Ok(b) => *b,
            Err(_) => false,
        };
        if !go {
            self.finished = true;
            return LoopAction::Finish;
        }
        if self.body.len() == 0 {
            return LoopAction::CheckCondition;
        }
        self.next = 1;
        LoopAction::Run(self.body[0].clone())
    }

    /// Called when the last line handed out has been executed: hands out the
    /// following line, or asks for the condition after the last one.
    pub fn on_line_done(&mut self) -> (a: LoopAction)
        requires
            old(self).awaits_line(),
        ensures
            final(self).lines() == old(self).lines(),
            old(self).position() < old(self).lines().len() ==> (
                a@ == LoopActionModel::Run(old(self).lines()[old(self).position() as int])
                    && final(self).position() == old(self).position() + 1 && final(self).awaits_line()),
            old(self).position() == old(self).lines().len() ==> (
                a@ == LoopActionModel::CheckCondition && final(self).awaits_condition()),
    {
        if self.next < self.body.len() {
            let line = self.body[self.next].clone();
            self.next = self.next + 1;
            LoopAction::Run(line)
        } else {
            LoopAction::CheckCondition
        }
    }
}

} // verus!
