//! The message log.

use vstd::prelude::*;

use crate::colors::Color;

verus! {

/// The message log: feedback lines in the order they were written.
pub struct Messages {
    pub messages: Vec<(String, Color)>,
}

impl Messages {
    pub open spec fn lines(&self) -> Seq<(String, Color)> {
        self.messages@
    }

    pub fn new() -> (m: Messages)
        ensures
            m.lines() == Seq::<(String, Color)>::empty(),
    {
        Messages { messages: Vec::new() }
    }

    /// Appends one line at the end of the log.
    pub fn add(&mut self, message: String, color: Color)
        ensures
            final(self).lines() == old(self).lines().push((message, color)),
            logged(*old(self), *final(self), message@, color),
    {
        self.messages.push((message, color));
    }

    pub fn len(&self) -> (n: usize)
        ensures
            n == self.lines().len(),
    {
        self.messages.len()
    }
}

/// The line says `text`, in `color`.
pub open spec fn line_is(line: (String, Color), text: Seq<char>, color: Color) -> bool {
    line.0@ == text && line.1 == color
}

/// The line begins with `prefix`, and is in `color`.
pub open spec fn line_starts(line: (String, Color), prefix: Seq<char>, color: Color) -> bool {
    &&& prefix.len() <= line.0@.len()
    &&& line.0@.subrange(0, prefix.len() as int) == prefix
    &&& line.1 == color
}

/// `after` is `before` with exactly `count` lines appended.
pub open spec fn appended(before: Messages, after: Messages, count: int) -> bool {
    &&& log_extends(before, after)
    &&& after.lines().len() == before.lines().len() + count
}

/// `after` is `before` with the one line `text` in `color` appended.
pub open spec fn logged(before: Messages, after: Messages, text: Seq<char>, color: Color) -> bool {
    &&& appended(before, after, 1)
    &&& line_is(after.lines().last(), text, color)
}

/// `after` is `before` with zero or more lines appended.
pub open spec fn log_extends(before: Messages, after: Messages) -> bool {
    &&& before.lines().len() <= after.lines().len()
    &&& forall|i: int|
        0 <= i < before.lines().len() ==> #[trigger] after.lines()[i] == before.lines()[i]
}

} // verus!
