//! A sink that keeps what it is handed, and refuses lines on demand.

use vstd::prelude::*;
use super::laws::taken_lines;
use super::text::texts;
use super::{Attempt, Sink};

verus! {

/// The error of a `Transcript`: it refused a line.
#[derive(Copy, Clone, PartialEq, Eq, Structural, Debug)]
pub struct Refused {
    /// How many lines the transcript had been handed before this one.
    pub attempt: usize,
}

/// A sink in memory. It takes every line, but for those that come while
/// the number of lines handed to it so far is in a range chosen when it is
/// made.
pub struct Transcript {
    log: Vec<String>,
    refuse_from: usize,
    refuse_until: usize,
}

impl Transcript {
    /// How many lines the transcript takes before it refuses one.
    pub closed spec fn refuse_from(&self) -> nat {
        self.refuse_from as nat
    }

    /// How many lines the transcript has been handed when it takes lines
    /// again.
    pub closed spec fn refuse_until(&self) -> nat {
        self.refuse_until as nat
    }

    /// Whether the transcript refuses the line that comes after `n` others.
    pub open spec fn refuses(&self, n: int) -> bool {
        self.refuse_from() <= n < self.refuse_until()
    }

    /// What becomes of the line that comes after `n` others.
    pub open spec fn outcome(&self, n: int) -> Result<(), Refused> {
        if self.refuses(n) {
            Err(Refused { attempt: n as usize })
        } else {
            Ok(())
        }
    }

    /// What a reader of `lines` gets: each line, with a line feed behind
    /// it.
    pub open spec fn stream(lines: Seq<Seq<char>>) -> Seq<char>
        decreases lines.len(),
    {
        if lines.len() == 0 {
            Seq::empty()
        } else {
            Self::stream(lines.drop_last()) + lines.last() + "\n"@
        }
    }

    /// What became of each line follows from its place alone.
    pub proof fn lemma_outcomes(&self)
        ensures
            forall|i: int|
                0 <= i < self.history().len() ==> (#[trigger] self.history()[i]).outcome
                    == self.outcome(i),
    {
    }

    /// A transcript that takes every line.
    pub fn new() -> (t: Self)
        ensures
            t.history() == Seq::<Attempt<Refused>>::empty(),
            t.refuse_from() == 0,
            t.refuse_until() == 0,
    {
        let t = Transcript { log: Vec::new(), refuse_from: 0, refuse_until: 0 };
        assert(t.history() =~= Seq::<Attempt<Refused>>::empty());
        t
    }

    /// A transcript that takes the first `from` lines, refuses those that
    /// follow until it has been handed `until` lines in all, and takes
    /// every line after that.
    pub fn refusing(from: usize, until: usize) -> (t: Self)
        ensures
            t.history() == Seq::<Attempt<Refused>>::empty(),
            t.refuse_from() == from,
            t.refuse_until() == until,
    {
        let t = Transcript { log: Vec::new(), refuse_from: from, refuse_until: until };
        assert(t.history() =~= Seq::<Attempt<Refused>>::empty());
        t
    }

    /// How many lines were handed over, taken or not.
    pub fn attempts(&self) -> (n: usize)
        ensures
            n == self.history().len(),
    {
        self.log.len()
    }

    /// Every line that was handed over, taken or not, oldest first.
    pub fn attempted_lines(&self) -> (lines: Vec<String>)
        ensures
            texts(lines@) == self.history().map_values(|a: Attempt<Refused>| a.line),
    {
        let lines = self.log.clone();
        assert(texts(lines@) =~= self.history().map_values(|a: Attempt<Refused>| a.line));
        lines
    }

    /// The lines that were taken, oldest first.
    pub fn lines(&self) -> (lines: Vec<String>)
        ensures
            texts(lines@) == taken_lines(self.history()),
    {
        let mut lines: Vec<String> = Vec::new();
        let mut i: usize = 0;
        while i < self.log.len()
            invariant
                i <= self.log.len(),
                texts(lines@) == taken_lines(self.history().take(i as int)),
            decreases self.log.len() - i,
        {
            proof {
                assert(self.history().take(i + 1).drop_last() =~= self.history().take(i as int));
            }
            if !(self.refuse_from <= i && i < self.refuse_until) {
                let ghost earlier = lines@;
                lines.push(self.log[i].clone());
                assert(texts(lines@) =~= texts(earlier).push(self.log@[i as int]@));
            }
            i += 1;
        }
        assert(self.history().take(i as int) =~= self.history());
        lines
    }

    /// The text that the transcript has taken: every line that it took,
    /// oldest first, each with a line feed behind it.
    pub fn text(&self) -> (text: String)
        ensures
            text@ == Self::stream(taken_lines(self.history())),
    {
        let lines = self.lines();
        let mut text = String::new();
        let mut i: usize = 0;
        while i < lines.len()
            invariant
                i <= lines.len(),
                text@ == Self::stream(texts(lines@).take(i as int)),
            decreases lines.len() - i,
        {
            proof {
                assert(texts(lines@).take(i + 1).drop_last() =~= texts(lines@).take(i as int));
            }
            text.append(lines[i].as_str());
            text.append("\n");
            i += 1;
        }
        assert(texts(lines@).take(i as int) =~= texts(lines@));
        text
    }
}

impl Sink for Transcript {
    type Error = Refused;

    closed spec fn history(&self) -> Seq<Attempt<Refused>> {
        Seq::new(
            self.log@.len(),
            |i: int| Attempt { line: self.log@[i]@, outcome: self.outcome(i) },
        )
    }

    /// A transcript takes every line from now on where none of the lines
    /// that it refuses is still to come.
    open spec fn willing(&self) -> bool {
        self.refuse_until() <= self.history().len() || self.refuse_until() <= self.refuse_from()
    }

    /// A transcript refuses the next line where the number of lines that
    /// it has been handed is in the range that it refuses.
    open spec fn refusing(&self) -> bool {
        self.refuses(self.history().len() as int)
    }

    /// Keeps the line, and takes it unless the number of lines handed over
    /// before is in the range that the transcript refuses.
    fn write_line(&mut self, line: &str) -> (r: Result<(), Refused>)
        ensures
            r == old(self).outcome(old(self).history().len() as int),
            final(self).refuse_from() == old(self).refuse_from(),
            final(self).refuse_until() == old(self).refuse_until(),
    {
        let n = self.log.len();
        let refused = self.refuse_from <= n && n < self.refuse_until;
        self.log.push(line.to_owned());
        let r = if refused {
            Err(Refused { attempt: n })
        } else {
            Ok(())
        };
        assert(self.history() =~= old(self).history().push(Attempt { line: line@, outcome: r }));
        r
    }
}

} // verus!
