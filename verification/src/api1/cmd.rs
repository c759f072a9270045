//! The command forms of the stream, one line each.

use vstd::prelude::*;
use super::scope::{emitted, lemma_emitted_one, lemma_ok_is_unit};
use super::{left, Attempt, Sink, ToParentDropGuard};

verus! {

/// A command of the stream, as the proofs see it.
pub enum Command {
    /// Declares an object of `kind` under the current scope.
    Add { kind: Seq<char>, name: Seq<char> },
    /// Makes the object `name` the current scope.
    Enter { name: Seq<char> },
    /// Returns to the enclosing scope.
    Leave,
    /// Gives a property of the current object a string value.
    SetText { property: Seq<char>, value: Seq<char> },
    /// Gives a property of the current object a value written as a literal.
    SetRaw { property: Seq<char>, literal: Seq<char> },
    /// Binds a list of literals to a data-set name.
    SetData { name: Seq<char>, values: Seq<char> },
    /// Asks for the document to be exported.
    Export { arguments: Seq<char> },
    /// Asks for a saved document to be read.
    Load { path: Seq<char> },
}

impl Command {
    /// The text of the command's line, without the line terminator.
    pub open spec fn line(self) -> Seq<char> {
        match self {
            Command::Add { kind, name } => "Add('"@ + kind + "', name=u'"@ + name
                + "', autoadd=False)"@,
            Command::Enter { name } => "To(u'"@ + name + "')"@,
            Command::Leave => "To('..')"@,
            Command::SetText { property, value } => "Set('"@ + property + "', u'"@ + value + "')"@,
            Command::SetRaw { property, literal } => "Set('"@ + property + "', "@ + literal + ")"@,
            Command::SetData { name, values } => "SetData(u'"@ + name + "', ["@ + values + "])"@,
            Command::Export { arguments } => "Export("@ + arguments + ")"@,
            Command::Load { path } => "Load('"@ + path + "')"@,
        }
    }

    /// By how much the command changes the number of open scopes.
    pub open spec fn delta(self) -> int {
        match self {
            Command::Enter { .. } => 1,
            Command::Leave => -1,
            _ => 0,
        }
    }
}

/// Whether `line` enters a scope, going by its text.
pub open spec fn enters(line: Seq<char>) -> bool {
    "To(u'"@.is_prefix_of(line)
}

/// Whether `line` leaves a scope, going by its text.
pub open spec fn leaves(line: Seq<char>) -> bool {
    line == "To('..')"@
}

/// The text of a line tells whether it enters a scope, leaves one, or does
/// neither, whatever names and values stand in it.
pub proof fn lemma_line_kind(c: Command)
    ensures
        enters(c.line()) <==> c is Enter,
        leaves(c.line()) <==> c is Leave,
{
    reveal_strlit("To(u'");
    reveal_strlit("To('..')");
    reveal_strlit("')");
    reveal_strlit("Add('");
    reveal_strlit("Set('");
    reveal_strlit("SetData(u'");
    reveal_strlit("Export(");
    reveal_strlit("Load('");
    let line = c.line();
    let enter = "To(u'"@;
    let leave = "To('..')"@;
    match c {
        Command::Enter { name } => {
            assert(line.subrange(0, enter.len() as int) =~= enter);
            assert(line[3] == 'u');
            assert(leave[3] != 'u');
        },
        Command::Leave => {
            if enters(line) {
                assert(line.subrange(0, enter.len() as int)[3] == enter[3]);
            }
        },
        _ => {
            assert(line[0] != 'T');
            if enters(line) {
                assert(line.subrange(0, enter.len() as int)[0] == enter[0]);
            }
        },
    }
}

/// Declares an object: its kind, then its name.
#[must_use]
pub struct Add<'a, 'b>(pub &'a str, pub &'b str);

impl Add<'_, '_> {
    /// The command that `write` writes.
    pub open spec fn command(self) -> Command {
        Command::Add { kind: self.0@, name: self.1@ }
    }

    /// Writes the declaration as one line.
    pub fn write<S: Sink>(self, sink: &mut S) -> (r: Result<(), S::Error>)
        ensures
            final(sink).history() == old(sink).history().push(
                Attempt { line: self.command().line(), outcome: r },
            ),
            emitted(old(sink).history(), final(sink).history(), seq![self.command()], r),
            old(sink).willing() ==> r is Ok && final(sink).willing(),
            old(sink).refusing() ==> r is Err,
    {
        let mut line = String::from_str("Add('");
        line.append(self.0);
        line.append("', name=u'");
        line.append(self.1);
        line.append("', autoadd=False)");
        let r = sink.write_line(line.as_str());
        proof {
            lemma_emitted_one(old(sink).history(), self.command(), r);
        }
        r
    }
}

/// Gives a property a string value: the property, then the value.
#[must_use]
pub struct SetText<'a, 'b>(pub &'a str, pub &'b str);

impl SetText<'_, '_> {
    /// The command that `write` writes.
    pub open spec fn command(self) -> Command {
        Command::SetText { property: self.0@, value: self.1@ }
    }

    /// Writes the setting as one line.
    pub fn write<S: Sink>(self, sink: &mut S) -> (r: Result<(), S::Error>)
        ensures
            final(sink).history() == old(sink).history().push(
                Attempt { line: self.command().line(), outcome: r },
            ),
            emitted(old(sink).history(), final(sink).history(), seq![self.command()], r),
            old(sink).willing() ==> r is Ok && final(sink).willing(),
            old(sink).refusing() ==> r is Err,
    {
        let mut line = String::from_str("Set('");
        line.append(self.0);
        line.append("', u'");
        line.append(self.1);
        line.append("')");
        let r = sink.write_line(line.as_str());
        proof {
            lemma_emitted_one(old(sink).history(), self.command(), r);
        }
        r
    }
}

/// Gives a property a value written as a literal: the property, then the
/// literal's text.
#[must_use]
pub struct SetRaw<'a, 'b>(pub &'a str, pub &'b str);

impl SetRaw<'_, '_> {
    /// The command that `write` writes.
    pub open spec fn command(self) -> Command {
        Command::SetRaw { property: self.0@, literal: self.1@ }
    }

    /// Writes the setting as one line.
    pub fn write<S: Sink>(self, sink: &mut S) -> (r: Result<(), S::Error>)
        ensures
            final(sink).history() == old(sink).history().push(
                Attempt { line: self.command().line(), outcome: r },
            ),
            emitted(old(sink).history(), final(sink).history(), seq![self.command()], r),
            old(sink).willing() ==> r is Ok && final(sink).willing(),
            old(sink).refusing() ==> r is Err,
    {
        let mut line = String::from_str("Set('");
        line.append(self.0);
        line.append("', ");
        line.append(self.1);
        line.append(")");
        let r = sink.write_line(line.as_str());
        proof {
            lemma_emitted_one(old(sink).history(), self.command(), r);
        }
        r
    }
}

/// Binds a list of literals to a data-set: the name, then the literals,
/// already joined.
#[must_use]
pub struct SetData<'a, 'b>(pub &'a str, pub &'b str);

impl SetData<'_, '_> {
    /// The command that `write` writes.
    pub open spec fn command(self) -> Command {
        Command::SetData { name: self.0@, values: self.1@ }
    }

    /// Writes the binding as one line.
    pub fn write<S: Sink>(self, sink: &mut S) -> (r: Result<(), S::Error>)
        ensures
            final(sink).history() == old(sink).history().push(
                Attempt { line: self.command().line(), outcome: r },
            ),
            emitted(old(sink).history(), final(sink).history(), seq![self.command()], r),
            old(sink).willing() ==> r is Ok && final(sink).willing(),
            old(sink).refusing() ==> r is Err,
    {
        let mut line = String::from_str("SetData(u'");
        line.append(self.0);
        line.append("', [");
        line.append(self.1);
        line.append("])");
        let r = sink.write_line(line.as_str());
        proof {
            lemma_emitted_one(old(sink).history(), self.command(), r);
        }
        r
    }
}

/// Asks for the document saved in the file of the given path to be read.
#[must_use]
pub struct Load<'a>(pub &'a str);

impl Load<'_> {
    /// The command that `write` writes.
    pub open spec fn command(self) -> Command {
        Command::Load { path: self.0@ }
    }

    /// Writes the request as one line.
    pub fn write<S: Sink>(self, sink: &mut S) -> (r: Result<(), S::Error>)
        ensures
            final(sink).history() == old(sink).history().push(
                Attempt { line: self.command().line(), outcome: r },
            ),
            emitted(old(sink).history(), final(sink).history(), seq![self.command()], r),
            old(sink).willing() ==> r is Ok && final(sink).willing(),
            old(sink).refusing() ==> r is Err,
    {
        let mut line = String::from_str("Load('");
        line.append(self.0);
        line.append("')");
        let r = sink.write_line(line.as_str());
        proof {
            lemma_emitted_one(old(sink).history(), self.command(), r);
        }
        r
    }
}

/// Makes the object of the given name the current scope for the length of
/// one call.
#[must_use]
pub struct ToUnique<'a>(pub &'a str);

impl ToUnique<'_> {
    /// The command that opens the scope.
    pub open spec fn command(self) -> Command {
        Command::Enter { name: self.0@ }
    }

    /// Enters the scope, calls `f` on the sink, and leaves the scope
    /// whatever `f` returned. Where the sink refuses the line that enters
    /// the scope, nothing more is written and its error is returned.
    /// Otherwise the result is the error of the line that leaves the
    /// scope, where that was refused, else the result of `f`. On a sink
    /// that takes every line, the call succeeds where `f` does.
    pub fn for_call<S: Sink, F: FnOnce(&mut S) -> Result<(), S::Error>>(
        self,
        sink: &mut S,
        f: F,
    ) -> (r: Result<(), S::Error>)
        requires
            forall|s: &mut S|
                s.history() == old(sink).history().push(
                    Attempt { line: self.command().line(), outcome: Ok(()) },
                ) ==> call_requires(f, (s,)),
        ensures
            ({
                ||| {
                    &&& r is Err
                    &&& final(sink).history() == old(sink).history().push(
                        Attempt { line: self.command().line(), outcome: r },
                    )
                }
                ||| exists|s: &mut S, inner: Result<(), S::Error>|
                    {
                        &&& s.history() == old(sink).history().push(
                            Attempt { line: self.command().line(), outcome: Ok(()) },
                        )
                        &&& #[trigger] call_ensures(f, (s,), inner)
                        &&& left(final(s).history(), inner, final(sink).history(), r)
                    }
            }),
            old(sink).refusing() ==> r is Err && final(sink).history() == old(sink).history().push(
                Attempt { line: self.command().line(), outcome: r },
            ),
            old(sink).willing() && (forall|s: &mut S, inner: Result<(), S::Error>|
                #[trigger] call_ensures(f, (s,), inner) && s.willing() ==> inner is Ok
                    && final(s).willing()) ==> r is Ok && final(sink).willing(),
    {
        let mut line = String::from_str("To(u'");
        line.append(self.0);
        line.append("')");
        let entered = sink.write_line(line.as_str());
        proof {
            if entered is Ok {
                lemma_ok_is_unit(entered);
            }
        }
        match entered {
            Err(e) => Err(e),
            Ok(()) => ToParentDropGuard::on(sink, f),
        }
    }
}

} // verus!
