//! The line-oriented embedding interface: the sink that takes the lines, the
//! commands that make them, and the scoping rules of the stream.

use vstd::prelude::*;
use cmd::{Add, Command, ToUnique};
use scope::{
    depth, emitted, lemma_depth_one, lemma_emitted_one, lemma_emitted_scope, lemma_emitted_stop,
    lemma_emitted_then, lemma_ok_is_unit, object, scope,
};
use text::{decimal, lemma_decimal_injective, to_decimal};

pub mod cmd;
pub mod laws;
pub mod scope;
pub mod text;
pub mod transcript;

verus! {

/// One line handed to a sink, with what became of it.
pub struct Attempt<E> {
    /// The text of the line, without its terminator.
    pub line: Seq<char>,
    /// `Ok` where the sink took the line, else the sink's error.
    pub outcome: Result<(), E>,
}

/// Anything that takes the stream line by line.
///
/// A sink remembers, for the proofs only, every line it was handed and
/// whether it took it.
pub trait Sink {
    /// What the sink answers when it cannot take a line.
    type Error;

    /// Every line handed over so far, oldest first.
    spec fn history(&self) -> Seq<Attempt<Self::Error>>;

    /// Whether the sink is known to take every line that it is handed from
    /// now on. Of a sink that writes to the outside nothing of the kind is
    /// known.
    spec fn willing(&self) -> bool;

    /// Whether the sink is known to refuse the next line that it is handed.
    spec fn refusing(&self) -> bool;

    /// Hands `line` to the sink, which appends it and a line terminator to
    /// whatever it writes to, or refuses it.
    fn write_line(&mut self, line: &str) -> (r: Result<(), Self::Error>)
        ensures
            final(self).history() == old(self).history().push(
                Attempt { line: line@, outcome: r },
            ),
            old(self).willing() ==> r is Ok && final(self).willing(),
            old(self).refusing() ==> r is Err,
    ;
}

/// Something that takes text line by line, and of which nothing more is
/// known: a file, a pipe, a buffer.
pub trait LineWriter {
    /// What the writer answers when it cannot take a line.
    type Error;

    /// Appends `line` and a line terminator to what was written so far.
    fn put(&mut self, line: &str) -> Result<(), Self::Error>;
}

/// The sink that hands every line on to a `LineWriter`.
pub struct Stream<W: LineWriter> {
    writer: W,
    seen: Ghost<Seq<Attempt<W::Error>>>,
}

impl<W: LineWriter> Stream<W> {
    /// The writer that the lines are handed on to.
    pub closed spec fn writer(&self) -> W {
        self.writer
    }

    /// A sink that writes to `writer` and has not been handed a line yet.
    pub fn new(writer: W) -> (stream: Self)
        ensures
            stream.writer() == writer,
            stream.history() == Seq::<Attempt<W::Error>>::empty(),
    {
        Stream { writer, seen: Ghost(Seq::empty()) }
    }

    /// The writer, as the lines handed on to it have left it.
    pub fn into_inner(self) -> (writer: W)
        ensures
            writer == self.writer(),
    {
        self.writer
    }
}

impl<W: LineWriter> Sink for Stream<W> {
    type Error = W::Error;

    closed spec fn history(&self) -> Seq<Attempt<W::Error>> {
        self.seen@
    }

    open spec fn willing(&self) -> bool {
        false
    }

    open spec fn refusing(&self) -> bool {
        false
    }

    fn write_line(&mut self, line: &str) -> (r: Result<(), W::Error>) {
        let r = self.writer.put(line);
        proof {
            self.seen@ = self.seen@.push(Attempt { line: line@, outcome: r });
        }
        r
    }
}

/// After the work inside a scope brought the sink's history to `inside`
/// and returned `inner`, one attempt at the line that leaves the scope
/// brought the history to `post`, and `r` is the error of that attempt
/// where it was refused, else `inner`.
pub open spec fn left<E>(
    inside: Seq<Attempt<E>>,
    inner: Result<(), E>,
    post: Seq<Attempt<E>>,
    r: Result<(), E>,
) -> bool {
    &&& post.len() == inside.len() + 1
    &&& post.drop_last() == inside
    &&& post.last().line == Command::Leave.line()
    &&& r == if post.last().outcome is Err {
        post.last().outcome
    } else {
        inner
    }
}

/// Closes the scope that is open when its work is done, however that work
/// ended.
pub struct ToParentDropGuard;

impl ToParentDropGuard {
    /// Calls `f` on the sink, then writes the line that leaves the current
    /// scope, whatever `f` returned. The result is the error of that line
    /// where the sink refused it, else the result of `f`. On a sink that
    /// takes every line, the call succeeds where `f` does.
    pub fn on<S: Sink, F: FnOnce(&mut S) -> Result<(), S::Error>>(sink: &mut S, f: F) -> (r: Result<
        (),
        S::Error,
    >)
        requires
            forall|s: &mut S| s.history() == old(sink).history() ==> call_requires(f, (s,)),
        ensures
            exists|s: &mut S, inner: Result<(), S::Error>|
                {
                    &&& *s == *old(sink)
                    &&& #[trigger] call_ensures(f, (s,), inner)
                    &&& left(final(s).history(), inner, final(sink).history(), r)
                },
            old(sink).willing() && (forall|s: &mut S, inner: Result<(), S::Error>|
                #[trigger] call_ensures(f, (s,), inner) && s.willing() ==> inner is Ok
                    && final(s).willing()) ==> r is Ok && final(sink).willing(),
    {
        let result = f(sink);
        let ghost inside = sink.history();
        let leave = Self.write(sink);
        assert(sink.history().drop_last() =~= inside);
        match leave {
            Ok(()) => result,
            Err(e) => Err(e),
        }
    }

    /// Writes the line that leaves the current scope.
    fn write<S: Sink>(&self, sink: &mut S) -> (r: Result<(), S::Error>)
        ensures
            final(sink).history() == old(sink).history().push(
                Attempt { line: Command::Leave.line(), outcome: r },
            ),
            old(sink).willing() ==> r is Ok && final(sink).willing(),
    {
        sink.write_line("To('..')")
    }
}

/// Writes an object the way every object of the stream is written: its
/// declaration, then its scope, inside which `f` writes `inner`.
pub(crate) fn write_object<S: Sink, F: FnOnce(&mut S) -> Result<(), S::Error>>(
    kind: &str,
    name: &str,
    sink: &mut S,
    f: F,
    Ghost(inner): Ghost<Seq<Command>>,
) -> (r: Result<(), S::Error>)
    requires
        forall|s: &mut S| call_requires(f, (s,)),
        forall|s: &mut S, inner_result: Result<(), S::Error>|
            call_ensures(f, (s,), inner_result) ==> emitted(
                s.history(),
                final(s).history(),
                inner,
                inner_result,
            ),
        forall|s: &mut S, inner: Result<(), S::Error>|
            #[trigger] call_ensures(f, (s,), inner) && s.willing() ==> inner is Ok
                    && final(s).willing(),
        depth(inner) == 0,
    ensures
        emitted(old(sink).history(), final(sink).history(), object(kind@, name@, inner), r),
        old(sink).willing() ==> r is Ok && final(sink).willing(),
{
    let ghost pre = sink.history();
    let ghost declared = seq![Command::Add { kind: kind@, name: name@ }];
    let added = Add(kind, name).write(sink);
    proof {
        if added is Err {
            lemma_emitted_stop(pre, sink.history(), declared, scope(name@, inner), added);
        } else {
            lemma_ok_is_unit(added);
        }
    }
    added?;
    let ghost mid = sink.history();
    let r = ToUnique(name).for_call(sink, f);
    proof {
        let post = sink.history();
        let enter = Command::Enter { name: name@ };
        lemma_depth_one(Command::Add { kind: kind@, name: name@ });
        if r is Err && post == mid.push(Attempt { line: enter.line(), outcome: r }) {
            lemma_emitted_one(mid, enter, r);
            lemma_emitted_stop(mid, post, seq![enter], inner + seq![Command::Leave], r);
            assert(seq![enter] + (inner + seq![Command::Leave]) =~= scope(name@, inner));
        } else {
            let (s, inner_result) = choose|s: &mut S, inner_result: Result<(), S::Error>|
                {
                    &&& s.history() == mid.push(Attempt { line: enter.line(), outcome: Ok(()) })
                    &&& #[trigger] call_ensures(f, (s,), inner_result)
                    &&& left(final(s).history(), inner_result, post, r)
                };
            lemma_emitted_scope(mid, final(s).history(), post, name@, inner, inner_result);
        }
        lemma_emitted_then(pre, mid, post, declared, scope(name@, inner), r);
    }
    r
}

/// A value that the interpreter has a word for.
pub trait AsVueszApi1ValueStr {
    /// The interpreter's word for the value.
    spec fn api1_value(&self) -> Seq<char>;

    /// The interpreter's word for the value.
    fn as_veusz_api1_value_str(&self) -> (s: &str)
        ensures
            s@ == self.api1_value(),
    ;
}

/// The interpreter's word for a value, where there is a value.
pub open spec fn value_of<T: AsVueszApi1ValueStr>(value: Option<T>) -> Option<Seq<char>> {
    match value {
        Some(v) => Some(v.api1_value()),
        None => None,
    }
}

impl AsVueszApi1ValueStr for bool {
    open spec fn api1_value(&self) -> Seq<char> {
        if *self {
            "True"@
        } else {
            "False"@
        }
    }

    fn as_veusz_api1_value_str(&self) -> (s: &str) {
        if *self {
            "True"
        } else {
            "False"
        }
    }
}

/// The kinds of object whose names are generated.
#[derive(Copy, Clone, PartialEq, Eq, Structural, Debug)]
pub enum Kind {
    Page,
    Graph,
    Grid,
    Xy,
    Label,
}

impl Kind {
    /// The interpreter's word for the kind, with which a generated name
    /// starts.
    pub open spec fn word(self) -> Seq<char> {
        match self {
            Kind::Page => "page"@,
            Kind::Graph => "graph"@,
            Kind::Grid => "grid"@,
            Kind::Xy => "xy"@,
            Kind::Label => "label"@,
        }
    }

    /// The interpreter's word for the kind.
    pub fn as_str(self) -> (s: &'static str)
        ensures
            s@ == self.word(),
    {
        match self {
            Kind::Page => "page",
            Kind::Graph => "graph",
            Kind::Grid => "grid",
            Kind::Xy => "xy",
            Kind::Label => "label",
        }
    }
}

/// The name generated for the object of `kind` with the number `n`.
pub open spec fn name_of(kind: Kind, n: nat) -> Seq<char> {
    kind.word() + decimal(n)
}

/// Objects of one kind with different numbers have different names.
pub proof fn lemma_names_differ(kind: Kind, i: nat, j: nat)
    requires
        i != j,
    ensures
        name_of(kind, i) != name_of(kind, j),
{
    if name_of(kind, i) == name_of(kind, j) {
        let w = kind.word().len() as int;
        assert(name_of(kind, i).skip(w) =~= decimal(i));
        assert(name_of(kind, j).skip(w) =~= decimal(j));
        lemma_decimal_injective(i, j);
    }
}

/// The number that a counter shows after it has gone on `steps` times from
/// `n`.
pub open spec fn counted(n: nat, steps: nat) -> nat
    decreases steps,
{
    if steps == 0 {
        n
    } else {
        AutoNameIncrement::following(counted(n, (steps - 1) as nat))
    }
}

/// As long as a counter has not passed the largest number that it holds,
/// it has gone up by one with every step.
pub proof fn lemma_counted(n: nat, steps: nat)
    requires
        n + steps <= u64::MAX,
    ensures
        counted(n, steps) == n + steps,
    decreases steps,
{
    if steps > 0 {
        lemma_counted(n, (steps - 1) as nat);
    }
}

/// The names that one counter hands out for a kind differ from each other,
/// as long as the counter has not passed the largest number that it
/// holds: the name handed out after `i` others is not the one handed out
/// after `j` others.
pub proof fn lemma_names_unique(kind: Kind, n: nat, i: nat, j: nat)
    requires
        i < j,
        n + j <= u64::MAX,
    ensures
        name_of(kind, counted(n, i)) != name_of(kind, counted(n, j)),
{
    lemma_counted(n, i);
    lemma_counted(n, j);
    lemma_names_differ(kind, n + i, n + j);
}

/// Hands out names: for each kind a counter that starts at 1 and goes up by
/// one with every name.
pub struct AutoNameIncrement {
    page: u64,
    graph: u64,
    grid: u64,
    xy: u64,
    label: u64,
}

impl AutoNameIncrement {
    /// The number that the next name of `kind` will carry.
    pub closed spec fn upcoming(&self, kind: Kind) -> nat {
        match kind {
            Kind::Page => self.page as nat,
            Kind::Graph => self.graph as nat,
            Kind::Grid => self.grid as nat,
            Kind::Xy => self.xy as nat,
            Kind::Label => self.label as nat,
        }
    }

    /// The number that follows `n`; after the largest number that the
    /// counter holds it starts again at 0.
    pub open spec fn following(n: nat) -> nat {
        if n >= u64::MAX {
            0
        } else {
            n + 1
        }
    }

    /// After a name of `kind` was handed out from the counters `before`,
    /// the counters are these: that of `kind` has gone on by one, the
    /// others are as they were.
    pub open spec fn follows(&self, before: Self, kind: Kind) -> bool {
        &&& self.upcoming(kind) == Self::following(before.upcoming(kind))
        &&& forall|other: Kind| other != kind ==> self.upcoming(other) == before.upcoming(other)
    }

    /// A new set of counters, all at 1.
    pub fn new() -> (names: Self)
        ensures
            forall|kind: Kind| names.upcoming(kind) == 1,
    {
        AutoNameIncrement { page: 1, graph: 1, grid: 1, xy: 1, label: 1 }
    }

    /// The next name for an object of `kind`: the kind's word and the
    /// number of its counter, which then goes up by one. The counters of
    /// the other kinds stay as they are.
    pub fn next(&mut self, kind: Kind) -> (name: String)
        ensures
            name@ == name_of(kind, old(self).upcoming(kind)),
            final(self).follows(*old(self), kind),
    {
        let number = match kind {
            Kind::Page => self.page,
            Kind::Graph => self.graph,
            Kind::Grid => self.grid,
            Kind::Xy => self.xy,
            Kind::Label => self.label,
        };
        let following = if number == u64::MAX {
            0
        } else {
            number + 1
        };
        match kind {
            Kind::Page => {
                self.page = following;
            },
            Kind::Graph => {
                self.graph = following;
            },
            Kind::Grid => {
                self.grid = following;
            },
            Kind::Xy => {
                self.xy = following;
            },
            Kind::Label => {
                self.label = following;
            },
        }
        let mut name = String::from_str(kind.as_str());
        name.append(to_decimal(number).as_str());
        name
    }
}

} // verus!
