//! Data-sets: named lists of values for the series to draw.

use vstd::prelude::*;
use crate::api1::cmd::{Command, SetData};
use crate::api1::scope::emitted;
use crate::api1::text::{join, joined, texts};
use crate::api1::Sink;

verus! {

/// A named list of values.
pub struct Data {
    name: String,
    value: String,
}

/// What a `Data` holds.
pub struct DataView {
    /// The name under which the series find the values.
    pub name: Seq<char>,
    /// The values as literals, in their order, with a comma and a space
    /// between each two.
    pub value: Seq<char>,
}

impl DataView {
    /// The line that binds the values to the name.
    pub open spec fn command(self) -> Command {
        Command::SetData { name: self.name, values: self.value }
    }

    /// The lines that a data-set is written as: the one.
    pub open spec fn commands(self) -> Seq<Command> {
        seq![self.command()]
    }
}

impl View for Data {
    type V = DataView;

    closed spec fn view(&self) -> DataView {
        DataView { name: self.name@, value: self.value@ }
    }
}

impl Data {
    /// The data-set named `name` that holds the values whose literals are
    /// `data`, in their order.
    pub fn new(name: &str, data: Vec<String>) -> (set: Self)
        ensures
            set@ == (DataView { name: name@, value: joined(texts(data@), ", "@) }),
    {
        Data { name: name.to_owned(), value: join(&data, ", ") }
    }

    /// Writes the line that binds the values to the name.
    pub fn write<S: Sink>(&self, sink: &mut S) -> (r: Result<(), S::Error>)
        ensures
            emitted(old(sink).history(), final(sink).history(), self@.commands(), r),
            old(sink).willing() ==> r is Ok && final(sink).willing(),
    {
        SetData(self.name.as_str(), self.value.as_str()).write(sink)
    }
}

} // verus!
