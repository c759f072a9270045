//! Numbers as the interpreter reads them.

use vstd::prelude::*;
use crate::api1::text::{join, joined, texts};

verus! {

/// A number, held as the literal that stands for it in the stream.
///
/// The text is written to the stream as it is: the interpreter on the
/// other side decides what it makes of it.
pub struct Number {
    text: String,
}

impl View for Number {
    type V = Seq<char>;

    closed spec fn view(&self) -> Seq<char> {
        self.text@
    }
}

/// The literal of a number, where there is a number.
pub open spec fn text_of(number: Option<Number>) -> Option<Seq<char>> {
    match number {
        Some(n) => Some(n@),
        None => None,
    }
}

/// The literals of `numbers`.
pub open spec fn literals(numbers: Seq<Number>) -> Seq<Seq<char>> {
    numbers.map_values(|n: Number| n@)
}

impl Number {
    /// The number that `text` denotes.
    pub fn new(text: &str) -> (n: Number)
        ensures
            n@ == text@,
    {
        Number { text: text.to_owned() }
    }

    /// The literal.
    pub fn as_str(&self) -> (s: &str)
        ensures
            s@ == self@,
    {
        self.text.as_str()
    }
}

/// Joins the literals of `numbers`, with `separator` between each two.
pub fn join_numbers(numbers: &Vec<Number>, separator: &str) -> (s: String)
    ensures
        s@ == joined(literals(numbers@), separator@),
{
    let mut items: Vec<String> = Vec::new();
    let mut i: usize = 0;
    while i < numbers.len()
        invariant
            i <= numbers.len(),
            texts(items@) == literals(numbers@).take(i as int),
        decreases numbers.len() - i,
    {
        let ghost before = items@;
        items.push(numbers[i].as_str().to_owned());
        assert(texts(items@) =~= literals(numbers@).take(i + 1)) by {
            assert(texts(items@) =~= texts(before).push(numbers@[i as int]@));
        }
        i += 1;
    }
    assert(literals(numbers@).take(i as int) =~= literals(numbers@));
    join(&items, separator)
}

} // verus!
