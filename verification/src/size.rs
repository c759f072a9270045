//! Lengths on paper.

use vstd::prelude::*;
use crate::number::Number;

verus! {

/// A length with its unit.
pub enum SizeUnit {
    Centimeter(Number),
}

/// What a `SizeUnit` holds: the number as a literal, and the unit.
pub enum SizeUnitView {
    Centimeter(Seq<char>),
}

impl SizeUnitView {
    /// The length as the interpreter reads it.
    pub open spec fn text(self) -> Seq<char> {
        match self {
            SizeUnitView::Centimeter(value) => value + " cm"@,
        }
    }
}

impl View for SizeUnit {
    type V = SizeUnitView;

    open spec fn view(&self) -> SizeUnitView {
        match self {
            SizeUnit::Centimeter(value) => SizeUnitView::Centimeter(value@),
        }
    }
}

/// The text of a length, where there is a length.
pub open spec fn size_text(size: Option<SizeUnitView>) -> Option<Seq<char>> {
    match size {
        Some(s) => Some(s.text()),
        None => None,
    }
}

/// What a length holds, where there is a length.
pub open spec fn size_view(size: Option<SizeUnit>) -> Option<SizeUnitView> {
    match size {
        Some(s) => Some(s@),
        None => None,
    }
}

impl SizeUnit {
    /// The length as the interpreter reads it: the number, a space, the
    /// unit.
    pub fn to_string(&self) -> (s: String)
        ensures
            s@ == self@.text(),
    {
        match self {
            SizeUnit::Centimeter(value) => {
                let mut s = String::from_str(value.as_str());
                s.append(" cm");
                s
            },
        }
    }
}

} // verus!
