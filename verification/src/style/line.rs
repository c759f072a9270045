//! The dash patterns of lines.

use vstd::prelude::*;
use crate::api1::AsVueszApi1ValueStr;

verus! {

/// The dash pattern of a line.
#[derive(Copy, Clone, PartialEq, Eq, PartialOrd, Structural)]
pub enum LineStyle {
    Solid,
    Dashed,
    Dotted,
    DashDot,
    DashDotDot,
    DottedFine,
    DashedFine,
    DashDotFine,
    Dot1,
    Dot2,
    Dot3,
    Dot4,
    Dash1,
    Dash2,
    Dash3,
    Dash4,
    Dash5,
    DashDot1,
    DashDot2,
    DashDot3,
}

impl AsVueszApi1ValueStr for LineStyle {
    open spec fn api1_value(&self) -> Seq<char> {
        match self {
            LineStyle::Solid => "solid"@,
            LineStyle::Dashed => "dashed"@,
            LineStyle::Dotted => "dotted"@,
            LineStyle::DashDot => "dash-dot"@,
            LineStyle::DashDotDot => "dash-dot-dot"@,
            LineStyle::DottedFine => "dotted-fine"@,
            LineStyle::DashedFine => "dashed-fine"@,
            LineStyle::DashDotFine => "dash-dot-fine"@,
            LineStyle::Dot1 => "dot1"@,
            LineStyle::Dot2 => "dot2"@,
            LineStyle::Dot3 => "dot3"@,
            LineStyle::Dot4 => "dot4"@,
            LineStyle::Dash1 => "dash1"@,
            LineStyle::Dash2 => "dash2"@,
            LineStyle::Dash3 => "dash3"@,
            LineStyle::Dash4 => "dash4"@,
            LineStyle::Dash5 => "dash5"@,
            LineStyle::DashDot1 => "dashdot1"@,
            LineStyle::DashDot2 => "dashdot2"@,
            LineStyle::DashDot3 => "dashdot3"@,
        }
    }

    fn as_veusz_api1_value_str(&self) -> (s: &str) {
        match self {
            LineStyle::Solid => "solid",
            LineStyle::Dashed => "dashed",
            LineStyle::Dotted => "dotted",
            LineStyle::DashDot => "dash-dot",
            LineStyle::DashDotDot => "dash-dot-dot",
            LineStyle::DottedFine => "dotted-fine",
            LineStyle::DashedFine => "dashed-fine",
            LineStyle::DashDotFine => "dash-dot-fine",
            LineStyle::Dot1 => "dot1",
            LineStyle::Dot2 => "dot2",
            LineStyle::Dot3 => "dot3",
            LineStyle::Dot4 => "dot4",
            LineStyle::Dash1 => "dash1",
            LineStyle::Dash2 => "dash2",
            LineStyle::Dash3 => "dash3",
            LineStyle::Dash4 => "dash4",
            LineStyle::Dash5 => "dash5",
            LineStyle::DashDot1 => "dashdot1",
            LineStyle::DashDot2 => "dashdot2",
            LineStyle::DashDot3 => "dashdot3",
        }
    }
}

} // verus!
