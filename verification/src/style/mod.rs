//! How things are drawn: colours, lines, markers.

use vstd::prelude::*;
use crate::api1::cmd::{Command, SetRaw, SetText};
use crate::api1::scope::{
    all_balanced, balanced, concat, emitted, lemma_concat_balanced, lemma_concat_one,
    lemma_flat_parts, lemma_part, lemma_part_set, lemma_part_unset, lemma_parts_begin,
    lemma_parts_end, raw_setting, start_of,
};
use crate::api1::text::decimal;
use crate::api1::{AsVueszApi1ValueStr, Sink};
use crate::number::{text_of, Number};

pub mod line;
pub mod marker;
pub mod plot;

verus! {

/// The maps from values to colours that the interpreter knows.
#[derive(Copy, Clone, PartialEq, Eq, PartialOrd, Structural)]
pub enum ColorMap {
    Blank,
    Heat,
    Spectrum2,
    Spectrum2Step,
    Spectrum,
    Grey,
    Blue,
    Red,
    Green,
    BlueGreen,
    TransBlack,
    Royal,
    Complement,
    CoolWarm,
    GreenMagenta,
    BlueDarkred,
    BlueDarkorange,
    BrownBlue,
    BlueOrange,
    Sequential,
    HotDesaturated,
    YellowGreen,
    YellowGreenBlue,
    YellowOrangeBrown,
    YellowOrangeRed,
    NoMap,
    CubeHelix,
    BlueGreenStep,
    ComplementStep,
    GreyStep5,
    GreyStep6,
    RoyalStep,
    SpectrumStep,
    TransBlackStep5,
    GreenMagentaStep16,
    BlueDarkredStep12,
    BlueDarkOrangeStep12,
    BrownBlueStep12,
    BlueOrangeStep12,
    SeqStep25,
}

impl AsVueszApi1ValueStr for ColorMap {
    open spec fn api1_value(&self) -> Seq<char> {
        match self {
            ColorMap::Blank => "blank"@,
            ColorMap::Heat => "heat"@,
            ColorMap::Spectrum2 => "spectrum2"@,
            ColorMap::Spectrum2Step => "spectrum2-step"@,
            ColorMap::Spectrum => "spectrum"@,
            ColorMap::Grey => "grey"@,
            ColorMap::Blue => "blue"@,
            ColorMap::Red => "red"@,
            ColorMap::Green => "green"@,
            ColorMap::BlueGreen => "bluegreen"@,
            ColorMap::TransBlack => "transblack"@,
            ColorMap::Royal => "royal"@,
            ColorMap::Complement => "complement"@,
            ColorMap::CoolWarm => "cool-warm"@,
            ColorMap::GreenMagenta => "green-magenta"@,
            ColorMap::BlueDarkred => "blue-darkred"@,
            ColorMap::BlueDarkorange => "blue-darkorange"@,
            ColorMap::BrownBlue => "brown-blue"@,
            ColorMap::BlueOrange => "blue-orange"@,
            ColorMap::Sequential => "seq"@,
            ColorMap::HotDesaturated => "hot_desaturated"@,
            ColorMap::YellowGreen => "yellow-green"@,
            ColorMap::YellowGreenBlue => "yellow-green-blue"@,
            ColorMap::YellowOrangeBrown => "yellow-green-brown"@,
            ColorMap::YellowOrangeRed => "yellow-orange-red"@,
            ColorMap::NoMap => "none"@,
            ColorMap::CubeHelix => "cubehelix(0.5,-1.5,1,1)"@,
            ColorMap::BlueGreenStep => "bluegreen-step"@,
            ColorMap::ComplementStep => "complement-step"@,
            ColorMap::GreyStep5 => "grey-step5"@,
            ColorMap::GreyStep6 => "grey-step6"@,
            ColorMap::RoyalStep => "royal-step"@,
            ColorMap::SpectrumStep => "spectrum-step"@,
            ColorMap::TransBlackStep5 => "transblack-step5"@,
            ColorMap::GreenMagentaStep16 => "green-magenta-step16"@,
            ColorMap::BlueDarkredStep12 => "blue-darkred-step12"@,
            ColorMap::BlueDarkOrangeStep12 => "blue-darkorange-step12"@,
            ColorMap::BrownBlueStep12 => "brown-blue-step12"@,
            ColorMap::BlueOrangeStep12 => "blue-orange-step12"@,
            ColorMap::SeqStep25 => "seq-step25"@,
        }
    }

    fn as_veusz_api1_value_str(&self) -> (s: &str) {
        match self {
            ColorMap::Blank => "blank",
            ColorMap::Heat => "heat",
            ColorMap::Spectrum2 => "spectrum2",
            ColorMap::Spectrum2Step => "spectrum2-step",
            ColorMap::Spectrum => "spectrum",
            ColorMap::Grey => "grey",
            ColorMap::Blue => "blue",
            ColorMap::Red => "red",
            ColorMap::Green => "green",
            ColorMap::BlueGreen => "bluegreen",
            ColorMap::TransBlack => "transblack",
            ColorMap::Royal => "royal",
            ColorMap::Complement => "complement",
            ColorMap::CoolWarm => "cool-warm",
            ColorMap::GreenMagenta => "green-magenta",
            ColorMap::BlueDarkred => "blue-darkred",
            ColorMap::BlueDarkorange => "blue-darkorange",
            ColorMap::BrownBlue => "brown-blue",
            ColorMap::BlueOrange => "blue-orange",
            ColorMap::Sequential => "seq",
            ColorMap::HotDesaturated => "hot_desaturated",
            ColorMap::YellowGreen => "yellow-green",
            ColorMap::YellowGreenBlue => "yellow-green-blue",
            ColorMap::YellowOrangeBrown => "yellow-green-brown",
            ColorMap::YellowOrangeRed => "yellow-orange-red",
            ColorMap::NoMap => "none",
            ColorMap::CubeHelix => "cubehelix(0.5,-1.5,1,1)",
            ColorMap::BlueGreenStep => "bluegreen-step",
            ColorMap::ComplementStep => "complement-step",
            ColorMap::GreyStep5 => "grey-step5",
            ColorMap::GreyStep6 => "grey-step6",
            ColorMap::RoyalStep => "royal-step",
            ColorMap::SpectrumStep => "spectrum-step",
            ColorMap::TransBlackStep5 => "transblack-step5",
            ColorMap::GreenMagentaStep16 => "green-magenta-step16",
            ColorMap::BlueDarkredStep12 => "blue-darkred-step12",
            ColorMap::BlueDarkOrangeStep12 => "blue-darkorange-step12",
            ColorMap::BrownBlueStep12 => "brown-blue-step12",
            ColorMap::BlueOrangeStep12 => "blue-orange-step12",
            ColorMap::SeqStep25 => "seq-step25",
        }
    }
}

/// The colours that the interpreter knows by name.
#[derive(Copy, Clone, PartialEq, Eq, PartialOrd, Structural)]
pub enum ColorName {
    Auto,
    Foreground,
    Transparent,
    White,
    Black,
    Red,
    Green,
    Blue,
    Cyan,
    Magenta,
    Yellow,
    Grey,
    Darkred,
    Darkgreen,
    Darkblue,
    Darkcyan,
    Darkmagenta,
}

impl AsVueszApi1ValueStr for ColorName {
    open spec fn api1_value(&self) -> Seq<char> {
        match self {
            ColorName::Auto => "auto"@,
            ColorName::Foreground => "foreground"@,
            ColorName::Transparent => "transparent"@,
            ColorName::White => "white"@,
            ColorName::Black => "black"@,
            ColorName::Red => "red"@,
            ColorName::Green => "green"@,
            ColorName::Blue => "blue"@,
            ColorName::Cyan => "cyan"@,
            ColorName::Magenta => "magenta"@,
            ColorName::Yellow => "yellow"@,
            ColorName::Grey => "grey"@,
            ColorName::Darkred => "darkred"@,
            ColorName::Darkgreen => "darkgreen"@,
            ColorName::Darkblue => "darkblue"@,
            ColorName::Darkcyan => "darkcyan"@,
            ColorName::Darkmagenta => "darkmagenta"@,
        }
    }

    fn as_veusz_api1_value_str(&self) -> (s: &str) {
        match self {
            ColorName::Auto => "auto",
            ColorName::Foreground => "foreground",
            ColorName::Transparent => "transparent",
            ColorName::White => "white",
            ColorName::Black => "black",
            ColorName::Red => "red",
            ColorName::Green => "green",
            ColorName::Blue => "blue",
            ColorName::Cyan => "cyan",
            ColorName::Magenta => "magenta",
            ColorName::Yellow => "yellow",
            ColorName::Grey => "grey",
            ColorName::Darkred => "darkred",
            ColorName::Darkgreen => "darkgreen",
            ColorName::Darkblue => "darkblue",
            ColorName::Darkcyan => "darkcyan",
            ColorName::Darkmagenta => "darkmagenta",
        }
    }
}

/// A width in points, as the interpreter reads it, where there is a width.
pub open spec fn points(width: Option<Seq<char>>) -> Option<Seq<char>> {
    match width {
        Some(w) => Some(w + "pt"@),
        None => None,
    }
}

/// A small whole number in decimal, where there is a number.
pub open spec fn whole(n: Option<u8>) -> Option<Seq<char>> {
    match n {
        Some(n) => Some(decimal(n as nat)),
        None => None,
    }
}

/// The colours of the points of a series, taken from a data-set.
pub struct Color {
    points: String,
    min: Option<Number>,
    max: Option<Number>,
}

/// What a `Color` holds.
pub struct ColorView {
    /// The name of the data-set that gives each point its value.
    pub points: Seq<char>,
    /// The value that gets the first colour of the map, as a literal.
    pub min: Option<Seq<char>>,
    /// The value that gets the last colour of the map, as a literal.
    pub max: Option<Seq<char>>,
}

impl ColorView {
    /// The settings that a `Color` is written as, field by field: for
    /// each field at most one line, and none where the field is not set.
    pub open spec fn parts(self) -> Seq<Seq<Command>> {
        seq![
            seq![Command::SetText { property: "Color/points"@, value: self.points }],
            raw_setting("Color/min"@, self.min),
            raw_setting("Color/max"@, self.max),
        ]
    }

    /// The settings that a `Color` is written as, in the order of the
    /// fields.
    pub open spec fn commands(self) -> Seq<Command> {
        concat(self.parts())
    }

    /// Each field is written as settings only.
    pub proof fn lemma_parts_balanced(self)
        ensures
            all_balanced(self.parts()),
    {
        lemma_flat_parts(self.parts());
    }

    /// A `Color` is written as a balanced run of lines.
    pub proof fn lemma_balanced(self)
        ensures
            balanced(self.commands()),
    {
        self.lemma_parts_balanced();
        lemma_concat_balanced(self.parts());
    }

    /// A `Color` with neither bound set is written as the one line that
    /// names the data-set.
    pub proof fn lemma_nothing_set(self)
        requires
            self.min is None,
            self.max is None,
        ensures
            self.commands() == seq![
                Command::SetText { property: "Color/points"@, value: self.points },
            ],
    {
        lemma_part_unset(self.parts(), 2);
        lemma_part_unset(self.parts().remove(2), 1);
        assert(self.parts().remove(2).remove(1) =~= seq![self.parts()[0]]);
        lemma_concat_one(self.parts()[0]);
    }

    /// Setting the value that gets the first colour, where that is not set,
    /// puts the one line that sets it at its place among the lines, and changes
    /// no other line.
    pub proof fn lemma_min_line(self, min: Seq<char>)
        requires
            self.min is None,
        ensures
            (ColorView {
                min: Some(min),
                ..self
            }).commands() == self.commands().insert(
                start_of(self.parts(), 1),
                Command::SetRaw { property: "Color/min"@, literal: min },
            ),
    {
        let set = ColorView { min: Some(min), ..self };
        let line = Command::SetRaw { property: "Color/min"@, literal: min };
        assert(set.parts() =~= self.parts().update(1, seq![line]));
        lemma_part_set(self.parts(), 1, line);
    }

    /// Setting the value that gets the last colour, where that is not set, puts
    /// the one line that sets it at its place among the lines, and changes no
    /// other line.
    pub proof fn lemma_max_line(self, max: Seq<char>)
        requires
            self.max is None,
        ensures
            (ColorView {
                max: Some(max),
                ..self
            }).commands() == self.commands().insert(
                start_of(self.parts(), 2),
                Command::SetRaw { property: "Color/max"@, literal: max },
            ),
    {
        let set = ColorView { max: Some(max), ..self };
        let line = Command::SetRaw { property: "Color/max"@, literal: max };
        assert(set.parts() =~= self.parts().update(2, seq![line]));
        lemma_part_set(self.parts(), 2, line);
    }
}

impl View for Color {
    type V = ColorView;

    closed spec fn view(&self) -> ColorView {
        ColorView { points: self.points@, min: text_of(self.min), max: text_of(self.max) }
    }
}

impl Color {
    /// Colours by the values of the data-set `points`.
    pub fn points(points: &str) -> (color: Self)
        ensures
            color@ == (ColorView { points: points@, min: None, max: None }),
    {
        Self { points: points.to_owned(), min: None, max: None }
    }

    /// Sets the value that gets the first colour of the map.
    pub fn set_min(&mut self, min: Number)
        ensures
            final(self)@ == (ColorView { min: Some(min@), ..old(self)@ }),
    {
        self.min = Some(min);
    }

    /// The same colours with `min` for the value that gets the first
    /// colour of the map.
    pub fn with_min(self, min: Number) -> (color: Self)
        ensures
            color@ == (ColorView { min: Some(min@), ..self@ }),
    {
        let mut color = self;
        color.set_min(min);
        color
    }

    /// Sets the value that gets the last colour of the map.
    pub fn set_max(&mut self, max: Number)
        ensures
            final(self)@ == (ColorView { max: Some(max@), ..old(self)@ }),
    {
        self.max = Some(max);
    }

    /// The same colours with `max` for the value that gets the last colour
    /// of the map.
    pub fn with_max(self, max: Number) -> (color: Self)
        ensures
            color@ == (ColorView { max: Some(max@), ..self@ }),
    {
        let mut color = self;
        color.set_max(max);
        color
    }

    /// Writes the settings into the scope that is open.
    pub fn write<S: Sink>(&self, sink: &mut S) -> (r: Result<(), S::Error>)
        ensures
            emitted(old(sink).history(), final(sink).history(), self@.commands(), r),
            old(sink).willing() ==> r is Ok && final(sink).willing(),
    {
        let ghost pre = sink.history();
        let ghost parts = self@.parts();
        proof {
            self@.lemma_parts_balanced();
            lemma_parts_begin(pre, parts);
        }

        let ghost mid = sink.history();
        let r = SetText("Color/points", self.points.as_str()).write(sink);
        proof {
            lemma_part(pre, mid, sink.history(), parts, 0, r);
        }
        r?;

        let ghost mid = sink.history();
        let mut r: Result<(), S::Error> = Ok(());
        if let Some(min) = &self.min {
            r = SetRaw("Color/min", min.as_str()).write(sink);
        }
        proof {
            lemma_part(pre, mid, sink.history(), parts, 1, r);
        }
        r?;

        let ghost mid = sink.history();
        let mut r: Result<(), S::Error> = Ok(());
        if let Some(max) = &self.max {
            r = SetRaw("Color/max", max.as_str()).write(sink);
        }
        proof {
            lemma_part(pre, mid, sink.history(), parts, 2, r);
        }
        r?;

        proof {
            lemma_parts_end(parts);
        }
        Ok(())
    }
}

} // verus!
