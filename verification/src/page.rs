//! Pages and what stands on them: graphs with their axes and series,
//! grids, and labels.

use vstd::prelude::*;
use crate::api1::cmd::{Command, SetData, SetRaw, SetText};
use crate::api1::scope::{
    all_balanced, balanced, concat, emitted, flat, lemma_concat_balanced, lemma_concat_one,
    lemma_concat_push, lemma_flat_balanced, lemma_flat_parts, lemma_object_balanced,
    lemma_object_insert, lemma_part, lemma_part_place, lemma_part_set, lemma_part_unset,
    lemma_parts_begin, lemma_parts_end, lemma_parts_in_order, object, raw_setting, start_of,
    text_setting,
};
use crate::api1::text::{decimal, joined, to_decimal};
use crate::api1::{
    name_of, value_of, write_object, AsVueszApi1ValueStr, Attempt, AutoNameIncrement, Kind, Sink,
};
use crate::number::{join_numbers, literals, text_of, Number};
use crate::size::{size_text, size_view, SizeUnit, SizeUnitView};
use crate::style::marker::{Marker, MarkerFill, MarkerFillView, MarkerLine, MarkerLineView};
use crate::style::plot::{PlotLine, PlotLineView};
use crate::style::{Color, ColorView};

verus! {

/// The way an axis runs.
#[derive(Copy, Clone, PartialEq, Eq, PartialOrd, Structural)]
pub enum AxisDirection {
    Vertical,
    Horizontal,
}

impl AsVueszApi1ValueStr for AxisDirection {
    open spec fn api1_value(&self) -> Seq<char> {
        match self {
            AxisDirection::Vertical => "vertical"@,
            AxisDirection::Horizontal => "horizontal"@,
        }
    }

    fn as_veusz_api1_value_str(&self) -> (s: &str) {
        match self {
            AxisDirection::Vertical => "vertical",
            AxisDirection::Horizontal => "horizontal",
        }
    }
}

/// Where a label stands against its position.
#[derive(Copy, Clone, PartialEq, Eq, Structural)]
pub enum Alignment {
    Top,
    Bottom,
    Left,
    Right,
    Center,
}

impl Alignment {
    /// The interpreter's word for the alignment.
    pub fn as_str(&self) -> (s: &'static str)
        ensures
            s@ == self.api1_value(),
    {
        match self {
            Alignment::Top => "top",
            Alignment::Bottom => "bottom",
            Alignment::Left => "left",
            Alignment::Right => "right",
            Alignment::Center => "centre",
        }
    }
}

impl AsVueszApi1ValueStr for Alignment {
    open spec fn api1_value(&self) -> Seq<char> {
        match self {
            Alignment::Top => "top"@,
            Alignment::Bottom => "bottom"@,
            Alignment::Left => "left"@,
            Alignment::Right => "right"@,
            Alignment::Center => "centre"@,
        }
    }

    fn as_veusz_api1_value_str(&self) -> (s: &str) {
        self.as_str()
    }
}

/// What the positions of a label are measured against.
#[derive(Copy, Clone, PartialEq, Eq, Structural)]
pub enum Positioning {
    Relative,
    Axes,
}

impl Positioning {
    /// The interpreter's word for the way of positioning.
    pub fn as_str(&self) -> (s: &'static str)
        ensures
            s@ == self.api1_value(),
    {
        match self {
            Positioning::Relative => "relative",
            Positioning::Axes => "axes",
        }
    }
}

impl AsVueszApi1ValueStr for Positioning {
    open spec fn api1_value(&self) -> Seq<char> {
        match self {
            Positioning::Relative => "relative"@,
            Positioning::Axes => "axes"@,
        }
    }

    fn as_veusz_api1_value_str(&self) -> (s: &str) {
        self.as_str()
    }
}

/// The size of text.
pub enum TextSize {
    Pt(Number),
}

/// What a `TextSize` holds: the number as a literal, and the unit.
pub enum TextSizeView {
    Pt(Seq<char>),
}

impl TextSizeView {
    /// The size as the interpreter reads it.
    pub open spec fn text(self) -> Seq<char> {
        match self {
            TextSizeView::Pt(pt) => pt + "pt"@,
        }
    }
}

impl View for TextSize {
    type V = TextSizeView;

    open spec fn view(&self) -> TextSizeView {
        match self {
            TextSize::Pt(pt) => TextSizeView::Pt(pt@),
        }
    }
}

impl TextSize {
    /// The size as the interpreter reads it: the number, then the unit.
    pub fn to_string(&self) -> (s: String)
        ensures
            s@ == self@.text(),
    {
        match self {
            TextSize::Pt(pt) => {
                let mut s = String::from_str(pt.as_str());
                s.append("pt");
                s
            },
        }
    }
}

/// How the text of a label is set.
pub struct TextConfig {
    size: Option<TextSize>,
}

/// What a `TextConfig` holds.
pub struct TextConfigView {
    pub size: Option<TextSizeView>,
}

impl View for TextConfig {
    type V = TextConfigView;

    closed spec fn view(&self) -> TextConfigView {
        TextConfigView {
            size: match self.size {
                Some(size) => Some(size@),
                None => None,
            },
        }
    }
}

impl Default for TextConfig {
    /// A `TextConfig` with nothing set.
    fn default() -> (config: Self)
        ensures
            config@ == (TextConfigView { size: None }),
    {
        Self { size: None }
    }
}

impl From<TextSize> for TextConfig {
    /// A `TextConfig` that sets the size of the text, and nothing else.
    fn from(value: TextSize) -> (config: Self)
        ensures
            config@ == (TextConfigView { size: Some(value@) }),
    {
        Self { size: Some(value) }
    }
}

impl vstd::std_specs::convert::FromSpecImpl<TextSize> for TextConfig {
    open spec fn obeys_from_spec() -> bool {
        true
    }

    closed spec fn from_spec(value: TextSize) -> Self {
        Self { size: Some(value) }
    }
}

/// The size that a `TextConfig` asks for, as the interpreter reads it,
/// where it asks for one.
pub open spec fn text_size(config: Option<TextConfigView>) -> Option<Seq<char>> {
    match config {
        Some(TextConfigView { size: Some(size) }) => Some(size.text()),
        _ => None,
    }
}

/// What a `TextConfig` holds, where there is one.
pub open spec fn text_config_view(config: Option<TextConfig>) -> Option<TextConfigView> {
    match config {
        Some(c) => Some(c@),
        None => None,
    }
}

/// An axis of a graph.
pub struct Axis {
    name: String,
    label: String,
    direction: Option<AxisDirection>,
    min: Option<Number>,
    max: Option<Number>,
}

/// What an `Axis` holds.
pub struct AxisView {
    /// The name, under which the series of the graph find the axis.
    pub name: Seq<char>,
    /// The text written along the axis.
    pub label: Seq<char>,
    /// The way the axis runs, where that is not left to the interpreter.
    pub direction: Option<AxisDirection>,
    /// The value at which the axis starts, as a literal.
    pub min: Option<Seq<char>>,
    /// The value at which the axis ends, as a literal.
    pub max: Option<Seq<char>>,
}

impl AxisView {
    /// What is written inside the scope of an axis, field by field: the
    /// label, and for each of the other fields at most one line, and none
    /// where the field is not set.
    pub open spec fn parts(self) -> Seq<Seq<Command>> {
        seq![
            seq![Command::SetText { property: "label"@, value: self.label }],
            text_setting("direction"@, value_of(self.direction)),
            raw_setting("min"@, self.min),
            raw_setting("max"@, self.max),
        ]
    }

    /// The lines that an axis is written as.
    pub open spec fn commands(self) -> Seq<Command> {
        object("axis"@, self.name, concat(self.parts()))
    }

    /// Each field is written as settings only.
    pub proof fn lemma_parts_balanced(self)
        ensures
            all_balanced(self.parts()),
    {
        lemma_flat_parts(self.parts());
    }

    /// An axis is written as a balanced run of lines.
    pub proof fn lemma_balanced(self)
        ensures
            balanced(self.commands()),
    {
        self.lemma_parts_balanced();
        lemma_concat_balanced(self.parts());
        lemma_object_balanced("axis"@, self.name, concat(self.parts()));
    }

    /// An axis with no direction and no bound set is written as its
    /// declaration and, inside its scope, the one line that sets its label.
    pub proof fn lemma_nothing_set(self)
        requires
            self.direction is None,
            self.min is None,
            self.max is None,
        ensures
            self.commands() == object(
                "axis"@,
                self.name,
                seq![Command::SetText { property: "label"@, value: self.label }],
            ),
    {
        lemma_part_unset(self.parts(), 3);
        lemma_part_unset(self.parts().remove(3), 2);
        lemma_part_unset(self.parts().remove(3).remove(2), 1);
        assert(self.parts().remove(3).remove(2).remove(1) =~= seq![self.parts()[0]]);
        lemma_concat_one(self.parts()[0]);
    }

    /// Setting the direction of an axis, where that is not set, puts the one
    /// line that sets it at its place among the lines, and changes no other
    /// line.
    pub proof fn lemma_direction_line(self, direction: AxisDirection)
        requires
            self.direction is None,
        ensures
            (AxisView {
                direction: Some(direction),
                ..self
            }).commands() == self.commands().insert(
                start_of(self.parts(), 1) + 2,
                Command::SetText { property: "direction"@, value: direction.api1_value() },
            ),
    {
        let set = AxisView { direction: Some(direction), ..self };
        let line = Command::SetText { property: "direction"@, value: direction.api1_value() };
        assert(set.parts() =~= self.parts().update(1, seq![line]));
        lemma_part_set(self.parts(), 1, line);
        lemma_object_insert(
            "axis"@,
            self.name,
            concat(self.parts()),
            start_of(self.parts(), 1),
            line,
        );
    }

    /// Setting the value at which an axis starts, where that is not set, puts
    /// the one line that sets it at its place among the lines, and changes no
    /// other line.
    pub proof fn lemma_min_line(self, min: Seq<char>)
        requires
            self.min is None,
        ensures
            (AxisView {
                min: Some(min),
                ..self
            }).commands() == self.commands().insert(
                start_of(self.parts(), 2) + 2,
                Command::SetRaw { property: "min"@, literal: min },
            ),
    {
        let set = AxisView { min: Some(min), ..self };
        let line = Command::SetRaw { property: "min"@, literal: min };
        assert(set.parts() =~= self.parts().update(2, seq![line]));
        lemma_part_set(self.parts(), 2, line);
        lemma_object_insert(
            "axis"@,
            self.name,
            concat(self.parts()),
            start_of(self.parts(), 2),
            line,
        );
    }

    /// Setting the value at which an axis ends, where that is not set, puts the
    /// one line that sets it at its place among the lines, and changes no other
    /// line.
    pub proof fn lemma_max_line(self, max: Seq<char>)
        requires
            self.max is None,
        ensures
            (AxisView {
                max: Some(max),
                ..self
            }).commands() == self.commands().insert(
                start_of(self.parts(), 3) + 2,
                Command::SetRaw { property: "max"@, literal: max },
            ),
    {
        let set = AxisView { max: Some(max), ..self };
        let line = Command::SetRaw { property: "max"@, literal: max };
        assert(set.parts() =~= self.parts().update(3, seq![line]));
        lemma_part_set(self.parts(), 3, line);
        lemma_object_insert(
            "axis"@,
            self.name,
            concat(self.parts()),
            start_of(self.parts(), 3),
            line,
        );
    }
}

impl View for Axis {
    type V = AxisView;

    closed spec fn view(&self) -> AxisView {
        AxisView {
            name: self.name@,
            label: self.label@,
            direction: self.direction,
            min: text_of(self.min),
            max: text_of(self.max),
        }
    }
}

impl Axis {
    /// The axis named `x`, with the text `label` along it.
    pub fn x(label: &str) -> (axis: Self)
        ensures
            axis@ == (AxisView {
                name: "x"@,
                label: label@,
                direction: None,
                min: None,
                max: None,
            }),
    {
        Self {
            name: String::from_str("x"),
            label: label.to_owned(),
            direction: None,
            min: None,
            max: None,
        }
    }

    /// The axis named `y`, with the text `label` along it.
    pub fn y(label: &str) -> (axis: Self)
        ensures
            axis@ == (AxisView {
                name: "y"@,
                label: label@,
                direction: None,
                min: None,
                max: None,
            }),
    {
        Self {
            name: String::from_str("y"),
            label: label.to_owned(),
            direction: None,
            min: None,
            max: None,
        }
    }

    /// The same axis, running the way `direction` says.
    pub fn with_direction(self, direction: AxisDirection) -> (axis: Self)
        ensures
            axis@ == (AxisView { direction: Some(direction), ..self@ }),
    {
        let mut axis = self;
        axis.direction = Some(direction);
        axis
    }

    /// The same axis, starting at `min`, or where the interpreter sees fit
    /// if `min` is `None`.
    pub fn with_min(self, min: Option<Number>) -> (axis: Self)
        ensures
            axis@ == (AxisView { min: text_of(min), ..self@ }),
    {
        let mut axis = self;
        axis.min = min;
        axis
    }

    /// The same axis, ending at `max`, or where the interpreter sees fit if
    /// `max` is `None`.
    pub fn with_max(self, max: Option<Number>) -> (axis: Self)
        ensures
            axis@ == (AxisView { max: text_of(max), ..self@ }),
    {
        let mut axis = self;
        axis.max = max;
        axis
    }

    /// Writes the axis: its declaration, then its settings inside its
    /// scope.
    pub fn write<S: Sink>(&self, sink: &mut S) -> (r: Result<(), S::Error>)
        ensures
            emitted(old(sink).history(), final(sink).history(), self@.commands(), r),
            old(sink).willing() ==> r is Ok && final(sink).willing(),
    {
        let ghost parts = self@.parts();
        proof {
            self@.lemma_parts_balanced();
            lemma_concat_balanced(parts);
        }
        let f = |s: &mut S| -> (r: Result<(), S::Error>)
            ensures
                emitted(old(s).history(), final(s).history(), concat(parts), r),
                old(s).willing() ==> r is Ok && final(s).willing(),
            {
                let ghost pre = s.history();
                proof {
                    lemma_parts_begin(pre, parts);
                }

                let ghost mid = s.history();
                let r = SetText("label", self.label.as_str()).write(s);
                proof {
                    lemma_part(pre, mid, s.history(), parts, 0, r);
                }
                r?;

                let ghost mid = s.history();
                let mut r: Result<(), S::Error> = Ok(());
                if let Some(direction) = &self.direction {
                    r = SetText("direction", direction.as_veusz_api1_value_str()).write(s);
                }
                proof {
                    lemma_part(pre, mid, s.history(), parts, 1, r);
                }
                r?;

                let ghost mid = s.history();
                let mut r: Result<(), S::Error> = Ok(());
                if let Some(min) = &self.min {
                    r = SetRaw("min", min.as_str()).write(s);
                }
                proof {
                    lemma_part(pre, mid, s.history(), parts, 2, r);
                }
                r?;

                let ghost mid = s.history();
                let mut r: Result<(), S::Error> = Ok(());
                if let Some(max) = &self.max {
                    r = SetRaw("max", max.as_str()).write(s);
                }
                proof {
                    lemma_part(pre, mid, s.history(), parts, 3, r);
                }
                r?;

                proof {
                    lemma_parts_end(parts);
                }
                Ok(())
            };
        write_object("axis", self.name.as_str(), sink, f, Ghost(concat(parts)))
    }
}

/// A series of points, drawn from two data-sets.
pub struct Xy {
    name: String,
    color: Option<Color>,
    marker: Option<Marker>,
    marker_line: Option<MarkerLine>,
    marker_fill: Option<MarkerFill>,
    plot_line: Option<PlotLine>,
    x_data: String,
    y_data: String,
}

/// What an `Xy` holds.
pub struct XyView {
    /// The name of the series.
    pub name: Seq<char>,
    /// The colours of the points.
    pub color: Option<ColorView>,
    /// The shape of the markers.
    pub marker: Option<Marker>,
    /// The outline of the markers.
    pub marker_line: Option<MarkerLineView>,
    /// The filling of the markers.
    pub marker_fill: Option<MarkerFillView>,
    /// The line that joins the points.
    pub plot_line: Option<PlotLineView>,
    /// The name of the data-set with the horizontal positions.
    pub x_data: Seq<char>,
    /// The name of the data-set with the vertical positions.
    pub y_data: Seq<char>,
}

/// What a `Color` holds, where there is one.
pub open spec fn color_view(value: Option<Color>) -> Option<ColorView> {
    match value {
        Some(v) => Some(v@),
        None => None,
    }
}

/// What a `MarkerLine` holds, where there is one.
pub open spec fn marker_line_view(value: Option<MarkerLine>) -> Option<MarkerLineView> {
    match value {
        Some(v) => Some(v@),
        None => None,
    }
}

/// What a `MarkerFill` holds, where there is one.
pub open spec fn marker_fill_view(value: Option<MarkerFill>) -> Option<MarkerFillView> {
    match value {
        Some(v) => Some(v@),
        None => None,
    }
}

/// What a `PlotLine` holds, where there is one.
pub open spec fn plot_line_view(value: Option<PlotLine>) -> Option<PlotLineView> {
    match value {
        Some(v) => Some(v@),
        None => None,
    }
}

impl XyView {
    /// The settings of the colours, where they are set.
    pub open spec fn color_part(self) -> Seq<Command> {
        match self.color {
            Some(color) => color.commands(),
            None => Seq::empty(),
        }
    }

    /// The settings of the outline of the markers, where it is set.
    pub open spec fn marker_line_part(self) -> Seq<Command> {
        match self.marker_line {
            Some(line) => line.commands(),
            None => Seq::empty(),
        }
    }

    /// The settings of the filling of the markers, where it is set.
    pub open spec fn marker_fill_part(self) -> Seq<Command> {
        match self.marker_fill {
            Some(fill) => fill.commands(),
            None => Seq::empty(),
        }
    }

    /// The settings of the line that joins the points, where it is set.
    pub open spec fn plot_line_part(self) -> Seq<Command> {
        match self.plot_line {
            Some(line) => line.commands(),
            None => Seq::empty(),
        }
    }

    /// What is written inside the scope of a series, field by field: the
    /// shape of the markers, the colours, the outline and the filling of
    /// the markers and the joining line, each where it is set, then the two
    /// data-sets.
    pub open spec fn parts(self) -> Seq<Seq<Command>> {
        seq![
            text_setting("marker"@, value_of(self.marker)),
            self.color_part(),
            self.marker_line_part(),
            self.marker_fill_part(),
            self.plot_line_part(),
            seq![Command::SetText { property: "xData"@, value: self.x_data }],
            seq![Command::SetText { property: "yData"@, value: self.y_data }],
        ]
    }

    /// The lines that a series is written as.
    pub open spec fn commands(self) -> Seq<Command> {
        object("xy"@, self.name, concat(self.parts()))
    }

    /// Each field is written as settings only.
    pub proof fn lemma_parts_balanced(self)
        ensures
            all_balanced(self.parts()),
    {
        if let Some(color) = self.color {
            color.lemma_balanced();
        }
        if let Some(line) = self.marker_line {
            line.lemma_balanced();
        }
        if let Some(fill) = self.marker_fill {
            fill.lemma_balanced();
        }
        if let Some(line) = self.plot_line {
            line.lemma_balanced();
        }
        let parts = self.parts();
        assert forall|i: int| 0 <= i < parts.len() implies balanced(#[trigger] parts[i]) by {
            if i == 0 || i >= 5 || parts[i].len() == 0 {
                assert(flat(parts[i]));
                lemma_flat_balanced(parts[i]);
            }
        }
    }

    /// A series is written as a balanced run of lines.
    pub proof fn lemma_balanced(self)
        ensures
            balanced(self.commands()),
    {
        self.lemma_parts_balanced();
        lemma_concat_balanced(self.parts());
        lemma_object_balanced("xy"@, self.name, concat(self.parts()));
    }

    /// A series with nothing set but its data-sets is written as its
    /// declaration and, inside its scope, the two lines that name the
    /// data-sets.
    pub proof fn lemma_nothing_set(self)
        requires
            self.marker is None,
            self.color is None,
            self.marker_line is None,
            self.marker_fill is None,
            self.plot_line is None,
        ensures
            self.commands() == object(
                "xy"@,
                self.name,
                seq![
                    Command::SetText { property: "xData"@, value: self.x_data },
                    Command::SetText { property: "yData"@, value: self.y_data },
                ],
            ),
    {
        let parts = self.parts();
        lemma_part_unset(parts, 4);
        lemma_part_unset(parts.remove(4), 3);
        lemma_part_unset(parts.remove(4).remove(3), 2);
        lemma_part_unset(parts.remove(4).remove(3).remove(2), 1);
        lemma_part_unset(parts.remove(4).remove(3).remove(2).remove(1), 0);
        let rest = seq![parts[5], parts[6]];
        assert(parts.remove(4).remove(3).remove(2).remove(1).remove(0) =~= rest);
        assert(rest =~= seq![parts[5]].push(parts[6]));
        lemma_concat_push(seq![parts[5]], parts[6]);
        lemma_concat_one(parts[5]);
        assert(concat(rest) =~= seq![
            Command::SetText { property: "xData"@, value: self.x_data },
            Command::SetText { property: "yData"@, value: self.y_data },
        ]);
    }

    /// Setting the shape of the markers of a series, where that is not set,
    /// puts the one line that sets it at its place among the lines, and changes
    /// no other line.
    pub proof fn lemma_marker_line(self, marker: Marker)
        requires
            self.marker is None,
        ensures
            (XyView {
                marker: Some(marker),
                ..self
            }).commands() == self.commands().insert(
                start_of(self.parts(), 0) + 2,
                Command::SetText { property: "marker"@, value: marker.api1_value() },
            ),
    {
        let set = XyView { marker: Some(marker), ..self };
        let line = Command::SetText { property: "marker"@, value: marker.api1_value() };
        assert(set.parts() =~= self.parts().update(0, seq![line]));
        lemma_part_set(self.parts(), 0, line);
        lemma_object_insert(
            "xy"@,
            self.name,
            concat(self.parts()),
            start_of(self.parts(), 0),
            line,
        );
    }
}

impl View for Xy {
    type V = XyView;

    closed spec fn view(&self) -> XyView {
        XyView {
            name: self.name@,
            color: color_view(self.color),
            marker: self.marker,
            marker_line: marker_line_view(self.marker_line),
            marker_fill: marker_fill_view(self.marker_fill),
            plot_line: plot_line_view(self.plot_line),
            x_data: self.x_data@,
            y_data: self.y_data@,
        }
    }
}

impl Xy {
    /// A series of the points whose horizontal positions are in the
    /// data-set `x_data` and whose vertical positions are in `y_data`, with
    /// the next name that `names` has for a series, and nothing else set.
    pub fn data(names: &mut AutoNameIncrement, x_data: &str, y_data: &str) -> (xy: Self)
        ensures
            xy@ == (XyView {
                name: name_of(Kind::Xy, old(names).upcoming(Kind::Xy)),
                color: None,
                marker: None,
                marker_line: None,
                marker_fill: None,
                plot_line: None,
                x_data: x_data@,
                y_data: y_data@,
            }),
            final(names).follows(*old(names), Kind::Xy),
    {
        Self {
            name: names.next(Kind::Xy),
            color: None,
            marker: None,
            marker_line: None,
            marker_fill: None,
            plot_line: None,
            x_data: x_data.to_owned(),
            y_data: y_data.to_owned(),
        }
    }

    /// Sets the colours of the points.
    pub fn set_color(&mut self, color: Color)
        ensures
            final(self)@ == (XyView { color: Some(color@), ..old(self)@ }),
    {
        self.color = Some(color);
    }

    /// The same series with the colours `color`.
    pub fn with_color(self, color: Color) -> (xy: Self)
        ensures
            xy@ == (XyView { color: Some(color@), ..self@ }),
    {
        let mut xy = self;
        xy.set_color(color);
        xy
    }

    /// Sets the shape of the markers.
    pub fn set_marker(&mut self, marker: Marker)
        ensures
            final(self)@ == (XyView { marker: Some(marker), ..old(self)@ }),
    {
        self.marker = Some(marker);
    }

    /// The same series with markers of the shape `marker`.
    pub fn with_marker(self, marker: Marker) -> (xy: Self)
        ensures
            xy@ == (XyView { marker: Some(marker), ..self@ }),
    {
        let mut xy = self;
        xy.set_marker(marker);
        xy
    }

    /// Sets how the outline of the markers is drawn.
    pub fn set_marker_line(&mut self, marker_line: MarkerLine)
        ensures
            final(self)@ == (XyView { marker_line: Some(marker_line@), ..old(self)@ }),
    {
        self.marker_line = Some(marker_line);
    }

    /// The same series with `marker_line` for the outline of the markers.
    pub fn with_marker_line(self, marker_line: MarkerLine) -> (xy: Self)
        ensures
            xy@ == (XyView { marker_line: Some(marker_line@), ..self@ }),
    {
        let mut xy = self;
        xy.set_marker_line(marker_line);
        xy
    }

    /// Sets how the markers are filled.
    pub fn set_marker_fill(&mut self, marker_fill: MarkerFill)
        ensures
            final(self)@ == (XyView { marker_fill: Some(marker_fill@), ..old(self)@ }),
    {
        self.marker_fill = Some(marker_fill);
    }

    /// The same series with `marker_fill` for the filling of the markers.
    pub fn with_marker_fill(self, marker_fill: MarkerFill) -> (xy: Self)
        ensures
            xy@ == (XyView { marker_fill: Some(marker_fill@), ..self@ }),
    {
        let mut xy = self;
        xy.set_marker_fill(marker_fill);
        xy
    }

    /// Sets how the line that joins the points is drawn.
    pub fn set_plot_line(&mut self, plot_line: PlotLine)
        ensures
            final(self)@ == (XyView { plot_line: Some(plot_line@), ..old(self)@ }),
    {
        self.plot_line = Some(plot_line);
    }

    /// The same series with `plot_line` for the line that joins the points.
    pub fn with_plot_line(self, plot_line: PlotLine) -> (xy: Self)
        ensures
            xy@ == (XyView { plot_line: Some(plot_line@), ..self@ }),
    {
        let mut xy = self;
        xy.set_plot_line(plot_line);
        xy
    }

    /// Writes the series: its declaration, then its settings inside its
    /// scope.
    pub fn write<S: Sink>(&self, sink: &mut S) -> (r: Result<(), S::Error>)
        ensures
            emitted(old(sink).history(), final(sink).history(), self@.commands(), r),
            old(sink).willing() ==> r is Ok && final(sink).willing(),
    {
        let ghost parts = self@.parts();
        proof {
            self@.lemma_parts_balanced();
            lemma_concat_balanced(parts);
        }
        let f = |s: &mut S| -> (r: Result<(), S::Error>)
            ensures
                emitted(old(s).history(), final(s).history(), concat(parts), r),
                old(s).willing() ==> r is Ok && final(s).willing(),
            {
                let ghost pre = s.history();
                proof {
                    lemma_parts_begin(pre, parts);
                }

                let ghost mid = s.history();
                let mut r: Result<(), S::Error> = Ok(());
                if let Some(marker) = &self.marker {
                    r = SetText("marker", marker.as_veusz_api1_value_str()).write(s);
                }
                proof {
                    lemma_part(pre, mid, s.history(), parts, 0, r);
                }
                r?;

                let ghost mid = s.history();
                let mut r: Result<(), S::Error> = Ok(());
                if let Some(color) = &self.color {
                    r = color.write(s);
                }
                proof {
                    lemma_part(pre, mid, s.history(), parts, 1, r);
                }
                r?;

                let ghost mid = s.history();
                let mut r: Result<(), S::Error> = Ok(());
                if let Some(marker_line) = &self.marker_line {
                    r = marker_line.write(s);
                }
                proof {
                    lemma_part(pre, mid, s.history(), parts, 2, r);
                }
                r?;

                let ghost mid = s.history();
                let mut r: Result<(), S::Error> = Ok(());
                if let Some(marker_fill) = &self.marker_fill {
                    r = marker_fill.write(s);
                }
                proof {
                    lemma_part(pre, mid, s.history(), parts, 3, r);
                }
                r?;

                let ghost mid = s.history();
                let mut r: Result<(), S::Error> = Ok(());
                if let Some(plot_line) = &self.plot_line {
                    r = plot_line.write(s);
                }
                proof {
                    lemma_part(pre, mid, s.history(), parts, 4, r);
                }
                r?;

                let ghost mid = s.history();
                let r = SetText("xData", self.x_data.as_str()).write(s);
                proof {
                    lemma_part(pre, mid, s.history(), parts, 5, r);
                }
                r?;

                let ghost mid = s.history();
                let r = SetText("yData", self.y_data.as_str()).write(s);
                proof {
                    lemma_part(pre, mid, s.history(), parts, 6, r);
                }
                r?;

                proof {
                    lemma_parts_end(parts);
                }
                Ok(())
            };
        write_object("xy", self.name.as_str(), sink, f, Ghost(concat(parts)))
    }
}

/// A piece of text on a page or in a graph.
pub struct Label {
    name: String,
    text: String,
    x_positions: Vec<Number>,
    y_positions: Vec<Number>,
    align_horizontal: Option<Alignment>,
    align_vertical: Option<Alignment>,
    positioning: Option<Positioning>,
    text_config: Option<TextConfig>,
}

/// What a `Label` holds.
pub struct LabelView {
    /// The name of the label.
    pub name: Seq<char>,
    /// The text.
    pub text: Seq<char>,
    /// The horizontal positions at which the text stands, as literals.
    pub x_positions: Seq<Seq<char>>,
    /// The vertical positions at which the text stands, as literals.
    pub y_positions: Seq<Seq<char>>,
    /// Where the text stands against its position, from left to right.
    pub align_horizontal: Option<Alignment>,
    /// Where the text stands against its position, from top to bottom.
    pub align_vertical: Option<Alignment>,
    /// What the positions are measured against.
    pub positioning: Option<Positioning>,
    /// How the text is set.
    pub text_config: Option<TextConfigView>,
}

/// The line that binds `positions` to `name`, where there are positions.
pub open spec fn positions_part(name: Seq<char>, positions: Seq<Seq<char>>) -> Seq<Command> {
    if positions.len() == 0 {
        Seq::empty()
    } else {
        seq![Command::SetData { name, values: joined(positions, ", "@) }]
    }
}

impl LabelView {
    /// What is written inside the scope of a label, field by field: the
    /// text, the positions where there are any, and for each of the other
    /// fields at most one line, and none where the field is not set.
    pub open spec fn parts(self) -> Seq<Seq<Command>> {
        seq![
            seq![Command::SetText { property: "label"@, value: self.text }],
            positions_part("xPos"@, self.x_positions),
            positions_part("yPos"@, self.y_positions),
            text_setting("alignHorz"@, value_of(self.align_horizontal)),
            text_setting("alignVert"@, value_of(self.align_vertical)),
            text_setting("positioning"@, value_of(self.positioning)),
            text_setting("Text/size"@, text_size(self.text_config)),
        ]
    }

    /// The lines that a label is written as.
    pub open spec fn commands(self) -> Seq<Command> {
        object("label"@, self.name, concat(self.parts()))
    }

    /// Each field is written as settings and bindings only.
    pub proof fn lemma_parts_balanced(self)
        ensures
            all_balanced(self.parts()),
    {
        lemma_flat_parts(self.parts());
    }

    /// A label is written as a balanced run of lines.
    pub proof fn lemma_balanced(self)
        ensures
            balanced(self.commands()),
    {
        self.lemma_parts_balanced();
        lemma_concat_balanced(self.parts());
        lemma_object_balanced("label"@, self.name, concat(self.parts()));
    }

    /// A label with nothing set but its text is written as its declaration
    /// and, inside its scope, the one line that sets the text.
    pub proof fn lemma_nothing_set(self)
        requires
            self.x_positions.len() == 0,
            self.y_positions.len() == 0,
            self.align_horizontal is None,
            self.align_vertical is None,
            self.positioning is None,
            text_size(self.text_config) is None,
        ensures
            self.commands() == object(
                "label"@,
                self.name,
                seq![Command::SetText { property: "label"@, value: self.text }],
            ),
    {
        let parts = self.parts();
        lemma_part_unset(parts, 6);
        lemma_part_unset(parts.remove(6), 5);
        lemma_part_unset(parts.remove(6).remove(5), 4);
        lemma_part_unset(parts.remove(6).remove(5).remove(4), 3);
        lemma_part_unset(parts.remove(6).remove(5).remove(4).remove(3), 2);
        lemma_part_unset(parts.remove(6).remove(5).remove(4).remove(3).remove(2), 1);
        assert(parts.remove(6).remove(5).remove(4).remove(3).remove(2).remove(1) =~= seq![
            parts[0],
        ]);
        lemma_concat_one(parts[0]);
    }

    /// Setting the horizontal positions of a label, where that is not set, puts
    /// the one line that sets it at its place among the lines, and changes no
    /// other line.
    pub proof fn lemma_x_positions_line(self, positions: Seq<Seq<char>>)
        requires
            self.x_positions.len() == 0,
            positions.len() > 0,
        ensures
            (LabelView {
                x_positions: positions,
                ..self
            }).commands() == self.commands().insert(
                start_of(self.parts(), 1) + 2,
                Command::SetData { name: "xPos"@, values: joined(positions, ", "@) },
            ),
    {
        let set = LabelView { x_positions: positions, ..self };
        let line = Command::SetData { name: "xPos"@, values: joined(positions, ", "@) };
        assert(set.parts() =~= self.parts().update(1, seq![line]));
        lemma_part_set(self.parts(), 1, line);
        lemma_object_insert(
            "label"@,
            self.name,
            concat(self.parts()),
            start_of(self.parts(), 1),
            line,
        );
    }

    /// Setting the vertical positions of a label, where that is not set, puts
    /// the one line that sets it at its place among the lines, and changes no
    /// other line.
    pub proof fn lemma_y_positions_line(self, positions: Seq<Seq<char>>)
        requires
            self.y_positions.len() == 0,
            positions.len() > 0,
        ensures
            (LabelView {
                y_positions: positions,
                ..self
            }).commands() == self.commands().insert(
                start_of(self.parts(), 2) + 2,
                Command::SetData { name: "yPos"@, values: joined(positions, ", "@) },
            ),
    {
        let set = LabelView { y_positions: positions, ..self };
        let line = Command::SetData { name: "yPos"@, values: joined(positions, ", "@) };
        assert(set.parts() =~= self.parts().update(2, seq![line]));
        lemma_part_set(self.parts(), 2, line);
        lemma_object_insert(
            "label"@,
            self.name,
            concat(self.parts()),
            start_of(self.parts(), 2),
            line,
        );
    }

    /// Setting where a label stands from left to right, where that is not set,
    /// puts the one line that sets it at its place among the lines, and changes
    /// no other line.
    pub proof fn lemma_align_horizontal_line(self, alignment: Alignment)
        requires
            self.align_horizontal is None,
        ensures
            (LabelView {
                align_horizontal: Some(alignment),
                ..self
            }).commands() == self.commands().insert(
                start_of(self.parts(), 3) + 2,
                Command::SetText { property: "alignHorz"@, value: alignment.api1_value() },
            ),
    {
        let set = LabelView { align_horizontal: Some(alignment), ..self };
        let line = Command::SetText { property: "alignHorz"@, value: alignment.api1_value() };
        assert(set.parts() =~= self.parts().update(3, seq![line]));
        lemma_part_set(self.parts(), 3, line);
        lemma_object_insert(
            "label"@,
            self.name,
            concat(self.parts()),
            start_of(self.parts(), 3),
            line,
        );
    }

    /// Setting where a label stands from top to bottom, where that is not set,
    /// puts the one line that sets it at its place among the lines, and changes
    /// no other line.
    pub proof fn lemma_align_vertical_line(self, alignment: Alignment)
        requires
            self.align_vertical is None,
        ensures
            (LabelView {
                align_vertical: Some(alignment),
                ..self
            }).commands() == self.commands().insert(
                start_of(self.parts(), 4) + 2,
                Command::SetText { property: "alignVert"@, value: alignment.api1_value() },
            ),
    {
        let set = LabelView { align_vertical: Some(alignment), ..self };
        let line = Command::SetText { property: "alignVert"@, value: alignment.api1_value() };
        assert(set.parts() =~= self.parts().update(4, seq![line]));
        lemma_part_set(self.parts(), 4, line);
        lemma_object_insert(
            "label"@,
            self.name,
            concat(self.parts()),
            start_of(self.parts(), 4),
            line,
        );
    }

    /// Setting what the positions of a label are measured against, where that
    /// is not set, puts the one line that sets it at its place among the lines,
    /// and changes no other line.
    pub proof fn lemma_positioning_line(self, positioning: Positioning)
        requires
            self.positioning is None,
        ensures
            (LabelView {
                positioning: Some(positioning),
                ..self
            }).commands() == self.commands().insert(
                start_of(self.parts(), 5) + 2,
                Command::SetText {
                    property: "positioning"@,
                    value: positioning.api1_value(),
                },
            ),
    {
        let set = LabelView { positioning: Some(positioning), ..self };
        let line =
            Command::SetText {
                    property: "positioning"@,
                    value: positioning.api1_value(),
                };
        assert(set.parts() =~= self.parts().update(5, seq![line]));
        lemma_part_set(self.parts(), 5, line);
        lemma_object_insert(
            "label"@,
            self.name,
            concat(self.parts()),
            start_of(self.parts(), 5),
            line,
        );
    }

    /// Setting the size of the text of a label, where that is not set, puts the
    /// one line that sets it at its place among the lines, and changes no other
    /// line.
    pub proof fn lemma_text_config_line(self, size: TextSizeView)
        requires
            text_size(self.text_config) is None,
        ensures
            (LabelView {
                text_config: Some(TextConfigView { size: Some(size) }),
                ..self
            }).commands() == self.commands().insert(
                start_of(self.parts(), 6) + 2,
                Command::SetText { property: "Text/size"@, value: size.text() },
            ),
    {
        let set = LabelView { text_config: Some(TextConfigView { size: Some(size) }), ..self };
        let line = Command::SetText { property: "Text/size"@, value: size.text() };
        assert(set.parts() =~= self.parts().update(6, seq![line]));
        lemma_part_set(self.parts(), 6, line);
        lemma_object_insert(
            "label"@,
            self.name,
            concat(self.parts()),
            start_of(self.parts(), 6),
            line,
        );
    }
}

impl View for Label {
    type V = LabelView;

    closed spec fn view(&self) -> LabelView {
        LabelView {
            name: self.name@,
            text: self.text@,
            x_positions: literals(self.x_positions@),
            y_positions: literals(self.y_positions@),
            align_horizontal: self.align_horizontal,
            align_vertical: self.align_vertical,
            positioning: self.positioning,
            text_config: text_config_view(self.text_config),
        }
    }
}

impl Label {
    /// A label with the text `text`, the next name that `names` has for a
    /// label, and nothing else set.
    pub fn new(names: &mut AutoNameIncrement, text: &str) -> (label: Self)
        ensures
            label@ == (LabelView {
                name: name_of(Kind::Label, old(names).upcoming(Kind::Label)),
                text: text@,
                x_positions: Seq::empty(),
                y_positions: Seq::empty(),
                align_horizontal: None,
                align_vertical: None,
                positioning: None,
                text_config: None,
            }),
            final(names).follows(*old(names), Kind::Label),
    {
        let label = Self {
            name: names.next(Kind::Label),
            text: text.to_owned(),
            x_positions: Vec::new(),
            y_positions: Vec::new(),
            align_horizontal: None,
            align_vertical: None,
            positioning: None,
            text_config: None,
        };
        assert(label@.x_positions =~= Seq::empty());
        assert(label@.y_positions =~= Seq::empty());
        label
    }

    /// Sets the horizontal positions at which the text stands.
    pub fn set_x_positions(&mut self, positions: Vec<Number>)
        ensures
            final(self)@ == (LabelView { x_positions: literals(positions@), ..old(self)@ }),
    {
        self.x_positions = positions;
    }

    /// The same label, standing at the horizontal positions `positions`.
    pub fn with_x_positions(self, positions: Vec<Number>) -> (label: Self)
        ensures
            label@ == (LabelView { x_positions: literals(positions@), ..self@ }),
    {
        let mut label = self;
        label.set_x_positions(positions);
        label
    }

    /// Sets the vertical positions at which the text stands.
    pub fn set_y_positions(&mut self, positions: Vec<Number>)
        ensures
            final(self)@ == (LabelView { y_positions: literals(positions@), ..old(self)@ }),
    {
        self.y_positions = positions;
    }

    /// The same label, standing at the vertical positions `positions`.
    pub fn with_y_positions(self, positions: Vec<Number>) -> (label: Self)
        ensures
            label@ == (LabelView { y_positions: literals(positions@), ..self@ }),
    {
        let mut label = self;
        label.set_y_positions(positions);
        label
    }

    /// Sets where the text stands against its position, from left to
    /// right.
    pub fn set_align_horizontal(&mut self, alignment: Alignment)
        ensures
            final(self)@ == (LabelView { align_horizontal: Some(alignment), ..old(self)@ }),
    {
        self.align_horizontal = Some(alignment);
    }

    /// The same label with `alignment` for where the text stands against
    /// its position, from left to right.
    pub fn with_alignment_horizontal(self, alignment: Alignment) -> (label: Self)
        ensures
            label@ == (LabelView { align_horizontal: Some(alignment), ..self@ }),
    {
        let mut label = self;
        label.set_align_horizontal(alignment);
        label
    }

    /// Sets where the text stands against its position, from top to
    /// bottom.
    pub fn set_align_vertical(&mut self, alignment: Alignment)
        ensures
            final(self)@ == (LabelView { align_vertical: Some(alignment), ..old(self)@ }),
    {
        self.align_vertical = Some(alignment);
    }

    /// The same label with `alignment` for where the text stands against
    /// its position, from top to bottom.
    pub fn with_alignment_vertical(self, alignment: Alignment) -> (label: Self)
        ensures
            label@ == (LabelView { align_vertical: Some(alignment), ..self@ }),
    {
        let mut label = self;
        label.set_align_vertical(alignment);
        label
    }

    /// Sets how the text is set.
    pub fn set_text_config(&mut self, text_config: TextConfig)
        ensures
            final(self)@ == (LabelView { text_config: Some(text_config@), ..old(self)@ }),
    {
        self.text_config = Some(text_config);
    }

    /// The same label with its text set as `text_config` says.
    pub fn with_text_config(self, text_config: TextConfig) -> (label: Self)
        ensures
            label@ == (LabelView { text_config: Some(text_config@), ..self@ }),
    {
        let mut label = self;
        label.set_text_config(text_config);
        label
    }

    /// Sets what the positions are measured against.
    pub fn set_positioning(&mut self, positioning: Positioning)
        ensures
            final(self)@ == (LabelView { positioning: Some(positioning), ..old(self)@ }),
    {
        self.positioning = Some(positioning);
    }

    /// The same label with its positions measured against `positioning`.
    pub fn with_positioning(self, positioning: Positioning) -> (label: Self)
        ensures
            label@ == (LabelView { positioning: Some(positioning), ..self@ }),
    {
        let mut label = self;
        label.set_positioning(positioning);
        label
    }

    /// Writes the label: its declaration, then its settings inside its
    /// scope.
    pub fn write<S: Sink>(&self, sink: &mut S) -> (r: Result<(), S::Error>)
        ensures
            emitted(old(sink).history(), final(sink).history(), self@.commands(), r),
            old(sink).willing() ==> r is Ok && final(sink).willing(),
    {
        let ghost parts = self@.parts();
        proof {
            self@.lemma_parts_balanced();
            lemma_concat_balanced(parts);
        }
        let f = |s: &mut S| -> (r: Result<(), S::Error>)
            ensures
                emitted(old(s).history(), final(s).history(), concat(parts), r),
                old(s).willing() ==> r is Ok && final(s).willing(),
            {
                let ghost pre = s.history();
                proof {
                    lemma_parts_begin(pre, parts);
                }

                let ghost mid = s.history();
                let r = SetText("label", self.text.as_str()).write(s);
                proof {
                    lemma_part(pre, mid, s.history(), parts, 0, r);
                }
                r?;

                let ghost mid = s.history();
                let mut r: Result<(), S::Error> = Ok(());
                if !self.x_positions.is_empty() {
                    r = SetData("xPos", join_numbers(&self.x_positions, ", ").as_str()).write(s);
                }
                proof {
                    lemma_part(pre, mid, s.history(), parts, 1, r);
                }
                r?;

                let ghost mid = s.history();
                let mut r: Result<(), S::Error> = Ok(());
                if !self.y_positions.is_empty() {
                    r = SetData("yPos", join_numbers(&self.y_positions, ", ").as_str()).write(s);
                }
                proof {
                    lemma_part(pre, mid, s.history(), parts, 2, r);
                }
                r?;

                let ghost mid = s.history();
                let mut r: Result<(), S::Error> = Ok(());
                if let Some(alignment) = &self.align_horizontal {
                    r = SetText("alignHorz", alignment.as_str()).write(s);
                }
                proof {
                    lemma_part(pre, mid, s.history(), parts, 3, r);
                }
                r?;

                let ghost mid = s.history();
                let mut r: Result<(), S::Error> = Ok(());
                if let Some(alignment) = &self.align_vertical {
                    r = SetText("alignVert", alignment.as_str()).write(s);
                }
                proof {
                    lemma_part(pre, mid, s.history(), parts, 4, r);
                }
                r?;

                let ghost mid = s.history();
                let mut r: Result<(), S::Error> = Ok(());
                if let Some(positioning) = &self.positioning {
                    r = SetText("positioning", positioning.as_str()).write(s);
                }
                proof {
                    lemma_part(pre, mid, s.history(), parts, 5, r);
                }
                r?;

                let ghost mid = s.history();
                let mut r: Result<(), S::Error> = Ok(());
                if let Some(text_config) = &self.text_config {
                    if let Some(size) = &text_config.size {
                        r = SetText("Text/size", size.to_string().as_str()).write(s);
                    }
                }
                proof {
                    lemma_part(pre, mid, s.history(), parts, 6, r);
                }
                r?;

                proof {
                    lemma_parts_end(parts);
                }
                Ok(())
            };
        write_object("label", self.name.as_str(), sink, f, Ghost(concat(parts)))
    }
}

/// The ratio of the width of a graph to its height.
pub enum AspectRatio {
    /// Whatever fits.
    Auto,
    /// The given ratio.
    Fix(Number),
}

/// What an `AspectRatio` holds: the ratio as a literal, where it is fixed.
pub enum AspectRatioView {
    Auto,
    Fix(Seq<char>),
}

impl AspectRatioView {
    /// The line that sets the ratio.
    pub open spec fn command(self) -> Command {
        match self {
            AspectRatioView::Auto => Command::SetText { property: "aspect"@, value: "Auto"@ },
            AspectRatioView::Fix(value) => Command::SetRaw {
                property: "aspect"@,
                literal: value,
            },
        }
    }
}

impl View for AspectRatio {
    type V = AspectRatioView;

    open spec fn view(&self) -> AspectRatioView {
        match self {
            AspectRatio::Auto => AspectRatioView::Auto,
            AspectRatio::Fix(value) => AspectRatioView::Fix(value@),
        }
    }
}

impl From<Number> for AspectRatio {
    /// The fixed ratio `value`.
    fn from(value: Number) -> (aspect: Self)
        ensures
            aspect == AspectRatio::Fix(value),
    {
        AspectRatio::Fix(value)
    }
}

impl vstd::std_specs::convert::FromSpecImpl<Number> for AspectRatio {
    open spec fn obeys_from_spec() -> bool {
        true
    }

    open spec fn from_spec(value: Number) -> Self {
        AspectRatio::Fix(value)
    }
}

/// What an `AspectRatio` holds, where there is one.
pub open spec fn aspect_view(aspect: Option<AspectRatio>) -> Option<AspectRatioView> {
    match aspect {
        Some(a) => Some(a@),
        None => None,
    }
}

/// A graph: axes, and series drawn against them.
pub struct Graph {
    name: String,
    aspect: Option<AspectRatio>,
    axes: Vec<Axis>,
    xy_data: Vec<Xy>,
}

/// What a `Graph` holds.
pub struct GraphView {
    /// The name of the graph.
    pub name: Seq<char>,
    /// The ratio of width to height.
    pub aspect: Option<AspectRatioView>,
    /// The axes, in the order in which they were added.
    pub axes: Seq<AxisView>,
    /// The series, in the order in which they were added.
    pub xy_data: Seq<XyView>,
}

/// What each of `axes` holds.
pub open spec fn axis_views(axes: Seq<Axis>) -> Seq<AxisView> {
    axes.map_values(|a: Axis| a@)
}

/// What each of `series` holds.
pub open spec fn xy_views(series: Seq<Xy>) -> Seq<XyView> {
    series.map_values(|xy: Xy| xy@)
}

/// The lines of each of `axes`.
pub open spec fn axis_parts(axes: Seq<AxisView>) -> Seq<Seq<Command>> {
    axes.map_values(|a: AxisView| a.commands())
}

/// The lines of each of `series`.
pub open spec fn xy_parts(series: Seq<XyView>) -> Seq<Seq<Command>> {
    series.map_values(|xy: XyView| xy.commands())
}

impl GraphView {
    /// The line that sets the ratio of width to height, where it is set.
    pub open spec fn aspect_part(self) -> Seq<Command> {
        match self.aspect {
            Some(aspect) => seq![aspect.command()],
            None => Seq::empty(),
        }
    }

    /// What is written inside the scope of a graph, piece by piece: the
    /// ratio of width to height where it is set, then each axis, then each
    /// series, in the order in which they were added.
    pub open spec fn parts(self) -> Seq<Seq<Command>> {
        seq![self.aspect_part()] + axis_parts(self.axes) + xy_parts(self.xy_data)
    }

    /// The lines that a graph is written as.
    pub open spec fn commands(self) -> Seq<Command> {
        object("graph"@, self.name, concat(self.parts()))
    }

    /// Each piece is balanced.
    pub proof fn lemma_parts_balanced(self)
        ensures
            all_balanced(self.parts()),
    {
        let parts = self.parts();
        assert forall|i: int| 0 <= i < parts.len() implies balanced(#[trigger] parts[i]) by {
            if i == 0 {
                assert(flat(parts[i]));
                lemma_flat_balanced(parts[i]);
            } else if i < 1 + self.axes.len() {
                self.axes[i - 1].lemma_balanced();
            } else {
                self.xy_data[i - 1 - self.axes.len()].lemma_balanced();
            }
        }
    }

    /// A graph is written as a balanced run of lines.
    pub proof fn lemma_balanced(self)
        ensures
            balanced(self.commands()),
    {
        self.lemma_parts_balanced();
        lemma_concat_balanced(self.parts());
        lemma_object_balanced("graph"@, self.name, concat(self.parts()));
    }

    /// In a graph whose ratio of width to height is not set, nothing is
    /// written inside the scope but the axes and the series.
    pub proof fn lemma_nothing_set(self)
        requires
            self.aspect is None,
        ensures
            self.commands() == object(
                "graph"@,
                self.name,
                concat(axis_parts(self.axes) + xy_parts(self.xy_data)),
            ),
    {
        lemma_part_unset(self.parts(), 0);
        assert(self.parts().remove(0) =~= axis_parts(self.axes) + xy_parts(self.xy_data));
    }

    /// Setting the ratio of width to height of a graph, where that is not set,
    /// puts the one line that sets it at its place among the lines, and changes
    /// no other line.
    pub proof fn lemma_aspect_line(self, aspect: AspectRatioView)
        requires
            self.aspect is None,
        ensures
            (GraphView {
                aspect: Some(aspect),
                ..self
            }).commands() == self.commands().insert(
                start_of(self.parts(), 0) + 2,
                aspect.command(),
            ),
    {
        let set = GraphView { aspect: Some(aspect), ..self };
        let line = aspect.command();
        assert(set.parts() =~= self.parts().update(0, seq![line]));
        lemma_part_set(self.parts(), 0, line);
        lemma_object_insert(
            "graph"@,
            self.name,
            concat(self.parts()),
            start_of(self.parts(), 0),
            line,
        );
    }
}

impl View for Graph {
    type V = GraphView;

    closed spec fn view(&self) -> GraphView {
        GraphView {
            name: self.name@,
            aspect: aspect_view(self.aspect),
            axes: axis_views(self.axes@),
            xy_data: xy_views(self.xy_data@),
        }
    }
}

impl Graph {
    /// A graph with the next name that `names` has for a graph, and
    /// nothing in it.
    pub fn new(names: &mut AutoNameIncrement) -> (graph: Self)
        ensures
            graph@ == (GraphView {
                name: name_of(Kind::Graph, old(names).upcoming(Kind::Graph)),
                aspect: None,
                axes: Seq::empty(),
                xy_data: Seq::empty(),
            }),
            final(names).follows(*old(names), Kind::Graph),
    {
        let graph = Self {
            name: names.next(Kind::Graph),
            aspect: None,
            axes: Vec::new(),
            xy_data: Vec::new(),
        };
        assert(graph@.axes =~= Seq::empty());
        assert(graph@.xy_data =~= Seq::empty());
        graph
    }

    /// Sets the ratio of width to height.
    pub fn set_aspect<A: Into<AspectRatio>>(&mut self, aspect: A)
        ensures
            exists|converted: AspectRatio|
                {
                    &&& #[trigger] call_ensures(A::into, (aspect,), converted)
                    &&& final(self)@ == (GraphView { aspect: Some(converted@), ..old(self)@ })
                },
    {
        self.aspect = Some(aspect.into());
    }

    /// The same graph with the ratio `aspect` of width to height.
    pub fn with_aspect<A: Into<AspectRatio>>(self, aspect: A) -> (graph: Self)
        ensures
            exists|converted: AspectRatio|
                {
                    &&& #[trigger] call_ensures(A::into, (aspect,), converted)
                    &&& graph@ == (GraphView { aspect: Some(converted@), ..self@ })
                },
    {
        let mut graph = self;
        graph.set_aspect(aspect);
        graph
    }

    /// Adds an axis after those that the graph has.
    pub fn add_axis(&mut self, axis: Axis)
        ensures
            final(self)@ == (GraphView { axes: old(self)@.axes.push(axis@), ..old(self)@ }),
    {
        self.axes.push(axis);
        assert(self@.axes =~= old(self)@.axes.push(axis@));
    }

    /// The same graph with the axis `x` labelled `x` and the axis `y`
    /// labelled `y` after the axes that it has.
    pub fn with_xy_axis(self, x: &str, y: &str) -> (graph: Self)
        ensures
            graph@ == (GraphView {
                axes: self@.axes.push(
                    AxisView { name: "x"@, label: x@, direction: None, min: None, max: None },
                ).push(
                    AxisView { name: "y"@, label: y@, direction: None, min: None, max: None },
                ),
                ..self@
            }),
    {
        let mut graph = self;
        graph.add_axis(Axis::x(x));
        graph.add_axis(Axis::y(y));
        graph
    }

    /// The same graph with `axis` after the axes that it has.
    pub fn with_axis(self, axis: Axis) -> (graph: Self)
        ensures
            graph@ == (GraphView { axes: self@.axes.push(axis@), ..self@ }),
    {
        let mut graph = self;
        graph.add_axis(axis);
        graph
    }

    /// Adds a series after those that the graph has.
    pub fn add_xy(&mut self, xy: Xy)
        ensures
            final(self)@ == (GraphView { xy_data: old(self)@.xy_data.push(xy@), ..old(self)@ }),
    {
        self.xy_data.push(xy);
        assert(self@.xy_data =~= old(self)@.xy_data.push(xy@));
    }

    /// The same graph with `xy` after the series that it has.
    pub fn with_xy(self, xy: Xy) -> (graph: Self)
        ensures
            graph@ == (GraphView { xy_data: self@.xy_data.push(xy@), ..self@ }),
    {
        let mut graph = self;
        graph.add_xy(xy);
        graph
    }

    /// The same graph with the series of `sets`, in their order, after the
    /// series that it has.
    pub fn with_xy_sets(self, sets: Vec<Xy>) -> (graph: Self)
        ensures
            graph@ == (GraphView { xy_data: self@.xy_data + xy_views(sets@), ..self@ }),
    {
        let mut graph = self;
        let mut rest = sets;
        graph.xy_data.append(&mut rest);
        assert(graph@.xy_data =~= self@.xy_data + xy_views(sets@));
        graph
    }

    /// Writes the axes, in the order in which they were added, behind the
    /// one setting of the graph that stands before them.
    fn write_axes<S: Sink>(&self, s: &mut S, Ghost(pre): Ghost<Seq<Attempt<S::Error>>>) -> (r:
        Result<(), S::Error>)
        requires
            emitted(
                pre,
                old(s).history(),
                concat(self@.parts().take(1)),
                Ok::<(), S::Error>(()),
            ),
        ensures
            r is Ok ==> emitted(
                pre,
                final(s).history(),
                concat(self@.parts().take(1 + self@.axes.len() as int)),
                Ok::<(), S::Error>(()),
            ),
            r is Err ==> emitted(pre, final(s).history(), concat(self@.parts()), r),
            old(s).willing() ==> r is Ok && final(s).willing(),
    {
        let ghost parts = self@.parts();
        proof {
            self@.lemma_parts_balanced();
        }
        let mut i: usize = 0;
        while i < self.axes.len()
            invariant
                i <= self.axes.len(),
                parts == self@.parts(),
                all_balanced(parts),
                old(s).willing() ==> s.willing(),
                emitted(
                    pre,
                    s.history(),
                    concat(parts.take(1 + i)),
                    Ok::<(), S::Error>(()),
                ),
            decreases self.axes.len() - i,
        {
            let ghost mid = s.history();
            let r = self.axes[i].write(s);
            proof {
                lemma_part(pre, mid, s.history(), parts, 1 + i, r);
            }
            r?;
            i += 1;
        }
        Ok(())
    }

    /// Writes the series, in the order in which they were added, behind
    /// the axes.
    fn write_series<S: Sink>(&self, s: &mut S, Ghost(pre): Ghost<Seq<Attempt<S::Error>>>) -> (r:
        Result<(), S::Error>)
        requires
            emitted(
                pre,
                old(s).history(),
                concat(self@.parts().take(1 + self@.axes.len() as int)),
                Ok::<(), S::Error>(()),
            ),
        ensures
            r is Ok ==> emitted(
                pre,
                final(s).history(),
                concat(self@.parts()),
                Ok::<(), S::Error>(()),
            ),
            r is Err ==> emitted(pre, final(s).history(), concat(self@.parts()), r),
            old(s).willing() ==> r is Ok && final(s).willing(),
    {
        let ghost parts = self@.parts();
        proof {
            self@.lemma_parts_balanced();
        }
        let mut j: usize = 0;
        while j < self.xy_data.len()
            invariant
                j <= self.xy_data.len(),
                parts == self@.parts(),
                all_balanced(parts),
                old(s).willing() ==> s.willing(),
                emitted(
                    pre,
                    s.history(),
                    concat(parts.take(1 + self.axes.len() + j)),
                    Ok::<(), S::Error>(()),
                ),
            decreases self.xy_data.len() - j,
        {
            let ghost mid = s.history();
            let r = self.xy_data[j].write(s);
            proof {
                lemma_part(pre, mid, s.history(), parts, 1 + self.axes.len() + j, r);
            }
            r?;
            j += 1;
        }
        proof {
            lemma_parts_end(parts);
        }
        Ok(())
    }

    /// Writes the graph: its declaration, then inside its scope its
    /// settings, its axes and its series.
    pub fn write<S: Sink>(&self, sink: &mut S) -> (r: Result<(), S::Error>)
        ensures
            emitted(old(sink).history(), final(sink).history(), self@.commands(), r),
            old(sink).willing() ==> r is Ok && final(sink).willing(),
    {
        let ghost parts = self@.parts();
        proof {
            self@.lemma_parts_balanced();
            lemma_concat_balanced(parts);
        }
        let f = |s: &mut S| -> (r: Result<(), S::Error>)
            ensures
                emitted(old(s).history(), final(s).history(), concat(parts), r),
                old(s).willing() ==> r is Ok && final(s).willing(),
            {
                let ghost pre = s.history();
                proof {
                    lemma_parts_begin(pre, parts);
                }

                let ghost mid = s.history();
                let mut r: Result<(), S::Error> = Ok(());
                if let Some(aspect) = &self.aspect {
                    match aspect {
                        AspectRatio::Auto => {
                            r = SetText("aspect", "Auto").write(s);
                        },
                        AspectRatio::Fix(value) => {
                            r = SetRaw("aspect", value.as_str()).write(s);
                        },
                    }
                }
                proof {
                    lemma_part(pre, mid, s.history(), parts, 0, r);
                }
                r?;

                let r = self.write_axes(s, Ghost(pre));
                r?;

                let r = self.write_series(s, Ghost(pre));
                r?;

                Ok(())
            };
        write_object("graph", self.name.as_str(), sink, f, Ghost(concat(parts)))
    }
}

/// A grid of items.
pub struct Grid {
    name: String,
    rows: Option<u32>,
    columns: Option<u32>,
    items: Vec<PageItem>,
}

/// What a `Grid` holds.
pub struct GridView {
    /// The name of the grid.
    pub name: Seq<char>,
    /// The number of rows.
    pub rows: Option<u32>,
    /// The number of columns.
    pub columns: Option<u32>,
    /// The items, in the order in which they were added.
    pub items: Seq<PageItemView>,
}

/// Something that can stand on a page or in a grid.
pub enum PageItem {
    Graph(Graph),
    Grid(Grid),
    Label(Label),
}

/// What a `PageItem` holds.
pub enum PageItemView {
    Graph(GraphView),
    Grid(GridView),
    Label(LabelView),
}

/// A count in decimal, where there is a count.
pub open spec fn count(n: Option<u32>) -> Option<Seq<char>> {
    match n {
        Some(n) => Some(decimal(n as nat)),
        None => None,
    }
}

/// What each of `items` holds.
pub closed spec fn item_views(items: Seq<PageItem>) -> Seq<PageItemView>
    decreases items,
{
    if items.len() == 0 {
        Seq::empty()
    } else {
        item_views(items.drop_last()).push(items.last()@)
    }
}

/// The lines of each of `items`.
pub open spec fn item_parts(items: Seq<PageItemView>) -> Seq<Seq<Command>>
    decreases items,
{
    if items.len() == 0 {
        Seq::empty()
    } else {
        item_parts(items.drop_last()).push(items.last().commands())
    }
}

/// `item_views` goes item by item.
pub proof fn lemma_item_views(items: Seq<PageItem>)
    ensures
        item_views(items).len() == items.len(),
        forall|i: int| 0 <= i < items.len() ==> #[trigger] item_views(items)[i] == items[i]@,
    decreases items.len(),
{
    if items.len() > 0 {
        lemma_item_views(items.drop_last());
        assert(item_views(items) == item_views(items.drop_last()).push(items.last()@));
    } else {
        assert(item_views(items) == Seq::<PageItemView>::empty());
    }
}

/// What two runs of items hold is what the first holds, then what the
/// second holds.
pub proof fn lemma_item_views_add(a: Seq<PageItem>, b: Seq<PageItem>)
    ensures
        item_views(a + b) == item_views(a) + item_views(b),
{
    lemma_item_views(a);
    lemma_item_views(b);
    lemma_item_views(a + b);
    assert(item_views(a + b) =~= item_views(a) + item_views(b));
}

/// `item_parts` goes item by item.
pub proof fn lemma_item_parts(items: Seq<PageItemView>)
    ensures
        item_parts(items).len() == items.len(),
        forall|i: int|
            0 <= i < items.len() ==> #[trigger] item_parts(items)[i] == items[i].commands(),
    decreases items.len(),
{
    if items.len() > 0 {
        lemma_item_parts(items.drop_last());
        assert(item_parts(items) == item_parts(items.drop_last()).push(items.last().commands()));
    } else {
        assert(item_parts(items) == Seq::<Seq<Command>>::empty());
    }
}

/// Every item is written as a balanced run of lines.
pub proof fn lemma_items_balanced(items: Seq<PageItemView>)
    ensures
        all_balanced(item_parts(items)),
    decreases items, 0int,
{
    lemma_item_parts(items);
    assert forall|i: int| 0 <= i < item_parts(items).len() implies balanced(
        #[trigger] item_parts(items)[i],
    ) by {
        items[i].lemma_balanced();
    }
}

impl PageItemView {
    /// The lines that the item is written as.
    pub open spec fn commands(self) -> Seq<Command>
        decreases self,
    {
        match self {
            PageItemView::Graph(graph) => graph.commands(),
            PageItemView::Grid(grid) => grid.commands(),
            PageItemView::Label(label) => label.commands(),
        }
    }

    /// An item is written as a balanced run of lines.
    pub proof fn lemma_balanced(self)
        ensures
            balanced(self.commands()),
        decreases self,
    {
        match self {
            PageItemView::Graph(graph) => graph.lemma_balanced(),
            PageItemView::Grid(grid) => grid.lemma_balanced(),
            PageItemView::Label(label) => label.lemma_balanced(),
        }
    }
}

impl GridView {
    /// What is written inside the scope of a grid, piece by piece: the
    /// numbers of rows and of columns, each where it is set, then each
    /// item, in the order in which they were added.
    pub open spec fn parts(self) -> Seq<Seq<Command>>
        decreases self, 0int,
    {
        seq![raw_setting("rows"@, count(self.rows)), raw_setting("columns"@, count(self.columns))]
            + item_parts(self.items)
    }

    /// The lines that a grid is written as.
    pub open spec fn commands(self) -> Seq<Command>
        decreases self, 1int,
    {
        object("grid"@, self.name, concat(self.parts()))
    }

    /// Each piece is balanced.
    pub proof fn lemma_parts_balanced(self)
        ensures
            all_balanced(self.parts()),
        decreases self, 0int,
    {
        let parts = self.parts();
        lemma_items_balanced(self.items);
        assert forall|i: int| 0 <= i < parts.len() implies balanced(#[trigger] parts[i]) by {
            if i < 2 {
                assert(flat(parts[i]));
                lemma_flat_balanced(parts[i]);
            } else {
                assert(parts[i] == item_parts(self.items)[i - 2]);
            }
        }
    }

    /// A grid is written as a balanced run of lines.
    pub proof fn lemma_balanced(self)
        ensures
            balanced(self.commands()),
        decreases self, 1int,
    {
        self.lemma_parts_balanced();
        lemma_concat_balanced(self.parts());
        lemma_object_balanced("grid"@, self.name, concat(self.parts()));
    }

    /// In a grid whose numbers of rows and columns are not set, nothing is
    /// written inside the scope but the items.
    pub proof fn lemma_nothing_set(self)
        requires
            self.rows is None,
            self.columns is None,
        ensures
            self.commands() == object("grid"@, self.name, concat(item_parts(self.items))),
    {
        lemma_part_unset(self.parts(), 1);
        lemma_part_unset(self.parts().remove(1), 0);
        assert(self.parts().remove(1).remove(0) =~= item_parts(self.items));
    }

    /// Setting the number of rows of a grid, where that is not set, puts the
    /// one line that sets it at its place among the lines, and changes no other
    /// line.
    pub proof fn lemma_rows_line(self, rows: u32)
        requires
            self.rows is None,
        ensures
            (GridView {
                rows: Some(rows),
                ..self
            }).commands() == self.commands().insert(
                start_of(self.parts(), 0) + 2,
                Command::SetRaw { property: "rows"@, literal: decimal(rows as nat) },
            ),
    {
        let set = GridView { rows: Some(rows), ..self };
        let line = Command::SetRaw { property: "rows"@, literal: decimal(rows as nat) };
        assert(set.parts() =~= self.parts().update(0, seq![line]));
        lemma_part_set(self.parts(), 0, line);
        lemma_object_insert(
            "grid"@,
            self.name,
            concat(self.parts()),
            start_of(self.parts(), 0),
            line,
        );
    }

    /// Setting the number of columns of a grid, where that is not set, puts the
    /// one line that sets it at its place among the lines, and changes no other
    /// line.
    pub proof fn lemma_columns_line(self, columns: u32)
        requires
            self.columns is None,
        ensures
            (GridView {
                columns: Some(columns),
                ..self
            }).commands() == self.commands().insert(
                start_of(self.parts(), 1) + 2,
                Command::SetRaw {
                    property: "columns"@,
                    literal: decimal(columns as nat),
                },
            ),
    {
        let set = GridView { columns: Some(columns), ..self };
        let line =
            Command::SetRaw {
                    property: "columns"@,
                    literal: decimal(columns as nat),
                };
        assert(set.parts() =~= self.parts().update(1, seq![line]));
        lemma_part_set(self.parts(), 1, line);
        lemma_object_insert(
            "grid"@,
            self.name,
            concat(self.parts()),
            start_of(self.parts(), 1),
            line,
        );
    }
}

impl View for PageItem {
    type V = PageItemView;

    closed spec fn view(&self) -> PageItemView
        decreases self,
    {
        match self {
            PageItem::Graph(graph) => PageItemView::Graph(graph@),
            PageItem::Grid(grid) => PageItemView::Grid(grid@),
            PageItem::Label(label) => PageItemView::Label(label@),
        }
    }
}

impl View for Grid {
    type V = GridView;

    closed spec fn view(&self) -> GridView
        decreases self,
    {
        GridView {
            name: self.name@,
            rows: self.rows,
            columns: self.columns,
            items: item_views(self.items@),
        }
    }
}

impl From<Graph> for PageItem {
    /// The graph as an item.
    fn from(value: Graph) -> (item: Self)
        ensures
            item == PageItem::Graph(value),
    {
        PageItem::Graph(value)
    }
}

impl vstd::std_specs::convert::FromSpecImpl<Graph> for PageItem {
    open spec fn obeys_from_spec() -> bool {
        true
    }

    open spec fn from_spec(value: Graph) -> Self {
        PageItem::Graph(value)
    }
}

impl From<Grid> for PageItem {
    /// The grid as an item.
    fn from(value: Grid) -> (item: Self)
        ensures
            item == PageItem::Grid(value),
    {
        PageItem::Grid(value)
    }
}

impl vstd::std_specs::convert::FromSpecImpl<Grid> for PageItem {
    open spec fn obeys_from_spec() -> bool {
        true
    }

    open spec fn from_spec(value: Grid) -> Self {
        PageItem::Grid(value)
    }
}

impl From<Label> for PageItem {
    /// The label as an item.
    fn from(value: Label) -> (item: Self)
        ensures
            item == PageItem::Label(value),
    {
        PageItem::Label(value)
    }
}

impl vstd::std_specs::convert::FromSpecImpl<Label> for PageItem {
    open spec fn obeys_from_spec() -> bool {
        true
    }

    open spec fn from_spec(value: Label) -> Self {
        PageItem::Label(value)
    }
}

/// What the item that holds a graph holds.
pub proof fn lemma_graph_item(graph: Graph)
    ensures
        PageItem::Graph(graph)@ == PageItemView::Graph(graph@),
{
}

/// What the item that holds a grid holds.
pub proof fn lemma_grid_item(grid: Grid)
    ensures
        PageItem::Grid(grid)@ == PageItemView::Grid(grid@),
{
}

/// What the item that holds a label holds.
pub proof fn lemma_label_item(label: Label)
    ensures
        PageItem::Label(label)@ == PageItemView::Label(label@),
{
}

impl PageItem {
    /// Writes the item as what it holds is written.
    pub fn write<S: Sink>(&self, sink: &mut S) -> (r: Result<(), S::Error>)
        ensures
            emitted(old(sink).history(), final(sink).history(), self@.commands(), r),
            old(sink).willing() ==> r is Ok && final(sink).willing(),
        decreases self,
    {
        match self {
            PageItem::Graph(graph) => graph.write(sink),
            PageItem::Grid(grid) => grid.write(sink),
            PageItem::Label(label) => label.write(sink),
        }
    }
}

impl Grid {
    /// A grid with the next name that `names` has for a grid, and nothing
    /// in it.
    pub fn new(names: &mut AutoNameIncrement) -> (grid: Self)
        ensures
            grid@ == (GridView {
                name: name_of(Kind::Grid, old(names).upcoming(Kind::Grid)),
                rows: None,
                columns: None,
                items: Seq::empty(),
            }),
            final(names).follows(*old(names), Kind::Grid),
    {
        let grid = Self {
            name: names.next(Kind::Grid),
            rows: None,
            columns: None,
            items: Vec::new(),
        };
        proof {
            lemma_item_views(grid.items@);
            assert(grid@.items =~= Seq::empty());
        }
        grid
    }

    /// Sets the number of rows.
    pub fn set_rows(&mut self, rows: u32)
        ensures
            final(self)@ == (GridView { rows: Some(rows), ..old(self)@ }),
    {
        self.rows = Some(rows);
    }

    /// The same grid with `rows` rows.
    pub fn with_rows(self, rows: u32) -> (grid: Self)
        ensures
            grid@ == (GridView { rows: Some(rows), ..self@ }),
    {
        let mut grid = self;
        grid.set_rows(rows);
        grid
    }

    /// Sets the number of columns.
    pub fn set_columns(&mut self, columns: u32)
        ensures
            final(self)@ == (GridView { columns: Some(columns), ..old(self)@ }),
    {
        self.columns = Some(columns);
    }

    /// The same grid with `columns` columns.
    pub fn with_columns(self, columns: u32) -> (grid: Self)
        ensures
            grid@ == (GridView { columns: Some(columns), ..self@ }),
    {
        let mut grid = self;
        grid.set_columns(columns);
        grid
    }

    /// Adds an item after those that the grid has.
    pub fn add<I: Into<PageItem>>(&mut self, item: I)
        ensures
            exists|converted: PageItem|
                {
                    &&& #[trigger] call_ensures(I::into, (item,), converted)
                    &&& final(self)@ == (GridView {
                        items: old(self)@.items.push(converted@),
                        ..old(self)@
                    })
                },
    {
        let item: PageItem = item.into();
        proof {
            lemma_item_views(self.items@);
        }
        self.items.push(item);
        proof {
            lemma_item_views(self.items@);
            assert(self@.items =~= old(self)@.items.push(item@));
        }
    }

    /// The same grid with `item` after the items that it has.
    pub fn with<I: Into<PageItem>>(self, item: I) -> (grid: Self)
        ensures
            exists|converted: PageItem|
                {
                    &&& #[trigger] call_ensures(I::into, (item,), converted)
                    &&& grid@ == (GridView { items: self@.items.push(converted@), ..self@ })
                },
    {
        let mut grid = self;
        grid.add(item);
        grid
    }

    /// The same grid with `items`, in their order, after the items that it
    /// has.
    pub fn with_items(self, items: Vec<PageItem>) -> (grid: Self)
        ensures
            grid@ == (GridView { items: self@.items + item_views(items@), ..self@ }),
    {
        let mut grid = self;
        let mut rest = items;
        grid.items.append(&mut rest);
        proof {
            lemma_item_views_add(self.items@, items@);
        }
        grid
    }

    /// Writes the grid: its declaration, then inside its scope its
    /// settings and its items.
    pub fn write<S: Sink>(&self, sink: &mut S) -> (r: Result<(), S::Error>)
        ensures
            emitted(old(sink).history(), final(sink).history(), self@.commands(), r),
            old(sink).willing() ==> r is Ok && final(sink).willing(),
        decreases self,
    {
        let ghost parts = self@.parts();
        proof {
            self@.lemma_parts_balanced();
            lemma_concat_balanced(parts);
        }
        let f = |s: &mut S| -> (r: Result<(), S::Error>)
            ensures
                emitted(old(s).history(), final(s).history(), concat(parts), r),
                old(s).willing() ==> r is Ok && final(s).willing(),
            {
                let ghost pre = s.history();
                proof {
                    lemma_parts_begin(pre, parts);
                }

                let ghost mid = s.history();
                let mut r: Result<(), S::Error> = Ok(());
                if let Some(rows) = self.rows {
                    r = SetRaw("rows", to_decimal(rows as u64).as_str()).write(s);
                }
                proof {
                    lemma_part(pre, mid, s.history(), parts, 0, r);
                }
                r?;

                let ghost mid = s.history();
                let mut r: Result<(), S::Error> = Ok(());
                if let Some(columns) = self.columns {
                    r = SetRaw("columns", to_decimal(columns as u64).as_str()).write(s);
                }
                proof {
                    lemma_part(pre, mid, s.history(), parts, 1, r);
                }
                r?;

                let mut i: usize = 0;
                while i < self.items.len()
                    invariant
                        i <= self.items.len(),
                        parts == self@.parts(),
                        all_balanced(parts),
                        pre == old(s).history(),
                        old(s).willing() ==> s.willing(),
                        emitted(
                            pre,
                            s.history(),
                            concat(parts.take(2 + i)),
                            Ok::<(), S::Error>(()),
                        ),
                    decreases self.items.len() - i,
                {
                    let ghost mid = s.history();
                    proof {
                        lemma_item_views(self.items@);
                        lemma_item_parts(self@.items);
                        assert(decreases_to!(*self => self.items));
                        assert(decreases_to!(self.items => self.items@));
                        assert(decreases_to!(self.items@ => self.items@[i as int]));
                    }
                    let r = self.items[i].write(s);
                    proof {
                        lemma_part(pre, mid, s.history(), parts, 2 + i, r);
                    }
                    r?;
                    i += 1;
                }

                proof {
                    lemma_item_views(self.items@);
                    lemma_item_parts(self@.items);
                    lemma_parts_end(parts);
                }
                Ok(())
            };
        write_object("grid", self.name.as_str(), sink, f, Ghost(concat(parts)))
    }
}

/// A page of the document.
pub struct Page {
    name: String,
    items: Vec<PageItem>,
    width: Option<SizeUnit>,
    height: Option<SizeUnit>,
}

/// What a `Page` holds.
pub struct PageView {
    /// The name of the page.
    pub name: Seq<char>,
    /// The items, in the order in which they were added.
    pub items: Seq<PageItemView>,
    /// The width of the page.
    pub width: Option<SizeUnitView>,
    /// The height of the page.
    pub height: Option<SizeUnitView>,
}

impl PageView {
    /// What is written inside the scope of a page, piece by piece: the
    /// width and the height, each where it is set, then each item, in the
    /// order in which they were added.
    pub open spec fn parts(self) -> Seq<Seq<Command>> {
        seq![
            text_setting("width"@, size_text(self.width)),
            text_setting("height"@, size_text(self.height)),
        ] + item_parts(self.items)
    }

    /// The lines that a page is written as.
    pub open spec fn commands(self) -> Seq<Command> {
        object("page"@, self.name, concat(self.parts()))
    }

    /// Each piece is balanced.
    pub proof fn lemma_parts_balanced(self)
        ensures
            all_balanced(self.parts()),
    {
        let parts = self.parts();
        lemma_items_balanced(self.items);
        assert forall|i: int| 0 <= i < parts.len() implies balanced(#[trigger] parts[i]) by {
            if i < 2 {
                assert(flat(parts[i]));
                lemma_flat_balanced(parts[i]);
            } else {
                assert(parts[i] == item_parts(self.items)[i - 2]);
            }
        }
    }

    /// A page is written as a balanced run of lines.
    pub proof fn lemma_balanced(self)
        ensures
            balanced(self.commands()),
    {
        self.lemma_parts_balanced();
        lemma_concat_balanced(self.parts());
        lemma_object_balanced("page"@, self.name, concat(self.parts()));
    }

    /// On a page whose width and height are not set, nothing is written
    /// inside the scope but the items.
    pub proof fn lemma_nothing_set(self)
        requires
            self.width is None,
            self.height is None,
        ensures
            self.commands() == object("page"@, self.name, concat(item_parts(self.items))),
    {
        lemma_part_unset(self.parts(), 1);
        lemma_part_unset(self.parts().remove(1), 0);
        assert(self.parts().remove(1).remove(0) =~= item_parts(self.items));
    }

    /// Setting the width of a page, where that is not set, puts the one line
    /// that sets it at its place among the lines, and changes no other line.
    pub proof fn lemma_width_line(self, width: SizeUnitView)
        requires
            self.width is None,
        ensures
            (PageView {
                width: Some(width),
                ..self
            }).commands() == self.commands().insert(
                start_of(self.parts(), 0) + 2,
                Command::SetText { property: "width"@, value: width.text() },
            ),
    {
        let set = PageView { width: Some(width), ..self };
        let line = Command::SetText { property: "width"@, value: width.text() };
        assert(set.parts() =~= self.parts().update(0, seq![line]));
        lemma_part_set(self.parts(), 0, line);
        lemma_object_insert(
            "page"@,
            self.name,
            concat(self.parts()),
            start_of(self.parts(), 0),
            line,
        );
    }

    /// Setting the height of a page, where that is not set, puts the one line
    /// that sets it at its place among the lines, and changes no other line.
    pub proof fn lemma_height_line(self, height: SizeUnitView)
        requires
            self.height is None,
        ensures
            (PageView {
                height: Some(height),
                ..self
            }).commands() == self.commands().insert(
                start_of(self.parts(), 1) + 2,
                Command::SetText { property: "height"@, value: height.text() },
            ),
    {
        let set = PageView { height: Some(height), ..self };
        let line = Command::SetText { property: "height"@, value: height.text() };
        assert(set.parts() =~= self.parts().update(1, seq![line]));
        lemma_part_set(self.parts(), 1, line);
        lemma_object_insert(
            "page"@,
            self.name,
            concat(self.parts()),
            start_of(self.parts(), 1),
            line,
        );
    }

    /// The line at which the lines of item `i` start among the lines of the
    /// page.
    pub open spec fn item_start(self, i: int) -> int {
        start_of(self.parts(), 2 + i) + 2
    }

    /// The items of a page are written in the order in which they were
    /// added: the lines of each stand together, as the item is written,
    /// behind those of the items added before it and before those of the
    /// items added after it.
    pub proof fn lemma_items_in_order(self, i: int)
        requires
            0 <= i < self.items.len(),
        ensures
            2 <= self.item_start(i) <= self.item_start(i + 1) < self.commands().len(),
            self.commands().subrange(self.item_start(i), self.item_start(i + 1))
                == self.items[i].commands(),
    {
        let parts = self.parts();
        let inner = concat(parts);
        lemma_item_parts(self.items);
        lemma_part_place(parts, 2 + i);
        lemma_parts_in_order(parts, 2 + i + 1, parts.len() as int);
        assert(parts.take(parts.len() as int) =~= parts);
        assert(self.commands().subrange(self.item_start(i), self.item_start(i + 1))
            =~= inner.subrange(start_of(parts, 2 + i), start_of(parts, 2 + i + 1)));
    }
}

impl View for Page {
    type V = PageView;

    closed spec fn view(&self) -> PageView {
        PageView {
            name: self.name@,
            items: item_views(self.items@),
            width: size_view(self.width),
            height: size_view(self.height),
        }
    }
}

impl Page {
    /// A page with the next name that `names` has for a page, and nothing
    /// on it.
    pub fn new(names: &mut AutoNameIncrement) -> (page: Self)
        ensures
            page@ == (PageView {
                name: name_of(Kind::Page, old(names).upcoming(Kind::Page)),
                items: Seq::empty(),
                width: None,
                height: None,
            }),
            final(names).follows(*old(names), Kind::Page),
    {
        let page = Self {
            name: names.next(Kind::Page),
            items: Vec::new(),
            width: None,
            height: None,
        };
        proof {
            lemma_item_views(page.items@);
            assert(page@.items =~= Seq::empty());
        }
        page
    }

    /// Adds an item after those that the page has.
    pub fn add<I: Into<PageItem>>(&mut self, item: I)
        ensures
            exists|converted: PageItem|
                {
                    &&& #[trigger] call_ensures(I::into, (item,), converted)
                    &&& final(self)@ == (PageView {
                        items: old(self)@.items.push(converted@),
                        ..old(self)@
                    })
                },
    {
        let item: PageItem = item.into();
        proof {
            lemma_item_views(self.items@);
        }
        self.items.push(item);
        proof {
            lemma_item_views(self.items@);
            assert(self@.items =~= old(self)@.items.push(item@));
        }
    }

    /// The same page with `item` after the items that it has.
    pub fn with_item<I: Into<PageItem>>(self, item: I) -> (page: Self)
        ensures
            exists|converted: PageItem|
                {
                    &&& #[trigger] call_ensures(I::into, (item,), converted)
                    &&& page@ == (PageView { items: self@.items.push(converted@), ..self@ })
                },
    {
        let mut page = self;
        page.add(item);
        page
    }

    /// The same page with `items`, in their order, after the items that it
    /// has.
    pub fn with_items(self, items: Vec<PageItem>) -> (page: Self)
        ensures
            page@ == (PageView { items: self@.items + item_views(items@), ..self@ }),
    {
        let mut page = self;
        let mut rest = items;
        page.items.append(&mut rest);
        proof {
            lemma_item_views_add(self.items@, items@);
        }
        page
    }

    /// The same page with the width `width`, or with the width that the
    /// interpreter gives it if `width` is `None`.
    pub fn with_width(self, width: Option<SizeUnit>) -> (page: Self)
        ensures
            page@ == (PageView { width: size_view(width), ..self@ }),
    {
        let mut page = self;
        page.width = width;
        page
    }

    /// The same page with the height `height`, or with the height that the
    /// interpreter gives it if `height` is `None`.
    pub fn with_height(self, height: Option<SizeUnit>) -> (page: Self)
        ensures
            page@ == (PageView { height: size_view(height), ..self@ }),
    {
        let mut page = self;
        page.height = height;
        page
    }

    /// Writes the page: its declaration, then inside its scope its
    /// settings and its items.
    pub fn write<S: Sink>(&self, sink: &mut S) -> (r: Result<(), S::Error>)
        ensures
            emitted(old(sink).history(), final(sink).history(), self@.commands(), r),
            old(sink).willing() ==> r is Ok && final(sink).willing(),
    {
        let ghost parts = self@.parts();
        proof {
            self@.lemma_parts_balanced();
            lemma_concat_balanced(parts);
        }
        let f = |s: &mut S| -> (r: Result<(), S::Error>)
            ensures
                emitted(old(s).history(), final(s).history(), concat(parts), r),
                old(s).willing() ==> r is Ok && final(s).willing(),
            {
                let ghost pre = s.history();
                proof {
                    lemma_parts_begin(pre, parts);
                }

                let ghost mid = s.history();
                let mut r: Result<(), S::Error> = Ok(());
                if let Some(width) = &self.width {
                    r = SetText("width", width.to_string().as_str()).write(s);
                }
                proof {
                    lemma_part(pre, mid, s.history(), parts, 0, r);
                }
                r?;

                let ghost mid = s.history();
                let mut r: Result<(), S::Error> = Ok(());
                if let Some(height) = &self.height {
                    r = SetText("height", height.to_string().as_str()).write(s);
                }
                proof {
                    lemma_part(pre, mid, s.history(), parts, 1, r);
                }
                r?;

                let mut i: usize = 0;
                while i < self.items.len()
                    invariant
                        i <= self.items.len(),
                        parts == self@.parts(),
                        all_balanced(parts),
                        pre == old(s).history(),
                        old(s).willing() ==> s.willing(),
                        emitted(
                            pre,
                            s.history(),
                            concat(parts.take(2 + i)),
                            Ok::<(), S::Error>(()),
                        ),
                    decreases self.items.len() - i,
                {
                    let ghost mid = s.history();
                    proof {
                        lemma_item_views(self.items@);
                        lemma_item_parts(self@.items);
                    }
                    let r = self.items[i].write(s);
                    proof {
                        lemma_part(pre, mid, s.history(), parts, 2 + i, r);
                    }
                    r?;
                    i += 1;
                }

                proof {
                    lemma_item_views(self.items@);
                    lemma_item_parts(self@.items);
                    lemma_parts_end(parts);
                }
                Ok(())
            };
        write_object("page", self.name.as_str(), sink, f, Ghost(concat(parts)))
    }
}

} // verus!
