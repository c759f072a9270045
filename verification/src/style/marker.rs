//! The markers of a series: their shape, outline and filling.

use vstd::prelude::*;
use crate::api1::cmd::{Command, SetRaw, SetText};
use crate::api1::scope::{
    all_balanced, balanced, concat, emitted, lemma_concat_balanced, lemma_concat_empty,
    lemma_flat_parts, lemma_part, lemma_part_set, lemma_parts_begin, lemma_parts_end, raw_setting,
    start_of, text_setting,
};
use crate::api1::text::{decimal, to_decimal};
use crate::api1::{value_of, AsVueszApi1ValueStr, Sink};
use crate::number::{text_of, Number};
use crate::style::line::LineStyle;
use crate::style::{points, whole, ColorMap, ColorName};

verus! {

/// The shape of the markers.
#[derive(Copy, Clone, PartialEq, Eq, PartialOrd, Structural)]
pub enum Marker {
    NoMarker,
    Circle,
}

impl AsVueszApi1ValueStr for Marker {
    open spec fn api1_value(&self) -> Seq<char> {
        match self {
            Marker::NoMarker => "none"@,
            Marker::Circle => "circle"@,
        }
    }

    fn as_veusz_api1_value_str(&self) -> (s: &str) {
        match self {
            Marker::NoMarker => "none",
            Marker::Circle => "circle",
        }
    }
}

/// How the outline of the markers is drawn.
pub struct MarkerLine {
    color: Option<String>,
    width: Option<Number>,
    style: Option<LineStyle>,
    transparency: Option<u8>,
    scale: Option<bool>,
    hide: Option<bool>,
}

/// What a `MarkerLine` holds.
pub struct MarkerLineView {
    /// The colour, by name or as the interpreter writes colours.
    pub color: Option<Seq<char>>,
    /// The width in points, as a literal.
    pub width: Option<Seq<char>>,
    /// The dash pattern.
    pub style: Option<LineStyle>,
    /// How transparent the line is, in percent.
    pub transparency: Option<u8>,
    /// Whether the width scales with the marker.
    pub scale: Option<bool>,
    /// Whether the line is left out.
    pub hide: Option<bool>,
}

impl MarkerLineView {
    /// The settings that a `MarkerLine` is written as, field by field: for
    /// each field at most one line, and none where the field is not set.
    pub open spec fn parts(self) -> Seq<Seq<Command>> {
        seq![
            text_setting("MarkerLine/color"@, self.color),
            text_setting("MarkerLine/width"@, points(self.width)),
            text_setting("MarkerLine/style"@, value_of(self.style)),
            raw_setting("MarkerLine/transparency"@, whole(self.transparency)),
            raw_setting("MarkerLine/scaleLine"@, value_of(self.scale)),
            raw_setting("MarkerLine/hide"@, value_of(self.hide)),
        ]
    }

    /// The settings that a `MarkerLine` is written as, in the order of the
    /// fields.
    pub open spec fn commands(self) -> Seq<Command> {
        concat(self.parts())
    }

    /// Each field is written as settings only.
    pub proof fn lemma_parts_balanced(self)
        ensures
            all_balanced(self.parts()),
    {
        lemma_flat_parts(self.parts());
    }

    /// A `MarkerLine` is written as a balanced run of lines.
    pub proof fn lemma_balanced(self)
        ensures
            balanced(self.commands()),
    {
        self.lemma_parts_balanced();
        lemma_concat_balanced(self.parts());
    }

    /// A `MarkerLine` with nothing set is written as no line at all.
    pub proof fn lemma_nothing_set(self)
        requires
            self.color is None,
            self.width is None,
            self.style is None,
            self.transparency is None,
            self.scale is None,
            self.hide is None,
        ensures
            self.commands() == Seq::<Command>::empty(),
    {
        lemma_concat_empty(self.parts());
    }

    /// Setting the colour of the outline of the markers, where that is not set,
    /// puts the one line that sets it at its place among the lines, and changes
    /// no other line.
    pub proof fn lemma_color_line(self, color: Seq<char>)
        requires
            self.color is None,
        ensures
            (MarkerLineView {
                color: Some(color),
                ..self
            }).commands() == self.commands().insert(
                start_of(self.parts(), 0),
                Command::SetText { property: "MarkerLine/color"@, value: color },
            ),
    {
        let set = MarkerLineView { color: Some(color), ..self };
        let line = Command::SetText { property: "MarkerLine/color"@, value: color };
        assert(set.parts() =~= self.parts().update(0, seq![line]));
        lemma_part_set(self.parts(), 0, line);
    }

    /// Setting the width of the outline of the markers, where that is not set,
    /// puts the one line that sets it at its place among the lines, and changes
    /// no other line.
    pub proof fn lemma_width_line(self, width: Seq<char>)
        requires
            self.width is None,
        ensures
            (MarkerLineView {
                width: Some(width),
                ..self
            }).commands() == self.commands().insert(
                start_of(self.parts(), 1),
                Command::SetText { property: "MarkerLine/width"@, value: width + "pt"@ },
            ),
    {
        let set = MarkerLineView { width: Some(width), ..self };
        let line = Command::SetText { property: "MarkerLine/width"@, value: width + "pt"@ };
        assert(set.parts() =~= self.parts().update(1, seq![line]));
        lemma_part_set(self.parts(), 1, line);
    }

    /// Setting the dash pattern of the outline of the markers, where that is
    /// not set, puts the one line that sets it at its place among the lines,
    /// and changes no other line.
    pub proof fn lemma_style_line(self, style: LineStyle)
        requires
            self.style is None,
        ensures
            (MarkerLineView {
                style: Some(style),
                ..self
            }).commands() == self.commands().insert(
                start_of(self.parts(), 2),
                Command::SetText { property: "MarkerLine/style"@, value: style.api1_value() },
            ),
    {
        let set = MarkerLineView { style: Some(style), ..self };
        let line = Command::SetText { property: "MarkerLine/style"@, value: style.api1_value() };
        assert(set.parts() =~= self.parts().update(2, seq![line]));
        lemma_part_set(self.parts(), 2, line);
    }

    /// Setting how transparent the outline of the markers is, where that is not
    /// set, puts the one line that sets it at its place among the lines, and
    /// changes no other line.
    pub proof fn lemma_transparency_line(self, transparency: u8)
        requires
            self.transparency is None,
        ensures
            (MarkerLineView {
                transparency: Some(transparency),
                ..self
            }).commands() == self.commands().insert(
                start_of(self.parts(), 3),
                Command::SetRaw {
                    property: "MarkerLine/transparency"@,
                    literal: decimal(transparency as nat),
                },
            ),
    {
        let set = MarkerLineView { transparency: Some(transparency), ..self };
        let line =
            Command::SetRaw {
                    property: "MarkerLine/transparency"@,
                    literal: decimal(transparency as nat),
                };
        assert(set.parts() =~= self.parts().update(3, seq![line]));
        lemma_part_set(self.parts(), 3, line);
    }

    /// Setting whether the width of the outline of the markers scales, where
    /// that is not set, puts the one line that sets it at its place among the
    /// lines, and changes no other line.
    pub proof fn lemma_scale_line(self, scale: bool)
        requires
            self.scale is None,
        ensures
            (MarkerLineView {
                scale: Some(scale),
                ..self
            }).commands() == self.commands().insert(
                start_of(self.parts(), 4),
                Command::SetRaw { property: "MarkerLine/scaleLine"@, literal: scale.api1_value() },
            ),
    {
        let set = MarkerLineView { scale: Some(scale), ..self };
        let line =
            Command::SetRaw { property: "MarkerLine/scaleLine"@, literal: scale.api1_value() };
        assert(set.parts() =~= self.parts().update(4, seq![line]));
        lemma_part_set(self.parts(), 4, line);
    }

    /// Setting whether the outline of the markers is left out, where that is
    /// not set, puts the one line that sets it at its place among the lines,
    /// and changes no other line.
    pub proof fn lemma_hide_line(self, hide: bool)
        requires
            self.hide is None,
        ensures
            (MarkerLineView {
                hide: Some(hide),
                ..self
            }).commands() == self.commands().insert(
                start_of(self.parts(), 5),
                Command::SetRaw { property: "MarkerLine/hide"@, literal: hide.api1_value() },
            ),
    {
        let set = MarkerLineView { hide: Some(hide), ..self };
        let line = Command::SetRaw { property: "MarkerLine/hide"@, literal: hide.api1_value() };
        assert(set.parts() =~= self.parts().update(5, seq![line]));
        lemma_part_set(self.parts(), 5, line);
    }
}

impl View for MarkerLine {
    type V = MarkerLineView;

    closed spec fn view(&self) -> MarkerLineView {
        MarkerLineView {
            color: match self.color {
                Some(c) => Some(c@),
                None => None,
            },
            width: text_of(self.width),
            style: self.style,
            transparency: self.transparency,
            scale: self.scale,
            hide: self.hide,
        }
    }
}

impl Default for MarkerLine {
    /// A `MarkerLine` with nothing set.
    fn default() -> (line: Self)
        ensures
            line@ == (MarkerLineView {
                color: None,
                width: None,
                style: None,
                transparency: None,
                scale: None,
                hide: None,
            }),
    {
        Self { color: None, width: None, style: None, transparency: None, scale: None, hide: None }
    }
}

impl MarkerLine {
    /// Sets the colour, by name or as the interpreter writes colours.
    pub fn set_color(&mut self, color: &str)
        ensures
            final(self)@ == (MarkerLineView { color: Some(color@), ..old(self)@ }),
    {
        self.color = Some(color.to_owned());
    }

    /// The same with the colour `color`.
    pub fn with_color(self, color: &str) -> (line: Self)
        ensures
            line@ == (MarkerLineView { color: Some(color@), ..self@ }),
    {
        let mut line = self;
        line.set_color(color);
        line
    }

    /// Sets the colour to one that the interpreter knows by name.
    pub fn set_color_by_name(&mut self, color_name: ColorName)
        ensures
            final(self)@ == (MarkerLineView { color: Some(color_name.api1_value()), ..old(self)@ }),
    {
        self.color = Some(color_name.as_veusz_api1_value_str().to_owned());
    }

    /// The same with a colour that the interpreter knows by name.
    pub fn with_color_by_name(self, color_name: ColorName) -> (line: Self)
        ensures
            line@ == (MarkerLineView { color: Some(color_name.api1_value()), ..self@ }),
    {
        let mut line = self;
        line.set_color_by_name(color_name);
        line
    }

    /// Sets the width, in points.
    pub fn set_width(&mut self, pt: Number)
        ensures
            final(self)@ == (MarkerLineView { width: Some(pt@), ..old(self)@ }),
    {
        self.width = Some(pt);
    }

    /// The same with the width `pt`, in points.
    pub fn with_width(self, pt: Number) -> (line: Self)
        ensures
            line@ == (MarkerLineView { width: Some(pt@), ..self@ }),
    {
        let mut line = self;
        line.set_width(pt);
        line
    }

    /// Sets the dash pattern.
    pub fn set_style(&mut self, style: LineStyle)
        ensures
            final(self)@ == (MarkerLineView { style: Some(style), ..old(self)@ }),
    {
        self.style = Some(style);
    }

    /// The same with the dash pattern `style`.
    pub fn with_style(self, style: LineStyle) -> (line: Self)
        ensures
            line@ == (MarkerLineView { style: Some(style), ..self@ }),
    {
        let mut line = self;
        line.set_style(style);
        line
    }

    /// Sets how transparent the line is, in percent.
    pub fn set_transparency(&mut self, transparency: u8)
        ensures
            final(self)@ == (MarkerLineView { transparency: Some(transparency), ..old(self)@ }),
    {
        self.transparency = Some(transparency);
    }

    /// The same, transparent by `transparency` percent.
    pub fn with_transparency(self, transparency: u8) -> (line: Self)
        ensures
            line@ == (MarkerLineView { transparency: Some(transparency), ..self@ }),
    {
        let mut line = self;
        line.set_transparency(transparency);
        line
    }

    /// Sets whether the width scales with the marker.
    pub fn set_scale(&mut self, scale: bool)
        ensures
            final(self)@ == (MarkerLineView { scale: Some(scale), ..old(self)@ }),
    {
        self.scale = Some(scale);
    }

    /// The same with `scale` for whether the width scales with the marker.
    pub fn with_scale(self, scale: bool) -> (line: Self)
        ensures
            line@ == (MarkerLineView { scale: Some(scale), ..self@ }),
    {
        let mut line = self;
        line.set_scale(scale);
        line
    }

    /// Sets whether the line is left out.
    pub fn set_hide(&mut self, hide: bool)
        ensures
            final(self)@ == (MarkerLineView { hide: Some(hide), ..old(self)@ }),
    {
        self.hide = Some(hide);
    }

    /// The same with `hide` for whether the line is left out.
    pub fn with_hide(self, hide: bool) -> (line: Self)
        ensures
            line@ == (MarkerLineView { hide: Some(hide), ..self@ }),
    {
        let mut line = self;
        line.set_hide(hide);
        line
    }

    /// Writes the settings into the scope that is open.
    pub fn write<S: Sink>(&self, sink: &mut S) -> (r: Result<(), S::Error>)
        ensures
            emitted(old(sink).history(), final(sink).history(), self@.commands(), r),
            old(sink).willing() ==> r is Ok && final(sink).willing(),
    {
        let ghost pre = sink.history();
        let ghost parts = self@.parts();
        proof {
            self@.lemma_parts_balanced();
            lemma_parts_begin(pre, parts);
        }

        let ghost mid = sink.history();
        let mut r: Result<(), S::Error> = Ok(());
        if let Some(color) = &self.color {
            r = SetText("MarkerLine/color", color.as_str()).write(sink);
        }
        proof {
            lemma_part(pre, mid, sink.history(), parts, 0, r);
        }
        r?;

        let ghost mid = sink.history();
        let mut r: Result<(), S::Error> = Ok(());
        if let Some(width) = &self.width {
            let mut text = String::from_str(width.as_str());
            text.append("pt");
            r = SetText("MarkerLine/width", text.as_str()).write(sink);
        }
        proof {
            lemma_part(pre, mid, sink.history(), parts, 1, r);
        }
        r?;

        let ghost mid = sink.history();
        let mut r: Result<(), S::Error> = Ok(());
        if let Some(style) = &self.style {
            r = SetText("MarkerLine/style", style.as_veusz_api1_value_str()).write(sink);
        }
        proof {
            lemma_part(pre, mid, sink.history(), parts, 2, r);
        }
        r?;

        let ghost mid = sink.history();
        let mut r: Result<(), S::Error> = Ok(());
        if let Some(transparency) = &self.transparency {
            r = SetRaw("MarkerLine/transparency", to_decimal(*transparency as u64).as_str()).write(
                sink,
            );
        }
        proof {
            lemma_part(pre, mid, sink.history(), parts, 3, r);
        }
        r?;

        let ghost mid = sink.history();
        let mut r: Result<(), S::Error> = Ok(());
        if let Some(scale) = &self.scale {
            r = SetRaw("MarkerLine/scaleLine", scale.as_veusz_api1_value_str()).write(sink);
        }
        proof {
            lemma_part(pre, mid, sink.history(), parts, 4, r);
        }
        r?;

        let ghost mid = sink.history();
        let mut r: Result<(), S::Error> = Ok(());
        if let Some(hide) = &self.hide {
            r = SetRaw("MarkerLine/hide", hide.as_veusz_api1_value_str()).write(sink);
        }
        proof {
            lemma_part(pre, mid, sink.history(), parts, 5, r);
        }
        r?;

        proof {
            lemma_parts_end(parts);
        }
        Ok(())
    }
}

/// How the markers are filled.
pub struct MarkerFill {
    hide: Option<bool>,
    color_map: Option<ColorMap>,
    color_map_invert: Option<bool>,
}

/// What a `MarkerFill` holds.
pub struct MarkerFillView {
    /// Whether the filling is left out.
    pub hide: Option<bool>,
    /// The map from values to colours.
    pub color_map: Option<ColorMap>,
    /// Whether the map runs backwards.
    pub color_map_invert: Option<bool>,
}

impl MarkerFillView {
    /// The settings that a `MarkerFill` is written as, field by field: for
    /// each field at most one line, and none where the field is not set.
    pub open spec fn parts(self) -> Seq<Seq<Command>> {
        seq![
            raw_setting("MarkerFill/hide"@, value_of(self.hide)),
            text_setting("MarkerFill/colorMap"@, value_of(self.color_map)),
            raw_setting("MarkerFill/colorMapInvert"@, value_of(self.color_map_invert)),
        ]
    }

    /// The settings that a `MarkerFill` is written as, in the order of the
    /// fields.
    pub open spec fn commands(self) -> Seq<Command> {
        concat(self.parts())
    }

    /// Each field is written as settings only.
    pub proof fn lemma_parts_balanced(self)
        ensures
            all_balanced(self.parts()),
    {
        lemma_flat_parts(self.parts());
    }

    /// A `MarkerFill` is written as a balanced run of lines.
    pub proof fn lemma_balanced(self)
        ensures
            balanced(self.commands()),
    {
        self.lemma_parts_balanced();
        lemma_concat_balanced(self.parts());
    }

    /// A `MarkerFill` with nothing set is written as no line at all.
    pub proof fn lemma_nothing_set(self)
        requires
            self.hide is None,
            self.color_map is None,
            self.color_map_invert is None,
        ensures
            self.commands() == Seq::<Command>::empty(),
    {
        lemma_concat_empty(self.parts());
    }

    /// Setting whether the filling is left out, where that is not set, puts the
    /// one line that sets it at its place among the lines, and changes no other
    /// line.
    pub proof fn lemma_hide_line(self, hide: bool)
        requires
            self.hide is None,
        ensures
            (MarkerFillView {
                hide: Some(hide),
                ..self
            }).commands() == self.commands().insert(
                start_of(self.parts(), 0),
                Command::SetRaw { property: "MarkerFill/hide"@, literal: hide.api1_value() },
            ),
    {
        let set = MarkerFillView { hide: Some(hide), ..self };
        let line = Command::SetRaw { property: "MarkerFill/hide"@, literal: hide.api1_value() };
        assert(set.parts() =~= self.parts().update(0, seq![line]));
        lemma_part_set(self.parts(), 0, line);
    }

    /// Setting the map from values to colours, where that is not set, puts the
    /// one line that sets it at its place among the lines, and changes no other
    /// line.
    pub proof fn lemma_color_map_line(self, color_map: ColorMap)
        requires
            self.color_map is None,
        ensures
            (MarkerFillView {
                color_map: Some(color_map),
                ..self
            }).commands() == self.commands().insert(
                start_of(self.parts(), 1),
                Command::SetText {
                    property: "MarkerFill/colorMap"@,
                    value: color_map.api1_value(),
                },
            ),
    {
        let set = MarkerFillView { color_map: Some(color_map), ..self };
        let line =
            Command::SetText {
                    property: "MarkerFill/colorMap"@,
                    value: color_map.api1_value(),
                };
        assert(set.parts() =~= self.parts().update(1, seq![line]));
        lemma_part_set(self.parts(), 1, line);
    }

    /// Setting whether the map runs backwards, where that is not set, puts the
    /// one line that sets it at its place among the lines, and changes no other
    /// line.
    pub proof fn lemma_color_map_invert_line(self, invert: bool)
        requires
            self.color_map_invert is None,
        ensures
            (MarkerFillView {
                color_map_invert: Some(invert),
                ..self
            }).commands() == self.commands().insert(
                start_of(self.parts(), 2),
                Command::SetRaw {
                    property: "MarkerFill/colorMapInvert"@,
                    literal: invert.api1_value(),
                },
            ),
    {
        let set = MarkerFillView { color_map_invert: Some(invert), ..self };
        let line =
            Command::SetRaw {
                    property: "MarkerFill/colorMapInvert"@,
                    literal: invert.api1_value(),
                };
        assert(set.parts() =~= self.parts().update(2, seq![line]));
        lemma_part_set(self.parts(), 2, line);
    }
}

impl View for MarkerFill {
    type V = MarkerFillView;

    closed spec fn view(&self) -> MarkerFillView {
        MarkerFillView {
            hide: self.hide,
            color_map: self.color_map,
            color_map_invert: self.color_map_invert,
        }
    }
}

impl Default for MarkerFill {
    /// A `MarkerFill` with nothing set.
    fn default() -> (fill: Self)
        ensures
            fill@ == (MarkerFillView { hide: None, color_map: None, color_map_invert: None }),
    {
        Self { hide: None, color_map: None, color_map_invert: None }
    }
}

impl MarkerFill {
    /// Sets whether the filling is left out.
    pub fn set_hide(&mut self, hide: bool)
        ensures
            final(self)@ == (MarkerFillView { hide: Some(hide), ..old(self)@ }),
    {
        self.hide = Some(hide);
    }

    /// The same with `hide` for whether the filling is left out.
    pub fn with_hide(self, hide: bool) -> (fill: Self)
        ensures
            fill@ == (MarkerFillView { hide: Some(hide), ..self@ }),
    {
        let mut fill = self;
        fill.set_hide(hide);
        fill
    }

    /// Sets the map from values to colours.
    pub fn set_color_map(&mut self, color_map: ColorMap)
        ensures
            final(self)@ == (MarkerFillView { color_map: Some(color_map), ..old(self)@ }),
    {
        self.color_map = Some(color_map);
    }

    /// The same with the map `color_map` from values to colours.
    pub fn with_color_map(self, color_map: ColorMap) -> (fill: Self)
        ensures
            fill@ == (MarkerFillView { color_map: Some(color_map), ..self@ }),
    {
        let mut fill = self;
        fill.set_color_map(color_map);
        fill
    }

    /// Sets whether the map runs backwards.
    pub fn set_color_map_invert(&mut self, invert: bool)
        ensures
            final(self)@ == (MarkerFillView { color_map_invert: Some(invert), ..old(self)@ }),
    {
        self.color_map_invert = Some(invert);
    }

    /// The same with `invert` for whether the map runs backwards.
    pub fn with_color_map_invert(self, invert: bool) -> (fill: Self)
        ensures
            fill@ == (MarkerFillView { color_map_invert: Some(invert), ..self@ }),
    {
        let mut fill = self;
        fill.set_color_map_invert(invert);
        fill
    }

    /// Writes the settings into the scope that is open.
    pub fn write<S: Sink>(&self, sink: &mut S) -> (r: Result<(), S::Error>)
        ensures
            emitted(old(sink).history(), final(sink).history(), self@.commands(), r),
            old(sink).willing() ==> r is Ok && final(sink).willing(),
    {
        let ghost pre = sink.history();
        let ghost parts = self@.parts();
        proof {
            self@.lemma_parts_balanced();
            lemma_parts_begin(pre, parts);
        }

        let ghost mid = sink.history();
        let mut r: Result<(), S::Error> = Ok(());
        if let Some(hide) = &self.hide {
            r = SetRaw("MarkerFill/hide", hide.as_veusz_api1_value_str()).write(sink);
        }
        proof {
            lemma_part(pre, mid, sink.history(), parts, 0, r);
        }
        r?;

        let ghost mid = sink.history();
        let mut r: Result<(), S::Error> = Ok(());
        if let Some(color_map) = &self.color_map {
            r = SetText("MarkerFill/colorMap", color_map.as_veusz_api1_value_str()).write(sink);
        }
        proof {
            lemma_part(pre, mid, sink.history(), parts, 1, r);
        }
        r?;

        let ghost mid = sink.history();
        let mut r: Result<(), S::Error> = Ok(());
        if let Some(invert) = &self.color_map_invert {
            r = SetRaw("MarkerFill/colorMapInvert", invert.as_veusz_api1_value_str()).write(sink);
        }
        proof {
            lemma_part(pre, mid, sink.history(), parts, 2, r);
        }
        r?;

        proof {
            lemma_parts_end(parts);
        }
        Ok(())
    }
}

} // verus!
