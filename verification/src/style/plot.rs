//! The line that joins the points of a series.

use vstd::prelude::*;
use crate::api1::cmd::{Command, SetRaw, SetText};
use crate::api1::scope::{
    all_balanced, balanced, concat, emitted, lemma_concat_balanced, lemma_concat_empty,
    lemma_flat_parts, lemma_part, lemma_part_set, lemma_parts_begin, lemma_parts_end, raw_setting,
    start_of, text_setting,
};
use crate::api1::text::{decimal, to_decimal};
use crate::api1::{value_of, AsVueszApi1ValueStr, Sink};
use crate::number::{text_of, Number};
use crate::style::line::LineStyle;
use crate::style::{points, whole, ColorName};

verus! {

/// How the line that joins the points is drawn.
pub struct PlotLine {
    color: Option<String>,
    width: Option<Number>,
    style: Option<LineStyle>,
    transparency: Option<u8>,
    scale: Option<bool>,
    hide: Option<bool>,
}

/// What a `PlotLine` holds.
pub struct PlotLineView {
    /// The colour, by name or as the interpreter writes colours.
    pub color: Option<Seq<char>>,
    /// The width in points, as a literal.
    pub width: Option<Seq<char>>,
    /// The dash pattern.
    pub style: Option<LineStyle>,
    /// How transparent the line is, in percent.
    pub transparency: Option<u8>,
    /// Whether the width scales with the marker.
    pub scale: Option<bool>,
    /// Whether the line is left out.
    pub hide: Option<bool>,
}

impl PlotLineView {
    /// The settings that a `PlotLine` is written as, field by field: for
    /// each field at most one line, and none where the field is not set.
    pub open spec fn parts(self) -> Seq<Seq<Command>> {
        seq![
            text_setting("PlotLine/color"@, self.color),
            text_setting("PlotLine/width"@, points(self.width)),
            text_setting("PlotLine/style"@, value_of(self.style)),
            raw_setting("PlotLine/transparency"@, whole(self.transparency)),
            raw_setting("PlotLine/scaleLine"@, value_of(self.scale)),
            raw_setting("PlotLine/hide"@, value_of(self.hide)),
        ]
    }

    /// The settings that a `PlotLine` is written as, in the order of the
    /// fields.
    pub open spec fn commands(self) -> Seq<Command> {
        concat(self.parts())
    }

    /// Each field is written as settings only.
    pub proof fn lemma_parts_balanced(self)
        ensures
            all_balanced(self.parts()),
    {
        lemma_flat_parts(self.parts());
    }

    /// A `PlotLine` is written as a balanced run of lines.
    pub proof fn lemma_balanced(self)
        ensures
            balanced(self.commands()),
    {
        self.lemma_parts_balanced();
        lemma_concat_balanced(self.parts());
    }

    /// A `PlotLine` with nothing set is written as no line at all.
    pub proof fn lemma_nothing_set(self)
        requires
            self.color is None,
            self.width is None,
            self.style is None,
            self.transparency is None,
            self.scale is None,
            self.hide is None,
        ensures
            self.commands() == Seq::<Command>::empty(),
    {
        lemma_concat_empty(self.parts());
    }

    /// Setting the colour of the line that joins the points, where that is not
    /// set, puts the one line that sets it at its place among the lines, and
    /// changes no other line.
    pub proof fn lemma_color_line(self, color: Seq<char>)
        requires
            self.color is None,
        ensures
            (PlotLineView {
                color: Some(color),
                ..self
            }).commands() == self.commands().insert(
                start_of(self.parts(), 0),
                Command::SetText { property: "PlotLine/color"@, value: color },
            ),
    {
        let set = PlotLineView { color: Some(color), ..self };
        let line = Command::SetText { property: "PlotLine/color"@, value: color };
        assert(set.parts() =~= self.parts().update(0, seq![line]));
        lemma_part_set(self.parts(), 0, line);
    }

    /// Setting the width of the line that joins the points, where that is not
    /// set, puts the one line that sets it at its place among the lines, and
    /// changes no other line.
    pub proof fn lemma_width_line(self, width: Seq<char>)
        requires
            self.width is None,
        ensures
            (PlotLineView {
                width: Some(width),
                ..self
            }).commands() == self.commands().insert(
                start_of(self.parts(), 1),
                Command::SetText { property: "PlotLine/width"@, value: width + "pt"@ },
            ),
    {
        let set = PlotLineView { width: Some(width), ..self };
        let line = Command::SetText { property: "PlotLine/width"@, value: width + "pt"@ };
        assert(set.parts() =~= self.parts().update(1, seq![line]));
        lemma_part_set(self.parts(), 1, line);
    }

    /// Setting the dash pattern of the line that joins the points, where that
    /// is not set, puts the one line that sets it at its place among the lines,
    /// and changes no other line.
    pub proof fn lemma_style_line(self, style: LineStyle)
        requires
            self.style is None,
        ensures
            (PlotLineView {
                style: Some(style),
                ..self
            }).commands() == self.commands().insert(
                start_of(self.parts(), 2),
                Command::SetText { property: "PlotLine/style"@, value: style.api1_value() },
            ),
    {
        let set = PlotLineView { style: Some(style), ..self };
        let line = Command::SetText { property: "PlotLine/style"@, value: style.api1_value() };
        assert(set.parts() =~= self.parts().update(2, seq![line]));
        lemma_part_set(self.parts(), 2, line);
    }

    /// Setting how transparent the line that joins the points is, where that is
    /// not set, puts the one line that sets it at its place among the lines,
    /// and changes no other line.
    pub proof fn lemma_transparency_line(self, transparency: u8)
        requires
            self.transparency is None,
        ensures
            (PlotLineView {
                transparency: Some(transparency),
                ..self
            }).commands() == self.commands().insert(
                start_of(self.parts(), 3),
                Command::SetRaw {
                    property: "PlotLine/transparency"@,
                    literal: decimal(transparency as nat),
                },
            ),
    {
        let set = PlotLineView { transparency: Some(transparency), ..self };
        let line =
            Command::SetRaw {
                    property: "PlotLine/transparency"@,
                    literal: decimal(transparency as nat),
                };
        assert(set.parts() =~= self.parts().update(3, seq![line]));
        lemma_part_set(self.parts(), 3, line);
    }

    /// Setting whether the width of the line that joins the points scales,
    /// where that is not set, puts the one line that sets it at its place among
    /// the lines, and changes no other line.
    pub proof fn lemma_scale_line(self, scale: bool)
        requires
            self.scale is None,
        ensures
            (PlotLineView {
                scale: Some(scale),
                ..self
            }).commands() == self.commands().insert(
                start_of(self.parts(), 4),
                Command::SetRaw { property: "PlotLine/scaleLine"@, literal: scale.api1_value() },
            ),
    {
        let set = PlotLineView { scale: Some(scale), ..self };
        let line = Command::SetRaw { property: "PlotLine/scaleLine"@, literal: scale.api1_value() };
        assert(set.parts() =~= self.parts().update(4, seq![line]));
        lemma_part_set(self.parts(), 4, line);
    }

    /// Setting whether the line that joins the points is left out, where that
    /// is not set, puts the one line that sets it at its place among the lines,
    /// and changes no other line.
    pub proof fn lemma_hide_line(self, hide: bool)
        requires
            self.hide is None,
        ensures
            (PlotLineView {
                hide: Some(hide),
                ..self
            }).commands() == self.commands().insert(
                start_of(self.parts(), 5),
                Command::SetRaw { property: "PlotLine/hide"@, literal: hide.api1_value() },
            ),
    {
        let set = PlotLineView { hide: Some(hide), ..self };
        let line = Command::SetRaw { property: "PlotLine/hide"@, literal: hide.api1_value() };
        assert(set.parts() =~= self.parts().update(5, seq![line]));
        lemma_part_set(self.parts(), 5, line);
    }
}

impl View for PlotLine {
    type V = PlotLineView;

    closed spec fn view(&self) -> PlotLineView {
        PlotLineView {
            color: match self.color {
                Some(c) => Some(c@),
                None => None,
            },
            width: text_of(self.width),
            style: self.style,
            transparency: self.transparency,
            scale: self.scale,
            hide: self.hide,
        }
    }
}

impl Default for PlotLine {
    /// A `PlotLine` with nothing set.
    fn default() -> (line: Self)
        ensures
            line@ == (PlotLineView {
                color: None,
                width: None,
                style: None,
                transparency: None,
                scale: None,
                hide: None,
            }),
    {
        Self { color: None, width: None, style: None, transparency: None, scale: None, hide: None }
    }
}

impl PlotLine {
    /// Sets the colour, by name or as the interpreter writes colours.
    pub fn set_color(&mut self, color: &str)
        ensures
            final(self)@ == (PlotLineView { color: Some(color@), ..old(self)@ }),
    {
        self.color = Some(color.to_owned());
    }

    /// The same with the colour `color`.
    pub fn with_color(self, color: &str) -> (line: Self)
        ensures
            line@ == (PlotLineView { color: Some(color@), ..self@ }),
    {
        let mut line = self;
        line.set_color(color);
        line
    }

    /// Sets the colour to one that the interpreter knows by name.
    pub fn set_color_by_name(&mut self, color_name: ColorName)
        ensures
            final(self)@ == (PlotLineView { color: Some(color_name.api1_value()), ..old(self)@ }),
    {
        self.color = Some(color_name.as_veusz_api1_value_str().to_owned());
    }

    /// The same with a colour that the interpreter knows by name.
    pub fn with_color_by_name(self, color_name: ColorName) -> (line: Self)
        ensures
            line@ == (PlotLineView { color: Some(color_name.api1_value()), ..self@ }),
    {
        let mut line = self;
        line.set_color_by_name(color_name);
        line
    }

    /// Sets the width, in points.
    pub fn set_width(&mut self, pt: Number)
        ensures
            final(self)@ == (PlotLineView { width: Some(pt@), ..old(self)@ }),
    {
        self.width = Some(pt);
    }

    /// The same with the width `pt`, in points.
    pub fn with_width(self, pt: Number) -> (line: Self)
        ensures
            line@ == (PlotLineView { width: Some(pt@), ..self@ }),
    {
        let mut line = self;
        line.set_width(pt);
        line
    }

    /// Sets the dash pattern.
    pub fn set_style(&mut self, style: LineStyle)
        ensures
            final(self)@ == (PlotLineView { style: Some(style), ..old(self)@ }),
    {
        self.style = Some(style);
    }

    /// The same with the dash pattern `style`.
    pub fn with_style(self, style: LineStyle) -> (line: Self)
        ensures
            line@ == (PlotLineView { style: Some(style), ..self@ }),
    {
        let mut line = self;
        line.set_style(style);
        line
    }

    /// Sets how transparent the line is, in percent.
    pub fn set_transparency(&mut self, transparency: u8)
        ensures
            final(self)@ == (PlotLineView { transparency: Some(transparency), ..old(self)@ }),
    {
        self.transparency = Some(transparency);
    }

    /// The same, transparent by `transparency` percent.
    pub fn with_transparency(self, transparency: u8) -> (line: Self)
        ensures
            line@ == (PlotLineView { transparency: Some(transparency), ..self@ }),
    {
        let mut line = self;
        line.set_transparency(transparency);
        line
    }

    /// Sets whether the width scales with the marker.
    pub fn set_scale(&mut self, scale: bool)
        ensures
            final(self)@ == (PlotLineView { scale: Some(scale), ..old(self)@ }),
    {
        self.scale = Some(scale);
    }

    /// The same with `scale` for whether the width scales with the marker.
    pub fn with_scale(self, scale: bool) -> (line: Self)
        ensures
            line@ == (PlotLineView { scale: Some(scale), ..self@ }),
    {
        let mut line = self;
        line.set_scale(scale);
        line
    }

    /// Sets whether the line is left out.
    pub fn set_hide(&mut self, hide: bool)
        ensures
            final(self)@ == (PlotLineView { hide: Some(hide), ..old(self)@ }),
    {
        self.hide = Some(hide);
    }

    /// The same with `hide` for whether the line is left out.
    pub fn with_hide(self, hide: bool) -> (line: Self)
        ensures
            line@ == (PlotLineView { hide: Some(hide), ..self@ }),
    {
        let mut line = self;
        line.set_hide(hide);
        line
    }

    /// Writes the settings into the scope that is open.
    pub fn write<S: Sink>(&self, sink: &mut S) -> (r: Result<(), S::Error>)
        ensures
            emitted(old(sink).history(), final(sink).history(), self@.commands(), r),
            old(sink).willing() ==> r is Ok && final(sink).willing(),
    {
        let ghost pre = sink.history();
        let ghost parts = self@.parts();
        proof {
            self@.lemma_parts_balanced();
            lemma_parts_begin(pre, parts);
        }

        let ghost mid = sink.history();
        let mut r: Result<(), S::Error> = Ok(());
        if let Some(color) = &self.color {
            r = SetText("PlotLine/color", color.as_str()).write(sink);
        }
        proof {
            lemma_part(pre, mid, sink.history(), parts, 0, r);
        }
        r?;

        let ghost mid = sink.history();
        let mut r: Result<(), S::Error> = Ok(());
        if let Some(width) = &self.width {
            let mut text = String::from_str(width.as_str());
            text.append("pt");
            r = SetText("PlotLine/width", text.as_str()).write(sink);
        }
        proof {
            lemma_part(pre, mid, sink.history(), parts, 1, r);
        }
        r?;

        let ghost mid = sink.history();
        let mut r: Result<(), S::Error> = Ok(());
        if let Some(style) = &self.style {
            r = SetText("PlotLine/style", style.as_veusz_api1_value_str()).write(sink);
        }
        proof {
            lemma_part(pre, mid, sink.history(), parts, 2, r);
        }
        r?;

        let ghost mid = sink.history();
        let mut r: Result<(), S::Error> = Ok(());
        if let Some(transparency) = &self.transparency {
            r = SetRaw("PlotLine/transparency", to_decimal(*transparency as u64).as_str()).write(
                sink,
            );
        }
        proof {
            lemma_part(pre, mid, sink.history(), parts, 3, r);
        }
        r?;

        let ghost mid = sink.history();
        let mut r: Result<(), S::Error> = Ok(());
        if let Some(scale) = &self.scale {
            r = SetRaw("PlotLine/scaleLine", scale.as_veusz_api1_value_str()).write(sink);
        }
        proof {
            lemma_part(pre, mid, sink.history(), parts, 4, r);
        }
        r?;

        let ghost mid = sink.history();
        let mut r: Result<(), S::Error> = Ok(());
        if let Some(hide) = &self.hide {
            r = SetRaw("PlotLine/hide", hide.as_veusz_api1_value_str()).write(sink);
        }
        proof {
            lemma_part(pre, mid, sink.history(), parts, 5, r);
        }
        r?;

        proof {
            lemma_parts_end(parts);
        }
        Ok(())
    }
}

} // verus!
