//! What the interpreter is asked to export once the document stands.

use vstd::prelude::*;
use crate::api1::cmd::Command;
use crate::api1::scope::{emitted, lemma_emitted_one};
use crate::api1::text::{decimal, ends_with, join, joined, texts, to_decimal};
use crate::api1::{value_of, AsVueszApi1ValueStr, Sink};

verus! {

/// An export of the document.
pub enum Export {
    Svg(SvgExport),
}

/// What an `Export` holds.
pub enum ExportView {
    Svg(SvgExportView),
}

impl ExportView {
    /// The lines that an export is written as: one.
    pub open spec fn commands(self) -> Seq<Command> {
        match self {
            ExportView::Svg(svg) => svg.commands(),
        }
    }
}

impl View for Export {
    type V = ExportView;

    open spec fn view(&self) -> ExportView {
        match self {
            Export::Svg(svg) => ExportView::Svg(svg@),
        }
    }
}

impl From<SvgExport> for Export {
    /// The export of the document as a vector drawing.
    fn from(value: SvgExport) -> (export: Self)
        ensures
            export == Export::Svg(value),
    {
        Export::Svg(value)
    }
}

impl vstd::std_specs::convert::FromSpecImpl<SvgExport> for Export {
    open spec fn obeys_from_spec() -> bool {
        true
    }

    open spec fn from_spec(value: SvgExport) -> Self {
        Export::Svg(value)
    }
}

impl Export {
    /// Writes the export as what it holds is written.
    pub fn write<S: Sink>(&self, sink: &mut S) -> (r: Result<(), S::Error>)
        ensures
            emitted(old(sink).history(), final(sink).history(), self@.commands(), r),
            old(sink).willing() ==> r is Ok && final(sink).willing(),
    {
        match self {
            Export::Svg(svg) => svg.write(sink),
        }
    }
}

/// An export of the document as a vector drawing.
pub struct SvgExport {
    filename: String,
    color: Option<bool>,
    page: Option<usize>,
    text_as_text: Option<bool>,
}

/// What an `SvgExport` holds.
pub struct SvgExportView {
    /// The file to write; its name ends in `.svg`.
    pub filename: Seq<char>,
    /// Whether the drawing is in colour.
    pub color: Option<bool>,
    /// Which page is drawn.
    pub page: Option<usize>,
    /// Whether text stays text, or is drawn as curves.
    pub text_as_text: Option<bool>,
}

/// The name of the file that an export to `filename` writes: `filename`
/// itself where it ends in `.svg`, else `filename` with `.svg` behind it.
pub open spec fn svg_filename(filename: Seq<char>) -> Seq<char> {
    if ".svg"@.is_suffix_of(filename) {
        filename
    } else {
        filename + ".svg"@
    }
}

/// The name of the file that an export writes ends in `.svg`, and naming
/// that file again changes nothing.
pub proof fn lemma_svg_filename(filename: Seq<char>)
    ensures
        ".svg"@.is_suffix_of(svg_filename(filename)),
        svg_filename(svg_filename(filename)) == svg_filename(filename),
{
    let name = svg_filename(filename);
    if !".svg"@.is_suffix_of(filename) {
        assert(name.subrange(name.len() - ".svg"@.len(), name.len() as int) =~= ".svg"@);
    }
}

/// The option `key` with its value, where it has one.
pub open spec fn option(key: Seq<char>, value: Option<Seq<char>>) -> Seq<Seq<char>> {
    match value {
        Some(value) => seq![key + value],
        None => Seq::empty(),
    }
}

/// The number of a page in decimal, where there is one.
pub open spec fn page_number(page: Option<usize>) -> Option<Seq<char>> {
    match page {
        Some(page) => Some(decimal(page as nat)),
        None => None,
    }
}

impl SvgExportView {
    /// What stands between the brackets of the line: the name of the file
    /// in quotes, then each option that is set, in the order of the fields.
    pub open spec fn parameters(self) -> Seq<Seq<char>> {
        seq!["'"@ + self.filename + "'"@] + option("color="@, value_of(self.color)) + option(
            "page="@,
            page_number(self.page),
        ) + option("svgtextastext="@, value_of(self.text_as_text))
    }

    /// The line that asks for the export.
    pub open spec fn command(self) -> Command {
        Command::Export { arguments: joined(self.parameters(), ", "@) }
    }

    /// The lines that an export is written as: the one.
    pub open spec fn commands(self) -> Seq<Command> {
        seq![self.command()]
    }
}

impl SvgExportView {
    /// An export with no option set asks for the file, and for nothing
    /// else.
    pub proof fn lemma_nothing_set(self)
        requires
            self.color is None,
            self.page is None,
            self.text_as_text is None,
        ensures
            self.command() == (Command::Export { arguments: "'"@ + self.filename + "'"@ }),
    {
        assert(self.parameters() =~= seq!["'"@ + self.filename + "'"@]);
    }

    /// Setting whether the drawing is in colour, where that is not set,
    /// puts the one option that says so behind the name of the file, and
    /// changes no other.
    pub proof fn lemma_color_option(self, color: bool)
        requires
            self.color is None,
        ensures
            (SvgExportView { color: Some(color), ..self }).parameters()
                == self.parameters().insert(1, "color="@ + color.api1_value()),
    {
        assert((SvgExportView { color: Some(color), ..self }).parameters()
            =~= self.parameters().insert(1, "color="@ + color.api1_value()));
    }

    /// Setting the page, where it is not set, puts the one option that
    /// names it behind the colour, and changes no other.
    pub proof fn lemma_page_option(self, page: usize)
        requires
            self.page is None,
        ensures
            (SvgExportView { page: Some(page), ..self }).parameters() == self.parameters().insert(
                1 + option("color="@, value_of(self.color)).len() as int,
                "page="@ + decimal(page as nat),
            ),
    {
        assert((SvgExportView { page: Some(page), ..self }).parameters()
            =~= self.parameters().insert(
            1 + option("color="@, value_of(self.color)).len() as int,
            "page="@ + decimal(page as nat),
        ));
    }

    /// Setting whether text stays text, where that is not set, puts the one
    /// option that says so behind all others, and changes no other.
    pub proof fn lemma_text_as_text_option(self, text_as_text: bool)
        requires
            self.text_as_text is None,
        ensures
            (SvgExportView { text_as_text: Some(text_as_text), ..self }).parameters()
                == self.parameters().push("svgtextastext="@ + text_as_text.api1_value()),
    {
        assert((SvgExportView { text_as_text: Some(text_as_text), ..self }).parameters()
            =~= self.parameters().push("svgtextastext="@ + text_as_text.api1_value()));
    }
}

impl View for SvgExport {
    type V = SvgExportView;

    closed spec fn view(&self) -> SvgExportView {
        SvgExportView {
            filename: self.filename@,
            color: self.color,
            page: self.page,
            text_as_text: self.text_as_text,
        }
    }
}

impl SvgExport {
    /// An export to the file `filename`, or to `filename` with `.svg`
    /// behind it where it does not end so, with no option set.
    pub fn target(filename: &str) -> (export: Self)
        ensures
            export@ == (SvgExportView {
                filename: svg_filename(filename@),
                color: None,
                page: None,
                text_as_text: None,
            }),
    {
        let mut filename = filename.to_owned();
        if !ends_with(filename.as_str(), ".svg") {
            filename.append(".svg");
        }
        SvgExport { filename, color: None, page: None, text_as_text: None }
    }

    /// Sets whether the drawing is in colour.
    pub fn set_color(&mut self, color: bool)
        ensures
            final(self)@ == (SvgExportView { color: Some(color), ..old(self)@ }),
    {
        self.color = Some(color);
    }

    /// The same export with `color` for whether the drawing is in colour.
    pub fn with_color(self, color: bool) -> (export: Self)
        ensures
            export@ == (SvgExportView { color: Some(color), ..self@ }),
    {
        let mut export = self;
        export.set_color(color);
        export
    }

    /// Sets which page is drawn.
    pub fn set_page(&mut self, page: usize)
        ensures
            final(self)@ == (SvgExportView { page: Some(page), ..old(self)@ }),
    {
        self.page = Some(page);
    }

    /// The same export of the page `page`.
    pub fn with_page(self, page: usize) -> (export: Self)
        ensures
            export@ == (SvgExportView { page: Some(page), ..self@ }),
    {
        let mut export = self;
        export.set_page(page);
        export
    }

    /// Sets whether text stays text.
    pub fn set_text_as_text(&mut self, text_as_text: bool)
        ensures
            final(self)@ == (SvgExportView { text_as_text: Some(text_as_text), ..old(self)@ }),
    {
        self.text_as_text = Some(text_as_text);
    }

    /// The same export with `text_as_text` for whether text stays text.
    pub fn with_text_as_text(self, text_as_text: bool) -> (export: Self)
        ensures
            export@ == (SvgExportView { text_as_text: Some(text_as_text), ..self@ }),
    {
        let mut export = self;
        export.set_text_as_text(text_as_text);
        export
    }

    /// Writes the line that asks for the export.
    pub fn write<S: Sink>(&self, sink: &mut S) -> (r: Result<(), S::Error>)
        ensures
            emitted(old(sink).history(), final(sink).history(), self@.commands(), r),
            old(sink).willing() ==> r is Ok && final(sink).willing(),
    {
        let mut parameters: Vec<String> = Vec::new();

        let mut quoted = String::from_str("'");
        quoted.append(self.filename.as_str());
        quoted.append("'");
        parameters.push(quoted);
        let ghost named = seq!["'"@ + self@.filename + "'"@];
        assert(texts(parameters@) =~= named);

        if let Some(color) = self.color {
            let mut parameter = String::from_str("color=");
            parameter.append(color.as_veusz_api1_value_str());
            parameters.push(parameter);
        }
        let ghost coloured = named + option("color="@, value_of(self@.color));
        assert(texts(parameters@) =~= coloured);

        if let Some(page) = self.page {
            let mut parameter = String::from_str("page=");
            parameter.append(to_decimal(page as u64).as_str());
            parameters.push(parameter);
        }
        let ghost paged = coloured + option("page="@, page_number(self@.page));
        assert(texts(parameters@) =~= paged);

        if let Some(text_as_text) = self.text_as_text {
            let mut parameter = String::from_str("svgtextastext=");
            parameter.append(text_as_text.as_veusz_api1_value_str());
            parameters.push(parameter);
        }
        assert(texts(parameters@) =~= self@.parameters());

        let mut line = String::from_str("Export(");
        line.append(join(&parameters, ", ").as_str());
        line.append(")");
        let r = sink.write_line(line.as_str());
        proof {
            lemma_emitted_one(old(sink).history(), self@.command(), r);
        }
        r
    }
}

} // verus!
