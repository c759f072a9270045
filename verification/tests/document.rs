use veusz::api1::transcript::{Refused, Transcript};
use veusz::api1::{AutoNameIncrement, LineWriter, Stream};
use veusz::data::Data;
use veusz::export::{Export, SvgExport};
use veusz::number::Number;
use veusz::page::{Axis, Graph, Grid, Label, Page, Xy};
use veusz::style::line::LineStyle;
use veusz::style::marker::Marker;
use veusz::style::plot::PlotLine;
use veusz::style::ColorName;
use veusz::Veusz;

fn literals(values: &[f64]) -> Vec<String> {
    values.iter().map(|v| format!("{}", v)).collect()
}

fn lines_of(document: &Veusz) -> Vec<String> {
    let mut sink = Transcript::new();
    assert_eq!(document.write(&mut sink), Ok(()));
    sink.lines()
}

fn enters(line: &str) -> bool {
    line.starts_with("To(u'")
}

fn leaves(line: &str) -> bool {
    line == "To('..')"
}

/// The number of scopes open after `lines`, or `None` where some line leaves
/// a scope that no line entered.
fn open_after(lines: &[String]) -> Option<usize> {
    let mut open: usize = 0;
    for line in lines {
        if enters(line) {
            open += 1;
        } else if leaves(line) {
            if open == 0 {
                return None;
            }
            open -= 1;
        }
    }
    Some(open)
}

fn sample(names: &mut AutoNameIncrement) -> Veusz {
    let graph = Graph::new(names)
        .with_xy_axis("t", "v")
        .with_xy(
            Xy::data(names, "x", "sin")
                .with_marker(Marker::NoMarker)
                .with_plot_line(
                    PlotLine::default()
                        .with_color_by_name(ColorName::Blue)
                        .with_style(LineStyle::DashDotDot)
                        .with_width(Number::new("3")),
                ),
        )
        .with_xy(Xy::data(names, "x", "cos"));
    let grid = Grid::new(names)
        .with_rows(1)
        .with(Label::new(names, "left"))
        .with(Grid::new(names).with(Label::new(names, "inner")));
    Veusz::default()
        .with_data(Data::new("x", literals(&[0.0, 0.5, 1.0])))
        .with_data(Data::new("sin", literals(&[0.0, 0.479, 0.841])))
        .with_data(Data::new("cos", literals(&[1.0, 0.878, 0.54])))
        .with_page(Page::new(names).with_item(graph))
        .with_page(Page::new(names).with_item(grid))
        .with_export(SvgExport::target("out").with_color(true))
}

#[test]
fn an_empty_document_writes_nothing() {
    assert!(lines_of(&Veusz::default()).is_empty());
}

#[test]
fn a_data_set_joins_its_values_with_comma_and_space() {
    let mut sink = Transcript::new();
    assert_eq!(Data::new("x", literals(&[0.0, 1.0, 2.0])).write(&mut sink), Ok(()));
    assert_eq!(Data::new("empty", Vec::new()).write(&mut sink), Ok(()));
    assert_eq!(Data::new("one", vec!["7".to_string()]).write(&mut sink), Ok(()));
    assert_eq!(
        sink.lines(),
        vec!["SetData(u'x', [0, 1, 2])", "SetData(u'empty', [])", "SetData(u'one', [7])"]
    );
}

#[test]
fn one_data_set_one_page_one_graph_one_series() {
    let mut names = AutoNameIncrement::new();
    let document = Veusz::default()
        .with_data(Data::new("x", literals(&[0.0, 1.0, 2.0])))
        .with_page(
            Page::new(&mut names).with_item(
                Graph::new(&mut names)
                    .with_axis(Axis::x("t"))
                    .with_axis(Axis::y("v"))
                    .with_xy(Xy::data(&mut names, "x", "x")),
            ),
        );
    let lines = lines_of(&document);
    assert_eq!(
        lines,
        vec![
            "SetData(u'x', [0, 1, 2])",
            "Add('page', name=u'page1', autoadd=False)",
            "To(u'page1')",
            "Add('graph', name=u'graph1', autoadd=False)",
            "To(u'graph1')",
            "Add('axis', name=u'x', autoadd=False)",
            "To(u'x')",
            "Set('label', u't')",
            "To('..')",
            "Add('axis', name=u'y', autoadd=False)",
            "To(u'y')",
            "Set('label', u'v')",
            "To('..')",
            "Add('xy', name=u'xy1', autoadd=False)",
            "To(u'xy1')",
            "Set('xData', u'x')",
            "Set('yData', u'x')",
            "To('..')",
            "To('..')",
            "To('..')",
        ]
    );
    assert_eq!(lines.len(), 20);
}

#[test]
fn data_sets_pages_and_exports_are_written_in_this_order() {
    let mut names = AutoNameIncrement::new();
    let document = Veusz::default()
        .with_export(SvgExport::target("first"))
        .with_page(Page::new(&mut names))
        .with_data(Data::new("a", vec!["1".to_string()]))
        .with_exports(vec![
            Export::from(SvgExport::target("second").with_page(1)),
            Export::from(SvgExport::target("third")),
        ])
        .with_pages(vec![Page::new(&mut names), Page::new(&mut names)])
        .with_data_sets(vec![Data::new("b", Vec::new()), Data::new("c", Vec::new())]);
    assert_eq!(
        lines_of(&document),
        vec![
            "SetData(u'a', [1])",
            "SetData(u'b', [])",
            "SetData(u'c', [])",
            "Add('page', name=u'page1', autoadd=False)",
            "To(u'page1')",
            "To('..')",
            "Add('page', name=u'page2', autoadd=False)",
            "To(u'page2')",
            "To('..')",
            "Add('page', name=u'page3', autoadd=False)",
            "To(u'page3')",
            "To('..')",
            "Export('first.svg')",
            "Export('second.svg', page=1)",
            "Export('third.svg')",
        ]
    );
}

#[test]
fn data_sets_keep_the_order_in_which_they_were_added() {
    let mut document = Veusz::default();
    for i in 0..20 {
        document.add_data(Data::new(&format!("d{}", i), vec![format!("{}", i)]));
    }
    let lines = lines_of(&document);
    assert_eq!(lines.len(), 20);
    for i in 0..20 {
        assert_eq!(lines[i], format!("SetData(u'd{}', [{}])", i, i));
    }
}

#[test]
fn pages_keep_the_order_in_which_they_were_added() {
    let mut names = AutoNameIncrement::new();
    let mut document = Veusz::default();
    for _ in 0..5 {
        document.add_page(Page::new(&mut names));
    }
    let lines = lines_of(&document);
    assert_eq!(lines.len(), 15);
    for i in 0..5 {
        assert_eq!(lines[3 * i], format!("Add('page', name=u'page{}', autoadd=False)", i + 1));
    }
}

#[test]
fn the_stream_of_a_document_is_balanced() {
    let mut names = AutoNameIncrement::new();
    let lines = lines_of(&sample(&mut names));
    assert_eq!(lines.iter().filter(|l| enters(l)).count(), 11);
    assert_eq!(lines.iter().filter(|l| leaves(l)).count(), 11);
    for k in 0..=lines.len() {
        assert!(open_after(&lines[..k]).is_some());
    }
    assert_eq!(open_after(&lines), Some(0));
}

#[test]
fn whichever_line_is_refused_the_scopes_entered_are_left() {
    let mut names = AutoNameIncrement::new();
    let document = sample(&mut names);
    let all = lines_of(&document);
    for k in 0..all.len() {
        let mut sink = Transcript::refusing(k, k + 1);
        assert_eq!(document.write(&mut sink), Err(Refused { attempt: k }));
        let attempted = sink.attempted_lines();
        let taken = sink.lines();
        // every line up to the refused one was tried, then only lines that
        // leave a scope
        assert_eq!(attempted[..=k], all[..=k]);
        assert!(attempted[k + 1..].iter().all(|l| leaves(l)));
        // what the sink was made to enter, it was asked to leave
        let entered = taken.iter().filter(|l| enters(l)).count();
        let left = attempted.iter().filter(|l| leaves(l)).count();
        assert_eq!(entered, left);
        // and where the refused line does not itself leave a scope, the
        // lines taken are balanced
        if !leaves(&all[k]) {
            assert_eq!(open_after(&taken), Some(0));
        }
    }
}

#[test]
fn a_sink_that_refuses_everything_from_some_line_on_is_still_asked_to_leave() {
    let mut names = AutoNameIncrement::new();
    let document = sample(&mut names);
    let all = lines_of(&document);
    for k in 0..all.len() {
        let mut sink = Transcript::refusing(k, usize::MAX);
        let r = document.write(&mut sink);
        let attempted = sink.attempted_lines();
        assert_eq!(r, Err(Refused { attempt: attempted.len() - 1 }));
        let entered = all[..k].iter().filter(|l| enters(l)).count();
        let left = attempted.iter().filter(|l| leaves(l)).count();
        assert_eq!(entered, left);
    }
}

#[test]
fn writing_twice_gives_the_same_stream() {
    let mut names = AutoNameIncrement::new();
    let document = sample(&mut names);
    let mut first = Transcript::new();
    let mut second = Transcript::new();
    assert_eq!(document.write(&mut first), Ok(()));
    assert_eq!(document.save_configuration(&mut second), Ok(()));
    assert_eq!(first.text(), second.text());
    assert_eq!(first.lines(), second.lines());
    assert_eq!(first.text().lines().count(), first.attempts());
}

#[test]
fn a_saved_document_is_handed_back() {
    let mut names = AutoNameIncrement::new();
    let document = sample(&mut names);
    let before = lines_of(&document);
    let mut sink = Transcript::new();
    let document = match document.with_saved_configuration(&mut sink) {
        Ok(document) => document,
        Err(_) => panic!("the transcript refuses nothing"),
    };
    assert_eq!(sink.lines(), before);
    assert_eq!(lines_of(&document), before);

    let mut sink = Transcript::refusing(2, 3);
    match document.with_saved_configuration(&mut sink) {
        Ok(_) => panic!("the third line is refused"),
        Err(e) => assert_eq!(e, Refused { attempt: 2 }),
    }
}

struct Text {
    text: String,
    room: usize,
}

impl LineWriter for Text {
    type Error = String;

    fn put(&mut self, line: &str) -> Result<(), String> {
        if self.room == 0 {
            return Err(format!("no room for {}", line));
        }
        self.room -= 1;
        self.text.push_str(line);
        self.text.push('\n');
        Ok(())
    }
}

#[test]
fn a_document_is_written_to_any_writer_of_lines() {
    let mut names = AutoNameIncrement::new();
    let document = sample(&mut names);
    let mut sink = Stream::new(Text { text: String::new(), room: usize::MAX });
    assert_eq!(document.write(&mut sink), Ok(()));
    let mut transcript = Transcript::new();
    assert_eq!(document.write(&mut transcript), Ok(()));
    assert_eq!(sink.into_inner().text, transcript.text());

    // the line that enters the page is refused: nothing is left
    let mut sink = Stream::new(Text { text: String::new(), room: 4 });
    assert_eq!(document.write(&mut sink), Err("no room for To(u'page1')".to_string()));
    assert_eq!(
        sink.into_inner().text,
        "SetData(u'x', [0, 0.5, 1])\nSetData(u'sin', [0, 0.479, 0.841])\nSetData(u'cos', [1, 0.878, 0.54])\nAdd('page', name=u'page1', autoadd=False)\n"
    );
    // the declaration of the graph is refused, and then the line that
    // leaves the page: the error of the later one is returned
    let mut sink = Stream::new(Text { text: String::new(), room: 5 });
    assert_eq!(document.write(&mut sink), Err("no room for To('..')".to_string()));
    assert_eq!(sink.into_inner().text.lines().count(), 5);
}
