use veusz::api1::transcript::{Refused, Transcript};
use veusz::api1::AutoNameIncrement;
use veusz::number::Number;
use veusz::page::{
    Alignment, AspectRatio, Axis, AxisDirection, Graph, Grid, Label, Page, PageItem, Positioning,
    TextConfig, TextSize, Xy,
};
use veusz::size::SizeUnit;
use veusz::style::marker::{Marker, MarkerFill, MarkerLine};
use veusz::style::plot::PlotLine;
use veusz::style::{Color, ColorMap};

fn number(value: f64) -> Number {
    Number::new(&format!("{}", value))
}

fn numbers(values: &[f64]) -> Vec<Number> {
    values.iter().map(|v| number(*v)).collect()
}

fn lines_of_axis(axis: &Axis) -> Vec<String> {
    let mut sink = Transcript::new();
    assert_eq!(axis.write(&mut sink), Ok(()));
    sink.lines()
}

fn lines_of_label(label: &Label) -> Vec<String> {
    let mut sink = Transcript::new();
    assert_eq!(label.write(&mut sink), Ok(()));
    sink.lines()
}

fn lines_of_xy(xy: &Xy) -> Vec<String> {
    let mut sink = Transcript::new();
    assert_eq!(xy.write(&mut sink), Ok(()));
    sink.lines()
}

fn lines_of_graph(graph: &Graph) -> Vec<String> {
    let mut sink = Transcript::new();
    assert_eq!(graph.write(&mut sink), Ok(()));
    sink.lines()
}

fn lines_of_grid(grid: &Grid) -> Vec<String> {
    let mut sink = Transcript::new();
    assert_eq!(grid.write(&mut sink), Ok(()));
    sink.lines()
}

fn lines_of_page(page: &Page) -> Vec<String> {
    let mut sink = Transcript::new();
    assert_eq!(page.write(&mut sink), Ok(()));
    sink.lines()
}

#[test]
fn alignments_have_the_words_of_the_interpreter() {
    assert_eq!(Alignment::Top.as_str(), "top");
    assert_eq!(Alignment::Bottom.as_str(), "bottom");
    assert_eq!(Alignment::Left.as_str(), "left");
    assert_eq!(Alignment::Right.as_str(), "right");
    assert_eq!(Alignment::Center.as_str(), "centre");
}

#[test]
fn positionings_have_the_words_of_the_interpreter() {
    assert_eq!(Positioning::Relative.as_str(), "relative");
    assert_eq!(Positioning::Axes.as_str(), "axes");
}

#[test]
fn sizes_are_written_with_their_unit() {
    assert_eq!(SizeUnit::Centimeter(number(21.0)).to_string(), "21 cm");
    assert_eq!(SizeUnit::Centimeter(number(29.7)).to_string(), "29.7 cm");
    assert_eq!(TextSize::Pt(number(12.0)).to_string(), "12pt");
    assert_eq!(TextSize::Pt(number(7.5)).to_string(), "7.5pt");
}

#[test]
fn the_x_axis_writes_its_label_only() {
    assert_eq!(
        lines_of_axis(&Axis::x("time")),
        vec![
            "Add('axis', name=u'x', autoadd=False)",
            "To(u'x')",
            "Set('label', u'time')",
            "To('..')",
        ]
    );
}

#[test]
fn the_y_axis_writes_its_label_only() {
    assert_eq!(
        lines_of_axis(&Axis::y("volts")),
        vec![
            "Add('axis', name=u'y', autoadd=False)",
            "To(u'y')",
            "Set('label', u'volts')",
            "To('..')",
        ]
    );
}

#[test]
fn the_direction_of_an_axis_is_written_where_it_is_set() {
    assert_eq!(
        lines_of_axis(&Axis::y("volts").with_direction(AxisDirection::Vertical)),
        vec![
            "Add('axis', name=u'y', autoadd=False)",
            "To(u'y')",
            "Set('label', u'volts')",
            "Set('direction', u'vertical')",
            "To('..')",
        ]
    );
    assert_eq!(
        lines_of_axis(
            &Axis::x("t")
                .with_min(Some(number(0.0)))
                .with_direction(AxisDirection::Vertical)
                .with_direction(AxisDirection::Horizontal)
        ),
        vec![
            "Add('axis', name=u'x', autoadd=False)",
            "To(u'x')",
            "Set('label', u't')",
            "Set('direction', u'horizontal')",
            "Set('min', 0)",
            "To('..')",
        ]
    );
}

#[test]
fn the_bounds_of_an_axis_are_written_as_literals() {
    let axis = Axis::x("t").with_max(Some(number(10.5))).with_min(Some(number(-1.0)));
    assert_eq!(
        lines_of_axis(&axis),
        vec![
            "Add('axis', name=u'x', autoadd=False)",
            "To(u'x')",
            "Set('label', u't')",
            "Set('min', -1)",
            "Set('max', 10.5)",
            "To('..')",
        ]
    );
    let axis = axis.with_min(None);
    assert_eq!(
        lines_of_axis(&axis),
        vec![
            "Add('axis', name=u'x', autoadd=False)",
            "To(u'x')",
            "Set('label', u't')",
            "Set('max', 10.5)",
            "To('..')",
        ]
    );
    let axis = axis.with_max(None);
    assert_eq!(lines_of_axis(&axis), lines_of_axis(&Axis::x("t")));
}

#[test]
fn a_label_with_nothing_set_writes_its_text_only() {
    let mut names = AutoNameIncrement::new();
    let label = Label::new(&mut names, "hello");
    assert_eq!(
        lines_of_label(&label),
        vec![
            "Add('label', name=u'label1', autoadd=False)",
            "To(u'label1')",
            "Set('label', u'hello')",
            "To('..')",
        ]
    );
}

#[test]
fn a_label_writes_its_fields_in_their_order() {
    let mut names = AutoNameIncrement::new();
    let label = Label::new(&mut names, "peak")
        .with_text_config(TextConfig::from(TextSize::Pt(number(14.0))))
        .with_positioning(Positioning::Axes)
        .with_alignment_vertical(Alignment::Top)
        .with_alignment_horizontal(Alignment::Center)
        .with_y_positions(numbers(&[0.25]))
        .with_x_positions(numbers(&[1.0, 2.5, 3.0]));
    assert_eq!(
        lines_of_label(&label),
        vec![
            "Add('label', name=u'label1', autoadd=False)",
            "To(u'label1')",
            "Set('label', u'peak')",
            "SetData(u'xPos', [1, 2.5, 3])",
            "SetData(u'yPos', [0.25])",
            "Set('alignHorz', u'centre')",
            "Set('alignVert', u'top')",
            "Set('positioning', u'axes')",
            "Set('Text/size', u'14pt')",
            "To('..')",
        ]
    );
}

#[test]
fn each_field_of_a_label_writes_one_line() {
    let mut names = AutoNameIncrement::new();
    let plain = lines_of_label(&Label::new(&mut names, "a"));
    let mut names = AutoNameIncrement::new();
    let cases: Vec<(Label, &str)> = vec![
        (
            Label::new(&mut AutoNameIncrement::new(), "a").with_x_positions(numbers(&[0.5])),
            "SetData(u'xPos', [0.5])",
        ),
        (
            Label::new(&mut AutoNameIncrement::new(), "a").with_y_positions(numbers(&[0.5, 1.0])),
            "SetData(u'yPos', [0.5, 1])",
        ),
        (
            Label::new(&mut AutoNameIncrement::new(), "a")
                .with_alignment_horizontal(Alignment::Right),
            "Set('alignHorz', u'right')",
        ),
        (
            Label::new(&mut AutoNameIncrement::new(), "a")
                .with_alignment_vertical(Alignment::Bottom),
            "Set('alignVert', u'bottom')",
        ),
        (
            Label::new(&mut AutoNameIncrement::new(), "a").with_positioning(Positioning::Relative),
            "Set('positioning', u'relative')",
        ),
        (
            Label::new(&mut names, "a").with_text_config(TextConfig::from(TextSize::Pt(number(8.0)))),
            "Set('Text/size', u'8pt')",
        ),
    ];
    for (label, expected) in cases {
        let lines = lines_of_label(&label);
        assert_eq!(lines.len(), plain.len() + 1);
        assert_eq!(lines[..3], plain[..3]);
        assert_eq!(lines[3], expected);
        assert_eq!(lines[4], "To('..')");
    }
}

#[test]
fn the_positions_of_a_label_are_joined_like_the_values_of_a_data_set() {
    let mut names = AutoNameIncrement::new();
    let label = Label::new(&mut names, "hi").with_x_positions(numbers(&[0.5, 0.25]));
    assert_eq!(lines_of_label(&label)[3], "SetData(u'xPos', [0.5, 0.25])");
}

#[test]
fn a_label_without_positions_or_text_size_writes_no_line_for_them() {
    let mut names = AutoNameIncrement::new();
    let mut label = Label::new(&mut names, "a");
    label.set_x_positions(Vec::new());
    label.set_y_positions(Vec::new());
    label.set_text_config(TextConfig::default());
    assert_eq!(
        lines_of_label(&label),
        vec![
            "Add('label', name=u'label1', autoadd=False)",
            "To(u'label1')",
            "Set('label', u'a')",
            "To('..')",
        ]
    );
    label.set_align_horizontal(Alignment::Left);
    label.set_align_vertical(Alignment::Center);
    label.set_positioning(Positioning::Axes);
    label.set_y_positions(numbers(&[2.0]));
    assert_eq!(
        lines_of_label(&label),
        vec![
            "Add('label', name=u'label1', autoadd=False)",
            "To(u'label1')",
            "Set('label', u'a')",
            "SetData(u'yPos', [2])",
            "Set('alignHorz', u'left')",
            "Set('alignVert', u'centre')",
            "Set('positioning', u'axes')",
            "To('..')",
        ]
    );
}

#[test]
fn a_series_with_nothing_set_names_its_data_sets_only() {
    let mut names = AutoNameIncrement::new();
    let xy = Xy::data(&mut names, "x", "y");
    assert_eq!(
        lines_of_xy(&xy),
        vec![
            "Add('xy', name=u'xy1', autoadd=False)",
            "To(u'xy1')",
            "Set('xData', u'x')",
            "Set('yData', u'y')",
            "To('..')",
        ]
    );
}

#[test]
fn a_series_writes_its_styles_inside_its_own_scope() {
    let mut names = AutoNameIncrement::new();
    let xy = Xy::data(&mut names, "a", "b")
        .with_plot_line(PlotLine::default().with_hide(true))
        .with_marker_fill(MarkerFill::default().with_color_map(ColorMap::Royal))
        .with_marker_line(MarkerLine::default().with_transparency(50))
        .with_color(Color::points("c").with_min(number(0.0)))
        .with_marker(Marker::Circle);
    assert_eq!(
        lines_of_xy(&xy),
        vec![
            "Add('xy', name=u'xy1', autoadd=False)",
            "To(u'xy1')",
            "Set('marker', u'circle')",
            "Set('Color/points', u'c')",
            "Set('Color/min', 0)",
            "Set('MarkerLine/transparency', 50)",
            "Set('MarkerFill/colorMap', u'royal')",
            "Set('PlotLine/hide', True)",
            "Set('xData', u'a')",
            "Set('yData', u'b')",
            "To('..')",
        ]
    );
}

#[test]
fn the_setters_of_a_series_do_what_the_builders_do() {
    let mut names = AutoNameIncrement::new();
    let mut xy = Xy::data(&mut names, "a", "b");
    xy.set_marker(Marker::NoMarker);
    xy.set_color(Color::points("c"));
    xy.set_marker_line(MarkerLine::default());
    xy.set_marker_fill(MarkerFill::default().with_hide(true));
    xy.set_plot_line(PlotLine::default().with_color("red"));
    assert_eq!(
        lines_of_xy(&xy),
        vec![
            "Add('xy', name=u'xy1', autoadd=False)",
            "To(u'xy1')",
            "Set('marker', u'none')",
            "Set('Color/points', u'c')",
            "Set('MarkerFill/hide', True)",
            "Set('PlotLine/color', u'red')",
            "Set('xData', u'a')",
            "Set('yData', u'b')",
            "To('..')",
        ]
    );
}

#[test]
fn an_empty_graph_is_declared_entered_and_left() {
    let mut names = AutoNameIncrement::new();
    assert_eq!(
        lines_of_graph(&Graph::new(&mut names)),
        vec!["Add('graph', name=u'graph1', autoadd=False)", "To(u'graph1')", "To('..')"]
    );
}

#[test]
fn the_aspect_of_a_graph_is_a_word_or_a_literal() {
    let mut names = AutoNameIncrement::new();
    let graph = Graph::new(&mut names).with_aspect(AspectRatio::Auto);
    assert_eq!(
        lines_of_graph(&graph),
        vec![
            "Add('graph', name=u'graph1', autoadd=False)",
            "To(u'graph1')",
            "Set('aspect', u'Auto')",
            "To('..')",
        ]
    );
    let graph = Graph::new(&mut names).with_aspect(number(1.5));
    assert_eq!(
        lines_of_graph(&graph),
        vec![
            "Add('graph', name=u'graph2', autoadd=False)",
            "To(u'graph2')",
            "Set('aspect', 1.5)",
            "To('..')",
        ]
    );
    let mut graph = Graph::new(&mut names);
    graph.set_aspect(AspectRatio::Fix(number(2.0)));
    assert_eq!(
        lines_of_graph(&graph),
        vec![
            "Add('graph', name=u'graph3', autoadd=False)",
            "To(u'graph3')",
            "Set('aspect', 2)",
            "To('..')",
        ]
    );
}

#[test]
fn a_graph_writes_its_axes_then_its_series_in_the_order_added() {
    let mut names = AutoNameIncrement::new();
    let first = Xy::data(&mut names, "x", "s");
    let second = Xy::data(&mut names, "x", "c");
    let third = Xy::data(&mut names, "x", "d");
    let mut graph = Graph::new(&mut names).with_xy(first).with_xy_axis("t", "v");
    graph.add_xy(second);
    let graph = graph.with_xy_sets(vec![third]).with_axis(Axis::x("again"));
    assert_eq!(
        lines_of_graph(&graph),
        vec![
            "Add('graph', name=u'graph1', autoadd=False)",
            "To(u'graph1')",
            "Add('axis', name=u'x', autoadd=False)",
            "To(u'x')",
            "Set('label', u't')",
            "To('..')",
            "Add('axis', name=u'y', autoadd=False)",
            "To(u'y')",
            "Set('label', u'v')",
            "To('..')",
            "Add('axis', name=u'x', autoadd=False)",
            "To(u'x')",
            "Set('label', u'again')",
            "To('..')",
            "Add('xy', name=u'xy1', autoadd=False)",
            "To(u'xy1')",
            "Set('xData', u'x')",
            "Set('yData', u's')",
            "To('..')",
            "Add('xy', name=u'xy2', autoadd=False)",
            "To(u'xy2')",
            "Set('xData', u'x')",
            "Set('yData', u'c')",
            "To('..')",
            "Add('xy', name=u'xy3', autoadd=False)",
            "To(u'xy3')",
            "Set('xData', u'x')",
            "Set('yData', u'd')",
            "To('..')",
            "To('..')",
        ]
    );
}

#[test]
fn a_grid_writes_its_counts_then_its_items() {
    let mut names = AutoNameIncrement::new();
    assert_eq!(
        lines_of_grid(&Grid::new(&mut names)),
        vec!["Add('grid', name=u'grid1', autoadd=False)", "To(u'grid1')", "To('..')"]
    );
    let label = Label::new(&mut names, "a");
    let graph = Graph::new(&mut names);
    let grid = Grid::new(&mut names).with(label).with_columns(3).with_rows(2).with(graph);
    assert_eq!(
        lines_of_grid(&grid),
        vec![
            "Add('grid', name=u'grid2', autoadd=False)",
            "To(u'grid2')",
            "Set('rows', 2)",
            "Set('columns', 3)",
            "Add('label', name=u'label1', autoadd=False)",
            "To(u'label1')",
            "Set('label', u'a')",
            "To('..')",
            "Add('graph', name=u'graph1', autoadd=False)",
            "To(u'graph1')",
            "To('..')",
            "To('..')",
        ]
    );
    let mut grid = Grid::new(&mut names);
    grid.set_columns(u32::MAX);
    assert_eq!(
        lines_of_grid(&grid),
        vec![
            "Add('grid', name=u'grid3', autoadd=False)",
            "To(u'grid3')",
            "Set('columns', 4294967295)",
            "To('..')",
        ]
    );
    let mut grid = Grid::new(&mut names);
    grid.set_rows(0);
    assert_eq!(
        lines_of_grid(&grid),
        vec![
            "Add('grid', name=u'grid4', autoadd=False)",
            "To(u'grid4')",
            "Set('rows', 0)",
            "To('..')",
        ]
    );
}

#[test]
fn grids_nest() {
    let mut names = AutoNameIncrement::new();
    let innermost = Grid::new(&mut names).with(Label::new(&mut names, "deep"));
    let mut inner = Grid::new(&mut names);
    inner.add(innermost);
    inner.add(Label::new(&mut names, "beside"));
    let outer = Grid::new(&mut names).with_items(vec![
        PageItem::from(inner),
        PageItem::from(Graph::new(&mut names)),
    ]);
    assert_eq!(
        lines_of_grid(&outer),
        vec![
            "Add('grid', name=u'grid3', autoadd=False)",
            "To(u'grid3')",
            "Add('grid', name=u'grid2', autoadd=False)",
            "To(u'grid2')",
            "Add('grid', name=u'grid1', autoadd=False)",
            "To(u'grid1')",
            "Add('label', name=u'label1', autoadd=False)",
            "To(u'label1')",
            "Set('label', u'deep')",
            "To('..')",
            "To('..')",
            "Add('label', name=u'label2', autoadd=False)",
            "To(u'label2')",
            "Set('label', u'beside')",
            "To('..')",
            "To('..')",
            "Add('graph', name=u'graph1', autoadd=False)",
            "To(u'graph1')",
            "To('..')",
            "To('..')",
        ]
    );
}

#[test]
fn a_page_writes_its_size_then_its_items_in_the_order_added() {
    let mut names = AutoNameIncrement::new();
    assert_eq!(
        lines_of_page(&Page::new(&mut names)),
        vec!["Add('page', name=u'page1', autoadd=False)", "To(u'page1')", "To('..')"]
    );
    let mut page = Page::new(&mut names)
        .with_item(Label::new(&mut names, "first"))
        .with_height(Some(SizeUnit::Centimeter(number(10.0))))
        .with_width(Some(SizeUnit::Centimeter(number(15.5))));
    page.add(Graph::new(&mut names));
    let page = page.with_items(vec![PageItem::from(Label::new(&mut names, "last"))]);
    assert_eq!(
        lines_of_page(&page),
        vec![
            "Add('page', name=u'page2', autoadd=False)",
            "To(u'page2')",
            "Set('width', u'15.5 cm')",
            "Set('height', u'10 cm')",
            "Add('label', name=u'label1', autoadd=False)",
            "To(u'label1')",
            "Set('label', u'first')",
            "To('..')",
            "Add('graph', name=u'graph1', autoadd=False)",
            "To(u'graph1')",
            "To('..')",
            "Add('label', name=u'label2', autoadd=False)",
            "To(u'label2')",
            "Set('label', u'last')",
            "To('..')",
            "To('..')",
        ]
    );
    let page = page.with_width(None).with_height(None);
    assert_eq!(lines_of_page(&page).len(), 14);
}

#[test]
fn an_item_is_written_as_what_it_holds() {
    let mut names = AutoNameIncrement::new();
    let item = PageItem::from(Label::new(&mut names, "a"));
    let mut sink = Transcript::new();
    assert_eq!(item.write(&mut sink), Ok(()));
    assert_eq!(
        sink.lines(),
        vec![
            "Add('label', name=u'label1', autoadd=False)",
            "To(u'label1')",
            "Set('label', u'a')",
            "To('..')",
        ]
    );
}

#[test]
fn a_refused_declaration_writes_nothing_more() {
    let mut names = AutoNameIncrement::new();
    let graph = Graph::new(&mut names).with_xy_axis("t", "v");
    let mut sink = Transcript::refusing(0, 1);
    assert_eq!(graph.write(&mut sink), Err(Refused { attempt: 0 }));
    assert_eq!(sink.attempted_lines(), vec!["Add('graph', name=u'graph1', autoadd=False)"]);
}

#[test]
fn a_refused_line_inside_nested_scopes_closes_them_all() {
    let mut names = AutoNameIncrement::new();
    let page = Page::new(&mut names).with_item(Graph::new(&mut names).with_xy_axis("t", "v"));
    // the label of the first axis is the seventh line
    let mut sink = Transcript::refusing(6, 7);
    assert_eq!(page.write(&mut sink), Err(Refused { attempt: 6 }));
    assert_eq!(
        sink.attempted_lines(),
        vec![
            "Add('page', name=u'page1', autoadd=False)",
            "To(u'page1')",
            "Add('graph', name=u'graph1', autoadd=False)",
            "To(u'graph1')",
            "Add('axis', name=u'x', autoadd=False)",
            "To(u'x')",
            "Set('label', u't')",
            "To('..')",
            "To('..')",
            "To('..')",
        ]
    );
    assert_eq!(
        sink.lines(),
        vec![
            "Add('page', name=u'page1', autoadd=False)",
            "To(u'page1')",
            "Add('graph', name=u'graph1', autoadd=False)",
            "To(u'graph1')",
            "Add('axis', name=u'x', autoadd=False)",
            "To(u'x')",
            "To('..')",
            "To('..')",
            "To('..')",
        ]
    );
}

#[test]
fn the_last_refusal_is_the_one_that_is_returned() {
    let mut names = AutoNameIncrement::new();
    let page = Page::new(&mut names).with_item(Graph::new(&mut names).with_xy_axis("t", "v"));
    // everything from the label of the first axis on is refused, the last
    // line that leaves a scope too
    let mut sink = Transcript::refusing(6, 100);
    assert_eq!(page.write(&mut sink), Err(Refused { attempt: 9 }));
    assert_eq!(sink.attempts(), 10);
    // the line that leaves the first axis is refused: it is not tried
    // again, and the scopes around it are left
    let mut sink = Transcript::refusing(7, 8);
    assert_eq!(page.write(&mut sink), Err(Refused { attempt: 7 }));
    assert_eq!(sink.attempts(), 10);
    assert_eq!(
        sink.lines(),
        vec![
            "Add('page', name=u'page1', autoadd=False)",
            "To(u'page1')",
            "Add('graph', name=u'graph1', autoadd=False)",
            "To(u'graph1')",
            "Add('axis', name=u'x', autoadd=False)",
            "To(u'x')",
            "Set('label', u't')",
            "To('..')",
            "To('..')",
        ]
    );
    // the line that enters the second axis is refused: nothing leaves it
    let mut sink = Transcript::refusing(9, 10);
    assert_eq!(page.write(&mut sink), Err(Refused { attempt: 9 }));
    assert_eq!(sink.attempts(), 12);
    assert_eq!(sink.attempted_lines()[9], "To(u'y')");
    assert_eq!(sink.attempted_lines()[10], "To('..')");
    assert_eq!(sink.attempted_lines()[11], "To('..')");
}
