use veusz::api1::transcript::{Refused, Transcript};
use veusz::api1::AsVueszApi1ValueStr;
use veusz::number::Number;
use veusz::style::line::LineStyle;
use veusz::style::marker::{Marker, MarkerFill, MarkerLine};
use veusz::style::plot::PlotLine;
use veusz::style::{Color, ColorMap, ColorName};

fn number(value: f64) -> Number {
    Number::new(&format!("{}", value))
}

#[test]
fn line_styles_have_the_words_of_the_interpreter() {
    assert_eq!(LineStyle::Solid.as_veusz_api1_value_str(), "solid");
    assert_eq!(LineStyle::Dashed.as_veusz_api1_value_str(), "dashed");
    assert_eq!(LineStyle::Dotted.as_veusz_api1_value_str(), "dotted");
    assert_eq!(LineStyle::DashDot.as_veusz_api1_value_str(), "dash-dot");
    assert_eq!(LineStyle::DashDotDot.as_veusz_api1_value_str(), "dash-dot-dot");
    assert_eq!(LineStyle::DottedFine.as_veusz_api1_value_str(), "dotted-fine");
    assert_eq!(LineStyle::DashedFine.as_veusz_api1_value_str(), "dashed-fine");
    assert_eq!(LineStyle::DashDotFine.as_veusz_api1_value_str(), "dash-dot-fine");
    assert_eq!(LineStyle::Dot1.as_veusz_api1_value_str(), "dot1");
    assert_eq!(LineStyle::Dot4.as_veusz_api1_value_str(), "dot4");
    assert_eq!(LineStyle::Dash1.as_veusz_api1_value_str(), "dash1");
    assert_eq!(LineStyle::Dash5.as_veusz_api1_value_str(), "dash5");
    assert_eq!(LineStyle::DashDot1.as_veusz_api1_value_str(), "dashdot1");
    assert_eq!(LineStyle::DashDot3.as_veusz_api1_value_str(), "dashdot3");
}

#[test]
fn color_maps_have_the_words_of_the_interpreter() {
    assert_eq!(ColorMap::Blank.as_veusz_api1_value_str(), "blank");
    assert_eq!(ColorMap::Heat.as_veusz_api1_value_str(), "heat");
    assert_eq!(ColorMap::Spectrum2Step.as_veusz_api1_value_str(), "spectrum2-step");
    assert_eq!(ColorMap::BlueGreen.as_veusz_api1_value_str(), "bluegreen");
    assert_eq!(ColorMap::CoolWarm.as_veusz_api1_value_str(), "cool-warm");
    assert_eq!(ColorMap::Sequential.as_veusz_api1_value_str(), "seq");
    assert_eq!(ColorMap::HotDesaturated.as_veusz_api1_value_str(), "hot_desaturated");
    assert_eq!(ColorMap::YellowGreenBlue.as_veusz_api1_value_str(), "yellow-green-blue");
    assert_eq!(ColorMap::YellowOrangeBrown.as_veusz_api1_value_str(), "yellow-green-brown");
    assert_eq!(ColorMap::YellowOrangeRed.as_veusz_api1_value_str(), "yellow-orange-red");
    assert_eq!(ColorMap::NoMap.as_veusz_api1_value_str(), "none");
    assert_eq!(ColorMap::CubeHelix.as_veusz_api1_value_str(), "cubehelix(0.5,-1.5,1,1)");
    assert_eq!(ColorMap::TransBlackStep5.as_veusz_api1_value_str(), "transblack-step5");
    assert_eq!(ColorMap::BlueDarkOrangeStep12.as_veusz_api1_value_str(), "blue-darkorange-step12");
    assert_eq!(ColorMap::SeqStep25.as_veusz_api1_value_str(), "seq-step25");
}

#[test]
fn color_names_have_the_words_of_the_interpreter() {
    assert_eq!(ColorName::Auto.as_veusz_api1_value_str(), "auto");
    assert_eq!(ColorName::Foreground.as_veusz_api1_value_str(), "foreground");
    assert_eq!(ColorName::Transparent.as_veusz_api1_value_str(), "transparent");
    assert_eq!(ColorName::White.as_veusz_api1_value_str(), "white");
    assert_eq!(ColorName::Black.as_veusz_api1_value_str(), "black");
    assert_eq!(ColorName::Red.as_veusz_api1_value_str(), "red");
    assert_eq!(ColorName::Grey.as_veusz_api1_value_str(), "grey");
    assert_eq!(ColorName::Darkred.as_veusz_api1_value_str(), "darkred");
    assert_eq!(ColorName::Darkmagenta.as_veusz_api1_value_str(), "darkmagenta");
}

#[test]
fn markers_have_the_words_of_the_interpreter() {
    assert_eq!(Marker::NoMarker.as_veusz_api1_value_str(), "none");
    assert_eq!(Marker::Circle.as_veusz_api1_value_str(), "circle");
}

#[test]
fn a_color_writes_its_data_set_and_the_bounds_that_are_set() {
    let mut sink = Transcript::new();
    assert_eq!(Color::points("z").write(&mut sink), Ok(()));
    assert_eq!(sink.lines(), vec!["Set('Color/points', u'z')"]);

    let mut sink = Transcript::new();
    let color = Color::points("z").with_min(number(0.5)).with_max(number(10.0));
    assert_eq!(color.write(&mut sink), Ok(()));
    assert_eq!(
        sink.lines(),
        vec!["Set('Color/points', u'z')", "Set('Color/min', 0.5)", "Set('Color/max', 10)"]
    );

    let mut sink = Transcript::new();
    let mut color = Color::points("z");
    color.set_max(number(-1.25));
    assert_eq!(color.write(&mut sink), Ok(()));
    assert_eq!(sink.lines(), vec!["Set('Color/points', u'z')", "Set('Color/max', -1.25)"]);
}

#[test]
fn a_marker_line_with_nothing_set_writes_nothing() {
    let mut sink = Transcript::new();
    assert_eq!(MarkerLine::default().write(&mut sink), Ok(()));
    assert_eq!(sink.attempts(), 0);
}

#[test]
fn a_marker_line_writes_its_fields_in_their_order() {
    let mut sink = Transcript::new();
    let line = MarkerLine::default()
        .with_hide(false)
        .with_scale(true)
        .with_transparency(40)
        .with_style(LineStyle::DashDot)
        .with_width(number(1.5))
        .with_color("#ff0000");
    assert_eq!(line.write(&mut sink), Ok(()));
    assert_eq!(
        sink.lines(),
        vec![
            "Set('MarkerLine/color', u'#ff0000')",
            "Set('MarkerLine/width', u'1.5pt')",
            "Set('MarkerLine/style', u'dash-dot')",
            "Set('MarkerLine/transparency', 40)",
            "Set('MarkerLine/scaleLine', True)",
            "Set('MarkerLine/hide', False)",
        ]
    );
}

#[test]
fn each_field_of_a_marker_line_writes_one_line() {
    let cases: Vec<(MarkerLine, &str)> = vec![
        (MarkerLine::default().with_color("red"), "Set('MarkerLine/color', u'red')"),
        (
            MarkerLine::default().with_color_by_name(ColorName::Darkcyan),
            "Set('MarkerLine/color', u'darkcyan')",
        ),
        (MarkerLine::default().with_width(number(2.0)), "Set('MarkerLine/width', u'2pt')"),
        (
            MarkerLine::default().with_style(LineStyle::Dot2),
            "Set('MarkerLine/style', u'dot2')",
        ),
        (MarkerLine::default().with_transparency(0), "Set('MarkerLine/transparency', 0)"),
        (MarkerLine::default().with_transparency(255), "Set('MarkerLine/transparency', 255)"),
        (MarkerLine::default().with_scale(false), "Set('MarkerLine/scaleLine', False)"),
        (MarkerLine::default().with_hide(true), "Set('MarkerLine/hide', True)"),
    ];
    for (line, expected) in cases {
        let mut sink = Transcript::new();
        assert_eq!(line.write(&mut sink), Ok(()));
        assert_eq!(sink.lines(), vec![expected]);
    }
}

#[test]
fn the_setters_of_a_marker_line_do_what_the_builders_do() {
    let mut line = MarkerLine::default();
    line.set_color("blue");
    line.set_color_by_name(ColorName::Green);
    line.set_width(number(0.25));
    line.set_style(LineStyle::Solid);
    line.set_transparency(7);
    line.set_scale(true);
    line.set_hide(true);
    let mut sink = Transcript::new();
    assert_eq!(line.write(&mut sink), Ok(()));
    assert_eq!(
        sink.lines(),
        vec![
            "Set('MarkerLine/color', u'green')",
            "Set('MarkerLine/width', u'0.25pt')",
            "Set('MarkerLine/style', u'solid')",
            "Set('MarkerLine/transparency', 7)",
            "Set('MarkerLine/scaleLine', True)",
            "Set('MarkerLine/hide', True)",
        ]
    );
}

#[test]
fn a_plot_line_writes_its_fields_in_their_order() {
    let mut sink = Transcript::new();
    assert_eq!(PlotLine::default().write(&mut sink), Ok(()));
    assert_eq!(sink.attempts(), 0);

    let line = PlotLine::default()
        .with_color_by_name(ColorName::Blue)
        .with_style(LineStyle::DashDotDot)
        .with_width(number(3.0));
    assert_eq!(line.write(&mut sink), Ok(()));
    assert_eq!(
        sink.lines(),
        vec![
            "Set('PlotLine/color', u'blue')",
            "Set('PlotLine/width', u'3pt')",
            "Set('PlotLine/style', u'dash-dot-dot')",
        ]
    );

    let mut sink = Transcript::new();
    let mut line = PlotLine::default();
    line.set_hide(false);
    line.set_scale(false);
    line.set_transparency(100);
    line.set_color("grey");
    line.set_width(number(1.0));
    line.set_style(LineStyle::Dash3);
    line.set_color_by_name(ColorName::Auto);
    assert_eq!(line.write(&mut sink), Ok(()));
    assert_eq!(
        sink.lines(),
        vec![
            "Set('PlotLine/color', u'auto')",
            "Set('PlotLine/width', u'1pt')",
            "Set('PlotLine/style', u'dash3')",
            "Set('PlotLine/transparency', 100)",
            "Set('PlotLine/scaleLine', False)",
            "Set('PlotLine/hide', False)",
        ]
    );
}

#[test]
fn a_truth_value_is_written_without_quotes() {
    let mut sink = Transcript::new();
    assert_eq!(PlotLine::default().with_scale(true).write(&mut sink), Ok(()));
    assert_eq!(sink.text(), "Set('PlotLine/scaleLine', True)\n");
    let mut sink = Transcript::new();
    assert_eq!(MarkerLine::default().with_scale(true).write(&mut sink), Ok(()));
    assert_eq!(sink.text(), "Set('MarkerLine/scaleLine', True)\n");
}

#[test]
fn a_marker_fill_writes_its_fields_in_their_order() {
    let mut sink = Transcript::new();
    assert_eq!(MarkerFill::default().write(&mut sink), Ok(()));
    assert_eq!(sink.attempts(), 0);

    let fill = MarkerFill::default()
        .with_color_map_invert(true)
        .with_color_map(ColorMap::Heat)
        .with_hide(false);
    assert_eq!(fill.write(&mut sink), Ok(()));
    assert_eq!(
        sink.lines(),
        vec![
            "Set('MarkerFill/hide', False)",
            "Set('MarkerFill/colorMap', u'heat')",
            "Set('MarkerFill/colorMapInvert', True)",
        ]
    );

    let mut sink = Transcript::new();
    let mut fill = MarkerFill::default();
    fill.set_color_map(ColorMap::GreyStep6);
    assert_eq!(fill.write(&mut sink), Ok(()));
    assert_eq!(sink.lines(), vec!["Set('MarkerFill/colorMap', u'grey-step6')"]);

    let mut sink = Transcript::new();
    let mut fill = MarkerFill::default();
    fill.set_hide(true);
    fill.set_color_map_invert(false);
    assert_eq!(fill.write(&mut sink), Ok(()));
    assert_eq!(
        sink.lines(),
        vec!["Set('MarkerFill/hide', True)", "Set('MarkerFill/colorMapInvert', False)"]
    );
}

#[test]
fn a_style_stops_at_the_first_line_that_is_refused() {
    let line = PlotLine::default().with_color("red").with_transparency(3).with_hide(true);
    let mut sink = Transcript::refusing(1, 2);
    assert_eq!(line.write(&mut sink), Err(Refused { attempt: 1 }));
    assert_eq!(
        sink.attempted_lines(),
        vec!["Set('PlotLine/color', u'red')", "Set('PlotLine/transparency', 3)"]
    );
}

#[test]
fn a_number_keeps_its_literal() {
    assert_eq!(Number::new("1e-3").as_str(), "1e-3");
    assert_eq!(number(0.0).as_str(), "0");
    assert_eq!(number(2.5).as_str(), "2.5");
}
