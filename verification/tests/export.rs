use veusz::api1::transcript::{Refused, Transcript};
use veusz::export::{Export, SvgExport};

fn written(export: &SvgExport) -> Vec<String> {
    let mut sink = Transcript::new();
    assert_eq!(export.write(&mut sink), Ok(()));
    sink.lines()
}

#[test]
fn target_adds_the_ending_where_it_is_missing() {
    assert_eq!(written(&SvgExport::target("plot")), vec!["Export('plot.svg')"]);
    assert_eq!(written(&SvgExport::target("plot.svg")), vec!["Export('plot.svg')"]);
    assert_eq!(written(&SvgExport::target("plot.png")), vec!["Export('plot.png.svg')"]);
    assert_eq!(written(&SvgExport::target("")), vec!["Export('.svg')"]);
    assert_eq!(written(&SvgExport::target(".svg")), vec!["Export('.svg')"]);
    assert_eq!(written(&SvgExport::target("svg")), vec!["Export('svg.svg')"]);
    assert_eq!(written(&SvgExport::target("a.SVG")), vec!["Export('a.SVG.svg')"]);
}

#[test]
fn only_the_options_that_are_set_are_written() {
    assert_eq!(
        written(&SvgExport::target("a").with_color(true)),
        vec!["Export('a.svg', color=True)"]
    );
    assert_eq!(written(&SvgExport::target("a").with_page(0)), vec!["Export('a.svg', page=0)"]);
    assert_eq!(
        written(&SvgExport::target("a").with_text_as_text(false)),
        vec!["Export('a.svg', svgtextastext=False)"]
    );
    assert_eq!(
        written(&SvgExport::target("a").with_text_as_text(true).with_color(false)),
        vec!["Export('a.svg', color=False, svgtextastext=True)"]
    );
}

#[test]
fn the_options_are_written_in_the_order_of_the_fields() {
    let export = SvgExport::target("out/fig.svg")
        .with_text_as_text(true)
        .with_page(12)
        .with_color(true);
    assert_eq!(
        written(&export),
        vec!["Export('out/fig.svg', color=True, page=12, svgtextastext=True)"]
    );
}

#[test]
fn the_setters_do_what_the_builders_do() {
    let mut export = SvgExport::target("a");
    export.set_color(false);
    export.set_page(3);
    export.set_text_as_text(false);
    assert_eq!(written(&export), vec!["Export('a.svg', color=False, page=3, svgtextastext=False)"]);
    export.set_page(usize::MAX);
    export.set_color(true);
    assert_eq!(
        written(&export),
        vec![format!("Export('a.svg', color=True, page={}, svgtextastext=False)", usize::MAX)]
    );
}

#[test]
fn an_export_is_written_as_what_it_holds() {
    let export = Export::from(SvgExport::target("b").with_page(1));
    let mut sink = Transcript::new();
    assert_eq!(export.write(&mut sink), Ok(()));
    assert_eq!(sink.lines(), vec!["Export('b.svg', page=1)"]);

    let export: Export = SvgExport::target("c").into();
    let mut sink = Transcript::refusing(0, 1);
    assert_eq!(export.write(&mut sink), Err(Refused { attempt: 0 }));
    assert_eq!(sink.attempted_lines(), vec!["Export('c.svg')"]);
}
