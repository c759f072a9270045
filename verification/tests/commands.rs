use veusz::api1::cmd::{Add, Load, SetData, SetRaw, SetText, ToUnique};
use veusz::api1::transcript::{Refused, Transcript};
use veusz::api1::{LineWriter, Sink, Stream, ToParentDropGuard};

struct Lines {
    lines: Vec<String>,
}

impl LineWriter for Lines {
    type Error = ();

    fn put(&mut self, line: &str) -> Result<(), ()> {
        self.lines.push(line.to_string());
        Ok(())
    }
}

#[test]
fn add_declares_an_object() {
    let mut sink = Transcript::new();
    assert_eq!(Add("page", "page1").write(&mut sink), Ok(()));
    assert_eq!(sink.lines(), vec!["Add('page', name=u'page1', autoadd=False)"]);
}

#[test]
fn set_text_quotes_the_value() {
    let mut sink = Transcript::new();
    assert_eq!(SetText("label", "time / s").write(&mut sink), Ok(()));
    assert_eq!(sink.lines(), vec!["Set('label', u'time / s')"]);
}

#[test]
fn set_text_does_not_escape_quotes() {
    let mut sink = Transcript::new();
    assert_eq!(SetText("label", "it's").write(&mut sink), Ok(()));
    assert_eq!(sink.lines(), vec!["Set('label', u'it's')"]);
}

#[test]
fn set_raw_writes_the_literal_as_it_is() {
    let mut sink = Transcript::new();
    assert_eq!(SetRaw("rows", "3").write(&mut sink), Ok(()));
    assert_eq!(SetRaw("hide", "True").write(&mut sink), Ok(()));
    assert_eq!(sink.lines(), vec!["Set('rows', 3)", "Set('hide', True)"]);
}

#[test]
fn set_data_brackets_the_values() {
    let mut sink = Transcript::new();
    assert_eq!(SetData("x", "0, 1, 2").write(&mut sink), Ok(()));
    assert_eq!(sink.lines(), vec!["SetData(u'x', [0, 1, 2])"]);
}

#[test]
fn load_names_the_file_in_quotes() {
    let mut sink = Transcript::new();
    assert_eq!(Load("out/plot.vsz").write(&mut sink), Ok(()));
    assert_eq!(sink.lines(), vec!["Load('out/plot.vsz')"]);
}

#[test]
fn a_refused_command_returns_the_error_of_the_sink() {
    let mut sink = Transcript::refusing(0, 1);
    assert_eq!(Add("page", "p").write(&mut sink), Err(Refused { attempt: 0 }));
    assert_eq!(sink.attempts(), 1);
    assert!(sink.lines().is_empty());
    assert_eq!(sink.attempted_lines(), vec!["Add('page', name=u'p', autoadd=False)"]);
}

#[test]
fn for_call_enters_and_leaves() {
    let mut sink = Transcript::new();
    let r = ToUnique("graph1").for_call(&mut sink, |s: &mut Transcript| SetText("a", "b").write(s));
    assert_eq!(r, Ok(()));
    assert_eq!(sink.lines(), vec!["To(u'graph1')", "Set('a', u'b')", "To('..')"]);
}

#[test]
fn for_call_stops_when_the_scope_cannot_be_entered() {
    let mut sink = Transcript::refusing(0, 10);
    let mut called = false;
    let r = ToUnique("g").for_call(&mut sink, |_s: &mut Transcript| {
        called = true;
        Ok(())
    });
    assert_eq!(r, Err(Refused { attempt: 0 }));
    assert!(!called);
    assert_eq!(sink.attempted_lines(), vec!["To(u'g')"]);
}

#[test]
fn for_call_leaves_the_scope_after_a_failure_inside() {
    let mut sink = Transcript::refusing(1, 2);
    let r = ToUnique("g").for_call(&mut sink, |s: &mut Transcript| {
        SetText("a", "1").write(s)?;
        SetText("b", "2").write(s)?;
        Ok(())
    });
    assert_eq!(r, Err(Refused { attempt: 1 }));
    assert_eq!(sink.attempted_lines(), vec!["To(u'g')", "Set('a', u'1')", "To('..')"]);
    assert_eq!(sink.lines(), vec!["To(u'g')", "To('..')"]);
}

#[test]
fn on_writes_the_leaving_line_after_the_work() {
    let mut sink = Transcript::new();
    let r = ToParentDropGuard::on(&mut sink, |s: &mut Transcript| SetRaw("min", "0").write(s));
    assert_eq!(r, Ok(()));
    assert_eq!(sink.lines(), vec!["Set('min', 0)", "To('..')"]);
}

#[test]
fn on_returns_the_failure_of_the_work_when_leaving_succeeds() {
    let mut sink = Transcript::refusing(0, 1);
    let r = ToParentDropGuard::on(&mut sink, |s: &mut Transcript| SetRaw("min", "0").write(s));
    assert_eq!(r, Err(Refused { attempt: 0 }));
    assert_eq!(sink.lines(), vec!["To('..')"]);
}

#[test]
fn on_returns_the_failure_of_leaving_before_that_of_the_work() {
    let mut sink = Transcript::refusing(0, 2);
    let r = ToParentDropGuard::on(&mut sink, |s: &mut Transcript| SetRaw("min", "0").write(s));
    assert_eq!(r, Err(Refused { attempt: 1 }));
    assert_eq!(sink.attempted_lines(), vec!["Set('min', 0)", "To('..')"]);
    assert!(sink.lines().is_empty());
}

#[test]
fn on_returns_the_failure_of_leaving_after_work_that_succeeded() {
    let mut sink = Transcript::refusing(1, 2);
    let r = ToParentDropGuard::on(&mut sink, |s: &mut Transcript| SetRaw("min", "0").write(s));
    assert_eq!(r, Err(Refused { attempt: 1 }));
    assert_eq!(sink.lines(), vec!["Set('min', 0)"]);
}

#[test]
fn a_stream_hands_every_line_to_its_writer() {
    let mut sink = Stream::new(Lines { lines: Vec::new() });
    Add("page", "page1").write(&mut sink).unwrap();
    SetText("label", "t").write(&mut sink).unwrap();
    sink.write_line("anything").unwrap();
    assert_eq!(
        sink.into_inner().lines,
        vec!["Add('page', name=u'page1', autoadd=False)", "Set('label', u't')", "anything"]
    );
}

#[test]
fn a_transcript_refuses_the_chosen_range_only() {
    let mut sink = Transcript::refusing(1, 3);
    assert_eq!(sink.write_line("a"), Ok(()));
    assert_eq!(sink.write_line("b"), Err(Refused { attempt: 1 }));
    assert_eq!(sink.write_line("c"), Err(Refused { attempt: 2 }));
    assert_eq!(sink.write_line("d"), Ok(()));
    assert_eq!(sink.attempts(), 4);
    assert_eq!(sink.lines(), vec!["a", "d"]);
    assert_eq!(sink.attempted_lines(), vec!["a", "b", "c", "d"]);
    assert_eq!(sink.text(), "a\nd\n");
}

#[test]
fn an_empty_transcript_has_no_text() {
    let sink = Transcript::new();
    assert_eq!(sink.attempts(), 0);
    assert_eq!(sink.text(), "");
}
