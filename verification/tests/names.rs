use veusz::api1::text::{ends_with, join, to_decimal};
use veusz::api1::{AsVueszApi1ValueStr, AutoNameIncrement, Kind};

#[test]
fn names_start_at_one_and_count_up() {
    let mut names = AutoNameIncrement::new();
    assert_eq!(names.next(Kind::Page), "page1");
    assert_eq!(names.next(Kind::Page), "page2");
    assert_eq!(names.next(Kind::Page), "page3");
}

#[test]
fn every_kind_has_its_own_counter() {
    let mut names = AutoNameIncrement::new();
    assert_eq!(names.next(Kind::Page), "page1");
    assert_eq!(names.next(Kind::Graph), "graph1");
    assert_eq!(names.next(Kind::Grid), "grid1");
    assert_eq!(names.next(Kind::Xy), "xy1");
    assert_eq!(names.next(Kind::Label), "label1");
    assert_eq!(names.next(Kind::Graph), "graph2");
    assert_eq!(names.next(Kind::Page), "page2");
}

#[test]
fn a_thousand_names_of_one_kind_differ() {
    let mut names = AutoNameIncrement::new();
    let mut seen: Vec<String> = Vec::new();
    for _ in 0..1000 {
        let name = names.next(Kind::Xy);
        assert!(!seen.contains(&name));
        seen.push(name);
    }
    assert_eq!(seen[0], "xy1");
    assert_eq!(seen[9], "xy10");
    assert_eq!(seen[999], "xy1000");
}

#[test]
fn kinds_have_the_words_of_the_interpreter() {
    assert_eq!(Kind::Page.as_str(), "page");
    assert_eq!(Kind::Graph.as_str(), "graph");
    assert_eq!(Kind::Grid.as_str(), "grid");
    assert_eq!(Kind::Xy.as_str(), "xy");
    assert_eq!(Kind::Label.as_str(), "label");
}

#[test]
fn whole_numbers_are_written_in_decimal() {
    assert_eq!(to_decimal(0), "0");
    assert_eq!(to_decimal(7), "7");
    assert_eq!(to_decimal(10), "10");
    assert_eq!(to_decimal(109), "109");
    assert_eq!(to_decimal(4294967295), "4294967295");
    assert_eq!(to_decimal(u64::MAX), "18446744073709551615");
}

#[test]
fn whole_numbers_are_written_as_the_standard_library_writes_them() {
    for n in [0u64, 1, 9, 10, 11, 99, 100, 101, 12345, 1 << 40, u64::MAX - 1] {
        assert_eq!(to_decimal(n), format!("{}", n));
    }
}

#[test]
fn joining_puts_the_separator_between() {
    let none: Vec<String> = Vec::new();
    assert_eq!(join(&none, ", "), "");
    assert_eq!(join(&vec!["a".to_string()], ", "), "a");
    assert_eq!(join(&vec!["a".to_string(), "b".to_string(), "c".to_string()], ", "), "a, b, c");
    assert_eq!(join(&vec!["".to_string(), "".to_string()], ","), ",");
}

#[test]
fn ends_with_compares_the_end() {
    assert!(ends_with("plot.svg", ".svg"));
    assert!(ends_with(".svg", ".svg"));
    assert!(!ends_with("svg", ".svg"));
    assert!(!ends_with("plot.svg ", ".svg"));
    assert!(!ends_with("plot.SVG", ".svg"));
    assert!(ends_with("anything", ""));
    assert!(ends_with("", ""));
    assert!(ends_with("größe.svg", ".svg"));
    assert!(!ends_with("plot.svg", "größe.svg"));
}

#[test]
fn truth_values_are_written_as_the_interpreter_reads_them() {
    assert_eq!(true.as_veusz_api1_value_str(), "True");
    assert_eq!(false.as_veusz_api1_value_str(), "False");
}
