use dart_parser::diagnostic::{column_fits, floor_boundary, plain, push_decimal, render, COLUMNS};
use dart_parser::parse;
use dart_parser::parser::outcome::{Label, Mark, ParseError};

fn failure(marks: Vec<Mark>) -> ParseError {
    ParseError { fatal: true, marks }
}

#[test]
fn a_mark_is_set_under_the_offset() {
    let error = failure(vec![
        Mark { at: 1, label: Label::Tag },
        Mark { at: 6, label: Label::Class },
    ]);
    assert_eq!(
        render("abc\ndef g", &error),
        "0: at line 1, in Tag:\nabc\n ^\n\n1: at line 2, in class:\ndef g\n  ^\n\n"
    );
    assert_eq!(render("abc", &failure(Vec::new())), "");
    assert_eq!(
        render("", &failure(vec![Mark { at: 0, label: Label::Eof }])),
        "0: in Eof, got empty input\n\n"
    );
}

#[test]
fn an_offset_inside_a_character_is_moved_back() {
    assert_eq!(floor_boundary("aé", 2), 1);
    assert_eq!(floor_boundary("aé", 3), 3);
    assert_eq!(floor_boundary("aé", 9), 3);
    assert_eq!(
        render("aé", &failure(vec![Mark { at: 2, label: Label::Char }])),
        "0: at line 1, in Char:\naé\n ^\n\n"
    );
}

#[test]
fn the_widest_column_is_counted_from_the_start_of_the_line() {
    assert_eq!(COLUMNS, 65535);
    let long = " ".repeat(70000);
    assert!(column_fits(&long, 0));
    assert!(column_fits(&long, 65534));
    assert!(!column_fits(&long, 65535));
    assert!(!column_fits(&long, 70000));
    let lines = format!("{}\n{}", " ".repeat(70000), " ".repeat(70000));
    assert!(!column_fits(&lines, 70000));
    assert!(column_fits(&lines, 70001));
    assert!(column_fits(&lines, 70001 + 65534));
    assert!(!column_fits(&lines, 70001 + 65535));
    assert!(column_fits("", 0));
    assert!(column_fits("\n", 1));
}

#[test]
fn a_failure_far_into_its_line_has_no_mark() {
    let long = "x".repeat(70000);
    let near = failure(vec![Mark { at: 65534, label: Label::Class }]);
    let text = render(&long, &near);
    assert!(text.starts_with("0: at line 1, in class:\nxxx"), "{}", &text[..40]);
    assert!(text.ends_with(&format!("x\n{}^\n\n", " ".repeat(65534))));
    let far = failure(vec![
        Mark { at: 3, label: Label::WithMeta },
        Mark { at: 65535, label: Label::Class },
        Mark { at: 70000, label: Label::Eof },
    ]);
    assert_eq!(
        render(&long, &far),
        "0: at byte 3, in with_meta\n1: at byte 65535, in class\n2: at byte 70000, in Eof\n"
    );
    let lines = format!("{}\n{}", long, long);
    let second = failure(vec![Mark { at: 70001 + 65534, label: Label::Var }]);
    assert!(render(&lines, &second).starts_with("0: at line 2, in var:\nxxx"));
    let beyond = failure(vec![Mark { at: 70001 + 65535, label: Label::Var }]);
    assert_eq!(render(&lines, &beyond), "0: at byte 135536, in var\n");
}

#[test]
fn a_failure_without_marks_lists_offsets_and_names() {
    assert_eq!(plain(&Vec::new(), &Vec::new()), "");
    assert_eq!(
        plain(&vec![0, 12, 100000], &vec!["a", "class_body", "ty"]),
        "0: at byte 0, in a\n1: at byte 12, in class_body\n2: at byte 100000, in ty\n"
    );
    let many: Vec<usize> = (0..12).collect();
    let names = vec!["x"; 12];
    let text = plain(&many, &names);
    assert!(text.ends_with("9: at byte 9, in x\n10: at byte 10, in x\n11: at byte 11, in x\n"));
}

#[test]
fn numbers_are_written_in_decimal() {
    for n in [0usize, 7, 9, 10, 11, 99, 100, 101, 65535, 1234567890, usize::MAX] {
        let mut text = String::from("n=");
        push_decimal(&mut text, n);
        assert_eq!(text, format!("n={}", n));
    }
}

#[test]
fn parsing_fails_in_words_however_long_the_line() {
    let far = format!("{}?", " ".repeat(65535));
    let text = parse(&far).unwrap_err();
    assert!(text.starts_with("0: at byte 65535, in "), "{}", text);
    assert!(!text.contains('^'));
    for line in text.lines() {
        assert!(line.contains(": at byte 65535, in "), "{}", line);
    }
    let near = format!("{}?", " ".repeat(65534));
    let text = parse(&near).unwrap_err();
    assert!(text.starts_with("0: at line 1, in "), "{}", &text[..30]);
    assert!(text.contains(&format!("\n{}^\n", " ".repeat(65534))));
    let below = format!("var x;\n{}?", " ".repeat(65534));
    assert!(parse(&below).unwrap_err().starts_with("0: at line 2, in "));
    let unclosed = format!("var x = '{}", "a".repeat(200000));
    assert!(parse(&unclosed).unwrap_err().contains("in string"));
}
