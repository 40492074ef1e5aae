use dart_parser::parser::comment::Spbrc;
use dart_parser::parser::common::{sep_list, skip_many0, OptSpbr, SepMode, Tag};
use dart_parser::parser::directive::{export, import};
use dart_parser::parser::enum_ty::enum_ty;
use dart_parser::parser::func_call::func_args;
use dart_parser::parser::func_like::func_params;
use dart_parser::parser::outcome::{Label, Mark, PResult, ParseError};
use dart_parser::parser::ty::{func_type, tuple_ty, ty};

fn committed<T: std::fmt::Debug>(result: PResult<T>, cause: Label) -> ParseError {
    let error = result.unwrap_err();
    assert!(error.fatal, "{:?}", error);
    assert!(error.marks.iter().any(|mark| mark.label == cause), "{:?}", error);
    error
}

#[test]
fn a_committed_failure_of_a_separator_is_the_result_of_the_list() {
    for count_min in [0, 1, 2] {
        for sep_mode in [SepMode::NoTrailing, SepMode::AllowTrailing] {
            let error = committed(
                sep_list(count_min, sep_mode, &Spbrc, &Tag("x"), "x x /* open", 0),
                Label::CommentMultiLine,
            );
            assert!(error.marks.contains(&Mark { at: 4, label: Label::CommentMultiLine }));
        }
    }
}

#[test]
fn a_committed_failure_of_an_item_is_the_result_of_the_list() {
    for count_min in [0, 1, 3] {
        committed(
            sep_list(count_min, SepMode::NoTrailing, &OptSpbr, &Spbrc, "/* open", 0),
            Label::CommentMultiLine,
        );
        committed(
            sep_list(count_min, SepMode::AllowTrailing, &Tag(","), &Spbrc, " , ,/* open", 0),
            Label::CommentMultiLine,
        );
    }
}

#[test]
fn an_item_that_does_not_match_ends_the_list() {
    assert_eq!(
        sep_list(1, SepMode::NoTrailing, &Spbrc, &Tag("x"), "x /* a */ x y", 0),
        Ok((11, vec!["x", "x"]))
    );
    assert_eq!(
        sep_list(1, SepMode::AllowTrailing, &Spbrc, &Tag("x"), "x /* a */ x y", 0),
        Ok((12, vec!["x", "x"]))
    );
    assert_eq!(
        sep_list(3, SepMode::NoTrailing, &Spbrc, &Tag("x"), "x x y", 0),
        Err(ParseError { fatal: false, marks: vec![Mark { at: 4, label: Label::Tag }] })
    );
}

#[test]
fn a_list_that_stops_short_of_its_minimum_fails() {
    assert_eq!(
        sep_list(5, SepMode::NoTrailing, &OptSpbr, &OptSpbr, "x", 0),
        Err(ParseError { fatal: false, marks: vec![Mark { at: 0, label: Label::SeparatedList }] })
    );
    assert_eq!(
        sep_list(3, SepMode::NoTrailing, &OptSpbr, &OptSpbr, "x", 0),
        Err(ParseError { fatal: false, marks: vec![Mark { at: 0, label: Label::SeparatedList }] })
    );
    assert_eq!(
        sep_list(2, SepMode::NoTrailing, &OptSpbr, &OptSpbr, "x", 0),
        Ok((0, vec![None, None]))
    );
    assert_eq!(
        sep_list(5, SepMode::AllowTrailing, &Tag(""), &Tag("x"), "xxy", 0).map(|(next, _)| next),
        Err(ParseError { fatal: false, marks: vec![Mark { at: 2, label: Label::Tag }] })
    );
}

#[test]
fn skipping_passes_a_committed_failure_on() {
    committed(skip_many0(&Spbrc, " /* a */ /* open", 0), Label::CommentMultiLine);
}

#[test]
fn an_unclosed_string_in_a_default_value_is_reported() {
    let error = committed(func_params("(int a, String b = 'open)", 0), Label::StringLit);
    assert_eq!(error.marks.last().unwrap().label, Label::FuncParams);
    committed(func_params("(int a, [String b = 'open])", 0), Label::StringLit);
    committed(func_params("(int a, {String b = 'open})", 0), Label::StringLit);
    committed(func_params("(int a /* open", 0), Label::CommentMultiLine);
}

#[test]
fn an_unclosed_string_in_an_argument_is_reported() {
    let error = committed(func_args("(a, 'open)", 0), Label::StringLit);
    assert_eq!(error.marks.last().unwrap().label, Label::FuncArgs);
    committed(func_args("(a, b: [1, 2)", 0), Label::Scope);
}

#[test]
fn an_unclosed_string_in_an_enum_value_is_reported() {
    committed(enum_ty("enum A { a, b('open), c }", 0), Label::StringLit);
    committed(enum_ty("enum A { a, /* open", 0), Label::CommentMultiLine);
}

#[test]
fn unclosed_type_arguments_in_a_parameter_of_a_function_type_are_reported() {
    committed(ty("void Function(int, List<) f", 0), Label::TypeArgs);
    committed(ty("void Function(int, [List<]) f", 0), Label::TypeArgs);
    committed(ty("void Function(int, {List< a}) f", 0), Label::TypeArgs);
    committed(func_type("void Function() Function(List<)", 0), Label::TypeArgs);
}

#[test]
fn unclosed_type_arguments_in_a_record_type_are_reported() {
    committed(tuple_ty("(int, List<)", 0), Label::TypeArgs);
    committed(tuple_ty("(int, {List< a})", 0), Label::TypeArgs);
    assert!(!tuple_ty("(int, )", 0).is_err());
    assert!(!tuple_ty("(int", 0).unwrap_err().fatal);
}

#[test]
fn an_unclosed_comment_between_filters_is_reported() {
    committed(import("import 'a.dart' show a /* open", 0), Label::CommentMultiLine);
    committed(export("export 'a.dart' show a hide b /* open", 0), Label::CommentMultiLine);
    committed(import("import 'a.dart' show a, /* open", 0), Label::CommentMultiLine);
}
