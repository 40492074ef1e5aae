#![allow(unused_imports)]

use dart_parser::dart::annotation::Annotation;
use dart_parser::dart::class::{
    Class, ClassMember, ClassModifier, ClassModifierSet, Constructor, ConstructorModifier,
};
use dart_parser::dart::comment::Comment;
use dart_parser::dart::directive::{Directive, Export, Filter, Import, PartOf};
use dart_parser::dart::enum_ty::{EnumTy, EnumValue};
use dart_parser::dart::expr::Expr;
use dart_parser::dart::extension::{Extension, ExtensionMember};
use dart_parser::dart::func_call::{FuncArg, FuncCall};
use dart_parser::dart::func_like::{
    Func, FuncBody, FuncBodyContent, FuncBodyModifier, FuncLike, FuncModifier, FuncModifierSet,
    FuncParam, FuncParamModifier, FuncParamModifierSet, FuncParams, FuncParamsExtra, Getter,
    Operator, Setter, UserDefOperator,
};
use dart_parser::dart::maybe_required::MaybeRequired;
use dart_parser::dart::meta::{Meta, WithMeta};
use dart_parser::dart::ty::{
    FuncType, FuncTypeParamNamed, FuncTypeParamPos, NotFuncType, Tuple, Type,
};
use dart_parser::dart::type_param::TypeParam;
use dart_parser::dart::typedef::TypeDef;
use dart_parser::dart::var::{Var, VarModifier, VarModifierSet};
use dart_parser::dart::Dart;
use dart_parser::parser::outcome::{Label, Mark, PResult, ParseError};
use dart_parser::parser::common::{
    sep_list, skip_many0, skip_many1, spbr, OptSpbr, Production, SepMode, Spbr, Tag,
};


fn check_common<'s, T: PartialEq + std::fmt::Debug>(
    parser: impl Fn(&'s str, usize) -> PResult<T>,
    input: &'s str,
    rest: &str,
    value: T,
) {
    match parser(input, 0) {
        Ok((next, found)) => {
            assert_eq!(&input[next..], rest);
            assert_eq!(found, value);
        }
        Err(error) => panic!("{:?}", error),
    }
}

#[test]
fn sp_test() {
    let s = "  \n\t\r\nx";
    check_common(spbr, s, "x", "  \n\t\r\n");
}

fn list<'s>(
    count_min: usize,
    sep_mode: SepMode,
    sep: &impl Production<'s>,
    input: &'s str,
) -> Result<(&'s str, Vec<&'s str>), ParseError> {
    sep_list(count_min, sep_mode, sep, &Tag("x"), input, 0)
        .map(|(next, items)| (&input[next..], items))
}

#[test]
fn sep_list0_empty_test() {
    assert_eq!(list(0, SepMode::NoTrailing, &Spbr, "z"), Ok(("z", Vec::new())));
}

#[test]
fn sep_list1_empty_test() {
    assert!(list(1, SepMode::NoTrailing, &Spbr, "z").is_err());
}

#[test]
fn sep_list1_one_test() {
    assert_eq!(list(1, SepMode::NoTrailing, &Spbr, "xz"), Ok(("z", vec!["x"])));
}

#[test]
fn sep_list1_some_test() {
    assert_eq!(
        list(1, SepMode::NoTrailing, &OptSpbr, "x xxz"),
        Ok(("z", vec!["x", "x", "x"]))
    );
}

#[test]
fn sep_list1_no_trailing_test() {
    assert_eq!(list(1, SepMode::NoTrailing, &OptSpbr, "x z"), Ok((" z", vec!["x"])));
}

#[test]
fn sep_list1_trailing_test() {
    assert_eq!(list(1, SepMode::AllowTrailing, &OptSpbr, "x z"), Ok(("z", vec!["x"])));
}

#[test]
fn a_list_needs_its_least_number_of_items() {
    assert_eq!(list(2, SepMode::NoTrailing, &Spbr, "x xz"), Ok(("z", vec!["x", "x"])));
    assert_eq!(
        list(2, SepMode::NoTrailing, &Spbr, "x z"),
        Err(ParseError { fatal: false, marks: vec![Mark { at: 2, label: Label::Tag }] })
    );
    assert_eq!(
        list(2, SepMode::NoTrailing, &Spbr, "xz"),
        Err(ParseError { fatal: false, marks: vec![Mark { at: 1, label: Label::IsA }] })
    );
    assert_eq!(list(0, SepMode::AllowTrailing, &Spbr, "x x "), Ok(("", vec!["x", "x"])));
    assert_eq!(list(0, SepMode::NoTrailing, &Spbr, "x x "), Ok((" ", vec!["x", "x"])));
    assert_eq!(list(0, SepMode::NoTrailing, &Tag(""), "xxz"), Ok(("z", vec!["x", "x"])));
}

#[test]
fn skipping_what_repeats() {
    assert_eq!(skip_many0(&Tag("ab"), "ababa", 0), Ok((4, ())));
    assert_eq!(skip_many0(&Tag("ab"), "ba", 0), Ok((0, ())));
    assert_eq!(skip_many1(&Tag("ab"), "ababa", 0), Ok((4, ())));
    assert_eq!(
        skip_many1(&Tag("ab"), "ba", 0),
        Err(ParseError { fatal: false, marks: vec![Mark { at: 0, label: Label::Many1 }] })
    );
    assert_eq!(
        skip_many0(&Tag(""), "ab", 0),
        Err(ParseError { fatal: false, marks: vec![Mark { at: 0, label: Label::Many0 }] })
    );
    assert_eq!(skip_many0(&Spbr, " \n x", 0), Ok((3, ())));
    assert_eq!(Tag("é").parse("aé", 1), Ok((3, "é")));
    assert!(Tag("\u{a9}").parse("é", 0).is_err());
}
