#![allow(unused_imports)]

use dart_parser::dart::annotation::Annotation;
use dart_parser::dart::class::{
    Class, ClassMember, ClassModifier, ClassModifierSet, Constructor, ConstructorModifier,
};
use dart_parser::dart::comment::Comment;
use dart_parser::dart::directive::{Directive, Export, Filter, Import, PartOf};
use dart_parser::dart::enum_ty::{EnumTy, EnumValue};
use dart_parser::dart::expr::Expr;
use dart_parser::dart::extension::{Extension, ExtensionMember};
use dart_parser::dart::func_call::{FuncArg, FuncCall};
use dart_parser::dart::func_like::{
    Func, FuncBody, FuncBodyContent, FuncBodyModifier, FuncLike, FuncModifier, FuncModifierSet,
    FuncParam, FuncParamModifier, FuncParamModifierSet, FuncParams, FuncParamsExtra, Getter,
    Operator, Setter, UserDefOperator,
};
use dart_parser::dart::maybe_required::MaybeRequired;
use dart_parser::dart::meta::{Meta, WithMeta};
use dart_parser::dart::ty::{
    FuncType, FuncTypeParamNamed, FuncTypeParamPos, NotFuncType, Tuple, Type,
};
use dart_parser::dart::type_param::TypeParam;
use dart_parser::dart::typedef::TypeDef;
use dart_parser::dart::var::{Var, VarModifier, VarModifierSet};
use dart_parser::dart::Dart;
use dart_parser::parser::outcome::{Label, Mark, PResult, ParseError};
use dart_parser::parser::directive::{export, import, part, part_of};


fn check_directive<'s, T: PartialEq + std::fmt::Debug>(
    parser: impl Fn(&'s str, usize) -> PResult<T>,
    input: &'s str,
    rest: &str,
    value: T,
) {
    match parser(input, 0) {
        Ok((next, found)) => {
            assert_eq!(&input[next..], rest);
            assert_eq!(found, value);
        }
        Err(error) => panic!("{:?}", error),
    }
}

#[test]
fn export_test() {
    check_directive(
        export,
        "export 'src/utils.dart';x",
        "x",
        Export {
            target: "src/utils.dart",
            filters: Vec::new()
        },
    );
}

#[test]
fn import_test() {
    check_directive(
        import,
        "import 'dart:math';x",
        "x",
        Import::target("dart:math"),
    );
}

#[test]
fn import_as_test() {
    check_directive(
        import,
        "import 'package:path/path.dart' as p;x",
        "x",
        Import::target_as("package:path/path.dart", "p"),
    );
}

#[test]
fn import_show_test() {
    check_directive(
        import,
        "import 'package:path/path.dart' show join;x",
        "x",
        Import {
            target: "package:path/path.dart",
            prefix: None,
            filters: vec![Filter::Show(vec!["join"])],
        },
    );
}

#[test]
fn import_hide_test() {
    check_directive(
        import,
        "import 'package:path/path.dart' hide join, basename;x",
        "x",
        Import {
            target: "package:path/path.dart",
            prefix: None,
            filters: vec![Filter::Hide(vec!["join", "basename"])],
        },
    );
}

#[test]
fn import_as_show_hide_test() {
    check_directive(
        import,
        "import 'package:path/path.dart' as p show join, basename hide dirname;x",
        "x",
        Import {
            target: "package:path/path.dart",
            prefix: Some("p"),
            filters: vec![
                Filter::Show(vec!["join", "basename"]),
                Filter::Hide(vec!["dirname"])
            ],
        },
    );
}

#[test]
fn import_as_hide_show_test() {
    check_directive(
        import,
        "import 'package:path/path.dart' as p hide dirname show join, basename;x",
        "x",
        Import {
            target: "package:path/path.dart",
            prefix: Some("p"),
            filters: vec![
                Filter::Hide(vec!["dirname"]),
                Filter::Show(vec!["join", "basename"])
            ],
        },
    );
}

#[test]
fn part_test() {
    check_directive(
        part,
        "part '../library.dart';x",
        "x",
        "../library.dart",
    );
}

#[test]
fn part_of_path_test() {
    check_directive(
        part_of,
        "part of '../library.dart';x",
        "x",
        PartOf::LibPath("../library.dart"),
    );
}

#[test]
fn part_of_name_test() {
    check_directive(
        part_of,
        "part of library;x",
        "x",
        PartOf::LibName("library"),
    );
}
