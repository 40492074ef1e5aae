#![allow(unused_imports)]

use dart_parser::dart::annotation::Annotation;
use dart_parser::dart::class::{
    Class, ClassMember, ClassModifier, ClassModifierSet, Constructor, ConstructorModifier,
};
use dart_parser::dart::comment::Comment;
use dart_parser::dart::directive::{Directive, Export, Filter, Import, PartOf};
use dart_parser::dart::enum_ty::{EnumTy, EnumValue};
use dart_parser::dart::expr::Expr;
use dart_parser::dart::extension::{Extension, ExtensionMember};
use dart_parser::dart::func_call::{FuncArg, FuncCall};
use dart_parser::dart::func_like::{
    Func, FuncBody, FuncBodyContent, FuncBodyModifier, FuncLike, FuncModifier, FuncModifierSet,
    FuncParam, FuncParamModifier, FuncParamModifierSet, FuncParams, FuncParamsExtra, Getter,
    Operator, Setter, UserDefOperator,
};
use dart_parser::dart::maybe_required::MaybeRequired;
use dart_parser::dart::meta::{Meta, WithMeta};
use dart_parser::dart::ty::{
    FuncType, FuncTypeParamNamed, FuncTypeParamPos, NotFuncType, Tuple, Type,
};
use dart_parser::dart::type_param::TypeParam;
use dart_parser::dart::typedef::TypeDef;
use dart_parser::dart::var::{Var, VarModifier, VarModifierSet};
use dart_parser::dart::Dart;
use dart_parser::parser::outcome::{Label, Mark, PResult, ParseError};
use dart_parser::parser::annotation::annotation;


fn check_annotation<'s, T: PartialEq + std::fmt::Debug>(
    parser: impl Fn(&'s str, usize) -> PResult<T>,
    input: &'s str,
    rest: &str,
    value: T,
) {
    match parser(input, 0) {
        Ok((next, found)) => {
            assert_eq!(&input[next..], rest);
            assert_eq!(found, value);
        }
        Err(error) => panic!("{:?}", error),
    }
}

#[test]
fn annotation_const_test() {
    check_annotation(
        annotation,
        "@immutable\nx",
        "\nx",
        Annotation::Ident("immutable"),
    );
}

#[test]
fn annotation_constructor_test() {
    check_annotation(
        annotation,
        "@JsonSerializable()\nx",
        "\nx",
        Annotation::FuncCall(FuncCall {
            ident: NotFuncType::name("JsonSerializable"),
            args: Vec::new(),
        }),
    );
}

#[test]
fn annotation_constructor_args_test() {
    check_annotation(
        annotation,
        "@JsonSerializable(1, 2.0, named: 'three', expr: 1 + 2)\nx",
        "\nx",
        Annotation::FuncCall(FuncCall {
            ident: NotFuncType::name("JsonSerializable"),
            args: vec![
                FuncArg {
                    name: None,
                    value: Expr::Verbatim("1"),
                },
                FuncArg {
                    name: None,
                    value: Expr::Verbatim("2.0"),
                },
                FuncArg {
                    name: Some("named"),
                    value: Expr::String("three"),
                },
                FuncArg {
                    name: Some("expr"),
                    value: Expr::Verbatim("1 + 2"),
                }
            ],
        }),
    );
}
