#![allow(unused_imports)]

use dart_parser::dart::annotation::Annotation;
use dart_parser::dart::class::{
    Class, ClassMember, ClassModifier, ClassModifierSet, Constructor, ConstructorModifier,
};
use dart_parser::dart::comment::Comment;
use dart_parser::dart::directive::{Directive, Export, Filter, Import, PartOf};
use dart_parser::dart::enum_ty::{EnumTy, EnumValue};
use dart_parser::dart::expr::Expr;
use dart_parser::dart::extension::{Extension, ExtensionMember};
use dart_parser::dart::func_call::{FuncArg, FuncCall};
use dart_parser::dart::func_like::{
    Func, FuncBody, FuncBodyContent, FuncBodyModifier, FuncLike, FuncModifier, FuncModifierSet,
    FuncParam, FuncParamModifier, FuncParamModifierSet, FuncParams, FuncParamsExtra, Getter,
    Operator, Setter, UserDefOperator,
};
use dart_parser::dart::maybe_required::MaybeRequired;
use dart_parser::dart::meta::{Meta, WithMeta};
use dart_parser::dart::ty::{
    FuncType, FuncTypeParamNamed, FuncTypeParamPos, NotFuncType, Tuple, Type,
};
use dart_parser::dart::type_param::TypeParam;
use dart_parser::dart::typedef::TypeDef;
use dart_parser::dart::var::{Var, VarModifier, VarModifierSet};
use dart_parser::dart::Dart;
use dart_parser::parser::outcome::{Label, Mark, PResult, ParseError};
use dart_parser::parser::expr::expr;


fn check_expr<'s, T: PartialEq + std::fmt::Debug>(
    parser: impl Fn(&'s str, usize) -> PResult<T>,
    input: &'s str,
    rest: &str,
    value: T,
) {
    match parser(input, 0) {
        Ok((next, found)) => {
            assert_eq!(&input[next..], rest);
            assert_eq!(found, value);
        }
        Err(error) => panic!("{:?}", error),
    }
}

#[test]
fn expr_string_test() {
    check_expr(
        expr,
        "'text'; ",
        "; ",
        Expr::String("text"),
    );
}

#[test]
fn expr_test() {
    check_expr(
        expr,
        "f('text', (a) => null) + 1; ",
        "; ",
        Expr::Verbatim("f('text', (a) => null) + 1"),
    );
}

#[test]
fn expr_typed_list_test() {
    check_expr(
        expr,
        "<String>['asdf', 'jkl;']; ",
        "; ",
        Expr::Verbatim("<String>['asdf', 'jkl;']"),
    );
}

#[test]
fn expr_list_test() {
    check_expr(
        expr,
        "[\n'asdf',\n'jkl;'\n]; ",
        "; ",
        Expr::Verbatim("[\n'asdf',\n'jkl;'\n]"),
    );
}

#[test]
fn expr_set_test() {
    check_expr(
        expr,
        "<String>{'asdf', 'jkl;'}; ",
        "; ",
        Expr::Verbatim("<String>{'asdf', 'jkl;'}"),
    );
}

#[test]
fn expr_map_test() {
    check_expr(
        expr,
        "<String, Object?>{'asdf': 123, 'jkl;': 456}; ",
        "; ",
        Expr::Verbatim("<String, Object?>{'asdf': 123, 'jkl;': 456}"),
    );
}
