#![allow(unused_imports)]

use dart_parser::dart::annotation::Annotation;
use dart_parser::dart::class::{
    Class, ClassMember, ClassModifier, ClassModifierSet, Constructor, ConstructorModifier,
};
use dart_parser::dart::comment::Comment;
use dart_parser::dart::directive::{Directive, Export, Filter, Import, PartOf};
use dart_parser::dart::enum_ty::{EnumTy, EnumValue};
use dart_parser::dart::expr::Expr;
use dart_parser::dart::extension::{Extension, ExtensionMember};
use dart_parser::dart::func_call::{FuncArg, FuncCall};
use dart_parser::dart::func_like::{
    Func, FuncBody, FuncBodyContent, FuncBodyModifier, FuncLike, FuncModifier, FuncModifierSet,
    FuncParam, FuncParamModifier, FuncParamModifierSet, FuncParams, FuncParamsExtra, Getter,
    Operator, Setter, UserDefOperator,
};
use dart_parser::dart::maybe_required::MaybeRequired;
use dart_parser::dart::meta::{Meta, WithMeta};
use dart_parser::dart::ty::{
    FuncType, FuncTypeParamNamed, FuncTypeParamPos, NotFuncType, Tuple, Type,
};
use dart_parser::dart::type_param::TypeParam;
use dart_parser::dart::typedef::TypeDef;
use dart_parser::dart::var::{Var, VarModifier, VarModifierSet};
use dart_parser::dart::Dart;
use dart_parser::parser::outcome::{Label, Mark, PResult, ParseError};
use dart_parser::parser::enum_ty::enum_ty;


fn check_enum_ty<'s, T: PartialEq + std::fmt::Debug>(
    parser: impl Fn(&'s str, usize) -> PResult<T>,
    input: &'s str,
    rest: &str,
    value: T,
) {
    match parser(input, 0) {
        Ok((next, found)) => {
            assert_eq!(&input[next..], rest);
            assert_eq!(found, value);
        }
        Err(error) => panic!("{:?}", error),
    }
}

#[test]
fn enum_test() {
    check_enum_ty(
        enum_ty,
        "enum AnyAngle { thirtyDegrees }x",
        "x",
        EnumTy {
            name: "AnyAngle",
            implements: Vec::new(),
            values: vec![WithMeta::value(EnumValue {
                name: "thirtyDegrees",
                args: Vec::new(),
            })],
            members: Vec::new(),
        },
    );
}

#[test]
fn enum_ext_test() {
    check_enum_ty(
        enum_ty,
        "enum AnyAngle {\n  // Here it comes. Big...\n  @Badaboom()\n  thirtyDegrees\n}x",
        "x",
        EnumTy {
            name: "AnyAngle",
            implements: Vec::new(),
            values: vec![WithMeta::new(
                vec![
                    Meta::Comment(Comment::SingleLine("// Here it comes. Big...\n")),
                    Meta::Annotation(Annotation::FuncCall(FuncCall {
                        ident: NotFuncType::name("Badaboom"),
                        args: Vec::new()
                    }))
                ],
                EnumValue {
                    name: "thirtyDegrees",
                    args: Vec::new(),
                }
            )],
            members: Vec::new(),
        },
    );
}

#[test]
fn enum_implements_test() {
    check_enum_ty(
        enum_ty,
        "enum AnyAngle implements Serializable { thirtyDegrees }x",
        "x",
        EnumTy {
            name: "AnyAngle",
            implements: vec![NotFuncType::name("Serializable")],
            values: vec![WithMeta::value(EnumValue {
                name: "thirtyDegrees",
                args: Vec::new(),
            })],
            members: Vec::new(),
        },
    );
}
