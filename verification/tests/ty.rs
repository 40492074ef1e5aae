#![allow(unused_imports)]

use dart_parser::dart::annotation::Annotation;
use dart_parser::dart::class::{
    Class, ClassMember, ClassModifier, ClassModifierSet, Constructor, ConstructorModifier,
};
use dart_parser::dart::comment::Comment;
use dart_parser::dart::directive::{Directive, Export, Filter, Import, PartOf};
use dart_parser::dart::enum_ty::{EnumTy, EnumValue};
use dart_parser::dart::expr::Expr;
use dart_parser::dart::extension::{Extension, ExtensionMember};
use dart_parser::dart::func_call::{FuncArg, FuncCall};
use dart_parser::dart::func_like::{
    Func, FuncBody, FuncBodyContent, FuncBodyModifier, FuncLike, FuncModifier, FuncModifierSet,
    FuncParam, FuncParamModifier, FuncParamModifierSet, FuncParams, FuncParamsExtra, Getter,
    Operator, Setter, UserDefOperator,
};
use dart_parser::dart::maybe_required::MaybeRequired;
use dart_parser::dart::meta::{Meta, WithMeta};
use dart_parser::dart::ty::{
    FuncType, FuncTypeParamNamed, FuncTypeParamPos, NotFuncType, Tuple, Type,
};
use dart_parser::dart::type_param::TypeParam;
use dart_parser::dart::typedef::TypeDef;
use dart_parser::dart::var::{Var, VarModifier, VarModifierSet};
use dart_parser::dart::Dart;
use dart_parser::parser::outcome::{Label, Mark, PResult, ParseError};
use dart_parser::parser::ty::{func_type, not_func_type, type_args};


fn check_ty<'s, T: PartialEq + std::fmt::Debug>(
    parser: impl Fn(&'s str, usize) -> PResult<T>,
    input: &'s str,
    rest: &str,
    value: T,
) {
    match parser(input, 0) {
        Ok((next, found)) => {
            assert_eq!(&input[next..], rest);
            assert_eq!(found, value);
        }
        Err(error) => panic!("{:?}", error),
    }
}

#[test]
fn type_args_test() {
    check_ty(
        type_args,
        "<void Function()>x",
        "x",
        vec![Type::func(FuncType {
            return_type: Type::NotFunc(NotFuncType::void()),
            type_params: Vec::new(),
            params: FuncParams::default(),
            is_nullable: false,
        })],
    );
}

#[test]
fn type_generic_test() {
    check_ty(
        not_func_type,
        "Map<String, Object>? ",
        " ",
        NotFuncType {
            name: "Map",
            type_args: vec![
                Type::NotFunc(NotFuncType::name("String")),
                Type::NotFunc(NotFuncType::name("Object")),
            ],
            is_nullable: true,
        },
    );
}

#[test]
fn type_generic_nested_test() {
    check_ty(
        not_func_type,
        "Map<String, List<int>> ",
        " ",
        NotFuncType {
            name: "Map",
            type_args: vec![
                Type::NotFunc(NotFuncType::name("String")),
                Type::NotFunc(NotFuncType {
                    name: "List",
                    type_args: vec![Type::NotFunc(NotFuncType::name("int"))],
                    is_nullable: false,
                })
            ],
            is_nullable: false,
        },
    );
}

#[test]
fn func_type_simple() {
    check_ty(
        func_type,
        "void Function()x",
        "x",
        Box::new(FuncType {
            return_type: Type::NotFunc(NotFuncType::name("void")),
            type_params: Vec::new(),
            params: FuncParams::default(),
            is_nullable: false,
        }),
    );
}

#[test]
fn func_type_arg_type() {
    check_ty(
        func_type,
        "void Function(int) x",
        " x",
        Box::new(FuncType {
            return_type: Type::NotFunc(NotFuncType::name("void")),
            type_params: Vec::new(),
            params: FuncParams {
                positional_req: vec![WithMeta::value(FuncTypeParamPos {
                    param_type: Type::NotFunc(NotFuncType::name("int")),
                    name: None
                })],
                extra: None,
            },
            is_nullable: false,
        }),
    );
}

#[test]
fn func_type_generic_type() {
    check_ty(
        func_type,
        "T Function<T>(T) x",
        " x",
        Box::new(FuncType {
            return_type: Type::NotFunc(NotFuncType::name("T")),
            type_params: vec![TypeParam {
                name: "T",
                extends: None
            }],
            params: FuncParams {
                positional_req: vec![WithMeta::value(FuncTypeParamPos {
                    param_type: Type::NotFunc(NotFuncType::name("T")),
                    name: None
                })],
                extra: None,
            },
            is_nullable: false,
        }),
    );
}

#[test]
fn func_type_arg_name() {
    check_ty(
        func_type,
        "void Function(int x)? x",
        " x",
        Box::new(FuncType {
            return_type: Type::NotFunc(NotFuncType::name("void")),
            type_params: Vec::new(),
            params: FuncParams {
                positional_req: vec![WithMeta::value(FuncTypeParamPos {
                    param_type: Type::NotFunc(NotFuncType::name("int")),
                    name: Some("x"),
                })],
                extra: None,
            },
            is_nullable: true
        }),
    );
}

#[test]
fn func_type_arg_named() {
    check_ty(
        func_type,
        "void Function({int? x})? x",
        " x",
        Box::new(FuncType {
            return_type: Type::NotFunc(NotFuncType::name("void")),
            type_params: Vec::new(),
            params: FuncParams {
                positional_req: Vec::new(),
                extra: Some(FuncParamsExtra::Named(vec![WithMeta::value(
                    MaybeRequired::new(
                        false,
                        FuncTypeParamNamed {
                            param_type: Type::NotFunc(NotFuncType {
                                name: "int",
                                type_args: Vec::new(),
                                is_nullable: true
                            }),
                            name: "x",
                        }
                    )
                )])),
            },
            is_nullable: true
        }),
    );
}

#[test]
fn func_type_arg_named_longer() {
    check_ty(
        func_type,
        "void Function({List<void Function()>? funcs})? x",
        " x",
        Box::new(FuncType {
            return_type: Type::NotFunc(NotFuncType::name("void")),
            type_params: Vec::new(),
            params: FuncParams {
                positional_req: Vec::new(),
                extra: Some(FuncParamsExtra::Named(vec![WithMeta::value(
                    MaybeRequired::new(
                        false,
                        FuncTypeParamNamed {
                            param_type: Type::NotFunc(NotFuncType {
                                name: "List",
                                type_args: vec![Type::func(FuncType {
                                    return_type: Type::NotFunc(NotFuncType::void()),
                                    type_params: Vec::new(),
                                    params: FuncParams::default(),
                                    is_nullable: false,
                                })],
                                is_nullable: true
                            }),
                            name: "funcs",
                        }
                    )
                )])),
            },
            is_nullable: true
        }),
    );
}

#[test]
fn func_type_inception() {
    check_ty(
        func_type,
        "void Function() Function()? Function() x",
        " x",
        Box::new(FuncType {
            return_type: Type::func(FuncType {
                return_type: Type::func(FuncType {
                    return_type: Type::NotFunc(NotFuncType::name("void")),
                    type_params: Vec::new(),
                    params: FuncParams::default(),
                    is_nullable: false,
                }),
                type_params: Vec::new(),
                params: FuncParams::default(),
                is_nullable: true,
            }),
            type_params: Vec::new(),
            params: FuncParams::default(),
            is_nullable: false,
        }),
    );
}
