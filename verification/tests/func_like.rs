#![allow(unused_imports)]

use dart_parser::dart::annotation::Annotation;
use dart_parser::dart::class::{
    Class, ClassMember, ClassModifier, ClassModifierSet, Constructor, ConstructorModifier,
};
use dart_parser::dart::comment::Comment;
use dart_parser::dart::directive::{Directive, Export, Filter, Import, PartOf};
use dart_parser::dart::enum_ty::{EnumTy, EnumValue};
use dart_parser::dart::expr::Expr;
use dart_parser::dart::extension::{Extension, ExtensionMember};
use dart_parser::dart::func_call::{FuncArg, FuncCall};
use dart_parser::dart::func_like::{
    Func, FuncBody, FuncBodyContent, FuncBodyModifier, FuncLike, FuncModifier, FuncModifierSet,
    FuncParam, FuncParamModifier, FuncParamModifierSet, FuncParams, FuncParamsExtra, Getter,
    Operator, Setter, UserDefOperator,
};
use dart_parser::dart::maybe_required::MaybeRequired;
use dart_parser::dart::meta::{Meta, WithMeta};
use dart_parser::dart::ty::{
    FuncType, FuncTypeParamNamed, FuncTypeParamPos, NotFuncType, Tuple, Type,
};
use dart_parser::dart::type_param::TypeParam;
use dart_parser::dart::typedef::TypeDef;
use dart_parser::dart::var::{Var, VarModifier, VarModifierSet};
use dart_parser::dart::Dart;
use dart_parser::parser::outcome::{Label, Mark, PResult, ParseError};
use dart_parser::parser::func_like::{func, func_modifier_set, setter};


fn check_func_like<'s, T: PartialEq + std::fmt::Debug>(
    parser: impl Fn(&'s str, usize) -> PResult<T>,
    input: &'s str,
    rest: &str,
    value: T,
) {
    match parser(input, 0) {
        Ok((next, found)) => {
            assert_eq!(&input[next..], rest);
            assert_eq!(found, value);
        }
        Err(error) => panic!("{:?}", error),
    }
}

#[test]
fn func_like_func_block_test() {
    check_func_like(
        func,
        "void f<T extends Object?, U>() {}x",
        "x",
        Func {
            modifiers: FuncModifierSet::default(),
            return_type: Type::NotFunc(NotFuncType::name("void")),
            name: "f",
            type_params: vec![
                TypeParam {
                    name: "T",
                    extends: Some(Type::NotFunc(NotFuncType {
                        name: "Object",
                        type_args: Vec::new(),
                        is_nullable: true
                    })),
                },
                TypeParam {
                    name: "U",
                    extends: None
                }
            ],
            params: FuncParams {
                positional_req: Vec::new(),
                extra: None,
            },
            body: Some(FuncBody {
                modifier: None,
                content: FuncBodyContent::Block("{}")
            })
        },
    );
}

#[test]
fn func_like_func_pos_params_test() {
    check_func_like(
        func,
        "void f(int x, final double? y, [final bool mystery_flag = false]) {}x",
        "x",
        Func {
            modifiers: FuncModifierSet::default(),
            return_type: Type::NotFunc(NotFuncType::name("void")),
            name: "f",
            type_params: Vec::new(),
            params: FuncParams {
                positional_req: vec![
                    WithMeta::value(FuncParam {
                        modifiers: FuncParamModifierSet::default(),
                        param_type: Some(Type::NotFunc(NotFuncType::name("int"))),
                        name: "x",
                        initializer: None,
                    }),
                    WithMeta::value(FuncParam {
                        modifiers: FuncParamModifierSet::from_iter([
                            FuncParamModifier::Final
                        ]),
                        param_type: Some(Type::NotFunc(NotFuncType {
                            name: "double",
                            type_args: Vec::new(),
                            is_nullable: true,
                        })),
                        name: "y",
                        initializer: None,
                    }),
                ],
                extra: Some(FuncParamsExtra::PositionalOpt(vec![WithMeta::value(
                    FuncParam {
                        modifiers: FuncParamModifierSet::from_iter([
                            FuncParamModifier::Final
                        ]),
                        param_type: Some(Type::NotFunc(NotFuncType::name("bool"))),
                        name: "mystery_flag",
                        initializer: Some(Expr::Ident("false")),
                    }
                )])),
            },
            body: Some(FuncBody {
                modifier: None,
                content: FuncBodyContent::Block("{}")
            })
        },
    );
}

#[test]
fn func_like_func_sync_gen_test() {
    check_func_like(
        func,
        "Iterable<int> f() sync* { print('<_<'); yield 0; }x",
        "x",
        Func {
            modifiers: FuncModifierSet::default(),
            return_type: Type::NotFunc(NotFuncType {
                name: "Iterable",
                type_args: vec![Type::NotFunc(NotFuncType::name("int"))],
                is_nullable: false
            }),
            name: "f",
            type_params: Vec::new(),
            params: FuncParams {
                positional_req: Vec::new(),
                extra: None,
            },
            body: Some(FuncBody {
                modifier: Some(FuncBodyModifier::SyncGenerator),
                content: FuncBodyContent::Block("{ print('<_<'); yield 0; }")
            })
        },
    );
}

#[test]
fn func_like_func_expr_test() {
    check_func_like(
        func,
        "static List<String> f() => const [\"abc\"];x",
        "x",
        Func {
            modifiers: FuncModifierSet::from_iter([FuncModifier::Static]),
            return_type: Type::NotFunc(NotFuncType {
                name: "List",
                type_args: vec![Type::NotFunc(NotFuncType::name("String"))],
                is_nullable: false,
            }),
            name: "f",
            type_params: Vec::new(),
            params: FuncParams {
                positional_req: Vec::new(),
                extra: None,
            },
            body: Some(FuncBody {
                modifier: None,
                content: FuncBodyContent::Expr(Expr::Verbatim("const [\"abc\"]"))
            })
        },
    );
}

#[test]
fn func_like_func_expr_async_test() {
    check_func_like(
        func,
        "static Future<String> f() async => \"abc\";x",
        "x",
        Func {
            modifiers: FuncModifierSet::from_iter([FuncModifier::Static]),
            return_type: Type::NotFunc(NotFuncType {
                name: "Future",
                type_args: vec![Type::NotFunc(NotFuncType::name("String"))],
                is_nullable: false,
            }),
            name: "f",
            type_params: Vec::new(),
            params: FuncParams {
                positional_req: Vec::new(),
                extra: None,
            },
            body: Some(FuncBody {
                modifier: Some(FuncBodyModifier::Async),
                content: FuncBodyContent::Expr(Expr::String("abc"))
            })
        },
    );
}

#[test]
fn func_like_func_modifier_set_test() {
    check_func_like(
        func_modifier_set,
        "external static ",
        " ",
        FuncModifierSet::from_iter([FuncModifier::External, FuncModifier::Static]),
    );
}

#[test]
fn setter_test() {
    check_func_like(
        setter,
        "set name(String value) {} ",
        " ",
        Setter {
            modifiers: FuncModifierSet::default(),
            name: "name",
            params: FuncParams {
                positional_req: vec![WithMeta::value(FuncParam {
                    name: "value",
                    modifiers: FuncParamModifierSet::default(),
                    param_type: Some(Type::NotFunc(NotFuncType::name("String"))),
                    initializer: None
                })],
                extra: None
            },
            body: Some(FuncBody {
                modifier: None,
                content: FuncBodyContent::Block("{}")
            })
        },
    );
}

#[test]
fn func_func_modifier_set_test() {
    check_func_like(
        func_modifier_set,
        "external static ",
        " ",
        FuncModifierSet::from_iter([FuncModifier::External, FuncModifier::Static]),
    );
}
