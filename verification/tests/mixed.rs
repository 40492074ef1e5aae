#![allow(unused_imports)]

use dart_parser::dart::annotation::Annotation;
use dart_parser::dart::class::{
    Class, ClassMember, ClassModifier, ClassModifierSet, Constructor, ConstructorModifier,
};
use dart_parser::dart::comment::Comment;
use dart_parser::dart::directive::{Directive, Export, Filter, Import, PartOf};
use dart_parser::dart::enum_ty::{EnumTy, EnumValue};
use dart_parser::dart::expr::Expr;
use dart_parser::dart::extension::{Extension, ExtensionMember};
use dart_parser::dart::func_call::{FuncArg, FuncCall};
use dart_parser::dart::func_like::{
    Func, FuncBody, FuncBodyContent, FuncBodyModifier, FuncLike, FuncModifier, FuncModifierSet,
    FuncParam, FuncParamModifier, FuncParamModifierSet, FuncParams, FuncParamsExtra, Getter,
    Operator, Setter, UserDefOperator,
};
use dart_parser::dart::maybe_required::MaybeRequired;
use dart_parser::dart::meta::{Meta, WithMeta};
use dart_parser::dart::ty::{
    FuncType, FuncTypeParamNamed, FuncTypeParamPos, NotFuncType, Tuple, Type,
};
use dart_parser::dart::type_param::TypeParam;
use dart_parser::dart::typedef::TypeDef;
use dart_parser::dart::var::{Var, VarModifier, VarModifierSet};
use dart_parser::dart::Dart;
use dart_parser::parser::outcome::{Label, Mark, PResult, ParseError};
use dart_parser::parser::parse;


fn check_parser<'s, T: PartialEq + std::fmt::Debug>(
    parser: impl Fn(&'s str, usize) -> PResult<T>,
    input: &'s str,
    rest: &str,
    value: T,
) {
    match parser(input, 0) {
        Ok((next, found)) => {
            assert_eq!(&input[next..], rest);
            assert_eq!(found, value);
        }
        Err(error) => panic!("{:?}", error),
    }
}

const DART_MIXED: &str = r#"
import 'dart:math';
import 'package:path/path.dart' as p;

part 'types.g.dart';

// A comment
/*
Another comment
*/
const category = "mixed bag";
late final int crash_count;

class Base {
  Base(this.id);

  final String id;
}

@immutable
class Record<T> extends Base implements A<Future<void>, B?>, C {
  String name;
}

Map<String, Object?> _recordToJson(Record o, [bool quack = false]) {
    print("Hello?");
}
"#;

#[test]
fn mixed_test() {
    check_parser(
        |input, _| parse(input),
        DART_MIXED.trim_start(),
        "",
        vec![
            WithMeta::value(Dart::Directive(Directive::Import(Import::target(
                "dart:math"
            )))),
            WithMeta::value(Dart::Directive(Directive::Import(Import::target_as(
                "package:path/path.dart",
                "p"
            )))),
            WithMeta::value(Dart::Directive(Directive::Part("types.g.dart"))),
            WithMeta::new(
                vec![
                    Meta::Comment(Comment::SingleLine("// A comment\n")),
                    Meta::Comment(Comment::MultiLine("/*\nAnother comment\n*/"))
                ],
                Dart::Var(Var {
                    modifiers: VarModifierSet::from_iter([VarModifier::Const]),
                    var_type: None,
                    name: "category",
                    initializer: Some(Expr::String("mixed bag")),
                })
            ),
            WithMeta::value(Dart::Var(Var {
                modifiers: VarModifierSet::from_iter([
                    VarModifier::Late,
                    VarModifier::Final
                ]),
                var_type: Some(Type::NotFunc(NotFuncType::name("int"))),
                name: "crash_count",
                initializer: None,
            })),
            WithMeta::value(Dart::Class(Class {
                modifiers: ClassModifierSet::from_iter([ClassModifier::Class]),
                name: "Base",
                type_params: Vec::new(),
                extends: None,
                with: Vec::new(),
                implements: Vec::default(),
                mixin_on: Vec::default(),
                body: vec![
                    WithMeta::value(ClassMember::Constructor(Constructor {
                        modifier: None,
                        name: "Base",
                        params: FuncParams {
                            positional_req: vec![WithMeta::value(FuncParam {
                                modifiers: FuncParamModifierSet::default(),
                                param_type: None,
                                name: "this.id",
                                initializer: None
                            })],
                            extra: None,
                        },
                        initializers: None,
                        body: None,
                    })),
                    WithMeta::value(ClassMember::Var(Var {
                        modifiers: VarModifierSet::from_iter([VarModifier::Final]),
                        var_type: Some(Type::NotFunc(NotFuncType::name("String"))),
                        name: "id",
                        initializer: None,
                    })),
                ],
            })),
            WithMeta::new(
                vec![Meta::Annotation(Annotation::Ident("immutable"))],
                Dart::Class(Class {
                    modifiers: ClassModifierSet::from_iter([ClassModifier::Class]),
                    name: "Record",
                    type_params: vec![TypeParam {
                        name: "T",
                        extends: None
                    }],
                    extends: Some(NotFuncType::name("Base")),
                    with: Vec::new(),
                    implements: vec![
                        NotFuncType {
                            name: "A",
                            type_args: vec![
                                Type::NotFunc(NotFuncType {
                                    name: "Future",
                                    type_args: vec![Type::NotFunc(NotFuncType::name(
                                        "void"
                                    ))],
                                    is_nullable: false,
                                }),
                                Type::NotFunc(NotFuncType {
                                    name: "B",
                                    type_args: Vec::default(),
                                    is_nullable: true,
                                }),
                            ],
                            is_nullable: false,
                        },
                        NotFuncType::name("C")
                    ],
                    mixin_on: Vec::default(),
                    body: vec![WithMeta::value(ClassMember::Var(Var {
                        modifiers: VarModifierSet::default(),
                        var_type: Some(Type::NotFunc(NotFuncType::name("String"))),
                        name: "name",
                        initializer: None,
                    })),],
                })
            ),
            WithMeta::value(Dart::FuncLike(FuncLike::Func(Func {
                modifiers: FuncModifierSet::default(),
                return_type: Type::NotFunc(NotFuncType {
                    name: "Map",
                    type_args: vec![
                        Type::NotFunc(NotFuncType::name("String")),
                        Type::NotFunc(NotFuncType {
                            name: "Object",
                            type_args: Vec::new(),
                            is_nullable: true,
                        })
                    ],
                    is_nullable: false,
                }),
                name: "_recordToJson",
                type_params: Vec::new(),
                params: FuncParams {
                    positional_req: vec![WithMeta::value(FuncParam {
                        modifiers: FuncParamModifierSet::default(),
                        param_type: Some(Type::NotFunc(NotFuncType::name("Record"))),
                        name: "o",
                        initializer: None
                    })],
                    extra: Some(FuncParamsExtra::PositionalOpt(vec![WithMeta::value(
                        FuncParam {
                            modifiers: FuncParamModifierSet::default(),
                            param_type: Some(Type::NotFunc(NotFuncType::name("bool"))),
                            name: "quack",
                            initializer: Some(Expr::Ident("false"))
                        }
                    )]))
                },
                body: Some(FuncBody {
                    modifier: None,
                    content: FuncBodyContent::Block("{\n    print(\"Hello?\");\n}")
                })
            }))),
        ],
    );
}
