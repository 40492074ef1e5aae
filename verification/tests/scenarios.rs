#![allow(unused_imports)]

use dart_parser::dart::annotation::Annotation;
use dart_parser::dart::class::{
    Class, ClassMember, ClassModifier, ClassModifierSet, Constructor, ConstructorModifier,
};
use dart_parser::dart::comment::Comment;
use dart_parser::dart::directive::{Directive, Export, Filter, Import, PartOf};
use dart_parser::dart::enum_ty::{EnumTy, EnumValue};
use dart_parser::dart::expr::Expr;
use dart_parser::dart::extension::{Extension, ExtensionMember};
use dart_parser::dart::func_call::{FuncArg, FuncCall};
use dart_parser::dart::func_like::{
    Func, FuncBody, FuncBodyContent, FuncBodyModifier, FuncLike, FuncModifier, FuncModifierSet,
    FuncParam, FuncParamModifier, FuncParamModifierSet, FuncParams, FuncParamsExtra, Getter,
    Operator, Setter, UserDefOperator,
};
use dart_parser::dart::maybe_required::MaybeRequired;
use dart_parser::dart::meta::{Meta, WithMeta};
use dart_parser::dart::ty::{
    FuncType, FuncTypeParamNamed, FuncTypeParamPos, NotFuncType, Tuple, Type,
};
use dart_parser::dart::type_param::TypeParam;
use dart_parser::dart::typedef::TypeDef;
use dart_parser::dart::var::{Var, VarModifier, VarModifierSet};
use dart_parser::dart::Dart;
use dart_parser::parse;

fn named(name: &str) -> Type<'_> {
    Type::NotFunc(NotFuncType::name(name))
}

#[test]
fn import_without_prefix_and_filters() {
    assert_eq!(
        parse("import 'dart:math';"),
        Ok(vec![WithMeta::value(Dart::Directive(Directive::Import(Import::target(
            "dart:math"
        ))))])
    );
}

#[test]
fn import_with_prefix_and_filters_in_order() {
    assert_eq!(
        parse("import 'p.dart' as p show a, b hide c;"),
        Ok(vec![WithMeta::value(Dart::Directive(Directive::Import(Import {
            target: "p.dart",
            prefix: Some("p"),
            filters: vec![Filter::Show(vec!["a", "b"]), Filter::Hide(vec!["c"])],
        })))])
    );
}

#[test]
fn class_with_constructor_and_field() {
    assert_eq!(
        parse("class Base { Base(this.id); final String id; }"),
        Ok(vec![WithMeta::value(Dart::Class(Class {
            modifiers: ClassModifierSet::from_iter([ClassModifier::Class]),
            name: "Base",
            type_params: Vec::new(),
            extends: None,
            with: Vec::new(),
            implements: Vec::new(),
            mixin_on: Vec::new(),
            body: vec![
                WithMeta::value(ClassMember::Constructor(Constructor {
                    modifier: None,
                    name: "Base",
                    params: FuncParams {
                        positional_req: vec![WithMeta::value(FuncParam {
                            modifiers: FuncParamModifierSet::default(),
                            param_type: None,
                            name: "this.id",
                            initializer: None,
                        })],
                        extra: None,
                    },
                    initializers: None,
                    body: None,
                })),
                WithMeta::value(ClassMember::Var(Var {
                    modifiers: VarModifierSet::from_iter([VarModifier::Final]),
                    var_type: Some(named("String")),
                    name: "id",
                    initializer: None,
                })),
            ],
        }))])
    );
}

#[test]
fn annotated_generic_class() {
    assert_eq!(
        parse(
            "@immutable class Record<T> extends Base implements A<Future<void>, B?>, C { String name; }"
        ),
        Ok(vec![WithMeta::new(
            vec![Meta::Annotation(Annotation::Ident("immutable"))],
            Dart::Class(Class {
                modifiers: ClassModifierSet::from_iter([ClassModifier::Class]),
                name: "Record",
                type_params: vec![TypeParam { name: "T", extends: None }],
                extends: Some(NotFuncType::name("Base")),
                with: Vec::new(),
                implements: vec![
                    NotFuncType {
                        name: "A",
                        type_args: vec![
                            Type::NotFunc(NotFuncType {
                                name: "Future",
                                type_args: vec![named("void")],
                                is_nullable: false,
                            }),
                            Type::NotFunc(NotFuncType {
                                name: "B",
                                type_args: Vec::new(),
                                is_nullable: true,
                            }),
                        ],
                        is_nullable: false,
                    },
                    NotFuncType::name("C"),
                ],
                mixin_on: Vec::new(),
                body: vec![WithMeta::value(ClassMember::Var(Var {
                    modifiers: VarModifierSet::default(),
                    var_type: Some(named("String")),
                    name: "name",
                    initializer: None,
                }))],
            })
        )])
    );
}

#[test]
fn function_with_optional_positional_parameter() {
    assert_eq!(
        parse(
            "Map<String, Object?> _recordToJson(Record o, [bool quack = false]) { print(\"Hello?\"); }"
        ),
        Ok(vec![WithMeta::value(Dart::FuncLike(FuncLike::Func(Func {
            modifiers: FuncModifierSet::default(),
            return_type: Type::NotFunc(NotFuncType {
                name: "Map",
                type_args: vec![
                    named("String"),
                    Type::NotFunc(NotFuncType {
                        name: "Object",
                        type_args: Vec::new(),
                        is_nullable: true,
                    }),
                ],
                is_nullable: false,
            }),
            name: "_recordToJson",
            type_params: Vec::new(),
            params: FuncParams {
                positional_req: vec![WithMeta::value(FuncParam {
                    modifiers: FuncParamModifierSet::default(),
                    param_type: Some(named("Record")),
                    name: "o",
                    initializer: None,
                })],
                extra: Some(FuncParamsExtra::PositionalOpt(vec![WithMeta::value(FuncParam {
                    modifiers: FuncParamModifierSet::default(),
                    param_type: Some(named("bool")),
                    name: "quack",
                    initializer: Some(Expr::Ident("false")),
                })])),
            },
            body: Some(FuncBody {
                modifier: None,
                content: FuncBodyContent::Block("{ print(\"Hello?\"); }"),
            }),
        })))])
    );
}

#[test]
fn enum_values_with_metadata_and_arguments() {
    assert_eq!(
        parse("enum AnyAngle { /*c*/ @Tag() thirtyDegrees, sixtyDegrees(1, name: 'x') }"),
        Ok(vec![WithMeta::value(Dart::Enum(EnumTy {
            name: "AnyAngle",
            implements: Vec::new(),
            values: vec![
                WithMeta::new(
                    vec![
                        Meta::Comment(Comment::MultiLine("/*c*/")),
                        Meta::Annotation(Annotation::FuncCall(FuncCall {
                            ident: NotFuncType::name("Tag"),
                            args: Vec::new(),
                        })),
                    ],
                    EnumValue { name: "thirtyDegrees", args: Vec::new() }
                ),
                WithMeta::value(EnumValue {
                    name: "sixtyDegrees",
                    args: vec![
                        FuncArg { name: None, value: Expr::Verbatim("1") },
                        FuncArg { name: Some("name"), value: Expr::String("x") },
                    ],
                }),
            ],
            members: Vec::new(),
        }))])
    );
}

#[test]
fn function_types_nest_to_the_right() {
    let input = "R Function() Function() f;";
    let items = parse(input).unwrap();
    let expected = Type::func(FuncType {
        return_type: Type::func(FuncType {
            return_type: named("R"),
            type_params: Vec::new(),
            params: FuncParams::default(),
            is_nullable: false,
        }),
        type_params: Vec::new(),
        params: FuncParams::default(),
        is_nullable: false,
    });
    assert_eq!(
        items,
        vec![WithMeta::value(Dart::Var(Var {
            modifiers: VarModifierSet::default(),
            var_type: Some(expected),
            name: "f",
            initializer: None,
        }))]
    );
}

#[test]
fn function_type_without_return_type_returns_dynamic() {
    let items = parse("Function(int) f;").unwrap();
    assert_eq!(
        items,
        vec![WithMeta::value(Dart::Var(Var {
            modifiers: VarModifierSet::default(),
            var_type: Some(Type::func(FuncType {
                return_type: Type::NotFunc(NotFuncType::dynamic()),
                type_params: Vec::new(),
                params: FuncParams {
                    positional_req: vec![WithMeta::value(FuncTypeParamPos {
                        param_type: named("int"),
                        name: None,
                    })],
                    extra: None,
                },
                is_nullable: false,
            })),
            name: "f",
            initializer: None,
        }))]
    );
}

#[test]
fn metadata_keeps_the_order_of_the_source() {
    let items = parse("// a\n@b\n/* c */ @d() // e\nvar x;").unwrap();
    assert_eq!(items.len(), 1);
    assert_eq!(
        items[0].meta,
        vec![
            Meta::Comment(Comment::SingleLine("// a\n")),
            Meta::Annotation(Annotation::Ident("b")),
            Meta::Comment(Comment::MultiLine("/* c */")),
            Meta::Annotation(Annotation::FuncCall(FuncCall {
                ident: NotFuncType::name("d"),
                args: Vec::new(),
            })),
            Meta::Comment(Comment::SingleLine("// e\n")),
        ]
    );
    assert_eq!(
        items[0].as_ref(),
        &Dart::Var(Var {
            modifiers: VarModifierSet::default(),
            var_type: None,
            name: "x",
            initializer: None,
        })
    );
}

#[test]
fn parsing_the_same_text_twice_gives_the_same_tree() {
    let first = String::from("class A { int x = 1; }\nvoid f() {}\n");
    let second = String::from("class A { int x = 1; }\nvoid f() {}\n");
    let a = parse(&first).unwrap();
    let b = parse(&second).unwrap();
    assert_eq!(a.len(), 2);
    assert_eq!(format!("{:?}", a), format!("{:?}", b));
}

#[test]
fn the_whole_input_must_be_items() {
    assert!(parse("var x; ").is_ok());
    assert!(parse("var x; // the end").is_ok());
    assert!(parse("var x; junk").is_err());
    assert!(parse("var x; }").is_err());
}

#[test]
fn every_input_has_a_result() {
    let inputs = [
        "", " ", "\n", "@", "class", "class A", "class A {", "/*", "/* /* */", "'", "\"\"\"",
        "import", "import ;", "var", "var x", "= 1;", "é", "var é = 1;", "var x = 'é';",
        "void f(", "void f() {", "enum", "enum E {", "typedef", "extension", "}", ";", "r'",
        "var x = r'\\';", "// é", "/* é */", "\u{1F600}", "var x = \"${\";",
    ];
    for input in inputs {
        match parse(input) {
            Ok(items) => assert!(format!("{:?}", items).len() > 0),
            Err(text) => assert!(text.len() > 0 || input.is_empty()),
        }
    }
}

#[test]
fn an_empty_input_has_no_items() {
    assert_eq!(parse(""), Ok(Vec::new()));
    assert_eq!(parse(" \n\t// nothing\n/* at all */ "), Ok(Vec::new()));
}

const SHAPES: &str = r#"
import 'dart:async';
import 'package:foo/foo.dart' as foo show Bar, Baz;
export 'src/a.dart';
part 'b.g.dart';

/// The callback.
typedef Callback<T> = void Function(T value, {int? count});

const int answer = 42;
final List<String> names = <String>['a', 'b'];

@immutable
abstract class Shape<T extends num> extends Base<T> with Mixin implements Comparable<Shape<T>> {
  /// The shape.
  const Shape(this.width, {required this.height, this.depth = 0}) : assert(width > 0), super();

  factory Shape.square(T side) => Square<T>(side);

  final T width;
  late final T height;
  static const String kind = 'shape';

  T get area;
  void set label(String value) { _label = value; }

  @override
  int compareTo(Shape<T> other) => area.compareTo(other.area);

  Future<void> load() async {
    await Future.delayed(const Duration(seconds: 1));
  }

  Stream<int> count(int n) async* {
    for (var i = 0; i < n; i++) { yield i; }
  }
}

enum Color implements Named { red('r'), green('g'), blue('b'); const Color(this.code); final String code; }

extension StringX on String {
  bool get isBlank => trim().isEmpty;
}

mixin Mixin on Base { void hello() {} }

void main(List<String> args) {
  print('Hello, ${args.length} args: "${args.join(", ")}"');
}
"#;

#[test]
fn a_file_with_everything_in_it() {
    let items = match parse(SHAPES) {
        Ok(items) => items,
        Err(text) => panic!("{}", text),
    };
    let kinds: Vec<&str> = items
        .iter()
        .map(|item| match item.as_ref() {
            Dart::Directive(_) => "directive",
            Dart::TypeDef(_) => "typedef",
            Dart::Var(_) => "var",
            Dart::FuncLike(_) => "func",
            Dart::Class(_) => "class",
            Dart::Enum(_) => "enum",
            Dart::Extension(_) => "extension",
        })
        .collect();
    assert_eq!(
        kinds,
        vec![
            "directive", "directive", "directive", "directive", "typedef", "var", "var", "class",
            "enum", "extension", "class", "func"
        ]
    );
    let shape = match items[7].as_ref() {
        Dart::Class(class) => class,
        other => panic!("{:?}", other),
    };
    assert_eq!(items[7].meta.len(), 1);
    assert_eq!(shape.body.len(), 10);
    assert_eq!(shape.body[0].meta, vec![Meta::Comment(Comment::SingleLine("/// The shape.\n"))]);
    match shape.body[0].as_ref() {
        ClassMember::Constructor(c) => {
            assert_eq!(c.modifier, Some(ConstructorModifier::Const));
            assert_eq!(c.initializers, Some("assert(width > 0), super()"));
            assert_eq!(c.params.positional_req.len(), 1);
        }
        other => panic!("{:?}", other),
    }
    assert!(matches!(shape.body[5].as_ref(), ClassMember::FuncLike(FuncLike::Getter(_))));
    assert!(matches!(shape.body[6].as_ref(), ClassMember::FuncLike(FuncLike::Setter(_))));
    match shape.body[9].as_ref() {
        ClassMember::FuncLike(FuncLike::Func(f)) => {
            assert_eq!(f.name, "count");
            assert_eq!(
                f.body.as_ref().map(|body| body.modifier),
                Some(Some(FuncBodyModifier::AsyncGenerator))
            );
        }
        other => panic!("{:?}", other),
    }
    match items[8].as_ref() {
        Dart::Enum(e) => {
            assert_eq!(e.values.len(), 3);
            assert_eq!(e.members.len(), 2);
        }
        other => panic!("{:?}", other),
    }
}
