#![allow(unused_imports)]

use dart_parser::dart::annotation::Annotation;
use dart_parser::dart::class::{
    Class, ClassMember, ClassModifier, ClassModifierSet, Constructor, ConstructorModifier,
};
use dart_parser::dart::comment::Comment;
use dart_parser::dart::directive::{Directive, Export, Filter, Import, PartOf};
use dart_parser::dart::enum_ty::{EnumTy, EnumValue};
use dart_parser::dart::expr::Expr;
use dart_parser::dart::extension::{Extension, ExtensionMember};
use dart_parser::dart::func_call::{FuncArg, FuncCall};
use dart_parser::dart::func_like::{
    Func, FuncBody, FuncBodyContent, FuncBodyModifier, FuncLike, FuncModifier, FuncModifierSet,
    FuncParam, FuncParamModifier, FuncParamModifierSet, FuncParams, FuncParamsExtra, Getter,
    Operator, Setter, UserDefOperator,
};
use dart_parser::dart::maybe_required::MaybeRequired;
use dart_parser::dart::meta::{Meta, WithMeta};
use dart_parser::dart::ty::{
    FuncType, FuncTypeParamNamed, FuncTypeParamPos, NotFuncType, Tuple, Type,
};
use dart_parser::dart::type_param::TypeParam;
use dart_parser::dart::typedef::TypeDef;
use dart_parser::dart::var::{Var, VarModifier, VarModifierSet};
use dart_parser::dart::Dart;
use dart_parser::parse;
use dart_parser::parser::class::{class, class_member, constructor, mixin_on_clause};
use dart_parser::parser::comment::{comment, comment_multi_line, comment_single_line, spbrc};
use dart_parser::parser::common::{br, spbr};
use dart_parser::parser::directive::{directive, export, import};
use dart_parser::parser::enum_ty::enum_ty;
use dart_parser::parser::expr::{any_scope, block, expr};
use dart_parser::parser::extension::extension;
use dart_parser::parser::func_call::{annotation_func_call, func_arg, func_args};
use dart_parser::parser::func_like::{
    func, func_body, func_like, func_param_named, func_params, getter, operator, setter,
};
use dart_parser::parser::identifier::identifier;
use dart_parser::parser::outcome::{Label, Mark, PResult, ParseError};
use dart_parser::parser::string::string;
use dart_parser::parser::ty::{build_func_type, ty};
use dart_parser::parser::type_params::{type_param, type_params};
use dart_parser::parser::typedef::typedef;
use dart_parser::parser::var::var;

fn run<'s, T>(
    parser: impl Fn(&'s str, usize) -> PResult<T>,
    input: &'s str,
) -> Result<(&'s str, T), ParseError> {
    parser(input, 0).map(|(next, value)| (&input[next..], value))
}

fn named(name: &str) -> Type<'_> {
    Type::NotFunc(NotFuncType::name(name))
}

fn plain(name: &str) -> WithMeta<'_, FuncParam<'_>> {
    WithMeta::value(FuncParam {
        modifiers: FuncParamModifierSet::default(),
        param_type: None,
        name,
        initializer: None,
    })
}

#[test]
fn identifiers_and_reserved_words() {
    assert_eq!(run(identifier, "abc def"), Ok((" def", "abc")));
    assert_eq!(run(identifier, "_a$1.b2 "), Ok((" ", "_a$1.b2")));
    assert_eq!(identifier("x y", 2), Ok((3, "y")));
    for word in ["this", "super", "null", "true", "false", "void", "classic", "fork", "iffy"] {
        assert_eq!(identifier(word, 0), Ok((word.len(), word)));
    }
    for word in [
        "assert", "break", "case", "catch", "class", "const", "continue", "default", "do",
        "else", "enum", "extends", "finally", "for", "if", "in", "is", "new", "rethrow",
        "return", "switch", "throw", "try", "var", "when", "while", "with",
    ] {
        assert_eq!(
            identifier(word, 0),
            Err(ParseError {
                fatal: false,
                marks: vec![
                    Mark { at: 0, label: Label::Reserved },
                    Mark { at: 0, label: Label::Identifier },
                ],
            })
        );
    }
    assert!(identifier("1a", 0).is_err());
    assert!(identifier("", 0).is_err());
    assert!(identifier(".a", 0).is_err());
    assert_eq!(run(identifier, "aé"), Ok(("é", "a")));
}

#[test]
fn whitespace_and_line_breaks() {
    assert_eq!(run(br, "\nx"), Ok(("x", "\n")));
    assert_eq!(run(br, "\r\nx"), Ok(("x", "\r\n")));
    assert_eq!(run(br, "\rx"), Ok(("x", "\r")));
    assert!(br("x", 0).is_err());
    assert!(spbr("x", 0).is_err());
    assert_eq!(run(spbrc, " // a\n /* b */\tx"), Ok(("x", ())));
    assert!(spbrc("x", 0).is_err());
    assert!(spbrc(" /* open", 0).unwrap_err().fatal);
}

#[test]
fn comments() {
    assert_eq!(run(comment_single_line, "//\nx"), Ok(("x", "//\n")));
    assert_eq!(run(comment_single_line, "//"), Ok(("", "//")));
    assert_eq!(run(comment_single_line, "// a\r\nx"), Ok(("x", "// a\r\n")));
    assert_eq!(run(comment_single_line, "// é\rx"), Ok(("x", "// é\r")));
    assert!(comment_single_line("/ /", 0).is_err());
    assert_eq!(run(comment_multi_line, "/**/x"), Ok(("x", "/**/")));
    assert_eq!(run(comment_multi_line, "/***/x"), Ok(("x", "/***/")));
    assert_eq!(run(comment_multi_line, "/*/ */x"), Ok(("x", "/*/ */")));
    assert_eq!(run(comment_multi_line, "/* /* /* */ */ */x"), Ok(("x", "/* /* /* */ */ */")));
    assert_eq!(run(comment_multi_line, "/* é */"), Ok(("", "/* é */")));
    let open = comment_multi_line("/* /* */", 0).unwrap_err();
    assert!(open.fatal);
    assert_eq!(open.marks[0], Mark { at: 8, label: Label::Tag });
    assert!(!comment_multi_line("/ *", 0).unwrap_err().fatal);
    assert_eq!(run(comment, "/* a */"), Ok(("", Comment::MultiLine("/* a */"))));
    assert_eq!(run(comment, "// a"), Ok(("", Comment::SingleLine("// a"))));
}

#[test]
fn string_literals() {
    assert_eq!(run(string, "''x"), Ok(("x", "")));
    assert_eq!(run(string, "\"\"x"), Ok(("x", "")));
    assert_eq!(run(string, "'''a\n'b''c'''x"), Ok(("x", "a\n'b''c")));
    assert_eq!(run(string, "\"\"\"\nabc\"\"\""), Ok(("", "abc")));
    assert_eq!(run(string, "\"\"\"a\"b\"\"\""), Ok(("", "a\"b")));
    assert_eq!(run(string, "'a\\n\\'b'"), Ok(("", "a\\n\\'b")));
    assert_eq!(run(string, "'\\x41\\u0041\\u{1F600}'"), Ok(("", "\\x41\\u0041\\u{1F600}")));
    assert_eq!(run(string, "'$a ${b + 'c'} é'"), Ok(("", "$a ${b + 'c'} é")));
    assert_eq!(run(string, "'${ {'}': 1} }'"), Ok(("", "${ {'}': 1} }")));
    assert_eq!(run(string, "r'\\d+$'x"), Ok(("x", "\\d+$")));
    assert_eq!(run(string, "r\"a\\\"x"), Ok(("x", "a\\")));
    assert_eq!(run(string, "r'''a\\'''"), Ok(("", "a\\")));
    for open in ["'abc", "'a\nb'", "'\\q'", "'\\x4'", "'\\u{}'", "'\\u{1234567}'", "'$'", "'${'", "'''a''"] {
        let error = string(open, 0).unwrap_err();
        assert!(error.fatal, "{}", open);
        assert_eq!(error.marks.last(), Some(&Mark { at: 0, label: Label::StringLit }));
    }
    assert!(!string("abc", 0).unwrap_err().fatal);
    assert!(!string("r", 0).unwrap_err().fatal);
    assert!(!string("", 0).unwrap_err().fatal);
}

#[test]
fn brackets() {
    assert_eq!(run(block, "{}x"), Ok(("x", "{}")));
    assert_eq!(block("{ a(b[c]{d}) '}' /* } */ // }\n r'}' }x", 0).map(|r| r.0), Ok(37));
    assert_eq!(block("{ a < b > c => d }", 0).map(|r| r.0), Ok(18));
    assert_eq!(block("{ Map<String, int> m; x = a < b; }", 0).map(|r| r.0), Ok(34));
    assert_eq!(run(any_scope, "(a)"), Ok(("", ())));
    assert_eq!(run(any_scope, "[a]"), Ok(("", ())));
    assert_eq!(run(any_scope, "{a}"), Ok(("", ())));
    assert!(any_scope("(a]", 0).unwrap_err().fatal);
    assert!(any_scope("(a", 0).unwrap_err().fatal);
    assert!(!any_scope("a", 0).unwrap_err().fatal);
    assert!(block("{ 'open }", 0).unwrap_err().fatal);
    assert!(!block("(a)", 0).unwrap_err().fatal);
}

#[test]
fn expressions() {
    assert_eq!(run(expr, "abc;"), Ok((";", Expr::Ident("abc"))));
    assert_eq!(run(expr, "a.b.c,"), Ok((",", Expr::Ident("a.b.c"))));
    assert_eq!(run(expr, "abc ;"), Ok((";", Expr::Verbatim("abc "))));
    assert_eq!(run(expr, " abc;"), Ok((";", Expr::Verbatim(" abc"))));
    assert_eq!(run(expr, "\"a\" ;"), Ok((";", Expr::Verbatim("\"a\" "))));
    assert_eq!(run(expr, "'a' 'b';"), Ok((";", Expr::Verbatim("'a' 'b'"))));
    assert_eq!(run(expr, "r'a';"), Ok((";", Expr::String("a"))));
    assert_eq!(run(expr, "new Foo())"), Ok((")", Expr::Verbatim("new Foo()"))));
    assert_eq!(run(expr, "a ? b : c]"), Ok(("]", Expr::Verbatim("a ? b : c"))));
    assert_eq!(run(expr, "(a, b) => a < b, c"), Ok((", c", Expr::Verbatim("(a, b) => a < b"))));
    assert_eq!(run(expr, "é + 1;"), Ok((";", Expr::Verbatim("é + 1"))));
    assert_eq!(run(expr, "1"), Ok(("", Expr::Verbatim("1"))));
    for empty in ["", ";", " ;", ",", ")", "  "] {
        let error = expr(empty, 0).unwrap_err();
        assert!(!error.fatal);
        assert_eq!(error.marks[0].label, Label::Many1);
    }
    assert!(expr("f(", 0).unwrap_err().fatal);
    assert!(expr("'a", 0).unwrap_err().fatal);
}

#[test]
fn types() {
    assert_eq!(run(ty, "int x"), Ok((" x", named("int"))));
    assert_eq!(
        run(ty, "List <int> ? x"),
        Ok((" x", Type::NotFunc(NotFuncType { name: "List", type_args: vec![named("int")], is_nullable: true })))
    );
    assert_eq!(
        ty("(int, String name, {bool flag, on: Foo})? x", 0),
        Ok((
            41,
            Type::Tuple(Tuple {
                params_pos: vec![
                    FuncTypeParamPos { param_type: named("int"), name: None },
                    FuncTypeParamPos { param_type: named("String"), name: Some("name") },
                ],
                params_named: vec![
                    FuncTypeParamNamed { param_type: named("bool"), name: "flag" },
                    FuncTypeParamNamed { param_type: named("Foo"), name: "on" },
                ],
                is_nullable: true,
            })
        ))
    );
    assert_eq!(
        run(ty, "() x"),
        Ok((" x", Type::Tuple(Tuple { params_pos: Vec::new(), params_named: Vec::new(), is_nullable: false })))
    );
    assert_eq!(
        ty("void Function(int, [String s]) x", 0),
        Ok((
            30,
            Type::func(FuncType {
                return_type: named("void"),
                type_params: Vec::new(),
                params: FuncParams {
                    positional_req: vec![WithMeta::value(FuncTypeParamPos { param_type: named("int"), name: None })],
                    extra: Some(FuncParamsExtra::PositionalOpt(vec![WithMeta::value(FuncTypeParamPos {
                        param_type: named("String"),
                        name: Some("s"),
                    })])),
                },
                is_nullable: false,
            })
        ))
    );
    assert_eq!(
        ty("void Function({required int a, B b,})", 0).map(|r| r.1),
        Ok(Type::func(FuncType {
            return_type: named("void"),
            type_params: Vec::new(),
            params: FuncParams {
                positional_req: Vec::new(),
                extra: Some(FuncParamsExtra::Named(vec![
                    WithMeta::value(MaybeRequired::required(FuncTypeParamNamed { param_type: named("int"), name: "a" })),
                    WithMeta::value(MaybeRequired::optional(FuncTypeParamNamed { param_type: named("B"), name: "b" })),
                ])),
            },
            is_nullable: false,
        }))
    );
    assert!(ty("List<", 0).unwrap_err().fatal);
    assert!(ty("List<int", 0).unwrap_err().fatal);
    assert!(ty("void Function(", 0).unwrap_err().fatal);
    assert!(!ty("class", 0).unwrap_err().fatal);
    assert!(!ty("(int", 0).unwrap_err().fatal);
    assert!(!ty("", 0).unwrap_err().fatal);
}

#[test]
fn build_func_type_wraps_from_the_inside() {
    assert_eq!(build_func_type(Some(NotFuncType::name("R")), Vec::new()), None);
    assert_eq!(build_func_type(None, Vec::new()), None);
    assert_eq!(
        build_func_type(None, vec![(Vec::new(), FuncParams::default(), true)]),
        Some(Box::new(FuncType {
            return_type: Type::NotFunc(NotFuncType::dynamic()),
            type_params: Vec::new(),
            params: FuncParams::default(),
            is_nullable: true,
        }))
    );
    assert_eq!(
        build_func_type(
            Some(NotFuncType::void()),
            vec![
                (Vec::new(), FuncParams::default(), false),
                (vec![TypeParam { name: "T", extends: None }], FuncParams::default(), true),
            ]
        ),
        Some(Box::new(FuncType {
            return_type: Type::func(FuncType {
                return_type: Type::NotFunc(NotFuncType::void()),
                type_params: Vec::new(),
                params: FuncParams::default(),
                is_nullable: false,
            }),
            type_params: vec![TypeParam { name: "T", extends: None }],
            params: FuncParams::default(),
            is_nullable: true,
        }))
    );
}

#[test]
fn type_parameters() {
    assert_eq!(run(type_param, "T,"), Ok((",", TypeParam { name: "T", extends: None })));
    assert_eq!(
        run(type_param, "T extends List<int>>"),
        Ok((">", TypeParam {
            name: "T",
            extends: Some(Type::NotFunc(NotFuncType { name: "List", type_args: vec![named("int")], is_nullable: false })),
        }))
    );
    assert!(type_param("T extends >", 0).unwrap_err().fatal);
    assert_eq!(
        run(type_params, "< A , B >x"),
        Ok(("x", vec![TypeParam { name: "A", extends: None }, TypeParam { name: "B", extends: None }]))
    );
    assert!(type_params("<>", 0).unwrap_err().fatal);
    assert!(type_params("<A", 0).unwrap_err().fatal);
    assert!(!type_params("A>", 0).unwrap_err().fatal);
}

#[test]
fn arguments_of_calls() {
    assert_eq!(run(func_args, "()"), Ok(("", Vec::new())));
    assert_eq!(
        run(func_args, "( a , b : c , )x"),
        Ok(("x", vec![
            FuncArg { name: None, value: Expr::Verbatim("a ") },
            FuncArg { name: Some("b"), value: Expr::Verbatim("c ") },
        ]))
    );
    assert_eq!(
        run(func_arg, "a /* x */ : /* y */ 'b')"),
        Ok((")", FuncArg { name: Some("a"), value: Expr::String("b") }))
    );
    assert!(func_args("(a", 0).unwrap_err().fatal);
    assert!(!func_args("a", 0).unwrap_err().fatal);
    assert_eq!(
        annotation_func_call("A<int>?(1) x", 0).map(|r| r.0),
        Ok(10)
    );
    assert!(!annotation_func_call("A (1)", 0).unwrap_err().fatal);
}

#[test]
fn parameters() {
    assert_eq!(run(func_params, "()"), Ok(("", FuncParams::default())));
    assert_eq!(
        run(func_params, "(a, b,)"),
        Ok(("", FuncParams { positional_req: vec![plain("a"), plain("b")], extra: None }))
    );
    assert_eq!(
        func_params("( /* c */ a // d\n , [ b ] )", 0),
        Ok((
            27,
            FuncParams {
                positional_req: vec![WithMeta::new(vec![Meta::Comment(Comment::MultiLine("/* c */"))], FuncParam {
                    modifiers: FuncParamModifierSet::default(),
                    param_type: None,
                    name: "a",
                    initializer: None,
                })],
                extra: Some(FuncParamsExtra::PositionalOpt(vec![plain("b")])),
            }
        ))
    );
    assert_eq!(
        func_params("({required covariant final int a = 1, var b})", 0),
        Ok((
            45,
            FuncParams {
                positional_req: Vec::new(),
                extra: Some(FuncParamsExtra::Named(vec![
                    WithMeta::value(MaybeRequired::required(FuncParam {
                        modifiers: FuncParamModifierSet::from_iter([
                            FuncParamModifier::Covariant,
                            FuncParamModifier::Final,
                        ]),
                        param_type: Some(named("int")),
                        name: "a",
                        initializer: Some(Expr::Verbatim("1")),
                    })),
                    WithMeta::value(MaybeRequired::optional(FuncParam {
                        modifiers: FuncParamModifierSet::default(),
                        param_type: None,
                        name: "b",
                        initializer: None,
                    })),
                ])),
            }
        ))
    );
    assert!(func_params("(a", 0).unwrap_err().fatal);
    assert!(func_params("([a)", 0).unwrap_err().fatal);
    assert!(func_params("({a)", 0).unwrap_err().fatal);
    assert!(!func_params("a", 0).unwrap_err().fatal);
}

#[test]
fn functions_getters_setters_operators() {
    assert_eq!(
        run(func_like, "int get x => 1;"),
        Ok(("", FuncLike::Getter(Getter {
            modifiers: FuncModifierSet::default(),
            return_type: named("int"),
            name: "x",
            body: Some(FuncBody { modifier: None, content: FuncBodyContent::Expr(Expr::Verbatim("1")) }),
        })))
    );
    assert_eq!(
        run(func_like, "external static void set x(int v);"),
        Ok(("", FuncLike::Setter(Setter {
            modifiers: FuncModifierSet::from_iter([FuncModifier::External, FuncModifier::Static]),
            name: "x",
            params: FuncParams {
                positional_req: vec![WithMeta::value(FuncParam {
                    modifiers: FuncParamModifierSet::default(),
                    param_type: Some(named("int")),
                    name: "v",
                    initializer: None,
                })],
                extra: None,
            },
            body: None,
        })))
    );
    assert_eq!(
        run(func_like, "bool operator ==(Object other) => true;"),
        Ok(("", FuncLike::Operator(Operator {
            modifiers: FuncModifierSet::default(),
            return_type: named("bool"),
            operator_type: UserDefOperator::Eq,
            type_params: Vec::new(),
            params: FuncParams {
                positional_req: vec![WithMeta::value(FuncParam {
                    modifiers: FuncParamModifierSet::default(),
                    param_type: Some(named("Object")),
                    name: "other",
                    initializer: None,
                })],
                extra: None,
            },
            body: Some(FuncBody { modifier: None, content: FuncBodyContent::Expr(Expr::Ident("true")) }),
        })))
    );
    assert_eq!(
        func_like("void operator []=(int i, T v) {}", 0).map(|r| match r.1 {
            FuncLike::Operator(o) => Some(o.operator_type),
            _ => None,
        }),
        Ok(Some(UserDefOperator::IndexSet))
    );
    assert_eq!(
        run(func_body, "async* { yield 1; }"),
        Ok(("", FuncBody {
            modifier: Some(FuncBodyModifier::AsyncGenerator),
            content: FuncBodyContent::Block("{ yield 1; }"),
        }))
    );
    assert_eq!(
        func_body("async {}", 0).map(|r| r.1.modifier),
        Ok(Some(FuncBodyModifier::Async))
    );
    assert_eq!(
        func_body("sync * {}", 0).map(|r| r.1.modifier),
        Ok(Some(FuncBodyModifier::SyncGenerator))
    );
    assert!(func_body("=> 1", 0).is_err());
    assert!(func("void f()", 0).is_err());
    assert!(func("void f() = 1;", 0).is_err());
    assert!(func("void f(", 0).unwrap_err().fatal);
}

#[test]
fn variables() {
    assert_eq!(
        run(var, "var x=1;"),
        Ok(("", Var { modifiers: VarModifierSet::default(), var_type: None, name: "x", initializer: Some(Expr::Verbatim("1")) }))
    );
    assert_eq!(
        run(var, "finalist x;"),
        Ok(("", Var { modifiers: VarModifierSet::default(), var_type: Some(named("finalist")), name: "x", initializer: None }))
    );
    assert_eq!(
        run(var, "final finalist x;"),
        Ok(("", Var {
            modifiers: VarModifierSet::from_iter([VarModifier::Final]),
            var_type: Some(named("finalist")),
            name: "x",
            initializer: None,
        }))
    );
    assert_eq!(
        var("external static late final covariant const x;", 0).map(|r| r.1.modifiers.to_vec().len()),
        Ok(6)
    );
    assert!(var("var x = ;", 0).unwrap_err().fatal);
    assert!(!var("var x", 0).unwrap_err().fatal);
    assert!(!var("class x;", 0).unwrap_err().fatal);
}

#[test]
fn classes_and_mixins() {
    let (rest, found) =
        run(class, "abstract base mixin class A<T> with B , C implements D, E on F {\n}x").unwrap();
    assert_eq!(rest, "x");
    assert_eq!(
        found.modifiers.to_vec(),
        vec![
            ClassModifier::Class,
            ClassModifier::Mixin,
            ClassModifier::Abstract,
            ClassModifier::Base
        ]
    );
    assert_eq!(found.name, "A");
    assert_eq!(found.type_params, vec![TypeParam { name: "T", extends: None }]);
    assert_eq!(found.extends, None);
    assert_eq!(found.with, vec![NotFuncType::name("B"), NotFuncType::name("C")]);
    assert_eq!(found.implements, vec![NotFuncType::name("D"), NotFuncType::name("E")]);
    assert_eq!(found.mixin_on, vec![NotFuncType::name("F")]);
    assert_eq!(found.body, Vec::new());
    assert_eq!(
        run(mixin_on_clause, "on A /* a */ , /* b */ B {"),
        Ok(("{", vec![NotFuncType::name("A"), NotFuncType::name("B")]))
    );
    assert!(class("class A extends {}", 0).unwrap_err().fatal);
    assert!(class("class A with {}", 0).unwrap_err().fatal);
    assert!(class("class A implements {}", 0).unwrap_err().fatal);
    assert!(class("class A { int }", 0).unwrap_err().fatal);
    assert!(class("class A {", 0).unwrap_err().fatal);
    assert!(!class("class A", 0).unwrap_err().fatal);
    assert!(!class("classA {}", 0).unwrap_err().fatal);
    assert!(!class("A {}", 0).unwrap_err().fatal);
}

#[test]
fn members_of_a_class() {
    assert_eq!(
        run(class_member, "A.b() : x = 1, super();x"),
        Ok((
            "x",
            ClassMember::Constructor(Constructor {
                modifier: None,
                name: "A.b",
                params: FuncParams::default(),
                initializers: Some("x = 1, super()"),
                body: None,
            })
        ))
    );
    assert_eq!(
        run(constructor, "external A();").map(|r| r.1.modifier),
        Ok(Some(ConstructorModifier::External))
    );
    assert_eq!(
        run(constructor, "factory A() => B();").map(|r| r.1.body),
        Ok(Some(FuncBodyContent::Expr(Expr::Verbatim("B()"))))
    );
    assert!(matches!(run(class_member, "int x = 1;"), Ok(("", ClassMember::Var(_)))));
    assert!(matches!(run(class_member, "int f() => 1;"), Ok(("", ClassMember::FuncLike(_)))));
    assert!(matches!(run(class_member, "f() {}"), Ok(("", ClassMember::Constructor(_)))));
    assert!(class_member("}", 0).is_err());
}

#[test]
fn enums_with_members() {
    let (rest, found) = run(
        enum_ty,
        "enum E implements A, B { a, b(1), ; final int x; const E(this.x); int get y => x; }x",
    )
    .unwrap();
    assert_eq!(rest, "x");
    assert_eq!(found.implements, vec![NotFuncType::name("A"), NotFuncType::name("B")]);
    assert_eq!(found.values.len(), 2);
    assert_eq!(found.values[0].as_ref().name, "a");
    assert_eq!(
        found.values[1].as_ref().args,
        vec![FuncArg { name: None, value: Expr::Verbatim("1") }]
    );
    assert_eq!(found.members.len(), 3);
    assert!(matches!(found.members[0].as_ref(), ClassMember::Var(_)));
    assert!(matches!(found.members[1].as_ref(), ClassMember::Constructor(_)));
    assert!(matches!(found.members[2].as_ref(), ClassMember::FuncLike(FuncLike::Getter(_))));
    assert_eq!(
        run(enum_ty, "enum E {}"),
        Ok(("", EnumTy { name: "E", implements: Vec::new(), values: Vec::new(), members: Vec::new() }))
    );
    assert!(enum_ty("enum E { a b }", 0).unwrap_err().fatal);
    assert!(enum_ty("enum E {", 0).unwrap_err().fatal);
    assert!(!enum_ty("enum {}", 0).unwrap_err().fatal);
    assert!(!enum_ty("enumE {}", 0).unwrap_err().fatal);
}

#[test]
fn extensions_with_members() {
    let (rest, found) = run(
        extension,
        "extension Ext<T> on List<T> {\n  // first\n  T get head => this[0];\n  static int n = 0;\n}x",
    )
    .unwrap();
    assert_eq!(rest, "x");
    assert_eq!(found.name, Some("Ext"));
    assert_eq!(found.type_params, vec![TypeParam { name: "T", extends: None }]);
    assert_eq!(found.body.len(), 2);
    assert_eq!(found.body[0].meta, vec![Meta::Comment(Comment::SingleLine("// first\n"))]);
    assert!(matches!(found.body[0].as_ref(), ExtensionMember::FuncLike(FuncLike::Getter(_))));
    assert!(matches!(found.body[1].as_ref(), ExtensionMember::Var(_)));
    assert_eq!(run(extension, "extension<T> on T {}").map(|r| r.1.name), Ok(None));
    assert!(extension("extension X on Y { ? }", 0).unwrap_err().fatal);
    assert!(!extension("extension X {}", 0).unwrap_err().fatal);
}

#[test]
fn directives() {
    assert_eq!(
        run(directive, "export 'a.dart' show b hide c;x"),
        Ok((
            "x",
            Directive::Export(Export {
                target: "a.dart",
                filters: vec![Filter::Show(vec!["b"]), Filter::Hide(vec!["c"])],
            })
        ))
    );
    assert_eq!(
        run(directive, "part of a.b;"),
        Ok(("", Directive::PartOf(PartOf::LibName("a.b"))))
    );
    assert_eq!(run(directive, "part 'a';"), Ok(("", Directive::Part("a"))));
    assert_eq!(
        run(import, "import 'a' as b show c /* d */ , e show f;"),
        Ok((
            "",
            Import {
                target: "a",
                prefix: Some("b"),
                filters: vec![Filter::Show(vec!["c", "e"]), Filter::Show(vec!["f"])],
            }
        ))
    );
    let error = import("import 'a' show b ;", 0).unwrap_err();
    assert!(error.fatal);
    assert_eq!(error.marks[0], Mark { at: 17, label: Label::Char });
    assert!(import("import a;", 0).unwrap_err().fatal);
    assert!(import("import 'a'", 0).unwrap_err().fatal);
    assert!(!import("import'a';", 0).unwrap_err().fatal);
    assert!(!directive("library a;", 0).unwrap_err().fatal);
}

#[test]
fn type_aliases() {
    assert_eq!(
        run(typedef, "typedef F<T> = void Function(T);x"),
        Ok((
            "x",
            TypeDef {
                name: "F",
                type_params: vec![TypeParam { name: "T", extends: None }],
                target: Type::func(FuncType {
                    return_type: named("void"),
                    type_params: Vec::new(),
                    params: FuncParams {
                        positional_req: vec![WithMeta::value(FuncTypeParamPos {
                            param_type: named("T"),
                            name: None,
                        })],
                        extra: None,
                    },
                    is_nullable: false,
                }),
            }
        ))
    );
    assert!(typedef("typedef F = ;", 0).is_err());
    assert!(typedef("typedef F<", 0).unwrap_err().fatal);
}

#[test]
fn a_failure_is_told_as_text() {
    let source = "import 'dart:math';\n\nclass A {\n  int x\n}\n";
    let text = parse(source).unwrap_err();
    assert_ne!(text, source);
    assert_eq!(
        text,
        "0: at line 4, in Char:\n  int x\n  ^\n\n\
         1: at line 3, in class_body:\nclass A {\n        ^\n\n\
         2: at line 3, in class:\nclass A {\n^\n\n\
         3: at line 3, in with_meta:\nclass A {\n^\n\n"
    );
    let end = parse("var x = 'é ").unwrap_err();
    assert!(end.contains("at line 1"), "{}", end);
    assert!(end.contains("in string"), "{}", end);
    let other = parse("é").unwrap_err();
    assert!(other.contains("in Eof"), "{}", other);
    assert_ne!(parse("var x").unwrap_err(), parse("var y = ").unwrap_err());
}
