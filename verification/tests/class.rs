#![allow(unused_imports)]

use dart_parser::dart::annotation::Annotation;
use dart_parser::dart::class::{
    Class, ClassMember, ClassModifier, ClassModifierSet, Constructor, ConstructorModifier,
};
use dart_parser::dart::comment::Comment;
use dart_parser::dart::directive::{Directive, Export, Filter, Import, PartOf};
use dart_parser::dart::enum_ty::{EnumTy, EnumValue};
use dart_parser::dart::expr::Expr;
use dart_parser::dart::extension::{Extension, ExtensionMember};
use dart_parser::dart::func_call::{FuncArg, FuncCall};
use dart_parser::dart::func_like::{
    Func, FuncBody, FuncBodyContent, FuncBodyModifier, FuncLike, FuncModifier, FuncModifierSet,
    FuncParam, FuncParamModifier, FuncParamModifierSet, FuncParams, FuncParamsExtra, Getter,
    Operator, Setter, UserDefOperator,
};
use dart_parser::dart::maybe_required::MaybeRequired;
use dart_parser::dart::meta::{Meta, WithMeta};
use dart_parser::dart::ty::{
    FuncType, FuncTypeParamNamed, FuncTypeParamPos, NotFuncType, Tuple, Type,
};
use dart_parser::dart::type_param::TypeParam;
use dart_parser::dart::typedef::TypeDef;
use dart_parser::dart::var::{Var, VarModifier, VarModifierSet};
use dart_parser::dart::Dart;
use dart_parser::parser::outcome::{Label, Mark, PResult, ParseError};
use dart_parser::parser::class::{class, constructor, extends_clause, implements_clause, with_clause};


fn check_class<'s, T: PartialEq + std::fmt::Debug>(
    parser: impl Fn(&'s str, usize) -> PResult<T>,
    input: &'s str,
    rest: &str,
    value: T,
) {
    match parser(input, 0) {
        Ok((next, found)) => {
            assert_eq!(&input[next..], rest);
            assert_eq!(found, value);
        }
        Err(error) => panic!("{:?}", error),
    }
}

#[test]
fn extends_test() {
    check_class(
        extends_clause,
        "extends Base ",
        " ",
        NotFuncType::name("Base"),
    );
}

#[test]
fn with_test() {
    check_class(
        with_clause,
        "with Salt, Pepper<Black> ",
        " ",
        vec![
            NotFuncType::name("Salt"),
            NotFuncType {
                name: "Pepper",
                type_args: vec![Type::NotFunc(NotFuncType::name("Black"))],
                is_nullable: false,
            }
        ],
    );
}

#[test]
fn implements_test() {
    check_class(
        implements_clause,
        "implements A, B, C x",
        "x",
        vec![
            NotFuncType::name("A"),
            NotFuncType::name("B"),
            NotFuncType::name("C")
        ],
    );
}

#[test]
fn class_test() {
    check_class(
        class,
        "class Record<T, U extends Object> extends Base implements A, B {} ",
        " ",
        Class {
            modifiers: ClassModifierSet::from_iter([ClassModifier::Class]),
            name: "Record",
            type_params: vec![
                TypeParam {
                    name: "T",
                    extends: None
                },
                TypeParam {
                    name: "U",
                    extends: Some(Type::NotFunc(NotFuncType::name("Object")))
                },
            ],
            extends: Some(NotFuncType::name("Base")),
            with: Vec::new(),
            implements: vec![NotFuncType::name("A"), NotFuncType::name("B")],
            mixin_on: Vec::default(),
            body: Vec::new(),
        },
    );
}

#[test]
fn class_property_test() {
    check_class(
        class,
        "class Record {\n  @override\n  String id;\n}",
        "",
        Class {
            modifiers: ClassModifierSet::from_iter([ClassModifier::Class]),
            name: "Record",
            type_params: Vec::new(),
            extends: None,
            with: Vec::new(),
            implements: Vec::new(),
            mixin_on: Vec::default(),
            body: vec![WithMeta::new(
                vec![Meta::Annotation(Annotation::Ident("override"))],
                ClassMember::Var(Var {
                    modifiers: VarModifierSet::default(),
                    var_type: Some(Type::NotFunc(NotFuncType::name("String"))),
                    name: "id",
                    initializer: None,
                }),
            )],
        },
    );
}

#[test]
fn class_generic_base_test() {
    check_class(
        class,
        "class Record extends Base<T> implements A<Future<void>> {}",
        "",
        Class {
            modifiers: ClassModifierSet::from_iter([ClassModifier::Class]),
            name: "Record",
            type_params: Vec::new(),
            extends: Some(NotFuncType {
                name: "Base",
                type_args: vec![Type::NotFunc(NotFuncType::name("T"))],
                is_nullable: false,
            }),
            with: Vec::new(),
            implements: vec![NotFuncType {
                name: "A",
                type_args: vec![Type::NotFunc(NotFuncType {
                    name: "Future",
                    type_args: vec![Type::NotFunc(NotFuncType::name("void"))],
                    is_nullable: false,
                })],
                is_nullable: false,
            }],
            mixin_on: Vec::default(),
            body: Vec::new(),
        },
    );
}

#[test]
fn constructor_basic_test() {
    check_class(
        constructor,
        "Record(); ",
        " ",
        Constructor {
            modifier: None,
            name: "Record",
            params: FuncParams::default(),
            initializers: None,
            body: None,
        },
    );
}

#[test]
fn constructor_param_this_test() {
    check_class(
        constructor,
        "Record(this.id); ",
        " ",
        Constructor {
            modifier: None,
            name: "Record",
            params: FuncParams {
                positional_req: vec![WithMeta::value(FuncParam {
                    modifiers: FuncParamModifierSet::default(),
                    param_type: None,
                    name: "this.id",
                    initializer: None,
                })],
                extra: None
            },
            initializers: None,
            body: None,
        },
    );
}

#[test]
fn constructor_initializer_list_test() {
    check_class(
        constructor,
        "const Record(): assert(() { print('+1'); }()), super(null); ",
        " ",
        Constructor {
            modifier: Some(ConstructorModifier::Const),
            name: "Record",
            params: FuncParams::default(),
            initializers: Some("assert(() { print('+1'); }()), super(null)"),
            body: None,
        },
    );
}

#[test]
fn constructor_factory_test() {
    check_class(
        constructor,
        "factory Record.default() { print('+1'); } ",
        " ",
        Constructor {
            modifier: Some(ConstructorModifier::Factory),
            name: "Record.default",
            params: FuncParams::default(),
            initializers: None,
            body: Some(FuncBodyContent::Block("{ print('+1'); }")),
        },
    );
}
