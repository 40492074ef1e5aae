#![allow(unused_imports)]

use dart_parser::dart::annotation::Annotation;
use dart_parser::dart::class::{
    Class, ClassMember, ClassModifier, ClassModifierSet, Constructor, ConstructorModifier,
};
use dart_parser::dart::comment::Comment;
use dart_parser::dart::directive::{Directive, Export, Filter, Import, PartOf};
use dart_parser::dart::enum_ty::{EnumTy, EnumValue};
use dart_parser::dart::expr::Expr;
use dart_parser::dart::extension::{Extension, ExtensionMember};
use dart_parser::dart::func_call::{FuncArg, FuncCall};
use dart_parser::dart::func_like::{
    Func, FuncBody, FuncBodyContent, FuncBodyModifier, FuncLike, FuncModifier, FuncModifierSet,
    FuncParam, FuncParamModifier, FuncParamModifierSet, FuncParams, FuncParamsExtra, Getter,
    Operator, Setter, UserDefOperator,
};
use dart_parser::dart::maybe_required::MaybeRequired;
use dart_parser::dart::meta::{Meta, WithMeta};
use dart_parser::dart::ty::{
    FuncType, FuncTypeParamNamed, FuncTypeParamPos, NotFuncType, Tuple, Type,
};
use dart_parser::dart::type_param::TypeParam;
use dart_parser::dart::typedef::TypeDef;
use dart_parser::dart::var::{Var, VarModifier, VarModifierSet};
use dart_parser::dart::Dart;
use dart_parser::parser::outcome::{Label, Mark, PResult, ParseError};
use dart_parser::parser::var::{var, var_modifier_set};


fn check_var<'s, T: PartialEq + std::fmt::Debug>(
    parser: impl Fn(&'s str, usize) -> PResult<T>,
    input: &'s str,
    rest: &str,
    value: T,
) {
    match parser(input, 0) {
        Ok((next, found)) => {
            assert_eq!(&input[next..], rest);
            assert_eq!(found, value);
        }
        Err(error) => panic!("{:?}", error),
    }
}

#[test]
fn var_test() {
    check_var(
        var,
        "final String? name; ",
        " ",
        Var {
            modifiers: VarModifierSet::from_iter([VarModifier::Final]),
            var_type: Some(Type::NotFunc(NotFuncType {
                name: "String",
                type_args: Vec::default(),
                is_nullable: true,
            })),
            name: "name",
            initializer: None
        },
    );
}

#[test]
fn var_modifier_test() {
    const CULPRIT: &str = r#"
const externalSources = [
    "https://a.b.c/",
];
"#;
    check_var(
        var,
        CULPRIT.trim_start(),
        "\n",
        Var {
            modifiers: VarModifierSet::from_iter([VarModifier::Const]),
            var_type: None,
            name: "externalSources",
            initializer: Some(Expr::Verbatim("[\n    \"https://a.b.c/\",\n]"))
        },
    );
}

#[test]
fn var_init() {
    check_var(
        var,
        "static const type = 'type'; ",
        " ",
        Var {
            modifiers: VarModifierSet::from_iter(
                [VarModifier::Static, VarModifier::Const,]
            ),
            var_type: None,
            name: "type",
            initializer: Some(Expr::String("type")),
        },
    );
}

#[test]
fn var_const_init() {
    check_var(
        var,
        "const urls = [\n  'https://a.b.c/',\n  'https://b.c.d/',\n]; ",
        " ",
        Var {
            modifiers: VarModifierSet::from_iter([VarModifier::Const]),
            var_type: None,
            name: "urls",
            initializer: Some(Expr::Verbatim(
                "[\n  'https://a.b.c/',\n  'https://b.c.d/',\n]"
            )),
        },
    );
}

#[test]
fn var_list_init() {
    check_var(
        var,
        "List<int> xs = []; ",
        " ",
        Var {
            modifiers: VarModifierSet::default(),
            var_type: Some(Type::NotFunc(NotFuncType {
                name: "List",
                type_args: vec![Type::NotFunc(NotFuncType::name("int"))],
                is_nullable: false
            })),
            name: "xs",
            initializer: Some(Expr::Verbatim("[]")),
        },
    );
}

#[test]
fn var_mut_no_type_init() {
    check_var(
        var,
        "var i = 0; ",
        " ",
        Var {
            modifiers: VarModifierSet::default(),
            var_type: None,
            name: "i",
            initializer: Some(Expr::Verbatim("0")),
        },
    );
}

#[test]
fn var_mut_type_init() {
    check_var(
        var,
        "double x = 0; ",
        " ",
        Var {
            modifiers: VarModifierSet::default(),
            var_type: Some(Type::NotFunc(NotFuncType::name("double"))),
            name: "x",
            initializer: Some(Expr::Verbatim("0")),
        },
    );
}

#[test]
fn var_mut_type() {
    check_var(
        var,
        "double x; ",
        " ",
        Var {
            modifiers: VarModifierSet::default(),
            var_type: Some(Type::NotFunc(NotFuncType::name("double"))),
            name: "x",
            initializer: None,
        },
    );
}

#[test]
fn var_late_final_type_type() {
    check_var(
        var,
        "late final int crash_count; ",
        " ",
        Var {
            modifiers: VarModifierSet::from_iter([VarModifier::Late, VarModifier::Final]),
            var_type: Some(Type::NotFunc(NotFuncType::name("int"))),
            name: "crash_count",
            initializer: None,
        },
    );
}

#[test]
fn var_modifier_set_test() {
    check_var(
        var_modifier_set,
        "late final ",
        " ",
        VarModifierSet::from_iter([VarModifier::Late, VarModifier::Final]),
    );
}
