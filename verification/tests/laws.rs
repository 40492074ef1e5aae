#![allow(unused_imports)]

use dart_parser::dart::class::{ClassMember, ClassModifier, ClassModifierSet};
use dart_parser::dart::comment::Comment;
use dart_parser::dart::expr::Expr;
use dart_parser::dart::meta::Meta;
use dart_parser::dart::ty::Type;
use dart_parser::dart::Dart;
use dart_parser::dart::func_like::{
    FuncModifier, FuncModifierSet, FuncParamModifier, FuncParamModifierSet, UserDefOperator,
};
use dart_parser::dart::var::{VarModifier, VarModifierSet};
use dart_parser::parser::func_like::user_def_operator;
use dart_parser::parser::outcome::{Label, Mark, PResult, ParseError};

#[test]
fn a_set_yields_each_member_once_in_declared_order() {
    let set = VarModifierSet::from_iter([
        VarModifier::Late,
        VarModifier::External,
        VarModifier::Late,
        VarModifier::Const,
    ]);
    assert_eq!(
        set.to_vec(),
        vec![VarModifier::External, VarModifier::Const, VarModifier::Late]
    );
    assert_eq!(VarModifierSet::default().to_vec(), Vec::new());
    let all = ClassModifierSet::from_iter([
        ClassModifier::Sealed,
        ClassModifier::Interface,
        ClassModifier::Final,
        ClassModifier::Base,
        ClassModifier::Abstract,
        ClassModifier::Mixin,
        ClassModifier::Class,
    ]);
    assert_eq!(
        all.to_vec(),
        vec![
            ClassModifier::Class,
            ClassModifier::Mixin,
            ClassModifier::Abstract,
            ClassModifier::Base,
            ClassModifier::Final,
            ClassModifier::Interface,
            ClassModifier::Sealed,
        ]
    );
    assert_eq!(
        FuncModifierSet::from_iter([FuncModifier::Static, FuncModifier::External]).to_vec(),
        vec![FuncModifier::External, FuncModifier::Static]
    );
    assert_eq!(
        FuncParamModifierSet::from_iter([FuncParamModifier::Final]).to_vec(),
        vec![FuncParamModifier::Final]
    );
}

#[test]
fn a_set_holds_what_was_added() {
    let empty = VarModifierSet::default();
    assert!(!empty.contains(VarModifier::Final));
    let one = empty.with(VarModifier::Final);
    assert!(one.contains(VarModifier::Final));
    assert!(!one.contains(VarModifier::Late));
    assert!(!one.contains(VarModifier::Static));
    assert_eq!(one.with(VarModifier::Final), one);
    assert_ne!(one.with(VarModifier::Late), one);
    assert_eq!(
        one.with(VarModifier::Late),
        VarModifierSet::from_iter([VarModifier::Late, VarModifier::Final])
    );
    let class = ClassModifierSet::default().with(ClassModifier::Mixin).with(ClassModifier::Class);
    assert!(class.contains(ClassModifier::Class));
    assert!(class.contains(ClassModifier::Mixin));
    assert!(!class.contains(ClassModifier::Base));
}

#[test]
fn the_equality_operator_needs_two_signs() {
    assert_eq!(user_def_operator("==", 0), Ok((2, UserDefOperator::Eq)));
    assert_eq!(user_def_operator("==(", 0), Ok((2, UserDefOperator::Eq)));
    assert!(user_def_operator("=", 0).is_err());
    assert!(user_def_operator("= =", 0).is_err());
    assert!(user_def_operator("=>", 0).is_err());
}

#[test]
fn the_longer_operator_is_taken() {
    assert_eq!(user_def_operator("<=", 0), Ok((2, UserDefOperator::Lte)));
    assert_eq!(user_def_operator("<", 0), Ok((1, UserDefOperator::Lt)));
    assert_eq!(user_def_operator("<(", 0), Ok((1, UserDefOperator::Lt)));
    assert_eq!(user_def_operator("<<", 0), Ok((2, UserDefOperator::LShift)));
    assert_eq!(user_def_operator("<<<", 0), Ok((3, UserDefOperator::LShiftTri)));
    assert_eq!(user_def_operator(">=", 0), Ok((2, UserDefOperator::Gte)));
    assert_eq!(user_def_operator(">>", 0), Ok((2, UserDefOperator::RShift)));
    assert_eq!(user_def_operator(">", 0), Ok((1, UserDefOperator::Gt)));
    assert_eq!(user_def_operator("[]=", 0), Ok((3, UserDefOperator::IndexSet)));
    assert_eq!(user_def_operator("[]", 0), Ok((2, UserDefOperator::IndexGet)));
    assert_eq!(user_def_operator("[](", 0), Ok((2, UserDefOperator::IndexGet)));
    assert_eq!(user_def_operator("~/", 0), Ok((2, UserDefOperator::DivInt)));
    assert_eq!(user_def_operator("~", 0), Ok((1, UserDefOperator::Tilde)));
}

#[test]
fn every_operator_is_known() {
    assert_eq!(user_def_operator("-", 0), Ok((1, UserDefOperator::Minus)));
    assert_eq!(user_def_operator("+", 0), Ok((1, UserDefOperator::Add)));
    assert_eq!(user_def_operator("/", 0), Ok((1, UserDefOperator::Div)));
    assert_eq!(user_def_operator("*", 0), Ok((1, UserDefOperator::Mul)));
    assert_eq!(user_def_operator("%", 0), Ok((1, UserDefOperator::Mod)));
    assert_eq!(user_def_operator("|", 0), Ok((1, UserDefOperator::Pipe)));
    assert_eq!(user_def_operator("^", 0), Ok((1, UserDefOperator::Caret)));
    assert_eq!(user_def_operator("&", 0), Ok((1, UserDefOperator::Amp)));
    assert_eq!(user_def_operator("x + y", 2), Ok((3, UserDefOperator::Add)));
    assert_eq!(
        user_def_operator("!", 0),
        Err(ParseError { fatal: false, marks: vec![Mark { at: 0, label: Label::Tag }] })
    );
    assert!(user_def_operator("", 0).is_err());
    assert!(user_def_operator("[", 0).is_err());
}

fn inside(part: &str, whole: &str) -> bool {
    let start = whole.as_ptr() as usize;
    let at = part.as_ptr() as usize;
    start <= at && at + part.len() <= start + whole.len()
}

#[test]
fn the_texts_of_a_tree_lie_in_the_input() {
    let input = String::from(
        "// first\nclass Box<T> extends Base {\n  final List<T> items = const [];\n}\n",
    );
    let items = dart_parser::parse(&input).unwrap();
    assert_eq!(items.len(), 1);
    match &items[0].meta[0] {
        Meta::Comment(Comment::SingleLine(text)) => assert!(inside(text, &input)),
        other => panic!("{:?}", other),
    }
    let class = match items[0].as_ref() {
        Dart::Class(class) => class,
        other => panic!("{:?}", other),
    };
    assert!(inside(class.name, &input));
    assert!(inside(class.type_params[0].name, &input));
    assert!(inside(class.extends.as_ref().unwrap().name, &input));
    let field = match class.body[0].as_ref() {
        ClassMember::Var(field) => field,
        other => panic!("{:?}", other),
    };
    assert!(inside(field.name, &input));
    match field.var_type.as_ref().unwrap() {
        Type::NotFunc(named) => {
            assert!(inside(named.name, &input));
            match &named.type_args[0] {
                Type::NotFunc(arg) => assert!(inside(arg.name, &input)),
                other => panic!("{:?}", other),
            }
        }
        other => panic!("{:?}", other),
    }
    match field.initializer.as_ref().unwrap() {
        Expr::Verbatim(text) => {
            assert_eq!(*text, "const []");
            assert!(inside(text, &input));
        }
        other => panic!("{:?}", other),
    }
    assert!(!inside("Box", &input));
}

#[test]
fn a_member_given_twice_gives_an_equal_set() {
    assert_eq!(
        ClassModifierSet::from_iter([
            ClassModifier::Class,
            ClassModifier::Abstract,
            ClassModifier::Class,
        ]),
        ClassModifierSet::from_iter([ClassModifier::Abstract, ClassModifier::Class])
    );
    assert_eq!(
        VarModifierSet::from_iter([VarModifier::Late, VarModifier::Final, VarModifier::Late]),
        VarModifierSet::from_iter([VarModifier::Final, VarModifier::Late])
    );
    assert_eq!(
        FuncModifierSet::from_iter([FuncModifier::Static, FuncModifier::Static]),
        FuncModifierSet::default().with(FuncModifier::Static)
    );
    assert_eq!(
        FuncParamModifierSet::from_iter([
            FuncParamModifier::Final,
            FuncParamModifier::Covariant,
            FuncParamModifier::Final,
        ]),
        FuncParamModifierSet::default()
            .with(FuncParamModifier::Covariant)
            .with(FuncParamModifier::Final)
    );
}

#[test]
fn sets_are_equal_exactly_when_they_hold_the_same_members() {
    let all = [
        VarModifier::External,
        VarModifier::Static,
        VarModifier::Const,
        VarModifier::Final,
        VarModifier::Late,
        VarModifier::Covariant,
    ];
    let mut sets = Vec::new();
    for bits in 0..64u32 {
        let mut set = VarModifierSet::default();
        for (place, modifier) in all.iter().enumerate() {
            if bits & (1 << place) != 0 {
                set = set.with(*modifier);
            }
        }
        sets.push(set);
    }
    for a in &sets {
        for b in &sets {
            let same = all.iter().all(|m| a.contains(*m) == b.contains(*m));
            assert_eq!(a == b, same);
            assert_eq!(a == b, a.to_vec() == b.to_vec());
        }
    }
    assert_ne!(VarModifierSet::default(), VarModifierSet::default().with(VarModifier::Const));
}

#[test]
fn adding_twice_or_in_another_order_gives_an_equal_set() {
    let all = [
        ClassModifier::Class,
        ClassModifier::Abstract,
        ClassModifier::Base,
        ClassModifier::Final,
        ClassModifier::Interface,
        ClassModifier::Sealed,
        ClassModifier::Mixin,
    ];
    let starts = [
        ClassModifierSet::default(),
        ClassModifierSet::from_iter([ClassModifier::Class]),
        ClassModifierSet::from_iter([ClassModifier::Mixin, ClassModifier::Base]),
        ClassModifierSet::from_iter(all),
    ];
    for set in starts {
        for a in all {
            assert_eq!(set.with(a).with(a), set.with(a));
            assert_eq!(set.with(a) == set, set.contains(a));
            for b in all {
                assert_eq!(set.with(a).with(b), set.with(b).with(a));
            }
        }
    }
}

#[test]
fn a_set_built_from_its_own_list_is_the_same_set() {
    let all = [
        ClassModifier::Class,
        ClassModifier::Mixin,
        ClassModifier::Abstract,
        ClassModifier::Base,
        ClassModifier::Final,
        ClassModifier::Interface,
        ClassModifier::Sealed,
    ];
    for bits in 0..128u32 {
        let chosen: Vec<ClassModifier> = all
            .iter()
            .enumerate()
            .filter(|(place, _)| bits & (1 << place) != 0)
            .map(|(_, modifier)| *modifier)
            .collect();
        let set = ClassModifierSet::from_slice(&chosen);
        assert_eq!(set.to_vec(), chosen);
        assert_eq!(ClassModifierSet::from_slice(&set.to_vec()), set);
    }
    let vars = VarModifierSet::from_iter([VarModifier::Late, VarModifier::Const]);
    assert_eq!(VarModifierSet::from_slice(&vars.to_vec()), vars);
    let funcs = FuncModifierSet::from_iter([FuncModifier::Static, FuncModifier::External]);
    assert_eq!(FuncModifierSet::from_slice(&funcs.to_vec()), funcs);
    let params = FuncParamModifierSet::from_slice(&[FuncParamModifier::Final]);
    assert_eq!(FuncParamModifierSet::from_slice(&params.to_vec()), params);
}

#[test]
fn a_set_from_a_slice_holds_what_the_slice_holds() {
    let empty: [VarModifier; 0] = [];
    assert_eq!(VarModifierSet::from_slice(&empty), VarModifierSet::default());
    let items = vec![VarModifier::Final, VarModifier::Static, VarModifier::Final];
    let set = VarModifierSet::from_slice(&items);
    assert_eq!(set, VarModifierSet::from_iter([VarModifier::Static, VarModifier::Final]));
    assert_eq!(set.to_vec(), vec![VarModifier::Static, VarModifier::Final]);
    assert!(set.contains(VarModifier::Final) && !set.contains(VarModifier::Late));
}
