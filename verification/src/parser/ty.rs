//! Types: named types, function types and record types.

use vstd::prelude::*;
use vstd::string::*;
use crate::dart::func_like::{FuncParams, FuncParamsExtra, FuncParamsExtraM, FuncParamsM};
use crate::dart::maybe_required::{MaybeRequired, MaybeRequiredM};
use crate::dart::meta::{WithMeta, WithMetaM};
use crate::dart::ty::{
    FuncType, FuncTypeM, FuncTypeParamNamed, FuncTypeParamNamedM, FuncTypeParamPos,
    FuncTypeParamPosM, NotFuncType, NotFuncTypeM, Tuple, TupleM, Type, TypeM, group_models,
    lemma_signature_model, lemma_type_params_model, lemma_types_model,
};
use crate::dart::type_param::{TypeParam, TypeParamM};
use crate::model::{Model, lemma_model_empty, lemma_model_push};
use crate::parser::identifier::{identifier, spec_identifier};
use crate::parser::meta::{meta, spec_meta};
use crate::parser::outcome::{
    Label, PResult, ParseError, Parsed, advances, cut, framed, outcome, stays,
};
use crate::parser::text::{
    blank_end, bytes_of, has_byte, has_tag, length, peek, room, skip_blank, spec_tag, starts_with,
    tag,
};
use crate::parser::type_params::{spec_type_params, type_params};

verus! {

broadcast use group_models;

/// One `Function` clause of a function type, in the model: its type
/// parameters, its parameters, and whether it is nullable.
pub type ClauseM = (Seq<TypeParamM>, FuncParamsM<FuncTypeParamPosM, FuncTypeParamNamedM>, bool);

/// One `Function` clause of a function type.
pub type Clause<'s> = (
    Vec<TypeParam<'s>>,
    FuncParams<'s, FuncTypeParamPos<'s>, FuncTypeParamNamed<'s>>,
    bool,
);

/// The model of the type `dynamic`.
pub open spec fn dynamic_model() -> NotFuncTypeM {
    NotFuncTypeM { name: bytes_of("dynamic"), type_args: Seq::empty(), is_nullable: false }
}

/// A type: a record type, a function type or a named type, tried in this
/// order.
#[verifier::opaque]
pub open spec fn spec_ty(bytes: Seq<u8>, pos: int) -> Parsed<TypeM>
    decreases room(bytes, pos), 5int,
{
    (match spec_tuple_ty(bytes, pos) {
        Parsed::Done { next, value } => Parsed::Done { next, value: TypeM::Tuple(value) },
        Parsed::Fault { trace } => Parsed::Fault { trace },
        Parsed::Miss { .. } => match spec_func_type(bytes, pos) {
            Parsed::Done { next, value } => Parsed::Done {
                next,
                value: TypeM::Func(Box::new(value)),
            },
            Parsed::Fault { trace } => Parsed::Fault { trace },
            Parsed::Miss { .. } => match spec_not_func_type(bytes, pos) {
                Parsed::Done { next, value } => Parsed::Done { next, value: TypeM::NotFunc(value) },
                other => other.carry(),
            },
        },
    }).within(Label::Ty, pos)
}

/// A named type: an identifier, then optional type arguments, then an
/// optional `?`, each after optional whitespace.
#[verifier::opaque]
pub open spec fn spec_not_func_type(bytes: Seq<u8>, pos: int) -> Parsed<NotFuncTypeM>
    decreases room(bytes, pos), 0int,
{
    (match spec_identifier(bytes, pos).ahead(bytes, pos) {
        Parsed::Done { next: end, value: name } => match spec_type_args(
            bytes,
            blank_end(bytes, end),
        ) {
            Parsed::Fault { trace } => Parsed::Fault { trace },
            args => {
                let after = match args {
                    Parsed::Done { next, .. } => next,
                    _ => end,
                };
                let type_args = match args {
                    Parsed::Done { value, .. } => value,
                    _ => Seq::empty(),
                };
                if has_byte(bytes, blank_end(bytes, after), '?' as u8) {
                    Parsed::Done {
                        next: blank_end(bytes, after) + 1,
                        value: NotFuncTypeM { name, type_args, is_nullable: true },
                    }
                } else {
                    Parsed::Done {
                        next: after,
                        value: NotFuncTypeM { name, type_args, is_nullable: false },
                    }
                }
            },
        },
        other => other.carry(),
    }).within(Label::NotFuncType, pos)
}

/// The types of a list after its first, each after a comma.  The list ends
/// before a comma that no type follows.
#[verifier::opaque]
pub open spec fn spec_type_list(bytes: Seq<u8>, pos: int, acc: Seq<TypeM>) -> Parsed<Seq<TypeM>>
    decreases room(bytes, pos), 6int,
{
    if !(0 <= pos <= bytes.len()) {
        Parsed::miss(pos, Label::Eof)
    } else if has_byte(bytes, blank_end(bytes, pos), ',' as u8) {
        match spec_ty(bytes, blank_end(bytes, blank_end(bytes, pos) + 1)) {
            Parsed::Done { next, value } => if pos < next {
                spec_type_list(bytes, next, acc.push(value))
            } else {
                Parsed::miss(pos, Label::SeparatedList)
            },
            Parsed::Miss { .. } => Parsed::Done { next: pos, value: acc },
            Parsed::Fault { trace } => Parsed::Fault { trace },
        }
    } else {
        Parsed::Done { next: pos, value: acc }
    }
}

/// Type arguments: `<`, one or more types with commas between them, `>`.
/// After the `<` every failure is committed.
#[verifier::opaque]
pub open spec fn spec_type_args(bytes: Seq<u8>, pos: int) -> Parsed<Seq<TypeM>>
    decreases room(bytes, pos), 0int,
{
    (if has_byte(bytes, pos, '<' as u8) {
        (match spec_ty(bytes, blank_end(bytes, pos + 1)).onward(bytes, pos + 1) {
            Parsed::Done { next, value } => match spec_type_list(bytes, next, seq![value]) {
                Parsed::Done { next: end, value: types } => if has_byte(
                    bytes,
                    blank_end(bytes, end),
                    '>' as u8,
                ) {
                    Parsed::Done { next: blank_end(bytes, end) + 1, value: types }
                } else {
                    Parsed::miss(blank_end(bytes, end), Label::Char)
                },
                other => other,
            },
            other => other.carry(),
        }).committed()
    } else {
        Parsed::miss(pos, Label::Char)
    }).within(Label::TypeArgs, pos)
}

/// The type that the clauses `chain` make of the type `base`: each clause is
/// a function type that returns what stands before it.
pub open spec fn spec_wrap(base: TypeM, chain: Seq<ClauseM>) -> TypeM
    decreases chain.len(),
{
    if chain.len() == 0 {
        base
    } else {
        TypeM::Func(
            Box::new(
                FuncTypeM {
                    return_type: spec_wrap(base, chain.drop_last()),
                    type_params: chain.last().0,
                    params: chain.last().1,
                    is_nullable: chain.last().2,
                },
            ),
        )
    }
}

/// The function type that the clauses `chain` make of the return type
/// `return_type`, or of `dynamic` where there is none.  There is no function
/// type without a clause.
pub open spec fn spec_build_func_type(
    return_type: Option<NotFuncTypeM>,
    chain: Seq<ClauseM>,
) -> Option<FuncTypeM> {
    let base = match return_type {
        Some(named) => TypeM::NotFunc(named),
        None => TypeM::NotFunc(dynamic_model()),
    };
    match spec_wrap(base, chain) {
        TypeM::Func(func_type) => Some(*func_type),
        _ => None,
    }
}

/// Function types nest to the right: with one clause more, the type so far
/// is what the new function type returns.
pub proof fn lemma_func_type_nests(
    return_type: Option<NotFuncTypeM>,
    chain: Seq<ClauseM>,
    last: ClauseM,
)
    requires
        chain.len() > 0,
    ensures
        spec_build_func_type(return_type, chain) is Some,
        spec_build_func_type(return_type, chain.push(last)) == Some(
            FuncTypeM {
                return_type: TypeM::Func(
                    Box::new(spec_build_func_type(return_type, chain)->Some_0),
                ),
                type_params: last.0,
                params: last.1,
                is_nullable: last.2,
            },
        ),
{
    assert(chain.push(last).drop_last() =~= chain);
}

/// Build a function type from an optional return type and the clauses that
/// follow it.
pub fn build_func_type<'s>(
    return_type: Option<NotFuncType<'s>>,
    fn_chain: Vec<Clause<'s>>,
) -> (r: Option<Box<FuncType<'s>>>)
    ensures
        r.model() == spec_build_func_type(return_type.model(), fn_chain.model()),
{
    let ghost chain = fn_chain.model();
    let mut rest = fn_chain;
    let mut turned: Vec<Clause<'s>> = Vec::new();
    while rest.len() > 0
        invariant
            rest.len() + turned.len() == chain.len(),
            forall|i: int| 0 <= i < rest.len() ==> (#[trigger] rest[i]).model() == chain[i],
            forall|i: int|
                0 <= i < turned.len() ==> (#[trigger] turned[i]).model() == chain[chain.len() - 1
                    - i],
        decreases rest.len(),
    {
        let clause = rest.pop().unwrap();
        turned.push(clause);
    }
    let mut ty = match return_type {
        Some(named) => Type::NotFunc(named),
        None => {
            let named = NotFuncType::dynamic();
            proof {
                lemma_model_empty(named.type_args);
                lemma_types_model(named.type_args);
                assert(named.model() == dynamic_model());
            }
            Type::NotFunc(named)
        },
    };
    let ghost base = ty.model();
    assert(base == match return_type.model() {
        Some(named) => TypeM::NotFunc(named),
        None => TypeM::NotFunc(dynamic_model()),
    });
    let ghost mut done: int = 0;
    while turned.len() > 0
        invariant
            0 <= done <= chain.len(),
            turned.len() + done == chain.len(),
            forall|i: int|
                0 <= i < turned.len() ==> (#[trigger] turned[i]).model() == chain[chain.len() - 1
                    - i],
            ty.model() == spec_wrap(base, chain.take(done)),
            done == 0 ==> ty.model() == base,
            done > 0 ==> ty is Func,
        decreases turned.len(),
    {
        let clause = turned.pop().unwrap();
        let ghost inner = ty.model();
        let (type_params, params, is_nullable) = clause;
        let func_type = FuncType { return_type: ty, type_params, params, is_nullable };
        proof {
            lemma_type_params_model(func_type.type_params);
            lemma_signature_model(func_type.params);
            assert(clause.model() == chain[done]);
            assert(chain.take(done + 1).drop_last() =~= chain.take(done));
            assert(chain.take(done + 1).last() == chain[done]);
            assert(func_type.model() == FuncTypeM {
                return_type: inner,
                type_params: chain[done].0,
                params: chain[done].1,
                is_nullable: chain[done].2,
            });
        }
        ty = Type::func(func_type);
        proof {
            done = done + 1;
        }
    }
    assert(chain.take(done) =~= chain);
    assert(ty.model() == spec_wrap(base, chain));
    assert(ty matches Type::Func(func_type) ==> ty.model() == TypeM::Func(
        Box::new(func_type.model()),
    ));
    match ty {
        Type::Func(func_type) => Some(func_type),
        Type::NotFunc(_) => None,
        Type::Tuple(_) => None,
    }
}

/// One clause of a function type: `Function`, optional type parameters, the
/// parameters, and an optional `?`.
#[verifier::opaque]
pub open spec fn spec_func_clause(bytes: Seq<u8>, pos: int) -> Parsed<ClauseM>
    decreases room(bytes, pos), 1int,
{
    match spec_tag(bytes, pos, bytes_of("Function")) {
        Parsed::Done { next: word, .. } => match spec_type_params(
            bytes,
            blank_end(bytes, word),
        ).onward(bytes, blank_end(bytes, word)) {
            Parsed::Fault { trace } => Parsed::Fault { trace },
            generics => {
                let open = match generics {
                    Parsed::Done { next, .. } => blank_end(bytes, next),
                    _ => blank_end(bytes, word),
                };
                let type_params = match generics {
                    Parsed::Done { value, .. } => value,
                    _ => Seq::empty(),
                };
                match spec_func_type_params(bytes, open) {
                    Parsed::Done { next: end, value: params } => if has_byte(
                        bytes,
                        blank_end(bytes, end),
                        '?' as u8,
                    ) {
                        Parsed::Done {
                            next: blank_end(bytes, end) + 1,
                            value: (type_params, params, true),
                        }
                    } else {
                        Parsed::Done { next: end, value: (type_params, params, false) }
                    },
                    other => other.carry(),
                }
            },
        },
        other => other.carry(),
    }
}

/// The clauses of a function type from `pos` on, with optional whitespace
/// between them.  There is at least one; after the first, a clause that
/// does not match ends the list before it.  A committed failure of a clause
/// is the result.
#[verifier::opaque]
pub open spec fn spec_func_chain(bytes: Seq<u8>, pos: int, acc: Seq<ClauseM>) -> Parsed<
    Seq<ClauseM>,
>
    decreases room(bytes, pos), 2int,
{
    if !(0 <= pos <= bytes.len()) {
        Parsed::miss(pos, Label::Eof)
    } else {
        match spec_func_clause(
            bytes,
            if acc.len() == 0 {
                pos
            } else {
                blank_end(bytes, pos)
            },
        ) {
            Parsed::Done { next, value } => if pos < next <= bytes.len() {
                spec_func_chain(bytes, next, acc.push(value))
            } else {
                Parsed::miss(pos, Label::Many0)
            },
            Parsed::Fault { trace } => Parsed::Fault { trace },
            Parsed::Miss { trace } => if acc.len() == 0 {
                Parsed::Miss { trace }
            } else {
                Parsed::Done { next: pos, value: acc }
            },
        }
    }
}

/// A function type with the named type that it returns: the type, optional
/// whitespace, and one or more `Function` clauses.
#[verifier::opaque]
pub open spec fn spec_func_type_returning(bytes: Seq<u8>, pos: int) -> Parsed<FuncTypeM>
    decreases room(bytes, pos), 3int,
{
    match spec_not_func_type(bytes, pos).onward(bytes, pos) {
        Parsed::Done { next: end, value: returned } => match spec_func_chain(
            bytes,
            blank_end(bytes, end),
            Seq::empty(),
        ) {
            Parsed::Done { next, value: chain } => match spec_build_func_type(
                Some(returned),
                chain,
            ) {
                Some(func_type) => Parsed::Done { next, value: func_type },
                None => Parsed::miss(next, Label::FuncTypeChain),
            },
            other => other.carry(),
        },
        other => other.carry(),
    }
}

/// A function type: one with the named type that it returns, or else one
/// or more `Function` clauses alone, which return `dynamic`.
#[verifier::opaque]
pub open spec fn spec_func_type(bytes: Seq<u8>, pos: int) -> Parsed<FuncTypeM>
    decreases room(bytes, pos), 4int,
{
    (match spec_func_type_returning(bytes, pos) {
        Parsed::Miss { .. } => match spec_func_chain(bytes, pos, Seq::empty()) {
            Parsed::Done { next, value: chain } => match spec_build_func_type(None, chain) {
                Some(func_type) => Parsed::Done { next, value: func_type },
                None => Parsed::miss(next, Label::FuncTypeChain),
            },
            other => other.carry(),
        },
        other => other,
    }).within(Label::FuncType, pos)
}

/// A positional parameter of a function type, or a positional field of a
/// record type: a type, then an optional name.
#[verifier::opaque]
pub open spec fn spec_func_type_param_pos(bytes: Seq<u8>, pos: int) -> Parsed<FuncTypeParamPosM>
    decreases room(bytes, pos), 6int,
{
    (match spec_ty(bytes, pos) {
        Parsed::Done { next, value: param_type } => match spec_identifier(
            bytes,
            blank_end(bytes, next),
        ) {
            Parsed::Done { next: end, value: name } => Parsed::Done {
                next: blank_end(bytes, end),
                value: FuncTypeParamPosM { param_type, name: Some(name) },
            },
            Parsed::Miss { .. } => Parsed::Done {
                next: blank_end(bytes, next),
                value: FuncTypeParamPosM { param_type, name: None },
            },
            Parsed::Fault { trace } => Parsed::Fault { trace },
        },
        other => other.carry(),
    }).within(Label::FuncParamPos, pos)
}

/// The offset after `required` and the whitespace that follows it; `pos`
/// where they do not stand.
pub open spec fn required_end(bytes: Seq<u8>, pos: int) -> int {
    if has_tag(bytes, pos, bytes_of("required")) && blank_end(
        bytes,
        pos + bytes_of("required").len(),
    ) > pos + bytes_of("required").len() {
        blank_end(bytes, pos + bytes_of("required").len())
    } else {
        pos
    }
}

/// A named parameter of a function type: an optional `required`, a type and
/// a name.
#[verifier::opaque]
pub open spec fn spec_func_type_param_named(bytes: Seq<u8>, pos: int) -> Parsed<
    MaybeRequiredM<FuncTypeParamNamedM>,
>
    decreases room(bytes, pos), 6int,
{
    (match spec_ty(bytes, required_end(bytes, pos)) {
        Parsed::Done { next, value: param_type } => match spec_identifier(
            bytes,
            blank_end(bytes, next),
        ) {
            Parsed::Done { next: end, value: name } => Parsed::Done {
                next: blank_end(bytes, end),
                value: MaybeRequiredM {
                    is_required: required_end(bytes, pos) != pos,
                    value: FuncTypeParamNamedM { param_type, name },
                },
            },
            other => other.carry(),
        },
        other => other.carry(),
    }).within(Label::FuncParamNamed, pos)
}

/// A positional parameter of a function type with its metadata.
#[verifier::opaque]
pub open spec fn spec_with_meta_pos(bytes: Seq<u8>, pos: int) -> Parsed<
    WithMetaM<FuncTypeParamPosM>,
>
    decreases room(bytes, pos), 7int,
{
    (match spec_meta(bytes, pos).onward(bytes, pos) {
        Parsed::Done { next, value: meta } => match spec_func_type_param_pos(bytes, next) {
            Parsed::Done { next: end, value } => Parsed::Done {
                next: end,
                value: WithMetaM { meta, value },
            },
            other => other.carry(),
        },
        other => other.carry(),
    }).within(Label::WithMeta, pos)
}

/// A named parameter of a function type with its metadata.
#[verifier::opaque]
pub open spec fn spec_with_meta_named(bytes: Seq<u8>, pos: int) -> Parsed<
    WithMetaM<MaybeRequiredM<FuncTypeParamNamedM>>,
>
    decreases room(bytes, pos), 7int,
{
    (match spec_meta(bytes, pos).onward(bytes, pos) {
        Parsed::Done { next, value: meta } => match spec_func_type_param_named(bytes, next) {
            Parsed::Done { next: end, value } => Parsed::Done {
                next: end,
                value: WithMetaM { meta, value },
            },
            other => other.carry(),
        },
        other => other.carry(),
    }).within(Label::WithMeta, pos)
}

/// Positional parameters from `pos` on, each followed by optional
/// whitespace, with commas between them and possibly one after the last.  A
/// parameter that does not match ends the list; a committed failure of a
/// parameter is the result.
#[verifier::opaque]
pub open spec fn spec_pos_list(
    bytes: Seq<u8>,
    pos: int,
    acc: Seq<WithMetaM<FuncTypeParamPosM>>,
) -> Parsed<Seq<WithMetaM<FuncTypeParamPosM>>>
    decreases room(bytes, pos), 8int,
{
    if !(0 <= pos <= bytes.len()) {
        Parsed::Done { next: pos, value: acc }
    } else {
        match spec_with_meta_pos(bytes, pos) {
            Parsed::Done { next, value } => if pos < next {
                if has_byte(bytes, blank_end(bytes, next), ',' as u8) {
                    spec_pos_list(
                        bytes,
                        blank_end(bytes, blank_end(bytes, next) + 1),
                        acc.push(value),
                    )
                } else {
                    Parsed::Done { next: blank_end(bytes, next), value: acc.push(value) }
                }
            } else {
                Parsed::Done { next: pos, value: acc }
            },
            Parsed::Miss { .. } => Parsed::Done { next: pos, value: acc },
            Parsed::Fault { trace } => Parsed::Fault { trace },
        }
    }
}

/// Named parameters from `pos` on; as `spec_pos_list`.
#[verifier::opaque]
pub open spec fn spec_named_list(
    bytes: Seq<u8>,
    pos: int,
    acc: Seq<WithMetaM<MaybeRequiredM<FuncTypeParamNamedM>>>,
) -> Parsed<Seq<WithMetaM<MaybeRequiredM<FuncTypeParamNamedM>>>>
    decreases room(bytes, pos), 8int,
{
    if !(0 <= pos <= bytes.len()) {
        Parsed::Done { next: pos, value: acc }
    } else {
        match spec_with_meta_named(bytes, pos) {
            Parsed::Done { next, value } => if pos < next {
                if has_byte(bytes, blank_end(bytes, next), ',' as u8) {
                    spec_named_list(
                        bytes,
                        blank_end(bytes, blank_end(bytes, next) + 1),
                        acc.push(value),
                    )
                } else {
                    Parsed::Done { next: blank_end(bytes, next), value: acc.push(value) }
                }
            } else {
                Parsed::Done { next: pos, value: acc }
            },
            Parsed::Miss { .. } => Parsed::Done { next: pos, value: acc },
            Parsed::Fault { trace } => Parsed::Fault { trace },
        }
    }
}

/// The optional positional parameters of a function type: `[`, the
/// parameters, `]`.  After the `[` every failure is committed.
#[verifier::opaque]
pub open spec fn spec_func_type_params_pos_opt(bytes: Seq<u8>, pos: int) -> Parsed<
    Seq<WithMetaM<FuncTypeParamPosM>>,
>
    decreases room(bytes, pos), 0int,
{
    if has_byte(bytes, pos, '[' as u8) {
        (match spec_pos_list(bytes, blank_end(bytes, pos + 1), Seq::empty()) {
            Parsed::Done { next: end, value } => if has_byte(bytes, end, ']' as u8) {
                Parsed::Done { next: end + 1, value }
            } else {
                Parsed::miss(end, Label::Char)
            },
            other => other,
        }).committed()
    } else {
        Parsed::miss(pos, Label::Char)
    }
}

/// The named parameters of a function type: `{`, the parameters, `}`.  After
/// the `{` every failure is committed.
#[verifier::opaque]
pub open spec fn spec_func_type_params_named(bytes: Seq<u8>, pos: int) -> Parsed<
    Seq<WithMetaM<MaybeRequiredM<FuncTypeParamNamedM>>>,
>
    decreases room(bytes, pos), 0int,
{
    (if has_byte(bytes, pos, '{' as u8) {
        (match spec_named_list(bytes, blank_end(bytes, pos + 1), Seq::empty()) {
            Parsed::Done { next: end, value } => if has_byte(bytes, end, '}' as u8) {
                Parsed::Done { next: end + 1, value }
            } else {
                Parsed::miss(end, Label::Char)
            },
            other => other,
        }).committed()
    } else {
        Parsed::miss(pos, Label::Char)
    }).within(Label::FuncParamsNamed, pos)
}

/// The group in `[...]` or in `{...}` at `pos`, if there is one.
#[verifier::opaque]
pub open spec fn spec_func_type_params_extra(bytes: Seq<u8>, pos: int) -> Parsed<
    Option<FuncParamsExtraM<FuncTypeParamPosM, FuncTypeParamNamedM>>,
>
    decreases room(bytes, pos), 1int,
{
    match spec_func_type_params_pos_opt(bytes, pos) {
        Parsed::Done { next, value } => Parsed::Done {
            next,
            value: Some(FuncParamsExtraM::PositionalOpt(value)),
        },
        Parsed::Fault { trace } => Parsed::Fault { trace },
        Parsed::Miss { .. } => match spec_func_type_params_named(bytes, pos) {
            Parsed::Done { next, value } => Parsed::Done {
                next,
                value: Some(FuncParamsExtraM::Named(value)),
            },
            Parsed::Fault { trace } => Parsed::Fault { trace },
            Parsed::Miss { .. } => Parsed::Done { next: pos, value: None },
        },
    }
}

/// The parameters of a function type: `(`, the required positional
/// parameters, at most one group of optional positional or of named
/// parameters, `)`.  After the `(` every failure is committed.
#[verifier::opaque]
pub open spec fn spec_func_type_params(bytes: Seq<u8>, pos: int) -> Parsed<
    FuncParamsM<FuncTypeParamPosM, FuncTypeParamNamedM>,
>
    decreases room(bytes, pos), 0int,
{
    (if has_byte(bytes, pos, '(' as u8) {
        (match spec_pos_list(bytes, blank_end(bytes, pos + 1), Seq::empty()) {
            Parsed::Done { next: group, value: positional_req } => if group > pos {
                match spec_func_type_params_extra(bytes, group) {
                    Parsed::Done { next, value: extra } => if has_byte(
                        bytes,
                        blank_end(bytes, next),
                        ')' as u8,
                    ) {
                        Parsed::Done {
                            next: blank_end(bytes, next) + 1,
                            value: FuncParamsM { positional_req, extra },
                        }
                    } else {
                        Parsed::miss(blank_end(bytes, next), Label::Char)
                    },
                    other => other.carry(),
                }
            } else {
                Parsed::miss(pos, Label::Eof)
            },
            other => other.carry(),
        }).committed()
    } else {
        Parsed::miss(pos, Label::Char)
    }).within(Label::FuncTypeParams, pos)
}

/// A named field of a record type: a name, `:` and a type; or a type and a
/// name.
#[verifier::opaque]
pub open spec fn spec_tuple_named_field(bytes: Seq<u8>, pos: int) -> Parsed<FuncTypeParamNamedM>
    decreases room(bytes, pos), 6int,
{
    match spec_identifier(bytes, pos).ahead(bytes, pos) {
        Parsed::Done { next: end, value: name } if has_byte(
            bytes,
            blank_end(bytes, end),
            ':' as u8,
        ) => match spec_ty(bytes, blank_end(bytes, blank_end(bytes, end) + 1)) {
            Parsed::Done { next, value: param_type } => Parsed::Done {
                next,
                value: FuncTypeParamNamedM { param_type, name },
            },
            other => other.carry(),
        },
        _ => match spec_ty(bytes, pos) {
            Parsed::Done { next, value: param_type } => match spec_identifier(
                bytes,
                blank_end(bytes, next),
            ) {
                Parsed::Done { next: end, value: name } => Parsed::Done {
                    next: end,
                    value: FuncTypeParamNamedM { param_type, name },
                },
                other => other.carry(),
            },
            other => other.carry(),
        },
    }
}

/// The positional fields of a record type from `pos` on; as
/// `spec_pos_list`.
#[verifier::opaque]
pub open spec fn spec_tuple_pos_list(bytes: Seq<u8>, pos: int, acc: Seq<FuncTypeParamPosM>) -> Parsed<Seq<FuncTypeParamPosM>>
    decreases room(bytes, pos), 7int,
{
    if !(0 <= pos <= bytes.len()) {
        Parsed::Done { next: pos, value: acc }
    } else {
        match spec_func_type_param_pos(bytes, pos) {
            Parsed::Done { next, value } => if pos < next {
                if has_byte(bytes, next, ',' as u8) {
                    spec_tuple_pos_list(bytes, blank_end(bytes, next + 1), acc.push(value))
                } else {
                    Parsed::Done { next: next, value: acc.push(value) }
                }
            } else {
                Parsed::Done { next: pos, value: acc }
            },
            Parsed::Miss { .. } => Parsed::Done { next: pos, value: acc },
            Parsed::Fault { trace } => Parsed::Fault { trace },
        }
    }
}

/// The named fields of a record type from `pos` on; as `spec_pos_list`.
#[verifier::opaque]
pub open spec fn spec_tuple_named_list(
    bytes: Seq<u8>,
    pos: int,
    acc: Seq<FuncTypeParamNamedM>,
) -> Parsed<Seq<FuncTypeParamNamedM>>
    decreases room(bytes, pos), 7int,
{
    if !(0 <= pos <= bytes.len()) {
        Parsed::Done { next: pos, value: acc }
    } else {
        match spec_tuple_named_field(bytes, pos) {
            Parsed::Done { next, value } => if pos < next {
                if has_byte(bytes, blank_end(bytes, next), ',' as u8) {
                    spec_tuple_named_list(
                        bytes,
                        blank_end(bytes, blank_end(bytes, next) + 1),
                        acc.push(value),
                    )
                } else {
                    Parsed::Done { next: blank_end(bytes, next), value: acc.push(value) }
                }
            } else {
                Parsed::Done { next: pos, value: acc }
            },
            Parsed::Miss { .. } => Parsed::Done { next: pos, value: acc },
            Parsed::Fault { trace } => Parsed::Fault { trace },
        }
    }
}

/// The named fields of a record type in their braces and the whitespace
/// after them, if the braces stand at `pos`; else no fields, at `pos`.
/// Braces that open and do not close are a failure.
#[verifier::opaque]
pub open spec fn spec_tuple_named(bytes: Seq<u8>, pos: int) -> Parsed<Seq<FuncTypeParamNamedM>>
    decreases room(bytes, pos), 8int,
{
    if has_byte(bytes, pos, '{' as u8) {
        match spec_tuple_named_list(bytes, blank_end(bytes, pos + 1), Seq::empty()) {
            Parsed::Done { next: end, value } => if has_byte(bytes, end, '}' as u8) {
                Parsed::Done { next: blank_end(bytes, end + 1), value }
            } else {
                Parsed::miss(pos, Label::Char)
            },
            other => other,
        }
    } else {
        Parsed::Done { next: pos, value: Seq::empty() }
    }
}

/// A record type: `(`, positional fields, optional named fields in braces,
/// `)`, and an optional `?`.  Nothing in it is committed; a committed
/// failure of the type of a field is the result.
#[verifier::opaque]
pub open spec fn spec_tuple_ty(bytes: Seq<u8>, pos: int) -> Parsed<TupleM>
    decreases room(bytes, pos), 0int,
{
    (if has_byte(bytes, pos, '(' as u8) {
        match spec_tuple_pos_list(bytes, blank_end(bytes, pos + 1), Seq::empty()) {
            Parsed::Done { next: after, value: params_pos } => if after > pos {
                match spec_tuple_named(bytes, after) {
                    Parsed::Done { next: end, value: params_named } => if has_byte(
                        bytes,
                        end,
                        ')' as u8,
                    ) {
                        Parsed::Done {
                            next: if has_byte(bytes, blank_end(bytes, end + 1), '?' as u8) {
                                blank_end(bytes, end + 1) + 1
                            } else {
                                end + 1
                            },
                            value: TupleM {
                                params_pos,
                                params_named,
                                is_nullable: has_byte(bytes, blank_end(bytes, end + 1), '?' as u8),
                            },
                        }
                    } else {
                        Parsed::miss(end, Label::Char)
                    },
                    other => other.carry(),
                }
            } else {
                Parsed::miss(pos, Label::Eof)
            },
            other => other.carry(),
        }
    } else {
        Parsed::miss(pos, Label::Char)
    }).within(Label::Tuple, pos)
}

/// Parse a type.
pub fn ty<'s>(input: &'s str, pos: usize) -> (r: PResult<Type<'s>>)
    requires
        pos <= bytes_of(input).len(),
    ensures
        outcome(r) == spec_ty(bytes_of(input), pos as int),
        advances(r, pos, bytes_of(input).len()),
    decreases bytes_of(input).len() - pos, 5int,
{
    proof {
        reveal(spec_ty);
        reveal(spec_tuple_ty);
        reveal(spec_func_type);
        reveal(spec_not_func_type);
    }
    match tuple_ty(input, pos) {
        Ok((next, value)) => {
            return Ok((next, Type::Tuple(value)));
        },
        Err(e) => if e.fatal {
            return framed(Err(e), Label::Ty, pos);
        },
    }
    match func_type(input, pos) {
        Ok((next, value)) => {
            return Ok((next, Type::Func(value)));
        },
        Err(e) => if e.fatal {
            return framed(Err(e), Label::Ty, pos);
        },
    }
    match not_func_type(input, pos) {
        Ok((next, value)) => Ok((next, Type::NotFunc(value))),
        Err(e) => framed(Err(e), Label::Ty, pos),
    }
}

/// Parse an identifier with type arguments and the nullability indicator
/// (e.g. `x`, `Future<int>?`).
pub fn not_func_type<'s>(input: &'s str, pos: usize) -> (r: PResult<NotFuncType<'s>>)
    requires
        pos <= bytes_of(input).len(),
    ensures
        outcome(r) == spec_not_func_type(bytes_of(input), pos as int),
        advances(r, pos, bytes_of(input).len()),
    decreases bytes_of(input).len() - pos, 0int,
{
    proof {
        reveal(spec_not_func_type);
        reveal(spec_type_args);
    }
    let (end, name) = match identifier(input, pos) {
        Ok(done) => done,
        Err(e) => {
            return framed(Err(e), Label::NotFuncType, pos);
        },
    };
    let (after, type_args) = match type_args(input, skip_blank(input, end)) {
        Ok((next, types)) => (next, types),
        Err(e) => {
            if e.fatal {
                return framed(Err(e), Label::NotFuncType, pos);
            }
            let none: Vec<Type<'s>> = Vec::new();
            proof {
                lemma_model_empty(none);
            }
            (end, none)
        },
    };
    let mark = skip_blank(input, after);
    proof {
        lemma_types_model(type_args);
    }
    if peek(input, mark, '?' as u8) {
        Ok((mark + 1, NotFuncType { name, type_args, is_nullable: true }))
    } else {
        Ok((after, NotFuncType { name, type_args, is_nullable: false }))
    }
}

/// Parse the types of a list after its first.
fn type_list<'s>(input: &'s str, pos: usize, first: Type<'s>) -> (r: PResult<Vec<Type<'s>>>)
    requires
        pos <= bytes_of(input).len(),
    ensures
        outcome(r) == spec_type_list(bytes_of(input), pos as int, seq![first.model()]),
        stays(r, pos, bytes_of(input).len()),
    decreases bytes_of(input).len() - pos, 6int,
{
    let mut types: Vec<Type<'s>> = Vec::new();
    types.push(first);
    let mut cur = pos;
    let ghost bytes = bytes_of(input);
    proof {
        assert(types.model() =~= seq![first.model()]);
    }
    loop
        invariant
            bytes == bytes_of(input),
            pos <= cur <= bytes.len(),
            spec_type_list(bytes, pos as int, seq![first.model()]) == spec_type_list(
                bytes,
                cur as int,
                types.model(),
            ),
        decreases bytes.len() - cur,
    {
        proof {
            reveal(spec_type_list);
            reveal(spec_ty);
        }
        let comma = skip_blank(input, cur);
        if !peek(input, comma, ',' as u8) {
            return Ok((cur, types));
        }
        match ty(input, skip_blank(input, comma + 1)) {
            Ok((next, item)) => {
                let ghost before = types;
                types.push(item);
                proof {
                    lemma_model_push(before, types, item);
                }
                cur = next;
            },
            Err(e) => {
                if e.fatal {
                    return Err(e);
                }
                return Ok((cur, types));
            },
        }
    }
}

/// Parse type arguments.
pub fn type_args<'s>(input: &'s str, pos: usize) -> (r: PResult<Vec<Type<'s>>>)
    requires
        pos <= bytes_of(input).len(),
    ensures
        outcome(r) == spec_type_args(bytes_of(input), pos as int),
        advances(r, pos, bytes_of(input).len()),
    decreases bytes_of(input).len() - pos, 0int,
{
    proof {
        reveal(spec_type_args);
        reveal(spec_ty);
        reveal(spec_type_list);
    }
    if !peek(input, pos, '<' as u8) {
        return framed(Err(ParseError::miss(pos, Label::Char)), Label::TypeArgs, pos);
    }
    let (first, value) = match ty(input, skip_blank(input, pos + 1)) {
        Ok(done) => done,
        Err(e) => {
            return framed(cut(Err(e)), Label::TypeArgs, pos);
        },
    };
    let (end, types) = match type_list(input, first, value) {
        Ok(done) => done,
        Err(e) => {
            return framed(cut(Err(e)), Label::TypeArgs, pos);
        },
    };
    let close = skip_blank(input, end);
    if peek(input, close, '>' as u8) {
        Ok((close + 1, types))
    } else {
        framed(cut(Err(ParseError::miss(close, Label::Char))), Label::TypeArgs, pos)
    }
}

/// Parse one `Function` clause of a function type.
fn func_clause<'s>(input: &'s str, pos: usize) -> (r: PResult<Clause<'s>>)
    requires
        pos <= bytes_of(input).len(),
    ensures
        outcome(r) == spec_func_clause(bytes_of(input), pos as int),
        advances(r, pos, bytes_of(input).len()),
    decreases bytes_of(input).len() - pos, 1int,
{
    proof {
        reveal(spec_func_clause);
        reveal(spec_type_params);
        reveal(spec_func_type_params);
    }
    let (word, _) = tag(input, pos, "Function")?;
    let start = skip_blank(input, word);
    let (open, generics) = match type_params(input, start) {
        Ok((next, params)) => (skip_blank(input, next), params),
        Err(e) => {
            if e.fatal {
                return Err(e);
            }
            let none: Vec<TypeParam<'s>> = Vec::new();
            proof {
                lemma_model_empty(none);
            }
            (start, none)
        },
    };
    let (end, params) = func_type_params(input, open)?;
    let mark = skip_blank(input, end);
    if peek(input, mark, '?' as u8) {
        Ok((mark + 1, (generics, params, true)))
    } else {
        Ok((end, (generics, params, false)))
    }
}

/// Parse the clauses of a function type.
fn func_chain<'s>(input: &'s str, pos: usize) -> (r: PResult<Vec<Clause<'s>>>)
    requires
        pos <= bytes_of(input).len(),
    ensures
        outcome(r) == spec_func_chain(bytes_of(input), pos as int, Seq::empty()),
        advances(r, pos, bytes_of(input).len()),
        r matches Ok((_, chain)) ==> chain.len() > 0,
    decreases bytes_of(input).len() - pos, 2int,
{
    let mut chain: Vec<Clause<'s>> = Vec::new();
    let mut cur = pos;
    let ghost bytes = bytes_of(input);
    proof {
        lemma_model_empty(chain);
    }
    loop
        invariant
            bytes == bytes_of(input),
            pos <= cur <= bytes.len(),
            chain.len() > 0 ==> cur > pos,
            chain.len() == chain.model().len(),
            spec_func_chain(bytes, pos as int, Seq::empty()) == spec_func_chain(
                bytes,
                cur as int,
                chain.model(),
            ),
        decreases bytes.len() - cur,
    {
        proof {
            reveal(spec_func_chain);
            reveal(spec_func_clause);
        }
        let at = if chain.len() == 0 {
            cur
        } else {
            skip_blank(input, cur)
        };
        match func_clause(input, at) {
            Ok((next, clause)) => {
                let ghost before = chain;
                chain.push(clause);
                proof {
                    lemma_model_push(before, chain, clause);
                }
                cur = next;
            },
            Err(e) => {
                if e.fatal || chain.len() == 0 {
                    return Err(e);
                }
                return Ok((cur, chain));
            },
        }
    }
}

/// Parse a function type with the type that it returns.
fn func_type_returning<'s>(input: &'s str, pos: usize) -> (r: PResult<Box<FuncType<'s>>>)
    requires
        pos <= bytes_of(input).len(),
    ensures
        outcome(r) == spec_func_type_returning(bytes_of(input), pos as int),
        advances(r, pos, bytes_of(input).len()),
    decreases bytes_of(input).len() - pos, 3int,
{
    proof {
        reveal(spec_func_type_returning);
        reveal(spec_not_func_type);
        reveal(spec_func_chain);
    }
    let (end, returned) = not_func_type(input, pos)?;
    let (next, chain) = func_chain(input, skip_blank(input, end))?;
    match build_func_type(Some(returned), chain) {
        Some(func_type) => Ok((next, func_type)),
        None => Err(ParseError::miss(next, Label::FuncTypeChain)),
    }
}

/// Parse a function type.
pub fn func_type<'s>(input: &'s str, pos: usize) -> (r: PResult<Box<FuncType<'s>>>)
    requires
        pos <= bytes_of(input).len(),
    ensures
        outcome(r) == spec_func_type(bytes_of(input), pos as int),
        advances(r, pos, bytes_of(input).len()),
    decreases bytes_of(input).len() - pos, 4int,
{
    proof {
        reveal(spec_func_type);
        reveal(spec_func_type_returning);
        reveal(spec_func_chain);
    }
    match func_type_returning(input, pos) {
        Ok(done) => {
            return Ok(done);
        },
        Err(e) => if e.fatal {
            return framed(Err(e), Label::FuncType, pos);
        },
    }
    let (next, chain) = match func_chain(input, pos) {
        Ok(done) => done,
        Err(e) => {
            return framed(Err(e), Label::FuncType, pos);
        },
    };
    match build_func_type(None, chain) {
        Some(func_type) => Ok((next, func_type)),
        None => framed(Err(ParseError::miss(next, Label::FuncTypeChain)), Label::FuncType, pos),
    }
}

/// Parse a positional parameter of a function type.
pub fn func_type_param_pos<'s>(input: &'s str, pos: usize) -> (r: PResult<FuncTypeParamPos<'s>>)
    requires
        pos <= bytes_of(input).len(),
    ensures
        outcome(r) == spec_func_type_param_pos(bytes_of(input), pos as int),
        advances(r, pos, bytes_of(input).len()),
    decreases bytes_of(input).len() - pos, 6int,
{
    proof {
        reveal(spec_func_type_param_pos);
        reveal(spec_ty);
    }
    let (next, param_type) = match ty(input, pos) {
        Ok(done) => done,
        Err(e) => {
            return framed(Err(e), Label::FuncParamPos, pos);
        },
    };
    let start = skip_blank(input, next);
    match identifier(input, start) {
        Ok((end, name)) => Ok(
            (skip_blank(input, end), FuncTypeParamPos { param_type, name: Some(name) }),
        ),
        Err(e) => if e.fatal {
            framed(Err(e), Label::FuncParamPos, pos)
        } else {
            Ok((start, FuncTypeParamPos { param_type, name: None }))
        },
    }
}

/// The offset after `required` and whitespace at `pos`, if they stand
/// there.
fn skip_required(input: &str, pos: usize) -> (end: usize)
    requires
        pos <= bytes_of(input).len(),
    ensures
        end == required_end(bytes_of(input), pos as int),
        pos <= end <= bytes_of(input).len(),
{
    if starts_with(input, pos, "required") {
        let after = pos + length("required");
        let end = skip_blank(input, after);
        if end > after {
            return end;
        }
    }
    pos
}

/// Parse a named parameter of a function type.
pub fn func_type_param_named<'s>(input: &'s str, pos: usize) -> (r: PResult<
    MaybeRequired<FuncTypeParamNamed<'s>>,
>)
    requires
        pos <= bytes_of(input).len(),
    ensures
        outcome(r) == spec_func_type_param_named(bytes_of(input), pos as int),
        advances(r, pos, bytes_of(input).len()),
    decreases bytes_of(input).len() - pos, 6int,
{
    proof {
        reveal(spec_func_type_param_named);
        reveal(spec_ty);
    }
    let start = skip_required(input, pos);
    let (next, param_type) = match ty(input, start) {
        Ok(done) => done,
        Err(e) => {
            return framed(Err(e), Label::FuncParamNamed, pos);
        },
    };
    match identifier(input, skip_blank(input, next)) {
        Ok((end, name)) => Ok(
            (
                skip_blank(input, end),
                MaybeRequired::new(start != pos, FuncTypeParamNamed { param_type, name }),
            ),
        ),
        Err(e) => framed(Err(e), Label::FuncParamNamed, pos),
    }
}

/// Parse a positional parameter of a function type with its metadata.
fn with_meta_pos<'s>(input: &'s str, pos: usize) -> (r: PResult<
    WithMeta<'s, FuncTypeParamPos<'s>>,
>)
    requires
        pos <= bytes_of(input).len(),
    ensures
        outcome(r) == spec_with_meta_pos(bytes_of(input), pos as int),
        advances(r, pos, bytes_of(input).len()),
    decreases bytes_of(input).len() - pos, 7int,
{
    proof {
        reveal(spec_with_meta_pos);
        reveal(spec_meta);
        reveal(spec_func_type_param_pos);
    }
    let (next, items) = match meta(input, pos) {
        Ok(done) => done,
        Err(e) => {
            return framed(Err(e), Label::WithMeta, pos);
        },
    };
    match func_type_param_pos(input, next) {
        Ok((end, value)) => Ok((end, WithMeta::new(items, value))),
        Err(e) => framed(Err(e), Label::WithMeta, pos),
    }
}

/// Parse a named parameter of a function type with its metadata.
fn with_meta_named<'s>(input: &'s str, pos: usize) -> (r: PResult<
    WithMeta<'s, MaybeRequired<FuncTypeParamNamed<'s>>>,
>)
    requires
        pos <= bytes_of(input).len(),
    ensures
        outcome(r) == spec_with_meta_named(bytes_of(input), pos as int),
        advances(r, pos, bytes_of(input).len()),
    decreases bytes_of(input).len() - pos, 7int,
{
    proof {
        reveal(spec_with_meta_named);
        reveal(spec_meta);
        reveal(spec_func_type_param_named);
    }
    let (next, items) = match meta(input, pos) {
        Ok(done) => done,
        Err(e) => {
            return framed(Err(e), Label::WithMeta, pos);
        },
    };
    match func_type_param_named(input, next) {
        Ok((end, value)) => Ok((end, WithMeta::new(items, value))),
        Err(e) => framed(Err(e), Label::WithMeta, pos),
    }
}

/// Parse positional parameters of a function type, without the brackets.
fn pos_list<'s>(input: &'s str, pos: usize) -> (r: PResult<
    Vec<WithMeta<'s, FuncTypeParamPos<'s>>>,
>)
    requires
        pos <= bytes_of(input).len(),
    ensures
        outcome(r) == spec_pos_list(bytes_of(input), pos as int, Seq::empty()),
        stays(r, pos, bytes_of(input).len()),
    decreases bytes_of(input).len() - pos, 8int,
{
    proof {
        reveal(spec_pos_list);
        reveal(spec_with_meta_pos);
    }
    let mut params: Vec<WithMeta<'s, FuncTypeParamPos<'s>>> = Vec::new();
    let mut cur = pos;
    let ghost bytes = bytes_of(input);
    proof {
        lemma_model_empty(params);
    }
    loop
        invariant
            bytes == bytes_of(input),
            pos <= cur <= bytes.len(),
            spec_pos_list(bytes, pos as int, Seq::empty()) == spec_pos_list(
                bytes,
                cur as int,
                params.model(),
            ),
        decreases bytes.len() - cur,
    {
        proof {
            reveal(spec_pos_list);
            reveal(spec_with_meta_pos);
        }
        match with_meta_pos(input, cur) {
            Ok((next, param)) => {
                let ghost before = params;
                params.push(param);
                proof {
                    lemma_model_push(before, params, param);
                }
                let comma = skip_blank(input, next);
                if peek(input, comma, ',' as u8) {
                    cur = skip_blank(input, comma + 1);
                } else {
                    return Ok((comma, params));
                }
            },
            Err(e) => {
                if e.fatal {
                    return Err(e);
                }
                return Ok((cur, params));
            },
        }
    }
}

/// Parse named parameters of a function type, without the braces.
fn named_list<'s>(input: &'s str, pos: usize) -> (r: PResult<
    Vec<WithMeta<'s, MaybeRequired<FuncTypeParamNamed<'s>>>>,
>)
    requires
        pos <= bytes_of(input).len(),
    ensures
        outcome(r) == spec_named_list(bytes_of(input), pos as int, Seq::empty()),
        stays(r, pos, bytes_of(input).len()),
    decreases bytes_of(input).len() - pos, 8int,
{
    proof {
        reveal(spec_named_list);
        reveal(spec_with_meta_named);
    }
    let mut params: Vec<WithMeta<'s, MaybeRequired<FuncTypeParamNamed<'s>>>> = Vec::new();
    let mut cur = pos;
    let ghost bytes = bytes_of(input);
    proof {
        lemma_model_empty(params);
    }
    loop
        invariant
            bytes == bytes_of(input),
            pos <= cur <= bytes.len(),
            spec_named_list(bytes, pos as int, Seq::empty()) == spec_named_list(
                bytes,
                cur as int,
                params.model(),
            ),
        decreases bytes.len() - cur,
    {
        proof {
            reveal(spec_named_list);
            reveal(spec_with_meta_named);
        }
        match with_meta_named(input, cur) {
            Ok((next, param)) => {
                let ghost before = params;
                params.push(param);
                proof {
                    lemma_model_push(before, params, param);
                }
                let comma = skip_blank(input, next);
                if peek(input, comma, ',' as u8) {
                    cur = skip_blank(input, comma + 1);
                } else {
                    return Ok((comma, params));
                }
            },
            Err(e) => {
                if e.fatal {
                    return Err(e);
                }
                return Ok((cur, params));
            },
        }
    }
}

/// Parse the optional positional parameters of a function type.
fn func_type_params_pos_opt<'s>(input: &'s str, pos: usize) -> (r: PResult<
    Vec<WithMeta<'s, FuncTypeParamPos<'s>>>,
>)
    requires
        pos <= bytes_of(input).len(),
    ensures
        outcome(r) == spec_func_type_params_pos_opt(bytes_of(input), pos as int),
        advances(r, pos, bytes_of(input).len()),
    decreases bytes_of(input).len() - pos, 0int,
{
    proof {
        reveal(spec_func_type_params_pos_opt);
        reveal(spec_pos_list);
    }
    if !peek(input, pos, '[' as u8) {
        return Err(ParseError::miss(pos, Label::Char));
    }
    let (end, params) = match pos_list(input, skip_blank(input, pos + 1)) {
        Ok(done) => done,
        Err(e) => {
            return cut(Err(e));
        },
    };
    if peek(input, end, ']' as u8) {
        Ok((end + 1, params))
    } else {
        cut(Err(ParseError::miss(end, Label::Char)))
    }
}

/// Parse the named parameters of a function type.
fn func_type_params_named<'s>(input: &'s str, pos: usize) -> (r: PResult<
    Vec<WithMeta<'s, MaybeRequired<FuncTypeParamNamed<'s>>>>,
>)
    requires
        pos <= bytes_of(input).len(),
    ensures
        outcome(r) == spec_func_type_params_named(bytes_of(input), pos as int),
        advances(r, pos, bytes_of(input).len()),
    decreases bytes_of(input).len() - pos, 0int,
{
    proof {
        reveal(spec_func_type_params_named);
        reveal(spec_named_list);
    }
    if !peek(input, pos, '{' as u8) {
        return framed(Err(ParseError::miss(pos, Label::Char)), Label::FuncParamsNamed, pos);
    }
    let (end, params) = match named_list(input, skip_blank(input, pos + 1)) {
        Ok(done) => done,
        Err(e) => {
            return framed(cut(Err(e)), Label::FuncParamsNamed, pos);
        },
    };
    if peek(input, end, '}' as u8) {
        Ok((end + 1, params))
    } else {
        framed(cut(Err(ParseError::miss(end, Label::Char))), Label::FuncParamsNamed, pos)
    }
}

/// Parse the group in `[...]` or in `{...}`, if there is one.
fn func_type_params_extra<'s>(input: &'s str, pos: usize) -> (r: PResult<
    Option<FuncParamsExtra<'s, FuncTypeParamPos<'s>, FuncTypeParamNamed<'s>>>,
>)
    requires
        pos <= bytes_of(input).len(),
    ensures
        outcome(r) == spec_func_type_params_extra(bytes_of(input), pos as int),
        stays(r, pos, bytes_of(input).len()),
    decreases bytes_of(input).len() - pos, 1int,
{
    proof {
        reveal(spec_func_type_params_extra);
        reveal(spec_func_type_params_pos_opt);
        reveal(spec_func_type_params_named);
    }
    match func_type_params_pos_opt(input, pos) {
        Ok((next, params)) => {
            return Ok((next, Some(FuncParamsExtra::PositionalOpt(params))));
        },
        Err(e) => if e.fatal {
            return Err(e);
        },
    }
    match func_type_params_named(input, pos) {
        Ok((next, params)) => Ok((next, Some(FuncParamsExtra::Named(params)))),
        Err(e) => if e.fatal {
            Err(e)
        } else {
            Ok((pos, None))
        },
    }
}

/// Parse the parameters of a function type.
pub fn func_type_params<'s>(input: &'s str, pos: usize) -> (r: PResult<
    FuncParams<'s, FuncTypeParamPos<'s>, FuncTypeParamNamed<'s>>,
>)
    requires
        pos <= bytes_of(input).len(),
    ensures
        outcome(r) == spec_func_type_params(bytes_of(input), pos as int),
        advances(r, pos, bytes_of(input).len()),
    decreases bytes_of(input).len() - pos, 0int,
{
    proof {
        reveal(spec_func_type_params);
        reveal(spec_pos_list);
        reveal(spec_func_type_params_extra);
    }
    if !peek(input, pos, '(' as u8) {
        return framed(Err(ParseError::miss(pos, Label::Char)), Label::FuncTypeParams, pos);
    }
    let (after, positional_req) = match pos_list(input, skip_blank(input, pos + 1)) {
        Ok(done) => done,
        Err(e) => {
            return framed(cut(Err(e)), Label::FuncTypeParams, pos);
        },
    };
    let (next, extra) = match func_type_params_extra(input, after) {
        Ok(done) => done,
        Err(e) => {
            return framed(cut(Err(e)), Label::FuncTypeParams, pos);
        },
    };
    let close = skip_blank(input, next);
    if peek(input, close, ')' as u8) {
        Ok((close + 1, FuncParams { positional_req, extra }))
    } else {
        framed(cut(Err(ParseError::miss(close, Label::Char))), Label::FuncTypeParams, pos)
    }
}

/// Parse a named field of a record type.
fn tuple_named_field<'s>(input: &'s str, pos: usize) -> (r: PResult<FuncTypeParamNamed<'s>>)
    requires
        pos <= bytes_of(input).len(),
    ensures
        outcome(r) == spec_tuple_named_field(bytes_of(input), pos as int),
        advances(r, pos, bytes_of(input).len()),
    decreases bytes_of(input).len() - pos, 6int,
{
    proof {
        reveal(spec_tuple_named_field);
        reveal(spec_ty);
    }
    match identifier(input, pos) {
        Ok((end, name)) => {
            let colon = skip_blank(input, end);
            if peek(input, colon, ':' as u8) {
                let (next, param_type) = ty(input, skip_blank(input, colon + 1))?;
                return Ok((next, FuncTypeParamNamed { param_type, name }));
            }
        },
        Err(_) => {},
    }
    let (next, param_type) = ty(input, pos)?;
    let (end, name) = identifier(input, skip_blank(input, next))?;
    Ok((end, FuncTypeParamNamed { param_type, name }))
}

/// Parse the positional fields of a record type.
fn tuple_pos_list<'s>(input: &'s str, pos: usize) -> (r: PResult<
    Vec<FuncTypeParamPos<'s>>,
>)
    requires
        pos <= bytes_of(input).len(),
    ensures
        outcome(r) == spec_tuple_pos_list(bytes_of(input), pos as int, Seq::empty()),
        stays(r, pos, bytes_of(input).len()),
    decreases bytes_of(input).len() - pos, 7int,
{
    proof {
        reveal(spec_tuple_pos_list);
        reveal(spec_func_type_param_pos);
    }
    let mut fields: Vec<FuncTypeParamPos<'s>> = Vec::new();
    let mut cur = pos;
    let ghost bytes = bytes_of(input);
    proof {
        lemma_model_empty(fields);
    }
    loop
        invariant
            bytes == bytes_of(input),
            pos <= cur <= bytes.len(),
            spec_tuple_pos_list(bytes, pos as int, Seq::empty()) == spec_tuple_pos_list(
                bytes,
                cur as int,
                fields.model(),
            ),
        decreases bytes.len() - cur,
    {
        proof {
            reveal(spec_tuple_pos_list);
            reveal(spec_func_type_param_pos);
        }
        match func_type_param_pos(input, cur) {
            Ok((next, field)) => {
                let ghost before = fields;
                fields.push(field);
                proof {
                    lemma_model_push(before, fields, field);
                }
                if peek(input, next, ',' as u8) {
                    cur = skip_blank(input, next + 1);
                } else {
                    return Ok((next, fields));
                }
            },
            Err(e) => {
                if e.fatal {
                    return Err(e);
                }
                return Ok((cur, fields));
            },
        }
    }
}

/// Parse the named fields of a record type, without the braces.
fn tuple_named_list<'s>(input: &'s str, pos: usize) -> (r: PResult<
    Vec<FuncTypeParamNamed<'s>>,
>)
    requires
        pos <= bytes_of(input).len(),
    ensures
        outcome(r) == spec_tuple_named_list(bytes_of(input), pos as int, Seq::empty()),
        stays(r, pos, bytes_of(input).len()),
    decreases bytes_of(input).len() - pos, 7int,
{
    proof {
        reveal(spec_tuple_named_list);
        reveal(spec_tuple_named_field);
    }
    let mut fields: Vec<FuncTypeParamNamed<'s>> = Vec::new();
    let mut cur = pos;
    let ghost bytes = bytes_of(input);
    proof {
        lemma_model_empty(fields);
    }
    loop
        invariant
            bytes == bytes_of(input),
            pos <= cur <= bytes.len(),
            spec_tuple_named_list(bytes, pos as int, Seq::empty()) == spec_tuple_named_list(
                bytes,
                cur as int,
                fields.model(),
            ),
        decreases bytes.len() - cur,
    {
        proof {
            reveal(spec_tuple_named_list);
            reveal(spec_tuple_named_field);
        }
        match tuple_named_field(input, cur) {
            Ok((next, field)) => {
                let ghost before = fields;
                fields.push(field);
                proof {
                    lemma_model_push(before, fields, field);
                }
                let comma = skip_blank(input, next);
                if peek(input, comma, ',' as u8) {
                    cur = skip_blank(input, comma + 1);
                } else {
                    return Ok((comma, fields));
                }
            },
            Err(e) => {
                if e.fatal {
                    return Err(e);
                }
                return Ok((cur, fields));
            },
        }
    }
}

/// Parse the named fields of a record type in their braces, if the braces
/// stand at `pos`.
fn tuple_named<'s>(input: &'s str, pos: usize) -> (r: PResult<Vec<FuncTypeParamNamed<'s>>>)
    requires
        pos <= bytes_of(input).len(),
    ensures
        outcome(r) == spec_tuple_named(bytes_of(input), pos as int),
        stays(r, pos, bytes_of(input).len()),
    decreases bytes_of(input).len() - pos, 8int,
{
    proof {
        reveal(spec_tuple_named);
        reveal(spec_tuple_named_list);
    }
    if !peek(input, pos, '{' as u8) {
        let none: Vec<FuncTypeParamNamed<'s>> = Vec::new();
        proof {
            lemma_model_empty(none);
        }
        return Ok((pos, none));
    }
    let (end, fields) = tuple_named_list(input, skip_blank(input, pos + 1))?;
    if peek(input, end, '}' as u8) {
        Ok((skip_blank(input, end + 1), fields))
    } else {
        Err(ParseError::miss(pos, Label::Char))
    }
}

/// Parse a record type.
pub fn tuple_ty<'s>(input: &'s str, pos: usize) -> (r: PResult<Tuple<'s>>)
    requires
        pos <= bytes_of(input).len(),
    ensures
        outcome(r) == spec_tuple_ty(bytes_of(input), pos as int),
        advances(r, pos, bytes_of(input).len()),
    decreases bytes_of(input).len() - pos, 0int,
{
    proof {
        reveal(spec_tuple_ty);
        reveal(spec_tuple_pos_list);
        reveal(spec_tuple_named);
    }
    if !peek(input, pos, '(' as u8) {
        return framed(Err(ParseError::miss(pos, Label::Char)), Label::Tuple, pos);
    }
    let (after, params_pos) = match tuple_pos_list(input, skip_blank(input, pos + 1)) {
        Ok(done) => done,
        Err(e) => {
            return framed(Err(e), Label::Tuple, pos);
        },
    };
    let (end, params_named) = match tuple_named(input, after) {
        Ok(done) => done,
        Err(e) => {
            return framed(Err(e), Label::Tuple, pos);
        },
    };
    if !peek(input, end, ')' as u8) {
        return framed(Err(ParseError::miss(end, Label::Char)), Label::Tuple, pos);
    }
    let mark = skip_blank(input, end + 1);
    if peek(input, mark, '?' as u8) {
        Ok((mark + 1, Tuple { params_pos, params_named, is_nullable: true }))
    } else {
        Ok((end + 1, Tuple { params_pos, params_named, is_nullable: false }))
    }
}

} // verus!
