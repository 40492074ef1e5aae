//! Every text in the result of a production is a part of the input.

use vstd::prelude::*;
use vstd::string::*;
use crate::borrowed::{
    Borrowed, all_parts, annotation_borrowed, func_call_borrowed, func_type_borrowed, is_part,
    lemma_is_part, lemma_part_of_part, meta_borrowed, metas_borrowed, named_borrowed,
    not_func_borrowed, opt_part, pos_borrowed, tuple_borrowed, type_borrowed, type_param_borrowed,
    with_meta_named_borrowed, with_meta_pos_borrowed,
};
use crate::dart::DartM;
use crate::dart::class::{ClassM, ClassMemberM};
use crate::dart::directive::FilterM;
use crate::dart::enum_ty::EnumValueM;
use crate::dart::expr::ExprM;
use crate::dart::extension::ExtensionMemberM;
use crate::dart::func_call::FuncArgM;
use crate::dart::func_like::{FuncParamM, FuncParamsExtraM};
use crate::dart::maybe_required::MaybeRequiredM;
use crate::dart::meta::{MetaM, WithMetaM};
use crate::dart::ty::{FuncTypeM, FuncTypeParamNamedM, FuncTypeParamPosM, NotFuncTypeM, TypeM};
use crate::dart::type_param::TypeParamM;
use crate::parser::{spec_dart_item, spec_item_list, spec_parse};
use crate::parser::annotation::spec_annotation;
use crate::parser::class::{
    spec_class, spec_class_body, spec_class_body_tail, spec_class_member, spec_class_tail,
    spec_constructor, spec_constructor_initializer_list, spec_content_or_semicolon,
    spec_extends_clause, spec_implements_clause, spec_initializers_end, spec_interface,
    spec_interface_list, spec_interfaces_after, spec_interfaces_tail, spec_member_list,
    spec_mixin_on_clause, spec_opt_extends, spec_opt_initializers, spec_with_clause, spec_with_list,
    spec_with_tail,
};
use crate::parser::comment::{
    lemma_comment_openers, line_comment_end, spec_comment, spec_comment_multi_line,
    spec_comment_single_line, spec_comment_tail, spec_skip_spbrc, spec_space, spec_spbrc,
};
use crate::parser::common::{br_len, spec_br, spec_spbr};
use crate::parser::directive::{
    spec_directive, spec_export, spec_export_tail, spec_filter, spec_filter_list, spec_import,
    spec_import_filters, spec_import_prefix, spec_import_tail, spec_name_list, spec_names_after,
    spec_part, spec_part_of, spec_part_of_tail, spec_part_tail,
};
use crate::parser::enum_ty::{
    spec_enum_body, spec_enum_body_tail, spec_enum_members, spec_enum_ty, spec_enum_value,
    spec_enum_value_list,
};
use crate::parser::expr::{
    closing_of, spec_block, spec_body_item, spec_classify, spec_expr, spec_items, spec_scope,
};
use crate::parser::extension::{
    spec_extension, spec_extension_body, spec_extension_body_tail, spec_extension_member,
    spec_extension_members, spec_extension_named, spec_extension_on, spec_extension_unnamed,
};
use crate::parser::func_call::{
    spec_annotation_func_call, spec_arg_list, spec_func_arg, spec_func_arg_named, spec_func_args,
    spec_func_call,
};
use crate::parser::func_like::{
    spec_arrow_body, spec_body_or_semicolon, spec_func, spec_func_body, spec_func_body_content,
    spec_func_like, spec_func_param_named, spec_func_param_pos, spec_func_params,
    spec_func_params_extra, spec_func_params_named, spec_func_params_pos_opt, spec_getter,
    spec_name_alone, spec_named_initializer, spec_named_param_list, spec_operator, spec_param_list,
    spec_pos_initializer, spec_setter, spec_type_then_name, spec_typed_name,
};
use crate::parser::identifier::{spec_identifier, word_end};
use crate::parser::meta::{spec_meta, spec_meta_item, spec_meta_items, spec_with_meta};
use crate::parser::outcome::Parsed;
use crate::parser::string::{
    Quote, escape_len, opening_at, spec_interpolation_expr, spec_string, spec_string_items,
};
use crate::parser::text::{Class, blank_end, bytes_of, has_byte, lemma_run, room, run_len, spec_tag};
use crate::parser::ty::{
    ClauseM, dynamic_model, required_end, spec_build_func_type, spec_func_chain, spec_func_clause,
    spec_func_type, spec_func_type_param_named, spec_func_type_param_pos, spec_func_type_params,
    spec_func_type_params_extra, spec_func_type_params_named, spec_func_type_params_pos_opt,
    spec_func_type_returning, spec_named_list, spec_not_func_type, spec_pos_list, spec_tuple_named,
    spec_tuple_named_field, spec_tuple_named_list, spec_tuple_pos_list, spec_tuple_ty, spec_ty,
    spec_type_args, spec_type_list, spec_with_meta_named, spec_with_meta_pos, spec_wrap,
};
use crate::parser::type_params::{
    extends_end, spec_opt_type_params, spec_type_param, spec_type_param_list, spec_type_params,
};
use crate::parser::typedef::spec_typedef;
use crate::parser::var::{spec_var, spec_var_initializer};

verus! {

/// Whitespace ends inside the input.
pub proof fn lemma_blank_end(bytes: Seq<u8>, pos: int)
    requires
        0 <= pos <= bytes.len(),
    ensures
        pos <= blank_end(bytes, pos) <= bytes.len(),
{
    lemma_run(bytes, pos, Class::Blank, true);
}

/// The whitespace that `spbr` yields is a part of the input.
pub proof fn lemma_spbr_part(bytes: Seq<u8>, pos: int)
    requires
        0 <= pos <= bytes.len(),
    ensures
        spec_spbr(bytes, pos) matches Parsed::Done { value, .. } ==> is_part(value, bytes),
{
    lemma_blank_end(bytes, pos);
    lemma_is_part(bytes, pos, blank_end(bytes, pos));
}

/// The line break that `br` yields is a part of the input.
pub proof fn lemma_br_part(bytes: Seq<u8>, pos: int)
    ensures
        spec_br(bytes, pos) matches Parsed::Done { value, .. } ==> is_part(value, bytes),
{
    if br_len(bytes, pos) > 0 {
        lemma_is_part(bytes, pos, pos + br_len(bytes, pos));
    }
}

/// An identifier is a part of the input.
pub broadcast proof fn lemma_identifier_part(bytes: Seq<u8>, pos: int)
    ensures
        #[trigger] spec_identifier(bytes, pos) matches Parsed::Done { value, .. } ==> is_part(
            value,
            bytes,
        ),
{
    reveal(spec_identifier);
    if word_end(bytes, pos) != pos {
        lemma_run(bytes, pos + 1, Class::IdentPart, true);
        lemma_is_part(bytes, pos, word_end(bytes, pos));
    }
}

/// A comment that runs to the end of its line is a part of the input.
pub proof fn lemma_comment_single_line_part(bytes: Seq<u8>, pos: int)
    ensures
        spec_comment_single_line(bytes, pos) matches Parsed::Done { value, .. } ==> is_part(
            value,
            bytes,
        ),
{
    reveal(spec_comment_single_line);
    if spec_comment_single_line(bytes, pos) is Done {
        lemma_comment_openers();
        lemma_run(bytes, pos + 2, Class::LineEnd, false);
        lemma_is_part(bytes, pos, line_comment_end(bytes, pos));
    }
}

/// The inside of a block comment ends after where it starts, inside the
/// input.
pub proof fn lemma_comment_tail_forward(bytes: Seq<u8>, pos: int)
    ensures
        spec_comment_tail(bytes, pos) matches Parsed::Done { next, .. } ==> 0 <= pos < next
            <= bytes.len(),
    decreases room(bytes, pos),
{
    reveal(spec_comment_tail);
    reveal(spec_comment_multi_line);
    if 0 <= pos <= bytes.len() {
        let run = run_len(bytes, pos, Class::StarSlash, false);
        if 0 < run <= bytes.len() - pos {
            lemma_comment_tail_forward(bytes, pos + run);
        } else if has_byte(bytes, pos, '*' as u8) && !has_byte(bytes, pos + 1, '/' as u8) {
            lemma_comment_tail_forward(bytes, pos + 1);
        } else if has_byte(bytes, pos, '/' as u8) && !has_byte(bytes, pos + 1, '*' as u8) {
            lemma_comment_tail_forward(bytes, pos + 1);
        } else if has_byte(bytes, pos, '/' as u8) {
            match spec_comment_multi_line(bytes, pos) {
                Parsed::Done { next, .. } => {
                    if pos < next <= bytes.len() {
                        lemma_comment_tail_forward(bytes, next);
                    }
                },
                _ => {},
            }
        }
    }
}

/// A block comment is a part of the input.
pub proof fn lemma_comment_multi_line_part(bytes: Seq<u8>, pos: int)
    ensures
        spec_comment_multi_line(bytes, pos) matches Parsed::Done { value, .. } ==> is_part(
            value,
            bytes,
        ),
{
    reveal(spec_comment_multi_line);
    reveal(spec_comment_tail);
    if spec_comment_multi_line(bytes, pos) is Done {
        lemma_comment_tail_forward(bytes, pos + 2);
        lemma_is_part(bytes, pos, spec_comment_tail(bytes, pos + 2)->next);
    }
}

/// A comment is a part of the input.
pub broadcast proof fn lemma_comment_borrowed(bytes: Seq<u8>, pos: int)
    ensures
        #[trigger] spec_comment(bytes, pos) matches Parsed::Done { value, .. } ==> value.borrowed(
            bytes,
        ),
{
    reveal(spec_comment);
    lemma_comment_single_line_part(bytes, pos);
    lemma_comment_multi_line_part(bytes, pos);
}

/// The body of a string literal ends at or after where it starts, inside
/// the input.
pub proof fn lemma_string_items_forward(bytes: Seq<u8>, pos: int, quote: Quote, raw: bool)
    ensures
        spec_string_items(bytes, pos, quote, raw) matches Parsed::Done { next, .. } ==> 0 <= pos
            <= next <= bytes.len(),
    decreases room(bytes, pos),
{
    reveal(spec_string_items);
    reveal(spec_interpolation_expr);
    if 0 <= pos <= bytes.len() {
        let run = run_len(bytes, pos, quote.stops(raw), false);
        if 0 < run <= bytes.len() - pos {
            lemma_string_items_forward(bytes, pos + run, quote, raw);
        } else if quote.triple() && has_byte(bytes, pos, quote.mark()) && !(has_byte(
            bytes,
            pos + 1,
            quote.mark(),
        ) && has_byte(bytes, pos + 2, quote.mark())) {
            lemma_string_items_forward(bytes, pos + 1, quote, raw);
        } else if raw {
        } else if 0 < escape_len(bytes, pos) <= bytes.len() - pos {
            lemma_string_items_forward(bytes, pos + escape_len(bytes, pos), quote, raw);
        } else {
            match spec_interpolation_expr(bytes, pos) {
                Parsed::Done { next, .. } => {
                    if pos < next <= bytes.len() {
                        lemma_string_items_forward(bytes, next, quote, raw);
                    }
                },
                _ => {},
            }
        }
    }
}

/// The body of a string literal is a part of the input.
pub broadcast proof fn lemma_string_part(bytes: Seq<u8>, pos: int)
    ensures
        #[trigger] spec_string(bytes, pos) matches Parsed::Done { value, .. } ==> is_part(
            value,
            bytes,
        ),
{
    reveal(spec_string);
    reveal(spec_string_items);
    match opening_at(bytes, pos) {
        Some(open) => {
            lemma_string_items_forward(bytes, open.body, open.quote, open.raw);
            match spec_string_items(bytes, open.body, open.quote, open.raw) {
                Parsed::Done { next: end, .. } => {
                    lemma_is_part(bytes, open.body, end);
                },
                _ => {},
            }
        },
        None => {},
    }
}

/// What stands between brackets ends at or after where it starts, inside
/// the input.
pub proof fn lemma_items_forward(bytes: Seq<u8>, pos: int, class: Class)
    ensures
        spec_items(bytes, pos, class) matches Parsed::Done { next, .. } ==> 0 <= pos <= next
            <= bytes.len(),
    decreases room(bytes, pos),
{
    reveal(spec_items);
    reveal(spec_body_item);
    if 0 <= pos <= bytes.len() {
        let run = run_len(bytes, pos, class, false);
        if 0 < run <= bytes.len() - pos {
            lemma_items_forward(bytes, pos + run, class);
        } else {
            match spec_body_item(bytes, pos) {
                Parsed::Done { next, .. } => {
                    if pos < next <= bytes.len() {
                        lemma_items_forward(bytes, next, class);
                    }
                },
                _ => {},
            }
        }
    }
}

/// A block is a part of the input.
pub broadcast proof fn lemma_block_part(bytes: Seq<u8>, pos: int)
    ensures
        #[trigger] spec_block(bytes, pos) matches Parsed::Done { value, .. } ==> is_part(
            value,
            bytes,
        ),
{
    reveal(spec_block);
    reveal(spec_scope);
    reveal(spec_items);
    if has_byte(bytes, pos, '{' as u8) {
        lemma_items_forward(bytes, pos + 1, Class::ScopeStop);
        match spec_items(bytes, pos + 1, Class::ScopeStop) {
            Parsed::Done { next: end, .. } => {
                if has_byte(bytes, end, closing_of('{' as u8)) {
                    lemma_is_part(bytes, pos, end + 1);
                }
            },
            _ => {},
        }
    }
}

/// The whole of a text is a part of it.
pub proof fn lemma_whole_is_part(text: Seq<u8>)
    ensures
        is_part(text, text),
{
    assert(text.subrange(0, text.len() as int) =~= text);
    lemma_is_part(text, 0, text.len() as int);
}

/// What an expression is told to be holds a part of its text.
pub proof fn lemma_classify_borrowed(text: Seq<u8>)
    ensures
        spec_classify(text) matches Parsed::Done { value, .. } ==> value.borrowed(text),
{
    reveal(spec_classify);
    lemma_whole_is_part(text);
    match spec_classify(text) {
        Parsed::Done { value, .. } => {
            match value {
                ExprM::Ident(name) => {
                    lemma_identifier_part(text, 0);
                },
                ExprM::String(body) => {
                    lemma_string_part(text, 0);
                },
                ExprM::Verbatim(whole) => {},
            }
        },
        _ => {},
    }
}

/// An expression is a part of the input.
pub broadcast proof fn lemma_expr_borrowed(bytes: Seq<u8>, pos: int)
    ensures
        #[trigger] spec_expr(bytes, pos) matches Parsed::Done { value, .. } ==> value.borrowed(
            bytes,
        ),
{
    reveal(spec_expr);
    reveal(spec_items);
    reveal(spec_classify);
    if 0 <= pos <= bytes.len() {
        match spec_items(bytes, blank_end(bytes, pos), Class::ExprStop) {
            Parsed::Done { next, .. } => {
                if blank_end(bytes, pos) < next <= bytes.len() {
                    let text = bytes.subrange(pos, next);
                    lemma_classify_borrowed(text);
                    lemma_is_part(bytes, pos, next);
                    match spec_classify(text) {
                        Parsed::Done { value, .. } => {
                            match value {
                                ExprM::Verbatim(part) => lemma_part_of_part(part, text, bytes),
                                ExprM::Ident(part) => lemma_part_of_part(part, text, bytes),
                                ExprM::String(part) => lemma_part_of_part(part, text, bytes),
                            }
                        },
                        _ => {},
                    }
                }
            },
            _ => {},
        }
    }
}

/// The texts that the grammar captures are parts of the input.
pub broadcast group group_leaves {
    lemma_identifier_part,
    lemma_comment_borrowed,
    lemma_string_part,
    lemma_block_part,
    lemma_expr_borrowed,
}

/// The type that clauses make of a type holds no text of its own.
pub proof fn lemma_wrap_borrowed(base: TypeM, chain: Seq<ClauseM>, bytes: Seq<u8>)
    requires
        base == TypeM::NotFunc(dynamic_model()) || type_borrowed(base, bytes),
        forall|i: int|
            0 <= i < chain.len() ==> (#[trigger] chain[i]).0.borrowed(bytes) && chain[i].1.borrowed(
                bytes,
            ),
    ensures
        chain.len() > 0 ==> type_borrowed(spec_wrap(base, chain), bytes),
    decreases chain.len(),
{
    if chain.len() > 0 {
        lemma_wrap_borrowed(base, chain.drop_last(), bytes);
        let inner = spec_wrap(base, chain.drop_last());
        let last = chain.last();
        assert(last.0.borrowed(bytes) && last.1.borrowed(bytes));
        let f = FuncTypeM {
            return_type: inner,
            type_params: last.0,
            params: last.1,
            is_nullable: last.2,
        };
        if chain.len() == 1 {
            assert(chain.drop_last().len() == 0);
            assert(inner == base);
        }
        assert(func_type_borrowed(f, bytes)) by {
            assert forall|i: int| 0 <= i < f.type_params.len() implies type_param_borrowed(
                #[trigger] f.type_params[i],
                bytes,
            ) by {
                assert(last.0[i].borrowed(bytes));
            }
            assert forall|i: int| 0 <= i < f.params.positional_req.len() implies with_meta_pos_borrowed(
                #[trigger] f.params.positional_req[i],
                bytes,
            ) by {
                assert(last.1.positional_req[i].borrowed(bytes));
            }
            match f.params.extra {
                Some(FuncParamsExtraM::PositionalOpt(v)) => {
                    assert forall|i: int| 0 <= i < v.len() implies with_meta_pos_borrowed(
                        #[trigger] v[i],
                        bytes,
                    ) by {
                        assert(v[i].borrowed(bytes));
                    }
                },
                Some(FuncParamsExtraM::Named(v)) => {
                    assert forall|i: int| 0 <= i < v.len() implies with_meta_named_borrowed(
                        #[trigger] v[i],
                        bytes,
                    ) by {
                        assert(v[i].borrowed(bytes));
                    }
                },
                None => {},
            }
        }
    }
}

/// A function type that is built of a type and clauses holds no text of
/// its own.
pub proof fn lemma_build_borrowed(
    return_type: Option<NotFuncTypeM>,
    chain: Seq<ClauseM>,
    bytes: Seq<u8>,
)
    requires
        return_type.borrowed(bytes),
        forall|i: int|
            0 <= i < chain.len() ==> (#[trigger] chain[i]).0.borrowed(bytes) && chain[i].1.borrowed(
                bytes,
            ),
    ensures
        spec_build_func_type(return_type, chain) matches Some(f) ==> func_type_borrowed(f, bytes),
{
    let base = match return_type {
        Some(named) => TypeM::NotFunc(named),
        None => TypeM::NotFunc(dynamic_model()),
    };
    lemma_wrap_borrowed(base, chain, bytes);
}

/// What `spec_ty` yields holds no text but parts of the input.
pub proof fn lemma_ty(bytes: Seq<u8>, pos: int)
    ensures
        spec_ty(bytes, pos) matches Parsed::Done { value, .. } ==> type_borrowed(value, bytes),
    decreases room(bytes, pos), 5int,
{
    reveal(spec_ty);
    reveal(spec_tuple_ty);
    reveal(spec_func_type);
    reveal(spec_not_func_type);
    lemma_tuple_ty(bytes, pos);
    lemma_func_type(bytes, pos);
    lemma_not_func_type(bytes, pos);
}

/// What `spec_not_func_type` yields holds no text but parts of the input.
pub proof fn lemma_not_func_type(bytes: Seq<u8>, pos: int)
    ensures
        spec_not_func_type(bytes, pos) matches Parsed::Done { value, .. } ==> not_func_borrowed(
            value,
            bytes,
        ),
    decreases room(bytes, pos), 0int,
{
    reveal(spec_not_func_type);
    reveal(spec_type_args);
    lemma_identifier_part(bytes, pos);
    match spec_identifier(bytes, pos).ahead(bytes, pos) {
        Parsed::Done { next: end, .. } => {
            lemma_type_args(bytes, blank_end(bytes, end));
        },
        _ => {},
    }
}

/// What `spec_type_list` yields holds no text but parts of the input.
pub proof fn lemma_type_list(bytes: Seq<u8>, pos: int, acc: Seq<TypeM>)
    requires
        acc.borrowed(bytes),
    ensures
        spec_type_list(bytes, pos, acc) matches Parsed::Done { value, .. } ==> value.borrowed(
            bytes,
        ),
    decreases room(bytes, pos), 6int,
{
    reveal(spec_type_list);
    reveal(spec_ty);
    if 0 <= pos <= bytes.len() && has_byte(bytes, blank_end(bytes, pos), ',' as u8) {
        let start = blank_end(bytes, blank_end(bytes, pos) + 1);
        lemma_ty(bytes, start);
        match spec_ty(bytes, start) {
            Parsed::Done { next, value } => {
                if pos < next {
                    lemma_type_list(bytes, next, acc.push(value));
                }
            },
            _ => {},
        }
    }
}

/// What `spec_type_args` yields holds no text but parts of the input.
pub proof fn lemma_type_args(bytes: Seq<u8>, pos: int)
    ensures
        spec_type_args(bytes, pos) matches Parsed::Done { value, .. } ==> value.borrowed(bytes),
    decreases room(bytes, pos), 0int,
{
    reveal(spec_type_args);
    reveal(spec_ty);
    reveal(spec_type_list);
    if has_byte(bytes, pos, '<' as u8) {
        let start = blank_end(bytes, pos + 1);
        lemma_ty(bytes, start);
        match spec_ty(bytes, start).onward(bytes, pos + 1) {
            Parsed::Done { next, value } => {
                lemma_type_list(bytes, next, seq![value]);
            },
            _ => {},
        }
    }
}

/// What `spec_func_clause` yields holds no text but parts of the input.
pub proof fn lemma_func_clause(bytes: Seq<u8>, pos: int)
    ensures
        spec_func_clause(bytes, pos) matches Parsed::Done { value, .. } ==> value.0.borrowed(bytes)
            && value.1.borrowed(bytes),
    decreases room(bytes, pos), 1int,
{
    reveal(spec_func_clause);
    reveal(spec_type_params);
    reveal(spec_func_type_params);
    match spec_tag(bytes, pos, bytes_of("Function")) {
        Parsed::Done { next: word, .. } => {
            let start = blank_end(bytes, word);
            lemma_type_params(bytes, start);
            let generics = spec_type_params(bytes, start).onward(bytes, start);
            let open = match generics {
                Parsed::Done { next, .. } => blank_end(bytes, next),
                _ => start,
            };
            lemma_func_type_params(bytes, open);
        },
        _ => {},
    }
}

/// What `spec_func_chain` yields holds no text but parts of the input.
pub proof fn lemma_func_chain(bytes: Seq<u8>, pos: int, acc: Seq<ClauseM>)
    requires
        forall|i: int|
            0 <= i < acc.len() ==> (#[trigger] acc[i]).0.borrowed(bytes) && acc[i].1.borrowed(
                bytes,
            ),
    ensures
        spec_func_chain(bytes, pos, acc) matches Parsed::Done { value, .. } ==> forall|i: int|
            0 <= i < value.len() ==> (#[trigger] value[i]).0.borrowed(bytes) && value[i].1.borrowed(
                bytes,
            ),
    decreases room(bytes, pos), 2int,
{
    reveal(spec_func_chain);
    reveal(spec_func_clause);
    if 0 <= pos <= bytes.len() {
        let at = if acc.len() == 0 {
            pos
        } else {
            blank_end(bytes, pos)
        };
        lemma_func_clause(bytes, at);
        match spec_func_clause(bytes, at) {
            Parsed::Done { next, value } => {
                if pos < next <= bytes.len() {
                    lemma_func_chain(bytes, next, acc.push(value));
                }
            },
            _ => {},
        }
    }
}

/// What `spec_func_type_returning` yields holds no text but parts of the input.
pub proof fn lemma_func_type_returning(bytes: Seq<u8>, pos: int)
    ensures
        spec_func_type_returning(bytes, pos) matches Parsed::Done { value, .. }
            ==> func_type_borrowed(value, bytes),
    decreases room(bytes, pos), 3int,
{
    reveal(spec_func_type_returning);
    reveal(spec_not_func_type);
    reveal(spec_func_chain);
    lemma_not_func_type(bytes, pos);
    match spec_not_func_type(bytes, pos).onward(bytes, pos) {
        Parsed::Done { next: end, value: returned } => {
            lemma_func_chain(bytes, blank_end(bytes, end), Seq::empty());
            match spec_func_chain(bytes, blank_end(bytes, end), Seq::empty()) {
                Parsed::Done { value: chain, .. } => {
                    lemma_build_borrowed(Some(returned), chain, bytes);
                },
                _ => {},
            }
        },
        _ => {},
    }
}

/// What `spec_func_type` yields holds no text but parts of the input.
pub proof fn lemma_func_type(bytes: Seq<u8>, pos: int)
    ensures
        spec_func_type(bytes, pos) matches Parsed::Done { value, .. } ==> func_type_borrowed(
            value,
            bytes,
        ),
    decreases room(bytes, pos), 4int,
{
    reveal(spec_func_type);
    reveal(spec_func_type_returning);
    reveal(spec_func_chain);
    lemma_func_type_returning(bytes, pos);
    lemma_func_chain(bytes, pos, Seq::empty());
    match spec_func_chain(bytes, pos, Seq::empty()) {
        Parsed::Done { value: chain, .. } => {
            lemma_build_borrowed(None, chain, bytes);
        },
        _ => {},
    }
}

/// What `spec_func_type_param_pos` yields holds no text but parts of the input.
pub proof fn lemma_func_type_param_pos(bytes: Seq<u8>, pos: int)
    ensures
        spec_func_type_param_pos(bytes, pos) matches Parsed::Done { value, .. } ==> pos_borrowed(
            value,
            bytes,
        ),
    decreases room(bytes, pos), 6int,
{
    reveal(spec_func_type_param_pos);
    reveal(spec_ty);
    lemma_ty(bytes, pos);
    match spec_ty(bytes, pos) {
        Parsed::Done { next, .. } => {
            lemma_identifier_part(bytes, blank_end(bytes, next));
        },
        _ => {},
    }
}

/// What `spec_func_type_param_named` yields holds no text but parts of the input.
pub proof fn lemma_func_type_param_named(bytes: Seq<u8>, pos: int)
    ensures
        spec_func_type_param_named(bytes, pos) matches Parsed::Done { value, .. }
            ==> named_borrowed(value.value, bytes),
    decreases room(bytes, pos), 6int,
{
    reveal(spec_func_type_param_named);
    reveal(spec_ty);
    lemma_ty(bytes, required_end(bytes, pos));
    match spec_ty(bytes, required_end(bytes, pos)) {
        Parsed::Done { next, .. } => {
            lemma_identifier_part(bytes, blank_end(bytes, next));
        },
        _ => {},
    }
}

/// What `spec_with_meta_pos` yields holds no text but parts of the input.
pub proof fn lemma_with_meta_pos(bytes: Seq<u8>, pos: int)
    ensures
        spec_with_meta_pos(bytes, pos) matches Parsed::Done { value, .. }
            ==> with_meta_pos_borrowed(value, bytes),
    decreases room(bytes, pos), 7int,
{
    reveal(spec_with_meta_pos);
    reveal(spec_meta);
    reveal(spec_func_type_param_pos);
    lemma_meta(bytes, pos);
    match spec_meta(bytes, pos).onward(bytes, pos) {
        Parsed::Done { next, .. } => {
            lemma_func_type_param_pos(bytes, next);
        },
        _ => {},
    }
}

/// What `spec_with_meta_named` yields holds no text but parts of the input.
pub proof fn lemma_with_meta_named(bytes: Seq<u8>, pos: int)
    ensures
        spec_with_meta_named(bytes, pos) matches Parsed::Done { value, .. }
            ==> with_meta_named_borrowed(value, bytes),
    decreases room(bytes, pos), 7int,
{
    reveal(spec_with_meta_named);
    reveal(spec_meta);
    reveal(spec_func_type_param_named);
    lemma_meta(bytes, pos);
    match spec_meta(bytes, pos).onward(bytes, pos) {
        Parsed::Done { next, .. } => {
            lemma_func_type_param_named(bytes, next);
        },
        _ => {},
    }
}

/// What `spec_pos_list` yields holds no text but parts of the input.
pub proof fn lemma_pos_list(bytes: Seq<u8>, pos: int, acc: Seq<WithMetaM<FuncTypeParamPosM>>)
    requires
        acc.borrowed(bytes),
    ensures
        spec_pos_list(bytes, pos, acc) matches Parsed::Done { value, .. } ==> value.borrowed(bytes),
    decreases room(bytes, pos), 8int,
{
    reveal(spec_pos_list);
    reveal(spec_with_meta_pos);
    if 0 <= pos <= bytes.len() {
        lemma_with_meta_pos(bytes, pos);
        match spec_with_meta_pos(bytes, pos) {
            Parsed::Done { next, value } => {
                if pos < next && has_byte(bytes, blank_end(bytes, next), ',' as u8) {
                    lemma_pos_list(
                        bytes,
                        blank_end(bytes, blank_end(bytes, next) + 1),
                        acc.push(value),
                    );
                }
            },
            _ => {},
        }
    }
}

/// What `spec_named_list` yields holds no text but parts of the input.
pub proof fn lemma_named_list(
    bytes: Seq<u8>,
    pos: int,
    acc: Seq<WithMetaM<MaybeRequiredM<FuncTypeParamNamedM>>>,
)
    requires
        acc.borrowed(bytes),
    ensures
        spec_named_list(bytes, pos, acc) matches Parsed::Done { value, .. } ==> value.borrowed(bytes),
    decreases room(bytes, pos), 8int,
{
    reveal(spec_named_list);
    reveal(spec_with_meta_named);
    if 0 <= pos <= bytes.len() {
        lemma_with_meta_named(bytes, pos);
        match spec_with_meta_named(bytes, pos) {
            Parsed::Done { next, value } => {
                if pos < next && has_byte(bytes, blank_end(bytes, next), ',' as u8) {
                    lemma_named_list(
                        bytes,
                        blank_end(bytes, blank_end(bytes, next) + 1),
                        acc.push(value),
                    );
                }
            },
            _ => {},
        }
    }
}

/// What `spec_func_type_params` yields holds no text but parts of the input.
pub proof fn lemma_func_type_params(bytes: Seq<u8>, pos: int)
    ensures
        spec_func_type_params(bytes, pos) matches Parsed::Done { value, .. } ==> value.borrowed(
            bytes,
        ),
    decreases room(bytes, pos), 0int,
{
    reveal(spec_func_type_params);
    reveal(spec_pos_list);
    reveal(spec_named_list);
    reveal(spec_func_type_params_extra);
    reveal(spec_func_type_params_pos_opt);
    reveal(spec_func_type_params_named);
    if has_byte(bytes, pos, '(' as u8) {
        lemma_pos_list(bytes, blank_end(bytes, pos + 1), Seq::empty());
        match spec_pos_list(bytes, blank_end(bytes, pos + 1), Seq::empty()) {
            Parsed::Done { next: group, .. } => {
                if group > pos {
                    if has_byte(bytes, group, '[' as u8) {
                        lemma_pos_list(bytes, blank_end(bytes, group + 1), Seq::empty());
                    }
                    if has_byte(bytes, group, '{' as u8) {
                        lemma_named_list(bytes, blank_end(bytes, group + 1), Seq::empty());
                    }
                }
            },
            _ => {},
        }
    }
}

/// What `spec_tuple_named_field` yields holds no text but parts of the input.
pub proof fn lemma_tuple_named_field(bytes: Seq<u8>, pos: int)
    ensures
        spec_tuple_named_field(bytes, pos) matches Parsed::Done { value, .. } ==> named_borrowed(
            value,
            bytes,
        ),
    decreases room(bytes, pos), 6int,
{
    reveal(spec_tuple_named_field);
    reveal(spec_ty);
    lemma_identifier_part(bytes, pos);
    match spec_identifier(bytes, pos).ahead(bytes, pos) {
        Parsed::Done { next: end, .. } => {
            if has_byte(bytes, blank_end(bytes, end), ':' as u8) {
                lemma_ty(bytes, blank_end(bytes, blank_end(bytes, end) + 1));
            }
        },
        _ => {},
    }
    lemma_ty(bytes, pos);
    match spec_ty(bytes, pos) {
        Parsed::Done { next, .. } => {
            lemma_identifier_part(bytes, blank_end(bytes, next));
        },
        _ => {},
    }
}

/// What `spec_tuple_pos_list` yields holds no text but parts of the input.
pub proof fn lemma_tuple_pos_list(bytes: Seq<u8>, pos: int, acc: Seq<FuncTypeParamPosM>)
    requires
        acc.borrowed(bytes),
    ensures
        spec_tuple_pos_list(bytes, pos, acc) matches Parsed::Done { value, .. } ==> value.borrowed(bytes),
    decreases room(bytes, pos), 7int,
{
    reveal(spec_tuple_pos_list);
    reveal(spec_func_type_param_pos);
    if 0 <= pos <= bytes.len() {
        lemma_func_type_param_pos(bytes, pos);
        match spec_func_type_param_pos(bytes, pos) {
            Parsed::Done { next, value } => {
                if pos < next && has_byte(bytes, next, ',' as u8) {
                    lemma_tuple_pos_list(bytes, blank_end(bytes, next + 1), acc.push(value));
                }
            },
            _ => {},
        }
    }
}

/// What `spec_tuple_named_list` yields holds no text but parts of the input.
pub proof fn lemma_tuple_named_list(bytes: Seq<u8>, pos: int, acc: Seq<FuncTypeParamNamedM>)
    requires
        acc.borrowed(bytes),
    ensures
        spec_tuple_named_list(bytes, pos, acc) matches Parsed::Done { value, .. } ==> value.borrowed(bytes),
    decreases room(bytes, pos), 7int,
{
    reveal(spec_tuple_named_list);
    reveal(spec_tuple_named_field);
    if 0 <= pos <= bytes.len() {
        lemma_tuple_named_field(bytes, pos);
        match spec_tuple_named_field(bytes, pos) {
            Parsed::Done { next, value } => {
                if pos < next && has_byte(bytes, blank_end(bytes, next), ',' as u8) {
                    lemma_tuple_named_list(
                        bytes,
                        blank_end(bytes, blank_end(bytes, next) + 1),
                        acc.push(value),
                    );
                }
            },
            _ => {},
        }
    }
}

/// What `spec_tuple_ty` yields holds no text but parts of the input.
pub proof fn lemma_tuple_ty(bytes: Seq<u8>, pos: int)
    ensures
        spec_tuple_ty(bytes, pos) matches Parsed::Done { value, .. } ==> tuple_borrowed(
            value,
            bytes,
        ),
    decreases room(bytes, pos), 0int,
{
    reveal(spec_tuple_ty);
    reveal(spec_tuple_pos_list);
    reveal(spec_tuple_named);
    reveal(spec_tuple_named_list);
    if has_byte(bytes, pos, '(' as u8) {
        lemma_tuple_pos_list(bytes, blank_end(bytes, pos + 1), Seq::empty());
        match spec_tuple_pos_list(bytes, blank_end(bytes, pos + 1), Seq::empty()) {
            Parsed::Done { next: group, .. } => {
                if group > pos && has_byte(bytes, group, '{' as u8) {
                    lemma_tuple_named_list(bytes, blank_end(bytes, group + 1), Seq::empty());
                }
            },
            _ => {},
        }
    }
}

/// What `spec_type_param` yields holds no text but parts of the input.
pub proof fn lemma_type_param(bytes: Seq<u8>, pos: int)
    ensures
        spec_type_param(bytes, pos) matches Parsed::Done { value, .. } ==> type_param_borrowed(
            value,
            bytes,
        ),
    decreases room(bytes, pos), 0int,
{
    reveal(spec_type_param);
    reveal(spec_ty);
    lemma_identifier_part(bytes, pos);
    match spec_identifier(bytes, pos).ahead(bytes, pos) {
        Parsed::Done { next: end, .. } => {
            if extends_end(bytes, end) != end {
                lemma_ty(bytes, extends_end(bytes, end));
            }
        },
        _ => {},
    }
}

/// What `spec_type_param_list` yields holds no text but parts of the input.
pub proof fn lemma_type_param_list(bytes: Seq<u8>, pos: int, acc: Seq<TypeParamM>)
    requires
        acc.borrowed(bytes),
    ensures
        spec_type_param_list(bytes, pos, acc) matches Parsed::Done { value, .. }
            ==> value.borrowed(bytes),
    decreases room(bytes, pos), 5int,
{
    reveal(spec_type_param_list);
    reveal(spec_type_param);
    if 0 <= pos <= bytes.len() && has_byte(bytes, pos, ',' as u8) {
        let start = blank_end(bytes, pos + 1);
        lemma_type_param(bytes, start);
        match spec_type_param(bytes, start) {
            Parsed::Done { next, value } => {
                if pos < next {
                    lemma_type_param_list(bytes, blank_end(bytes, next), acc.push(value));
                }
            },
            _ => {},
        }
    }
}

/// What `spec_type_params` yields holds no text but parts of the input.
pub proof fn lemma_type_params(bytes: Seq<u8>, pos: int)
    ensures
        spec_type_params(bytes, pos) matches Parsed::Done { value, .. } ==> value.borrowed(bytes),
    decreases room(bytes, pos), 0int,
{
    reveal(spec_type_params);
    reveal(spec_type_param);
    reveal(spec_type_param_list);
    if has_byte(bytes, pos, '<' as u8) {
        let start = blank_end(bytes, pos + 1);
        lemma_type_param(bytes, start);
        match spec_type_param(bytes, start).onward(bytes, pos + 1) {
            Parsed::Done { next, value } => {
                lemma_type_param_list(bytes, blank_end(bytes, next), seq![value]);
            },
            _ => {},
        }
    }
}

/// What `spec_meta_item` yields holds no text but parts of the input.
pub proof fn lemma_meta_item(bytes: Seq<u8>, pos: int)
    ensures
        spec_meta_item(bytes, pos) matches Parsed::Done { value, .. } ==> meta_borrowed(
            value,
            bytes,
        ),
    decreases room(bytes, pos), 1int,
{
    reveal(spec_meta_item);
    reveal(spec_annotation);
    lemma_comment_borrowed(bytes, pos);
    lemma_annotation(bytes, pos);
}

/// What `spec_meta_items` yields holds no text but parts of the input.
pub proof fn lemma_meta_items(bytes: Seq<u8>, pos: int, acc: Seq<MetaM>)
    requires
        metas_borrowed(acc, bytes),
    ensures
        spec_meta_items(bytes, pos, acc) matches Parsed::Done { value, .. } ==> metas_borrowed(
            value,
            bytes,
        ),
    decreases room(bytes, pos), 2int,
{
    reveal(spec_meta_items);
    reveal(spec_meta_item);
    if 0 <= pos <= bytes.len() {
        lemma_meta_item(bytes, pos);
        match spec_meta_item(bytes, pos) {
            Parsed::Done { next, value } => {
                if pos < next <= bytes.len() {
                    lemma_meta_items(bytes, blank_end(bytes, next), acc.push(value));
                }
            },
            _ => {},
        }
    }
}

/// What `spec_meta` yields holds no text but parts of the input.
pub proof fn lemma_meta(bytes: Seq<u8>, pos: int)
    ensures
        spec_meta(bytes, pos) matches Parsed::Done { value, .. } ==> metas_borrowed(value, bytes),
    decreases room(bytes, pos), 3int,
{
    reveal(spec_meta);
    reveal(spec_meta_items);
    lemma_meta_items(bytes, pos, Seq::empty());
}

/// What `spec_annotation` yields holds no text but parts of the input.
pub proof fn lemma_annotation(bytes: Seq<u8>, pos: int)
    ensures
        spec_annotation(bytes, pos) matches Parsed::Done { value, .. } ==> annotation_borrowed(
            value,
            bytes,
        ),
    decreases room(bytes, pos), 0int,
{
    reveal(spec_annotation);
    reveal(spec_annotation_func_call);
    if has_byte(bytes, pos, '@' as u8) {
        lemma_annotation_func_call(bytes, pos + 1);
        lemma_identifier_part(bytes, pos + 1);
    }
}

/// What `spec_annotation_func_call` yields holds no text but parts of the input.
pub proof fn lemma_annotation_func_call(bytes: Seq<u8>, pos: int)
    ensures
        spec_annotation_func_call(bytes, pos) matches Parsed::Done { value, .. }
            ==> func_call_borrowed(value, bytes),
    decreases room(bytes, pos), 1int,
{
    reveal(spec_annotation_func_call);
    reveal(spec_not_func_type);
    reveal(spec_func_args);
    lemma_not_func_type(bytes, pos);
    match spec_not_func_type(bytes, pos).onward(bytes, pos) {
        Parsed::Done { next, .. } => {
            lemma_func_args(bytes, next);
        },
        _ => {},
    }
}

/// What `spec_func_call` yields holds no text but parts of the input.
pub proof fn lemma_func_call(bytes: Seq<u8>, pos: int)
    ensures
        spec_func_call(bytes, pos) matches Parsed::Done { value, .. } ==> func_call_borrowed(
            value,
            bytes,
        ),
    decreases room(bytes, pos), 1int,
{
    reveal(spec_func_call);
    reveal(spec_not_func_type);
    reveal(spec_func_args);
    lemma_not_func_type(bytes, pos);
    match spec_not_func_type(bytes, pos).onward(bytes, pos) {
        Parsed::Done { next, .. } => {
            match spec_skip_spbrc(bytes, next).onward(bytes, next) {
                Parsed::Done { next: open, .. } => {
                    lemma_func_args(bytes, open);
                },
                _ => {},
            }
        },
        _ => {},
    }
}

/// What `spec_func_args` yields holds no text but parts of the input.
pub proof fn lemma_func_args(bytes: Seq<u8>, pos: int)
    ensures
        spec_func_args(bytes, pos) matches Parsed::Done { value, .. } ==> value.borrowed(bytes),
    decreases room(bytes, pos), 0int,
{
    reveal(spec_func_args);
    reveal(spec_arg_list);
    if has_byte(bytes, pos, '(' as u8) {
        lemma_arg_list(bytes, blank_end(bytes, pos + 1), Seq::empty());
    }
}

/// What `spec_arg_list` yields holds no text but parts of the input.
pub proof fn lemma_arg_list(bytes: Seq<u8>, pos: int, acc: Seq<FuncArgM>)
    requires
        acc.borrowed(bytes),
    ensures
        spec_arg_list(bytes, pos, acc) matches Parsed::Done { value, .. } ==> value.borrowed(bytes),
    decreases room(bytes, pos), 7int,
{
    reveal(spec_arg_list);
    reveal(spec_func_arg);
    if 0 <= pos <= bytes.len() {
        lemma_func_arg(bytes, pos);
        match spec_func_arg(bytes, pos) {
            Parsed::Done { next, value } => {
                if pos < next && has_byte(bytes, blank_end(bytes, next), ',' as u8) {
                    lemma_arg_list(
                        bytes,
                        blank_end(bytes, blank_end(bytes, next) + 1),
                        acc.push(value),
                    );
                }
            },
            _ => {},
        }
    }
}

/// What `spec_func_arg` yields holds no text but parts of the input.
pub proof fn lemma_func_arg(bytes: Seq<u8>, pos: int)
    ensures
        spec_func_arg(bytes, pos) matches Parsed::Done { value, .. } ==> value.borrowed(bytes),
    decreases room(bytes, pos), 6int,
{
    reveal(spec_func_arg);
    reveal(spec_func_arg_named);
    reveal(spec_expr);
    lemma_identifier_part(bytes, pos);
    lemma_expr_borrowed(bytes, pos);
    match spec_identifier(bytes, pos).ahead(bytes, pos) {
        Parsed::Done { next: end, .. } => {
            match spec_skip_spbrc(bytes, end).onward(bytes, end) {
                Parsed::Done { next: colon, .. } => {
                    if has_byte(bytes, colon, ':' as u8) {
                        match spec_skip_spbrc(bytes, colon + 1).onward(bytes, colon + 1) {
                            Parsed::Done { next: start, .. } => {
                                lemma_expr_borrowed(bytes, start);
                            },
                            _ => {},
                        }
                    }
                },
                _ => {},
            }
        },
        _ => {},
    }
}

/// A type is a part of the input.
pub broadcast proof fn lemma_ty_borrowed(bytes: Seq<u8>, pos: int)
    ensures
        #[trigger] spec_ty(bytes, pos) matches Parsed::Done { value, .. } ==> value.borrowed(bytes),
{
    lemma_ty(bytes, pos);
}

/// A named type is a part of the input.
pub broadcast proof fn lemma_not_func_type_borrowed(bytes: Seq<u8>, pos: int)
    ensures
        #[trigger] spec_not_func_type(bytes, pos) matches Parsed::Done { value, .. }
            ==> value.borrowed(bytes),
{
    lemma_not_func_type(bytes, pos);
}

/// Type parameters are parts of the input.
pub broadcast proof fn lemma_type_params_borrowed(bytes: Seq<u8>, pos: int)
    ensures
        #[trigger] spec_type_params(bytes, pos) matches Parsed::Done { value, .. }
            ==> value.borrowed(bytes),
{
    lemma_type_params(bytes, pos);
}

/// Metadata is made of parts of the input.
pub broadcast proof fn lemma_meta_borrowed(bytes: Seq<u8>, pos: int)
    ensures
        #[trigger] spec_meta(bytes, pos) matches Parsed::Done { value, .. } ==> metas_borrowed(
            value,
            bytes,
        ),
{
    lemma_meta(bytes, pos);
}

/// The arguments of a call are parts of the input.
pub broadcast proof fn lemma_func_args_borrowed(bytes: Seq<u8>, pos: int)
    ensures
        #[trigger] spec_func_args(bytes, pos) matches Parsed::Done { value, .. }
            ==> value.borrowed(bytes),
{
    lemma_func_args(bytes, pos);
}

/// Types, metadata and arguments hold no text but parts of the input.
pub broadcast group group_family {
    lemma_ty_borrowed,
    lemma_not_func_type_borrowed,
    lemma_type_params_borrowed,
    lemma_meta_borrowed,
    lemma_func_args_borrowed,
}

/// What `spec_param_list` yields holds no text but parts of the input.
pub proof fn lemma_param_list(bytes: Seq<u8>, pos: int, acc: Seq<WithMetaM<FuncParamM>>)
    requires
        acc.borrowed(bytes),
    ensures
        spec_param_list(bytes, pos, acc) matches Parsed::Done { value, .. } ==> value.borrowed(bytes),
    decreases room(bytes, pos),
{
    broadcast use {lemma_meta_borrowed, lemma_func_param_pos_borrowed};
    reveal(spec_param_list);
    if 0 <= pos <= bytes.len() {
        match spec_with_meta(bytes, pos, |at: int| spec_func_param_pos(bytes, at)) {
            Parsed::Done { next, value } => {
                match spec_skip_spbrc(bytes, next) {
                    Parsed::Done { next: end, .. } => {
                        if pos < end <= bytes.len() && has_byte(bytes, end, ',' as u8) {
                            lemma_param_list(bytes, blank_end(bytes, end + 1), acc.push(value));
                        }
                    },
                    _ => {},
                }
            },
            _ => {},
        }
    }
}

/// Positional parameters are parts of the input.
pub broadcast proof fn lemma_param_list_borrowed(bytes: Seq<u8>, pos: int)
    ensures
        #[trigger] spec_param_list(bytes, pos, Seq::empty()) matches Parsed::Done { value, .. }
            ==> value.borrowed(bytes),
{
    lemma_param_list(bytes, pos, Seq::empty());
}

/// What `spec_named_param_list` yields holds no text but parts of the input.
pub proof fn lemma_named_param_list(bytes: Seq<u8>, pos: int, acc: Seq<WithMetaM<MaybeRequiredM<FuncParamM>>>)
    requires
        acc.borrowed(bytes),
    ensures
        spec_named_param_list(bytes, pos, acc) matches Parsed::Done { value, .. } ==> value.borrowed(bytes),
    decreases room(bytes, pos),
{
    broadcast use {lemma_meta_borrowed, lemma_func_param_named_borrowed};
    reveal(spec_named_param_list);
    if 0 <= pos <= bytes.len() {
        match spec_with_meta(bytes, pos, |at: int| spec_func_param_named(bytes, at)) {
            Parsed::Done { next, value } => {
                match spec_skip_spbrc(bytes, next) {
                    Parsed::Done { next: end, .. } => {
                        if pos < end <= bytes.len() && has_byte(bytes, end, ',' as u8) {
                            lemma_named_param_list(bytes, blank_end(bytes, end + 1), acc.push(value));
                        }
                    },
                    _ => {},
                }
            },
            _ => {},
        }
    }
}

/// Named parameters are parts of the input.
pub broadcast proof fn lemma_named_param_list_borrowed(bytes: Seq<u8>, pos: int)
    ensures
        #[trigger] spec_named_param_list(bytes, pos, Seq::empty()) matches Parsed::Done { value, .. }
            ==> value.borrowed(bytes),
{
    lemma_named_param_list(bytes, pos, Seq::empty());
}

/// What `spec_enum_value_list` yields holds no text but parts of the input.
pub proof fn lemma_enum_value_list(bytes: Seq<u8>, pos: int, acc: Seq<WithMetaM<EnumValueM>>)
    requires
        acc.borrowed(bytes),
    ensures
        spec_enum_value_list(bytes, pos, acc) matches Parsed::Done { value, .. } ==> value.borrowed(bytes),
    decreases room(bytes, pos),
{
    broadcast use {lemma_meta_borrowed, lemma_enum_value_borrowed};
    reveal(spec_enum_value_list);
    if 0 <= pos <= bytes.len() {
        match spec_with_meta(bytes, pos, |at: int| spec_enum_value(bytes, at)) {
            Parsed::Done { next, value } => {
                match spec_skip_spbrc(bytes, next) {
                    Parsed::Done { next: end, .. } => {
                        if pos < end <= bytes.len() && has_byte(bytes, end, ',' as u8) {
                            lemma_enum_value_list(bytes, blank_end(bytes, end + 1), acc.push(value));
                        }
                    },
                    _ => {},
                }
            },
            _ => {},
        }
    }
}

/// The values of an enum are parts of the input.
pub broadcast proof fn lemma_enum_value_list_borrowed(bytes: Seq<u8>, pos: int)
    ensures
        #[trigger] spec_enum_value_list(bytes, pos, Seq::empty()) matches Parsed::Done { value, .. }
            ==> value.borrowed(bytes),
{
    lemma_enum_value_list(bytes, pos, Seq::empty());
}

/// What `spec_member_list` yields holds no text but parts of the input.
pub proof fn lemma_member_list(bytes: Seq<u8>, pos: int, acc: Seq<WithMetaM<ClassMemberM>>)
    requires
        acc.borrowed(bytes),
    ensures
        spec_member_list(bytes, pos, acc) matches Parsed::Done { value, .. } ==> value.borrowed(bytes),
    decreases room(bytes, pos),
{
    broadcast use {lemma_meta_borrowed, lemma_class_member_borrowed};
    reveal(spec_member_list);
    if 0 <= pos <= bytes.len() {
        match spec_with_meta(bytes, pos, |at: int| spec_class_member(bytes, at)) {
            Parsed::Done { next, value } => {
                if pos < next <= bytes.len() && blank_end(bytes, next) <= bytes.len() {
                    lemma_member_list(bytes, blank_end(bytes, next), acc.push(value));
                }
            },
            _ => {},
        }
    }
}

/// The members of a class are parts of the input.
pub broadcast proof fn lemma_member_list_borrowed(bytes: Seq<u8>, pos: int)
    ensures
        #[trigger] spec_member_list(bytes, pos, Seq::empty()) matches Parsed::Done { value, .. }
            ==> value.borrowed(bytes),
{
    lemma_member_list(bytes, pos, Seq::empty());
}

/// What `spec_extension_members` yields holds no text but parts of the input.
pub proof fn lemma_extension_members(bytes: Seq<u8>, pos: int, acc: Seq<WithMetaM<ExtensionMemberM>>)
    requires
        acc.borrowed(bytes),
    ensures
        spec_extension_members(bytes, pos, acc) matches Parsed::Done { value, .. } ==> value.borrowed(bytes),
    decreases room(bytes, pos),
{
    broadcast use {lemma_meta_borrowed, lemma_extension_member_borrowed};
    reveal(spec_extension_members);
    if 0 <= pos <= bytes.len() {
        match spec_with_meta(bytes, pos, |at: int| spec_extension_member(bytes, at)) {
            Parsed::Done { next, value } => {
                if pos < next <= bytes.len() && blank_end(bytes, next) <= bytes.len() {
                    lemma_extension_members(bytes, blank_end(bytes, next), acc.push(value));
                }
            },
            _ => {},
        }
    }
}

/// The members of an extension are parts of the input.
pub broadcast proof fn lemma_extension_members_borrowed(bytes: Seq<u8>, pos: int)
    ensures
        #[trigger] spec_extension_members(bytes, pos, Seq::empty()) matches Parsed::Done { value, .. }
            ==> value.borrowed(bytes),
{
    lemma_extension_members(bytes, pos, Seq::empty());
}

/// What `spec_item_list` yields holds no text but parts of the input.
pub proof fn lemma_item_list(bytes: Seq<u8>, pos: int, acc: Seq<WithMetaM<DartM>>)
    requires
        acc.borrowed(bytes),
    ensures
        spec_item_list(bytes, pos, acc) matches Parsed::Done { value, .. } ==> value.borrowed(bytes),
    decreases room(bytes, pos),
{
    broadcast use {lemma_meta_borrowed, lemma_dart_item_borrowed};
    reveal(spec_item_list);
    if 0 <= pos <= bytes.len() {
        match spec_with_meta(bytes, pos, |at: int| spec_dart_item(bytes, at)) {
            Parsed::Done { next, value } => {
                if pos < next <= bytes.len() && blank_end(bytes, next) <= bytes.len() {
                    lemma_item_list(bytes, blank_end(bytes, next), acc.push(value));
                }
            },
            _ => {},
        }
    }
}

/// Top-level items are parts of the input.
pub broadcast proof fn lemma_item_list_borrowed(bytes: Seq<u8>, pos: int)
    ensures
        #[trigger] spec_item_list(bytes, pos, Seq::empty()) matches Parsed::Done { value, .. }
            ==> value.borrowed(bytes),
{
    lemma_item_list(bytes, pos, Seq::empty());
}

/// What `spec_name_list` yields holds no text but parts of the input.
pub proof fn lemma_name_list(bytes: Seq<u8>, pos: int, acc: Seq<Seq<u8>>)
    requires
        all_parts(acc, bytes),
    ensures
        spec_name_list(bytes, pos, acc) matches Parsed::Done { value, .. } ==> all_parts(
            value,
            bytes,
        ),
    decreases room(bytes, pos),
{
    broadcast use lemma_identifier_part;
    reveal(spec_name_list);
    if 0 <= pos <= bytes.len() {
        match spec_skip_spbrc(bytes, pos) {
            Parsed::Done { next: comma, .. } => {
                if has_byte(bytes, comma, ',' as u8) {
                    match spec_skip_spbrc(bytes, comma + 1) {
                        Parsed::Done { next: start, .. } => {
                            match spec_identifier(bytes, start) {
                                Parsed::Done { next, value } => {
                                    if pos < next <= bytes.len() {
                                        lemma_name_list(bytes, next, acc.push(value));
                                    }
                                },
                                _ => {},
                            }
                        },
                        _ => {},
                    }
                }
            },
            _ => {},
        }
    }
}

/// The names of a `show` or `hide` clause are parts of the input.
pub broadcast proof fn lemma_names_after_borrowed(bytes: Seq<u8>, pos: int, word: Seq<u8>)
    ensures
        #[trigger] spec_names_after(bytes, pos, word) matches Parsed::Done { value, .. }
            ==> all_parts(value, bytes),
{
    broadcast use lemma_identifier_part;
    reveal(spec_names_after);
    match spec_tag(bytes, pos, word) {
        Parsed::Done { next, .. } => {
            match spec_spbrc(bytes, next) {
                Parsed::Done { next: start, .. } => {
                    match spec_identifier(bytes, start) {
                        Parsed::Done { next: end, value } => {
                            lemma_name_list(bytes, end, seq![value]);
                        },
                        _ => {},
                    }
                },
                _ => {},
            }
        },
        _ => {},
    }
}

/// What `spec_filter_list` yields holds no text but parts of the input.
pub proof fn lemma_filter_list(bytes: Seq<u8>, pos: int, acc: Seq<FilterM>)
    requires
        acc.borrowed(bytes),
    ensures
        spec_filter_list(bytes, pos, acc) matches Parsed::Done { value, .. } ==> value.borrowed(bytes),
    decreases room(bytes, pos),
{
    broadcast use lemma_filter_borrowed;
    reveal(spec_filter_list);
    if 0 <= pos <= bytes.len() && (acc.len() == 0 || spec_spbrc(bytes, pos) is Done) {
        let at = if acc.len() == 0 {
            pos
        } else {
            spec_spbrc(bytes, pos)->next
        };
        match spec_filter(bytes, at) {
            Parsed::Done { next, value } => {
                if pos < next <= bytes.len() {
                    lemma_filter_list(bytes, next, acc.push(value));
                }
            },
            _ => {},
        }
    }
}

/// Filters are parts of the input.
pub broadcast proof fn lemma_filter_list_borrowed(bytes: Seq<u8>, pos: int)
    ensures
        #[trigger] spec_filter_list(bytes, pos, Seq::empty()) matches Parsed::Done { value, .. }
            ==> value.borrowed(bytes),
{
    lemma_filter_list(bytes, pos, Seq::empty());
}

/// What `spec_with_list` yields holds no text but parts of the input.
pub proof fn lemma_with_list(bytes: Seq<u8>, pos: int, acc: Seq<NotFuncTypeM>)
    requires
        acc.borrowed(bytes),
    ensures
        spec_with_list(bytes, pos, acc) matches Parsed::Done { value, .. } ==> value.borrowed(
            bytes,
        ),
    decreases room(bytes, pos),
{
    broadcast use lemma_not_func_type_borrowed;
    reveal(spec_with_list);
    if 0 <= pos <= bytes.len() && has_byte(bytes, blank_end(bytes, pos), ',' as u8) {
        match spec_not_func_type(bytes, blank_end(bytes, blank_end(bytes, pos) + 1)) {
            Parsed::Done { next, value } => {
                if pos < next <= bytes.len() {
                    lemma_with_list(bytes, next, acc.push(value));
                }
            },
            _ => {},
        }
    }
}

/// Mix-ins are parts of the input.
pub broadcast proof fn lemma_with_tail_borrowed(bytes: Seq<u8>, pos: int)
    ensures
        #[trigger] spec_with_tail(bytes, pos) matches Parsed::Done { value, .. } ==> value.borrowed(
            bytes,
        ),
{
    broadcast use lemma_not_func_type_borrowed;
    reveal(spec_with_tail);
    match spec_not_func_type(bytes, pos) {
        Parsed::Done { next, value } => {
            lemma_with_list(bytes, next, seq![value]);
        },
        _ => {},
    }
}

/// What `spec_interface_list` yields holds no text but parts of the input.
pub proof fn lemma_interface_list(bytes: Seq<u8>, pos: int, acc: Seq<NotFuncTypeM>)
    requires
        acc.borrowed(bytes),
    ensures
        spec_interface_list(bytes, pos, acc) matches Parsed::Done { value, .. } ==> value.borrowed(
            bytes,
        ),
    decreases room(bytes, pos),
{
    broadcast use lemma_interface_borrowed;
    reveal(spec_interface_list);
    if 0 <= pos <= bytes.len() && has_byte(bytes, pos, ',' as u8) {
        match spec_skip_spbrc(bytes, pos + 1) {
            Parsed::Done { next: start, .. } => {
                match spec_interface(bytes, start) {
                    Parsed::Done { next, value } => {
                        if pos < next <= bytes.len() {
                            lemma_interface_list(bytes, next, acc.push(value));
                        }
                    },
                    _ => {},
                }
            },
            _ => {},
        }
    }
}

/// Interfaces are parts of the input.
pub broadcast proof fn lemma_interfaces_after_borrowed(bytes: Seq<u8>, pos: int, word: Seq<u8>)
    ensures
        #[trigger] spec_interfaces_after(bytes, pos, word) matches Parsed::Done { value, .. }
            ==> value.borrowed(bytes),
{
    broadcast use lemma_interface_borrowed;
    reveal(spec_interfaces_after);
    reveal(spec_interfaces_tail);
    match spec_tag(bytes, pos, word) {
        Parsed::Done { next, .. } => {
            match spec_space(bytes, next, true) {
                Parsed::Done { next: start, .. } => {
                    match spec_interface(bytes, start) {
                        Parsed::Done { next: end, value } => {
                            lemma_interface_list(bytes, end, seq![value]);
                        },
                        _ => {},
                    }
                },
                _ => {},
            }
        },
        _ => {},
    }
}

/// The expressions of an initializer list end at or after where they
/// start, inside the input.
pub proof fn lemma_initializers_end_forward(bytes: Seq<u8>, pos: int)
    ensures
        spec_initializers_end(bytes, pos) matches Parsed::Done { next, .. } ==> 0 <= pos <= next
            <= bytes.len(),
    decreases room(bytes, pos),
{
    reveal(spec_initializers_end);
    if 0 <= pos <= bytes.len() && has_byte(bytes, blank_end(bytes, pos), ',' as u8) {
        match spec_expr(bytes, blank_end(bytes, blank_end(bytes, pos) + 1)) {
            Parsed::Done { next, .. } => {
                if pos < next <= bytes.len() {
                    lemma_initializers_end_forward(bytes, next);
                }
            },
            _ => {},
        }
    }
}

/// An initializer list is a part of the input.
pub broadcast proof fn lemma_constructor_initializer_list_borrowed(bytes: Seq<u8>, pos: int)
    ensures
        #[trigger] spec_constructor_initializer_list(bytes, pos) matches Parsed::Done {
            value,
            ..
        } ==> is_part(value, bytes),
{
    reveal(spec_constructor_initializer_list);
    reveal(spec_expr);
    if has_byte(bytes, pos, ':' as u8) {
        let start = blank_end(bytes, pos + 1);
        lemma_blank_end(bytes, pos + 1);
        match spec_expr(bytes, start) {
            Parsed::Done { next, .. } => {
                lemma_initializers_end_forward(bytes, next);
                match spec_initializers_end(bytes, next) {
                    Parsed::Done { next: end, .. } => {
                        lemma_is_part(bytes, start, end);
                    },
                    _ => {},
                }
            },
            _ => {},
        }
    }
}

/// A class is made of parts of the input where its name and its type
/// parameters are.
pub broadcast proof fn lemma_class_tail_borrowed(bytes: Seq<u8>, pos: int, head: ClassM)
    requires
        is_part(head.name, bytes),
        head.type_params.borrowed(bytes),
    ensures
        #[trigger] spec_class_tail(bytes, pos, head) matches Parsed::Done { value, .. }
            ==> value.borrowed(bytes),
{
    broadcast use {
        lemma_opt_extends_borrowed,
        lemma_with_clause_borrowed,
        lemma_implements_clause_borrowed,
        lemma_mixin_on_clause_borrowed,
        lemma_class_body_borrowed,
    };
    reveal(spec_class_tail);
}

/// Every text in the tree of a compilation unit is a part of the input.
/// The one text that the input need not hold is the name `dynamic` of the
/// type that a function type returns where none is written.
pub proof fn lemma_parse_borrowed(bytes: Seq<u8>)
    ensures
        spec_parse(bytes) matches Parsed::Done { value, .. } ==> value.borrowed(bytes),
{
    broadcast use lemma_item_list_borrowed;
    reveal(spec_parse);
}

/// What `spec_opt_type_params` yields holds no text but parts of the input.
pub broadcast proof fn lemma_opt_type_params_borrowed(bytes: Seq<u8>, pos: int)
    ensures
        #[trigger] spec_opt_type_params(bytes, pos) matches Parsed::Done { value, .. } ==> value.borrowed(bytes),
{
    broadcast use lemma_type_params_borrowed;
}

/// What `spec_arrow_body` yields holds no text but parts of the input.
pub broadcast proof fn lemma_arrow_body_borrowed(bytes: Seq<u8>, pos: int)
    ensures
        #[trigger] spec_arrow_body(bytes, pos) matches Parsed::Done { value, .. } ==> value.borrowed(bytes),
{
    broadcast use lemma_expr_borrowed;
    reveal(spec_arrow_body);
}

/// What `spec_func_body_content` yields holds no text but parts of the input.
pub broadcast proof fn lemma_func_body_content_borrowed(bytes: Seq<u8>, pos: int)
    ensures
        #[trigger] spec_func_body_content(bytes, pos) matches Parsed::Done { value, .. } ==> value.borrowed(bytes),
{
    broadcast use {lemma_arrow_body_borrowed, lemma_block_part};
    reveal(spec_func_body_content);
}

/// What `spec_func_body` yields holds no text but parts of the input.
pub broadcast proof fn lemma_func_body_borrowed(bytes: Seq<u8>, pos: int)
    ensures
        #[trigger] spec_func_body(bytes, pos) matches Parsed::Done { value, .. } ==> value.borrowed(bytes),
{
    broadcast use lemma_func_body_content_borrowed;
    reveal(spec_func_body);
}

/// What `spec_body_or_semicolon` yields holds no text but parts of the input.
pub broadcast proof fn lemma_body_or_semicolon_borrowed(bytes: Seq<u8>, pos: int)
    ensures
        #[trigger] spec_body_or_semicolon(bytes, pos) matches Parsed::Done { value, .. } ==> value.borrowed(bytes),
{
    broadcast use lemma_func_body_borrowed;
    reveal(spec_body_or_semicolon);
}

/// What `spec_type_then_name` yields holds no text but parts of the input.
pub broadcast proof fn lemma_type_then_name_borrowed(bytes: Seq<u8>, pos: int, comments: bool, trailing: bool)
    ensures
        #[trigger] spec_type_then_name(bytes, pos, comments, trailing) matches Parsed::Done { value, .. } ==> value.0.borrowed(bytes) && is_part(value.1, bytes),
{
    broadcast use {lemma_ty_borrowed, lemma_identifier_part};
    reveal(spec_type_then_name);
}

/// What `spec_name_alone` yields holds no text but parts of the input.
pub broadcast proof fn lemma_name_alone_borrowed(bytes: Seq<u8>, pos: int, comments: bool, trailing: bool)
    ensures
        #[trigger] spec_name_alone(bytes, pos, comments, trailing) matches Parsed::Done { value, .. } ==> value.0.borrowed(bytes) && is_part(value.1, bytes),
{
    broadcast use lemma_identifier_part;
    reveal(spec_name_alone);
}

/// What `spec_typed_name` yields holds no text but parts of the input.
pub broadcast proof fn lemma_typed_name_borrowed(bytes: Seq<u8>, pos: int, comments: bool, trailing: bool)
    ensures
        #[trigger] spec_typed_name(bytes, pos, comments, trailing) matches Parsed::Done { value, .. } ==> value.0.borrowed(bytes) && is_part(value.1, bytes),
{
    broadcast use {lemma_type_then_name_borrowed, lemma_name_alone_borrowed};
}

/// What `spec_pos_initializer` yields holds no text but parts of the input.
pub broadcast proof fn lemma_pos_initializer_borrowed(bytes: Seq<u8>, pos: int)
    ensures
        #[trigger] spec_pos_initializer(bytes, pos) matches Parsed::Done { value, .. } ==> value.borrowed(bytes),
{
    broadcast use lemma_expr_borrowed;
    reveal(spec_pos_initializer);
}

/// What `spec_named_initializer` yields holds no text but parts of the input.
pub broadcast proof fn lemma_named_initializer_borrowed(bytes: Seq<u8>, pos: int)
    ensures
        #[trigger] spec_named_initializer(bytes, pos) matches Parsed::Done { value, .. } ==> value.borrowed(bytes),
{
    broadcast use lemma_expr_borrowed;
    reveal(spec_named_initializer);
}

/// What `spec_func_param_pos` yields holds no text but parts of the input.
pub broadcast proof fn lemma_func_param_pos_borrowed(bytes: Seq<u8>, pos: int)
    ensures
        #[trigger] spec_func_param_pos(bytes, pos) matches Parsed::Done { value, .. } ==> value.borrowed(bytes),
{
    broadcast use {lemma_typed_name_borrowed, lemma_pos_initializer_borrowed};
    reveal(spec_func_param_pos);
}

/// What `spec_func_param_named` yields holds no text but parts of the input.
pub broadcast proof fn lemma_func_param_named_borrowed(bytes: Seq<u8>, pos: int)
    ensures
        #[trigger] spec_func_param_named(bytes, pos) matches Parsed::Done { value, .. } ==> value.borrowed(bytes),
{
    broadcast use {lemma_typed_name_borrowed, lemma_named_initializer_borrowed};
    reveal(spec_func_param_named);
}

/// What `spec_func_params_pos_opt` yields holds no text but parts of the input.
pub broadcast proof fn lemma_func_params_pos_opt_borrowed(bytes: Seq<u8>, pos: int)
    ensures
        #[trigger] spec_func_params_pos_opt(bytes, pos) matches Parsed::Done { value, .. } ==> value.borrowed(bytes),
{
    broadcast use lemma_param_list_borrowed;
    reveal(spec_func_params_pos_opt);
}

/// What `spec_func_params_named` yields holds no text but parts of the input.
pub broadcast proof fn lemma_func_params_named_borrowed(bytes: Seq<u8>, pos: int)
    ensures
        #[trigger] spec_func_params_named(bytes, pos) matches Parsed::Done { value, .. } ==> value.borrowed(bytes),
{
    broadcast use lemma_named_param_list_borrowed;
    reveal(spec_func_params_named);
}

/// What `spec_func_params_extra` yields holds no text but parts of the input.
pub broadcast proof fn lemma_func_params_extra_borrowed(bytes: Seq<u8>, pos: int)
    ensures
        #[trigger] spec_func_params_extra(bytes, pos) matches Parsed::Done { value, .. } ==> value.borrowed(bytes),
{
    broadcast use {lemma_func_params_pos_opt_borrowed, lemma_func_params_named_borrowed};
    reveal(spec_func_params_extra);
}

/// What `spec_func_params` yields holds no text but parts of the input.
pub broadcast proof fn lemma_func_params_borrowed(bytes: Seq<u8>, pos: int)
    ensures
        #[trigger] spec_func_params(bytes, pos) matches Parsed::Done { value, .. } ==> value.borrowed(bytes),
{
    broadcast use {lemma_param_list_borrowed, lemma_func_params_extra_borrowed};
    reveal(spec_func_params);
}

/// What `spec_func` yields holds no text but parts of the input.
pub broadcast proof fn lemma_func_borrowed(bytes: Seq<u8>, pos: int)
    ensures
        #[trigger] spec_func(bytes, pos) matches Parsed::Done { value, .. } ==> value.borrowed(bytes),
{
    broadcast use {lemma_ty_borrowed, lemma_identifier_part, lemma_opt_type_params_borrowed, lemma_func_params_borrowed, lemma_body_or_semicolon_borrowed};
    reveal(spec_func);
}

/// What `spec_operator` yields holds no text but parts of the input.
pub broadcast proof fn lemma_operator_borrowed(bytes: Seq<u8>, pos: int)
    ensures
        #[trigger] spec_operator(bytes, pos) matches Parsed::Done { value, .. } ==> value.borrowed(bytes),
{
    broadcast use {lemma_ty_borrowed, lemma_opt_type_params_borrowed, lemma_func_params_borrowed, lemma_body_or_semicolon_borrowed};
    reveal(spec_operator);
}

/// What `spec_getter` yields holds no text but parts of the input.
pub broadcast proof fn lemma_getter_borrowed(bytes: Seq<u8>, pos: int)
    ensures
        #[trigger] spec_getter(bytes, pos) matches Parsed::Done { value, .. } ==> value.borrowed(bytes),
{
    broadcast use {lemma_ty_borrowed, lemma_identifier_part, lemma_body_or_semicolon_borrowed};
    reveal(spec_getter);
}

/// What `spec_setter` yields holds no text but parts of the input.
pub broadcast proof fn lemma_setter_borrowed(bytes: Seq<u8>, pos: int)
    ensures
        #[trigger] spec_setter(bytes, pos) matches Parsed::Done { value, .. } ==> value.borrowed(bytes),
{
    broadcast use {lemma_identifier_part, lemma_func_params_borrowed, lemma_body_or_semicolon_borrowed};
    reveal(spec_setter);
}

/// What `spec_func_like` yields holds no text but parts of the input.
pub broadcast proof fn lemma_func_like_borrowed(bytes: Seq<u8>, pos: int)
    ensures
        #[trigger] spec_func_like(bytes, pos) matches Parsed::Done { value, .. } ==> value.borrowed(bytes),
{
    broadcast use {lemma_operator_borrowed, lemma_func_borrowed, lemma_getter_borrowed, lemma_setter_borrowed};
    reveal(spec_func_like);
}

/// What `spec_var_initializer` yields holds no text but parts of the input.
pub broadcast proof fn lemma_var_initializer_borrowed(bytes: Seq<u8>, pos: int)
    ensures
        #[trigger] spec_var_initializer(bytes, pos) matches Parsed::Done { value, .. } ==> value.borrowed(bytes),
{
    broadcast use lemma_expr_borrowed;
    reveal(spec_var_initializer);
}

/// What `spec_var` yields holds no text but parts of the input.
pub broadcast proof fn lemma_var_borrowed(bytes: Seq<u8>, pos: int)
    ensures
        #[trigger] spec_var(bytes, pos) matches Parsed::Done { value, .. } ==> value.borrowed(bytes),
{
    broadcast use {lemma_typed_name_borrowed, lemma_var_initializer_borrowed};
    reveal(spec_var);
}

/// What `spec_typedef` yields holds no text but parts of the input.
pub broadcast proof fn lemma_typedef_borrowed(bytes: Seq<u8>, pos: int)
    ensures
        #[trigger] spec_typedef(bytes, pos) matches Parsed::Done { value, .. } ==> value.borrowed(bytes),
{
    broadcast use {lemma_identifier_part, lemma_opt_type_params_borrowed, lemma_ty_borrowed};
    reveal(spec_typedef);
}

/// What `spec_filter` yields holds no text but parts of the input.
pub broadcast proof fn lemma_filter_borrowed(bytes: Seq<u8>, pos: int)
    ensures
        #[trigger] spec_filter(bytes, pos) matches Parsed::Done { value, .. } ==> value.borrowed(bytes),
{
    broadcast use lemma_names_after_borrowed;
    reveal(spec_filter);
}

/// What `spec_import_filters` yields holds no text but parts of the input.
pub broadcast proof fn lemma_import_filters_borrowed(bytes: Seq<u8>, pos: int)
    ensures
        #[trigger] spec_import_filters(bytes, pos) matches Parsed::Done { value, .. }
            ==> value.borrowed(bytes),
{
    broadcast use lemma_filter_list_borrowed;
}

/// What `spec_import_prefix` yields holds no text but parts of the input.
pub broadcast proof fn lemma_import_prefix_borrowed(bytes: Seq<u8>, pos: int)
    ensures
        opt_part((#[trigger] spec_import_prefix(bytes, pos)).1, bytes),
{
    broadcast use lemma_identifier_part;
}

/// What `spec_import_tail` yields holds no text but parts of the input.
pub broadcast proof fn lemma_import_tail_borrowed(bytes: Seq<u8>, pos: int)
    ensures
        #[trigger] spec_import_tail(bytes, pos) matches Parsed::Done { value, .. } ==> value.borrowed(bytes),
{
    broadcast use {lemma_string_part, lemma_import_filters_borrowed, lemma_import_prefix_borrowed};
    reveal(spec_import_tail);
}

/// What `spec_import` yields holds no text but parts of the input.
pub broadcast proof fn lemma_import_borrowed(bytes: Seq<u8>, pos: int)
    ensures
        #[trigger] spec_import(bytes, pos) matches Parsed::Done { value, .. } ==> value.borrowed(bytes),
{
    broadcast use lemma_import_tail_borrowed;
    reveal(spec_import);
}

/// What `spec_export_tail` yields holds no text but parts of the input.
pub broadcast proof fn lemma_export_tail_borrowed(bytes: Seq<u8>, pos: int)
    ensures
        #[trigger] spec_export_tail(bytes, pos) matches Parsed::Done { value, .. } ==> value.borrowed(bytes),
{
    broadcast use {lemma_string_part, lemma_import_filters_borrowed};
    reveal(spec_export_tail);
}

/// What `spec_export` yields holds no text but parts of the input.
pub broadcast proof fn lemma_export_borrowed(bytes: Seq<u8>, pos: int)
    ensures
        #[trigger] spec_export(bytes, pos) matches Parsed::Done { value, .. } ==> value.borrowed(bytes),
{
    broadcast use lemma_export_tail_borrowed;
    reveal(spec_export);
}

/// What `spec_part_tail` yields holds no text but parts of the input.
pub broadcast proof fn lemma_part_tail_borrowed(bytes: Seq<u8>, pos: int)
    ensures
        #[trigger] spec_part_tail(bytes, pos) matches Parsed::Done { value, .. } ==> is_part(value, bytes),
{
    broadcast use lemma_string_part;
    reveal(spec_part_tail);
}

/// What `spec_part` yields holds no text but parts of the input.
pub broadcast proof fn lemma_part_borrowed(bytes: Seq<u8>, pos: int)
    ensures
        #[trigger] spec_part(bytes, pos) matches Parsed::Done { value, .. } ==> is_part(value, bytes),
{
    broadcast use lemma_part_tail_borrowed;
    reveal(spec_part);
}

/// What `spec_part_of_tail` yields holds no text but parts of the input.
pub broadcast proof fn lemma_part_of_tail_borrowed(bytes: Seq<u8>, pos: int)
    ensures
        #[trigger] spec_part_of_tail(bytes, pos) matches Parsed::Done { value, .. } ==> value.borrowed(bytes),
{
    broadcast use {lemma_string_part, lemma_identifier_part};
    reveal(spec_part_of_tail);
}

/// What `spec_part_of` yields holds no text but parts of the input.
pub broadcast proof fn lemma_part_of_borrowed(bytes: Seq<u8>, pos: int)
    ensures
        #[trigger] spec_part_of(bytes, pos) matches Parsed::Done { value, .. } ==> value.borrowed(bytes),
{
    broadcast use lemma_part_of_tail_borrowed;
    reveal(spec_part_of);
}

/// What `spec_directive` yields holds no text but parts of the input.
pub broadcast proof fn lemma_directive_borrowed(bytes: Seq<u8>, pos: int)
    ensures
        #[trigger] spec_directive(bytes, pos) matches Parsed::Done { value, .. } ==> value.borrowed(bytes),
{
    broadcast use {lemma_export_borrowed, lemma_import_borrowed, lemma_part_of_borrowed, lemma_part_borrowed};
    reveal(spec_directive);
}

/// What `spec_extends_clause` yields holds no text but parts of the input.
pub broadcast proof fn lemma_extends_clause_borrowed(bytes: Seq<u8>, pos: int)
    ensures
        #[trigger] spec_extends_clause(bytes, pos) matches Parsed::Done { value, .. } ==> value.borrowed(bytes),
{
    broadcast use lemma_not_func_type_borrowed;
    reveal(spec_extends_clause);
}

/// What `spec_with_clause` yields holds no text but parts of the input.
pub broadcast proof fn lemma_with_clause_borrowed(bytes: Seq<u8>, pos: int)
    ensures
        #[trigger] spec_with_clause(bytes, pos) matches Parsed::Done { value, .. } ==> value.borrowed(bytes),
{
    broadcast use lemma_with_tail_borrowed;
    reveal(spec_with_clause);
}

/// What `spec_interface` yields holds no text but parts of the input.
pub broadcast proof fn lemma_interface_borrowed(bytes: Seq<u8>, pos: int)
    ensures
        #[trigger] spec_interface(bytes, pos) matches Parsed::Done { value, .. } ==> value.borrowed(bytes),
{
    broadcast use lemma_not_func_type_borrowed;
    reveal(spec_interface);
}

/// What `spec_implements_clause` yields holds no text but parts of the input.
pub broadcast proof fn lemma_implements_clause_borrowed(bytes: Seq<u8>, pos: int)
    ensures
        #[trigger] spec_implements_clause(bytes, pos) matches Parsed::Done { value, .. } ==> value.borrowed(bytes),
{
    broadcast use lemma_interfaces_after_borrowed;
}

/// What `spec_mixin_on_clause` yields holds no text but parts of the input.
pub broadcast proof fn lemma_mixin_on_clause_borrowed(bytes: Seq<u8>, pos: int)
    ensures
        #[trigger] spec_mixin_on_clause(bytes, pos) matches Parsed::Done { value, .. } ==> value.borrowed(bytes),
{
    broadcast use lemma_interfaces_after_borrowed;
}

/// What `spec_opt_extends` yields holds no text but parts of the input.
pub broadcast proof fn lemma_opt_extends_borrowed(bytes: Seq<u8>, pos: int)
    ensures
        #[trigger] spec_opt_extends(bytes, pos) matches Parsed::Done { value, .. } ==> value.borrowed(bytes),
{
    broadcast use lemma_extends_clause_borrowed;
}

/// What `spec_opt_initializers` yields holds no text but parts of the input.
pub broadcast proof fn lemma_opt_initializers_borrowed(bytes: Seq<u8>, pos: int)
    ensures
        #[trigger] spec_opt_initializers(bytes, pos) matches Parsed::Done { value, .. } ==> opt_part(value, bytes),
{
    broadcast use lemma_constructor_initializer_list_borrowed;
}

/// What `spec_content_or_semicolon` yields holds no text but parts of the input.
pub broadcast proof fn lemma_content_or_semicolon_borrowed(bytes: Seq<u8>, pos: int)
    ensures
        #[trigger] spec_content_or_semicolon(bytes, pos) matches Parsed::Done { value, .. } ==> value.borrowed(bytes),
{
    broadcast use lemma_func_body_content_borrowed;
    reveal(spec_content_or_semicolon);
}

/// What `spec_constructor` yields holds no text but parts of the input.
pub broadcast proof fn lemma_constructor_borrowed(bytes: Seq<u8>, pos: int)
    ensures
        #[trigger] spec_constructor(bytes, pos) matches Parsed::Done { value, .. } ==> value.borrowed(bytes),
{
    broadcast use {lemma_identifier_part, lemma_func_params_borrowed, lemma_opt_initializers_borrowed, lemma_content_or_semicolon_borrowed};
    reveal(spec_constructor);
}

/// What `spec_class_member` yields holds no text but parts of the input.
pub broadcast proof fn lemma_class_member_borrowed(bytes: Seq<u8>, pos: int)
    ensures
        #[trigger] spec_class_member(bytes, pos) matches Parsed::Done { value, .. } ==> value.borrowed(bytes),
{
    broadcast use {lemma_constructor_borrowed, lemma_var_borrowed, lemma_func_like_borrowed};
    reveal(spec_class_member);
}

/// What `spec_class_body_tail` yields holds no text but parts of the input.
pub broadcast proof fn lemma_class_body_tail_borrowed(bytes: Seq<u8>, pos: int)
    ensures
        #[trigger] spec_class_body_tail(bytes, pos) matches Parsed::Done { value, .. } ==> value.borrowed(bytes),
{
    broadcast use lemma_member_list_borrowed;
    reveal(spec_class_body_tail);
}

/// What `spec_class_body` yields holds no text but parts of the input.
pub broadcast proof fn lemma_class_body_borrowed(bytes: Seq<u8>, pos: int)
    ensures
        #[trigger] spec_class_body(bytes, pos) matches Parsed::Done { value, .. } ==> value.borrowed(bytes),
{
    broadcast use lemma_class_body_tail_borrowed;
    reveal(spec_class_body);
}

/// What `spec_class` yields holds no text but parts of the input.
pub broadcast proof fn lemma_class_borrowed(bytes: Seq<u8>, pos: int)
    ensures
        #[trigger] spec_class(bytes, pos) matches Parsed::Done { value, .. } ==> value.borrowed(bytes),
{
    broadcast use {lemma_identifier_part, lemma_opt_type_params_borrowed, lemma_class_tail_borrowed};
    reveal(spec_class);
}

/// What `spec_enum_value` yields holds no text but parts of the input.
pub broadcast proof fn lemma_enum_value_borrowed(bytes: Seq<u8>, pos: int)
    ensures
        #[trigger] spec_enum_value(bytes, pos) matches Parsed::Done { value, .. } ==> value.borrowed(bytes),
{
    broadcast use {lemma_identifier_part, lemma_func_args_borrowed};
    reveal(spec_enum_value);
}

/// What `spec_enum_members` yields holds no text but parts of the input.
pub broadcast proof fn lemma_enum_members_borrowed(bytes: Seq<u8>, pos: int)
    ensures
        #[trigger] spec_enum_members(bytes, pos) matches Parsed::Done { value, .. } ==> value.borrowed(bytes),
{
    broadcast use lemma_member_list_borrowed;
    reveal(spec_enum_members);
}

/// What `spec_enum_body_tail` yields holds no text but parts of the input.
pub broadcast proof fn lemma_enum_body_tail_borrowed(bytes: Seq<u8>, pos: int)
    ensures
        #[trigger] spec_enum_body_tail(bytes, pos) matches Parsed::Done { value, .. } ==> value.borrowed(bytes),
{
    broadcast use {lemma_enum_members_borrowed, lemma_enum_value_list_borrowed};
    reveal(spec_enum_body_tail);
}

/// What `spec_enum_body` yields holds no text but parts of the input.
pub broadcast proof fn lemma_enum_body_borrowed(bytes: Seq<u8>, pos: int)
    ensures
        #[trigger] spec_enum_body(bytes, pos) matches Parsed::Done { value, .. } ==> value.borrowed(bytes),
{
    broadcast use lemma_enum_body_tail_borrowed;
    reveal(spec_enum_body);
}

/// What `spec_enum_ty` yields holds no text but parts of the input.
pub broadcast proof fn lemma_enum_ty_borrowed(bytes: Seq<u8>, pos: int)
    ensures
        #[trigger] spec_enum_ty(bytes, pos) matches Parsed::Done { value, .. } ==> value.borrowed(bytes),
{
    broadcast use {lemma_identifier_part, lemma_implements_clause_borrowed, lemma_enum_body_borrowed};
    reveal(spec_enum_ty);
}

/// What `spec_extension_on` yields holds no text but parts of the input.
pub broadcast proof fn lemma_extension_on_borrowed(bytes: Seq<u8>, pos: int)
    ensures
        #[trigger] spec_extension_on(bytes, pos) matches Parsed::Done { value, .. } ==> value.borrowed(bytes),
{
    broadcast use lemma_opt_type_params_borrowed;
    reveal(spec_extension_on);
}

/// What `spec_extension_unnamed` yields holds no text but parts of the input.
pub broadcast proof fn lemma_extension_unnamed_borrowed(bytes: Seq<u8>, pos: int)
    ensures
        #[trigger] spec_extension_unnamed(bytes, pos) matches Parsed::Done { value, .. } ==> opt_part(value.0, bytes) && value.1.borrowed(bytes),
{
    broadcast use lemma_extension_on_borrowed;
    reveal(spec_extension_unnamed);
}

/// What `spec_extension_named` yields holds no text but parts of the input.
pub broadcast proof fn lemma_extension_named_borrowed(bytes: Seq<u8>, pos: int)
    ensures
        #[trigger] spec_extension_named(bytes, pos) matches Parsed::Done { value, .. } ==> opt_part(value.0, bytes) && value.1.borrowed(bytes),
{
    broadcast use {lemma_identifier_part, lemma_extension_on_borrowed};
    reveal(spec_extension_named);
}

/// What `spec_extension_member` yields holds no text but parts of the input.
pub broadcast proof fn lemma_extension_member_borrowed(bytes: Seq<u8>, pos: int)
    ensures
        #[trigger] spec_extension_member(bytes, pos) matches Parsed::Done { value, .. } ==> value.borrowed(bytes),
{
    broadcast use {lemma_func_like_borrowed, lemma_var_borrowed};
    reveal(spec_extension_member);
}

/// What `spec_extension_body_tail` yields holds no text but parts of the input.
pub broadcast proof fn lemma_extension_body_tail_borrowed(bytes: Seq<u8>, pos: int)
    ensures
        #[trigger] spec_extension_body_tail(bytes, pos) matches Parsed::Done { value, .. } ==> value.borrowed(bytes),
{
    broadcast use lemma_extension_members_borrowed;
    reveal(spec_extension_body_tail);
}

/// What `spec_extension_body` yields holds no text but parts of the input.
pub broadcast proof fn lemma_extension_body_borrowed(bytes: Seq<u8>, pos: int)
    ensures
        #[trigger] spec_extension_body(bytes, pos) matches Parsed::Done { value, .. } ==> value.borrowed(bytes),
{
    broadcast use lemma_extension_body_tail_borrowed;
    reveal(spec_extension_body);
}

/// What `spec_extension` yields holds no text but parts of the input.
pub broadcast proof fn lemma_extension_borrowed(bytes: Seq<u8>, pos: int)
    ensures
        #[trigger] spec_extension(bytes, pos) matches Parsed::Done { value, .. } ==> value.borrowed(bytes),
{
    broadcast use {lemma_extension_unnamed_borrowed, lemma_extension_named_borrowed, lemma_ty_borrowed, lemma_extension_body_borrowed};
    reveal(spec_extension);
}

/// What `spec_dart_item` yields holds no text but parts of the input.
pub broadcast proof fn lemma_dart_item_borrowed(bytes: Seq<u8>, pos: int)
    ensures
        #[trigger] spec_dart_item(bytes, pos) matches Parsed::Done { value, .. } ==> value.borrowed(bytes),
{
    broadcast use {lemma_directive_borrowed, lemma_typedef_borrowed, lemma_var_borrowed, lemma_func_like_borrowed, lemma_class_borrowed, lemma_enum_ty_borrowed, lemma_extension_borrowed};
    reveal(spec_dart_item);
}

} // verus!
