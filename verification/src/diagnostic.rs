//! Failures as text.

use vstd::prelude::*;
use vstd::string::*;
use vstd::utf8::*;
use crate::parser::outcome::{Label, ParseError, Spot};
use crate::parser::text::{byte_at, bytes_of, length};

verus! {

impl Label {
    /// The name that stands for the label in a text.
    pub open spec fn text(self) -> Seq<char> {
        match self {
            Label::Tag => "Tag"@,
            Label::Char => "Char"@,
            Label::OneOf => "OneOf"@,
            Label::IsA => "IsA"@,
            Label::Eof => "Eof"@,
            Label::Reserved => "Fail"@,
            Label::Many0 => "Many0"@,
            Label::Many1 => "Many1"@,
            Label::SeparatedList => "SeparatedList"@,
            Label::FuncTypeChain => "Fail"@,
            Label::Class => "class"@,
            Label::ClassBody => "class_body"@,
            Label::CommentMultiLine => "comment_multi_line"@,
            Label::CommentSingleLine => "comment_single_line"@,
            Label::Constructor => "constructor"@,
            Label::Directive => "directive"@,
            Label::EnumBody => "enum_body"@,
            Label::EnumTy => "enum_ty"@,
            Label::EnumValue => "enum_value"@,
            Label::Export => "export"@,
            Label::Expr => "expr"@,
            Label::ExtendsClause => "extends_clause"@,
            Label::Extension => "extension"@,
            Label::ExtensionBody => "extension_body"@,
            Label::Func => "func"@,
            Label::FuncArgs => "func_args"@,
            Label::FuncCall => "func_call"@,
            Label::FuncLike => "func_like"@,
            Label::FuncParamNamed => "func_param_named"@,
            Label::FuncParamPos => "func_param_pos"@,
            Label::FuncParams => "func_params"@,
            Label::FuncParamsNamed => "func_params_named"@,
            Label::FuncType => "func_type"@,
            Label::FuncTypeParams => "func_type_params"@,
            Label::Getter => "getter"@,
            Label::Identifier => "identifier"@,
            Label::ImplementsClause => "implements_clause"@,
            Label::Import => "import"@,
            Label::InterpolationExpr => "interpolation_expr"@,
            Label::MaybeRequired => "maybe_required"@,
            Label::Meta => "meta"@,
            Label::MixinOnClause => "mixin_on_clause"@,
            Label::NotFuncType => "not_func_type"@,
            Label::Operator => "operator"@,
            Label::Part => "part"@,
            Label::PartOf => "part_of"@,
            Label::Scope => "scope"@,
            Label::Setter => "setter"@,
            Label::StringLit => "string"@,
            Label::Tuple => "tuple"@,
            Label::Ty => "ty"@,
            Label::TypeArgs => "type_args"@,
            Label::TypeParam => "type_param"@,
            Label::TypeParams => "type_params"@,
            Label::Typedef => "typedef"@,
            Label::Var => "var"@,
            Label::WithClause => "with_clause"@,
            Label::WithMeta => "with_meta"@,
        }
    }

    /// The name that stands for the label in a text.
    pub fn name(self) -> (name: &'static str)
        ensures
            name@ == self.text(),
    {
        match self {
            Label::Tag => "Tag",
            Label::Char => "Char",
            Label::OneOf => "OneOf",
            Label::IsA => "IsA",
            Label::Eof => "Eof",
            Label::Reserved => "Fail",
            Label::Many0 => "Many0",
            Label::Many1 => "Many1",
            Label::SeparatedList => "SeparatedList",
            Label::FuncTypeChain => "Fail",
            Label::Class => "class",
            Label::ClassBody => "class_body",
            Label::CommentMultiLine => "comment_multi_line",
            Label::CommentSingleLine => "comment_single_line",
            Label::Constructor => "constructor",
            Label::Directive => "directive",
            Label::EnumBody => "enum_body",
            Label::EnumTy => "enum_ty",
            Label::EnumValue => "enum_value",
            Label::Export => "export",
            Label::Expr => "expr",
            Label::ExtendsClause => "extends_clause",
            Label::Extension => "extension",
            Label::ExtensionBody => "extension_body",
            Label::Func => "func",
            Label::FuncArgs => "func_args",
            Label::FuncCall => "func_call",
            Label::FuncLike => "func_like",
            Label::FuncParamNamed => "func_param_named",
            Label::FuncParamPos => "func_param_pos",
            Label::FuncParams => "func_params",
            Label::FuncParamsNamed => "func_params_named",
            Label::FuncType => "func_type",
            Label::FuncTypeParams => "func_type_params",
            Label::Getter => "getter",
            Label::Identifier => "identifier",
            Label::ImplementsClause => "implements_clause",
            Label::Import => "import",
            Label::InterpolationExpr => "interpolation_expr",
            Label::MaybeRequired => "maybe_required",
            Label::Meta => "meta",
            Label::MixinOnClause => "mixin_on_clause",
            Label::NotFuncType => "not_func_type",
            Label::Operator => "operator",
            Label::Part => "part",
            Label::PartOf => "part_of",
            Label::Scope => "scope",
            Label::Setter => "setter",
            Label::StringLit => "string",
            Label::Tuple => "tuple",
            Label::Ty => "ty",
            Label::TypeArgs => "type_args",
            Label::TypeParam => "type_param",
            Label::TypeParams => "type_params",
            Label::Typedef => "typedef",
            Label::Var => "var",
            Label::WithClause => "with_clause",
            Label::WithMeta => "with_meta",
        }
    }
}

/// The last character boundary of `bytes` at or before `at`; the start or
/// the end of `bytes` where `at` lies outside.
pub open spec fn boundary_floor(bytes: Seq<u8>, at: int) -> int
    decreases at,
{
    if at <= 0 {
        0
    } else if at >= bytes.len() {
        bytes.len() as int
    } else if is_char_boundary(bytes, at) {
        at
    } else {
        boundary_floor(bytes, at - 1)
    }
}

/// The last character boundary of `input` at or before `at`.
pub fn floor_boundary(input: &str, at: usize) -> (r: usize)
    ensures
        r == boundary_floor(bytes_of(input), at as int),
        r <= bytes_of(input).len(),
        is_char_boundary(bytes_of(input), r as int),
{
    let len = length(input);
    proof {
        encode_utf8_valid_utf8(input@);
        is_char_boundary_start_end_of_seq(bytes_of(input));
    }
    if at >= len {
        return len;
    }
    let mut cur = at;
    while cur > 0 && !input.is_char_boundary(cur)
        invariant
            cur <= at < len,
            len == bytes_of(input).len(),
            boundary_floor(bytes_of(input), at as int) == boundary_floor(
                bytes_of(input),
                cur as int,
            ),
            is_char_boundary(bytes_of(input), 0),
        decreases cur,
    {
        cur = cur - 1;
    }
    cur
}

/// The offsets of a trace, each moved back to a character boundary.
pub open spec fn trace_offsets(bytes: Seq<u8>, trace: Seq<Spot>) -> Seq<int> {
    Seq::new(trace.len(), |i: int| boundary_floor(bytes, trace[i].at))
}

/// The names of the labels of a trace.
pub open spec fn trace_names(trace: Seq<Spot>) -> Seq<Seq<char>> {
    Seq::new(trace.len(), |i: int| trace[i].label.text())
}

/// The greatest number of bytes that can lie between the start of a line
/// and an offset into it for `nom::error::convert_error` to set a mark under
/// the offset.  It pads the mark to the column, which it counts from 1, and
/// a padding of more than 65535 is more than formatting takes.
pub const COLUMNS: usize = 65535;

/// The offset at which the line of `at` starts: after the last line feed
/// before `at`, or 0 where there is none.
pub open spec fn line_start(bytes: Seq<u8>, at: int) -> int
    decreases at,
{
    if at <= 0 || at > bytes.len() {
        0
    } else if bytes[at - 1] == '\n' as u8 {
        at
    } else {
        line_start(bytes, at - 1)
    }
}

/// Whether a mark can be set under the offset `at`: fewer than `COLUMNS`
/// bytes lie between the start of its line and `at`.
pub open spec fn fits(bytes: Seq<u8>, at: int) -> bool {
    at - line_start(bytes, at) < COLUMNS
}

/// Whether a mark can be set under each of `offsets`.
pub open spec fn all_fit(bytes: Seq<u8>, offsets: Seq<int>) -> bool {
    forall|i: int| 0 <= i < offsets.len() ==> fits(bytes, #[trigger] offsets[i])
}

/// A line starts at or before each offset into it.
pub proof fn lemma_line_start(bytes: Seq<u8>, at: int)
    requires
        0 <= at,
    ensures
        0 <= line_start(bytes, at) <= at,
    decreases at,
{
    if 0 < at <= bytes.len() && bytes[at - 1] != '\n' as u8 {
        lemma_line_start(bytes, at - 1);
    }
}

/// Whether a mark can be set under the offset `at` of `input`.
pub fn column_fits(input: &str, at: usize) -> (r: bool)
    requires
        at <= bytes_of(input).len(),
    ensures
        r == fits(bytes_of(input), at as int),
{
    let mut cur: usize = at;
    let mut steps: usize = 0;
    while cur > 0 && steps < COLUMNS && byte_at(input, cur - 1) != '\n' as u8
        invariant
            cur <= at <= bytes_of(input).len(),
            steps == at - cur,
            steps <= COLUMNS,
            line_start(bytes_of(input), at as int) == line_start(bytes_of(input), cur as int),
        decreases cur,
    {
        cur = cur - 1;
        steps = steps + 1;
    }
    proof {
        lemma_line_start(bytes_of(input), cur as int);
    }
    steps < COLUMNS
}

/// The character of the decimal digit `d`.
pub open spec fn digit(d: nat) -> char {
    if d == 0 {
        '0'
    } else if d == 1 {
        '1'
    } else if d == 2 {
        '2'
    } else if d == 3 {
        '3'
    } else if d == 4 {
        '4'
    } else if d == 5 {
        '5'
    } else if d == 6 {
        '6'
    } else if d == 7 {
        '7'
    } else if d == 8 {
        '8'
    } else {
        '9'
    }
}

/// The number `n` in decimal digits, without leading zeros.
pub open spec fn decimal(n: nat) -> Seq<char>
    decreases n,
{
    if n < 10 {
        seq![digit(n)]
    } else {
        decimal(n / 10).push(digit(n % 10))
    }
}

/// The decimal digit `d` as a text.
fn digit_text(d: usize) -> (r: &'static str)
    requires
        d < 10,
    ensures
        r@ == seq![digit(d as nat)],
{
    proof {
        reveal_strlit("0");
        reveal_strlit("1");
        reveal_strlit("2");
        reveal_strlit("3");
        reveal_strlit("4");
        reveal_strlit("5");
        reveal_strlit("6");
        reveal_strlit("7");
        reveal_strlit("8");
        reveal_strlit("9");
    }
    let r = if d == 0 {
        "0"
    } else if d == 1 {
        "1"
    } else if d == 2 {
        "2"
    } else if d == 3 {
        "3"
    } else if d == 4 {
        "4"
    } else if d == 5 {
        "5"
    } else if d == 6 {
        "6"
    } else if d == 7 {
        "7"
    } else if d == 8 {
        "8"
    } else {
        "9"
    };
    assert(r@ =~= seq![digit(d as nat)]);
    r
}

/// Write `n` in decimal digits at the end of `text`.
pub fn push_decimal(text: &mut String, n: usize)
    ensures
        final(text)@ == old(text)@ + decimal(n as nat),
    decreases n,
{
    if n >= 10 {
        push_decimal(text, n / 10);
    }
    text.append(digit_text(n % 10));
    proof {
        if n >= 10 {
            assert(old(text)@ + decimal((n / 10) as nat) + seq![digit((n % 10) as nat)] =~= old(
                text,
            )@ + decimal(n as nat));
        }
    }
}

/// One entry of a failure without marks: its place in the trace, the offset
/// in bytes, and the name.
pub open spec fn plain_entry(index: nat, offset: int, name: Seq<char>) -> Seq<char> {
    decimal(index) + ": at byte "@ + decimal(offset as nat) + ", in "@ + name + "\n"@
}

/// The first `count` entries of a failure without marks, one line each: for
/// each `i` the context `names[i]` at the offset `offsets[i]`.
pub open spec fn plain_text(offsets: Seq<int>, names: Seq<Seq<char>>, count: nat) -> Seq<char>
    decreases count,
{
    if count == 0 {
        Seq::empty()
    } else {
        plain_text(offsets, names, (count - 1) as nat) + plain_entry(
            (count - 1) as nat,
            offsets[count - 1],
            names[count - 1],
        )
    }
}

/// A failure without marks, as text.
pub fn plain(offsets: &Vec<usize>, names: &Vec<&'static str>) -> (text: String)
    requires
        offsets.len() == names.len(),
    ensures
        text@ == plain_text(
            Seq::new(offsets.len() as nat, |i: int| offsets[i] as int),
            Seq::new(names.len() as nat, |i: int| names[i]@),
            offsets.len() as nat,
        ),
{
    let ghost places = Seq::new(offsets.len() as nat, |i: int| offsets[i] as int);
    let ghost labels = Seq::new(names.len() as nat, |i: int| names[i]@);
    let mut text = String::new();
    let mut i: usize = 0;
    while i < offsets.len()
        invariant
            i <= offsets.len() == names.len(),
            places == Seq::new(offsets.len() as nat, |i: int| offsets[i] as int),
            labels == Seq::new(names.len() as nat, |i: int| names[i]@),
            text@ == plain_text(places, labels, i as nat),
        decreases offsets.len() - i,
    {
        let ghost before = text@;
        push_decimal(&mut text, i);
        text.append(": at byte ");
        push_decimal(&mut text, offsets[i]);
        text.append(", in ");
        text.append(names[i]);
        text.append("\n");
        proof {
            assert(text@ =~= before + plain_entry(i as nat, places[i as int], labels[i as int]));
        }
        i = i + 1;
    }
    text
}

/// The text that `nom::error::convert_error` makes of `input` and of a
/// failure with a context `names[i]` at the offset `offsets[i]` for each `i`.
pub uninterp spec fn diagnostic_text(
    input: Seq<char>,
    offsets: Seq<int>,
    names: Seq<Seq<char>>,
) -> Seq<char>;

/// Calls `nom::error::convert_error` on `input` and on a `VerboseError` that
/// holds, for each `i`, the rest of `input` from `offsets[i]` on with the
/// context `names[i]`.  The text that comes back depends on these alone; no
/// more is claimed of it.  Each offset has to lie on a character boundary of
/// `input`, as taking the rest of `input` asks, and fewer than `COLUMNS`
/// bytes after the start of its line: the call sets a mark under it, padded
/// to its column, and fails on a wider padding.
#[verifier::external_body]
fn convert_error(input: &str, offsets: &Vec<usize>, names: &Vec<&'static str>) -> (text: String)
    requires
        offsets.len() == names.len(),
        forall|i: int|
            0 <= i < offsets.len() ==> offsets[i] <= bytes_of(input).len() && is_char_boundary(
                bytes_of(input),
                #[trigger] offsets[i] as int,
            ),
        forall|i: int|
            0 <= i < offsets.len() ==> fits(bytes_of(input), #[trigger] offsets[i] as int),
    ensures
        text@ == diagnostic_text(
            input@,
            Seq::new(offsets.len() as nat, |i: int| offsets[i] as int),
            Seq::new(names.len() as nat, |i: int| names[i]@),
        ),
{
    let errors = offsets
        .iter()
        .zip(names.iter())
        .map(|(at, name)| (&input[*at..], nom::error::VerboseErrorKind::Context(*name)))
        .collect();
    nom::error::convert_error(input, nom::error::VerboseError { errors })
}

/// The text of a failure with the trace `trace` in an input of the
/// characters `chars`, which are the bytes `bytes`.  Where a mark can be set
/// under each offset of the trace, it is the text of
/// `nom::error::convert_error`: for each entry the line that it points into,
/// with a mark under the offending character, and the name.  Else it is the
/// text without marks.
pub open spec fn failure_text(chars: Seq<char>, bytes: Seq<u8>, trace: Seq<Spot>) -> Seq<char> {
    if all_fit(bytes, trace_offsets(bytes, trace)) {
        diagnostic_text(chars, trace_offsets(bytes, trace), trace_names(trace))
    } else {
        plain_text(trace_offsets(bytes, trace), trace_names(trace), trace.len())
    }
}

/// The failure `error` of parsing `input`, as text: for each entry of its
/// trace the line of `input` that it points into, with a mark under the
/// offending character, and the name of what was expected or of the
/// production that was active.  Where an entry lies too far into its line
/// for a mark, each entry is its offset and its name instead.
pub fn render(input: &str, error: &ParseError) -> (text: String)
    ensures
        text@ == failure_text(input@, bytes_of(input), error.trace()),
{
    let mut offsets: Vec<usize> = Vec::new();
    let mut names: Vec<&'static str> = Vec::new();
    let mut marked = true;
    let mut i: usize = 0;
    while i < error.marks.len()
        invariant
            i <= error.marks.len(),
            offsets.len() == i,
            names.len() == i,
            forall|k: int|
                0 <= k < i ==> offsets[k] <= bytes_of(input).len() && is_char_boundary(
                    bytes_of(input),
                    #[trigger] offsets[k] as int,
                ),
            forall|k: int|
                0 <= k < i ==> #[trigger] offsets[k] as int == boundary_floor(
                    bytes_of(input),
                    error.marks[k].at as int,
                ),
            forall|k: int| 0 <= k < i ==> (#[trigger] names[k])@ == error.marks[k].label.text(),
            marked == (forall|k: int|
                0 <= k < i ==> fits(bytes_of(input), #[trigger] offsets[k] as int)),
        decreases error.marks.len() - i,
    {
        let mark = error.marks[i];
        let at = floor_boundary(input, mark.at);
        let ghost before = offsets@;
        let ghost so_far = marked;
        if !column_fits(input, at) {
            marked = false;
        }
        offsets.push(at);
        names.push(mark.label.name());
        proof {
            assert(offsets@ =~= before.push(at));
            if marked {
                assert forall|k: int| 0 <= k < i + 1 implies fits(
                    bytes_of(input),
                    #[trigger] offsets[k] as int,
                ) by {
                    if k < i {
                        assert(fits(bytes_of(input), before[k] as int));
                    }
                }
            } else if so_far {
                assert(!fits(bytes_of(input), offsets[i as int] as int));
            } else {
                let k = choose|k: int|
                    0 <= k < i && !fits(bytes_of(input), #[trigger] before[k] as int);
                assert(!fits(bytes_of(input), offsets[k] as int));
            }
        }
        i = i + 1;
    }
    proof {
        let places = trace_offsets(bytes_of(input), error.trace());
        assert(Seq::new(offsets.len() as nat, |i: int| offsets[i] as int) =~= places);
        assert(Seq::new(names.len() as nat, |i: int| names[i]@) =~= trace_names(error.trace()));
        assert(error.trace().len() == offsets.len());
        if marked {
            assert forall|k: int| 0 <= k < places.len() implies fits(
                bytes_of(input),
                #[trigger] places[k],
            ) by {
                assert(fits(bytes_of(input), offsets[k] as int));
            }
        } else {
            let k = choose|k: int|
                0 <= k < offsets.len() && !fits(bytes_of(input), #[trigger] offsets[k] as int);
            assert(!fits(bytes_of(input), places[k]));
        }
    }
    if marked {
        convert_error(input, &offsets, &names)
    } else {
        plain(&offsets, &names)
    }
}

} // verus!
