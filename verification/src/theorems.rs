//! What holds of the grammar for every input of a kind.

use vstd::prelude::*;
use crate::bytes::{is_alphanumeric, is_blank, is_digit, is_run, lemma_run_len, run_len, ByteClass};
use crate::error::{accepted, failure, refused, SyntaxErrorView};
use crate::field::{
    day_names, is_proper_suffix, lemma_range_consumes, lemma_strip_first_name,
    lemma_value_consumes, month_names, spec_enum, spec_field, spec_list, spec_period,
    spec_range_or_value, spec_value, strip_first_name, FieldKind,
};
use crate::line::{and_then, spec_field_separator, spec_user};
use crate::number::{decimal_text, lemma_decimal_digits};

verus! {

/// The names of a field are made of three lowercase letters each.
pub proof fn lemma_names_are_three_letters(kind: FieldKind)
    ensures
        forall|i: int|
            0 <= i < kind.names().len() ==> {
                let name = #[trigger] kind.names()[i];
                &&& name.len() == 3
                &&& 'a' as u8 <= name[0] <= 'z' as u8
                &&& 'a' as u8 <= name[1] <= 'z' as u8
                &&& 'a' as u8 <= name[2] <= 'z' as u8
            },
{
    assert forall|i: int| 0 <= i < month_names().len() implies {
        let name = #[trigger] month_names()[i];
        &&& name.len() == 3
        &&& 'a' as u8 <= name[0] <= 'z' as u8
        &&& 'a' as u8 <= name[1] <= 'z' as u8
        &&& 'a' as u8 <= name[2] <= 'z' as u8
    } by {}
    assert forall|i: int| 0 <= i < day_names().len() implies {
        let name = #[trigger] day_names()[i];
        &&& name.len() == 3
        &&& 'a' as u8 <= name[0] <= 'z' as u8
        &&& 'a' as u8 <= name[1] <= 'z' as u8
        &&& 'a' as u8 <= name[2] <= 'z' as u8
    } by {}
}

/// No name of a field starts an input that starts with a digit or a sign.
proof fn lemma_no_name_before_letter(kind: FieldKind, input: Seq<u8>)
    requires
        input.len() > 0,
        is_digit(input[0]) || input[0] == '-' as u8,
    ensures
        strip_first_name(input, kind.names()) is None,
{
    lemma_names_are_three_letters(kind);
    lemma_strip_first_name(input, kind.names());
    if let Some(rest) = strip_first_name(input, kind.names()) {
        let i = choose|i: int|
            0 <= i < kind.names().len() && (#[trigger] kind.names()[i]).is_prefix_of(input) && rest
                == input.skip(kind.names()[i].len() as int);
        let name = kind.names()[i];
        assert(name[0] == input.subrange(0, name.len() as int)[0]);
    }
}

/// The value parser of a field accepts the decimal text of every number
/// within the bounds of the field, and leaves what follows the text, where
/// that is no digit.
pub proof fn theorem_value_accepts_number_before(kind: FieldKind, n: int, rest: Seq<u8>)
    requires
        kind.spec_min() <= n <= kind.spec_max(),
        rest.len() > 0 ==> !is_digit(rest[0]),
    ensures
        spec_value(decimal_text(n) + rest, kind) == accepted(rest),
{
    let text = decimal_text(n);
    let input = text + rest;
    lemma_decimal_digits(n as nat);
    lemma_no_name_before_letter(kind, input);
    assert(is_run(input, ByteClass::Digit, text.len()));
    lemma_run_len(input, ByteClass::Digit);
    assert(input.take(text.len() as int) =~= text);
    assert(input.skip(text.len() as int) =~= rest);
}

/// The value parser of a field accepts the decimal text of every number
/// within the bounds of the field, and leaves nothing of it.
pub proof fn theorem_value_accepts_numbers_within_bounds(kind: FieldKind, n: int)
    requires
        kind.spec_min() <= n <= kind.spec_max(),
    ensures
        spec_value(decimal_text(n), kind) == accepted(Seq::empty()),
{
    theorem_value_accepts_number_before(kind, n, Seq::empty());
    assert(decimal_text(n) + Seq::<u8>::empty() =~= decimal_text(n));
}

/// The value parser of a field refuses the decimal text of every number
/// that an `i32` holds and that is outside the bounds of the field, with
/// `ValueOutOfBounds` of that number and of the bounds.
pub proof fn theorem_value_refuses_numbers_out_of_bounds(kind: FieldKind, n: int)
    requires
        0 <= n <= i32::MAX,
        n < kind.spec_min() || n > kind.spec_max(),
    ensures
        spec_value(decimal_text(n), kind) == refused(
            failure(
                SyntaxErrorView::ValueOutOfBounds {
                    value: n,
                    min: kind.spec_min(),
                    max: kind.spec_max(),
                },
                decimal_text(n),
            ),
        ),
{
    let text = decimal_text(n);
    lemma_decimal_digits(n as nat);
    lemma_no_name_before_letter(kind, text);
    assert(text.take(text.len() as int) =~= text);
}

/// The value parser of a field refuses the decimal text of every number
/// that is negative or that no `i32` holds, with `InvalidNumericValue`.
pub proof fn theorem_value_refuses_numbers_out_of_range(kind: FieldKind, n: int)
    requires
        n < 0 || n > i32::MAX,
    ensures
        spec_value(decimal_text(n), kind) == refused(
            failure(SyntaxErrorView::InvalidNumericValue, decimal_text(n)),
        ),
{
    let text = decimal_text(n);
    if n < 0 {
        assert(text[0] == '-' as u8);
        lemma_no_name_before_letter(kind, text);
        assert(run_len(text, ByteClass::Digit) == 0);
    } else {
        lemma_decimal_digits(n as nat);
        lemma_no_name_before_letter(kind, text);
        assert(text.take(text.len() as int) =~= text);
    }
}

/// The value parser of a field accepts each name of the field and leaves
/// what follows the name; where only spaces and tabs follow, the separator
/// parser then leaves nothing.
pub proof fn theorem_value_accepts_names(kind: FieldKind, i: int, rest: Seq<u8>)
    requires
        0 <= i < kind.names().len(),
    ensures
        spec_value(kind.names()[i] + rest, kind) == accepted(rest),
        rest.len() > 0 && (forall|j: int| 0 <= j < rest.len() ==> is_blank(#[trigger] rest[j]))
            ==> and_then(
            spec_value(kind.names()[i] + rest, kind),
            |r: Seq<u8>| spec_field_separator(r),
        ) == accepted(Seq::empty()),
{
    let name = kind.names()[i];
    let input = name + rest;
    lemma_names_are_three_letters(kind);
    lemma_strip_first_name(input, kind.names());
    assert(name.is_prefix_of(input)) by {
        assert(input.subrange(0, name.len() as int) =~= name);
    }
    let found = strip_first_name(input, kind.names());
    assert(found is Some);
    let j = choose|j: int|
        0 <= j < kind.names().len() && (#[trigger] kind.names()[j]).is_prefix_of(input)
            && found->0 == input.skip(kind.names()[j].len() as int);
    assert(input.skip(3) =~= rest);
    if rest.len() > 0 && (forall|j: int| 0 <= j < rest.len() ==> is_blank(#[trigger] rest[j])) {
        assert(is_run(rest, ByteClass::Space, rest.len()));
        lemma_run_len(rest, ByteClass::Space);
        assert(rest.skip(rest.len() as int) =~= Seq::<u8>::empty());
    }
}

/// The period parser accepts `*` alone, and `*/` before the decimal text of
/// every number within the bounds of the field, and leaves nothing of them.
pub proof fn theorem_period_accepts_steps_within_bounds(kind: FieldKind, n: int)
    requires
        kind.spec_min() <= n <= kind.spec_max(),
    ensures
        spec_period(seq!['*' as u8], kind) == accepted(Seq::empty()),
        spec_period(seq!['*' as u8, '/' as u8] + decimal_text(n), kind) == accepted(Seq::empty()),
{
    assert(seq!['*' as u8].skip(1) =~= Seq::<u8>::empty());
    let input = seq!['*' as u8, '/' as u8] + decimal_text(n);
    assert(input.skip(2) =~= decimal_text(n));
    theorem_value_accepts_numbers_within_bounds(kind, n);
}

/// Without a list of permitted names, the user parser accepts every run of
/// letters and digits, and leaves what follows it.
pub proof fn theorem_user_without_list(name: Seq<u8>, rest: Seq<u8>)
    requires
        name.len() > 0,
        forall|i: int| 0 <= i < name.len() ==> is_alphanumeric(#[trigger] name[i]),
        rest.len() > 0 ==> !is_alphanumeric(rest[0]),
    ensures
        spec_user(name + rest, None) == accepted(rest),
{
    let input = name + rest;
    assert(is_run(input, ByteClass::Alphanumeric, name.len()));
    lemma_run_len(input, ByteClass::Alphanumeric);
    assert(input.skip(name.len() as int) =~= rest);
}

/// The text of a value, or of a range from the first number to the second.
pub open spec fn range_text(item: (int, Option<int>)) -> Seq<u8> {
    match item.1 {
        Some(last) => decimal_text(item.0) + seq!['-' as u8] + decimal_text(last),
        None => decimal_text(item.0),
    }
}

/// The texts of `items` with a `,` between each two.
pub open spec fn enum_text(items: Seq<(int, Option<int>)>) -> Seq<u8>
    decreases items.len(),
{
    if items.len() == 0 {
        Seq::empty()
    } else if items.len() == 1 {
        range_text(items[0])
    } else {
        range_text(items[0]) + seq![',' as u8] + enum_text(items.drop_first())
    }
}

/// Whether the numbers of `item` lie within the bounds of `kind`.
pub open spec fn within_bounds(item: (int, Option<int>), kind: FieldKind) -> bool {
    &&& kind.spec_min() <= item.0 <= kind.spec_max()
    &&& item.1 matches Some(last) ==> kind.spec_min() <= last <= kind.spec_max()
}

/// The range parser accepts a number within the bounds of the field, and
/// two such numbers with a `-` between them, in whatever order they stand;
/// it leaves what follows, where that is neither a digit nor a `-`.
pub proof fn theorem_range_accepts_numbers_within_bounds(
    kind: FieldKind,
    item: (int, Option<int>),
    rest: Seq<u8>,
)
    requires
        within_bounds(item, kind),
        rest.len() > 0 ==> !is_digit(rest[0]) && rest[0] != '-' as u8,
    ensures
        spec_range_or_value(range_text(item) + rest, kind) == accepted(rest),
{
    match item.1 {
        Some(last) => {
            let tail = seq!['-' as u8] + decimal_text(last) + rest;
            assert(range_text(item) + rest =~= decimal_text(item.0) + tail);
            theorem_value_accepts_number_before(kind, item.0, tail);
            assert(tail.skip(1) =~= decimal_text(last) + rest);
            theorem_value_accepts_number_before(kind, last, rest);
        },
        None => {
            theorem_value_accepts_number_before(kind, item.0, rest);
        },
    }
}

proof fn lemma_list_accepts(kind: FieldKind, items: Seq<(int, Option<int>)>)
    requires
        items.len() > 0,
        forall|i: int| 0 <= i < items.len() ==> within_bounds(#[trigger] items[i], kind),
    ensures
        spec_list(enum_text(items), kind) == accepted(Seq::empty()),
    decreases items.len(),
{
    if items.len() == 1 {
        theorem_range_accepts_numbers_within_bounds(kind, items[0], Seq::empty());
        assert(range_text(items[0]) + Seq::<u8>::empty() =~= range_text(items[0]));
    } else {
        let others = items.drop_first();
        let tail = seq![',' as u8] + enum_text(others);
        assert(enum_text(items) =~= range_text(items[0]) + tail);
        theorem_range_accepts_numbers_within_bounds(kind, items[0], tail);
        assert(tail.skip(1) =~= enum_text(others));
        assert forall|i: int| 0 <= i < others.len() implies within_bounds(
            #[trigger] others[i],
            kind,
        ) by {
            assert(others[i] == items[i + 1]);
        }
        lemma_list_accepts(kind, others);
    }
}

/// The enumeration parser accepts every list of numbers and ranges within
/// the bounds of the field that is not empty, and leaves nothing of it.
pub proof fn theorem_enum_accepts_lists_within_bounds(
    kind: FieldKind,
    items: Seq<(int, Option<int>)>,
)
    requires
        items.len() > 0,
        forall|i: int| 0 <= i < items.len() ==> within_bounds(#[trigger] items[i], kind),
    ensures
        spec_enum(enum_text(items), kind) == accepted(Seq::empty()),
        spec_field(enum_text(items), kind) == accepted(Seq::empty()),
{
    lemma_list_accepts(kind, items);
    let first = decimal_text(items[0].0);
    lemma_decimal_digits(items[0].0 as nat);
    assert(range_text(items[0])[0] == first[0]);
    assert(enum_text(items)[0] == first[0]);
}

/// A field that is accepted takes at least one byte from the input: what it
/// leaves is the input behind a prefix that is not empty.
pub proof fn theorem_field_leaves_a_suffix(input: Seq<u8>, kind: FieldKind)
    ensures
        spec_value(input, kind) matches Ok(rest) ==> is_proper_suffix(rest, input),
        spec_range_or_value(input, kind) matches Ok(rest) ==> is_proper_suffix(rest, input),
        spec_enum(input, kind) matches Ok(rest) ==> is_proper_suffix(rest, input),
        spec_period(input, kind) matches Ok(rest) ==> is_proper_suffix(rest, input),
        spec_field(input, kind) matches Ok(rest) ==> is_proper_suffix(rest, input),
{
    lemma_value_consumes(input, kind);
    lemma_range_consumes(input, kind);
    lemma_list_consumes(input, kind);
    if input.len() >= 2 {
        lemma_value_consumes(input.skip(2), kind);
        if let Ok(rest) = spec_value(input.skip(2), kind) {
            assert(rest =~= input.skip(input.len() - rest.len()));
        }
    }
}

proof fn lemma_list_consumes(input: Seq<u8>, kind: FieldKind)
    ensures
        spec_list(input, kind) matches Ok(rest) ==> is_proper_suffix(rest, input),
    decreases input.len(),
{
    lemma_range_consumes(input, kind);
    if let Ok(first) = spec_range_or_value(input, kind) {
        if first.len() > 0 && first[0] == ',' as u8 {
            lemma_list_consumes(first.skip(1), kind);
            if let Ok(rest) = spec_list(first.skip(1), kind) {
                assert(rest =~= input.skip(input.len() - rest.len()));
            }
        }
    }
}

} // verus!
