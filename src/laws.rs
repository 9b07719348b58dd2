//! What lookup by name guarantees, stated over the registry's fields.
use vstd::prelude::*;

use crate::registry::{
    assign_index, get_string_spec, lookup, set_str_spec, typed_index, unique_names, visible_as,
    well_formed, with_value,
    ErrorView, FieldView,
};
use crate::number::IntError;
use crate::typed::CvarType;
use crate::value::{
    format_spec, lemma_parse_format, same_type, ParseFailure, ValueView,
};

verus! {

/// With unique names, lookup by the name of a field that is not skipped
/// finds that field.
pub proof fn lemma_lookup_finds(fs: Seq<FieldView>, i: int)
    requires
        unique_names(fs),
        0 <= i < fs.len(),
        !fs[i].skip,
    ensures
        lookup(fs, fs[i].name) == Some(i),
{
    assert(visible_as(fs, fs[i].name, i));
    let j = choose|j: int| visible_as(fs, fs[i].name, j);
    assert(fs[j].name == fs[i].name);
}

/// Writing the text of a variable's value back to it succeeds and changes
/// nothing, and reading it as text then gives that same text.
pub proof fn lemma_text_round_trip(fs: Seq<FieldView>, i: int)
    requires
        well_formed(fs),
        0 <= i < fs.len(),
        !fs[i].skip,
    ensures
        set_str_spec(fs, fs[i].name, format_spec(fs[i].value)) == Ok::<
            Seq<FieldView>,
            ErrorView,
        >(fs),
        get_string_spec(fs, fs[i].name) == Ok::<Seq<char>, ErrorView>(format_spec(fs[i].value)),
{
    lemma_lookup_finds(fs, i);
    lemma_parse_format(fs[i].value);
    assert(fs.update(i, FieldView { value: fs[i].value, ..fs[i] }) =~= fs);
}

/// Reading a variable with a type succeeds exactly where the variable holds
/// a value of that type; otherwise it fails with a type error naming the
/// variable and the type.
pub proof fn lemma_typed_get<T: CvarType>(fs: Seq<FieldView>, i: int)
    requires
        well_formed(fs),
        0 <= i < fs.len(),
        !fs[i].skip,
    ensures
        typed_index::<T>(fs, fs[i].name) is Some <==> T::holds(fs[i].value),
        typed_index::<T>(fs, fs[i].name) is Some ==> typed_index::<T>(fs, fs[i].name) == Some(i),
{
    lemma_lookup_finds(fs, i);
}

/// Writing a value to a variable succeeds exactly where the value has the
/// variable's type.
pub proof fn lemma_typed_set(fs: Seq<FieldView>, i: int, v: ValueView)
    requires
        well_formed(fs),
        0 <= i < fs.len(),
        !fs[i].skip,
    ensures
        assign_index(fs, fs[i].name, v) is Some <==> same_type(fs[i].value, v),
        assign_index(fs, fs[i].name, v) is Some ==> assign_index(fs, fs[i].name, v) == Some(i),
{
    lemma_lookup_finds(fs, i);
}

/// A value written with its own type reads back with that type, unchanged.
pub proof fn lemma_typed_set_then_get<T: CvarType>(fs: Seq<FieldView>, i: int, x: T)
    requires
        well_formed(fs),
        0 <= i < fs.len(),
        !fs[i].skip,
        same_type(fs[i].value, T::value_of(x)),
    ensures
        assign_index(fs, fs[i].name, T::value_of(x)) == Some(i),
        typed_index::<T>(with_value(fs, i, T::value_of(x)), fs[i].name) == Some(i),
        with_value(fs, i, T::value_of(x))[i].value == T::value_of(x),
{
    let gs = with_value(fs, i, T::value_of(x));
    lemma_lookup_finds(fs, i);
    assert forall|a: int, b: int|
        0 <= a < gs.len() && 0 <= b < gs.len() && a != b implies #[trigger] gs[a].name
        != #[trigger] gs[b].name by {
        assert(gs[a].name == fs[a].name);
        assert(gs[b].name == fs[b].name);
    }
    lemma_lookup_finds(gs, i);
    T::lemma_holds(x);
}

/// A skipped variable is invisible to lookup by name: reading or writing it,
/// by text or by type, fails as for a name that does not exist.
pub proof fn lemma_skipped_hidden<T: CvarType>(
    fs: Seq<FieldView>,
    i: int,
    text: Seq<char>,
    v: ValueView,
)
    requires
        well_formed(fs),
        0 <= i < fs.len(),
        fs[i].skip,
    ensures
        lookup(fs, fs[i].name) is None,
        get_string_spec(fs, fs[i].name) == Err::<Seq<char>, ErrorView>(
            ErrorView::NotFound(fs[i].name),
        ),
        set_str_spec(fs, fs[i].name, text) == Err::<Seq<FieldView>, ErrorView>(
            ErrorView::NotFound(fs[i].name),
        ),
        typed_index::<T>(fs, fs[i].name) is None,
        assign_index(fs, fs[i].name, v) is None,
{
    if exists|j: int| visible_as(fs, fs[i].name, j) {
        let j = choose|j: int| visible_as(fs, fs[i].name, j);
        assert(fs[j].name == fs[i].name);
    }
}

/// A name that lookup does not find is reported, by reading and by writing,
/// as not found.
pub proof fn lemma_unknown_name(fs: Seq<FieldView>, name: Seq<char>, text: Seq<char>)
    requires
        forall|i: int| 0 <= i < fs.len() ==> #[trigger] fs[i].name != name,
    ensures
        get_string_spec(fs, name) == Err::<Seq<char>, ErrorView>(ErrorView::NotFound(name)),
        set_str_spec(fs, name, text) == Err::<Seq<FieldView>, ErrorView>(
            ErrorView::NotFound(name),
        ),
{
    assert(!exists|j: int| visible_as(fs, name, j));
}

/// A boolean variable takes `true` from `true`, `t` and `1`, and `false`
/// from `false`, `f` and `0`.
pub proof fn lemma_bool_texts(fs: Seq<FieldView>, i: int)
    requires
        well_formed(fs),
        0 <= i < fs.len(),
        !fs[i].skip,
        fs[i].value is Bool,
    ensures
        forall|t: Seq<char>|
            t == "true"@ || t == "t"@ || t == "1"@ ==> set_str_spec(fs, fs[i].name, t) == Ok::<
                Seq<FieldView>,
                ErrorView,
            >(fs.update(i, FieldView { value: ValueView::Bool(true), ..fs[i] })),
        forall|t: Seq<char>|
            t == "false"@ || t == "f"@ || t == "0"@ ==> set_str_spec(fs, fs[i].name, t) == Ok::<
                Seq<FieldView>,
                ErrorView,
            >(fs.update(i, FieldView { value: ValueView::Bool(false), ..fs[i] })),
{
    lemma_lookup_finds(fs, i);
    reveal_strlit("true");
    reveal_strlit("t");
    reveal_strlit("1");
    reveal_strlit("false");
    reveal_strlit("f");
    reveal_strlit("0");
}

/// Text that is not a number, written to an `i32` variable, fails with a
/// parse error that names the variable, the text and the type, and leaves the
/// variables as they were.
pub proof fn lemma_malformed_int(fs: Seq<FieldView>, i: int)
    requires
        well_formed(fs),
        0 <= i < fs.len(),
        !fs[i].skip,
        fs[i].value is I32,
    ensures
        set_str_spec(fs, fs[i].name, "not a num"@) == Err::<Seq<FieldView>, ErrorView>(
            ErrorView::Parse(
                fs[i].name,
                "not a num"@,
                "i32"@,
                ParseFailure::Int(IntError::InvalidDigit),
            ),
        ),
{
    lemma_lookup_finds(fs, i);
    reveal_strlit("not a num");
}

} // verus!
