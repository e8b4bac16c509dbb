//! Storing a native value and reading it back: a row made of parameters, and
//! the laws that tie the two directions of the wire conversion together.

use vstd::prelude::*;
use vstd::string::StringExecFns;
use crate::entity::FetchValue;
use crate::filter::clone_value;
use crate::time::{rfc3339_text, timestamp_of_text, Timestamp};
use crate::update::{assigned_values, assignments_view};
use crate::value::{
    value_to_wasi_datatype, wire_all, wire_of, BuildError, IntoSqlValue, SqlValue, SqlValueView,
};
use crate::wire::{FetchError, Field, FieldView, Row, RowView, WireValue};

verus! {

/// The row that named parameters become: one field for each, under its
/// name and with its wire value, in their order.
pub open spec fn row_of(values: Seq<(Seq<char>, SqlValueView)>, index: Seq<char>) -> Option<RowView> {
    match wire_all(assigned_values(values)) {
        Some(wire) => Some(
            RowView {
                fields: Seq::new(
                    values.len(),
                    |i: int| FieldView { name: values[i].0, value: wire[i] },
                ),
                index,
            },
        ),
        None => None,
    }
}

/// Makes a row of named parameters, as a store hands back what was
/// inserted.
///
/// Fails with `UnsupportedValue` exactly when a parameter has no wire form.
#[verifier::rlimit(40)]
pub fn to_row(values: &Vec<(&'static str, SqlValue)>, index: &str) -> (r: Result<Row, BuildError>)
    ensures
        match row_of(assignments_view(values@), index@) {
            Some(row) => r is Ok && r->Ok_0@ == row,
            None => r == Err::<Row, BuildError>(BuildError::UnsupportedValue),
        },
{
    let ghost model = assignments_view(values@);
    let ghost all = assigned_values(model);
    let mut fields: Vec<Field> = Vec::new();
    let mut i: usize = 0;
    while i < values.len()
        invariant
            i <= values.len(),
            model == assignments_view(values@),
            all == assigned_values(model),
            fields@.len() == i,
            forall|k: int|
                0 <= k < i ==> wire_of(all[k]) is Some && (#[trigger] fields@[k])@ == (FieldView {
                    name: model[k].0,
                    value: wire_of(all[k])->Some_0,
                }),
        decreases values.len() - i,
    {
        proof {
            assert(model[i as int] == (values@[i as int].0@, values@[i as int].1@));
            assert(all[i as int] == values@[i as int].1@);
        }
        match value_to_wasi_datatype(clone_value(&values[i].1)) {
            Ok(value) => {
                fields.push(Field { name: String::from_str(values[i].0), value });
            },
            Err(e) => {
                return Err(e);
            },
        }
        i = i + 1;
    }
    let row = Row { fields, index: String::from_str(index) };
    proof {
        assert forall|k: int| 0 <= k < all.len() implies wire_of(#[trigger] all[k]) is Some by {
            assert(fields@[k]@.name == model[k].0);
        }
        assert(row@.fields =~= row_of(model, index@)->Some_0.fields);
    }
    Ok(row)
}

/// A boolean that was stored under `col` is what fetching `col` gives.
pub proof fn lemma_fetch_stored_bool(x: bool, row: RowView, col: Seq<char>, r: Result<bool, FetchError>)
    requires
        row.value_of(col) == wire_of(x.value_view()),
    ensures
        bool::fetched(row, col, r) <==> r == Ok::<bool, FetchError>(x),
{
}

/// A 32-bit integer that was stored under `col` is what fetching `col` gives.
pub proof fn lemma_fetch_stored_i32(x: i32, row: RowView, col: Seq<char>, r: Result<i32, FetchError>)
    requires
        row.value_of(col) == wire_of(x.value_view()),
    ensures
        i32::fetched(row, col, r) <==> r == Ok::<i32, FetchError>(x),
{
}

/// A 64-bit integer that was stored under `col` is what fetching `col` gives.
pub proof fn lemma_fetch_stored_i64(x: i64, row: RowView, col: Seq<char>, r: Result<i64, FetchError>)
    requires
        row.value_of(col) == wire_of(x.value_view()),
    ensures
        i64::fetched(row, col, r) <==> r == Ok::<i64, FetchError>(x),
{
}

/// An unsigned 32-bit integer that was stored under `col` is what fetching
/// `col` gives.
pub proof fn lemma_fetch_stored_u32(x: u32, row: RowView, col: Seq<char>, r: Result<u32, FetchError>)
    requires
        row.value_of(col) == wire_of(x.value_view()),
    ensures
        u32::fetched(row, col, r) <==> r == Ok::<u32, FetchError>(x),
{
}

/// An unsigned 64-bit integer that was stored under `col` is what fetching
/// `col` gives.
pub proof fn lemma_fetch_stored_u64(x: u64, row: RowView, col: Seq<char>, r: Result<u64, FetchError>)
    requires
        row.value_of(col) == wire_of(x.value_view()),
    ensures
        u64::fetched(row, col, r) <==> r == Ok::<u64, FetchError>(x),
{
}

/// A text that was stored under `col` is the text that fetching `col` gives.
pub proof fn lemma_fetch_stored_string(
    x: String,
    row: RowView,
    col: Seq<char>,
    r: Result<String, FetchError>,
)
    requires
        row.value_of(col) == wire_of(x.value_view()),
    ensures
        String::fetched(row, col, r) <==> (r is Ok && r->Ok_0@ == x@),
{
}

/// Bytes that were stored under `col` are the bytes that fetching `col` gives.
pub proof fn lemma_fetch_stored_bytes(
    x: Vec<u8>,
    row: RowView,
    col: Seq<char>,
    r: Result<Vec<u8>, FetchError>,
)
    requires
        row.value_of(col) == wire_of(x.value_view()),
    ensures
        Vec::<u8>::fetched(row, col, r) <==> (r is Ok && r->Ok_0@ == x@),
{
}

/// In a row whose names are unique, the name of a field leads to its value.
pub proof fn lemma_unique_names_find_each(row: RowView, i: int)
    requires
        row.names_unique(),
        0 <= i < row.fields.len(),
    ensures
        row.value_of(row.fields[i].name) == Some(row.fields[i].value),
{
    crate::wire::lemma_position_is(row, row.fields[i].name, i);
}

/// In a row made of parameters with distinct names, each name leads to
/// the wire value of its parameter.
pub proof fn lemma_row_of_holds(
    values: Seq<(Seq<char>, SqlValueView)>,
    index: Seq<char>,
    i: int,
)
    requires
        0 <= i < values.len(),
        row_of(values, index) is Some,
        forall|a: int, b: int| 0 <= a < b < values.len() ==> values[a].0 != values[b].0,
    ensures
        row_of(values, index)->Some_0.value_of(values[i].0) == wire_of(values[i].1),
{
    let row = row_of(values, index)->Some_0;
    assert(assigned_values(values)[i] == values[i].1);
    assert forall|j: int| 0 <= j < i implies row.fields[j].name != values[i].0 by {
        assert(values[j].0 != values[i].0);
    }
    crate::wire::lemma_position_is(row, values[i].0, i);
}

/// Reading a wire value as a native one and writing that back gives the
/// same wire value, null or not, for booleans, integers, numbers in bit
/// form, texts and bytes. A timestamp that can be read comes back in
/// RFC 3339, where `chrono` can write it.
pub proof fn lemma_wire_round_trip(v: WireValue)
    ensures
        v matches WireValue::Boolean(o) ==> wire_of(o.value_view()) == Some(v),
        v matches WireValue::Int32(o) ==> wire_of(o.value_view()) == Some(v),
        v matches WireValue::Int64(o) ==> wire_of(o.value_view()) == Some(v),
        v matches WireValue::Uint32(o) ==> wire_of(o.value_view()) == Some(v),
        v matches WireValue::Uint64(o) ==> wire_of(o.value_view()) == Some(v),
        v matches WireValue::Float(o) ==> wire_of(SqlValueView::Float(o)) == Some(v),
        v matches WireValue::Double(o) ==> wire_of(SqlValueView::Double(o)) == Some(v),
        v matches WireValue::Str(o) ==> forall|s: Option<String>|
            crate::wire::text_view(s) == o ==> wire_of(#[trigger] s.value_view()) == Some(v),
        v matches WireValue::Binary(o) ==> forall|b: Option<Vec<u8>>|
            crate::wire::bytes_view(b) == o ==> wire_of(#[trigger] b.value_view()) == Some(v),
        v matches WireValue::Timestamp(Some(raw)) ==> (timestamp_of_text(raw) matches Some(t)
            ==> wire_of(t.value_view()) == match rfc3339_text(t.secs, t.nanos) {
            Some(text) => Some(WireValue::Timestamp(Some(text))),
            None => None,
        }),
        v matches WireValue::Timestamp(None) ==> wire_of(
            Option::<Timestamp>::None.value_view(),
        ) == Some(v),
{
}

} // verus!
