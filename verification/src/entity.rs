//! Reading native values out of rows, and the description of an entity:
//! its table, its columns, and how a row becomes one.

use vstd::prelude::*;
use vstd::string::StringExecFns;
use crate::delete::DeleteBuilder;
use crate::insert::InsertBuilder;
use crate::join::{Join, JoinModel, Order};
use crate::json::{as_json, json_of_bytes, json_of_text, Json};
use crate::select::{joins_view, AliasModel, OrderModel, SelectBuilder, SelectModel};
use crate::time::{as_timestamp, timestamp_of_text, Timestamp};
use crate::update::UpdateBuilder;
use crate::value::{SqlValue, SqlValueView};
use crate::wire::{
    as_binary, as_bool, as_f32, as_f64, as_i32, as_i64, as_string, as_u32, as_u64, is_null,
    row_field, FetchError, FetchErrorView, Row, RowView, WireKind, WireValue,
};

verus! {

/// A type that can be read out of a column of a row.
pub trait FetchValue: Sized {
    /// Whether `r` is a right answer to fetching column `col` of `row`.
    /// Any answer is, unless an implementation says otherwise.
    open spec fn fetched(row: RowView, col: Seq<char>, r: Result<Self, FetchError>) -> bool {
        true
    }

    /// Reads column `col` of `row`.
    fn fetch(row: &Row, col: &str) -> (r: Result<Self, FetchError>)
        ensures
            Self::fetched(row@, col@, r),
    ;
}

/// The answer for a missing column.
pub open spec fn missing<T>(col: Seq<char>, r: Result<T, FetchError>) -> bool {
    r is Err && r->Err_0@ == FetchErrorView::MissingColumn(col)
}

/// The answer for a column that holds `found` where `expected` was asked for.
pub open spec fn mismatched<T>(
    col: Seq<char>,
    expected: WireKind,
    found: WireValue,
    r: Result<T, FetchError>,
) -> bool {
    r is Err && r->Err_0@ == (FetchErrorView::TypeMismatch {
        column: col,
        expected,
        got: found.kind(),
    })
}

impl FetchValue for bool {
    open spec fn fetched(row: RowView, col: Seq<char>, r: Result<bool, FetchError>) -> bool {
        match row.value_of(col) {
            None => missing(col, r),
            Some(WireValue::Boolean(Some(v))) => r == Ok::<bool, FetchError>(v),
            Some(other) => mismatched(col, WireKind::Boolean, other, r),
        }
    }

    fn fetch(row: &Row, col: &str) -> (r: Result<bool, FetchError>) {
        match row_field(row, col) {
            Ok(value) => match as_bool(value) {
                Ok(v) => Ok(v),
                Err(e) => Err(FetchError::from_convert(col, e)),
            },
            Err(e) => Err(e),
        }
    }
}

impl FetchValue for i32 {
    open spec fn fetched(row: RowView, col: Seq<char>, r: Result<i32, FetchError>) -> bool {
        match row.value_of(col) {
            None => missing(col, r),
            Some(WireValue::Int32(Some(v))) => r == Ok::<i32, FetchError>(v),
            Some(other) => mismatched(col, WireKind::Int32, other, r),
        }
    }

    fn fetch(row: &Row, col: &str) -> (r: Result<i32, FetchError>) {
        match row_field(row, col) {
            Ok(value) => match as_i32(value) {
                Ok(v) => Ok(v),
                Err(e) => Err(FetchError::from_convert(col, e)),
            },
            Err(e) => Err(e),
        }
    }
}

impl FetchValue for i64 {
    open spec fn fetched(row: RowView, col: Seq<char>, r: Result<i64, FetchError>) -> bool {
        match row.value_of(col) {
            None => missing(col, r),
            Some(WireValue::Int64(Some(v))) => r == Ok::<i64, FetchError>(v),
            Some(other) => mismatched(col, WireKind::Int64, other, r),
        }
    }

    fn fetch(row: &Row, col: &str) -> (r: Result<i64, FetchError>) {
        match row_field(row, col) {
            Ok(value) => match as_i64(value) {
                Ok(v) => Ok(v),
                Err(e) => Err(FetchError::from_convert(col, e)),
            },
            Err(e) => Err(e),
        }
    }
}

impl FetchValue for u32 {
    open spec fn fetched(row: RowView, col: Seq<char>, r: Result<u32, FetchError>) -> bool {
        match row.value_of(col) {
            None => missing(col, r),
            Some(WireValue::Uint32(Some(v))) => r == Ok::<u32, FetchError>(v),
            Some(other) => mismatched(col, WireKind::Uint32, other, r),
        }
    }

    fn fetch(row: &Row, col: &str) -> (r: Result<u32, FetchError>) {
        match row_field(row, col) {
            Ok(value) => match as_u32(value) {
                Ok(v) => Ok(v),
                Err(e) => Err(FetchError::from_convert(col, e)),
            },
            Err(e) => Err(e),
        }
    }
}

impl FetchValue for u64 {
    open spec fn fetched(row: RowView, col: Seq<char>, r: Result<u64, FetchError>) -> bool {
        match row.value_of(col) {
            None => missing(col, r),
            Some(WireValue::Uint64(Some(v))) => r == Ok::<u64, FetchError>(v),
            Some(other) => mismatched(col, WireKind::Uint64, other, r),
        }
    }

    fn fetch(row: &Row, col: &str) -> (r: Result<u64, FetchError>) {
        match row_field(row, col) {
            Ok(value) => match as_u64(value) {
                Ok(v) => Ok(v),
                Err(e) => Err(FetchError::from_convert(col, e)),
            },
            Err(e) => Err(e),
        }
    }
}

impl FetchValue for String {
    open spec fn fetched(row: RowView, col: Seq<char>, r: Result<String, FetchError>) -> bool {
        match row.value_of(col) {
            None => missing(col, r),
            Some(WireValue::Str(Some(v))) => r is Ok && r->Ok_0@ == v,
            Some(other) => mismatched(col, WireKind::Str, other, r),
        }
    }

    fn fetch(row: &Row, col: &str) -> (r: Result<String, FetchError>) {
        match row_field(row, col) {
            Ok(value) => match as_string(value) {
                Ok(v) => Ok(v),
                Err(e) => Err(FetchError::from_convert(col, e)),
            },
            Err(e) => Err(e),
        }
    }
}

impl FetchValue for Vec<u8> {
    open spec fn fetched(row: RowView, col: Seq<char>, r: Result<Vec<u8>, FetchError>) -> bool {
        match row.value_of(col) {
            None => missing(col, r),
            Some(WireValue::Binary(Some(v))) => r is Ok && r->Ok_0@ == v,
            Some(other) => mismatched(col, WireKind::Binary, other, r),
        }
    }

    fn fetch(row: &Row, col: &str) -> (r: Result<Vec<u8>, FetchError>) {
        match row_field(row, col) {
            Ok(value) => match as_binary(value) {
                Ok(v) => Ok(v),
                Err(e) => Err(FetchError::from_convert(col, e)),
            },
            Err(e) => Err(e),
        }
    }
}

impl FetchValue for Timestamp {
    open spec fn fetched(row: RowView, col: Seq<char>, r: Result<Timestamp, FetchError>) -> bool {
        match row.value_of(col) {
            None => missing(col, r),
            Some(WireValue::Timestamp(Some(raw))) => match timestamp_of_text(raw) {
                Some(t) => r == Ok::<Timestamp, FetchError>(t),
                None => r is Err && r->Err_0@ == FetchErrorView::UnsupportedTimestamp(raw),
            },
            Some(other) => mismatched(col, WireKind::Timestamp, other, r),
        }
    }

    fn fetch(row: &Row, col: &str) -> (r: Result<Timestamp, FetchError>) {
        match row_field(row, col) {
            Ok(value) => match as_timestamp(value) {
                Ok(v) => Ok(v),
                Err(e) => Err(FetchError::from_convert(col, e)),
            },
            Err(e) => Err(e),
        }
    }
}

impl FetchValue for Json {
    open spec fn fetched(row: RowView, col: Seq<char>, r: Result<Json, FetchError>) -> bool {
        match row.value_of(col) {
            None => missing(col, r),
            Some(WireValue::Str(Some(raw))) => match json_of_text(raw) {
                Some(doc) => r == Ok::<Json, FetchError>(doc),
                None => r is Err && r->Err_0@ == FetchErrorView::InvalidJson(col),
            },
            Some(WireValue::Binary(Some(bytes))) => match json_of_bytes(bytes) {
                Some(doc) => r == Ok::<Json, FetchError>(doc),
                None => r is Err && r->Err_0@ == FetchErrorView::InvalidJson(col),
            },
            Some(other) => mismatched(col, WireKind::Json, other, r),
        }
    }

    fn fetch(row: &Row, col: &str) -> (r: Result<Json, FetchError>) {
        match row_field(row, col) {
            Ok(value) => match as_json(value) {
                Ok(v) => Ok(v),
                Err(e) => Err(FetchError::from_convert(col, e)),
            },
            Err(e) => Err(e),
        }
    }
}

impl<T: FetchValue> FetchValue for Option<T> {
    /// A missing column is an error and a null gives `None`; any other
    /// value is read as `T`.
    open spec fn fetched(row: RowView, col: Seq<char>, r: Result<Option<T>, FetchError>) -> bool {
        match row.value_of(col) {
            None => missing(col, r),
            Some(found) => if found.is_null() {
                r is Ok && r->Ok_0 is None
            } else {
                match r {
                    Ok(Some(v)) => T::fetched(row, col, Ok(v)),
                    Ok(None) => false,
                    Err(e) => T::fetched(row, col, Err(e)),
                }
            },
        }
    }

    fn fetch(row: &Row, col: &str) -> (r: Result<Option<T>, FetchError>) {
        match row_field(row, col) {
            Ok(field) => {
                if !is_null(field) {
                    match T::fetch(row, col) {
                        Ok(v) => Ok(Some(v)),
                        Err(e) => Err(e),
                    }
                } else {
                    Ok(None)
                }
            },
            Err(e) => Err(e),
        }
    }
}

/// The bit pattern of the single-precision number in column `col` of `row`.
pub fn fetch_f32_bits(row: &Row, col: &str) -> (r: Result<u32, FetchError>)
    ensures
        match row@.value_of(col@) {
            None => missing(col@, r),
            Some(WireValue::Float(Some(v))) => r == Ok::<u32, FetchError>(v),
            Some(other) => mismatched(col@, WireKind::Float, other, r),
        },
{
    match row_field(row, col) {
        Ok(value) => match as_f32(value) {
            Ok(v) => Ok(v),
            Err(e) => Err(FetchError::from_convert(col, e)),
        },
        Err(e) => Err(e),
    }
}

/// The bit pattern of the double-precision number in column `col` of `row`.
pub fn fetch_f64_bits(row: &Row, col: &str) -> (r: Result<u64, FetchError>)
    ensures
        match row@.value_of(col@) {
            None => missing(col@, r),
            Some(WireValue::Double(Some(v))) => r == Ok::<u64, FetchError>(v),
            Some(other) => mismatched(col@, WireKind::Double, other, r),
        },
{
    match row_field(row, col) {
        Ok(value) => match as_f64(value) {
            Ok(v) => Ok(v),
            Err(e) => Err(FetchError::from_convert(col, e)),
        },
        Err(e) => Err(e),
    }
}

/// An ordering that an entity asks for by default.
#[derive(Debug, Clone, Copy, PartialEq, Eq)]
pub struct OrderSpec {
    pub table: Option<&'static str>,
    pub column: &'static str,
    pub order: Order,
}

/// The orderings of a list of order specifications, item by item.
pub open spec fn orderings_view(specs: Seq<OrderSpec>) -> Seq<OrderModel> {
    Seq::new(
        specs.len(),
        |i: int|
            OrderModel {
                table: crate::filter::table_view(specs[i].table),
                column: specs[i].column@,
                dir: specs[i].order,
            },
    )
}

/// The views of a list of names, item by item.
pub open spec fn field_names(names: Seq<&'static str>) -> Seq<Seq<char>> {
    Seq::new(names.len(), |i: int| names[i]@)
}

/// The views of a list of column specifications, item by item: each a
/// field, a table and a column.
pub open spec fn sources_view(specs: Seq<(&'static str, &'static str, &'static str)>) -> Seq<
    (Seq<char>, Seq<char>, Seq<char>),
> {
    Seq::new(specs.len(), |i: int| (specs[i].0@, specs[i].1@, specs[i].2@))
}

/// The table and column that a field comes from, where `specs` names them:
/// each item of `specs` is a field, a table and a column, and the first
/// item of a field counts.
pub open spec fn source_of(
    specs: Seq<(Seq<char>, Seq<char>, Seq<char>)>,
    field: Seq<char>,
    from: int,
) -> Option<(Seq<char>, Seq<char>)>
    decreases specs.len() - from,
{
    if from < 0 || from >= specs.len() {
        None
    } else if specs[from].0 == field {
        Some((specs[from].1, specs[from].2))
    } else {
        source_of(specs, field, from + 1)
    }
}

/// Of the first `n` fields, those that `specs` does not name: the columns
/// of the entity's own table, in their order.
pub open spec fn own_columns(
    fields: Seq<Seq<char>>,
    specs: Seq<(Seq<char>, Seq<char>, Seq<char>)>,
    n: nat,
) -> Seq<Seq<char>>
    decreases n,
{
    if n == 0 || n > fields.len() {
        Seq::<Seq<char>>::empty()
    } else {
        let before = own_columns(fields, specs, (n - 1) as nat);
        match source_of(specs, fields[n - 1], 0) {
            Some(_) => before,
            None => before.push(fields[n - 1]),
        }
    }
}

/// Of the first `n` fields, those that `specs` names: each the column of
/// a joined table under the name of the field, in their order.
pub open spec fn joined_columns(
    fields: Seq<Seq<char>>,
    specs: Seq<(Seq<char>, Seq<char>, Seq<char>)>,
    n: nat,
) -> Seq<AliasModel>
    decreases n,
{
    if n == 0 || n > fields.len() {
        Seq::<AliasModel>::empty()
    } else {
        let before = joined_columns(fields, specs, (n - 1) as nat);
        match source_of(specs, fields[n - 1], 0) {
            Some((table, column)) => before.push(
                AliasModel { alias: fields[n - 1], table, column },
            ),
            None => before,
        }
    }
}

/// The `SELECT` of an entity: from its table, its own columns, the fields
/// of joined tables under their names, its joins and its orderings; no
/// filter, no limit and no offset.
pub open spec fn entity_select(
    table: Seq<char>,
    fields: Seq<Seq<char>>,
    specs: Seq<(Seq<char>, Seq<char>, Seq<char>)>,
    joins: Seq<JoinModel>,
    order: Seq<OrderModel>,
) -> SelectModel {
    SelectModel {
        table,
        columns: own_columns(fields, specs, fields.len()),
        aliases: joined_columns(fields, specs, fields.len()),
        filters: Seq::<crate::filter::FilterModel>::empty(),
        limit: None,
        offset: None,
        order,
        joins,
    }
}

/// Whether a list is the one that an entity declares, or holds nothing.
/// It is what a method gives that an entity may leave at its default: the
/// default gives an empty list, whatever the entity declares.
pub open spec fn declared_or_none<A>(got: Seq<A>, declared: Seq<A>) -> bool {
    got == declared || got.len() == 0
}

/// Finds the table and column that `field` comes from.
pub fn find_source(specs: &Vec<(&'static str, &'static str, &'static str)>, field: &str) -> (r:
    Option<(&'static str, &'static str)>)
    ensures
        match r {
            Some((table, column)) => source_of(sources_view(specs@), field@, 0) == Some(
                (table@, column@),
            ),
            None => source_of(sources_view(specs@), field@, 0) is None,
        },
{
    let ghost model = sources_view(specs@);
    let mut i: usize = 0;
    while i < specs.len()
        invariant
            i <= specs.len(),
            model == sources_view(specs@),
            source_of(model, field@, 0) == source_of(model, field@, i as int),
        decreases specs.len() - i,
    {
        proof {
            assert(model[i as int] == (specs@[i as int].0@, specs@[i as int].1@, specs@[i as int].2@));
        }
        if crate::host::same_text(specs[i].0, field) {
            return Some((specs[i].1, specs[i].2));
        }
        i = i + 1;
    }
    None
}

/// A `SELECT` from `table` of the fields `fields`: those that `specs` does
/// not name as columns of the table, those that it names as columns of a
/// joined table under the name of the field; with the joins `joins` and the
/// orderings `orderings`, each in their order.
#[verifier::rlimit(40)]
pub fn select_from(
    table: &'static str,
    fields: Vec<&'static str>,
    specs: Vec<(&'static str, &'static str, &'static str)>,
    joins: Vec<Join>,
    orderings: Vec<OrderSpec>,
) -> (r: SelectBuilder)
    ensures
        r@ == entity_select(
            table@,
            field_names(fields@),
            sources_view(specs@),
            joins_view(joins@),
            orderings_view(orderings@),
        ),
{
    let ghost names = field_names(fields@);
    let ghost sources = sources_view(specs@);
    let mut own: Vec<&'static str> = Vec::new();
    let mut i: usize = 0;
    proof {
        assert(field_names(own@) =~= own_columns(names, sources, 0));
    }
    while i < fields.len()
        invariant
            i <= fields.len(),
            names == field_names(fields@),
            sources == sources_view(specs@),
            field_names(own@) == own_columns(names, sources, i as nat),
        decreases fields.len() - i,
    {
        let ghost before = field_names(own@);
        proof {
            assert(names[i as int] == fields@[i as int]@);
        }
        if find_source(&specs, fields[i]).is_none() {
            own.push(fields[i]);
            proof {
                assert(field_names(own@) =~= before.push(names[i as int]));
            }
        }
        i = i + 1;
    }
    let ghost columns = own_columns(names, sources, names.len());
    let mut builder = SelectBuilder::new(table).columns(own);
    proof {
        assert(builder@.columns =~= columns);
    }
    let mut k: usize = 0;
    while k < fields.len()
        invariant
            k <= fields.len(),
            names == field_names(fields@),
            sources == sources_view(specs@),
            builder@ == entity_select(
                table@,
                names,
                sources,
                Seq::<JoinModel>::empty(),
                Seq::<OrderModel>::empty(),
            ).with_aliases(joined_columns(names, sources, k as nat)),
        decreases fields.len() - k,
    {
        proof {
            assert(names[k as int] == fields@[k as int]@);
        }
        match find_source(&specs, fields[k]) {
            Some((table, column)) => {
                builder = builder.alias(table, column, fields[k]);
            },
            None => {},
        }
        k = k + 1;
    }
    let ghost wanted = joins_view(joins@);
    let mut rest = crate::vecs::reversed(joins);
    let ghost mut done: int = 0;
    proof {
        assert(wanted.take(0) =~= Seq::<JoinModel>::empty());
    }
    while rest.len() > 0
        invariant
            0 <= done <= wanted.len(),
            done + rest@.len() == wanted.len(),
            forall|i: int|
                0 <= i < rest@.len() ==> (#[trigger] rest@[i])@ == wanted[wanted.len() - 1
                    - i],
            builder@ == entity_select(
                table@,
                names,
                sources,
                wanted.take(done),
                Seq::<OrderModel>::empty(),
            ),
        decreases rest.len(),
    {
        let join = rest.pop().unwrap();
        builder = builder.join(join);
        proof {
            assert(wanted.take(done + 1) =~= wanted.take(done).push(wanted[done]));
            done = done + 1;
        }
    }
    proof {
        assert(wanted.take(wanted.len() as int) =~= wanted);
    }
    let ghost order = orderings_view(orderings@);
    let mut j: usize = 0;
    proof {
        assert(order.take(0) =~= Seq::<OrderModel>::empty());
    }
    while j < orderings.len()
        invariant
            j <= orderings.len(),
            order == orderings_view(orderings@),
            builder@ == entity_select(
                table@,
                names,
                sources,
                wanted,
                order.take(j as int),
            ),
        decreases orderings.len() - j,
    {
        let spec = &orderings[j];
        proof {
            assert(order[j as int] == (OrderModel {
                table: crate::filter::table_view(spec.table),
                column: spec.column@,
                dir: spec.order,
            }));
            assert(order.take(j + 1) =~= order.take(j as int).push(order[j as int]));
        }
        builder = match spec.table {
            Some(table) => builder.order_by_in(table, spec.column, spec.order),
            None => builder.order_by(spec.column, spec.order),
        };
        j = j + 1;
    }
    proof {
        assert(order.take(order.len() as int) =~= order);
        assert(builder@ == entity_select(
            table@,
            names,
            sources,
            wanted,
            order,
        ));
    }
    builder
}

/// A database entity: a type that stands for the rows of one table.
pub trait Entity: Sized {
    /// The name of the entity's table. An implementation that does not say
    /// leaves it open.
    open spec fn table_name() -> Seq<char> {
        arbitrary()
    }

    /// The names of the entity's columns. An implementation that does not
    /// say leaves them open.
    open spec fn column_names() -> Seq<Seq<char>> {
        arbitrary()
    }

    /// The orderings that a `SELECT` of the entity starts with. None,
    /// unless an implementation says otherwise.
    open spec fn default_ordering() -> Seq<OrderModel> {
        Seq::<OrderModel>::empty()
    }

    /// The joins that a `SELECT` of the entity starts with. None, unless
    /// an implementation says otherwise.
    open spec fn default_joins() -> Seq<JoinModel> {
        Seq::<JoinModel>::empty()
    }

    /// The fields that come from a joined table, each with its table and
    /// its column there. None, unless an implementation says otherwise.
    open spec fn sources() -> Seq<(Seq<char>, Seq<char>, Seq<char>)> {
        Seq::<(Seq<char>, Seq<char>, Seq<char>)>::empty()
    }

    /// The name of the entity's table.
    fn table() -> (r: &'static str)
        ensures
            r@ == Self::table_name(),
    ;

    /// The names of the entity's columns, in the order of its fields.
    fn columns() -> (r: Vec<&'static str>)
        ensures
            field_names(r@) == Self::column_names(),
    ;

    /// The orderings of a `SELECT` of the entity: those that the entity
    /// declares, and none by default.
    fn ordering() -> (r: Vec<OrderSpec>)
        ensures
            declared_or_none(orderings_view(r@), Self::default_ordering()),
        default_ensures
            r@.len() == 0,
    {
        Vec::new()
    }

    /// The joins of a `SELECT` of the entity: those that the entity
    /// declares, and none by default.
    fn joins() -> (r: Vec<Join>)
        ensures
            declared_or_none(joins_view(r@), Self::default_joins()),
        default_ensures
            r@.len() == 0,
    {
        Vec::new()
    }

    /// The fields that come from a joined table, each with its table and
    /// its column there: those that the entity declares, and none by
    /// default. A field that is not listed is a column of the entity's own
    /// table.
    fn column_specs() -> (r: Vec<(&'static str, &'static str, &'static str)>)
        ensures
            declared_or_none(sources_view(r@), Self::sources()),
        default_ensures
            r@.len() == 0,
    {
        Vec::new()
    }

    /// What [`from_row`](Self::from_row) makes of a row. An implementation
    /// that does not say leaves it open.
    open spec fn decoded(row: RowView, r: Result<Self, FetchError>) -> bool {
        true
    }

    /// Makes an entity of a row: each field from the column of its name,
    /// and the first failure where one cannot be read.
    fn from_row(row: &Row) -> (r: Result<Self, FetchError>)
        ensures
            Self::decoded(row@, r),
    ;

    /// A `SELECT` of the entity from its table: its own columns, the
    /// fields of joined tables under their names, its joins and orderings,
    /// each list as the entity declares it or, left at its default, empty.
    fn select() -> (r: SelectBuilder)
        ensures
            exists|
                specs: Seq<(Seq<char>, Seq<char>, Seq<char>)>,
                joins: Seq<JoinModel>,
                order: Seq<OrderModel>,
            |
                declared_or_none(specs, Self::sources()) && declared_or_none(
                    joins,
                    Self::default_joins(),
                ) && declared_or_none(order, Self::default_ordering()) && r@
                    == #[trigger] entity_select(
                    Self::table_name(),
                    Self::column_names(),
                    specs,
                    joins,
                    order,
                ),
    {
        let specs = Self::column_specs();
        let joins = Self::joins();
        let orderings = Self::ordering();
        let r = select_from(Self::table(), Self::columns(), specs, joins, orderings);
        proof {
            assert(r@ == entity_select(
                Self::table_name(),
                Self::column_names(),
                sources_view(specs@),
                joins_view(joins@),
                orderings_view(orderings@),
            ));
        }
        r
    }

    /// An `INSERT` of this entity's values into its table.
    fn insert(&self) -> (r: InsertBuilder) where Self: EntityValues
        ensures
            r@ == (crate::insert::InsertModel {
                table: Self::table_name(),
                values: self.values(),
                conflict: None,
                action: None,
            }),
    {
        InsertBuilder::from_entity(Self::table(), self)
    }

    /// An `UPDATE` on the entity's table, without assignments or filters.
    fn update() -> (r: UpdateBuilder)
        ensures
            r@ == (crate::update::UpdateModel {
                table: Self::table_name(),
                sets: Seq::<(Seq<char>, SqlValueView)>::empty(),
                filters: Seq::<crate::filter::FilterModel>::empty(),
            }),
    {
        UpdateBuilder::new(Self::table())
    }

    /// A `DELETE` on the entity's table, without filters.
    fn delete() -> (r: DeleteBuilder)
        ensures
            r@ == (crate::delete::DeleteModel {
                table: Self::table_name(),
                filters: Seq::<crate::filter::FilterModel>::empty(),
                returning: Seq::<Seq<char>>::empty(),
            }),
    {
        DeleteBuilder::new(Self::table())
    }
}

/// An entity that can hand out its values, column by column, in the order
/// of its fields.
pub trait EntityValues {
    /// The columns and values of the entity. An implementation that does
    /// not say leaves them open.
    open spec fn values(&self) -> Seq<(Seq<char>, SqlValueView)> {
        arbitrary()
    }

    /// Hands out the columns and values of the entity.
    fn __to_values(&self) -> (r: Vec<(&'static str, SqlValue)>)
        ensures
            crate::update::assignments_view(r@) == self.values(),
    ;
}

} // verus!
