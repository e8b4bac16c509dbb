//! The filter algebra: comparison leaves over columns, combined by `And`,
//! `Or` and `Not`, and the SQL text and parameters that a filter becomes.

use vstd::prelude::*;
use vstd::string::StringExecFns;
use crate::text::{
    placeholder, push_placeholder, push_quoted_column, quoted_column_text,
};
use crate::value::{values_view, IntoSqlValue, SqlValue, SqlValueView};
use crate::vecs::reversed;

verus! {

/// A predicate over the rows of a query.
///
/// A comparison leaf names its column and, optionally, the table that
/// qualifies it; without one, the table of the statement that holds the
/// filter is used.
#[derive(Debug)]
pub enum Filter {
    /// `[table.]column = value`
    Eq(Option<&'static str>, &'static str, SqlValue),
    /// `[table.]column > value`
    Gt(Option<&'static str>, &'static str, SqlValue),
    /// `[table.]column < value`
    Lt(Option<&'static str>, &'static str, SqlValue),
    /// `[table.]column <= value`
    Lte(Option<&'static str>, &'static str, SqlValue),
    /// `[table.]column IN (values)`
    In(Option<&'static str>, &'static str, Vec<SqlValue>),
    /// `[table.]column IS NULL`
    IsNull(Option<&'static str>, &'static str),
    /// `[table.]column IS NOT NULL`
    IsNotNull(Option<&'static str>, &'static str),
    /// `[table.]column LIKE pattern`
    Like(Option<&'static str>, &'static str, String),
    /// `table1.column1 = table2.column2`
    ColEq(&'static str, &'static str, &'static str, &'static str),
    /// All of the filters hold; none at all is true.
    And(Vec<Filter>),
    /// One of the filters holds; none at all is false.
    Or(Vec<Filter>),
    /// The filter does not hold.
    Not(Box<Filter>),
}

/// What a [`Filter`] holds, as mathematical values.
pub enum FilterModel {
    Eq(Option<Seq<char>>, Seq<char>, SqlValueView),
    Gt(Option<Seq<char>>, Seq<char>, SqlValueView),
    Lt(Option<Seq<char>>, Seq<char>, SqlValueView),
    Lte(Option<Seq<char>>, Seq<char>, SqlValueView),
    In(Option<Seq<char>>, Seq<char>, Seq<SqlValueView>),
    IsNull(Option<Seq<char>>, Seq<char>),
    IsNotNull(Option<Seq<char>>, Seq<char>),
    Like(Option<Seq<char>>, Seq<char>, Seq<char>),
    ColEq(Seq<char>, Seq<char>, Seq<char>, Seq<char>),
    And(Seq<FilterModel>),
    Or(Seq<FilterModel>),
    Not(Box<FilterModel>),
}

/// The view of an optional table name.
pub open spec fn table_view(table: Option<&'static str>) -> Option<Seq<char>> {
    match table {
        Some(t) => Some(t@),
        None => None,
    }
}

/// The model of a filter.
pub open spec fn filter_model(f: Filter) -> FilterModel
    decreases f, 0nat,
{
    match f {
        Filter::Eq(t, c, v) => FilterModel::Eq(table_view(t), c@, v@),
        Filter::Gt(t, c, v) => FilterModel::Gt(table_view(t), c@, v@),
        Filter::Lt(t, c, v) => FilterModel::Lt(table_view(t), c@, v@),
        Filter::Lte(t, c, v) => FilterModel::Lte(table_view(t), c@, v@),
        Filter::In(t, c, vs) => FilterModel::In(table_view(t), c@, values_view(vs@)),
        Filter::IsNull(t, c) => FilterModel::IsNull(table_view(t), c@),
        Filter::IsNotNull(t, c) => FilterModel::IsNotNull(table_view(t), c@),
        Filter::Like(t, c, p) => FilterModel::Like(table_view(t), c@, p@),
        Filter::ColEq(t1, c1, t2, c2) => FilterModel::ColEq(t1@, c1@, t2@, c2@),
        Filter::And(fs) => FilterModel::And(filter_models(fs@, fs@.len())),
        Filter::Or(fs) => FilterModel::Or(filter_models(fs@, fs@.len())),
        Filter::Not(inner) => FilterModel::Not(Box::new(filter_model(*inner))),
    }
}

/// The models of the first `n` of the filters `fs`.
pub open spec fn filter_models(fs: Seq<Filter>, n: nat) -> Seq<FilterModel>
    decreases fs, n,
{
    if n == 0 || n > fs.len() {
        Seq::<FilterModel>::empty()
    } else {
        filter_models(fs, (n - 1) as nat).push(filter_model(fs[n - 1]))
    }
}

impl View for Filter {
    type V = FilterModel;

    open spec fn view(&self) -> FilterModel {
        filter_model(*self)
    }
}

/// The models of a list of filters, item by item.
pub open spec fn filters_view(fs: Seq<Filter>) -> Seq<FilterModel> {
    filter_models(fs, fs.len())
}

/// The models of the first `n` filters are the models of each of them.
pub proof fn lemma_filter_models(fs: Seq<Filter>, n: nat)
    requires
        n <= fs.len(),
    ensures
        filter_models(fs, n).len() == n,
        forall|i: int| 0 <= i < n ==> (#[trigger] filter_models(fs, n)[i]) == fs[i]@,
    decreases n,
{
    if n > 0 {
        lemma_filter_models(fs, (n - 1) as nat);
    }
}

/// The text of a column reference: the column quoted and qualified by its
/// own table or, where it has none, by the default table.
pub open spec fn column_sql(
    table: Option<Seq<char>>,
    column: Seq<char>,
    default_table: Seq<char>,
) -> Seq<char> {
    quoted_column_text(
        match table {
            Some(t) => t,
            None => default_table,
        },
        column,
    )
}

/// The placeholders `base + 1, .., base + n`, separated by a comma and a space.
pub open spec fn placeholder_list(base: nat, n: nat) -> Seq<char>
    decreases n,
{
    if n == 0 {
        Seq::<char>::empty()
    } else if n == 1 {
        placeholder(base + 1)
    } else {
        placeholder_list(base, (n - 1) as nat) + ", "@ + placeholder(base + n)
    }
}

/// The parameters of a filter, in the order in which its text refers to them.
///
/// An empty `In` compares the parameters 1 and 2, which are never equal; an
/// empty `And` is the parameter true and an empty `Or` the parameter false.
pub open spec fn filter_params(f: FilterModel) -> Seq<SqlValueView>
    decreases f, 0nat,
{
    match f {
        FilterModel::Eq(_, _, v) => seq![v],
        FilterModel::Gt(_, _, v) => seq![v],
        FilterModel::Lt(_, _, v) => seq![v],
        FilterModel::Lte(_, _, v) => seq![v],
        FilterModel::In(_, _, vs) => if vs.len() == 0 {
            seq![SqlValueView::Int(Some(1i32)), SqlValueView::Int(Some(2i32))]
        } else {
            vs
        },
        FilterModel::IsNull(_, _) => Seq::<SqlValueView>::empty(),
        FilterModel::IsNotNull(_, _) => Seq::<SqlValueView>::empty(),
        FilterModel::Like(_, _, p) => seq![SqlValueView::String(Some(p))],
        FilterModel::ColEq(_, _, _, _) => Seq::<SqlValueView>::empty(),
        FilterModel::And(fs) => if fs.len() == 0 {
            seq![SqlValueView::Bool(Some(true))]
        } else {
            chain_params(fs, fs.len())
        },
        FilterModel::Or(fs) => if fs.len() == 0 {
            seq![SqlValueView::Bool(Some(false))]
        } else {
            chain_params(fs, fs.len())
        },
        FilterModel::Not(inner) => filter_params(*inner),
    }
}

/// The parameters of the first `n` of the filters `fs`, one filter after the other.
pub open spec fn chain_params(fs: Seq<FilterModel>, n: nat) -> Seq<SqlValueView>
    decreases fs, n,
{
    if n == 0 || n > fs.len() {
        Seq::<SqlValueView>::empty()
    } else {
        chain_params(fs, (n - 1) as nat) + filter_params(fs[n - 1])
    }
}

/// The SQL text of a filter that stands behind `base` parameters: its
/// placeholders are numbered from `base + 1`.
///
/// The two sides of a comparison stand in parentheses, and so does each
/// operand of a combinator with several operands; a combinator with a
/// single operand is that operand.
pub open spec fn filter_sql(f: FilterModel, default_table: Seq<char>, base: nat) -> Seq<char>
    decreases f, 0nat,
{
    match f {
        FilterModel::Eq(t, c, _) => "("@ + column_sql(t, c, default_table) + ") = ("@
            + placeholder(base + 1) + ")"@,
        FilterModel::Gt(t, c, _) => "("@ + column_sql(t, c, default_table) + ") > ("@
            + placeholder(base + 1) + ")"@,
        FilterModel::Lt(t, c, _) => "("@ + column_sql(t, c, default_table) + ") < ("@
            + placeholder(base + 1) + ")"@,
        FilterModel::Lte(t, c, _) => "("@ + column_sql(t, c, default_table) + ") <= ("@
            + placeholder(base + 1) + ")"@,
        FilterModel::In(t, c, vs) => if vs.len() == 0 {
            "("@ + placeholder(base + 1) + ") = ("@ + placeholder(base + 2) + ")"@
        } else {
            "("@ + column_sql(t, c, default_table) + ") IN ("@ + placeholder_list(base, vs.len())
                + ")"@
        },
        FilterModel::IsNull(t, c) => "("@ + column_sql(t, c, default_table) + ") IS NULL"@,
        FilterModel::IsNotNull(t, c) => "("@ + column_sql(t, c, default_table) + ") IS NOT NULL"@,
        FilterModel::Like(t, c, _) => "("@ + column_sql(t, c, default_table) + ") LIKE ("@
            + placeholder(base + 1) + ")"@,
        FilterModel::ColEq(t1, c1, t2, c2) => "("@ + quoted_column_text(t1, c1) + ") = ("@
            + quoted_column_text(t2, c2) + ")"@,
        FilterModel::And(fs) => if fs.len() == 0 {
            placeholder(base + 1)
        } else if fs.len() == 1 {
            filter_sql(fs[0], default_table, base)
        } else {
            chain_sql(fs, fs.len(), " AND "@, default_table, base)
        },
        FilterModel::Or(fs) => if fs.len() == 0 {
            placeholder(base + 1)
        } else if fs.len() == 1 {
            filter_sql(fs[0], default_table, base)
        } else {
            chain_sql(fs, fs.len(), " OR "@, default_table, base)
        },
        FilterModel::Not(inner) => "NOT ("@ + filter_sql(*inner, default_table, base) + ")"@,
    }
}

/// The text of the first `n` of the filters `fs`, each in parentheses, with
/// `separator` between one and the next.
pub open spec fn chain_sql(
    fs: Seq<FilterModel>,
    n: nat,
    separator: Seq<char>,
    default_table: Seq<char>,
    base: nat,
) -> Seq<char>
    decreases fs, n,
{
    if n == 0 || n > fs.len() {
        Seq::<char>::empty()
    } else {
        chain_sql(fs, (n - 1) as nat, separator, default_table, base) + (if n > 1 {
            separator
        } else {
            Seq::<char>::empty()
        }) + "("@ + filter_sql(
            fs[n - 1],
            default_table,
            base + chain_params(fs, (n - 1) as nat).len(),
        ) + ")"@
    }
}

/// The filter with its comparison leaf qualified by `table`. Column-to-column
/// comparisons and combinators stay as they are.
pub open spec fn qualified(f: FilterModel, table: Seq<char>) -> FilterModel {
    match f {
        FilterModel::Eq(_, c, v) => FilterModel::Eq(Some(table), c, v),
        FilterModel::Gt(_, c, v) => FilterModel::Gt(Some(table), c, v),
        FilterModel::Lt(_, c, v) => FilterModel::Lt(Some(table), c, v),
        FilterModel::Lte(_, c, v) => FilterModel::Lte(Some(table), c, v),
        FilterModel::In(_, c, vs) => FilterModel::In(Some(table), c, vs),
        FilterModel::IsNull(_, c) => FilterModel::IsNull(Some(table), c),
        FilterModel::IsNotNull(_, c) => FilterModel::IsNotNull(Some(table), c),
        FilterModel::Like(_, c, p) => FilterModel::Like(Some(table), c, p),
        other => other,
    }
}

/// Whether the filter is a comparison of a column with parameters, whose
/// text starts with the column.
pub open spec fn is_leaf(f: FilterModel) -> bool {
    match f {
        FilterModel::Eq(_, _, _) => true,
        FilterModel::Gt(_, _, _) => true,
        FilterModel::Lt(_, _, _) => true,
        FilterModel::Lte(_, _, _) => true,
        FilterModel::In(_, _, vs) => vs.len() > 0,
        FilterModel::IsNull(_, _) => true,
        FilterModel::IsNotNull(_, _) => true,
        FilterModel::Like(_, _, _) => true,
        _ => false,
    }
}

/// The table that qualifies a leaf, if it names one.
pub open spec fn leaf_table(f: FilterModel) -> Option<Seq<char>> {
    match f {
        FilterModel::Eq(t, _, _) => t,
        FilterModel::Gt(t, _, _) => t,
        FilterModel::Lt(t, _, _) => t,
        FilterModel::Lte(t, _, _) => t,
        FilterModel::In(t, _, _) => t,
        FilterModel::IsNull(t, _) => t,
        FilterModel::IsNotNull(t, _) => t,
        FilterModel::Like(t, _, _) => t,
        _ => None,
    }
}

/// The column of a leaf.
pub open spec fn leaf_column(f: FilterModel) -> Seq<char> {
    match f {
        FilterModel::Eq(_, c, _) => c,
        FilterModel::Gt(_, c, _) => c,
        FilterModel::Lt(_, c, _) => c,
        FilterModel::Lte(_, c, _) => c,
        FilterModel::In(_, c, _) => c,
        FilterModel::IsNull(_, c) => c,
        FilterModel::IsNotNull(_, c) => c,
        FilterModel::Like(_, c, _) => c,
        _ => Seq::<char>::empty(),
    }
}

/// The text of a leaf behind its column: the comparison and its placeholders.
pub open spec fn leaf_tail(f: FilterModel, base: nat) -> Seq<char> {
    match f {
        FilterModel::Eq(_, _, _) => ") = ("@ + placeholder(base + 1) + ")"@,
        FilterModel::Gt(_, _, _) => ") > ("@ + placeholder(base + 1) + ")"@,
        FilterModel::Lt(_, _, _) => ") < ("@ + placeholder(base + 1) + ")"@,
        FilterModel::Lte(_, _, _) => ") <= ("@ + placeholder(base + 1) + ")"@,
        FilterModel::In(_, _, vs) => ") IN ("@ + placeholder_list(base, vs.len()) + ")"@,
        FilterModel::IsNull(_, _) => ") IS NULL"@,
        FilterModel::IsNotNull(_, _) => ") IS NOT NULL"@,
        FilterModel::Like(_, _, _) => ") LIKE ("@ + placeholder(base + 1) + ")"@,
        _ => Seq::<char>::empty(),
    }
}

/// Qualifying a filter by a table changes nothing but the table before the
/// column of a comparison leaf.
///
/// The parameters stay as they are. The text of a leaf is an opening
/// parenthesis, its column reference and a tail; qualified, it is the
/// column under the new table between the same two. Any other filter keeps
/// its text.
pub proof fn lemma_on_changes_table_only(
    f: FilterModel,
    table: Seq<char>,
    default_table: Seq<char>,
    base: nat,
)
    ensures
        filter_params(qualified(f, table)) == filter_params(f),
        is_leaf(f) ==> filter_sql(f, default_table, base) == "("@ + column_sql(
            leaf_table(f),
            leaf_column(f),
            default_table,
        ) + leaf_tail(f, base),
        is_leaf(f) ==> filter_sql(qualified(f, table), default_table, base) == "("@
            + quoted_column_text(table, leaf_column(f)) + leaf_tail(f, base),
        !is_leaf(f) ==> filter_sql(qualified(f, table), default_table, base) == filter_sql(
            f,
            default_table,
            base,
        ),
{
    if is_leaf(f) {
        assert(filter_sql(f, default_table, base) =~= "("@ + column_sql(
            leaf_table(f),
            leaf_column(f),
            default_table,
        ) + leaf_tail(f, base));
        assert(filter_sql(qualified(f, table), default_table, base) =~= "("@
            + quoted_column_text(table, leaf_column(f)) + leaf_tail(f, base));
    }
}

/// A copy of a parameter.
pub fn clone_value(value: &SqlValue) -> (r: SqlValue)
    ensures
        r@ == value@,
{
    match value {
        SqlValue::Bool(v) => SqlValue::Bool(*v),
        SqlValue::TinyInt(v) => SqlValue::TinyInt(*v),
        SqlValue::SmallInt(v) => SqlValue::SmallInt(*v),
        SqlValue::Int(v) => SqlValue::Int(*v),
        SqlValue::BigInt(v) => SqlValue::BigInt(*v),
        SqlValue::TinyUnsigned(v) => SqlValue::TinyUnsigned(*v),
        SqlValue::SmallUnsigned(v) => SqlValue::SmallUnsigned(*v),
        SqlValue::Unsigned(v) => SqlValue::Unsigned(*v),
        SqlValue::BigUnsigned(v) => SqlValue::BigUnsigned(*v),
        SqlValue::Float(v) => SqlValue::Float(*v),
        SqlValue::Double(v) => SqlValue::Double(*v),
        SqlValue::String(v) => SqlValue::String(
            match v {
                Some(s) => Some(s.clone()),
                None => None,
            },
        ),
        SqlValue::Char(v) => SqlValue::Char(*v),
        SqlValue::Bytes(v) => SqlValue::Bytes(
            match v {
                Some(b) => Some(crate::wire::copy_bytes(b)),
                None => None,
            },
        ),
        SqlValue::ChronoDate(v) => SqlValue::ChronoDate(*v),
        SqlValue::ChronoTime(v) => SqlValue::ChronoTime(*v),
        SqlValue::ChronoDateTime(v) => SqlValue::ChronoDateTime(*v),
        SqlValue::ChronoDateTimeUtc(v) => SqlValue::ChronoDateTimeUtc(*v),
        SqlValue::ChronoDateTimeLocal(v) => SqlValue::ChronoDateTimeLocal(*v),
        SqlValue::ChronoDateTimeWithTimeZone(v) => SqlValue::ChronoDateTimeWithTimeZone(*v),
    }
}

/// Appends `value` to `params` and its placeholder to `sql`.
pub fn push_param(sql: &mut String, params: &mut Vec<SqlValue>, value: SqlValue)
    ensures
        final(sql)@ == old(sql)@ + placeholder(old(params)@.len() + 1),
        final(params)@ == old(params)@.push(value),
{
    params.push(value);
    push_placeholder(sql, params.len());
}

/// Appends the column reference of a leaf to `sql`.
fn push_column(
    sql: &mut String,
    table: &Option<&'static str>,
    column: &str,
    default_table: &str,
)
    ensures
        final(sql)@ == old(sql)@ + column_sql(table_view(*table), column@, default_table@),
{
    match table {
        Some(t) => push_quoted_column(sql, t, column),
        None => push_quoted_column(sql, default_table, column),
    }
}

impl Filter {
    /// An equality filter: `column = value`.
    pub fn eq<V: IntoSqlValue>(col: &'static str, val: V) -> (r: Filter)
        ensures
            r@ == FilterModel::Eq(None, col@, val.value_view()),
    {
        Filter::Eq(None, col, val.into_value())
    }

    /// A greater-than filter: `column > value`.
    pub fn gt<V: IntoSqlValue>(col: &'static str, val: V) -> (r: Filter)
        ensures
            r@ == FilterModel::Gt(None, col@, val.value_view()),
    {
        Filter::Gt(None, col, val.into_value())
    }

    /// A less-than filter: `column < value`.
    pub fn lt<V: IntoSqlValue>(col: &'static str, val: V) -> (r: Filter)
        ensures
            r@ == FilterModel::Lt(None, col@, val.value_view()),
    {
        Filter::Lt(None, col, val.into_value())
    }

    /// A less-than-or-equal filter: `column <= value`.
    pub fn lte<V: IntoSqlValue>(col: &'static str, val: V) -> (r: Filter)
        ensures
            r@ == FilterModel::Lte(None, col@, val.value_view()),
    {
        Filter::Lte(None, col, val.into_value())
    }

    /// A membership filter: `column IN (values)`.
    pub fn is_in<V: IntoSqlValue>(col: &'static str, vals: Vec<V>) -> (r: Filter)
        ensures
            r@ == FilterModel::In(
                None,
                col@,
                Seq::new(vals@.len(), |i: int| vals@[i].value_view()),
            ),
    {
        let ghost all = vals@;
        let mut rest = reversed(vals);
        let mut values: Vec<SqlValue> = Vec::new();
        while rest.len() > 0
            invariant
                rest@.len() + values@.len() == all.len(),
                forall|i: int|
                    0 <= i < rest@.len() ==> (#[trigger] rest@[i]) == all[all.len() - 1 - i],
                forall|i: int|
                    0 <= i < values@.len() ==> (#[trigger] values@[i])@ == all[i].value_view(),
            decreases rest@.len(),
        {
            let next = rest.pop().unwrap();
            values.push(next.into_value());
        }
        proof {
            assert(values_view(values@) =~= Seq::new(all.len(), |i: int| all[i].value_view()));
        }
        Filter::In(None, col, values)
    }

    /// A null test: `column IS NULL`.
    pub fn is_null(col: &'static str) -> (r: Filter)
        ensures
            r@ == FilterModel::IsNull(None, col@),
    {
        Filter::IsNull(None, col)
    }

    /// A non-null test: `column IS NOT NULL`.
    pub fn is_not_null(col: &'static str) -> (r: Filter)
        ensures
            r@ == FilterModel::IsNotNull(None, col@),
    {
        Filter::IsNotNull(None, col)
    }

    /// A pattern match: `column LIKE pattern`.
    pub fn like(col: &'static str, pattern: &str) -> (r: Filter)
        ensures
            r@ == FilterModel::Like(None, col@, pattern@),
    {
        Filter::Like(None, col, String::from_str(pattern))
    }

    /// A comparison of two columns across tables: `table1.col1 = table2.col2`.
    pub fn col_eq(
        table1: &'static str,
        col1: &'static str,
        table2: &'static str,
        col2: &'static str,
    ) -> (r: Filter)
        ensures
            r@ == FilterModel::ColEq(table1@, col1@, table2@, col2@),
    {
        Filter::ColEq(table1, col1, table2, col2)
    }

    /// A copy of the filter.
    pub fn clone(&self) -> (r: Filter)
        ensures
            r@ == self@,
        decreases self,
    {
        match self {
            Filter::Eq(t, c, v) => Filter::Eq(*t, *c, clone_value(v)),
            Filter::Gt(t, c, v) => Filter::Gt(*t, *c, clone_value(v)),
            Filter::Lt(t, c, v) => Filter::Lt(*t, *c, clone_value(v)),
            Filter::Lte(t, c, v) => Filter::Lte(*t, *c, clone_value(v)),
            Filter::In(t, c, vs) => {
                let mut copy: Vec<SqlValue> = Vec::new();
                let mut i: usize = 0;
                while i < vs.len()
                    invariant
                        i <= vs.len(),
                        copy@.len() == i,
                        forall|k: int| 0 <= k < i ==> (#[trigger] copy@[k])@ == vs@[k]@,
                    decreases vs.len() - i,
                {
                    copy.push(clone_value(&vs[i]));
                    i = i + 1;
                }
                proof {
                    assert(values_view(copy@) =~= values_view(vs@));
                }
                Filter::In(*t, *c, copy)
            },
            Filter::IsNull(t, c) => Filter::IsNull(*t, *c),
            Filter::IsNotNull(t, c) => Filter::IsNotNull(*t, *c),
            Filter::Like(t, c, p) => Filter::Like(*t, *c, p.clone()),
            Filter::ColEq(t1, c1, t2, c2) => Filter::ColEq(*t1, *c1, *t2, *c2),
            Filter::And(fs) => Filter::And(Self::clone_all(fs)),
            Filter::Or(fs) => Filter::Or(Self::clone_all(fs)),
            Filter::Not(inner) => {
                let inner: &Filter = inner;
                Filter::Not(Box::new(Filter::clone(inner)))
            },
        }
    }

    /// Copies of the filters `fs`.
    fn clone_all(fs: &Vec<Filter>) -> (r: Vec<Filter>)
        ensures
            filters_view(r@) == filters_view(fs@),
        decreases fs,
    {
        let mut copy: Vec<Filter> = Vec::new();
        let mut i: usize = 0;
        while i < fs.len()
            invariant
                i <= fs.len(),
                copy@.len() == i,
                forall|k: int| 0 <= k < i ==> (#[trigger] copy@[k])@ == fs@[k]@,
            decreases fs.len() - i,
        {
            copy.push(Filter::clone(&fs[i]));
            i = i + 1;
        }
        proof {
            lemma_filter_models(copy@, copy@.len());
            lemma_filter_models(fs@, fs@.len());
            assert(filters_view(copy@) =~= filters_view(fs@));
        }
        copy
    }

    /// Qualifies the comparison leaf by `table`. A column-to-column
    /// comparison and a combinator pass through unchanged.
    pub fn on(self, table: &'static str) -> (r: Filter)
        ensures
            r@ == qualified(self@, table@),
    {
        match self {
            Filter::Eq(_, col, val) => Filter::Eq(Some(table), col, val),
            Filter::Gt(_, col, val) => Filter::Gt(Some(table), col, val),
            Filter::Lt(_, col, val) => Filter::Lt(Some(table), col, val),
            Filter::Lte(_, col, val) => Filter::Lte(Some(table), col, val),
            Filter::In(_, col, vals) => Filter::In(Some(table), col, vals),
            Filter::IsNull(_, col) => Filter::IsNull(Some(table), col),
            Filter::IsNotNull(_, col) => Filter::IsNotNull(Some(table), col),
            Filter::Like(_, col, pattern) => Filter::Like(Some(table), col, pattern),
            other => other,
        }
    }

    /// Appends the text of the filter to `sql` and its parameters to
    /// `params`. The placeholders count on from the parameters that are
    /// already there.
    #[verifier::rlimit(40)]
    pub fn render(&self, default_table: &str, sql: &mut String, params: &mut Vec<SqlValue>)
        ensures
            final(sql)@ == old(sql)@ + filter_sql(
                self@,
                default_table@,
                old(params)@.len() as nat,
            ),
            values_view(final(params)@) == values_view(old(params)@) + filter_params(self@),
        decreases self, 1nat,
    {
        let ghost sql0 = sql@;
        let ghost params0 = params@;
        let ghost base = params@.len() as nat;
        match self {
            Filter::Eq(t, c, v) => {
                sql.append("(");
                push_column(sql, t, c, default_table);
                sql.append(") = (");
                push_param(sql, params, clone_value(v));
                sql.append(")");
            },
            Filter::Gt(t, c, v) => {
                sql.append("(");
                push_column(sql, t, c, default_table);
                sql.append(") > (");
                push_param(sql, params, clone_value(v));
                sql.append(")");
            },
            Filter::Lt(t, c, v) => {
                sql.append("(");
                push_column(sql, t, c, default_table);
                sql.append(") < (");
                push_param(sql, params, clone_value(v));
                sql.append(")");
            },
            Filter::Lte(t, c, v) => {
                sql.append("(");
                push_column(sql, t, c, default_table);
                sql.append(") <= (");
                push_param(sql, params, clone_value(v));
                sql.append(")");
            },
            Filter::In(t, c, vs) => {
                if vs.len() == 0 {
                    sql.append("(");
                    push_param(sql, params, SqlValue::Int(Some(1)));
                    sql.append(") = (");
                    push_param(sql, params, SqlValue::Int(Some(2)));
                    sql.append(")");
                } else {
                    sql.append("(");
                    push_column(sql, t, c, default_table);
                    sql.append(") IN (");
                    let ghost sql1 = sql@;
                    let mut i: usize = 0;
                    while i < vs.len()
                        invariant
                            i <= vs.len(),
                            params@.len() == base + i,
                            sql@ == sql1 + placeholder_list(base, i as nat),
                            values_view(params@) == values_view(params0) + values_view(vs@).take(
                                i as int,
                            ),
                        decreases vs.len() - i,
                    {
                        let ghost before = params@;
                        if i > 0 {
                            sql.append(", ");
                        }
                        push_param(sql, params, clone_value(&vs[i]));
                        i = i + 1;
                        proof {
                            assert(values_view(params@) =~= values_view(before).push(
                                vs@[i - 1]@,
                            ));
                            assert(values_view(vs@).take(i as int) =~= values_view(vs@).take(
                                i - 1,
                            ).push(vs@[i - 1]@));
                            assert(values_view(params@) =~= values_view(params0) + values_view(
                                vs@,
                            ).take(i as int));
                            assert(sql@ =~= sql1 + placeholder_list(base, i as nat));
                        }
                    }
                    sql.append(")");
                    proof {
                        assert(values_view(vs@).take(vs@.len() as int) =~= values_view(vs@));
                    }
                }
            },
            Filter::IsNull(t, c) => {
                sql.append("(");
                push_column(sql, t, c, default_table);
                sql.append(") IS NULL");
            },
            Filter::IsNotNull(t, c) => {
                sql.append("(");
                push_column(sql, t, c, default_table);
                sql.append(") IS NOT NULL");
            },
            Filter::Like(t, c, p) => {
                sql.append("(");
                push_column(sql, t, c, default_table);
                sql.append(") LIKE (");
                push_param(sql, params, SqlValue::String(Some(p.clone())));
                sql.append(")");
            },
            Filter::ColEq(t1, c1, t2, c2) => {
                sql.append("(");
                push_quoted_column(sql, t1, c1);
                sql.append(") = (");
                push_quoted_column(sql, t2, c2);
                sql.append(")");
            },
            Filter::And(fs) => {
                proof {
                    lemma_filter_models(fs@, fs@.len());
                }
                if fs.len() == 0 {
                    push_param(sql, params, SqlValue::Bool(Some(true)));
                } else if fs.len() == 1 {
                    fs[0].render(default_table, sql, params);
                    proof {
                        let ms = filters_view(fs@);
                        assert(chain_params(ms, 0) == Seq::<SqlValueView>::empty());
                        assert(chain_params(ms, 1) =~= filter_params(ms[0]));
                    }
                } else {
                    Self::render_chain(fs, " AND ", default_table, sql, params);
                }
            },
            Filter::Or(fs) => {
                proof {
                    lemma_filter_models(fs@, fs@.len());
                }
                if fs.len() == 0 {
                    push_param(sql, params, SqlValue::Bool(Some(false)));
                } else if fs.len() == 1 {
                    fs[0].render(default_table, sql, params);
                    proof {
                        let ms = filters_view(fs@);
                        assert(chain_params(ms, 0) == Seq::<SqlValueView>::empty());
                        assert(chain_params(ms, 1) =~= filter_params(ms[0]));
                    }
                } else {
                    Self::render_chain(fs, " OR ", default_table, sql, params);
                }
            },
            Filter::Not(inner) => {
                sql.append("NOT (");
                inner.render(default_table, sql, params);
                sql.append(")");
            },
        }
        proof {
            assert(sql@ =~= sql0 + filter_sql(self@, default_table@, base));
            assert(values_view(params@) =~= values_view(params0) + filter_params(self@));
        }
    }

    /// Appends the filters `fs`, each in parentheses, with `separator`
    /// between one and the next.
    #[verifier::rlimit(40)]
    fn render_chain(
        fs: &Vec<Filter>,
        separator: &str,
        default_table: &str,
        sql: &mut String,
        params: &mut Vec<SqlValue>,
    )
        ensures
            final(sql)@ == old(sql)@ + chain_sql(
                filters_view(fs@),
                fs@.len(),
                separator@,
                default_table@,
                old(params)@.len() as nat,
            ),
            values_view(final(params)@) == values_view(old(params)@) + chain_params(
                filters_view(fs@),
                fs@.len(),
            ),
        decreases fs, 0nat,
    {
        let ghost sql0 = sql@;
        let ghost params0 = params@;
        let ghost base = params@.len() as nat;
        let ghost ms = filters_view(fs@);
        proof {
            lemma_filter_models(fs@, fs@.len());
        }
        let mut i: usize = 0;
        while i < fs.len()
            invariant
                i <= fs.len(),
                ms == filters_view(fs@),
                ms.len() == fs@.len(),
                forall|k: int| 0 <= k < fs@.len() ==> (#[trigger] ms[k]) == fs@[k]@,
                base == params0.len(),
                sql@ == sql0 + chain_sql(ms, i as nat, separator@, default_table@, base),
                values_view(params@) == values_view(params0) + chain_params(ms, i as nat),
            decreases fs.len() - i,
        {
            if i > 0 {
                sql.append(separator);
            }
            sql.append("(");
            proof {
                assert(params@.len() == values_view(params@).len());
                assert(params@.len() == base + chain_params(ms, i as nat).len());
            }
            fs[i].render(default_table, sql, params);
            sql.append(")");
            i = i + 1;
            proof {
                assert(sql@ =~= sql0 + chain_sql(ms, i as nat, separator@, default_table@, base));
                assert(values_view(params@) =~= values_view(params0) + chain_params(ms, i as nat));
            }
        }
    }

    /// Turns the filter into the text of an expression and its parameters,
    /// appended to `sql` and `params`; columns without a table of their own
    /// are qualified by `default_table`.
    pub fn into_expr(self, default_table: &str, sql: &mut String, params: &mut Vec<SqlValue>)
        ensures
            final(sql)@ == old(sql)@ + filter_sql(
                self@,
                default_table@,
                old(params)@.len() as nat,
            ),
            values_view(final(params)@) == values_view(old(params)@) + filter_params(self@),
    {
        self.render(default_table, sql, params)
    }
}

} // verus!
