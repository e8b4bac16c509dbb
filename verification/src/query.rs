//! A compiled query, the dialect it is written in, and the clauses that the
//! statements share.

use vstd::prelude::*;
use vstd::string::StringExecFns;
use crate::filter::{chain_params, filter_sql, filters_view, lemma_filter_models, Filter, FilterModel};
use crate::value::{
    values_to_wasi_datatypes, values_view, wire_all, wire_view, BuildError, SqlValue,
    SqlValueView,
};
use crate::wire::DataType;

verus! {

/// A compiled SQL query, ready to be run: the text with its placeholders
/// `$1, $2, ..` and the parameters that they stand for, in that order.
#[derive(Debug, Clone, PartialEq)]
pub struct Query {
    /// The SQL text.
    pub sql: String,
    /// The bound parameters.
    pub params: Vec<DataType>,
}

/// The dialect of the builders: identifiers between double quotes, and
/// parameters as a dollar sign with their number.
#[derive(Debug, Clone, Copy, PartialEq, Eq, Structural)]
pub struct QueryBuilder;

impl QueryBuilder {
    /// The character that stands before and behind an identifier.
    pub fn quote(&self) -> (r: char)
        ensures
            r == '"',
    {
        '"'
    }

    /// The mark of a placeholder, and whether placeholders are numbered.
    pub fn placeholder(&self) -> (r: (&'static str, bool))
        ensures
            r.0@ == seq!['$'],
            r.1,
    {
        proof {
            reveal_strlit("$");
        }
        let mark = "$";
        assert(mark@ =~= seq!['$']);
        (mark, true)
    }
}

/// The query made of a finished SQL text and its parameters.
///
/// Fails with `UnsupportedValue` exactly when a parameter has no wire form.
pub fn build_query(sql: String, values: Vec<SqlValue>) -> (r: Result<Query, BuildError>)
    ensures
        match wire_all(values_view(values@)) {
            Some(wire) => r is Ok && r->Ok_0.sql@ == sql@ && wire_view(r->Ok_0.params@) == wire,
            None => r == Err::<Query, BuildError>(BuildError::UnsupportedValue),
        },
{
    match values_to_wasi_datatypes(values) {
        Ok(params) => Ok(Query { sql, params }),
        Err(e) => Err(e),
    }
}

/// The text of one condition of a clause that holds `total` of them: where
/// there are several, each stands in parentheses.
pub open spec fn condition_sql(
    f: FilterModel,
    total: nat,
    table: Seq<char>,
    base: nat,
) -> Seq<char> {
    if total > 1 {
        "("@ + filter_sql(f, table, base) + ")"@
    } else {
        filter_sql(f, table, base)
    }
}

/// The text of the first `n` of the conditions `fs`, joined by `AND`.
pub open spec fn conditions_sql(fs: Seq<FilterModel>, n: nat, table: Seq<char>, base: nat) -> Seq<
    char,
>
    decreases n,
{
    if n == 0 || n > fs.len() {
        Seq::<char>::empty()
    } else {
        conditions_sql(fs, (n - 1) as nat, table, base) + (if n > 1 {
            " AND "@
        } else {
            Seq::<char>::empty()
        }) + condition_sql(fs[n - 1], fs.len(), table, base + chain_params(fs, (n - 1) as nat).len())
    }
}

/// The `WHERE` clause of the conditions `fs`: nothing where there is none,
/// else the conditions in their order, joined by `AND`.
pub open spec fn where_sql(fs: Seq<FilterModel>, table: Seq<char>, base: nat) -> Seq<char> {
    if fs.len() == 0 {
        Seq::<char>::empty()
    } else {
        " WHERE "@ + conditions_sql(fs, fs.len(), table, base)
    }
}

/// The parameters of a `WHERE` clause.
pub open spec fn where_params(fs: Seq<FilterModel>) -> Seq<SqlValueView> {
    chain_params(fs, fs.len())
}

/// Appends the `WHERE` clause of `filters` to `sql` and its parameters to
/// `params`.
#[verifier::rlimit(40)]
pub fn push_where(filters: &Vec<Filter>, table: &str, sql: &mut String, params: &mut Vec<SqlValue>)
    ensures
        final(sql)@ == old(sql)@ + where_sql(
            filters_view(filters@),
            table@,
            old(params)@.len() as nat,
        ),
        values_view(final(params)@) == values_view(old(params)@) + where_params(
            filters_view(filters@),
        ),
{
    let ghost sql0 = sql@;
    let ghost params0 = params@;
    let ghost base = params@.len() as nat;
    let ghost ms = filters_view(filters@);
    proof {
        lemma_filter_models(filters@, filters@.len());
    }
    if filters.len() == 0 {
        proof {
            assert(sql@ =~= sql0 + where_sql(ms, table@, base));
            assert(values_view(params@) =~= values_view(params0) + where_params(ms));
        }
        return ;
    }
    sql.append(" WHERE ");
    let ghost sql1 = sql@;
    let mut i: usize = 0;
    while i < filters.len()
        invariant
            i <= filters.len(),
            ms == filters_view(filters@),
            ms.len() == filters@.len(),
            forall|k: int| 0 <= k < filters@.len() ==> (#[trigger] ms[k]) == filters@[k]@,
            base == params0.len(),
            sql@ == sql1 + conditions_sql(ms, i as nat, table@, base),
            values_view(params@) == values_view(params0) + chain_params(ms, i as nat),
        decreases filters.len() - i,
    {
        if i > 0 {
            sql.append(" AND ");
        }
        proof {
            assert(params@.len() == values_view(params@).len());
        }
        let grouped = filters.len() > 1;
        if grouped {
            sql.append("(");
        }
        filters[i].render(table, sql, params);
        if grouped {
            sql.append(")");
        }
        i = i + 1;
        proof {
            assert(sql@ =~= sql1 + conditions_sql(ms, i as nat, table@, base));
            assert(values_view(params@) =~= values_view(params0) + chain_params(ms, i as nat));
        }
    }
    proof {
        assert(sql@ =~= sql0 + where_sql(ms, table@, base));
    }
}

} // verus!
