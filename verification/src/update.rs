//! The `UPDATE` builder.

use vstd::prelude::*;
use vstd::string::StringExecFns;
use crate::delete::lemma_filters_push;
use crate::filter::{clone_value, filters_view, push_param, Filter, FilterModel};
use crate::query::{build_query, push_where, where_params, where_sql, Query};
use crate::text::{placeholder, push_quoted, quoted};
use crate::value::{values_view, wire_all, wire_view, BuildError, IntoSqlValue, SqlValue, SqlValueView};

use crate::numbering::{update_clear, lemma_update_numbered};
use crate::text::{numbered_from, placeholders};

verus! {

/// Builds an `UPDATE` statement.
pub struct UpdateBuilder {
    table: String,
    set_clauses: Vec<(&'static str, SqlValue)>,
    filters: Vec<Filter>,
}

/// What an [`UpdateBuilder`] holds.
pub struct UpdateModel {
    pub table: Seq<char>,
    pub sets: Seq<(Seq<char>, SqlValueView)>,
    pub filters: Seq<FilterModel>,
}

/// The columns and values of a list of assignments, item by item.
pub open spec fn assignments_view(sets: Seq<(&'static str, SqlValue)>) -> Seq<
    (Seq<char>, SqlValueView),
> {
    Seq::new(sets.len(), |i: int| (sets[i].0@, sets[i].1@))
}

impl View for UpdateBuilder {
    type V = UpdateModel;

    closed spec fn view(&self) -> UpdateModel {
        UpdateModel {
            table: self.table@,
            sets: assignments_view(self.set_clauses@),
            filters: filters_view(self.filters@),
        }
    }
}

/// The first `n` assignments of a `SET` clause that comes after `base`
/// parameters: `"column" = $k` with `k = base + i` for the `i`-th of them,
/// separated by a comma and a space.
pub open spec fn assignments_sql(sets: Seq<(Seq<char>, SqlValueView)>, n: nat, base: nat) -> Seq<
    char,
>
    decreases n,
{
    if n == 0 || n > sets.len() {
        Seq::<char>::empty()
    } else {
        assignments_sql(sets, (n - 1) as nat, base) + (if n > 1 {
            ", "@
        } else {
            Seq::<char>::empty()
        }) + quoted(sets[n - 1].0) + " = "@ + placeholder(base + n)
    }
}

/// The values of a list of assignments, in its order.
pub open spec fn assigned_values(sets: Seq<(Seq<char>, SqlValueView)>) -> Seq<SqlValueView> {
    Seq::new(sets.len(), |i: int| sets[i].1)
}

/// The text of an `UPDATE`: `UPDATE "table" SET` with the assignments in
/// the order in which they were made, and the `WHERE` clause.
pub open spec fn update_sql(m: UpdateModel) -> Seq<char> {
    "UPDATE "@ + quoted(m.table) + " SET "@ + assignments_sql(m.sets, m.sets.len(), 0) + where_sql(
        m.filters,
        m.table,
        m.sets.len(),
    )
}

/// The parameters of an `UPDATE`: the assigned values, then those of the
/// `WHERE` clause.
pub open spec fn update_params(m: UpdateModel) -> Seq<SqlValueView> {
    assigned_values(m.sets) + where_params(m.filters)
}

/// Appends the assignments of a `SET` clause to `sql` and their values to
/// `params`; the placeholders are numbered on from the parameters that are
/// there already.
pub fn push_assignments(
    sets: &Vec<(&'static str, SqlValue)>,
    sql: &mut String,
    params: &mut Vec<SqlValue>,
)
    ensures
        final(sql)@ == old(sql)@ + assignments_sql(
            assignments_view(sets@),
            sets@.len(),
            old(params)@.len(),
        ),
        values_view(final(params)@) == values_view(old(params)@) + assigned_values(
            assignments_view(sets@),
        ),
{
    let ghost sql0 = sql@;
    let ghost given = values_view(params@);
    let ghost base = params@.len();
    let ghost model = assignments_view(sets@);
    let mut i: usize = 0;
    proof {
        assert(given + assigned_values(model).take(0) =~= given);
    }
    while i < sets.len()
        invariant
            i <= sets.len(),
            model == assignments_view(sets@),
            params@.len() == base + i,
            sql@ == sql0 + assignments_sql(model, i as nat, base),
            values_view(params@) == given + assigned_values(model).take(i as int),
        decreases sets.len() - i,
    {
        let ghost before = params@;
        if i > 0 {
            sql.append(", ");
        }
        push_quoted(sql, sets[i].0);
        sql.append(" = ");
        push_param(sql, params, clone_value(&sets[i].1));
        i = i + 1;
        proof {
            assert(model[i - 1] == (sets@[i - 1].0@, sets@[i - 1].1@));
            assert(sql@ =~= sql0 + assignments_sql(model, i as nat, base));
            assert(values_view(params@) =~= values_view(before).push(sets@[i - 1].1@));
            assert(assigned_values(model).take(i as int) =~= assigned_values(model).take(
                i - 1,
            ).push(sets@[i - 1].1@));
            assert(values_view(params@) =~= given + assigned_values(model).take(i as int));
        }
    }
    proof {
        assert(assigned_values(model).take(sets@.len() as int) =~= assigned_values(model));
    }
}

impl UpdateBuilder {
    /// An `UPDATE` on `table`, without assignments or filters.
    pub fn new(table: &str) -> (r: UpdateBuilder)
        ensures
            r@ == (UpdateModel {
                table: table@,
                sets: Seq::<(Seq<char>, SqlValueView)>::empty(),
                filters: Seq::<FilterModel>::empty(),
            }),
    {
        let r = UpdateBuilder {
            table: String::from_str(table),
            set_clauses: Vec::new(),
            filters: Vec::new(),
        };
        proof {
            assert(filters_view(r.filters@) =~= Seq::<FilterModel>::empty());
            assert(assignments_view(r.set_clauses@) =~= Seq::<(Seq<char>, SqlValueView)>::empty());
        }
        r
    }

    /// Sets `column` to `value`.
    pub fn set<V: IntoSqlValue>(self, column: &'static str, value: V) -> (r: UpdateBuilder)
        ensures
            r@ == (UpdateModel {
                table: self@.table,
                sets: self@.sets.push((column@, value.value_view())),
                filters: self@.filters,
            }),
    {
        let mut b = self;
        let ghost before = b.set_clauses@;
        let v = value.into_value();
        b.set_clauses.push((column, v));
        proof {
            assert(assignments_view(b.set_clauses@) =~= assignments_view(before).push(
                (column@, value.value_view()),
            ));
        }
        b
    }

    /// Sets `column` to the value, where there is one; with `None` the
    /// builder stays as it is.
    pub fn set_if<V: IntoSqlValue>(self, column: &'static str, value: Option<V>) -> (r:
        UpdateBuilder)
        ensures
            r@ == match value {
                Some(v) => UpdateModel {
                    table: self@.table,
                    sets: self@.sets.push((column@, v.value_view())),
                    filters: self@.filters,
                },
                None => self@,
            },
    {
        match value {
            Some(v) => self.set(column, v),
            None => self,
        }
    }

    /// Adds a condition to the `WHERE` clause.
    pub fn filter(self, filter: Filter) -> (r: UpdateBuilder)
        ensures
            r@ == (UpdateModel {
                table: self@.table,
                sets: self@.sets,
                filters: self@.filters.push(filter@),
            }),
    {
        let mut b = self;
        proof {
            lemma_filters_push(b.filters@, filter);
        }
        b.filters.push(filter);
        b
    }

    /// Builds the query.
    ///
    /// Fails with `UnsupportedValue` exactly when a parameter has no wire form.
    #[verifier::rlimit(40)]
    pub fn build(self) -> (r: Result<Query, BuildError>)
        ensures
            match wire_all(update_params(self@)) {
                Some(wire) => r is Ok && r->Ok_0.sql@ == update_sql(self@) && wire_view(
                    r->Ok_0.params@,
                ) == wire,
                None => r == Err::<Query, BuildError>(BuildError::UnsupportedValue),
            },
            r is Ok && update_clear(self@) ==> placeholders(r->Ok_0.sql@) == numbered_from(
                1,
                r->Ok_0.params@.len() as nat,
            ),
    {
        let mut sql = String::new();
        let mut params: Vec<SqlValue> = Vec::new();
        sql.append("UPDATE ");
        push_quoted(&mut sql, self.table.as_str());
        sql.append(" SET ");
        push_assignments(&self.set_clauses, &mut sql, &mut params);
        proof {
            assert(params@.len() == values_view(params@).len());
        }
        push_where(&self.filters, self.table.as_str(), &mut sql, &mut params);
        proof {
            assert(sql@ =~= update_sql(self@));
            assert(values_view(params@) =~= update_params(self@));
        }
        proof {
            if update_clear(self@) {
                lemma_update_numbered(self@);
            }
        }
        build_query(sql, params)
    }
}

} // verus!
