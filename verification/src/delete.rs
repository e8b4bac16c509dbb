//! The `DELETE` builder.

use vstd::prelude::*;
use vstd::string::StringExecFns;
use crate::filter::{filters_view, lemma_filter_models, Filter, FilterModel};
use crate::query::{build_query, push_where, where_params, where_sql, Query};
use crate::text::{push_quoted, quoted};
use crate::value::{wire_all, wire_view, BuildError, SqlValue, SqlValueView};

use crate::numbering::{delete_clear, lemma_delete_numbered};
use crate::text::{numbered_from, placeholders};

verus! {

/// Builds a `DELETE` statement.
pub struct DeleteBuilder {
    table: String,
    filters: Vec<Filter>,
    returning: Vec<String>,
}

/// What a [`DeleteBuilder`] holds.
pub struct DeleteModel {
    pub table: Seq<char>,
    pub filters: Seq<FilterModel>,
    /// The columns of the deleted rows that are handed back.
    pub returning: Seq<Seq<char>>,
}

impl View for DeleteBuilder {
    type V = DeleteModel;

    closed spec fn view(&self) -> DeleteModel {
        DeleteModel {
            table: self.table@,
            filters: filters_view(self.filters@),
            returning: crate::select::names_view(self.returning@),
        }
    }
}

/// The first `n` of the names `names`, quoted and separated by a comma and
/// a space.
pub open spec fn quoted_list(names: Seq<Seq<char>>, n: nat) -> Seq<char>
    decreases n,
{
    if n == 0 || n > names.len() {
        Seq::<char>::empty()
    } else {
        quoted_list(names, (n - 1) as nat) + (if n > 1 {
            ", "@
        } else {
            Seq::<char>::empty()
        }) + quoted(names[n - 1])
    }
}

/// The `RETURNING` clause: nothing where no column is handed back.
pub open spec fn returning_sql(names: Seq<Seq<char>>) -> Seq<char> {
    if names.len() == 0 {
        Seq::<char>::empty()
    } else {
        " RETURNING "@ + quoted_list(names, names.len())
    }
}

/// The text of a `DELETE`: `DELETE FROM "table"`, the `WHERE` clause and
/// the `RETURNING` clause. Without a filter it deletes every row.
pub open spec fn delete_sql(m: DeleteModel) -> Seq<char> {
    "DELETE FROM "@ + quoted(m.table) + where_sql(m.filters, m.table, 0) + returning_sql(
        m.returning,
    )
}

/// The parameters of a `DELETE`.
pub open spec fn delete_params(m: DeleteModel) -> Seq<SqlValueView> {
    where_params(m.filters)
}

/// The models of a list of filters with one more at its end.
pub proof fn lemma_filters_push(fs: Seq<Filter>, f: Filter)
    ensures
        filters_view(fs.push(f)) == filters_view(fs).push(f@),
{
    let longer = fs.push(f);
    lemma_filter_models(fs, fs.len());
    lemma_filter_models(longer, longer.len());
    assert forall|i: int| 0 <= i < longer.len() implies filters_view(longer)[i] == filters_view(
        fs,
    ).push(f@)[i] by {
        if i < fs.len() {
            assert(longer[i] == fs[i]);
        }
    }
    assert(filters_view(longer) =~= filters_view(fs).push(f@));
}

impl DeleteBuilder {
    /// A `DELETE` on `table`, without filters.
    pub fn new(table: &str) -> (r: DeleteBuilder)
        ensures
            r@ == (DeleteModel {
                table: table@,
                filters: Seq::<FilterModel>::empty(),
                returning: Seq::<Seq<char>>::empty(),
            }),
    {
        let r = DeleteBuilder {
            table: String::from_str(table),
            filters: Vec::new(),
            returning: Vec::new(),
        };
        proof {
            assert(filters_view(r.filters@) =~= Seq::<FilterModel>::empty());
            assert(crate::select::names_view(r.returning@) =~= Seq::<Seq<char>>::empty());
        }
        r
    }

    /// Hands back `column` of every deleted row.
    pub fn returning(self, column: &str) -> (r: DeleteBuilder)
        ensures
            r@ == (DeleteModel { returning: self@.returning.push(column@), ..self@ }),
    {
        let mut b = self;
        let ghost before = b.returning@;
        b.returning.push(String::from_str(column));
        proof {
            assert(crate::select::names_view(b.returning@) =~= crate::select::names_view(
                before,
            ).push(column@));
        }
        b
    }

    /// Appends the `RETURNING` clause to `sql`.
    fn push_returning(&self, sql: &mut String)
        ensures
            final(sql)@ == old(sql)@ + returning_sql(self@.returning),
    {
        let ghost sql0 = sql@;
        let ghost names = self@.returning;
        if self.returning.len() == 0 {
            proof {
                assert(sql@ =~= sql0 + returning_sql(names));
            }
            return ;
        }
        sql.append(" RETURNING ");
        let ghost sql1 = sql@;
        let mut i: usize = 0;
        while i < self.returning.len()
            invariant
                i <= self.returning.len(),
                names == self@.returning,
                sql@ == sql1 + quoted_list(names, i as nat),
            decreases self.returning.len() - i,
        {
            if i > 0 {
                sql.append(", ");
            }
            push_quoted(sql, self.returning[i].as_str());
            i = i + 1;
            proof {
                assert(names[i - 1] == self.returning@[i - 1]@);
                assert(sql@ =~= sql1 + quoted_list(names, i as nat));
            }
        }
        proof {
            assert(sql@ =~= sql0 + returning_sql(names));
        }
    }

    /// Adds a condition to the `WHERE` clause.
    pub fn filter(self, filter: Filter) -> (r: DeleteBuilder)
        ensures
            r@ == (DeleteModel { filters: self@.filters.push(filter@), ..self@ }),
    {
        let mut b = self;
        proof {
            lemma_filters_push(b.filters@, filter);
        }
        b.filters.push(filter);
        b
    }

    /// Builds the query.
    ///
    /// Fails with `UnsupportedValue` exactly when a parameter has no wire form.
    #[verifier::rlimit(40)]
    pub fn build(self) -> (r: Result<Query, BuildError>)
        ensures
            match wire_all(delete_params(self@)) {
                Some(wire) => r is Ok && r->Ok_0.sql@ == delete_sql(self@) && wire_view(
                    r->Ok_0.params@,
                ) == wire,
                None => r == Err::<Query, BuildError>(BuildError::UnsupportedValue),
            },
            r is Ok && delete_clear(self@) ==> placeholders(r->Ok_0.sql@) == numbered_from(
                1,
                r->Ok_0.params@.len() as nat,
            ),
    {
        let mut sql = String::new();
        let mut params: Vec<SqlValue> = Vec::new();
        sql.append("DELETE FROM ");
        push_quoted(&mut sql, self.table.as_str());
        push_where(&self.filters, self.table.as_str(), &mut sql, &mut params);
        self.push_returning(&mut sql);
        proof {
            assert(sql@ =~= delete_sql(self@));
            assert(crate::value::values_view(params@) =~= delete_params(self@));
        }
        proof {
            if delete_clear(self@) {
                lemma_delete_numbered(self@);
            }
        }
        build_query(sql, params)
    }
}

} // verus!
