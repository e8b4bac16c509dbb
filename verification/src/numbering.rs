//! The numbering law of the builders: the text of a statement holds the
//! placeholders `$1, $2, ..` once each and in this order, one for each
//! parameter, provided no identifier holds a dollar sign.

use vstd::prelude::*;
use crate::delete::{delete_params, delete_sql, quoted_list, returning_sql, DeleteModel};
use crate::filter::{
    chain_params, chain_sql, column_sql, filter_params, filter_sql, placeholder_list, FilterModel,
};
use crate::insert::{
    column_list, conflict_sql, excluded_list, insert_params, insert_row_sql, insert_sql,
    ConflictModel, InsertModel,
};
use crate::join::{join_keyword, JoinModel};
use crate::query::{condition_sql, conditions_sql, where_params, where_sql};
use crate::select::{
    count_params, joins_params, joins_sql, limit_sql, order_keyword, order_sql,
    orderings_sql, projection_aliases, projection_columns, projection_sql, select_params,
    select_sql, AliasModel, OrderModel, SelectModel,
};
use crate::text::{
    dollar_free, lemma_numbered_concat, lemma_numbered_placeholder, lemma_numbered_plain,
    lemma_plain_concat, lemma_quoted_column_plain, numbered_from, placeholder, placeholders,
    plain, quoted, quoted_column_text, well_numbered,
};
use crate::update::{assigned_values, assignments_sql, update_params, update_sql, UpdateModel};
use crate::value::SqlValueView;

verus! {

/// Whether the names of a column reference hold no dollar sign.
pub open spec fn name_clear(table: Option<Seq<char>>, column: Seq<char>) -> bool {
    (table is Some ==> dollar_free(table->Some_0)) && dollar_free(column)
}

/// Whether no table or column named in the filter holds a dollar sign.
pub open spec fn filter_clear(f: FilterModel) -> bool
    decreases f, 0nat,
{
    match f {
        FilterModel::Eq(t, c, _) => name_clear(t, c),
        FilterModel::Gt(t, c, _) => name_clear(t, c),
        FilterModel::Lt(t, c, _) => name_clear(t, c),
        FilterModel::Lte(t, c, _) => name_clear(t, c),
        FilterModel::In(t, c, _) => name_clear(t, c),
        FilterModel::IsNull(t, c) => name_clear(t, c),
        FilterModel::IsNotNull(t, c) => name_clear(t, c),
        FilterModel::Like(t, c, _) => name_clear(t, c),
        FilterModel::ColEq(t1, c1, t2, c2) => dollar_free(t1) && dollar_free(c1) && dollar_free(t2)
            && dollar_free(c2),
        FilterModel::And(fs) => chain_clear(fs, fs.len()),
        FilterModel::Or(fs) => chain_clear(fs, fs.len()),
        FilterModel::Not(inner) => filter_clear(*inner),
    }
}

/// Whether the first `n` of the filters `fs` are clear.
pub open spec fn chain_clear(fs: Seq<FilterModel>, n: nat) -> bool
    decreases fs, n,
{
    if n == 0 || n > fs.len() {
        true
    } else {
        chain_clear(fs, (n - 1) as nat) && filter_clear(fs[n - 1])
    }
}

/// The fixed words of the dialect hold no placeholder and start with no digit.
#[verifier::rlimit(40)]
pub proof fn lemma_keywords_plain()
    ensures
        plain(") > ("@),
        plain(") < ("@),
        plain(") <= ("@),
        plain(") IN ("@),
        plain(" = "@),
        plain(", "@),
        plain("("@),
        plain(")"@),
        plain(") = ("@),
        plain(") IS NULL"@),
        plain(") IS NOT NULL"@),
        plain(") LIKE ("@),
        plain(" AND "@),
        plain(" OR "@),
        plain("NOT ("@),
        plain(" WHERE "@),
        plain("SELECT "@),
        plain(" FROM "@),
        plain(" AS "@),
        plain(" "@),
        plain(" ON "@),
        plain("*"@),
        plain(" ORDER BY "@),
        plain(" ASC"@),
        plain(" DESC"@),
        plain(" LIMIT "@),
        plain(" OFFSET "@),
        plain("INSERT INTO "@),
        plain(" ("@),
        plain(" ()"@),
        plain(" ON CONFLICT ("@),
        plain(") DO NOTHING"@),
        plain(") DO UPDATE SET "@),
        plain("."@),
        plain(" RETURNING "@),
        plain(") VALUES ("@),
        plain("UPDATE "@),
        plain(" SET "@),
        plain("DELETE FROM "@),
        plain("INNER JOIN"@),
        plain("LEFT JOIN"@),
        plain("RIGHT JOIN"@),
        plain("FULL OUTER JOIN"@),
        plain(Seq::<char>::empty()),
{
    reveal_strlit(") > (");
    reveal_strlit(") < (");
    reveal_strlit(") <= (");
    reveal_strlit(") IN (");
    reveal_strlit(" = ");
    reveal_strlit(", ");
    reveal_strlit("(");
    reveal_strlit(")");
    reveal_strlit(") = (");
    reveal_strlit(") IS NULL");
    reveal_strlit(") IS NOT NULL");
    reveal_strlit(") LIKE (");
    reveal_strlit(" AND ");
    reveal_strlit(" OR ");
    reveal_strlit("NOT (");
    reveal_strlit(" WHERE ");
    reveal_strlit("SELECT ");
    reveal_strlit(" FROM ");
    reveal_strlit(" AS ");
    reveal_strlit(" ");
    reveal_strlit(" ON ");
    reveal_strlit("*");
    reveal_strlit(" ORDER BY ");
    reveal_strlit(" ASC");
    reveal_strlit(" DESC");
    reveal_strlit(" LIMIT ");
    reveal_strlit(" OFFSET ");
    reveal_strlit("INSERT INTO ");
    reveal_strlit(" (");
    reveal_strlit(" ()");
    reveal_strlit(" ON CONFLICT (");
    reveal_strlit(") DO NOTHING");
    reveal_strlit(") DO UPDATE SET ");
    reveal_strlit(".");
    reveal_strlit(" RETURNING ");
    reveal_strlit(") VALUES (");
    reveal_strlit("UPDATE ");
    reveal_strlit(" SET ");
    reveal_strlit("DELETE FROM ");
    reveal_strlit("INNER JOIN");
    reveal_strlit("LEFT JOIN");
    reveal_strlit("RIGHT JOIN");
    reveal_strlit("FULL OUTER JOIN");
}

/// A well-numbered text with fixed text behind it is well numbered.
pub proof fn lemma_then_plain(a: Seq<char>, lit: Seq<char>, base: nat, m: nat)
    requires
        well_numbered(a, base, m),
        plain(lit),
    ensures
        well_numbered(a + lit, base, m),
{
    lemma_numbered_plain(lit, base + m);
    lemma_numbered_concat(a, lit, base, m, 0);
}

/// A well-numbered text with a placeholder behind it, numbered one on, is
/// well numbered.
pub proof fn lemma_then_placeholder(a: Seq<char>, base: nat, m: nat)
    requires
        well_numbered(a, base, m),
    ensures
        well_numbered(a + placeholder(base + m + 1), base, m + 1),
{
    lemma_numbered_placeholder(base + m);
    lemma_numbered_concat(a, placeholder(base + m + 1), base, m, 1);
}

/// The empty text is well numbered with no placeholder.
pub proof fn lemma_numbered_empty(base: nat)
    ensures
        well_numbered(Seq::<char>::empty(), base, 0),
{
    lemma_keywords_plain();
    lemma_numbered_plain(Seq::<char>::empty(), base);
}

/// A list of `n` placeholders behind `base` parameters is well numbered.
pub proof fn lemma_placeholder_list(base: nat, n: nat)
    ensures
        well_numbered(placeholder_list(base, n), base, n),
    decreases n,
{
    lemma_keywords_plain();
    if n == 0 {
        lemma_numbered_empty(base);
    } else if n == 1 {
        lemma_numbered_placeholder(base);
    } else {
        lemma_placeholder_list(base, (n - 1) as nat);
        let a = placeholder_list(base, (n - 1) as nat);
        lemma_then_plain(a, ", "@, base, (n - 1) as nat);
        lemma_then_placeholder(a + ", "@, base, (n - 1) as nat);
    }
}

/// An opening parenthesis, a column reference with clear names and a
/// comparison sign hold no placeholder; with one placeholder and a closing
/// parenthesis behind them they hold that one.
proof fn lemma_compare(
    t: Option<Seq<char>>,
    c: Seq<char>,
    d: Seq<char>,
    sign: Seq<char>,
    base: nat,
)
    requires
        name_clear(t, c),
        dollar_free(d),
        plain(sign),
    ensures
        well_numbered("("@ + column_sql(t, c, d) + sign + placeholder(base + 1) + ")"@, base, 1),
        well_numbered("("@ + column_sql(t, c, d) + sign, base, 0),
{
    lemma_keywords_plain();
    let table = match t {
        Some(x) => x,
        None => d,
    };
    lemma_quoted_column_plain(table, c);
    lemma_numbered_plain("("@, base);
    lemma_then_plain("("@, column_sql(t, c, d), base, 0);
    lemma_then_plain("("@ + column_sql(t, c, d), sign, base, 0);
    lemma_then_placeholder("("@ + column_sql(t, c, d) + sign, base, 0);
    lemma_then_plain("("@ + column_sql(t, c, d) + sign + placeholder(base + 1), ")"@, base, 1);
}

/// The numbering law of a filter: behind `base` parameters its text holds
/// the placeholders `base + 1, ..`, one for each of its parameters.
#[verifier::rlimit(40)]
pub proof fn lemma_filter_numbered(f: FilterModel, d: Seq<char>, base: nat)
    requires
        filter_clear(f),
        dollar_free(d),
    ensures
        well_numbered(filter_sql(f, d, base), base, filter_params(f).len()),
    decreases f, 0nat,
{
    lemma_keywords_plain();
    match f {
        FilterModel::Eq(t, c, _) => {
            lemma_compare(t, c, d, ") = ("@, base);
        },
        FilterModel::Gt(t, c, _) => {
            lemma_compare(t, c, d, ") > ("@, base);
        },
        FilterModel::Lt(t, c, _) => {
            lemma_compare(t, c, d, ") < ("@, base);
        },
        FilterModel::Lte(t, c, _) => {
            lemma_compare(t, c, d, ") <= ("@, base);
        },
        FilterModel::Like(t, c, _) => {
            lemma_compare(t, c, d, ") LIKE ("@, base);
        },
        FilterModel::In(t, c, vs) => {
            if vs.len() == 0 {
                lemma_numbered_plain("("@, base);
                lemma_then_placeholder("("@, base, 0);
                let a = "("@ + placeholder(base + 1);
                lemma_then_plain(a, ") = ("@, base, 1);
                lemma_then_placeholder(a + ") = ("@, base, 1);
                lemma_then_plain(a + ") = ("@ + placeholder(base + 2), ")"@, base, 2);
            } else {
                lemma_compare(t, c, d, ") IN ("@, base);
                lemma_placeholder_list(base, vs.len());
                let a = "("@ + column_sql(t, c, d) + ") IN ("@;
                lemma_numbered_concat(a, placeholder_list(base, vs.len()), base, 0, vs.len());
                lemma_then_plain(a + placeholder_list(base, vs.len()), ")"@, base, vs.len());
            }
        },
        FilterModel::IsNull(t, c) => {
            lemma_compare(t, c, d, ") IS NULL"@, base);
        },
        FilterModel::IsNotNull(t, c) => {
            lemma_compare(t, c, d, ") IS NOT NULL"@, base);
        },
        FilterModel::ColEq(t1, c1, t2, c2) => {
            lemma_quoted_column_plain(t1, c1);
            lemma_quoted_column_plain(t2, c2);
            lemma_numbered_plain("("@, base);
            lemma_then_plain("("@, quoted_column_text(t1, c1), base, 0);
            lemma_then_plain("("@ + quoted_column_text(t1, c1), ") = ("@, base, 0);
            lemma_then_plain(
                "("@ + quoted_column_text(t1, c1) + ") = ("@,
                quoted_column_text(t2, c2),
                base,
                0,
            );
            lemma_then_plain(
                "("@ + quoted_column_text(t1, c1) + ") = ("@ + quoted_column_text(t2, c2),
                ")"@,
                base,
                0,
            );
        },
        FilterModel::And(fs) => {
            if fs.len() == 0 {
                lemma_numbered_placeholder(base);
            } else if fs.len() == 1 {
                assert(chain_clear(fs, 1) == (chain_clear(fs, 0) && filter_clear(fs[0])));
                lemma_filter_numbered(fs[0], d, base);
                assert(chain_params(fs, 0) == Seq::<SqlValueView>::empty());
                assert(chain_params(fs, 1) =~= filter_params(fs[0]));
            } else {
                lemma_chain_numbered(fs, fs.len(), " AND "@, d, base);
            }
        },
        FilterModel::Or(fs) => {
            if fs.len() == 0 {
                lemma_numbered_placeholder(base);
            } else if fs.len() == 1 {
                assert(chain_clear(fs, 1) == (chain_clear(fs, 0) && filter_clear(fs[0])));
                lemma_filter_numbered(fs[0], d, base);
                assert(chain_params(fs, 0) == Seq::<SqlValueView>::empty());
                assert(chain_params(fs, 1) =~= filter_params(fs[0]));
            } else {
                lemma_chain_numbered(fs, fs.len(), " OR "@, d, base);
            }
        },
        FilterModel::Not(inner) => {
            lemma_filter_numbered(*inner, d, base);
            let n = filter_params(*inner).len();
            lemma_numbered_plain("NOT ("@, base);
            lemma_numbered_concat("NOT ("@, filter_sql(*inner, d, base), base, 0, n);
            lemma_then_plain("NOT ("@ + filter_sql(*inner, d, base), ")"@, base, n);
        },
    }
}

/// The numbering law of the operands of a combinator.
#[verifier::rlimit(40)]
pub proof fn lemma_chain_numbered(
    fs: Seq<FilterModel>,
    n: nat,
    separator: Seq<char>,
    d: Seq<char>,
    base: nat,
)
    requires
        n <= fs.len(),
        chain_clear(fs, n),
        dollar_free(d),
        plain(separator),
    ensures
        well_numbered(chain_sql(fs, n, separator, d, base), base, chain_params(fs, n).len()),
    decreases fs, n,
{
    lemma_keywords_plain();
    if n == 0 {
        lemma_numbered_empty(base);
    } else {
        let k = (n - 1) as nat;
        lemma_chain_numbered(fs, k, separator, d, base);
        let before = chain_params(fs, k).len();
        let head = chain_sql(fs, k, separator, d, base);
        let sep = if n > 1 {
            separator
        } else {
            Seq::<char>::empty()
        };
        lemma_then_plain(head, sep, base, before);
        lemma_then_plain(head + sep, "("@, base, before);
        lemma_filter_numbered(fs[n - 1], d, base + before);
        let inner = filter_sql(fs[n - 1], d, base + before);
        let count = filter_params(fs[n - 1]).len();
        lemma_numbered_concat(head + sep + "("@, inner, base, before, count);
        lemma_then_plain(head + sep + "("@ + inner, ")"@, base, before + count);
    }
}

/// The numbering law of the conditions of a clause.
#[verifier::rlimit(40)]
pub proof fn lemma_conditions_numbered(fs: Seq<FilterModel>, n: nat, table: Seq<char>, base: nat)
    requires
        n <= fs.len(),
        chain_clear(fs, n),
        dollar_free(table),
    ensures
        well_numbered(conditions_sql(fs, n, table, base), base, chain_params(fs, n).len()),
    decreases n,
{
    lemma_keywords_plain();
    if n == 0 {
        lemma_numbered_empty(base);
    } else {
        let k = (n - 1) as nat;
        lemma_conditions_numbered(fs, k, table, base);
        let before = chain_params(fs, k).len();
        let head = conditions_sql(fs, k, table, base);
        let sep = if n > 1 {
            " AND "@
        } else {
            Seq::<char>::empty()
        };
        lemma_then_plain(head, sep, base, before);
        lemma_filter_numbered(fs[n - 1], table, base + before);
        let inner = filter_sql(fs[n - 1], table, base + before);
        let count = filter_params(fs[n - 1]).len();
        if fs.len() > 1 {
            lemma_numbered_plain("("@, base + before);
            lemma_numbered_concat("("@, inner, base + before, 0, count);
            lemma_then_plain("("@ + inner, ")"@, base + before, count);
        }
        lemma_numbered_concat(
            head + sep,
            condition_sql(fs[n - 1], fs.len(), table, base + before),
            base,
            before,
            count,
        );
    }
}

/// The numbering law of a `WHERE` clause.
pub proof fn lemma_where_numbered(fs: Seq<FilterModel>, table: Seq<char>, base: nat)
    requires
        chain_clear(fs, fs.len()),
        dollar_free(table),
    ensures
        well_numbered(where_sql(fs, table, base), base, where_params(fs).len()),
{
    lemma_keywords_plain();
    if fs.len() == 0 {
        lemma_numbered_empty(base);
    } else {
        lemma_conditions_numbered(fs, fs.len(), table, base);
        lemma_numbered_plain(" WHERE "@, base);
        lemma_numbered_concat(
            " WHERE "@,
            conditions_sql(fs, fs.len(), table, base),
            base,
            0,
            chain_params(fs, fs.len()).len(),
        );
    }
}

/// Whether no name of a `DELETE` holds a dollar sign.
pub open spec fn delete_clear(m: DeleteModel) -> bool {
    dollar_free(m.table) && chain_clear(m.filters, m.filters.len()) && names_clear(
        m.returning,
        m.returning.len(),
    )
}

/// A list of quoted names without a dollar sign is fixed text.
pub proof fn lemma_quoted_list_plain(names: Seq<Seq<char>>, n: nat)
    requires
        n <= names.len(),
        names_clear(names, n),
    ensures
        plain(quoted_list(names, n)),
    decreases n,
{
    lemma_keywords_plain();
    if n > 0 {
        let k = (n - 1) as nat;
        lemma_quoted_list_plain(names, k);
        let sep = if n > 1 {
            ", "@
        } else {
            Seq::<char>::empty()
        };
        lemma_plain_concat(quoted_list(names, k), sep);
        assert(dollar_free(names[n - 1]));
        crate::text::lemma_quoted_clear(names[n - 1]);
        lemma_plain_concat(quoted_list(names, k) + sep, quoted(names[n - 1]));
    }
}

/// The numbering law of `DELETE`.
pub proof fn lemma_delete_numbered(m: DeleteModel)
    requires
        delete_clear(m),
    ensures
        placeholders(delete_sql(m)) == numbered_from(1, delete_params(m).len()),
{
    lemma_keywords_plain();
    crate::text::lemma_quoted_clear(m.table);
    lemma_numbered_plain("DELETE FROM "@, 0);
    lemma_then_plain("DELETE FROM "@, quoted(m.table), 0, 0);
    lemma_where_numbered(m.filters, m.table, 0);
    lemma_numbered_concat(
        "DELETE FROM "@ + quoted(m.table),
        where_sql(m.filters, m.table, 0),
        0,
        0,
        where_params(m.filters).len(),
    );
    if m.returning.len() > 0 {
        lemma_quoted_list_plain(m.returning, m.returning.len());
        lemma_plain_concat(" RETURNING "@, quoted_list(m.returning, m.returning.len()));
    }
    lemma_then_plain(
        "DELETE FROM "@ + quoted(m.table) + where_sql(m.filters, m.table, 0),
        returning_sql(m.returning),
        0,
        where_params(m.filters).len(),
    );
}

/// Whether no column of the first `n` assignments holds a dollar sign.
pub open spec fn columns_clear(sets: Seq<(Seq<char>, SqlValueView)>, n: nat) -> bool {
    forall|i: int| 0 <= i < n && i < sets.len() ==> dollar_free(#[trigger] sets[i].0)
}

/// The numbering law of the assignments of an `UPDATE`.
pub proof fn lemma_assignments_numbered(sets: Seq<(Seq<char>, SqlValueView)>, n: nat)
    requires
        n <= sets.len(),
        columns_clear(sets, n),
    ensures
        well_numbered(assignments_sql(sets, n, 0), 0, n),
    decreases n,
{
    lemma_keywords_plain();
    if n == 0 {
        lemma_numbered_empty(0);
    } else {
        let k = (n - 1) as nat;
        lemma_assignments_numbered(sets, k);
        let head = assignments_sql(sets, k, 0);
        let sep = if n > 1 {
            ", "@
        } else {
            Seq::<char>::empty()
        };
        lemma_then_plain(head, sep, 0, k);
        assert(dollar_free(sets[n - 1].0));
        crate::text::lemma_quoted_clear(sets[n - 1].0);
        lemma_then_plain(head + sep, quoted(sets[n - 1].0), 0, k);
        lemma_then_plain(head + sep + quoted(sets[n - 1].0), " = "@, 0, k);
        lemma_then_placeholder(head + sep + quoted(sets[n - 1].0) + " = "@, 0, k);
    }
}

/// Whether no name of an `UPDATE` holds a dollar sign.
pub open spec fn update_clear(m: UpdateModel) -> bool {
    dollar_free(m.table) && columns_clear(m.sets, m.sets.len()) && chain_clear(
        m.filters,
        m.filters.len(),
    )
}

/// The numbering law of `UPDATE`.
pub proof fn lemma_update_numbered(m: UpdateModel)
    requires
        update_clear(m),
    ensures
        placeholders(update_sql(m)) == numbered_from(1, update_params(m).len()),
{
    lemma_keywords_plain();
    crate::text::lemma_quoted_clear(m.table);
    let n = m.sets.len();
    lemma_numbered_plain("UPDATE "@, 0);
    lemma_then_plain("UPDATE "@, quoted(m.table), 0, 0);
    lemma_then_plain("UPDATE "@ + quoted(m.table), " SET "@, 0, 0);
    lemma_assignments_numbered(m.sets, n);
    let head = "UPDATE "@ + quoted(m.table) + " SET "@;
    lemma_numbered_concat(head, assignments_sql(m.sets, n, 0), 0, 0, n);
    lemma_where_numbered(m.filters, m.table, n);
    lemma_numbered_concat(
        head + assignments_sql(m.sets, n, 0),
        where_sql(m.filters, m.table, n),
        0,
        n,
        where_params(m.filters).len(),
    );
    assert(assigned_values(m.sets).len() == n);
}

/// The column names of an `INSERT` are fixed text.
pub proof fn lemma_column_list_plain(values: Seq<(Seq<char>, SqlValueView)>, n: nat)
    requires
        n <= values.len(),
        columns_clear(values, n),
    ensures
        plain(column_list(values, n)),
    decreases n,
{
    lemma_keywords_plain();
    if n > 0 {
        let k = (n - 1) as nat;
        lemma_column_list_plain(values, k);
        let sep = if n > 1 {
            ", "@
        } else {
            Seq::<char>::empty()
        };
        lemma_plain_concat(column_list(values, k), sep);
        assert(dollar_free(values[n - 1].0));
        crate::text::lemma_quoted_clear(values[n - 1].0);
        lemma_plain_concat(column_list(values, k) + sep, quoted(values[n - 1].0));
    }
}

/// Whether no name of an `INSERT` holds a dollar sign.
pub open spec fn insert_clear(m: InsertModel) -> bool {
    &&& dollar_free(m.table)
    &&& columns_clear(m.values, m.values.len())
    &&& m.conflict matches Some(target) ==> dollar_free(target)
    &&& m.action matches Some(ConflictModel::DoUpdate(columns)) ==> names_clear(
        columns,
        columns.len(),
    )
}

/// The assignments of an upsert with clear names are fixed text.
pub proof fn lemma_excluded_list_plain(columns: Seq<Seq<char>>, n: nat)
    requires
        n <= columns.len(),
        names_clear(columns, n),
    ensures
        plain(excluded_list(columns, n)),
    decreases n,
{
    lemma_keywords_plain();
    if n > 0 {
        let k = (n - 1) as nat;
        lemma_excluded_list_plain(columns, k);
        let sep = if n > 1 {
            ", "@
        } else {
            Seq::<char>::empty()
        };
        let c = columns[n - 1];
        assert(dollar_free(c));
        crate::text::lemma_quoted_clear(c);
        assert(dollar_free("excluded"@)) by {
            reveal_strlit("excluded");
        }
        crate::text::lemma_quoted_clear("excluded"@);
        let head = excluded_list(columns, k);
        lemma_plain_concat(head, sep);
        lemma_plain_concat(head + sep, quoted(c));
        lemma_plain_concat(head + sep + quoted(c), " = "@);
        lemma_plain_concat(head + sep + quoted(c) + " = "@, quoted("excluded"@));
        lemma_plain_concat(head + sep + quoted(c) + " = "@ + quoted("excluded"@), "."@);
        lemma_plain_concat(
            head + sep + quoted(c) + " = "@ + quoted("excluded"@) + "."@,
            quoted(c),
        );
    }
}

/// An `ON CONFLICT` clause with clear names is fixed text.
pub proof fn lemma_conflict_plain(m: InsertModel)
    requires
        insert_clear(m),
    ensures
        plain(conflict_sql(m)),
{
    lemma_keywords_plain();
    match (m.conflict, m.action) {
        (Some(target), Some(ConflictModel::DoNothing)) => {
            crate::text::lemma_quoted_clear(target);
            lemma_plain_concat(" ON CONFLICT ("@, quoted(target));
            lemma_plain_concat(" ON CONFLICT ("@ + quoted(target), ") DO NOTHING"@);
        },
        (Some(target), Some(ConflictModel::DoUpdate(columns))) => {
            crate::text::lemma_quoted_clear(target);
            lemma_excluded_list_plain(columns, columns.len());
            lemma_plain_concat(" ON CONFLICT ("@, quoted(target));
            lemma_plain_concat(" ON CONFLICT ("@ + quoted(target), ") DO UPDATE SET "@);
            lemma_plain_concat(
                " ON CONFLICT ("@ + quoted(target) + ") DO UPDATE SET "@,
                excluded_list(columns, columns.len()),
            );
        },
        _ => {},
    }
}

/// The numbering law of `INSERT`.
pub proof fn lemma_insert_numbered(m: InsertModel)
    requires
        insert_clear(m),
    ensures
        placeholders(insert_sql(m)) == numbered_from(1, insert_params(m).len()),
{
    lemma_keywords_plain();
    crate::text::lemma_quoted_clear(m.table);
    let n = m.values.len();
    lemma_numbered_plain("INSERT INTO "@, 0);
    lemma_then_plain("INSERT INTO "@, quoted(m.table), 0, 0);
    assert(assigned_values(m.values).len() == n);
    lemma_conflict_plain(m);
    if n == 0 {
        lemma_then_plain("INSERT INTO "@ + quoted(m.table), " ()"@, 0, 0);
        lemma_then_plain(insert_row_sql(m), conflict_sql(m), 0, 0);
    } else {
        lemma_then_plain("INSERT INTO "@ + quoted(m.table), " ("@, 0, 0);
        lemma_column_list_plain(m.values, n);
        let a = "INSERT INTO "@ + quoted(m.table) + " ("@;
        lemma_then_plain(a, column_list(m.values, n), 0, 0);
        lemma_then_plain(a + column_list(m.values, n), ") VALUES ("@, 0, 0);
        lemma_placeholder_list(0, n);
        let b = a + column_list(m.values, n) + ") VALUES ("@;
        lemma_numbered_concat(b, placeholder_list(0, n), 0, 0, n);
        lemma_then_plain(b + placeholder_list(0, n), ")"@, 0, n);
        lemma_then_plain(insert_row_sql(m), conflict_sql(m), 0, n);
    }
}

/// Whether no name of the first `n` aliased columns holds a dollar sign.
pub open spec fn aliases_clear(aliases: Seq<AliasModel>, n: nat) -> bool {
    forall|i: int|
        0 <= i < n && i < aliases.len() ==> dollar_free((#[trigger] aliases[i]).alias)
            && dollar_free(aliases[i].table) && dollar_free(aliases[i].column)
}

/// Whether none of the first `n` names holds a dollar sign.
pub open spec fn names_clear(names: Seq<Seq<char>>, n: nat) -> bool {
    forall|i: int| 0 <= i < n && i < names.len() ==> dollar_free(#[trigger] names[i])
}

/// Whether no name of the first `n` orderings holds a dollar sign.
pub open spec fn order_clear(order: Seq<OrderModel>, n: nat) -> bool {
    forall|i: int|
        0 <= i < n && i < order.len() ==> name_clear(
            (#[trigger] order[i]).table,
            order[i].column,
        )
}

/// Whether no name of the first `n` joins holds a dollar sign.
pub open spec fn joins_clear(joins: Seq<JoinModel>, n: nat) -> bool {
    forall|i: int|
        0 <= i < n && i < joins.len() ==> dollar_free((#[trigger] joins[i]).table)
            && filter_clear(joins[i].on)
}

/// Whether no name of a `SELECT` holds a dollar sign.
pub open spec fn select_clear(m: SelectModel) -> bool {
    &&& dollar_free(m.table)
    &&& names_clear(m.columns, m.columns.len())
    &&& aliases_clear(m.aliases, m.aliases.len())
    &&& chain_clear(m.filters, m.filters.len())
    &&& order_clear(m.order, m.order.len())
    &&& joins_clear(m.joins, m.joins.len())
}

/// The plain columns of a projection with clear names are fixed text.
proof fn lemma_projection_columns_plain(table: Seq<char>, columns: Seq<Seq<char>>, n: nat)
    requires
        n <= columns.len(),
        dollar_free(table),
        names_clear(columns, n),
    ensures
        plain(projection_columns(table, columns, n)),
    decreases n,
{
    lemma_keywords_plain();
    if n > 0 {
        let k = (n - 1) as nat;
        lemma_projection_columns_plain(table, columns, k);
        let sep = if n > 1 {
            ", "@
        } else {
            Seq::<char>::empty()
        };
        lemma_plain_concat(projection_columns(table, columns, k), sep);
        assert(dollar_free(columns[n - 1]));
        lemma_quoted_column_plain(table, columns[n - 1]);
        lemma_plain_concat(
            projection_columns(table, columns, k) + sep,
            quoted_column_text(table, columns[n - 1]),
        );
    }
}

/// The aliased columns of a projection with clear names are fixed text.
proof fn lemma_projection_aliases_plain(aliases: Seq<AliasModel>, n: nat, before: bool)
    requires
        n <= aliases.len(),
        aliases_clear(aliases, n),
    ensures
        plain(projection_aliases(aliases, n, before)),
    decreases n,
{
    lemma_keywords_plain();
    if n > 0 {
        let k = (n - 1) as nat;
        lemma_projection_aliases_plain(aliases, k, before);
        let sep = if n > 1 || before {
            ", "@
        } else {
            Seq::<char>::empty()
        };
        let a = aliases[n - 1];
        assert(dollar_free(a.alias) && dollar_free(a.table) && dollar_free(a.column));
        lemma_quoted_column_plain(a.table, a.column);
        crate::text::lemma_quoted_clear(a.alias);
        let head = projection_aliases(aliases, k, before);
        lemma_plain_concat(head, sep);
        lemma_plain_concat(head + sep, quoted_column_text(a.table, a.column));
        lemma_plain_concat(head + sep + quoted_column_text(a.table, a.column), " AS "@);
        lemma_plain_concat(
            head + sep + quoted_column_text(a.table, a.column) + " AS "@,
            quoted(a.alias),
        );
    }
}

/// Orderings with clear names are fixed text.
proof fn lemma_orderings_plain(table: Seq<char>, order: Seq<OrderModel>, n: nat)
    requires
        n <= order.len(),
        dollar_free(table),
        order_clear(order, n),
    ensures
        plain(orderings_sql(table, order, n)),
    decreases n,
{
    lemma_keywords_plain();
    if n > 0 {
        let k = (n - 1) as nat;
        lemma_orderings_plain(table, order, k);
        let sep = if n > 1 {
            ", "@
        } else {
            Seq::<char>::empty()
        };
        let head = orderings_sql(table, order, k);
        let o = order[n - 1];
        assert(name_clear(o.table, o.column));
        let own = match o.table {
            Some(t) => t,
            None => table,
        };
        lemma_quoted_column_plain(own, o.column);
        lemma_plain_concat(head, sep);
        lemma_plain_concat(head + sep, column_sql(o.table, o.column, table));
        lemma_plain_concat(
            head + sep + column_sql(o.table, o.column, table),
            order_keyword(o.dir),
        );
    }
}

/// The numbering law of the joins of a `SELECT`.
#[verifier::rlimit(40)]
pub proof fn lemma_joins_numbered(joins: Seq<JoinModel>, n: nat)
    requires
        n <= joins.len(),
        joins_clear(joins, n),
    ensures
        well_numbered(joins_sql(joins, n), 0, joins_params(joins, n).len()),
    decreases n,
{
    lemma_keywords_plain();
    if n == 0 {
        lemma_numbered_empty(0);
    } else {
        let k = (n - 1) as nat;
        lemma_joins_numbered(joins, k);
        let j = joins[n - 1];
        assert(dollar_free(j.table) && filter_clear(j.on));
        let before = joins_params(joins, k).len();
        let head = joins_sql(joins, k);
        crate::text::lemma_quoted_clear(j.table);
        lemma_then_plain(head, " "@, 0, before);
        lemma_then_plain(head + " "@, join_keyword(j.kind), 0, before);
        lemma_then_plain(head + " "@ + join_keyword(j.kind), " "@, 0, before);
        lemma_then_plain(head + " "@ + join_keyword(j.kind) + " "@, quoted(j.table), 0, before);
        lemma_then_plain(
            head + " "@ + join_keyword(j.kind) + " "@ + quoted(j.table),
            " ON "@,
            0,
            before,
        );
        lemma_filter_numbered(j.on, j.table, before);
        lemma_numbered_concat(
            head + " "@ + join_keyword(j.kind) + " "@ + quoted(j.table) + " ON "@,
            filter_sql(j.on, j.table, before),
            0,
            before,
            filter_params(j.on).len(),
        );
    }
}

/// The start of a `SELECT`, up to its table, holds no placeholder.
proof fn lemma_select_head(m: SelectModel)
    requires
        select_clear(m),
    ensures
        well_numbered("SELECT "@ + projection_sql(m) + " FROM "@ + quoted(m.table), 0, 0),
{
    lemma_keywords_plain();
    crate::text::lemma_quoted_clear(m.table);
    if m.columns.len() == 0 && m.aliases.len() == 0 {
    } else {
        lemma_projection_columns_plain(m.table, m.columns, m.columns.len());
        lemma_projection_aliases_plain(m.aliases, m.aliases.len(), m.columns.len() > 0);
        lemma_plain_concat(
            projection_columns(m.table, m.columns, m.columns.len()),
            projection_aliases(m.aliases, m.aliases.len(), m.columns.len() > 0),
        );
    }
    lemma_numbered_plain("SELECT "@, 0);
    lemma_then_plain("SELECT "@, projection_sql(m), 0, 0);
    let a = "SELECT "@ + projection_sql(m);
    lemma_then_plain(a, " FROM "@, 0, 0);
    lemma_then_plain(a + " FROM "@, quoted(m.table), 0, 0);
}

/// An `ORDER BY` clause with clear names is fixed text.
proof fn lemma_order_plain(table: Seq<char>, order: Seq<OrderModel>)
    requires
        dollar_free(table),
        order_clear(order, order.len()),
    ensures
        plain(order_sql(table, order)),
{
    lemma_keywords_plain();
    if order.len() > 0 {
        lemma_orderings_plain(table, order, order.len());
        lemma_plain_concat(" ORDER BY "@, orderings_sql(table, order, order.len()));
    }
}

/// A `LIMIT` or `OFFSET` clause behind a well-numbered text.
proof fn lemma_then_count(a: Seq<char>, word: Seq<char>, count: Option<u64>, m: nat)
    requires
        well_numbered(a, 0, m),
        plain(word),
    ensures
        well_numbered(
            a + (match count {
                Some(_) => word + placeholder(m + 1),
                None => Seq::<char>::empty(),
            }),
            0,
            m + count_params(count).len(),
        ),
{
    match count {
        Some(_) => {
            lemma_then_plain(a, word, 0, m);
            lemma_then_placeholder(a + word, 0, m);
            assert(a + (word + placeholder(m + 1)) =~= a + word + placeholder(m + 1));
        },
        None => {
            assert(a + Seq::<char>::empty() =~= a);
        },
    }
}

/// The numbering law of `SELECT`.
#[verifier::rlimit(40)]
pub proof fn lemma_select_numbered(m: SelectModel)
    requires
        select_clear(m),
    ensures
        placeholders(select_sql(m)) == numbered_from(1, select_params(m).len()),
{
    let joined = joins_params(m.joins, m.joins.len()).len();
    let filtered = joined + where_params(m.filters).len();
    let limited = filtered + count_params(m.limit).len();
    let b = "SELECT "@ + projection_sql(m) + " FROM "@ + quoted(m.table);
    lemma_select_head(m);
    lemma_joins_numbered(m.joins, m.joins.len());
    lemma_numbered_concat(b, joins_sql(m.joins, m.joins.len()), 0, 0, joined);
    let c = b + joins_sql(m.joins, m.joins.len());
    lemma_where_numbered(m.filters, m.table, joined);
    lemma_numbered_concat(
        c,
        where_sql(m.filters, m.table, joined),
        0,
        joined,
        where_params(m.filters).len(),
    );
    let e = c + where_sql(m.filters, m.table, joined);
    lemma_order_plain(m.table, m.order);
    lemma_then_plain(e, order_sql(m.table, m.order), 0, filtered);
    let g = e + order_sql(m.table, m.order);
    assert(plain(" LIMIT "@) && plain(" OFFSET "@)) by {
        lemma_keywords_plain();
    }
    lemma_then_count(g, " LIMIT "@, m.limit, filtered);
    let h = g + limit_sql(m.limit, filtered);
    lemma_then_count(h, " OFFSET "@, m.offset, limited);
    assert(select_params(m).len() == limited + count_params(m.offset).len());
}

} // verus!
