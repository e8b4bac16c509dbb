//! The `INSERT` builder.

use vstd::prelude::*;
use vstd::string::StringExecFns;
use crate::entity::{Entity, EntityValues};
use crate::filter::{clone_value, placeholder_list, push_param};
use crate::query::{build_query, Query};
use crate::select::names_view;
use crate::text::{push_quoted, quoted};
use crate::update::{assigned_values, assignments_view};
use crate::value::{values_view, wire_all, wire_view, BuildError, IntoSqlValue, SqlValue, SqlValueView};

use crate::numbering::{insert_clear, lemma_insert_numbered};
use crate::text::{numbered_from, placeholders};

verus! {

/// What an `INSERT` does where the row is there already.
#[derive(Debug, Clone, PartialEq, Eq)]
pub enum ConflictAction {
    /// The row that is there stays as it is.
    DoNothing,
    /// These columns of the row that is there take the new values.
    DoUpdate(Vec<String>),
}

/// What a [`ConflictAction`] holds.
pub enum ConflictModel {
    DoNothing,
    DoUpdate(Seq<Seq<char>>),
}

impl View for ConflictAction {
    type V = ConflictModel;

    open spec fn view(&self) -> ConflictModel {
        match *self {
            ConflictAction::DoNothing => ConflictModel::DoNothing,
            ConflictAction::DoUpdate(columns) => ConflictModel::DoUpdate(names_view(columns@)),
        }
    }
}

/// The view of an optional action.
pub open spec fn action_view(action: Option<ConflictAction>) -> Option<ConflictModel> {
    match action {
        Some(a) => Some(a@),
        None => None,
    }
}

/// Builds an `INSERT` statement of one row.
pub struct InsertBuilder {
    table: String,
    values: Vec<(&'static str, SqlValue)>,
    conflict: Option<String>,
    action: Option<ConflictAction>,
}

/// What an [`InsertBuilder`] holds.
pub struct InsertModel {
    pub table: Seq<char>,
    pub values: Seq<(Seq<char>, SqlValueView)>,
    /// The column whose conflict is handled.
    pub conflict: Option<Seq<char>>,
    /// What is done on a conflict.
    pub action: Option<ConflictModel>,
}

impl View for InsertBuilder {
    type V = InsertModel;

    closed spec fn view(&self) -> InsertModel {
        InsertModel {
            table: self.table@,
            values: assignments_view(self.values@),
            conflict: crate::wire::text_view(self.conflict),
            action: action_view(self.action),
        }
    }
}

/// The first `n` assignments of an upsert: each column takes the value
/// that the rejected row has for it.
pub open spec fn excluded_list(columns: Seq<Seq<char>>, n: nat) -> Seq<char>
    decreases n,
{
    if n == 0 || n > columns.len() {
        Seq::<char>::empty()
    } else {
        excluded_list(columns, (n - 1) as nat) + (if n > 1 {
            ", "@
        } else {
            Seq::<char>::empty()
        }) + quoted(columns[n - 1]) + " = "@ + quoted("excluded"@) + "."@ + quoted(columns[n - 1])
    }
}

/// The `ON CONFLICT` clause: nothing unless both the column and the
/// action are set.
pub open spec fn conflict_sql(m: InsertModel) -> Seq<char> {
    match (m.conflict, m.action) {
        (Some(target), Some(ConflictModel::DoNothing)) => " ON CONFLICT ("@ + quoted(target)
            + ") DO NOTHING"@,
        (Some(target), Some(ConflictModel::DoUpdate(columns))) => " ON CONFLICT ("@ + quoted(
            target,
        ) + ") DO UPDATE SET "@ + excluded_list(columns, columns.len()),
        _ => Seq::<char>::empty(),
    }
}

/// The first `n` column names of an `INSERT`, quoted and separated by a
/// comma and a space.
pub open spec fn column_list(values: Seq<(Seq<char>, SqlValueView)>, n: nat) -> Seq<char>
    decreases n,
{
    if n == 0 || n > values.len() {
        Seq::<char>::empty()
    } else {
        column_list(values, (n - 1) as nat) + (if n > 1 {
            ", "@
        } else {
            Seq::<char>::empty()
        }) + quoted(values[n - 1].0)
    }
}

/// The text of the row of an `INSERT`:
/// `INSERT INTO "table" ("c1", "c2") VALUES ($1, $2)` with the columns in
/// the order in which their values were set. Without a value it ends
/// behind the empty list of columns.
pub open spec fn insert_row_sql(m: InsertModel) -> Seq<char> {
    if m.values.len() == 0 {
        "INSERT INTO "@ + quoted(m.table) + " ()"@
    } else {
        "INSERT INTO "@ + quoted(m.table) + " ("@ + column_list(m.values, m.values.len())
            + ") VALUES ("@ + placeholder_list(0, m.values.len()) + ")"@
    }
}

/// The text of an `INSERT`: the row, and the `ON CONFLICT` clause where
/// one is set.
pub open spec fn insert_sql(m: InsertModel) -> Seq<char> {
    insert_row_sql(m) + conflict_sql(m)
}

/// The parameters of an `INSERT`: the values in the order in which they were set.
pub open spec fn insert_params(m: InsertModel) -> Seq<SqlValueView> {
    assigned_values(m.values)
}

/// Appends the quoted column names of `values` to `sql`.
fn push_column_list(values: &Vec<(&'static str, SqlValue)>, sql: &mut String)
    ensures
        final(sql)@ == old(sql)@ + column_list(assignments_view(values@), values@.len()),
{
    let ghost sql0 = sql@;
    let ghost model = assignments_view(values@);
    let mut i: usize = 0;
    while i < values.len()
        invariant
            i <= values.len(),
            model == assignments_view(values@),
            sql@ == sql0 + column_list(model, i as nat),
        decreases values.len() - i,
    {
        if i > 0 {
            sql.append(", ");
        }
        push_quoted(sql, values[i].0);
        i = i + 1;
        proof {
            assert(model[i - 1] == (values@[i - 1].0@, values@[i - 1].1@));
            assert(sql@ =~= sql0 + column_list(model, i as nat));
        }
    }
}

/// Appends the placeholders of `values` to `sql` and the values to
/// `params`; the placeholders are numbered on from the parameters that are
/// there already.
fn push_value_list(
    values: &Vec<(&'static str, SqlValue)>,
    sql: &mut String,
    params: &mut Vec<SqlValue>,
)
    ensures
        final(sql)@ == old(sql)@ + placeholder_list(old(params)@.len(), values@.len()),
        values_view(final(params)@) == values_view(old(params)@) + assigned_values(
            assignments_view(values@),
        ),
{
    let ghost sql0 = sql@;
    let ghost given = values_view(params@);
    let ghost base = params@.len();
    let ghost model = assignments_view(values@);
    let mut i: usize = 0;
    proof {
        assert(given + assigned_values(model).take(0) =~= given);
    }
    while i < values.len()
        invariant
            i <= values.len(),
            model == assignments_view(values@),
            params@.len() == base + i,
            sql@ == sql0 + placeholder_list(base, i as nat),
            values_view(params@) == given + assigned_values(model).take(i as int),
        decreases values.len() - i,
    {
        let ghost before = params@;
        if i > 0 {
            sql.append(", ");
        }
        push_param(sql, params, clone_value(&values[i].1));
        i = i + 1;
        proof {
            assert(model[i - 1] == (values@[i - 1].0@, values@[i - 1].1@));
            assert(sql@ =~= sql0 + placeholder_list(base, i as nat));
            assert(values_view(params@) =~= values_view(before).push(values@[i - 1].1@));
            assert(assigned_values(model).take(i as int) =~= assigned_values(model).take(
                i - 1,
            ).push(values@[i - 1].1@));
            assert(values_view(params@) =~= given + assigned_values(model).take(i as int));
        }
    }
    proof {
        assert(assigned_values(model).take(values@.len() as int) =~= assigned_values(model));
    }
}

impl InsertBuilder {
    /// An `INSERT` into `table`, without values.
    pub fn new(table: &str) -> (r: InsertBuilder)
        ensures
            r@ == (InsertModel {
                table: table@,
                values: Seq::<(Seq<char>, SqlValueView)>::empty(),
                conflict: None,
                action: None,
            }),
    {
        let r = InsertBuilder {
            table: String::from_str(table),
            values: Vec::new(),
            conflict: None,
            action: None,
        };
        proof {
            assert(assignments_view(r.values@) =~= Seq::<(Seq<char>, SqlValueView)>::empty());
        }
        r
    }

    /// An `INSERT` into `table` of the values that `entity` hands out.
    pub fn from_entity<E: EntityValues>(table: &str, entity: &E) -> (r: InsertBuilder)
        ensures
            r@ == (InsertModel {
                table: table@,
                values: entity.values(),
                conflict: None,
                action: None,
            }),
    {
        InsertBuilder {
            table: String::from_str(table),
            values: entity.__to_values(),
            conflict: None,
            action: None,
        }
    }

    /// An `INSERT` of the values that `entity` hands out into the entity's table.
    pub fn from<E: Entity + EntityValues>(entity: &E) -> (r: InsertBuilder)
        ensures
            r@ == (InsertModel {
                table: E::table_name(),
                values: entity.values(),
                conflict: None,
                action: None,
            }),
    {
        InsertBuilder {
            table: String::from_str(E::table()),
            values: entity.__to_values(),
            conflict: None,
            action: None,
        }
    }

    /// Sets `column` to `value`.
    pub fn set<V: IntoSqlValue>(self, column: &'static str, value: V) -> (r: InsertBuilder)
        ensures
            r@ == (InsertModel {
                values: self@.values.push((column@, value.value_view())),
                ..self@
            }),
    {
        let mut b = self;
        let ghost before = b.values@;
        let v = value.into_value();
        b.values.push((column, v));
        proof {
            assert(assignments_view(b.values@) =~= assignments_view(before).push(
                (column@, value.value_view()),
            ));
        }
        b
    }

    /// Names the column whose conflict is handled. The clause is written
    /// once an action is chosen too.
    pub fn on_conflict(self, column: &str) -> (r: InsertBuilder)
        ensures
            r@ == (InsertModel { conflict: Some(column@), ..self@ }),
    {
        let mut b = self;
        b.conflict = Some(String::from_str(column));
        b
    }

    /// On a conflict, leaves the row that is there as it is.
    pub fn do_nothing(self) -> (r: InsertBuilder)
        ensures
            r@ == (InsertModel { action: Some(ConflictModel::DoNothing), ..self@ }),
    {
        let mut b = self;
        b.action = Some(ConflictAction::DoNothing);
        b
    }

    /// On a conflict, gives `columns` of the row that is there the new values.
    pub fn do_update(self, columns: &[&str]) -> (r: InsertBuilder)
        ensures
            r@ == (InsertModel {
                action: Some(
                    ConflictModel::DoUpdate(Seq::new(columns@.len(), |i: int| columns@[i]@)),
                ),
                ..self@
            }),
    {
        let mut b = self;
        let mut names: Vec<String> = Vec::new();
        let mut i: usize = 0;
        while i < columns.len()
            invariant
                i <= columns.len(),
                names@.len() == i,
                forall|k: int| 0 <= k < i ==> (#[trigger] names@[k])@ == columns@[k]@,
            decreases columns.len() - i,
        {
            names.push(String::from_str(columns[i]));
            i = i + 1;
        }
        proof {
            assert(names_view(names@) =~= Seq::new(columns@.len(), |i: int| columns@[i]@));
        }
        b.action = Some(ConflictAction::DoUpdate(names));
        b
    }

    /// Appends the `ON CONFLICT` clause to `sql`.
    #[verifier::rlimit(40)]
    fn push_conflict(&self, sql: &mut String)
        ensures
            final(sql)@ == old(sql)@ + conflict_sql(self@),
    {
        let ghost sql0 = sql@;
        let ghost m = self@;
        match (&self.conflict, &self.action) {
            (Some(target), Some(ConflictAction::DoNothing)) => {
                sql.append(" ON CONFLICT (");
                push_quoted(sql, target.as_str());
                sql.append(") DO NOTHING");
            },
            (Some(target), Some(ConflictAction::DoUpdate(columns))) => {
                sql.append(" ON CONFLICT (");
                push_quoted(sql, target.as_str());
                sql.append(") DO UPDATE SET ");
                let ghost sql1 = sql@;
                let ghost names = names_view(columns@);
                let mut i: usize = 0;
                while i < columns.len()
                    invariant
                        i <= columns.len(),
                        names == names_view(columns@),
                        sql@ == sql1 + excluded_list(names, i as nat),
                    decreases columns.len() - i,
                {
                    if i > 0 {
                        sql.append(", ");
                    }
                    push_quoted(sql, columns[i].as_str());
                    sql.append(" = ");
                    push_quoted(sql, "excluded");
                    sql.append(".");
                    push_quoted(sql, columns[i].as_str());
                    i = i + 1;
                    proof {
                        assert(names[i - 1] == columns@[i - 1]@);
                        assert(sql@ =~= sql1 + excluded_list(names, i as nat));
                    }
                }
            },
            _ => {},
        }
        proof {
            assert(sql@ =~= sql0 + conflict_sql(m));
        }
    }

    /// Builds the query.
    ///
    /// Fails with `UnsupportedValue` exactly when a parameter has no wire form.
    #[verifier::rlimit(40)]
    pub fn build(self) -> (r: Result<Query, BuildError>)
        ensures
            match wire_all(insert_params(self@)) {
                Some(wire) => r is Ok && r->Ok_0.sql@ == insert_sql(self@) && wire_view(
                    r->Ok_0.params@,
                ) == wire,
                None => r == Err::<Query, BuildError>(BuildError::UnsupportedValue),
            },
            r is Ok && insert_clear(self@) ==> placeholders(r->Ok_0.sql@) == numbered_from(
                1,
                r->Ok_0.params@.len() as nat,
            ),
    {
        let mut sql = String::new();
        let mut params: Vec<SqlValue> = Vec::new();
        sql.append("INSERT INTO ");
        push_quoted(&mut sql, self.table.as_str());
        if self.values.len() == 0 {
            sql.append(" ()");
            proof {
                assert(crate::value::values_view(params@) =~= insert_params(self@));
            }
        } else {
            sql.append(" (");
            push_column_list(&self.values, &mut sql);
            sql.append(") VALUES (");
            push_value_list(&self.values, &mut sql, &mut params);
            sql.append(")");
            proof {
                assert(crate::value::values_view(params@) =~= insert_params(self@));
            }
        }
        proof {
            assert(sql@ =~= insert_row_sql(self@));
        }
        self.push_conflict(&mut sql);
        proof {
            if insert_clear(self@) {
                lemma_insert_numbered(self@);
            }
        }
        build_query(sql, params)
    }
}

} // verus!
