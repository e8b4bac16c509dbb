//! The `SELECT` builder.

use vstd::prelude::*;
use vstd::string::StringExecFns;
use vstd::string::StrSliceExecFns;
use crate::delete::lemma_filters_push;
use crate::filter::{
    filter_params, filter_sql, filters_view, push_param, Filter, FilterModel,
};
use crate::join::{join_keyword, Join, JoinModel, Order};
use crate::query::{build_query, push_where, where_params, where_sql, Query};
use crate::text::{
    placeholder, push_quoted, push_quoted_column, quoted, quoted_column_text, to_chars,
};
use crate::value::{values_view, wire_all, wire_view, BuildError, SqlValue, SqlValueView};

use crate::numbering::{select_clear, lemma_select_numbered};
use crate::text::{numbered_from, placeholders};

verus! {

/// Builds a `SELECT` statement.
pub struct SelectBuilder {
    table: String,
    columns: Vec<String>,
    aliases: Vec<(String, String, String)>,
    filters: Vec<Filter>,
    limit: Option<u64>,
    offset: Option<u64>,
    order: Vec<(Option<String>, String, Order)>,
    joins: Vec<Join>,
}

/// A column of another table under a name of its own: the name, the table
/// and the column.
pub struct AliasModel {
    pub alias: Seq<char>,
    pub table: Seq<char>,
    pub column: Seq<char>,
}

/// An ordering: the column, the table that qualifies it where that is not
/// the table of the statement, and the direction.
pub struct OrderModel {
    pub table: Option<Seq<char>>,
    pub column: Seq<char>,
    pub dir: Order,
}

/// What a [`SelectBuilder`] holds.
pub struct SelectModel {
    pub table: Seq<char>,
    pub columns: Seq<Seq<char>>,
    pub aliases: Seq<AliasModel>,
    pub filters: Seq<FilterModel>,
    pub limit: Option<u64>,
    pub offset: Option<u64>,
    pub order: Seq<OrderModel>,
    pub joins: Seq<JoinModel>,
}

/// The views of a list of names, item by item.
pub open spec fn names_view(names: Seq<String>) -> Seq<Seq<char>> {
    Seq::new(names.len(), |i: int| names[i]@)
}

/// The views of a list of aliased columns, item by item.
pub open spec fn aliases_view(aliases: Seq<(String, String, String)>) -> Seq<AliasModel> {
    Seq::new(
        aliases.len(),
        |i: int| AliasModel { alias: aliases[i].0@, table: aliases[i].1@, column: aliases[i].2@ },
    )
}

/// The views of a list of orderings, item by item.
pub open spec fn order_view(order: Seq<(Option<String>, String, Order)>) -> Seq<OrderModel> {
    Seq::new(
        order.len(),
        |i: int|
            OrderModel {
                table: crate::wire::text_view(order[i].0),
                column: order[i].1@,
                dir: order[i].2,
            },
    )
}

/// The views of a list of joins, item by item.
pub open spec fn joins_view(joins: Seq<Join>) -> Seq<JoinModel> {
    Seq::new(joins.len(), |i: int| joins[i]@)
}

impl SelectModel {
    /// The statement with the aliased columns `aliases` in place of its own.
    pub open spec fn with_aliases(self, aliases: Seq<AliasModel>) -> SelectModel {
        SelectModel { aliases, ..self }
    }
}

impl View for SelectBuilder {
    type V = SelectModel;

    closed spec fn view(&self) -> SelectModel {
        SelectModel {
            table: self.table@,
            columns: names_view(self.columns@),
            aliases: aliases_view(self.aliases@),
            filters: filters_view(self.filters@),
            limit: self.limit,
            offset: self.offset,
            order: order_view(self.order@),
            joins: joins_view(self.joins@),
        }
    }
}

/// The first `n` plain columns of a projection, each qualified by `table`.
pub open spec fn projection_columns(table: Seq<char>, columns: Seq<Seq<char>>, n: nat) -> Seq<
    char,
>
    decreases n,
{
    if n == 0 || n > columns.len() {
        Seq::<char>::empty()
    } else {
        projection_columns(table, columns, (n - 1) as nat) + (if n > 1 {
            ", "@
        } else {
            Seq::<char>::empty()
        }) + quoted_column_text(table, columns[n - 1])
    }
}

/// The first `n` aliased columns of a projection: `"table"."column" AS "alias"`.
/// A comma stands before each but the very first item of the projection.
pub open spec fn projection_aliases(aliases: Seq<AliasModel>, n: nat, columns_before: bool) -> Seq<
    char,
>
    decreases n,
{
    if n == 0 || n > aliases.len() {
        Seq::<char>::empty()
    } else {
        projection_aliases(aliases, (n - 1) as nat, columns_before) + (if n > 1 || columns_before {
            ", "@
        } else {
            Seq::<char>::empty()
        }) + quoted_column_text(aliases[n - 1].table, aliases[n - 1].column) + " AS "@ + quoted(
            aliases[n - 1].alias,
        )
    }
}

/// The projection: `*` where neither columns nor aliases were set, else the
/// columns qualified by the table, then the aliased columns.
pub open spec fn projection_sql(m: SelectModel) -> Seq<char> {
    if m.columns.len() == 0 && m.aliases.len() == 0 {
        "*"@
    } else {
        projection_columns(m.table, m.columns, m.columns.len()) + projection_aliases(
            m.aliases,
            m.aliases.len(),
            m.columns.len() > 0,
        )
    }
}

/// The parameters of the first `n` joins, one join after the other.
pub open spec fn joins_params(joins: Seq<JoinModel>, n: nat) -> Seq<SqlValueView>
    decreases n,
{
    if n == 0 || n > joins.len() {
        Seq::<SqlValueView>::empty()
    } else {
        joins_params(joins, (n - 1) as nat) + filter_params(joins[n - 1].on)
    }
}

/// The first `n` joins: for each a space, the kind, the joined table and
/// `ON` with the condition. A column of the condition that names no table
/// belongs to the joined table.
pub open spec fn joins_sql(joins: Seq<JoinModel>, n: nat) -> Seq<char>
    decreases n,
{
    if n == 0 || n > joins.len() {
        Seq::<char>::empty()
    } else {
        joins_sql(joins, (n - 1) as nat) + " "@ + join_keyword(joins[n - 1].kind) + " "@ + quoted(
            joins[n - 1].table,
        ) + " ON "@ + filter_sql(
            joins[n - 1].on,
            joins[n - 1].table,
            joins_params(joins, (n - 1) as nat).len(),
        )
    }
}

/// The keyword of a direction.
pub open spec fn order_keyword(dir: Order) -> Seq<char> {
    match dir {
        Order::Asc => " ASC"@,
        Order::Desc => " DESC"@,
    }
}

/// The first `n` orderings: the column qualified by its own table or,
/// where it names none, by `table`, and its direction.
pub open spec fn orderings_sql(table: Seq<char>, order: Seq<OrderModel>, n: nat) -> Seq<char>
    decreases n,
{
    if n == 0 || n > order.len() {
        Seq::<char>::empty()
    } else {
        orderings_sql(table, order, (n - 1) as nat) + (if n > 1 {
            ", "@
        } else {
            Seq::<char>::empty()
        }) + crate::filter::column_sql(order[n - 1].table, order[n - 1].column, table)
            + order_keyword(order[n - 1].dir)
    }
}

/// The `ORDER BY` clause: nothing where no ordering was set.
pub open spec fn order_sql(table: Seq<char>, order: Seq<OrderModel>) -> Seq<char> {
    if order.len() == 0 {
        Seq::<char>::empty()
    } else {
        " ORDER BY "@ + orderings_sql(table, order, order.len())
    }
}

/// The `LIMIT` clause behind `base` parameters.
pub open spec fn limit_sql(limit: Option<u64>, base: nat) -> Seq<char> {
    match limit {
        Some(_) => " LIMIT "@ + placeholder(base + 1),
        None => Seq::<char>::empty(),
    }
}

/// The `OFFSET` clause behind `base` parameters.
pub open spec fn offset_sql(offset: Option<u64>, base: nat) -> Seq<char> {
    match offset {
        Some(_) => " OFFSET "@ + placeholder(base + 1),
        None => Seq::<char>::empty(),
    }
}

/// The parameter of a `LIMIT` or `OFFSET` clause: the number as an unsigned
/// 64-bit value.
pub open spec fn count_params(count: Option<u64>) -> Seq<SqlValueView> {
    match count {
        Some(n) => seq![SqlValueView::BigUnsigned(Some(n))],
        None => Seq::<SqlValueView>::empty(),
    }
}

/// The parameters of a `SELECT`, in the order of its text: those of the
/// joins, of the `WHERE` clause, the limit and the offset.
pub open spec fn select_params(m: SelectModel) -> Seq<SqlValueView> {
    joins_params(m.joins, m.joins.len()) + where_params(m.filters) + count_params(m.limit)
        + count_params(m.offset)
}

/// The text of a `SELECT`: the projection, `FROM` the table, the joins in
/// the order in which they were added, the `WHERE` clause, the orderings,
/// the limit and the offset.
pub open spec fn select_sql(m: SelectModel) -> Seq<char> {
    let after_joins = joins_params(m.joins, m.joins.len()).len();
    let after_where = after_joins + where_params(m.filters).len();
    let after_limit = after_where + count_params(m.limit).len();
    "SELECT "@ + projection_sql(m) + " FROM "@ + quoted(m.table) + joins_sql(
        m.joins,
        m.joins.len(),
    ) + where_sql(m.filters, m.table, after_joins) + order_sql(m.table, m.order) + limit_sql(
        m.limit,
        after_where,
    ) + offset_sql(m.offset, after_limit)
}

/// Where the first dot of `s` stands, if it holds one.
pub open spec fn first_dot(s: Seq<char>) -> Option<int> {
    if exists|i: int| 0 <= i < s.len() && s[i] == '.' {
        Some(choose|i: int| 0 <= i < s.len() && s[i] == '.' && forall|j: int| 0 <= j < i ==> s[j] != '.')
    } else {
        None
    }
}

/// `p` is where the first dot of `s` stands.
proof fn lemma_first_dot(s: Seq<char>, p: int)
    requires
        0 <= p < s.len(),
        s[p] == '.',
        forall|j: int| 0 <= j < p ==> s[j] != '.',
    ensures
        first_dot(s) == Some(p),
{
    let k = choose|i: int| 0 <= i < s.len() && s[i] == '.' && forall|j: int| 0 <= j < i ==> s[j] != '.';
    assert(0 <= k < s.len() && s[k] == '.' && forall|j: int| 0 <= j < k ==> s[j] != '.');
    if k < p {
        assert(s[k] != '.');
    }
    if p < k {
        assert(s[p] != '.');
    }
}

/// Finds the first dot of `s`.
pub fn find_dot(s: &str) -> (r: Option<usize>)
    ensures
        match r {
            Some(p) => first_dot(s@) == Some(p as int) && p < s@.len() && s@[p as int] == '.',
            None => first_dot(s@) is None,
        },
{
    let chars = to_chars(s);
    let mut i: usize = 0;
    while i < chars.len()
        invariant
            i <= chars.len(),
            chars@ == s@,
            forall|j: int| 0 <= j < i ==> s@[j] != '.',
        decreases chars.len() - i,
    {
        if chars[i] == '.' {
            proof {
                lemma_first_dot(s@, i as int);
            }
            return Some(i);
        }
        i = i + 1;
    }
    None
}

impl SelectBuilder {
    /// A `SELECT` from `table` with nothing else set.
    pub fn new(table: &str) -> (r: SelectBuilder)
        ensures
            r@ == (SelectModel {
                table: table@,
                columns: Seq::<Seq<char>>::empty(),
                aliases: Seq::<AliasModel>::empty(),
                filters: Seq::<FilterModel>::empty(),
                limit: None,
                offset: None,
                order: Seq::<OrderModel>::empty(),
                joins: Seq::<JoinModel>::empty(),
            }),
    {
        let r = SelectBuilder {
            table: String::from_str(table),
            columns: Vec::new(),
            aliases: Vec::new(),
            filters: Vec::new(),
            limit: None,
            offset: None,
            order: Vec::new(),
            joins: Vec::new(),
        };
        proof {
            assert(names_view(r.columns@) =~= Seq::<Seq<char>>::empty());
            assert(aliases_view(r.aliases@) =~= Seq::<AliasModel>::empty());
            assert(filters_view(r.filters@) =~= Seq::<FilterModel>::empty());
            assert(order_view(r.order@) =~= Seq::<OrderModel>::empty());
            assert(joins_view(r.joins@) =~= Seq::<JoinModel>::empty());
        }
        r
    }

    /// Sets the columns to select, in place of any set before.
    pub fn columns(self, fields: Vec<&str>) -> (r: SelectBuilder)
        ensures
            r@ == (SelectModel {
                columns: Seq::new(fields@.len(), |i: int| fields@[i]@),
                ..self@
            }),
    {
        let mut b = self;
        let mut names: Vec<String> = Vec::new();
        let mut i: usize = 0;
        while i < fields.len()
            invariant
                i <= fields.len(),
                names@.len() == i,
                forall|k: int| 0 <= k < i ==> (#[trigger] names@[k])@ == fields@[k]@,
            decreases fields.len() - i,
        {
            names.push(String::from_str(fields[i]));
            i = i + 1;
        }
        b.columns = names;
        proof {
            assert(names_view(b.columns@) =~= Seq::new(fields@.len(), |i: int| fields@[i]@));
        }
        b
    }

    /// Adds a column of another table under the name `alias`. `source`
    /// names it as `table.column`: the table ends at the first dot.
    pub fn column_as(self, source: &str, alias: &str) -> (r: SelectBuilder)
        requires
            first_dot(source@) is Some,
        ensures
            r@ == (SelectModel {
                aliases: self@.aliases.push(
                    AliasModel {
                        alias: alias@,
                        table: source@.subrange(0, first_dot(source@)->Some_0),
                        column: source@.subrange(
                            first_dot(source@)->Some_0 + 1,
                            source@.len() as int,
                        ),
                    },
                ),
                ..self@
            }),
    {
        let mut b = self;
        let ghost before = b.aliases@;
        let p = find_dot(source).unwrap();
        let len = source.unicode_len();
        let tbl = source.substring_char(0, p);
        let col = source.substring_char(p + 1, len);
        b.aliases.push((String::from_str(alias), String::from_str(tbl), String::from_str(col)));
        proof {
            assert(aliases_view(b.aliases@) =~= aliases_view(before).push(
                AliasModel {
                    alias: alias@,
                    table: source@.subrange(0, p as int),
                    column: source@.subrange(p + 1, source@.len() as int),
                },
            ));
        }
        b
    }

    /// Adds `column` of `table` under the name `alias`.
    pub fn alias(self, table: &str, column: &str, alias: &str) -> (r: SelectBuilder)
        ensures
            r@ == (SelectModel {
                aliases: self@.aliases.push(
                    AliasModel { alias: alias@, table: table@, column: column@ },
                ),
                ..self@
            }),
    {
        let mut b = self;
        let ghost before = b.aliases@;
        b.aliases.push((String::from_str(alias), String::from_str(table), String::from_str(column)));
        proof {
            assert(aliases_view(b.aliases@) =~= aliases_view(before).push(
                AliasModel { alias: alias@, table: table@, column: column@ },
            ));
        }
        b
    }

    /// Adds a column of another table under the name `alias`, where
    /// `source` holds a dot; without one the builder stays as it is and
    /// `None` comes back.
    pub fn try_column_as(self, source: &str, alias: &str) -> (r: Option<SelectBuilder>)
        ensures
            match r {
                Some(b) => first_dot(source@) is Some && b@ == (SelectModel {
                    aliases: self@.aliases.push(
                        AliasModel {
                            alias: alias@,
                            table: source@.subrange(0, first_dot(source@)->Some_0),
                            column: source@.subrange(
                                first_dot(source@)->Some_0 + 1,
                                source@.len() as int,
                            ),
                        },
                    ),
                    ..self@
                }),
                None => first_dot(source@) is None,
            },
    {
        match find_dot(source) {
            Some(_) => Some(self.column_as(source, alias)),
            None => None,
        }
    }

    /// Adds a condition to the `WHERE` clause.
    pub fn filter(self, filter: Filter) -> (r: SelectBuilder)
        ensures
            r@ == (SelectModel { filters: self@.filters.push(filter@), ..self@ }),
    {
        let mut b = self;
        proof {
            lemma_filters_push(b.filters@, filter);
        }
        b.filters.push(filter);
        b
    }

    /// Sets the greatest number of rows to return.
    pub fn limit(self, limit: u64) -> (r: SelectBuilder)
        ensures
            r@ == (SelectModel { limit: Some(limit), ..self@ }),
    {
        let mut b = self;
        b.limit = Some(limit);
        b
    }

    /// Sets the number of rows to skip.
    pub fn offset(self, offset: u64) -> (r: SelectBuilder)
        ensures
            r@ == (SelectModel { offset: Some(offset), ..self@ }),
    {
        let mut b = self;
        b.offset = Some(offset);
        b
    }

    /// Adds an ordering by `column` of the builder's table.
    pub fn order_by(self, column: &str, dir: Order) -> (r: SelectBuilder)
        ensures
            r@ == (SelectModel {
                order: self@.order.push(OrderModel { table: None, column: column@, dir }),
                ..self@
            }),
    {
        let mut b = self;
        let ghost before = b.order@;
        b.order.push((None, String::from_str(column), dir));
        proof {
            assert(order_view(b.order@) =~= order_view(before).push(
                OrderModel { table: None, column: column@, dir },
            ));
        }
        b
    }

    /// Adds an ordering by `column` of `table`.
    pub fn order_by_in(self, table: &str, column: &str, dir: Order) -> (r: SelectBuilder)
        ensures
            r@ == (SelectModel {
                order: self@.order.push(
                    OrderModel { table: Some(table@), column: column@, dir },
                ),
                ..self@
            }),
    {
        let mut b = self;
        let ghost before = b.order@;
        b.order.push((Some(String::from_str(table)), String::from_str(column), dir));
        proof {
            assert(order_view(b.order@) =~= order_view(before).push(
                OrderModel { table: Some(table@), column: column@, dir },
            ));
        }
        b
    }

    /// Adds a join.
    pub fn join(self, join: Join) -> (r: SelectBuilder)
        ensures
            r@ == (SelectModel { joins: self@.joins.push(join@), ..self@ }),
    {
        let mut b = self;
        let ghost before = b.joins@;
        b.joins.push(join);
        proof {
            assert(joins_view(b.joins@) =~= joins_view(before).push(join@));
        }
        b
    }

    /// Appends the projection to `sql`.
    #[verifier::rlimit(40)]
    fn push_projection(&self, sql: &mut String)
        ensures
            final(sql)@ == old(sql)@ + projection_sql(self@),
    {
        let ghost sql0 = sql@;
        let ghost m = self@;
        if self.columns.len() == 0 && self.aliases.len() == 0 {
            sql.append("*");
            return ;
        }
        let mut i: usize = 0;
        while i < self.columns.len()
            invariant
                i <= self.columns.len(),
                m == self@,
                sql@ == sql0 + projection_columns(m.table, m.columns, i as nat),
            decreases self.columns.len() - i,
        {
            if i > 0 {
                sql.append(", ");
            }
            push_quoted_column(sql, self.table.as_str(), self.columns[i].as_str());
            i = i + 1;
            proof {
                assert(m.columns[i - 1] == self.columns@[i - 1]@);
                assert(sql@ =~= sql0 + projection_columns(m.table, m.columns, i as nat));
            }
        }
        let ghost sql1 = sql@;
        let before = self.columns.len() > 0;
        let mut j: usize = 0;
        while j < self.aliases.len()
            invariant
                j <= self.aliases.len(),
                m == self@,
                before == (m.columns.len() > 0),
                sql@ == sql1 + projection_aliases(m.aliases, j as nat, before),
            decreases self.aliases.len() - j,
        {
            if j > 0 || before {
                sql.append(", ");
            }
            push_quoted_column(sql, self.aliases[j].1.as_str(), self.aliases[j].2.as_str());
            sql.append(" AS ");
            push_quoted(sql, self.aliases[j].0.as_str());
            j = j + 1;
            proof {
                assert(m.aliases[j - 1] == (AliasModel {
                    alias: self.aliases@[j - 1].0@,
                    table: self.aliases@[j - 1].1@,
                    column: self.aliases@[j - 1].2@,
                }));
                assert(sql@ =~= sql1 + projection_aliases(m.aliases, j as nat, before));
            }
        }
        proof {
            assert(sql@ =~= sql0 + projection_sql(m));
        }
    }

    /// Appends the joins to `sql` and their parameters to `params`.
    #[verifier::rlimit(40)]
    fn push_joins(&self, sql: &mut String, params: &mut Vec<SqlValue>)
        requires
            old(params)@.len() == 0,
        ensures
            final(sql)@ == old(sql)@ + joins_sql(self@.joins, self@.joins.len()),
            values_view(final(params)@) == joins_params(self@.joins, self@.joins.len()),
    {
        let ghost sql0 = sql@;
        let ghost m = self@;
        let mut i: usize = 0;
        proof {
            assert(values_view(params@) =~= joins_params(m.joins, 0));
        }
        while i < self.joins.len()
            invariant
                i <= self.joins.len(),
                m == self@,
                sql@ == sql0 + joins_sql(m.joins, i as nat),
                values_view(params@) == joins_params(m.joins, i as nat),
            decreases self.joins.len() - i,
        {
            let join = &self.joins[i];
            proof {
                assert(m.joins[i as int] == join@);
                assert(params@.len() == values_view(params@).len());
            }
            sql.append(" ");
            sql.append(join.keyword());
            sql.append(" ");
            push_quoted(sql, join.table);
            sql.append(" ON ");
            join.on.render(join.table, sql, params);
            i = i + 1;
            proof {
                assert(sql@ =~= sql0 + joins_sql(m.joins, i as nat));
            }
        }
    }

    /// Appends one ordering to `sql`.
    fn push_ordering(
        sql: &mut String,
        own: &Option<String>,
        column: &str,
        dir: Order,
        table: &str,
    )
        ensures
            final(sql)@ == old(sql)@ + crate::filter::column_sql(
                crate::wire::text_view(*own),
                column@,
                table@,
            ) + order_keyword(dir),
    {
        match own {
            Some(t) => push_quoted_column(sql, t.as_str(), column),
            None => push_quoted_column(sql, table, column),
        }
        match dir {
            Order::Asc => sql.append(" ASC"),
            Order::Desc => sql.append(" DESC"),
        }
    }

    /// Appends the `ORDER BY` clause to `sql`.
    #[verifier::rlimit(40)]
    fn push_order(&self, sql: &mut String)
        ensures
            final(sql)@ == old(sql)@ + order_sql(self@.table, self@.order),
    {
        let ghost sql0 = sql@;
        let ghost table = self.table@;
        let ghost order = order_view(self.order@);
        if self.order.len() == 0 {
            proof {
                assert(sql@ =~= sql0 + order_sql(table, order));
            }
            return ;
        }
        sql.append(" ORDER BY ");
        let ghost sql1 = sql@;
        let mut i: usize = 0;
        while i < self.order.len()
            invariant
                i <= self.order.len(),
                table == self.table@,
                order == order_view(self.order@),
                sql@ == sql1 + orderings_sql(table, order, i as nat),
            decreases self.order.len() - i,
        {
            if i > 0 {
                sql.append(", ");
            }
            Self::push_ordering(
                sql,
                &self.order[i].0,
                self.order[i].1.as_str(),
                self.order[i].2,
                self.table.as_str(),
            );
            i = i + 1;
            proof {
                let o = order[i - 1];
                assert(o.table == crate::wire::text_view(self.order@[i - 1].0));
                assert(o.column == self.order@[i - 1].1@);
                assert(o.dir == self.order@[i - 1].2);
                assert(orderings_sql(table, order, i as nat) == orderings_sql(
                    table,
                    order,
                    (i - 1) as nat,
                ) + (if i > 1 {
                    ", "@
                } else {
                    Seq::<char>::empty()
                }) + crate::filter::column_sql(o.table, o.column, table) + order_keyword(o.dir));
                assert(sql@ =~= sql1 + orderings_sql(table, order, i as nat));
            }
        }
        proof {
            assert(sql@ =~= sql0 + order_sql(table, order));
        }
    }

    /// Builds the query.
    ///
    /// Fails with `UnsupportedValue` exactly when a parameter has no wire form.
    #[verifier::rlimit(40)]
    pub fn build(self) -> (r: Result<Query, BuildError>)
        ensures
            match wire_all(select_params(self@)) {
                Some(wire) => r is Ok && r->Ok_0.sql@ == select_sql(self@) && wire_view(
                    r->Ok_0.params@,
                ) == wire,
                None => r == Err::<Query, BuildError>(BuildError::UnsupportedValue),
            },
            r is Ok && select_clear(self@) ==> placeholders(r->Ok_0.sql@) == numbered_from(
                1,
                r->Ok_0.params@.len() as nat,
            ),
    {
        let ghost m = self@;
        let mut sql = String::new();
        let mut params: Vec<SqlValue> = Vec::new();
        sql.append("SELECT ");
        self.push_projection(&mut sql);
        sql.append(" FROM ");
        push_quoted(&mut sql, self.table.as_str());
        self.push_joins(&mut sql, &mut params);
        proof {
            assert(params@.len() == values_view(params@).len());
        }
        push_where(&self.filters, self.table.as_str(), &mut sql, &mut params);
        proof {
            assert(params@.len() == values_view(params@).len());
        }
        let ghost params1 = params@;
        self.push_order(&mut sql);
        if let Some(limit) = self.limit {
            sql.append(" LIMIT ");
            push_param(&mut sql, &mut params, SqlValue::BigUnsigned(Some(limit)));
        }
        proof {
            assert(values_view(params@) =~= values_view(params1) + count_params(m.limit));
            assert(params@.len() == values_view(params@).len());
        }
        let ghost params2 = params@;
        if let Some(offset) = self.offset {
            sql.append(" OFFSET ");
            push_param(&mut sql, &mut params, SqlValue::BigUnsigned(Some(offset)));
        }
        proof {
            assert(values_view(params@) =~= values_view(params2) + count_params(m.offset));
            assert(values_view(params@) =~= select_params(m));
            assert(sql@ =~= select_sql(m));
        }
        proof {
            if select_clear(self@) {
                lemma_select_numbered(self@);
            }
        }
        let r = build_query(sql, params);
        proof {
            if r is Ok {
                let wire = wire_all(select_params(m))->Some_0;
                assert(wire.len() == select_params(m).len());
                assert(wire_view(r->Ok_0.params@).len() == r->Ok_0.params@.len());
            }
        }
        r
    }
}

} // verus!
