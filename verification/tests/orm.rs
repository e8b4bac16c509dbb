use capability_host::{
    DataType, DeleteBuilder, Entity, EntityValues, FetchError, FetchValue, Filter, InsertBuilder,
    IntoSqlValue, Join, Order, Row, SqlValue, UpdateBuilder,
};

fn normalize_sql(sql: &str) -> String {
    sql.split_whitespace().collect::<Vec<_>>().join(" ")
}

fn canonicalize_sql(sql: &str) -> String {
    let mut cleaned = String::with_capacity(sql.len());
    let mut in_single_quote = false;
    for ch in sql.chars() {
        match ch {
            '\'' => {
                in_single_quote = !in_single_quote;
                cleaned.push(ch);
            }
            '"' if !in_single_quote => {}
            _ => cleaned.push(ch),
        }
    }
    normalize_sql(&cleaned)
}

fn assert_sql_contains(actual: &str, fragments: &[&str]) {
    let actual_canonical = canonicalize_sql(actual);
    let mut search_start = 0usize;
    for fragment in fragments {
        let fragment_canonical = canonicalize_sql(fragment);
        if fragment_canonical.is_empty() {
            continue;
        }
        if let Some(pos) = actual_canonical[search_start..].find(&fragment_canonical) {
            search_start += pos + fragment_canonical.len();
        } else {
            panic!(
                "expected SQL fragment `{fragment_canonical}` not found in `{actual_canonical}`"
            );
        }
    }
}

#[derive(Debug, Clone)]
pub struct User {
    pub id: i64,
    pub name: String,
    pub active: bool,
}

impl Entity for User {
    fn table() -> &'static str {
        "users"
    }

    fn columns() -> Vec<&'static str> {
        vec!["id", "name", "active"]
    }

    fn from_row(row: &Row) -> Result<Self, FetchError> {
        Ok(Self {
            id: FetchValue::fetch(row, "id")?,
            name: FetchValue::fetch(row, "name")?,
            active: FetchValue::fetch(row, "active")?,
        })
    }
}

impl EntityValues for User {
    fn __to_values(&self) -> Vec<(&'static str, SqlValue)> {
        vec![
            ("id", self.id.into_value()),
            ("name", self.name.clone().into_value()),
            ("active", self.active.into_value()),
        ]
    }
}

#[derive(Debug, Clone)]
pub struct Item {
    pub id: i64,
    pub name: String,
    pub count: i32,
}

impl Entity for Item {
    fn table() -> &'static str {
        "items"
    }

    fn columns() -> Vec<&'static str> {
        vec!["id", "name", "count"]
    }

    fn from_row(row: &Row) -> Result<Self, FetchError> {
        Ok(Self {
            id: FetchValue::fetch(row, "id")?,
            name: FetchValue::fetch(row, "name")?,
            count: FetchValue::fetch(row, "count")?,
        })
    }
}

impl EntityValues for Item {
    fn __to_values(&self) -> Vec<(&'static str, SqlValue)> {
        vec![
            ("id", self.id.into_value()),
            ("name", self.name.clone().into_value()),
            ("count", self.count.into_value()),
        ]
    }
}

// SELECT tests

#[test]
fn orm_select_basic() {
    let query = User::select().build().unwrap();
    assert_sql_contains(
        &query.sql,
        &["SELECT", "users.id", "users.name", "users.active", "FROM users"],
    );
    assert_eq!(query.params.len(), 0);
}

#[test]
fn select_with_ordering_and_limits() {
    let query = User::select()
        .filter(Filter::eq("active", true))
        .filter(Filter::gt("id", 100))
        .order_by("id", Order::Asc)
        .order_by("name", Order::Desc)
        .limit(10)
        .offset(5)
        .build()
        .unwrap();

    assert_sql_contains(
        &query.sql,
        &[
            "SELECT",
            "users.id",
            "users.name",
            "users.active",
            "WHERE",
            "users.active",
            "=",
            "$1",
            "AND",
            "users.id",
            ">",
            "$2",
            "ORDER BY",
            "users.id",
            "ASC",
            "users.name",
            "DESC",
            "LIMIT $3",
            "OFFSET $4",
        ],
    );

    assert_eq!(query.params.len(), 4);
    assert!(matches!(query.params[0], DataType::Boolean(Some(true))));
    assert!(matches!(query.params[1], DataType::Int32(Some(100))));
    assert!(matches!(query.params[2], DataType::Uint64(Some(10))));
    assert!(matches!(query.params[3], DataType::Uint64(Some(5))));
}

#[test]
fn orm_select_with_column_aliasing() {
    let query = User::select()
        .column_as("roles.name", "role_name")
        .join(Join::left("roles", Filter::col_eq("users", "role_id", "roles", "id")))
        .build()
        .unwrap();

    assert_sql_contains(
        &query.sql,
        &[
            "SELECT",
            "users.id",
            "users.name",
            "users.active",
            "roles.name",
            "AS",
            "role_name",
            "FROM users",
            "LEFT JOIN roles",
        ],
    );
}

#[test]
fn orm_select_with_ad_hoc_join() {
    let query = User::select()
        .join(Join::inner("user_roles", Filter::col_eq("users", "id", "user_roles", "user_id")))
        .build()
        .unwrap();

    assert_sql_contains(
        &query.sql,
        &["SELECT", "users.id", "INNER JOIN user_roles ON", "users.id", "=", "user_roles.user_id"],
    );
}

#[test]
fn orm_select_with_or_filter() {
    let query = User::select()
        .filter(Filter::Or(vec![Filter::eq("active", true), Filter::gt("id", 100)]))
        .build()
        .unwrap();

    assert_sql_contains(
        &query.sql,
        &["SELECT", "users.id", "WHERE", "users.active", "=", "$1", "OR", "users.id", ">", "$2"],
    );
}

#[test]
fn orm_select_with_not_filter() {
    let query =
        User::select().filter(Filter::Not(Box::new(Filter::eq("active", false)))).build().unwrap();

    assert_sql_contains(
        &query.sql,
        &["SELECT", "users.id", "WHERE", "NOT", "users.active", "=", "$1"],
    );
}

#[test]
fn select_with_right_join() {
    let query = User::select()
        .join(Join::right("profiles", Filter::col_eq("users", "id", "profiles", "user_id")))
        .build()
        .unwrap();

    assert_sql_contains(&query.sql, &["SELECT", "users.id", "FROM users", "RIGHT JOIN profiles"]);
}

#[test]
fn select_with_full_join() {
    let query = User::select()
        .join(Join::full("accounts", Filter::col_eq("users", "id", "accounts", "user_id")))
        .build()
        .unwrap();

    assert_sql_contains(
        &query.sql,
        &["SELECT", "users.id", "FROM users", "FULL OUTER JOIN accounts"],
    );
}

#[test]
fn select_with_multiple_join_types() {
    let query = User::select()
        .join(Join::inner("roles", Filter::col_eq("users", "role_id", "roles", "id")))
        .join(Join::left("profiles", Filter::col_eq("users", "id", "profiles", "user_id")))
        .join(Join::right("sessions", Filter::col_eq("users", "id", "sessions", "user_id")))
        .build()
        .unwrap();

    assert_sql_contains(
        &query.sql,
        &["FROM users", "INNER JOIN roles", "LEFT JOIN profiles", "RIGHT JOIN sessions"],
    );
}

// INSERT tests

#[test]
fn orm_insert_basic() {
    let query = InsertBuilder::new("items").set("name", "test").set("count", 42).build().unwrap();

    assert_sql_contains(&query.sql, &["INSERT INTO items", "name", "count", "VALUES", "$1", "$2"]);

    assert_eq!(query.params.len(), 2);
    assert!(matches!(&query.params[0], DataType::Str(Some(s)) if s == "test"));
    assert!(matches!(query.params[1], DataType::Int32(Some(42))));
}

#[test]
fn orm_insert_from_entity() {
    let item = Item {
        id: 1,
        name: "test".to_string(),
        count: 10,
    };

    let query = InsertBuilder::from(&item).build().unwrap();

    assert_sql_contains(
        &query.sql,
        &["INSERT INTO items", "id", "name", "count", "VALUES", "$1", "$2", "$3"],
    );

    assert_eq!(query.params.len(), 3);
    assert!(matches!(query.params[0], DataType::Int64(Some(1))));
    assert!(matches!(&query.params[1], DataType::Str(Some(s)) if s == "test"));
    assert!(matches!(query.params[2], DataType::Int32(Some(10))));
}

#[test]
fn insert_via_entity_convenience() {
    let item = Item {
        id: 1,
        name: "test".to_string(),
        count: 10,
    };

    let query = item.insert().build().unwrap();

    assert_sql_contains(
        &query.sql,
        &["INSERT INTO items", "id", "name", "count", "VALUES", "$1", "$2", "$3"],
    );
    assert_eq!(query.params.len(), 3);
}

// UPDATE tests

#[test]
fn orm_update_basic() {
    let query = UpdateBuilder::new("items")
        .set("name", "updated")
        .filter(Filter::eq("id", 1))
        .build()
        .unwrap();

    assert_sql_contains(
        &query.sql,
        &["UPDATE items", "SET name = $1", "WHERE", "items.id", "=", "$2"],
    );

    assert_eq!(query.params.len(), 2);
    assert!(matches!(&query.params[0], DataType::Str(Some(s)) if s == "updated"));
    assert!(matches!(query.params[1], DataType::Int32(Some(1))));
}

#[test]
fn orm_update_multiple_fields() {
    let query = UpdateBuilder::new("items")
        .set("name", "new")
        .set("id", 99)
        .filter(Filter::eq("id", 1))
        .build()
        .unwrap();

    assert_sql_contains(
        &query.sql,
        &["UPDATE items", "SET name = $1, id = $2", "WHERE", "items.id", "=", "$3"],
    );

    assert_eq!(query.params.len(), 3);
    assert!(matches!(&query.params[0], DataType::Str(Some(s)) if s == "new"));
    assert!(matches!(query.params[1], DataType::Int32(Some(99))));
    assert!(matches!(query.params[2], DataType::Int32(Some(1))));
}

#[test]
fn orm_update_no_filter() {
    let query = UpdateBuilder::new("items").set("name", "global").build().unwrap();

    assert_sql_contains(&query.sql, &["UPDATE items", "SET name = $1"]);

    assert_eq!(query.params.len(), 1);
    assert!(matches!(&query.params[0], DataType::Str(Some(s)) if s == "global"));
}

#[test]
fn update_set_if_some() {
    let query = UpdateBuilder::new("items")
        .set_if("name", Some("updated"))
        .set_if("count", None::<i32>)
        .filter(Filter::eq("id", 1))
        .build()
        .unwrap();

    assert_sql_contains(
        &query.sql,
        &["UPDATE items", "SET name = $1", "WHERE", "items.id", "=", "$2"],
    );
    assert_eq!(query.params.len(), 2);
    assert!(matches!(&query.params[0], DataType::Str(Some(s)) if s == "updated"));
}

// DELETE tests

#[test]
fn orm_delete_with_filter() {
    let query = Item::delete().filter(Filter::eq("id", 1)).build().unwrap();

    assert_sql_contains(&query.sql, &["DELETE FROM items", "WHERE", "items.id", "=", "$1"]);

    assert_eq!(query.params.len(), 1);
    assert!(matches!(query.params[0], DataType::Int32(Some(1))));
}

#[test]
fn orm_delete_all() {
    let query = DeleteBuilder::new("items").build().unwrap();

    assert_sql_contains(&query.sql, &["DELETE FROM items"]);
    assert_eq!(query.params.len(), 0);
}

// FILTER tests

#[test]
fn filter_like_pattern() {
    let query = User::select().filter(Filter::like("name", "%john%")).build().unwrap();

    assert_sql_contains(&query.sql, &["WHERE", "users.name", "LIKE", "$1"]);
    assert_eq!(query.params.len(), 1);
    assert!(matches!(&query.params[0], DataType::Str(Some(s)) if s == "%john%"));
}

#[test]
fn filter_in_multiple_values() {
    let query = User::select().filter(Filter::is_in("id", vec![1, 2, 3, 4, 5])).build().unwrap();

    assert_sql_contains(&query.sql, &["WHERE", "users.id", "IN"]);
    assert_eq!(query.params.len(), 5);
}

#[test]
fn filter_in_empty_array() {
    let query = User::select().filter(Filter::is_in("id", Vec::<i32>::new())).build().unwrap();

    // SeaQuery generates degenerate SQL for empty IN clauses
    assert_sql_contains(&query.sql, &["WHERE", "($1)", "($2)"]);
    assert_eq!(query.params.len(), 2);
}

#[test]
fn filter_is_null() {
    let query = User::select().filter(Filter::is_null("name")).build().unwrap();

    assert_sql_contains(&query.sql, &["WHERE", "users.name", "IS NULL"]);
    assert_eq!(query.params.len(), 0);
}

#[test]
fn filter_is_not_null() {
    let query = User::select().filter(Filter::is_not_null("name")).build().unwrap();

    assert_sql_contains(&query.sql, &["WHERE", "users.name", "IS NOT NULL"]);
    assert_eq!(query.params.len(), 0);
}

#[test]
fn filter_table_qualified_via_on() {
    let query = User::select().filter(Filter::eq("active", true).on("users")).build().unwrap();

    assert_sql_contains(&query.sql, &["WHERE", "users.active", "=", "$1"]);
    assert!(matches!(query.params[0], DataType::Boolean(Some(true))));
}

#[test]
fn filter_table_qualified_is_null_via_on() {
    let query = User::select().filter(Filter::is_null("name").on("users")).build().unwrap();

    assert_sql_contains(&query.sql, &["WHERE", "users.name", "IS NULL"]);
}

#[test]
fn filter_table_qualified_in_via_on() {
    let query =
        User::select().filter(Filter::is_in("id", vec![1, 2, 3]).on("users")).build().unwrap();

    assert_sql_contains(&query.sql, &["WHERE", "users.id", "IN"]);
    assert_eq!(query.params.len(), 3);
}

#[test]
fn filter_col_eq_in_join() {
    let query = User::select()
        .join(Join::left("user_roles", Filter::col_eq("users", "id", "user_roles", "user_id")))
        .build()
        .unwrap();

    assert_sql_contains(
        &query.sql,
        &["LEFT JOIN", "user_roles", "ON", "users.id", "=", "user_roles.user_id"],
    );
}

#[test]
fn filter_nested_and_or() {
    let query = User::select()
        .filter(Filter::And(vec![
            Filter::Or(vec![Filter::eq("active", true), Filter::eq("id", 1)]),
            Filter::gt("id", 0),
        ]))
        .build()
        .unwrap();

    assert_sql_contains(&query.sql, &["WHERE"]);
    assert!(query.params.len() >= 2);
}

#[test]
fn filter_deeply_nested() {
    let query = User::select()
        .filter(Filter::Or(vec![
            Filter::And(vec![Filter::eq("active", true), Filter::gt("id", 10)]),
            Filter::And(vec![Filter::eq("active", false), Filter::lt("id", 5)]),
        ]))
        .build()
        .unwrap();

    assert_sql_contains(&query.sql, &["WHERE", "AND", "OR"]);
    assert_eq!(query.params.len(), 4);
    assert!(matches!(query.params[0], DataType::Boolean(Some(true))));
    assert!(matches!(query.params[1], DataType::Int32(Some(10))));
    assert!(matches!(query.params[2], DataType::Boolean(Some(false))));
    assert!(matches!(query.params[3], DataType::Int32(Some(5))));
}

#[test]
fn filter_empty_and() {
    let query = User::select().filter(Filter::And(vec![])).build().unwrap();

    assert_sql_contains(&query.sql, &["SELECT", "FROM users"]);
}

#[test]
fn filter_empty_or() {
    let query = User::select().filter(Filter::Or(vec![])).build().unwrap();

    assert_sql_contains(&query.sql, &["SELECT", "FROM users"]);
}
