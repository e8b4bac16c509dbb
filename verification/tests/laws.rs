use capability_host::host::{ConfigError, Environment, ErrorKind, Propagation};
use capability_host::dispatch::DispatchStats;
use capability_host::messaging::broker_topic;
use capability_host::roundtrip::to_row;
use capability_host::{
    build_query, count_placeholders, quoted_column, value_to_wasi_datatype, BuildError, DataType,
    DeleteBuilder, FetchValue, Filter, InsertBuilder, IntoSqlValue, Join, Message, Order, Query,
    QueryBuilder, SelectBuilder, SqlValue, Timestamp, UpdateBuilder,
};

fn numbers_in(sql: &str) -> Vec<usize> {
    let mut found = Vec::new();
    let chars: Vec<char> = sql.chars().collect();
    let mut i = 0;
    while i < chars.len() {
        if chars[i] == '$' {
            let mut n = 0usize;
            let mut j = i + 1;
            while j < chars.len() && chars[j].is_ascii_digit() {
                n = n * 10 + chars[j].to_digit(10).unwrap() as usize;
                j += 1;
            }
            found.push(n);
        }
        i += 1;
    }
    found
}

fn assert_numbered(query: &Query) {
    assert_eq!(count_placeholders(&query.sql), query.params.len());
    let expected: Vec<usize> = (1..=query.params.len()).collect();
    assert_eq!(numbers_in(&query.sql), expected);
}

fn nested() -> Filter {
    Filter::Or(vec![
        Filter::And(vec![
            Filter::eq("active", true),
            Filter::is_in("id", vec![1i64, 2, 3, 4, 5, 6, 7, 8, 9, 10, 11, 12]),
            Filter::Not(Box::new(Filter::like("name", "%a%"))),
        ]),
        Filter::And(vec![]),
        Filter::Or(vec![]),
        Filter::is_in("id", Vec::<i32>::new()),
        Filter::is_null("name"),
        Filter::lte("id", 5u64).on("other"),
    ])
}

#[test]
fn placeholders_are_numbered_without_gaps() {
    let select = SelectBuilder::new("users")
        .columns(vec!["id", "name"])
        .join(Join::inner("roles", Filter::eq("kind", "admin")))
        .filter(nested())
        .filter(Filter::gt("id", 100))
        .order_by("name", Order::Desc)
        .limit(10)
        .offset(5)
        .build()
        .unwrap();
    assert_eq!(select.params.len(), 23);
    assert_numbered(&select);

    let update = UpdateBuilder::new("users")
        .set("name", "n")
        .set("active", false)
        .filter(nested())
        .build()
        .unwrap();
    assert_eq!(update.params.len(), 21);
    assert_numbered(&update);

    let insert = InsertBuilder::new("users")
        .set("a", 1)
        .set("b", 2)
        .set("c", 3)
        .set("d", 4)
        .set("e", 5)
        .set("f", 6)
        .set("g", 7)
        .set("h", 8)
        .set("i", 9)
        .set("j", 10)
        .set("k", 11)
        .build()
        .unwrap();
    assert_numbered(&insert);
    assert!(insert.sql.ends_with("VALUES ($1, $2, $3, $4, $5, $6, $7, $8, $9, $10, $11)"));

    let delete = DeleteBuilder::new("users").filter(nested()).build().unwrap();
    assert_numbered(&delete);
    assert_numbered(&DeleteBuilder::new("users").build().unwrap());
}

#[test]
fn count_placeholders_counts_dollar_signs() {
    assert_eq!(count_placeholders(""), 0);
    assert_eq!(count_placeholders("SELECT 1"), 0);
    assert_eq!(count_placeholders("$1"), 1);
    assert_eq!(count_placeholders("a = $1 AND b = $22 OR $3"), 3);
    assert_eq!(count_placeholders("$$"), 2);
}

#[test]
fn select_renders_every_clause_in_its_place() {
    let query = SelectBuilder::new("users")
        .columns(vec!["id", "name", "active"])
        .filter(Filter::eq("active", true))
        .filter(Filter::gt("id", 100))
        .order_by("name", Order::Asc)
        .limit(10)
        .offset(5)
        .build()
        .unwrap();
    assert_eq!(
        query.sql,
        "SELECT \"users\".\"id\", \"users\".\"name\", \"users\".\"active\" FROM \"users\" \
         WHERE ((\"users\".\"active\") = ($1)) AND ((\"users\".\"id\") > ($2)) \
         ORDER BY \"users\".\"name\" ASC LIMIT $3 OFFSET $4"
    );
    assert_eq!(
        query.params,
        vec![
            DataType::Boolean(Some(true)),
            DataType::Int32(Some(100)),
            DataType::Uint64(Some(10)),
            DataType::Uint64(Some(5)),
        ]
    );
}

#[test]
fn select_without_columns_selects_everything() {
    let query = SelectBuilder::new("users").build().unwrap();
    assert_eq!(query.sql, "SELECT * FROM \"users\"");
    let aliased = SelectBuilder::new("users").column_as("roles.name", "role").build().unwrap();
    assert_eq!(aliased.sql, "SELECT \"roles\".\"name\" AS \"role\" FROM \"users\"");
    let dotted = SelectBuilder::new("t").column_as("a.b.c", "x").build().unwrap();
    assert_eq!(dotted.sql, "SELECT \"a\".\"b.c\" AS \"x\" FROM \"t\"");
    assert!(SelectBuilder::new("t").try_column_as("nodot", "x").is_none());
    assert!(SelectBuilder::new("t").try_column_as("a.b", "x").is_some());
}

#[test]
fn a_join_condition_defaults_to_the_joined_table() {
    let query = SelectBuilder::new("users")
        .join(Join::left("roles", Filter::eq("kind", "admin")))
        .join(Join::full("teams", Filter::col_eq("users", "team_id", "teams", "id")))
        .filter(Filter::eq("active", true))
        .build()
        .unwrap();
    assert_eq!(
        query.sql,
        "SELECT * FROM \"users\" LEFT JOIN \"roles\" ON (\"roles\".\"kind\") = ($1) \
         FULL OUTER JOIN \"teams\" ON (\"users\".\"team_id\") = (\"teams\".\"id\") \
         WHERE (\"users\".\"active\") = ($2)"
    );
    assert_eq!(
        query.params,
        vec![DataType::Str(Some("admin".to_string())), DataType::Boolean(Some(true))]
    );
}

#[test]
fn insert_update_and_delete_render_as_written() {
    let insert = InsertBuilder::new("items").set("name", "test").set("count", 10).build().unwrap();
    assert_eq!(insert.sql, "INSERT INTO \"items\" (\"name\", \"count\") VALUES ($1, $2)");
    assert_eq!(InsertBuilder::new("items").build().unwrap().sql, "INSERT INTO \"items\" ()");
    let update = UpdateBuilder::new("items")
        .set("name", "new")
        .set_if("count", None::<i32>)
        .set_if("id", Some(9i64))
        .filter(Filter::lt("id", 5))
        .build()
        .unwrap();
    assert_eq!(
        update.sql,
        "UPDATE \"items\" SET \"name\" = $1, \"id\" = $2 WHERE (\"items\".\"id\") < ($3)"
    );
    assert_eq!(
        update.params,
        vec![
            DataType::Str(Some("new".to_string())),
            DataType::Int64(Some(9)),
            DataType::Int32(Some(5)),
        ]
    );
    let delete = DeleteBuilder::new("items").build().unwrap();
    assert_eq!(delete.sql, "DELETE FROM \"items\"");
}

#[test]
fn a_conflict_clause_needs_a_column_and_an_action() {
    let row = "INSERT INTO \"items\" (\"a\") VALUES ($1)";
    assert_eq!(InsertBuilder::new("items").set("a", 1).on_conflict("a").build().unwrap().sql, row);
    assert_eq!(InsertBuilder::new("items").set("a", 1).do_nothing().build().unwrap().sql, row);
    assert_eq!(
        InsertBuilder::new("items").set("a", 1).do_update(&["a"]).build().unwrap().sql,
        row
    );
    let upsert = InsertBuilder::new("items")
        .set("a", 1)
        .on_conflict("a")
        .do_nothing()
        .do_update(&["a", "b"])
        .build()
        .unwrap();
    assert_eq!(
        upsert.sql,
        "INSERT INTO \"items\" (\"a\") VALUES ($1) ON CONFLICT (\"a\") DO UPDATE SET \
         \"a\" = \"excluded\".\"a\", \"b\" = \"excluded\".\"b\""
    );
    assert_numbered(&upsert);
    let delete = DeleteBuilder::new("items").returning("id").build().unwrap();
    assert_eq!(delete.sql, "DELETE FROM \"items\" RETURNING \"id\"");
}

#[test]
fn filters_render_by_their_kind() {
    let sql_of = |f: Filter| {
        let mut sql = String::new();
        let mut params = Vec::new();
        f.into_expr("t", &mut sql, &mut params);
        (sql, params)
    };
    assert_eq!(sql_of(Filter::lte("c", 1)).0, "(\"t\".\"c\") <= ($1)");
    assert_eq!(sql_of(Filter::is_not_null("c")).0, "(\"t\".\"c\") IS NOT NULL");
    assert_eq!(sql_of(Filter::like("c", "%x")).0, "(\"t\".\"c\") LIKE ($1)");
    assert_eq!(sql_of(Filter::is_in("c", vec![1, 2])).0, "(\"t\".\"c\") IN ($1, $2)");
    let (sql, params) = sql_of(Filter::is_in("c", Vec::<i32>::new()));
    assert_eq!(sql, "($1) = ($2)");
    assert_eq!(params, vec![SqlValue::Int(Some(1)), SqlValue::Int(Some(2))]);
    let (sql, params) = sql_of(Filter::And(vec![]));
    assert_eq!(sql, "$1");
    assert_eq!(params, vec![SqlValue::Bool(Some(true))]);
    let (sql, params) = sql_of(Filter::Or(vec![]));
    assert_eq!(sql, "$1");
    assert_eq!(params, vec![SqlValue::Bool(Some(false))]);
    assert_eq!(sql_of(Filter::And(vec![Filter::is_null("c")])).0, "(\"t\".\"c\") IS NULL");
    assert_eq!(
        sql_of(Filter::Not(Box::new(Filter::Not(Box::new(Filter::is_null("c")))))).0,
        "NOT (NOT ((\"t\".\"c\") IS NULL))"
    );
    assert_eq!(
        sql_of(Filter::Or(vec![Filter::eq("a", 1), Filter::And(vec![Filter::gt("b", 2), Filter::lt("c", 3)])])).0,
        "((\"t\".\"a\") = ($1)) OR (((\"t\".\"b\") > ($2)) AND ((\"t\".\"c\") < ($3)))"
    );
    let mut sql = String::from("x ");
    let mut params = vec![SqlValue::Bool(None); 9];
    Filter::eq("c", 1).into_expr("t", &mut sql, &mut params);
    assert_eq!(sql, "x (\"t\".\"c\") = ($10)");
    assert_eq!(params.len(), 10);
}

#[test]
fn qualifying_a_filter_changes_the_table_only() {
    let render = |f: Filter| {
        let mut sql = String::new();
        let mut params = Vec::new();
        f.into_expr("users", &mut sql, &mut params);
        (sql, params)
    };
    let (plain, plain_params) = render(Filter::is_in("id", vec![1, 2, 3]));
    let (qualified, qualified_params) = render(Filter::is_in("id", vec![1, 2, 3]).on("people"));
    assert_eq!(plain, "(\"users\".\"id\") IN ($1, $2, $3)");
    assert_eq!(qualified, "(\"people\".\"id\") IN ($1, $2, $3)");
    assert_eq!(plain_params, qualified_params);
    assert_eq!(plain.replace("\"users\"", "\"people\""), qualified);

    let (again, _) = render(Filter::eq("id", 1).on("a").on("b"));
    assert_eq!(again, "(\"b\".\"id\") = ($1)");

    let (combined, _) = render(Filter::And(vec![Filter::eq("a", 1), Filter::eq("b", 2)]));
    let (combined_on, _) =
        render(Filter::And(vec![Filter::eq("a", 1), Filter::eq("b", 2)]).on("people"));
    assert_eq!(combined, combined_on);
    let (columns, _) = render(Filter::col_eq("a", "x", "b", "y"));
    let (columns_on, _) = render(Filter::col_eq("a", "x", "b", "y").on("people"));
    assert_eq!(columns, columns_on);
    let (empty, _) = render(Filter::is_in("id", Vec::<i32>::new()).on("people"));
    assert_eq!(empty, "($1) = ($2)");
}

#[test]
fn a_copy_of_a_filter_renders_as_the_filter() {
    let render = |f: Filter| {
        let mut sql = String::new();
        let mut params = Vec::new();
        f.into_expr("users", &mut sql, &mut params);
        (sql, params)
    };
    let filter = nested();
    let copy = filter.clone();
    assert_eq!(render(copy), render(filter));
    let join = Join::right("roles", Filter::eq("id", 1));
    let twin = join.clone();
    assert_eq!(twin.table, "roles");
    assert_eq!(twin.kind, capability_host::JoinType::RightJoin);
    assert_eq!(render(twin.on), render(join.on));
}

#[test]
fn a_value_without_a_wire_form_fails_the_build() {
    let local = SqlValue::ChronoDateTimeLocal(Some(Timestamp { secs: 0, nanos: 0 }));
    assert_eq!(
        InsertBuilder::new("t").set("a", 1).set("b", local.clone()).build(),
        Err(BuildError::UnsupportedValue)
    );
    assert_eq!(
        SelectBuilder::new("t").filter(Filter::eq("a", local.clone())).build(),
        Err(BuildError::UnsupportedValue)
    );
    assert_eq!(
        build_query("SELECT $1".to_string(), vec![SqlValue::Int(Some(1)), local]),
        Err(BuildError::UnsupportedValue)
    );
    let query = build_query("SELECT $1".to_string(), vec![SqlValue::Char(Some('x'))]).unwrap();
    assert_eq!(query.sql, "SELECT $1");
    assert_eq!(query.params, vec![DataType::Str(Some("x".to_string()))]);
}

#[test]
fn the_dialect_quotes_with_double_quotes_and_numbers_with_dollars() {
    assert_eq!(QueryBuilder.quote(), '"');
    assert_eq!(QueryBuilder.placeholder(), ("$", true));
    assert_eq!(quoted_column("users", "id"), "\"users\".\"id\"");
    assert_eq!(quoted_column("", ""), "\"\".\"\"");
}

#[test]
fn what_is_stored_is_what_is_fetched() {
    let values = vec![
        ("flag", true.into_value()),
        ("small", 7i32.into_value()),
        ("big", (-9i64).into_value()),
        ("count", 8u32.into_value()),
        ("total", u64::MAX.into_value()),
        ("name", "n".into_value()),
        ("bytes", vec![1u8, 2].into_value()),
        ("when", Timestamp { secs: 1705314645, nanos: 123_000_000 }.into_value()),
        ("tiny", 3i8.into_value()),
        ("letter", 'x'.into_value()),
        ("nothing", Option::<String>::None.into_value()),
    ];
    let row = to_row(&values, "7").unwrap();
    assert_eq!(row.index, "7");
    assert_eq!(row.fields.len(), 11);
    assert_eq!(<bool as FetchValue>::fetch(&row, "flag"), Ok(true));
    assert_eq!(<i32 as FetchValue>::fetch(&row, "small"), Ok(7));
    assert_eq!(<i64 as FetchValue>::fetch(&row, "big"), Ok(-9));
    assert_eq!(<u32 as FetchValue>::fetch(&row, "count"), Ok(8));
    assert_eq!(<u64 as FetchValue>::fetch(&row, "total"), Ok(u64::MAX));
    assert_eq!(<String as FetchValue>::fetch(&row, "name"), Ok("n".to_string()));
    assert_eq!(<Vec<u8> as FetchValue>::fetch(&row, "bytes"), Ok(vec![1, 2]));
    assert_eq!(
        <Timestamp as FetchValue>::fetch(&row, "when"),
        Ok(Timestamp { secs: 1705314645, nanos: 123_000_000 })
    );
    assert_eq!(<i32 as FetchValue>::fetch(&row, "tiny"), Ok(3));
    assert_eq!(<String as FetchValue>::fetch(&row, "letter"), Ok("x".to_string()));
    assert_eq!(<Option<String> as FetchValue>::fetch(&row, "nothing"), Ok(None));
    let local = SqlValue::ChronoDateTimeLocal(None);
    assert_eq!(to_row(&vec![("a", local)], "0"), Err(BuildError::UnsupportedValue));
}

#[test]
fn a_wire_value_read_and_written_back_is_the_same() {
    let values = vec![
        DataType::Boolean(Some(true)),
        DataType::Boolean(None),
        DataType::Int32(Some(-1)),
        DataType::Int64(None),
        DataType::Uint32(Some(4)),
        DataType::Uint64(Some(5)),
        DataType::Str(Some(String::new())),
        DataType::Str(None),
        DataType::Binary(Some(vec![0])),
        DataType::Timestamp(None),
        DataType::Timestamp(Some("2024-01-15T10:30:45+00:00".to_string())),
    ];
    for value in values {
        let row = capability_host::Row {
            fields: vec![capability_host::Field { name: "c".to_string(), value: value.clone() }],
            index: String::new(),
        };
        let native: SqlValue = match &value {
            DataType::Boolean(_) => <Option<bool>>::fetch(&row, "c").unwrap().into_value(),
            DataType::Int32(_) => <Option<i32>>::fetch(&row, "c").unwrap().into_value(),
            DataType::Int64(_) => <Option<i64>>::fetch(&row, "c").unwrap().into_value(),
            DataType::Uint32(_) => <Option<u32>>::fetch(&row, "c").unwrap().into_value(),
            DataType::Uint64(_) => <Option<u64>>::fetch(&row, "c").unwrap().into_value(),
            DataType::Str(_) => <Option<String>>::fetch(&row, "c").unwrap().into_value(),
            DataType::Binary(_) => <Option<Vec<u8>>>::fetch(&row, "c").unwrap().into_value(),
            DataType::Timestamp(_) => <Option<Timestamp>>::fetch(&row, "c").unwrap().into_value(),
            _ => unreachable!(),
        };
        assert_eq!(value_to_wasi_datatype(native), Ok(value));
    }
    let row = capability_host::Row {
        fields: vec![capability_host::Field {
            name: "c".to_string(),
            value: DataType::Timestamp(Some("2024-01-15 10:30:45".to_string())),
        }],
        index: String::new(),
    };
    let read = <Timestamp as FetchValue>::fetch(&row, "c").unwrap();
    assert_eq!(
        value_to_wasi_datatype(read.into_value()),
        Ok(DataType::Timestamp(Some("2024-01-15T10:30:45+00:00".to_string())))
    );
}

#[test]
fn settings_have_their_defaults() {
    let env = Environment {
        vars: vec![
            ("ENV".to_string(), "prod".to_string()),
            ("AZURE_IDENTITY".to_string(), "me".to_string()),
            ("ENV".to_string(), "later".to_string()),
        ],
    };
    assert_eq!(env.config_get("ENV"), Ok("prod".to_string()));
    assert_eq!(env.config_get("AZURE_IDENTITY"), Ok("me".to_string()));
    assert_eq!(env.config_get("HTTP_ADDR"), Ok("http://localhost:8080".to_string()));
    assert_eq!(env.config_get("WEBSOCKET_ADDR"), Ok("0.0.0.0:80".to_string()));
    assert_eq!(env.config_get("COMPONENT"), Ok("unknown".to_string()));
    assert_eq!(env.get("env"), None);
    assert_eq!(env.get_or("env", "x"), "x");
    let empty = Environment { vars: Vec::new() };
    assert_eq!(empty.config_get("ENV"), Ok("dev".to_string()));
    let missing = empty.config_get("AZURE_IDENTITY");
    assert_eq!(missing, Err(ConfigError::MissingConfig("AZURE_IDENTITY".to_string())));
    assert_eq!(missing.unwrap_err().to_string(), "configuration not found: AZURE_IDENTITY");
}

#[test]
fn errors_go_where_their_kind_says() {
    let surfaced = [
        ErrorKind::MissingColumn,
        ErrorKind::TypeMismatch,
        ErrorKind::UnsupportedTimestamp,
        ErrorKind::MissingConfig,
        ErrorKind::UnsupportedValue,
        ErrorKind::ConnectionTimeout,
        ErrorKind::ConnectionRefused,
        ErrorKind::HttpRequestUriInvalid,
        ErrorKind::InternalError,
    ];
    for kind in surfaced {
        assert_eq!(kind.propagation(), Propagation::Surfaced);
        assert!(!kind.traps_guest());
    }
    assert_eq!(ErrorKind::BroadcastLag.propagation(), Propagation::Logged);
    assert_eq!(ErrorKind::ChannelFull.propagation(), Propagation::Logged);
    assert_eq!(ErrorKind::MaxConnections.propagation(), Propagation::Rejected);
    assert_eq!(ErrorKind::ResourceTableMisuse.propagation(), Propagation::Trapped);
    assert!(ErrorKind::ResourceTableMisuse.traps_guest());
}

#[test]
fn messages_and_topics() {
    let message = Message::new(b"payload");
    assert_eq!(message.payload, b"payload".to_vec());
    assert!(message.headers.is_empty());
    assert!(Message::new(&[]).payload.is_empty());
    assert_eq!(broker_topic("dev", "realtime-r9k.v1"), "dev-realtime-r9k.v1");
    assert_eq!(broker_topic("", ""), "-");
}

#[test]
fn handler_failures_are_counted() {
    let stats = DispatchStats::new().record(false).record(true).record(false);
    assert_eq!(stats, DispatchStats { events: 3, processing_errors: 1 });
    let full = DispatchStats { events: u64::MAX, processing_errors: u64::MAX }.record(true);
    assert_eq!(full, DispatchStats { events: u64::MAX, processing_errors: u64::MAX });
}

#[test]
fn an_entity_select_is_made_of_what_it_is_given() {
    let built = capability_host::entity::select_from(
        "users",
        vec!["id", "bio", "name"],
        vec![("bio", "profiles", "text"), ("bio", "ignored", "x")],
        vec![capability_host::Join::left(
            "profiles",
            Filter::col_eq("profiles", "user_id", "users", "id"),
        )],
        vec![
            capability_host::OrderSpec { table: None, column: "name", order: capability_host::Order::Asc },
            capability_host::OrderSpec {
                table: Some("profiles"),
                column: "text",
                order: capability_host::Order::Desc,
            },
        ],
    )
    .build()
    .unwrap();
    assert_eq!(
        built.sql,
        "SELECT \"users\".\"id\", \"users\".\"name\", \"profiles\".\"text\" AS \"bio\" FROM \"users\" \
         LEFT JOIN \"profiles\" ON (\"profiles\".\"user_id\") = (\"users\".\"id\") \
         ORDER BY \"users\".\"name\" ASC, \"profiles\".\"text\" DESC"
    );
    let bare = capability_host::entity::select_from("t", vec![], vec![], vec![], vec![]);
    assert_eq!(bare.build().unwrap().sql, "SELECT * FROM \"t\"");
}

#[test]
fn assignments_are_numbered_on_from_the_parameters_that_are_there() {
    let sets = vec![
        ("a", capability_host::SqlValue::BigInt(Some(1))),
        ("b\"c", capability_host::SqlValue::Bool(Some(true))),
    ];
    let mut sql = String::from("SET ");
    let mut params = vec![
        capability_host::SqlValue::BigInt(Some(9)),
        capability_host::SqlValue::BigInt(Some(8)),
    ];
    capability_host::update::push_assignments(&sets, &mut sql, &mut params);
    assert_eq!(sql, "SET \"a\" = $3, \"b\"\"c\" = $4");
    assert_eq!(
        params,
        vec![
            capability_host::SqlValue::BigInt(Some(9)),
            capability_host::SqlValue::BigInt(Some(8)),
            capability_host::SqlValue::BigInt(Some(1)),
            capability_host::SqlValue::Bool(Some(true)),
        ]
    );
    let mut fresh = String::new();
    let mut none = Vec::new();
    capability_host::update::push_assignments(&sets, &mut fresh, &mut none);
    assert_eq!(fresh, "\"a\" = $1, \"b\"\"c\" = $2");
    capability_host::update::push_assignments(&Vec::new(), &mut fresh, &mut none);
    assert_eq!(fresh, "\"a\" = $1, \"b\"\"c\" = $2");
    assert_eq!(none.len(), 2);
}

#[test]
fn a_quote_inside_an_identifier_is_written_twice() {
    let mut text = String::from(">");
    capability_host::text::push_quoted(&mut text, "a\"b");
    capability_host::text::push_quoted(&mut text, "");
    capability_host::text::push_quoted(&mut text, "\"\"");
    capability_host::text::push_quoted(&mut text, "plain");
    assert_eq!(text, ">\"a\"\"b\"\"\"\"\"\"\"\"\"\"plain\"");
    let mut raw = String::new();
    capability_host::text::push_enclosed(&mut raw, "a\"b");
    assert_eq!(raw, "\"a\"b\"");
    let mut inner = String::new();
    capability_host::text::push_escaped(&mut inner, "ü\"$1");
    assert_eq!(inner, "ü\"\"$1");
}
