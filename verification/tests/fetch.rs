use capability_host::json::as_json;
use capability_host::naming::{handler_name, to_snake_case};
use capability_host::time::{as_timestamp, CalendarDate, CivilDateTime, ClockTime, Timestamp};
use capability_host::value::{value_to_wasi_datatype, BuildError, SqlValue};
use capability_host::wire::{
    as_binary, as_bool, as_f32, as_f64, as_i32, as_i64, as_string, as_u32, as_u64, is_null,
    ConvertError, DataType, FetchError, Field, Row, WireKind,
};
use capability_host::FetchValue;

fn row_of(name: &str, value: DataType) -> Row {
    Row { fields: vec![Field { name: name.to_string(), value }], index: "0".to_string() }
}

#[test]
fn to_snake_case_conversion() {
    assert_eq!(to_snake_case("ENV"), "env");
    assert_eq!(to_snake_case("BLOCK_MGT_URL"), "block_mgt_url");
    assert_eq!(to_snake_case("CC_STATIC_URL"), "cc_static_url");
}

#[test]
fn method_from_path() {
    assert_eq!(handler_name("/inbound/xml"), "inbound_xml");
    assert_eq!(handler_name("/set-trip/{vehicle_id}/{trip_id}"), "set_trip_vehicle_id_trip_id");
    assert_eq!(handler_name("/some/path/data.json"), "some_path_data_json");
}

#[test]
fn handler_name_drops_every_leading_slash() {
    assert_eq!(handler_name("//Jobs/Detector"), "jobs_detector");
    assert_eq!(handler_name(""), "");
    assert_eq!(handler_name("realtime-r9k.v1"), "realtime_r9k_v1");
}

#[test]
fn fetch_value_i64() {
    let row = row_of("id", DataType::Int64(Some(42)));
    let result: i64 = FetchValue::fetch(&row, "id").unwrap();
    assert_eq!(result, 42);
}

#[test]
fn fetch_value_string() {
    let row = row_of("name", DataType::Str(Some("test".to_string())));
    let result: String = FetchValue::fetch(&row, "name").unwrap();
    assert_eq!(result, "test");
}

#[test]
fn fetch_value_bool() {
    let row = row_of("active", DataType::Boolean(Some(true)));
    let result: bool = FetchValue::fetch(&row, "active").unwrap();
    assert!(result);
}

#[test]
fn fetch_optional_some() {
    let row = row_of("email", DataType::Str(Some("test@example.com".to_string())));
    let result: Option<String> = FetchValue::fetch(&row, "email").unwrap();
    assert_eq!(result, Some("test@example.com".to_string()));
}

#[test]
fn fetch_optional_none() {
    let row = row_of("phone", DataType::Str(None));
    let result: Option<String> = FetchValue::fetch(&row, "phone").unwrap();
    assert_eq!(result, None);
}

#[test]
fn fetch_missing_column() {
    let row = row_of("id", DataType::Int64(Some(1)));
    let result: Result<String, FetchError> = FetchValue::fetch(&row, "missing");
    assert!(result.is_err());
    assert!(result.unwrap_err().to_string().contains("missing column"));
}

#[test]
fn fetch_missing_column_names_the_column() {
    let row = row_of("id", DataType::Int64(Some(1)));
    let result: Result<String, FetchError> = FetchValue::fetch(&row, "name");
    assert_eq!(result, Err(FetchError::MissingColumn("name".to_string())));
}

#[test]
fn fetch_wrong_type() {
    let row = row_of("id", DataType::Str(Some("not_a_number".to_string())));
    let result: Result<i64, FetchError> = FetchValue::fetch(&row, "id");
    result.unwrap_err();
}

#[test]
fn fetch_wrong_type_says_what_was_there() {
    let row = row_of("id", DataType::Str(Some("not_a_number".to_string())));
    let result: Result<i64, FetchError> = FetchValue::fetch(&row, "id");
    assert_eq!(
        result,
        Err(FetchError::TypeMismatch {
            column: "id".to_string(),
            expected: WireKind::Int64,
            got: WireKind::Str,
        })
    );
    let row = row_of("id", DataType::Int64(None));
    let result: Result<i64, FetchError> = FetchValue::fetch(&row, "id");
    assert_eq!(
        result,
        Err(FetchError::TypeMismatch {
            column: "id".to_string(),
            expected: WireKind::Int64,
            got: WireKind::Null,
        })
    );
}

#[test]
fn fetch_takes_the_first_field_of_a_name_and_minds_case() {
    let row = Row {
        fields: vec![
            Field { name: "Id".to_string(), value: DataType::Int64(Some(7)) },
            Field { name: "id".to_string(), value: DataType::Int64(Some(1)) },
            Field { name: "id".to_string(), value: DataType::Int64(Some(2)) },
        ],
        index: "0".to_string(),
    };
    let result: i64 = FetchValue::fetch(&row, "id").unwrap();
    assert_eq!(result, 1);
    let upper: i64 = FetchValue::fetch(&row, "Id").unwrap();
    assert_eq!(upper, 7);
}

#[test]
fn fetch_optional_of_a_missing_column_is_an_error() {
    let row = row_of("id", DataType::Int64(Some(1)));
    let result: Result<Option<i64>, FetchError> = FetchValue::fetch(&row, "other");
    assert_eq!(result, Err(FetchError::MissingColumn("other".to_string())));
    let null: Option<i64> = FetchValue::fetch(&row_of("id", DataType::Int64(None)), "id").unwrap();
    assert_eq!(null, None);
    let present: Option<i64> = FetchValue::fetch(&row, "id").unwrap();
    assert_eq!(present, Some(1));
    let wrong: Result<Option<i64>, FetchError> =
        FetchValue::fetch(&row_of("id", DataType::Str(Some("x".to_string()))), "id");
    assert!(wrong.is_err());
}

#[test]
fn fetch_datetime_rfc3339() {
    let row = row_of("created_at", DataType::Timestamp(Some("2024-01-15T10:30:45.123Z".to_string())));
    let result: Timestamp = FetchValue::fetch(&row, "created_at").unwrap();
    assert_eq!(result.to_rfc3339(), Some("2024-01-15T10:30:45.123+00:00".to_string()));
    assert_eq!(result, Timestamp { secs: 1705314645, nanos: 123_000_000 });
}

#[test]
fn fetch_datetime_fallback_format() {
    let row = row_of("updated_at", DataType::Timestamp(Some("2024-01-15 10:30:45.123".to_string())));
    let result: Timestamp = FetchValue::fetch(&row, "updated_at").unwrap();
    let shown = chrono::DateTime::from_timestamp(result.secs, result.nanos)
        .unwrap()
        .format("%Y-%m-%d %H:%M:%S")
        .to_string();
    assert_eq!(shown, "2024-01-15 10:30:45");
}

#[test]
fn fetch_datetime_invalid_format() {
    let row = row_of("bad_date", DataType::Timestamp(Some("not a valid date".to_string())));
    let result: Result<Timestamp, FetchError> = FetchValue::fetch(&row, "bad_date");
    assert!(result.is_err());
    assert!(result.unwrap_err().to_string().contains("unsupported timestamp"));
}

#[test]
fn fetch_datetime_invalid_format_keeps_the_text() {
    let row = row_of("bad_date", DataType::Timestamp(Some("not a valid date".to_string())));
    let result: Result<Timestamp, FetchError> = FetchValue::fetch(&row, "bad_date");
    assert_eq!(result, Err(FetchError::UnsupportedTimestamp("not a valid date".to_string())));
}

#[test]
fn fetch_optional_datetime() {
    let row = row_of("deleted_at", DataType::Timestamp(None));
    let result: Option<Timestamp> = FetchValue::fetch(&row, "deleted_at").unwrap();
    assert_eq!(result, None);
}

#[test]
fn timestamp_with_offset_is_moved_to_utc() {
    let parsed = Timestamp::parse("2024-01-15T12:30:45+02:00").unwrap();
    assert_eq!(parsed, Timestamp { secs: 1705314645, nanos: 0 });
    assert_eq!(parsed.to_rfc3339(), Some("2024-01-15T10:30:45+00:00".to_string()));
    assert_eq!(Timestamp::parse("2024-01-15"), None);
}

#[test]
fn value_to_wasi_bool() {
    let val = value_to_wasi_datatype(SqlValue::Bool(Some(true))).unwrap();
    assert!(matches!(val, DataType::Boolean(Some(true))));
}

#[test]
fn value_to_wasi_integers() {
    let val_int = value_to_wasi_datatype(SqlValue::Int(Some(42))).unwrap();
    let val_bigint = value_to_wasi_datatype(SqlValue::BigInt(Some(999))).unwrap();
    assert!(matches!(val_int, DataType::Int32(Some(42))));
    assert!(matches!(val_bigint, DataType::Int64(Some(999))));
}

#[test]
fn value_to_wasi_string() {
    let val = value_to_wasi_datatype(SqlValue::String(Some("test".to_string()))).unwrap();
    if let DataType::Str(Some(s)) = &val {
        assert_eq!(s, "test");
    } else {
        panic!("Expected string");
    }
}

#[test]
fn value_to_wasi_numeric_types() {
    let val_bool = value_to_wasi_datatype(SqlValue::Bool(Some(true))).unwrap();
    assert!(matches!(val_bool, DataType::Boolean(Some(true))));

    let val_int = value_to_wasi_datatype(SqlValue::Int(Some(42))).unwrap();
    assert!(matches!(val_int, DataType::Int32(Some(42))));

    let val_bigint = value_to_wasi_datatype(SqlValue::BigInt(Some(999))).unwrap();
    assert!(matches!(val_bigint, DataType::Int64(Some(999))));

    let val_tiny = value_to_wasi_datatype(SqlValue::TinyInt(Some(10))).unwrap();
    assert!(matches!(val_tiny, DataType::Int32(Some(10))));

    let val_small = value_to_wasi_datatype(SqlValue::SmallInt(Some(1000))).unwrap();
    assert!(matches!(val_small, DataType::Int32(Some(1000))));

    let val_tiny_u = value_to_wasi_datatype(SqlValue::TinyUnsigned(Some(10))).unwrap();
    assert!(matches!(val_tiny_u, DataType::Uint32(Some(10))));

    let val_small_u = value_to_wasi_datatype(SqlValue::SmallUnsigned(Some(500))).unwrap();
    assert!(matches!(val_small_u, DataType::Uint32(Some(500))));

    let val_unsigned = value_to_wasi_datatype(SqlValue::Unsigned(Some(1000))).unwrap();
    assert!(matches!(val_unsigned, DataType::Uint32(Some(1000))));

    let val_big_u = value_to_wasi_datatype(SqlValue::BigUnsigned(Some(10000))).unwrap();
    assert!(matches!(val_big_u, DataType::Uint64(Some(10000))));

    let val_f32 =
        value_to_wasi_datatype(SqlValue::Float(Some(std::f32::consts::PI.to_bits()))).unwrap();
    assert!(
        matches!(val_f32, DataType::Float(Some(v)) if (f32::from_bits(v) - std::f32::consts::PI).abs() < 0.01)
    );

    let val_f64 =
        value_to_wasi_datatype(SqlValue::Double(Some(std::f64::consts::E.to_bits()))).unwrap();
    assert!(
        matches!(val_f64, DataType::Double(Some(v)) if (f64::from_bits(v) - std::f64::consts::E).abs() < 0.001)
    );
}

#[test]
fn value_to_wasi_negative_small_integers_keep_their_sign() {
    let val = value_to_wasi_datatype(SqlValue::TinyInt(Some(-128))).unwrap();
    assert_eq!(val, DataType::Int32(Some(-128)));
    let val = value_to_wasi_datatype(SqlValue::SmallInt(Some(-32768))).unwrap();
    assert_eq!(val, DataType::Int32(Some(-32768)));
    let val = value_to_wasi_datatype(SqlValue::SmallUnsigned(Some(65535))).unwrap();
    assert_eq!(val, DataType::Uint32(Some(65535)));
}

#[test]
fn value_to_wasi_string_types() {
    let val_string = value_to_wasi_datatype(SqlValue::String(Some("test".to_string()))).unwrap();
    if let DataType::Str(Some(s)) = &val_string {
        assert_eq!(s, "test");
    } else {
        panic!("Expected string");
    }

    let val_char = value_to_wasi_datatype(SqlValue::Char(Some('A'))).unwrap();
    if let DataType::Str(Some(s)) = &val_char {
        assert_eq!(s, "A");
    } else {
        panic!("Expected string from char");
    }
}

#[test]
fn value_to_wasi_binary_types() {
    let val = value_to_wasi_datatype(SqlValue::Bytes(Some(vec![1, 2, 3]))).unwrap();
    if let DataType::Binary(Some(b)) = &val {
        assert_eq!(b, &vec![1, 2, 3]);
    } else {
        panic!("Expected binary");
    }
}

#[test]
fn value_to_wasi_datetime_types() {
    let date = CalendarDate { year: 2024, month: 1, day: 15 };
    let val_date = value_to_wasi_datatype(SqlValue::ChronoDate(Some(date))).unwrap();
    if let DataType::Date(Some(s)) = &val_date {
        assert_eq!(s, "2024-01-15");
    } else {
        panic!("Expected date string");
    }

    let time = ClockTime { secs: 10 * 3600 + 30 * 60 + 45, nanos: 0 };
    let val_time = value_to_wasi_datatype(SqlValue::ChronoTime(Some(time))).unwrap();
    if let DataType::Time(Some(s)) = &val_time {
        assert!(s.starts_with("10:30:45"));
    } else {
        panic!("Expected time string");
    }

    let naive =
        chrono::NaiveDateTime::parse_from_str("2024-01-15 10:30:45", "%Y-%m-%d %H:%M:%S").unwrap();
    let dt = CivilDateTime { secs: naive.and_utc().timestamp(), nanos: 0 };
    let val_dt = value_to_wasi_datatype(SqlValue::ChronoDateTime(Some(dt))).unwrap();
    if let DataType::Timestamp(Some(s)) = &val_dt {
        assert!(s.starts_with("2024-01-15"));
        assert_eq!(s, "2024-01-15 10:30:45");
    } else {
        panic!("Expected timestamp string");
    }

    let parsed: chrono::DateTime<chrono::Utc> = "2024-01-15T10:30:45Z".parse().unwrap();
    let dt_utc = Timestamp { secs: parsed.timestamp(), nanos: parsed.timestamp_subsec_nanos() };
    let val_dt_utc = value_to_wasi_datatype(SqlValue::ChronoDateTimeUtc(Some(dt_utc))).unwrap();
    if let DataType::Timestamp(Some(s)) = &val_dt_utc {
        assert!(s.contains("2024-01-15"));
        assert!(s.contains("10:30:45"));
        assert_eq!(s, "2024-01-15T10:30:45+00:00");
    } else {
        panic!("Expected timestamp string");
    }
}

#[test]
fn value_to_wasi_null_variants() {
    let val_bool = value_to_wasi_datatype(SqlValue::Bool(None)).unwrap();
    assert!(matches!(val_bool, DataType::Boolean(None)));

    let val_int = value_to_wasi_datatype(SqlValue::Int(None)).unwrap();
    assert!(matches!(val_int, DataType::Int32(None)));

    let val_bigint = value_to_wasi_datatype(SqlValue::BigInt(None)).unwrap();
    assert!(matches!(val_bigint, DataType::Int64(None)));

    let val_string = value_to_wasi_datatype(SqlValue::String(None)).unwrap();
    assert!(matches!(val_string, DataType::Str(None)));
}

#[test]
fn value_without_a_wire_form_is_unsupported() {
    let local = SqlValue::ChronoDateTimeLocal(Some(Timestamp { secs: 0, nanos: 0 }));
    assert_eq!(value_to_wasi_datatype(local), Err(BuildError::UnsupportedValue));
    let zoned = SqlValue::ChronoDateTimeWithTimeZone(None);
    assert_eq!(value_to_wasi_datatype(zoned), Err(BuildError::UnsupportedValue));
    let no_such_day = SqlValue::ChronoDate(Some(CalendarDate { year: 2023, month: 2, day: 30 }));
    assert_eq!(value_to_wasi_datatype(no_such_day), Err(BuildError::UnsupportedValue));
    assert!(BuildError::UnsupportedValue.to_string().contains("unsupported values"));
}

#[test]
fn as_type_conversion_errors() {
    let result = as_bool(&DataType::Int32(Some(1)));
    result.unwrap_err();

    let result = as_i32(&DataType::Str(Some("not a number".to_string())));
    result.unwrap_err();

    let result = as_i64(&DataType::Boolean(Some(true)));
    result.unwrap_err();

    let result = as_string(&DataType::Int32(Some(42)));
    result.unwrap_err();

    let result = as_binary(&DataType::Str(Some("not binary".to_string())));
    result.unwrap_err();

    let result = as_timestamp(&DataType::Timestamp(Some("invalid date".to_string())));
    assert!(result.is_err());
    assert!(result.unwrap_err().to_string().contains("unsupported timestamp"));

    let result = as_json(&DataType::Str(Some("not json".to_string())));
    result.unwrap_err();
}

#[test]
fn as_type_conversions_of_the_right_tag() {
    assert_eq!(as_bool(&DataType::Boolean(Some(false))), Ok(false));
    assert_eq!(as_i32(&DataType::Int32(Some(-5))), Ok(-5));
    assert_eq!(as_i64(&DataType::Int64(Some(i64::MIN))), Ok(i64::MIN));
    assert_eq!(as_u32(&DataType::Uint32(Some(u32::MAX))), Ok(u32::MAX));
    assert_eq!(as_u64(&DataType::Uint64(Some(u64::MAX))), Ok(u64::MAX));
    assert_eq!(as_f32(&DataType::Float(Some(1.5f32.to_bits()))), Ok(1.5f32.to_bits()));
    assert_eq!(as_f64(&DataType::Double(Some(2.5f64.to_bits()))), Ok(2.5f64.to_bits()));
    assert_eq!(as_string(&DataType::Str(Some(String::new()))), Ok(String::new()));
    assert_eq!(as_binary(&DataType::Binary(Some(vec![]))), Ok(vec![]));
    assert_eq!(
        as_bool(&DataType::Boolean(None)),
        Err(ConvertError::Mismatch { expected: WireKind::Boolean, got: WireKind::Null })
    );
    assert_eq!(
        as_u32(&DataType::Uint64(Some(1))),
        Err(ConvertError::Mismatch { expected: WireKind::Uint32, got: WireKind::Uint64 })
    );
}

#[test]
fn as_json_reads_text_and_bytes() {
    let text = as_json(&DataType::Str(Some("{\"a\":[1,true,null]}".to_string()))).unwrap();
    let bytes = as_json(&DataType::Binary(Some(b"{\"a\":[1,true,null]}".to_vec()))).unwrap();
    assert_eq!(text, bytes);
    let member = text.get("a").unwrap();
    assert_eq!(member.as_array().unwrap().len(), 3);
    assert_eq!(text.get("b"), None);
    assert_eq!(as_json(&DataType::Binary(Some(vec![0xff]))), Err(ConvertError::InvalidJson));
    assert_eq!(
        as_json(&DataType::Int32(Some(1))),
        Err(ConvertError::Mismatch { expected: WireKind::Json, got: WireKind::Int32 })
    );
}

#[test]
fn fetch_json_names_the_column_that_is_no_json() {
    let row = row_of("doc", DataType::Str(Some("{\"k\":\"v\"}".to_string())));
    let doc: capability_host::Json = FetchValue::fetch(&row, "doc").unwrap();
    assert_eq!(doc.get("k").and_then(|v| v.as_str()), Some("v"));
    let row = row_of("doc", DataType::Str(Some("{".to_string())));
    let bad: Result<capability_host::Json, FetchError> = FetchValue::fetch(&row, "doc");
    assert_eq!(bad, Err(FetchError::InvalidJson("doc".to_string())));
    assert_eq!(bad.unwrap_err().to_string(), "column 'doc': invalid json");
    let row = row_of("doc", DataType::Boolean(Some(true)));
    let wrong: Result<capability_host::Json, FetchError> = FetchValue::fetch(&row, "doc");
    assert_eq!(
        wrong.unwrap_err().to_string(),
        "column 'doc': expected json compatible data type, got boolean"
    );
    let none: Option<capability_host::Json> =
        FetchValue::fetch(&row_of("doc", DataType::Str(None)), "doc").unwrap();
    assert_eq!(none, None);
}

#[test]
fn error_messages_say_what_was_wrong() {
    assert_eq!(
        FetchError::MissingColumn("name".to_string()).to_string(),
        "missing column 'name'"
    );
    assert_eq!(
        FetchError::UnsupportedTimestamp("x".to_string()).to_string(),
        "unsupported timestamp: x; expected RFC3339 or \"%Y-%m-%d %H:%M:%S%.f\" format"
    );
    assert_eq!(
        ConvertError::Mismatch { expected: WireKind::Uint64, got: WireKind::Null }.to_string(),
        "expected uint64 data type, got null"
    );
    assert_eq!(ConvertError::InvalidJson.to_string(), "invalid json");
}

#[test]
fn check_is_null() {
    assert!(is_null(&DataType::Str(None)));
    assert!(is_null(&DataType::Int64(None)));
    assert!(is_null(&DataType::Boolean(None)));
    assert!(is_null(&DataType::Date(None)));
    assert!(is_null(&DataType::Time(None)));
    assert!(is_null(&DataType::Timestamp(None)));
    assert!(!is_null(&DataType::Str(Some("test".to_string()))));
}

#[test]
fn null_is_not_the_empty_text_or_the_empty_bytes() {
    assert!(!is_null(&DataType::Str(Some(String::new()))));
    assert!(!is_null(&DataType::Binary(Some(Vec::new()))));
    assert!(is_null(&DataType::Binary(None)));
    assert!(is_null(&DataType::Float(None)));
    assert!(is_null(&DataType::Double(None)));
    assert!(is_null(&DataType::Uint32(None)));
    assert!(is_null(&DataType::Uint64(None)));
    assert!(is_null(&DataType::Int32(None)));
    assert!(!is_null(&DataType::Int32(Some(0))));
}
