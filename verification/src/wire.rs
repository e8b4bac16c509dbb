//! The wire value model: nullable tagged scalars, named fields and rows, and
//! the conversions from a wire value to a native one.

use vstd::prelude::*;
use vstd::string::StringExecFns;

verus! {

/// A nullable tagged scalar as it crosses the sandbox boundary.
///
/// `Float` and `Double` carry the IEEE-754 bit pattern of the number. `Date`,
/// `Time` and `Timestamp` carry text.
#[derive(Debug, Clone, PartialEq)]
pub enum DataType {
    Boolean(Option<bool>),
    Int32(Option<i32>),
    Int64(Option<i64>),
    Uint32(Option<u32>),
    Uint64(Option<u64>),
    Float(Option<u32>),
    Double(Option<u64>),
    Str(Option<String>),
    Binary(Option<Vec<u8>>),
    Date(Option<String>),
    Time(Option<String>),
    Timestamp(Option<String>),
}

/// What a [`DataType`] holds, as mathematical values.
pub enum WireValue {
    Boolean(Option<bool>),
    Int32(Option<i32>),
    Int64(Option<i64>),
    Uint32(Option<u32>),
    Uint64(Option<u64>),
    Float(Option<u32>),
    Double(Option<u64>),
    Str(Option<Seq<char>>),
    Binary(Option<Seq<u8>>),
    Date(Option<Seq<char>>),
    Time(Option<Seq<char>>),
    Timestamp(Option<Seq<char>>),
}

/// The view of an optional string.
pub open spec fn text_view(s: Option<String>) -> Option<Seq<char>> {
    match s {
        Some(s) => Some(s@),
        None => None,
    }
}

/// The view of an optional byte vector.
pub open spec fn bytes_view(b: Option<Vec<u8>>) -> Option<Seq<u8>> {
    match b {
        Some(b) => Some(b@),
        None => None,
    }
}

impl View for DataType {
    type V = WireValue;

    open spec fn view(&self) -> WireValue {
        match *self {
            DataType::Boolean(v) => WireValue::Boolean(v),
            DataType::Int32(v) => WireValue::Int32(v),
            DataType::Int64(v) => WireValue::Int64(v),
            DataType::Uint32(v) => WireValue::Uint32(v),
            DataType::Uint64(v) => WireValue::Uint64(v),
            DataType::Float(v) => WireValue::Float(v),
            DataType::Double(v) => WireValue::Double(v),
            DataType::Str(v) => WireValue::Str(text_view(v)),
            DataType::Binary(v) => WireValue::Binary(bytes_view(v)),
            DataType::Date(v) => WireValue::Date(text_view(v)),
            DataType::Time(v) => WireValue::Time(text_view(v)),
            DataType::Timestamp(v) => WireValue::Timestamp(text_view(v)),
        }
    }
}

/// The tag of a wire value, or `Null` for a null of any tag.
#[derive(Debug, Clone, Copy, PartialEq, Eq, Structural)]
pub enum WireKind {
    Null,
    Boolean,
    Int32,
    Int64,
    Uint32,
    Uint64,
    Float,
    Double,
    Str,
    Binary,
    Date,
    Time,
    Timestamp,
    Json,
}

impl WireValue {
    /// Whether the value is the null of its tag.
    pub open spec fn is_null(self) -> bool {
        match self {
            WireValue::Boolean(v) => v is None,
            WireValue::Int32(v) => v is None,
            WireValue::Int64(v) => v is None,
            WireValue::Uint32(v) => v is None,
            WireValue::Uint64(v) => v is None,
            WireValue::Float(v) => v is None,
            WireValue::Double(v) => v is None,
            WireValue::Str(v) => v is None,
            WireValue::Binary(v) => v is None,
            WireValue::Date(v) => v is None,
            WireValue::Time(v) => v is None,
            WireValue::Timestamp(v) => v is None,
        }
    }

    /// The tag of the value, whether it is null or not.
    pub open spec fn tag(self) -> WireKind {
        match self {
            WireValue::Boolean(_) => WireKind::Boolean,
            WireValue::Int32(_) => WireKind::Int32,
            WireValue::Int64(_) => WireKind::Int64,
            WireValue::Uint32(_) => WireKind::Uint32,
            WireValue::Uint64(_) => WireKind::Uint64,
            WireValue::Float(_) => WireKind::Float,
            WireValue::Double(_) => WireKind::Double,
            WireValue::Str(_) => WireKind::Str,
            WireValue::Binary(_) => WireKind::Binary,
            WireValue::Date(_) => WireKind::Date,
            WireValue::Time(_) => WireKind::Time,
            WireValue::Timestamp(_) => WireKind::Timestamp,
        }
    }

    /// What a failed conversion reports as found: `Null` for a null, else the tag.
    pub open spec fn kind(self) -> WireKind {
        if self.is_null() {
            WireKind::Null
        } else {
            self.tag()
        }
    }
}

/// One named value of a row.
#[derive(Debug, Clone, PartialEq)]
pub struct Field {
    pub name: String,
    pub value: DataType,
}

/// What a [`Field`] holds.
pub struct FieldView {
    pub name: Seq<char>,
    pub value: WireValue,
}

impl View for Field {
    type V = FieldView;

    open spec fn view(&self) -> FieldView {
        FieldView { name: self.name@, value: self.value@ }
    }
}

/// One result of a query: named values in order, and the row's position in
/// its result set as an opaque text.
#[derive(Debug, Clone, PartialEq)]
pub struct Row {
    pub fields: Vec<Field>,
    pub index: String,
}

/// What a [`Row`] holds.
pub struct RowView {
    pub fields: Seq<FieldView>,
    pub index: Seq<char>,
}

impl View for Row {
    type V = RowView;

    open spec fn view(&self) -> RowView {
        RowView { fields: Seq::new(self.fields@.len(), |i: int| self.fields@[i]@), index: self.index@ }
    }
}

impl RowView {
    /// The position of the first field called `name`, if there is one.
    pub open spec fn position(self, name: Seq<char>) -> Option<int> {
        if exists|i: int| 0 <= i < self.fields.len() && self.fields[i].name == name {
            Some(
                choose|i: int|
                    0 <= i < self.fields.len() && self.fields[i].name == name && forall|j: int|
                        0 <= j < i ==> self.fields[j].name != name,
            )
        } else {
            None
        }
    }

    /// The value of the first field called `name`, if there is one.
    pub open spec fn value_of(self, name: Seq<char>) -> Option<WireValue> {
        match self.position(name) {
            Some(i) => Some(self.fields[i].value),
            None => None,
        }
    }

    /// Whether no two fields share a name. Names are compared as they are:
    /// case matters.
    pub open spec fn names_unique(self) -> bool {
        forall|i: int, j: int|
            0 <= i < j < self.fields.len() ==> self.fields[i].name != self.fields[j].name
    }
}

/// `fields[i]` is the first field called `name`.
pub proof fn lemma_position_is(row: RowView, name: Seq<char>, i: int)
    requires
        0 <= i < row.fields.len(),
        row.fields[i].name == name,
        forall|j: int| 0 <= j < i ==> row.fields[j].name != name,
    ensures
        row.position(name) == Some(i),
        row.value_of(name) == Some(row.fields[i].value),
{
    let k = choose|k: int|
        0 <= k < row.fields.len() && row.fields[k].name == name && forall|j: int|
            0 <= j < k ==> row.fields[j].name != name;
    assert(0 <= k < row.fields.len() && row.fields[k].name == name && forall|j: int|
        0 <= j < k ==> row.fields[j].name != name);
    if k < i {
        assert(row.fields[k].name != name);
    }
    if i < k {
        assert(row.fields[i].name != name);
    }
}

/// No field is called `name`.
pub proof fn lemma_position_none(row: RowView, name: Seq<char>)
    requires
        forall|j: int| 0 <= j < row.fields.len() ==> row.fields[j].name != name,
    ensures
        row.position(name) is None,
        row.value_of(name) is None,
{
}

/// Why a wire value could not be read as a native one.
#[derive(Debug, Clone, PartialEq)]
pub enum ConvertError {
    /// The value is null or has another tag than the one asked for.
    Mismatch { expected: WireKind, got: WireKind },
    /// The text is a timestamp in none of the accepted forms.
    UnsupportedTimestamp(String),
    /// The text or the bytes are not JSON.
    InvalidJson,
}

/// What a [`ConvertError`] holds.
pub enum ConvertErrorView {
    Mismatch { expected: WireKind, got: WireKind },
    UnsupportedTimestamp(Seq<char>),
    InvalidJson,
}

impl View for ConvertError {
    type V = ConvertErrorView;

    open spec fn view(&self) -> ConvertErrorView {
        match *self {
            ConvertError::Mismatch { expected, got } => ConvertErrorView::Mismatch { expected, got },
            ConvertError::UnsupportedTimestamp(raw) => ConvertErrorView::UnsupportedTimestamp(raw@),
            ConvertError::InvalidJson => ConvertErrorView::InvalidJson,
        }
    }
}

/// Why a column of a row could not be read.
#[derive(Debug, Clone, PartialEq)]
pub enum FetchError {
    /// The row has no field of that name.
    MissingColumn(String),
    /// The field's value is null or has another tag than the one asked for.
    TypeMismatch { column: String, expected: WireKind, got: WireKind },
    /// The field holds a timestamp in none of the accepted forms.
    UnsupportedTimestamp(String),
    /// The field holds text or bytes that are not JSON.
    InvalidJson(String),
}

/// What a [`FetchError`] holds.
pub enum FetchErrorView {
    MissingColumn(Seq<char>),
    TypeMismatch { column: Seq<char>, expected: WireKind, got: WireKind },
    UnsupportedTimestamp(Seq<char>),
    InvalidJson(Seq<char>),
}

impl View for FetchError {
    type V = FetchErrorView;

    open spec fn view(&self) -> FetchErrorView {
        match *self {
            FetchError::MissingColumn(name) => FetchErrorView::MissingColumn(name@),
            FetchError::TypeMismatch { column, expected, got } => FetchErrorView::TypeMismatch {
                column: column@,
                expected,
                got,
            },
            FetchError::UnsupportedTimestamp(raw) => FetchErrorView::UnsupportedTimestamp(raw@),
            FetchError::InvalidJson(name) => FetchErrorView::InvalidJson(name@),
        }
    }
}

/// The error of column `column` that conversion error `e` turns into.
pub open spec fn in_column(column: Seq<char>, e: ConvertErrorView) -> FetchErrorView {
    match e {
        ConvertErrorView::Mismatch { expected, got } => FetchErrorView::TypeMismatch {
            column,
            expected,
            got,
        },
        ConvertErrorView::UnsupportedTimestamp(raw) => FetchErrorView::UnsupportedTimestamp(raw),
        ConvertErrorView::InvalidJson => FetchErrorView::InvalidJson(column),
    }
}

/// The name of a kind, as it stands in messages.
pub open spec fn kind_text(kind: WireKind) -> Seq<char> {
    match kind {
        WireKind::Null => "null"@,
        WireKind::Boolean => "boolean"@,
        WireKind::Int32 => "int32"@,
        WireKind::Int64 => "int64"@,
        WireKind::Uint32 => "uint32"@,
        WireKind::Uint64 => "uint64"@,
        WireKind::Float => "float"@,
        WireKind::Double => "double"@,
        WireKind::Str => "string"@,
        WireKind::Binary => "binary"@,
        WireKind::Date => "date"@,
        WireKind::Time => "time"@,
        WireKind::Timestamp => "timestamp"@,
        WireKind::Json => "json compatible"@,
    }
}

/// What is said of a timestamp in none of the accepted forms.
pub open spec fn timestamp_text(raw: Seq<char>) -> Seq<char> {
    "unsupported timestamp: "@ + raw + "; expected RFC3339 or \"%Y-%m-%d %H:%M:%S%.f\" format"@
}

/// What is said of a value of another kind than the one asked for.
pub open spec fn mismatch_text(expected: WireKind, got: WireKind) -> Seq<char> {
    "expected "@ + kind_text(expected) + " data type, got "@ + kind_text(got)
}

/// A conversion error in words.
pub open spec fn convert_error_text(e: ConvertErrorView) -> Seq<char> {
    match e {
        ConvertErrorView::Mismatch { expected, got } => mismatch_text(expected, got),
        ConvertErrorView::UnsupportedTimestamp(raw) => timestamp_text(raw),
        ConvertErrorView::InvalidJson => "invalid json"@,
    }
}

/// A fetch error in words.
pub open spec fn fetch_error_text(e: FetchErrorView) -> Seq<char> {
    match e {
        FetchErrorView::MissingColumn(name) => "missing column '"@ + name + "'"@,
        FetchErrorView::TypeMismatch { column, expected, got } => "column '"@ + column + "': "@
            + mismatch_text(expected, got),
        FetchErrorView::UnsupportedTimestamp(raw) => timestamp_text(raw),
        FetchErrorView::InvalidJson(name) => "column '"@ + name + "': invalid json"@,
    }
}

/// The name of a kind, as it stands in messages.
pub fn kind_name(kind: WireKind) -> (r: &'static str)
    ensures
        r@ == kind_text(kind),
{
    match kind {
        WireKind::Null => "null",
        WireKind::Boolean => "boolean",
        WireKind::Int32 => "int32",
        WireKind::Int64 => "int64",
        WireKind::Uint32 => "uint32",
        WireKind::Uint64 => "uint64",
        WireKind::Float => "float",
        WireKind::Double => "double",
        WireKind::Str => "string",
        WireKind::Binary => "binary",
        WireKind::Date => "date",
        WireKind::Time => "time",
        WireKind::Timestamp => "timestamp",
        WireKind::Json => "json compatible",
    }
}

impl ConvertError {
    /// The error in words.
    pub fn to_string(&self) -> (r: String)
        ensures
            r@ == convert_error_text(self@),
    {
        match self {
            ConvertError::Mismatch { expected, got } => {
                let mut text = String::from_str("expected ");
                text.append(kind_name(*expected));
                text.append(" data type, got ");
                text.append(kind_name(*got));
                assert(text@ =~= mismatch_text(*expected, *got));
                text
            },
            ConvertError::UnsupportedTimestamp(raw) => {
                let mut text = String::from_str("unsupported timestamp: ");
                text.append(raw.as_str());
                text.append("; expected RFC3339 or \"%Y-%m-%d %H:%M:%S%.f\" format");
                assert(text@ =~= timestamp_text(raw@));
                text
            },
            ConvertError::InvalidJson => String::from_str("invalid json"),
        }
    }
}

impl FetchError {
    /// Names the column in which conversion error `e` came up.
    pub fn from_convert(column: &str, e: ConvertError) -> (r: FetchError)
        ensures
            r@ == in_column(column@, e@),
    {
        match e {
            ConvertError::Mismatch { expected, got } => FetchError::TypeMismatch {
                column: String::from_str(column),
                expected,
                got,
            },
            ConvertError::UnsupportedTimestamp(raw) => FetchError::UnsupportedTimestamp(raw),
            ConvertError::InvalidJson => FetchError::InvalidJson(String::from_str(column)),
        }
    }
}

impl FetchError {
    /// The error in words.
    pub fn to_string(&self) -> (r: String)
        ensures
            r@ == fetch_error_text(self@),
    {
        match self {
            FetchError::MissingColumn(name) => {
                let mut text = String::from_str("missing column '");
                text.append(name.as_str());
                text.append("'");
                text
            },
            FetchError::TypeMismatch { column, expected, got } => {
                let mut text = String::from_str("column '");
                text.append(column.as_str());
                text.append("': ");
                text.append("expected ");
                text.append(kind_name(*expected));
                text.append(" data type, got ");
                text.append(kind_name(*got));
                assert(text@ =~= "column '"@ + column@ + "': "@ + mismatch_text(*expected, *got));
                text
            },
            FetchError::UnsupportedTimestamp(raw) => {
                let mut text = String::from_str("unsupported timestamp: ");
                text.append(raw.as_str());
                text.append("; expected RFC3339 or \"%Y-%m-%d %H:%M:%S%.f\" format");
                assert(text@ =~= timestamp_text(raw@));
                text
            },
            FetchError::InvalidJson(name) => {
                let mut text = String::from_str("column '");
                text.append(name.as_str());
                text.append("': invalid json");
                text
            },
        }
    }
}

/// Whether `value` is the null of its tag.
pub fn is_null(value: &DataType) -> (r: bool)
    ensures
        r == value@.is_null(),
{
    match value {
        DataType::Boolean(None)
        | DataType::Int32(None)
        | DataType::Int64(None)
        | DataType::Uint32(None)
        | DataType::Uint64(None)
        | DataType::Float(None)
        | DataType::Double(None)
        | DataType::Str(None)
        | DataType::Binary(None)
        | DataType::Date(None)
        | DataType::Time(None)
        | DataType::Timestamp(None) => true,
        _ => false,
    }
}

/// What a failed conversion of `value` reports as found.
pub fn kind_of(value: &DataType) -> (r: WireKind)
    ensures
        r == value@.kind(),
{
    if is_null(value) {
        WireKind::Null
    } else {
        match value {
            DataType::Boolean(_) => WireKind::Boolean,
            DataType::Int32(_) => WireKind::Int32,
            DataType::Int64(_) => WireKind::Int64,
            DataType::Uint32(_) => WireKind::Uint32,
            DataType::Uint64(_) => WireKind::Uint64,
            DataType::Float(_) => WireKind::Float,
            DataType::Double(_) => WireKind::Double,
            DataType::Str(_) => WireKind::Str,
            DataType::Binary(_) => WireKind::Binary,
            DataType::Date(_) => WireKind::Date,
            DataType::Time(_) => WireKind::Time,
            DataType::Timestamp(_) => WireKind::Timestamp,
        }
    }
}

/// The value of the first field of `row` called `name`.
///
/// Fails with `MissingColumn(name)` exactly when the row has no such field.
pub fn row_field<'a>(row: &'a Row, name: &str) -> (r: Result<&'a DataType, FetchError>)
    ensures
        match r {
            Ok(value) => row@.value_of(name@) == Some(value@),
            Err(e) => row@.value_of(name@) is None && e@ == FetchErrorView::MissingColumn(name@),
        },
{
    let wanted = String::from_str(name);
    let mut i: usize = 0;
    while i < row.fields.len()
        invariant
            i <= row.fields.len(),
            wanted@ == name@,
            forall|j: int| 0 <= j < i ==> row@.fields[j].name != name@,
        decreases row.fields.len() - i,
    {
        if row.fields[i].name == wanted {
            proof {
                lemma_position_is(row@, name@, i as int);
            }
            return Ok(&row.fields[i].value);
        }
        i = i + 1;
    }
    proof {
        lemma_position_none(row@, name@);
    }
    Err(FetchError::MissingColumn(wanted))
}

/// The mismatch between what was `expected` and what `value` is.
fn mismatch(expected: WireKind, value: &DataType) -> (e: ConvertError)
    ensures
        e@ == (ConvertErrorView::Mismatch { expected, got: value@.kind() }),
{
    ConvertError::Mismatch { expected, got: kind_of(value) }
}

/// The boolean that `value` holds.
pub fn as_bool(value: &DataType) -> (r: Result<bool, ConvertError>)
    ensures
        match value@ {
            WireValue::Boolean(Some(v)) => r == Ok::<bool, ConvertError>(v),
            other => r is Err && r->Err_0@ == (ConvertErrorView::Mismatch {
                expected: WireKind::Boolean,
                got: other.kind(),
            }),
        },
{
    match value {
        DataType::Boolean(Some(v)) => Ok(*v),
        _ => Err(mismatch(WireKind::Boolean, value)),
    }
}

/// The 32-bit signed integer that `value` holds.
pub fn as_i32(value: &DataType) -> (r: Result<i32, ConvertError>)
    ensures
        match value@ {
            WireValue::Int32(Some(v)) => r == Ok::<i32, ConvertError>(v),
            other => r is Err && r->Err_0@ == (ConvertErrorView::Mismatch {
                expected: WireKind::Int32,
                got: other.kind(),
            }),
        },
{
    match value {
        DataType::Int32(Some(v)) => Ok(*v),
        _ => Err(mismatch(WireKind::Int32, value)),
    }
}

/// The 64-bit signed integer that `value` holds.
pub fn as_i64(value: &DataType) -> (r: Result<i64, ConvertError>)
    ensures
        match value@ {
            WireValue::Int64(Some(v)) => r == Ok::<i64, ConvertError>(v),
            other => r is Err && r->Err_0@ == (ConvertErrorView::Mismatch {
                expected: WireKind::Int64,
                got: other.kind(),
            }),
        },
{
    match value {
        DataType::Int64(Some(v)) => Ok(*v),
        _ => Err(mismatch(WireKind::Int64, value)),
    }
}

/// The 32-bit unsigned integer that `value` holds.
pub fn as_u32(value: &DataType) -> (r: Result<u32, ConvertError>)
    ensures
        match value@ {
            WireValue::Uint32(Some(v)) => r == Ok::<u32, ConvertError>(v),
            other => r is Err && r->Err_0@ == (ConvertErrorView::Mismatch {
                expected: WireKind::Uint32,
                got: other.kind(),
            }),
        },
{
    match value {
        DataType::Uint32(Some(v)) => Ok(*v),
        _ => Err(mismatch(WireKind::Uint32, value)),
    }
}

/// The 64-bit unsigned integer that `value` holds.
pub fn as_u64(value: &DataType) -> (r: Result<u64, ConvertError>)
    ensures
        match value@ {
            WireValue::Uint64(Some(v)) => r == Ok::<u64, ConvertError>(v),
            other => r is Err && r->Err_0@ == (ConvertErrorView::Mismatch {
                expected: WireKind::Uint64,
                got: other.kind(),
            }),
        },
{
    match value {
        DataType::Uint64(Some(v)) => Ok(*v),
        _ => Err(mismatch(WireKind::Uint64, value)),
    }
}

/// The bit pattern of the single-precision number that `value` holds.
pub fn as_f32(value: &DataType) -> (r: Result<u32, ConvertError>)
    ensures
        match value@ {
            WireValue::Float(Some(v)) => r == Ok::<u32, ConvertError>(v),
            other => r is Err && r->Err_0@ == (ConvertErrorView::Mismatch {
                expected: WireKind::Float,
                got: other.kind(),
            }),
        },
{
    match value {
        DataType::Float(Some(v)) => Ok(*v),
        _ => Err(mismatch(WireKind::Float, value)),
    }
}

/// The bit pattern of the double-precision number that `value` holds.
pub fn as_f64(value: &DataType) -> (r: Result<u64, ConvertError>)
    ensures
        match value@ {
            WireValue::Double(Some(v)) => r == Ok::<u64, ConvertError>(v),
            other => r is Err && r->Err_0@ == (ConvertErrorView::Mismatch {
                expected: WireKind::Double,
                got: other.kind(),
            }),
        },
{
    match value {
        DataType::Double(Some(v)) => Ok(*v),
        _ => Err(mismatch(WireKind::Double, value)),
    }
}

/// A copy of the text that `value` holds.
pub fn as_string(value: &DataType) -> (r: Result<String, ConvertError>)
    ensures
        match value@ {
            WireValue::Str(Some(v)) => r is Ok && r->Ok_0@ == v,
            other => r is Err && r->Err_0@ == (ConvertErrorView::Mismatch {
                expected: WireKind::Str,
                got: other.kind(),
            }),
        },
{
    match value {
        DataType::Str(Some(raw)) => Ok(raw.clone()),
        _ => Err(mismatch(WireKind::Str, value)),
    }
}

/// A copy of the bytes that `value` holds.
pub fn as_binary(value: &DataType) -> (r: Result<Vec<u8>, ConvertError>)
    ensures
        match value@ {
            WireValue::Binary(Some(v)) => r is Ok && r->Ok_0@ == v,
            other => r is Err && r->Err_0@ == (ConvertErrorView::Mismatch {
                expected: WireKind::Binary,
                got: other.kind(),
            }),
        },
{
    match value {
        DataType::Binary(Some(bytes)) => Ok(copy_bytes(bytes)),
        _ => Err(mismatch(WireKind::Binary, value)),
    }
}

/// A copy of `bytes`.
pub fn copy_bytes(bytes: &Vec<u8>) -> (r: Vec<u8>)
    ensures
        r@ == bytes@,
{
    let mut out: Vec<u8> = Vec::new();
    let mut i: usize = 0;
    while i < bytes.len()
        invariant
            i <= bytes.len(),
            out@ == bytes@.take(i as int),
        decreases bytes.len() - i,
    {
        out.push(bytes[i]);
        i = i + 1;
        assert(out@ =~= bytes@.take(i as int));
    }
    assert(bytes@.take(bytes.len() as int) =~= bytes@);
    out
}

} // verus!
