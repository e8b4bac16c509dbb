//! The values that a query carries as parameters, and how each becomes a
//! wire value.

use vstd::prelude::*;
use vstd::string::StringExecFns;
use crate::time::{
    civil_text, date_text, rfc3339_text, time_text, CalendarDate, CivilDateTime, ClockTime,
    Timestamp,
};
use crate::text::char_text;
use crate::wire::{bytes_view, text_view, DataType, WireValue};

verus! {

/// A nullable value handed to a query builder.
///
/// `Float` and `Double` carry the IEEE-754 bit pattern of the number. The
/// last two variants have no wire form: a query that holds one cannot be built.
#[derive(Debug, Clone, PartialEq)]
pub enum SqlValue {
    Bool(Option<bool>),
    TinyInt(Option<i8>),
    SmallInt(Option<i16>),
    Int(Option<i32>),
    BigInt(Option<i64>),
    TinyUnsigned(Option<u8>),
    SmallUnsigned(Option<u16>),
    Unsigned(Option<u32>),
    BigUnsigned(Option<u64>),
    Float(Option<u32>),
    Double(Option<u64>),
    String(Option<String>),
    Char(Option<char>),
    Bytes(Option<Vec<u8>>),
    ChronoDate(Option<CalendarDate>),
    ChronoTime(Option<ClockTime>),
    ChronoDateTime(Option<CivilDateTime>),
    ChronoDateTimeUtc(Option<Timestamp>),
    ChronoDateTimeLocal(Option<Timestamp>),
    ChronoDateTimeWithTimeZone(Option<Timestamp>),
}

/// What a [`SqlValue`] holds, as mathematical values.
pub enum SqlValueView {
    Bool(Option<bool>),
    TinyInt(Option<i8>),
    SmallInt(Option<i16>),
    Int(Option<i32>),
    BigInt(Option<i64>),
    TinyUnsigned(Option<u8>),
    SmallUnsigned(Option<u16>),
    Unsigned(Option<u32>),
    BigUnsigned(Option<u64>),
    Float(Option<u32>),
    Double(Option<u64>),
    String(Option<Seq<char>>),
    Char(Option<char>),
    Bytes(Option<Seq<u8>>),
    ChronoDate(Option<CalendarDate>),
    ChronoTime(Option<ClockTime>),
    ChronoDateTime(Option<CivilDateTime>),
    ChronoDateTimeUtc(Option<Timestamp>),
    ChronoDateTimeLocal(Option<Timestamp>),
    ChronoDateTimeWithTimeZone(Option<Timestamp>),
}

impl View for SqlValue {
    type V = SqlValueView;

    open spec fn view(&self) -> SqlValueView {
        match *self {
            SqlValue::Bool(v) => SqlValueView::Bool(v),
            SqlValue::TinyInt(v) => SqlValueView::TinyInt(v),
            SqlValue::SmallInt(v) => SqlValueView::SmallInt(v),
            SqlValue::Int(v) => SqlValueView::Int(v),
            SqlValue::BigInt(v) => SqlValueView::BigInt(v),
            SqlValue::TinyUnsigned(v) => SqlValueView::TinyUnsigned(v),
            SqlValue::SmallUnsigned(v) => SqlValueView::SmallUnsigned(v),
            SqlValue::Unsigned(v) => SqlValueView::Unsigned(v),
            SqlValue::BigUnsigned(v) => SqlValueView::BigUnsigned(v),
            SqlValue::Float(v) => SqlValueView::Float(v),
            SqlValue::Double(v) => SqlValueView::Double(v),
            SqlValue::String(v) => SqlValueView::String(text_view(v)),
            SqlValue::Char(v) => SqlValueView::Char(v),
            SqlValue::Bytes(v) => SqlValueView::Bytes(bytes_view(v)),
            SqlValue::ChronoDate(v) => SqlValueView::ChronoDate(v),
            SqlValue::ChronoTime(v) => SqlValueView::ChronoTime(v),
            SqlValue::ChronoDateTime(v) => SqlValueView::ChronoDateTime(v),
            SqlValue::ChronoDateTimeUtc(v) => SqlValueView::ChronoDateTimeUtc(v),
            SqlValue::ChronoDateTimeLocal(v) => SqlValueView::ChronoDateTimeLocal(v),
            SqlValue::ChronoDateTimeWithTimeZone(v) => SqlValueView::ChronoDateTimeWithTimeZone(v),
        }
    }
}

/// The views of a sequence of values, item by item.
pub open spec fn values_view(values: Seq<SqlValue>) -> Seq<SqlValueView> {
    Seq::new(values.len(), |i: int| values[i]@)
}

/// The views of a sequence of wire values, item by item.
pub open spec fn wire_view(values: Seq<DataType>) -> Seq<WireValue> {
    Seq::new(values.len(), |i: int| values[i]@)
}

/// Why a query could not be built.
#[derive(Debug, Clone, Copy, PartialEq, Eq, Structural)]
pub enum BuildError {
    /// A parameter has no wire form.
    UnsupportedValue,
}

impl BuildError {
    /// The error in words.
    pub fn to_string(&self) -> (r: String)
        ensures
            r@ == "unsupported values require explicit conversion before building the query"@,
    {
        String::from_str("unsupported values require explicit conversion before building the query")
    }
}

/// The wire value that a parameter becomes, or `None` where it has none.
///
/// Small integers widen to 32 bits; a character becomes a text of that one
/// character; dates and times become the text that `chrono` writes for
/// them, a UTC instant in RFC 3339. A date or time that `chrono` cannot hold
/// has no wire form, and neither has a local or zoned date and time.
pub open spec fn wire_of(value: SqlValueView) -> Option<WireValue> {
    match value {
        SqlValueView::Bool(v) => Some(WireValue::Boolean(v)),
        SqlValueView::TinyInt(v) => Some(
            WireValue::Int32(
                match v {
                    Some(x) => Some(x as i32),
                    None => None,
                },
            ),
        ),
        SqlValueView::SmallInt(v) => Some(
            WireValue::Int32(
                match v {
                    Some(x) => Some(x as i32),
                    None => None,
                },
            ),
        ),
        SqlValueView::Int(v) => Some(WireValue::Int32(v)),
        SqlValueView::BigInt(v) => Some(WireValue::Int64(v)),
        SqlValueView::TinyUnsigned(v) => Some(
            WireValue::Uint32(
                match v {
                    Some(x) => Some(x as u32),
                    None => None,
                },
            ),
        ),
        SqlValueView::SmallUnsigned(v) => Some(
            WireValue::Uint32(
                match v {
                    Some(x) => Some(x as u32),
                    None => None,
                },
            ),
        ),
        SqlValueView::Unsigned(v) => Some(WireValue::Uint32(v)),
        SqlValueView::BigUnsigned(v) => Some(WireValue::Uint64(v)),
        SqlValueView::Float(v) => Some(WireValue::Float(v)),
        SqlValueView::Double(v) => Some(WireValue::Double(v)),
        SqlValueView::String(v) => Some(WireValue::Str(v)),
        SqlValueView::Char(v) => Some(
            WireValue::Str(
                match v {
                    Some(c) => Some(seq![c]),
                    None => None,
                },
            ),
        ),
        SqlValueView::Bytes(v) => Some(WireValue::Binary(v)),
        SqlValueView::ChronoDate(v) => match v {
            Some(d) => match date_text(d.year, d.month, d.day) {
                Some(text) => Some(WireValue::Date(Some(text))),
                None => None,
            },
            None => Some(WireValue::Date(None)),
        },
        SqlValueView::ChronoTime(v) => match v {
            Some(t) => match time_text(t.secs, t.nanos) {
                Some(text) => Some(WireValue::Time(Some(text))),
                None => None,
            },
            None => Some(WireValue::Time(None)),
        },
        SqlValueView::ChronoDateTime(v) => match v {
            Some(t) => match civil_text(t.secs, t.nanos) {
                Some(text) => Some(WireValue::Timestamp(Some(text))),
                None => None,
            },
            None => Some(WireValue::Timestamp(None)),
        },
        SqlValueView::ChronoDateTimeUtc(v) => match v {
            Some(t) => match rfc3339_text(t.secs, t.nanos) {
                Some(text) => Some(WireValue::Timestamp(Some(text))),
                None => None,
            },
            None => Some(WireValue::Timestamp(None)),
        },
        SqlValueView::ChronoDateTimeLocal(_) => None,
        SqlValueView::ChronoDateTimeWithTimeZone(_) => None,
    }
}

/// The wire values that a list of parameters becomes, or `None` where one
/// of them has no wire form.
pub open spec fn wire_all(values: Seq<SqlValueView>) -> Option<Seq<WireValue>> {
    if forall|i: int| 0 <= i < values.len() ==> wire_of(#[trigger] values[i]) is Some {
        Some(Seq::new(values.len(), |i: int| wire_of(values[i])->Some_0))
    } else {
        None
    }
}

/// Turns a parameter into its wire value.
///
/// Fails with `UnsupportedValue` exactly when the parameter has no wire form.
pub fn value_to_wasi_datatype(value: SqlValue) -> (r: Result<DataType, BuildError>)
    ensures
        match wire_of(value@) {
            Some(wire) => r is Ok && r->Ok_0@ == wire,
            None => r == Err::<DataType, BuildError>(BuildError::UnsupportedValue),
        },
{
    match value {
        SqlValue::Bool(v) => Ok(DataType::Boolean(v)),
        SqlValue::TinyInt(v) => Ok(
            DataType::Int32(
                match v {
                    Some(x) => Some(x as i32),
                    None => None,
                },
            ),
        ),
        SqlValue::SmallInt(v) => Ok(
            DataType::Int32(
                match v {
                    Some(x) => Some(x as i32),
                    None => None,
                },
            ),
        ),
        SqlValue::Int(v) => Ok(DataType::Int32(v)),
        SqlValue::BigInt(v) => Ok(DataType::Int64(v)),
        SqlValue::TinyUnsigned(v) => Ok(
            DataType::Uint32(
                match v {
                    Some(x) => Some(x as u32),
                    None => None,
                },
            ),
        ),
        SqlValue::SmallUnsigned(v) => Ok(
            DataType::Uint32(
                match v {
                    Some(x) => Some(x as u32),
                    None => None,
                },
            ),
        ),
        SqlValue::Unsigned(v) => Ok(DataType::Uint32(v)),
        SqlValue::BigUnsigned(v) => Ok(DataType::Uint64(v)),
        SqlValue::Float(v) => Ok(DataType::Float(v)),
        SqlValue::Double(v) => Ok(DataType::Double(v)),
        SqlValue::String(v) => Ok(DataType::Str(v)),
        SqlValue::Char(v) => Ok(
            DataType::Str(
                match v {
                    Some(c) => Some(char_text(c)),
                    None => None,
                },
            ),
        ),
        SqlValue::Bytes(v) => Ok(DataType::Binary(v)),
        SqlValue::ChronoDate(v) => match v {
            Some(d) => match d.to_text() {
                Some(text) => Ok(DataType::Date(Some(text))),
                None => Err(BuildError::UnsupportedValue),
            },
            None => Ok(DataType::Date(None)),
        },
        SqlValue::ChronoTime(v) => match v {
            Some(t) => match t.to_text() {
                Some(text) => Ok(DataType::Time(Some(text))),
                None => Err(BuildError::UnsupportedValue),
            },
            None => Ok(DataType::Time(None)),
        },
        SqlValue::ChronoDateTime(v) => match v {
            Some(t) => match t.to_text() {
                Some(text) => Ok(DataType::Timestamp(Some(text))),
                None => Err(BuildError::UnsupportedValue),
            },
            None => Ok(DataType::Timestamp(None)),
        },
        SqlValue::ChronoDateTimeUtc(v) => match v {
            Some(t) => match t.to_rfc3339() {
                Some(text) => Ok(DataType::Timestamp(Some(text))),
                None => Err(BuildError::UnsupportedValue),
            },
            None => Ok(DataType::Timestamp(None)),
        },
        SqlValue::ChronoDateTimeLocal(_) => Err(BuildError::UnsupportedValue),
        SqlValue::ChronoDateTimeWithTimeZone(_) => Err(BuildError::UnsupportedValue),
    }
}

/// Turns the parameters of a query into wire values, in their order.
///
/// Fails with `UnsupportedValue` exactly when one of them has no wire form.
#[verifier::rlimit(40)]
pub fn values_to_wasi_datatypes(values: Vec<SqlValue>) -> (r: Result<Vec<DataType>, BuildError>)
    ensures
        match wire_all(values_view(values@)) {
            Some(wire) => r is Ok && wire_view(r->Ok_0@) == wire,
            None => r == Err::<Vec<DataType>, BuildError>(BuildError::UnsupportedValue),
        },
{
    let ghost all = values_view(values@);
    let mut pending = values;
    let mut out: Vec<DataType> = Vec::new();
    let mut rest: Vec<SqlValue> = Vec::new();
    // Turn the list round, so that each value can be moved out from the back.
    while pending.len() > 0
        invariant
            pending@.len() + rest@.len() == all.len(),
            forall|i: int| 0 <= i < pending@.len() ==> (#[trigger] pending@[i])@ == all[i],
            forall|i: int|
                0 <= i < rest@.len() ==> (#[trigger] rest@[i])@ == all[all.len() - 1 - i],
        decreases pending@.len(),
    {
        let last = pending.pop().unwrap();
        rest.push(last);
    }
    let mut failed = false;
    while rest.len() > 0 && !failed
        invariant
            out@.len() + rest@.len() + (if failed { 1int } else { 0int }) == all.len(),
            forall|i: int|
                0 <= i < rest@.len() ==> (#[trigger] rest@[i])@ == all[all.len() - 1 - i],
            forall|i: int| 0 <= i < out@.len() ==> wire_of(all[i]) == Some((#[trigger] out@[i])@),
            failed ==> wire_of(all[out@.len() as int]) is None,
        decreases rest@.len() + (if failed { 0int } else { 1int }),
    {
        let next = rest.pop().unwrap();
        match value_to_wasi_datatype(next) {
            Ok(wire) => {
                out.push(wire);
            },
            Err(_) => {
                failed = true;
            },
        }
    }
    if failed {
        return Err(BuildError::UnsupportedValue);
    }
    proof {
        assert forall|i: int| 0 <= i < all.len() implies wire_of(#[trigger] all[i]) is Some by {
            assert(wire_of(all[i]) == Some(out@[i]@));
        }
        assert(wire_view(out@) =~= wire_all(all)->Some_0);
    }
    Ok(out)
}

/// A native value that can be handed to a query builder as a parameter.
pub trait IntoSqlValue: Sized {
    /// What the parameter made of `self` holds. An implementation that
    /// does not say leaves it open.
    open spec fn value_view(self) -> SqlValueView {
        arbitrary()
    }

    /// What the null parameter of this type holds. An implementation that
    /// does not say leaves it open.
    open spec fn null_view() -> SqlValueView {
        arbitrary()
    }

    /// The parameter made of `self`.
    fn into_value(self) -> (v: SqlValue)
        ensures
            v@ == self.value_view(),
    ;

    /// The null parameter of this type.
    fn null_value() -> (v: SqlValue)
        ensures
            v@ == Self::null_view(),
    ;
}

impl IntoSqlValue for bool {
    open spec fn value_view(self) -> SqlValueView {
        SqlValueView::Bool(Some(self))
    }

    open spec fn null_view() -> SqlValueView {
        SqlValueView::Bool(None)
    }

    fn into_value(self) -> (v: SqlValue) {
        SqlValue::Bool(Some(self))
    }

    fn null_value() -> (v: SqlValue) {
        SqlValue::Bool(None)
    }
}

impl IntoSqlValue for i8 {
    open spec fn value_view(self) -> SqlValueView {
        SqlValueView::TinyInt(Some(self))
    }

    open spec fn null_view() -> SqlValueView {
        SqlValueView::TinyInt(None)
    }

    fn into_value(self) -> (v: SqlValue) {
        SqlValue::TinyInt(Some(self))
    }

    fn null_value() -> (v: SqlValue) {
        SqlValue::TinyInt(None)
    }
}

impl IntoSqlValue for i16 {
    open spec fn value_view(self) -> SqlValueView {
        SqlValueView::SmallInt(Some(self))
    }

    open spec fn null_view() -> SqlValueView {
        SqlValueView::SmallInt(None)
    }

    fn into_value(self) -> (v: SqlValue) {
        SqlValue::SmallInt(Some(self))
    }

    fn null_value() -> (v: SqlValue) {
        SqlValue::SmallInt(None)
    }
}

impl IntoSqlValue for i32 {
    open spec fn value_view(self) -> SqlValueView {
        SqlValueView::Int(Some(self))
    }

    open spec fn null_view() -> SqlValueView {
        SqlValueView::Int(None)
    }

    fn into_value(self) -> (v: SqlValue) {
        SqlValue::Int(Some(self))
    }

    fn null_value() -> (v: SqlValue) {
        SqlValue::Int(None)
    }
}

impl IntoSqlValue for i64 {
    open spec fn value_view(self) -> SqlValueView {
        SqlValueView::BigInt(Some(self))
    }

    open spec fn null_view() -> SqlValueView {
        SqlValueView::BigInt(None)
    }

    fn into_value(self) -> (v: SqlValue) {
        SqlValue::BigInt(Some(self))
    }

    fn null_value() -> (v: SqlValue) {
        SqlValue::BigInt(None)
    }
}

impl IntoSqlValue for u8 {
    open spec fn value_view(self) -> SqlValueView {
        SqlValueView::TinyUnsigned(Some(self))
    }

    open spec fn null_view() -> SqlValueView {
        SqlValueView::TinyUnsigned(None)
    }

    fn into_value(self) -> (v: SqlValue) {
        SqlValue::TinyUnsigned(Some(self))
    }

    fn null_value() -> (v: SqlValue) {
        SqlValue::TinyUnsigned(None)
    }
}

impl IntoSqlValue for u16 {
    open spec fn value_view(self) -> SqlValueView {
        SqlValueView::SmallUnsigned(Some(self))
    }

    open spec fn null_view() -> SqlValueView {
        SqlValueView::SmallUnsigned(None)
    }

    fn into_value(self) -> (v: SqlValue) {
        SqlValue::SmallUnsigned(Some(self))
    }

    fn null_value() -> (v: SqlValue) {
        SqlValue::SmallUnsigned(None)
    }
}

impl IntoSqlValue for u32 {
    open spec fn value_view(self) -> SqlValueView {
        SqlValueView::Unsigned(Some(self))
    }

    open spec fn null_view() -> SqlValueView {
        SqlValueView::Unsigned(None)
    }

    fn into_value(self) -> (v: SqlValue) {
        SqlValue::Unsigned(Some(self))
    }

    fn null_value() -> (v: SqlValue) {
        SqlValue::Unsigned(None)
    }
}

impl IntoSqlValue for u64 {
    open spec fn value_view(self) -> SqlValueView {
        SqlValueView::BigUnsigned(Some(self))
    }

    open spec fn null_view() -> SqlValueView {
        SqlValueView::BigUnsigned(None)
    }

    fn into_value(self) -> (v: SqlValue) {
        SqlValue::BigUnsigned(Some(self))
    }

    fn null_value() -> (v: SqlValue) {
        SqlValue::BigUnsigned(None)
    }
}

impl IntoSqlValue for char {
    open spec fn value_view(self) -> SqlValueView {
        SqlValueView::Char(Some(self))
    }

    open spec fn null_view() -> SqlValueView {
        SqlValueView::Char(None)
    }

    fn into_value(self) -> (v: SqlValue) {
        SqlValue::Char(Some(self))
    }

    fn null_value() -> (v: SqlValue) {
        SqlValue::Char(None)
    }
}

impl IntoSqlValue for CalendarDate {
    open spec fn value_view(self) -> SqlValueView {
        SqlValueView::ChronoDate(Some(self))
    }

    open spec fn null_view() -> SqlValueView {
        SqlValueView::ChronoDate(None)
    }

    fn into_value(self) -> (v: SqlValue) {
        SqlValue::ChronoDate(Some(self))
    }

    fn null_value() -> (v: SqlValue) {
        SqlValue::ChronoDate(None)
    }
}

impl IntoSqlValue for ClockTime {
    open spec fn value_view(self) -> SqlValueView {
        SqlValueView::ChronoTime(Some(self))
    }

    open spec fn null_view() -> SqlValueView {
        SqlValueView::ChronoTime(None)
    }

    fn into_value(self) -> (v: SqlValue) {
        SqlValue::ChronoTime(Some(self))
    }

    fn null_value() -> (v: SqlValue) {
        SqlValue::ChronoTime(None)
    }
}

impl IntoSqlValue for CivilDateTime {
    open spec fn value_view(self) -> SqlValueView {
        SqlValueView::ChronoDateTime(Some(self))
    }

    open spec fn null_view() -> SqlValueView {
        SqlValueView::ChronoDateTime(None)
    }

    fn into_value(self) -> (v: SqlValue) {
        SqlValue::ChronoDateTime(Some(self))
    }

    fn null_value() -> (v: SqlValue) {
        SqlValue::ChronoDateTime(None)
    }
}

impl IntoSqlValue for Timestamp {
    open spec fn value_view(self) -> SqlValueView {
        SqlValueView::ChronoDateTimeUtc(Some(self))
    }

    open spec fn null_view() -> SqlValueView {
        SqlValueView::ChronoDateTimeUtc(None)
    }

    fn into_value(self) -> (v: SqlValue) {
        SqlValue::ChronoDateTimeUtc(Some(self))
    }

    fn null_value() -> (v: SqlValue) {
        SqlValue::ChronoDateTimeUtc(None)
    }
}

impl IntoSqlValue for String {
    open spec fn value_view(self) -> SqlValueView {
        SqlValueView::String(Some(self@))
    }

    open spec fn null_view() -> SqlValueView {
        SqlValueView::String(None)
    }

    fn into_value(self) -> (v: SqlValue) {
        SqlValue::String(Some(self))
    }

    fn null_value() -> (v: SqlValue) {
        SqlValue::String(None)
    }
}

impl IntoSqlValue for Vec<u8> {
    open spec fn value_view(self) -> SqlValueView {
        SqlValueView::Bytes(Some(self@))
    }

    open spec fn null_view() -> SqlValueView {
        SqlValueView::Bytes(None)
    }

    fn into_value(self) -> (v: SqlValue) {
        SqlValue::Bytes(Some(self))
    }

    fn null_value() -> (v: SqlValue) {
        SqlValue::Bytes(None)
    }
}

impl<'a> IntoSqlValue for &'a str {
    open spec fn value_view(self) -> SqlValueView {
        SqlValueView::String(Some(self@))
    }

    open spec fn null_view() -> SqlValueView {
        SqlValueView::String(None)
    }

    fn into_value(self) -> (v: SqlValue) {
        SqlValue::String(Some(String::from_str(self)))
    }

    fn null_value() -> (v: SqlValue) {
        SqlValue::String(None)
    }
}

impl IntoSqlValue for SqlValue {
    open spec fn value_view(self) -> SqlValueView {
        self@
    }

    open spec fn null_view() -> SqlValueView {
        SqlValueView::Bool(None)
    }

    fn into_value(self) -> (v: SqlValue) {
        self
    }

    fn null_value() -> (v: SqlValue) {
        SqlValue::Bool(None)
    }
}

impl<T: IntoSqlValue> IntoSqlValue for Option<T> {
    open spec fn value_view(self) -> SqlValueView {
        match self {
            Some(inner) => inner.value_view(),
            None => T::null_view(),
        }
    }

    open spec fn null_view() -> SqlValueView {
        T::null_view()
    }

    fn into_value(self) -> (v: SqlValue) {
        match self {
            Some(inner) => inner.into_value(),
            None => T::null_value(),
        }
    }

    fn null_value() -> (v: SqlValue) {
        T::null_value()
    }
}

} // verus!
