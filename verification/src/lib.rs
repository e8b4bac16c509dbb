//! Core logic of a capability host for sandboxed guests: wire values and
//! rows, the SQL query builders, the WebSocket fan-out bookkeeping, the
//! key-value store and the header rules of outbound HTTP.

pub mod delete;
pub mod dispatch;
pub mod entity;
pub mod filter;
pub mod host;
pub mod insert;
pub mod join;
pub mod json;
pub mod keyvalue;
pub mod manifest;
pub mod messaging;
pub mod naming;
pub mod numbering;
pub mod outbound;
pub mod query;
pub mod roundtrip;
pub mod select;
pub mod text;
pub mod time;
pub mod update;
pub mod value;
pub mod vecs;
pub mod websocket;
pub mod wire;

pub use delete::DeleteBuilder;
pub use entity::{Entity, EntityValues, FetchValue, OrderSpec};
pub use filter::Filter;
pub use host::{Backend, ConfigError, Environment, FromEnv};
pub use insert::InsertBuilder;
pub use join::{Join, JoinType, Order};
pub use json::Json;
pub use keyvalue::{KeyValueDefault, StateStore};
pub use messaging::Message;
pub use query::{build_query, Query, QueryBuilder};
pub use select::SelectBuilder;
pub use text::{count_placeholders, quoted_column};
pub use time::Timestamp;
pub use update::UpdateBuilder;
pub use value::{values_to_wasi_datatypes, value_to_wasi_datatype, BuildError, IntoSqlValue, SqlValue};
pub use websocket::{ConnectionMap, Event, EventProxy, WasiWebSocket};
pub use wire::{DataType, FetchError, Field, Row};
