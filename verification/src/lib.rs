//! A verified core for a PostgreSQL client engine: typed value codec,
//! connection/session handles, transaction and cursor state machines,
//! and the planning side of bulk binary copy.
//!
//! All wire I/O is performed by an embedder on top of the plans and state
//! transitions that this crate computes and proves correct.

mod codec;
mod connection;
mod cursor;
mod errors;
mod extra_types;
mod json;
mod session;
mod sqltext;
mod strutil;
mod transaction;
mod wire;

pub use codec::{decode, dynamic_to_json, encode, convert_parameters, DynamicValue, PgType, QueryParameter};
pub use connection::{
    build_query_plan, BatchDispatch, ColumnInfo, DirectLink, PgRow, PooledLink, PreparedStatement,
    QueryDispatch,
    PsqlpyConnection, QueryPlan, QueryResult, SingleQueryResult, StatementCache,
};
pub use cursor::{Cursor, CursorState, FetchPlan};
pub use extra_types::{
    BigInt, Integer, PyJSON, PyJSONB, PyMacAddr6, PyMacAddr8, PyText, PyUUID, PyVarChar, SmallInt,
};
pub use errors::{DriverError, ErrorKind};
pub use session::{Connection, CopyPlan, EnterAction, ExecuteManyRun, ManyAction, ManyPhase, PoolHandle};
pub use json::{json_string, parse_json, JsonValue};
pub use sqltext::{copy_statement, quote_ident};
pub use transaction::{
    BeginPlan, IsolationLevel, ReadVariant, SynchronousCommit, Transaction,
};
