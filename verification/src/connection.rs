//! The connection handle: a sum over a pooled lease and a standalone
//! link, one uniform query surface over both, a per-connection prepared
//! statement cache keyed by literal query text, and the single-row
//! guarantee of `query_one`.

use vstd::prelude::*;
use crate::codec::{decode, DynamicValue, QueryParameter};
use crate::errors::{DriverError, ErrorKind};
use crate::strutil::str_eq_chars;

verus! {

/// One column of a result row: its name and its declared type OID.
#[derive(Debug)]
pub struct ColumnInfo {
    pub name: String,
    pub oid: u32,
}

/// One wire-level result row: column descriptors and the raw datum of
/// each column (`None` is the SQL null).
#[derive(Debug)]
pub struct PgRow {
    pub columns: Vec<ColumnInfo>,
    pub values: Vec<Option<Vec<u8>>>,
}

impl PgRow {
    /// A row is well formed when it has one datum per column.
    pub open spec fn wf(&self) -> bool {
        self.columns@.len() == self.values@.len()
    }

    /// Build a row from descriptors and data.
    pub fn new(columns: Vec<ColumnInfo>, values: Vec<Option<Vec<u8>>>) -> (r: Result<
        PgRow,
        DriverError,
    >)
        ensures
            match r {
                Ok(row) => row.wf() && row.columns == columns && row.values == values,
                Err(e) => columns@.len() != values@.len() && e.kind == ErrorKind::Conversion,
            },
    {
        if columns.len() == values.len() {
            Ok(PgRow { columns, values })
        } else {
            Err(
                DriverError::new(
                    ErrorKind::Conversion,
                    String::from_str("row has a different number of columns and values"),
                ),
            )
        }
    }

    /// The number of columns.
    pub fn width(&self) -> (r: usize)
        ensures
            r == self.columns@.len(),
    {
        self.columns.len()
    }

    /// Decode the column at `index`, dispatching on its declared OID.
    pub fn decode_column(&self, index: usize) -> (r: Result<DynamicValue, DriverError>)
        requires
            self.wf(),
            index < self.columns@.len(),
        ensures
            match r {
                Ok(v) => crate::codec::spec_type_of_oid(self.columns@[index as int].oid)
                    matches Some(t) && crate::codec::wire_decodes(
                    t,
                    crate::codec::datum_view(self.values@[index as int]),
                    v,
                ),
                Err(e) => e.kind == ErrorKind::Conversion,
            },
            (crate::codec::spec_type_of_oid(self.columns@[index as int].oid) matches Some(t)
                && crate::codec::basic_decodable(
                t,
                crate::codec::datum_view(self.values@[index as int]),
            )) ==> r is Ok,
    {
        let oid: u32 = self.columns[index].oid;
        match &self.values[index] {
            Some(b) => decode(oid, Some(b.as_slice())),
            None => decode(oid, None),
        }
    }
}

/// The per-connection prepared statement cache: the query texts already
/// prepared on one physical connection, in preparation order.  The index
/// of a text is the statement's handle on that connection.
#[derive(Debug)]
pub struct StatementCache {
    pub texts: Vec<String>,
}

impl StatementCache {
    /// The cached texts as character sequences.
    pub open spec fn view_texts(&self) -> Seq<Seq<char>> {
        self.texts@.map_values(|s: String| s@)
    }

    /// A fresh, empty cache.
    pub fn empty() -> (r: StatementCache)
        ensures
            r.view_texts().len() == 0,
    {
        let cache = StatementCache { texts: Vec::new() };
        proof {
            assert(cache.view_texts() =~= Seq::<Seq<char>>::empty());
        }
        cache
    }

    /// The handle of an already-cached text, if any.
    pub fn find(&self, query: &str) -> (r: Option<usize>)
        ensures
            match r {
                Some(i) => i < self.view_texts().len() && self.view_texts()[i as int] == query@,
                None => forall|k: int|
                    0 <= k < self.view_texts().len() ==> self.view_texts()[k] != query@,
            },
    {
        let n: usize = self.texts.len();
        let mut i: usize = 0;
        while i < n
            invariant
                i <= n,
                n == self.texts@.len(),
                forall|k: int| 0 <= k < i ==> self.view_texts()[k] != query@,
            decreases n - i,
        {
            if str_eq_chars(self.texts[i].as_str(), query) {
                return Some(i);
            }
            i = i + 1;
        }
        None
    }

    /// Memoize a text: the handle of the cached copy when the text was
    /// already prepared, else the next handle, with the text recorded.
    pub fn intern(&mut self, query: &String) -> (r: (usize, bool))
        ensures
            ({
                let (index, was_cached) = r;
                if was_cached {
                    &&& *final(self) == *old(self)
                    &&& index < final(self).view_texts().len()
                    &&& final(self).view_texts()[index as int] == query@
                } else {
                    &&& (forall|k: int|
                        0 <= k < old(self).view_texts().len() ==> old(self).view_texts()[k]
                            != query@)
                    &&& final(self).view_texts() =~= old(self).view_texts().push(query@)
                    &&& index == old(self).view_texts().len()
                }
            }),
    {
        match self.find(query.as_str()) {
            Some(i) => (i, true),
            None => {
                let index: usize = self.texts.len();
                self.texts.push(query.clone());
                proof {
                    assert(self.view_texts() =~= old(self).view_texts().push(query@));
                }
                (index, false)
            },
        }
    }
}

/// A pooled lease: a slot identifier and the lease's own statement
/// cache.
#[derive(Debug)]
pub struct PooledLink {
    pub id: u64,
    pub cache: StatementCache,
}

/// A standalone link: a connection identifier and the link's own
/// statement cache.
#[derive(Debug)]
pub struct DirectLink {
    pub id: u64,
    pub cache: StatementCache,
}

/// A handle to a backing connection: pooled lease or standalone link,
/// behind one operation surface.
#[derive(Debug)]
pub enum PsqlpyConnection {
    PoolConn(PooledLink),
    SingleConn(DirectLink),
}

/// The outcome of statement preparation: the statement's handle on the
/// connection and whether the server must still parse it.
#[derive(Clone, Copy, Debug, PartialEq, Eq, Structural)]
pub struct PreparedStatement {
    pub index: usize,
    pub needs_server_prepare: bool,
}

impl PsqlpyConnection {
    /// The identifier of the backing link.
    pub open spec fn spec_link_id(&self) -> u64 {
        match self {
            PsqlpyConnection::PoolConn(link) => link.id,
            PsqlpyConnection::SingleConn(link) => link.id,
        }
    }

    /// The identifier of the backing link.
    pub fn link_id(&self) -> (r: u64)
        ensures
            r == self.spec_link_id(),
    {
        match self {
            PsqlpyConnection::PoolConn(link) => link.id,
            PsqlpyConnection::SingleConn(link) => link.id,
        }
    }

    /// The query texts already prepared on this physical connection.
    pub open spec fn cached_texts(&self) -> Seq<Seq<char>> {
        match self {
            PsqlpyConnection::PoolConn(link) => link.cache.view_texts(),
            PsqlpyConnection::SingleConn(link) => link.cache.view_texts(),
        }
    }

    /// Prepare a statement, memoizing by literal query text.  A pooled
    /// lease and a standalone link each maintain their own cache, so on
    /// either variant a repeated text yields the memoized handle and
    /// needs no new server parse.
    pub fn prepare_cached(&mut self, query: &String) -> (r: Result<PreparedStatement, DriverError>)
        ensures
            final(self).spec_link_id() == old(self).spec_link_id(),
            (*final(self) is PoolConn) == (*old(self) is PoolConn),
            match r {
                Ok(stmt) => if stmt.needs_server_prepare {
                    &&& (forall|k: int|
                        0 <= k < old(self).cached_texts().len() ==> old(self).cached_texts()[k]
                            != query@)
                    &&& final(self).cached_texts() =~= old(self).cached_texts().push(query@)
                    &&& stmt.index == old(self).cached_texts().len()
                } else {
                    &&& *final(self) == *old(self)
                    &&& stmt.index < final(self).cached_texts().len()
                    &&& final(self).cached_texts()[stmt.index as int] == query@
                },
                Err(_) => false,
            },
    {
        match self {
            PsqlpyConnection::PoolConn(link) => {
                let (index, was_cached) = link.cache.intern(query);
                Ok(PreparedStatement { index, needs_server_prepare: !was_cached })
            },
            PsqlpyConnection::SingleConn(link) => {
                let (index, was_cached) = link.cache.intern(query);
                Ok(PreparedStatement { index, needs_server_prepare: !was_cached })
            },
        }
    }

    /// Dispatch a planned query on this connection: the prepared path
    /// resolves the statement through the per-connection cache, the
    /// simple path sends the text as it stands.  Both backing variants
    /// expose the same surface.
    pub fn query(&mut self, plan: &QueryPlan) -> (r: Result<QueryDispatch, DriverError>)
        ensures
            final(self).spec_link_id() == old(self).spec_link_id(),
            match r {
                Ok(dispatch) => {
                    &&& dispatch.link_id == old(self).spec_link_id()
                    &&& (dispatch.statement is Some <==> plan.prepared)
                    &&& (!plan.prepared ==> *final(self) == *old(self))
                },
                Err(_) => false,
            },
    {
        if plan.prepared {
            match self.prepare_cached(&plan.querystring) {
                Ok(stmt) => Ok(QueryDispatch { link_id: self.link_id(), statement: Some(stmt) }),
                Err(e) => Err(e),
            }
        } else {
            Ok(QueryDispatch { link_id: self.link_id(), statement: None })
        }
    }

    /// Dispatch a multi-statement batch over the simple query protocol:
    /// raw text, no parameters, the server stops at the first failing
    /// statement.
    pub fn batch_execute(&self, query: &String) -> (r: BatchDispatch)
        ensures
            r.link_id == self.spec_link_id(),
            r.statements@ == query@,
    {
        BatchDispatch { link_id: self.link_id(), statements: query.clone() }
    }

    /// Dispatch the opening of a copy-in sink.
    pub fn copy_in(&self, statement: &String) -> (r: BatchDispatch)
        ensures
            r.link_id == self.spec_link_id(),
            r.statements@ == statement@,
    {
        BatchDispatch { link_id: self.link_id(), statements: statement.clone() }
    }

    /// The single-row guarantee behind `query_one`, `fetch_row` and
    /// `fetch_val`: exactly one row passes, zero or several rows are a
    /// distinct row-count error.
    pub fn query_one(&self, mut rows: Vec<PgRow>) -> (r: Result<PgRow, DriverError>)
        ensures
            match r {
                Ok(row) => rows@.len() == 1 && row == rows@[0],
                Err(e) => rows@.len() != 1 && e.kind == ErrorKind::RowCount,
            },
    {
        if rows.len() == 1 {
            match rows.pop() {
                Some(row) => Ok(row),
                None => Err(
                    DriverError::new(
                        ErrorKind::RowCount,
                        String::from_str("expected exactly one row"),
                    ),
                ),
            }
        } else {
            Err(
                DriverError::new(
                    ErrorKind::RowCount,
                    String::from_str("expected exactly one row"),
                ),
            )
        }
    }
}


/// The values of an optional parameter list: an absent list is empty.
pub open spec fn opt_params_view(parameters: Option<Vec<DynamicValue>>) -> Seq<DynamicValue> {
    match parameters {
        Some(v) => v@,
        None => Seq::<DynamicValue>::empty(),
    }
}

/// A planned query: the statement text, the converted wire parameters,
/// and whether the prepared path is taken (the default).
#[derive(Debug)]
pub struct QueryPlan {
    pub querystring: String,
    pub parameters: Vec<QueryParameter>,
    pub prepared: bool,
}

impl QueryPlan {
    /// The plan carries the given text and the exact conversion of the
    /// given values.
    pub open spec fn wf(&self, text: Seq<char>, vs: Seq<DynamicValue>) -> bool {
        &&& self.querystring@ == text
        &&& crate::codec::params_encoded(vs, self.parameters@)
    }
}

/// Plan a query: convert the parameters through the codec and settle the
/// prepared flag, which defaults to the prepared path.
pub fn build_query_plan(
    querystring: String,
    parameters: Option<Vec<DynamicValue>>,
    prepared: Option<bool>,
) -> (r: Result<QueryPlan, DriverError>)
    ensures
        match r {
            Ok(plan) => {
                &&& crate::codec::params_encodable(opt_params_view(parameters))
                &&& plan.wf(querystring@, opt_params_view(parameters))
                &&& plan.prepared == (prepared is None || prepared == Some(true))
            },
            Err(e) => {
                &&& !crate::codec::params_encodable(opt_params_view(parameters))
                &&& e.kind == ErrorKind::Conversion
            },
        },
{
    let converted: Vec<QueryParameter> = match parameters {
        Some(values) => match crate::codec::convert_parameters(&values) {
            Ok(ps) => ps,
            Err(e) => {
                return Err(e);
            },
        },
        None => {
            let empty: Vec<QueryParameter> = Vec::new();
            proof {
                assert(crate::codec::params_encoded(
                    Seq::<DynamicValue>::empty(),
                    empty@,
                ));
            }
            empty
        },
    };
    let use_prepared: bool = match prepared {
        Some(b) => b,
        None => true,
    };
    Ok(QueryPlan { querystring, parameters: converted, prepared: use_prepared })
}


impl PgRow {
    /// The value behind `fetch_val`: the first column of the row,
    /// decoded; a row with no columns yields a null value rather than
    /// an error.
    pub fn first_value(&self) -> (r: Result<DynamicValue, DriverError>)
        requires
            self.wf(),
        ensures
            match r {
                Ok(v) => if self.columns@.len() == 0 {
                    v is Null
                } else {
                    crate::codec::spec_type_of_oid(self.columns@[0].oid) matches Some(t)
                        && crate::codec::wire_decodes(
                        t,
                        crate::codec::datum_view(self.values@[0]),
                        v,
                    )
                },
                Err(e) => self.columns@.len() > 0 && e.kind == ErrorKind::Conversion,
            },
            self.columns@.len() == 0 ==> r is Ok,
            (self.columns@.len() > 0 && (crate::codec::spec_type_of_oid(self.columns@[0].oid)
                matches Some(t) && crate::codec::basic_decodable(
                t,
                crate::codec::datum_view(self.values@[0]),
            ))) ==> r is Ok,
    {
        if self.columns.len() == 0 {
            Ok(DynamicValue::Null)
        } else {
            self.decode_column(0)
        }
    }
}

/// An ordered multi-row result set.
#[derive(Debug)]
pub struct QueryResult {
    pub rows: Vec<PgRow>,
}

impl QueryResult {
    /// Wrap the rows a query returned.
    pub fn new(rows: Vec<PgRow>) -> (r: QueryResult)
        ensures
            r.rows == rows,
    {
        QueryResult { rows }
    }

    /// The number of rows.
    pub fn row_count(&self) -> (r: usize)
        ensures
            r == self.rows@.len(),
    {
        self.rows.len()
    }

    /// The rows themselves.
    pub fn into_rows(self) -> (r: Vec<PgRow>)
        ensures
            r == self.rows,
    {
        self.rows
    }
}

/// A single-row result: column-keyed access without an enclosing
/// sequence.
#[derive(Debug)]
pub struct SingleQueryResult {
    pub row: PgRow,
}

impl SingleQueryResult {
    /// Wrap the unique row of a single-row query.  Zero rows or more
    /// than one row is a distinct row-count error.
    pub fn from_rows(mut rows: Vec<PgRow>) -> (r: Result<SingleQueryResult, DriverError>)
        ensures
            match r {
                Ok(single) => rows@.len() == 1 && single.row == rows@[0],
                Err(e) => rows@.len() != 1 && e.kind == ErrorKind::RowCount,
            },
    {
        if rows.len() == 1 {
            match rows.pop() {
                Some(row) => Ok(SingleQueryResult { row }),
                None => Err(
                    DriverError::new(
                        ErrorKind::RowCount,
                        String::from_str("expected exactly one row"),
                    ),
                ),
            }
        } else {
            Err(
                DriverError::new(
                    ErrorKind::RowCount,
                    String::from_str("expected exactly one row"),
                ),
            )
        }
    }

    /// The row itself.
    pub fn into_row(self) -> (r: PgRow)
        ensures
            r == self.row,
    {
        self.row
    }
}


/// A dispatched query: the link it runs on, and the resolved statement
/// handle when the prepared path is taken.
#[derive(Clone, Copy, Debug, PartialEq, Eq, Structural)]
pub struct QueryDispatch {
    pub link_id: u64,
    pub statement: Option<PreparedStatement>,
}

/// A dispatched simple-protocol text: the link it runs on and the raw
/// statement text.
#[derive(Debug)]
pub struct BatchDispatch {
    pub link_id: u64,
    pub statements: String,
}

} // verus!
