//! The session: the user-facing handle.  It owns an optional connection
//! handle and an optional pool reference, provides scoped acquisition
//! and unconditional release, plans the execute/fetch family, drives the
//! all-or-nothing `execute_many` protocol, and spawns transactions and
//! cursors over its connection.

use vstd::prelude::*;
use crate::codec::{params_encodable, params_encoded, DynamicValue, QueryParameter};
use crate::connection::{build_query_plan, opt_params_view, PsqlpyConnection, QueryPlan};
use crate::cursor::{Cursor, CursorState};
use crate::errors::{DriverError, ErrorKind};
use crate::sqltext::{copy_statement, copy_statement_chars, cursor_name, cursor_name_chars,
    opt_names_view, opt_str_view};
use crate::transaction::{IsolationLevel, ReadVariant, SynchronousCommit, Transaction};

verus! {

/// A reference to a connection pool.
#[derive(Clone, Copy, Debug, PartialEq, Eq, Structural)]
pub struct PoolHandle {
    pub id: u64,
}

/// The user-facing session handle.
#[derive(Debug)]
pub struct Connection {
    pub db_client: Option<PsqlpyConnection>,
    pub db_pool: Option<PoolHandle>,
    pub cursor_serial: u64,
}

/// What scoped entry tells the embedder to do.
#[derive(Clone, Copy, Debug, PartialEq, Eq, Structural)]
pub enum EnterAction {
    /// A connection is already bound: nothing to acquire.
    AlreadyBound,
    /// Acquire a lease from the pool with this identifier, then bind it.
    AcquireFromPool(u64),
}

/// A planned bulk binary copy: the statement to open the copy-in sink
/// with, and the pre-framed payload to stream through it.
#[derive(Debug)]
pub struct CopyPlan {
    pub statement: String,
    pub data: Vec<u8>,
}

/// The phase of an `execute_many` run.
#[derive(Clone, Copy, Debug, PartialEq, Eq, Structural)]
pub enum ManyPhase {
    NotBegun,
    Running,
    Committed,
    RolledBack,
}

/// What an `execute_many` run asks for next.
#[derive(Clone, Copy, Debug, PartialEq, Eq, Structural)]
pub enum ManyAction {
    IssueBegin,
    ExecuteSet(usize),
    IssueCommit,
    Done,
}

/// The all-or-nothing batched execution protocol behind `execute_many`:
/// BEGIN, every parameter set in order, then COMMIT; on the first
/// failure, ROLLBACK and surface a transaction-execute error.  Partial
/// application is never observable: the commit action is offered only
/// once every set has succeeded, and every failure path issues the
/// rollback before the error surfaces.
#[derive(Debug)]
pub struct ExecuteManyRun {
    pub querystring: String,
    pub param_sets: Vec<Vec<QueryParameter>>,
    pub prepared: bool,
    pub phase: ManyPhase,
    pub completed: usize,
}

impl ExecuteManyRun {
    /// The run never counts more completed sets than it has, commits
    /// only with all sets completed, and starts with none.
    pub open spec fn wf(&self) -> bool {
        &&& self.completed <= self.param_sets@.len()
        &&& (self.phase == ManyPhase::Committed ==> self.completed == self.param_sets@.len())
        &&& (self.phase == ManyPhase::NotBegun ==> self.completed == 0)
    }

    /// The next step of the protocol.
    pub fn next_action(&self) -> (r: ManyAction)
        ensures
            r == match self.phase {
                ManyPhase::NotBegun => ManyAction::IssueBegin,
                ManyPhase::Running => if self.completed < self.param_sets@.len() {
                    ManyAction::ExecuteSet(self.completed)
                } else {
                    ManyAction::IssueCommit
                },
                ManyPhase::Committed => ManyAction::Done,
                ManyPhase::RolledBack => ManyAction::Done,
            },
    {
        match self.phase {
            ManyPhase::NotBegun => ManyAction::IssueBegin,
            ManyPhase::Running => {
                if self.completed < self.param_sets.len() {
                    ManyAction::ExecuteSet(self.completed)
                } else {
                    ManyAction::IssueCommit
                }
            },
            ManyPhase::Committed => ManyAction::Done,
            ManyPhase::RolledBack => ManyAction::Done,
        }
    }

    /// The statement that opens the implicit transaction.
    pub fn begin_statement(&self) -> (r: String)
        ensures
            r@ == "BEGIN;"@,
    {
        String::from_str("BEGIN;")
    }

    /// The statement that commits the implicit transaction.
    pub fn commit_statement(&self) -> (r: String)
        ensures
            r@ == "COMMIT;"@,
    {
        String::from_str("COMMIT;")
    }

    /// Record that BEGIN succeeded.
    pub fn on_begun(&mut self)
        requires
            old(self).phase == ManyPhase::NotBegun,
            old(self).wf(),
        ensures
            *final(self) == (ExecuteManyRun { phase: ManyPhase::Running, ..*old(self) }),
            final(self).wf(),
    {
        self.phase = ManyPhase::Running;
    }

    /// Record that the current parameter set executed.
    pub fn on_set_done(&mut self)
        requires
            old(self).phase == ManyPhase::Running,
            old(self).completed < old(self).param_sets@.len(),
            old(self).wf(),
        ensures
            *final(self) == (ExecuteManyRun { completed: (old(self).completed + 1) as usize, ..*old(
                self,
            ) }),
            final(self).wf(),
    {
        let n: usize = self.param_sets.len();
        proof {
            assert(old(self).completed < n);
        }
        self.completed = self.completed + 1;
    }

    /// Record that COMMIT succeeded.  Only reachable once every set has
    /// executed.
    pub fn on_committed(&mut self)
        requires
            old(self).phase == ManyPhase::Running,
            old(self).completed == old(self).param_sets@.len(),
            old(self).wf(),
        ensures
            *final(self) == (ExecuteManyRun { phase: ManyPhase::Committed, ..*old(self) }),
            final(self).wf(),
    {
        self.phase = ManyPhase::Committed;
    }

    /// Record a failure: the run rolls back, and the error surfaced to
    /// the caller is a transaction-execute error, paired with the
    /// ROLLBACK statement the embedder must issue before surfacing it.
    pub fn on_failed(&mut self) -> (r: (String, DriverError))
        requires
            old(self).phase == ManyPhase::Running,
            old(self).wf(),
        ensures
            *final(self) == (ExecuteManyRun { phase: ManyPhase::RolledBack, ..*old(self) }),
            final(self).wf(),
            r.0@ == "ROLLBACK;"@,
            r.1.kind == ErrorKind::TransactionExecute,
    {
        self.phase = ManyPhase::RolledBack;
        (
            String::from_str("ROLLBACK;"),
            DriverError::new(
                ErrorKind::TransactionExecute,
                String::from_str("a statement failed; the batch was rolled back"),
            ),
        )
    }
}

/// All-or-nothing, stated over the run's reachable states: a committed
/// run completed every parameter set, a run that never began completed
/// none, and no run counts more sets than it was given.
pub proof fn lemma_execute_many_all_or_nothing(run: ExecuteManyRun)
    requires
        run.wf(),
    ensures
        run.phase == ManyPhase::Committed ==> run.completed == run.param_sets@.len(),
        run.phase == ManyPhase::NotBegun ==> run.completed == 0,
        run.completed <= run.param_sets@.len(),
{
}

/// The parameter sets of an optional list of lists.
pub open spec fn sets_view(parameters: Option<Vec<Vec<DynamicValue>>>) -> Seq<Seq<DynamicValue>> {
    match parameters {
        Some(v) => v@.map_values(|x: Vec<DynamicValue>| x@),
        None => Seq::<Seq<DynamicValue>>::empty(),
    }
}

/// Whether every parameter set of a batch is encodable.
pub open spec fn all_sets_encodable(sets: Seq<Seq<DynamicValue>>) -> bool {
    forall|i: int| 0 <= i < sets.len() ==> params_encodable(#[trigger] sets[i])
}

impl Connection {
    /// A session is closed when it has neither a bound connection nor a
    /// pool to acquire one from: every operation on it fails fast.
    pub open spec fn is_closed(&self) -> bool {
        self.db_client is None && self.db_pool is None
    }

    /// Build a session, either already bound to a link, pool-backed, or
    /// closed.
    pub fn new(db_client: Option<PsqlpyConnection>, db_pool: Option<PoolHandle>) -> (r: Connection)
        ensures
            r.db_client == db_client,
            r.db_pool == db_pool,
            r.cursor_serial == 0,
    {
        Connection { db_client, db_pool, cursor_serial: 0 }
    }

    /// The bound connection handle, if any.
    pub fn db_client(&self) -> (r: &Option<PsqlpyConnection>)
        ensures
            r == &self.db_client,
    {
        &self.db_client
    }

    /// The pool reference, if any.
    pub fn db_pool(&self) -> (r: Option<PoolHandle>)
        ensures
            r == self.db_pool,
    {
        self.db_pool
    }

    fn closed_error() -> (r: DriverError)
        ensures
            r.kind == ErrorKind::ConnectionClosed,
    {
        DriverError::new(
            ErrorKind::ConnectionClosed,
            String::from_str("session has no bound connection and no pool reference"),
        )
    }

    /// Scoped entry: an already-bound session stays as it is, an
    /// unbound session with a pool reference acquires a lease, and a
    /// closed session fails fast.
    pub fn enter(&self) -> (r: Result<EnterAction, DriverError>)
        ensures
            match r {
                Ok(action) => match action {
                    EnterAction::AlreadyBound => self.db_client is Some,
                    EnterAction::AcquireFromPool(pool_id) => self.db_client is None && (
                    self.db_pool matches Some(p) && p.id == pool_id),
                },
                Err(e) => self.is_closed() && e.kind == ErrorKind::ConnectionClosed,
            },
    {
        if self.db_client.is_some() {
            return Ok(EnterAction::AlreadyBound);
        }
        match &self.db_pool {
            Some(pool) => Ok(EnterAction::AcquireFromPool(pool.id)),
            None => Err(Self::closed_error()),
        }
    }

    /// Bind an acquired connection.
    pub fn bind(&mut self, conn: PsqlpyConnection)
        ensures
            final(self).db_client == Some(conn),
            final(self).db_pool == old(self).db_pool,
            final(self).cursor_serial == old(self).cursor_serial,
    {
        self.db_client = Some(conn);
    }

    /// Scoped exit: unconditionally releases the bound connection and
    /// the pool reference, whether the scope succeeded or failed, and
    /// propagates the failure that was active at exit.
    pub fn exit(&mut self, failure: Option<DriverError>) -> (r: Result<(), DriverError>)
        ensures
            final(self).db_client is None,
            final(self).db_pool is None,
            final(self).cursor_serial == old(self).cursor_serial,
            match failure {
                None => r == Result::<(), DriverError>::Ok(()),
                Some(e) => r == Result::<(), DriverError>::Err(e),
            },
    {
        self.db_client = None;
        self.db_pool = None;
        match failure {
            None => Ok(()),
            Some(e) => Err(e),
        }
    }

    /// Return a pooled lease early without closing the session object.
    /// Idempotent: releasing an unbound session is a no-op.
    pub fn back_to_pool(&mut self)
        ensures
            final(self).db_client is None,
            final(self).db_pool == old(self).db_pool,
            final(self).cursor_serial == old(self).cursor_serial,
    {
        self.db_client = None;
    }

    /// Plan a statement execution: convert the parameters through the
    /// codec and choose the prepared or simple path (prepared by
    /// default).  Fails fast on an unbound session.
    pub fn execute(
        &self,
        querystring: String,
        parameters: Option<Vec<DynamicValue>>,
        prepared: Option<bool>,
    ) -> (r: Result<QueryPlan, DriverError>)
        ensures
            match r {
                Ok(plan) => {
                    &&& self.db_client is Some
                    &&& params_encodable(opt_params_view(parameters))
                    &&& plan.wf(querystring@, opt_params_view(parameters))
                    &&& plan.prepared == (prepared is None || prepared == Some(true))
                },
                Err(e) => {
                    if self.db_client is None {
                        e.kind == ErrorKind::ConnectionClosed
                    } else {
                        !params_encodable(opt_params_view(parameters)) && e.kind
                            == ErrorKind::Conversion
                    }
                },
            },
    {
        if self.db_client.is_none() {
            return Err(Self::closed_error());
        }
        build_query_plan(querystring, parameters, prepared)
    }

    /// Plan a fetch.  Functionally identical to `execute` at this
    /// layer: the distinction is presentational to callers.
    pub fn fetch(
        &self,
        querystring: String,
        parameters: Option<Vec<DynamicValue>>,
        prepared: Option<bool>,
    ) -> (r: Result<QueryPlan, DriverError>)
        ensures
            match r {
                Ok(plan) => {
                    &&& self.db_client is Some
                    &&& params_encodable(opt_params_view(parameters))
                    &&& plan.wf(querystring@, opt_params_view(parameters))
                    &&& plan.prepared == (prepared is None || prepared == Some(true))
                },
                Err(e) => {
                    if self.db_client is None {
                        e.kind == ErrorKind::ConnectionClosed
                    } else {
                        !params_encodable(opt_params_view(parameters)) && e.kind
                            == ErrorKind::Conversion
                    }
                },
            },
    {
        self.execute(querystring, parameters, prepared)
    }

    /// Plan a single-row fetch.  The plan is the same as `fetch`; the
    /// single-row guarantee is enforced on the returned rows by
    /// `PsqlpyConnection::query_one`.
    pub fn fetch_row(
        &self,
        querystring: String,
        parameters: Option<Vec<DynamicValue>>,
        prepared: Option<bool>,
    ) -> (r: Result<QueryPlan, DriverError>)
        ensures
            match r {
                Ok(plan) => {
                    &&& self.db_client is Some
                    &&& params_encodable(opt_params_view(parameters))
                    &&& plan.wf(querystring@, opt_params_view(parameters))
                    &&& plan.prepared == (prepared is None || prepared == Some(true))
                },
                Err(e) => {
                    if self.db_client is None {
                        e.kind == ErrorKind::ConnectionClosed
                    } else {
                        !params_encodable(opt_params_view(parameters)) && e.kind
                            == ErrorKind::Conversion
                    }
                },
            },
    {
        self.execute(querystring, parameters, prepared)
    }

    /// Plan a single-value fetch: the same plan as `fetch_row`; the
    /// value is taken from the unique row by `PgRow::first_value`.
    pub fn fetch_val(
        &self,
        querystring: String,
        parameters: Option<Vec<DynamicValue>>,
        prepared: Option<bool>,
    ) -> (r: Result<QueryPlan, DriverError>)
        ensures
            match r {
                Ok(plan) => {
                    &&& self.db_client is Some
                    &&& params_encodable(opt_params_view(parameters))
                    &&& plan.wf(querystring@, opt_params_view(parameters))
                    &&& plan.prepared == (prepared is None || prepared == Some(true))
                },
                Err(e) => {
                    if self.db_client is None {
                        e.kind == ErrorKind::ConnectionClosed
                    } else {
                        !params_encodable(opt_params_view(parameters)) && e.kind
                            == ErrorKind::Conversion
                    }
                },
            },
    {
        self.execute(querystring, parameters, prepared)
    }

    /// Plan a multi-statement batch over the simple query protocol: no
    /// parameters, statements separated by semicolons, execution stops
    /// at the first failing statement on the server.
    pub fn execute_batch(&self, querystring: String) -> (r: Result<String, DriverError>)
        ensures
            match r {
                Ok(text) => self.db_client is Some && text@ == querystring@,
                Err(e) => self.db_client is None && e.kind == ErrorKind::ConnectionClosed,
            },
    {
        if self.db_client.is_none() {
            return Err(Self::closed_error());
        }
        Ok(querystring)
    }

    /// Start an all-or-nothing batched execution: convert every
    /// parameter set up front, then hand back the run protocol.
    pub fn execute_many(
        &self,
        querystring: String,
        parameters: Option<Vec<Vec<DynamicValue>>>,
        prepared: Option<bool>,
    ) -> (r: Result<ExecuteManyRun, DriverError>)
        ensures
            match r {
                Ok(run) => {
                    &&& self.db_client is Some
                    &&& all_sets_encodable(sets_view(parameters))
                    &&& run.wf()
                    &&& run.phase == ManyPhase::NotBegun
                    &&& run.querystring@ == querystring@
                    &&& run.prepared == (prepared is None || prepared == Some(true))
                    &&& run.param_sets@.len() == sets_view(parameters).len()
                    &&& forall|i: int|
                        0 <= i < sets_view(parameters).len() ==> params_encoded(
                            sets_view(parameters)[i],
                            (#[trigger] run.param_sets@[i])@,
                        )
                },
                Err(e) => {
                    if self.db_client is None {
                        e.kind == ErrorKind::ConnectionClosed
                    } else {
                        &&& !all_sets_encodable(sets_view(parameters))
                        &&& e.kind == ErrorKind::Conversion
                    }
                },
            },
    {
        if self.db_client.is_none() {
            return Err(Self::closed_error());
        }
        let mut converted: Vec<Vec<QueryParameter>> = Vec::new();
        match parameters {
            Some(sets) => {
                let n: usize = sets.len();
                let mut i: usize = 0;
                while i < n
                    invariant
                        self.db_client is Some,
                        parameters == Some(sets),
                        i <= n,
                        n == sets@.len(),
                        converted@.len() == i,
                        forall|k: int|
                            0 <= k < i ==> params_encoded(
                                sets@[k]@,
                                (#[trigger] converted@[k])@,
                            ),
                        forall|k: int| 0 <= k < i ==> params_encodable(#[trigger] sets@[k]@),
                    decreases n - i,
                {
                    match crate::codec::convert_parameters(&sets[i]) {
                        Ok(ps) => {
                            converted.push(ps);
                        },
                        Err(e) => {
                            proof {
                                assert(sets_view(parameters)[i as int] == sets@[i as int]@);
                                assert(!params_encodable(sets_view(parameters)[i as int]));
                                assert(!all_sets_encodable(sets_view(parameters)));
                            }
                            return Err(e);
                        },
                    }
                    i = i + 1;
                }
                proof {
                    assert(parameters == Some(sets));
                    assert(sets_view(parameters) =~= sets@.map_values(
                        |x: Vec<DynamicValue>| x@,
                    ));
                    assert forall|k: int|
                        0 <= k < sets_view(parameters).len() implies params_encoded(
                        sets_view(parameters)[k],
                        (#[trigger] converted@[k])@,
                    ) by {
                        assert(sets_view(parameters)[k] == sets@[k]@);
                        assert(params_encoded(sets@[k]@, converted@[k]@));
                    };
                    assert forall|k: int|
                        0 <= k < sets_view(parameters).len() implies params_encodable(
                        #[trigger] sets_view(parameters)[k],
                    ) by {
                        assert(sets_view(parameters)[k] == sets@[k]@);
                        assert(params_encodable(sets@[k]@));
                    };
                    assert(all_sets_encodable(sets_view(parameters)));
                }
            },
            None => {
                proof {
                    assert(sets_view(parameters).len() == 0);
                    assert(all_sets_encodable(sets_view(parameters)));
                }
            },
        }
        let use_prepared: bool = match prepared {
            Some(b) => b,
            None => true,
        };
        Ok(
            ExecuteManyRun {
                querystring,
                param_sets: converted,
                prepared: use_prepared,
                phase: ManyPhase::NotBegun,
                completed: 0,
            },
        )
    }

    /// Spawn a transaction over the bound connection.  Fails with a
    /// connection-closed error on an unbound session.
    pub fn transaction(
        &self,
        isolation_level: Option<IsolationLevel>,
        read_variant: Option<ReadVariant>,
        deferrable: Option<bool>,
        synchronous_commit: Option<SynchronousCommit>,
    ) -> (r: Result<Transaction, DriverError>)
        ensures
            match r {
                Ok(tx) => {
                    &&& self.db_client matches Some(conn) && tx.conn_id == conn.spec_link_id()
                    &&& !tx.started
                    &&& !tx.done
                    &&& tx.isolation_level == isolation_level
                    &&& tx.read_variant == read_variant
                    &&& tx.deferrable == deferrable
                    &&& tx.synchronous_commit == synchronous_commit
                    &&& tx.savepoint_names().len() == 0
                },
                Err(e) => self.db_client is None && e.kind == ErrorKind::ConnectionClosed,
            },
    {
        match &self.db_client {
            Some(conn) => {
                let tx = Transaction::new(
                    conn.link_id(),
                    false,
                    false,
                    isolation_level,
                    synchronous_commit,
                    read_variant,
                    deferrable,
                    Vec::new(),
                );
                proof {
                    assert(tx.savepoint_names() =~= Seq::<Seq<char>>::empty());
                }
                Ok(tx)
            },
            None => Err(Self::closed_error()),
        }
    }

    /// Spawn a server-side cursor over the bound connection, generating
    /// a fresh cursor name from the session's serial counter.
    pub fn cursor(
        &mut self,
        querystring: String,
        parameters: Option<Vec<DynamicValue>>,
        fetch_number: Option<usize>,
        scroll: Option<bool>,
        prepared: Option<bool>,
    ) -> (r: Result<Cursor, DriverError>)
        requires
            old(self).cursor_serial < 0xFFFFFFFFFFFFFFFF,
        ensures
            final(self).db_client == old(self).db_client,
            final(self).db_pool == old(self).db_pool,
            match r {
                Ok(c) => {
                    &&& old(self).db_client matches Some(conn) && c.conn_id == conn.spec_link_id()
                    &&& final(self).cursor_serial == old(self).cursor_serial + 1
                    &&& params_encodable(opt_params_view(parameters))
                    &&& c.querystring@ == querystring@
                    &&& params_encoded(opt_params_view(parameters), c.parameters@)
                    &&& c.cursor_name@ == cursor_name_chars(old(self).cursor_serial as nat)
                    &&& c.fetch_size == (match fetch_number {
                        Some(k) => k,
                        None => 10,
                    })
                    &&& c.scroll == scroll
                    &&& c.prepared == (prepared is None || prepared == Some(true))
                    &&& c.state == CursorState::Undeclared
                    &&& !c.exhausted
                },
                Err(e) => {
                    &&& final(self).cursor_serial == old(self).cursor_serial
                    &&& if old(self).db_client is None {
                        e.kind == ErrorKind::ConnectionClosed
                    } else {
                        !params_encodable(opt_params_view(parameters)) && e.kind
                            == ErrorKind::Conversion
                    }
                },
            },
    {
        let conn_id: u64 = match &self.db_client {
            Some(conn) => conn.link_id(),
            None => {
                return Err(Self::closed_error());
            },
        };
        let plan: QueryPlan = match build_query_plan(querystring, parameters, prepared) {
            Ok(p) => p,
            Err(e) => {
                return Err(e);
            },
        };
        let serial: u64 = self.cursor_serial;
        self.cursor_serial = serial + 1;
        let name: String = cursor_name(serial);
        Ok(
            Cursor {
                conn_id,
                querystring: plan.querystring,
                parameters: plan.parameters,
                cursor_name: name,
                fetch_size: match fetch_number {
                    Some(k) => k,
                    None => 10,
                },
                scroll,
                prepared: plan.prepared,
                state: CursorState::Undeclared,
                exhausted: false,
            },
        )
    }

    /// Plan a bulk binary copy into a (possibly schema-qualified)
    /// table: the copy-in statement with defensively quoted
    /// identifiers, and the pre-framed payload to stream.  Fails fast
    /// on an unbound session.
    pub fn binary_copy_to_table(
        &self,
        source: Vec<u8>,
        table_name: &String,
        columns: Option<&Vec<String>>,
        schema_name: Option<&String>,
    ) -> (r: Result<CopyPlan, DriverError>)
        ensures
            match r {
                Ok(plan) => {
                    &&& self.db_client is Some
                    &&& plan.statement@ == copy_statement_chars(
                        table_name@,
                        opt_str_view(schema_name),
                        opt_names_view(columns),
                    )
                    &&& plan.data@ == source@
                },
                Err(e) => self.db_client is None && e.kind == ErrorKind::ConnectionClosed,
            },
    {
        if self.db_client.is_none() {
            return Err(Self::closed_error());
        }
        let statement: String = copy_statement(table_name, schema_name, columns);
        Ok(CopyPlan { statement, data: source })
    }
}

impl Default for Connection {
    /// An empty session: unbound, with no pool reference — closed.
    fn default() -> (r: Connection)
        ensures
            r.db_client is None,
            r.db_pool is None,
    {
        Connection::new(None, None)
    }
}

} // verus!
