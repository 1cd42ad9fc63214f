//! The transaction state machine: `NotStarted -> Started -> {Committed |
//! RolledBack}`, with named savepoints, configurable BEGIN assembly, and
//! rejection of every out-of-order transition.

use vstd::prelude::*;
use vstd::string::StringExecFns;
use crate::codec::{params_encodable, DynamicValue};
use crate::connection::QueryPlan;
use crate::errors::{DriverError, ErrorKind};
use crate::sqltext::{
    release_savepoint_chars, release_savepoint_statement, rollback_to_chars,
    rollback_to_statement, savepoint_chars, savepoint_statement,
};
use crate::strutil::str_eq_chars;

verus! {

/// The isolation level clause of a BEGIN statement.
#[derive(Clone, Copy, Debug, PartialEq, Eq, Structural)]
pub enum IsolationLevel {
    ReadUncommitted,
    ReadCommitted,
    RepeatableRead,
    Serializable,
}

/// The read variant clause of a BEGIN statement.
#[derive(Clone, Copy, Debug, PartialEq, Eq, Structural)]
pub enum ReadVariant {
    ReadOnly,
    ReadWrite,
}

/// The synchronous-commit mode set alongside a transaction.
#[derive(Clone, Copy, Debug, PartialEq, Eq, Structural)]
pub enum SynchronousCommit {
    On,
    Off,
    Local,
    RemoteWrite,
    RemoteApply,
}

/// The BEGIN statement for a configuration: an unset option omits its
/// clause, so the server default applies.
pub open spec fn begin_chars(
    isolation_level: Option<IsolationLevel>,
    read_variant: Option<ReadVariant>,
    deferrable: Option<bool>,
) -> Seq<char> {
    "BEGIN"@ + (match isolation_level {
        Some(IsolationLevel::ReadUncommitted) => " ISOLATION LEVEL READ UNCOMMITTED"@,
        Some(IsolationLevel::ReadCommitted) => " ISOLATION LEVEL READ COMMITTED"@,
        Some(IsolationLevel::RepeatableRead) => " ISOLATION LEVEL REPEATABLE READ"@,
        Some(IsolationLevel::Serializable) => " ISOLATION LEVEL SERIALIZABLE"@,
        None => Seq::<char>::empty(),
    }) + (match read_variant {
        Some(ReadVariant::ReadOnly) => " READ ONLY"@,
        Some(ReadVariant::ReadWrite) => " READ WRITE"@,
        None => Seq::<char>::empty(),
    }) + (match deferrable {
        Some(true) => " DEFERRABLE"@,
        Some(false) => " NOT DEFERRABLE"@,
        None => Seq::<char>::empty(),
    })
}

/// The statement that sets the synchronous-commit mode for the
/// transaction.
pub open spec fn synchronous_commit_chars(mode: SynchronousCommit) -> Seq<char> {
    match mode {
        SynchronousCommit::On => "SET LOCAL synchronous_commit = 'on'"@,
        SynchronousCommit::Off => "SET LOCAL synchronous_commit = 'off'"@,
        SynchronousCommit::Local => "SET LOCAL synchronous_commit = 'local'"@,
        SynchronousCommit::RemoteWrite => "SET LOCAL synchronous_commit = 'remote_write'"@,
        SynchronousCommit::RemoteApply => "SET LOCAL synchronous_commit = 'remote_apply'"@,
    }
}

/// What starting a transaction tells the embedder to run: the BEGIN
/// statement, preceded by the synchronous-commit setting if one was
/// configured.
#[derive(Debug)]
pub struct BeginPlan {
    pub begin_statement: String,
    pub set_statement: Option<String>,
}

/// A transaction over a borrowed connection: configuration, the
/// start-once/terminate-once state, and the set of live savepoint
/// names.
#[derive(Debug)]
pub struct Transaction {
    pub conn_id: u64,
    pub started: bool,
    pub done: bool,
    pub isolation_level: Option<IsolationLevel>,
    pub synchronous_commit: Option<SynchronousCommit>,
    pub read_variant: Option<ReadVariant>,
    pub deferrable: Option<bool>,
    pub savepoints: Vec<String>,
}

impl Transaction {
    /// The savepoint names as character sequences.
    pub open spec fn savepoint_names(&self) -> Seq<Seq<char>> {
        self.savepoints@.map_values(|s: String| s@)
    }

    /// A name is live when it is among the savepoints.
    pub open spec fn has_savepoint(&self, name: Seq<char>) -> bool {
        exists|k: int| 0 <= k < self.savepoint_names().len() && self.savepoint_names()[k] == name
    }

    /// The transaction accepts statements: started and not yet
    /// terminated.
    pub open spec fn is_active(&self) -> bool {
        self.started && !self.done
    }

    /// Build a transaction over the connection with the given
    /// identifier.
    #[allow(clippy::too_many_arguments)]
    pub fn new(
        conn_id: u64,
        started: bool,
        done: bool,
        isolation_level: Option<IsolationLevel>,
        synchronous_commit: Option<SynchronousCommit>,
        read_variant: Option<ReadVariant>,
        deferrable: Option<bool>,
        savepoints: Vec<String>,
    ) -> (r: Transaction)
        ensures
            r == (Transaction {
                conn_id,
                started,
                done,
                isolation_level,
                synchronous_commit,
                read_variant,
                deferrable,
                savepoints,
            }),
    {
        Transaction {
            conn_id,
            started,
            done,
            isolation_level,
            synchronous_commit,
            read_variant,
            deferrable,
            savepoints,
        }
    }

    fn state_error() -> (r: DriverError)
        ensures
            r.kind == ErrorKind::TransactionState,
    {
        DriverError::new(
            ErrorKind::TransactionState,
            String::from_str("transaction operation out of allowed state sequence"),
        )
    }

    /// Start the transaction.  The one transition out of `NotStarted`;
    /// rejected once started or terminated.
    pub fn begin(&mut self) -> (r: Result<BeginPlan, DriverError>)
        ensures
            match r {
                Ok(plan) => {
                    &&& !old(self).started
                    &&& !old(self).done
                    &&& *final(self) == (Transaction { started: true, ..*old(self) })
                    &&& plan.begin_statement@ == begin_chars(
                        old(self).isolation_level,
                        old(self).read_variant,
                        old(self).deferrable,
                    )
                    &&& match old(self).synchronous_commit {
                        Some(mode) => plan.set_statement matches Some(s) && s@
                            == synchronous_commit_chars(mode),
                        None => plan.set_statement is None,
                    }
                },
                Err(e) => {
                    &&& (old(self).started || old(self).done)
                    &&& *final(self) == *old(self)
                    &&& e.kind == ErrorKind::TransactionState
                },
            },
    {
        if self.started || self.done {
            return Err(Self::state_error());
        }
        self.started = true;
        let mut begin_statement = String::new();
        begin_statement.append("BEGIN");
        match self.isolation_level {
            Some(IsolationLevel::ReadUncommitted) => begin_statement.append(
                " ISOLATION LEVEL READ UNCOMMITTED",
            ),
            Some(IsolationLevel::ReadCommitted) => begin_statement.append(
                " ISOLATION LEVEL READ COMMITTED",
            ),
            Some(IsolationLevel::RepeatableRead) => begin_statement.append(
                " ISOLATION LEVEL REPEATABLE READ",
            ),
            Some(IsolationLevel::Serializable) => begin_statement.append(
                " ISOLATION LEVEL SERIALIZABLE",
            ),
            None => {},
        }
        match self.read_variant {
            Some(ReadVariant::ReadOnly) => begin_statement.append(" READ ONLY"),
            Some(ReadVariant::ReadWrite) => begin_statement.append(" READ WRITE"),
            None => {},
        }
        match self.deferrable {
            Some(true) => begin_statement.append(" DEFERRABLE"),
            Some(false) => begin_statement.append(" NOT DEFERRABLE"),
            None => {},
        }
        let set_statement: Option<String> = match self.synchronous_commit {
            Some(SynchronousCommit::On) => Some(
                String::from_str("SET LOCAL synchronous_commit = 'on'"),
            ),
            Some(SynchronousCommit::Off) => Some(
                String::from_str("SET LOCAL synchronous_commit = 'off'"),
            ),
            Some(SynchronousCommit::Local) => Some(
                String::from_str("SET LOCAL synchronous_commit = 'local'"),
            ),
            Some(SynchronousCommit::RemoteWrite) => Some(
                String::from_str("SET LOCAL synchronous_commit = 'remote_write'"),
            ),
            Some(SynchronousCommit::RemoteApply) => Some(
                String::from_str("SET LOCAL synchronous_commit = 'remote_apply'"),
            ),
            None => None,
        };
        proof {
            assert(begin_statement@ =~= begin_chars(
                self.isolation_level,
                self.read_variant,
                self.deferrable,
            ));
        }
        Ok(BeginPlan { begin_statement, set_statement })
    }

    /// Commit: one of the two transitions out of `Started`, rejected
    /// before `begin` and after either terminal state.
    pub fn commit(&mut self) -> (r: Result<String, DriverError>)
        ensures
            match r {
                Ok(stmt) => {
                    &&& old(self).is_active()
                    &&& *final(self) == (Transaction { done: true, ..*old(self) })
                    &&& stmt@ == "COMMIT"@
                },
                Err(e) => {
                    &&& !old(self).is_active()
                    &&& *final(self) == *old(self)
                    &&& e.kind == ErrorKind::TransactionState
                },
            },
    {
        if !self.started || self.done {
            return Err(Self::state_error());
        }
        self.done = true;
        Ok(String::from_str("COMMIT"))
    }

    /// Roll back: the other transition out of `Started`, with the same
    /// rejections as `commit`.
    pub fn rollback(&mut self) -> (r: Result<String, DriverError>)
        ensures
            match r {
                Ok(stmt) => {
                    &&& old(self).is_active()
                    &&& *final(self) == (Transaction { done: true, ..*old(self) })
                    &&& stmt@ == "ROLLBACK"@
                },
                Err(e) => {
                    &&& !old(self).is_active()
                    &&& *final(self) == *old(self)
                    &&& e.kind == ErrorKind::TransactionState
                },
            },
    {
        if !self.started || self.done {
            return Err(Self::state_error());
        }
        self.done = true;
        Ok(String::from_str("ROLLBACK"))
    }

    /// Find a savepoint by name.
    fn find_savepoint(&self, name: &String) -> (r: Option<usize>)
        ensures
            match r {
                Some(i) => i < self.savepoint_names().len() && self.savepoint_names()[i as int]
                    == name@,
                None => !self.has_savepoint(name@),
            },
    {
        let n: usize = self.savepoints.len();
        let mut i: usize = 0;
        while i < n
            invariant
                i <= n,
                n == self.savepoints@.len(),
                forall|k: int| 0 <= k < i ==> self.savepoint_names()[k] != name@,
            decreases n - i,
        {
            if str_eq_chars(self.savepoints[i].as_str(), name.as_str()) {
                return Some(i);
            }
            i = i + 1;
        }
        None
    }

    /// Create a savepoint.  Only valid while active; a duplicate name is
    /// rejected.
    pub fn savepoint(&mut self, name: &String) -> (r: Result<String, DriverError>)
        ensures
            match r {
                Ok(stmt) => {
                    &&& old(self).is_active()
                    &&& !old(self).has_savepoint(name@)
                    &&& final(self).savepoint_names() =~= old(self).savepoint_names().push(name@)
                    &&& final(self).started == old(self).started
                    &&& final(self).done == old(self).done
                    &&& final(self).conn_id == old(self).conn_id
                    &&& stmt@ == savepoint_chars(name@)
                },
                Err(e) => {
                    &&& !old(self).is_active() || old(self).has_savepoint(name@)
                    &&& *final(self) == *old(self)
                    &&& e.kind == ErrorKind::TransactionState
                },
            },
    {
        if !self.started || self.done {
            return Err(Self::state_error());
        }
        if let Some(_) = self.find_savepoint(name) {
            return Err(Self::state_error());
        }
        self.savepoints.push(name.clone());
        proof {
            assert(self.savepoint_names() =~= old(self).savepoint_names().push(name@));
        }
        Ok(savepoint_statement(name))
    }

    /// Release a savepoint.  Only valid while active; an unknown name is
    /// rejected.  The released name leaves the live set.
    pub fn release_savepoint(&mut self, name: &String) -> (r: Result<String, DriverError>)
        ensures
            match r {
                Ok(stmt) => {
                    &&& old(self).is_active()
                    &&& old(self).has_savepoint(name@)
                    &&& final(self).started == old(self).started
                    &&& final(self).done == old(self).done
                    &&& final(self).conn_id == old(self).conn_id
                    &&& (exists|i: int|
                        0 <= i < old(self).savepoint_names().len() && old(
                            self,
                        ).savepoint_names()[i] == name@ && final(self).savepoints@ == old(
                            self,
                        ).savepoints@.remove(i))
                    &&& stmt@ == release_savepoint_chars(name@)
                },
                Err(e) => {
                    &&& !old(self).is_active() || !old(self).has_savepoint(name@)
                    &&& *final(self) == *old(self)
                    &&& e.kind == ErrorKind::TransactionState
                },
            },
    {
        if !self.started || self.done {
            return Err(Self::state_error());
        }
        match self.find_savepoint(name) {
            Some(i) => {
                self.savepoints.remove(i);
                proof {
                    assert(old(self).savepoint_names()[i as int] == name@);
                    assert(self.savepoints@ == old(self).savepoints@.remove(i as int));
                }
                Ok(release_savepoint_statement(name))
            },
            None => Err(Self::state_error()),
        }
    }

    /// Roll back to a savepoint.  Only valid while active; an unknown
    /// name is rejected.  The savepoint itself stays live.
    pub fn rollback_to(&mut self, name: &String) -> (r: Result<String, DriverError>)
        ensures
            match r {
                Ok(stmt) => {
                    &&& old(self).is_active()
                    &&& old(self).has_savepoint(name@)
                    &&& *final(self) == *old(self)
                    &&& stmt@ == rollback_to_chars(name@)
                },
                Err(e) => {
                    &&& !old(self).is_active() || !old(self).has_savepoint(name@)
                    &&& *final(self) == *old(self)
                    &&& e.kind == ErrorKind::TransactionState
                },
            },
    {
        if !self.started || self.done {
            return Err(Self::state_error());
        }
        match self.find_savepoint(name) {
            Some(_) => Ok(rollback_to_statement(name)),
            None => Err(Self::state_error()),
        }
    }

    /// Plan a query on the transaction's connection: the same execution
    /// semantics as the session's `execute`/`fetch` family, but gated on
    /// the transaction being active.
    pub fn execute(
        &self,
        querystring: String,
        parameters: Option<Vec<DynamicValue>>,
        prepared: Option<bool>,
    ) -> (r: Result<QueryPlan, DriverError>)
        ensures
            match r {
                Ok(plan) => {
                    &&& self.is_active()
                    &&& plan.wf(querystring@, crate::connection::opt_params_view(parameters))
                    &&& plan.prepared == (prepared is None || prepared == Some(true))
                },
                Err(e) => {
                    if !self.is_active() {
                        e.kind == ErrorKind::TransactionState
                    } else {
                        !params_encodable(crate::connection::opt_params_view(parameters))
                            && e.kind == ErrorKind::Conversion
                    }
                },
            },
    {
        if !self.started || self.done {
            return Err(Self::state_error());
        }
        crate::connection::build_query_plan(querystring, parameters, prepared)
    }
}

} // verus!
