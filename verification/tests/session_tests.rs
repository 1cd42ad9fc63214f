//! The session, transaction, cursor and batch protocols on concrete
//! scenarios.

use psqlpy::{
    ColumnInfo, Connection, Cursor, CursorState, DirectLink, DriverError, DynamicValue,
    EnterAction, ErrorKind, FetchPlan, IsolationLevel, ManyAction, PgRow, PoolHandle, PooledLink,
    PsqlpyConnection, ReadVariant, SingleQueryResult, StatementCache, SynchronousCommit,
};

fn pooled_conn() -> PsqlpyConnection {
    PsqlpyConnection::PoolConn(PooledLink { id: 7, cache: StatementCache::empty() })
}

fn single_conn() -> PsqlpyConnection {
    PsqlpyConnection::SingleConn(DirectLink { id: 9, cache: StatementCache::empty() })
}

fn row_with_no_columns() -> PgRow {
    PgRow::new(Vec::new(), Vec::new()).unwrap()
}

#[test]
fn query_one_zero_rows_is_row_count_error() {
    let conn = pooled_conn();
    let e = conn.query_one(Vec::new()).unwrap_err();
    assert_eq!(e.kind(), ErrorKind::RowCount);
}

#[test]
fn query_one_two_rows_is_row_count_error() {
    let conn = pooled_conn();
    let rows = vec![row_with_no_columns(), row_with_no_columns()];
    let e = conn.query_one(rows).unwrap_err();
    assert_eq!(e.kind(), ErrorKind::RowCount);
}

#[test]
fn query_one_single_row_passes() {
    let conn = pooled_conn();
    let rows = vec![row_with_no_columns()];
    let row = conn.query_one(rows).unwrap();
    assert_eq!(row.width(), 0);
}

#[test]
fn single_result_mirrors_query_one() {
    assert_eq!(
        SingleQueryResult::from_rows(Vec::new()).unwrap_err().kind(),
        ErrorKind::RowCount
    );
    let single = SingleQueryResult::from_rows(vec![row_with_no_columns()]).unwrap();
    assert_eq!(single.into_row().width(), 0);
}

#[test]
fn fetch_val_of_empty_row_is_null() {
    let row = row_with_no_columns();
    assert!(matches!(row.first_value().unwrap(), DynamicValue::Null));
}

#[test]
fn begin_twice_is_transaction_state_error() {
    let session = Connection::new(Some(pooled_conn()), None);
    let mut tx = session.transaction(None, None, None, None).unwrap();
    tx.begin().unwrap();
    let e = tx.begin().unwrap_err();
    assert_eq!(e.kind(), ErrorKind::TransactionState);
}

#[test]
fn commit_after_rollback_is_transaction_state_error() {
    let session = Connection::new(Some(pooled_conn()), None);
    let mut tx = session.transaction(None, None, None, None).unwrap();
    tx.begin().unwrap();
    assert_eq!(tx.rollback().unwrap(), "ROLLBACK");
    let e = tx.commit().unwrap_err();
    assert_eq!(e.kind(), ErrorKind::TransactionState);
}

#[test]
fn commit_before_begin_is_transaction_state_error() {
    let session = Connection::new(Some(pooled_conn()), None);
    let mut tx = session.transaction(None, None, None, None).unwrap();
    assert_eq!(tx.commit().unwrap_err().kind(), ErrorKind::TransactionState);
}

#[test]
fn duplicate_savepoint_is_rejected() {
    let session = Connection::new(Some(pooled_conn()), None);
    let mut tx = session.transaction(None, None, None, None).unwrap();
    tx.begin().unwrap();
    let stmt = tx.savepoint(&String::from("a")).unwrap();
    assert_eq!(stmt, "SAVEPOINT \"a\"");
    let e = tx.savepoint(&String::from("a")).unwrap_err();
    assert_eq!(e.kind(), ErrorKind::TransactionState);
}

#[test]
fn unknown_savepoint_is_rejected() {
    let session = Connection::new(Some(pooled_conn()), None);
    let mut tx = session.transaction(None, None, None, None).unwrap();
    tx.begin().unwrap();
    assert_eq!(
        tx.release_savepoint(&String::from("missing")).unwrap_err().kind(),
        ErrorKind::TransactionState
    );
    assert_eq!(
        tx.rollback_to(&String::from("missing")).unwrap_err().kind(),
        ErrorKind::TransactionState
    );
}

#[test]
fn released_savepoint_leaves_the_live_set() {
    let session = Connection::new(Some(pooled_conn()), None);
    let mut tx = session.transaction(None, None, None, None).unwrap();
    tx.begin().unwrap();
    tx.savepoint(&String::from("a")).unwrap();
    assert_eq!(
        tx.release_savepoint(&String::from("a")).unwrap(),
        "RELEASE SAVEPOINT \"a\""
    );
    let stmt = tx.savepoint(&String::from("a")).unwrap();
    assert_eq!(stmt, "SAVEPOINT \"a\"");
    assert_eq!(tx.rollback_to(&String::from("a")).unwrap(), "ROLLBACK TO SAVEPOINT \"a\"");
}

#[test]
fn begin_statement_assembles_configured_clauses() {
    let session = Connection::new(Some(pooled_conn()), None);
    let mut tx = session
        .transaction(
            Some(IsolationLevel::Serializable),
            Some(ReadVariant::ReadOnly),
            Some(true),
            Some(SynchronousCommit::Off),
        )
        .unwrap();
    let plan = tx.begin().unwrap();
    assert_eq!(
        plan.begin_statement,
        "BEGIN ISOLATION LEVEL SERIALIZABLE READ ONLY DEFERRABLE"
    );
    assert_eq!(
        plan.set_statement.unwrap(),
        "SET LOCAL synchronous_commit = 'off'"
    );
}

#[test]
fn begin_statement_omits_unset_clauses() {
    let session = Connection::new(Some(pooled_conn()), None);
    let mut tx = session
        .transaction(Some(IsolationLevel::ReadCommitted), None, None, None)
        .unwrap();
    let plan = tx.begin().unwrap();
    assert_eq!(plan.begin_statement, "BEGIN ISOLATION LEVEL READ COMMITTED");
    assert!(plan.set_statement.is_none());
}

fn cursor_over_25_rows() -> Cursor {
    let mut session = Connection::new(Some(pooled_conn()), None);
    session
        .cursor(String::from("SELECT * FROM t"), None, Some(10), None, None)
        .unwrap()
}

#[test]
fn cursor_batches_ten_ten_five_zero() {
    let mut cur = cursor_over_25_rows();
    assert_eq!(cur.fetch_size, 10);
    match cur.fetch_next().unwrap() {
        FetchPlan::DeclareAndFetch { declare, fetch } => {
            assert_eq!(declare, "DECLARE \"cur_0\" CURSOR FOR SELECT * FROM t");
            assert_eq!(fetch, "FETCH 10 FROM \"cur_0\"");
        }
        other => panic!("expected declare-and-fetch, got {:?}", other),
    }
    cur.record_batch(10);
    assert!(matches!(cur.fetch_next().unwrap(), FetchPlan::Fetch { .. }));
    cur.record_batch(10);
    assert!(matches!(cur.fetch_next().unwrap(), FetchPlan::Fetch { .. }));
    cur.record_batch(5);
    // The short batch signals exhaustion: the next fetches yield zero
    // rows, and exhaustion is permanent.
    assert!(matches!(cur.fetch_next().unwrap(), FetchPlan::Empty));
    assert!(matches!(cur.fetch_next().unwrap(), FetchPlan::Empty));
}

#[test]
fn cursor_close_and_use_after_close() {
    let mut cur = cursor_over_25_rows();
    cur.fetch_next().unwrap();
    let stmt = cur.close().unwrap().unwrap();
    assert_eq!(stmt, "CLOSE \"cur_0\"");
    assert_eq!(cur.state, CursorState::Closed);
    assert_eq!(cur.fetch_next().unwrap_err().kind(), ErrorKind::CursorState);
    assert_eq!(cur.close().unwrap_err().kind(), ErrorKind::CursorState);
}

#[test]
fn cursor_names_are_serial_per_session() {
    let mut session = Connection::new(Some(pooled_conn()), None);
    let c0 = session.cursor(String::from("SELECT 1"), None, None, None, None).unwrap();
    let c1 = session.cursor(String::from("SELECT 2"), None, None, None, None).unwrap();
    assert_eq!(c0.cursor_name, "cur_0");
    assert_eq!(c1.cursor_name, "cur_1");
    assert_eq!(c0.fetch_size, 10);
}

#[test]
fn scroll_clause_appears_in_declare() {
    let mut session = Connection::new(Some(pooled_conn()), None);
    let mut cur = session
        .cursor(String::from("SELECT 1"), None, Some(3), Some(true), None)
        .unwrap();
    match cur.fetch_next().unwrap() {
        FetchPlan::DeclareAndFetch { declare, fetch } => {
            assert_eq!(declare, "DECLARE \"cur_0\" SCROLL CURSOR FOR SELECT 1");
            assert_eq!(fetch, "FETCH 3 FROM \"cur_0\"");
        }
        other => panic!("expected declare-and-fetch, got {:?}", other),
    }
}

#[test]
fn execute_many_commits_only_after_every_set() {
    let session = Connection::new(Some(pooled_conn()), None);
    let sets = vec![
        vec![DynamicValue::Int(1)],
        vec![DynamicValue::Int(2)],
        vec![DynamicValue::Int(3)],
    ];
    let mut run = session
        .execute_many(String::from("INSERT INTO t VALUES ($1)"), Some(sets), None)
        .unwrap();
    assert_eq!(run.next_action(), ManyAction::IssueBegin);
    assert_eq!(run.begin_statement(), "BEGIN;");
    run.on_begun();
    assert_eq!(run.next_action(), ManyAction::ExecuteSet(0));
    run.on_set_done();
    assert_eq!(run.next_action(), ManyAction::ExecuteSet(1));
    run.on_set_done();
    assert_eq!(run.next_action(), ManyAction::ExecuteSet(2));
    run.on_set_done();
    assert_eq!(run.next_action(), ManyAction::IssueCommit);
    assert_eq!(run.commit_statement(), "COMMIT;");
    run.on_committed();
    assert_eq!(run.next_action(), ManyAction::Done);
}

#[test]
fn execute_many_failure_rolls_back_before_surfacing() {
    let session = Connection::new(Some(pooled_conn()), None);
    let sets = vec![vec![DynamicValue::Int(1)], vec![DynamicValue::Int(2)]];
    let mut run = session
        .execute_many(String::from("INSERT INTO t VALUES ($1)"), Some(sets), None)
        .unwrap();
    run.on_begun();
    run.on_set_done();
    // The second statement fails on the server: the run must issue the
    // rollback and surface a transaction-execute error; afterwards the
    // protocol is over and no further set is offered.
    let (rollback, err) = run.on_failed();
    assert_eq!(rollback, "ROLLBACK;");
    assert_eq!(err.kind(), ErrorKind::TransactionExecute);
    assert_eq!(run.next_action(), ManyAction::Done);
}

#[test]
fn scoped_exit_always_releases_the_connection() {
    // Success path.
    let mut session = Connection::new(Some(pooled_conn()), Some(PoolHandle { id: 3 }));
    session.exit(None).unwrap();
    assert!(session.db_client().is_none());
    assert!(session.db_pool().is_none());

    // Failure path: the connection is released all the same and the
    // failure propagates.
    let mut failing = Connection::new(Some(pooled_conn()), Some(PoolHandle { id: 3 }));
    let boom = DriverError::new(ErrorKind::StatementExecute, String::from("boom"));
    let e = failing.exit(Some(boom)).unwrap_err();
    assert_eq!(e.kind(), ErrorKind::StatementExecute);
    assert!(failing.db_client().is_none());
    assert!(failing.db_pool().is_none());
}

#[test]
fn enter_acquires_from_pool_when_unbound() {
    let session = Connection::new(None, Some(PoolHandle { id: 42 }));
    assert_eq!(session.enter().unwrap(), EnterAction::AcquireFromPool(42));
    let bound = Connection::new(Some(single_conn()), None);
    assert_eq!(bound.enter().unwrap(), EnterAction::AlreadyBound);
}

#[test]
fn closed_session_fails_fast_everywhere() {
    let session = Connection::default();
    assert_eq!(session.enter().unwrap_err().kind(), ErrorKind::ConnectionClosed);
    assert_eq!(
        session.execute(String::from("SELECT 1"), None, None).unwrap_err().kind(),
        ErrorKind::ConnectionClosed
    );
    assert_eq!(
        session.execute_batch(String::from("SELECT 1")).unwrap_err().kind(),
        ErrorKind::ConnectionClosed
    );
    assert_eq!(
        session.transaction(None, None, None, None).unwrap_err().kind(),
        ErrorKind::ConnectionClosed
    );
    assert_eq!(
        session
            .binary_copy_to_table(Vec::new(), &String::from("t"), None, None)
            .unwrap_err()
            .kind(),
        ErrorKind::ConnectionClosed
    );
}

#[test]
fn release_is_idempotent() {
    let mut session = Connection::new(Some(pooled_conn()), Some(PoolHandle { id: 1 }));
    session.back_to_pool();
    assert!(session.db_client().is_none());
    session.back_to_pool();
    assert!(session.db_client().is_none());
    assert_eq!(session.db_pool(), Some(PoolHandle { id: 1 }));
}

#[test]
fn execute_converts_parameters_and_defaults_to_prepared() {
    let session = Connection::new(Some(pooled_conn()), None);
    let plan = session
        .execute(
            String::from("SELECT $1, $2"),
            Some(vec![DynamicValue::Int(1), DynamicValue::Str(String::from("x"))]),
            None,
        )
        .unwrap();
    assert!(plan.prepared);
    assert_eq!(plan.parameters.len(), 2);
    assert_eq!(plan.parameters[0].ty.oid(), 20);
    assert_eq!(plan.parameters[1].ty.oid(), 25);
    let unprepared = session
        .fetch(String::from("SELECT 1"), None, Some(false))
        .unwrap();
    assert!(!unprepared.prepared);
}

#[test]
fn prepare_cached_memoizes_per_pooled_lease() {
    let mut conn = pooled_conn();
    let text = String::from("SELECT $1");
    let first = conn.prepare_cached(&text).unwrap();
    assert!(first.needs_server_prepare);
    assert_eq!(first.index, 0);
    let second = conn.prepare_cached(&text).unwrap();
    assert!(!second.needs_server_prepare);
    assert_eq!(second.index, 0);
    let other = conn.prepare_cached(&String::from("SELECT 2")).unwrap();
    assert!(other.needs_server_prepare);
    assert_eq!(other.index, 1);
}

#[test]
fn standalone_link_memoizes_like_a_pooled_lease() {
    let mut conn = single_conn();
    let text = String::from("SELECT $1");
    let first = conn.prepare_cached(&text).unwrap();
    let second = conn.prepare_cached(&text).unwrap();
    assert!(first.needs_server_prepare);
    assert!(!second.needs_server_prepare);
    assert_eq!(first.index, 0);
    assert_eq!(second.index, 0);
}

#[test]
fn copy_statement_quotes_identifiers_defensively() {
    let session = Connection::new(Some(pooled_conn()), None);
    let cols = vec![String::from("a"), String::from("b")];
    let plan = session
        .binary_copy_to_table(
            vec![1, 2, 3],
            &String::from("ta\"ble"),
            Some(&cols),
            Some(&String::from("public")),
        )
        .unwrap();
    assert_eq!(
        plan.statement,
        "COPY \"public\".\"ta\"\"ble\"(a, b) FROM STDIN (FORMAT binary)"
    );
    assert_eq!(plan.data, vec![1, 2, 3]);
}

#[test]
fn copy_statement_without_schema_or_columns() {
    let session = Connection::new(Some(pooled_conn()), None);
    let plan = session
        .binary_copy_to_table(Vec::new(), &String::from("t"), None, None)
        .unwrap();
    assert_eq!(plan.statement, "COPY \"t\" FROM STDIN (FORMAT binary)");
}

#[test]
fn quote_ident_doubles_embedded_quotes() {
    assert_eq!(psqlpy::quote_ident("plain"), "\"plain\"");
    assert_eq!(psqlpy::quote_ident("ta\"ble"), "\"ta\"\"ble\"");
}

#[test]
fn error_kinds_are_discriminable() {
    let kinds = [
        ErrorKind::ConnectionClosed,
        ErrorKind::Conversion,
        ErrorKind::StatementPrepare,
        ErrorKind::StatementExecute,
        ErrorKind::RowCount,
        ErrorKind::TransactionState,
        ErrorKind::TransactionExecute,
        ErrorKind::CursorState,
        ErrorKind::Pool,
        ErrorKind::CopySource,
    ];
    for (i, a) in kinds.iter().enumerate() {
        for (j, b) in kinds.iter().enumerate() {
            assert_eq!(a == b, i == j);
        }
    }
    let e = DriverError::new(ErrorKind::Pool, String::from("pool exhausted"));
    assert_eq!(e.kind(), ErrorKind::Pool);
    assert_eq!(e.describe(), "pool exhausted");
}

#[test]
fn transaction_execute_requires_active_state() {
    let session = Connection::new(Some(pooled_conn()), None);
    let mut tx = session.transaction(None, None, None, None).unwrap();
    assert_eq!(
        tx.execute(String::from("SELECT 1"), None, None).unwrap_err().kind(),
        ErrorKind::TransactionState
    );
    tx.begin().unwrap();
    let plan = tx
        .execute(
            String::from("SELECT $1"),
            Some(vec![DynamicValue::Boolean(true)]),
            None,
        )
        .unwrap();
    assert_eq!(plan.parameters.len(), 1);
    tx.commit().unwrap();
    assert_eq!(
        tx.execute(String::from("SELECT 1"), None, None).unwrap_err().kind(),
        ErrorKind::TransactionState
    );
}

#[test]
fn fetch_val_reads_the_first_column() {
    let row = PgRow::new(
        vec![
            ColumnInfo { name: String::from("n"), oid: 23 },
            ColumnInfo { name: String::from("s"), oid: 25 },
        ],
        vec![Some(vec![0, 0, 0, 42]), Some(b"ignored".to_vec())],
    )
    .unwrap();
    assert!(matches!(row.first_value().unwrap(), DynamicValue::Integer(42)));
}

#[test]
fn query_dispatch_is_uniform_over_both_variants() {
    let plan = {
        let session = Connection::new(Some(pooled_conn()), None);
        session.execute(String::from("SELECT 1"), None, None).unwrap()
    };
    let mut pooled = pooled_conn();
    let d1 = pooled.query(&plan).unwrap();
    assert_eq!(d1.link_id, 7);
    assert!(d1.statement.unwrap().needs_server_prepare);
    let d2 = pooled.query(&plan).unwrap();
    assert!(!d2.statement.unwrap().needs_server_prepare);

    let mut single = single_conn();
    let d3 = single.query(&plan).unwrap();
    assert_eq!(d3.link_id, 9);
    assert!(d3.statement.unwrap().needs_server_prepare);
    let d4 = single.query(&plan).unwrap();
    assert!(!d4.statement.unwrap().needs_server_prepare);

    let batch = single.batch_execute(&String::from("SELECT 1; SELECT 2"));
    assert_eq!(batch.link_id, 9);
    assert_eq!(batch.statements, "SELECT 1; SELECT 2");
    let copy = single.copy_in(&String::from("COPY \"t\" FROM STDIN (FORMAT binary)"));
    assert_eq!(copy.statements, "COPY \"t\" FROM STDIN (FORMAT binary)");
}
