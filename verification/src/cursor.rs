//! The server-side cursor state machine: `Undeclared -> Declared ->
//! Closed`, batch fetches of a configured size, and idempotent
//! exhaustion.

use vstd::prelude::*;
use crate::codec::QueryParameter;
use crate::errors::{DriverError, ErrorKind};
use crate::sqltext::{
    close_chars, close_statement, declare_chars, declare_statement, fetch_chars, fetch_statement,
};

verus! {

/// The lifecycle state of a cursor.
#[derive(Clone, Copy, Debug, PartialEq, Eq, Structural)]
pub enum CursorState {
    Undeclared,
    Declared,
    Closed,
}

/// What one fetch call tells the embedder to run.
#[derive(Debug)]
pub enum FetchPlan {
    /// First fetch: declare the cursor, then fetch the first batch.
    DeclareAndFetch { declare: String, fetch: String },
    /// Later fetch: fetch the next batch.
    Fetch { fetch: String },
    /// The cursor is exhausted: no statement runs and no rows come.
    Empty,
}

/// A server-side cursor over a borrowed connection.
#[derive(Debug)]
pub struct Cursor {
    pub conn_id: u64,
    pub querystring: String,
    pub parameters: Vec<QueryParameter>,
    pub cursor_name: String,
    pub fetch_size: usize,
    pub scroll: Option<bool>,
    pub prepared: bool,
    pub state: CursorState,
    pub exhausted: bool,
}

impl Cursor {
    fn closed_error() -> (r: DriverError)
        ensures
            r.kind == ErrorKind::CursorState,
    {
        DriverError::new(
            ErrorKind::CursorState,
            String::from_str("cursor operation after the cursor was closed"),
        )
    }

    /// Plan the next fetch.  The first call declares the cursor; an
    /// exhausted cursor yields an empty batch without touching the
    /// server, so after exhaustion no further rows are ever produced;
    /// a closed cursor is a cursor-state error.
    pub fn fetch_next(&mut self) -> (r: Result<FetchPlan, DriverError>)
        ensures
            match r {
                Ok(plan) => {
                    &&& old(self).state != CursorState::Closed
                    &&& final(self).conn_id == old(self).conn_id
                    &&& final(self).cursor_name == old(self).cursor_name
                    &&& final(self).querystring == old(self).querystring
                    &&& final(self).parameters == old(self).parameters
                    &&& final(self).fetch_size == old(self).fetch_size
                    &&& final(self).scroll == old(self).scroll
                    &&& final(self).prepared == old(self).prepared
                    &&& final(self).exhausted == old(self).exhausted
                    &&& match plan {
                        FetchPlan::Empty => {
                            &&& old(self).exhausted
                            &&& final(self).state == old(self).state
                        },
                        FetchPlan::DeclareAndFetch { declare, fetch } => {
                            &&& !old(self).exhausted
                            &&& old(self).state == CursorState::Undeclared
                            &&& final(self).state == CursorState::Declared
                            &&& declare@ == declare_chars(
                                old(self).cursor_name@,
                                old(self).scroll,
                                old(self).querystring@,
                            )
                            &&& fetch@ == fetch_chars(
                                old(self).fetch_size as nat,
                                old(self).cursor_name@,
                            )
                        },
                        FetchPlan::Fetch { fetch } => {
                            &&& !old(self).exhausted
                            &&& old(self).state == CursorState::Declared
                            &&& final(self).state == CursorState::Declared
                            &&& fetch@ == fetch_chars(
                                old(self).fetch_size as nat,
                                old(self).cursor_name@,
                            )
                        },
                    }
                },
                Err(e) => {
                    &&& old(self).state == CursorState::Closed
                    &&& *final(self) == *old(self)
                    &&& e.kind == ErrorKind::CursorState
                },
            },
    {
        match self.state {
            CursorState::Closed => Err(Self::closed_error()),
            CursorState::Undeclared => {
                if self.exhausted {
                    return Ok(FetchPlan::Empty);
                }
                self.state = CursorState::Declared;
                let declare = declare_statement(&self.cursor_name, self.scroll, &self.querystring);
                let fetch = fetch_statement(self.fetch_size as u64, &self.cursor_name);
                Ok(FetchPlan::DeclareAndFetch { declare, fetch })
            },
            CursorState::Declared => {
                if self.exhausted {
                    return Ok(FetchPlan::Empty);
                }
                let fetch = fetch_statement(self.fetch_size as u64, &self.cursor_name);
                Ok(FetchPlan::Fetch { fetch })
            },
        }
    }

    /// Record how many rows the server returned for a batch.  A batch
    /// shorter than the fetch size, or an empty batch, signals
    /// exhaustion, which is permanent: once exhausted, always exhausted.
    pub fn record_batch(&mut self, row_count: usize)
        ensures
            final(self).exhausted == (old(self).exhausted || row_count < old(self).fetch_size
                || row_count == 0),
            final(self).state == old(self).state,
            final(self).conn_id == old(self).conn_id,
            final(self).cursor_name == old(self).cursor_name,
            final(self).querystring == old(self).querystring,
            final(self).parameters == old(self).parameters,
            final(self).fetch_size == old(self).fetch_size,
            final(self).scroll == old(self).scroll,
            final(self).prepared == old(self).prepared,
    {
        if row_count == 0 || row_count < self.fetch_size {
            self.exhausted = true;
        }
    }

    /// Close the cursor on scope exit.  An undeclared cursor closes
    /// silently; a declared one yields the CLOSE statement; closing a
    /// closed cursor is a cursor-state error.
    pub fn close(&mut self) -> (r: Result<Option<String>, DriverError>)
        ensures
            match r {
                Ok(stmt) => {
                    &&& old(self).state != CursorState::Closed
                    &&& final(self).state == CursorState::Closed
                    &&& match stmt {
                        Some(s) => old(self).state == CursorState::Declared && s@ == close_chars(
                            old(self).cursor_name@,
                        ),
                        None => old(self).state == CursorState::Undeclared,
                    }
                },
                Err(e) => {
                    &&& old(self).state == CursorState::Closed
                    &&& *final(self) == *old(self)
                    &&& e.kind == ErrorKind::CursorState
                },
            },
    {
        match self.state {
            CursorState::Closed => Err(Self::closed_error()),
            CursorState::Undeclared => {
                self.state = CursorState::Closed;
                Ok(None)
            },
            CursorState::Declared => {
                self.state = CursorState::Closed;
                Ok(Some(close_statement(&self.cursor_name)))
            },
        }
    }
}

} // verus!
