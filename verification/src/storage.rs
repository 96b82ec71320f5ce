//! The storage handle: the one owner of the connection to the engine.

use vstd::prelude::*;
use crate::engine::{
    bind, engine_batch, engine_begin, engine_commit, engine_error_text, engine_execute,
    engine_open, engine_open_in_memory, engine_query, engine_rollback, read_rows, Cell,
};
use crate::error::{StoreError, StoreErrorView};
use crate::journal::{extends_by_one, ran_scope, Answer, Exchange, Scope, ScopeEnd};
use crate::mapper::rows_view;
use crate::statement::{statements_view, Query, Statement, StatementView};
use crate::thread::Text;

verus! {

/// The file that holds the store when no other path is given.
pub const DATABASE_PATH: &'static str = "test.db";

/// The statements that create the four tables, each only if it is absent,
/// and enter the two sender types.
pub const BOOTSTRAP: &'static str =
    "CREATE TABLE IF NOT EXISTS sender_types (\
sender_type_id INTEGER PRIMARY KEY, \
description TEXT NOT NULL); \
INSERT OR IGNORE INTO sender_types (sender_type_id, description) \
VALUES (1, 'user'), (2, 'assistant'); \
CREATE TABLE IF NOT EXISTS conversations (\
conversation_id TEXT PRIMARY KEY, \
title TEXT, \
created_at TEXT NOT NULL DEFAULT CURRENT_TIMESTAMP, \
updated_at TEXT NOT NULL DEFAULT CURRENT_TIMESTAMP); \
CREATE TABLE IF NOT EXISTS schemas (\
conversation_id TEXT PRIMARY KEY, \
schema_sql TEXT NOT NULL DEFAULT '', \
diagram TEXT NOT NULL DEFAULT '', \
updated_at TEXT NOT NULL DEFAULT CURRENT_TIMESTAMP, \
FOREIGN KEY(conversation_id) REFERENCES conversations(conversation_id)); \
CREATE TABLE IF NOT EXISTS messages (\
message_id TEXT PRIMARY KEY, \
conversation_id TEXT NOT NULL, \
sender INTEGER NOT NULL, \
content TEXT NOT NULL, \
created_at TEXT NOT NULL DEFAULT CURRENT_TIMESTAMP, \
FOREIGN KEY(sender) REFERENCES sender_types(sender_type_id), \
FOREIGN KEY(conversation_id) REFERENCES conversations(conversation_id));";

/// The result of a write operation as contracts see it.
pub open spec fn write_result_view(r: Result<(), StoreError>) -> Result<(), StoreErrorView> {
    match r {
        Ok(()) => Ok(()),
        Err(e) => Err(e@),
    }
}

/// The answer to a query as contracts see it.
pub open spec fn answer_view(r: Result<Vec<Vec<Cell>>, String>) -> Answer {
    match r {
        Ok(rows) => Ok(rows_view(rows@)),
        Err(t) => Err(t@),
    }
}

/// What bootstrap returns for the engine's answer to the batch.
pub open spec fn bootstrap_result(refusal: Option<Text>) -> Result<(), StoreErrorView> {
    match refusal {
        None => Ok(()),
        Some(t) => Err(StoreErrorView::StorageInit(t)),
    }
}

/// A connection to the store, with the path that the engine was given to
/// open it and the record of every exchange made over it since.
pub struct StorageHandle {
    conn: rusqlite::Connection,
    opened: Ghost<Option<Text>>,
    journal: Ghost<Seq<Exchange>>,
}

impl StorageHandle {
    /// The path that the engine was given when it opened the store, and
    /// `None` for a store that lives in memory.
    pub closed spec fn opened_at(&self) -> Option<Text> {
        self.opened@
    }

    /// Every exchange made over this handle, oldest first.
    pub closed spec fn journal(&self) -> Seq<Exchange> {
        self.journal@
    }

    /// Opens the store in the file at `path`: the engine is handed `path`
    /// as it is, and creates the file if it is absent. A failure is a
    /// `StorageInit` error that carries the engine's description.
    pub fn open(path: &str) -> (r: Result<StorageHandle, StoreError>)
        ensures
            r matches Ok(h) ==> h.opened_at() == Some(path@) && h.journal() == Seq::<
                Exchange,
            >::empty(),
            r matches Err(e) ==> e is StorageInit,
    {
        match engine_open(path) {
            Ok(conn) => Ok(
                StorageHandle { conn, opened: Ghost(Some(path@)), journal: Ghost(Seq::empty()) },
            ),
            Err(e) => Err(StoreError::StorageInit(engine_error_text(&e))),
        }
    }

    /// Opens a fresh store that lives in memory and is gone when the handle
    /// is dropped.
    pub fn open_in_memory() -> (r: Result<StorageHandle, StoreError>)
        ensures
            r matches Ok(h) ==> h.opened_at() is None && h.journal() == Seq::<Exchange>::empty(),
            r matches Err(e) ==> e is StorageInit,
    {
        match engine_open_in_memory() {
            Ok(conn) => Ok(
                StorageHandle { conn, opened: Ghost(None), journal: Ghost(Seq::empty()) },
            ),
            Err(e) => Err(StoreError::StorageInit(engine_error_text(&e))),
        }
    }

    /// Creates the tables that are absent. It hands the engine one batch,
    /// the text of [`BOOTSTRAP`], and may be called on every start.
    pub fn bootstrap(&mut self) -> (r: Result<(), StoreError>)
        ensures
            final(self).opened_at() == old(self).opened_at(),
            extends_by_one(old(self).journal(), final(self).journal()),
            final(self).journal().last() matches Exchange::Batch { sql, refusal } && sql
                == BOOTSTRAP@ && write_result_view(r) == bootstrap_result(refusal),
    {
        let ghost before = self.journal@;
        match engine_batch(&self.conn, BOOTSTRAP) {
            Ok(()) => {
                self.journal = Ghost(before.push(Exchange::Batch { sql: BOOTSTRAP@, refusal: None }));
                assert(self.journal@.drop_last() =~= before);
                Ok(())
            },
            Err(e) => {
                let text = engine_error_text(&e);
                self.journal = Ghost(
                    before.push(Exchange::Batch { sql: BOOTSTRAP@, refusal: Some(text@) }),
                );
                assert(self.journal@.drop_last() =~= before);
                Err(StoreError::StorageInit(text))
            },
        }
    }

    /// Runs `plan` inside one transaction scope: opens the scope, hands the
    /// statements over one by one, and commits after the last. At the first
    /// refusal it rolls the scope back and hands over nothing more.
    pub fn run_scope(&mut self, plan: &Vec<Statement>) -> (r: Result<(), StoreError>)
        ensures
            final(self).opened_at() == old(self).opened_at(),
            ran_scope(
                old(self).journal(),
                final(self).journal(),
                statements_view(plan@),
                write_result_view(r),
            ),
    {
        let ghost before = self.journal@;
        let ghost all = statements_view(plan@);
        let ghost mut handed: Seq<StatementView> = Seq::empty();
        let ghost end: ScopeEnd;
        let result: Result<(), StoreError>;
        match engine_begin(&mut self.conn) {
            Err(e) => {
                let text = engine_error_text(&e);
                proof {
                    end = ScopeEnd::NotOpened(text@);
                }
                result = Err(StoreError::WriteFailed(text));
            },
            Ok(tx) => {
                let mut refused: Option<String> = None;
                let mut i: usize = 0;
                while i < plan.len() && refused.is_none()
                    invariant
                        i <= plan.len(),
                        all == statements_view(plan@),
                        handed == all.take(i as int),
                        refused is Some ==> i >= 1,
                    decreases plan.len() - i + (if refused is None { 1int } else { 0int }),
                {
                    let answer = engine_execute(&tx, plan[i].sql(), &bind(&plan[i].params()));
                    proof {
                        handed = handed.push(plan[i as int]@);
                        assert(handed =~= all.take(i + 1));
                    }
                    if let Err(e) = answer {
                        refused = Some(engine_error_text(&e));
                    }
                    i += 1;
                }
                match refused {
                    Some(text) => {
                        let _ = engine_rollback(tx);
                        proof {
                            end = ScopeEnd::RolledBack(text@);
                        }
                        result = Err(StoreError::WriteFailed(text));
                    },
                    None => {
                        assert(handed =~= all);
                        match engine_commit(tx) {
                            Ok(()) => {
                                proof {
                                    end = ScopeEnd::Committed;
                                }
                                result = Ok(());
                            },
                            Err(e) => {
                                let text = engine_error_text(&e);
                                proof {
                                    end = ScopeEnd::CommitRefused(text@);
                                }
                                result = Err(StoreError::WriteFailed(text));
                            },
                        }
                    },
                }
            },
        }
        self.journal = Ghost(before.push(Exchange::Scope(Scope { statements: handed, end })));
        assert(self.journal@.drop_last() =~= before);
        result
    }

    /// Hands one query to the engine and returns its answer: the rows, or
    /// the engine's description of its refusal.
    pub fn ask(&mut self, query: &Query) -> (r: Result<Vec<Vec<Cell>>, String>)
        ensures
            final(self).opened_at() == old(self).opened_at(),
            extends_by_one(old(self).journal(), final(self).journal()),
            final(self).journal().last() == (Exchange::Query {
                query: query@,
                answer: answer_view(r),
            }),
    {
        let ghost before = self.journal@;
        let r = match engine_query(&self.conn, query.sql(), &bind(&query.params())) {
            Ok(rows) => Ok(read_rows(&rows)),
            Err(e) => Err(engine_error_text(&e)),
        };
        self.journal = Ghost(before.push(Exchange::Query { query: query@, answer: answer_view(r) }));
        assert(self.journal@.drop_last() =~= before);
        r
    }
}

/// Opens the store in the file [`DATABASE_PATH`], which the engine creates
/// if it is absent.
pub fn database_conection() -> (r: Result<StorageHandle, StoreError>)
    ensures
        r matches Ok(h) ==> h.opened_at() == Some(DATABASE_PATH@) && h.journal() == Seq::<
            Exchange,
        >::empty(),
        r matches Err(e) ==> e is StorageInit,
{
    StorageHandle::open(DATABASE_PATH)
}

/// Creates the tables of the store that are absent.
pub fn initialize_database(store: &mut StorageHandle) -> (r: Result<(), StoreError>)
    ensures
        final(store).opened_at() == old(store).opened_at(),
        extends_by_one(old(store).journal(), final(store).journal()),
        final(store).journal().last() matches Exchange::Batch { sql, refusal } && sql == BOOTSTRAP@
            && write_result_view(r) == bootstrap_result(refusal),
{
    store.bootstrap()
}

} // verus!
