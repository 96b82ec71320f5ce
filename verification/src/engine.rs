//! The boundary to the embedded relational engine.
//!
//! Everything the engine does is reached through the functions of this module.
//! None of them promises anything about what the engine answers: a statement
//! may be refused, a query may return any rows. The rest of the library is
//! verified for every answer.

use vstd::prelude::*;

verus! {

/// `rusqlite::Connection`, an open connection to the engine. Opaque here.
#[verifier::external_type_specification]
#[verifier::external_body]
pub struct ExConnection(rusqlite::Connection);

/// `rusqlite::Transaction`, an open transaction scope on a connection. Opaque here.
#[verifier::external_type_specification]
#[verifier::external_body]
pub struct ExTransaction<'conn>(rusqlite::Transaction<'conn>);

/// `rusqlite::Error`, the engine's error. Opaque here.
#[verifier::external_type_specification]
#[verifier::external_body]
pub struct ExEngineError(rusqlite::Error);

/// `rusqlite::types::Value`, a dynamically typed value of the engine. Opaque here.
#[verifier::external_type_specification]
#[verifier::external_body]
pub struct ExEngineValue(rusqlite::types::Value);

/// A value bound to a positional parameter of a statement.
#[derive(Debug, Clone, PartialEq, Eq)]
pub enum Param {
    Null,
    Integer(i64),
    Text(String),
}

/// A value found in one column of a result row. A floating-point value is
/// reported by its kind alone.
#[derive(Debug, Clone, PartialEq, Eq)]
pub enum Cell {
    Null,
    Integer(i64),
    Real,
    Text(String),
    Blob(Vec<u8>),
}

/// Mathematical form of a [`Param`].
pub enum ParamView {
    Null,
    Integer(int),
    Text(Seq<char>),
}

impl View for Param {
    type V = ParamView;

    open spec fn view(&self) -> ParamView {
        match self {
            Param::Null => ParamView::Null,
            Param::Integer(i) => ParamView::Integer(*i as int),
            Param::Text(s) => ParamView::Text(s@),
        }
    }
}

/// Mathematical form of a [`Cell`].
pub enum CellView {
    Null,
    Integer(int),
    Real,
    Text(Seq<char>),
    Blob(Seq<u8>),
}

impl View for Cell {
    type V = CellView;

    open spec fn view(&self) -> CellView {
        match self {
            Cell::Null => CellView::Null,
            Cell::Integer(i) => CellView::Integer(*i as int),
            Cell::Real => CellView::Real,
            Cell::Text(s) => CellView::Text(s@),
            Cell::Blob(b) => CellView::Blob(b@),
        }
    }
}

/// Builds the `rusqlite::types::Value` that carries a parameter: `Null`,
/// `Integer` and `Text` go to the variants of the same name. Nothing is
/// claimed of the result.
#[verifier::external_body]
pub(crate) fn to_engine_value(p: &Param) -> (v: rusqlite::types::Value) {
    match p {
        Param::Null => rusqlite::types::Value::Null,
        Param::Integer(i) => rusqlite::types::Value::Integer(*i),
        Param::Text(s) => rusqlite::types::Value::Text(s.clone()),
    }
}

/// Reads a `rusqlite::types::Value` into a [`Cell`], variant by variant; the
/// number inside `Real` is left behind. Nothing is claimed of the result.
#[verifier::external_body]
pub(crate) fn from_engine_value(v: &rusqlite::types::Value) -> (c: Cell) {
    match v {
        rusqlite::types::Value::Null => Cell::Null,
        rusqlite::types::Value::Integer(i) => Cell::Integer(*i),
        rusqlite::types::Value::Real(_) => Cell::Real,
        rusqlite::types::Value::Text(s) => Cell::Text(s.clone()),
        rusqlite::types::Value::Blob(b) => Cell::Blob(b.clone()),
    }
}

/// The engine values that carry the parameters, in order.
pub(crate) fn bind(params: &Vec<Param>) -> (values: Vec<rusqlite::types::Value>)
    ensures
        values.len() == params.len(),
{
    let mut values: Vec<rusqlite::types::Value> = Vec::new();
    let mut i: usize = 0;
    while i < params.len()
        invariant
            i <= params.len(),
            values.len() == i,
        decreases params.len() - i,
    {
        values.push(to_engine_value(&params[i]));
        i += 1;
    }
    values
}

/// The cells of one result row, in the order of its columns.
pub(crate) fn read_row(row: &Vec<rusqlite::types::Value>) -> (cells: Vec<Cell>)
    ensures
        cells.len() == row.len(),
{
    let mut cells: Vec<Cell> = Vec::new();
    let mut i: usize = 0;
    while i < row.len()
        invariant
            i <= row.len(),
            cells.len() == i,
        decreases row.len() - i,
    {
        cells.push(from_engine_value(&row[i]));
        i += 1;
    }
    cells
}

/// The cells of the result rows, in the order of the rows.
pub(crate) fn read_rows(rows: &Vec<Vec<rusqlite::types::Value>>) -> (cells: Vec<Vec<Cell>>)
    ensures
        cells.len() == rows.len(),
{
    let mut cells: Vec<Vec<Cell>> = Vec::new();
    let mut i: usize = 0;
    while i < rows.len()
        invariant
            i <= rows.len(),
            cells.len() == i,
        decreases rows.len() - i,
    {
        cells.push(read_row(&rows[i]));
        i += 1;
    }
    cells
}

/// `rusqlite::Connection::open`: opens the database file at `path`, creating
/// it if it is absent. Nothing is claimed of the outcome.
#[verifier::external_body]
pub(crate) fn engine_open(path: &str) -> (r: Result<rusqlite::Connection, rusqlite::Error>) {
    rusqlite::Connection::open(path)
}

/// `rusqlite::Connection::open_in_memory`: opens a fresh database that lives
/// in memory. Nothing is claimed of the outcome.
#[verifier::external_body]
pub(crate) fn engine_open_in_memory() -> (r: Result<rusqlite::Connection, rusqlite::Error>) {
    rusqlite::Connection::open_in_memory()
}

/// `rusqlite::Connection::execute_batch`: runs the statements of `sql`, which
/// take no parameters, one after another. Nothing is claimed of the outcome.
#[verifier::external_body]
pub(crate) fn engine_batch(conn: &rusqlite::Connection, sql: &str) -> (r: Result<(), rusqlite::Error>) {
    conn.execute_batch(sql)
}

/// `rusqlite::Connection::transaction`: opens a transaction scope. Nothing is
/// claimed of the outcome.
#[verifier::external_body]
pub(crate) fn engine_begin<'conn>(conn: &'conn mut rusqlite::Connection) -> (r: Result<
    rusqlite::Transaction<'conn>,
    rusqlite::Error,
>) {
    conn.transaction()
}

/// `rusqlite::Connection::execute`, reached through the scope: prepares `sql`,
/// binds `values` by position and runs it. Nothing is claimed of the outcome.
#[verifier::external_body]
pub(crate) fn engine_execute(
    tx: &rusqlite::Transaction<'_>,
    sql: &str,
    values: &Vec<rusqlite::types::Value>,
) -> (r: Result<usize, rusqlite::Error>) {
    tx.execute(sql, rusqlite::params_from_iter(values.iter()))
}

/// `rusqlite::Transaction::commit`: ends the scope by committing. Nothing is
/// claimed of the outcome.
#[verifier::external_body]
pub(crate) fn engine_commit(tx: rusqlite::Transaction<'_>) -> (r: Result<(), rusqlite::Error>) {
    tx.commit()
}

/// `rusqlite::Transaction::rollback`: ends the scope by rolling back. Nothing
/// is claimed of the outcome.
#[verifier::external_body]
pub(crate) fn engine_rollback(tx: rusqlite::Transaction<'_>) -> (r: Result<(), rusqlite::Error>) {
    tx.rollback()
}

/// `rusqlite::Statement::query_map` on the statement that
/// `rusqlite::Connection::prepare` makes of `sql`, with `values` bound by
/// position: every result row, each as the values of all its columns.
/// Nothing is claimed of the outcome.
#[verifier::external_body]
pub(crate) fn engine_query(
    conn: &rusqlite::Connection,
    sql: &str,
    values: &Vec<rusqlite::types::Value>,
) -> (r: Result<Vec<Vec<rusqlite::types::Value>>, rusqlite::Error>) {
    let mut stmt = conn.prepare(sql)?;
    let width = stmt.column_count();
    let rows = stmt.query_map(
        rusqlite::params_from_iter(values.iter()),
        |row| (0..width).map(|i| row.get(i)).collect(),
    )?;
    rows.collect()
}

/// `uuid::Uuid::new_v4`, written out as `Display` writes it: a random
/// identifier in its hyphenated form, which is 36 characters long whatever
/// the random bits are.
#[verifier::external_body]
pub(crate) fn fresh_id() -> (id: String)
    ensures
        id@.len() == 36,
{
    uuid::Uuid::new_v4().to_string()
}

/// The engine's own description of an error.
pub(crate) fn engine_error_text(e: &rusqlite::Error) -> (text: String)
    ensures
        vstd::string::to_string_from_display_ensures::<rusqlite::Error>(e, text),
{
    e.to_string()
}

} // verus!
