//! The statements and queries that the persistence layer hands to the
//! engine: what each one is, its SQL text and its positional parameters.

use vstd::prelude::*;
use crate::engine::{Param, ParamView};
use crate::thread::{optional_text, Text};

verus! {

pub const INSERT_CONVERSATION: &'static str =
    "INSERT INTO conversations (conversation_id, title) VALUES (?1, ?2)";

pub const INSERT_SCHEMA: &'static str =
    "INSERT INTO schemas (conversation_id, schema_sql, diagram) VALUES (?1, ?2, ?3)";

pub const INSERT_MESSAGE: &'static str =
    "INSERT INTO messages (message_id, conversation_id, sender, content) VALUES (?1, ?2, ?3, ?4)";

pub const UPDATE_TITLE: &'static str =
    "UPDATE conversations SET title = ?1, updated_at = CURRENT_TIMESTAMP WHERE conversation_id = ?2";

pub const UPDATE_DIAGRAM: &'static str =
    "UPDATE schemas SET diagram = ?1, updated_at = CURRENT_TIMESTAMP WHERE conversation_id = ?2";

pub const UPDATE_SCHEMA_SQL: &'static str =
    "UPDATE schemas SET schema_sql = ?1, updated_at = CURRENT_TIMESTAMP WHERE conversation_id = ?2";

pub const DELETE_MESSAGES: &'static str = "DELETE FROM messages WHERE conversation_id = ?1";

pub const DELETE_SCHEMA: &'static str = "DELETE FROM schemas WHERE conversation_id = ?1";

pub const DELETE_CONVERSATION: &'static str = "DELETE FROM conversations WHERE conversation_id = ?1";

pub const SELECT_THREAD: &'static str =
    "SELECT c.conversation_id, c.title, c.created_at, c.updated_at, \
COALESCE(s.schema_sql, ''), COALESCE(s.diagram, '') \
FROM conversations c \
LEFT JOIN schemas s ON c.conversation_id = s.conversation_id \
WHERE c.conversation_id = ?1";

pub const SELECT_MESSAGES: &'static str =
    "SELECT message_id, content, sender, created_at \
FROM messages \
WHERE conversation_id = ?1 \
ORDER BY created_at ASC, rowid ASC";

pub const SELECT_CONVERSATION_IDS: &'static str =
    "SELECT conversation_id FROM conversations ORDER BY updated_at DESC";

/// A statement that changes rows.
#[derive(Debug, Clone, PartialEq, Eq)]
pub enum Statement {
    InsertConversation { id: String, title: Option<String> },
    InsertSchema { id: String, schema_sql: String, diagram: String },
    InsertMessage { message_id: String, conversation_id: String, sender: i64, content: String },
    UpdateTitle { id: String, title: Option<String> },
    UpdateDiagram { id: String, diagram: String },
    UpdateSchemaSql { id: String, schema_sql: String },
    DeleteMessages { id: String },
    DeleteSchema { id: String },
    DeleteConversation { id: String },
}

/// Mathematical form of a [`Statement`].
pub enum StatementView {
    InsertConversation { id: Text, title: Option<Text> },
    InsertSchema { id: Text, schema_sql: Text, diagram: Text },
    InsertMessage { message_id: Text, conversation_id: Text, sender: int, content: Text },
    UpdateTitle { id: Text, title: Option<Text> },
    UpdateDiagram { id: Text, diagram: Text },
    UpdateSchemaSql { id: Text, schema_sql: Text },
    DeleteMessages { id: Text },
    DeleteSchema { id: Text },
    DeleteConversation { id: Text },
}

impl View for Statement {
    type V = StatementView;

    open spec fn view(&self) -> StatementView {
        match self {
            Statement::InsertConversation { id, title } => StatementView::InsertConversation {
                id: id@,
                title: optional_text(*title),
            },
            Statement::InsertSchema { id, schema_sql, diagram } => StatementView::InsertSchema {
                id: id@,
                schema_sql: schema_sql@,
                diagram: diagram@,
            },
            Statement::InsertMessage {
                message_id,
                conversation_id,
                sender,
                content,
            } => StatementView::InsertMessage {
                message_id: message_id@,
                conversation_id: conversation_id@,
                sender: *sender as int,
                content: content@,
            },
            Statement::UpdateTitle { id, title } => StatementView::UpdateTitle {
                id: id@,
                title: optional_text(*title),
            },
            Statement::UpdateDiagram { id, diagram } => StatementView::UpdateDiagram {
                id: id@,
                diagram: diagram@,
            },
            Statement::UpdateSchemaSql { id, schema_sql } => StatementView::UpdateSchemaSql {
                id: id@,
                schema_sql: schema_sql@,
            },
            Statement::DeleteMessages { id } => StatementView::DeleteMessages { id: id@ },
            Statement::DeleteSchema { id } => StatementView::DeleteSchema { id: id@ },
            Statement::DeleteConversation { id } => StatementView::DeleteConversation { id: id@ },
        }
    }
}

/// The statements of a vector, each in its mathematical form.
pub open spec fn statements_view(v: Seq<Statement>) -> Seq<StatementView> {
    Seq::new(v.len(), |i: int| v[i]@)
}

/// The parameters of a vector, each in its mathematical form.
pub open spec fn params_view(v: Seq<Param>) -> Seq<ParamView> {
    Seq::new(v.len(), |i: int| v[i]@)
}

/// The parameter that carries an optional text: NULL where there is none.
pub open spec fn optional_param(t: Option<Text>) -> ParamView {
    match t {
        Some(s) => ParamView::Text(s),
        None => ParamView::Null,
    }
}

impl StatementView {
    /// The SQL text of the statement.
    pub open spec fn sql_text(self) -> Text {
        match self {
            StatementView::InsertConversation { .. } => INSERT_CONVERSATION@,
            StatementView::InsertSchema { .. } => INSERT_SCHEMA@,
            StatementView::InsertMessage { .. } => INSERT_MESSAGE@,
            StatementView::UpdateTitle { .. } => UPDATE_TITLE@,
            StatementView::UpdateDiagram { .. } => UPDATE_DIAGRAM@,
            StatementView::UpdateSchemaSql { .. } => UPDATE_SCHEMA_SQL@,
            StatementView::DeleteMessages { .. } => DELETE_MESSAGES@,
            StatementView::DeleteSchema { .. } => DELETE_SCHEMA@,
            StatementView::DeleteConversation { .. } => DELETE_CONVERSATION@,
        }
    }

    /// The values bound to `?1`, `?2`, ... of the SQL text, in that order.
    pub open spec fn bound(self) -> Seq<ParamView> {
        match self {
            StatementView::InsertConversation { id, title } => seq![
                ParamView::Text(id),
                optional_param(title),
            ],
            StatementView::InsertSchema { id, schema_sql, diagram } => seq![
                ParamView::Text(id),
                ParamView::Text(schema_sql),
                ParamView::Text(diagram),
            ],
            StatementView::InsertMessage { message_id, conversation_id, sender, content } => seq![
                ParamView::Text(message_id),
                ParamView::Text(conversation_id),
                ParamView::Integer(sender),
                ParamView::Text(content),
            ],
            StatementView::UpdateTitle { id, title } => seq![
                optional_param(title),
                ParamView::Text(id),
            ],
            StatementView::UpdateDiagram { id, diagram } => seq![
                ParamView::Text(diagram),
                ParamView::Text(id),
            ],
            StatementView::UpdateSchemaSql { id, schema_sql } => seq![
                ParamView::Text(schema_sql),
                ParamView::Text(id),
            ],
            StatementView::DeleteMessages { id } => seq![ParamView::Text(id)],
            StatementView::DeleteSchema { id } => seq![ParamView::Text(id)],
            StatementView::DeleteConversation { id } => seq![ParamView::Text(id)],
        }
    }
}

/// The parameter that carries a text.
fn text_param(s: &String) -> (p: Param)
    ensures
        p@ == ParamView::Text(s@),
{
    Param::Text(s.clone())
}

/// The parameter that carries an optional text.
fn optional_text_param(s: &Option<String>) -> (p: Param)
    ensures
        p@ == optional_param(optional_text(*s)),
{
    match s {
        Some(t) => text_param(t),
        None => Param::Null,
    }
}

/// One parameter.
fn params1(a: Param) -> (v: Vec<Param>)
    ensures
        params_view(v@) == seq![a@],
{
    let mut v: Vec<Param> = Vec::new();
    v.push(a);
    assert(params_view(v@) =~= seq![a@]);
    v
}

/// Two parameters.
fn params2(a: Param, b: Param) -> (v: Vec<Param>)
    ensures
        params_view(v@) == seq![a@, b@],
{
    let mut v: Vec<Param> = Vec::new();
    v.push(a);
    v.push(b);
    assert(params_view(v@) =~= seq![a@, b@]);
    v
}

impl Statement {
    /// The SQL text of the statement.
    pub fn sql(&self) -> (sql: &'static str)
        ensures
            sql@ == self@.sql_text(),
    {
        match self {
            Statement::InsertConversation { .. } => INSERT_CONVERSATION,
            Statement::InsertSchema { .. } => INSERT_SCHEMA,
            Statement::InsertMessage { .. } => INSERT_MESSAGE,
            Statement::UpdateTitle { .. } => UPDATE_TITLE,
            Statement::UpdateDiagram { .. } => UPDATE_DIAGRAM,
            Statement::UpdateSchemaSql { .. } => UPDATE_SCHEMA_SQL,
            Statement::DeleteMessages { .. } => DELETE_MESSAGES,
            Statement::DeleteSchema { .. } => DELETE_SCHEMA,
            Statement::DeleteConversation { .. } => DELETE_CONVERSATION,
        }
    }

    /// The values bound to the positional parameters of the SQL text.
    pub fn params(&self) -> (params: Vec<Param>)
        ensures
            params_view(params@) == self@.bound(),
    {
        match self {
            Statement::InsertConversation { id, title } => params2(
                text_param(id),
                optional_text_param(title),
            ),
            Statement::InsertSchema { id, schema_sql, diagram } => {
                let mut v = params2(text_param(id), text_param(schema_sql));
                let ghost before = params_view(v@);
                v.push(text_param(diagram));
                assert(params_view(v@) =~= before.push(ParamView::Text(diagram@)));
                assert(params_view(v@) =~= self@.bound());
                v
            },
            Statement::InsertMessage { message_id, conversation_id, sender, content } => {
                let mut v = params2(text_param(message_id), text_param(conversation_id));
                let ghost before = params_view(v@);
                v.push(Param::Integer(*sender));
                v.push(text_param(content));
                assert(params_view(v@) =~= before.push(ParamView::Integer(*sender as int)).push(
                    ParamView::Text(content@),
                ));
                assert(params_view(v@) =~= self@.bound());
                v
            },
            Statement::UpdateTitle { id, title } => params2(
                optional_text_param(title),
                text_param(id),
            ),
            Statement::UpdateDiagram { id, diagram } => params2(text_param(diagram), text_param(id)),
            Statement::UpdateSchemaSql { id, schema_sql } => params2(
                text_param(schema_sql),
                text_param(id),
            ),
            Statement::DeleteMessages { id } => params1(text_param(id)),
            Statement::DeleteSchema { id } => params1(text_param(id)),
            Statement::DeleteConversation { id } => params1(text_param(id)),
        }
    }
}

/// A query that reads rows.
#[derive(Debug, Clone, PartialEq, Eq)]
pub enum Query {
    /// The conversation with this id, left-joined with its schema record.
    Thread { id: String },
    /// The messages of the conversation with this id, oldest first.
    Messages { id: String },
    /// The ids of all conversations, most recently updated first.
    ConversationIds,
}

/// Mathematical form of a [`Query`].
pub enum QueryView {
    Thread { id: Text },
    Messages { id: Text },
    ConversationIds,
}

impl View for Query {
    type V = QueryView;

    open spec fn view(&self) -> QueryView {
        match self {
            Query::Thread { id } => QueryView::Thread { id: id@ },
            Query::Messages { id } => QueryView::Messages { id: id@ },
            Query::ConversationIds => QueryView::ConversationIds,
        }
    }
}

impl QueryView {
    /// The SQL text of the query.
    pub open spec fn sql_text(self) -> Text {
        match self {
            QueryView::Thread { .. } => SELECT_THREAD@,
            QueryView::Messages { .. } => SELECT_MESSAGES@,
            QueryView::ConversationIds => SELECT_CONVERSATION_IDS@,
        }
    }

    /// The values bound to the positional parameters of the SQL text.
    pub open spec fn bound(self) -> Seq<ParamView> {
        match self {
            QueryView::Thread { id } => seq![ParamView::Text(id)],
            QueryView::Messages { id } => seq![ParamView::Text(id)],
            QueryView::ConversationIds => Seq::empty(),
        }
    }
}

impl Query {
    /// The SQL text of the query.
    pub fn sql(&self) -> (sql: &'static str)
        ensures
            sql@ == self@.sql_text(),
    {
        match self {
            Query::Thread { .. } => SELECT_THREAD,
            Query::Messages { .. } => SELECT_MESSAGES,
            Query::ConversationIds => SELECT_CONVERSATION_IDS,
        }
    }

    /// The values bound to the positional parameters of the SQL text.
    pub fn params(&self) -> (params: Vec<Param>)
        ensures
            params_view(params@) == self@.bound(),
    {
        match self {
            Query::Thread { id } => params1(text_param(id)),
            Query::Messages { id } => params1(text_param(id)),
            Query::ConversationIds => {
                let v: Vec<Param> = Vec::new();
                assert(params_view(v@) =~= Seq::empty());
                v
            },
        }
    }
}

} // verus!
