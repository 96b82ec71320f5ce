//! The write side of the aggregate mapper: the statements, in order, that
//! each write operation runs inside one transaction scope.

use vstd::prelude::*;
use crate::statement::{statements_view, Statement, StatementView};
use crate::thread::{
    copy_optional, messages_view, optional_text, sender_code, sender_code_of, Message, MessageView,
    Text,
};

verus! {

/// The statement that stores one message of the conversation `id`. The role
/// is stored as its sender-type code; the message's timestamp and diagram
/// are not stored.
pub open spec fn message_insert(id: Text, m: MessageView) -> StatementView {
    StatementView::InsertMessage {
        message_id: m.id,
        conversation_id: id,
        sender: sender_code_of(m.role),
        content: m.message,
    }
}

/// One insert per message, in the order of the log.
pub open spec fn message_inserts(id: Text, log: Seq<MessageView>) -> Seq<StatementView> {
    Seq::new(log.len(), |i: int| message_insert(id, log[i]))
}

/// The statements that create a thread: the conversation row, the schema
/// record, then one insert per message.
pub open spec fn creation_plan(
    id: Text,
    title: Option<Text>,
    diagram: Text,
    schema_sql: Text,
    log: Seq<MessageView>,
) -> Seq<StatementView> {
    seq![
        StatementView::InsertConversation { id, title },
        StatementView::InsertSchema { id, schema_sql, diagram },
    ] + message_inserts(id, log)
}

/// The statements by which an update sets a title, if one is given. The
/// title that is given may be none: it is then set to NULL.
pub open spec fn title_update(id: Text, title: Option<Option<Text>>) -> Seq<StatementView> {
    match title {
        Some(t) => seq![StatementView::UpdateTitle { id, title: t }],
        None => Seq::empty(),
    }
}

/// The statements by which an update sets a diagram, if one is given.
pub open spec fn diagram_update(id: Text, diagram: Option<Text>) -> Seq<StatementView> {
    match diagram {
        Some(d) => seq![StatementView::UpdateDiagram { id, diagram: d }],
        None => Seq::empty(),
    }
}

/// The statements by which an update sets the schema SQL, if one is given.
pub open spec fn schema_sql_update(id: Text, schema_sql: Option<Text>) -> Seq<StatementView> {
    match schema_sql {
        Some(s) => seq![StatementView::UpdateSchemaSql { id, schema_sql: s }],
        None => Seq::empty(),
    }
}

/// The statements by which an update replaces the message log, if one is
/// given: every stored message of the conversation is deleted, then the
/// given ones are inserted.
pub open spec fn log_replacement(id: Text, log: Option<Seq<MessageView>>) -> Seq<StatementView> {
    match log {
        Some(l) => seq![StatementView::DeleteMessages { id }] + message_inserts(id, l),
        None => Seq::empty(),
    }
}

/// The statements that update a thread. Each part is there only if its
/// argument is given, in the order title, diagram, schema SQL, messages.
pub open spec fn update_plan(
    id: Text,
    title: Option<Option<Text>>,
    diagram: Option<Text>,
    schema_sql: Option<Text>,
    log: Option<Seq<MessageView>>,
) -> Seq<StatementView> {
    title_update(id, title) + diagram_update(id, diagram) + schema_sql_update(id, schema_sql)
        + log_replacement(id, log)
}

/// The statements that delete a thread: its messages, then its schema
/// record, then its conversation row.
pub open spec fn deletion_plan(id: Text) -> Seq<StatementView> {
    seq![
        StatementView::DeleteMessages { id },
        StatementView::DeleteSchema { id },
        StatementView::DeleteConversation { id },
    ]
}

/// The title inside an argument that may be absent, and may be given as
/// none.
pub open spec fn optional_title(title: Option<Option<String>>) -> Option<Option<Text>> {
    match title {
        Some(t) => Some(optional_text(t)),
        None => None,
    }
}

/// The message log inside an optional vector.
pub open spec fn optional_log(log: Option<Vec<Message>>) -> Option<Seq<MessageView>> {
    match log {
        Some(l) => Some(messages_view(l@)),
        None => None,
    }
}

/// Appends one statement.
fn push_statement(plan: &mut Vec<Statement>, s: Statement)
    ensures
        statements_view(final(plan)@) == statements_view(old(plan)@).push(s@),
{
    plan.push(s);
    assert(statements_view(plan@) =~= statements_view(old(plan)@).push(s@));
}

/// Appends the inserts of a message log.
fn push_message_inserts(plan: &mut Vec<Statement>, chat_id: &String, conversation: &Vec<Message>)
    ensures
        statements_view(final(plan)@) == statements_view(old(plan)@) + message_inserts(
            chat_id@,
            messages_view(conversation@),
        ),
{
    let ghost start = statements_view(plan@);
    let ghost inserts = message_inserts(chat_id@, messages_view(conversation@));
    let mut i: usize = 0;
    assert(statements_view(plan@) =~= start + inserts.take(0));
    while i < conversation.len()
        invariant
            i <= conversation.len(),
            inserts == message_inserts(chat_id@, messages_view(conversation@)),
            statements_view(plan@) == start + inserts.take(i as int),
        decreases conversation.len() - i,
    {
        let m = &conversation[i];
        let s = Statement::InsertMessage {
            message_id: m.id.clone(),
            conversation_id: chat_id.clone(),
            sender: sender_code(m.role.as_str()),
            content: m.message.clone(),
        };
        assert(s@ == inserts[i as int]);
        push_statement(plan, s);
        assert(start + inserts.take(i + 1) =~= (start + inserts.take(i as int)).push(inserts[i as int]));
        i += 1;
    }
    assert(inserts.take(i as int) =~= inserts);
}

/// The statements that create a thread.
pub fn plan_creation(
    chat_id: &String,
    title: &Option<String>,
    diagram: &String,
    schema_sql: &String,
    conversation: &Vec<Message>,
) -> (plan: Vec<Statement>)
    ensures
        statements_view(plan@) == creation_plan(
            chat_id@,
            optional_text(*title),
            diagram@,
            schema_sql@,
            messages_view(conversation@),
        ),
{
    let mut plan: Vec<Statement> = Vec::new();
    assert(statements_view(plan@) =~= Seq::empty());
    push_statement(
        &mut plan,
        Statement::InsertConversation { id: chat_id.clone(), title: copy_optional(title) },
    );
    push_statement(
        &mut plan,
        Statement::InsertSchema {
            id: chat_id.clone(),
            schema_sql: schema_sql.clone(),
            diagram: diagram.clone(),
        },
    );
    assert(statements_view(plan@) =~= seq![
        StatementView::InsertConversation { id: chat_id@, title: optional_text(*title) },
        StatementView::InsertSchema { id: chat_id@, schema_sql: schema_sql@, diagram: diagram@ },
    ]);
    push_message_inserts(&mut plan, chat_id, conversation);
    plan
}

/// The statements that update a thread.
pub fn plan_update(
    chat_id: &String,
    title: &Option<Option<String>>,
    diagram: &Option<String>,
    schema_sql: &Option<String>,
    conversation: &Option<Vec<Message>>,
) -> (plan: Vec<Statement>)
    ensures
        statements_view(plan@) == update_plan(
            chat_id@,
            optional_title(*title),
            optional_text(*diagram),
            optional_text(*schema_sql),
            optional_log(*conversation),
        ),
{
    let ghost id = chat_id@;
    let mut plan: Vec<Statement> = Vec::new();
    assert(statements_view(plan@) =~= Seq::empty());
    if let Some(t) = title {
        push_statement(
            &mut plan,
            Statement::UpdateTitle { id: chat_id.clone(), title: copy_optional(t) },
        );
    }
    assert(statements_view(plan@) =~= title_update(id, optional_title(*title)));
    if let Some(d) = diagram {
        push_statement(&mut plan, Statement::UpdateDiagram { id: chat_id.clone(), diagram: d.clone() });
    }
    assert(statements_view(plan@) =~= title_update(id, optional_title(*title)) + diagram_update(
        id,
        optional_text(*diagram),
    ));
    if let Some(s) = schema_sql {
        push_statement(
            &mut plan,
            Statement::UpdateSchemaSql { id: chat_id.clone(), schema_sql: s.clone() },
        );
    }
    let ghost before_log = title_update(id, optional_title(*title)) + diagram_update(
        id,
        optional_text(*diagram),
    ) + schema_sql_update(id, optional_text(*schema_sql));
    assert(statements_view(plan@) =~= before_log);
    if let Some(messages) = conversation {
        push_statement(&mut plan, Statement::DeleteMessages { id: chat_id.clone() });
        push_message_inserts(&mut plan, chat_id, messages);
        assert(statements_view(plan@) =~= before_log + log_replacement(
            id,
            optional_log(*conversation),
        ));
    } else {
        assert(statements_view(plan@) =~= before_log + log_replacement(
            id,
            optional_log(*conversation),
        ));
    }
    plan
}

/// The statements that delete a thread.
pub fn plan_deletion(chat_id: &String) -> (plan: Vec<Statement>)
    ensures
        statements_view(plan@) == deletion_plan(chat_id@),
{
    let mut plan: Vec<Statement> = Vec::new();
    plan.push(Statement::DeleteMessages { id: chat_id.clone() });
    plan.push(Statement::DeleteSchema { id: chat_id.clone() });
    plan.push(Statement::DeleteConversation { id: chat_id.clone() });
    assert(statements_view(plan@) =~= deletion_plan(chat_id@));
    plan
}

} // verus!
