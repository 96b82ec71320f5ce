//! The schema catalog as mathematics: what the three tables hold, what each
//! statement does to them, and what each query returns from them.
//!
//! This is the reading of the catalog that the operations are designed
//! against. The engine is not proved to follow it; the laws of this library
//! are theorems about the operations' plans under this reading.

use vstd::prelude::*;
use crate::engine::CellView;
use crate::error::StoreErrorView;
use crate::journal::{Exchange, Scope};
use crate::mapper::with_conversation;
use crate::protocol::{base_of_answer, log_of_answer};
use crate::statement::{QueryView, StatementView};
use crate::thread::{role_of_code, sender_code_of, MessageView, Text, ThreadView};

verus! {

/// A row of `conversations`, without its key.
pub struct ConversationRow {
    pub title: Option<Text>,
    pub created_at: Text,
    pub updated_at: Text,
}

/// A row of `schemas`, without its key.
pub struct SchemaRow {
    pub schema_sql: Text,
    pub diagram: Text,
    pub updated_at: Text,
}

/// A row of `messages`, without the conversation it belongs to.
pub struct MessageRow {
    pub message_id: Text,
    pub sender: int,
    pub content: Text,
    pub created_at: Text,
}

/// What the three tables hold. `conversations` and `schemas` are keyed by
/// conversation id, their primary key. `messages` holds, for each
/// conversation id, the rows that carry it, in the order in which they were
/// inserted.
pub struct Tables {
    pub conversations: Map<Text, ConversationRow>,
    pub schemas: Map<Text, SchemaRow>,
    pub messages: Map<Text, Seq<MessageRow>>,
}

/// The cell of a text that may be absent.
pub open spec fn optional_cell(t: Option<Text>) -> CellView {
    match t {
        Some(s) => CellView::Text(s),
        None => CellView::Null,
    }
}

/// The order in which the engine compares two texts: character by
/// character, a text before every longer text that begins with it.
pub open spec fn text_le(a: Text, b: Text) -> bool
    decreases a.len(),
{
    if a.len() == 0 {
        true
    } else if b.len() == 0 {
        false
    } else if a[0] == b[0] {
        text_le(a.skip(1), b.skip(1))
    } else {
        (a[0] as int) < (b[0] as int)
    }
}

/// Whether the engine returns the row at position `i` of a log before the
/// one at position `j`, or `i` is `j`: the row at `i` was not created
/// later, and was not inserted later if both were created at the same time.
pub open spec fn reads_before(log: Seq<MessageRow>, i: int, j: int) -> bool {
    &&& text_le(log[i].created_at, log[j].created_at)
    &&& log[i].created_at == log[j].created_at ==> i <= j
}

/// Whether `order` may be the order in which the engine returns the rows of
/// a log: it gives a position of the log for every place of the answer, and
/// what stands at an earlier place is read before what stands at a later.
pub open spec fn is_reading_order(log: Seq<MessageRow>, order: Seq<int>) -> bool {
    &&& order.len() == log.len()
    &&& forall|k: int| 0 <= k < order.len() ==> 0 <= #[trigger] order[k] < log.len()
    &&& forall|a: int, b: int|
        0 <= a < b < order.len() ==> #[trigger] order[a] != #[trigger] order[b] && reads_before(
            log,
            order[a],
            order[b],
        )
}

/// The result rows of the message query for a log that the engine reads in
/// this order.
pub open spec fn rows_in_order(log: Seq<MessageRow>, order: Seq<int>) -> Seq<Seq<CellView>> {
    Seq::new(order.len(), |k: int| message_cells(log[order[k]]))
}

/// Whether no row of a log was created before one that was inserted
/// earlier.
pub open spec fn in_time_order(log: Seq<MessageRow>) -> bool {
    forall|i: int, j: int|
        0 <= i <= j < log.len() ==> text_le(
            (#[trigger] log[i]).created_at,
            (#[trigger] log[j]).created_at,
        )
}

/// The result rows of the id query for these ids.
pub open spec fn id_rows(ids: Seq<Text>) -> Seq<Seq<CellView>> {
    Seq::new(ids.len(), |i: int| seq![CellView::Text(ids[i])])
}

/// The result row of the message query for a row of `messages`.
pub open spec fn message_cells(m: MessageRow) -> Seq<CellView> {
    seq![
        CellView::Text(m.message_id),
        CellView::Text(m.content),
        CellView::Integer(m.sender),
        CellView::Text(m.created_at),
    ]
}

impl Tables {
    /// The message rows of a conversation, in the order of insertion.
    pub open spec fn log(self, id: Text) -> Seq<MessageRow> {
        if self.messages.dom().contains(id) {
            self.messages[id]
        } else {
            Seq::empty()
        }
    }

    /// Whether some message row has this message id, the primary key of
    /// `messages`.
    pub open spec fn has_message(self, message_id: Text) -> bool {
        exists|c: Text, i: int|
            0 <= i < self.log(c).len() && #[trigger] self.log(c)[i].message_id == message_id
    }

    /// Referential integrity: every conversation has its schema record,
    /// every schema record and every message belongs to a conversation.
    pub open spec fn wf(self) -> bool {
        &&& self.schemas.dom() == self.conversations.dom()
        &&& forall|c: Text| #[trigger] self.log(c).len() > 0 ==> self.conversations.dom().contains(c)
    }

    /// What one statement, run at the time `now`, makes of the tables, or
    /// `None` where the primary key of the row to insert is taken and the
    /// statement is refused. An update or a delete that matches no row
    /// changes nothing and is not refused. Foreign keys are left out:
    /// whether the engine enforces them is open, and an engine that does
    /// refuses more statements and does the same with those it accepts.
    pub open spec fn apply(self, s: StatementView, now: Text) -> Option<Tables> {
        match s {
            StatementView::InsertConversation { id, title } => {
                if self.conversations.dom().contains(id) {
                    None
                } else {
                    Some(
                        Tables {
                            conversations: self.conversations.insert(
                                id,
                                ConversationRow { title, created_at: now, updated_at: now },
                            ),
                            ..self
                        },
                    )
                }
            },
            StatementView::InsertSchema { id, schema_sql, diagram } => {
                if self.schemas.dom().contains(id) {
                    None
                } else {
                    Some(
                        Tables {
                            schemas: self.schemas.insert(
                                id,
                                SchemaRow { schema_sql, diagram, updated_at: now },
                            ),
                            ..self
                        },
                    )
                }
            },
            StatementView::InsertMessage { message_id, conversation_id, sender, content } => {
                if self.has_message(message_id) {
                    None
                } else {
                    Some(
                        Tables {
                            messages: self.messages.insert(
                                conversation_id,
                                self.log(conversation_id).push(
                                    MessageRow { message_id, sender, content, created_at: now },
                                ),
                            ),
                            ..self
                        },
                    )
                }
            },
            StatementView::UpdateTitle { id, title } => {
                if self.conversations.dom().contains(id) {
                    Some(
                        Tables {
                            conversations: self.conversations.insert(
                                id,
                                ConversationRow {
                                    title,
                                    updated_at: now,
                                    ..self.conversations[id]
                                },
                            ),
                            ..self
                        },
                    )
                } else {
                    Some(self)
                }
            },
            StatementView::UpdateDiagram { id, diagram } => {
                if self.schemas.dom().contains(id) {
                    Some(
                        Tables {
                            schemas: self.schemas.insert(
                                id,
                                SchemaRow { diagram, updated_at: now, ..self.schemas[id] },
                            ),
                            ..self
                        },
                    )
                } else {
                    Some(self)
                }
            },
            StatementView::UpdateSchemaSql { id, schema_sql } => {
                if self.schemas.dom().contains(id) {
                    Some(
                        Tables {
                            schemas: self.schemas.insert(
                                id,
                                SchemaRow { schema_sql, updated_at: now, ..self.schemas[id] },
                            ),
                            ..self
                        },
                    )
                } else {
                    Some(self)
                }
            },
            StatementView::DeleteMessages { id } => Some(
                Tables { messages: self.messages.remove(id), ..self },
            ),
            StatementView::DeleteSchema { id } => Some(
                Tables { schemas: self.schemas.remove(id), ..self },
            ),
            StatementView::DeleteConversation { id } => Some(
                Tables { conversations: self.conversations.remove(id), ..self },
            ),
        }
    }

    /// What the statements of `plan`, run one after another, make of the
    /// tables, or `None` where one of them is refused. The statement at
    /// position `k` runs at the time `times[k]`.
    pub open spec fn run(self, plan: Seq<StatementView>, times: Seq<Text>) -> Option<Tables>
        decreases plan.len(),
    {
        if plan.len() == 0 {
            Some(self)
        } else {
            match self.run(plan.drop_last(), times) {
                None => None,
                Some(t) => t.apply(plan.last(), times[plan.len() - 1]),
            }
        }
    }

    /// What a transaction scope makes of the tables: what its statements
    /// make of them if it was committed, and nothing otherwise.
    pub open spec fn after_scope(self, scope: Scope, times: Seq<Text>) -> Tables {
        if scope.committed() {
            match self.run(scope.statements, times) {
                Some(t) => t,
                None => self,
            }
        } else {
            self
        }
    }

    /// The result rows of the thread query: none if no conversation has the
    /// id, else the one row of the conversation joined with its schema
    /// record, with empty texts where it has none.
    pub open spec fn thread_rows(self, id: Text) -> Seq<Seq<CellView>> {
        if self.conversations.dom().contains(id) {
            let c = self.conversations[id];
            seq![
                seq![
                    CellView::Text(id),
                    optional_cell(c.title),
                    CellView::Text(c.created_at),
                    CellView::Text(c.updated_at),
                    CellView::Text(
                        if self.schemas.dom().contains(id) {
                            self.schemas[id].schema_sql
                        } else {
                            Seq::empty()
                        },
                    ),
                    CellView::Text(
                        if self.schemas.dom().contains(id) {
                            self.schemas[id].diagram
                        } else {
                            Seq::empty()
                        },
                    ),
                ],
            ]
        } else {
            Seq::empty()
        }
    }

    /// The result rows of the message query when the engine reads the log
    /// in the order of insertion: one per message row of the conversation.
    /// The engine orders them by creation time and, among equal times, by
    /// insertion; in tables whose times are in order that is the order of
    /// insertion and no other.
    pub open spec fn message_rows(self, id: Text) -> Seq<Seq<CellView>> {
        Seq::new(self.log(id).len(), |i: int| message_cells(self.log(id)[i]))
    }

    /// Whether `ids` may be the answer to the id query: every conversation
    /// id once, none with a later update time behind one with an earlier.
    /// Among conversations of equal update time the engine is free.
    pub open spec fn is_id_listing(self, ids: Seq<Text>) -> bool {
        &&& ids.no_duplicates()
        &&& forall|c: Text| ids.contains(c) <==> self.conversations.dom().contains(c)
        &&& forall|i: int, j: int|
            #![trigger ids[i], ids[j]]
            0 <= i <= j < ids.len() ==> text_le(
                self.conversations[ids[j]].updated_at,
                self.conversations[ids[i]].updated_at,
            )
    }

    /// Whether no stored time is later than `now`.
    pub open spec fn not_after(self, now: Text) -> bool {
        &&& forall|c: Text|
            self.conversations.dom().contains(c) ==> text_le(
                (#[trigger] self.conversations[c]).created_at,
                now,
            ) && text_le(self.conversations[c].updated_at, now)
        &&& forall|c: Text, i: int|
            0 <= i < self.log(c).len() ==> text_le((#[trigger] self.log(c)[i]).created_at, now)
    }

    /// Whether the stored times stand in the order in which a clock that
    /// never runs backwards gives them: no conversation was updated before
    /// it was created, and no message of a log was created before one that
    /// was inserted earlier.
    pub open spec fn times_in_order(self) -> bool {
        &&& forall|c: Text|
            self.conversations.dom().contains(c) ==> text_le(
                (#[trigger] self.conversations[c]).created_at,
                self.conversations[c].updated_at,
            )
        &&& forall|c: Text| in_time_order(#[trigger] self.log(c))
    }

    /// Whether an exchange is one that the engine answers from these
    /// tables: the conversation of the id with its schema record, the
    /// messages of the id in an order in which the engine may read them,
    /// the ids in an order in which the engine may list them. Only a query
    /// can be otherwise.
    pub open spec fn answers(self, e: Exchange) -> bool {
        match e {
            Exchange::Query { query: QueryView::Thread { id }, answer } => answer == Ok::<
                Seq<Seq<CellView>>,
                Text,
            >(self.thread_rows(id)),
            Exchange::Query { query: QueryView::Messages { id }, answer } => exists|
                order: Seq<int>,
            |
                #[trigger] is_reading_order(self.log(id), order) && answer == Ok::<
                    Seq<Seq<CellView>>,
                    Text,
                >(rows_in_order(self.log(id), order)),
            Exchange::Query { query: QueryView::ConversationIds, answer } => exists|ids: Seq<Text>|
                #[trigger] self.is_id_listing(ids) && answer == Ok::<Seq<Seq<CellView>>, Text>(
                    id_rows(ids),
                ),
            _ => true,
        }
    }

    /// What a lookup of the thread `id` returns when the engine answers
    /// both queries from these tables.
    pub open spec fn lookup(self, id: Text) -> Result<ThreadView, StoreErrorView> {
        match base_of_answer(Ok(self.thread_rows(id))) {
            Err(e) => Err(e),
            Ok(t) => match log_of_answer(Ok(self.message_rows(id))) {
                Err(e) => Err(e),
                Ok(log) => Ok(with_conversation(t, log)),
            },
        }
    }
}

/// Whether `times` are readings of a clock that never runs backwards, taken
/// one after another when nothing in the tables is later than the first.
pub open spec fn clock_runs_forward(t: Tables, times: Seq<Text>) -> bool {
    &&& forall|k: int| 0 <= k < times.len() ==> t.not_after(#[trigger] times[k])
    &&& forall|i: int, j: int|
        0 <= i <= j < times.len() ==> text_le(#[trigger] times[i], #[trigger] times[j])
}

/// The rows that the inserts of a message log add, the row at position `i`
/// at the time `times[i]`.
pub open spec fn stored_rows(log: Seq<MessageView>, times: Seq<Text>) -> Seq<MessageRow> {
    Seq::new(
        log.len(),
        |i: int|
            MessageRow {
                message_id: log[i].id,
                sender: sender_code_of(log[i].role),
                content: log[i].message,
                created_at: times[i],
            },
    )
}

/// The message that a row of `messages` is read back as.
pub open spec fn read_back(m: MessageRow) -> MessageView {
    MessageView {
        id: m.message_id,
        timestamp: 0,
        role: role_of_code(m.sender),
        message: m.content,
        diagram: None,
    }
}

/// The message log that rows of `messages` are read back as.
pub open spec fn read_back_log(rows: Seq<MessageRow>) -> Seq<MessageView> {
    Seq::new(rows.len(), |i: int| read_back(rows[i]))
}

/// Whether every sender-type code of the rows fits in 32 bits, as every
/// code that the write path stores does.
pub open spec fn senders_fit(rows: Seq<MessageRow>) -> bool {
    forall|i: int| 0 <= i < rows.len() ==> i32::MIN <= (#[trigger] rows[i]).sender <= i32::MAX
}

} // verus!
