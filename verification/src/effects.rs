//! What the plans do to the tables, and what the read path makes of stored
//! rows: the lemmas that the laws rest on.

use vstd::prelude::*;
use crate::engine::CellView;
use crate::error::{Fault, StoreErrorView};
use crate::mapper::{id_of_row, ids_of_rows, message_of_row, messages_of_rows, thread_of_row};
use crate::plan::{
    creation_plan, diagram_update, log_replacement, message_insert, message_inserts,
    schema_sql_update, title_update, update_plan,
};
use crate::statement::StatementView;
use crate::tables::{
    clock_runs_forward, id_rows, in_time_order, message_cells, read_back, read_back_log,
    senders_fit, stored_rows, text_le, ConversationRow, MessageRow, SchemaRow, Tables,
};
use crate::thread::{
    lemma_roles_differ, sender_code_of, stored_form, stored_log, MessageView, Text, ThreadView,
};

verus! {

/// Running two plans one after the other is running their concatenation.
pub proof fn lemma_run_concat(t: Tables, a: Seq<StatementView>, b: Seq<StatementView>, times: Seq<Text>)
    requires
        times.len() >= a.len() + b.len(),
    ensures
        t.run(a + b, times) == match t.run(a, times) {
            None => None,
            Some(t1) => t1.run(b, times.skip(a.len() as int)),
        },
    decreases b.len(),
{
    if b.len() == 0 {
        assert(a + b =~= a);
    } else {
        assert((a + b).drop_last() =~= a + b.drop_last());
        assert((a + b).last() == b.last());
        lemma_run_concat(t, a, b.drop_last(), times);
        assert(times.skip(a.len() as int)[b.len() - 1] == times[(a + b).len() - 1]);
    }
}

/// A plan of one statement.
pub proof fn lemma_run_one(t: Tables, x: StatementView, times: Seq<Text>)
    requires
        times.len() >= 1,
    ensures
        t.run(seq![x], times) == t.apply(x, times[0]),
{
    assert(seq![x].drop_last() =~= Seq::<StatementView>::empty());
    assert(t.run(Seq::<StatementView>::empty(), times) == Some(t));
}

/// A plan of two statements.
pub proof fn lemma_run_two(t: Tables, x: StatementView, y: StatementView, times: Seq<Text>)
    requires
        times.len() >= 2,
    ensures
        t.run(seq![x, y], times) == match t.apply(x, times[0]) {
            None => None,
            Some(t1) => t1.apply(y, times[1]),
        },
{
    assert(seq![x, y].drop_last() =~= seq![x]);
    lemma_run_one(t, x, times);
}

/// What the inserts of a message log make of the tables when none of them
/// is refused: the rows are added to the log of the conversation, in order,
/// and nothing else changes.
pub proof fn lemma_inserts_effect(t: Tables, id: Text, log: Seq<MessageView>, times: Seq<Text>)
    requires
        times.len() >= log.len(),
        t.run(message_inserts(id, log), times) is Some,
    ensures
        ({
            let t1 = t.run(message_inserts(id, log), times)->0;
            &&& t1.conversations == t.conversations
            &&& t1.schemas == t.schemas
            &&& t1.log(id) == t.log(id) + stored_rows(log, times)
            &&& forall|c: Text| c != id ==> #[trigger] t1.log(c) == t.log(c)
        }),
    decreases log.len(),
{
    let plan = message_inserts(id, log);
    if log.len() == 0 {
        assert(t.log(id) + stored_rows(log, times) =~= t.log(id));
    } else {
        let shorter = log.drop_last();
        assert(plan.drop_last() =~= message_inserts(id, shorter));
        assert(plan.last() == message_insert(id, log.last()));
        lemma_inserts_effect(t, id, shorter, times);
        let t0 = t.run(message_inserts(id, shorter), times)->0;
        let t1 = t.run(plan, times)->0;
        assert(t0.apply(plan.last(), times[plan.len() - 1]) == Some(t1));
        assert(stored_rows(log, times) =~= stored_rows(shorter, times).push(
            MessageRow {
                message_id: log.last().id,
                sender: sender_code_of(log.last().role),
                content: log.last().message,
                created_at: times[log.len() - 1],
            },
        ));
        assert(t1.log(id) =~= t.log(id) + stored_rows(log, times));
        assert forall|c: Text| c != id implies #[trigger] t1.log(c) == t.log(c) by {
            assert(t1.log(c) == t0.log(c));
        }
    }
}

/// The inserts of a message log are accepted where no two of its messages
/// have the same id and none has an id that a stored message has.
pub proof fn lemma_inserts_are_accepted(t: Tables, id: Text, log: Seq<MessageView>, times: Seq<Text>)
    requires
        times.len() >= log.len(),
        forall|i: int| 0 <= i < log.len() ==> !t.has_message(#[trigger] log[i].id),
        forall|i: int, j: int| 0 <= i < j < log.len() ==> #[trigger] log[i].id != #[trigger] log[j].id,
    ensures
        t.run(message_inserts(id, log), times) is Some,
    decreases log.len(),
{
    let plan = message_inserts(id, log);
    if log.len() > 0 {
        let shorter = log.drop_last();
        assert forall|i: int| 0 <= i < shorter.len() implies !t.has_message(
            #[trigger] shorter[i].id,
        ) by {
            assert(shorter[i] == log[i]);
        }
        assert forall|i: int, j: int| 0 <= i < j < shorter.len() implies #[trigger] shorter[i].id
            != #[trigger] shorter[j].id by {
            assert(shorter[i] == log[i]);
            assert(shorter[j] == log[j]);
        }
        lemma_inserts_are_accepted(t, id, shorter, times);
        lemma_inserts_effect(t, id, shorter, times);
        assert(plan.drop_last() =~= message_inserts(id, shorter));
        assert(plan.last() == message_insert(id, log.last()));
        let t0 = t.run(message_inserts(id, shorter), times)->0;
        let taken = log.last().id;
        assert(!t.has_message(log[log.len() - 1].id));
        assert forall|c: Text, k: int| 0 <= k < t0.log(c).len() implies #[trigger] t0.log(
            c,
        )[k].message_id != taken by {
            if c != id {
                assert(t0.log(c) == t.log(c));
                assert(t.log(c)[k].message_id != taken);
            } else if k < t.log(id).len() {
                assert(t0.log(id)[k] == t.log(id)[k]);
                assert(t.log(id)[k].message_id != taken);
            } else {
                let at = k - t.log(id).len();
                assert(t0.log(id)[k] == stored_rows(shorter, times)[at]);
                assert(shorter[at] == log[at]);
                assert(log[at].id != log[log.len() - 1].id);
            }
        }
        assert(!t0.has_message(taken));
    }
}

/// What the creation plan makes of the tables when none of its statements
/// is refused.
pub proof fn lemma_creation_effect(
    t: Tables,
    id: Text,
    title: Option<Text>,
    diagram: Text,
    schema_sql: Text,
    log: Seq<MessageView>,
    times: Seq<Text>,
)
    requires
        times.len() == creation_plan(id, title, diagram, schema_sql, log).len(),
        t.run(creation_plan(id, title, diagram, schema_sql, log), times) is Some,
    ensures
        !t.conversations.dom().contains(id),
        !t.schemas.dom().contains(id),
        ({
            let t2 = t.run(creation_plan(id, title, diagram, schema_sql, log), times)->0;
            &&& t2.conversations == t.conversations.insert(
                id,
                ConversationRow { title, created_at: times[0], updated_at: times[0] },
            )
            &&& t2.schemas == t.schemas.insert(
                id,
                SchemaRow { schema_sql, diagram, updated_at: times[1] },
            )
            &&& t2.log(id) == t.log(id) + stored_rows(log, times.skip(2))
            &&& forall|c: Text| c != id ==> #[trigger] t2.log(c) == t.log(c)
        }),
{
    let head = seq![
        StatementView::InsertConversation { id, title },
        StatementView::InsertSchema { id, schema_sql, diagram },
    ];
    let tail = message_inserts(id, log);
    assert(creation_plan(id, title, diagram, schema_sql, log) == head + tail);
    lemma_run_concat(t, head, tail, times);
    lemma_run_two(t, head[0], head[1], times);
    let t1 = t.run(head, times)->0;
    lemma_inserts_effect(t1, id, log, times.skip(2));
    assert(t1.log(id) == t.log(id));
    assert forall|c: Text| c != id implies #[trigger] t.run(head + tail, times)->0.log(c) == t.log(
        c,
    ) by {
        assert(t1.log(c) == t.log(c));
    }
}

/// What the update plan makes of the tables when none of its statements is
/// refused.
pub proof fn lemma_update_effect(
    t: Tables,
    id: Text,
    title: Option<Option<Text>>,
    diagram: Option<Text>,
    schema_sql: Option<Text>,
    log: Option<Seq<MessageView>>,
    times: Seq<Text>,
)
    requires
        times.len() == update_plan(id, title, diagram, schema_sql, log).len(),
        t.run(update_plan(id, title, diagram, schema_sql, log), times) is Some,
    ensures
        ({
            let t2 = t.run(update_plan(id, title, diagram, schema_sql, log), times)->0;
            &&& t2.conversations == match title {
                Some(x) => if t.conversations.dom().contains(id) {
                    t.conversations.insert(
                        id,
                        ConversationRow { title: x, updated_at: times[0], ..t.conversations[id] },
                    )
                } else {
                    t.conversations
                },
                None => t.conversations,
            }
            &&& t2.schemas.dom() == t.schemas.dom()
            &&& forall|c: Text| c != id ==> #[trigger] t2.schemas[c] == t.schemas[c]
            &&& t.schemas.dom().contains(id) ==> {
                &&& t2.schemas[id].diagram == match diagram {
                    Some(d) => d,
                    None => t.schemas[id].diagram,
                }
                &&& t2.schemas[id].schema_sql == match schema_sql {
                    Some(q) => q,
                    None => t.schemas[id].schema_sql,
                }
            }
            &&& match log {
                Some(l) => {
                    &&& t2.log(id) == stored_rows(l, times.skip(times.len() - l.len()))
                    &&& senders_fit(t2.log(id))
                    &&& read_back_log(t2.log(id)) == stored_log(l)
                },
                None => t2.log(id) == t.log(id),
            }
            &&& forall|c: Text| c != id ==> #[trigger] t2.log(c) == t.log(c)
        }),
{
    let fields = (title_update(id, title) + diagram_update(id, diagram)) + schema_sql_update(
        id,
        schema_sql,
    );
    let part_l = log_replacement(id, log);
    let times_l = times.skip(fields.len() as int);
    assert(update_plan(id, title, diagram, schema_sql, log) == fields + part_l);
    lemma_run_concat(t, fields, part_l, times);
    lemma_field_updates_effect(t, id, title, diagram, schema_sql, times);
    let tc = t.run(fields, times)->0;
    lemma_log_replacement_effect(tc, id, log, times_l);
    let t2 = tc.run(part_l, times_l)->0;
    match log {
        Some(l) => {
            assert(times_l.skip(1) =~= times.skip(times.len() - l.len()));
        },
        None => {},
    }
    assert forall|c: Text| c != id implies #[trigger] t2.log(c) == t.log(c) by {
        assert(t2.log(c) == tc.log(c));
    }
}

/// What the statements that set title, diagram and schema SQL make of the
/// tables: they are never refused, change at most the conversation row and
/// the schema record of the thread, and leave every message.
pub proof fn lemma_field_updates_effect(
    t: Tables,
    id: Text,
    title: Option<Option<Text>>,
    diagram: Option<Text>,
    schema_sql: Option<Text>,
    times: Seq<Text>,
)
    requires
        times.len() >= ((title_update(id, title) + diagram_update(id, diagram))
            + schema_sql_update(id, schema_sql)).len(),
    ensures
        ({
            let plan = (title_update(id, title) + diagram_update(id, diagram))
                + schema_sql_update(id, schema_sql);
            let t2 = t.run(plan, times)->0;
            &&& t.run(plan, times) is Some
            &&& t2.conversations == match title {
                Some(x) => if t.conversations.dom().contains(id) {
                    t.conversations.insert(
                        id,
                        ConversationRow { title: x, updated_at: times[0], ..t.conversations[id] },
                    )
                } else {
                    t.conversations
                },
                None => t.conversations,
            }
            &&& t2.schemas.dom() == t.schemas.dom()
            &&& forall|c: Text| c != id ==> #[trigger] t2.schemas[c] == t.schemas[c]
            &&& t.schemas.dom().contains(id) ==> {
                &&& t2.schemas[id].diagram == match diagram {
                    Some(d) => d,
                    None => t.schemas[id].diagram,
                }
                &&& t2.schemas[id].schema_sql == match schema_sql {
                    Some(q) => q,
                    None => t.schemas[id].schema_sql,
                }
            }
            &&& t2.messages == t.messages
        }),
{
    let part_t = title_update(id, title);
    let part_d = diagram_update(id, diagram);
    let part_s = schema_sql_update(id, schema_sql);
    let times_d = times.skip(part_t.len() as int);
    let times_s = times_d.skip(part_d.len() as int);
    lemma_run_concat(t, part_t + part_d, part_s, times);
    lemma_run_concat(t, part_t, part_d, times);
    assert(times.skip((part_t + part_d).len() as int) =~= times_s);
    if title is Some {
        lemma_run_one(t, part_t[0], times);
    }
    let ta = t.run(part_t, times)->0;
    if diagram is Some {
        lemma_run_one(ta, part_d[0], times_d);
    }
    let tb = ta.run(part_d, times_d)->0;
    if schema_sql is Some {
        lemma_run_one(tb, part_s[0], times_s);
    }
    let tc = tb.run(part_s, times_s)->0;
    assert(tb.schemas.dom() =~= t.schemas.dom());
    assert(tc.schemas.dom() =~= t.schemas.dom());
}

/// What the replacement of a message log makes of the tables when none of
/// its statements is refused: the log of the thread is the rows of the
/// given messages and nothing else, and nothing else changes.
pub proof fn lemma_log_replacement_effect(
    t: Tables,
    id: Text,
    log: Option<Seq<MessageView>>,
    times: Seq<Text>,
)
    requires
        times.len() >= log_replacement(id, log).len(),
        t.run(log_replacement(id, log), times) is Some,
    ensures
        ({
            let t2 = t.run(log_replacement(id, log), times)->0;
            &&& t2.conversations == t.conversations
            &&& t2.schemas == t.schemas
            &&& match log {
                Some(l) => {
                    &&& t2.log(id) == stored_rows(l, times.skip(1))
                    &&& senders_fit(t2.log(id))
                    &&& read_back_log(t2.log(id)) == stored_log(l)
                },
                None => t2.log(id) == t.log(id),
            }
            &&& forall|c: Text| c != id ==> #[trigger] t2.log(c) == t.log(c)
        }),
{
    match log {
        Some(l) => {
            let first = seq![StatementView::DeleteMessages { id }];
            let inserts = message_inserts(id, l);
            lemma_run_concat(t, first, inserts, times);
            lemma_run_one(t, first[0], times);
            let td = t.run(first, times)->0;
            let t2 = td.run(inserts, times.skip(1))->0;
            lemma_inserts_effect(td, id, l, times.skip(1));
            assert(td.log(id) =~= Seq::<MessageRow>::empty());
            assert(t2.log(id) =~= stored_rows(l, times.skip(1)));
            lemma_stored_rows_read_back(l, times.skip(1));
            assert forall|c: Text| c != id implies #[trigger] t2.log(c) == t.log(c) by {
                assert(td.log(c) == t.log(c));
            }
        },
        None => {},
    }
}

/// Rows that are added behind rows of the tables while the clock runs
/// forward leave the log in the order of its times.
pub proof fn lemma_added_rows_are_in_order(
    t: Tables,
    id: Text,
    kept: Seq<MessageRow>,
    log: Seq<MessageView>,
    times: Seq<Text>,
    from: int,
)
    requires
        t.times_in_order(),
        clock_runs_forward(t, times),
        kept == t.log(id) || kept == Seq::<MessageRow>::empty(),
        0 <= from,
        from + log.len() <= times.len(),
    ensures
        in_time_order(kept + stored_rows(log, times.skip(from))),
{
    assert(in_time_order(t.log(id)));
    let rest = times.skip(from);
    let rows = kept + stored_rows(log, rest);
    assert forall|i: int, j: int| 0 <= i <= j < rows.len() implies text_le(
        (#[trigger] rows[i]).created_at,
        (#[trigger] rows[j]).created_at,
    ) by {
        if j < kept.len() {
            assert(rows[i] == t.log(id)[i]);
            assert(rows[j] == t.log(id)[j]);
        } else if i < kept.len() {
            let at = j - kept.len();
            assert(rows[i] == t.log(id)[i]);
            assert(rows[j].created_at == rest[at]);
            assert(rest[at] == times[from + at]);
            assert(t.not_after(times[from + at]));
        } else {
            let a = i - kept.len();
            let b = j - kept.len();
            assert(rows[i].created_at == times[from + a]);
            assert(rows[j].created_at == times[from + b]);
        }
    }
}

/// Rows whose sender-type codes fit are decoded each into the message that
/// it is read back as.
pub proof fn lemma_rows_decode(rows: Seq<MessageRow>)
    requires
        senders_fit(rows),
    ensures
        messages_of_rows(Seq::new(rows.len(), |i: int| message_cells(rows[i]))) == Ok::<
            Seq<MessageView>,
            Fault,
        >(read_back_log(rows)),
    decreases rows.len(),
{
    let cells = Seq::new(rows.len(), |i: int| message_cells(rows[i]));
    let views = read_back_log(rows);
    if rows.len() == 0 {
        assert(views =~= Seq::<MessageView>::empty());
    } else {
        let shorter = rows.drop_last();
        assert(senders_fit(shorter)) by {
            assert forall|i: int| 0 <= i < shorter.len() implies i32::MIN <= (
            #[trigger] shorter[i]).sender <= i32::MAX by {
                assert(shorter[i] == rows[i]);
            }
        }
        lemma_rows_decode(shorter);
        assert(cells.drop_last() =~= Seq::new(shorter.len(), |i: int| message_cells(shorter[i])));
        assert(cells.last() == message_cells(rows.last()));
        let row = message_cells(rows.last());
        assert(row.len() == 4);
        assert(i32::MIN <= rows[rows.len() - 1].sender <= i32::MAX);
        assert(message_of_row(row) == Ok::<MessageView, Fault>(read_back(rows.last())));
        assert(views =~= read_back_log(shorter).push(read_back(rows.last())));
    }
}

/// The rows that the write path stores are read back as the stored form of
/// the messages they were made from.
pub proof fn lemma_stored_rows_read_back(log: Seq<MessageView>, times: Seq<Text>)
    ensures
        senders_fit(stored_rows(log, times)),
        read_back_log(stored_rows(log, times)) == stored_log(log),
{
    assert(read_back_log(stored_rows(log, times)) =~= stored_log(log));
}

/// The messages that rows are decoded into stand at the positions of their
/// rows, and each is in stored form already.
pub proof fn lemma_decoded_log(rows: Seq<Seq<CellView>>)
    requires
        messages_of_rows(rows) is Ok,
    ensures
        ({
            let log = messages_of_rows(rows)->Ok_0;
            &&& log.len() == rows.len()
            &&& forall|i: int|
                0 <= i < rows.len() ==> message_of_row(rows[i]) == Ok::<MessageView, Fault>(
                    #[trigger] log[i],
                )
            &&& stored_log(log) == log
        }),
    decreases rows.len(),
{
    let log = messages_of_rows(rows)->Ok_0;
    if rows.len() == 0 {
        assert(stored_log(log) =~= log);
    } else {
        lemma_decoded_log(rows.drop_last());
        lemma_roles_differ();
        let shorter = messages_of_rows(rows.drop_last())->Ok_0;
        let m = message_of_row(rows.last())->Ok_0;
        assert(log == shorter.push(m));
        assert(stored_form(m) == m);
        assert forall|i: int| 0 <= i < rows.len() implies message_of_row(rows[i]) == Ok::<
            MessageView,
            Fault,
        >(#[trigger] log[i]) by {
            if i < rows.len() - 1 {
                assert(rows.drop_last()[i] == rows[i]);
                assert(log[i] == shorter[i]);
            }
        }
        assert(stored_log(log) =~= log) by {
            assert forall|i: int| 0 <= i < log.len() implies stored_log(log)[i] == log[i] by {
                if i < rows.len() - 1 {
                    assert(log[i] == shorter[i]);
                    assert(stored_log(shorter)[i] == stored_form(shorter[i]));
                }
            }
        }
    }
}

/// The rows of the id query are decoded into the ids they carry.
pub proof fn lemma_id_rows_decode(ids: Seq<Text>)
    ensures
        ids_of_rows(id_rows(ids)) == Ok::<Seq<Text>, Fault>(ids),
    decreases ids.len(),
{
    if ids.len() == 0 {
        assert(ids =~= Seq::<Text>::empty());
    } else {
        lemma_id_rows_decode(ids.drop_last());
        assert(id_rows(ids).drop_last() =~= id_rows(ids.drop_last()));
        let row = id_rows(ids).last();
        assert(row.len() == 1);
        assert(id_of_row(row) == Ok::<Text, Fault>(ids.last()));
        assert(ids.drop_last().push(ids.last()) =~= ids);
    }
}

/// What a lookup returns from given tables: `NotFound` where no
/// conversation has the id, else the columns of the conversation and of its
/// schema record with the message log read back.
pub proof fn lemma_lookup(t: Tables, id: Text)
    ensures
        !t.conversations.dom().contains(id) ==> t.lookup(id) == Err::<ThreadView, StoreErrorView>(
            StoreErrorView::NotFound,
        ),
        t.conversations.dom().contains(id) && t.schemas.dom().contains(id) && senders_fit(
            t.log(id),
        ) ==> t.lookup(id) == Ok::<ThreadView, StoreErrorView>(
            ThreadView {
                chat_id: id,
                title: t.conversations[id].title,
                diagram: t.schemas[id].diagram,
                schema_sql: t.schemas[id].schema_sql,
                conversation: read_back_log(t.log(id)),
                created_at: t.conversations[id].created_at,
                updated_at: t.conversations[id].updated_at,
            },
        ),
{
    if t.conversations.dom().contains(id) && t.schemas.dom().contains(id) && senders_fit(t.log(id)) {
        let row = t.thread_rows(id)[0];
        assert(row.len() == 6);
        assert(thread_of_row(row) is Ok);
        lemma_rows_decode(t.log(id));
        assert(t.message_rows(id) =~= Seq::new(
            t.log(id).len(),
            |i: int| message_cells(t.log(id)[i]),
        ));
    }
}

/// A lookup depends only on the rows that carry the id that is looked up.
pub proof fn lemma_lookup_reads_own_rows(t: Tables, t2: Tables, id: Text)
    requires
        t2.conversations.dom().contains(id) == t.conversations.dom().contains(id),
        t.conversations.dom().contains(id) ==> t2.conversations[id] == t.conversations[id],
        t2.schemas.dom().contains(id) == t.schemas.dom().contains(id),
        t.schemas.dom().contains(id) ==> t2.schemas[id] == t.schemas[id],
        t2.log(id) == t.log(id),
    ensures
        t2.lookup(id) == t.lookup(id),
{
    assert(t2.thread_rows(id) =~= t.thread_rows(id));
    assert(t2.message_rows(id) =~= t.message_rows(id));
}

/// No text comes after itself.
pub proof fn lemma_text_le_reflexive(a: Text)
    ensures
        text_le(a, a),
    decreases a.len(),
{
    if a.len() > 0 {
        lemma_text_le_reflexive(a.skip(1));
    }
}

/// Two texts of which neither comes after the other are the same text.
pub proof fn lemma_text_le_antisymmetric(a: Text, b: Text)
    requires
        text_le(a, b),
        text_le(b, a),
    ensures
        a == b,
    decreases a.len(),
{
    if a.len() == 0 {
        assert(b.len() == 0);
        assert(a =~= b);
    } else {
        assert(b.len() > 0);
        assert(a[0] == b[0]);
        lemma_text_le_antisymmetric(a.skip(1), b.skip(1));
        assert(a =~= seq![a[0]] + a.skip(1));
        assert(b =~= seq![b[0]] + b.skip(1));
    }
}

/// Positions that rise from place to place and stay below the number of
/// places are the places themselves.
pub proof fn lemma_rising_positions(order: Seq<int>, k: int)
    requires
        forall|i: int| 0 <= i < order.len() ==> 0 <= #[trigger] order[i] < order.len(),
        forall|a: int, b: int|
            0 <= a < b < order.len() ==> #[trigger] order[a] < #[trigger] order[b],
        0 <= k < order.len(),
    ensures
        order[k] == k,
{
    lemma_rising_from_below(order, k);
    lemma_rising_from_above(order, k);
}

/// A position is not below its place.
proof fn lemma_rising_from_below(order: Seq<int>, k: int)
    requires
        forall|i: int| 0 <= i < order.len() ==> 0 <= #[trigger] order[i] < order.len(),
        forall|a: int, b: int|
            0 <= a < b < order.len() ==> #[trigger] order[a] < #[trigger] order[b],
        0 <= k < order.len(),
    ensures
        order[k] >= k,
    decreases k,
{
    if k > 0 {
        lemma_rising_from_below(order, k - 1);
        assert(order[k - 1] < order[k]);
    }
}

/// A position is not above its place.
proof fn lemma_rising_from_above(order: Seq<int>, k: int)
    requires
        forall|i: int| 0 <= i < order.len() ==> 0 <= #[trigger] order[i] < order.len(),
        forall|a: int, b: int|
            0 <= a < b < order.len() ==> #[trigger] order[a] < #[trigger] order[b],
        0 <= k < order.len(),
    ensures
        order[k] <= k,
    decreases order.len() - k,
{
    if k < order.len() - 1 {
        lemma_rising_from_above(order, k + 1);
        assert(order[k] < order[k + 1]);
    }
}

} // verus!
