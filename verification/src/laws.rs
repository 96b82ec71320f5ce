//! What holds of the stored threads when the engine keeps to the schema
//! catalog of [`crate::tables`].
//!
//! A write that succeeds has run its whole plan in one committed scope, and
//! one that fails has changed nothing, so the tables after a write are what
//! the plan makes of them or what they were. A read whose queries are
//! answered from tables whose times are in order returns what the tables
//! hold. Between these two the laws speak of plans and tables alone: what
//! is read back after a creation, an update, a deletion or a copy, what
//! stays as it was, and in which order threads and messages come. The last
//! laws put the two ends together and speak of a lookup after a write.

use vstd::prelude::*;
use crate::effects::{
    lemma_added_rows_are_in_order, lemma_creation_effect, lemma_decoded_log, lemma_id_rows_decode,
    lemma_inserts_are_accepted, lemma_lookup, lemma_lookup_reads_own_rows, lemma_rising_positions,
    lemma_rows_decode, lemma_run_concat, lemma_run_two, lemma_stored_rows_read_back,
    lemma_text_le_antisymmetric, lemma_text_le_reflexive, lemma_update_effect,
};
use crate::engine::CellView;
use crate::error::{Fault, StoreErrorView};
use crate::journal::{answer_of, Exchange, Scope};
use crate::mapper::{message_of_row, messages_of_rows, thread_of_row};
use crate::plan::{creation_plan, deletion_plan, message_inserts, update_plan};
use crate::protocol::{
    are_lookups, is_listing, is_lookup, last_lookup_len, lookup_result, lookups_result,
};
use crate::statement::StatementView;
use crate::tables::{
    clock_runs_forward, id_rows, in_time_order, is_reading_order, message_cells, rows_in_order,
    stored_rows, text_le, MessageRow, Tables,
};
use crate::thread::{
    assistant_role, copy_title_of, lemma_roles_differ, relabelled, stored_form, stored_log,
    user_role, MessageView, Text, ThreadView,
};

verus! {

/// A write operation that fails leaves the tables as they were, whatever
/// statements the engine had accepted before the failure; one that succeeds
/// has run every statement of its plan.
pub proof fn law_write_is_all_or_nothing(
    t: Tables,
    scope: Scope,
    plan: Seq<StatementView>,
    times: Seq<Text>,
)
    requires
        scope.follows(plan),
    ensures
        scope.result() is Err ==> t.after_scope(scope, times) == t,
        scope.result() is Ok ==> scope.committed() && scope.statements == plan,
{
}

/// The creation of a thread is accepted where its id is the id of no
/// conversation and of no schema record, no two of its messages have the
/// same id, and none has an id that a stored message has.
pub proof fn law_creation_with_fresh_ids_is_accepted(
    t: Tables,
    id: Text,
    title: Option<Text>,
    diagram: Text,
    schema_sql: Text,
    log: Seq<MessageView>,
    times: Seq<Text>,
)
    requires
        !t.conversations.dom().contains(id),
        !t.schemas.dom().contains(id),
        forall|i: int| 0 <= i < log.len() ==> !t.has_message(#[trigger] log[i].id),
        forall|i: int, j: int| 0 <= i < j < log.len() ==> #[trigger] log[i].id != #[trigger] log[j].id,
        times.len() == creation_plan(id, title, diagram, schema_sql, log).len(),
    ensures
        t.run(creation_plan(id, title, diagram, schema_sql, log), times) is Some,
{
    let head = seq![
        StatementView::InsertConversation { id, title },
        StatementView::InsertSchema { id, schema_sql, diagram },
    ];
    let tail = message_inserts(id, log);
    lemma_run_concat(t, head, tail, times);
    lemma_run_two(t, head[0], head[1], times);
    let t1 = t.run(head, times)->0;
    assert forall|i: int| 0 <= i < log.len() implies !t1.has_message(#[trigger] log[i].id) by {
        assert(!t.has_message(log[i].id));
        assert forall|c: Text, k: int| 0 <= k < t1.log(c).len() implies #[trigger] t1.log(
            c,
        )[k].message_id != log[i].id by {
            assert(t1.log(c) == t.log(c));
            assert(t.log(c)[k].message_id != log[i].id);
        }
    }
    lemma_inserts_are_accepted(t1, id, log, times.skip(2));
}

/// A thread that has been created is read back with the id, title, diagram
/// and schema SQL that were given, with the time of its conversation row as
/// both of its times, and with the given messages in the given order, each
/// in its stored form.
pub proof fn law_created_thread_reads_back(
    t: Tables,
    id: Text,
    title: Option<Text>,
    diagram: Text,
    schema_sql: Text,
    log: Seq<MessageView>,
    times: Seq<Text>,
)
    requires
        t.wf(),
        times.len() == creation_plan(id, title, diagram, schema_sql, log).len(),
        t.run(creation_plan(id, title, diagram, schema_sql, log), times) is Some,
    ensures
        t.run(creation_plan(id, title, diagram, schema_sql, log), times)->0.lookup(id) == Ok::<
            ThreadView,
            StoreErrorView,
        >(
            ThreadView {
                chat_id: id,
                title,
                diagram,
                schema_sql,
                conversation: stored_log(log),
                created_at: times[0],
                updated_at: times[0],
            },
        ),
{
    lemma_creation_effect(t, id, title, diagram, schema_sql, log, times);
    let t2 = t.run(creation_plan(id, title, diagram, schema_sql, log), times)->0;
    assert(t.log(id).len() == 0);
    assert(t2.log(id) =~= stored_rows(log, times.skip(2)));
    lemma_stored_rows_read_back(log, times.skip(2));
    lemma_lookup(t2, id);
}

/// The stored form of a message keeps its id and its content, and keeps its
/// role where that is "user" or "assistant"; any other role is read back as
/// "assistant".
pub proof fn law_stored_form_keeps_id_content_and_known_roles(m: MessageView)
    ensures
        stored_form(m).id == m.id,
        stored_form(m).message == m.message,
        m.role == user_role() || m.role == assistant_role() ==> stored_form(m).role == m.role,
        m.role != user_role() ==> stored_form(m).role == assistant_role(),
{
    lemma_roles_differ();
}

/// After an update of a thread that could be read before, the thread can be
/// read again, and each of its parts is what the update gave for it, or
/// what it was where the update gave nothing: the title, the diagram, the
/// schema SQL, and the message log, which is replaced as a whole by the
/// stored form of the given one. The id and the creation time stay; the
/// update time stays unless a title is given.
pub proof fn law_update_changes_what_is_given(
    t: Tables,
    id: Text,
    title: Option<Option<Text>>,
    diagram: Option<Text>,
    schema_sql: Option<Text>,
    log: Option<Seq<MessageView>>,
    times: Seq<Text>,
)
    requires
        t.wf(),
        times.len() == update_plan(id, title, diagram, schema_sql, log).len(),
        t.run(update_plan(id, title, diagram, schema_sql, log), times) is Some,
        t.lookup(id) is Ok,
    ensures
        ({
            let before = t.lookup(id)->Ok_0;
            let after = t.run(update_plan(id, title, diagram, schema_sql, log), times)->0.lookup(
                id,
            );
            &&& after is Ok
            &&& after->Ok_0.chat_id == before.chat_id
            &&& after->Ok_0.created_at == before.created_at
            &&& after->Ok_0.title == match title {
                Some(x) => x,
                None => before.title,
            }
            &&& after->Ok_0.diagram == match diagram {
                Some(d) => d,
                None => before.diagram,
            }
            &&& after->Ok_0.schema_sql == match schema_sql {
                Some(q) => q,
                None => before.schema_sql,
            }
            &&& after->Ok_0.conversation == match log {
                Some(l) => stored_log(l),
                None => before.conversation,
            }
            &&& title is None ==> after->Ok_0.updated_at == before.updated_at
            &&& title is Some ==> after->Ok_0.updated_at == times[0]
        }),
{
    let t2 = t.run(update_plan(id, title, diagram, schema_sql, log), times)->0;
    lemma_update_effect(t, id, title, diagram, schema_sql, log, times);
    lemma_lookup(t, id);
    assert(t.conversations.dom().contains(id));
    assert(t.schemas.dom().contains(id));
    assert(t2.conversations.dom().contains(id));
    assert(t2.schemas.dom().contains(id));
    let row = t.thread_rows(id)[0];
    let row2 = t2.thread_rows(id)[0];
    assert(row.len() == 6);
    assert(row2.len() == 6);
    assert(thread_of_row(row) is Ok);
    assert(thread_of_row(row2) is Ok);
    match log {
        Some(l) => {
            lemma_rows_decode(t2.log(id));
            assert(t2.message_rows(id) =~= Seq::new(
                t2.log(id).len(),
                |i: int| message_cells(t2.log(id)[i]),
            ));
        },
        None => {
            assert(t2.message_rows(id) =~= t.message_rows(id));
        },
    }
}

/// An update of a thread that has no conversation row is not refused on
/// that account. It changes no conversation and no schema record, and a
/// lookup of the thread still returns `NotFound`; but the messages that it
/// gives are stored, and unless there are none they belong to no
/// conversation afterwards.
pub proof fn law_update_of_a_missing_thread_stores_its_messages(
    t: Tables,
    id: Text,
    title: Option<Option<Text>>,
    diagram: Option<Text>,
    schema_sql: Option<Text>,
    log: Option<Seq<MessageView>>,
    times: Seq<Text>,
)
    requires
        t.wf(),
        !t.conversations.dom().contains(id),
        times.len() == update_plan(id, title, diagram, schema_sql, log).len(),
        t.run(update_plan(id, title, diagram, schema_sql, log), times) is Some,
    ensures
        ({
            let t2 = t.run(update_plan(id, title, diagram, schema_sql, log), times)->0;
            &&& t2.conversations == t.conversations
            &&& t2.schemas == t.schemas
            &&& t2.lookup(id) == Err::<ThreadView, StoreErrorView>(StoreErrorView::NotFound)
            &&& t2.wf() <==> (log matches Some(l) ==> l.len() == 0)
        }),
{
    let t2 = t.run(update_plan(id, title, diagram, schema_sql, log), times)->0;
    lemma_update_effect(t, id, title, diagram, schema_sql, log, times);
    lemma_lookup(t2, id);
    assert(t2.schemas =~= t.schemas) by {
        assert forall|c: Text| t.schemas.dom().contains(c) implies t2.schemas[c] == t.schemas[c] by {
            assert(c != id);
        }
    }
    assert(t.log(id).len() == 0);
    match log {
        Some(l) => {
            if l.len() == 0 {
                assert forall|c: Text| #[trigger] t2.log(c).len() > 0 implies t2.conversations.dom().contains(
                    c,
                ) by {
                    assert(c != id);
                    assert(t2.log(c) == t.log(c));
                }
            } else {
                assert(t2.log(id).len() > 0);
            }
        },
        None => {
            assert forall|c: Text| #[trigger] t2.log(c).len() > 0 implies t2.conversations.dom().contains(
                c,
            ) by {
                if c != id {
                    assert(t2.log(c) == t.log(c));
                }
            }
        },
    }
}

/// The deletion plan is never refused. After it no conversation row, no
/// schema record and no message row of the thread is left, and a lookup of
/// the thread returns `NotFound`.
pub proof fn law_deleted_thread_is_gone(t: Tables, id: Text, times: Seq<Text>)
    requires
        times.len() == deletion_plan(id).len(),
    ensures
        t.run(deletion_plan(id), times) is Some,
        ({
            let t2 = t.run(deletion_plan(id), times)->0;
            &&& t2.lookup(id) == Err::<ThreadView, StoreErrorView>(StoreErrorView::NotFound)
            &&& !t2.conversations.dom().contains(id)
            &&& !t2.schemas.dom().contains(id)
            &&& t2.log(id) == Seq::<MessageRow>::empty()
            &&& t2.conversations == t.conversations.remove(id)
            &&& t2.schemas == t.schemas.remove(id)
            &&& forall|c: Text| c != id ==> #[trigger] t2.log(c) == t.log(c)
        }),
{
    let plan = deletion_plan(id);
    assert(plan.drop_last() =~= seq![plan[0], plan[1]]);
    lemma_run_two(t, plan[0], plan[1], times);
    let t2 = t.run(plan, times)->0;
    lemma_lookup(t2, id);
}

/// Creating, updating or deleting one thread changes no row of another: a
/// lookup of any other id returns what it returned before.
pub proof fn law_writes_leave_other_threads(
    t: Tables,
    plan: Seq<StatementView>,
    id: Text,
    other: Text,
    times: Seq<Text>,
)
    requires
        other != id,
        times.len() == plan.len(),
        t.run(plan, times) is Some,
        ({
            ||| exists|title: Option<Text>, diagram: Text, schema_sql: Text, log: Seq<MessageView>|
                plan == creation_plan(id, title, diagram, schema_sql, log)
            ||| exists|
                title: Option<Option<Text>>,
                diagram: Option<Text>,
                schema_sql: Option<Text>,
                log: Option<Seq<MessageView>>,
            |
                plan == update_plan(id, title, diagram, schema_sql, log)
            ||| plan == deletion_plan(id)
        }),
    ensures
        t.run(plan, times)->0.lookup(other) == t.lookup(other),
{
    let t2 = t.run(plan, times)->0;
    if plan == deletion_plan(id) {
        law_deleted_thread_is_gone(t, id, times);
    } else if exists|title: Option<Text>, diagram: Text, schema_sql: Text, log: Seq<MessageView>|
        plan == creation_plan(id, title, diagram, schema_sql, log) {
        let (title, diagram, schema_sql, log) = choose|
            title: Option<Text>,
            diagram: Text,
            schema_sql: Text,
            log: Seq<MessageView>,
        |
            plan == creation_plan(id, title, diagram, schema_sql, log);
        lemma_creation_effect(t, id, title, diagram, schema_sql, log, times);
    } else {
        let (title, diagram, schema_sql, log) = choose|
            title: Option<Option<Text>>,
            diagram: Option<Text>,
            schema_sql: Option<Text>,
            log: Option<Seq<MessageView>>,
        |
            plan == update_plan(id, title, diagram, schema_sql, log);
        lemma_update_effect(t, id, title, diagram, schema_sql, log, times);
        assert(t2.schemas.dom().contains(other) == t.schemas.dom().contains(other));
    }
    lemma_lookup_reads_own_rows(t, t2, other);
}

/// Where the copy of a thread has been stored, it has another id than its
/// source; it is read back with the title of the source and the copy
/// suffix, with the diagram and the schema SQL of the source, and with the
/// messages of the source in their order, each with its role and content
/// and under the id that the copy gave it; and the source is read back as
/// before.
pub proof fn law_copy_is_a_thread_of_its_own(
    t: Tables,
    source_id: Text,
    new_id: Text,
    message_ids: Seq<Text>,
    times: Seq<Text>,
)
    requires
        t.wf(),
        t.lookup(source_id) is Ok,
        ({
            let s = t.lookup(source_id)->Ok_0;
            let plan = creation_plan(
                new_id,
                copy_title_of(s.title),
                s.diagram,
                s.schema_sql,
                relabelled(s.conversation, message_ids),
            );
            times.len() == plan.len() && t.run(plan, times) is Some
        }),
    ensures
        new_id != source_id,
        ({
            let s = t.lookup(source_id)->Ok_0;
            let t2 = t.run(
                creation_plan(
                    new_id,
                    copy_title_of(s.title),
                    s.diagram,
                    s.schema_sql,
                    relabelled(s.conversation, message_ids),
                ),
                times,
            )->0;
            &&& t2.lookup(source_id) == t.lookup(source_id)
            &&& t2.lookup(new_id) == Ok::<ThreadView, StoreErrorView>(
                ThreadView {
                    chat_id: new_id,
                    title: copy_title_of(s.title),
                    diagram: s.diagram,
                    schema_sql: s.schema_sql,
                    conversation: relabelled(s.conversation, message_ids),
                    created_at: times[0],
                    updated_at: times[0],
                },
            )
        }),
{
    let s = t.lookup(source_id)->Ok_0;
    let log = relabelled(s.conversation, message_ids);
    let plan = creation_plan(new_id, copy_title_of(s.title), s.diagram, s.schema_sql, log);
    lemma_lookup(t, source_id);
    lemma_creation_effect(t, new_id, copy_title_of(s.title), s.diagram, s.schema_sql, log, times);
    law_created_thread_reads_back(
        t,
        new_id,
        copy_title_of(s.title),
        s.diagram,
        s.schema_sql,
        log,
        times,
    );
    lemma_decoded_log(t.message_rows(source_id));
    assert(stored_log(log) =~= log) by {
        assert forall|i: int| 0 <= i < log.len() implies stored_form(log[i]) == log[i] by {
            assert(stored_log(s.conversation)[i] == stored_form(s.conversation[i]));
        }
    }
    law_writes_leave_other_threads(t, plan, new_id, source_id, times);
}

/// The copy of a thread is accepted where its id is the id of no
/// conversation and of no schema record, and the ids for its messages are
/// one for each message of the source, no two the same and none the id of a
/// stored message: as ids are that are drawn afresh.
pub proof fn law_copy_under_fresh_ids_is_accepted(
    t: Tables,
    source_id: Text,
    new_id: Text,
    message_ids: Seq<Text>,
    times: Seq<Text>,
)
    requires
        t.lookup(source_id) is Ok,
        !t.conversations.dom().contains(new_id),
        !t.schemas.dom().contains(new_id),
        message_ids.len() == t.lookup(source_id)->Ok_0.conversation.len(),
        forall|i: int| 0 <= i < message_ids.len() ==> !t.has_message(#[trigger] message_ids[i]),
        forall|i: int, j: int|
            0 <= i < j < message_ids.len() ==> #[trigger] message_ids[i]
                != #[trigger] message_ids[j],
        ({
            let s = t.lookup(source_id)->Ok_0;
            times.len() == creation_plan(
                new_id,
                copy_title_of(s.title),
                s.diagram,
                s.schema_sql,
                relabelled(s.conversation, message_ids),
            ).len()
        }),
    ensures
        ({
            let s = t.lookup(source_id)->Ok_0;
            t.run(
                creation_plan(
                    new_id,
                    copy_title_of(s.title),
                    s.diagram,
                    s.schema_sql,
                    relabelled(s.conversation, message_ids),
                ),
                times,
            ) is Some
        }),
{
    let s = t.lookup(source_id)->Ok_0;
    let log = relabelled(s.conversation, message_ids);
    assert forall|i: int| 0 <= i < log.len() implies !t.has_message(#[trigger] log[i].id) by {
        assert(log[i].id == message_ids[i]);
    }
    assert forall|i: int, j: int| 0 <= i < j < log.len() implies #[trigger] log[i].id
        != #[trigger] log[j].id by {
        assert(log[i].id == message_ids[i]);
        assert(log[j].id == message_ids[j]);
    }
    law_creation_with_fresh_ids_is_accepted(
        t,
        new_id,
        copy_title_of(s.title),
        s.diagram,
        s.schema_sql,
        log,
        times,
    );
}

/// After an update that gives a title, at a time later than the update time
/// of every other thread, the thread is the first of every listing. An
/// update that gives no title leaves the update time of the conversation
/// and so the place of the thread.
pub proof fn law_touched_thread_is_listed_first(
    t: Tables,
    id: Text,
    title: Option<Text>,
    diagram: Option<Text>,
    schema_sql: Option<Text>,
    log: Option<Seq<MessageView>>,
    times: Seq<Text>,
    ids: Seq<Text>,
)
    requires
        t.conversations.dom().contains(id),
        forall|c: Text|
            c != id && t.conversations.dom().contains(c) ==> !text_le(
                times[0],
                #[trigger] t.conversations[c].updated_at,
            ),
        times.len() == update_plan(id, Some(title), diagram, schema_sql, log).len(),
        t.run(update_plan(id, Some(title), diagram, schema_sql, log), times) is Some,
        t.run(update_plan(id, Some(title), diagram, schema_sql, log), times)->0.is_id_listing(ids),
    ensures
        ids.len() >= 1,
        ids[0] == id,
{
    let t2 = t.run(update_plan(id, Some(title), diagram, schema_sql, log), times)->0;
    lemma_update_effect(t, id, Some(title), diagram, schema_sql, log, times);
    assert(t2.conversations.dom().contains(id));
    assert(ids.contains(id));
    let k = choose|k: int| 0 <= k < ids.len() && ids[k] == id;
    if k > 0 {
        let c = ids[0];
        assert(ids.contains(c));
        assert(c != id);
        assert(t2.conversations[c] == t.conversations[c]);
        assert(text_le(t2.conversations[ids[k]].updated_at, t2.conversations[ids[0]].updated_at));
        assert(!text_le(times[0], t.conversations[c].updated_at));
    }
}

/// Creating or deleting a thread, and updating a thread that has a
/// conversation row, leave every conversation with its schema record and
/// every schema record and message with its conversation.
pub proof fn law_writes_keep_integrity(
    t: Tables,
    plan: Seq<StatementView>,
    id: Text,
    times: Seq<Text>,
)
    requires
        t.wf(),
        times.len() == plan.len(),
        t.run(plan, times) is Some,
        ({
            ||| exists|title: Option<Text>, diagram: Text, schema_sql: Text, log: Seq<MessageView>|
                plan == creation_plan(id, title, diagram, schema_sql, log)
            ||| t.conversations.dom().contains(id) && exists|
                title: Option<Option<Text>>,
                diagram: Option<Text>,
                schema_sql: Option<Text>,
                log: Option<Seq<MessageView>>,
            |
                plan == update_plan(id, title, diagram, schema_sql, log)
            ||| plan == deletion_plan(id)
        }),
    ensures
        t.run(plan, times)->0.wf(),
{
    let t2 = t.run(plan, times)->0;
    if plan == deletion_plan(id) {
        law_deleted_thread_is_gone(t, id, times);
        assert(t2.schemas.dom() =~= t2.conversations.dom());
        assert forall|c: Text| #[trigger] t2.log(c).len() > 0 implies t2.conversations.dom().contains(
            c,
        ) by {
            assert(c != id);
            assert(t2.log(c) == t.log(c));
        }
    } else if exists|title: Option<Text>, diagram: Text, schema_sql: Text, log: Seq<MessageView>|
        plan == creation_plan(id, title, diagram, schema_sql, log) {
        let (title, diagram, schema_sql, log) = choose|
            title: Option<Text>,
            diagram: Text,
            schema_sql: Text,
            log: Seq<MessageView>,
        |
            plan == creation_plan(id, title, diagram, schema_sql, log);
        lemma_creation_effect(t, id, title, diagram, schema_sql, log, times);
        assert(t2.schemas.dom() =~= t2.conversations.dom());
        assert forall|c: Text| #[trigger] t2.log(c).len() > 0 implies t2.conversations.dom().contains(
            c,
        ) by {
            if c != id {
                assert(t2.log(c) == t.log(c));
            }
        }
    } else {
        let (title, diagram, schema_sql, log) = choose|
            title: Option<Option<Text>>,
            diagram: Option<Text>,
            schema_sql: Option<Text>,
            log: Option<Seq<MessageView>>,
        |
            plan == update_plan(id, title, diagram, schema_sql, log);
        lemma_update_effect(t, id, title, diagram, schema_sql, log, times);
        assert(t2.conversations.dom() =~= t.conversations.dom());
        assert forall|c: Text| #[trigger] t2.log(c).len() > 0 implies t2.conversations.dom().contains(
            c,
        ) by {
            if c != id {
                assert(t2.log(c) == t.log(c));
            }
        }
    }
}

/// Creating, updating or deleting a thread while the clock runs forward
/// leaves the stored times in order: no conversation is updated before it
/// was created, and the messages of a log are as old as their place in it.
pub proof fn law_writes_keep_times_in_order(
    t: Tables,
    plan: Seq<StatementView>,
    id: Text,
    times: Seq<Text>,
)
    requires
        t.times_in_order(),
        clock_runs_forward(t, times),
        times.len() == plan.len(),
        t.run(plan, times) is Some,
        ({
            ||| exists|title: Option<Text>, diagram: Text, schema_sql: Text, log: Seq<MessageView>|
                plan == creation_plan(id, title, diagram, schema_sql, log)
            ||| exists|
                title: Option<Option<Text>>,
                diagram: Option<Text>,
                schema_sql: Option<Text>,
                log: Option<Seq<MessageView>>,
            |
                plan == update_plan(id, title, diagram, schema_sql, log)
            ||| plan == deletion_plan(id)
        }),
    ensures
        t.run(plan, times)->0.times_in_order(),
{
    let t2 = t.run(plan, times)->0;
    if plan == deletion_plan(id) {
        law_deleted_thread_is_gone(t, id, times);
        assert forall|c: Text| t2.conversations.dom().contains(c) implies text_le(
            (#[trigger] t2.conversations[c]).created_at,
            t2.conversations[c].updated_at,
        ) by {
            assert(t2.conversations[c] == t.conversations[c]);
        }
        assert forall|c: Text| in_time_order(#[trigger] t2.log(c)) by {
            if c != id {
                assert(t2.log(c) == t.log(c));
                assert(in_time_order(t.log(c)));
            }
        }
    } else if exists|title: Option<Text>, diagram: Text, schema_sql: Text, log: Seq<MessageView>|
        plan == creation_plan(id, title, diagram, schema_sql, log) {
        let (title, diagram, schema_sql, log) = choose|
            title: Option<Text>,
            diagram: Text,
            schema_sql: Text,
            log: Seq<MessageView>,
        |
            plan == creation_plan(id, title, diagram, schema_sql, log);
        lemma_creation_effect(t, id, title, diagram, schema_sql, log, times);
        assert(text_le(times[0], times[0]));
        assert forall|c: Text| t2.conversations.dom().contains(c) implies text_le(
            (#[trigger] t2.conversations[c]).created_at,
            t2.conversations[c].updated_at,
        ) by {
            if c != id {
                assert(t2.conversations[c] == t.conversations[c]);
            }
        }
        lemma_added_rows_are_in_order(t, id, t.log(id), log, times, 2);
        assert forall|c: Text| in_time_order(#[trigger] t2.log(c)) by {
            if c != id {
                assert(t2.log(c) == t.log(c));
                assert(in_time_order(t.log(c)));
            }
        }
    } else {
        let (title, diagram, schema_sql, log) = choose|
            title: Option<Option<Text>>,
            diagram: Option<Text>,
            schema_sql: Option<Text>,
            log: Option<Seq<MessageView>>,
        |
            plan == update_plan(id, title, diagram, schema_sql, log);
        lemma_update_effect(t, id, title, diagram, schema_sql, log, times);
        assert forall|c: Text| t2.conversations.dom().contains(c) implies text_le(
            (#[trigger] t2.conversations[c]).created_at,
            t2.conversations[c].updated_at,
        ) by {
            if c == id && title is Some {
                assert(t.not_after(times[0]));
                assert(t.conversations.dom().contains(id));
                assert(text_le(t.conversations[id].created_at, times[0]));
            } else {
                assert(t2.conversations[c] == t.conversations[c]);
            }
        }
        if log is Some {
            lemma_added_rows_are_in_order(
                t,
                id,
                Seq::empty(),
                log->0,
                times,
                times.len() - log->0.len(),
            );
            assert(Seq::<MessageRow>::empty() + stored_rows(
                log->0,
                times.skip(times.len() - log->0.len()),
            ) =~= t2.log(id));
        }
        assert forall|c: Text| in_time_order(#[trigger] t2.log(c)) by {
            if c != id {
                assert(t2.log(c) == t.log(c));
                assert(in_time_order(t.log(c)));
            } else if log is None {
                assert(in_time_order(t.log(id)));
            }
        }
    }
}

/// A log whose times are in order is read in the order of insertion: the
/// engine, which orders by creation time and then by insertion, has no
/// other order to return it in.
pub proof fn law_log_in_time_order_is_read_as_inserted(log: Seq<MessageRow>, order: Seq<int>)
    requires
        in_time_order(log),
        is_reading_order(log, order),
    ensures
        forall|k: int| 0 <= k < order.len() ==> #[trigger] order[k] == k,
{
    assert forall|a: int, b: int| 0 <= a < b < order.len() implies #[trigger] order[a]
        < #[trigger] order[b] by {
        if order[a] > order[b] {
            lemma_text_le_antisymmetric(log[order[a]].created_at, log[order[b]].created_at);
        }
    }
    assert forall|k: int| 0 <= k < order.len() implies #[trigger] order[k] == k by {
        lemma_rising_positions(order, k);
    }
}

/// Whatever the engine answers, every message of a thread that a lookup
/// returns has timestamp 0 and no diagram, and its role is "user" or
/// "assistant": the message table has no column for the first two, and the
/// sender-type code tells no other roles apart.
pub proof fn law_read_messages_are_in_stored_form(ex: Seq<Exchange>, i: int)
    requires
        lookup_result(ex) is Ok,
        0 <= i < lookup_result(ex)->Ok_0.conversation.len(),
    ensures
        ({
            let m = lookup_result(ex)->Ok_0.conversation[i];
            &&& m.timestamp == 0
            &&& m.diagram is None
            &&& m.role == user_role() || m.role == assistant_role()
            &&& stored_form(m) == m
        }),
{
    let answer = answer_of(ex[1]);
    let rows = answer->Ok_0;
    lemma_decoded_log(rows);
    let log = messages_of_rows(rows)->Ok_0;
    assert(message_of_row(rows[i]) == Ok::<MessageView, Fault>(log[i]));
    assert(stored_log(log)[i] == stored_form(log[i]));
}

/// A lookup whose queries the engine answers from tables whose times are in
/// order returns what the tables hold of the thread, with its messages in
/// the order of insertion.
pub proof fn law_lookup_reads_the_tables(t: Tables, id: Text, ex: Seq<Exchange>)
    requires
        t.times_in_order(),
        is_lookup(id, ex),
        forall|k: int| 0 <= k < ex.len() ==> t.answers(#[trigger] ex[k]),
    ensures
        lookup_result(ex) == t.lookup(id),
{
    assert(t.answers(ex[0]));
    if ex.len() == 2 {
        assert(t.answers(ex[1]));
        let log = t.log(id);
        let order = choose|order: Seq<int>|
            #[trigger] is_reading_order(log, order) && answer_of(ex[1]) == Ok::<
                Seq<Seq<CellView>>,
                Text,
            >(rows_in_order(log, order));
        assert(in_time_order(log));
        law_log_in_time_order_is_read_as_inserted(log, order);
        assert(rows_in_order(log, order) =~= t.message_rows(id));
    }
}

/// Lookups whose queries the engine answers from the tables return, where
/// they all succeed, what the tables hold of each thread, in the order of
/// the ids.
proof fn lemma_lookups_read_the_tables(t: Tables, ids: Seq<Text>, ex: Seq<Exchange>)
    requires
        t.times_in_order(),
        are_lookups(ids, ex),
        forall|k: int| 0 <= k < ex.len() ==> t.answers(#[trigger] ex[k]),
        lookups_result(ids, ex) is Ok,
    ensures
        lookups_result(ids, ex)->Ok_0.len() == ids.len(),
        forall|k: int|
            0 <= k < ids.len() ==> t.lookup(#[trigger] ids[k]) == Ok::<ThreadView, StoreErrorView>(
                lookups_result(ids, ex)->Ok_0[k],
            ),
    decreases ids.len(),
{
    if ids.len() > 0 {
        let n = last_lookup_len(ex);
        let rest = ex.take(ex.len() - n);
        let last = ex.skip(ex.len() - n);
        assert forall|k: int| 0 <= k < rest.len() implies t.answers(#[trigger] rest[k]) by {
            assert(rest[k] == ex[k]);
        }
        assert forall|k: int| 0 <= k < last.len() implies t.answers(#[trigger] last[k]) by {
            assert(last[k] == ex[ex.len() - n + k]);
        }
        lemma_lookups_read_the_tables(t, ids.drop_last(), rest);
        law_lookup_reads_the_tables(t, ids.last(), last);
        let threads = lookups_result(ids, ex)->Ok_0;
        let shorter = lookups_result(ids.drop_last(), rest)->Ok_0;
        assert(threads == shorter.push(lookup_result(last)->Ok_0));
        assert forall|k: int| 0 <= k < ids.len() implies t.lookup(#[trigger] ids[k]) == Ok::<
            ThreadView,
            StoreErrorView,
        >(threads[k]) by {
            if k < ids.len() - 1 {
                assert(ids.drop_last()[k] == ids[k]);
                assert(threads[k] == shorter[k]);
            }
        }
    }
}

/// A listing whose queries the engine answers from tables whose times are
/// in order returns, where it succeeds, the threads of an answer to the id query, each as the
/// tables hold it: one for every conversation, and none with a later update
/// time behind one with an earlier.
pub proof fn law_listing_reads_the_tables_newest_first(
    t: Tables,
    ex: Seq<Exchange>,
    r: Result<Seq<ThreadView>, StoreErrorView>,
)
    requires
        t.times_in_order(),
        is_listing(ex, r),
        forall|k: int| 0 <= k < ex.len() ==> t.answers(#[trigger] ex[k]),
        r is Ok,
    ensures
        exists|ids: Seq<Text>|
            {
                &&& #[trigger] t.is_id_listing(ids)
                &&& ids.len() == r->Ok_0.len()
                &&& forall|k: int|
                    0 <= k < ids.len() ==> (#[trigger] r->Ok_0[k]).chat_id == ids[k] && t.lookup(
                        ids[k],
                    ) == Ok::<ThreadView, StoreErrorView>(r->Ok_0[k])
            },
        forall|i: int, j: int|
            0 <= i <= j < r->Ok_0.len() ==> text_le(
                (#[trigger] r->Ok_0[j]).updated_at,
                (#[trigger] r->Ok_0[i]).updated_at,
            ),
{
    let threads = r->Ok_0;
    assert(t.answers(ex[0]));
    let ids = choose|ids: Seq<Text>|
        #[trigger] t.is_id_listing(ids) && answer_of(ex[0]) == Ok::<Seq<Seq<CellView>>, Text>(
            id_rows(ids),
        );
    lemma_id_rows_decode(ids);
    let rest = ex.skip(1);
    assert(ids.take(ids.len() as int) =~= ids);
    assert(are_lookups(ids, rest) && r == lookups_result(ids, rest));
    assert forall|k: int| 0 <= k < rest.len() implies t.answers(#[trigger] rest[k]) by {
        assert(rest[k] == ex[k + 1]);
    }
    lemma_lookups_read_the_tables(t, ids, rest);
    assert forall|k: int| 0 <= k < threads.len() implies (#[trigger] threads[k]).chat_id == ids[k]
        && threads[k].updated_at == t.conversations[ids[k]].updated_at && t.lookup(ids[k]) == Ok::<
        ThreadView,
        StoreErrorView,
    >(threads[k]) by {
        assert(t.lookup(ids[k]) == Ok::<ThreadView, StoreErrorView>(threads[k]));
        assert(ids.contains(ids[k]));
        let row = t.thread_rows(ids[k])[0];
        assert(row.len() == 6);
    }
    assert forall|i: int, j: int| 0 <= i <= j < threads.len() implies text_le(
        (#[trigger] threads[j]).updated_at,
        (#[trigger] threads[i]).updated_at,
    ) by {
        assert(text_le(t.conversations[ids[j]].updated_at, t.conversations[ids[i]].updated_at));
        assert(threads[i].chat_id == ids[i]);
        assert(threads[j].chat_id == ids[j]);
    }
}

/// Whether `ex` are the exchanges of a lookup of the thread `id` whose
/// queries the engine answers from the tables `t`.
pub open spec fn looked_up_in(t: Tables, id: Text, ex: Seq<Exchange>) -> bool {
    &&& is_lookup(id, ex)
    &&& forall|k: int| 0 <= k < ex.len() ==> t.answers(#[trigger] ex[k])
}

/// A lookup after a write, answered from the tables that the write left
/// with their times in order, returns what the plan of the write has made
/// of the thread if the write succeeded, and what the tables held of it
/// before if the write failed.
pub proof fn law_lookup_after_a_write(
    t: Tables,
    scope: Scope,
    plan: Seq<StatementView>,
    times: Seq<Text>,
    id: Text,
    ex: Seq<Exchange>,
)
    requires
        scope.follows(plan),
        scope.committed() ==> t.run(plan, times) is Some,
        t.after_scope(scope, times).times_in_order(),
        looked_up_in(t.after_scope(scope, times), id, ex),
    ensures
        scope.result() is Ok ==> lookup_result(ex) == t.run(plan, times)->0.lookup(id),
        scope.result() is Err ==> lookup_result(ex) == t.lookup(id),
{
    law_write_is_all_or_nothing(t, scope, plan, times);
    law_lookup_reads_the_tables(t.after_scope(scope, times), id, ex);
}

/// After a creation that succeeded, while the clock ran forward, a lookup
/// of the thread that is answered from the tables returns the thread as it
/// was given, with its messages in the given order, each in its stored
/// form.
pub proof fn law_lookup_after_creation(
    t: Tables,
    scope: Scope,
    id: Text,
    title: Option<Text>,
    diagram: Text,
    schema_sql: Text,
    log: Seq<MessageView>,
    times: Seq<Text>,
    ex: Seq<Exchange>,
)
    requires
        t.wf(),
        t.times_in_order(),
        clock_runs_forward(t, times),
        scope.follows(creation_plan(id, title, diagram, schema_sql, log)),
        scope.result() is Ok,
        times.len() == creation_plan(id, title, diagram, schema_sql, log).len(),
        t.run(creation_plan(id, title, diagram, schema_sql, log), times) is Some,
        looked_up_in(t.after_scope(scope, times), id, ex),
    ensures
        lookup_result(ex) == Ok::<ThreadView, StoreErrorView>(
            ThreadView {
                chat_id: id,
                title,
                diagram,
                schema_sql,
                conversation: stored_log(log),
                created_at: times[0],
                updated_at: times[0],
            },
        ),
{
    let plan = creation_plan(id, title, diagram, schema_sql, log);
    law_write_is_all_or_nothing(t, scope, plan, times);
    law_writes_keep_times_in_order(t, plan, id, times);
    law_lookup_after_a_write(t, scope, plan, times, id, ex);
    law_created_thread_reads_back(t, id, title, diagram, schema_sql, log, times);
}

/// After an update that succeeded, while the clock ran forward, of a thread
/// that the tables held, a lookup of the thread that is answered from the
/// tables returns it with each part as the update gave it, or as it was
/// where the update gave nothing, and with the time of its creation.
pub proof fn law_lookup_after_update(
    t: Tables,
    scope: Scope,
    id: Text,
    title: Option<Option<Text>>,
    diagram: Option<Text>,
    schema_sql: Option<Text>,
    log: Option<Seq<MessageView>>,
    times: Seq<Text>,
    ex: Seq<Exchange>,
)
    requires
        t.wf(),
        t.times_in_order(),
        clock_runs_forward(t, times),
        t.lookup(id) is Ok,
        scope.follows(update_plan(id, title, diagram, schema_sql, log)),
        scope.result() is Ok,
        times.len() == update_plan(id, title, diagram, schema_sql, log).len(),
        t.run(update_plan(id, title, diagram, schema_sql, log), times) is Some,
        looked_up_in(t.after_scope(scope, times), id, ex),
    ensures
        ({
            let before = t.lookup(id)->Ok_0;
            let after = lookup_result(ex);
            &&& after is Ok
            &&& after->Ok_0.chat_id == before.chat_id
            &&& after->Ok_0.created_at == before.created_at
            &&& after->Ok_0.title == match title {
                Some(x) => x,
                None => before.title,
            }
            &&& after->Ok_0.diagram == match diagram {
                Some(d) => d,
                None => before.diagram,
            }
            &&& after->Ok_0.schema_sql == match schema_sql {
                Some(q) => q,
                None => before.schema_sql,
            }
            &&& after->Ok_0.conversation == match log {
                Some(l) => stored_log(l),
                None => before.conversation,
            }
            &&& text_le(before.updated_at, after->Ok_0.updated_at)
            &&& text_le(after->Ok_0.created_at, after->Ok_0.updated_at)
        }),
{
    let plan = update_plan(id, title, diagram, schema_sql, log);
    law_write_is_all_or_nothing(t, scope, plan, times);
    law_writes_keep_times_in_order(t, plan, id, times);
    law_lookup_after_a_write(t, scope, plan, times, id, ex);
    law_update_changes_what_is_given(t, id, title, diagram, schema_sql, log, times);
    lemma_lookup(t, id);
    let t2 = t.run(plan, times)->0;
    lemma_update_effect(t, id, title, diagram, schema_sql, log, times);
    let row = t.thread_rows(id)[0];
    let row2 = t2.thread_rows(id)[0];
    assert(row.len() == 6);
    assert(row2.len() == 6);
    assert(t.conversations.dom().contains(id));
    assert(t2.conversations.dom().contains(id));
    let before = t.lookup(id)->Ok_0;
    let after = t2.lookup(id)->Ok_0;
    assert(before.updated_at == t.conversations[id].updated_at);
    assert(after.updated_at == t2.conversations[id].updated_at);
    assert(after.created_at == t2.conversations[id].created_at);
    assert(t2.times_in_order());
    assert(text_le(t2.conversations[id].created_at, t2.conversations[id].updated_at));
    if title is Some {
        assert(t.not_after(times[0]));
        assert(text_le(t.conversations[id].updated_at, times[0]));
    } else {
        lemma_text_le_reflexive(before.updated_at);
    }
}

/// After a deletion that succeeded, a lookup of the thread that is answered
/// from the tables returns `NotFound`.
pub proof fn law_lookup_after_deletion(
    t: Tables,
    scope: Scope,
    id: Text,
    times: Seq<Text>,
    ex: Seq<Exchange>,
)
    requires
        t.times_in_order(),
        clock_runs_forward(t, times),
        scope.follows(deletion_plan(id)),
        scope.result() is Ok,
        times.len() == deletion_plan(id).len(),
        looked_up_in(t.after_scope(scope, times), id, ex),
    ensures
        lookup_result(ex) == Err::<ThreadView, StoreErrorView>(StoreErrorView::NotFound),
{
    let plan = deletion_plan(id);
    law_deleted_thread_is_gone(t, id, times);
    law_write_is_all_or_nothing(t, scope, plan, times);
    law_writes_keep_times_in_order(t, plan, id, times);
    law_lookup_after_a_write(t, scope, plan, times, id, ex);
}

/// After a creation, an update or a deletion of one thread, whether it
/// succeeded or failed, a lookup of another thread that is answered from
/// the tables returns what the tables held of it before.
pub proof fn law_lookup_of_another_thread_after_a_write(
    t: Tables,
    scope: Scope,
    plan: Seq<StatementView>,
    id: Text,
    other: Text,
    times: Seq<Text>,
    ex: Seq<Exchange>,
)
    requires
        other != id,
        scope.follows(plan),
        times.len() == plan.len(),
        scope.committed() ==> t.run(plan, times) is Some,
        t.after_scope(scope, times).times_in_order(),
        ({
            ||| exists|title: Option<Text>, diagram: Text, schema_sql: Text, log: Seq<MessageView>|
                plan == creation_plan(id, title, diagram, schema_sql, log)
            ||| exists|
                title: Option<Option<Text>>,
                diagram: Option<Text>,
                schema_sql: Option<Text>,
                log: Option<Seq<MessageView>>,
            |
                plan == update_plan(id, title, diagram, schema_sql, log)
            ||| plan == deletion_plan(id)
        }),
        looked_up_in(t.after_scope(scope, times), other, ex),
    ensures
        lookup_result(ex) == t.lookup(other),
{
    law_write_is_all_or_nothing(t, scope, plan, times);
    law_lookup_after_a_write(t, scope, plan, times, other, ex);
    if scope.result() is Ok {
        law_writes_leave_other_threads(t, plan, id, other, times);
    }
}

} // verus!
