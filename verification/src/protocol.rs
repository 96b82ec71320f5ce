//! The thread operations: create, read, update, delete, duplicate and list.
//!
//! A write runs its plan inside one transaction scope. A read hands the
//! engine one or two queries and decodes the answers. What each operation
//! returns is a function of what the engine answered, and the contracts say
//! which.

use vstd::prelude::*;
use crate::engine::fresh_id;
use crate::error::{StoreError, StoreErrorView};
use crate::journal::{
    added, answer_of, grows, is_query, lemma_grows_twice, lemma_one_more, ran_scope, Answer,
    Exchange,
};
use crate::mapper::{
    decode_ids, decode_messages, decode_thread, ids_of_rows, messages_of_rows, thread_of_row,
    with_conversation,
};
use crate::plan::{
    creation_plan, deletion_plan, optional_log, optional_title, plan_creation, plan_deletion,
    plan_update, update_plan,
};
use crate::statement::{Query, QueryView};
use crate::storage::{write_result_view, StorageHandle};
use crate::thread::{
    copy_title, copy_title_of, messages_view, optional_text, relabel, relabelled, texts_view,
    Message, MessageView, Text, Thread, ThreadView,
};

verus! {

/// The result of a lookup as contracts see it.
pub open spec fn thread_result_view(r: Result<Thread, StoreError>) -> Result<
    ThreadView,
    StoreErrorView,
> {
    match r {
        Ok(t) => Ok(t@),
        Err(e) => Err(e@),
    }
}

/// What the answer to the thread query says of the thread: the query was
/// refused, no conversation has the id, the first row cannot be decoded, or
/// the thread, still without its messages, that the first row stands for.
pub open spec fn base_of_answer(a: Answer) -> Result<ThreadView, StoreErrorView> {
    match a {
        Err(t) => Err(StoreErrorView::ReadFailed(t)),
        Ok(rows) => if rows.len() == 0 {
            Err(StoreErrorView::NotFound)
        } else {
            match thread_of_row(rows[0]) {
                Ok(t) => Ok(t),
                Err(f) => Err(StoreErrorView::Mapping(f)),
            }
        },
    }
}

/// What the answer to the message query says of the message log.
pub open spec fn log_of_answer(a: Answer) -> Result<Seq<MessageView>, StoreErrorView> {
    match a {
        Err(t) => Err(StoreErrorView::ReadFailed(t)),
        Ok(rows) => match messages_of_rows(rows) {
            Ok(log) => Ok(log),
            Err(f) => Err(StoreErrorView::Mapping(f)),
        },
    }
}

/// The number of exchanges that a lookup makes: the thread query, and the
/// message query only if the first answer stands for a thread.
pub open spec fn lookup_len(ex: Seq<Exchange>) -> int {
    if ex.len() >= 1 && base_of_answer(answer_of(ex[0])) is Ok {
        2
    } else {
        1
    }
}

/// Whether `ex` are the exchanges of one lookup of the thread `id`.
pub open spec fn is_lookup(id: Text, ex: Seq<Exchange>) -> bool {
    &&& ex.len() == lookup_len(ex)
    &&& is_query(ex[0], QueryView::Thread { id })
    &&& ex.len() == 2 ==> is_query(ex[1], QueryView::Messages { id })
}

/// What a lookup returns for the answers in its exchanges: the thread of
/// the first answer with the message log of the second, or the first
/// failure.
pub open spec fn lookup_result(ex: Seq<Exchange>) -> Result<ThreadView, StoreErrorView> {
    match base_of_answer(answer_of(ex[0])) {
        Err(e) => Err(e),
        Ok(t) => match log_of_answer(answer_of(ex[1])) {
            Err(e) => Err(e),
            Ok(log) => Ok(with_conversation(t, log)),
        },
    }
}

/// The number of characters of an id that a duplication draws.
pub const ID_LENGTH: usize = 36;

/// Whether `ex` are the exchanges of storing a copy of `source` under the
/// id `new_id`, with the ids `message_ids` for its messages, and reading it
/// back, and `r` is what comes of them: one transaction scope that runs the
/// creation plan of the copy, then, if it was committed, one lookup of the
/// new id, whose result is `r`.
pub open spec fn is_copy(
    source: ThreadView,
    new_id: Text,
    message_ids: Seq<Text>,
    ex: Seq<Exchange>,
    r: Result<ThreadView, StoreErrorView>,
) -> bool {
    &&& ex.len() >= 1
    &&& ex[0] matches Exchange::Scope(scope)
    &&& scope.follows(
        creation_plan(
            new_id,
            copy_title_of(source.title),
            source.diagram,
            source.schema_sql,
            relabelled(source.conversation, message_ids),
        ),
    )
    &&& match scope.result() {
        Err(e) => ex.len() == 1 && r == Err::<ThreadView, StoreErrorView>(e),
        Ok(_) => is_lookup(new_id, ex.skip(1)) && r == lookup_result(ex.skip(1)),
    }
}

/// The failure that a duplication reports when the lookup of its source
/// failed with `e`.
pub open spec fn source_failure(e: StoreErrorView) -> StoreErrorView {
    if e is NotFound {
        StoreErrorView::SourceNotFound
    } else {
        e
    }
}

/// Whether these are ids as a duplication draws them: `n` ids of 36
/// characters each.
pub open spec fn are_drawn_ids(ids: Seq<Text>, n: nat) -> bool {
    &&& ids.len() == n
    &&& forall|i: int| 0 <= i < ids.len() ==> (#[trigger] ids[i]).len() == ID_LENGTH
}

/// Whether `ex` are the exchanges of duplicating the thread `source_id`
/// under the id `new_id`, with the ids `message_ids` for the messages of
/// the copy, and `r` is what comes of them: one lookup of the source, then,
/// if it gave a thread, the exchanges of storing the copy under an id of 36
/// characters, with one drawn id for each message of the source.
pub open spec fn is_duplication(
    source_id: Text,
    new_id: Text,
    message_ids: Seq<Text>,
    ex: Seq<Exchange>,
    r: Result<ThreadView, StoreErrorView>,
) -> bool {
    let n = lookup_len(ex);
    &&& n <= ex.len()
    &&& is_lookup(source_id, ex.take(n))
    &&& match lookup_result(ex.take(n)) {
        Err(e) => ex.len() == n && r == Err::<ThreadView, StoreErrorView>(source_failure(e)),
        Ok(source) => {
            &&& new_id.len() == ID_LENGTH
            &&& are_drawn_ids(message_ids, source.conversation.len())
            &&& is_copy(source, new_id, message_ids, ex.skip(n), r)
        },
    }
}

/// The threads of a vector, each in its mathematical form.
pub open spec fn threads_view(v: Seq<Thread>) -> Seq<ThreadView> {
    Seq::new(v.len(), |i: int| v[i]@)
}

/// The result of a listing as contracts see it.
pub open spec fn listing_result_view(r: Result<Vec<Thread>, StoreError>) -> Result<
    Seq<ThreadView>,
    StoreErrorView,
> {
    match r {
        Ok(threads) => Ok(threads_view(threads@)),
        Err(e) => Err(e@),
    }
}

/// What the answer to the id query says of the conversation ids.
pub open spec fn ids_of_answer(a: Answer) -> Result<Seq<Text>, StoreErrorView> {
    match a {
        Err(t) => Err(StoreErrorView::ReadFailed(t)),
        Ok(rows) => match ids_of_rows(rows) {
            Ok(ids) => Ok(ids),
            Err(f) => Err(StoreErrorView::Mapping(f)),
        },
    }
}

/// The number of exchanges of the last lookup in `ex`: two if `ex` ends
/// with a message query, else one.
pub open spec fn last_lookup_len(ex: Seq<Exchange>) -> int {
    if ex.len() >= 1 && ex.last() matches Exchange::Query {
        query: QueryView::Messages { .. },
        ..
    } {
        2
    } else {
        1
    }
}

/// Whether `ex` are the exchanges of looking up the threads `ids` one after
/// another, where every lookup but the last gave a thread.
pub open spec fn are_lookups(ids: Seq<Text>, ex: Seq<Exchange>) -> bool
    decreases ids.len(),
{
    if ids.len() == 0 {
        ex.len() == 0
    } else {
        let n = last_lookup_len(ex);
        &&& n <= ex.len()
        &&& is_lookup(ids.last(), ex.skip(ex.len() - n))
        &&& are_lookups(ids.drop_last(), ex.take(ex.len() - n))
        &&& lookups_result(ids.drop_last(), ex.take(ex.len() - n)) is Ok
    }
}

/// What the lookups in `ex` give together: the threads in the order of
/// `ids`, or the failure of the last lookup.
pub open spec fn lookups_result(ids: Seq<Text>, ex: Seq<Exchange>) -> Result<
    Seq<ThreadView>,
    StoreErrorView,
>
    decreases ids.len(),
{
    if ids.len() == 0 {
        Ok(Seq::empty())
    } else {
        let n = last_lookup_len(ex);
        match lookups_result(ids.drop_last(), ex.take(ex.len() - n)) {
            Err(e) => Err(e),
            Ok(threads) => match lookup_result(ex.skip(ex.len() - n)) {
                Err(e) => Err(e),
                Ok(t) => Ok(threads.push(t)),
            },
        }
    }
}

/// Whether `ex` are the exchanges of listing all threads, and `r` is what
/// comes of them: the id query, then one lookup per id in the order of the
/// answer, up to the first lookup that fails. `r` is that failure, or all
/// the threads.
pub open spec fn is_listing(ex: Seq<Exchange>, r: Result<Seq<ThreadView>, StoreErrorView>) -> bool {
    &&& ex.len() >= 1
    &&& is_query(ex[0], QueryView::ConversationIds)
    &&& match ids_of_answer(answer_of(ex[0])) {
        Err(e) => ex.len() == 1 && r == Err::<Seq<ThreadView>, StoreErrorView>(e),
        Ok(ids) => exists|k: int|
            {
                &&& 0 <= k <= ids.len()
                &&& #[trigger] are_lookups(ids.take(k), ex.skip(1))
                &&& r == lookups_result(ids.take(k), ex.skip(1))
                &&& r is Ok ==> k == ids.len()
            },
    }
}

/// Creates a thread: one conversation row, one schema record and one
/// message row per message, inside one transaction scope.
pub fn create_thread(
    store: &mut StorageHandle,
    chat_id: String,
    title: Option<String>,
    diagram: String,
    schema_sql: String,
    conversation: Vec<Message>,
) -> (r: Result<(), StoreError>)
    ensures
        final(store).opened_at() == old(store).opened_at(),
        ran_scope(
            old(store).journal(),
            final(store).journal(),
            creation_plan(
                chat_id@,
                optional_text(title),
                diagram@,
                schema_sql@,
                messages_view(conversation@),
            ),
            write_result_view(r),
        ),
{
    let plan = plan_creation(&chat_id, &title, &diagram, &schema_sql, &conversation);
    store.run_scope(&plan)
}

/// Updates a thread inside one transaction scope. An argument that is
/// `None` leaves its part of the thread untouched. A title that is given
/// may itself be `None`, which sets the title to none; a message log that
/// is given replaces the stored one.
pub fn update_thread(
    store: &mut StorageHandle,
    chat_id: String,
    title: Option<Option<String>>,
    diagram: Option<String>,
    schema_sql: Option<String>,
    conversation: Option<Vec<Message>>,
) -> (r: Result<(), StoreError>)
    ensures
        final(store).opened_at() == old(store).opened_at(),
        ran_scope(
            old(store).journal(),
            final(store).journal(),
            update_plan(
                chat_id@,
                optional_title(title),
                optional_text(diagram),
                optional_text(schema_sql),
                optional_log(conversation),
            ),
            write_result_view(r),
        ),
{
    let plan = plan_update(&chat_id, &title, &diagram, &schema_sql, &conversation);
    store.run_scope(&plan)
}

/// Deletes a thread inside one transaction scope: its messages, its schema
/// record and its conversation row.
pub fn delete_thread(store: &mut StorageHandle, chat_id: String) -> (r: Result<(), StoreError>)
    ensures
        final(store).opened_at() == old(store).opened_at(),
        ran_scope(
            old(store).journal(),
            final(store).journal(),
            deletion_plan(chat_id@),
            write_result_view(r),
        ),
{
    let plan = plan_deletion(&chat_id);
    store.run_scope(&plan)
}

/// Looks a thread up: the conversation with its schema record, then its
/// messages, oldest first.
pub fn get_thread(store: &mut StorageHandle, chat_id: String) -> (r: Result<Thread, StoreError>)
    ensures
        final(store).opened_at() == old(store).opened_at(),
        grows(old(store).journal(), final(store).journal()),
        is_lookup(chat_id@, added(old(store).journal(), final(store).journal())),
        thread_result_view(r) == lookup_result(
            added(old(store).journal(), final(store).journal()),
        ),
{
    let ghost before = store.journal();
    let first = store.ask(&Query::Thread { id: chat_id.clone() });
    let ghost middle = store.journal();
    proof {
        lemma_one_more(before, middle);
    }
    let rows = match first {
        Ok(rows) => rows,
        Err(text) => {
            return Err(StoreError::ReadFailed(text));
        },
    };
    if rows.len() == 0 {
        return Err(StoreError::NotFound);
    }
    let mut thread = match decode_thread(&rows[0]) {
        Ok(t) => t,
        Err(f) => {
            return Err(StoreError::Mapping(f));
        },
    };
    let second = store.ask(&Query::Messages { id: chat_id });
    proof {
        let after = store.journal();
        lemma_one_more(middle, after);
        lemma_grows_twice(before, middle, after);
        assert(added(before, after) =~= seq![middle.last(), after.last()]);
    }
    let message_rows = match second {
        Ok(rows) => rows,
        Err(text) => {
            return Err(StoreError::ReadFailed(text));
        },
    };
    match decode_messages(&message_rows) {
        Ok(log) => {
            thread.conversation = log;
            Ok(thread)
        },
        Err(f) => Err(StoreError::Mapping(f)),
    }
}

/// Stores a copy of `source` under the id `new_id` and reads it back, so
/// that the copy that is returned carries the times that the store gave it.
/// The copy has the title of the source with the copy suffix behind it, and
/// the diagram, the schema SQL and the messages of the source. The message
/// at position `i` is stored under the id at position `i` of `message_ids`,
/// and under its own where `message_ids` is too short.
pub fn copy_thread(
    store: &mut StorageHandle,
    source: &Thread,
    new_id: String,
    message_ids: Vec<String>,
) -> (r: Result<Thread, StoreError>)
    ensures
        final(store).opened_at() == old(store).opened_at(),
        grows(old(store).journal(), final(store).journal()),
        is_copy(
            source@,
            new_id@,
            texts_view(message_ids@),
            added(old(store).journal(), final(store).journal()),
            thread_result_view(r),
        ),
{
    let ghost before = store.journal();
    let created = create_thread(
        store,
        new_id.clone(),
        copy_title(&source.title),
        source.diagram.clone(),
        source.schema_sql.clone(),
        relabel(&source.conversation, &message_ids),
    );
    let ghost middle = store.journal();
    proof {
        lemma_one_more(before, middle);
    }
    match created {
        Err(e) => Err(e),
        Ok(()) => {
            let r = get_thread(store, new_id);
            proof {
                let after = store.journal();
                lemma_grows_twice(before, middle, after);
                assert(added(before, after).skip(1) =~= added(middle, after));
            }
            r
        },
    }
}

/// Draws `n` fresh random ids.
pub fn draw_ids(n: usize) -> (ids: Vec<String>)
    ensures
        are_drawn_ids(texts_view(ids@), n as nat),
{
    let mut ids: Vec<String> = Vec::new();
    let mut i: usize = 0;
    while i < n
        invariant
            i <= n,
            ids.len() == i,
            forall|k: int| 0 <= k < i ==> (#[trigger] ids[k])@.len() == ID_LENGTH,
        decreases n - i,
    {
        ids.push(fresh_id());
        i += 1;
    }
    ids
}

/// Duplicates a thread: looks the source up, draws a fresh random id for
/// the copy and one for each of its messages, and stores the copy under
/// them. A source that no conversation row stands for is a `SourceNotFound`
/// error; any other failure is returned as it came.
pub fn duplicate_thread(store: &mut StorageHandle, chat_id: String) -> (r: Result<Thread, StoreError>)
    ensures
        final(store).opened_at() == old(store).opened_at(),
        grows(old(store).journal(), final(store).journal()),
        exists|new_id: Text, message_ids: Seq<Text>| #[trigger]
            is_duplication(
                chat_id@,
                new_id,
                message_ids,
                added(old(store).journal(), final(store).journal()),
                thread_result_view(r),
            ),
{
    let ghost before = store.journal();
    let looked_up = get_thread(store, chat_id);
    let ghost middle = store.journal();
    let ghost first = added(before, middle);
    proof {
        assert(first.take(lookup_len(first)) =~= first);
    }
    let source = match looked_up {
        Ok(t) => t,
        Err(StoreError::NotFound) => {
            assert(is_duplication(
                chat_id@,
                Seq::empty(),
                Seq::empty(),
                first,
                Err(StoreErrorView::SourceNotFound),
            ));
            return Err(StoreError::SourceNotFound);
        },
        Err(e) => {
            assert(is_duplication(chat_id@, Seq::empty(), Seq::empty(), first, Err(e@)));
            return Err(e);
        },
    };
    let new_id = fresh_id();
    let message_ids = draw_ids(source.conversation.len());
    let ghost id = new_id@;
    let ghost ids = texts_view(message_ids@);
    let r = copy_thread(store, &source, new_id, message_ids);
    proof {
        let after = store.journal();
        lemma_grows_twice(before, middle, after);
        let ex = added(before, after);
        let n = first.len() as int;
        assert(ex.take(n) =~= first);
        assert(ex[0] == first[0]);
        assert(lookup_len(ex) == n);
        assert(ex.skip(n) =~= added(middle, after));
        assert(is_duplication(chat_id@, id, ids, ex, thread_result_view(r)));
    }
    r
}

/// Lists all threads, most recently updated first: asks for the
/// conversation ids in that order, then looks each one up. The first lookup
/// that fails ends the listing with its failure.
pub fn get_all_threads(store: &mut StorageHandle) -> (r: Result<Vec<Thread>, StoreError>)
    ensures
        final(store).opened_at() == old(store).opened_at(),
        grows(old(store).journal(), final(store).journal()),
        is_listing(added(old(store).journal(), final(store).journal()), listing_result_view(r)),
{
    let ghost before = store.journal();
    let first = store.ask(&Query::ConversationIds);
    let ghost start = store.journal();
    proof {
        lemma_one_more(before, start);
    }
    let rows = match first {
        Ok(rows) => rows,
        Err(text) => {
            return Err(StoreError::ReadFailed(text));
        },
    };
    let ids = match decode_ids(&rows) {
        Ok(ids) => ids,
        Err(f) => {
            return Err(StoreError::Mapping(f));
        },
    };
    let ghost all = texts_view(ids@);
    let mut threads: Vec<Thread> = Vec::new();
    let mut i: usize = 0;
    proof {
        assert(added(start, start) =~= Seq::<Exchange>::empty());
        assert(threads_view(threads@) =~= Seq::<ThreadView>::empty());
        assert(all.take(0).len() == 0);
        assert(start.take(start.len() as int) =~= start);
    }
    while i < ids.len()
        invariant
            i <= ids.len(),
            all == texts_view(ids@),
            store.opened_at() == old(store).opened_at(),
            before == old(store).journal(),
            grows(before, start),
            added(before, start) == seq![start.last()],
            grows(start, store.journal()),
            are_lookups(all.take(i as int), added(start, store.journal())),
            lookups_result(all.take(i as int), added(start, store.journal())) == Ok::<
                Seq<ThreadView>,
                StoreErrorView,
            >(threads_view(threads@)),
            is_query(start.last(), QueryView::ConversationIds),
            ids_of_answer(answer_of(start.last())) == Ok::<Seq<Text>, StoreErrorView>(all),
        decreases ids.len() - i,
    {
        let ghost earlier = store.journal();
        let looked_up = get_thread(store, ids[i].clone());
        let ghost later = store.journal();
        proof {
            lemma_grows_twice(start, earlier, later);
            lemma_grows_twice(before, start, later);
            let ex = added(start, later);
            let last = added(earlier, later);
            let n = last.len() as int;
            assert(ex.skip(ex.len() - n) =~= last);
            assert(ex.take(ex.len() - n) =~= added(start, earlier));
            assert(ex.last() == last.last());
            assert(last_lookup_len(ex) == n);
            assert(all.take(i + 1).drop_last() =~= all.take(i as int));
            assert(all.take(i + 1).last() == ids[i as int]@);
            assert(are_lookups(all.take(i + 1), ex));
            assert(lookups_result(all.take(i + 1), ex) == match lookup_result(last) {
                Err(e) => Err::<Seq<ThreadView>, StoreErrorView>(e),
                Ok(t) => Ok(threads_view(threads@).push(t)),
            });
            assert(added(before, later).skip(1) =~= ex);
        }
        match looked_up {
            Ok(t) => {
                let ghost listed = threads_view(threads@);
                threads.push(t);
                assert(threads_view(threads@) =~= listed.push(t@));
            },
            Err(e) => {
                return Err(e);
            },
        }
        i += 1;
    }
    proof {
        let later = store.journal();
        lemma_grows_twice(before, start, later);
        assert(added(before, later).skip(1) =~= added(start, later));
        assert(all.take(i as int) =~= all);
    }
    Ok(threads)
}

} // verus!
