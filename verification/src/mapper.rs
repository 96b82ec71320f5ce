//! The read side of the aggregate mapper: from the rows that the engine
//! returns to the thread aggregate.

use vstd::prelude::*;
use crate::engine::{Cell, CellView};
use crate::error::{Column, Fault};
use crate::thread::{
    messages_view, role_name, role_of_code, texts_view, Message, MessageView, Text, Thread,
    ThreadView,
};

verus! {

/// Number of columns that the thread query selects.
pub const THREAD_COLUMNS: usize = 6;

/// Number of columns that the message query selects.
pub const MESSAGE_COLUMNS: usize = 4;

/// The cells of a row, each in its mathematical form.
pub open spec fn cells_view(row: Seq<Cell>) -> Seq<CellView> {
    Seq::new(row.len(), |i: int| row[i]@)
}

/// The rows of a result, each in its mathematical form.
pub open spec fn rows_view(rows: Seq<Vec<Cell>>) -> Seq<Seq<CellView>> {
    Seq::new(rows.len(), |i: int| cells_view(rows[i]@))
}

/// The text in a cell of a text column that admits no NULL.
pub open spec fn cell_text(c: CellView) -> Option<Text> {
    match c {
        CellView::Text(s) => Some(s),
        _ => None,
    }
}

/// The text in a cell of a text column that admits NULL.
pub open spec fn cell_optional_text(c: CellView) -> Option<Option<Text>> {
    match c {
        CellView::Null => Some(None),
        CellView::Text(s) => Some(Some(s)),
        _ => None,
    }
}

/// The sender-type code in a cell: an integer that fits in 32 bits.
pub open spec fn cell_sender(c: CellView) -> Option<int> {
    match c {
        CellView::Integer(i) => if i32::MIN <= i <= i32::MAX {
            Some(i)
        } else {
            None
        },
        _ => None,
    }
}

/// The message that a row of the message query stands for. The columns are
/// message id, content, sender-type code and creation time; they are checked
/// in the order sender, creation time, id, content, and the first one whose
/// value is not of its type decides the fault. The creation time is checked
/// and then dropped: the message is read back with timestamp 0 and without
/// a diagram.
pub open spec fn message_of_row(row: Seq<CellView>) -> Result<MessageView, Fault> {
    if row.len() != MESSAGE_COLUMNS {
        Err(Fault::RowWidth)
    } else if cell_sender(row[2]) is None {
        Err(Fault::Value(Column::Sender))
    } else if cell_text(row[3]) is None {
        Err(Fault::Value(Column::MessageCreatedAt))
    } else if cell_text(row[0]) is None {
        Err(Fault::Value(Column::MessageId))
    } else if cell_text(row[1]) is None {
        Err(Fault::Value(Column::Content))
    } else {
        Ok(
            MessageView {
                id: cell_text(row[0])->0,
                timestamp: 0,
                role: role_of_code(cell_sender(row[2])->0),
                message: cell_text(row[1])->0,
                diagram: None,
            },
        )
    }
}

/// The message log that the rows of the message query stand for, in the
/// order of the rows. The first row that stands for no message decides the
/// fault.
pub open spec fn messages_of_rows(rows: Seq<Seq<CellView>>) -> Result<Seq<MessageView>, Fault>
    decreases rows.len(),
{
    if rows.len() == 0 {
        Ok(Seq::empty())
    } else {
        match messages_of_rows(rows.drop_last()) {
            Err(f) => Err(f),
            Ok(log) => match message_of_row(rows.last()) {
                Err(f) => Err(f),
                Ok(m) => Ok(log.push(m)),
            },
        }
    }
}

/// The thread, still without its messages, that a row of the thread query
/// stands for. The columns are conversation id, title, creation time, update
/// time, schema SQL and diagram; they are checked in that order, and only the
/// title may be NULL.
pub open spec fn thread_of_row(row: Seq<CellView>) -> Result<ThreadView, Fault> {
    if row.len() != THREAD_COLUMNS {
        Err(Fault::RowWidth)
    } else if cell_text(row[0]) is None {
        Err(Fault::Value(Column::ConversationId))
    } else if cell_optional_text(row[1]) is None {
        Err(Fault::Value(Column::Title))
    } else if cell_text(row[2]) is None {
        Err(Fault::Value(Column::CreatedAt))
    } else if cell_text(row[3]) is None {
        Err(Fault::Value(Column::UpdatedAt))
    } else if cell_text(row[4]) is None {
        Err(Fault::Value(Column::SchemaSql))
    } else if cell_text(row[5]) is None {
        Err(Fault::Value(Column::Diagram))
    } else {
        Ok(
            ThreadView {
                chat_id: cell_text(row[0])->0,
                title: cell_optional_text(row[1])->0,
                diagram: cell_text(row[5])->0,
                schema_sql: cell_text(row[4])->0,
                conversation: Seq::empty(),
                created_at: cell_text(row[2])->0,
                updated_at: cell_text(row[3])->0,
            },
        )
    }
}

/// The conversation id that a row of the id query stands for.
pub open spec fn id_of_row(row: Seq<CellView>) -> Result<Text, Fault> {
    if row.len() != 1 {
        Err(Fault::RowWidth)
    } else if cell_text(row[0]) is None {
        Err(Fault::Value(Column::ConversationId))
    } else {
        Ok(cell_text(row[0])->0)
    }
}

/// The conversation ids that the rows of the id query stand for, in the
/// order of the rows. The first row that stands for no id decides the fault.
pub open spec fn ids_of_rows(rows: Seq<Seq<CellView>>) -> Result<Seq<Text>, Fault>
    decreases rows.len(),
{
    if rows.len() == 0 {
        Ok(Seq::empty())
    } else {
        match ids_of_rows(rows.drop_last()) {
            Err(f) => Err(f),
            Ok(ids) => match id_of_row(rows.last()) {
                Err(f) => Err(f),
                Ok(id) => Ok(ids.push(id)),
            },
        }
    }
}

/// A thread with its message log replaced.
pub open spec fn with_conversation(t: ThreadView, log: Seq<MessageView>) -> ThreadView {
    ThreadView { conversation: log, ..t }
}

/// A fault in a prefix of the rows is the fault of all the rows.
pub proof fn lemma_fault_in_prefix(rows: Seq<Seq<CellView>>, n: int)
    requires
        0 <= n <= rows.len(),
        messages_of_rows(rows.take(n)) is Err,
    ensures
        messages_of_rows(rows) == messages_of_rows(rows.take(n)),
    decreases rows.len() - n,
{
    if n < rows.len() {
        assert(rows.take(n + 1).drop_last() =~= rows.take(n));
        lemma_fault_in_prefix(rows, n + 1);
    } else {
        assert(rows.take(n) =~= rows);
    }
}

/// A fault in a prefix of the rows of the id query is the fault of all the
/// rows.
pub proof fn lemma_id_fault_in_prefix(rows: Seq<Seq<CellView>>, n: int)
    requires
        0 <= n <= rows.len(),
        ids_of_rows(rows.take(n)) is Err,
    ensures
        ids_of_rows(rows) == ids_of_rows(rows.take(n)),
    decreases rows.len() - n,
{
    if n < rows.len() {
        assert(rows.take(n + 1).drop_last() =~= rows.take(n));
        lemma_id_fault_in_prefix(rows, n + 1);
    } else {
        assert(rows.take(n) =~= rows);
    }
}

/// The text of a cell, if it holds text.
fn read_text(c: &Cell) -> (text: Option<String>)
    ensures
        crate::thread::optional_text(text) == cell_text(c@),
{
    match c {
        Cell::Text(s) => Some(s.clone()),
        _ => None,
    }
}

/// The text of a cell that may be NULL.
fn read_optional_text(c: &Cell) -> (text: Option<Option<String>>)
    ensures
        text is None <==> cell_optional_text(c@) is None,
        text matches Some(t) ==> cell_optional_text(c@) == Some(crate::thread::optional_text(t)),
{
    match c {
        Cell::Null => Some(None),
        Cell::Text(s) => Some(Some(s.clone())),
        _ => None,
    }
}

/// The sender-type code of a cell.
fn read_sender(c: &Cell) -> (code: Option<i32>)
    ensures
        code is None <==> cell_sender(c@) is None,
        code matches Some(i) ==> cell_sender(c@) == Some(i as int),
{
    match c {
        Cell::Integer(i) => {
            if -2147483648 <= *i && *i <= 2147483647 {
                Some(*i as i32)
            } else {
                None
            }
        },
        _ => None,
    }
}

/// Decodes one row of the message query.
pub fn decode_message(row: &Vec<Cell>) -> (r: Result<Message, Fault>)
    ensures
        r is Ok <==> message_of_row(cells_view(row@)) is Ok,
        r matches Ok(m) ==> message_of_row(cells_view(row@)) == Ok::<MessageView, Fault>(m@),
        r matches Err(f) ==> message_of_row(cells_view(row@)) == Err::<MessageView, Fault>(f),
{
    if row.len() != MESSAGE_COLUMNS {
        return Err(Fault::RowWidth);
    }
    let sender = match read_sender(&row[2]) {
        Some(code) => code,
        None => { return Err(Fault::Value(Column::Sender)); },
    };
    if read_text(&row[3]).is_none() {
        return Err(Fault::Value(Column::MessageCreatedAt));
    }
    let id = match read_text(&row[0]) {
        Some(text) => text,
        None => { return Err(Fault::Value(Column::MessageId)); },
    };
    let content = match read_text(&row[1]) {
        Some(text) => text,
        None => { return Err(Fault::Value(Column::Content)); },
    };
    Ok(Message { id, timestamp: 0, role: role_name(sender as i64), message: content, diagram: None })
}

/// Decodes the rows of the message query into a message log.
pub fn decode_messages(rows: &Vec<Vec<Cell>>) -> (r: Result<Vec<Message>, Fault>)
    ensures
        r is Ok <==> messages_of_rows(rows_view(rows@)) is Ok,
        r matches Ok(log) ==> messages_of_rows(rows_view(rows@)) == Ok::<Seq<MessageView>, Fault>(
            messages_view(log@),
        ),
        r matches Err(f) ==> messages_of_rows(rows_view(rows@)) == Err::<Seq<MessageView>, Fault>(f),
{
    let ghost all = rows_view(rows@);
    let mut log: Vec<Message> = Vec::new();
    let mut i: usize = 0;
    assert(messages_view(log@) =~= Seq::<MessageView>::empty());
    assert(all.take(0).len() == 0);
    while i < rows.len()
        invariant
            i <= rows.len(),
            all == rows_view(rows@),
            messages_of_rows(all.take(i as int)) == Ok::<Seq<MessageView>, Fault>(messages_view(log@)),
        decreases rows.len() - i,
    {
        proof {
            assert(all.take(i + 1).drop_last() =~= all.take(i as int));
            assert(all.take(i + 1).last() == cells_view(rows[i as int]@));
        }
        match decode_message(&rows[i]) {
            Ok(m) => {
                let ghost before = messages_view(log@);
                log.push(m);
                assert(messages_view(log@) =~= before.push(m@));
            },
            Err(f) => {
                proof {
                    lemma_fault_in_prefix(all, i + 1);
                }
                return Err(f);
            },
        }
        i += 1;
    }
    assert(all.take(i as int) =~= all);
    Ok(log)
}

/// Decodes the rows of the id query into conversation ids.
pub fn decode_ids(rows: &Vec<Vec<Cell>>) -> (r: Result<Vec<String>, Fault>)
    ensures
        r is Ok <==> ids_of_rows(rows_view(rows@)) is Ok,
        r matches Ok(ids) ==> ids_of_rows(rows_view(rows@)) == Ok::<Seq<Text>, Fault>(
            texts_view(ids@),
        ),
        r matches Err(f) ==> ids_of_rows(rows_view(rows@)) == Err::<Seq<Text>, Fault>(f),
{
    let ghost all = rows_view(rows@);
    let mut ids: Vec<String> = Vec::new();
    let mut i: usize = 0;
    assert(texts_view(ids@) =~= Seq::<Text>::empty());
    assert(all.take(0).len() == 0);
    while i < rows.len()
        invariant
            i <= rows.len(),
            all == rows_view(rows@),
            ids_of_rows(all.take(i as int)) == Ok::<Seq<Text>, Fault>(texts_view(ids@)),
        decreases rows.len() - i,
    {
        proof {
            assert(all.take(i + 1).drop_last() =~= all.take(i as int));
            assert(all.take(i + 1).last() == cells_view(rows[i as int]@));
        }
        let row = &rows[i];
        if row.len() != 1 {
            proof {
                lemma_id_fault_in_prefix(all, i + 1);
            }
            return Err(Fault::RowWidth);
        }
        match read_text(&row[0]) {
            Some(id) => {
                let ghost before = texts_view(ids@);
                ids.push(id);
                assert(texts_view(ids@) =~= before.push(id@));
            },
            None => {
                proof {
                    lemma_id_fault_in_prefix(all, i + 1);
                }
                return Err(Fault::Value(Column::ConversationId));
            },
        }
        i += 1;
    }
    assert(all.take(i as int) =~= all);
    Ok(ids)
}

/// Decodes one row of the thread query into a thread that has no messages
/// yet.
pub fn decode_thread(row: &Vec<Cell>) -> (r: Result<Thread, Fault>)
    ensures
        r is Ok <==> thread_of_row(cells_view(row@)) is Ok,
        r matches Ok(t) ==> thread_of_row(cells_view(row@)) == Ok::<ThreadView, Fault>(t@),
        r matches Err(f) ==> thread_of_row(cells_view(row@)) == Err::<ThreadView, Fault>(f),
{
    if row.len() != THREAD_COLUMNS {
        return Err(Fault::RowWidth);
    }
    let chat_id = match read_text(&row[0]) {
        Some(text) => text,
        None => { return Err(Fault::Value(Column::ConversationId)); },
    };
    let title = match read_optional_text(&row[1]) {
        Some(text) => text,
        None => { return Err(Fault::Value(Column::Title)); },
    };
    let created_at = match read_text(&row[2]) {
        Some(text) => text,
        None => { return Err(Fault::Value(Column::CreatedAt)); },
    };
    let updated_at = match read_text(&row[3]) {
        Some(text) => text,
        None => { return Err(Fault::Value(Column::UpdatedAt)); },
    };
    let schema_sql = match read_text(&row[4]) {
        Some(text) => text,
        None => { return Err(Fault::Value(Column::SchemaSql)); },
    };
    let diagram = match read_text(&row[5]) {
        Some(text) => text,
        None => { return Err(Fault::Value(Column::Diagram)); },
    };
    let t = Thread {
        chat_id,
        title,
        diagram,
        schema_sql,
        conversation: Vec::new(),
        created_at,
        updated_at,
    };
    assert(t@.conversation =~= Seq::empty());
    Ok(t)
}

} // verus!
