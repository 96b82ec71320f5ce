//! The failures that the persistence layer reports.

use vstd::prelude::*;
use crate::thread::Text;

verus! {

/// A column that the read path decodes.
#[derive(Debug, Clone, Copy, PartialEq, Eq, Structural)]
pub enum Column {
    ConversationId,
    Title,
    CreatedAt,
    UpdatedAt,
    SchemaSql,
    Diagram,
    MessageId,
    Content,
    Sender,
    MessageCreatedAt,
}

/// Why a result row could not be turned into a value of the aggregate.
#[derive(Debug, Clone, Copy, PartialEq, Eq, Structural)]
pub enum Fault {
    /// The row does not have the number of columns that the query selects.
    RowWidth,
    /// The value in this column is not of the type that the column stands for.
    Value(Column),
}

/// A failure of the persistence layer.
#[derive(Debug, Clone, PartialEq, Eq)]
pub enum StoreError {
    /// The store could not be opened or its tables could not be created.
    StorageInit(String),
    /// A transaction scope could not be opened, one of its statements was
    /// refused, or it could not be committed. Nothing of the scope is kept.
    WriteFailed(String),
    /// The engine refused a query.
    ReadFailed(String),
    /// No conversation has the id that was looked up.
    NotFound,
    /// No conversation has the id of the thread that was to be copied.
    SourceNotFound,
    /// A stored value is not of the type that its column stands for.
    Mapping(Fault),
}

/// Mathematical form of a [`StoreError`].
pub enum StoreErrorView {
    StorageInit(Text),
    WriteFailed(Text),
    ReadFailed(Text),
    NotFound,
    SourceNotFound,
    Mapping(Fault),
}

impl View for StoreError {
    type V = StoreErrorView;

    open spec fn view(&self) -> StoreErrorView {
        match self {
            StoreError::StorageInit(t) => StoreErrorView::StorageInit(t@),
            StoreError::WriteFailed(t) => StoreErrorView::WriteFailed(t@),
            StoreError::ReadFailed(t) => StoreErrorView::ReadFailed(t@),
            StoreError::NotFound => StoreErrorView::NotFound,
            StoreError::SourceNotFound => StoreErrorView::SourceNotFound,
            StoreError::Mapping(f) => StoreErrorView::Mapping(*f),
        }
    }
}

/// The name of a column as the message of a mapping failure gives it.
pub open spec fn column_name_of(c: Column) -> Text {
    match c {
        Column::ConversationId => "conversation_id"@,
        Column::Title => "title"@,
        Column::CreatedAt => "created_at"@,
        Column::UpdatedAt => "updated_at"@,
        Column::SchemaSql => "schema_sql"@,
        Column::Diagram => "diagram"@,
        Column::MessageId => "message_id"@,
        Column::Content => "content"@,
        Column::Sender => "sender"@,
        Column::MessageCreatedAt => "messages.created_at"@,
    }
}

/// The message of a mapping failure.
pub open spec fn fault_message_of(f: Fault) -> Text {
    match f {
        Fault::RowWidth => "Stored row has an unexpected number of columns"@,
        Fault::Value(c) => "Stored value has an unexpected type in column "@ + column_name_of(c),
    }
}

/// The message that the caller shows for an error: the engine's own text
/// where the engine failed, a fixed sentence otherwise.
pub open spec fn message_of(e: StoreErrorView) -> Text {
    match e {
        StoreErrorView::StorageInit(t) => t,
        StoreErrorView::WriteFailed(t) => t,
        StoreErrorView::ReadFailed(t) => t,
        StoreErrorView::NotFound => "Thread not found"@,
        StoreErrorView::SourceNotFound => "Source thread not found: Thread not found"@,
        StoreErrorView::Mapping(f) => fault_message_of(f),
    }
}

impl Column {
    /// The column's name.
    pub fn name(&self) -> (name: &'static str)
        ensures
            name@ == column_name_of(*self),
    {
        match self {
            Column::ConversationId => "conversation_id",
            Column::Title => "title",
            Column::CreatedAt => "created_at",
            Column::UpdatedAt => "updated_at",
            Column::SchemaSql => "schema_sql",
            Column::Diagram => "diagram",
            Column::MessageId => "message_id",
            Column::Content => "content",
            Column::Sender => "sender",
            Column::MessageCreatedAt => "messages.created_at",
        }
    }
}

impl Fault {
    /// The message of this mapping failure.
    pub fn message(&self) -> (text: String)
        ensures
            text@ == fault_message_of(*self),
    {
        match self {
            Fault::RowWidth => "Stored row has an unexpected number of columns".to_owned(),
            Fault::Value(c) => {
                "Stored value has an unexpected type in column ".to_owned().concat(c.name())
            },
        }
    }
}

impl StoreError {
    /// The message that the caller shows for this error.
    pub fn message(&self) -> (text: String)
        ensures
            text@ == message_of(self@),
    {
        match self {
            StoreError::StorageInit(t) => t.clone(),
            StoreError::WriteFailed(t) => t.clone(),
            StoreError::ReadFailed(t) => t.clone(),
            StoreError::NotFound => "Thread not found".to_owned(),
            StoreError::SourceNotFound => "Source thread not found: Thread not found".to_owned(),
            StoreError::Mapping(f) => f.message(),
        }
    }
}

} // verus!
