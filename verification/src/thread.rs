//! The thread aggregate and the mapping between a message's role and the
//! sender-type code under which it is stored.

use vstd::prelude::*;

verus! {

/// One entry of a conversation's message log.
#[derive(Debug, Clone, PartialEq, Eq)]
pub struct Message {
    pub id: String,
    pub timestamp: i64,
    pub role: String,
    pub message: String,
    pub diagram: Option<String>,
}

/// A conversation with its schema record and its ordered message log.
#[derive(Debug, Clone, PartialEq, Eq)]
pub struct Thread {
    pub chat_id: String,
    pub title: Option<String>,
    pub diagram: String,
    pub schema_sql: String,
    pub conversation: Vec<Message>,
    pub created_at: String,
    pub updated_at: String,
}

/// Text as contracts see it.
pub type Text = Seq<char>;

/// Mathematical form of a [`Message`].
pub struct MessageView {
    pub id: Text,
    pub timestamp: int,
    pub role: Text,
    pub message: Text,
    pub diagram: Option<Text>,
}

/// Mathematical form of a [`Thread`].
pub struct ThreadView {
    pub chat_id: Text,
    pub title: Option<Text>,
    pub diagram: Text,
    pub schema_sql: Text,
    pub conversation: Seq<MessageView>,
    pub created_at: Text,
    pub updated_at: Text,
}

/// The text inside an optional string.
pub open spec fn optional_text(s: Option<String>) -> Option<Text> {
    match s {
        Some(t) => Some(t@),
        None => None,
    }
}

/// The messages of a vector, each in its mathematical form.
pub open spec fn messages_view(v: Seq<Message>) -> Seq<MessageView> {
    Seq::new(v.len(), |i: int| v[i]@)
}

impl View for Message {
    type V = MessageView;

    open spec fn view(&self) -> MessageView {
        MessageView {
            id: self.id@,
            timestamp: self.timestamp as int,
            role: self.role@,
            message: self.message@,
            diagram: optional_text(self.diagram),
        }
    }
}

impl View for Thread {
    type V = ThreadView;

    open spec fn view(&self) -> ThreadView {
        ThreadView {
            chat_id: self.chat_id@,
            title: optional_text(self.title),
            diagram: self.diagram@,
            schema_sql: self.schema_sql@,
            conversation: messages_view(self.conversation@),
            created_at: self.created_at@,
            updated_at: self.updated_at@,
        }
    }
}

/// Sender-type code of the role "user".
pub const SENDER_USER: i64 = 1;

/// Sender-type code of every other role.
pub const SENDER_ASSISTANT: i64 = 2;

/// The name of the one role that has a sender-type code of its own.
pub open spec fn user_role() -> Text {
    "user"@
}

/// The name under which every other stored message is read back.
pub open spec fn assistant_role() -> Text {
    "assistant"@
}

/// The sender-type code under which a role is stored: 1 for "user", 2 for
/// any other text.
pub open spec fn sender_code_of(role: Text) -> int {
    if role == user_role() {
        1
    } else {
        2
    }
}

/// The role read back from a sender-type code: "user" for 1, "assistant" for
/// any other code.
pub open spec fn role_of_code(code: int) -> Text {
    if code == 1 {
        user_role()
    } else {
        assistant_role()
    }
}

/// Whether two string slices hold the same text.
pub fn same_text(a: &str, b: &str) -> (same: bool)
    ensures
        same == (a@ == b@),
{
    a.to_owned() == b.to_owned()
}

/// A copy of an optional string.
pub fn copy_optional(s: &Option<String>) -> (copy: Option<String>)
    ensures
        optional_text(copy) == optional_text(*s),
{
    match s {
        Some(t) => Some(t.clone()),
        None => None,
    }
}

/// The sender-type code under which `role` is stored.
pub fn sender_code(role: &str) -> (code: i64)
    ensures
        code == sender_code_of(role@),
{
    if same_text(role, "user") {
        SENDER_USER
    } else {
        SENDER_ASSISTANT
    }
}

/// The role that a stored sender-type code is read back as.
pub fn role_name(code: i64) -> (role: String)
    ensures
        role@ == role_of_code(code as int),
{
    if code == SENDER_USER {
        "user".to_owned()
    } else {
        "assistant".to_owned()
    }
}

/// The two role names differ, so a stored "user" is never read back as
/// "assistant".
pub proof fn lemma_roles_differ()
    ensures
        user_role() != assistant_role(),
{
    reveal_strlit("user");
    reveal_strlit("assistant");
    assert(user_role().len() == 4);
    assert(assistant_role().len() == 9);
}

/// What a message is once it has been stored and read back: its id and
/// content are kept, its role is the one its sender-type code stands for, and
/// its timestamp and diagram are gone, because the message table has no
/// column for them.
pub open spec fn stored_form(m: MessageView) -> MessageView {
    MessageView {
        id: m.id,
        timestamp: 0,
        role: role_of_code(sender_code_of(m.role)),
        message: m.message,
        diagram: None,
    }
}

/// A message log as it is read back once it has been stored.
pub open spec fn stored_log(log: Seq<MessageView>) -> Seq<MessageView> {
    Seq::new(log.len(), |i: int| stored_form(log[i]))
}

/// What is put behind the title of a copy.
pub const COPY_SUFFIX: &'static str = " (Copy)";

/// The title of a copy: the title of the source with the copy suffix
/// behind it, and none where the source has none.
pub open spec fn copy_title_of(title: Option<Text>) -> Option<Text> {
    match title {
        Some(t) => Some(t + COPY_SUFFIX@),
        None => None,
    }
}

/// The title of a copy of a thread with this title.
pub fn copy_title(title: &Option<String>) -> (copy: Option<String>)
    ensures
        optional_text(copy) == copy_title_of(optional_text(*title)),
{
    match title {
        Some(t) => Some(t.clone().concat(COPY_SUFFIX)),
        None => None,
    }
}

/// A message log with other ids: the message at position `i` gets the id
/// at position `i`, and keeps its own where there is none.
pub open spec fn relabelled(log: Seq<MessageView>, ids: Seq<Text>) -> Seq<MessageView> {
    Seq::new(
        log.len(),
        |i: int|
            if i < ids.len() {
                MessageView { id: ids[i], ..log[i] }
            } else {
                log[i]
            },
    )
}

/// The texts of a vector of strings.
pub open spec fn texts_view(v: Seq<String>) -> Seq<Text> {
    Seq::new(v.len(), |i: int| v[i]@)
}

impl Message {
    /// A copy of this message.
    pub fn duplicate(&self) -> (copy: Message)
        ensures
            copy@ == self@,
    {
        Message {
            id: self.id.clone(),
            timestamp: self.timestamp,
            role: self.role.clone(),
            message: self.message.clone(),
            diagram: copy_optional(&self.diagram),
        }
    }
}

/// A copy of a message log in which the message at position `i` has the id
/// at position `i` of `ids`, and its own where `ids` is too short.
pub fn relabel(messages: &Vec<Message>, ids: &Vec<String>) -> (copy: Vec<Message>)
    ensures
        messages_view(copy@) == relabelled(messages_view(messages@), texts_view(ids@)),
{
    let mut copy: Vec<Message> = Vec::new();
    let mut i: usize = 0;
    while i < messages.len()
        invariant
            i <= messages.len(),
            copy.len() == i,
            forall|k: int|
                0 <= k < i ==> copy[k]@ == relabelled(
                    messages_view(messages@),
                    texts_view(ids@),
                )[k],
        decreases messages.len() - i,
    {
        let mut m = messages[i].duplicate();
        if i < ids.len() {
            m.id = ids[i].clone();
        }
        copy.push(m);
        i += 1;
    }
    assert(messages_view(copy@) =~= relabelled(messages_view(messages@), texts_view(ids@)));
    copy
}

} // verus!
