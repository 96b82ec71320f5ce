//! The API key in the credential store of the platform.

use vstd::prelude::*;
use crate::thread::Text;

verus! {

/// The service under which the key is kept.
pub const SERVICE_NAME: &'static str = "schema_desktop_app";

/// The user under which the key is kept.
pub const SERVICE_USERNAME: &'static str = "user_api_key";

/// What is reported for a key that is empty or all white space.
pub const NO_KEY: &'static str = "No API key provided.";

/// What stands before the cause when the store hands out no entry.
pub const ENTRY_FAILED: &'static str = "Failed to create keyring entry: ";

/// What stands before the cause when the store does not take the key.
pub const STORE_FAILED: &'static str = "Failed to store API key: ";

/// What stands before the cause when the store does not give the key.
pub const RETRIEVE_FAILED: &'static str = "Failed to retrieve API key: ";

/// `keyring::Entry`, an entry of the credential store. Opaque here.
#[verifier::external_type_specification]
#[verifier::external_body]
pub struct ExEntry(keyring::Entry);

/// `keyring::Error`, the credential store's error. Opaque here.
#[verifier::external_type_specification]
#[verifier::external_body]
pub struct ExKeyringError(keyring::Error);

/// `keyring::Entry::new`: the entry for a service and a user. Nothing is
/// claimed of the outcome.
#[verifier::external_body]
fn keyring_entry(service: &str, user: &str) -> (r: Result<keyring::Entry, keyring::Error>) {
    keyring::Entry::new(service, user)
}

/// `keyring::Entry::set_password`: puts a password into the entry. Nothing
/// is claimed of the outcome.
#[verifier::external_body]
fn keyring_set_password(entry: &keyring::Entry, password: &str) -> (r: Result<(), keyring::Error>) {
    entry.set_password(password)
}

/// `keyring::Entry::get_password`: the password of the entry. Nothing is
/// claimed of the outcome.
#[verifier::external_body]
fn keyring_get_password(entry: &keyring::Entry) -> (r: Result<String, keyring::Error>) {
    entry.get_password()
}

/// Whether a character is white space: one of the characters that Unicode
/// lists as `White_Space`.
pub open spec fn is_white_space(c: char) -> bool {
    let n = c as int;
    ||| 0x09 <= n <= 0x0D
    ||| n == 0x20
    ||| n == 0x85
    ||| n == 0xA0
    ||| n == 0x1680
    ||| 0x2000 <= n <= 0x200A
    ||| n == 0x2028
    ||| n == 0x2029
    ||| n == 0x202F
    ||| n == 0x205F
    ||| n == 0x3000
}

/// Whether a text is empty or all white space.
pub open spec fn is_blank(s: Text) -> bool {
    forall|i: int| 0 <= i < s.len() ==> is_white_space(#[trigger] s[i])
}

/// What is handed to the credential store to keep a key: the service and
/// the user of the entry, and the password to put into it.
#[derive(Debug, Clone, PartialEq, Eq)]
pub struct KeyRequest {
    pub service: String,
    pub user: String,
    pub password: String,
}

/// Mathematical form of a [`KeyRequest`].
pub struct KeyRequestView {
    pub service: Text,
    pub user: Text,
    pub password: Text,
}

impl View for KeyRequest {
    type V = KeyRequestView;

    open spec fn view(&self) -> KeyRequestView {
        KeyRequestView { service: self.service@, user: self.user@, password: self.password@ }
    }
}

/// The request inside an optional request.
pub open spec fn request_view(r: Option<KeyRequest>) -> Option<KeyRequestView> {
    match r {
        Some(request) => Some(request@),
        None => None,
    }
}

/// What is handed to the credential store for a key: nothing for a key that
/// is blank, else the key as it is, not trimmed, for the entry of
/// [`SERVICE_NAME`] and [`SERVICE_USERNAME`].
pub open spec fn request_of(key: Text) -> Option<KeyRequestView> {
    if is_blank(key) {
        None
    } else {
        Some(KeyRequestView { service: SERVICE_NAME@, user: SERVICE_USERNAME@, password: key })
    }
}

/// What the credential store answered when it was asked to keep a key. Each
/// text of a refusal is the store's own description of its error.
#[derive(Debug, Clone, PartialEq, Eq)]
pub enum StoreAnswer {
    /// The store handed out no entry.
    EntryRefused(String),
    /// The store handed out the entry and did not take the password.
    KeyRefused(String),
    /// The store took the password.
    Kept,
}

/// Mathematical form of a [`StoreAnswer`].
pub enum StoreAnswerView {
    EntryRefused(Text),
    KeyRefused(Text),
    Kept,
}

impl View for StoreAnswer {
    type V = StoreAnswerView;

    open spec fn view(&self) -> StoreAnswerView {
        match self {
            StoreAnswer::EntryRefused(cause) => StoreAnswerView::EntryRefused(cause@),
            StoreAnswer::KeyRefused(cause) => StoreAnswerView::KeyRefused(cause@),
            StoreAnswer::Kept => StoreAnswerView::Kept,
        }
    }
}

/// What storing a key returns for an answer of the credential store:
/// success where the store took the key, else a message that names the step
/// that failed and then the store's cause.
pub open spec fn store_outcome(answer: StoreAnswerView) -> Result<(), Text> {
    match answer {
        StoreAnswerView::EntryRefused(cause) => Err(ENTRY_FAILED@ + cause),
        StoreAnswerView::KeyRefused(cause) => Err(STORE_FAILED@ + cause),
        StoreAnswerView::Kept => Ok(()),
    }
}

/// The result of storing a key as contracts see it.
pub open spec fn stored_view(r: Result<(), String>) -> Result<(), Text> {
    match r {
        Ok(()) => Ok(()),
        Err(m) => Err(m@),
    }
}

/// Whether a character is white space.
pub fn white_space(c: char) -> (b: bool)
    ensures
        b == is_white_space(c),
{
    let n: u32 = c as u32;
    (0x09 <= n && n <= 0x0D) || n == 0x20 || n == 0x85 || n == 0xA0 || n == 0x1680 || (0x2000 <= n
        && n <= 0x200A) || n == 0x2028 || n == 0x2029 || n == 0x202F || n == 0x205F || n == 0x3000
}

/// Whether a key is empty or all white space.
pub fn blank(api_key: &str) -> (b: bool)
    ensures
        b == is_blank(api_key@),
{
    let n = api_key.unicode_len();
    let mut i: usize = 0;
    while i < n
        invariant
            n == api_key@.len(),
            i <= n,
            forall|k: int| 0 <= k < i ==> is_white_space(#[trigger] api_key@[k]),
        decreases n - i,
    {
        if !white_space(api_key.get_char(i)) {
            return false;
        }
        i += 1;
    }
    true
}

/// A message: what stands before the cause, then the cause.
fn failure(prefix: &str, cause: String) -> (text: String)
    ensures
        text@ == prefix@ + cause@,
{
    prefix.to_owned().concat(cause.as_str())
}

/// The credential store's own description of an error.
fn keyring_error_text(e: &keyring::Error) -> (text: String)
    ensures
        vstd::string::to_string_from_display_ensures::<keyring::Error>(e, text),
{
    e.to_string()
}

/// What is handed to the credential store for a key.
pub fn store_request(api_key: &str) -> (r: Option<KeyRequest>)
    ensures
        request_view(r) == request_of(api_key@),
{
    if blank(api_key) {
        None
    } else {
        Some(
            KeyRequest {
                service: SERVICE_NAME.to_owned(),
                user: SERVICE_USERNAME.to_owned(),
                password: api_key.to_owned(),
            },
        )
    }
}

/// What storing a key returns for an answer of the credential store.
pub fn stored_of_answer(answer: StoreAnswer) -> (r: Result<(), String>)
    ensures
        stored_view(r) == store_outcome(answer@),
{
    match answer {
        StoreAnswer::EntryRefused(cause) => Err(failure(ENTRY_FAILED, cause)),
        StoreAnswer::KeyRefused(cause) => Err(failure(STORE_FAILED, cause)),
        StoreAnswer::Kept => Ok(()),
    }
}

/// Puts the API key into the credential store. A key that is empty or all
/// white space is refused before the store is asked. Any other key goes to
/// the store as [`store_request`] gives it: the store is asked for the
/// entry of the request, then to put the password of the request into it,
/// and the result is what [`stored_of_answer`] makes of its answer.
pub fn store_api_key(api_key: String) -> (r: Result<(), String>)
    ensures
        is_blank(api_key@) ==> stored_view(r) == Err::<(), Text>(NO_KEY@),
        !is_blank(api_key@) ==> exists|answer: StoreAnswerView|
            stored_view(r) == #[trigger] store_outcome(answer),
{
    let request = match store_request(api_key.as_str()) {
        Some(request) => request,
        None => {
            return Err(NO_KEY.to_owned());
        },
    };
    let answer = match keyring_entry(request.service.as_str(), request.user.as_str()) {
        Ok(entry) => match keyring_set_password(&entry, request.password.as_str()) {
            Ok(()) => StoreAnswer::Kept,
            Err(e) => StoreAnswer::KeyRefused(keyring_error_text(&e)),
        },
        Err(e) => StoreAnswer::EntryRefused(keyring_error_text(&e)),
    };
    let ghost answered = answer@;
    let r = stored_of_answer(answer);
    assert(stored_view(r) == store_outcome(answered));
    r
}

/// Whether `r` is what reading the key returns for some answer of the
/// credential store.
pub open spec fn is_retrieval(r: Result<String, String>) -> bool {
    exists|answer: KeyAnswerView| retrieved_view(r) == #[trigger] key_outcome(answer)
}

/// Reads the API key from the credential store: asks the store for the
/// entry of [`SERVICE_NAME`] and [`SERVICE_USERNAME`], then the entry for
/// its password, and returns what [`key_of_answer`] makes of the answer.
pub fn get_api_key() -> (r: Result<String, String>)
    ensures
        is_retrieval(r),
{
    let answer = match keyring_entry(SERVICE_NAME, SERVICE_USERNAME) {
        Ok(entry) => match keyring_get_password(&entry) {
            Ok(api_key) => KeyAnswer::Key(api_key),
            Err(e) => KeyAnswer::KeyRefused(keyring_error_text(&e)),
        },
        Err(e) => KeyAnswer::EntryRefused(keyring_error_text(&e)),
    };
    let ghost answered = answer@;
    let r = key_of_answer(answer);
    assert(retrieved_view(r) == key_outcome(answered));
    r
}

/// What the credential store answered when it was asked for the key. Each
/// text of a refusal is the store's own description of its error.
#[derive(Debug, Clone, PartialEq, Eq)]
pub enum KeyAnswer {
    /// The store handed out no entry.
    EntryRefused(String),
    /// The store handed out the entry and did not give its password.
    KeyRefused(String),
    /// The store gave the password of the entry.
    Key(String),
}

/// Mathematical form of a [`KeyAnswer`].
pub enum KeyAnswerView {
    EntryRefused(Text),
    KeyRefused(Text),
    Key(Text),
}

impl View for KeyAnswer {
    type V = KeyAnswerView;

    open spec fn view(&self) -> KeyAnswerView {
        match self {
            KeyAnswer::EntryRefused(cause) => KeyAnswerView::EntryRefused(cause@),
            KeyAnswer::KeyRefused(cause) => KeyAnswerView::KeyRefused(cause@),
            KeyAnswer::Key(key) => KeyAnswerView::Key(key@),
        }
    }
}

/// What reading the key returns for an answer of the credential store: the
/// key as the store gave it, or a message that names the step that failed
/// and then the store's cause.
pub open spec fn key_outcome(answer: KeyAnswerView) -> Result<Text, Text> {
    match answer {
        KeyAnswerView::EntryRefused(cause) => Err(ENTRY_FAILED@ + cause),
        KeyAnswerView::KeyRefused(cause) => Err(RETRIEVE_FAILED@ + cause),
        KeyAnswerView::Key(key) => Ok(key),
    }
}

/// The result of reading the key as contracts see it.
pub open spec fn retrieved_view(r: Result<String, String>) -> Result<Text, Text> {
    match r {
        Ok(key) => Ok(key@),
        Err(m) => Err(m@),
    }
}

/// What reading the key returns for an answer of the credential store.
pub fn key_of_answer(answer: KeyAnswer) -> (r: Result<String, String>)
    ensures
        retrieved_view(r) == key_outcome(answer@),
{
    match answer {
        KeyAnswer::EntryRefused(cause) => Err(failure(ENTRY_FAILED, cause)),
        KeyAnswer::KeyRefused(cause) => Err(failure(RETRIEVE_FAILED, cause)),
        KeyAnswer::Key(key) => Ok(key),
    }
}

} // verus!
