//! Requests and results exchanged with Mail, and the service's limits.
use vstd::prelude::*;

verus! {

pub const DEFAULT_RESULT_LIMIT: u16 = 25;
pub const MAX_RESULT_LIMIT: u16 = 100;
pub const DEFAULT_BODY_CHARS: u32 = 16_384;
pub const MAX_BODY_CHARS: u32 = 65_536;
pub const DEFAULT_SNAPSHOT_LIMIT: u16 = 10;
pub const MAX_COMPOSE_BODY_CHARS: usize = 200_000;
pub const MAX_RECIPIENTS: usize = 100;
pub const MAX_SUBJECT_CHARS: usize = 998;

/// A configured Mail account.
#[derive(Debug)]
pub struct Account {
    pub id: String,
    pub name: String,
    pub email_addresses: Vec<String>,
    pub enabled: bool,
}

#[derive(Debug)]
pub struct AccountList {
    pub accounts: Vec<Account>,
}

/// A mailbox, addressed by an optional account and a path of components.
#[derive(Debug)]
pub struct MailboxRef {
    pub account_id: Option<String>,
    pub path: Vec<String>,
}

impl View for MailboxRef {
    type V = (Option<Seq<char>>, Seq<Seq<char>>);

    open spec fn view(&self) -> (Option<Seq<char>>, Seq<Seq<char>>) {
        (self.account_id.deep_view(), self.path.deep_view())
    }
}

impl MailboxRef {
    /// The INBOX of `account_id`, or Mail's aggregate INBOX when it is `None`.
    pub fn inbox(account_id: Option<String>) -> (r: Self)
        ensures
            r.account_id == account_id,
            r.path@.len() == 1,
            r.path@[0]@ == "INBOX"@,
    {
        let mut path: Vec<String> = Vec::new();
        path.push("INBOX".to_owned());
        MailboxRef { account_id, path }
    }
}

#[derive(Debug)]
pub struct Mailbox {
    pub reference: MailboxRef,
    pub name: String,
    pub unread_count: u64,
    pub unread_count_source: CountSource,
}

#[derive(Debug)]
pub struct MailboxList {
    pub mailboxes: Vec<Mailbox>,
}

/// One message: Mail's local id inside a mailbox.
#[derive(Debug)]
pub struct MessageRef {
    pub account_id: Option<String>,
    pub mailbox_path: Vec<String>,
    pub id: i64,
}

impl View for MessageRef {
    type V = (Option<Seq<char>>, Seq<Seq<char>>, i64);

    open spec fn view(&self) -> (Option<Seq<char>>, Seq<Seq<char>>, i64) {
        (self.account_id.deep_view(), self.mailbox_path.deep_view(), self.id)
    }
}

impl MessageRef {
    /// The mailbox that holds the message.
    pub open spec fn mailbox_spec(self) -> MailboxRef {
        MailboxRef { account_id: self.account_id, path: self.mailbox_path }
    }

    /// The mailbox that holds the message.
    pub fn mailbox(&self) -> (r: MailboxRef)
        ensures
            r.account_id == self.account_id,
            r.path@ == self.mailbox_path@,
            r@ == self.mailbox_spec()@,
    {
        MailboxRef { account_id: clone_optional(&self.account_id), path: clone_strings(&self.mailbox_path) }
    }
}

/// A copy of an optional string.
pub fn clone_optional(value: &Option<String>) -> (r: Option<String>)
    ensures
        r == *value,
{
    match value {
        Some(s) => Some(s.clone()),
        None => None,
    }
}

/// A copy of a list of strings.
pub fn clone_strings(values: &Vec<String>) -> (r: Vec<String>)
    ensures
        r@ == values@,
        r.deep_view() == values.deep_view(),
{
    let r = values.clone();
    assert(r@ =~= values@) by {
        assert forall|i: int| 0 <= i < values.len() implies r@[i] == values@[i] by {
            assert(cloned::<String>(values[i], r[i]));
        }
    }
    r
}

#[derive(Debug)]
pub struct MessageSummary {
    pub reference: MessageRef,
    pub message_id: Option<String>,
    pub subject: String,
    pub sender: String,
    pub date_received: Option<String>,
    pub read: bool,
    pub flagged: bool,
    pub size: u64,
}

#[derive(Debug)]
pub struct MessageSummaryList {
    pub messages: Vec<MessageSummary>,
}

/// Where a count comes from.
#[derive(Debug, Clone, Copy, PartialEq, Eq, Structural)]
pub enum CountSource {
    MailReported,
    ExactBulkProjection,
}

#[derive(Debug, Clone, Copy, PartialEq, Eq, Structural)]
pub enum SearchCompleteness {
    Complete,
}

#[derive(Debug)]
pub struct MessageSearchResult {
    pub messages: Vec<MessageSummary>,
    pub scanned_count: u64,
    pub matched_count: u64,
    pub has_more: bool,
    pub next_cursor: Option<String>,
    pub completeness: SearchCompleteness,
}

#[derive(Debug)]
pub struct MessageDetail {
    pub summary: MessageSummary,
    pub content: String,
    pub content_truncated: bool,
}

#[derive(Debug)]
pub struct ListMailboxesRequest {
    pub account_id: Option<String>,
}

impl Default for ListMailboxesRequest {
    fn default() -> (r: Self)
        ensures
            r.account_id is None,
    {
        ListMailboxesRequest { account_id: None }
    }
}

#[derive(Debug)]
pub struct SearchRequest {
    pub mailbox: MailboxRef,
    pub unread: Option<bool>,
    pub flagged: Option<bool>,
    pub sender_contains: Option<String>,
    pub subject_contains: Option<String>,
    /// Inclusive RFC 3339 lower bound for the received date.
    pub received_after: Option<String>,
    /// Exclusive RFC 3339 upper bound for the received date.
    pub received_before: Option<String>,
    /// Opaque continuation cursor returned by a previous search.
    pub cursor: Option<String>,
    pub limit: u16,
}

impl Default for SearchRequest {
    /// A search of Mail's aggregate INBOX with no filter and the default limit.
    fn default() -> (r: Self)
        ensures
            r.mailbox.account_id is None,
            r.mailbox.path@.len() == 1,
            r.mailbox.path@[0]@ == "INBOX"@,
            r.unread is None,
            r.flagged is None,
            r.sender_contains is None,
            r.subject_contains is None,
            r.received_after is None,
            r.received_before is None,
            r.cursor is None,
            r.limit == DEFAULT_RESULT_LIMIT,
    {
        SearchRequest {
            mailbox: MailboxRef::inbox(None),
            unread: None,
            flagged: None,
            sender_contains: None,
            subject_contains: None,
            received_after: None,
            received_before: None,
            cursor: None,
            limit: DEFAULT_RESULT_LIMIT,
        }
    }
}

#[derive(Debug)]
pub struct InboxSnapshotRequest {
    pub account_id: Option<String>,
    pub recent_limit: u16,
    pub unread_limit: u16,
}

impl Default for InboxSnapshotRequest {
    fn default() -> (r: Self)
        ensures
            r.account_id is None,
            r.recent_limit == DEFAULT_SNAPSHOT_LIMIT,
            r.unread_limit == DEFAULT_SNAPSHOT_LIMIT,
    {
        InboxSnapshotRequest {
            account_id: None,
            recent_limit: DEFAULT_SNAPSHOT_LIMIT,
            unread_limit: DEFAULT_SNAPSHOT_LIMIT,
        }
    }
}

#[derive(Debug)]
pub struct InboxSnapshot {
    pub mailbox: MailboxRef,
    pub total_count: u64,
    pub unread_count: u64,
    pub unread_count_source: CountSource,
    pub mail_reported_unread_count: u64,
    pub recent_messages: Vec<MessageSummary>,
    pub unread_messages: Vec<MessageSummary>,
    pub completeness: SearchCompleteness,
}

#[derive(Debug)]
pub struct GetMessageRequest {
    pub message: MessageRef,
    pub max_body_chars: u32,
}

#[derive(Debug)]
pub struct CheckMailRequest {
    pub account_id: Option<String>,
}

impl Default for CheckMailRequest {
    fn default() -> (r: Self)
        ensures
            r.account_id is None,
    {
        CheckMailRequest { account_id: None }
    }
}

#[derive(Debug)]
pub struct CheckMailResult {
    pub requested: bool,
}

/// What `doctor` reports: no account value, only readiness and a category.
#[derive(Debug)]
pub struct DoctorResult {
    pub platform: String,
    pub backend_ready: bool,
    pub account_count: Option<u64>,
    pub elapsed_ms: u64,
    pub diagnostic: Option<DoctorDiagnostic>,
}

#[derive(Debug, Clone, Copy, PartialEq, Eq, Structural)]
pub enum DoctorDiagnostic {
    AutomationUnavailable,
    AutomationFailed,
    AutomationTimeout,
    OutputTooLarge,
    InvalidResponse,
    StartupFailed,
    BackendFailed,
}

#[derive(Debug)]
pub struct SetMessageStateRequest {
    pub message: MessageRef,
    pub read: Option<bool>,
    pub flagged: Option<bool>,
}

#[derive(Debug)]
pub struct MessageStateResult {
    pub message: MessageRef,
    pub read: bool,
    pub flagged: bool,
}

#[derive(Debug)]
pub struct MoveMessageRequest {
    pub message: MessageRef,
    pub destination: MailboxRef,
    pub confirm: bool,
}

#[derive(Debug)]
pub struct MoveMessageResult {
    pub moved: bool,
    pub destination: MailboxRef,
}

#[derive(Debug)]
pub struct OutgoingMessage {
    pub to: Vec<String>,
    pub cc: Vec<String>,
    pub bcc: Vec<String>,
    pub subject: String,
    pub body: String,
}

#[derive(Debug)]
pub struct CreateDraftRequest {
    pub message: OutgoingMessage,
}

#[derive(Debug)]
pub struct CreateReplyDraftRequest {
    pub message: MessageRef,
    pub body: String,
}

#[derive(Debug)]
pub struct ReplyDraftResult {
    pub source: MessageRef,
    pub local_id: i64,
    pub subject: String,
    pub to: Vec<String>,
    pub cc: Vec<String>,
    pub sent: bool,
    pub draft_present: bool,
    pub visible: bool,
    pub content_verified: bool,
}

#[derive(Debug)]
pub struct SendMessageRequest {
    pub message: OutgoingMessage,
    pub confirm: bool,
}

#[derive(Debug)]
pub struct CompositionResult {
    pub local_id: i64,
    pub sent: bool,
    pub visible: bool,
}

} // verus!

verus! {

/// Whether two strings hold the same text.
pub fn same_text(a: &String, b: &String) -> (r: bool)
    ensures
        r == (a@ == b@),
{
    a.eq(b)
}

/// Whether two optional strings hold the same text.
pub fn same_optional_text(a: &Option<String>, b: &Option<String>) -> (r: bool)
    ensures
        r == (a.deep_view() == b.deep_view()),
{
    match (a, b) {
        (Some(x), Some(y)) => same_text(x, y),
        (None, None) => true,
        _ => false,
    }
}

/// Whether two lists of strings hold the same texts in the same order.
pub fn same_texts(a: &Vec<String>, b: &Vec<String>) -> (r: bool)
    ensures
        r == (a.deep_view() == b.deep_view()),
{
    if a.len() != b.len() {
        assert(a.deep_view().len() != b.deep_view().len());
        return false;
    }
    let mut i: usize = 0;
    while i < a.len()
        invariant
            i <= a.len(),
            a.len() == b.len(),
            forall|j: int| 0 <= j < i ==> a@[j]@ == b@[j]@,
        decreases a.len() - i,
    {
        if !same_text(&a[i], &b[i]) {
            assert(a.deep_view()[i as int] != b.deep_view()[i as int]);
            return false;
        }
        i = i + 1;
    }
    assert(a.deep_view() =~= b.deep_view()) by {
        assert forall|j: int| 0 <= j < a.len() implies a.deep_view()[j] == b.deep_view()[j] by {
            assert(a@[j]@ == b@[j]@);
        }
    }
    true
}

impl MailboxRef {
    /// Whether two references name the same mailbox.
    pub fn same_as(&self, other: &MailboxRef) -> (r: bool)
        ensures
            r == (self@ == other@),
    {
        same_optional_text(&self.account_id, &other.account_id) && same_texts(
            &self.path,
            &other.path,
        )
    }
}

impl MessageRef {
    /// Whether two references name the same message.
    pub fn same_as(&self, other: &MessageRef) -> (r: bool)
        ensures
            r == (self@ == other@),
    {
        self.id == other.id && same_optional_text(&self.account_id, &other.account_id)
            && same_texts(&self.mailbox_path, &other.mailbox_path)
    }
}

} // verus!
