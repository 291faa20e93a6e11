//! The command line: its typed arguments and the requests they stand for.
use vstd::prelude::*;

use crate::model::{
    clone_optional, clone_strings, CheckMailRequest, CreateDraftRequest, CreateReplyDraftRequest,
    GetMessageRequest, InboxSnapshotRequest, ListMailboxesRequest, MailboxRef, MessageRef,
    MoveMessageRequest, OutgoingMessage, SearchRequest, SendMessageRequest, SetMessageStateRequest,
};

verus! {

/// A parsed command line.
#[derive(Debug)]
pub struct Cli {
    pub command: Command,
}

/// One command of the command line.
#[derive(Debug)]
pub enum Command {
    /// Private readiness check: no account names, addresses, or message data.
    Doctor,
    /// List configured Mail accounts without message content.
    Accounts,
    /// List mailboxes recursively.
    Mailboxes { account: Option<String> },
    /// Exact Inbox counts and bounded recent and unread summaries, without bodies.
    Inbox(InboxArgs),
    /// Search a mailbox and return bounded message metadata.
    Search(SearchArgs),
    /// Show one message, including a bounded plain-text body.
    Show(MessageArgs),
    /// Ask Mail to check all accounts or one account for new messages.
    Check { account: Option<String> },
    /// Change read or flagged state for one mailbox-scoped message.
    State(StateArgs),
    /// Move one mailbox-scoped message to another mailbox.
    Move(MoveArgs),
    /// Create a visible native reply draft without sending it.
    Reply(ReplyArgs),
    /// Create and display a draft in Mail without sending it.
    Draft(ComposeArgs),
    /// Send a new message after explicit confirmation.
    Send(SendArgs),
    /// Serve the tools over MCP on standard input and output.
    Mcp(McpArgs),
}

/// A mailbox on the command line: an optional account and path components.
#[derive(Debug)]
pub struct MailboxArgs {
    /// Mail account ID. Omit it to use Mail's aggregate INBOX.
    pub account: Option<String>,
    /// One mailbox path component per occurrence, for nested mailboxes.
    pub mailbox_path: Vec<String>,
}

impl View for MailboxArgs {
    type V = (Option<Seq<char>>, Seq<Seq<char>>);

    open spec fn view(&self) -> (Option<Seq<char>>, Seq<Seq<char>>) {
        (self.account.deep_view(), self.mailbox_path.deep_view())
    }
}

/// The mailbox a command line names: INBOX when no path component is given.
pub open spec fn mailbox_of(args: (Option<Seq<char>>, Seq<Seq<char>>)) -> (Option<Seq<char>>, Seq<Seq<char>>) {
    if args.1.len() == 0 {
        (args.0, seq!["INBOX"@])
    } else {
        args
    }
}

impl MailboxArgs {
    /// The mailbox these arguments name.
    pub fn reference(&self) -> (r: MailboxRef)
        ensures
            r@ == mailbox_of(self@),
    {
        if self.mailbox_path.len() == 0 {
            let r = MailboxRef::inbox(clone_optional(&self.account));
            assert(r.path.deep_view() =~= seq!["INBOX"@]);
            r
        } else {
            MailboxRef { account_id: clone_optional(&self.account), path: clone_strings(&self.mailbox_path) }
        }
    }
}

/// Search filters on the command line.
#[derive(Debug)]
pub struct SearchArgs {
    pub mailbox: MailboxArgs,
    /// Return only unread (`true`) or read (`false`) messages.
    pub unread: Option<bool>,
    /// Return only flagged (`true`) or unflagged (`false`) messages.
    pub flagged: Option<bool>,
    /// Case-insensitive substring match against the sender.
    pub sender: Option<String>,
    /// Case-insensitive substring match against the subject.
    pub subject: Option<String>,
    /// Inclusive RFC 3339 lower bound for the received date.
    pub received_after: Option<String>,
    /// Exclusive RFC 3339 upper bound for the received date.
    pub received_before: Option<String>,
    /// Opaque continuation cursor returned by a previous search.
    pub cursor: Option<String>,
    /// Maximum messages returned (1-100).
    pub limit: u16,
}

/// Exact Inbox counts with bounded summary lists.
#[derive(Debug)]
pub struct InboxArgs {
    /// Mail account ID; omit it for the aggregate Inbox.
    pub account: Option<String>,
    /// Maximum recent summaries (1-100).
    pub recent_limit: u16,
    /// Maximum unread summaries (1-100).
    pub unread_limit: u16,
}

/// One message on the command line.
#[derive(Debug)]
pub struct MessageRefArgs {
    pub mailbox: MailboxArgs,
    /// Mail's positive local message ID returned by `search`.
    pub id: i64,
}

impl View for MessageRefArgs {
    type V = ((Option<Seq<char>>, Seq<Seq<char>>), i64);

    open spec fn view(&self) -> ((Option<Seq<char>>, Seq<Seq<char>>), i64) {
        (self.mailbox@, self.id)
    }
}

/// The message a command line names.
pub open spec fn message_of(args: ((Option<Seq<char>>, Seq<Seq<char>>), i64)) -> (Option<Seq<char>>, Seq<Seq<char>>, i64) {
    let mailbox = mailbox_of(args.0);
    (mailbox.0, mailbox.1, args.1)
}

impl MessageRefArgs {
    /// The message these arguments name, in INBOX when no path is given.
    pub fn reference(&self) -> (r: MessageRef)
        ensures
            r@ == message_of(self@),
    {
        let mailbox = self.mailbox.reference();
        MessageRef { account_id: mailbox.account_id, mailbox_path: mailbox.path, id: self.id }
    }
}

/// One message to show.
#[derive(Debug)]
pub struct MessageArgs {
    pub message: MessageRefArgs,
    /// Maximum body characters returned (1-65536).
    pub max_body_chars: u32,
}

impl MessageArgs {
    /// The message to show.
    pub fn reference(&self) -> (r: MessageRef)
        ensures
            r@ == message_of(self.message@),
    {
        self.message.reference()
    }
}

/// A state change.
#[derive(Debug)]
pub struct StateArgs {
    pub message: MessageRefArgs,
    /// Set read state to true or false.
    pub read: Option<bool>,
    /// Set flagged state to true or false.
    pub flagged: Option<bool>,
}

/// A move to another mailbox.
#[derive(Debug)]
pub struct MoveArgs {
    pub message: MessageRefArgs,
    /// Destination Mail account ID. Defaults to the source account.
    pub destination_account: Option<String>,
    /// One destination path component per occurrence.
    pub destination_path: Vec<String>,
    /// Confirm that this invocation should move the message.
    pub confirm_move: bool,
}

/// The destination of a move: the given account, else the source's.
pub open spec fn destination_of(
    destination_account: Option<Seq<char>>,
    source_account: Option<Seq<char>>,
    destination_path: Seq<Seq<char>>,
) -> (Option<Seq<char>>, Seq<Seq<char>>) {
    (
        if destination_account is Some {
            destination_account
        } else {
            source_account
        },
        destination_path,
    )
}

impl MoveArgs {
    /// The destination mailbox, inheriting the source account when none is given.
    pub fn destination(&self) -> (r: MailboxRef)
        ensures
            r@ == destination_of(
                self.destination_account.deep_view(),
                self.message.mailbox.account.deep_view(),
                self.destination_path.deep_view(),
            ),
    {
        let account_id = if self.destination_account.is_some() {
            clone_optional(&self.destination_account)
        } else {
            clone_optional(&self.message.mailbox.account)
        };
        MailboxRef { account_id, path: clone_strings(&self.destination_path) }
    }
}

/// A native reply draft.
#[derive(Debug)]
pub struct ReplyArgs {
    pub message: MessageRefArgs,
    /// Plain-text reply placed above the quoted content.
    pub body: String,
}

/// A new message.
#[derive(Debug)]
pub struct ComposeArgs {
    /// To recipients, one per occurrence.
    pub to: Vec<String>,
    /// Cc recipients, one per occurrence.
    pub cc: Vec<String>,
    /// Bcc recipients, one per occurrence.
    pub bcc: Vec<String>,
    /// Message subject.
    pub subject: String,
    /// Plain-text message body.
    pub body: String,
}

impl ComposeArgs {
    /// The outgoing message these arguments describe.
    pub fn message(&self) -> (r: OutgoingMessage)
        ensures
            r.to@ == self.to@,
            r.cc@ == self.cc@,
            r.bcc@ == self.bcc@,
            r.subject == self.subject,
            r.body == self.body,
    {
        OutgoingMessage {
            to: clone_strings(&self.to),
            cc: clone_strings(&self.cc),
            bcc: clone_strings(&self.bcc),
            subject: self.subject.clone(),
            body: self.body.clone(),
        }
    }
}

/// A message to send.
#[derive(Debug)]
pub struct SendArgs {
    pub compose: ComposeArgs,
    /// Confirm that this invocation should send externally.
    pub confirm_send: bool,
}

/// The MCP server's process-level opt-ins.
#[derive(Debug)]
pub struct McpArgs {
    /// Permit state changes, moves, mail checks and drafts.
    pub allow_write: bool,
    /// Also permit confirmed sends; needs `allow_write`.
    pub allow_send: bool,
}

/// What a command asks the service to do.
#[derive(Debug)]
pub enum Operation {
    Doctor,
    ListAccounts,
    ListMailboxes(ListMailboxesRequest),
    InboxSnapshot(InboxSnapshotRequest),
    Search(SearchRequest),
    GetMessage(GetMessageRequest),
    CheckMail(CheckMailRequest),
    SetMessageState(SetMessageStateRequest),
    MoveMessage(MoveMessageRequest),
    CreateReplyDraft(CreateReplyDraftRequest),
    CreateDraft(CreateDraftRequest),
    SendMessage(SendMessageRequest),
    /// Serve MCP with these opt-ins.
    Serve { allow_write: bool, allow_send: bool },
}

/// The outgoing message a composition describes.
pub open spec fn outgoing_of(a: ComposeArgs) -> OutgoingMessage {
    OutgoingMessage { to: a.to, cc: a.cc, bcc: a.bcc, subject: a.subject, body: a.body }
}

impl Command {
    /// The service operation this command stands for: mailbox and message
    /// arguments become references (INBOX when no path is given), a move's
    /// destination inherits the source account, and the confirmations of
    /// `move` and `send` become the requests' confirmations.
    pub fn operation(self) -> (r: Operation)
        ensures
            match self {
                Command::Doctor => r is Doctor,
                Command::Accounts => r is ListAccounts,
                Command::Mailboxes { account } => r == Operation::ListMailboxes(
                    ListMailboxesRequest { account_id: account },
                ),
                Command::Inbox(a) => r == Operation::InboxSnapshot(
                    InboxSnapshotRequest {
                        account_id: a.account,
                        recent_limit: a.recent_limit,
                        unread_limit: a.unread_limit,
                    },
                ),
                Command::Search(a) => (r matches Operation::Search(q) && q.mailbox@ == mailbox_of(
                    a.mailbox@,
                ) && q.unread == a.unread && q.flagged == a.flagged && q.sender_contains
                    == a.sender && q.subject_contains == a.subject && q.received_after
                    == a.received_after && q.received_before == a.received_before && q.cursor
                    == a.cursor && q.limit == a.limit),
                Command::Show(a) => (r matches Operation::GetMessage(q) && q.message@ == message_of(
                    a.message@,
                ) && q.max_body_chars == a.max_body_chars),
                Command::Check { account } => r == Operation::CheckMail(
                    CheckMailRequest { account_id: account },
                ),
                Command::State(a) => (r matches Operation::SetMessageState(q) && q.message@
                    == message_of(a.message@) && q.read == a.read && q.flagged == a.flagged),
                Command::Move(a) => (r matches Operation::MoveMessage(q) && q.message@ == message_of(
                    a.message@,
                ) && q.destination@ == destination_of(
                    a.destination_account.deep_view(),
                    a.message.mailbox.account.deep_view(),
                    a.destination_path.deep_view(),
                ) && q.confirm == a.confirm_move),
                Command::Reply(a) => (r matches Operation::CreateReplyDraft(q) && q.message@
                    == message_of(a.message@) && q.body == a.body),
                Command::Draft(a) => r == Operation::CreateDraft(
                    CreateDraftRequest { message: outgoing_of(a) },
                ),
                Command::Send(a) => r == Operation::SendMessage(
                    SendMessageRequest { message: outgoing_of(a.compose), confirm: a.confirm_send },
                ),
                Command::Mcp(a) => r == Operation::Serve {
                    allow_write: a.allow_write,
                    allow_send: a.allow_send,
                },
            },
    {
        match self {
            Command::Doctor => Operation::Doctor,
            Command::Accounts => Operation::ListAccounts,
            Command::Mailboxes { account } => Operation::ListMailboxes(
                ListMailboxesRequest { account_id: account },
            ),
            Command::Inbox(a) => Operation::InboxSnapshot(
                InboxSnapshotRequest {
                    account_id: a.account,
                    recent_limit: a.recent_limit,
                    unread_limit: a.unread_limit,
                },
            ),
            Command::Search(a) => {
                let mailbox = a.mailbox.reference();
                Operation::Search(
                    SearchRequest {
                        mailbox,
                        unread: a.unread,
                        flagged: a.flagged,
                        sender_contains: a.sender,
                        subject_contains: a.subject,
                        received_after: a.received_after,
                        received_before: a.received_before,
                        cursor: a.cursor,
                        limit: a.limit,
                    },
                )
            },
            Command::Show(a) => {
                let message = a.reference();
                Operation::GetMessage(GetMessageRequest { message, max_body_chars: a.max_body_chars })
            },
            Command::Check { account } => Operation::CheckMail(CheckMailRequest { account_id: account }),
            Command::State(a) => {
                let message = a.message.reference();
                Operation::SetMessageState(
                    SetMessageStateRequest { message, read: a.read, flagged: a.flagged },
                )
            },
            Command::Move(a) => {
                let message = a.message.reference();
                let destination = a.destination();
                Operation::MoveMessage(
                    MoveMessageRequest { message, destination, confirm: a.confirm_move },
                )
            },
            Command::Reply(a) => {
                let message = a.message.reference();
                Operation::CreateReplyDraft(CreateReplyDraftRequest { message, body: a.body })
            },
            Command::Draft(a) => Operation::CreateDraft(
                CreateDraftRequest {
                    message: OutgoingMessage {
                        to: a.to,
                        cc: a.cc,
                        bcc: a.bcc,
                        subject: a.subject,
                        body: a.body,
                    },
                },
            ),
            Command::Send(a) => Operation::SendMessage(
                SendMessageRequest {
                    message: OutgoingMessage {
                        to: a.compose.to,
                        cc: a.compose.cc,
                        bcc: a.compose.bcc,
                        subject: a.compose.subject,
                        body: a.compose.body,
                    },
                    confirm: a.confirm_send,
                },
            ),
            Command::Mcp(a) => Operation::Serve { allow_write: a.allow_write, allow_send: a.allow_send },
        }
    }
}

/// A mailbox written on the command line keeps its account and its path;
/// only a mailbox written without a path is INBOX.
pub proof fn command_mailbox_is_as_written(args: (Option<Seq<char>>, Seq<Seq<char>>))
    ensures
        mailbox_of(args).0 == args.0,
        args.1.len() > 0 ==> mailbox_of(args).1 == args.1,
        args.1.len() == 0 ==> mailbox_of(args).1 == seq!["INBOX"@],
{
}

/// A message written on the command line keeps its id, and its mailbox is
/// the mailbox written for it.
pub proof fn command_message_is_as_written(args: ((Option<Seq<char>>, Seq<Seq<char>>), i64))
    ensures
        message_of(args).0 == args.0.0,
        message_of(args).2 == args.1,
        args.0.1.len() > 0 ==> message_of(args).1 == args.0.1,
        args.0.1.len() == 0 ==> message_of(args).1 == seq!["INBOX"@],
{
}

/// A move's destination keeps the account written for it; only a move written
/// without one goes to the source message's account. The path is as written.
pub proof fn command_destination_keeps_a_written_account(
    destination_account: Option<Seq<char>>,
    source_account: Option<Seq<char>>,
    destination_path: Seq<Seq<char>>,
)
    ensures
        destination_account is Some ==> destination_of(
            destination_account,
            source_account,
            destination_path,
        ).0 == destination_account,
        destination_account is None ==> destination_of(
            destination_account,
            source_account,
            destination_path,
        ).0 == source_account,
        destination_of(destination_account, source_account, destination_path).1
            == destination_path,
{
}

/// A composed message keeps each recipient list, the subject and the body
/// where they were written: To as To, Cc as Cc, Bcc as Bcc.
pub proof fn composition_keeps_each_field(a: ComposeArgs)
    ensures
        outgoing_of(a).to == a.to,
        outgoing_of(a).cc == a.cc,
        outgoing_of(a).bcc == a.bcc,
        outgoing_of(a).subject == a.subject,
        outgoing_of(a).body == a.body,
{
}

} // verus!
