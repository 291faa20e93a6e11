//! The typed service: which requests reach Mail, in which form, under which policy.
//!
//! Each `prepare_*` method decides whether a request may be handed to the
//! backend and returns the request to hand over; it never talks to Mail.
use vstd::prelude::*;

use crate::dates::{
    bound_instant, check_received_window, date_bound_problem, validate_date_bound, window_problem,
};
use crate::error::{reports, MailError, Result};
use crate::model::{
    clone_optional, CheckMailRequest, CreateDraftRequest, CreateReplyDraftRequest, DoctorDiagnostic,
    DoctorResult, GetMessageRequest, InboxSnapshotRequest, ListMailboxesRequest, MailboxRef,
    MoveMessageRequest, SearchRequest, SendMessageRequest, SetMessageStateRequest,
    MAX_BODY_CHARS,
};
use crate::validate::{
    body_problem, cursor_problem, first_problem, mailbox_problem, message_problem,
    mutation_message_problem, optional_selector_problem, outgoing_message_problem,
    result_limit_problem, validate_body, validate_cursor, validate_mailbox, validate_message,
    validate_mutation_message, validate_optional_selector, validate_outgoing,
    validate_result_limit,
};

verus! {

/// The service and its process-level policy.
///
/// A new service lets writes through and refuses to send: sending needs an
/// explicit opt-in, and a read-only service is made by turning writes off.
#[derive(Debug)]
pub struct MailService<B> {
    backend: B,
    write_enabled: bool,
    send_enabled: bool,
}

/// Refusal of a write when writes are not enabled.
pub open spec fn write_problem(writes_allowed: bool) -> Option<Seq<char>> {
    if writes_allowed {
        None
    } else {
        Some("writes are disabled by the current server policy"@)
    }
}

/// The problem with a search request, if any, in the order the checks are made.
pub open spec fn search_problem(request: SearchRequest) -> Option<Seq<char>> {
    first_problem(
        mailbox_problem(request.mailbox@),
        first_problem(
            result_limit_problem("limit"@, request.limit),
            first_problem(
                optional_selector_problem("sender filter"@, request.sender_contains.deep_view()),
                first_problem(
                    optional_selector_problem(
                        "subject filter"@,
                        request.subject_contains.deep_view(),
                    ),
                    first_problem(
                        date_bound_problem("received after"@, request.received_after.deep_view()),
                        first_problem(
                            date_bound_problem(
                                "received before"@,
                                request.received_before.deep_view(),
                            ),
                            first_problem(
                                cursor_problem(request.cursor.deep_view()),
                                window_problem(
                                    bound_instant(request.received_after.deep_view()),
                                    bound_instant(request.received_before.deep_view()),
                                ),
                            ),
                        ),
                    ),
                ),
            ),
        ),
    )
}

/// The problem with an Inbox snapshot request, if any.
pub open spec fn inbox_snapshot_problem(request: InboxSnapshotRequest) -> Option<Seq<char>> {
    first_problem(
        optional_selector_problem("account id"@, request.account_id.deep_view()),
        first_problem(
            result_limit_problem("recent limit"@, request.recent_limit),
            result_limit_problem("unread limit"@, request.unread_limit),
        ),
    )
}

/// The problem with a request to read one message, if any.
pub open spec fn get_message_problem(request: GetMessageRequest) -> Option<Seq<char>> {
    first_problem(
        message_problem(request.message@),
        if request.max_body_chars == 0 || request.max_body_chars > MAX_BODY_CHARS {
            Some("max body characters must be between 1 and 65536"@)
        } else {
            None
        },
    )
}

/// The problem with a request to check for new mail, if any.
pub open spec fn check_mail_problem(writes_allowed: bool, request: CheckMailRequest) -> Option<
    Seq<char>,
> {
    first_problem(
        optional_selector_problem("account id"@, request.account_id.deep_view()),
        write_problem(writes_allowed),
    )
}

/// The problem with a request to change a message's state, if any.
pub open spec fn set_state_problem(writes_allowed: bool, request: SetMessageStateRequest) -> Option<
    Seq<char>,
> {
    first_problem(
        mutation_message_problem(request.message@),
        first_problem(
            if request.read is None && request.flagged is None {
                Some("at least one of read or flagged must be provided"@)
            } else {
                None
            },
            write_problem(writes_allowed),
        ),
    )
}

/// The destination of a move, inheriting the source account when it names none.
pub open spec fn move_destination(request: MoveMessageRequest) -> (Option<Seq<char>>, Seq<Seq<char>>) {
    (
        if request.destination.account_id is None {
            request.message.account_id.deep_view()
        } else {
            request.destination.account_id.deep_view()
        },
        request.destination.path.deep_view(),
    )
}

/// The problem with a request to move a message, if any.
pub open spec fn move_problem(writes_allowed: bool, request: MoveMessageRequest) -> Option<
    Seq<char>,
> {
    let destination = move_destination(request);
    first_problem(
        mutation_message_problem(request.message@),
        first_problem(
            mailbox_problem(destination),
            first_problem(
                if request.message.mailbox_spec()@ == destination {
                    Some("source and destination mailboxes must differ"@)
                } else {
                    None
                },
                first_problem(
                    write_problem(writes_allowed),
                    if request.confirm {
                        None
                    } else {
                        Some("moving requires explicit confirmation"@)
                    },
                ),
            ),
        ),
    )
}

/// The problem with a request to create a draft, if any.
pub open spec fn draft_problem(writes_allowed: bool, request: CreateDraftRequest) -> Option<
    Seq<char>,
> {
    first_problem(outgoing_message_problem(request.message), write_problem(writes_allowed))
}

/// The problem with a request to create a reply draft, if any.
pub open spec fn reply_draft_problem(
    writes_allowed: bool,
    request: CreateReplyDraftRequest,
) -> Option<Seq<char>> {
    first_problem(
        mutation_message_problem(request.message@),
        first_problem(body_problem(request.body@), write_problem(writes_allowed)),
    )
}

/// The problem with a request to send a message, if any.
pub open spec fn send_problem(
    writes_allowed: bool,
    sends_allowed: bool,
    request: SendMessageRequest,
) -> Option<Seq<char>> {
    first_problem(
        outgoing_message_problem(request.message),
        first_problem(
            write_problem(writes_allowed),
            if !sends_allowed {
                Some("sending is disabled by the current server policy"@)
            } else if !request.confirm {
                Some("sending requires explicit confirmation"@)
            } else {
                None
            },
        ),
    )
}

impl<B> MailService<B> {
    /// Writes (checking mail, state changes, moves, drafts) are enabled.
    pub closed spec fn writes_allowed(&self) -> bool {
        self.write_enabled
    }

    /// Sending is enabled.
    pub closed spec fn sends_allowed(&self) -> bool {
        self.send_enabled
    }

    /// The backend the service was made with.
    pub closed spec fn backend_spec(&self) -> B {
        self.backend
    }

    /// A service over `backend` that allows writes and does not send.
    pub fn new(backend: B) -> (s: Self)
        ensures
            s.backend_spec() == backend,
            s.writes_allowed(),
            !s.sends_allowed(),
    {
        MailService { backend, write_enabled: true, send_enabled: false }
    }

    /// The same service with writes enabled or disabled.
    pub fn with_write_enabled(self, enabled: bool) -> (s: Self)
        ensures
            s.backend_spec() == self.backend_spec(),
            s.writes_allowed() == enabled,
            s.sends_allowed() == self.sends_allowed(),
    {
        MailService { backend: self.backend, write_enabled: enabled, send_enabled: self.send_enabled }
    }

    /// The same service with sending enabled or disabled.
    pub fn with_send_enabled(self, enabled: bool) -> (s: Self)
        ensures
            s.backend_spec() == self.backend_spec(),
            s.writes_allowed() == self.writes_allowed(),
            s.sends_allowed() == enabled,
    {
        MailService { backend: self.backend, write_enabled: self.write_enabled, send_enabled: enabled }
    }

    /// The backend the service hands prepared requests to.
    pub fn backend(&self) -> (r: &B)
        ensures
            *r == self.backend_spec(),
    {
        &self.backend
    }

    fn check_writes(&self) -> (r: Result<()>)
        ensures
            reports(r, write_problem(self.writes_allowed())),
    {
        if self.write_enabled {
            Ok(())
        } else {
            Err(MailError::validation("writes are disabled by the current server policy"))
        }
    }

    /// Admits a mailbox listing: the optional account must be a usable selector.
    pub fn prepare_list_mailboxes(&self, request: ListMailboxesRequest) -> (r: Result<
        ListMailboxesRequest,
    >)
        ensures
            reports(r, optional_selector_problem("account id"@, request.account_id.deep_view())),
            r matches Ok(q) ==> q == request,
    {
        validate_optional_selector("account id", &request.account_id)?;
        Ok(request)
    }

    /// Admits a search: a valid mailbox, a limit of 1 to 100, usable filters,
    /// RFC 3339 bounds with the lower one strictly earlier, and a well-formed cursor.
    pub fn prepare_search_messages(&self, request: SearchRequest) -> (r: Result<SearchRequest>)
        ensures
            reports(r, search_problem(request)),
            r matches Ok(q) ==> q == request,
    {
        validate_mailbox(&request.mailbox)?;
        validate_result_limit("limit", request.limit)?;
        validate_optional_selector("sender filter", &request.sender_contains)?;
        validate_optional_selector("subject filter", &request.subject_contains)?;
        let after = validate_date_bound("received after", &request.received_after)?;
        let before = validate_date_bound("received before", &request.received_before)?;
        validate_cursor(&request.cursor)?;
        check_received_window(after, before)?;
        Ok(request)
    }

    /// Admits an Inbox snapshot: a usable optional account and two limits of 1 to 100.
    pub fn prepare_inbox_snapshot(&self, request: InboxSnapshotRequest) -> (r: Result<
        InboxSnapshotRequest,
    >)
        ensures
            reports(r, inbox_snapshot_problem(request)),
            r matches Ok(q) ==> q == request,
    {
        validate_optional_selector("account id", &request.account_id)?;
        validate_result_limit("recent limit", request.recent_limit)?;
        validate_result_limit("unread limit", request.unread_limit)?;
        Ok(request)
    }

    /// Admits reading one message: a valid reference and a body bound of 1 to 65536.
    pub fn prepare_get_message(&self, request: GetMessageRequest) -> (r: Result<GetMessageRequest>)
        ensures
            reports(r, get_message_problem(request)),
            r matches Ok(q) ==> q == request,
    {
        validate_message(&request.message)?;
        if request.max_body_chars == 0 || request.max_body_chars > MAX_BODY_CHARS {
            return Err(MailError::validation("max body characters must be between 1 and 65536"));
        }
        Ok(request)
    }

    /// Admits a check for new mail: a usable optional account, and writes enabled.
    pub fn prepare_check_mail(&self, request: CheckMailRequest) -> (r: Result<CheckMailRequest>)
        ensures
            reports(r, check_mail_problem(self.writes_allowed(), request)),
            r matches Ok(q) ==> q == request,
    {
        validate_optional_selector("account id", &request.account_id)?;
        self.check_writes()?;
        Ok(request)
    }

    /// Admits a state change: an account-scoped message, at least one of the
    /// two states, and writes enabled.
    pub fn prepare_set_message_state(&self, request: SetMessageStateRequest) -> (r: Result<
        SetMessageStateRequest,
    >)
        ensures
            reports(r, set_state_problem(self.writes_allowed(), request)),
            r matches Ok(q) ==> q == request,
            self.writes_allowed() && mutation_message_problem(request.message@) is None ==> (r is Ok
                <==> (request.read is Some || request.flagged is Some)),
    {
        validate_mutation_message(&request.message)?;
        if request.read.is_none() && request.flagged.is_none() {
            return Err(MailError::validation("at least one of read or flagged must be provided"));
        }
        self.check_writes()?;
        Ok(request)
    }

    /// Admits a move and fills in the destination account from the source when
    /// it names none: an account-scoped message, a valid destination other than
    /// the source mailbox, writes enabled, and explicit confirmation.
    pub fn prepare_move_message(&self, request: MoveMessageRequest) -> (r: Result<
        MoveMessageRequest,
    >)
        ensures
            reports(r, move_problem(self.writes_allowed(), request)),
            r matches Ok(q) ==> {
                &&& q.message == request.message
                &&& q.confirm == request.confirm
                &&& q.destination@ == move_destination(request)
                &&& q.destination.path == request.destination.path
                &&& request.destination.account_id is Some
                    ==> q.destination.account_id.deep_view()
                    == request.destination.account_id.deep_view()
                &&& request.destination.account_id is None
                    ==> q.destination.account_id.deep_view() == request.message.account_id.deep_view()
            },
    {
        validate_mutation_message(&request.message)?;
        let mut request = request;
        if request.destination.account_id.is_none() {
            request.destination.account_id = clone_optional(&request.message.account_id);
        }
        validate_mailbox(&request.destination)?;
        let source = request.message.mailbox();
        if source.same_as(&request.destination) {
            return Err(MailError::validation("source and destination mailboxes must differ"));
        }
        self.check_writes()?;
        if !request.confirm {
            return Err(MailError::validation("moving requires explicit confirmation"));
        }
        Ok(request)
    }

    /// Admits a new draft: a valid outgoing message, and writes enabled.
    pub fn prepare_create_draft(&self, request: CreateDraftRequest) -> (r: Result<
        CreateDraftRequest,
    >)
        ensures
            reports(r, draft_problem(self.writes_allowed(), request)),
            r matches Ok(q) ==> q == request,
    {
        validate_outgoing(&request.message)?;
        self.check_writes()?;
        Ok(request)
    }

    /// Admits a reply draft: an account-scoped source message, a valid body,
    /// and writes enabled.
    pub fn prepare_create_reply_draft(&self, request: CreateReplyDraftRequest) -> (r: Result<
        CreateReplyDraftRequest,
    >)
        ensures
            reports(r, reply_draft_problem(self.writes_allowed(), request)),
            r matches Ok(q) ==> q == request,
    {
        validate_mutation_message(&request.message)?;
        validate_body(request.body.as_str())?;
        self.check_writes()?;
        Ok(request)
    }

    /// Admits sending: a valid outgoing message, writes and sending enabled,
    /// and explicit confirmation.
    pub fn prepare_send_message(&self, request: SendMessageRequest) -> (r: Result<
        SendMessageRequest,
    >)
        ensures
            reports(r, send_problem(self.writes_allowed(), self.sends_allowed(), request)),
            r matches Ok(q) ==> q == request,
    {
        validate_outgoing(&request.message)?;
        self.check_writes()?;
        if !self.send_enabled {
            return Err(MailError::validation("sending is disabled by the current server policy"));
        }
        if !request.confirm {
            return Err(MailError::validation("sending requires explicit confirmation"));
        }
        Ok(request)
    }
}

/// The fixed diagnostic category of a backend failure.
pub open spec fn diagnostic_for(error: MailError) -> DoctorDiagnostic {
    match error {
        MailError::AutomationUnavailable(_) => DoctorDiagnostic::AutomationUnavailable,
        MailError::AutomationFailed(_) => DoctorDiagnostic::AutomationFailed,
        MailError::AutomationTimeout(_) => DoctorDiagnostic::AutomationTimeout,
        MailError::OutputTooLarge => DoctorDiagnostic::OutputTooLarge,
        MailError::InvalidResponse(_) => DoctorDiagnostic::InvalidResponse,
        MailError::Io(_) => DoctorDiagnostic::StartupFailed,
        MailError::Validation(_) => DoctorDiagnostic::BackendFailed,
        MailError::Json(_) => DoctorDiagnostic::BackendFailed,
    }
}

/// The fixed diagnostic category of a backend failure; no error text is kept.
pub fn doctor_diagnostic(error: &MailError) -> (r: DoctorDiagnostic)
    ensures
        r == diagnostic_for(*error),
{
    match error {
        MailError::AutomationUnavailable(_) => DoctorDiagnostic::AutomationUnavailable,
        MailError::AutomationFailed(_) => DoctorDiagnostic::AutomationFailed,
        MailError::AutomationTimeout(_) => DoctorDiagnostic::AutomationTimeout,
        MailError::OutputTooLarge => DoctorDiagnostic::OutputTooLarge,
        MailError::InvalidResponse(_) => DoctorDiagnostic::InvalidResponse,
        MailError::Io(_) => DoctorDiagnostic::StartupFailed,
        MailError::Validation(_) => DoctorDiagnostic::BackendFailed,
        MailError::Json(_) => DoctorDiagnostic::BackendFailed,
    }
}

/// The private readiness report: from the outcome of listing accounts it keeps
/// only the number of accounts, or the category of the failure.
pub fn doctor_result(platform: String, accounts: Result<u64>, elapsed_ms: u64) -> (r: DoctorResult)
    ensures
        r.platform == platform,
        r.elapsed_ms == elapsed_ms,
        match accounts {
            Ok(count) => r.backend_ready && r.account_count == Some(count) && r.diagnostic
                is None,
            Err(error) => !r.backend_ready && r.account_count is None && r.diagnostic == Some(
                diagnostic_for(error),
            ),
        },
{
    match accounts {
        Ok(count) => DoctorResult {
            platform,
            backend_ready: true,
            account_count: Some(count),
            elapsed_ms,
            diagnostic: None,
        },
        Err(error) => DoctorResult {
            platform,
            backend_ready: false,
            account_count: None,
            elapsed_ms,
            diagnostic: Some(doctor_diagnostic(&error)),
        },
    }
}

/// A service without the write opt-in lets no mutation through: checking
/// mail, state changes, moves, drafts, reply drafts and sends are all refused.
pub proof fn read_only_service_refuses_every_write<B>(
    service: MailService<B>,
    check: CheckMailRequest,
    state: SetMessageStateRequest,
    move_request: MoveMessageRequest,
    draft: CreateDraftRequest,
    reply: CreateReplyDraftRequest,
    send: SendMessageRequest,
)
    requires
        !service.writes_allowed(),
    ensures
        check_mail_problem(service.writes_allowed(), check) is Some,
        set_state_problem(service.writes_allowed(), state) is Some,
        move_problem(service.writes_allowed(), move_request) is Some,
        draft_problem(service.writes_allowed(), draft) is Some,
        reply_draft_problem(service.writes_allowed(), reply) is Some,
        send_problem(service.writes_allowed(), service.sends_allowed(), send) is Some,
{
}

/// A send gets through only with both opt-ins and the per-call confirmation.
pub proof fn admitted_send_was_authorized(
    writes_allowed: bool,
    sends_allowed: bool,
    request: SendMessageRequest,
)
    requires
        send_problem(writes_allowed, sends_allowed, request) is None,
    ensures
        writes_allowed,
        sends_allowed,
        request.confirm,
        outgoing_message_problem(request.message) is None,
{
}

/// A move gets through only when writes are enabled, it is confirmed, the
/// message is account-scoped, and the destination (with its account filled in)
/// is a different mailbox of some account.
pub proof fn admitted_move_is_confirmed_and_scoped(writes_allowed: bool, request: MoveMessageRequest)
    requires
        move_problem(writes_allowed, request) is None,
    ensures
        writes_allowed,
        request.confirm,
        request.message.account_id is Some,
        move_destination(request).0 is Some,
        move_destination(request) != request.message.mailbox_spec()@,
{
}

/// State changes and reply drafts get through only for account-scoped
/// messages, with writes enabled.
pub proof fn admitted_message_mutations_are_scoped(
    writes_allowed: bool,
    state: SetMessageStateRequest,
    reply: CreateReplyDraftRequest,
)
    ensures
        set_state_problem(writes_allowed, state) is None ==> writes_allowed
            && state.message.account_id is Some && (state.read is Some || state.flagged is Some),
        reply_draft_problem(writes_allowed, reply) is None ==> writes_allowed
            && reply.message.account_id is Some,
{
}

/// A move goes to the destination account it names; only a move that names
/// no destination account goes to the account of the message it moves. The
/// destination path is the one named.
pub proof fn move_keeps_a_named_destination_account(request: MoveMessageRequest)
    ensures
        request.destination.account_id is Some ==> move_destination(request).0
            == request.destination.account_id.deep_view(),
        request.destination.account_id is None ==> move_destination(request).0
            == request.message.account_id.deep_view(),
        move_destination(request).1 == request.destination.path.deep_view(),
{
}

/// A state change of a usable, account-scoped message is admitted under the
/// write policy exactly when it sets the read state, the flagged state, or
/// both; one that sets neither is refused for that, whatever the policy.
pub proof fn state_change_needs_read_or_flagged(writes_allowed: bool, request: SetMessageStateRequest)
    ensures
        writes_allowed && mutation_message_problem(request.message@) is None ==> (set_state_problem(
            writes_allowed,
            request,
        ) is None <==> (request.read is Some || request.flagged is Some)),
        mutation_message_problem(request.message@) is None && request.read is None
            && request.flagged is None ==> set_state_problem(writes_allowed, request) == Some(
            "at least one of read or flagged must be provided"@,
        ),
{
}

/// What every admitted read or composition holds, whatever else it carries:
/// a search has a limit from 1 to 100, a mailbox path of 1 to 32 components
/// and a well-formed cursor if any; an Inbox snapshot is admitted exactly when
/// both limits are from 1 to 100 and the account, if any, is usable; a
/// message read names a positive id and a body bound from 1 to 65536; a new
/// message has 1 to 100 recipients, a subject of at most 998 characters and a
/// body of at most 200000.
pub proof fn admitted_requests_are_bounded(
    search: SearchRequest,
    inbox: InboxSnapshotRequest,
    read: GetMessageRequest,
    message: crate::model::OutgoingMessage,
)
    ensures
        search_problem(search) is None ==> {
            &&& 1 <= search.limit <= 100
            &&& 1 <= search.mailbox@.1.len() <= 32
            &&& search.cursor matches Some(c) ==> crate::cursor::cursor_ok(c@)
        },
        inbox_snapshot_problem(inbox) is None <==> {
            &&& 1 <= inbox.recent_limit <= 100
            &&& 1 <= inbox.unread_limit <= 100
            &&& inbox.account_id matches Some(a) ==> crate::cursor::selector_ok(a@)
        },
        get_message_problem(read) is None ==> {
            &&& read.message.id > 0
            &&& 1 <= read.max_body_chars <= 65536
            &&& 1 <= read.message@.1.len() <= 32
        },
        outgoing_message_problem(message) is None ==> {
            &&& 1 <= message.to.len() + message.cc.len() + message.bcc.len() <= 100
            &&& message.subject@.len() <= 998
            &&& message.body@.len() <= 200000
        },
{
}

/// An admitted search with both date bounds has a lower bound strictly
/// earlier than its upper bound.
pub proof fn admitted_search_window_is_ordered(request: SearchRequest)
    requires
        search_problem(request) is None,
        request.received_after is Some,
        request.received_before is Some,
    ensures
        bound_instant(request.received_after.deep_view()) matches Some(a) && bound_instant(
            request.received_before.deep_view(),
        ) matches Some(b) && crate::dates::earlier(a, b),
{
}

} // verus!
