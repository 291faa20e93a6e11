use apple_mail_mcp::cli::{Cli, Command, Operation};
use apple_mail_mcp::command_line::CliError;
use apple_mail_mcp::model::{DEFAULT_BODY_CHARS, DEFAULT_RESULT_LIMIT};
use apple_mail_mcp::{MailError, MailService};

fn operation(args: &[&str]) -> Operation {
    Cli::try_parse_from(args).unwrap().command.operation()
}

/// The call a prepared operation hands to Mail, written as a recording
/// backend would log it.
fn call<B>(service: &MailService<B>, args: &[&str]) -> Result<String, MailError> {
    match operation(args) {
        Operation::SetMessageState(request) => {
            let request = service.prepare_set_message_state(request)?;
            Ok(format!(
                "state:{}:{:?}:{:?}",
                request.message.id, request.read, request.flagged
            ))
        }
        Operation::MoveMessage(request) => {
            let request = service.prepare_move_message(request)?;
            Ok(format!(
                "move:{}:{}",
                request.destination.account_id.as_deref().unwrap_or("none"),
                request.destination.path.join("/")
            ))
        }
        Operation::CreateDraft(request) => {
            let request = service.prepare_create_draft(request)?;
            Ok(format!("draft:{}", request.message.to.join(",")))
        }
        Operation::CreateReplyDraft(request) => {
            let request = service.prepare_create_reply_draft(request)?;
            Ok(format!("reply:{}:{}", request.message.id, request.body))
        }
        Operation::SendMessage(request) => {
            let request = service.prepare_send_message(request)?;
            Ok(format!("send:{}", request.message.to.join(",")))
        }
        other => panic!("not a write: {other:?}"),
    }
}

#[test]
fn mcp_send_opt_in_requires_write_opt_in() {
    assert!(Cli::try_parse_from(&["apple-mail", "mcp", "--allow-send"]).is_err());
    assert!(Cli::try_parse_from(&["apple-mail", "mcp", "--allow-write", "--allow-send"]).is_ok());
}

#[test]
fn search_preserves_repeated_mailbox_components() {
    let service = MailService::new(());
    let Operation::Search(request) = operation(&[
        "apple-mail",
        "search",
        "--account",
        "account-1",
        "--mailbox",
        "Projects",
        "--mailbox",
        "Customer",
        "--unread",
        "true",
        "--limit",
        "7",
    ]) else {
        panic!("search expected");
    };
    let request = service.prepare_search_messages(request).unwrap();
    assert_eq!(request.mailbox.account_id.as_deref(), Some("account-1"));
    assert_eq!(request.mailbox.path, ["Projects", "Customer"]);
    assert_eq!(request.unread, Some(true));
    assert_eq!(request.limit, 7);
}

/// `mailboxes`, `show` and `check` on a new service: each request is
/// admitted as given. The JSON they print is written by the program around
/// the library, from what Mail answers.
#[test]
fn mailboxes_show_and_check_emit_json() {
    let service = MailService::new(());
    let Operation::ListMailboxes(request) =
        operation(&["apple-mail", "mailboxes", "--account", "account-1"])
    else {
        panic!("mailboxes expected");
    };
    let request = service.prepare_list_mailboxes(request).unwrap();
    assert_eq!(request.account_id.as_deref(), Some("account-1"));

    let Operation::GetMessage(request) = operation(&[
        "apple-mail",
        "show",
        "--account",
        "account-1",
        "--mailbox",
        "INBOX",
        "--id",
        "42",
        "--max-body-chars",
        "50",
    ]) else {
        panic!("show expected");
    };
    let request = service.prepare_get_message(request).unwrap();
    assert_eq!(request.message.id, 42);
    assert_eq!(request.max_body_chars, 50);

    let Operation::CheckMail(request) = operation(&["apple-mail", "check"]) else {
        panic!("check expected");
    };
    let request = service.prepare_check_mail(request).unwrap();
    assert!(request.account_id.is_none());
}

/// An invalid search is refused before any request reaches Mail, so no
/// partial output is ever written for it.
#[test]
fn validation_and_backend_errors_are_returned_without_partial_json() {
    let service = MailService::new(());
    let Operation::Search(request) = operation(&["apple-mail", "search", "--limit", "0"]) else {
        panic!("search expected");
    };
    assert!(service.prepare_search_messages(request).is_err());
}

#[test]
fn state_move_and_draft_use_typed_requests() {
    let service = MailService::new(()).with_write_enabled(true);
    let commands: [&[&str]; 4] = [
        &[
            "apple-mail",
            "state",
            "--account",
            "account-1",
            "--mailbox",
            "INBOX",
            "--id",
            "7",
            "--read",
            "true",
            "--flagged",
            "false",
        ],
        &[
            "apple-mail",
            "move",
            "--account",
            "account-1",
            "--mailbox",
            "INBOX",
            "--id",
            "7",
            "--destination-mailbox",
            "Archive",
            "--confirm-move",
        ],
        &[
            "apple-mail",
            "draft",
            "--to",
            "person@example.com",
            "--subject",
            "Hello",
            "--body",
            "Body",
        ],
        &[
            "apple-mail",
            "reply",
            "--account",
            "account-1",
            "--mailbox",
            "INBOX",
            "--id",
            "7",
            "--body",
            "Reply body",
        ],
    ];
    let calls: Vec<String> = commands
        .iter()
        .map(|args| call(&service, args).unwrap())
        .collect();
    assert_eq!(
        calls,
        [
            "state:7:Some(true):Some(false)",
            "move:account-1:Archive",
            "draft:person@example.com",
            "reply:7:Reply body"
        ]
    );
}

#[test]
fn send_requires_policy_and_cli_confirmation() {
    let args: &[&str] = &[
        "apple-mail",
        "send",
        "--to",
        "person@example.com",
        "--subject",
        "Hello",
    ];
    let denied = MailService::new(());
    assert!(call(&denied, args).is_err());

    let allowed = MailService::new(())
        .with_write_enabled(true)
        .with_send_enabled(true);
    assert!(call(&allowed, args).is_err());
    let confirmed: &[&str] = &[
        "apple-mail",
        "send",
        "--to",
        "person@example.com",
        "--subject",
        "Hello",
        "--confirm-send",
    ];
    assert_eq!(call(&allowed, confirmed).unwrap(), "send:person@example.com");
}

#[test]
fn invalid_recipient_fails_without_backend_call() {
    let service = MailService::new(()).with_write_enabled(true);
    assert!(call(&service, &["apple-mail", "draft", "--to", "not-an-address"]).is_err());
}

#[test]
fn unscoped_move_is_rejected_without_backend_call() {
    let service = MailService::new(()).with_write_enabled(true);
    let args = [
        "apple-mail",
        "move",
        "--mailbox",
        "INBOX",
        "--id",
        "7",
        "--destination-mailbox",
        "Archive",
        "--confirm-move",
    ];
    assert!(call(&service, &args).is_err());
}

#[test]
fn move_requires_cli_confirmation_without_backend_call() {
    let service = MailService::new(()).with_write_enabled(true);
    let args = [
        "apple-mail",
        "move",
        "--account",
        "account-1",
        "--mailbox",
        "INBOX",
        "--id",
        "7",
        "--destination-mailbox",
        "Archive",
    ];
    assert!(call(&service, &args).is_err());
}

// ----- further cases -----

#[test]
fn defaults_apply_when_options_are_absent() {
    let Operation::Search(request) = operation(&["apple-mail", "search"]) else {
        panic!("search expected");
    };
    assert_eq!(request.limit, DEFAULT_RESULT_LIMIT);
    assert_eq!(request.mailbox.path, ["INBOX"]);
    assert!(request.mailbox.account_id.is_none());

    let Operation::GetMessage(request) = operation(&["apple-mail", "show", "--id", "3"]) else {
        panic!("show expected");
    };
    assert_eq!(request.max_body_chars, DEFAULT_BODY_CHARS);
    assert_eq!(request.message.mailbox_path, ["INBOX"]);

    let Operation::InboxSnapshot(request) = operation(&["apple-mail", "inbox"]) else {
        panic!("inbox expected");
    };
    assert_eq!((request.recent_limit, request.unread_limit), (10, 10));

    let Operation::CreateDraft(request) = operation(&["apple-mail", "draft", "--to", "a@b"])
    else {
        panic!("draft expected");
    };
    assert_eq!(request.message.subject, "");
    assert_eq!(request.message.body, "");
}

#[test]
fn inline_values_and_destination_account() {
    let Operation::MoveMessage(request) = operation(&[
        "apple-mail",
        "move",
        "--account=account-1",
        "--mailbox=Projects",
        "--id=7",
        "--destination-account",
        "account-2",
        "--destination-mailbox=Archive=2024",
        "--confirm-move",
    ]) else {
        panic!("move expected");
    };
    assert_eq!(request.message.account_id.as_deref(), Some("account-1"));
    assert_eq!(request.message.mailbox_path, ["Projects"]);
    assert_eq!(request.destination.account_id.as_deref(), Some("account-2"));
    assert_eq!(request.destination.path, ["Archive=2024"]);
    assert!(request.confirm);
}

#[test]
fn command_line_errors_are_classified() {
    let cases: [(&[&str], CliError); 14] = [
        (&["apple-mail"], CliError::MissingCommand),
        (&["apple-mail", "--help"], CliError::Help),
        (&["apple-mail", "--version"], CliError::Version),
        (&["apple-mail", "delete"], CliError::UnknownCommand),
        (&["apple-mail", "search", "--help"], CliError::Help),
        (&["apple-mail", "accounts", "--account", "x"], CliError::UnexpectedArgument),
        (&["apple-mail", "search", "INBOX"], CliError::UnexpectedArgument),
        (&["apple-mail", "search", "--limit"], CliError::MissingValue),
        (&["apple-mail", "search", "--limit", "--unread"], CliError::MissingValue),
        (&["apple-mail", "search", "--unread", "yes"], CliError::InvalidValue),
        (&["apple-mail", "search", "--limit", "70000"], CliError::InvalidValue),
        (&["apple-mail", "search", "--limit", "1", "--limit=2"], CliError::RepeatedArgument),
        (&["apple-mail", "show", "--account", "a"], CliError::MissingRequired),
        (&["apple-mail", "move", "--id", "1", "--confirm-move=true"], CliError::UnexpectedArgument),
    ];
    for (args, expected) in cases {
        assert_eq!(Cli::try_parse_from(args).unwrap_err(), expected, "{args:?}");
    }
    assert_eq!(
        Cli::try_parse_from(&["apple-mail", "move", "--id", "1"]).unwrap_err(),
        CliError::MissingRequired
    );
    assert_eq!(
        Cli::try_parse_from(&["apple-mail", "reply", "--id", "1"]).unwrap_err(),
        CliError::MissingRequired
    );
    assert_eq!(
        Cli::try_parse_from(&["apple-mail", "mcp", "--allow-send"]).unwrap_err(),
        CliError::SendWithoutWrite
    );
}

#[test]
fn mcp_opt_ins_become_the_serving_policy() {
    match operation(&["apple-mail", "mcp"]) {
        Operation::Serve {
            allow_write,
            allow_send,
        } => assert!(!allow_write && !allow_send),
        other => panic!("serve expected, got {other:?}"),
    }
    match Cli::try_parse_from(&["apple-mail", "mcp", "--allow-write"]).unwrap().command {
        Command::Mcp(args) => assert!(args.allow_write && !args.allow_send),
        other => panic!("mcp expected, got {other:?}"),
    }
}

#[test]
fn numbers_accept_a_plus_sign_and_negative_ids_reach_validation() {
    let service = MailService::new(());
    let Operation::GetMessage(request) =
        operation(&["apple-mail", "show", "--id=-4", "--max-body-chars", "+60"])
    else {
        panic!("show expected");
    };
    assert_eq!(request.max_body_chars, 60);
    assert_eq!(request.message.id, -4);
    assert!(service.prepare_get_message(request).is_err());
}
