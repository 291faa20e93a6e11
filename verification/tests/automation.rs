use apple_mail_mcp::automation::{
    append_bounded, check_payload, confirm_draft, confirm_message_state, confirm_move,
    confirm_reply_draft, confirm_sent, envelope_result, exit_failure, message_ref,
    public_automation_message, MAX_AUTOMATION_INPUT, MAX_AUTOMATION_OUTPUT,
};
use apple_mail_mcp::model::{
    CompositionResult, CreateReplyDraftRequest, MailboxRef, MessageRef, MessageStateResult,
    MoveMessageRequest, MoveMessageResult, ReplyDraftResult, SetMessageStateRequest,
};
use apple_mail_mcp::MailError;

#[test]
fn public_error_never_replays_sensitive_input() {
    let raw = "person@example.com subject Secret mailbox Clients body private";
    let message = public_automation_message(raw);
    assert!(!message.contains("person@example.com"));
    assert!(!message.contains("Secret"));
    assert!(!message.contains("Clients"));
    assert!(!message.contains("private"));
}

#[test]
fn error_envelope_is_classified_without_replaying_details() {
    let error = envelope_result::<()>(
        false,
        None,
        Some("person@example.com Secret body".to_owned()),
    )
    .unwrap_err();
    assert!(
        matches!(error, MailError::AutomationFailed(message) if !message.contains("Secret") && !message.contains('@'))
    );
}

#[test]
fn nonzero_exit_is_classified() {
    let error = exit_failure("Error: private@example.com Secret");
    assert!(
        matches!(error, MailError::AutomationFailed(message) if !message.contains("Secret") && !message.contains('@'))
    );
}

#[test]
fn oversized_output_is_stopped_at_the_capture_limit() {
    let mut output = Vec::new();
    let chunk = vec![b'x'; 8192];
    let mut result = Ok(());
    for _ in 0..200 {
        result = append_bounded(&mut output, &chunk, MAX_AUTOMATION_OUTPUT);
        if result.is_err() {
            break;
        }
    }
    assert!(matches!(result, Err(MailError::OutputTooLarge)));
    assert_eq!(output.len(), MAX_AUTOMATION_OUTPUT);
}

#[test]
fn oversized_input_is_rejected_before_process_launch() {
    let payload = serde_json::to_string(&"x".repeat(600_000)).unwrap();
    assert!(matches!(
        check_payload(payload),
        Err(MailError::Validation(_))
    ));
}

#[test]
fn serialized_input_limit_accepts_boundary_and_rejects_next_byte() {
    let at_limit = serde_json::to_string(&"x".repeat(MAX_AUTOMATION_INPUT - 2)).unwrap();
    assert_eq!(check_payload(at_limit).unwrap().len(), MAX_AUTOMATION_INPUT);
    let over_limit = serde_json::to_string(&"x".repeat(MAX_AUTOMATION_INPUT - 1)).unwrap();
    assert!(matches!(
        check_payload(over_limit),
        Err(MailError::Validation(_))
    ));
}

#[test]
fn composition_validates_each_mail_confirmation_invariant() {
    for data in [
        CompositionResult {
            local_id: 0,
            sent: false,
            visible: true,
        },
        CompositionResult {
            local_id: 1,
            sent: true,
            visible: true,
        },
        CompositionResult {
            local_id: 1,
            sent: false,
            visible: false,
        },
    ] {
        assert!(matches!(
            confirm_draft(data),
            Err(MailError::AutomationFailed(_))
        ));
    }
    assert!(matches!(
        confirm_sent(CompositionResult {
            local_id: 1,
            sent: false,
            visible: false,
        }),
        Err(MailError::AutomationFailed(_))
    ));
}

#[test]
fn state_mismatches_are_rejected_for_each_requested_field() {
    let message = MessageRef {
        account_id: Some("a".to_owned()),
        mailbox_path: vec!["INBOX".to_owned()],
        id: 1,
    };
    for request in [
        SetMessageStateRequest {
            message: message.clone_ref(),
            read: Some(true),
            flagged: None,
        },
        SetMessageStateRequest {
            message: message.clone_ref(),
            read: None,
            flagged: Some(true),
        },
    ] {
        let result = MessageStateResult {
            message: message.clone_ref(),
            read: false,
            flagged: false,
        };
        assert!(matches!(
            confirm_message_state(&request, result),
            Err(MailError::AutomationFailed(_))
        ));
    }
}

trait CloneRef {
    fn clone_ref(&self) -> Self;
}

impl CloneRef for MessageRef {
    fn clone_ref(&self) -> Self {
        message_ref(self.account_id.clone(), self.mailbox_path.clone(), self.id)
    }
}

fn archive(account: &str) -> MailboxRef {
    MailboxRef {
        account_id: Some(account.to_owned()),
        path: vec!["Archive".to_owned()],
    }
}

fn move_request() -> MoveMessageRequest {
    MoveMessageRequest {
        message: MessageRef {
            account_id: Some("a".to_owned()),
            mailbox_path: vec!["INBOX".to_owned()],
            id: 1,
        },
        destination: archive("a"),
        confirm: true,
    }
}

#[test]
fn move_returns_only_confirmed_acknowledgement_not_a_synthetic_id() {
    let result = confirm_move(
        &move_request(),
        MoveMessageResult {
            moved: true,
            destination: archive("a"),
        },
    )
    .unwrap();
    assert!(result.moved);
    assert_eq!(result.destination.path, ["Archive"]);

    for data in [
        MoveMessageResult {
            moved: false,
            destination: archive("a"),
        },
        MoveMessageResult {
            moved: true,
            destination: archive("b"),
        },
    ] {
        assert!(matches!(
            confirm_move(&move_request(), data),
            Err(MailError::AutomationFailed(_))
        ));
    }
}

// ----- further cases -----

#[test]
fn public_messages_classify_known_failures() {
    assert!(public_automation_message("Error -1743: Not Authorized to send Apple events")
        .starts_with("macOS denied Automation access"));
    assert!(public_automation_message("Application isn\u{2019}t running.")
        .starts_with("Mail is unavailable"));
    assert_eq!(
        public_automation_message("Error: ACCOUNT WAS NOT FOUND"),
        "the selected Mail account was not found"
    );
    assert_eq!(
        public_automation_message("mailbox path was not found: Clients/Secret"),
        "the selected mailbox path was not found"
    );
    assert_eq!(
        public_automation_message("Message was not found"),
        "the selected message was not found in that mailbox"
    );
    assert_eq!(
        public_automation_message(""),
        "the automation request failed; verify Mail is running and Automation access is allowed"
    );
}

#[test]
fn successful_envelope_yields_its_data_and_requires_it() {
    assert_eq!(envelope_result(true, Some(7), None).unwrap(), 7);
    assert!(matches!(
        envelope_result::<u8>(true, None, None),
        Err(MailError::InvalidResponse(message)) if message == "successful response omitted data"
    ));
}

#[test]
fn output_within_the_limit_is_kept_whole() {
    let mut output = b"ab".to_vec();
    append_bounded(&mut output, b"cd", 4).unwrap();
    assert_eq!(output, b"abcd");
    assert!(matches!(
        append_bounded(&mut output, b"e", 4),
        Err(MailError::OutputTooLarge)
    ));
    assert_eq!(output, b"abcd");
}

#[test]
fn confirmed_results_pass_through() {
    let draft = confirm_draft(CompositionResult {
        local_id: 10,
        sent: false,
        visible: true,
    })
    .unwrap();
    assert_eq!(draft.local_id, 10);
    let sent = confirm_sent(CompositionResult {
        local_id: 11,
        sent: true,
        visible: false,
    })
    .unwrap();
    assert_eq!(sent.local_id, 11);
}

fn reply_result(source_id: i64) -> ReplyDraftResult {
    ReplyDraftResult {
        source: MessageRef {
            account_id: Some("account-1".to_owned()),
            mailbox_path: vec!["INBOX".to_owned()],
            id: source_id,
        },
        local_id: 12,
        subject: "Re: Hello".to_owned(),
        to: vec!["sender@example.com".to_owned()],
        cc: Vec::new(),
        sent: false,
        draft_present: true,
        visible: true,
        content_verified: true,
    }
}

#[test]
fn reply_draft_must_answer_the_requested_source_and_be_verified() {
    let request = CreateReplyDraftRequest {
        message: MessageRef {
            account_id: Some("account-1".to_owned()),
            mailbox_path: vec!["INBOX".to_owned()],
            id: 7,
        },
        body: "Reply body".to_owned(),
    };
    assert_eq!(confirm_reply_draft(&request, reply_result(7)).unwrap().local_id, 12);
    assert!(matches!(
        confirm_reply_draft(&request, reply_result(8)),
        Err(MailError::AutomationFailed(_))
    ));
    let mut unverified = reply_result(7);
    unverified.content_verified = false;
    assert!(matches!(
        confirm_reply_draft(&request, unverified),
        Err(MailError::AutomationFailed(_))
    ));
}
