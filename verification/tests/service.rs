use apple_mail_mcp::model::{
    CheckMailRequest, CreateDraftRequest, CreateReplyDraftRequest, GetMessageRequest,
    InboxSnapshotRequest, ListMailboxesRequest, MailboxRef, MessageRef, MoveMessageRequest,
    OutgoingMessage, SearchRequest, SendMessageRequest, SetMessageStateRequest, MAX_BODY_CHARS,
    MAX_COMPOSE_BODY_CHARS, MAX_RECIPIENTS, MAX_RESULT_LIMIT, MAX_SUBJECT_CHARS,
};
use apple_mail_mcp::validate::{validate_cursor, MAX_MAILBOX_DEPTH};
use apple_mail_mcp::cursor::MAX_SELECTOR_CHARS;
use apple_mail_mcp::{MailError, MailService};

fn validation_message<T: std::fmt::Debug>(result: Result<T, MailError>) -> String {
    match result {
        Err(MailError::Validation(message)) => message,
        other => panic!("expected a validation error, got {other:?}"),
    }
}

fn message(id: i64) -> MessageRef {
    MessageRef {
        account_id: Some("account-1".to_owned()),
        mailbox_path: vec!["INBOX".to_owned()],
        id,
    }
}

fn outgoing() -> OutgoingMessage {
    OutgoingMessage {
        to: vec!["person@example.com".to_owned()],
        cc: Vec::new(),
        bcc: Vec::new(),
        subject: "Hello".to_owned(),
        body: "Body".to_owned(),
    }
}

#[test]
fn invalid_limit_fails_before_backend() {
    let service = MailService::new(());
    let request = SearchRequest {
        limit: MAX_RESULT_LIMIT + 1,
        ..SearchRequest::default()
    };
    assert!(matches!(
        service.prepare_search_messages(request),
        Err(MailError::Validation(_))
    ));
}

#[test]
fn valid_search_reaches_backend() {
    let service = MailService::new(());
    let request = service
        .prepare_search_messages(SearchRequest::default())
        .unwrap();
    assert_eq!(request.limit, 25);
    assert_eq!(request.mailbox.path, ["INBOX"]);
}

#[test]
fn all_invalid_bounds_and_selectors_fail_before_backend() {
    let service = MailService::new(());

    for limit in [0, MAX_RESULT_LIMIT + 1] {
        let request = SearchRequest {
            limit,
            ..SearchRequest::default()
        };
        assert!(matches!(
            service.prepare_search_messages(request),
            Err(MailError::Validation(_))
        ));
    }
    for filter in ["", "bad\nfilter"] {
        let request = SearchRequest {
            subject_contains: Some(filter.to_owned()),
            ..SearchRequest::default()
        };
        assert!(matches!(
            service.prepare_search_messages(request),
            Err(MailError::Validation(_))
        ));
    }
    for request in [
        SearchRequest {
            received_after: Some("not-a-date".to_owned()),
            ..SearchRequest::default()
        },
        SearchRequest {
            received_after: Some("2026-07-26T00:00:00Z".to_owned()),
            received_before: Some("2026-07-25T00:00:00Z".to_owned()),
            ..SearchRequest::default()
        },
        SearchRequest {
            cursor: Some("not-a-cursor".to_owned()),
            ..SearchRequest::default()
        },
        SearchRequest {
            cursor: Some("v1:123:0:account".to_owned()),
            ..SearchRequest::default()
        },
        SearchRequest {
            cursor: Some("v1:123:1:%ZZ".to_owned()),
            ..SearchRequest::default()
        },
    ] {
        assert!(matches!(
            service.prepare_search_messages(request),
            Err(MailError::Validation(_))
        ));
    }
    for request in [
        InboxSnapshotRequest {
            recent_limit: 0,
            ..InboxSnapshotRequest::default()
        },
        InboxSnapshotRequest {
            unread_limit: MAX_RESULT_LIMIT + 1,
            ..InboxSnapshotRequest::default()
        },
    ] {
        assert!(matches!(
            service.prepare_inbox_snapshot(request),
            Err(MailError::Validation(_))
        ));
    }
    let oversized = "x".repeat(MAX_SELECTOR_CHARS + 1);
    assert!(matches!(
        service.prepare_list_mailboxes(ListMailboxesRequest {
            account_id: Some(oversized),
        }),
        Err(MailError::Validation(_))
    ));
    assert!(matches!(
        service.prepare_search_messages(SearchRequest {
            mailbox: MailboxRef {
                account_id: None,
                path: Vec::new(),
            },
            ..SearchRequest::default()
        }),
        Err(MailError::Validation(_))
    ));
    for path in [
        vec!["x".to_owned(); MAX_MAILBOX_DEPTH + 1],
        vec!["x".repeat(MAX_SELECTOR_CHARS); 17],
    ] {
        assert!(matches!(
            service.prepare_search_messages(SearchRequest {
                mailbox: MailboxRef {
                    account_id: None,
                    path,
                },
                ..SearchRequest::default()
            }),
            Err(MailError::Validation(_))
        ));
    }
    assert!(matches!(
        service.prepare_get_message(GetMessageRequest {
            message: MessageRef {
                account_id: None,
                mailbox_path: vec!["INBOX".to_owned()],
                id: 0,
            },
            max_body_chars: 1,
        }),
        Err(MailError::Validation(_))
    ));
    for max_body_chars in [0, MAX_BODY_CHARS + 1] {
        assert!(matches!(
            service.prepare_get_message(GetMessageRequest {
                message: MessageRef {
                    account_id: None,
                    mailbox_path: vec!["INBOX".to_owned()],
                    id: 1,
                },
                max_body_chars,
            }),
            Err(MailError::Validation(_))
        ));
    }
}

#[test]
fn generated_cursor_accepts_max_length_percent_escaped_account() {
    let account = "😀".repeat(MAX_SELECTOR_CHARS);
    let encoded = account
        .as_bytes()
        .iter()
        .map(|byte| format!("%{byte:02X}"))
        .collect::<String>();
    let cursor = format!("v1:1784966400000:42:{encoded}");
    validate_cursor(&Some(cursor)).unwrap();
    assert!(matches!(
        validate_cursor(&Some("v1:1784966400000:42:%F0%9F".to_owned())),
        Err(MailError::Validation(_))
    ));
}

#[test]
fn valid_read_operations_reach_the_backend() {
    let service = MailService::new(());
    service
        .prepare_list_mailboxes(ListMailboxesRequest::default())
        .unwrap();
    service
        .prepare_inbox_snapshot(InboxSnapshotRequest::default())
        .unwrap();
    service
        .prepare_get_message(GetMessageRequest {
            message: MessageRef {
                account_id: None,
                mailbox_path: vec!["INBOX".to_owned()],
                id: 1,
            },
            max_body_chars: 10,
        })
        .unwrap();
    service
        .prepare_check_mail(CheckMailRequest::default())
        .unwrap();
}

#[test]
fn invalid_mutations_fail_before_backend() {
    let service = MailService::new(());

    assert!(matches!(
        service.prepare_set_message_state(SetMessageStateRequest {
            message: message(1),
            read: None,
            flagged: None,
        }),
        Err(MailError::Validation(_))
    ));
    let mut unscoped = message(1);
    unscoped.account_id = None;
    let error = validation_message(service.prepare_set_message_state(SetMessageStateRequest {
        message: unscoped,
        read: Some(true),
        flagged: None,
    }));
    assert!(error.contains("account-scoped"));
    assert!(matches!(
        service.prepare_move_message(MoveMessageRequest {
            message: message(1),
            destination: MailboxRef {
                account_id: Some("account-1".to_owned()),
                path: vec!["INBOX".to_owned()],
            },
            confirm: true,
        }),
        Err(MailError::Validation(_))
    ));
    let error = validation_message(service.prepare_move_message(MoveMessageRequest {
        message: message(1),
        destination: MailboxRef {
            account_id: None,
            path: vec!["INBOX".to_owned()],
        },
        confirm: true,
    }));
    assert!(error.contains("differ"));

    let invalid_messages = [
        OutgoingMessage {
            to: Vec::new(),
            ..outgoing()
        },
        OutgoingMessage {
            to: vec!["not-an-address".to_owned()],
            ..outgoing()
        },
        OutgoingMessage {
            subject: "bad\nsubject".to_owned(),
            ..outgoing()
        },
        OutgoingMessage {
            body: "bad\0body".to_owned(),
            ..outgoing()
        },
        OutgoingMessage {
            to: vec!["person@example.com".to_owned(); MAX_RECIPIENTS + 1],
            ..outgoing()
        },
        OutgoingMessage {
            subject: "x".repeat(MAX_SUBJECT_CHARS + 1),
            ..outgoing()
        },
        OutgoingMessage {
            body: "x".repeat(MAX_COMPOSE_BODY_CHARS + 1),
            ..outgoing()
        },
    ];
    for message in invalid_messages {
        assert!(matches!(
            service.prepare_create_draft(CreateDraftRequest { message }),
            Err(MailError::Validation(_))
        ));
    }
}

#[test]
fn sending_requires_policy_and_per_call_confirmation() {
    let denied = MailService::new(());
    let error = validation_message(denied.prepare_send_message(SendMessageRequest {
        message: outgoing(),
        confirm: true,
    }));
    assert!(error.contains("disabled"));

    let allowed = MailService::new(()).with_send_enabled(true);
    let error = validation_message(allowed.prepare_send_message(SendMessageRequest {
        message: outgoing(),
        confirm: false,
    }));
    assert!(error.contains("confirmation"));
    let request = allowed
        .prepare_send_message(SendMessageRequest {
            message: outgoing(),
            confirm: true,
        })
        .unwrap();
    assert_eq!(request.message.to, ["person@example.com"]);
}

#[test]
fn valid_mutations_reach_backend() {
    let service = MailService::new(());
    service
        .prepare_set_message_state(SetMessageStateRequest {
            message: message(1),
            read: Some(true),
            flagged: Some(false),
        })
        .unwrap();
    service
        .prepare_move_message(MoveMessageRequest {
            message: message(1),
            destination: MailboxRef {
                account_id: Some("account-1".to_owned()),
                path: vec!["Archive".to_owned()],
            },
            confirm: true,
        })
        .unwrap();
    service
        .prepare_create_draft(CreateDraftRequest {
            message: outgoing(),
        })
        .unwrap();
}

#[test]
fn move_inherits_and_dispatches_the_source_account() {
    let service = MailService::new(());
    let request = service
        .prepare_move_message(MoveMessageRequest {
            message: message(1),
            destination: MailboxRef {
                account_id: None,
                path: vec!["Archive".to_owned()],
            },
            confirm: true,
        })
        .unwrap();
    assert!(request.confirm);
    assert_eq!(request.destination.account_id.as_deref(), Some("account-1"));
    assert_eq!(request.destination.path, ["Archive"]);
}

// ----- further cases -----

#[test]
fn read_only_service_refuses_each_write_with_the_policy_message() {
    let service = MailService::new(()).with_write_enabled(false);
    let writes_disabled = "writes are disabled by the current server policy";
    assert_eq!(
        validation_message(service.prepare_check_mail(CheckMailRequest::default())),
        writes_disabled
    );
    assert_eq!(
        validation_message(service.prepare_set_message_state(SetMessageStateRequest {
            message: message(1),
            read: Some(true),
            flagged: None,
        })),
        writes_disabled
    );
    assert_eq!(
        validation_message(service.prepare_move_message(MoveMessageRequest {
            message: message(1),
            destination: MailboxRef {
                account_id: Some("account-1".to_owned()),
                path: vec!["Archive".to_owned()],
            },
            confirm: true,
        })),
        writes_disabled
    );
    assert_eq!(
        validation_message(service.prepare_create_draft(CreateDraftRequest {
            message: outgoing()
        })),
        writes_disabled
    );
    assert_eq!(
        validation_message(service.prepare_create_reply_draft(CreateReplyDraftRequest {
            message: message(1),
            body: "Reply".to_owned(),
        })),
        writes_disabled
    );
    assert_eq!(
        validation_message(service.prepare_send_message(SendMessageRequest {
            message: outgoing(),
            confirm: true,
        })),
        writes_disabled
    );
}

#[test]
fn send_with_writes_but_without_send_opt_in_is_refused() {
    let service = MailService::new(());
    assert_eq!(
        validation_message(service.prepare_send_message(SendMessageRequest {
            message: outgoing(),
            confirm: true,
        })),
        "sending is disabled by the current server policy"
    );
}

#[test]
fn move_without_confirmation_is_refused() {
    let service = MailService::new(());
    assert_eq!(
        validation_message(service.prepare_move_message(MoveMessageRequest {
            message: message(1),
            destination: MailboxRef {
                account_id: None,
                path: vec!["Archive".to_owned()],
            },
            confirm: false,
        })),
        "moving requires explicit confirmation"
    );
}

#[test]
fn reply_draft_checks_scope_and_body() {
    let service = MailService::new(());
    let request = service
        .prepare_create_reply_draft(CreateReplyDraftRequest {
            message: message(7),
            body: "Reply body".to_owned(),
        })
        .unwrap();
    assert_eq!(request.message.id, 7);
    assert_eq!(
        validation_message(service.prepare_create_reply_draft(CreateReplyDraftRequest {
            message: message(7),
            body: "bad\0body".to_owned(),
        })),
        "body cannot contain NUL characters"
    );
    let mut unscoped = message(7);
    unscoped.account_id = None;
    assert_eq!(
        validation_message(service.prepare_create_reply_draft(CreateReplyDraftRequest {
            message: unscoped,
            body: "Reply".to_owned(),
        })),
        "message mutations require an account-scoped reference"
    );
}

#[test]
fn selector_messages_name_the_field() {
    let service = MailService::new(());
    assert_eq!(
        validation_message(service.prepare_list_mailboxes(ListMailboxesRequest {
            account_id: Some("   ".to_owned()),
        })),
        "account id cannot be empty"
    );
    assert_eq!(
        validation_message(service.prepare_search_messages(SearchRequest {
            sender_contains: Some("a\u{85}b".to_owned()),
            ..SearchRequest::default()
        })),
        "sender filter cannot contain control characters"
    );
    assert_eq!(
        validation_message(service.prepare_search_messages(SearchRequest {
            mailbox: MailboxRef {
                account_id: None,
                path: vec!["Projects".to_owned(), "\u{3000}".to_owned()],
            },
            ..SearchRequest::default()
        })),
        "mailbox path component cannot be empty"
    );
    assert_eq!(
        validation_message(service.prepare_search_messages(SearchRequest {
            limit: 0,
            ..SearchRequest::default()
        })),
        "limit must be between 1 and 100"
    );
}

#[test]
fn mailbox_path_total_is_counted_in_characters() {
    let service = MailService::new(());
    // 16 components of 256 characters: exactly 4096 in all
    let at_limit = vec!["é".repeat(MAX_SELECTOR_CHARS); 16];
    service
        .prepare_search_messages(SearchRequest {
            mailbox: MailboxRef {
                account_id: None,
                path: at_limit,
            },
            ..SearchRequest::default()
        })
        .unwrap();
    let mut over = vec!["é".repeat(MAX_SELECTOR_CHARS); 16];
    over.push("x".to_owned());
    assert_eq!(
        validation_message(service.prepare_search_messages(SearchRequest {
            mailbox: MailboxRef {
                account_id: None,
                path: over,
            },
            ..SearchRequest::default()
        })),
        "mailbox path cannot exceed 4096 total characters"
    );
}

#[test]
fn date_bounds_are_parsed_and_ordered_by_instant() {
    let service = MailService::new(());
    // the same instant written with two offsets is not strictly earlier
    assert_eq!(
        validation_message(service.prepare_search_messages(SearchRequest {
            received_after: Some("2026-07-25T02:00:00+02:00".to_owned()),
            received_before: Some("2026-07-25T00:00:00Z".to_owned()),
            ..SearchRequest::default()
        })),
        "received after must be earlier than received before"
    );
    // one nanosecond apart is ordered
    service
        .prepare_search_messages(SearchRequest {
            received_after: Some("2026-07-25T00:00:00.000000001Z".to_owned()),
            received_before: Some("2026-07-25T00:00:00.000000002Z".to_owned()),
            ..SearchRequest::default()
        })
        .unwrap();
    // an earlier wall clock in a later zone is a later instant
    assert!(service
        .prepare_search_messages(SearchRequest {
            received_after: Some("2026-07-25T01:00:00Z".to_owned()),
            received_before: Some("2026-07-25T00:30:00-01:00".to_owned()),
            ..SearchRequest::default()
        })
        .is_ok());
    assert_eq!(
        validation_message(service.prepare_search_messages(SearchRequest {
            received_before: Some("yesterday".to_owned()),
            ..SearchRequest::default()
        })),
        "received before must be an RFC 3339 timestamp"
    );
}
