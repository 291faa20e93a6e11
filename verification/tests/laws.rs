use apple_mail_mcp::cli::MailboxArgs;
use apple_mail_mcp::cursor::{hex_value, valid_encoded_account, MAX_CURSOR_BYTES};
use apple_mail_mcp::model::DoctorDiagnostic;
use apple_mail_mcp::service::doctor_result;
use apple_mail_mcp::validate::{validate_address, validate_cursor};
use apple_mail_mcp::MailError;

fn percent_encode(text: &str) -> String {
    text.as_bytes()
        .iter()
        .map(|byte| format!("%{byte:02X}"))
        .collect()
}

fn cursor(received: Option<i64>, id: i64, account: &str) -> String {
    let stamp = match received {
        Some(ms) => ms.to_string(),
        None => "none".to_owned(),
    };
    format!("v1:{stamp}:{id}:{}", percent_encode(account))
}

#[test]
fn written_cursors_are_accepted() {
    for (received, id, account) in [
        (None, 1, "a"),
        (Some(i64::MIN), i64::MAX, "account with spaces"),
        (Some(0), 42, "Ünïcödé ☃"),
        (Some(1784966400000), 7, &"😀".repeat(256)),
    ] {
        let text = cursor(received, id, account);
        assert!(text.len() <= MAX_CURSOR_BYTES);
        validate_cursor(&Some(text)).unwrap();
    }
}

#[test]
fn bad_cursor_fields_are_refused() {
    for text in [
        "v1:none:1:plain-account",
        "v2:none:1:%61",
        "v1:none:-1:%61",
        "v1:soon:1:%61",
        "v1:none:1:%61:extra",
        "v1:none:1:%20%20",
        "v1:none:1:%61%0A",
        "v1:none:1:caf\u{e9}",
        "v1:none:99999999999999999999:%61",
    ] {
        let accepted = validate_cursor(&Some(text.to_owned())).is_ok();
        let expect = text == "v1:none:1:plain-account";
        assert_eq!(accepted, expect, "{text}");
    }
}

/// Writes `text` with each byte alternately escaped in lower case, escaped
/// in upper case, or left as is where it is an unreserved character.
fn mixed_escaping(text: &str) -> String {
    let mut out = String::new();
    for (i, byte) in text.bytes().enumerate() {
        let unreserved = byte.is_ascii_alphanumeric() || b"-_.!~*'()".contains(&byte);
        match i % 3 {
            0 if unreserved => out.push(byte as char),
            1 => out.push_str(&format!("%{byte:02x}")),
            _ => out.push_str(&format!("%{byte:02X}")),
        }
    }
    out
}

#[test]
fn any_escaping_of_a_usable_account_is_accepted() {
    for account in ["a", "work-mail (old)", "Ünïcödé ☃", "x.y_z!~*'", "me@example.com"] {
        let escaped: Vec<char> = mixed_escaping(account).chars().collect();
        assert!(valid_encoded_account(&escaped), "{account}");
        let upper: Vec<char> = percent_encode(account).chars().collect();
        assert!(valid_encoded_account(&upper), "{account}");
    }
    for refused in ["%6", "%6g", "%", "a b", "a/b", "a@b", "%20", "caf\u{e9}"] {
        let chars: Vec<char> = refused.chars().collect();
        assert!(!valid_encoded_account(&chars), "{refused}");
    }
}

#[test]
fn percent_decoding_reads_both_hex_cases() {
    let chars: Vec<char> = "%c3%A9t%C3%a9".chars().collect();
    assert!(valid_encoded_account(&chars));
    assert_eq!(hex_value(b'f'), Some(15));
    assert_eq!(hex_value(b'F'), Some(15));
    assert_eq!(hex_value(b'g'), None);
    let invalid_utf8: Vec<char> = "%C3%28".chars().collect();
    assert!(!valid_encoded_account(&invalid_utf8));
}

#[test]
fn doctor_keeps_only_the_failure_category() {
    let report = doctor_result(
        "macos".to_owned(),
        Err(MailError::AutomationFailed(
            "ACCOUNT-ID EMAIL@example.test MAILBOX SUBJECT".to_owned(),
        )),
        12,
    );
    assert!(!report.backend_ready);
    assert_eq!(report.account_count, None);
    assert_eq!(report.diagnostic, Some(DoctorDiagnostic::AutomationFailed));
    let rendered = format!("{report:?}");
    assert!(!rendered.contains("ACCOUNT-ID"));
    assert!(!rendered.contains("EMAIL@example.test"));

    let ready = doctor_result("macos".to_owned(), Ok(3), 5);
    assert!(ready.backend_ready);
    assert_eq!(ready.account_count, Some(3));
    assert_eq!(ready.diagnostic, None);
    assert_eq!(ready.elapsed_ms, 5);

    for (error, diagnostic) in [
        (MailError::Io("spawn".to_owned()), DoctorDiagnostic::StartupFailed),
        (MailError::AutomationTimeout(20_000), DoctorDiagnostic::AutomationTimeout),
        (MailError::OutputTooLarge, DoctorDiagnostic::OutputTooLarge),
        (MailError::Json("bad".to_owned()), DoctorDiagnostic::BackendFailed),
    ] {
        assert_eq!(
            doctor_result("macos".to_owned(), Err(error), 0).diagnostic,
            Some(diagnostic)
        );
    }
}

#[test]
fn addresses_need_exactly_one_at_with_bounded_local_part() {
    for good in ["a@b", "person@example.com", &format!("{}@x", "l".repeat(64))] {
        assert!(validate_address(good).is_ok(), "{good}");
    }
    for bad in [
        "not-an-address",
        "@example.com",
        "person@",
        "a@b@c",
        " person@example.com",
        "per son@example.com",
        "person@exam\u{7f}ple.com",
        &format!("{}@x", "l".repeat(65)),
        &format!("a@{}", "d".repeat(253)),
    ] {
        assert!(validate_address(bad).is_err(), "{bad}");
    }
}

#[test]
fn an_empty_mailbox_path_means_inbox() {
    let args = MailboxArgs {
        account: Some("account-1".to_owned()),
        mailbox_path: Vec::new(),
    };
    let reference = args.reference();
    assert_eq!(reference.account_id.as_deref(), Some("account-1"));
    assert_eq!(reference.path, ["INBOX"]);
}
