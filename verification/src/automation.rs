//! What the automation adapter decides around each Mail call: bounded input and
//! output, public error texts, and the checks that Mail did what was asked.
use vstd::prelude::*;
use vstd::utf8::*;

use crate::error::{reports, MailError, Result};
use crate::model::{
    clone_strings, CompositionResult, CreateReplyDraftRequest, MessageRef, MessageStateResult,
    MoveMessageRequest, MoveMessageResult, ReplyDraftResult, SetMessageStateRequest,
};
use crate::text::{ascii_lower, chars_of, contains_chars, contains_seq, to_ascii_lower};

verus! {

/// Bound on one automation answer, in bytes.
pub const MAX_AUTOMATION_OUTPUT: usize = 1_048_576;

/// Bound on the captured error stream of one automation call, in bytes.
pub const MAX_AUTOMATION_ERROR: usize = 16_384;

/// Bound on one serialized automation request, in bytes.
pub const MAX_AUTOMATION_INPUT: usize = 524_288;

/// Default bound on one automation call, in milliseconds.
pub const DEFAULT_TIMEOUT_MS: u64 = 20_000;

/// The length in bytes of a text, as `str::len` reports it.
pub open spec fn byte_len(text: Seq<char>) -> usize {
    encode_utf8(text).len() as usize
}

/// Accepts a serialized request of at most `MAX_AUTOMATION_INPUT` bytes.
pub fn check_payload(payload: String) -> (r: Result<String>)
    ensures
        reports(
            r,
            if byte_len(payload@) > MAX_AUTOMATION_INPUT {
                Some("serialized automation request exceeds the safety limit"@)
            } else {
                None
            },
        ),
        r matches Ok(p) ==> p == payload,
{
    if payload.as_str().len() > MAX_AUTOMATION_INPUT {
        return Err(MailError::validation("serialized automation request exceeds the safety limit"));
    }
    Ok(payload)
}

/// Appends one chunk of captured output unless that would pass `limit` bytes.
pub fn append_bounded(output: &mut Vec<u8>, chunk: &[u8], limit: usize) -> (r: Result<()>)
    ensures
        old(output)@.len() + chunk@.len() > limit ==> (r matches Err(MailError::OutputTooLarge)
            && final(output)@ == old(output)@),
        old(output)@.len() + chunk@.len() <= limit ==> r is Ok && final(output)@ == old(output)@
            + chunk@,
{
    if output.len() > limit || chunk.len() > limit - output.len() {
        return Err(MailError::OutputTooLarge);
    }
    let ghost before = output@;
    output.extend_from_slice(chunk);
    assert(output@ =~= before + chunk@) by {
        assert forall|i: int| 0 <= i < output@.len() implies output@[i] == (before + chunk@)[i] by {
            if i >= before.len() {
                assert(cloned::<u8>(chunk@[i - before.len()], output@[i]));
            }
        }
    }
    Ok(())
}

pub open spec fn denied_text() -> Seq<char> {
    "macOS denied Automation access; allow the controlling app under System Settings > Privacy & Security > Automation"@
}

pub open spec fn mail_unavailable_text() -> Seq<char> {
    "Mail is unavailable; make sure Mail.app is installed and can be launched"@
}

pub open spec fn account_missing_text() -> Seq<char> {
    "the selected Mail account was not found"@
}

pub open spec fn mailbox_missing_text() -> Seq<char> {
    "the selected mailbox path was not found"@
}

pub open spec fn message_missing_text() -> Seq<char> {
    "the selected message was not found in that mailbox"@
}

pub open spec fn generic_failure_text() -> Seq<char> {
    "the automation request failed; verify Mail is running and Automation access is allowed"@
}

/// The public text for a raw automation failure: a fixed text chosen by what
/// the ASCII-lower-cased raw text mentions, never the raw text itself.
pub open spec fn automation_message_for(raw: Seq<char>) -> Seq<char> {
    let lower = ascii_lower(raw);
    if contains_seq(lower, "not authorized"@) || contains_seq(lower, "-1743"@) {
        denied_text()
    } else if contains_seq(lower, "application can't be found"@) || contains_seq(
        lower,
        "application isn\u{2019}t running"@,
    ) {
        mail_unavailable_text()
    } else if contains_seq(lower, "account was not found"@) {
        account_missing_text()
    } else if contains_seq(lower, "mailbox path was not found"@) {
        mailbox_missing_text()
    } else if contains_seq(lower, "message was not found"@) {
        message_missing_text()
    } else {
        generic_failure_text()
    }
}

/// One of the fixed public failure texts.
pub open spec fn is_public_text(text: Seq<char>) -> bool {
    ||| text == denied_text()
    ||| text == mail_unavailable_text()
    ||| text == account_missing_text()
    ||| text == mailbox_missing_text()
    ||| text == message_missing_text()
    ||| text == generic_failure_text()
}

fn mentions(lower: &Vec<char>, pattern: &str) -> (r: bool)
    ensures
        r == contains_seq(lower@, pattern@),
{
    let p = chars_of(pattern);
    contains_chars(lower.as_slice(), p.as_slice())
}

/// Classifies a raw automation failure into a fixed public text.
pub fn public_automation_message(raw: &str) -> (r: String)
    ensures
        r@ == automation_message_for(raw@),
        is_public_text(r@),
{
    let chars = chars_of(raw);
    let lower = to_ascii_lower(chars.as_slice());
    if mentions(&lower, "not authorized") || mentions(&lower, "-1743") {
        "macOS denied Automation access; allow the controlling app under System Settings > Privacy & Security > Automation".to_owned()
    } else if mentions(&lower, "application can't be found") || mentions(
        &lower,
        "application isn\u{2019}t running",
    ) {
        "Mail is unavailable; make sure Mail.app is installed and can be launched".to_owned()
    } else if mentions(&lower, "account was not found") {
        "the selected Mail account was not found".to_owned()
    } else if mentions(&lower, "mailbox path was not found") {
        "the selected mailbox path was not found".to_owned()
    } else if mentions(&lower, "message was not found") {
        "the selected message was not found in that mailbox".to_owned()
    } else {
        "the automation request failed; verify Mail is running and Automation access is allowed".to_owned()
    }
}

/// The error for an automation process that exited unsuccessfully.
pub fn exit_failure(stderr: &str) -> (r: MailError)
    ensures
        r.is_automation_failure(automation_message_for(stderr@)),
{
    MailError::AutomationFailed(public_automation_message(stderr))
}

/// The outcome of a decoded reply envelope: its data on success, and otherwise
/// a public classification of the reported error.
pub fn envelope_result<T>(ok: bool, data: Option<T>, error_message: Option<String>) -> (r: Result<T>)
    ensures
        ok && data is Some ==> r == Ok::<T, MailError>(data->0),
        ok && data is None ==> (r matches Err(MailError::InvalidResponse(m)) && m@
            == "successful response omitted data"@),
        !ok ==> (r matches Err(e) && e.is_automation_failure(
            automation_message_for(
                match error_message {
                    Some(m) => m@,
                    None => Seq::<char>::empty(),
                },
            ),
        )),
{
    if ok {
        match data {
            Some(d) => Ok(d),
            None => Err(MailError::InvalidResponse("successful response omitted data".to_owned())),
        }
    } else {
        let raw = match error_message {
            Some(m) => m,
            None => String::new(),
        };
        Err(MailError::AutomationFailed(public_automation_message(raw.as_str())))
    }
}

/// Mail applied every state that was asked for.
pub open spec fn state_applied(request: SetMessageStateRequest, result: MessageStateResult) -> bool {
    &&& (request.read matches Some(expected) ==> result.read == expected)
    &&& (request.flagged matches Some(expected) ==> result.flagged == expected)
}

/// Accepts Mail's answer to a state change only if every requested state holds.
pub fn confirm_message_state(request: &SetMessageStateRequest, result: MessageStateResult) -> (r:
    Result<MessageStateResult>)
    ensures
        state_applied(*request, result) ==> r == Ok::<MessageStateResult, MailError>(result),
        !state_applied(*request, result) ==> (r matches Err(e) && e.is_automation_failure("Mail did not apply the requested message state"@)),
{
    let read_mismatch = match request.read {
        Some(expected) => result.read != expected,
        None => false,
    };
    let flagged_mismatch = match request.flagged {
        Some(expected) => result.flagged != expected,
        None => false,
    };
    if read_mismatch || flagged_mismatch {
        return Err(MailError::automation_failed("Mail did not apply the requested message state"));
    }
    Ok(result)
}

/// Accepts Mail's answer to a move only if it confirms the move to the requested destination.
pub fn confirm_move(request: &MoveMessageRequest, result: MoveMessageResult) -> (r: Result<
    MoveMessageResult,
>)
    ensures
        (result.moved && result.destination@ == request.destination@) ==> r == Ok::<
            MoveMessageResult,
            MailError,
        >(result),
        !(result.moved && result.destination@ == request.destination@) ==> (r matches Err(e) && e.is_automation_failure("Mail did not confirm the requested move"@)),
{
    if !result.moved || !result.destination.same_as(&request.destination) {
        return Err(MailError::automation_failed("Mail did not confirm the requested move"));
    }
    Ok(result)
}

/// A draft Mail reports as created: a real local id, unsent, visible.
pub open spec fn draft_confirmed(result: CompositionResult) -> bool {
    result.local_id > 0 && !result.sent && result.visible
}

/// Accepts Mail's answer to draft creation only if it describes a visible unsent draft.
pub fn confirm_draft(result: CompositionResult) -> (r: Result<CompositionResult>)
    ensures
        draft_confirmed(result) ==> r == Ok::<CompositionResult, MailError>(result),
        !draft_confirmed(result) ==> (r matches Err(e) && e.is_automation_failure("Mail did not confirm draft creation"@)),
{
    if result.local_id <= 0 || result.sent || !result.visible {
        return Err(MailError::automation_failed("Mail did not confirm draft creation"));
    }
    Ok(result)
}

/// A message Mail reports as sent: a real local id, sent.
pub open spec fn send_confirmed(result: CompositionResult) -> bool {
    result.local_id > 0 && result.sent
}

/// Accepts Mail's answer to sending only if it confirms the message was sent.
pub fn confirm_sent(result: CompositionResult) -> (r: Result<CompositionResult>)
    ensures
        send_confirmed(result) ==> r == Ok::<CompositionResult, MailError>(result),
        !send_confirmed(result) ==> (r matches Err(e) && e.is_automation_failure("Mail did not confirm that the message was sent"@)),
{
    if result.local_id <= 0 || !result.sent {
        return Err(MailError::automation_failed("Mail did not confirm that the message was sent"));
    }
    Ok(result)
}

/// A reply draft Mail reports as verified: it answers the requested source, has
/// a real local id, is unsent, still among the drafts, visible, and holds the
/// requested body above the quoted content.
pub open spec fn reply_confirmed(request: CreateReplyDraftRequest, result: ReplyDraftResult) -> bool {
    &&& result.source@ == request.message@
    &&& result.local_id > 0
    &&& !result.sent
    &&& result.draft_present
    &&& result.visible
    &&& result.content_verified
}

/// Accepts Mail's answer to a reply draft only if every verification holds.
pub fn confirm_reply_draft(request: &CreateReplyDraftRequest, result: ReplyDraftResult) -> (r:
    Result<ReplyDraftResult>)
    ensures
        reply_confirmed(*request, result) ==> r == Ok::<ReplyDraftResult, MailError>(result),
        !reply_confirmed(*request, result) ==> (r matches Err(e) && e.is_automation_failure("Mail did not confirm the reply draft"@)),
{
    if !result.source.same_as(&request.message) || result.local_id <= 0 || result.sent
        || !result.draft_present || !result.visible || !result.content_verified {
        return Err(MailError::automation_failed("Mail did not confirm the reply draft"));
    }
    Ok(result)
}

/// A message reference from its parts.
pub fn message_ref(account_id: Option<String>, mailbox_path: Vec<String>, id: i64) -> (r:
    MessageRef)
    ensures
        r.account_id == account_id,
        r.mailbox_path == mailbox_path,
        r.id == id,
{
    MessageRef { account_id, mailbox_path, id }
}

} // verus!
