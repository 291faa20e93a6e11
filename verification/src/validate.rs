//! The rules every request must satisfy before it reaches Mail.
use vstd::prelude::*;
use vstd::string::*;

use crate::cursor::{cursor_is_valid, cursor_ok, selector_ok, MAX_SELECTOR_CHARS};
use crate::error::{reports, MailError, Result};
use crate::model::{
    MailboxRef, MessageRef, OutgoingMessage, MAX_COMPOSE_BODY_CHARS, MAX_RECIPIENTS,
    MAX_RESULT_LIMIT, MAX_SUBJECT_CHARS,
};
use crate::text::{
    any_char, any_control, blank, chars_of, has_char, has_control, is_blank, is_control,
    is_control_char, is_white_space, is_white_space_char,
};

verus! {

pub const MAX_MAILBOX_DEPTH: usize = 32;

pub const MAX_MAILBOX_PATH_CHARS: usize = 4096;

/// Longest recipient address, in characters.
pub const MAX_ADDRESS_CHARS: usize = 254;

/// Longest local part of a recipient address, in characters.
pub const MAX_LOCAL_PART_CHARS: usize = 64;

/// The first problem of two checks made in order.
pub open spec fn first_problem(a: Option<Seq<char>>, b: Option<Seq<char>>) -> Option<Seq<char>> {
    if a is Some {
        a
    } else {
        b
    }
}

/// The problem with a selector value named `name`, if any.
pub open spec fn selector_problem(name: Seq<char>, value: Seq<char>) -> Option<Seq<char>> {
    if is_blank(value) {
        Some(name + " cannot be empty"@)
    } else if value.len() > MAX_SELECTOR_CHARS {
        Some(name + " cannot exceed 256 characters"@)
    } else if has_control(value) {
        Some(name + " cannot contain control characters"@)
    } else {
        None
    }
}

/// The problem with an optional selector value, if any.
pub open spec fn optional_selector_problem(name: Seq<char>, value: Option<Seq<char>>) -> Option<
    Seq<char>,
> {
    match value {
        Some(v) => selector_problem(name, v),
        None => None,
    }
}

/// The number of characters of all path components together.
pub open spec fn total_chars(path: Seq<Seq<char>>) -> int
    decreases path.len(),
{
    if path.len() == 0 {
        0
    } else {
        total_chars(path.drop_last()) + path.last().len()
    }
}

/// The problem with the first bad path component, if any.
pub open spec fn components_problem(path: Seq<Seq<char>>) -> Option<Seq<char>>
    decreases path.len(),
{
    if path.len() == 0 {
        None
    } else {
        first_problem(
            selector_problem("mailbox path component"@, path[0]),
            components_problem(path.drop_first()),
        )
    }
}

/// The problem with a mailbox reference, if any.
pub open spec fn mailbox_problem(mailbox: (Option<Seq<char>>, Seq<Seq<char>>)) -> Option<
    Seq<char>,
> {
    let path = mailbox.1;
    first_problem(
        optional_selector_problem("account id"@, mailbox.0),
        if path.len() == 0 {
            Some("mailbox path must contain at least one component"@)
        } else if path.len() > MAX_MAILBOX_DEPTH {
            Some("mailbox path cannot exceed 32 components"@)
        } else if total_chars(path) > MAX_MAILBOX_PATH_CHARS {
            Some("mailbox path cannot exceed 4096 total characters"@)
        } else {
            components_problem(path)
        },
    )
}

/// The problem with a message reference, if any.
pub open spec fn message_problem(message: (Option<Seq<char>>, Seq<Seq<char>>, i64)) -> Option<
    Seq<char>,
> {
    if message.2 <= 0 {
        Some("message id must be a positive integer"@)
    } else {
        mailbox_problem((message.0, message.1))
    }
}

/// The problem with a message reference that a mutation will act on, if any.
pub open spec fn mutation_message_problem(
    message: (Option<Seq<char>>, Seq<Seq<char>>, i64),
) -> Option<Seq<char>> {
    first_problem(
        message_problem(message),
        if message.0 is None {
            Some("message mutations require an account-scoped reference"@)
        } else {
            None
        },
    )
}

/// The problem with a result limit named `name`, if any.
pub open spec fn result_limit_problem(name: Seq<char>, value: u16) -> Option<Seq<char>> {
    if value == 0 || value > MAX_RESULT_LIMIT {
        Some(name + " must be between 1 and 100"@)
    } else {
        None
    }
}

/// A recipient address: at most 254 characters, no white space or control
/// character, and exactly one `@` with a local part of 1 to 64 characters
/// before it and a non-empty domain after it.
pub open spec fn address_ok(a: Seq<char>) -> bool {
    &&& a.len() <= MAX_ADDRESS_CHARS
    &&& forall|i: int|
        0 <= i < a.len() ==> !is_white_space_char(#[trigger] a[i]) && !is_control_char(a[i])
    &&& exists|k: int|
        #![trigger a[k]]
        1 <= k <= MAX_LOCAL_PART_CHARS && k + 1 < a.len() && a[k] == '@' && forall|j: int|
            0 <= j < a.len() && j != k ==> a[j] != '@'
}

/// Every address of `addresses` is usable.
pub open spec fn addresses_ok(addresses: Seq<Seq<char>>) -> bool {
    forall|i: int| 0 <= i < addresses.len() ==> #[trigger] address_ok(addresses[i])
}

/// The problem with a message body, if any.
pub open spec fn body_problem(body: Seq<char>) -> Option<Seq<char>> {
    if body.len() > MAX_COMPOSE_BODY_CHARS {
        Some("body cannot exceed 200000 characters"@)
    } else if has_char(body, '\0') {
        Some("body cannot contain NUL characters"@)
    } else {
        None
    }
}

/// The problem with a new outgoing message, if any.
pub open spec fn outgoing_problem(
    to: Seq<Seq<char>>,
    cc: Seq<Seq<char>>,
    bcc: Seq<Seq<char>>,
    subject: Seq<char>,
    body: Seq<char>,
) -> Option<Seq<char>> {
    let count = to.len() + cc.len() + bcc.len();
    if count == 0 {
        Some("at least one recipient is required"@)
    } else if count > MAX_RECIPIENTS {
        Some("recipient count cannot exceed 100"@)
    } else if !addresses_ok(to + cc + bcc) {
        Some("recipient address is not valid"@)
    } else if subject.len() > MAX_SUBJECT_CHARS {
        Some("subject cannot exceed 998 characters"@)
    } else if has_control(subject) {
        Some("subject cannot contain control characters"@)
    } else {
        body_problem(body)
    }
}

/// The problem with an outgoing message, if any.
pub open spec fn outgoing_message_problem(message: OutgoingMessage) -> Option<Seq<char>> {
    outgoing_problem(
        message.to.deep_view(),
        message.cc.deep_view(),
        message.bcc.deep_view(),
        message.subject@,
        message.body@,
    )
}

/// The problem with an optional cursor, if any.
pub open spec fn cursor_problem(cursor: Option<Seq<char>>) -> Option<Seq<char>> {
    match cursor {
        Some(c) => if cursor_ok(c) {
            None
        } else {
            Some("search cursor is not valid"@)
        },
        None => None,
    }
}

/// A validation error whose message is `name` followed by `suffix`.
fn named_error(name: &str, suffix: &str) -> (r: MailError)
    ensures
        r.is_validation(name@ + suffix@),
{
    let mut message = name.to_owned();
    message.append(suffix);
    MailError::Validation(message)
}

/// Checks a selector value: not blank, at most 256 characters, no control character.
pub fn validate_selector(name: &str, value: &str) -> (r: Result<()>)
    ensures
        reports(r, selector_problem(name@, value@)),
{
    let chars = chars_of(value);
    if blank(chars.as_slice()) {
        return Err(named_error(name, " cannot be empty"));
    }
    if chars.len() > MAX_SELECTOR_CHARS {
        return Err(named_error(name, " cannot exceed 256 characters"));
    }
    if any_control(chars.as_slice()) {
        return Err(named_error(name, " cannot contain control characters"));
    }
    Ok(())
}

/// Checks an optional selector value; an absent value passes.
pub fn validate_optional_selector(name: &str, value: &Option<String>) -> (r: Result<()>)
    ensures
        reports(r, optional_selector_problem(name@, value.deep_view())),
{
    match value {
        Some(v) => validate_selector(name, v.as_str()),
        None => Ok(()),
    }
}

proof fn lemma_total_chars_prefix_le(path: Seq<Seq<char>>, i: int)
    requires
        0 <= i <= path.len(),
    ensures
        total_chars(path.take(i)) <= total_chars(path),
    decreases path.len() - i,
{
    if i < path.len() {
        lemma_total_chars_prefix_le(path, i + 1);
        assert(path.take(i + 1).drop_last() =~= path.take(i));
    } else {
        assert(path.take(i) =~= path);
    }
}

proof fn lemma_components_step(path: Seq<Seq<char>>, i: int)
    requires
        0 <= i < path.len(),
    ensures
        components_problem(path.skip(i)) == first_problem(
            selector_problem("mailbox path component"@, path[i]),
            components_problem(path.skip(i + 1)),
        ),
{
    assert(path.skip(i).drop_first() =~= path.skip(i + 1));
    assert(path.skip(i)[0] == path[i]);
}

/// Checks a mailbox reference: a usable optional account, and a path of 1 to
/// 32 usable components with at most 4096 characters in all.
pub fn validate_mailbox(mailbox: &MailboxRef) -> (r: Result<()>)
    ensures
        reports(r, mailbox_problem(mailbox@)),
{
    validate_optional_selector("account id", &mailbox.account_id)?;
    let path = &mailbox.path;
    let ghost paths = path.deep_view();
    if path.len() == 0 {
        return Err(MailError::validation("mailbox path must contain at least one component"));
    }
    if path.len() > MAX_MAILBOX_DEPTH {
        return Err(MailError::validation("mailbox path cannot exceed 32 components"));
    }
    // total characters, stopping as soon as the limit is passed
    let mut total: usize = 0;
    let mut i: usize = 0;
    assert(paths.take(0) =~= Seq::<Seq<char>>::empty());
    while i < path.len()
        invariant
            i <= path.len(),
            paths == path.deep_view(),
            paths == mailbox@.1,
            paths.len() == path.len(),
            0 < paths.len() <= MAX_MAILBOX_DEPTH,
            optional_selector_problem("account id"@, mailbox.account_id.deep_view()) is None,
            total <= MAX_MAILBOX_PATH_CHARS,
            total == total_chars(paths.take(i as int)),
        decreases path.len() - i,
    {
        let count = chars_of(path[i].as_str()).len();
        assert(paths[i as int] == path[i as int]@);
        assert(paths.take(i + 1).drop_last() =~= paths.take(i as int));
        assert(paths.take(i + 1).last() == paths[i as int]);
        if count > MAX_MAILBOX_PATH_CHARS - total {
            proof {
                lemma_total_chars_prefix_le(paths, i + 1);
                assert(count == paths[i as int].len());
                assert(total_chars(paths.take(i + 1)) == total + count);
                assert(total_chars(paths) > MAX_MAILBOX_PATH_CHARS);
                assert(mailbox_problem(mailbox@) == Some("mailbox path cannot exceed 4096 total characters"@));
            }
            return Err(MailError::validation("mailbox path cannot exceed 4096 total characters"));
        }
        total = total + count;
        i = i + 1;
    }
    assert(paths.take(path.len() as int) =~= paths);
    let mut j: usize = 0;
    assert(paths.skip(0) =~= paths);
    while j < path.len()
        invariant
            j <= path.len(),
            paths == path.deep_view(),
            paths == mailbox@.1,
            paths.len() == path.len(),
            0 < paths.len() <= MAX_MAILBOX_DEPTH,
            total_chars(paths) <= MAX_MAILBOX_PATH_CHARS,
            optional_selector_problem("account id"@, mailbox.account_id.deep_view()) is None,
            components_problem(paths) == components_problem(paths.skip(j as int)),
        decreases path.len() - j,
    {
        proof {
            lemma_components_step(paths, j as int);
        }
        assert(paths[j as int] == path[j as int]@);
        validate_selector("mailbox path component", path[j].as_str())?;
        j = j + 1;
    }
    assert(paths.skip(path.len() as int) =~= Seq::<Seq<char>>::empty());
    Ok(())
}

/// Checks a message reference: a positive id in a valid mailbox.
pub fn validate_message(message: &MessageRef) -> (r: Result<()>)
    ensures
        reports(r, message_problem(message@)),
{
    if message.id <= 0 {
        return Err(MailError::validation("message id must be a positive integer"));
    }
    let mailbox = message.mailbox();
    validate_mailbox(&mailbox)
}

/// Checks a message reference for a mutation: also scoped to an account.
pub fn validate_mutation_message(message: &MessageRef) -> (r: Result<()>)
    ensures
        reports(r, mutation_message_problem(message@)),
{
    validate_message(message)?;
    if message.account_id.is_none() {
        return Err(
            MailError::validation("message mutations require an account-scoped reference"),
        );
    }
    Ok(())
}

/// Checks a result limit: between 1 and 100.
pub fn validate_result_limit(name: &str, value: u16) -> (r: Result<()>)
    ensures
        reports(r, result_limit_problem(name@, value)),
{
    if value == 0 || value > MAX_RESULT_LIMIT {
        return Err(named_error(name, " must be between 1 and 100"));
    }
    Ok(())
}

/// Whether `address` is a usable recipient address.
pub fn validate_address(address: &str) -> (r: Result<()>)
    ensures
        reports(
            r,
            if address_ok(address@) {
                None
            } else {
                Some("recipient address is not valid"@)
            },
        ),
{
    let a = chars_of(address);
    let n = a.len();
    if n > MAX_ADDRESS_CHARS {
        return Err(MailError::validation("recipient address is not valid"));
    }
    let mut i: usize = 0;
    while i < n
        invariant
            i <= n,
            n == a.len(),
            a@ == address@,
            forall|j: int|
                0 <= j < i ==> !is_white_space_char(#[trigger] a@[j]) && !is_control_char(a@[j]),
        decreases n - i,
    {
        if is_white_space(a[i]) || is_control(a[i]) {
            assert(!address_ok(address@)) by {
                assert(is_white_space_char(a@[i as int]) || is_control_char(a@[i as int]));
            }
            return Err(MailError::validation("recipient address is not valid"));
        }
        i = i + 1;
    }
    // the first `@`
    let mut at: usize = 0;
    while at < n && a[at] != '@'
        invariant
            at <= n,
            n == a.len(),
            forall|j: int| 0 <= j < at ==> #[trigger] a@[j] != '@',
            forall|j: int|
                0 <= j < n ==> !is_white_space_char(#[trigger] a@[j]) && !is_control_char(a@[j]),
            a@ == address@,
            n <= MAX_ADDRESS_CHARS,
        decreases n - at,
    {
        at = at + 1;
    }
    if at == n || at == 0 || at > MAX_LOCAL_PART_CHARS || at + 1 >= n {
        assert(!address_ok(address@)) by {
            if address_ok(address@) {
                let k = choose|k: int|
                    #![trigger a@[k]]
                    1 <= k <= MAX_LOCAL_PART_CHARS && k + 1 < a@.len() && a@[k] == '@' && forall|
                        j: int,
                    | 0 <= j < a@.len() && j != k ==> a@[j] != '@';
                assert(a@[k] == '@');
                if at < n {
                    assert(a@[at as int] == '@');
                    assert(k == at);
                }
            }
        }
        return Err(MailError::validation("recipient address is not valid"));
    }
    // no further `@`
    let mut m: usize = at + 1;
    while m < n
        invariant
            at < m <= n,
            n == a.len(),
            forall|j: int| at < j < m ==> #[trigger] a@[j] != '@',
            forall|j: int| 0 <= j < at ==> #[trigger] a@[j] != '@',
            a@[at as int] == '@',
            1 <= at <= MAX_LOCAL_PART_CHARS,
            at + 1 < n,
            forall|j: int|
                0 <= j < n ==> !is_white_space_char(#[trigger] a@[j]) && !is_control_char(a@[j]),
            a@ == address@,
            n <= MAX_ADDRESS_CHARS,
        decreases n - m,
    {
        if a[m] == '@' {
            assert(!address_ok(address@)) by {
                if address_ok(address@) {
                    let k = choose|k: int|
                        #![trigger a@[k]]
                        1 <= k <= MAX_LOCAL_PART_CHARS && k + 1 < a@.len() && a@[k] == '@'
                            && forall|j: int| 0 <= j < a@.len() && j != k ==> a@[j] != '@';
                    assert(a@[at as int] == '@');
                    assert(a@[m as int] == '@');
                    assert(k == at);
                }
            }
            return Err(MailError::validation("recipient address is not valid"));
        }
        m = m + 1;
    }
    assert(address_ok(address@)) by {
        assert(a@[at as int] == '@');
        assert forall|j: int| 0 <= j < a@.len() && j != at implies a@[j] != '@' by {
            if j > at {
                assert(a@[j] != '@');
            }
        }
    }
    Ok(())
}

/// Checks every address of `addresses`, in order.
fn validate_addresses(addresses: &Vec<String>) -> (r: Result<()>)
    ensures
        reports(
            r,
            if addresses_ok(addresses.deep_view()) {
                None
            } else {
                Some("recipient address is not valid"@)
            },
        ),
{
    let ghost all = addresses.deep_view();
    let mut i: usize = 0;
    while i < addresses.len()
        invariant
            i <= addresses.len(),
            all == addresses.deep_view(),
            all.len() == addresses.len(),
            forall|j: int| 0 <= j < i ==> #[trigger] address_ok(all[j]),
        decreases addresses.len() - i,
    {
        assert(all[i as int] == addresses[i as int]@);
        validate_address(addresses[i].as_str())?;
        i = i + 1;
    }
    Ok(())
}

proof fn lemma_addresses_concat(a: Seq<Seq<char>>, b: Seq<Seq<char>>)
    ensures
        addresses_ok(a + b) <==> addresses_ok(a) && addresses_ok(b),
{
    if addresses_ok(a) && addresses_ok(b) {
        assert forall|i: int| 0 <= i < (a + b).len() implies #[trigger] address_ok((a + b)[i]) by {
            if i < a.len() {
                assert((a + b)[i] == a[i]);
            } else {
                assert((a + b)[i] == b[i - a.len()]);
            }
        }
    }
    if addresses_ok(a + b) {
        assert forall|i: int| 0 <= i < a.len() implies #[trigger] address_ok(a[i]) by {
            assert((a + b)[i] == a[i]);
        }
        assert forall|i: int| 0 <= i < b.len() implies #[trigger] address_ok(b[i]) by {
            assert((a + b)[a.len() + i] == b[i]);
        }
    }
}

/// Checks a message body: at most 200000 characters and no NUL character.
pub fn validate_body(body: &str) -> (r: Result<()>)
    ensures
        reports(r, body_problem(body@)),
{
    let chars = chars_of(body);
    if chars.len() > MAX_COMPOSE_BODY_CHARS {
        return Err(MailError::validation("body cannot exceed 200000 characters"));
    }
    if any_char(chars.as_slice(), '\0') {
        return Err(MailError::validation("body cannot contain NUL characters"));
    }
    Ok(())
}

/// Checks a new outgoing message: 1 to 100 usable recipients, a subject of at
/// most 998 characters without control characters, and a valid body.
pub fn validate_outgoing(message: &OutgoingMessage) -> (r: Result<()>)
    ensures
        reports(r, outgoing_message_problem(*message)),
{
    let to = message.to.len();
    let cc = message.cc.len();
    let bcc = message.bcc.len();
    if to == 0 && cc == 0 && bcc == 0 {
        return Err(MailError::validation("at least one recipient is required"));
    }
    if to > MAX_RECIPIENTS || cc > MAX_RECIPIENTS || bcc > MAX_RECIPIENTS || to + cc + bcc
        > MAX_RECIPIENTS {
        return Err(MailError::validation("recipient count cannot exceed 100"));
    }
    proof {
        lemma_addresses_concat(message.to.deep_view(), message.cc.deep_view());
        lemma_addresses_concat(
            message.to.deep_view() + message.cc.deep_view(),
            message.bcc.deep_view(),
        );
    }
    validate_addresses(&message.to)?;
    validate_addresses(&message.cc)?;
    validate_addresses(&message.bcc)?;
    let subject = chars_of(message.subject.as_str());
    if subject.len() > MAX_SUBJECT_CHARS {
        return Err(MailError::validation("subject cannot exceed 998 characters"));
    }
    if any_control(subject.as_slice()) {
        return Err(MailError::validation("subject cannot contain control characters"));
    }
    validate_body(message.body.as_str())
}

/// Checks an optional continuation cursor.
pub fn validate_cursor(value: &Option<String>) -> (r: Result<()>)
    ensures
        reports(r, cursor_problem(value.deep_view())),
{
    match value {
        Some(v) => {
            if cursor_is_valid(v.as_str()) {
                Ok(())
            } else {
                Err(MailError::validation("search cursor is not valid"))
            }
        },
        None => Ok(()),
    }
}

} // verus!
