//! The grammar of the command line.
//!
//! `apple-mail <command> [--name value | --name=value | --flag]...`: the first
//! word after the program names the command; every later word is a long
//! option of that command. Options that take one value may appear once,
//! options that collect values may repeat, flags take no value.
use vstd::prelude::*;
use vstd::string::*;

use crate::cli::{
    Cli, Command, ComposeArgs, InboxArgs, MailboxArgs, McpArgs, MessageArgs, MessageRefArgs,
    MoveArgs, ReplyArgs, SearchArgs, SendArgs, StateArgs,
};
use crate::cursor::{i64_text_value, parse_i64};
use crate::model::{DEFAULT_BODY_CHARS, DEFAULT_RESULT_LIMIT, DEFAULT_SNAPSHOT_LIMIT};
use crate::text::chars_of;

verus! {

/// Why a command line was not accepted.
#[derive(Debug, Clone, Copy, PartialEq, Eq, Structural)]
pub enum CliError {
    /// Help was asked for.
    Help,
    /// The version was asked for.
    Version,
    /// No command was given.
    MissingCommand,
    /// The command is not one of the known commands.
    UnknownCommand,
    /// A word is not an option of the command, or a flag was given a value.
    UnexpectedArgument,
    /// An option that takes a value was given none.
    MissingValue,
    /// A value could not be read as the option's type.
    InvalidValue,
    /// An option that takes one value was given more than once.
    RepeatedArgument,
    /// A required option is missing.
    MissingRequired,
    /// `--allow-send` was given without `--allow-write`.
    SendWithoutWrite,
}

/// The commands.
#[derive(Debug, Clone, Copy, PartialEq, Eq, Structural)]
pub enum CommandName {
    Doctor,
    Accounts,
    Mailboxes,
    Inbox,
    Search,
    Show,
    Check,
    State,
    Move,
    Reply,
    Draft,
    Send,
    Mcp,
}

/// How an option takes values.
#[derive(Debug, Clone, Copy, PartialEq, Eq, Structural)]
pub enum OptionKind {
    /// No value; at most once.
    Flag,
    /// One value; at most once.
    Single,
    /// One value per occurrence; any number of occurrences.
    Multi,
}

/// The command a word names.
pub open spec fn command_named(word: Seq<char>) -> Option<CommandName> {
    if word == "doctor"@ {
        Some(CommandName::Doctor)
    } else if word == "accounts"@ {
        Some(CommandName::Accounts)
    } else if word == "mailboxes"@ {
        Some(CommandName::Mailboxes)
    } else if word == "inbox"@ {
        Some(CommandName::Inbox)
    } else if word == "search"@ {
        Some(CommandName::Search)
    } else if word == "show"@ {
        Some(CommandName::Show)
    } else if word == "check"@ {
        Some(CommandName::Check)
    } else if word == "state"@ {
        Some(CommandName::State)
    } else if word == "move"@ {
        Some(CommandName::Move)
    } else if word == "reply"@ {
        Some(CommandName::Reply)
    } else if word == "draft"@ {
        Some(CommandName::Draft)
    } else if word == "send"@ {
        Some(CommandName::Send)
    } else if word == "mcp"@ {
        Some(CommandName::Mcp)
    } else {
        None
    }
}

/// Options that name a mailbox.
pub open spec fn mailbox_option(name: Seq<char>) -> Option<OptionKind> {
    if name == "account"@ {
        Some(OptionKind::Single)
    } else if name == "mailbox"@ {
        Some(OptionKind::Multi)
    } else {
        None
    }
}

/// Options that name a message.
pub open spec fn message_option(name: Seq<char>) -> Option<OptionKind> {
    if name == "id"@ {
        Some(OptionKind::Single)
    } else {
        mailbox_option(name)
    }
}

/// Options that compose a message.
pub open spec fn compose_option(name: Seq<char>) -> Option<OptionKind> {
    if name == "to"@ || name == "cc"@ || name == "bcc"@ {
        Some(OptionKind::Multi)
    } else if name == "subject"@ || name == "body"@ {
        Some(OptionKind::Single)
    } else {
        None
    }
}

/// The options of each command.
pub open spec fn option_kind(command: CommandName, name: Seq<char>) -> Option<OptionKind> {
    match command {
        CommandName::Doctor | CommandName::Accounts => None,
        CommandName::Mailboxes | CommandName::Check => if name == "account"@ {
            Some(OptionKind::Single)
        } else {
            None
        },
        CommandName::Inbox => if name == "account"@ || name == "recent-limit"@ || name
            == "unread-limit"@ {
            Some(OptionKind::Single)
        } else {
            None
        },
        CommandName::Search => if name == "unread"@ || name == "flagged"@ || name == "sender"@
            || name == "subject"@ || name == "received-after"@ || name == "received-before"@
            || name == "cursor"@ || name == "limit"@ {
            Some(OptionKind::Single)
        } else {
            mailbox_option(name)
        },
        CommandName::Show => if name == "max-body-chars"@ {
            Some(OptionKind::Single)
        } else {
            message_option(name)
        },
        CommandName::State => if name == "read"@ || name == "flagged"@ {
            Some(OptionKind::Single)
        } else {
            message_option(name)
        },
        CommandName::Move => if name == "destination-account"@ {
            Some(OptionKind::Single)
        } else if name == "destination-mailbox"@ {
            Some(OptionKind::Multi)
        } else if name == "confirm-move"@ {
            Some(OptionKind::Flag)
        } else {
            message_option(name)
        },
        CommandName::Reply => if name == "body"@ {
            Some(OptionKind::Single)
        } else {
            message_option(name)
        },
        CommandName::Draft => compose_option(name),
        CommandName::Send => if name == "confirm-send"@ {
            Some(OptionKind::Flag)
        } else {
            compose_option(name)
        },
        CommandName::Mcp => if name == "allow-write"@ || name == "allow-send"@ {
            Some(OptionKind::Flag)
        } else {
            None
        },
    }
}

/// A word of the form `--x...`.
pub open spec fn is_long(word: Seq<char>) -> bool {
    word.len() > 2 && word[0] == '-' && word[1] == '-'
}

/// A word that can stand as the value of the option before it: anything but
/// a word that starts with `-` and is longer than `-` itself.
pub open spec fn is_value_word(word: Seq<char>) -> bool {
    !(word.len() > 1 && word[0] == '-')
}

/// The first position at or after `from` that holds `c`, or the length.
pub open spec fn position_of(word: Seq<char>, c: char, from: int) -> int
    decreases word.len() - from,
{
    if from >= word.len() {
        word.len() as int
    } else if word[from] == c {
        from
    } else {
        position_of(word, c, from + 1)
    }
}

/// The option name of a long option word: what follows `--`, up to any `=`.
pub open spec fn long_name(word: Seq<char>) -> Seq<char> {
    word.subrange(2, position_of(word, '=', 2))
}

/// The value written into a long option word after `=`, if any.
pub open spec fn inline_value(word: Seq<char>) -> Option<Seq<char>> {
    let p = position_of(word, '=', 2);
    if p < word.len() {
        Some(word.subrange(p + 1, word.len() as int))
    } else {
        None
    }
}

/// One option as written: its name and its value, if it took one.
pub type Occurrence = (Seq<char>, Option<Seq<char>>);

/// `head` in front of a successful scan; an error stays.
pub open spec fn prepend(head: Seq<Occurrence>, rest: Result<Seq<Occurrence>, CliError>) -> Result<
    Seq<Occurrence>,
    CliError,
> {
    match rest {
        Ok(tail) => Ok(head + tail),
        Err(e) => Err(e),
    }
}

/// The options written from word `i` on.
pub open spec fn scan(command: CommandName, words: Seq<Seq<char>>, i: int) -> Result<
    Seq<Occurrence>,
    CliError,
>
    decreases words.len() - i,
{
    if i < 0 || i >= words.len() {
        Ok(Seq::empty())
    } else {
        let word = words[i];
        if word == "--help"@ || word == "-h"@ {
            Err(CliError::Help)
        } else if !is_long(word) {
            Err(CliError::UnexpectedArgument)
        } else {
            let name = long_name(word);
            match option_kind(command, name) {
                None => Err(CliError::UnexpectedArgument),
                Some(OptionKind::Flag) => if inline_value(word) is Some {
                    Err(CliError::UnexpectedArgument)
                } else {
                    prepend(seq![(name, None)], scan(command, words, i + 1))
                },
                Some(_) => if inline_value(word) is Some {
                    prepend(seq![(name, inline_value(word))], scan(command, words, i + 1))
                } else if i + 1 < words.len() && is_value_word(words[i + 1]) {
                    prepend(seq![(name, Some(words[i + 1]))], scan(command, words, i + 2))
                } else {
                    Err(CliError::MissingValue)
                },
            }
        }
    }
}

/// How many times `name` was written.
pub open spec fn count_of(occurrences: Seq<Occurrence>, name: Seq<char>) -> nat
    decreases occurrences.len(),
{
    if occurrences.len() == 0 {
        0
    } else {
        count_of(occurrences.drop_last(), name) + if occurrences.last().0 == name {
            1nat
        } else {
            0nat
        }
    }
}

/// The values written for `name`, in order.
pub open spec fn values_of(occurrences: Seq<Occurrence>, name: Seq<char>) -> Seq<Seq<char>>
    decreases occurrences.len(),
{
    if occurrences.len() == 0 {
        Seq::empty()
    } else {
        let rest = values_of(occurrences.drop_last(), name);
        if occurrences.last().0 == name {
            rest.push(
                match occurrences.last().1 {
                    Some(v) => v,
                    None => Seq::empty(),
                },
            )
        } else {
            rest
        }
    }
}

/// The one value of an option that may appear once.
pub open spec fn single_of(occurrences: Seq<Occurrence>, name: Seq<char>) -> Result<
    Option<Seq<char>>,
    CliError,
> {
    let values = values_of(occurrences, name);
    if values.len() > 1 {
        Err(CliError::RepeatedArgument)
    } else if values.len() == 1 {
        Ok(Some(values[0]))
    } else {
        Ok(None)
    }
}

/// Whether a flag was given.
pub open spec fn flag_of(occurrences: Seq<Occurrence>, name: Seq<char>) -> Result<bool, CliError> {
    let n = count_of(occurrences, name);
    if n > 1 {
        Err(CliError::RepeatedArgument)
    } else {
        Ok(n == 1)
    }
}

/// An optional boolean option: `true` or `false`.
pub open spec fn bool_of(occurrences: Seq<Occurrence>, name: Seq<char>) -> Result<
    Option<bool>,
    CliError,
> {
    match single_of(occurrences, name) {
        Err(e) => Err(e),
        Ok(None) => Ok(None),
        Ok(Some(v)) => if v == "true"@ {
            Ok(Some(true))
        } else if v == "false"@ {
            Ok(Some(false))
        } else {
            Err(CliError::InvalidValue)
        },
    }
}

/// An integer option within `[low, high]`, or `default` when absent.
pub open spec fn int_of(
    occurrences: Seq<Occurrence>,
    name: Seq<char>,
    low: int,
    high: int,
    default: int,
) -> Result<int, CliError> {
    match single_of(occurrences, name) {
        Err(e) => Err(e),
        Ok(None) => Ok(default),
        Ok(Some(v)) => match i64_text_value(v) {
            Some(n) => if low <= n && n <= high {
                Ok(n)
            } else {
                Err(CliError::InvalidValue)
            },
            None => Err(CliError::InvalidValue),
        },
    }
}

/// A text option with a default.
pub open spec fn text_or(occurrences: Seq<Occurrence>, name: Seq<char>, default: Seq<char>) -> Result<
    Seq<char>,
    CliError,
> {
    match single_of(occurrences, name) {
        Err(e) => Err(e),
        Ok(None) => Ok(default),
        Ok(Some(v)) => Ok(v),
    }
}

/// A required text option.
pub open spec fn required_text(occurrences: Seq<Occurrence>, name: Seq<char>) -> Result<
    Seq<char>,
    CliError,
> {
    match single_of(occurrences, name) {
        Err(e) => Err(e),
        Ok(None) => Err(CliError::MissingRequired),
        Ok(Some(v)) => Ok(v),
    }
}

/// The error of a field, if any.
pub open spec fn error_of<T>(r: Result<T, CliError>) -> Option<CliError> {
    match r {
        Ok(_) => None,
        Err(e) => Some(e),
    }
}

/// The first of two errors, in order.
pub open spec fn either(a: Option<CliError>, b: Option<CliError>) -> Option<CliError> {
    if a is Some {
        a
    } else {
        b
    }
}

/// The view of a mailbox on the command line.
pub type MailboxArgsView = (Option<Seq<char>>, Seq<Seq<char>>);

/// The view of a message on the command line.
pub type MessageArgsView = (MailboxArgsView, i64);

/// The view of the composition options.
pub type ComposeView = (Seq<Seq<char>>, Seq<Seq<char>>, Seq<Seq<char>>, Seq<char>, Seq<char>);

/// A command as a value of the mathematical model.
pub enum CommandView {
    Doctor,
    Accounts,
    Mailboxes(Option<Seq<char>>),
    Inbox(Option<Seq<char>>, u16, u16),
    Search {
        mailbox: MailboxArgsView,
        unread: Option<bool>,
        flagged: Option<bool>,
        sender: Option<Seq<char>>,
        subject: Option<Seq<char>>,
        received_after: Option<Seq<char>>,
        received_before: Option<Seq<char>>,
        cursor: Option<Seq<char>>,
        limit: u16,
    },
    Show(MessageArgsView, u32),
    Check(Option<Seq<char>>),
    State(MessageArgsView, Option<bool>, Option<bool>),
    Move(MessageArgsView, Option<Seq<char>>, Seq<Seq<char>>, bool),
    Reply(MessageArgsView, Seq<char>),
    Draft(ComposeView),
    Send(ComposeView, bool),
    Mcp(bool, bool),
}

impl View for Command {
    type V = CommandView;

    open spec fn view(&self) -> CommandView {
        match self {
            Command::Doctor => CommandView::Doctor,
            Command::Accounts => CommandView::Accounts,
            Command::Mailboxes { account } => CommandView::Mailboxes(account.deep_view()),
            Command::Inbox(a) => CommandView::Inbox(
                a.account.deep_view(),
                a.recent_limit,
                a.unread_limit,
            ),
            Command::Search(a) => CommandView::Search {
                mailbox: a.mailbox@,
                unread: a.unread,
                flagged: a.flagged,
                sender: a.sender.deep_view(),
                subject: a.subject.deep_view(),
                received_after: a.received_after.deep_view(),
                received_before: a.received_before.deep_view(),
                cursor: a.cursor.deep_view(),
                limit: a.limit,
            },
            Command::Show(a) => CommandView::Show(a.message@, a.max_body_chars),
            Command::Check { account } => CommandView::Check(account.deep_view()),
            Command::State(a) => CommandView::State(a.message@, a.read, a.flagged),
            Command::Move(a) => CommandView::Move(
                a.message@,
                a.destination_account.deep_view(),
                a.destination_path.deep_view(),
                a.confirm_move,
            ),
            Command::Reply(a) => CommandView::Reply(a.message@, a.body@),
            Command::Draft(a) => CommandView::Draft(compose_view(a)),
            Command::Send(a) => CommandView::Send(compose_view(&a.compose), a.confirm_send),
            Command::Mcp(a) => CommandView::Mcp(a.allow_write, a.allow_send),
        }
    }
}

/// The view of the composition options.
pub open spec fn compose_view(a: &ComposeArgs) -> ComposeView {
    (a.to.deep_view(), a.cc.deep_view(), a.bcc.deep_view(), a.subject@, a.body@)
}

/// The mailbox options.
pub open spec fn mailbox_args(occurrences: Seq<Occurrence>) -> Result<MailboxArgsView, CliError> {
    match single_of(occurrences, "account"@) {
        Err(e) => Err(e),
        Ok(account) => Ok((account, values_of(occurrences, "mailbox"@))),
    }
}

/// The message options: the mailbox options and a required id.
pub open spec fn message_args(occurrences: Seq<Occurrence>) -> Result<MessageArgsView, CliError> {
    let mailbox = mailbox_args(occurrences);
    let id = match single_of(occurrences, "id"@) {
        Err(e) => Err(e),
        Ok(None) => Err(CliError::MissingRequired),
        Ok(Some(v)) => match i64_text_value(v) {
            Some(n) => Ok(n),
            None => Err(CliError::InvalidValue),
        },
    };
    match either(error_of(mailbox), error_of(id)) {
        Some(e) => Err(e),
        None => Ok((mailbox->Ok_0, id->Ok_0 as i64)),
    }
}

/// The composition options.
pub open spec fn compose_args(occurrences: Seq<Occurrence>) -> Result<ComposeView, CliError> {
    let subject = text_or(occurrences, "subject"@, Seq::empty());
    let body = text_or(occurrences, "body"@, Seq::empty());
    match either(error_of(subject), error_of(body)) {
        Some(e) => Err(e),
        None => Ok(
            (
                values_of(occurrences, "to"@),
                values_of(occurrences, "cc"@),
                values_of(occurrences, "bcc"@),
                subject->Ok_0,
                body->Ok_0,
            ),
        ),
    }
}

/// The command that the options of `command` describe.
pub open spec fn build(command: CommandName, occurrences: Seq<Occurrence>) -> Result<
    CommandView,
    CliError,
> {
    let o = occurrences;
    match command {
        CommandName::Doctor => Ok(CommandView::Doctor),
        CommandName::Accounts => Ok(CommandView::Accounts),
        CommandName::Mailboxes => match single_of(o, "account"@) {
            Err(e) => Err(e),
            Ok(account) => Ok(CommandView::Mailboxes(account)),
        },
        CommandName::Check => match single_of(o, "account"@) {
            Err(e) => Err(e),
            Ok(account) => Ok(CommandView::Check(account)),
        },
        CommandName::Inbox => {
            let account = single_of(o, "account"@);
            let recent = int_of(o, "recent-limit"@, 0, 65535, DEFAULT_SNAPSHOT_LIMIT as int);
            let unread = int_of(o, "unread-limit"@, 0, 65535, DEFAULT_SNAPSHOT_LIMIT as int);
            match either(error_of(account), either(error_of(recent), error_of(unread))) {
                Some(e) => Err(e),
                None => Ok(
                    CommandView::Inbox(account->Ok_0, recent->Ok_0 as u16, unread->Ok_0 as u16),
                ),
            }
        },
        CommandName::Search => {
            let mailbox = mailbox_args(o);
            let unread = bool_of(o, "unread"@);
            let flagged = bool_of(o, "flagged"@);
            let sender = single_of(o, "sender"@);
            let subject = single_of(o, "subject"@);
            let after = single_of(o, "received-after"@);
            let before = single_of(o, "received-before"@);
            let cursor = single_of(o, "cursor"@);
            let limit = int_of(o, "limit"@, 0, 65535, DEFAULT_RESULT_LIMIT as int);
            match either(error_of(mailbox), either(error_of(unread), either(error_of(flagged), either(error_of(sender), either(error_of(subject), either(error_of(after), either(error_of(before), either(error_of(cursor), error_of(limit))))))))) {
                Some(e) => Err(e),
                None => Ok(
                    CommandView::Search {
                        mailbox: mailbox->Ok_0,
                        unread: unread->Ok_0,
                        flagged: flagged->Ok_0,
                        sender: sender->Ok_0,
                        subject: subject->Ok_0,
                        received_after: after->Ok_0,
                        received_before: before->Ok_0,
                        cursor: cursor->Ok_0,
                        limit: limit->Ok_0 as u16,
                    },
                ),
            }
        },
        CommandName::Show => {
            let message = message_args(o);
            let max = int_of(o, "max-body-chars"@, 0, 4294967295, DEFAULT_BODY_CHARS as int);
            match either(error_of(message), error_of(max)) {
                Some(e) => Err(e),
                None => Ok(CommandView::Show(message->Ok_0, max->Ok_0 as u32)),
            }
        },
        CommandName::State => {
            let message = message_args(o);
            let read = bool_of(o, "read"@);
            let flagged = bool_of(o, "flagged"@);
            match either(error_of(message), either(error_of(read), error_of(flagged))) {
                Some(e) => Err(e),
                None => Ok(CommandView::State(message->Ok_0, read->Ok_0, flagged->Ok_0)),
            }
        },
        CommandName::Move => {
            let message = message_args(o);
            let account = single_of(o, "destination-account"@);
            let path = values_of(o, "destination-mailbox"@);
            let confirm = flag_of(o, "confirm-move"@);
            match either(error_of(message), either(error_of(account), either(if path.len() == 0 {
                        Some(CliError::MissingRequired)
                    } else {
                        None
                    }, error_of(confirm)))) {
                Some(e) => Err(e),
                None => Ok(CommandView::Move(message->Ok_0, account->Ok_0, path, confirm->Ok_0)),
            }
        },
        CommandName::Reply => {
            let message = message_args(o);
            let body = required_text(o, "body"@);
            match either(error_of(message), error_of(body)) {
                Some(e) => Err(e),
                None => Ok(CommandView::Reply(message->Ok_0, body->Ok_0)),
            }
        },
        CommandName::Draft => match compose_args(o) {
            Err(e) => Err(e),
            Ok(c) => Ok(CommandView::Draft(c)),
        },
        CommandName::Send => {
            let compose = compose_args(o);
            let confirm = flag_of(o, "confirm-send"@);
            match either(error_of(compose), error_of(confirm)) {
                Some(e) => Err(e),
                None => Ok(CommandView::Send(compose->Ok_0, confirm->Ok_0)),
            }
        },
        CommandName::Mcp => {
            let write = flag_of(o, "allow-write"@);
            let send = flag_of(o, "allow-send"@);
            match either(error_of(write), error_of(send)) {
                Some(e) => Err(e),
                None => if send->Ok_0 && !write->Ok_0 {
                    Err(CliError::SendWithoutWrite)
                } else {
                    Ok(CommandView::Mcp(write->Ok_0, send->Ok_0))
                },
            }
        },
    }
}

/// Only the MCP command yields an MCP view, and only with send implying write.
proof fn lemma_build_mcp(command: CommandName, occurrences: Seq<Occurrence>)
    ensures
        build(command, occurrences) matches Ok(CommandView::Mcp(write, send)) ==> (send
            ==> write),
{
}

/// The meaning of a whole command line; the first word is the program's name.
pub open spec fn parse_words(words: Seq<Seq<char>>) -> Result<CommandView, CliError> {
    if words.len() < 2 {
        Err(CliError::MissingCommand)
    } else {
        let word = words[1];
        if word == "--help"@ || word == "-h"@ || word == "help"@ {
            Err(CliError::Help)
        } else if word == "--version"@ || word == "-V"@ {
            Err(CliError::Version)
        } else {
            match command_named(word) {
                None => Err(CliError::UnknownCommand),
                Some(command) => match scan(command, words, 2) {
                    Err(e) => Err(e),
                    Ok(occurrences) => build(command, occurrences),
                },
            }
        }
    }
}


/// On the command line, `--allow-send` is accepted only together with
/// `--allow-write`: sending is never enabled without writes.
pub proof fn mcp_send_opt_in_needs_write_opt_in(words: Seq<Seq<char>>)
    ensures
        parse_words(words) matches Ok(CommandView::Mcp(write, send)) ==> (send ==> write),
{
    if words.len() >= 2 {
        if let Some(command) = command_named(words[1]) {
            if let Ok(occurrences) = scan(command, words, 2) {
                lemma_build_mcp(command, occurrences);
            }
        }
    }
}

} // verus!

verus! {

/// One option as written, with its value as text.
struct Written {
    name: Vec<char>,
    value: Option<String>,
}

impl View for Written {
    type V = Occurrence;

    closed spec fn view(&self) -> Occurrence {
        (self.name@, self.value.deep_view())
    }
}

/// The occurrences held by a list of written options.
spec fn written_view(written: Seq<Written>) -> Seq<Occurrence> {
    written.map_values(|w: Written| w@)
}

/// The words of a command line.
pub open spec fn words_of(args: Seq<&str>) -> Seq<Seq<char>> {
    args.map_values(|a: &str| a@)
}

/// Whether `a` spells `b`.
fn spells(a: &[char], b: &str) -> (r: bool)
    ensures
        r == (a@ == b@),
{
    let expected = chars_of(b);
    if a.len() != expected.len() {
        return false;
    }
    let mut i: usize = 0;
    while i < a.len()
        invariant
            i <= a.len(),
            a.len() == expected.len(),
            expected@ == b@,
            forall|j: int| 0 <= j < i ==> a@[j] == expected@[j],
        decreases a.len() - i,
    {
        if a[i] != expected[i] {
            assert(a@[i as int] != expected@[i as int]);
            return false;
        }
        i = i + 1;
    }
    assert(a@ =~= expected@);
    true
}

fn command_of(word: &[char]) -> (r: Option<CommandName>)
    ensures
        r == command_named(word@),
{
    if spells(word, "doctor") {
        Some(CommandName::Doctor)
    } else if spells(word, "accounts") {
        Some(CommandName::Accounts)
    } else if spells(word, "mailboxes") {
        Some(CommandName::Mailboxes)
    } else if spells(word, "inbox") {
        Some(CommandName::Inbox)
    } else if spells(word, "search") {
        Some(CommandName::Search)
    } else if spells(word, "show") {
        Some(CommandName::Show)
    } else if spells(word, "check") {
        Some(CommandName::Check)
    } else if spells(word, "state") {
        Some(CommandName::State)
    } else if spells(word, "move") {
        Some(CommandName::Move)
    } else if spells(word, "reply") {
        Some(CommandName::Reply)
    } else if spells(word, "draft") {
        Some(CommandName::Draft)
    } else if spells(word, "send") {
        Some(CommandName::Send)
    } else if spells(word, "mcp") {
        Some(CommandName::Mcp)
    } else {
        None
    }
}

fn mailbox_option_of(name: &[char]) -> (r: Option<OptionKind>)
    ensures
        r == mailbox_option(name@),
{
    if spells(name, "account") {
        Some(OptionKind::Single)
    } else if spells(name, "mailbox") {
        Some(OptionKind::Multi)
    } else {
        None
    }
}

fn message_option_of(name: &[char]) -> (r: Option<OptionKind>)
    ensures
        r == message_option(name@),
{
    if spells(name, "id") {
        Some(OptionKind::Single)
    } else {
        mailbox_option_of(name)
    }
}

fn compose_option_of(name: &[char]) -> (r: Option<OptionKind>)
    ensures
        r == compose_option(name@),
{
    if spells(name, "to") || spells(name, "cc") || spells(name, "bcc") {
        Some(OptionKind::Multi)
    } else if spells(name, "subject") || spells(name, "body") {
        Some(OptionKind::Single)
    } else {
        None
    }
}

fn option_kind_of(command: CommandName, name: &[char]) -> (r: Option<OptionKind>)
    ensures
        r == option_kind(command, name@),
{
    match command {
        CommandName::Doctor | CommandName::Accounts => None,
        CommandName::Mailboxes | CommandName::Check => if spells(name, "account") {
            Some(OptionKind::Single)
        } else {
            None
        },
        CommandName::Inbox => if spells(name, "account") || spells(name, "recent-limit")
            || spells(name, "unread-limit") {
            Some(OptionKind::Single)
        } else {
            None
        },
        CommandName::Search => if spells(name, "unread") || spells(name, "flagged") || spells(
            name,
            "sender",
        ) || spells(name, "subject") || spells(name, "received-after") || spells(
            name,
            "received-before",
        ) || spells(name, "cursor") || spells(name, "limit") {
            Some(OptionKind::Single)
        } else {
            mailbox_option_of(name)
        },
        CommandName::Show => if spells(name, "max-body-chars") {
            Some(OptionKind::Single)
        } else {
            message_option_of(name)
        },
        CommandName::State => if spells(name, "read") || spells(name, "flagged") {
            Some(OptionKind::Single)
        } else {
            message_option_of(name)
        },
        CommandName::Move => if spells(name, "destination-account") {
            Some(OptionKind::Single)
        } else if spells(name, "destination-mailbox") {
            Some(OptionKind::Multi)
        } else if spells(name, "confirm-move") {
            Some(OptionKind::Flag)
        } else {
            message_option_of(name)
        },
        CommandName::Reply => if spells(name, "body") {
            Some(OptionKind::Single)
        } else {
            message_option_of(name)
        },
        CommandName::Draft => compose_option_of(name),
        CommandName::Send => if spells(name, "confirm-send") {
            Some(OptionKind::Flag)
        } else {
            compose_option_of(name)
        },
        CommandName::Mcp => if spells(name, "allow-write") || spells(name, "allow-send") {
            Some(OptionKind::Flag)
        } else {
            None
        },
    }
}

/// The first position at or after `from` that holds `c`, or the length.
fn find_char(word: &[char], c: char, from: usize) -> (r: usize)
    requires
        from <= word.len(),
    ensures
        r as int == position_of(word@, c, from as int),
        from <= r <= word.len(),
{
    let mut k: usize = from;
    while k < word.len() && word[k] != c
        invariant
            from <= k <= word.len(),
            position_of(word@, c, from as int) == position_of(word@, c, k as int),
        decreases word.len() - k,
    {
        k = k + 1;
    }
    k
}

/// The characters from `from` up to `to`.
fn slice_chars(word: &[char], from: usize, to: usize) -> (r: Vec<char>)
    requires
        from <= to <= word.len(),
    ensures
        r@ == word@.subrange(from as int, to as int),
{
    let mut out: Vec<char> = Vec::new();
    let mut k: usize = from;
    while k < to
        invariant
            from <= k <= to,
            to <= word.len(),
            out@ == word@.subrange(from as int, k as int),
        decreases to - k,
    {
        out.push(word[k]);
        assert(word@.subrange(from as int, k + 1) =~= word@.subrange(from as int, k as int).push(
            word@[k as int],
        ));
        k = k + 1;
    }
    out
}

proof fn lemma_prepend_assoc(
    done: Seq<Occurrence>,
    head: Seq<Occurrence>,
    rest: Result<Seq<Occurrence>, CliError>,
)
    ensures
        prepend(done, prepend(head, rest)) == prepend(done + head, rest),
{
    if let Ok(tail) = rest {
        assert(done + (head + tail) =~= (done + head) + tail);
    }
}

/// The options written from the third word on.
fn scan_words(command: CommandName, args: &[&str]) -> (r: Result<Vec<Written>, CliError>)
    requires
        args.len() >= 2,
    ensures
        match scan(command, words_of(args@), 2) {
            Ok(occurrences) => r matches Ok(w) && written_view(w@) == occurrences,
            Err(e) => r == Err::<Vec<Written>, CliError>(e),
        },
{
    let ghost words = words_of(args@);
    let mut written: Vec<Written> = Vec::new();
    let mut i: usize = 2;
    assert(scan(command, words, 2) == prepend(written_view(written@), scan(command, words, 2)))
        by {
        if let Ok(t) = scan(command, words, 2) {
            assert(written_view(written@) + t =~= t);
        }
    }
    while i < args.len()
        invariant
            2 <= i <= args.len(),
            words == words_of(args@),
            scan(command, words, 2) == prepend(written_view(written@), scan(command, words, i as int)),
        decreases args.len() - i,
    {
        let word = chars_of(args[i]);
        assert(words[i as int] == word@);
        if spells(word.as_slice(), "--help") || spells(word.as_slice(), "-h") {
            return Err(CliError::Help);
        }
        if !(word.len() > 2 && word[0] == '-' && word[1] == '-') {
            return Err(CliError::UnexpectedArgument);
        }
        let eq = find_char(word.as_slice(), '=', 2);
        let name = slice_chars(word.as_slice(), 2, eq);
        let ghost before = written_view(written@);
        match option_kind_of(command, name.as_slice()) {
            None => {
                return Err(CliError::UnexpectedArgument);
            },
            Some(OptionKind::Flag) => {
                if eq < word.len() {
                    return Err(CliError::UnexpectedArgument);
                }
                let ghost occurrence: Occurrence = (name@, None);
                written.push(Written { name, value: None });
                proof {
                    lemma_prepend_assoc(before, seq![occurrence], scan(command, words, i + 1));
                    assert(written_view(written@) =~= before + seq![occurrence]);
                }
                i = i + 1;
            },
            Some(_) => {
                if eq < word.len() {
                    let value = args[i].substring_char(eq + 1, word.len()).to_owned();
                    let ghost occurrence: Occurrence = (name@, Some(value@));
                    assert(value@ == word@.subrange(eq + 1, word@.len() as int));
                    written.push(Written { name, value: Some(value) });
                    proof {
                        lemma_prepend_assoc(before, seq![occurrence], scan(command, words, i + 1));
                        assert(written_view(written@) =~= before + seq![occurrence]);
                    }
                    i = i + 1;
                } else {
                    if i + 1 >= args.len() {
                        return Err(CliError::MissingValue);
                    }
                    let next = chars_of(args[i + 1]);
                    assert(words[i + 1] == next@);
                    if next.len() > 1 && next[0] == '-' {
                        return Err(CliError::MissingValue);
                    }
                    let value = args[i + 1].to_owned();
                    let ghost occurrence: Occurrence = (name@, Some(value@));
                    written.push(Written { name, value: Some(value) });
                    proof {
                        lemma_prepend_assoc(before, seq![occurrence], scan(command, words, i + 2));
                        assert(written_view(written@) =~= before + seq![occurrence]);
                    }
                    i = i + 2;
                }
            },
        }
    }
    assert(written_view(written@) + Seq::<Occurrence>::empty() =~= written_view(written@));
    Ok(written)
}

} // verus!

verus! {

proof fn lemma_written_step(w: Seq<Written>, i: int)
    requires
        0 <= i < w.len(),
    ensures
        written_view(w.take(i + 1)).drop_last() == written_view(w.take(i)),
        written_view(w.take(i + 1)).last() == w[i]@,
        written_view(w.take(i + 1)).len() == i + 1,
{
    assert(written_view(w.take(i + 1)).drop_last() =~= written_view(w.take(i)));
}

/// How many times `name` was written.
fn count_named(w: &Vec<Written>, name: &str) -> (r: usize)
    ensures
        r == count_of(written_view(w@), name@),
{
    let mut n: usize = 0;
    let mut i: usize = 0;
    assert(written_view(w@.take(0)) =~= Seq::<Occurrence>::empty());
    while i < w.len()
        invariant
            i <= w.len(),
            n <= i,
            n == count_of(written_view(w@.take(i as int)), name@),
        decreases w.len() - i,
    {
        proof {
            lemma_written_step(w@, i as int);
        }
        if spells(w[i].name.as_slice(), name) {
            n = n + 1;
        }
        i = i + 1;
    }
    assert(w@.take(w.len() as int) =~= w@);
    n
}

/// The values written for `name`, in order.
fn values_named(w: &Vec<Written>, name: &str) -> (r: Vec<String>)
    ensures
        r.deep_view() == values_of(written_view(w@), name@),
{
    let mut out: Vec<String> = Vec::new();
    let mut i: usize = 0;
    assert(written_view(w@.take(0)) =~= Seq::<Occurrence>::empty());
    assert(out.deep_view() =~= Seq::<Seq<char>>::empty());
    while i < w.len()
        invariant
            i <= w.len(),
            out.deep_view() == values_of(written_view(w@.take(i as int)), name@),
        decreases w.len() - i,
    {
        proof {
            lemma_written_step(w@, i as int);
        }
        if spells(w[i].name.as_slice(), name) {
            let ghost before = out.deep_view();
            let value = match &w[i].value {
                Some(v) => v.clone(),
                None => String::new(),
            };
            out.push(value);
            assert(out.deep_view() =~= before.push(value@));
        }
        i = i + 1;
    }
    assert(w@.take(w.len() as int) =~= w@);
    out
}

/// The one value of an option that may appear once.
fn single_named(w: &Vec<Written>, name: &str) -> (r: Result<Option<String>, CliError>)
    ensures
        match single_of(written_view(w@), name@) {
            Ok(v) => r matches Ok(x) && x.deep_view() == v,
            Err(e) => r == Err::<Option<String>, CliError>(e),
        },
{
    let mut values = values_named(w, name);
    if values.len() > 1 {
        return Err(CliError::RepeatedArgument);
    }
    if values.len() == 1 {
        let v = values.pop().unwrap();
        return Ok(Some(v));
    }
    Ok(None)
}

/// Whether a flag was given.
fn flag_named(w: &Vec<Written>, name: &str) -> (r: Result<bool, CliError>)
    ensures
        r == flag_of(written_view(w@), name@),
{
    let n = count_named(w, name);
    if n > 1 {
        Err(CliError::RepeatedArgument)
    } else {
        Ok(n == 1)
    }
}

/// An optional `true`/`false` option.
fn bool_named(w: &Vec<Written>, name: &str) -> (r: Result<Option<bool>, CliError>)
    ensures
        r == bool_of(written_view(w@), name@),
{
    match single_named(w, name)? {
        None => Ok(None),
        Some(v) => {
            let chars = chars_of(v.as_str());
            if spells(chars.as_slice(), "true") {
                Ok(Some(true))
            } else if spells(chars.as_slice(), "false") {
                Ok(Some(false))
            } else {
                Err(CliError::InvalidValue)
            }
        },
    }
}

/// An integer option within `[low, high]`, or `default` when absent.
fn int_named(w: &Vec<Written>, name: &str, low: i64, high: i64, default: i64) -> (r: Result<
    i64,
    CliError,
>)
    ensures
        match int_of(written_view(w@), name@, low as int, high as int, default as int) {
            Ok(n) => r == Ok::<i64, CliError>(n as i64),
            Err(e) => r == Err::<i64, CliError>(e),
        },
{
    match single_named(w, name)? {
        None => Ok(default),
        Some(v) => {
            let chars = chars_of(v.as_str());
            match parse_i64(chars.as_slice()) {
                Some(n) => if low <= n && n <= high {
                    Ok(n)
                } else {
                    Err(CliError::InvalidValue)
                },
                None => Err(CliError::InvalidValue),
            }
        },
    }
}

/// A text option with the empty text as default.
fn text_named(w: &Vec<Written>, name: &str) -> (r: Result<String, CliError>)
    ensures
        match text_or(written_view(w@), name@, Seq::empty()) {
            Ok(v) => r matches Ok(x) && x@ == v,
            Err(e) => r == Err::<String, CliError>(e),
        },
{
    match single_named(w, name)? {
        None => Ok(String::new()),
        Some(v) => Ok(v),
    }
}

/// A required text option.
fn required_named(w: &Vec<Written>, name: &str) -> (r: Result<String, CliError>)
    ensures
        match required_text(written_view(w@), name@) {
            Ok(v) => r matches Ok(x) && x@ == v,
            Err(e) => r == Err::<String, CliError>(e),
        },
{
    match single_named(w, name)? {
        None => Err(CliError::MissingRequired),
        Some(v) => Ok(v),
    }
}

fn mailbox_from(w: &Vec<Written>) -> (r: Result<MailboxArgs, CliError>)
    ensures
        match mailbox_args(written_view(w@)) {
            Ok(v) => r matches Ok(m) && m@ == v,
            Err(e) => r matches Err(x) && x == e,
        },
{
    let account = single_named(w, "account")?;
    let mailbox_path = values_named(w, "mailbox");
    Ok(MailboxArgs { account, mailbox_path })
}

fn message_from(w: &Vec<Written>) -> (r: Result<MessageRefArgs, CliError>)
    ensures
        match message_args(written_view(w@)) {
            Ok(v) => r matches Ok(m) && m@ == v,
            Err(e) => r matches Err(x) && x == e,
        },
{
    let mailbox = mailbox_from(w)?;
    let id = match single_named(w, "id")? {
        None => {
            return Err(CliError::MissingRequired);
        },
        Some(v) => {
            let chars = chars_of(v.as_str());
            match parse_i64(chars.as_slice()) {
                Some(n) => n,
                None => {
                    return Err(CliError::InvalidValue);
                },
            }
        },
    };
    Ok(MessageRefArgs { mailbox, id })
}

fn compose_from(w: &Vec<Written>) -> (r: Result<ComposeArgs, CliError>)
    ensures
        match compose_args(written_view(w@)) {
            Ok(v) => r matches Ok(c) && compose_view(&c) == v,
            Err(e) => r matches Err(x) && x == e,
        },
{
    let subject = text_named(w, "subject")?;
    let body = text_named(w, "body")?;
    let to = values_named(w, "to");
    let cc = values_named(w, "cc");
    let bcc = values_named(w, "bcc");
    Ok(ComposeArgs { to, cc, bcc, subject, body })
}

fn build_command(command: CommandName, w: &Vec<Written>) -> (r: Result<Command, CliError>)
    ensures
        match build(command, written_view(w@)) {
            Ok(v) => r matches Ok(c) && c@ == v,
            Err(e) => r matches Err(x) && x == e,
        },
{
    match command {
        CommandName::Doctor => Ok(Command::Doctor),
        CommandName::Accounts => Ok(Command::Accounts),
        CommandName::Mailboxes => {
            let account = single_named(w, "account")?;
            Ok(Command::Mailboxes { account })
        },
        CommandName::Check => {
            let account = single_named(w, "account")?;
            Ok(Command::Check { account })
        },
        CommandName::Inbox => {
            let account = single_named(w, "account")?;
            let recent = int_named(w, "recent-limit", 0, 65535, DEFAULT_SNAPSHOT_LIMIT as i64)?;
            let unread = int_named(w, "unread-limit", 0, 65535, DEFAULT_SNAPSHOT_LIMIT as i64)?;
            Ok(
                Command::Inbox(
                    InboxArgs {
                        account,
                        recent_limit: recent as u16,
                        unread_limit: unread as u16,
                    },
                ),
            )
        },
        CommandName::Search => {
            let mailbox = mailbox_from(w)?;
            let unread = bool_named(w, "unread")?;
            let flagged = bool_named(w, "flagged")?;
            let sender = single_named(w, "sender")?;
            let subject = single_named(w, "subject")?;
            let received_after = single_named(w, "received-after")?;
            let received_before = single_named(w, "received-before")?;
            let cursor = single_named(w, "cursor")?;
            let limit = int_named(w, "limit", 0, 65535, DEFAULT_RESULT_LIMIT as i64)?;
            Ok(
                Command::Search(
                    SearchArgs {
                        mailbox,
                        unread,
                        flagged,
                        sender,
                        subject,
                        received_after,
                        received_before,
                        cursor,
                        limit: limit as u16,
                    },
                ),
            )
        },
        CommandName::Show => {
            let message = message_from(w)?;
            let max = int_named(w, "max-body-chars", 0, 4294967295, DEFAULT_BODY_CHARS as i64)?;
            Ok(Command::Show(MessageArgs { message, max_body_chars: max as u32 }))
        },
        CommandName::State => {
            let message = message_from(w)?;
            let read = bool_named(w, "read")?;
            let flagged = bool_named(w, "flagged")?;
            Ok(Command::State(StateArgs { message, read, flagged }))
        },
        CommandName::Move => {
            let message = message_from(w)?;
            let destination_account = single_named(w, "destination-account")?;
            let destination_path = values_named(w, "destination-mailbox");
            if destination_path.len() == 0 {
                return Err(CliError::MissingRequired);
            }
            let confirm_move = flag_named(w, "confirm-move")?;
            Ok(Command::Move(MoveArgs { message, destination_account, destination_path, confirm_move }))
        },
        CommandName::Reply => {
            let message = message_from(w)?;
            let body = required_named(w, "body")?;
            Ok(Command::Reply(ReplyArgs { message, body }))
        },
        CommandName::Draft => {
            let compose = compose_from(w)?;
            Ok(Command::Draft(compose))
        },
        CommandName::Send => {
            let compose = compose_from(w)?;
            let confirm_send = flag_named(w, "confirm-send")?;
            Ok(Command::Send(SendArgs { compose, confirm_send }))
        },
        CommandName::Mcp => {
            let allow_write = flag_named(w, "allow-write")?;
            let allow_send = flag_named(w, "allow-send")?;
            if allow_send && !allow_write {
                return Err(CliError::SendWithoutWrite);
            }
            Ok(Command::Mcp(McpArgs { allow_write, allow_send }))
        },
    }
}

impl Cli {
    /// Reads a command line; the first word is the program's name.
    pub fn try_parse_from(args: &[&str]) -> (r: Result<Cli, CliError>)
        ensures
            match parse_words(words_of(args@)) {
                Ok(v) => r matches Ok(cli) && cli.command@ == v,
                Err(e) => r matches Err(x) && x == e,
            },
    {
        if args.len() < 2 {
            return Err(CliError::MissingCommand);
        }
        let word = chars_of(args[1]);
        assert(words_of(args@)[1] == word@);
        if spells(word.as_slice(), "--help") || spells(word.as_slice(), "-h") || spells(
            word.as_slice(),
            "help",
        ) {
            return Err(CliError::Help);
        }
        if spells(word.as_slice(), "--version") || spells(word.as_slice(), "-V") {
            return Err(CliError::Version);
        }
        let command = match command_of(word.as_slice()) {
            Some(c) => c,
            None => {
                return Err(CliError::UnknownCommand);
            },
        };
        let written = scan_words(command, args)?;
        let command = build_command(command, &written)?;
        Ok(Cli { command })
    }
}

} // verus!
