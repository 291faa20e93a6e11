//! What each option of a command line ends up as, stated over the words
//! themselves: the value a command gets for `--name` is what the user wrote
//! after `--name=` or in the word after a bare `--name`, whatever the other
//! options say.
use vstd::prelude::*;

use crate::command_line::{
    bool_of, build, command_named, count_of, flag_of, int_of, single_of, text_or, inline_value, is_long, is_value_word, long_name, option_kind, parse_words,
    position_of, prepend, scan, values_of, CliError, CommandName, CommandView, Occurrence,
    OptionKind,
};
use crate::cursor::i64_text_value;
use crate::model::{DEFAULT_RESULT_LIMIT, DEFAULT_SNAPSHOT_LIMIT};

verus! {

/// The two dashes that open a long option.
pub open spec fn dashes() -> Seq<char> {
    seq!['-', '-']
}

/// An option name as the grammar has them: not empty, and free of `=`.
pub open spec fn plain_name(name: Seq<char>) -> bool {
    name.len() > 0 && forall|k: int| 0 <= k < name.len() ==> name[k] != '='
}

/// The word is `--name=` followed by something.
pub open spec fn starts_with_assignment(word: Seq<char>, name: Seq<char>) -> bool {
    word.len() >= name.len() as int + 3 && word.take(name.len() as int + 3) == dashes() + name + seq!['=']
}

/// The values written for `--name` from word `i` on, in order: what follows
/// `--name=` in a word, or the word after a bare `--name`.
pub open spec fn written_values(words: Seq<Seq<char>>, name: Seq<char>, i: int) -> Seq<Seq<char>>
    decreases words.len() - i,
{
    if i < 0 || i >= words.len() {
        Seq::empty()
    } else if words[i] == dashes() + name && i + 1 < words.len() {
        seq![words[i + 1]] + written_values(words, name, i + 1)
    } else if starts_with_assignment(words[i], name) {
        seq![words[i].skip(name.len() as int + 3)] + written_values(words, name, i + 1)
    } else {
        written_values(words, name, i + 1)
    }
}

/// The values written for `--name` after the command word.
pub open spec fn option_values(words: Seq<Seq<char>>, name: Seq<char>) -> Seq<Seq<char>> {
    written_values(words, name, 2)
}

// ----- long option words -----

proof fn lemma_position_of(word: Seq<char>, c: char, from: int)
    requires
        0 <= from <= word.len(),
    ensures
        from <= position_of(word, c, from) <= word.len(),
        position_of(word, c, from) < word.len() ==> word[position_of(word, c, from)] == c,
        forall|k: int| from <= k < position_of(word, c, from) ==> word[k] != c,
    decreases word.len() - from,
{
    if from < word.len() && word[from] != c {
        lemma_position_of(word, c, from + 1);
    }
}

/// How a long option word relates to a plain option name.
proof fn lemma_long_word(word: Seq<char>, name: Seq<char>)
    requires
        is_long(word),
        plain_name(name),
    ensures
        (word == dashes() + name) == (long_name(word) == name && inline_value(word) is None),
        starts_with_assignment(word, name) == (long_name(word) == name && inline_value(
            word,
        ) is Some),
        starts_with_assignment(word, name) ==> inline_value(word) == Some(
            word.skip(name.len() as int + 3),
        ),
{
    let p = position_of(word, '=', 2);
    lemma_position_of(word, '=', 2);
    let ln = long_name(word);
    let q = name.len() as int + 2;
    if word == dashes() + name {
        assert(word.subrange(2, word.len() as int) =~= name);
        assert forall|k: int| 2 <= k < word.len() implies word[k] != '=' by {
            assert(word[k] == name[k - 2]);
        }
        assert(p == word.len());
        assert(ln =~= name);
    }
    if starts_with_assignment(word, name) {
        assert(word[q] == (dashes() + name + seq!['='])[q]);
        assert(word[q] == '=');
        assert forall|k: int| 2 <= k < q implies word[k] != '=' by {
            assert(word[k] == word.take(q + 1)[k]);
            assert(word.take(q + 1)[k] == name[k - 2]);
        }
        assert(p == q);
        assert(ln =~= name) by {
            assert forall|k: int| 0 <= k < name.len() implies ln[k] == name[k] by {
                assert(word.take(q + 1)[k + 2] == name[k]);
            }
        }
        assert(inline_value(word) == Some(word.skip(name.len() as int + 3))) by {
            assert(word.subrange(p + 1, word.len() as int) =~= word.skip(name.len() as int + 3));
        }
    }
    if ln == name && inline_value(word) is None {
        assert(p == word.len());
        assert(word =~= dashes() + name) by {
            assert forall|k: int| 0 <= k < word.len() implies word[k] == (dashes() + name)[k] by {
                if k >= 2 {
                    assert(ln[k - 2] == word[k]);
                }
            }
        }
    }
    if ln == name && inline_value(word) is Some {
        assert(p < word.len());
        assert(p == q);
        assert(word.take(q + 1) =~= dashes() + name + seq!['=']) by {
            assert forall|k: int| 0 <= k < q + 1 implies word.take(q + 1)[k] == (dashes() + name
                + seq!['='])[k] by {
                if 2 <= k < q {
                    assert(ln[k - 2] == word[k]);
                }
            }
        }
    }
}

/// Neither pattern of a plain name matches a word that can stand as a value.
proof fn lemma_value_word_names_nothing(word: Seq<char>, name: Seq<char>)
    requires
        is_value_word(word),
        plain_name(name),
    ensures
        word != dashes() + name,
        !starts_with_assignment(word, name),
{
    if word == dashes() + name {
        assert(word[0] == '-');
    }
    if starts_with_assignment(word, name) {
        assert(word[0] == word.take(name.len() as int + 3)[0]);
    }
}

// ----- what the scan collects -----

proof fn lemma_values_of_prepend(head: Occurrence, rest: Seq<Occurrence>, name: Seq<char>)
    ensures
        values_of(seq![head] + rest, name) == (if head.0 == name {
            seq![
                match head.1 {
                    Some(v) => v,
                    None => Seq::empty(),
                },
            ]
        } else {
            Seq::empty()
        }) + values_of(rest, name),
    decreases rest.len(),
{
    let all = seq![head] + rest;
    let h: Seq<Seq<char>> = if head.0 == name {
        seq![
            match head.1 {
                Some(v) => v,
                None => Seq::empty(),
            },
        ]
    } else {
        Seq::empty()
    };
    if rest.len() == 0 {
        assert(all.drop_last() =~= Seq::<Occurrence>::empty());
        assert(all.last() == head);
        assert(values_of(Seq::<Occurrence>::empty(), name) =~= Seq::<Seq<char>>::empty());
        assert(values_of(all, name) =~= h);
        assert(h + values_of(rest, name) =~= h);
    } else {
        assert(all.drop_last() =~= seq![head] + rest.drop_last());
        assert(all.last() == rest.last());
        lemma_values_of_prepend(head, rest.drop_last(), name);
        let before = values_of(rest.drop_last(), name);
        let last = rest.last();
        if last.0 == name {
            let v = match last.1 {
                Some(v) => v,
                None => Seq::empty(),
            };
            assert((h + before).push(v) =~= h + before.push(v));
        }
    }
}

/// The values the scan collects for a non-flag option are the values written
/// for it.
proof fn lemma_scan_values(command: CommandName, words: Seq<Seq<char>>, k: int, name: Seq<char>)
    requires
        0 <= k,
        plain_name(name),
        option_kind(command, name) matches Some(kind) && kind != OptionKind::Flag,
        scan(command, words, k) is Ok,
    ensures
        values_of(scan(command, words, k)->Ok_0, name) == written_values(words, name, k),
    decreases words.len() - k,
{
    if k < words.len() {
        let word = words[k];
        lemma_long_word(word, name);
        let n = long_name(word);
        match option_kind(command, n) {
            Some(OptionKind::Flag) => {
                assert(n != name);
                lemma_scan_values(command, words, k + 1, name);
                lemma_values_of_prepend((n, None), scan(command, words, k + 1)->Ok_0, name);
            },
            Some(_) => {
                if inline_value(word) is Some {
                    lemma_scan_values(command, words, k + 1, name);
                    lemma_values_of_prepend(
                        (n, inline_value(word)),
                        scan(command, words, k + 1)->Ok_0,
                        name,
                    );
                    if n == name {
                        assert(word != dashes() + name);
                        assert(written_values(words, name, k) =~= seq![
                            word.skip(name.len() as int + 3),
                        ] + written_values(words, name, k + 1));
                    }
                } else {
                    lemma_scan_values(command, words, k + 2, name);
                    lemma_values_of_prepend(
                        (n, Some(words[k + 1])),
                        scan(command, words, k + 2)->Ok_0,
                        name,
                    );
                    lemma_value_word_names_nothing(words[k + 1], name);
                    assert(written_values(words, name, k + 1) == written_values(
                        words,
                        name,
                        k + 2,
                    ));
                    if n == name {
                        assert(written_values(words, name, k) =~= seq![words[k + 1]]
                            + written_values(words, name, k + 1));
                    }
                }
            },
            None => {},
        }
    }
}

/// For a command line that parses, the command word and the options scanned
/// after it.
proof fn lemma_parsed(words: Seq<Seq<char>>) -> (r: (CommandName, Seq<Occurrence>))
    requires
        parse_words(words) is Ok,
    ensures
        words.len() >= 2,
        command_named(words[1]) == Some(r.0),
        scan(r.0, words, 2) == Ok::<Seq<Occurrence>, CliError>(r.1),
        build(r.0, r.1) == parse_words(words),
{
    let command = command_named(words[1])->0;
    let occurrences = scan(command, words, 2)->Ok_0;
    (command, occurrences)
}

// ----- how a value is read from what was written -----

/// `b` is the boolean written: `None` when nothing was written, and otherwise
/// the one word written, `true` or `false`.
pub open spec fn reads_bool(values: Seq<Seq<char>>, b: Option<bool>) -> bool {
    match b {
        None => values.len() == 0,
        Some(true) => values == seq!["true"@],
        Some(false) => values == seq!["false"@],
    }
}

/// `t` is the text written: `None` when nothing was written, and otherwise the
/// one text written.
pub open spec fn reads_text(values: Seq<Seq<char>>, t: Option<Seq<char>>) -> bool {
    match t {
        None => values.len() == 0,
        Some(v) => values == seq![v],
    }
}

/// `t` is the one text written, or `default` when nothing was written.
pub open spec fn reads_text_or(values: Seq<Seq<char>>, t: Seq<char>, default: Seq<char>) -> bool {
    if values.len() == 0 {
        t == default
    } else {
        values == seq![t]
    }
}

/// `n` is the one decimal integer written, or `default` when nothing was
/// written.
pub open spec fn reads_int(values: Seq<Seq<char>>, n: int, default: int) -> bool {
    if values.len() == 0 {
        n == default
    } else {
        values.len() == 1 && i64_text_value(values[0]) == Some(n)
    }
}

proof fn lemma_single(command: CommandName, words: Seq<Seq<char>>, o: Seq<Occurrence>, name: Seq<char>)
    requires
        plain_name(name),
        option_kind(command, name) matches Some(kind) && kind != OptionKind::Flag,
        scan(command, words, 2) == Ok::<Seq<Occurrence>, CliError>(o),
    ensures
        values_of(o, name) == option_values(words, name),
        single_of(o, name) is Ok ==> reads_text(option_values(words, name), single_of(o, name)->Ok_0),
        bool_of(o, name) is Ok ==> reads_bool(option_values(words, name), bool_of(o, name)->Ok_0),
        forall|default: Seq<char>| #[trigger] text_or(o, name, default) is Ok ==> reads_text_or(
            option_values(words, name),
            text_or(o, name, default)->Ok_0,
            default,
        ),
        forall|low: int, high: int, default: int| #[trigger] int_of(o, name, low, high, default) is Ok
            ==> reads_int(option_values(words, name), int_of(o, name, low, high, default)->Ok_0, default),
{
    lemma_scan_values(command, words, 2, name);
    let values = values_of(o, name);
    if values.len() == 1 {
        assert(values =~= seq![values[0]]);
    }
}

// ----- the laws -----

/// A search takes each filter from its own option: `--unread` and `--flagged`
/// give `true` or `false` as written and nothing when absent, the sender,
/// subject, date and cursor filters are the text written for their option,
/// the mailbox is `--account` with the `--mailbox` components in the order
/// written, and the limit is the number written, 25 when absent.
pub proof fn search_filters_follow_their_options(words: Seq<Seq<char>>)
    ensures
        parse_words(words) matches Ok(
            CommandView::Search {
                mailbox,
                unread,
                flagged,
                sender,
                subject,
                received_after,
                received_before,
                cursor,
                limit,
            },
        ) ==> {
            &&& reads_text(option_values(words, "account"@), mailbox.0)
            &&& mailbox.1 == option_values(words, "mailbox"@)
            &&& reads_bool(option_values(words, "unread"@), unread)
            &&& reads_bool(option_values(words, "flagged"@), flagged)
            &&& reads_text(option_values(words, "sender"@), sender)
            &&& reads_text(option_values(words, "subject"@), subject)
            &&& reads_text(option_values(words, "received-after"@), received_after)
            &&& reads_text(option_values(words, "received-before"@), received_before)
            &&& reads_text(option_values(words, "cursor"@), cursor)
            &&& reads_int(option_values(words, "limit"@), limit as int, DEFAULT_RESULT_LIMIT as int)
        },
{
    if parse_words(words) matches Ok(CommandView::Search { .. }) {
        let (command, o) = lemma_parsed(words);
        assert(command == CommandName::Search);
        reveal_strlit("account");
        reveal_strlit("mailbox");
        reveal_strlit("unread");
        reveal_strlit("flagged");
        reveal_strlit("sender");
        reveal_strlit("subject");
        reveal_strlit("received-after");
        reveal_strlit("received-before");
        reveal_strlit("cursor");
        reveal_strlit("limit");
        lemma_single(command, words, o, "account"@);
        lemma_single(command, words, o, "mailbox"@);
        lemma_single(command, words, o, "unread"@);
        lemma_single(command, words, o, "flagged"@);
        lemma_single(command, words, o, "sender"@);
        lemma_single(command, words, o, "subject"@);
        lemma_single(command, words, o, "received-after"@);
        lemma_single(command, words, o, "received-before"@);
        lemma_single(command, words, o, "cursor"@);
        lemma_single(command, words, o, "limit"@);
        assert(int_of(o, "limit"@, 0, 65535, DEFAULT_RESULT_LIMIT as int) is Ok);
    }
}

/// The inbox snapshot takes its account from `--account` and each limit from
/// its own option: the number written for `--recent-limit` and for
/// `--unread-limit`, 10 when absent, whatever the other says.
pub proof fn inbox_limits_follow_their_options(words: Seq<Seq<char>>)
    ensures
        parse_words(words) matches Ok(CommandView::Inbox(account, recent, unread)) ==> {
            &&& reads_text(option_values(words, "account"@), account)
            &&& reads_int(
                option_values(words, "recent-limit"@),
                recent as int,
                DEFAULT_SNAPSHOT_LIMIT as int,
            )
            &&& reads_int(
                option_values(words, "unread-limit"@),
                unread as int,
                DEFAULT_SNAPSHOT_LIMIT as int,
            )
        },
{
    if parse_words(words) matches Ok(CommandView::Inbox(..)) {
        let (command, o) = lemma_parsed(words);
        assert(command == CommandName::Inbox);
        reveal_strlit("account");
        reveal_strlit("recent-limit");
        reveal_strlit("unread-limit");
        lemma_single(command, words, o, "account"@);
        lemma_single(command, words, o, "recent-limit"@);
        lemma_single(command, words, o, "unread-limit"@);
        assert(int_of(o, "recent-limit"@, 0, 65535, DEFAULT_SNAPSHOT_LIMIT as int) is Ok);
        assert(int_of(o, "unread-limit"@, 0, 65535, DEFAULT_SNAPSHOT_LIMIT as int) is Ok);
    }
}

/// A draft or a message to send has as its To, Cc and Bcc recipients exactly
/// the addresses written for `--to`, `--cc` and `--bcc`, each list in the
/// order written, and as subject and body the text written for `--subject`
/// and `--body`, empty when absent.
pub proof fn composed_message_follows_its_options(words: Seq<Seq<char>>)
    ensures
        parse_words(words) matches Ok(CommandView::Draft(c)) ==> composed_from(words, c),
        parse_words(words) matches Ok(CommandView::Send(c, _)) ==> composed_from(words, c),
{
    if parse_words(words) is Ok {
        let (command, o) = lemma_parsed(words);
        if command == CommandName::Draft || command == CommandName::Send {
            reveal_strlit("confirm-send");
            reveal_strlit("to");
            reveal_strlit("cc");
            reveal_strlit("bcc");
            reveal_strlit("subject");
            reveal_strlit("body");
            assert("to"@.len() == 2 && "cc"@.len() == 2 && "bcc"@.len() == 3);
            assert("subject"@.len() == 7 && "body"@.len() == 4 && "confirm-send"@.len() == 12);
            assert(option_kind(command, "to"@) == Some(OptionKind::Multi));
            assert(option_kind(command, "cc"@) == Some(OptionKind::Multi));
            assert(option_kind(command, "bcc"@) == Some(OptionKind::Multi));
            assert(option_kind(command, "subject"@) == Some(OptionKind::Single));
            assert(option_kind(command, "body"@) == Some(OptionKind::Single));
            lemma_single(command, words, o, "to"@);
            lemma_single(command, words, o, "cc"@);
            lemma_single(command, words, o, "bcc"@);
            lemma_single(command, words, o, "subject"@);
            lemma_single(command, words, o, "body"@);
            assert(text_or(o, "subject"@, Seq::empty()) is Ok);
            assert(text_or(o, "body"@, Seq::empty()) is Ok);
        }
    }
}

/// The message composed by `--to`, `--cc`, `--bcc`, `--subject` and `--body`.
pub open spec fn composed_from(
    words: Seq<Seq<char>>,
    c: (Seq<Seq<char>>, Seq<Seq<char>>, Seq<Seq<char>>, Seq<char>, Seq<char>),
) -> bool {
    &&& c.0 == option_values(words, "to"@)
    &&& c.1 == option_values(words, "cc"@)
    &&& c.2 == option_values(words, "bcc"@)
    &&& reads_text_or(option_values(words, "subject"@), c.3, Seq::empty())
    &&& reads_text_or(option_values(words, "body"@), c.4, Seq::empty())
}

/// A state change takes its read state from `--read` and its flagged state
/// from `--flagged`, each `true` or `false` as written and nothing when absent.
pub proof fn state_change_follows_its_options(words: Seq<Seq<char>>)
    ensures
        parse_words(words) matches Ok(CommandView::State(message, read, flagged)) ==> {
            &&& reads_text(option_values(words, "account"@), message.0.0)
            &&& message.0.1 == option_values(words, "mailbox"@)
            &&& reads_bool(option_values(words, "read"@), read)
            &&& reads_bool(option_values(words, "flagged"@), flagged)
        },
{
    if parse_words(words) matches Ok(CommandView::State(..)) {
        let (command, o) = lemma_parsed(words);
        assert(command == CommandName::State);
        reveal_strlit("id");
        reveal_strlit("account");
        reveal_strlit("mailbox");
        reveal_strlit("read");
        reveal_strlit("flagged");
        lemma_single(command, words, o, "account"@);
        lemma_single(command, words, o, "mailbox"@);
        lemma_single(command, words, o, "read"@);
        lemma_single(command, words, o, "flagged"@);
    }
}

/// A move takes its destination from `--destination-account` (nothing when
/// absent) and the `--destination-mailbox` components in the order written,
/// and its source from `--account` and `--mailbox`.
pub proof fn move_follows_its_options(words: Seq<Seq<char>>)
    ensures
        parse_words(words) matches Ok(CommandView::Move(message, account, path, _)) ==> {
            &&& reads_text(option_values(words, "account"@), message.0.0)
            &&& message.0.1 == option_values(words, "mailbox"@)
            &&& reads_text(option_values(words, "destination-account"@), account)
            &&& path == option_values(words, "destination-mailbox"@)
        },
{
    if parse_words(words) matches Ok(CommandView::Move(..)) {
        let (command, o) = lemma_parsed(words);
        assert(command == CommandName::Move);
        reveal_strlit("confirm-move");
        reveal_strlit("id");
        reveal_strlit("account");
        reveal_strlit("mailbox");
        reveal_strlit("destination-account");
        reveal_strlit("destination-mailbox");
        lemma_single(command, words, o, "account"@);
        lemma_single(command, words, o, "mailbox"@);
        lemma_single(command, words, o, "destination-account"@);
        lemma_single(command, words, o, "destination-mailbox"@);
    }
}

// ----- flags -----

/// Some word after the command is the bare flag `--name`.
pub open spec fn flag_written(words: Seq<Seq<char>>, name: Seq<char>) -> bool {
    exists|i: int| 2 <= i < words.len() && #[trigger] words[i] == dashes() + name
}

proof fn lemma_count_of_prepend(head: Occurrence, rest: Seq<Occurrence>, name: Seq<char>)
    ensures
        count_of(seq![head] + rest, name) == (if head.0 == name {
            1nat
        } else {
            0nat
        }) + count_of(rest, name),
    decreases rest.len(),
{
    let all = seq![head] + rest;
    if rest.len() == 0 {
        assert(all.drop_last() =~= Seq::<Occurrence>::empty());
        assert(all.last() == head);
        assert(count_of(Seq::<Occurrence>::empty(), name) == 0);
    } else {
        assert(all.drop_last() =~= seq![head] + rest.drop_last());
        assert(all.last() == rest.last());
        lemma_count_of_prepend(head, rest.drop_last(), name);
    }
}

/// A flag was scanned exactly when some word from `k` on is that bare flag.
proof fn lemma_scan_flag(command: CommandName, words: Seq<Seq<char>>, k: int, name: Seq<char>)
    requires
        0 <= k,
        plain_name(name),
        option_kind(command, name) == Some(OptionKind::Flag),
        scan(command, words, k) is Ok,
    ensures
        (count_of(scan(command, words, k)->Ok_0, name) > 0) == (exists|i: int|
            k <= i < words.len() && #[trigger] words[i] == dashes() + name),
    decreases words.len() - k,
{
    if k < words.len() {
        let word = words[k];
        lemma_long_word(word, name);
        let n = long_name(word);
        match option_kind(command, n) {
            Some(OptionKind::Flag) => {
                lemma_scan_flag(command, words, k + 1, name);
                lemma_count_of_prepend((n, None), scan(command, words, k + 1)->Ok_0, name);
                if !(n == name) {
                    assert forall|i: int| k <= i < words.len() && #[trigger] words[i] == dashes()
                        + name implies k + 1 <= i by {}
                }
            },
            Some(_) => {
                assert(n != name);
                assert(word != dashes() + name);
                if inline_value(word) is Some {
                    lemma_scan_flag(command, words, k + 1, name);
                    lemma_count_of_prepend(
                        (n, inline_value(word)),
                        scan(command, words, k + 1)->Ok_0,
                        name,
                    );
                    assert forall|i: int| k <= i < words.len() && #[trigger] words[i] == dashes()
                        + name implies k + 1 <= i by {}
                } else {
                    lemma_scan_flag(command, words, k + 2, name);
                    lemma_count_of_prepend(
                        (n, Some(words[k + 1])),
                        scan(command, words, k + 2)->Ok_0,
                        name,
                    );
                    lemma_value_word_names_nothing(words[k + 1], name);
                    assert forall|i: int| k <= i < words.len() && #[trigger] words[i] == dashes()
                        + name implies k + 2 <= i by {}
                }
            },
            None => {},
        }
    }
}

proof fn lemma_flag(command: CommandName, words: Seq<Seq<char>>, o: Seq<Occurrence>, name: Seq<char>)
    requires
        plain_name(name),
        option_kind(command, name) == Some(OptionKind::Flag),
        scan(command, words, 2) == Ok::<Seq<Occurrence>, CliError>(o),
        flag_of(o, name) is Ok,
    ensures
        flag_of(o, name)->Ok_0 == flag_written(words, name),
{
    lemma_scan_flag(command, words, 2, name);
}

// ----- the remaining commands -----

/// The message a command names: `--account`, the `--mailbox` components in
/// the order written, and the number written for `--id`.
pub open spec fn names_message(
    words: Seq<Seq<char>>,
    message: ((Option<Seq<char>>, Seq<Seq<char>>), i64),
) -> bool {
    &&& reads_text(option_values(words, "account"@), message.0.0)
    &&& message.0.1 == option_values(words, "mailbox"@)
    &&& option_values(words, "id"@).len() == 1
    &&& i64_text_value(option_values(words, "id"@)[0]) == Some(message.1 as int)
}

proof fn lemma_message(command: CommandName, words: Seq<Seq<char>>, o: Seq<Occurrence>)
    requires
        option_kind(command, "account"@) == Some(OptionKind::Single),
        option_kind(command, "mailbox"@) == Some(OptionKind::Multi),
        option_kind(command, "id"@) == Some(OptionKind::Single),
        scan(command, words, 2) == Ok::<Seq<Occurrence>, CliError>(o),
        crate::command_line::message_args(o) is Ok,
    ensures
        names_message(words, crate::command_line::message_args(o)->Ok_0),
{
    reveal_strlit("account");
    reveal_strlit("mailbox");
    reveal_strlit("id");
    lemma_single(command, words, o, "account"@);
    lemma_single(command, words, o, "mailbox"@);
    lemma_single(command, words, o, "id"@);
}

/// `show` reads the message named by its options and the body bound written
/// for `--max-body-chars`, 16384 when absent; `reply` the message and the
/// text written for `--body`.
pub proof fn message_commands_follow_their_options(words: Seq<Seq<char>>)
    ensures
        parse_words(words) matches Ok(CommandView::Show(message, max)) ==> names_message(
            words,
            message,
        ) && reads_int(
            option_values(words, "max-body-chars"@),
            max as int,
            crate::model::DEFAULT_BODY_CHARS as int,
        ),
        parse_words(words) matches Ok(CommandView::Reply(message, body)) ==> names_message(
            words,
            message,
        ) && reads_text(option_values(words, "body"@), Some(body)),
        parse_words(words) matches Ok(CommandView::State(message, _, _)) ==> names_message(
            words,
            message,
        ),
        parse_words(words) matches Ok(CommandView::Move(message, _, _, confirm)) ==> names_message(
            words,
            message,
        ) && confirm == flag_written(words, "confirm-move"@),
{
    reveal_strlit("account");
    reveal_strlit("mailbox");
    reveal_strlit("id");
    reveal_strlit("max-body-chars");
    reveal_strlit("body");
    reveal_strlit("read");
    reveal_strlit("flagged");
    reveal_strlit("destination-account");
    reveal_strlit("destination-mailbox");
    reveal_strlit("confirm-move");
    assert("account"@.len() == 7 && "mailbox"@.len() == 7 && "id"@.len() == 2);
    assert("max-body-chars"@.len() == 14 && "body"@.len() == 4 && "read"@.len() == 4);
    assert("flagged"@.len() == 7 && "destination-account"@.len() == 19);
    assert("destination-mailbox"@.len() == 19 && "confirm-move"@.len() == 12);
    assert("account"@[0] == 'a' && "mailbox"@[0] == 'm' && "flagged"@[0] == 'f');
    assert("account"@ != "flagged"@ && "mailbox"@ != "flagged"@);
    if parse_words(words) is Ok {
        let (command, o) = lemma_parsed(words);
        if command == CommandName::Show {
            lemma_message(command, words, o);
            lemma_single(command, words, o, "max-body-chars"@);
            assert(int_of(o, "max-body-chars"@, 0, 4294967295, crate::model::DEFAULT_BODY_CHARS as int) is Ok);
        } else if command == CommandName::Reply {
            lemma_message(command, words, o);
            lemma_single(command, words, o, "body"@);
        } else if command == CommandName::State {
            assert(option_kind(command, "account"@) == Some(OptionKind::Single));
            assert(option_kind(command, "mailbox"@) == Some(OptionKind::Multi));
            assert(option_kind(command, "id"@) == Some(OptionKind::Single));
            lemma_message(command, words, o);
        } else if command == CommandName::Move {
            assert(option_kind(command, "account"@) == Some(OptionKind::Single));
            assert(option_kind(command, "mailbox"@) == Some(OptionKind::Multi));
            assert(option_kind(command, "id"@) == Some(OptionKind::Single));
            lemma_message(command, words, o);
            lemma_flag(command, words, o, "confirm-move"@);
        }
    }
}

/// `mailboxes` and `check` take their account from `--account`; `send` is
/// confirmed exactly when `--confirm-send` is written; the MCP server's
/// opt-ins are exactly the flags `--allow-write` and `--allow-send` written.
pub proof fn account_and_flag_commands_follow_their_options(words: Seq<Seq<char>>)
    ensures
        parse_words(words) matches Ok(CommandView::Mailboxes(account)) ==> reads_text(
            option_values(words, "account"@),
            account,
        ),
        parse_words(words) matches Ok(CommandView::Check(account)) ==> reads_text(
            option_values(words, "account"@),
            account,
        ),
        parse_words(words) matches Ok(CommandView::Send(_, confirm)) ==> confirm == flag_written(
            words,
            "confirm-send"@,
        ),
        parse_words(words) matches Ok(CommandView::Mcp(write, send)) ==> write == flag_written(
            words,
            "allow-write"@,
        ) && send == flag_written(words, "allow-send"@),
{
    reveal_strlit("account");
    reveal_strlit("confirm-send");
    reveal_strlit("allow-write");
    reveal_strlit("allow-send");
    assert("allow-write"@.len() == 11 && "allow-send"@.len() == 10);
    if parse_words(words) is Ok {
        let (command, o) = lemma_parsed(words);
        if command == CommandName::Mailboxes || command == CommandName::Check {
            lemma_single(command, words, o, "account"@);
        } else if command == CommandName::Send {
            lemma_flag(command, words, o, "confirm-send"@);
        } else if command == CommandName::Mcp {
            lemma_flag(command, words, o, "allow-write"@);
            lemma_flag(command, words, o, "allow-send"@);
        }
    }
}

} // verus!
