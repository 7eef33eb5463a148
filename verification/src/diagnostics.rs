//! What goes into the log: one line for each event, in a fixed shape, with no
//! credential in it.

use vstd::prelude::*;

use crate::source;
use crate::text;

verus! {

broadcast use vstd::string::group_string_axioms;

/// The log, and the one that it replaces when it is full.
pub const LOG_FILE: &'static str = "mtui.log";

pub const OLD_LOG_FILE: &'static str = "mtui.log.1";

/// How large the log may get before it is replaced.
pub const MAX_BYTES: u64 = 1_048_576;

/// What stands in place of a message that may hold a credential.
pub const OMITTED: &'static str = "[sensitive details omitted]";

/// How bad an event is.
#[derive(Debug, Clone, Copy, PartialEq, Eq, Structural)]
pub enum Level {
    Info,
    Warn,
    Error,
}

impl Level {
    /// How the log writes it.
    pub open spec fn word_of(self) -> Seq<char> {
        match self {
            Level::Info => "INFO"@,
            Level::Warn => "WARN"@,
            Level::Error => "ERROR"@,
        }
    }

    /// How the log writes it.
    pub fn word(self) -> (r: &'static str)
        ensures
            r@ == self.word_of(),
    {
        match self {
            Level::Info => "INFO",
            Level::Warn => "WARN",
            Level::Error => "ERROR",
        }
    }
}

/// Whether a character may stand in the name of a subsystem.
pub open spec fn label_char(c: char) -> bool {
    'a' <= c <= 'z' || 'A' <= c <= 'Z' || '0' <= c <= '9' || c == '-'
}

/// The characters of a text that may stand in the name of a subsystem.
pub open spec fn kept(s: Seq<char>) -> Seq<char>
    decreases s.len(),
{
    if s.len() == 0 {
        s
    } else if label_char(s.last()) {
        kept(s.drop_last()).push(s.last())
    } else {
        kept(s.drop_last())
    }
}

/// The name of a subsystem as the log writes it: sixteen characters at most,
/// and none that could break the shape of a line.
pub open spec fn label_of(s: Seq<char>) -> Seq<char> {
    if kept(s).len() > 16 {
        kept(s).take(16)
    } else {
        kept(s)
    }
}

/// The name of a subsystem as the log writes it.
pub fn clean_label(label: &str) -> (r: String)
    ensures
        r@ == label_of(label@),
{
    let chars = text::to_chars(label);
    let mut fit: Vec<char> = Vec::new();
    let mut i: usize = 0;
    while i < chars.len()
        invariant
            i <= chars@.len(),
            fit@ == kept(chars@.take(i as int)),
        decreases chars.len() - i,
    {
        let c = chars[i];
        proof {
            assert(chars@.take(i + 1).drop_last() =~= chars@.take(i as int));
        }
        if ('a' <= c && c <= 'z') || ('A' <= c && c <= 'Z') || ('0' <= c && c <= '9') || c == '-' {
            fit.push(c);
        }
        i += 1;
    }
    proof {
        assert(chars@.take(chars@.len() as int) =~= chars@);
    }
    if fit.len() > 16 {
        let cut = text::part(&fit, 0, 16);
        proof {
            assert(cut@ =~= fit@.take(16));
        }
        return text::from_chars(&cut);
    }
    text::from_chars(&fit)
}

/// Whether a message may hold a credential.
pub open spec fn sensitive(message: Seq<char>) -> bool {
    let lower = text::lower_of(message);
    ||| text::occurs(lower, "authorization:"@)
    ||| text::occurs(lower, "authorization="@)
    ||| text::occurs(lower, "bearer "@)
    ||| text::occurs(lower, "basic "@)
    ||| text::occurs(lower, "cookie:"@)
    ||| text::occurs(lower, "cookie="@)
    ||| text::occurs(lower, "password"@)
    ||| text::occurs(lower, "api_key"@)
    ||| text::occurs(lower, "api-key"@)
    ||| text::occurs(lower, "token="@)
    ||| text::occurs(lower, "secret="@)
    ||| text::occurs(lower, "set-cookie"@)
    ||| text::occurs(lower, "access_token"@)
    ||| text::occurs(lower, "refresh_token"@)
    ||| text::occurs(lower, "client_secret"@)
    ||| text::occurs(lower, "sapisid"@)
}

fn holds(lower: &Vec<char>, needle: &str) -> (r: bool)
    ensures
        r == text::occurs(lower@, needle@),
{
    let wanted = text::to_chars(needle);
    text::contains(lower, &wanted)
}

fn is_sensitive(chars: &[char]) -> (r: bool)
    ensures
        r == sensitive(chars@),
{
    let lower = text::lower(chars);
    holds(&lower, "authorization:") || holds(&lower, "authorization=") || holds(&lower, "bearer ")
        || holds(&lower, "basic ") || holds(&lower, "cookie:") || holds(&lower, "cookie=") || holds(
        &lower,
        "password",
    ) || holds(&lower, "api_key") || holds(&lower, "api-key") || holds(&lower, "token=") || holds(
        &lower,
        "secret=",
    ) || holds(&lower, "set-cookie") || holds(&lower, "access_token") || holds(
        &lower,
        "refresh_token",
    ) || holds(&lower, "client_secret") || holds(&lower, "sapisid")
}

/// A word as the log writes it: an address is named and not shown.
pub open spec fn shown_word(word: Seq<char>) -> Seq<char> {
    if text::occurs(word, "://"@) {
        "[url]"@
    } else {
        word
    }
}

/// The words of a message as the log writes them.
pub open spec fn shown_words(message: Seq<char>) -> Seq<Seq<char>> {
    Seq::new(
        text::words_of(message).len(),
        |i: int| shown_word(text::words_of(message)[i]),
    )
}

/// A message as the log writes it: on one line, without addresses, and not at
/// all where it may hold a credential.
pub open spec fn safe_of(message: Seq<char>) -> Seq<char> {
    if sensitive(message) {
        OMITTED@
    } else {
        text::joined(shown_words(message), " "@)
    }
}

/// A message as the log writes it.
pub fn safe_message(message: &str) -> (r: String)
    ensures
        r@ == safe_of(message@),
{
    let chars = text::to_chars(message);
    if is_sensitive(&chars) {
        return OMITTED.to_owned();
    }
    let words = text::words(&chars);
    let scheme = text::to_chars("://");
    let mut shown: Vec<String> = Vec::new();
    let mut i: usize = 0;
    while i < words.len()
        invariant
            i <= words@.len() == text::words_of(message@).len(),
            scheme@ == "://"@,
            forall|k: int|
                0 <= k < words@.len() ==> (#[trigger] words@[k])@ == text::words_of(message@)[k],
            source::views(shown@) =~= shown_words(message@).take(i as int),
        decreases words.len() - i,
    {
        proof {
            assert(words@[i as int]@ == text::words_of(message@)[i as int]);
        }
        let ghost before = shown@;
        let word = if text::contains(&words[i], &scheme) {
            "[url]".to_owned()
        } else {
            text::from_chars(&words[i])
        };
        shown.push(word);
        proof {
            assert(word@ == shown_words(message@)[i as int]);
            assert(source::views(shown@) =~= source::views(before).push(word@));
        }
        i += 1;
    }
    proof {
        assert(source::views(shown@) =~= shown_words(message@));
    }
    text::join(&shown, " ")
}

/// A line of the log, written at a time in milliseconds since 1970.
pub open spec fn line_of(
    at: u64,
    level: Level,
    subsystem: Seq<char>,
    message: Seq<char>,
) -> Seq<char> {
    text::decimal_of(at as nat) + " ["@ + level.word_of() + "] ["@ + label_of(subsystem) + "] "@
        + safe_of(message) + "\n"@
}

/// A line of the log.
pub fn line(at: u64, level: Level, subsystem: &str, message: &str) -> (r: String)
    ensures
        r@ == line_of(at, level, subsystem@, message@),
{
    let mut r = text::decimal(at);
    r.append(" [");
    r.append(level.word());
    r.append("] [");
    r.append(clean_label(subsystem).as_str());
    r.append("] ");
    r.append(safe_message(message).as_str());
    r.append("\n");
    r
}

/// Whether a log of this size is full, and has to be replaced.
pub fn is_full(bytes: u64) -> (r: bool)
    ensures
        r == (bytes >= MAX_BYTES),
{
    bytes >= MAX_BYTES
}

proof fn lemma_kept(s: Seq<char>, i: int)
    requires
        0 <= i < kept(s).len(),
    ensures
        label_char(kept(s)[i]),
    decreases s.len(),
{
    if s.len() > 0 {
        if i < kept(s.drop_last()).len() {
            lemma_kept(s.drop_last(), i);
        }
    }
}

/// A label is short, and holds nothing but letters, digits and dashes: it
/// cannot close its bracket or end its line.
pub proof fn labels_keep_the_shape(s: Seq<char>, i: int)
    requires
        0 <= i < label_of(s).len(),
    ensures
        label_of(s).len() <= 16,
        label_char(label_of(s)[i]),
        label_of(s)[i] != ']',
        label_of(s)[i] != '\n',
{
    lemma_kept(s, i);
}

proof fn lemma_word_chars(s: Seq<char>, w: int, i: int)
    requires
        0 <= w < text::words_of(s).len(),
        0 <= i < text::words_of(s)[w].len(),
    ensures
        !text::white_space(text::words_of(s)[w][i]),
    decreases s.len(),
{
    if s.len() > 0 {
        let before = text::words_of(s.drop_last());
        if text::white_space(s.last()) {
            lemma_word_chars(s.drop_last(), w, i);
        } else if s.len() == 1 || text::white_space(s[s.len() - 2]) {
            if w < before.len() {
                lemma_word_chars(s.drop_last(), w, i);
            }
        } else {
            text::lemma_words(s.drop_last());
            if w < before.len() - 1 {
                lemma_word_chars(s.drop_last(), w, i);
            } else if i < before.last().len() {
                lemma_word_chars(s.drop_last(), before.len() - 1, i);
            }
        }
    }
}

proof fn lemma_joined_chars(parts: Seq<Seq<char>>, i: int)
    requires
        forall|w: int, k: int|
            0 <= w < parts.len() && 0 <= k < parts[w].len() ==> #[trigger] parts[w][k] != '\n',
        0 <= i < text::joined(parts, " "@).len(),
    ensures
        text::joined(parts, " "@)[i] != '\n',
    decreases parts.len(),
{
    reveal_strlit(" ");
    if parts.len() > 1 {
        let init = parts.drop_last();
        let head = text::joined(init, " "@);
        if i < head.len() {
            assert forall|w: int, k: int| 0 <= w < init.len() && 0 <= k < init[w].len() implies
                #[trigger] init[w][k] != '\n' by {
                assert(init[w] == parts[w]);
                assert(parts[w][k] != '\n');
            }
            lemma_joined_chars(init, i);
        } else if i > head.len() {
            let k = i - head.len() - 1;
            assert(text::joined(parts, " "@)[i] == parts.last()[k]);
            assert(parts[parts.len() - 1][k] != '\n');
        }
    } else if parts.len() == 1 {
        assert(parts[0][i] != '\n');
    }
}

/// A message takes one line, whatever is in it.
pub proof fn messages_take_one_line(message: Seq<char>, i: int)
    requires
        0 <= i < safe_of(message).len(),
    ensures
        safe_of(message)[i] != '\n',
{
    reveal_strlit("[sensitive details omitted]");
    reveal_strlit("[url]");
    if !sensitive(message) {
        let parts = shown_words(message);
        assert forall|w: int, k: int| 0 <= w < parts.len() && 0 <= k < parts[w].len() implies
            #[trigger] parts[w][k] != '\n' by {
            let word = text::words_of(message)[w];
            if !text::occurs(word, "://"@) {
                lemma_word_chars(message, w, k);
            }
        }
        lemma_joined_chars(parts, i);
    }
}

/// A message that may hold a credential leaves nothing of itself.
pub proof fn credentials_are_not_written(a: Seq<char>, b: Seq<char>)
    requires
        sensitive(a),
        sensitive(b),
    ensures
        safe_of(a) == safe_of(b),
{
}

/// The names that credentials go by.
pub open spec fn names_of_credentials() -> Seq<Seq<char>> {
    seq![
        "authorization:"@,
        "authorization="@,
        "bearer "@,
        "basic "@,
        "cookie:"@,
        "cookie="@,
        "set-cookie"@,
        "password"@,
        "api_key"@,
        "api-key"@,
        "token="@,
        "secret="@,
        "access_token"@,
        "refresh_token"@,
        "client_secret"@,
        "sapisid"@,
    ]
}

/// A message that names a credential anywhere, in small letters or capitals, is
/// replaced whole.
pub proof fn named_credentials_are_omitted(message: Seq<char>, i: int)
    requires
        0 <= i < names_of_credentials().len(),
        text::occurs(text::lower_of(message), names_of_credentials()[i]),
    ensures
        safe_of(message) == "[sensitive details omitted]"@,
{
}

/// Of any other message every word is written, in order, and an address is named
/// in its place.
pub proof fn other_words_are_written(front: Seq<char>, word: Seq<char>)
    requires
        word.len() > 0,
        forall|i: int| 0 <= i < word.len() ==> !text::white_space(#[trigger] word[i]),
    ensures
        shown_words(front.push(' ') + word) == shown_words(front).push(
            if text::occurs(word, "://"@) {
                "[url]"@
            } else {
                word
            },
        ),
        !sensitive(front) ==> safe_of(front) == text::joined(shown_words(front), " "@),
{
    text::space_ends_a_word(front, ' ', word);
    let all = front.push(' ') + word;
    assert(shown_words(all) =~= shown_words(front).push(shown_word(word)));
}

/// The name of a subsystem that may stand in a line stands there as it is.
pub proof fn plain_labels_are_kept(s: Seq<char>)
    requires
        s.len() <= 16,
        forall|i: int| 0 <= i < s.len() ==> label_char(#[trigger] s[i]),
    ensures
        label_of(s) == s,
{
    lemma_all_kept(s);
}

proof fn lemma_all_kept(s: Seq<char>)
    requires
        forall|i: int| 0 <= i < s.len() ==> label_char(#[trigger] s[i]),
    ensures
        kept(s) == s,
    decreases s.len(),
{
    if s.len() > 0 {
        lemma_all_kept(s.drop_last());
        assert(label_char(s[s.len() - 1]));
        assert(s.drop_last().push(s.last()) =~= s);
    }
}

/// A line of the log says when, how bad, where and what, in this order.
pub proof fn lines_say_when_and_what(
    at: u64,
    level: Level,
    subsystem: Seq<char>,
    message: Seq<char>,
)
    ensures
        ({
            let line = line_of(at, level, subsystem, message);
            let when = text::decimal_of(at as nat);
            let word = match level {
                Level::Info => "INFO"@,
                Level::Warn => "WARN"@,
                Level::Error => "ERROR"@,
            };
            line == when + " ["@ + word + "] ["@ + label_of(subsystem) + "] "@ + safe_of(message)
                + "\n"@
        }),
{
}

} // verus!
