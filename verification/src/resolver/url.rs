//! Signed stream URLs: what they say of themselves, and how one is probed.

use vstd::prelude::*;

use super::{AudioFormat, ResolveSource, ResolvedStream};
use crate::text;

verus! {

broadcast use vstd::string::group_string_axioms;

/// Where URLs that are cut short stop serving bytes.
pub const CAP_BYTES: u64 = 1_048_576;

/// Whether a character separates the fields of a URL.
pub open spec fn separates(c: char) -> bool {
    c == '?' || c == '&'
}

/// How many characters stand before the first separator.
pub open spec fn field_len(s: Seq<char>) -> nat
    decreases s.len(),
{
    if s.len() == 0 || separates(s[0]) {
        0
    } else {
        1 + field_len(s.skip(1))
    }
}

proof fn lemma_field_len(s: Seq<char>)
    ensures
        field_len(s) <= s.len(),
    decreases s.len(),
{
    if s.len() > 0 && !separates(s[0]) {
        lemma_field_len(s.skip(1));
    }
}

/// The value of the first field of a URL that has this name.
pub open spec fn value_of(s: Seq<char>, key: Seq<char>) -> Option<Seq<char>>
    decreases s.len(),
{
    let n = field_len(s);
    match text::after_prefix(s.take(n as int), key.push('=')) {
        Some(value) => Some(value),
        None => if n >= s.len() {
            None
        } else {
            value_of(s.skip(n as int + 1), key)
        },
    }
}

/// The length of the field that starts at `from`.
fn field_end(chars: &[char], from: usize) -> (r: usize)
    requires
        from <= chars@.len(),
    ensures
        from <= r <= chars@.len(),
        r == from + field_len(chars@.skip(from as int)),
{
    let mut i: usize = from;
    while i < chars.len() && chars[i] != '?' && chars[i] != '&'
        invariant
            from <= i <= chars@.len(),
            field_len(chars@.skip(from as int)) == (i - from) + field_len(chars@.skip(i as int)),
        decreases chars.len() - i,
    {
        proof {
            assert(chars@.skip(i as int)[0] == chars@[i as int]);
            assert(chars@.skip(i as int).skip(1) =~= chars@.skip(i + 1));
        }
        i += 1;
    }
    proof {
        if i < chars@.len() {
            assert(chars@.skip(i as int)[0] == chars@[i as int]);
        }
    }
    i
}

/// The value of the first field of a URL that has this name.
pub fn query_value(url: &str, key: &str) -> (r: Option<Vec<char>>)
    ensures
        match r {
            Some(value) => value_of(url@, key@) == Some(value@),
            None => value_of(url@, key@) is None,
        },
{
    let chars = text::to_chars(url);
    let mut name = text::to_chars(key);
    name.push('=');
    let mut start: usize = 0;
    proof {
        assert(chars@.skip(0) =~= chars@);
    }
    loop
        invariant
            start <= chars@.len(),
            chars@ == url@,
            name@ == key@.push('='),
            value_of(url@, key@) == value_of(chars@.skip(start as int), key@),
        decreases chars.len() - start,
    {
        let end: usize = field_end(&chars, start);
        let field = text::part(&chars, start, end);
        proof {
            let rest = chars@.skip(start as int);
            assert(field@ =~= rest.take(field_len(rest) as int));
        }
        if let Some(value) = text::strip_prefix(&field, &name) {
            return Some(value);
        }
        if end == chars.len() {
            return None;
        }
        proof {
            let rest = chars@.skip(start as int);
            assert(rest.skip(field_len(rest) as int + 1) =~= chars@.skip(end + 1));
        }
        start = end + 1;
    }
}

/// The number in the field of a URL that has this name.
pub open spec fn number_in(url: Seq<char>, key: Seq<char>) -> Option<u64> {
    match value_of(url, key) {
        Some(value) => text::number_of(value),
        None => None,
    }
}

fn number_field(url: &str, key: &str) -> (r: Option<u64>)
    ensures
        r == number_in(url@, key@),
{
    match query_value(url, key) {
        Some(value) => text::number(&value),
        None => None,
    }
}

/// File size recorded in a signed URL.
pub fn content_length(url: &str) -> (r: Option<u64>)
    ensures
        r == number_in(url@, "clen"@),
{
    number_field(url, "clen")
}

/// Expiration recorded in a signed URL, in seconds since 1970.
pub fn parse_expiry(url: &str) -> (r: Option<u64>)
    ensures
        r == number_in(url@, "expire"@),
{
    number_field(url, "expire")
}

/// The format number recorded in a URL.
pub open spec fn itag_in(url: Seq<char>) -> Option<u32> {
    match number_in(url, "itag"@) {
        Some(n) => if n <= u32::MAX {
            Some(n as u32)
        } else {
            None
        },
        None => None,
    }
}

/// The format number recorded in a URL.
pub fn itag(url: &str) -> (r: Option<u32>)
    ensures
        r == itag_in(url@),
{
    match number_field(url, "itag") {
        Some(n) => {
            if n <= u32::MAX as u64 {
                Some(n as u32)
            } else {
                None
            }
        },
        None => None,
    }
}

/// A stream, with what its URL says of it.
pub open spec fn stream_of(
    url: Seq<char>,
    itag: Option<u32>,
    source: ResolveSource,
) -> ResolvedStream<Seq<char>> {
    ResolvedStream {
        url,
        expires_at: number_in(url, "expire"@),
        content_length: number_in(url, "clen"@),
        format: AudioFormat { itag },
        source,
    }
}

/// A stream, with what its URL says of it.
pub fn stream(url: String, itag: Option<u32>, source: ResolveSource) -> (r: ResolvedStream)
    ensures
        r@ == stream_of(url@, itag, source),
{
    let expires_at = parse_expiry(url.as_str());
    let content_length = content_length(url.as_str());
    ResolvedStream { url, expires_at, content_length, format: AudioFormat { itag }, source }
}

/// How a URL is asked whether it serves its complete file.
#[derive(Debug, Clone, Copy, PartialEq, Eq, Structural)]
pub struct Probe {
    /// The byte to ask for: the last one, or the one after the cap.
    pub at: u64,
    /// Whether the size of the file is unknown.
    pub unknown_length: bool,
}

/// The probe of a URL.
pub open spec fn probe_of(url: Seq<char>) -> Probe {
    match number_in(url, "clen"@) {
        Some(size) => Probe {
            at: if size == 0 {
                0
            } else {
                (size - 1) as u64
            },
            unknown_length: false,
        },
        None => Probe { at: CAP_BYTES, unknown_length: true },
    }
}

/// How a URL is to be asked whether it serves its complete file.
pub fn probe(url: &str) -> (r: Probe)
    ensures
        r == probe_of(url@),
{
    match content_length(url) {
        Some(size) => Probe { at: size.saturating_sub(1), unknown_length: false },
        None => Probe { at: CAP_BYTES, unknown_length: true },
    }
}

/// The range header of a probe: one byte.
pub fn probe_range(at: u64) -> (r: String)
    ensures
        r@ == "bytes="@ + text::decimal_of(at as nat) + "-"@ + text::decimal_of(at as nat),
{
    let byte = text::decimal(at);
    let mut r = text::join3("bytes=", byte.as_str(), "-");
    r.append(byte.as_str());
    r
}

/// Whether an HTTP status answers a probe well: a success, or, of a file whose
/// size is unknown, that it has no such byte.
pub open spec fn served(status: u16, unknown_length: bool) -> bool {
    200 <= status < 300 || unknown_length && status == 416
}

/// Whether an HTTP status answers a probe well.
pub fn served_probe(status: u16, unknown_length: bool) -> (r: bool)
    ensures
        r == served(status, unknown_length),
{
    (200 <= status && status < 300) || (unknown_length && status == 416)
}

/// Whether the answers to a probe prove that a URL serves its complete file.
/// The first answer decides, and it is asked twice at most; `None` is a request
/// that brought no answer.
pub open spec fn whole_file(answers: Seq<Option<u16>>, unknown_length: bool) -> bool {
    if answers.len() > 0 && answers[0] is Some {
        served(answers[0]->0, unknown_length)
    } else if answers.len() > 1 && answers[1] is Some {
        served(answers[1]->0, unknown_length)
    } else {
        false
    }
}

/// What to do next about a probe that has been answered so far.
#[derive(Debug, Clone, Copy, PartialEq, Eq, Structural)]
pub enum ProbeStep {
    /// Send it, again if it has been sent.
    Send,
    /// It is settled whether the file is served whole.
    Settled(bool),
}

/// The next step of a probe, from the answers so far. It is settled by the
/// first answer, and by two requests without one.
pub fn probe_step(answers: &Vec<Option<u16>>, unknown_length: bool) -> (r: ProbeStep)
    ensures
        match r {
            ProbeStep::Send => answers@.len() < 2 && forall|i: int|
                0 <= i < answers@.len() ==> (#[trigger] answers@[i]) is None,
            ProbeStep::Settled(whole) => (answers@.len() >= 2 || answers@.len() > 0
                && answers@[0] is Some) && whole == whole_file(answers@, unknown_length),
        },
{
    if answers.len() > 0 {
        if let Some(status) = answers[0] {
            return ProbeStep::Settled(served_probe(status, unknown_length));
        }
    }
    if answers.len() > 1 {
        if let Some(status) = answers[1] {
            return ProbeStep::Settled(served_probe(status, unknown_length));
        }
        return ProbeStep::Settled(false);
    }
    ProbeStep::Send
}

/// A file whose size is known is probed at its last byte, so a URL that is cut
/// short anywhere fails.
pub proof fn last_byte_is_probed(url: Seq<char>, size: u64)
    requires
        number_in(url, "clen"@) == Some(size),
        size > 0,
    ensures
        probe_of(url).at == size - 1,
        !served(416, probe_of(url).unknown_length),
{
}

/// One format that the player API offers.
#[derive(Debug)]
pub struct Format<S = String> {
    pub itag: u32,
    /// Absent where the URL is ciphered.
    pub url: Option<S>,
    pub mime_type: Option<S>,
}

impl View for Format {
    type V = Format<Seq<char>>;

    open spec fn view(&self) -> Format<Seq<char>> {
        Format {
            itag: self.itag,
            url: text::opt_view(self.url),
            mime_type: text::opt_view(self.mime_type),
        }
    }
}

/// Whether a format can be streamed and decoded.
pub open spec fn usable(format: Format<Seq<char>>) -> bool {
    format.url is Some && format.mime_type is Some && text::occurs_at(
        format.mime_type->0,
        "audio/mp4"@,
        0,
    )
}

/// Where the first usable format of a number stands; of any number, where
/// `itag` is `None`.
pub open spec fn usable_at(formats: Seq<Format<Seq<char>>>, itag: Option<u32>) -> Option<int>
    decreases formats.len(),
{
    if formats.len() == 0 {
        None
    } else {
        match usable_at(formats.drop_last(), itag) {
            Some(i) => Some(i),
            None => if usable(formats.last()) && (itag is None || itag->0 == formats.last().itag) {
                Some(formats.len() - 1)
            } else {
                None
            },
        }
    }
}

/// The format to play: the best of the three known ones that is usable, and
/// otherwise the first that is.
pub open spec fn picked_at(formats: Seq<Format<Seq<char>>>) -> Option<int> {
    match usable_at(formats, Some(141)) {
        Some(i) => Some(i),
        None => match usable_at(formats, Some(140)) {
            Some(i) => Some(i),
            None => match usable_at(formats, Some(139)) {
                Some(i) => Some(i),
                None => usable_at(formats, None),
            },
        },
    }
}

/// The URL and the number of the format to play.
pub open spec fn picked(formats: Seq<Format<Seq<char>>>) -> Option<(Seq<char>, u32)> {
    match picked_at(formats) {
        Some(i) => Some((formats[i].url->0, formats[i].itag)),
        None => None,
    }
}

proof fn lemma_usable_at_stays(formats: Seq<Format<Seq<char>>>, itag: Option<u32>, n: int)
    requires
        0 <= n <= formats.len(),
        usable_at(formats.take(n), itag) is Some,
    ensures
        usable_at(formats, itag) == usable_at(formats.take(n), itag),
    decreases formats.len() - n,
{
    if n < formats.len() {
        assert(formats.take(n + 1).drop_last() =~= formats.take(n));
        lemma_usable_at_stays(formats, itag, n + 1);
    } else {
        assert(formats.take(n) =~= formats);
    }
}

/// A format that is found is there, usable, and of the number asked for.
proof fn lemma_usable_at(formats: Seq<Format<Seq<char>>>, itag: Option<u32>)
    requires
        usable_at(formats, itag) is Some,
    ensures
        0 <= usable_at(formats, itag)->0 < formats.len(),
        usable(formats[usable_at(formats, itag)->0]),
        itag is Some ==> formats[usable_at(formats, itag)->0].itag == itag->0,
    decreases formats.len(),
{
    if usable_at(formats.drop_last(), itag) is Some {
        lemma_usable_at(formats.drop_last(), itag);
    }
}

fn is_usable(format: &Format) -> (r: bool)
    ensures
        r == usable(format@),
{
    if format.url.is_none() {
        return false;
    }
    match &format.mime_type {
        Some(mime) => {
            let chars = text::to_chars(mime.as_str());
            let wanted = text::to_chars("audio/mp4");
            text::is_at(&chars, &wanted, 0)
        },
        None => false,
    }
}

fn find_usable(formats: &Vec<Format>, itag: Option<u32>) -> (r: Option<usize>)
    ensures
        match r {
            Some(i) => usable_at(crate::source::views(formats@), itag) == Some(i as int) && i
                < formats@.len() && usable(formats@[i as int]@),
            None => usable_at(crate::source::views(formats@), itag) is None,
        },
{
    let ghost all = crate::source::views(formats@);
    let mut i: usize = 0;
    while i < formats.len()
        invariant
            i <= formats@.len(),
            all == crate::source::views(formats@),
            usable_at(all.take(i as int), itag) is None,
        decreases formats.len() - i,
    {
        proof {
            let next = all.take(i + 1);
            assert(next.drop_last() =~= all.take(i as int));
            assert(next.last() == formats@[i as int]@);
        }
        let wanted = match itag {
            Some(n) => formats[i].itag == n,
            None => true,
        };
        if wanted && is_usable(&formats[i]) {
            proof {
                lemma_usable_at_stays(all, itag, i + 1);
            }
            return Some(i);
        }
        i += 1;
    }
    proof {
        assert(all.take(all.len() as int) =~= all);
    }
    None
}

/// The URL and the number of the format to play.
pub fn pick_audio(formats: &Vec<Format>) -> (r: Option<(&str, u32)>)
    ensures
        match r {
            Some((url, itag)) => picked(crate::source::views(formats@)) == Some((url@, itag)),
            None => picked(crate::source::views(formats@)) is None,
        },
{
    let best = match find_usable(formats, Some(141)) {
        Some(i) => Some(i),
        None => match find_usable(formats, Some(140)) {
            Some(i) => Some(i),
            None => match find_usable(formats, Some(139)) {
                Some(i) => Some(i),
                None => find_usable(formats, None),
            },
        },
    };
    match best {
        Some(i) => match &formats[i].url {
            Some(url) => Some((url.as_str(), formats[i].itag)),
            None => None,
        },
        None => None,
    }
}

/// Whatever is picked has a URL and can be decoded, and something is picked
/// wherever anything could be.
pub proof fn picked_format_is_playable(formats: Seq<Format<Seq<char>>>, i: int)
    ensures
        picked(formats) is Some ==> {
            let at = picked_at(formats)->0;
            0 <= at < formats.len() && usable(formats[at])
        },
        0 <= i < formats.len() && usable(formats[i]) ==> picked(formats) is Some,
{
    if picked(formats) is Some {
        if usable_at(formats, Some(141)) is Some {
            lemma_usable_at(formats, Some(141));
        } else if usable_at(formats, Some(140)) is Some {
            lemma_usable_at(formats, Some(140));
        } else if usable_at(formats, Some(139)) is Some {
            lemma_usable_at(formats, Some(139));
        } else {
            lemma_usable_at(formats, None);
        }
    }
    if 0 <= i < formats.len() && usable(formats[i]) {
        lemma_usable_is_found(formats, i);
    }
}

proof fn lemma_usable_is_found(formats: Seq<Format<Seq<char>>>, i: int)
    requires
        0 <= i < formats.len(),
        usable(formats[i]),
    ensures
        usable_at(formats, None) is Some,
    decreases formats.len(),
{
    if i < formats.len() - 1 {
        assert(formats.drop_last()[i] == formats[i]);
        lemma_usable_is_found(formats.drop_last(), i);
    }
}

/// Whether a text holds no separator.
pub open spec fn one_field(s: Seq<char>) -> bool {
    forall|i: int| 0 <= i < s.len() ==> (#[trigger] s[i]) != '?' && s[i] != '&'
}

proof fn lemma_one_field(field: Seq<char>, rest: Seq<char>)
    requires
        one_field(field),
        rest.len() > 0 ==> rest[0] == '?' || rest[0] == '&',
    ensures
        field_len(field + rest) == field.len(),
    decreases field.len(),
{
    let s = field + rest;
    if field.len() > 0 {
        assert(s[0] == field[0]);
        let less = field.skip(1);
        assert forall|i: int| 0 <= i < less.len() implies (#[trigger] less[i]) != '?' && less[i]
            != '&' by {
            assert(less[i] == field[i + 1]);
        }
        assert(s.skip(1) =~= less + rest);
        lemma_one_field(less, rest);
    } else {
        assert(s =~= rest);
    }
}

/// A field of a URL is read by its name: its value is what follows the name and
/// the sign, up to the next separator or the end.
pub proof fn field_is_read_by_its_name(key: Seq<char>, value: Seq<char>, rest: Seq<char>)
    requires
        one_field(key),
        one_field(value),
        rest.len() > 0 ==> rest[0] == '?' || rest[0] == '&',
    ensures
        value_of(key.push('=') + value + rest, key) == Some(value),
{
    let field = key.push('=') + value;
    let s = field + rest;
    assert forall|i: int| 0 <= i < field.len() implies (#[trigger] field[i]) != '?' && field[i]
        != '&' by {
        if i < key.len() {
            assert(field[i] == key[i]);
        } else if i > key.len() {
            assert(field[i] == value[i - key.len() - 1]);
        }
    }
    lemma_one_field(field, rest);
    assert(s.take(field.len() as int) =~= field);
    assert(field.subrange(0, key.push('=').len() as int) =~= key.push('='));
    assert(field.skip(key.push('=').len() as int) =~= value);
}

/// A field of another name is passed over, and so is what stands in front of the
/// first separator.
pub proof fn other_fields_are_passed_over(
    key: Seq<char>,
    other: Seq<char>,
    separator: char,
    rest: Seq<char>,
)
    requires
        one_field(other),
        separator == '?' || separator == '&',
        other.len() <= key.len() || other.take(key.len() as int + 1) != key.push('='),
    ensures
        value_of(other.push(separator) + rest, key) == value_of(rest, key),
        value_of(other, key) is None,
{
    let tail = seq![separator] + rest;
    let s = other.push(separator) + rest;
    assert(s =~= other + tail);
    lemma_one_field(other, tail);
    assert(s.take(other.len() as int) =~= other);
    assert(s.skip(other.len() as int + 1) =~= rest);
    assert(!text::occurs_at(other, key.push('='), 0)) by {
        if text::occurs_at(other, key.push('='), 0) {
            assert(other.subrange(0, key.len() as int + 1) =~= other.take(key.len() as int + 1));
        }
    }
    let none = Seq::<char>::empty();
    lemma_one_field(other, none);
    assert(other + none =~= other);
    assert(other.take(other.len() as int) =~= other);
}

/// A size that a URL states in decimal is its size, and its last byte is what is
/// probed; an expiry that it states is when it expires.
#[verifier::spinoff_prover]
pub proof fn stated_numbers_are_read(base: Seq<char>, n: u64, rest: Seq<char>)
    requires
        one_field(base),
        !base.contains('='),
        rest.len() > 0 ==> rest[0] == '&',
    ensures
        ({
            let url = base.push('?') + ("clen="@ + text::decimal_of(n as nat) + rest);
            &&& number_in(url, "clen"@) == Some(n)
            &&& !probe_of(url).unknown_length
            &&& n > 0 ==> probe_of(url).at == n - 1
        }),
        ({
            let url = base.push('?') + ("expire="@ + text::decimal_of(n as nat) + rest);
            number_in(url, "expire"@) == Some(n)
        }),
        ({
            let url = base.push('?') + ("itag="@ + text::decimal_of(n as nat) + rest);
            n <= u32::MAX ==> itag_in(url) == Some(n as u32)
        }),
{
    reveal_strlit("clen");
    reveal_strlit("clen=");
    reveal_strlit("expire");
    reveal_strlit("expire=");
    reveal_strlit("itag");
    reveal_strlit("itag=");
    text::decimal_reads_back(n);
    let digits = text::decimal_of(n as nat);
    assert forall|i: int| 0 <= i < digits.len() implies (#[trigger] digits[i]) != '?' && digits[i]
        != '&' by {
        assert(text::is_digit(digits[i]));
    }
    assert("clen="@ =~= "clen"@.push('='));
    assert("expire="@ =~= "expire"@.push('='));
    assert("itag="@ =~= "itag"@.push('='));
    lemma_no_such_field(base, "clen"@);
    lemma_no_such_field(base, "expire"@);
    lemma_no_such_field(base, "itag"@);
    field_is_read_by_its_name("clen"@, digits, rest);
    other_fields_are_passed_over("clen"@, base, '?', "clen="@ + digits + rest);
    field_is_read_by_its_name("expire"@, digits, rest);
    other_fields_are_passed_over("expire"@, base, '?', "expire="@ + digits + rest);
    field_is_read_by_its_name("itag"@, digits, rest);
    other_fields_are_passed_over("itag"@, base, '?', "itag="@ + digits + rest);
}

proof fn lemma_no_such_field(base: Seq<char>, key: Seq<char>)
    requires
        !base.contains('='),
    ensures
        base.len() <= key.len() || base.take(key.len() as int + 1) != key.push('='),
{
    if base.len() > key.len() && base.take(key.len() as int + 1) == key.push('=') {
        assert(key.push('=')[key.len() as int] == '=');
        assert(base[key.len() as int] == '=');
    }
}

/// A probe is answered well by a success, and by nothing else but the news that a
/// file of unknown size has no such byte.
pub proof fn only_served_bytes_count(status: u16)
    ensures
        served(status, false) <==> 200 <= status <= 299,
        served(status, true) <==> 200 <= status <= 299 || status == 416,
{
}

/// The first answer settles a probe. One request without an answer is followed by
/// another, and two without one settle it against the URL.
pub proof fn first_answer_settles_the_probe(answers: Seq<Option<u16>>, unknown_length: bool)
    ensures
        answers.len() > 0 && answers[0] is Some ==> whole_file(answers, unknown_length) == served(
            answers[0]->0,
            unknown_length,
        ),
        answers.len() > 1 && answers[0] is None && answers[1] is Some ==> whole_file(
            answers,
            unknown_length,
        ) == served(answers[1]->0, unknown_length),
        (forall|i: int| 0 <= i < answers.len() ==> (#[trigger] answers[i]) is None)
            ==> !whole_file(answers, unknown_length),
{
}

proof fn lemma_number_is_found(formats: Seq<Format<Seq<char>>>, itag: Option<u32>, i: int)
    requires
        0 <= i < formats.len(),
        usable(formats[i]),
        itag is Some ==> formats[i].itag == itag->0,
    ensures
        usable_at(formats, itag) is Some,
        usable_at(formats, itag)->0 <= i,
    decreases formats.len(),
{
    if i < formats.len() - 1 {
        assert(formats.drop_last()[i] == formats[i]);
        lemma_number_is_found(formats.drop_last(), itag, i);
    } else if usable_at(formats.drop_last(), itag) is Some {
        lemma_usable_at(formats.drop_last(), itag);
    }
}

/// The best format wins: 141 where it can be played, then 140, then 139, and the
/// first that can be played where none of the three can. What is picked is that
/// format's own URL.
pub proof fn best_format_is_picked(formats: Seq<Format<Seq<char>>>, i: int)
    requires
        0 <= i < formats.len(),
        formats[i].url is Some,
        formats[i].mime_type is Some,
        text::occurs_at(formats[i].mime_type->0, "audio/mp4"@, 0),
    ensures
        ({
            let best = picked_at(formats)->0;
            &&& picked_at(formats) is Some
            &&& 0 <= best < formats.len()
            &&& picked(formats) == Some((formats[best].url->0, formats[best].itag))
            &&& formats[i].itag == 141 ==> formats[best].itag == 141
            &&& formats[i].itag == 140 ==> formats[best].itag == 141 || formats[best].itag == 140
            &&& formats[i].itag == 139 ==> formats[best].itag == 141 || formats[best].itag == 140
                || formats[best].itag == 139
            &&& formats[best].itag == formats[i].itag ==> best <= i
            &&& formats[best].itag < 139 || formats[best].itag > 141 ==> best <= i
        }),
{
    lemma_number_is_found(formats, Some(formats[i].itag), i);
    lemma_number_is_found(formats, None, i);
    lemma_usable_at(formats, None);
    if usable_at(formats, Some(141)) is Some {
        lemma_usable_at(formats, Some(141));
    }
    if usable_at(formats, Some(140)) is Some {
        lemma_usable_at(formats, Some(140));
    }
    if usable_at(formats, Some(139)) is Some {
        lemma_usable_at(formats, Some(139));
    }
}

} // verus!
