//! Text as sequences of characters.
//!
//! A `String` is awkward to walk, so the functions here move between strings
//! and vectors of characters, and state what each operation means on the
//! sequence of characters that a string holds.

use vstd::prelude::*;

verus! {

broadcast use vstd::string::group_string_axioms;

/// `String::push` of the standard library: it adds one character at the end
/// and changes nothing before it.
pub assume_specification[ String::push ](s: &mut String, c: char)
    ensures
        final(s)@ == old(s)@.push(c),
;

/// The characters with the Unicode property `White_Space`.
pub open spec fn white_space(c: char) -> bool {
    ||| '\u{9}' <= c <= '\u{d}'
    ||| c == ' '
    ||| c == '\u{85}'
    ||| c == '\u{a0}'
    ||| c == '\u{1680}'
    ||| '\u{2000}' <= c <= '\u{200a}'
    ||| c == '\u{2028}'
    ||| c == '\u{2029}'
    ||| c == '\u{202f}'
    ||| c == '\u{205f}'
    ||| c == '\u{3000}'
}

/// Whether a character is white space.
pub fn is_white_space(c: char) -> (r: bool)
    ensures
        r == white_space(c),
{
    ('\u{9}' <= c && c <= '\u{d}') || c == ' ' || c == '\u{85}' || c == '\u{a0}' || c == '\u{1680}'
        || ('\u{2000}' <= c && c <= '\u{200a}') || c == '\u{2028}' || c == '\u{2029}'
        || c == '\u{202f}' || c == '\u{205f}' || c == '\u{3000}'
}

/// What an optional string holds.
pub open spec fn opt_view(s: Option<String>) -> Option<Seq<char>> {
    match s {
        Some(s) => Some(s@),
        None => None,
    }
}

/// Whether an optional string holds the given characters.
pub open spec fn opt_is(s: Option<String>, v: Option<Seq<char>>) -> bool {
    opt_view(s) == v
}

/// A copy of an optional string.
pub fn clone_opt(s: &Option<String>) -> (r: Option<String>)
    ensures
        r == *s,
{
    match s {
        Some(s) => Some(s.clone()),
        None => None,
    }
}

/// The characters of a string, in order.
pub fn to_chars(s: &str) -> (r: Vec<char>)
    ensures
        r@ == s@,
{
    let mut r: Vec<char> = Vec::new();
    for c in it: s.chars()
        invariant
            r@ == it.seq().take(it.index()),
            it.seq() == s@,
    {
        r.push(c);
    }
    proof {
        assert(s@.take(s@.len() as int) == s@);
    }
    r
}

/// The string that holds the given characters.
pub fn from_chars(chars: &[char]) -> (r: String)
    ensures
        r@ == chars@,
{
    let mut r = String::new();
    let mut i: usize = 0;
    while i < chars.len()
        invariant
            i <= chars@.len(),
            r@ == chars@.take(i as int),
        decreases chars.len() - i,
    {
        r.push(chars[i]);
        i += 1;
        proof {
            assert(chars@.take(i as int) == chars@.take(i - 1).push(chars@[i - 1]));
        }
    }
    proof {
        assert(chars@.take(chars@.len() as int) == chars@);
    }
    r
}

/// Whether two strings hold the same characters.
pub fn same(a: &str, b: &str) -> (r: bool)
    ensures
        r == (a@ == b@),
{
    let x = to_chars(a);
    let y = to_chars(b);
    same_chars(&x, &y)
}

/// Whether two runs of characters are equal.
pub fn same_chars(x: &[char], y: &[char]) -> (r: bool)
    ensures
        r == (x@ == y@),
{
    if x.len() != y.len() {
        return false;
    }
    let mut i: usize = 0;
    while i < x.len()
        invariant
            i <= x@.len(),
            x@.len() == y@.len(),
            forall|k: int| 0 <= k < i ==> x@[k] == y@[k],
        decreases x.len() - i,
    {
        if x[i] != y[i] {
            return false;
        }
        i += 1;
    }
    proof {
        assert(x@ =~= y@);
    }
    true
}

/// Two texts, one after the other.
pub fn join2(a: &str, b: &str) -> (r: String)
    ensures
        r@ == a@ + b@,
{
    let mut r = a.to_owned();
    r.append(b);
    r
}

/// Three texts, one after the other.
pub fn join3(a: &str, b: &str, c: &str) -> (r: String)
    ensures
        r@ == a@ + b@ + c@,
{
    let mut r = a.to_owned();
    r.append(b);
    r.append(c);
    r
}

/// Whether an optional string holds this text.
pub fn opt_same(s: &Option<String>, b: &str) -> (r: bool)
    ensures
        r == (opt_view(*s) == Some(b@)),
{
    match s {
        Some(a) => same(a.as_str(), b),
        None => false,
    }
}

/// The character of one decimal digit.
pub open spec fn digit_char(d: nat) -> char {
    (48 + d) as char
}

/// A number in decimal, without leading zeros.
pub open spec fn decimal_of(n: nat) -> Seq<char>
    decreases n,
{
    if n < 10 {
        seq![digit_char(n)]
    } else {
        decimal_of(n / 10).push(digit_char(n % 10))
    }
}

/// Writes a number in decimal.
pub fn decimal(n: u64) -> (r: String)
    ensures
        r@ == decimal_of(n as nat),
    decreases n,
{
    let last: u8 = (n % 10) as u8;
    let c: char = (48u8 + last) as char;
    if n < 10 {
        let mut r = String::new();
        r.push(c);
        proof {
            assert(r@ =~= seq![digit_char(n as nat)]);
        }
        r
    } else {
        let mut r = decimal(n / 10);
        r.push(c);
        r
    }
}

/// One more digit in front of a number below ten, so that it takes two places.
pub open spec fn two_digits_of(n: nat) -> Seq<char> {
    if n < 10 {
        seq!['0'] + decimal_of(n)
    } else {
        decimal_of(n)
    }
}

/// Writes a number in decimal with at least two digits.
pub fn two_digits(n: u64) -> (r: String)
    ensures
        r@ == two_digits_of(n as nat),
{
    let mut r = String::new();
    if n < 10 {
        r.push('0');
        r.append(decimal(n).as_str());
        proof {
            assert(r@ =~= seq!['0'] + decimal_of(n as nat));
        }
        r
    } else {
        decimal(n)
    }
}

/// Whether `needle` stands in `hay` at position `i`.
pub open spec fn occurs_at(hay: Seq<char>, needle: Seq<char>, i: int) -> bool {
    0 <= i && i + needle.len() <= hay.len() && hay.subrange(i, i + needle.len()) == needle
}

/// Whether `needle` stands anywhere in `hay`.
pub open spec fn occurs(hay: Seq<char>, needle: Seq<char>) -> bool {
    exists|i: int| occurs_at(hay, needle, i)
}

/// Whether `needle` stands in `hay` at `at`.
pub fn is_at(hay: &[char], needle: &[char], at: usize) -> (r: bool)
    ensures
        r == occurs_at(hay@, needle@, at as int),
{
    let len: usize = hay.len();
    if at > len || needle.len() > len - at {
        return false;
    }
    let mut k: usize = 0;
    while k < needle.len()
        invariant
            k <= needle@.len(),
            at + needle@.len() <= hay@.len() <= usize::MAX,
            forall|j: int| 0 <= j < k ==> hay@[at + j] == needle@[j],
        decreases needle.len() - k,
    {
        if hay[at + k] != needle[k] {
            proof {
                assert(hay@.subrange(at as int, at + needle@.len())[k as int] == hay@[at + k]);
            }
            return false;
        }
        k += 1;
    }
    proof {
        assert(hay@.subrange(at as int, at + needle@.len()) =~= needle@);
    }
    true
}

/// The first position at or after `from` where `needle` stands.
pub fn find(hay: &[char], needle: &[char], from: usize) -> (r: Option<usize>)
    ensures
        match r {
            Some(i) => from <= i && occurs_at(hay@, needle@, i as int) && forall|j: int|
                from <= j < i ==> !occurs_at(hay@, needle@, j),
            None => forall|j: int| from <= j ==> !occurs_at(hay@, needle@, j),
        },
{
    let mut i: usize = from;
    while i <= hay.len()
        invariant
            from <= i,
            forall|j: int| from <= j < i ==> !occurs_at(hay@, needle@, j),
        decreases hay.len() + 1 - i,
    {
        if is_at(hay, needle, i) {
            return Some(i);
        }
        if i == hay.len() {
            return None;
        }
        i += 1;
    }
    None
}

/// The first position at or after `from` where `needle` stands in `hay`.
pub open spec fn place_in(hay: Seq<char>, needle: Seq<char>, from: int) -> Option<int>
    decreases hay.len() + 1 - from,
{
    if from < 0 || from > hay.len() {
        None
    } else if occurs_at(hay, needle, from) {
        Some(from)
    } else {
        place_in(hay, needle, from + 1)
    }
}

proof fn lemma_place_in(hay: Seq<char>, needle: Seq<char>, from: int, at: int)
    requires
        0 <= from <= at,
        forall|j: int| from <= j < at ==> !occurs_at(hay, needle, j),
        occurs_at(hay, needle, at) || at > hay.len(),
    ensures
        place_in(hay, needle, from) == if at > hay.len() {
            None
        } else {
            Some(at)
        },
    decreases hay.len() + 1 - from,
{
    if from < at && from <= hay.len() {
        assert(!occurs_at(hay, needle, from));
        lemma_place_in(hay, needle, from + 1, at);
    }
}

/// The first position where `needle` stands.
pub fn place(hay: &[char], needle: &[char]) -> (r: Option<usize>)
    ensures
        match r {
            Some(i) => place_in(hay@, needle@, 0) == Some(i as int) && i + needle@.len()
                <= hay@.len(),
            None => place_in(hay@, needle@, 0) is None,
        },
{
    let r = find(hay, needle, 0);
    proof {
        match r {
            Some(i) => lemma_place_in(hay@, needle@, 0, i as int),
            None => lemma_place_in(hay@, needle@, 0, hay@.len() as int + 1),
        }
    }
    r
}

/// The parts of a text before and after the first `sep`.
pub fn split_once(chars: &[char], sep: &[char]) -> (r: Option<(Vec<char>, Vec<char>)>)
    ensures
        match r {
            Some((head, tail)) => place_in(chars@, sep@, 0) == Some(head@.len() as int)
                && head@ == chars@.take(head@.len() as int) && tail@ == chars@.skip(
                head@.len() as int + sep@.len(),
            ),
            None => place_in(chars@, sep@, 0) is None,
        },
{
    match place(chars, sep) {
        Some(i) => {
            let head = part(chars, 0, i);
            let len: usize = chars.len();
            let tail = part(chars, i + sep.len(), len);
            proof {
                assert(head@ =~= chars@.take(i as int));
                assert(tail@ =~= chars@.skip(i + sep@.len()));
            }
            Some((head, tail))
        },
        None => None,
    }
}

/// What follows a prefix, where the text has it.
pub open spec fn after_prefix(s: Seq<char>, prefix: Seq<char>) -> Option<Seq<char>> {
    if occurs_at(s, prefix, 0) {
        Some(s.skip(prefix.len() as int))
    } else {
        None
    }
}

/// What follows a prefix, where the text has it.
pub fn strip_prefix(chars: &[char], prefix: &[char]) -> (r: Option<Vec<char>>)
    ensures
        match r {
            Some(rest) => after_prefix(chars@, prefix@) == Some(rest@),
            None => after_prefix(chars@, prefix@) is None,
        },
{
    if is_at(chars, prefix, 0) {
        let rest = part(chars, prefix.len(), chars.len());
        proof {
            assert(rest@ =~= chars@.skip(prefix@.len() as int));
        }
        Some(rest)
    } else {
        None
    }
}

/// Whether `needle` stands anywhere in `hay`.
pub fn contains(hay: &[char], needle: &[char]) -> (r: bool)
    ensures
        r == occurs(hay@, needle@),
{
    find(hay, needle, 0).is_some()
}

/// Whether the string `hay` holds the string `needle`.
pub fn str_contains(hay: &str, needle: &str) -> (r: bool)
    ensures
        r == occurs(hay@, needle@),
{
    let h = to_chars(hay);
    let n = to_chars(needle);
    contains(&h, &n)
}

/// Whether a text holds a character.
pub fn has_char(s: &str, c: char) -> (r: bool)
    ensures
        r == s@.contains(c),
{
    let chars = to_chars(s);
    let mut i: usize = 0;
    while i < chars.len()
        invariant
            i <= chars@.len(),
            chars@ == s@,
            forall|k: int| 0 <= k < i ==> chars@[k] != c,
        decreases chars.len() - i,
    {
        if chars[i] == c {
            return true;
        }
        i += 1;
    }
    false
}

/// An ASCII capital becomes its small letter; any other character stays.
pub open spec fn lower_char(c: char) -> char {
    if 'A' <= c <= 'Z' {
        (c as u32 + 32) as char
    } else {
        c
    }
}

/// A text with its ASCII capitals made small.
pub open spec fn lower_of(s: Seq<char>) -> Seq<char> {
    Seq::new(s.len(), |i: int| lower_char(s[i]))
}

/// Makes the ASCII capitals of a text small.
pub fn lower(chars: &[char]) -> (r: Vec<char>)
    ensures
        r@ == lower_of(chars@),
{
    let mut r: Vec<char> = Vec::new();
    let mut i: usize = 0;
    while i < chars.len()
        invariant
            i <= chars@.len(),
            r@.len() == i,
            forall|k: int| 0 <= k < i ==> r@[k] == lower_char(chars@[k]),
        decreases chars.len() - i,
    {
        let c = chars[i];
        if 'A' <= c && c <= 'Z' {
            r.push(((c as u8) + 32) as char);
        } else {
            r.push(c);
        }
        i += 1;
    }
    r
}

/// How many characters at the front are white space.
pub open spec fn leading_space(s: Seq<char>) -> nat
    decreases s.len(),
{
    if s.len() > 0 && white_space(s[0]) {
        1 + leading_space(s.drop_first())
    } else {
        0
    }
}

/// How many characters at the back are white space.
pub open spec fn trailing_space(s: Seq<char>) -> nat
    decreases s.len(),
{
    if s.len() > 0 && white_space(s.last()) {
        1 + trailing_space(s.drop_last())
    } else {
        0
    }
}

/// A text without the white space at its front and at its back.
pub open spec fn trim_of(s: Seq<char>) -> Seq<char> {
    let front = s.skip(leading_space(s) as int);
    front.take(front.len() - trailing_space(front))
}

proof fn lemma_leading_space(s: Seq<char>)
    ensures
        leading_space(s) <= s.len(),
        forall|i: int| 0 <= i < leading_space(s) ==> white_space(#[trigger] s[i]),
        leading_space(s) < s.len() ==> !white_space(s[leading_space(s) as int]),
    decreases s.len(),
{
    if s.len() > 0 && white_space(s[0]) {
        let t = s.drop_first();
        lemma_leading_space(t);
        assert forall|i: int| 0 <= i < leading_space(s) implies white_space(#[trigger] s[i]) by {
            if i > 0 {
                assert(s[i] == t[i - 1]);
            }
        }
        if leading_space(s) < s.len() {
            assert(s[leading_space(s) as int] == t[leading_space(t) as int]);
        }
    }
}

proof fn lemma_trailing_space(s: Seq<char>)
    ensures
        trailing_space(s) <= s.len(),
        forall|i: int| s.len() - trailing_space(s) <= i < s.len() ==> white_space(#[trigger] s[i]),
        trailing_space(s) < s.len() ==> !white_space(s[s.len() - trailing_space(s) - 1]),
    decreases s.len(),
{
    if s.len() > 0 && white_space(s.last()) {
        let t = s.drop_last();
        lemma_trailing_space(t);
        assert forall|i: int| s.len() - trailing_space(s) <= i < s.len() implies white_space(
            #[trigger] s[i],
        ) by {
            if i < s.len() - 1 {
                assert(s[i] == t[i]);
            }
        }
        if trailing_space(s) < s.len() {
            assert(s[s.len() - trailing_space(s) - 1] == t[t.len() - trailing_space(t) - 1]);
        }
    }
}

/// Counts of white space are fixed by where the first other character stands.
proof fn lemma_space_unique(s: Seq<char>, a: int, b: int)
    requires
        0 <= a <= b <= s.len(),
        forall|i: int| 0 <= i < a ==> white_space(#[trigger] s[i]),
        a < s.len() ==> !white_space(s[a]),
        forall|i: int| b <= i < s.len() ==> white_space(#[trigger] s[i]),
        a < b ==> !white_space(s[b - 1]),
    ensures
        trim_of(s) == s.subrange(a, b),
{
    lemma_leading_space(s);
    let n = leading_space(s) as int;
    if n < a {
        assert(white_space(s[n]));
    }
    if n > a {
        assert(white_space(s[a]));
    }
    assert(n == a);
    let front = s.skip(n);
    lemma_trailing_space(front);
    let t = trailing_space(front) as int;
    if a == s.len() {
        assert(front.len() == 0);
        assert(trim_of(s) =~= s.subrange(a, b));
    } else {
        assert(a < b) by {
            if a == b {
                assert(white_space(s[a]));
            }
        }
        let e = front.len() - t;
        if e > b - a {
            assert(white_space(s[a + e - 1]));
            assert(front[e - 1] == s[a + e - 1]);
        }
        if e < b - a {
            assert(front[b - a - 1] == s[b - 1]);
        }
        assert(e == b - a);
        assert(trim_of(s) =~= s.subrange(a, b));
    }
}

/// Drops the white space at both ends of a text.
pub fn trim(chars: &[char]) -> (r: Vec<char>)
    ensures
        r@ == trim_of(chars@),
{
    let mut a: usize = 0;
    while a < chars.len() && is_white_space(chars[a])
        invariant
            a <= chars@.len(),
            forall|i: int| 0 <= i < a ==> white_space(#[trigger] chars@[i]),
        decreases chars.len() - a,
    {
        a += 1;
    }
    let mut b: usize = chars.len();
    while a < b && is_white_space(chars[b - 1])
        invariant
            a <= b <= chars@.len(),
            forall|i: int| b <= i < chars@.len() ==> white_space(#[trigger] chars@[i]),
        decreases b,
    {
        b -= 1;
    }
    proof {
        lemma_space_unique(chars@, a as int, b as int);
    }
    part(chars, a, b)
}

/// The characters from `a` up to `b`.
pub fn part(chars: &[char], a: usize, b: usize) -> (r: Vec<char>)
    requires
        a <= b <= chars@.len(),
    ensures
        r@ == chars@.subrange(a as int, b as int),
{
    let mut r: Vec<char> = Vec::new();
    let mut i: usize = a;
    while i < b
        invariant
            a <= i <= b <= chars@.len(),
            r@ == chars@.subrange(a as int, i as int),
        decreases b - i,
    {
        r.push(chars[i]);
        i += 1;
        proof {
            assert(r@ =~= chars@.subrange(a as int, i as int));
        }
    }
    r
}

/// The pieces of a text between the separators `c`. There is always at least
/// one piece, and it may be empty.
pub open spec fn split_of(s: Seq<char>, c: char) -> Seq<Seq<char>>
    decreases s.len(),
{
    if s.contains(c) {
        let i = s.index_of_first(c).unwrap();
        if 0 <= i < s.len() {
            seq![s.take(i)] + split_of(s.skip(i + 1), c)
        } else {
            seq![s]
        }
    } else {
        seq![s]
    }
}

/// Splits a text at every `c`.
pub fn split(chars: &[char], c: char) -> (r: Vec<Vec<char>>)
    ensures
        r@.len() == split_of(chars@, c).len(),
        forall|i: int| 0 <= i < r@.len() ==> (#[trigger] r@[i])@ == split_of(chars@, c)[i],
{
    let mut r: Vec<Vec<char>> = Vec::new();
    let mut start: usize = 0;
    let mut i: usize = 0;
    proof {
        assert(chars@.skip(0) =~= chars@);
    }
    let ghost whole = split_of(chars@, c);
    while i < chars.len()
        invariant
            start <= i <= chars@.len(),
            whole == split_of(chars@, c),
            forall|k: int| start <= k < i ==> chars@[k] != c,
            r@.len() + split_of(chars@.skip(start as int), c).len() == whole.len(),
            forall|k: int| 0 <= k < r@.len() ==> (#[trigger] r@[k])@ == whole[k],
            forall|k: int|
                r@.len() <= k < whole.len() ==> #[trigger] whole[k] == split_of(
                    chars@.skip(start as int),
                    c,
                )[k - r@.len()],
        decreases chars.len() - i,
    {
        if chars[i] == c {
            let piece = part(chars, start, i);
            proof {
                let rest = chars@.skip(start as int);
                assert(rest[i - start] == c);
                assert(rest.contains(c));
                rest.index_of_first_ensures(c);
                let at = rest.index_of_first(c).unwrap();
                assert(at == i - start) by {
                    assert(rest[at] == c);
                    assert(rest[at] == chars@[start + at]);
                }
                assert(rest.take(at) =~= piece@);
                assert(rest.skip(at + 1) =~= chars@.skip(i + 1));
                assert(split_of(rest, c) == seq![rest.take(at)] + split_of(rest.skip(at + 1), c));
                assert(whole[r@.len() as int] == split_of(rest, c)[0]);
            }
            r.push(piece);
            start = i + 1;
        }
        i += 1;
    }
    let piece = part(chars, start, chars.len());
    proof {
        let rest = chars@.skip(start as int);
        assert(!rest.contains(c)) by {
            if rest.contains(c) {
                let k = choose|k: int| 0 <= k < rest.len() && rest[k] == c;
                assert(chars@[start + k] == c);
            }
        }
        assert(split_of(rest, c) == seq![rest]);
        assert(rest =~= piece@);
        assert(whole[r@.len() as int] == split_of(rest, c)[0]);
    }
    r.push(piece);
    r
}

/// Whether a character is an ASCII digit.
pub open spec fn is_digit(c: char) -> bool {
    '0' <= c <= '9'
}

/// Whether a text holds nothing but ASCII digits.
pub open spec fn all_digits(s: Seq<char>) -> bool {
    forall|i: int| 0 <= i < s.len() ==> is_digit(#[trigger] s[i])
}

/// The number that a run of digits stands for.
pub open spec fn digits_value(s: Seq<char>) -> nat
    decreases s.len(),
{
    if s.len() == 0 {
        0
    } else {
        digits_value(s.drop_last()) * 10 + (s.last() as nat - 48) as nat
    }
}

/// The number that a text states in decimal. One `+` may stand in front; there
/// must be a digit, nothing but digits, and a value that sixty-four bits hold.
pub open spec fn number_of(s: Seq<char>) -> Option<u64> {
    let digits = if s.len() > 0 && s[0] == '+' {
        s.skip(1)
    } else {
        s
    };
    if digits.len() > 0 && all_digits(digits) && digits_value(digits) <= u64::MAX {
        Some(digits_value(digits) as u64)
    } else {
        None
    }
}

proof fn lemma_digits_grow(s: Seq<char>, n: int)
    requires
        0 <= n <= s.len(),
        all_digits(s),
    ensures
        digits_value(s.take(n)) <= digits_value(s),
    decreases s.len() - n,
{
    if n < s.len() {
        lemma_digits_grow(s, n + 1);
        let t = s.take(n + 1);
        assert(t.drop_last() =~= s.take(n));
        assert(is_digit(s[n]));
        assert(t.last() == s[n]);
    } else {
        assert(s.take(n) =~= s);
    }
}

/// Reads a number that a text states in decimal.
pub fn number(chars: &[char]) -> (r: Option<u64>)
    ensures
        r == number_of(chars@),
{
    let start: usize = if chars.len() > 0 && chars[0] == '+' {
        1
    } else {
        0
    };
    let ghost digits = chars@.skip(start as int);
    proof {
        if start == 0 {
            assert(digits =~= chars@);
        }
    }
    if chars.len() == start {
        return None;
    }
    let mut n: u64 = 0;
    let mut i: usize = start;
    while i < chars.len()
        invariant
            start <= i <= chars@.len(),
            digits == chars@.skip(start as int),
            digits.len() > 0,
            number_of(chars@) == (if all_digits(digits) && digits_value(digits) <= u64::MAX {
                Some(digits_value(digits) as u64)
            } else {
                None
            }),
            forall|k: int| 0 <= k < i - start ==> is_digit(#[trigger] digits[k]),
            n == digits_value(digits.take(i - start)),
        decreases chars.len() - i,
    {
        let c = chars[i];
        proof {
            assert(digits[i - start] == c);
            let t = digits.take(i - start + 1);
            assert(t.drop_last() =~= digits.take(i - start));
            assert(t.last() == c);
        }
        if c < '0' || '9' < c {
            return None;
        }
        let d: u64 = (c as u8 - 48) as u64;
        let ten = n.checked_mul(10);
        if ten.is_none() {
            proof {
                if all_digits(digits) {
                    lemma_digits_grow(digits, i - start + 1);
                }
            }
            return None;
        }
        let sum = ten.unwrap().checked_add(d);
        if sum.is_none() {
            proof {
                if all_digits(digits) {
                    lemma_digits_grow(digits, i - start + 1);
                }
            }
            return None;
        }
        n = sum.unwrap();
        i += 1;
    }
    proof {
        assert(digits.take(chars@.len() - start) =~= digits);
    }
    Some(n)
}

/// The first line of a text: what stands before the first line feed, without
/// the carriage return that may stand just before it.
pub open spec fn first_line_of(s: Seq<char>) -> Seq<char> {
    if s.contains('\n') {
        let i = s.index_of_first('\n').unwrap();
        if i > 0 && s[i - 1] == '\r' {
            s.take(i - 1)
        } else {
            s.take(i)
        }
    } else {
        s
    }
}

/// The first line of a text.
pub fn first_line(s: &str) -> (r: String)
    ensures
        r@ == first_line_of(s@),
{
    let chars = to_chars(s);
    let mut i: usize = 0;
    while i < chars.len()
        invariant
            i <= chars@.len(),
            chars@ == s@,
            forall|k: int| 0 <= k < i ==> chars@[k] != '\n',
        decreases chars.len() - i,
    {
        if chars[i] == '\n' {
            proof {
                assert(s@.contains('\n'));
                s@.index_of_first_ensures('\n');
                assert(s@.index_of_first('\n').unwrap() == i);
            }
            let end: usize = if i > 0 && chars[i - 1] == '\r' {
                i - 1
            } else {
                i
            };
            let line = part(&chars, 0, end);
            proof {
                assert(line@ =~= s@.take(end as int));
            }
            return from_chars(&line);
        }
        i += 1;
    }
    from_chars(&chars)
}

/// A line without the carriage return that may end it.
pub open spec fn without_return(s: Seq<char>) -> Seq<char> {
    if s.len() > 0 && s.last() == '\r' {
        s.drop_last()
    } else {
        s
    }
}

/// The lines of a text. A line feed ends a line, and a carriage return just
/// before it belongs to it; nothing after the last line feed is no line.
pub open spec fn lines_of(s: Seq<char>) -> Seq<Seq<char>> {
    let pieces = split_of(s, '\n');
    let ended = Seq::new(
        (pieces.len() - 1) as nat,
        |i: int| without_return(pieces[i]),
    );
    if pieces.last().len() == 0 {
        ended
    } else {
        ended.push(pieces.last())
    }
}

/// The lines of a text.
pub fn lines(chars: &[char]) -> (r: Vec<Vec<char>>)
    ensures
        r@.len() == lines_of(chars@).len(),
        forall|i: int| 0 <= i < r@.len() ==> (#[trigger] r@[i])@ == lines_of(chars@)[i],
{
    let pieces = split(chars, '\n');
    let ghost all = split_of(chars@, '\n');
    proof {
        assert(all.len() >= 1);
    }
    let n: usize = pieces.len();
    let mut r: Vec<Vec<char>> = Vec::new();
    let mut i: usize = 0;
    while i < n - 1
        invariant
            i <= n - 1,
            n == pieces@.len() == all.len(),
            all == split_of(chars@, '\n'),
            forall|k: int| 0 <= k < n ==> (#[trigger] pieces@[k])@ == all[k],
            r@.len() == i,
            forall|k: int| 0 <= k < i ==> (#[trigger] r@[k])@ == without_return(all[k]),
        decreases n - i,
    {
        let piece = &pieces[i];
        let len: usize = piece.len();
        let end: usize = if len > 0 && piece[len - 1] == '\r' {
            len - 1
        } else {
            len
        };
        let line = part(piece, 0, end);
        proof {
            assert(line@ =~= without_return(all[i as int]));
        }
        r.push(line);
        i += 1;
    }
    let last = &pieces[n - 1];
    if last.len() > 0 {
        let line = part(last, 0, last.len());
        proof {
            assert(line@ =~= all.last());
        }
        r.push(line);
    }
    r
}

/// The words of a text: its runs without white space.
pub open spec fn words_of(s: Seq<char>) -> Seq<Seq<char>>
    decreases s.len(),
{
    if s.len() == 0 {
        Seq::empty()
    } else {
        let words = words_of(s.drop_last());
        if white_space(s.last()) {
            words
        } else if s.len() == 1 || white_space(s[s.len() - 2]) {
            words.push(seq![s.last()])
        } else {
            words.drop_last().push(words.last().push(s.last()))
        }
    }
}

/// A text that ends inside a word has at least that word.
pub proof fn lemma_words(s: Seq<char>)
    requires
        s.len() > 0,
        !white_space(s.last()),
    ensures
        words_of(s).len() > 0,
    decreases s.len(),
{
    if s.len() > 1 && !white_space(s[s.len() - 2]) {
        lemma_words(s.drop_last());
    }
}

/// The words of a text: its runs without white space.
pub fn words(chars: &[char]) -> (r: Vec<Vec<char>>)
    ensures
        r@.len() == words_of(chars@).len(),
        forall|i: int| 0 <= i < r@.len() ==> (#[trigger] r@[i])@ == words_of(chars@)[i],
{
    let mut r: Vec<Vec<char>> = Vec::new();
    let mut i: usize = 0;
    while i < chars.len()
        invariant
            i <= chars@.len(),
            r@.len() == words_of(chars@.take(i as int)).len(),
            forall|k: int|
                0 <= k < r@.len() ==> (#[trigger] r@[k])@ == words_of(chars@.take(i as int))[k],
        decreases chars.len() - i,
    {
        let c = chars[i];
        let ghost now = chars@.take(i as int);
        let ghost next = chars@.take(i + 1);
        proof {
            assert(next.drop_last() =~= now);
            assert(next.last() == c);
        }
        if !is_white_space(c) {
            if i == 0 || is_white_space(chars[i - 1]) {
                let mut word: Vec<char> = Vec::new();
                word.push(c);
                r.push(word);
                proof {
                    assert(r@[r@.len() - 1]@ =~= seq![c]);
                }
            } else {
                proof {
                    assert(now.last() == chars@[i - 1]);
                    lemma_words(now);
                }
                let last = r.pop();
                let mut word = last.unwrap();
                word.push(c);
                r.push(word);
            }
        }
        i += 1;
    }
    proof {
        assert(chars@.take(chars@.len() as int) =~= chars@);
    }
    r
}

/// Texts with something between each two.
pub open spec fn joined(parts: Seq<Seq<char>>, between: Seq<char>) -> Seq<char>
    decreases parts.len(),
{
    if parts.len() == 0 {
        Seq::empty()
    } else if parts.len() == 1 {
        parts[0]
    } else {
        joined(parts.drop_last(), between) + between + parts.last()
    }
}

/// Texts with something between each two.
pub fn join(parts: &Vec<String>, between: &str) -> (r: String)
    ensures
        r@ == joined(crate::source::views(parts@), between@),
{
    let ghost all = crate::source::views(parts@);
    let mut r = String::new();
    let mut i: usize = 0;
    proof {
        assert(r@ =~= joined(all.take(0), between@));
    }
    while i < parts.len()
        invariant
            i <= parts@.len(),
            all == crate::source::views(parts@),
            r@ == joined(all.take(i as int), between@),
        decreases parts.len() - i,
    {
        let ghost next = all.take(i + 1);
        proof {
            assert(next.drop_last() =~= all.take(i as int));
            assert(next.last() == parts@[i as int]@);
        }
        let ghost before = r@;
        if i > 0 {
            r.append(between);
        }
        r.append(parts[i].as_str());
        proof {
            if i == 0 {
                assert(r@ =~= parts@[0]@);
                assert(next[0] == parts@[0]@);
            } else {
                assert(r@ =~= before + between@ + parts@[i as int]@);
            }
        }
        i += 1;
    }
    proof {
        assert(all.take(all.len() as int) =~= all);
    }
    r
}

/// The bytes from `a` up to `b`.
pub fn bytes_part(bytes: &[u8], a: usize, b: usize) -> (r: Vec<u8>)
    requires
        a <= b <= bytes@.len(),
    ensures
        r@ == bytes@.subrange(a as int, b as int),
{
    let mut r: Vec<u8> = Vec::new();
    let mut i: usize = a;
    while i < b
        invariant
            a <= i <= b <= bytes@.len(),
            r@ == bytes@.subrange(a as int, i as int),
        decreases b - i,
    {
        r.push(bytes[i]);
        i += 1;
        proof {
            assert(r@ =~= bytes@.subrange(a as int, i as int));
        }
    }
    r
}

/// What `String::from_utf8_lossy` makes of a run of bytes.
pub uninterp spec fn lossy_of(bytes: Seq<u8>) -> Seq<char>;

/// Calls `String::from_utf8_lossy` of the standard library.
///
/// The text is a function of the bytes. Bytes that are valid UTF-8 come back as
/// the text that they encode; which places of other bytes are replaced is not
/// stated.
#[verifier::external_body]
pub(crate) fn lossy(bytes: &[u8]) -> (r: String)
    ensures
        r@ == lossy_of(bytes@),
        vstd::utf8::valid_utf8(bytes@) ==> r@ == vstd::utf8::decode_utf8(bytes@),
{
    String::from_utf8_lossy(bytes).into_owned()
}

proof fn lemma_decimal(n: nat)
    ensures
        decimal_of(n).len() > 0,
        all_digits(decimal_of(n)),
        digits_value(decimal_of(n)) == n,
        n > 0 ==> decimal_of(n)[0] != '0',
        n < 10 ==> decimal_of(n).len() == 1,
        10 <= n < 100 ==> decimal_of(n).len() == 2,
    decreases n,
{
    if n < 10 {
        let s = decimal_of(n);
        assert(s.drop_last() =~= Seq::empty());
        assert(digits_value(s.drop_last()) == 0);
    } else {
        lemma_decimal(n / 10);
        let s = decimal_of(n);
        let front = decimal_of(n / 10);
        assert(s.drop_last() =~= front);
        assert forall|i: int| 0 <= i < s.len() implies is_digit(#[trigger] s[i]) by {
            if i < front.len() {
                assert(s[i] == front[i]);
            }
        }
        assert(s[0] == front[0]);
        assert(n == n / 10 * 10 + n % 10);
    }
}

/// A number that was written in decimal reads back as itself, and is written
/// without leading zeros.
pub proof fn decimal_reads_back(n: u64)
    ensures
        number_of(decimal_of(n as nat)) == Some(n),
        all_digits(decimal_of(n as nat)),
        n > 0 ==> decimal_of(n as nat)[0] != '0',
{
    lemma_decimal(n as nat);
    assert(is_digit(decimal_of(n as nat)[0]));
}

/// A number below a hundred takes two places, and reads back as itself.
pub proof fn two_digits_read_back(n: u64)
    requires
        n < 100,
    ensures
        two_digits_of(n as nat).len() == 2,
        number_of(two_digits_of(n as nat)) == Some(n),
{
    lemma_decimal(n as nat);
    let s = two_digits_of(n as nat);
    let d = decimal_of(n as nat);
    if n < 10 {
        assert(s[0] == '0' && s[1] == d[0]);
        assert(s.drop_last() =~= seq!['0']);
        assert(seq!['0'].drop_last() =~= Seq::empty());
        reveal_with_fuel(digits_value, 3);
        assert(d.drop_last() =~= Seq::empty());
        assert(is_digit(d[0]));
        assert(all_digits(s));
    } else {
        assert(is_digit(d[0]));
    }
}

/// Trimming takes the white space off both ends, all of it and nothing else:
/// what is left begins and ends with the first and the last other character.
pub proof fn trimming_takes_only_space(s: Seq<char>, a: int, b: int)
    requires
        0 <= a < b <= s.len(),
        forall|i: int| 0 <= i < a ==> white_space(#[trigger] s[i]),
        !white_space(s[a]),
        forall|i: int| b <= i < s.len() ==> white_space(#[trigger] s[i]),
        !white_space(s[b - 1]),
    ensures
        trim_of(s) == s.subrange(a, b),
{
    lemma_space_unique(s, a, b);
}

/// A text of white space alone trims to nothing.
pub proof fn blank_text_trims_to_nothing(s: Seq<char>)
    requires
        forall|i: int| 0 <= i < s.len() ==> white_space(#[trigger] s[i]),
    ensures
        trim_of(s).len() == 0,
{
    lemma_leading_space(s);
    if leading_space(s) < s.len() {
        assert(white_space(s[leading_space(s) as int]));
    }
    lemma_trailing_space(s.skip(leading_space(s) as int));
}

/// The first of some texts that are joined stands in front of the others.
pub proof fn lemma_joined_front(first: Seq<char>, rest: Seq<Seq<char>>, between: Seq<char>)
    requires
        rest.len() > 0,
    ensures
        joined(seq![first] + rest, between) == first + between + joined(rest, between),
    decreases rest.len(),
{
    let all = seq![first] + rest;
    assert(all.last() == rest.last());
    if rest.len() == 1 {
        assert(all.drop_last() =~= seq![first]);
        assert(joined(all.drop_last(), between) == first);
        assert(joined(rest, between) == rest[0]);
    } else {
        assert(all.drop_last() =~= seq![first] + rest.drop_last());
        lemma_joined_front(first, rest.drop_last(), between);
        assert(joined(all, between) =~= first + between + joined(rest, between));
    }
}

/// The pieces of a text, with the separator between each two, are the text; and
/// no piece holds the separator.
pub proof fn pieces_join_back(s: Seq<char>, c: char, i: int)
    ensures
        split_of(s, c).len() > 0,
        joined(split_of(s, c), seq![c]) == s,
        0 <= i < split_of(s, c).len() ==> !split_of(s, c)[i].contains(c),
    decreases s.len(),
{
    if s.contains(c) {
        s.index_of_first_ensures(c);
        let at = s.index_of_first(c).unwrap();
        let head = s.take(at);
        let rest = s.skip(at + 1);
        pieces_join_back(rest, c, i - 1);
        lemma_joined_front(head, split_of(rest, c), seq![c]);
        assert(head + seq![c] + rest =~= s);
        if i == 0 && head.contains(c) {
            let k = choose|k: int| 0 <= k < head.len() && head[k] == c;
            assert(s[k] == c);
        }
    } else {
        assert(joined(seq![s], seq![c]) == s);
    }
}

/// The text in front of a separator, where it holds none itself, is the first
/// piece, and the pieces of what follows are the others.
pub proof fn separator_ends_a_piece(head: Seq<char>, c: char, rest: Seq<char>)
    requires
        !head.contains(c),
    ensures
        split_of(head.push(c) + rest, c) == seq![head] + split_of(rest, c),
        split_of(head, c) == seq![head],
{
    let s = head.push(c) + rest;
    assert(s[head.len() as int] == c);
    assert(s.contains(c));
    s.index_of_first_ensures(c);
    let at = s.index_of_first(c).unwrap();
    if at < head.len() {
        assert(s[at] == head[at]);
        assert(head.contains(c));
    }
    assert(at == head.len());
    assert(s.take(at) =~= head);
    assert(s.skip(at + 1) =~= rest);
}

/// A line feed ends a line: what stands before it is the line, without the
/// carriage return that may end it, and the lines of what follows are the others.
#[verifier::spinoff_prover]
pub proof fn line_feed_ends_a_line(line: Seq<char>, rest: Seq<char>)
    requires
        !line.contains('\n'),
        !line.contains('\r'),
    ensures
        lines_of(line.push('\n') + rest) == seq![line] + lines_of(rest),
        lines_of(line.push('\r').push('\n') + rest) == seq![line] + lines_of(rest),
        line.len() > 0 ==> lines_of(line) == seq![line],
        first_line_of(line.push('\n') + rest) == line,
        first_line_of(line.push('\r').push('\n') + rest) == line,
        first_line_of(line) == line,
{
    let returned = line.push('\r');
    assert(!returned.contains('\n')) by {
        if returned.contains('\n') {
            let k = choose|k: int| 0 <= k < returned.len() && returned[k] == '\n';
            assert(line[k] == '\n');
        }
    }
    separator_ends_a_piece(line, '\n', rest);
    separator_ends_a_piece(returned, '\n', rest);
    assert(without_return(line) == line) by {
        if line.len() > 0 && line.last() == '\r' {
            assert(line.contains('\r'));
        }
    }
    assert(without_return(returned) =~= line);
    pieces_join_back(rest, '\n', 0);
    let others = split_of(rest, '\n');
    let one = split_of(line.push('\n') + rest, '\n');
    let two = split_of(returned.push('\n') + rest, '\n');
    assert(one.last() == others.last() && two.last() == others.last());
    assert forall|i: int| 0 <= i < others.len() - 1 implies one[i + 1] == #[trigger] others[i]
        && two[i + 1] == others[i] by {}
    assert(lines_of(line.push('\n') + rest) =~= seq![line] + lines_of(rest));
    assert(lines_of(returned.push('\n') + rest) =~= seq![line] + lines_of(rest));
    assert(line.len() > 0 ==> lines_of(line) =~= seq![line]);
    let s = line.push('\n') + rest;
    assert(s[line.len() as int] == '\n');
    s.index_of_first_ensures('\n');
    let at = s.index_of_first('\n').unwrap();
    if at < line.len() {
        assert(s[at] == line[at]);
    }
    if at > 0 && s[at - 1] == '\r' {
        assert(line[at - 1] == '\r');
    }
    assert(s.take(at) =~= line);
    let t = returned.push('\n') + rest;
    assert(t[returned.len() as int] == '\n');
    t.index_of_first_ensures('\n');
    let end = t.index_of_first('\n').unwrap();
    if end < returned.len() {
        assert(t[end] == returned[end]);
    }
    assert(end == returned.len());
    assert(t[end - 1] == '\r');
    assert(t.take(end - 1) =~= line);
}

proof fn lemma_one_word(s: Seq<char>)
    requires
        s.len() > 0,
        forall|i: int| 0 <= i < s.len() ==> !white_space(#[trigger] s[i]),
    ensures
        words_of(s) == seq![s],
    decreases s.len(),
{
    if s.len() == 1 {
        assert(s.drop_last() =~= Seq::empty());
        assert(words_of(s.drop_last()) =~= Seq::empty());
        assert(!white_space(s[0]));
        assert(seq![s.last()] =~= s);
        assert(Seq::empty().push(s) =~= seq![s]);
    } else {
        let less = s.drop_last();
        lemma_one_word(less);
        assert(less.push(s.last()) =~= s);
        assert(!white_space(s[s.len() - 2]));
        assert(!white_space(s[s.len() - 1]));
        assert(seq![less].drop_last() =~= Seq::empty());
        assert(Seq::empty().push(s) =~= seq![s]);
    }
}

/// A run without white space is one word, and behind a space it is one more.
pub proof fn space_ends_a_word(front: Seq<char>, space: char, word: Seq<char>)
    requires
        white_space(space),
        word.len() > 0,
        forall|i: int| 0 <= i < word.len() ==> !white_space(#[trigger] word[i]),
    ensures
        words_of(word) == seq![word],
        words_of(front.push(space)) == words_of(front),
        words_of(front.push(space) + word) == words_of(front).push(word),
    decreases word.len(),
{
    lemma_one_word(word);
    let before = front.push(space);
    assert(before.drop_last() =~= front);
    let s = before + word;
    assert(s.last() == word.last());
    assert(!white_space(word[word.len() - 1]));
    if word.len() == 1 {
        assert(s.drop_last() =~= before);
        assert(s[s.len() - 2] == space);
        assert(seq![s.last()] =~= word);
    } else {
        let less = word.drop_last();
        space_ends_a_word(front, space, less);
        assert(s.drop_last() =~= before + less);
        assert(s[s.len() - 2] == word[word.len() - 2]);
        assert(!white_space(word[word.len() - 2]));
        assert(words_of(front).push(less).drop_last() =~= words_of(front));
        assert(less.push(word.last()) =~= word);
    }
}

/// Making a text small changes its ASCII capitals and nothing else: each becomes
/// the letter thirty-two places on.
pub proof fn only_capitals_are_lowered(s: Seq<char>, i: int)
    requires
        0 <= i < s.len(),
    ensures
        lower_of(s).len() == s.len(),
        'A' <= s[i] <= 'Z' ==> lower_of(s)[i] as u32 == s[i] as u32 + 32,
        !('A' <= s[i] <= 'Z') ==> lower_of(s)[i] == s[i],
{
}

/// The place that is found is the first at which the text stands.
pub proof fn found_place_is_the_first(hay: Seq<char>, needle: Seq<char>, from: int, i: int)
    requires
        0 <= from <= i,
        i + needle.len() <= hay.len(),
        hay.subrange(i, i + needle.len()) == needle,
    ensures
        place_in(hay, needle, from) is Some,
        from <= place_in(hay, needle, from)->0 <= i,
        ({
            let at = place_in(hay, needle, from)->0;
            hay.subrange(at, at + needle.len()) == needle
        }),
    decreases i - from,
{
    if !occurs_at(hay, needle, from) {
        found_place_is_the_first(hay, needle, from + 1, i);
    }
}

proof fn lemma_place_behind(
    front: Seq<char>,
    needle: Seq<char>,
    hay: Seq<char>,
    from: int,
)
    requires
        needle.len() > 0,
        !front.contains(needle[0]),
        0 <= from <= front.len(),
        front.len() + needle.len() <= hay.len(),
        forall|k: int| 0 <= k < front.len() ==> (#[trigger] hay[k]) == front[k],
        occurs_at(hay, needle, front.len() as int),
    ensures
        place_in(hay, needle, from) == Some(front.len() as int),
    decreases front.len() - from,
{
    if from < front.len() {
        if occurs_at(hay, needle, from) {
            let part = hay.subrange(from, from + needle.len());
            assert(part[0] == hay[from]);
            assert(front[from] == needle[0]);
        }
        lemma_place_behind(front, needle, hay, from + 1);
    }
}

/// What stands behind a text that does not hold its first character is found right
/// there.
pub proof fn place_is_behind_the_front(front: Seq<char>, needle: Seq<char>, rest: Seq<char>)
    requires
        needle.len() > 0,
        !front.contains(needle[0]),
    ensures
        place_in(front + needle + rest, needle, 0) == Some(front.len() as int),
        (front + needle + rest).take(front.len() as int) == front,
        (front + needle + rest).skip((front.len() + needle.len()) as int) == rest,
{
    let hay = front + needle + rest;
    let n = front.len() as int;
    assert(hay.subrange(n, n + needle.len()) =~= needle);
    lemma_place_behind(front, needle, hay, 0);
    assert(hay.take(n) =~= front);
    assert(hay.skip((front.len() + needle.len()) as int) =~= rest);
}

/// A prefix is taken off, and what follows it is left.
pub proof fn prefix_is_taken_off(prefix: Seq<char>, rest: Seq<char>)
    ensures
        after_prefix(prefix + rest, prefix) == Some(rest),
{
    let s = prefix + rest;
    assert(s.subrange(0, prefix.len() as int) =~= prefix);
    assert(s.skip(prefix.len() as int) =~= rest);
}

/// The space, the tab and the ends of lines are white space, and so are the wider
/// spaces of Unicode; letters, digits and punctuation are not.
pub proof fn spaces_are_white(c: char)
    ensures
        c == ' ' || c == '\t' || c == '\n' || c == '\r' ==> white_space(c),
        c == '\u{a0}' || c == '\u{2003}' || c == '\u{2028}' || c == '\u{3000}' ==> white_space(c),
        '!' <= c <= '~' ==> !white_space(c),
        c as u32 > 0x3000 ==> !white_space(c),
{
}

} // verus!
