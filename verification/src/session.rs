//! Signing in to YouTube Music: the window that does it is a process of its
//! own, and this is what passes between the two.

use vstd::prelude::*;

use crate::config;
use crate::config::{Cookies, Import};
use crate::source;
use crate::text;

verus! {

broadcast use vstd::string::group_string_axioms;

/// Tells the window to forget the session that it has.
pub const FORCE_ARG: &'static str = "--clear-session";

/// Tells the window where its profile is.
pub const PROFILE_ARG: &'static str = "--profile";

/// Makes the player itself the window, where there is no companion.
pub const HELPER_ARG: &'static str = "--mtui-music-sign-in-helper";

/// The companion executable.
pub const HELPER_NAME: &'static str = "mtui-sign-in";

/// What a session of the window is said to come from.
pub const SESSION_NAME: &'static str = "MTUI sign-in window";

/// The page that the window opens.
pub const MUSIC: &'static str = "https://music.youtube.com/";

/// How often the window looks for a session, in nanoseconds.
pub const POLL: u64 = 1_000_000_000;

/// Whether an argument is among some.
pub open spec fn given(args: Seq<Seq<char>>, arg: Seq<char>) -> bool {
    args.contains(arg)
}

fn is_given(args: &Vec<String>, arg: &str) -> (r: bool)
    ensures
        r == given(source::views(args@), arg@),
{
    let ghost all = source::views(args@);
    let mut i: usize = 0;
    while i < args.len()
        invariant
            i <= args@.len(),
            all == source::views(args@),
            forall|k: int| 0 <= k < i ==> (#[trigger] all[k]) != arg@,
        decreases args.len() - i,
    {
        if text::same(args[i].as_str(), arg) {
            proof {
                assert(all[i as int] == arg@);
            }
            return true;
        }
        i += 1;
    }
    false
}

/// Recognises the arguments that make the player the sign-in window, and
/// whether it is to forget its session.
pub fn helper_request(args: &Vec<String>) -> (r: Option<bool>)
    ensures
        r == if given(source::views(args@), HELPER_ARG@) {
            Some(given(source::views(args@), FORCE_ARG@))
        } else {
            None
        },
{
    if is_given(args, HELPER_ARG) {
        Some(is_given(args, FORCE_ARG))
    } else {
        None
    }
}

/// What is wrong with the arguments of the window.
#[derive(Debug, Clone, Copy, PartialEq, Eq, Structural)]
pub enum ArgumentError {
    /// It has to be told where its profile is.
    NoProfile,
    /// Argument number so many means nothing.
    Unknown(usize),
}

/// What the arguments from `i` on come to, with what those before came to: where
/// the profile path stands, and whether the session is to be forgotten.
pub open spec fn arguments_from(
    args: Seq<Seq<char>>,
    i: int,
    profile: Option<usize>,
    force: bool,
) -> Result<(usize, bool), ArgumentError>
    decreases args.len() - i,
{
    if i < 0 || i >= args.len() {
        match profile {
            Some(at) => Ok((at, force)),
            None => Err(ArgumentError::NoProfile),
        }
    } else if args[i] == PROFILE_ARG@ {
        if i + 1 >= args.len() {
            Err(ArgumentError::NoProfile)
        } else {
            arguments_from(args, i + 2, Some((i + 1) as usize), force)
        }
    } else if args[i] == FORCE_ARG@ {
        arguments_from(args, i + 1, profile, true)
    } else {
        Err(ArgumentError::Unknown(i as usize))
    }
}

/// Reads the arguments of the window: which of them is the path of its profile,
/// and whether its session is to be forgotten.
pub fn arguments(args: &Vec<String>) -> (r: Result<(usize, bool), ArgumentError>)
    ensures
        r == arguments_from(source::views(args@), 0, None, false),
        r matches Ok((at, _)) ==> at < args@.len(),
{
    let ghost all = source::views(args@);
    let len: usize = args.len();
    let mut profile: Option<usize> = None;
    let mut force = false;
    let mut i: usize = 0;
    while i < len
        invariant
            i <= len == args@.len(),
            all == source::views(args@),
            arguments_from(all, 0, None, false) == arguments_from(all, i as int, profile, force),
            profile matches Some(at) ==> at < args@.len(),
        decreases len - i,
    {
        if text::same(args[i].as_str(), PROFILE_ARG) {
            if i + 1 >= len {
                return Err(ArgumentError::NoProfile);
            }
            profile = Some(i + 1);
            i += 2;
        } else if text::same(args[i].as_str(), FORCE_ARG) {
            force = true;
            i += 1;
        } else {
            return Err(ArgumentError::Unknown(i));
        }
    }
    match profile {
        Some(at) => Ok((at, force)),
        None => Err(ArgumentError::NoProfile),
    }
}

/// What is said of arguments that are wrong.
pub fn argument_message(error: &ArgumentError, arg: &str) -> (r: String)
    ensures
        r@ == match error {
            ArgumentError::NoProfile => "the sign-in helper needs a profile path"@,
            ArgumentError::Unknown(_) => "unknown sign-in helper argument: "@ + arg@,
        },
{
    match error {
        ArgumentError::NoProfile => "the sign-in helper needs a profile path".to_owned(),
        ArgumentError::Unknown(_) => text::join2("unknown sign-in helper argument: ", arg),
    }
}

/// The file name of the companion, where executables end in `suffix`.
pub fn helper_name(suffix: &str) -> (r: String)
    ensures
        r@ == HELPER_NAME@ + suffix@,
{
    text::join2(HELPER_NAME, suffix)
}

/// What is said where the companion is missing.
pub fn missing_message(helper: &str, executable: &str) -> (r: String)
    ensures
        r@ == "the YouTube Music sign-in helper is missing; install "@ + helper@ + " beside "@
            + executable@,
{
    let mut r = text::join3(
        "the YouTube Music sign-in helper is missing; install ",
        helper,
        " beside ",
    );
    r.append(executable);
    r
}

/// The first line that is not blank.
pub open spec fn first_said(lines: Seq<Seq<char>>) -> Option<Seq<char>>
    decreases lines.len(),
{
    if lines.len() == 0 {
        None
    } else {
        match first_said(lines.drop_last()) {
            Some(line) => Some(line),
            None => if text::trim_of(lines.last()).len() > 0 {
                Some(lines.last())
            } else {
                None
            },
        }
    }
}

/// Why the window failed: the first thing that it said.
pub open spec fn reason_of(stderr: Seq<char>) -> Seq<char> {
    match first_said(text::lines_of(stderr)) {
        Some(line) => text::trim_of(line),
        None => "the sign-in window closed without a session"@,
    }
}

proof fn lemma_first_said_stays(lines: Seq<Seq<char>>, n: int)
    requires
        0 <= n <= lines.len(),
        first_said(lines.take(n)) is Some,
    ensures
        first_said(lines) == first_said(lines.take(n)),
    decreases lines.len() - n,
{
    if n < lines.len() {
        assert(lines.take(n + 1).drop_last() =~= lines.take(n));
        lemma_first_said_stays(lines, n + 1);
    } else {
        assert(lines.take(n) =~= lines);
    }
}

/// Why the window failed, from what it wrote.
pub fn failure_reason(stderr: &str) -> (r: String)
    ensures
        r@ == reason_of(stderr@),
{
    let chars = text::to_chars(stderr);
    let lines = text::lines(&chars);
    let ghost all = text::lines_of(stderr@);
    let mut i: usize = 0;
    while i < lines.len()
        invariant
            i <= lines@.len() == all.len(),
            all == text::lines_of(stderr@),
            forall|k: int| 0 <= k < all.len() ==> (#[trigger] lines@[k])@ == all[k],
            first_said(all.take(i as int)) is None,
        decreases lines.len() - i,
    {
        proof {
            assert(all.take(i + 1).drop_last() =~= all.take(i as int));
            assert(lines@[i as int]@ == all[i as int]);
        }
        let inner = text::trim(&lines[i]);
        if inner.len() > 0 {
            proof {
                lemma_first_said_stays(all, i + 1);
            }
            return text::from_chars(&inner);
        }
        i += 1;
    }
    proof {
        assert(all.take(all.len() as int) =~= all);
    }
    "the sign-in window closed without a session".to_owned()
}

/// Why the window failed, from the bytes that it wrote.
pub fn failure_of(stderr: &[u8]) -> (r: String)
    ensures
        r@ == reason_of(text::lossy_of(stderr@)),
{
    let said = text::lossy(stderr);
    failure_reason(said.as_str())
}

/// What is kept of the session that the window printed, at a time in seconds
/// since 1970. One that cannot sign is refused.
pub fn import(printed: &str, at: u64) -> (r: Result<Import, String>)
    ensures
        match r {
            Ok(kept) => {
                &&& config::session_of(printed@) is Some
                &&& kept.browser@ == SESSION_NAME@
                &&& kept.header@ == text::trim_of(printed@)
                &&& kept.at == at
            },
            Err(why) => {
                &&& config::session_of(printed@) is None
                &&& why@ == "YouTube Music did not provide a signing cookie"@
            },
        },
{
    match Cookies::from_header(printed) {
        Some(cookies) => Ok(
            Import { browser: SESSION_NAME.to_owned(), header: cookies.header().to_owned(), at },
        ),
        None => Err("YouTube Music did not provide a signing cookie".to_owned()),
    }
}

/// Whether a pair of a cookie header is one that can sign.
pub open spec fn signs(piece: Seq<char>) -> bool {
    match config::pair_of(piece) {
        Some((name, value)) => (name == "SAPISID"@ || name == "__Secure-3PAPISID"@) && value.len()
            > 0,
        None => false,
    }
}

/// Whether a header has a cookie that can sign.
pub open spec fn can_sign(header: Seq<char>) -> bool {
    exists|i: int|
        0 <= i < text::split_of(header, ';').len() && signs(
            #[trigger] text::split_of(header, ';')[i],
        )
}

fn piece_signs(piece: &[char]) -> (r: bool)
    ensures
        r == signs(piece@),
{
    match config::pair(piece) {
        Some((name, value)) => {
            (text::same_chars(&name, &text::to_chars("SAPISID")) || text::same_chars(
                &name,
                &text::to_chars("__Secure-3PAPISID"),
            )) && value.len() > 0
        },
        None => false,
    }
}

/// Whether a header has a cookie that can sign.
pub fn has_signing_cookie(header: &str) -> (r: bool)
    ensures
        r == can_sign(header@),
{
    let chars = text::to_chars(header);
    let pieces = text::split(&chars, ';');
    let ghost all = text::split_of(header@, ';');
    let mut i: usize = 0;
    while i < pieces.len()
        invariant
            i <= pieces@.len() == all.len(),
            all == text::split_of(header@, ';'),
            forall|k: int| 0 <= k < all.len() ==> (#[trigger] pieces@[k])@ == all[k],
            forall|k: int| 0 <= k < i ==> !signs(#[trigger] all[k]),
        decreases pieces.len() - i,
    {
        proof {
            assert(pieces@[i as int]@ == all[i as int]);
        }
        if piece_signs(&pieces[i]) {
            return true;
        }
        i += 1;
    }
    false
}

/// Cookies as a header: each with its value, and `; ` between.
pub open spec fn header_of(cookies: Seq<(Seq<char>, Seq<char>)>) -> Seq<char> {
    text::joined(
        Seq::new(cookies.len(), |i: int| cookies[i].0 + "="@ + cookies[i].1),
        "; "@,
    )
}

/// What a list of cookies says.
pub open spec fn cookies_view(cookies: Seq<(String, String)>) -> Seq<(Seq<char>, Seq<char>)> {
    Seq::new(cookies.len(), |i: int| (cookies[i].0@, cookies[i].1@))
}

/// Cookies as a header.
pub fn cookie_header(cookies: &Vec<(String, String)>) -> (r: String)
    ensures
        r@ == header_of(cookies_view(cookies@)),
{
    let ghost all = cookies_view(cookies@);
    let ghost whole = Seq::new(all.len(), |i: int| all[i].0 + "="@ + all[i].1);
    let mut pairs: Vec<String> = Vec::new();
    let mut i: usize = 0;
    while i < cookies.len()
        invariant
            i <= cookies@.len(),
            all == cookies_view(cookies@),
            whole == Seq::new(all.len(), |i: int| all[i].0 + "="@ + all[i].1),
            source::views(pairs@) =~= whole.take(i as int),
        decreases cookies.len() - i,
    {
        let ghost before = pairs@;
        let pair = text::join3(cookies[i].0.as_str(), "=", cookies[i].1.as_str());
        pairs.push(pair);
        proof {
            assert(pair@ == whole[i as int]);
            assert(source::views(pairs@) =~= source::views(before).push(pair@));
        }
        i += 1;
    }
    proof {
        assert(source::views(pairs@) =~= whole);
    }
    text::join(&pairs, "; ")
}

/// Something that happened to the sign-in window.
#[derive(Debug)]
pub enum Happening {
    /// It was time to look: these are the cookies, or why there are none.
    Looked(Result<Vec<(String, String)>, String>),
    /// The user closed it.
    Closed,
    Other,
}

/// What a happening comes to: the session, or why there will be none, or
/// nothing yet.
pub fn outcome(happening: Happening) -> (r: Option<Result<String, String>>)
    ensures
        match happening {
            Happening::Looked(Ok(cookies)) => {
                let header = header_of(cookies_view(cookies@));
                if can_sign(header) {
                    r matches Some(Ok(found)) && found@ == header
                } else {
                    r is None
                }
            },
            Happening::Looked(Err(why)) => r matches Some(Err(said)) && said@ == why@,
            Happening::Closed => r matches Some(Err(said)) && said@
                == "YouTube Music sign-in was cancelled"@,
            Happening::Other => r is None,
        },
{
    match happening {
        Happening::Looked(Ok(cookies)) => {
            let header = cookie_header(&cookies);
            if has_signing_cookie(header.as_str()) {
                Some(Ok(header))
            } else {
                None
            }
        },
        Happening::Looked(Err(why)) => Some(Err(why)),
        Happening::Closed => Some(Err("YouTube Music sign-in was cancelled".to_owned())),
        Happening::Other => None,
    }
}

/// What is said where the profile of the window could not be removed.
pub fn leftover_message(path: &str, error: &str) -> (r: String)
    ensures
        r@ == "could not clear the sign-in window data at "@ + path@ + ": "@ + error@,
{
    let mut r = text::join3("could not clear the sign-in window data at ", path, ": ");
    r.append(error);
    r
}

proof fn lemma_value_found(pieces: Seq<Seq<char>>, name: Seq<char>, i: int)
    requires
        0 <= i < pieces.len(),
        config::pair_of(pieces[i]) is Some,
        (config::pair_of(pieces[i])->0).0 == name,
    ensures
        config::value_in(pieces, name) is Some,
    decreases pieces.len(),
{
    if i < pieces.len() - 1 {
        assert(pieces.drop_last()[i] == pieces[i]);
        lemma_value_found(pieces.drop_last(), name, i);
    }
}

/// A header that the window takes for a session has a value to sign with.
pub proof fn signing_header_has_a_value(header: Seq<char>)
    requires
        can_sign(header),
    ensures
        config::sapisid_in(header) is Some,
{
    let pieces = text::split_of(header, ';');
    let i = choose|i: int| 0 <= i < pieces.len() && signs(#[trigger] pieces[i]);
    let (name, _) = config::pair_of(pieces[i])->0;
    lemma_value_found(pieces, name, i);
}

/// The arguments that the player passes mean what they say: the profile path is
/// the one after the flag, and the session is forgotten exactly where it is
/// asked.
pub proof fn arguments_are_understood(path: Seq<char>, force: bool)
    ensures
        ({
            let plain = seq![PROFILE_ARG@, path];
            let args = if force {
                plain.push(FORCE_ARG@)
            } else {
                plain
            };
            arguments_from(args, 0, None, false) == Ok::<(usize, bool), ArgumentError>((1, force))
        }),
{
    reveal_strlit("--profile");
    reveal_strlit("--clear-session");
    assert(PROFILE_ARG@ != FORCE_ARG@) by {
        assert(PROFILE_ARG@.len() != FORCE_ARG@.len());
    }
    let plain = seq![PROFILE_ARG@, path];
    let args = if force {
        plain.push(FORCE_ARG@)
    } else {
        plain
    };
    reveal_with_fuel(arguments_from, 4);
    assert(args[0] == PROFILE_ARG@);
    if force {
        assert(args[2] == FORCE_ARG@);
    }
}

/// Why the window failed is the first of its lines that says anything, without
/// the space around it; and where it said nothing, that it closed.
pub proof fn reason_is_the_first_thing_said(lines: Seq<Seq<char>>, i: int)
    requires
        0 <= i < lines.len(),
        text::trim_of(lines[i]).len() > 0,
        forall|k: int| 0 <= k < i ==> text::trim_of(#[trigger] lines[k]).len() == 0,
    ensures
        first_said(lines) == Some(lines[i]),
    decreases lines.len(),
{
    let rest = lines.drop_last();
    if i < lines.len() - 1 {
        reason_is_the_first_thing_said(rest, i);
    } else {
        lemma_nothing_said(rest);
    }
}

proof fn lemma_nothing_said(lines: Seq<Seq<char>>)
    requires
        forall|k: int| 0 <= k < lines.len() ==> text::trim_of(#[trigger] lines[k]).len() == 0,
    ensures
        first_said(lines) is None,
    decreases lines.len(),
{
    if lines.len() > 0 {
        lemma_nothing_said(lines.drop_last());
        assert(text::trim_of(lines[lines.len() - 1]).len() == 0);
    }
}

/// Cookies that were put into a header can be read back from it: the first one by
/// its name, whatever the others are.
pub proof fn header_cookies_read_back(cookies: Seq<(Seq<char>, Seq<char>)>)
    requires
        cookies.len() > 0,
        !cookies[0].0.contains('='),
        !cookies[0].0.contains(';'),
        !cookies[0].1.contains(';'),
        text::trim_of(cookies[0].0) == cookies[0].0,
        text::trim_of(cookies[0].1) == cookies[0].1,
    ensures
        config::cookie_in(header_of(cookies), cookies[0].0) == Some(cookies[0].1),
{
    reveal_strlit("=");
    reveal_strlit("; ");
    let pairs = Seq::new(cookies.len(), |i: int| cookies[i].0 + "="@ + cookies[i].1);
    let (name, value) = cookies[0];
    let piece = name.push('=') + value;
    assert(pairs[0] =~= piece);
    let others = pairs.skip(1);
    if others.len() > 0 {
        assert(pairs =~= seq![pairs[0]] + others);
        text::lemma_joined_front(pairs[0], others, "; "@);
        let rest = seq![' '] + text::joined(others, "; "@);
        assert(header_of(cookies) =~= piece.push(';') + rest);
        config::cookie_is_read_by_its_name(name, value, rest);
    } else {
        config::cookie_is_read_by_its_name(name, value, Seq::empty());
    }
}

/// A pair can sign by its name and by having a value, and a header by one such
/// pair.
pub proof fn signing_takes_a_name_and_a_value(name: Seq<char>, value: Seq<char>, piece: Seq<char>)
    requires
        config::pair_of(piece) == Some((name, value)),
    ensures
        signs(piece) == ((name == "SAPISID"@ || name == "__Secure-3PAPISID"@) && value.len() > 0),
        !piece.contains(';') ==> can_sign(piece) == signs(piece),
{
    if !piece.contains(';') {
        let pieces = text::split_of(piece, ';');
        assert(pieces == seq![piece]);
        assert(pieces[0] == piece);
    }
}

/// A window that said something on its first line failed for that reason, without
/// the space around it; and one that said nothing closed without a session.
pub proof fn reason_is_what_was_said(line: Seq<char>, rest: Seq<char>)
    requires
        !line.contains('\n'),
        !line.contains('\r'),
    ensures
        text::trim_of(line).len() > 0 ==> reason_of(line.push('\n') + rest) == text::trim_of(line),
        text::trim_of(line).len() == 0 ==> reason_of(line.push('\n') + rest) == reason_of(rest),
        reason_of(Seq::empty()) == "the sign-in window closed without a session"@,
{
    text::line_feed_ends_a_line(line, rest);
    let others = text::lines_of(rest);
    let lines = seq![line] + others;
    if text::trim_of(line).len() > 0 {
        reason_is_the_first_thing_said(lines, 0);
    } else {
        lemma_blank_front(line, others);
    }
    text::separator_ends_a_piece(Seq::empty(), '\n', rest);
    assert(text::lines_of(Seq::empty()) =~= Seq::empty());
}

proof fn lemma_blank_front(line: Seq<char>, rest: Seq<Seq<char>>)
    requires
        text::trim_of(line).len() == 0,
    ensures
        first_said(seq![line] + rest) == first_said(rest),
    decreases rest.len(),
{
    let all = seq![line] + rest;
    if rest.len() == 0 {
        assert(all.drop_last() =~= Seq::empty());
        assert(first_said(all.drop_last()) is None);
    } else {
        assert(all.drop_last() =~= seq![line] + rest.drop_last());
        assert(all.last() == rest.last());
        lemma_blank_front(line, rest.drop_last());
    }
}

} // verus!
