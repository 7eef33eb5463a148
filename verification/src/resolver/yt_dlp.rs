//! The fallback: what yt-dlp is asked, and what is made of its answer.

use vstd::prelude::*;

use super::url;
use super::{PlaybackSession, ResolveSource, ResolvedStream};
use crate::text;

verus! {

broadcast use vstd::string::group_string_axioms;

/// The formats that the decoder can consume, best first.
pub const AUDIO_FORMAT: &'static str = "141/140/bestaudio[ext=m4a]";

/// The same through YouTube Music, which may offer a muxed file only.
pub const MUSIC_FORMAT: &'static str = "141/140/bestaudio[ext=m4a]/18";

/// How long one request of yt-dlp may take, in seconds.
pub const SOCKET_TIMEOUT: &'static str = "10";

/// The client that YouTube Music is asked through.
pub const MUSIC_CLIENT: &'static str = "youtube:player_client=web_music;player_skip=webpage,configs";

/// What a video refused by Restricted Mode is reported with.
pub const RESTRICTED: &'static str = "This video is restricted";

/// How one run of yt-dlp goes about a video.
#[derive(Debug, Clone, Copy, PartialEq, Eq, Structural)]
pub struct Attempt {
    /// Whether it carries the session.
    pub signed: bool,
    /// Whether it goes through YouTube Music.
    pub music: bool,
}

impl Attempt {
    /// The address in front of the video id.
    pub open spec fn address_of(self) -> Seq<char> {
        if self.music {
            "https://music.youtube.com/watch?v="@
        } else {
            "https://www.youtube.com/watch?v="@
        }
    }

    /// The formats that it asks for.
    pub open spec fn format_of(self) -> Seq<char> {
        if self.music {
            MUSIC_FORMAT@
        } else {
            AUDIO_FORMAT@
        }
    }

    /// Where its stream is said to come from.
    pub open spec fn source_of(self) -> ResolveSource {
        if self.music {
            ResolveSource::YtDlpMusic
        } else {
            ResolveSource::YtDlp
        }
    }

    pub fn address(self) -> (r: &'static str)
        ensures
            r@ == self.address_of(),
    {
        if self.music {
            "https://music.youtube.com/watch?v="
        } else {
            "https://www.youtube.com/watch?v="
        }
    }

    pub fn format(self) -> (r: &'static str)
        ensures
            r@ == self.format_of(),
    {
        if self.music {
            MUSIC_FORMAT
        } else {
            AUDIO_FORMAT
        }
    }

    pub fn source(self) -> (r: ResolveSource)
        ensures
            r == self.source_of(),
    {
        if self.music {
            ResolveSource::YtDlpMusic
        } else {
            ResolveSource::YtDlp
        }
    }
}

/// The attempts that are made, in order: through YouTube Music first, and with
/// the session before without it.
pub open spec fn attempts_of(signed: bool) -> Seq<Attempt> {
    if signed {
        seq![
            Attempt { signed: true, music: true },
            Attempt { signed: false, music: true },
            Attempt { signed: true, music: false },
            Attempt { signed: false, music: false },
        ]
    } else {
        seq![Attempt { signed: false, music: true }, Attempt { signed: false, music: false }]
    }
}

/// Attempt number `i`, where there are so many.
pub fn attempt(signed: bool, i: usize) -> (r: Option<Attempt>)
    ensures
        match r {
            Some(a) => i < attempts_of(signed).len() && a == attempts_of(signed)[i as int],
            None => i >= attempts_of(signed).len(),
        },
{
    if signed {
        match i {
            0 => Some(Attempt { signed: true, music: true }),
            1 => Some(Attempt { signed: false, music: true }),
            2 => Some(Attempt { signed: true, music: false }),
            3 => Some(Attempt { signed: false, music: false }),
            _ => None,
        }
    } else {
        match i {
            0 => Some(Attempt { signed: false, music: true }),
            1 => Some(Attempt { signed: false, music: false }),
            _ => None,
        }
    }
}

/// Whatever happens, each address is tried without the session too.
pub proof fn anonymous_attempts_are_always_made(signed: bool, music: bool)
    ensures
        attempts_of(signed).contains(Attempt { signed: false, music }),
        !signed ==> !attempts_of(signed).contains(Attempt { signed: true, music }),
{
    let wanted = Attempt { signed: false, music };
    if signed {
        assert(attempts_of(signed)[if music { 1int } else { 3int }] == wanted);
    } else {
        assert(attempts_of(signed)[if music { 0int } else { 1int }] == wanted);
    }
}

/// The arguments of a run: the runtime, the formats, what is to be printed, the
/// client, the cookie jar, and the video. No cookie is among them; at most the
/// path of a jar is.
pub open spec fn arguments_of(
    attempt: Attempt,
    js_runtime: Option<Seq<char>>,
    jar: Option<Seq<char>>,
    video_id: Seq<char>,
) -> Seq<Seq<char>> {
    (match js_runtime {
        Some(runtime) => seq!["--no-js-runtimes"@, "--js-runtimes"@, runtime],
        None => seq![],
    }) + seq![
        "--format"@,
        attempt.format_of(),
        "--print"@,
        "urls"@,
        "--no-warnings"@,
        "--ignore-config"@,
        "--socket-timeout"@,
        SOCKET_TIMEOUT@,
    ] + (if attempt.music {
        seq!["--extractor-args"@, MUSIC_CLIENT@]
    } else {
        seq![]
    }) + (match jar {
        Some(path) => seq!["--cookies"@, path],
        None => seq![],
    }) + seq![attempt.address_of() + video_id]
}

/// The arguments of a run.
pub fn arguments(
    attempt: Attempt,
    js_runtime: &Option<String>,
    jar: &Option<String>,
    video_id: &str,
) -> (r: Vec<String>)
    ensures
        crate::source::views(r@) == arguments_of(
            attempt,
            text::opt_view(*js_runtime),
            text::opt_view(*jar),
            video_id@,
        ),
{
    let mut r: Vec<String> = Vec::new();
    if let Some(runtime) = js_runtime {
        r.push("--no-js-runtimes".to_owned());
        r.push("--js-runtimes".to_owned());
        r.push(runtime.clone());
    }
    r.push("--format".to_owned());
    r.push(attempt.format().to_owned());
    r.push("--print".to_owned());
    r.push("urls".to_owned());
    r.push("--no-warnings".to_owned());
    r.push("--ignore-config".to_owned());
    r.push("--socket-timeout".to_owned());
    r.push(SOCKET_TIMEOUT.to_owned());
    if attempt.music {
        r.push("--extractor-args".to_owned());
        r.push(MUSIC_CLIENT.to_owned());
    }
    if let Some(path) = jar {
        r.push("--cookies".to_owned());
        r.push(path.clone());
    }
    r.push(text::join2(attempt.address(), video_id));
    proof {
        assert(crate::source::views(r@) =~= arguments_of(
            attempt,
            text::opt_view(*js_runtime),
            text::opt_view(*jar),
            video_id@,
        ));
    }
    r
}

/// What is done about a run of yt-dlp that was started some time ago.
#[derive(Debug, Clone, Copy, PartialEq, Eq, Structural)]
pub enum Wait {
    /// It has ended: read what it said.
    Read,
    /// It has had its time: kill it.
    Kill,
    /// Look again a little later.
    Sleep,
}

/// What is done about a run that has taken so long, in nanoseconds.
pub fn wait_step(ended: bool, elapsed: u64, timeout: u64) -> (r: Wait)
    ensures
        r == if ended {
            Wait::Read
        } else if elapsed >= timeout {
            Wait::Kill
        } else {
            Wait::Sleep
        },
{
    if ended {
        Wait::Read
    } else if elapsed >= timeout {
        Wait::Kill
    } else {
        Wait::Sleep
    }
}

/// What is said of a run that had to be killed. A time under a second is called
/// one.
pub open spec fn timeout_of(video_id: Seq<char>, timeout: u64) -> Seq<char> {
    let secs = if timeout / 1_000_000_000 == 0 {
        1
    } else {
        timeout / 1_000_000_000
    };
    "could not resolve "@ + video_id + ": yt-dlp timed out after "@ + text::decimal_of(secs as nat)
        + " seconds"@
}

/// What is said of a run that had to be killed.
pub fn timeout_message(video_id: &str, timeout: u64) -> (r: String)
    ensures
        r@ == timeout_of(video_id@, timeout),
{
    let whole: u64 = timeout / 1_000_000_000;
    let secs: u64 = if whole == 0 {
        1
    } else {
        whole
    };
    let shown = text::decimal(secs);
    let mut r = text::join3("could not resolve ", video_id, ": yt-dlp timed out after ");
    r.append(shown.as_str());
    r.append(" seconds");
    r
}

/// Whether a text is a video id: eleven letters, digits, dashes and underscores.
pub open spec fn is_id(s: Seq<char>) -> bool {
    s.len() == 11 && forall|i: int| 0 <= i < s.len() ==> id_char(#[trigger] s[i])
}

/// Whether a character may stand in a video id.
pub open spec fn id_char(c: char) -> bool {
    'a' <= c <= 'z' || 'A' <= c <= 'Z' || '0' <= c <= '9' || c == '-' || c == '_'
}

/// Whether a text is a video id.
pub fn is_video_id(value: &[char]) -> (r: bool)
    ensures
        r == is_id(value@),
{
    if value.len() != 11 {
        return false;
    }
    let mut i: usize = 0;
    while i < value.len()
        invariant
            i <= value@.len(),
            forall|k: int| 0 <= k < i ==> id_char(#[trigger] value@[k]),
        decreases value.len() - i,
    {
        let c = value[i];
        let fits = ('a' <= c && c <= 'z') || ('A' <= c && c <= 'Z') || ('0' <= c && c <= '9') || c
            == '-' || c == '_';
        if !fits {
            return false;
        }
        i += 1;
    }
    true
}

/// An error of yt-dlp without what stands in front of it: the word, the name of
/// the extractor, and the video id.
pub open spec fn stripped(line: Seq<char>) -> Seq<char> {
    let said = match text::after_prefix(line, "ERROR: "@) {
        Some(rest) => rest,
        None => line,
    };
    let named = match text::after_prefix(said, "["@) {
        Some(rest) => match text::place_in(rest, "] "@, 0) {
            Some(i) => rest.skip(i + 2),
            None => said,
        },
        None => said,
    };
    match text::place_in(named, ": "@, 0) {
        Some(i) => if is_id(named.take(i)) {
            named.skip(i + 2)
        } else {
            named
        },
        None => named,
    }
}

/// An error of yt-dlp without what stands in front of it.
pub fn strip_preamble(line: &[char]) -> (r: Vec<char>)
    ensures
        r@ == stripped(line@),
{
    proof {
        reveal_strlit("] ");
        reveal_strlit(": ");
    }
    let said = match text::strip_prefix(line, &text::to_chars("ERROR: ")) {
        Some(rest) => rest,
        None => {
            let all = text::part(line, 0, line.len());
            proof {
                assert(all@ =~= line@);
            }
            all
        },
    };
    let named = match text::strip_prefix(&said, &text::to_chars("[")) {
        Some(rest) => match text::split_once(&rest, &text::to_chars("] ")) {
            Some((_, tail)) => tail,
            None => said,
        },
        None => said,
    };
    if let Some((head, tail)) = text::split_once(&named, &text::to_chars(": ")) {
        if is_video_id(&head) {
            return tail;
        }
    }
    named
}

/// The first line that speaks of an error.
pub open spec fn first_error(lines: Seq<Seq<char>>) -> Option<Seq<char>>
    decreases lines.len(),
{
    if lines.len() == 0 {
        None
    } else {
        match first_error(lines.drop_last()) {
            Some(line) => Some(line),
            None => if text::occurs(lines.last(), "ERROR"@) {
                Some(lines.last())
            } else {
                None
            },
        }
    }
}

/// The last line that is not blank.
pub open spec fn last_said(lines: Seq<Seq<char>>) -> Option<Seq<char>>
    decreases lines.len(),
{
    if lines.len() == 0 {
        None
    } else if text::trim_of(lines.last()).len() > 0 {
        Some(lines.last())
    } else {
        last_said(lines.drop_last())
    }
}

/// What yt-dlp complained of: its first error, or else the last thing it said.
pub open spec fn complaint_of(output: Seq<char>) -> Seq<char> {
    let lines = text::lines_of(output);
    let line = match first_error(lines) {
        Some(line) => line,
        None => match last_said(lines) {
            Some(line) => line,
            None => "no error output"@,
        },
    };
    stripped(text::trim_of(line))
}

proof fn lemma_first_error_stays(lines: Seq<Seq<char>>, n: int)
    requires
        0 <= n <= lines.len(),
        first_error(lines.take(n)) is Some,
    ensures
        first_error(lines) == first_error(lines.take(n)),
    decreases lines.len() - n,
{
    if n < lines.len() {
        assert(lines.take(n + 1).drop_last() =~= lines.take(n));
        lemma_first_error_stays(lines, n + 1);
    } else {
        assert(lines.take(n) =~= lines);
    }
}

/// What yt-dlp complained of.
pub fn complaint(output: &str) -> (r: String)
    ensures
        r@ == complaint_of(output@),
{
    let chars = text::to_chars(output);
    let lines = text::lines(&chars);
    let ghost all = text::lines_of(output@);
    let word = text::to_chars("ERROR");
    let mut i: usize = 0;
    while i < lines.len()
        invariant
            i <= lines@.len() == all.len(),
            all == text::lines_of(output@),
            word@ == "ERROR"@,
            forall|k: int| 0 <= k < all.len() ==> (#[trigger] lines@[k])@ == all[k],
            first_error(all.take(i as int)) is None,
        decreases lines.len() - i,
    {
        proof {
            assert(all.take(i + 1).drop_last() =~= all.take(i as int));
            assert(lines@[i as int]@ == all[i as int]);
        }
        if text::contains(&lines[i], &word) {
            proof {
                lemma_first_error_stays(all, i + 1);
            }
            let inner = text::trim(&lines[i]);
            return text::from_chars(&strip_preamble(&inner));
        }
        i += 1;
    }
    proof {
        assert(all.take(all.len() as int) =~= all);
    }
    let mut n: usize = lines.len();
    while n > 0
        invariant
            n <= lines@.len() == all.len(),
            all == text::lines_of(output@),
            first_error(all) is None,
            forall|k: int| 0 <= k < all.len() ==> (#[trigger] lines@[k])@ == all[k],
            last_said(all) == last_said(all.take(n as int)),
        decreases n,
    {
        proof {
            assert(all.take(n as int).drop_last() =~= all.take(n - 1));
            assert(lines@[n - 1]@ == all[n - 1]);
        }
        let inner = text::trim(&lines[n - 1]);
        if inner.len() > 0 {
            return text::from_chars(&strip_preamble(&inner));
        }
        n -= 1;
    }
    proof {
        assert(last_said(all) is None);
    }
    let none = text::to_chars("no error output");
    let inner = text::trim(&none);
    text::from_chars(&strip_preamble(&inner))
}

/// What yt-dlp complained of, from the bytes that it wrote.
pub fn first_error_line(stderr: &[u8]) -> (r: String)
    ensures
        r@ == complaint_of(text::lossy_of(stderr@)),
{
    let output = text::lossy(stderr);
    complaint(output.as_str())
}

/// What a run that ended came to: a stream, or why there is none.
pub open spec fn outcome_of(
    success: bool,
    stdout: Seq<char>,
    stderr: Seq<char>,
    video_id: Seq<char>,
    source: ResolveSource,
) -> Result<ResolvedStream<Seq<char>>, Seq<char>> {
    let address = text::trim_of(stdout);
    if !success {
        Err("could not resolve "@ + video_id + ": "@ + complaint_of(stderr))
    } else if address.len() == 0 {
        Err("yt-dlp returned no stream URL for "@ + video_id)
    } else {
        Ok(url::stream_of(address, url::itag_in(address), source))
    }
}

/// What a run that ended came to, from what it wrote.
pub fn outcome(
    success: bool,
    stdout: &str,
    stderr: &str,
    video_id: &str,
    source: ResolveSource,
) -> (r: Result<ResolvedStream, String>)
    ensures
        super::result_view(r) == outcome_of(success, stdout@, stderr@, video_id@, source),
{
    if !success {
        let why = complaint(stderr);
        let mut said = text::join3("could not resolve ", video_id, ": ");
        said.append(why.as_str());
        return Err(said);
    }
    let printed = text::to_chars(stdout);
    let trimmed = text::trim(&printed);
    if trimmed.len() == 0 {
        return Err(text::join2("yt-dlp returned no stream URL for ", video_id));
    }
    let address = text::from_chars(&trimmed);
    let itag = url::itag(address.as_str());
    Ok(url::stream(address, itag, source))
}

/// What a run that ended came to, from the bytes that it wrote.
pub fn read_output(
    success: bool,
    stdout: &[u8],
    stderr: &[u8],
    video_id: &str,
    source: ResolveSource,
) -> (r: Result<ResolvedStream, String>)
    ensures
        super::result_view(r) == outcome_of(
            success,
            text::lossy_of(stdout@),
            text::lossy_of(stderr@),
            video_id@,
            source,
        ),
{
    let out = text::lossy(stdout);
    let err = text::lossy(stderr);
    outcome(success, out.as_str(), err.as_str(), video_id, source)
}

/// Whether a text would break out of a field of a cookie jar.
pub open spec fn breaks_field(s: Seq<char>) -> bool {
    s.contains('\t') || s.contains('\r') || s.contains('\n')
}

/// The line of a cookie jar for one pair of a cookie header. Nothing for what
/// is no pair, or would break the format.
pub open spec fn jar_line(pair: Seq<char>) -> Seq<char> {
    let inner = text::trim_of(pair);
    match text::place_in(inner, "="@, 0) {
        Some(i) => {
            let name = inner.take(i);
            let value = inner.skip(i + 1);
            if name.len() == 0 || breaks_field(name) || breaks_field(value) {
                Seq::empty()
            } else {
                ".youtube.com\tTRUE\t/\tTRUE\t0\t"@ + name + "\t"@ + value + "\n"@
            }
        },
        None => Seq::empty(),
    }
}

/// The lines of a cookie jar for the pairs of a cookie header.
pub open spec fn jar_lines(pairs: Seq<Seq<char>>) -> Seq<char>
    decreases pairs.len(),
{
    if pairs.len() == 0 {
        Seq::empty()
    } else {
        jar_lines(pairs.drop_last()) + jar_line(pairs.last())
    }
}

/// A Netscape cookie jar that holds what a cookie header holds.
pub open spec fn jar_of(cookie_header: Seq<char>) -> Seq<char> {
    "# Netscape HTTP Cookie File\n"@ + jar_lines(text::split_of(cookie_header, ';'))
}

fn field_breaks(chars: &[char]) -> (r: bool)
    ensures
        r == breaks_field(chars@),
{
    let mut i: usize = 0;
    while i < chars.len()
        invariant
            i <= chars@.len(),
            forall|k: int|
                0 <= k < i ==> (#[trigger] chars@[k]) != '\t' && chars@[k] != '\r' && chars@[k]
                    != '\n',
        decreases chars.len() - i,
    {
        if chars[i] == '\t' || chars[i] == '\r' || chars[i] == '\n' {
            proof {
                assert(chars@.contains(chars@[i as int]));
            }
            return true;
        }
        i += 1;
    }
    false
}

fn push_jar_line(jar: &mut String, pair: &[char])
    ensures
        final(jar)@ == old(jar)@ + jar_line(pair@),
{
    proof {
        reveal_strlit("=");
    }
    let inner = text::trim(pair);
    if let Some((name, value)) = text::split_once(&inner, &text::to_chars("=")) {
        if name.len() > 0 && !field_breaks(&name) && !field_breaks(&value) {
            jar.append(".youtube.com\tTRUE\t/\tTRUE\t0\t");
            jar.append(text::from_chars(&name).as_str());
            jar.append("\t");
            jar.append(text::from_chars(&value).as_str());
            jar.append("\n");
            proof {
                assert(jar@ =~= old(jar)@ + jar_line(pair@));
            }
            return;
        }
    }
    proof {
        assert(jar@ =~= old(jar)@ + jar_line(pair@));
    }
}

/// A Netscape cookie jar that holds the session.
pub fn session_jar(session: &PlaybackSession) -> (r: String)
    ensures
        r@ == jar_of(session@.cookie_header),
{
    let header = session.cookie_header();
    let chars = text::to_chars(header);
    let pairs = text::split(&chars, ';');
    let ghost all = text::split_of(header@, ';');
    let mut jar = "# Netscape HTTP Cookie File\n".to_owned();
    let mut i: usize = 0;
    proof {
        assert(jar@ =~= "# Netscape HTTP Cookie File\n"@ + jar_lines(all.take(0)));
    }
    while i < pairs.len()
        invariant
            i <= pairs@.len() == all.len(),
            forall|k: int| 0 <= k < all.len() ==> (#[trigger] pairs@[k])@ == all[k],
            jar@ == "# Netscape HTTP Cookie File\n"@ + jar_lines(all.take(i as int)),
        decreases pairs.len() - i,
    {
        push_jar_line(&mut jar, &pairs[i]);
        proof {
            let next = all.take(i + 1);
            assert(next.drop_last() =~= all.take(i as int));
            assert(next.last() == pairs@[i as int]@);
            assert(jar@ =~= "# Netscape HTTP Cookie File\n"@ + jar_lines(next));
        }
        i += 1;
    }
    proof {
        assert(all.take(all.len() as int) =~= all);
    }
    jar
}

/// A line of a jar stays one line: no line feed stands in it but the one that
/// ends it.
pub proof fn jar_lines_stay_whole(pair: Seq<char>, i: int)
    requires
        0 <= i < jar_line(pair).len() - 1,
    ensures
        jar_line(pair)[i] != '\n',
        jar_line(pair).last() == '\n',
{
    reveal_strlit(".youtube.com\tTRUE\t/\tTRUE\t0\t");
    reveal_strlit("\t");
    reveal_strlit("\n");
    let inner = text::trim_of(pair);
    let at = text::place_in(inner, "="@, 0)->0;
    let name = inner.take(at);
    let value = inner.skip(at + 1);
    let head = ".youtube.com\tTRUE\t/\tTRUE\t0\t"@;
    let line = jar_line(pair);
    assert(line == head + name + "\t"@ + value + "\n"@);
    if head.len() <= i < head.len() + name.len() {
        assert(line[i] == name[i - head.len()]);
        assert(name.contains(name[i - head.len()]));
    } else if head.len() + name.len() < i {
        assert(line[i] == value[i - head.len() - name.len() - 1]);
        assert(value.contains(value[i - head.len() - name.len() - 1]));
    }
}

/// A run is asked for one video at the address of its attempt, for the formats of
/// its attempt, and to print their URLs. A jar is named where there is one, and
/// nothing else about the session is; so is the runtime.
pub proof fn arguments_name_the_video(
    attempt: Attempt,
    js_runtime: Option<Seq<char>>,
    jar: Option<Seq<char>>,
    video_id: Seq<char>,
)
    ensures
        ({
            let args = arguments_of(attempt, js_runtime, jar, video_id);
            let n = args.len() as int;
            let at = if js_runtime is Some {
                3int
            } else {
                0
            };
            &&& args[n - 1] == (if attempt.music {
                "https://music.youtube.com/watch?v="@
            } else {
                "https://www.youtube.com/watch?v="@
            }) + video_id
            &&& jar is Some ==> args[n - 3] == "--cookies"@ && args[n - 2] == jar->0
            &&& js_runtime is Some ==> args[1] == "--js-runtimes"@ && args[2] == js_runtime->0
            &&& args[at] == "--format"@
            &&& attempt.music ==> args[at + 1] == "141/140/bestaudio[ext=m4a]/18"@
            &&& !attempt.music ==> args[at + 1] == "141/140/bestaudio[ext=m4a]"@
            &&& args[at + 2] == "--print"@
            &&& args[at + 3] == "urls"@
            &&& attempt.music ==> args[at + 8] == "--extractor-args"@
            &&& n == at + 9 + (if attempt.music {
                2int
            } else {
                0
            }) + (if jar is Some {
                2int
            } else {
                0
            })
        }),
{
}

/// A run that printed a URL gives that URL, without the space around it, with the
/// numbers that it states; one that failed gives no stream, and one that printed
/// nothing gives none either.
pub proof fn printed_url_is_the_stream(
    success: bool,
    stdout: Seq<char>,
    stderr: Seq<char>,
    video_id: Seq<char>,
    source: ResolveSource,
)
    ensures
        ({
            let r = outcome_of(success, stdout, stderr, video_id, source);
            let address = text::trim_of(stdout);
            &&& r is Ok <==> success && address.len() > 0
            &&& r is Ok ==> {
                &&& r->Ok_0.url == address
                &&& r->Ok_0.source == source
                &&& r->Ok_0.expires_at == url::number_in(address, "expire"@)
                &&& r->Ok_0.content_length == url::number_in(address, "clen"@)
                &&& r->Ok_0.format.itag == url::itag_in(address)
            }
            &&& !success ==> r->Err_0 == "could not resolve "@ + video_id + ": "@ + complaint_of(
                stderr,
            )
        }),
{
}

/// Of what a run complained, its first line that speaks of an error counts,
/// wherever it stands.
pub proof fn first_error_counts(lines: Seq<Seq<char>>, i: int)
    requires
        0 <= i < lines.len(),
        text::occurs(lines[i], "ERROR"@),
        forall|k: int| 0 <= k < i ==> !text::occurs(#[trigger] lines[k], "ERROR"@),
    ensures
        first_error(lines) == Some(lines[i]),
    decreases lines.len(),
{
    let rest = lines.drop_last();
    if i < lines.len() - 1 {
        first_error_counts(rest, i);
    } else {
        lemma_no_error(rest);
    }
}

proof fn lemma_no_error(lines: Seq<Seq<char>>)
    requires
        forall|k: int| 0 <= k < lines.len() ==> !text::occurs(#[trigger] lines[k], "ERROR"@),
    ensures
        first_error(lines) is None,
    decreases lines.len(),
{
    if lines.len() > 0 {
        lemma_no_error(lines.drop_last());
        assert(!text::occurs(lines[lines.len() - 1], "ERROR"@));
    }
}

/// Where no line speaks of an error, the last one that says anything counts.
pub proof fn last_word_counts(lines: Seq<Seq<char>>, i: int)
    requires
        0 <= i < lines.len(),
        text::trim_of(lines[i]).len() > 0,
        forall|k: int| i < k < lines.len() ==> text::trim_of(#[trigger] lines[k]).len() == 0,
    ensures
        last_said(lines) == Some(lines[i]),
    decreases lines.len(),
{
    if i < lines.len() - 1 {
        assert(text::trim_of(lines[lines.len() - 1]).len() == 0);
        last_word_counts(lines.drop_last(), i);
    }
}

/// The preamble of an error is cut off: the word, the name of the extractor in its
/// brackets, and the video id. What is said after them stays as it is.
#[verifier::spinoff_prover]
pub proof fn preamble_is_cut_off(extractor: Seq<char>, id: Seq<char>, said: Seq<char>)
    requires
        !extractor.contains(']'),
        is_id(id),
    ensures
        stripped("ERROR: ["@ + extractor + "] "@ + id + ": "@ + said) == said,
{
    reveal_strlit("ERROR: [");
    reveal_strlit("ERROR: ");
    reveal_strlit("[");
    reveal_strlit("] ");
    reveal_strlit(": ");
    let named = id + ": "@ + said;
    let rest = extractor + "] "@ + named;
    let bracketed = "["@ + rest;
    let line = "ERROR: ["@ + extractor + "] "@ + id + ": "@ + said;
    assert(line =~= "ERROR: "@ + bracketed);
    text::prefix_is_taken_off("ERROR: "@, bracketed);
    text::prefix_is_taken_off("["@, rest);
    text::place_is_behind_the_front(extractor, "] "@, named);
    assert(!id.contains(':')) by {
        if id.contains(':') {
            let k = choose|k: int| 0 <= k < id.len() && id[k] == ':';
            assert(id_char(id[k]));
        }
    }
    text::place_is_behind_the_front(id, ": "@, said);
}

/// A line that has no such preamble is said as it is.
pub proof fn plain_complaint_is_kept(line: Seq<char>)
    requires
        line.len() > 0,
        line[0] != 'E',
        line[0] != '[',
        text::place_in(line, ": "@, 0) is None,
    ensures
        stripped(line) == line,
{
    reveal_strlit("ERROR: ");
    reveal_strlit("[");
    if text::occurs_at(line, "ERROR: "@, 0) {
        assert(line.subrange(0, "ERROR: "@.len() as int)[0] == "ERROR: "@[0]);
    }
    if text::occurs_at(line, "["@, 0) {
        assert(line.subrange(0, "["@.len() as int)[0] == "["@[0]);
    }
}

/// A pair of a cookie header becomes one line of the jar, whose fields end in the
/// cookie's name and its value, for the whole of YouTube. Nothing is lost: the
/// value may itself hold the sign that ends the name.
pub proof fn cookies_go_into_the_jar(name: Seq<char>, value: Seq<char>)
    requires
        name.len() > 0,
        !name.contains('='),
        !breaks_field(name),
        !breaks_field(value),
        text::trim_of(name.push('=') + value) == name.push('=') + value,
    ensures
        jar_line(name.push('=') + value) == ".youtube.com\tTRUE\t/\tTRUE\t0\t"@ + name + "\t"@
            + value + "\n"@,
{
    reveal_strlit("=");
    assert(name.push('=') + value =~= name + "="@ + value);
    text::place_is_behind_the_front(name, "="@, value);
}

/// Every pair of a header has its line in the jar, in the order of the header.
pub proof fn jar_keeps_the_order(pair: Seq<char>, rest: Seq<char>)
    requires
        !pair.contains(';'),
    ensures
        jar_of(pair.push(';') + rest) == "# Netscape HTTP Cookie File\n"@ + jar_line(pair)
            + jar_lines(text::split_of(rest, ';')),
{
    text::separator_ends_a_piece(pair, ';', rest);
    lemma_jar_front(pair, text::split_of(rest, ';'));
    assert(jar_of(pair.push(';') + rest) =~= "# Netscape HTTP Cookie File\n"@ + jar_line(pair)
        + jar_lines(text::split_of(rest, ';')));
}

proof fn lemma_jar_front(first: Seq<char>, rest: Seq<Seq<char>>)
    ensures
        jar_lines(seq![first] + rest) == jar_line(first) + jar_lines(rest),
    decreases rest.len(),
{
    let all = seq![first] + rest;
    if rest.len() == 0 {
        assert(all.drop_last() =~= Seq::empty());
        assert(jar_lines(all.drop_last()) =~= Seq::empty());
        assert(jar_lines(all) =~= jar_line(first) + jar_lines(rest));
    } else {
        assert(all.drop_last() =~= seq![first] + rest.drop_last());
        assert(all.last() == rest.last());
        lemma_jar_front(first, rest.drop_last());
        assert(jar_lines(all) =~= jar_line(first) + jar_lines(rest));
    }
}

/// What is made of an error on the first line of the output is that line, without
/// the space around it and without its preamble.
pub proof fn complaint_is_the_error(line: Seq<char>, rest: Seq<char>)
    requires
        !line.contains('\n'),
        !line.contains('\r'),
        text::occurs(line, "ERROR"@),
    ensures
        complaint_of(line.push('\n') + rest) == stripped(text::trim_of(line)),
{
    text::line_feed_ends_a_line(line, rest);
    first_error_counts(seq![line] + text::lines_of(rest), 0);
}

/// A run that was killed is told with the video and the whole seconds that it had,
/// or one.
pub proof fn killed_runs_are_told(video_id: Seq<char>, secs: u64, rest: u64)
    requires
        rest < 1_000_000_000,
        secs * 1_000_000_000 + rest <= u64::MAX,
    ensures
        timeout_of(video_id, (secs * 1_000_000_000 + rest) as u64) == "could not resolve "@
            + video_id + ": yt-dlp timed out after "@ + text::decimal_of(
            if secs == 0 {
                1
            } else {
                secs as nat
            },
        ) + " seconds"@,
{
    assert((secs * 1_000_000_000 + rest) / 1_000_000_000 == secs);
}

/// A video id has eleven characters, each a letter, a digit, a dash or an
/// underscore.
pub proof fn ids_have_eleven_characters(s: Seq<char>, i: int)
    ensures
        is_id(s) ==> s.len() == 11,
        is_id(s) && 0 <= i < 11 ==> 'a' <= s[i] <= 'z' || 'A' <= s[i] <= 'Z' || '0' <= s[i] <= '9'
            || s[i] == '-' || s[i] == '_',
        s.len() == 11 && (forall|k: int| 0 <= k < 11 ==> 'a' <= (#[trigger] s[k]) <= 'z') ==> is_id(
            s,
        ),
{
}

} // verus!
