//! Validated audio stream resolution.
//!
//! The fast path asks YouTube's player API. yt-dlp is the fallback, for videos
//! that need more than that. Every URL is probed near its end before it can be
//! kept or returned.

use vstd::prelude::*;

pub mod cache;
pub mod hunt;
pub mod player_api;
pub mod sha1;
pub mod url;
pub mod yt_dlp;

use self::cache::{Entry, UrlCache};
use self::hunt::{Hunt, Step};
use crate::text;

verus! {

broadcast use vstd::string::group_string_axioms;

/// Audio format information known at resolution time.
#[derive(Debug, Clone, Copy, PartialEq, Eq, Structural)]
pub struct AudioFormat {
    /// The number of the representation, where it is known.
    pub itag: Option<u32>,
}

/// Which tier produced a stream URL.
#[derive(Debug, Clone, Copy, PartialEq, Eq, Structural)]
pub enum ResolveSource {
    Cache,
    InnerTubeWebMusic,
    InnerTubeIos,
    InnerTubeAndroidVr,
    YtDlp,
    YtDlpMusic,
}

/// A complete, directly streamable URL.
#[derive(Debug)]
pub struct ResolvedStream<S = String> {
    pub url: S,
    /// When the URL stops being honoured, in seconds since 1970.
    pub expires_at: Option<u64>,
    pub content_length: Option<u64>,
    pub format: AudioFormat,
    pub source: ResolveSource,
}

/// The name that the player and the messages of the program use.
pub type StreamUrl = ResolvedStream<String>;

impl View for ResolvedStream {
    type V = ResolvedStream<Seq<char>>;

    open spec fn view(&self) -> ResolvedStream<Seq<char>> {
        ResolvedStream {
            url: self.url@,
            expires_at: self.expires_at,
            content_length: self.content_length,
            format: self.format,
            source: self.source,
        }
    }
}

impl Clone for ResolvedStream {
    fn clone(&self) -> (r: Self)
        ensures
            r@ == self@,
    {
        ResolvedStream {
            url: self.url.clone(),
            expires_at: self.expires_at,
            content_length: self.content_length,
            format: self.format,
            source: self.source,
        }
    }
}

/// What an outcome says.
pub open spec fn result_view(r: Result<ResolvedStream, String>) -> Result<
    ResolvedStream<Seq<char>>,
    Seq<char>,
> {
    match r {
        Ok(stream) => Ok(stream@),
        Err(why) => Err(why@),
    }
}

/// A web session of the user, used only for authenticated player requests. Both
/// fields are credentials: there is no `Debug`, and neither is ever put into the
/// arguments of a process.
pub struct PlaybackSession {
    cookie_header: String,
    sapisid: String,
}

/// What a [`PlaybackSession`] holds.
pub struct SessionView {
    pub cookie_header: Seq<char>,
    pub sapisid: Seq<char>,
}

impl View for PlaybackSession {
    type V = SessionView;

    closed spec fn view(&self) -> SessionView {
        SessionView { cookie_header: self.cookie_header@, sapisid: self.sapisid@ }
    }
}

impl Clone for PlaybackSession {
    fn clone(&self) -> (r: Self)
        ensures
            r@ == self@,
    {
        PlaybackSession {
            cookie_header: self.cookie_header.clone(),
            sapisid: self.sapisid.clone(),
        }
    }
}

impl PlaybackSession {
    pub fn new(cookie_header: &str, sapisid: &str) -> (r: Self)
        ensures
            r@.cookie_header == cookie_header@,
            r@.sapisid == sapisid@,
    {
        PlaybackSession { cookie_header: cookie_header.to_owned(), sapisid: sapisid.to_owned() }
    }

    /// The cookies, as they go into a request.
    pub fn cookie_header(&self) -> (r: &str)
        ensures
            r@ == self@.cookie_header,
    {
        self.cookie_header.as_str()
    }

    /// The cookie that requests are signed with.
    pub fn sapisid(&self) -> (r: &str)
        ensures
            r@ == self@.sapisid,
    {
        self.sapisid.as_str()
    }
}

/// How much of its signed lifetime a URL must have left to be used again, in
/// nanoseconds.
pub const SAFETY_MARGIN: u64 = 300_000_000_000;

impl ResolvedStream<Seq<char>> {
    /// Whether enough signed lifetime remains at a time, in nanoseconds since
    /// 1970. A URL that names no end has no end.
    pub open spec fn valid(self, now: u64) -> bool {
        match self.expires_at {
            Some(at) => at * 1_000_000_000 > now + SAFETY_MARGIN,
            None => true,
        }
    }
}

impl ResolvedStream {
    /// Whether enough signed lifetime remains at a time, in nanoseconds since
    /// 1970, to use this URL again.
    pub fn valid_at(&self, now: u64) -> (r: bool)
        ensures
            r == self@.valid(now),
    {
        match self.expires_at {
            Some(at) => at as u128 * 1_000_000_000 > now as u128 + SAFETY_MARGIN as u128,
            None => true,
        }
    }

    /// Whether enough signed lifetime remains now to use this URL again.
    pub fn is_valid(&self) -> (r: bool)
        ensures
            exists|now: u64| r == #[trigger] self@.valid(now),
    {
        let now: u64 = crate::clock::unix_nanos();
        self.valid_at(now)
    }
}

/// What an optional stream says.
pub open spec fn stream_view(stream: Option<ResolvedStream>) -> Option<
    ResolvedStream<Seq<char>>,
> {
    match stream {
        Some(stream) => Some(stream@),
        None => None,
    }
}

/// What is to be resolved.
#[derive(Debug, Clone, Copy)]
pub struct ResolveRequest<'a> {
    pub video_id: &'a str,
    /// Whether what is cached is known to be no good.
    pub bypass_cache: bool,
}

impl<'a> ResolveRequest<'a> {
    pub fn new(video_id: &'a str) -> (r: Self)
        ensures
            r.video_id@ == video_id@,
            !r.bypass_cache,
    {
        ResolveRequest { video_id, bypass_cache: false }
    }
}

/// Why nothing was resolved, in categories that can be acted on.
#[derive(Debug, Clone, Copy, PartialEq, Eq, Structural)]
pub enum ResolveErrorKind {
    Unavailable,
    Private,
    AuthenticationRequired,
    GeoRestricted,
    RestrictedMode,
    RateLimited,
    Capped,
    TimedOut,
    ExtractorOutdated,
    Network,
    Other,
}

/// A classified failure, with what was said about it.
#[derive(Debug)]
pub struct ResolveError<S = String> {
    pub kind: ResolveErrorKind,
    pub message: S,
}

/// Whether a text holds a phrase.
pub open spec fn speaks_of(lower: Seq<char>, phrase: &str) -> bool {
    text::occurs(lower, phrase@)
}

/// The category of a message, by what it speaks of. The first that fits counts.
pub open spec fn kind_of(message: Seq<char>) -> ResolveErrorKind {
    let lower = text::lower_of(message);
    if speaks_of(lower, "private video") {
        ResolveErrorKind::Private
    } else if speaks_of(lower, "sign in") || speaks_of(lower, "login_required") {
        ResolveErrorKind::AuthenticationRequired
    } else if speaks_of(lower, "not available in your country") || speaks_of(
        lower,
        "geo-restricted",
    ) {
        ResolveErrorKind::GeoRestricted
    } else if text::occurs(message, yt_dlp::RESTRICTED@) || speaks_of(lower, "restricted mode") {
        ResolveErrorKind::RestrictedMode
    } else if speaks_of(lower, "429") || speaks_of(lower, "too many requests") {
        ResolveErrorKind::RateLimited
    } else if speaks_of(lower, "timed out") || speaks_of(lower, "timeout") {
        ResolveErrorKind::TimedOut
    } else if speaks_of(lower, "update yt-dlp") || speaks_of(lower, "extractor is broken") {
        ResolveErrorKind::ExtractorOutdated
    } else if speaks_of(lower, "network") || speaks_of(lower, "connection") || speaks_of(
        lower,
        "dns",
    ) {
        ResolveErrorKind::Network
    } else if speaks_of(lower, "unavailable") || speaks_of(lower, "removed") {
        ResolveErrorKind::Unavailable
    } else {
        ResolveErrorKind::Other
    }
}

fn speaks(lower: &Vec<char>, phrase: &str) -> (r: bool)
    ensures
        r == speaks_of(lower@, phrase),
{
    let wanted = text::to_chars(phrase);
    text::contains(lower, &wanted)
}

impl ResolveError<Seq<char>> {
    /// The error that a message describes.
    pub open spec fn said(message: Seq<char>) -> ResolveError<Seq<char>> {
        ResolveError { kind: kind_of(message), message }
    }

    /// The error of a video whose URLs are all cut short.
    pub open spec fn cut_short(video_id: Seq<char>) -> ResolveError<Seq<char>> {
        ResolveError {
            kind: ResolveErrorKind::Capped,
            message: "every stream URL resolved for "@ + video_id
                + " stopped after one mebibyte"@,
        }
    }
}

impl ResolveError {
    pub open spec fn view(&self) -> ResolveError<Seq<char>> {
        ResolveError { kind: self.kind, message: self.message@ }
    }

    pub fn kind(&self) -> (r: ResolveErrorKind)
        ensures
            r == self.view().kind,
    {
        self.kind
    }

    pub fn message(&self) -> (r: &str)
        ensures
            r@ == self.view().message,
    {
        self.message.as_str()
    }

    /// The error that a message describes.
    pub fn from_message(message: String) -> (r: Self)
        ensures
            r.view() == ResolveError::said(message@),
    {
        let chars = text::to_chars(message.as_str());
        let lower = text::lower(&chars);
        let kind = if speaks(&lower, "private video") {
            ResolveErrorKind::Private
        } else if speaks(&lower, "sign in") || speaks(&lower, "login_required") {
            ResolveErrorKind::AuthenticationRequired
        } else if speaks(&lower, "not available in your country") || speaks(
            &lower,
            "geo-restricted",
        ) {
            ResolveErrorKind::GeoRestricted
        } else if text::str_contains(message.as_str(), yt_dlp::RESTRICTED) || speaks(
            &lower,
            "restricted mode",
        ) {
            ResolveErrorKind::RestrictedMode
        } else if speaks(&lower, "429") || speaks(&lower, "too many requests") {
            ResolveErrorKind::RateLimited
        } else if speaks(&lower, "timed out") || speaks(&lower, "timeout") {
            ResolveErrorKind::TimedOut
        } else if speaks(&lower, "update yt-dlp") || speaks(&lower, "extractor is broken") {
            ResolveErrorKind::ExtractorOutdated
        } else if speaks(&lower, "network") || speaks(&lower, "connection") || speaks(
            &lower,
            "dns",
        ) {
            ResolveErrorKind::Network
        } else if speaks(&lower, "unavailable") || speaks(&lower, "removed") {
            ResolveErrorKind::Unavailable
        } else {
            ResolveErrorKind::Other
        };
        ResolveError { kind, message }
    }

    /// The error of a video whose URLs are all cut short.
    pub fn capped(video_id: &str) -> (r: Self)
        ensures
            r.view() == ResolveError::cut_short(video_id@),
    {
        let message = text::join3(
            "every stream URL resolved for ",
            video_id,
            " stopped after one mebibyte",
        );
        ResolveError { kind: ResolveErrorKind::Capped, message }
    }
}

/// What Restricted Mode is, and what can be done about it.
pub const RESTRICTED_HELP: &'static str = " is blocked by YouTube's Restricted Mode, and the retry \
through YouTube Music could not reach it either.\n\n\
Restricted Mode is applied by the network, not by this program. It \
points www.youtube.com at restrictmoderate.youtube.com \
(216.239.38.119) or restrict.youtube.com (216.239.38.120), and that \
front end refuses whatever it treats as mature.\n\n\
`nslookup www.youtube.com` tells you whether this is it: an answer in \
216.239.38.x is Restricted Mode. Turning on DNS-over-HTTPS, or using \
a network without the policy, lifts it for every track at once.";

/// What is said of a video that Restricted Mode refuses.
pub open spec fn restricted_of(video_id: Seq<char>) -> Seq<char> {
    video_id + RESTRICTED_HELP@
}

/// What is said of a video that Restricted Mode refuses.
pub fn restricted_mode(video_id: &str) -> (r: String)
    ensures
        r@ == restricted_of(video_id@),
{
    text::join2(video_id, RESTRICTED_HELP)
}

/// The state that resolving keeps: the tool, the session, and the URLs that
/// were resolved lately.
pub struct Resolver {
    bin: String,
    js_runtime: Option<String>,
    cache: UrlCache,
    session: Option<PlaybackSession>,
}

/// What a [`Resolver`] holds.
pub struct ResolverView {
    pub bin: Seq<char>,
    pub js_runtime: Option<Seq<char>>,
    pub cache: Seq<Entry>,
    pub session: Option<SessionView>,
}

impl View for Resolver {
    type V = ResolverView;

    closed spec fn view(&self) -> ResolverView {
        ResolverView {
            bin: self.bin@,
            js_runtime: text::opt_view(self.js_runtime),
            cache: self.cache@,
            session: match self.session {
                Some(s) => Some(s@),
                None => None,
            },
        }
    }
}

/// How a request is met: by a stream that is held, or by a hunt.
pub enum Begun {
    Held(ResolvedStream),
    Hunting(Hunt, Step),
}

impl ResolverView {
    /// The state after a request, and the stream that is held for it. A request
    /// that passes the cache by drops what is held; any other is met from it.
    pub open spec fn begins(
        self,
        video_id: Seq<char>,
        bypass: bool,
        now: u64,
    ) -> (ResolverView, Option<ResolvedStream<Seq<char>>>) {
        if bypass {
            (ResolverView { cache: cache::without(self.cache, video_id), ..self }, None)
        } else {
            (
                ResolverView { cache: cache::looked_up(self.cache, video_id, now), ..self },
                cache::held(self.cache, video_id, now),
            )
        }
    }

    /// With a session, or without one. Streams depend on the account, so a
    /// change drops them all.
    pub open spec fn with_session(self, session: Option<SessionView>) -> ResolverView {
        if session == self.session {
            self
        } else {
            ResolverView { session, cache: Seq::empty(), ..self }
        }
    }
}

/// Whether a way of meeting a request fits what is held.
pub open spec fn meets(
    begun: Begun,
    held: Option<ResolvedStream<Seq<char>>>,
    video_id: Seq<char>,
    fast: bool,
    signed: bool,
) -> bool {
    match (begun, held) {
        (Begun::Held(stream), Some(kept)) => stream@ == (ResolvedStream {
            source: ResolveSource::Cache,
            ..kept
        }),
        (Begun::Hunting(hunt, step), None) => {
            &&& hunt.view() == Hunt::fresh(video_id, fast, signed)
            &&& step.view() == Step::<Seq<char>>::Ask(player_api::order_of(signed)[0])
        },
        _ => false,
    }
}

impl Resolver {
    /// A resolver for a yt-dlp binary, with nothing held and no session.
    pub fn new(bin: &str) -> (r: Self)
        ensures
            r@ == (ResolverView {
                bin: bin@,
                js_runtime: None,
                cache: Seq::empty(),
                session: None,
            }),
    {
        Resolver { bin: bin.to_owned(), js_runtime: None, cache: UrlCache::new(), session: None }
    }

    /// The yt-dlp binary.
    pub fn bin(&self) -> (r: &str)
        ensures
            r@ == self@.bin,
    {
        self.bin.as_str()
    }

    /// The JavaScript runtime that yt-dlp is told to use.
    pub fn js_runtime(&self) -> (r: &Option<String>)
        ensures
            text::opt_view(*r) == self@.js_runtime,
    {
        &self.js_runtime
    }

    /// The account that requests are made as.
    pub fn session(&self) -> (r: Option<&PlaybackSession>)
        ensures
            player_api::session_view(r) == self@.session,
    {
        self.session.as_ref()
    }

    /// Selects the JavaScript runtime of yt-dlp.
    pub fn set_js_runtime(&mut self, runtime: Option<String>)
        ensures
            final(self)@ == (ResolverView {
                js_runtime: text::opt_view(runtime),
                ..old(self)@
            }),
    {
        self.js_runtime = runtime;
    }

    /// Replaces the account that requests are made as. Only a change drops the
    /// streams.
    pub fn set_session(&mut self, session: Option<PlaybackSession>)
        ensures
            final(self)@ == old(self)@.with_session(
                match session {
                    Some(s) => Some(s@),
                    None => None,
                },
            ),
    {
        let same = match (&self.session, &session) {
            (Some(a), Some(b)) => text::same(a.cookie_header.as_str(), b.cookie_header.as_str())
                && text::same(a.sapisid.as_str(), b.sapisid.as_str()),
            (None, None) => true,
            _ => false,
        };
        if !same {
            self.session = session;
            self.cache.clear();
        }
    }

    fn begin(&mut self, video_id: &str, bypass: bool, fast: bool, now: u64) -> (r: Begun)
        ensures
            ({
                let (after, held) = old(self)@.begins(video_id@, bypass, now);
                final(self)@ == after && meets(
                    r,
                    held,
                    video_id@,
                    fast,
                    old(self)@.session is Some,
                )
            }),
    {
        if bypass {
            self.cache.invalidate(video_id);
        } else if let Some(hit) = self.cache.get_at(video_id, now) {
            return Begun::Held(
                ResolvedStream {
                    source: ResolveSource::Cache,
                    url: hit.url,
                    expires_at: hit.expires_at,
                    content_length: hit.content_length,
                    format: hit.format,
                },
            );
        }
        let (hunt, step) = Hunt::begin(video_id, fast, self.session.is_some());
        Begun::Hunting(hunt, step)
    }

    /// Meets a request at a time, in nanoseconds since 1970: from the cache, or
    /// by a hunt whose stream is to be handed to [`Resolver::keep`].
    pub fn resolve_at(&mut self, request: ResolveRequest<'_>, now: u64) -> (r: Begun)
        ensures
            ({
                let id = request.video_id@;
                let (after, held) = old(self)@.begins(id, request.bypass_cache, now);
                final(self)@ == after && meets(r, held, id, false, old(self)@.session is Some)
            }),
    {
        self.begin(request.video_id, request.bypass_cache, false, now)
    }

    /// Meets a request now.
    pub fn resolve(&mut self, request: ResolveRequest<'_>) -> (r: Begun)
        ensures
            exists|now: u64|
                {
                    let (after, held) = #[trigger] old(self)@.begins(
                        request.video_id@,
                        request.bypass_cache,
                        now,
                    );
                    final(self)@ == after && meets(
                        r,
                        held,
                        request.video_id@,
                        false,
                        old(self)@.session is Some,
                    )
                },
    {
        let now: u64 = crate::clock::unix_nanos();
        self.resolve_at(request, now)
    }

    /// Warms the fast path for a video at a time: it is held, or hunted for
    /// without yt-dlp.
    pub fn prefetch_at(&mut self, video_id: &str, now: u64) -> (r: Begun)
        ensures
            ({
                let (after, held) = old(self)@.begins(video_id@, false, now);
                final(self)@ == after && meets(
                    r,
                    held,
                    video_id@,
                    true,
                    old(self)@.session is Some,
                )
            }),
    {
        self.begin(video_id, false, true, now)
    }

    /// Warms the fast path for a video now.
    pub fn prefetch_fast(&mut self, video_id: &str) -> (r: Begun)
        ensures
            exists|now: u64|
                {
                    let (after, held) = #[trigger] old(self)@.begins(video_id@, false, now);
                    final(self)@ == after && meets(
                        r,
                        held,
                        video_id@,
                        true,
                        old(self)@.session is Some,
                    )
                },
    {
        let now: u64 = crate::clock::unix_nanos();
        self.prefetch_at(video_id, now)
    }

    /// Keeps the stream that a hunt found.
    pub fn keep(&mut self, video_id: &str, stream: &ResolvedStream)
        ensures
            final(self)@ == (ResolverView {
                cache: cache::inserted(old(self)@.cache, video_id@, stream@),
                ..old(self)@
            }),
    {
        self.cache.insert(video_id.to_owned(), stream.clone());
    }

    /// Whether a stream that can be used again is held at a time.
    pub fn is_cached_at(&mut self, video_id: &str, now: u64) -> (r: bool)
        ensures
            r == (cache::held(old(self)@.cache, video_id@, now) is Some),
            final(self)@ == old(self)@.begins(video_id@, false, now).0,
    {
        self.cache.get_at(video_id, now).is_some()
    }

    /// Whether a stream that can be used again is held now.
    pub fn is_cached(&mut self, video_id: &str) -> (r: bool)
        ensures
            exists|now: u64|
                {
                    &&& r == (#[trigger] cache::held(old(self)@.cache, video_id@, now) is Some)
                    &&& final(self)@ == old(self)@.begins(video_id@, false, now).0
                },
    {
        let now: u64 = crate::clock::unix_nanos();
        self.is_cached_at(video_id, now)
    }

    /// Drops what is held for a video.
    pub fn invalidate(&mut self, video_id: &str)
        ensures
            final(self)@ == (ResolverView {
                cache: cache::without(old(self)@.cache, video_id@),
                ..old(self)@
            }),
    {
        self.cache.invalidate(video_id);
    }
}

/// A change of session drops every stream, and setting the same one again drops
/// none.
pub proof fn session_change_drops_streams(
    resolver: ResolverView,
    session: Option<SessionView>,
)
    ensures
        session != resolver.session ==> resolver.with_session(session).cache.len() == 0,
        resolver.with_session(session).with_session(session) == resolver.with_session(session),
        resolver.with_session(resolver.session) == resolver,
{
}

/// A request that passes the cache by is never met from it, and neither is the
/// next one: the stream that failed is gone.
pub proof fn bypassing_forgets_the_stream(resolver: ResolverView, video_id: Seq<char>, now: u64)
    requires
        cache::distinct(resolver.cache),
    ensures
        resolver.begins(video_id, true, now).1 is None,
        resolver.begins(video_id, true, now).0.begins(video_id, false, now).1 is None,
{
    cache::invalidated_stream_is_gone(resolver.cache, video_id, now);
}

/// A stream that was kept meets the next request, as long as it is good.
pub proof fn kept_stream_meets_the_next_request(
    resolver: ResolverView,
    video_id: Seq<char>,
    stream: ResolvedStream<Seq<char>>,
    now: u64,
)
    requires
        cache::distinct(resolver.cache),
        stream.valid(now),
    ensures
        (ResolverView {
            cache: cache::inserted(resolver.cache, video_id, stream),
            ..resolver
        }).begins(video_id, false, now).1 == Some(stream),
{
    cache::inserted_stream_comes_back(resolver.cache, video_id, stream, now);
}

/// A URL is used as long as its signed lifetime goes on for more than five
/// minutes, and one that states no end always is.
pub proof fn urls_are_used_while_they_last(
    stream: ResolvedStream<Seq<char>>,
    now: u64,
    earlier: u64,
)
    requires
        earlier <= now,
    ensures
        stream.expires_at is None ==> stream.valid(now),
        stream.expires_at is Some ==> stream.valid(now) == (stream.expires_at->0 * 1_000_000_000
            - now > 300 * 1_000_000_000),
        stream.valid(now) ==> stream.valid(earlier),
{
}

/// A failure is of the kind that its message speaks of, in small letters or
/// capitals: a private video before everything else, then a sign-in that is
/// missing. A message that speaks of none is of no kind.
pub proof fn failures_are_told_apart(message: Seq<char>)
    ensures
        ({
            let lower = text::lower_of(message);
            let kind = kind_of(message);
            let private = text::occurs(lower, "private video"@);
            let sign_in = text::occurs(lower, "sign in"@) || text::occurs(
                lower,
                "login_required"@,
            );
            let abroad = text::occurs(lower, "not available in your country"@) || text::occurs(
                lower,
                "geo-restricted"@,
            );
            let strict = text::occurs(message, "This video is restricted"@) || text::occurs(
                lower,
                "restricted mode"@,
            );
            let often = text::occurs(lower, "429"@) || text::occurs(lower, "too many requests"@);
            let late = text::occurs(lower, "timed out"@) || text::occurs(lower, "timeout"@);
            let old = text::occurs(lower, "update yt-dlp"@) || text::occurs(
                lower,
                "extractor is broken"@,
            );
            let offline = text::occurs(lower, "network"@) || text::occurs(lower, "connection"@)
                || text::occurs(lower, "dns"@);
            let gone = text::occurs(lower, "unavailable"@) || text::occurs(lower, "removed"@);
            &&& kind == ResolveErrorKind::Private <==> private
            &&& kind == ResolveErrorKind::AuthenticationRequired <==> sign_in && !private
            &&& kind == ResolveErrorKind::GeoRestricted <==> abroad && !private && !sign_in
            &&& kind == ResolveErrorKind::RestrictedMode <==> strict && !private && !sign_in
                && !abroad
            &&& kind == ResolveErrorKind::RateLimited ==> often
            &&& kind == ResolveErrorKind::TimedOut ==> late
            &&& kind == ResolveErrorKind::ExtractorOutdated ==> old
            &&& kind == ResolveErrorKind::Network ==> offline
            &&& kind == ResolveErrorKind::Unavailable ==> gone
            &&& kind == ResolveErrorKind::Other <==> !(private || sign_in || abroad || strict
                || often || late || old || offline || gone)
            &&& kind != ResolveErrorKind::Capped
            &&& often && !(private || sign_in || abroad || strict) ==> kind
                == ResolveErrorKind::RateLimited
            &&& late && !(private || sign_in || abroad || strict || often) ==> kind
                == ResolveErrorKind::TimedOut
            &&& old && !(private || sign_in || abroad || strict || often || late) ==> kind
                == ResolveErrorKind::ExtractorOutdated
            &&& offline && !(private || sign_in || abroad || strict || often || late || old)
                ==> kind == ResolveErrorKind::Network
        }),
{
}

/// A request that is met from what is held gets that very URL, and one that finds
/// nothing held starts a hunt for the video that was asked for.
pub proof fn requests_are_met(
    resolver: ResolverView,
    begun: Begun,
    video_id: Seq<char>,
    fast: bool,
    now: u64,
)
    requires
        meets(
            begun,
            resolver.begins(video_id, false, now).1,
            video_id,
            fast,
            resolver.session is Some,
        ),
    ensures
        match cache::held(resolver.cache, video_id, now) {
            Some(kept) => {
                &&& begun is Held
                &&& begun->Held_0@.url == kept.url
                &&& begun->Held_0@.expires_at == kept.expires_at
                &&& begun->Held_0@.format == kept.format
                &&& begun->Held_0@.source == ResolveSource::Cache
            },
            None => {
                &&& begun is Hunting
                &&& begun->Hunting_0.view().video_id == video_id
                &&& begun->Hunting_0.view().fast == fast
                &&& begun->Hunting_0.view().signed == (resolver.session is Some)
                &&& begun->Hunting_1.view() == Step::<Seq<char>>::Ask(
                    if resolver.session is Some {
                        player_api::PlayerClient::WebRemix
                    } else {
                        player_api::PlayerClient::Ios
                    },
                )
            },
        },
{
}

} // verus!
