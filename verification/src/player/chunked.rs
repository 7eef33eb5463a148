//! Fetching one audio file as a run of short ranged requests.
//!
//! A long-lived connection is throttled to little more than playback rate,
//! while the same bytes asked for in short ranges arrive at full speed. So the
//! body is never read as one response: each chunk is a request of its own, and
//! the next one starts at the byte after the last one that was delivered.
//!
//! Nothing here talks to the network. [`Cursor`] says which range to ask for,
//! [`Attempts`] says whether a failed request is worth repeating, and
//! [`StreamLink`] holds the conversation between a running download and the
//! player: what went wrong, and the fresh URL that answers it.

use vstd::prelude::*;

use crate::text;

verus! {

broadcast use vstd::string::group_string_axioms;

/// Bytes per range request: a quarter of the ring buffer, so that a chunk
/// lands quickly and the cost of a request does not matter.
pub const CHUNK_BYTES: u64 = 262144;

/// How long a chunk request may take to connect, in milliseconds.
pub const CONNECT_TIMEOUT_MS: u64 = 5000;

/// How long a chunk request may take altogether, in milliseconds.
pub const REQUEST_TIMEOUT_MS: u64 = 10000;

/// Attempts at one chunk before its offset is reported as a failure.
pub const CHUNK_ATTEMPTS: u32 = 3;

/// The wait before a chunk is asked for again, in milliseconds. It doubles
/// with each attempt.
pub const RETRY_BACKOFF_MS: u64 = 200;

/// How long a download waits for a fresh URL, in milliseconds.
pub const REFRESH_WAIT_MS: u64 = 30000;

/// How often a waiting download looks for the URL it asked for, in
/// milliseconds.
pub const REFRESH_POLL_MS: u64 = 100;

/// Why a stream stopped delivering bytes, noted where it happened.
#[derive(Debug, Clone, Copy, PartialEq, Eq)]
pub struct StreamFault {
    /// The HTTP status that refused the request. `None` where the transport
    /// failed before there was a response.
    pub status: Option<u16>,
    /// The byte offset at which the refused chunk would have started.
    pub offset: u64,
}

/// A byte count in tenths of a MiB, rounded to the nearest and from the middle
/// to the even neighbour.
pub open spec fn tenths_of_mib(offset: nat) -> nat {
    let q = offset * 10 / 1048576;
    let rest = offset * 10 % 1048576;
    if rest > 524288 || (rest == 524288 && q % 2 == 1) {
        q + 1
    } else {
        q
    }
}

/// A byte count in MiB with one decimal place.
pub open spec fn mib_of(offset: nat) -> Seq<char> {
    text::decimal_of(tenths_of_mib(offset) / 10) + "."@ + text::decimal_of(tenths_of_mib(offset) % 10)
}

fn mib(offset: u64) -> (r: String)
    ensures
        r@ == mib_of(offset as nat),
{
    let ten: u128 = offset as u128 * 10;
    let q: u64 = (ten / 1048576) as u64;
    let rest: u64 = (ten % 1048576) as u64;
    let tenths: u64 = if rest > 524288 || (rest == 524288 && q % 2 == 1) {
        q + 1
    } else {
        q
    };
    let mut r = text::decimal(tenths / 10);
    r.append(".");
    r.append(text::decimal(tenths % 10).as_str());
    r
}

impl StreamFault {
    /// What the fault is called in a message.
    pub open spec fn text_of(self) -> Seq<char> {
        match self.status {
            Some(status) => "HTTP "@ + text::decimal_of(status as nat) + " at "@ + mib_of(
                self.offset as nat,
            ) + " MiB"@,
            None => "connection lost at "@ + mib_of(self.offset as nat) + " MiB"@,
        }
    }

    /// Names the fault: the status, when there was one, and how far into the
    /// file it struck.
    pub fn to_text(&self) -> (r: String)
        ensures
            r@ == self.text_of(),
    {
        let mut r = String::new();
        match self.status {
            Some(status) => {
                r.append("HTTP ");
                r.append(text::decimal(status as u64).as_str());
                r.append(" at ");
            },
            None => {
                r.append("connection lost at ");
            },
        }
        r.append(mib(self.offset).as_str());
        r.append(" MiB");
        proof {
            assert(r@ =~= self.text_of());
        }
        r
    }
}

/// The URL that a text states, as the `url` crate writes it out again, or
/// `None` where the text is no URL.
pub uninterp spec fn url_of(s: Seq<char>) -> Option<Seq<char>>;

/// Calls `Url::from_str` of the `url` crate, which reqwest re-exports, and
/// hands back the serialisation of what it parsed.
///
/// The contract claims only that the outcome is a function of the text. The
/// grammar of URLs is not written out here.
#[verifier::external_body]
pub(crate) fn parse_url(s: &str) -> (r: Option<String>)
    ensures
        text::opt_is(r, url_of(s@)),
{
    match s.parse::<reqwest::Url>() {
        Ok(url) => Some(String::from(url)),
        Err(_) => None,
    }
}

/// The link between a running download and the player that owns it.
///
/// The download writes down the first fault it hit and the offset at which it
/// waits for a fresh URL. The player answers with a URL, or declines.
#[derive(Debug, Clone)]
pub struct StreamLink {
    /// The first fault seen. What came after it is a consequence of it.
    pub fault: Option<StreamFault>,
    /// The offset the download is stuck at, once it has asked for a new URL.
    pub wanted: Option<u64>,
    /// A fresh URL from the player, not picked up yet.
    pub supplied: Option<String>,
    /// Set when the player has nothing to offer, so that the wait can end.
    pub declined: bool,
}

/// What a [`StreamLink`] holds.
pub struct LinkView {
    pub fault: Option<StreamFault>,
    pub wanted: Option<u64>,
    pub supplied: Option<Seq<char>>,
    pub declined: bool,
}

impl View for StreamLink {
    type V = LinkView;

    open spec fn view(&self) -> LinkView {
        LinkView {
            fault: self.fault,
            wanted: self.wanted,
            supplied: text::opt_view(self.supplied),
            declined: self.declined,
        }
    }
}

impl LinkView {
    /// A link nothing has been said over.
    pub open spec fn fresh() -> LinkView {
        LinkView { fault: None, wanted: None, supplied: None, declined: false }
    }

    /// The link after a fault: the first one stays.
    pub open spec fn recorded(self, fault: StreamFault) -> LinkView {
        if self.fault is Some {
            self
        } else {
            LinkView { fault: Some(fault), ..self }
        }
    }

    /// The link once the download waits at `offset`. A URL armed in advance
    /// stays where it is.
    pub open spec fn requested(self, offset: u64) -> LinkView {
        LinkView { wanted: Some(offset), declined: false, ..self }
    }

    /// The link once `url` has been handed over.
    pub open spec fn with_url(self, url: Seq<char>) -> LinkView {
        LinkView { supplied: Some(url), declined: false, ..self }
    }

    /// The link once the player has said that no URL is coming.
    pub open spec fn refused(self) -> LinkView {
        LinkView { declined: true, ..self }
    }

    /// The link once the URL that was supplied, if any, has been picked up.
    pub open spec fn taken(self) -> LinkView {
        if self.supplied is Some {
            LinkView { supplied: None, wanted: None, ..self }
        } else {
            self
        }
    }

    /// The link once an unanswered request has been dropped.
    pub open spec fn given_up(self) -> LinkView {
        LinkView { wanted: None, ..self }
    }
}

/// What the download does next while it waits for a URL.
#[derive(Debug, Clone)]
pub enum RefreshStep {
    /// A URL arrived.
    Ready(String),
    /// Nothing yet: look again after [`REFRESH_POLL_MS`].
    Wait,
    /// The player declined, or the wait is over.
    GiveUp,
}

impl Default for StreamLink {
    fn default() -> (r: Self)
        ensures
            r@ == LinkView::fresh(),
    {
        StreamLink { fault: None, wanted: None, supplied: None, declined: false }
    }
}

impl StreamLink {
    /// Writes down a fault. Only the first one is kept.
    pub fn record(&mut self, fault: StreamFault)
        ensures
            final(self)@ == old(self)@.recorded(fault),
    {
        if self.fault.is_none() {
            self.fault = Some(fault);
        }
    }

    /// The fault this stream died of, if it died of one.
    pub fn fault(&self) -> (r: Option<StreamFault>)
        ensures
            r == self@.fault,
    {
        self.fault
    }

    /// The offset a stalled download is waiting on a fresh URL for.
    pub fn wants_url(&self) -> (r: Option<u64>)
        ensures
            r == self@.wanted,
    {
        self.wanted
    }

    /// Hands a freshly resolved URL to the download, and reports whether the
    /// text was a URL at all. One that is not counts as a refusal.
    ///
    /// Nothing has to be waiting: a replacement may be armed before the
    /// refusal that it answers.
    pub fn supply_url(&mut self, url: &str) -> (r: bool)
        ensures
            r == url_of(url@) is Some,
            final(self)@ == match url_of(url@) {
                Some(parsed) => old(self)@.with_url(parsed),
                None => old(self)@.refused(),
            },
    {
        let parsed = parse_url(url);
        self.supply_parsed(parsed)
    }

    /// Hands over what a URL was parsed to.
    pub fn supply_parsed(&mut self, parsed: Option<String>) -> (r: bool)
        ensures
            r == parsed is Some,
            final(self)@ == match parsed {
                Some(url) => old(self)@.with_url(url@),
                None => old(self)@.refused(),
            },
    {
        match parsed {
            Some(url) => {
                self.supplied = Some(url);
                self.declined = false;
                true
            },
            None => {
                self.decline();
                false
            },
        }
    }

    /// Tells the waiting download that no new URL is coming.
    pub fn decline(&mut self)
        ensures
            final(self)@ == old(self)@.refused(),
    {
        self.declined = true;
    }

    /// Notes that the download is stuck at `offset` and needs a URL.
    pub fn request_url(&mut self, offset: u64)
        ensures
            final(self)@ == old(self)@.requested(offset),
    {
        self.wanted = Some(offset);
        self.declined = false;
    }

    /// Picks up a supplied URL, if one has arrived, and ends the request.
    pub fn take_url(&mut self) -> (r: Option<String>)
        ensures
            text::opt_is(r, old(self)@.supplied),
            final(self)@ == old(self)@.taken(),
    {
        let url = self.supplied.take();
        if url.is_some() {
            self.wanted = None;
        }
        url
    }

    /// Whether the player has declined.
    pub fn declined(&self) -> (r: bool)
        ensures
            r == self@.declined,
    {
        self.declined
    }

    /// Ends a request that nothing answered.
    pub fn give_up(&mut self)
        ensures
            final(self)@ == old(self)@.given_up(),
    {
        self.wanted = None;
    }

    /// Starts asking for a fresh URL. One that was armed in advance is handed
    /// out at once, and then the player is not asked at all.
    pub fn refresh(&mut self, offset: u64) -> (r: Option<String>)
        ensures
            text::opt_is(r, old(self)@.supplied),
            final(self)@ == if old(self)@.supplied is Some {
                old(self)@.taken()
            } else {
                old(self)@.requested(offset)
            },
    {
        let ready = self.take_url();
        if ready.is_none() {
            self.request_url(offset);
        }
        ready
    }

    /// Looks for the answer after `waited_ms` of waiting.
    pub fn poll_refresh(&mut self, waited_ms: u64) -> (r: RefreshStep)
        ensures
            match r {
                RefreshStep::Ready(url) => waited_ms < REFRESH_WAIT_MS && old(self)@.supplied
                    == Some(url@) && final(self)@ == old(self)@.taken(),
                RefreshStep::Wait => waited_ms < REFRESH_WAIT_MS && old(self)@.supplied is None
                    && !old(self)@.declined && final(self)@ == old(self)@,
                RefreshStep::GiveUp => (waited_ms >= REFRESH_WAIT_MS || (old(self)@.supplied is None
                    && old(self)@.declined)) && final(self)@ == old(self)@.given_up(),
            },
    {
        if waited_ms < REFRESH_WAIT_MS {
            let ready = self.take_url();
            if let Some(url) = ready {
                return RefreshStep::Ready(url);
            }
            if !self.declined() {
                return RefreshStep::Wait;
            }
        }
        self.give_up();
        RefreshStep::GiveUp
    }
}

/// The first fault is the one that is kept, whatever is recorded after it.
pub proof fn first_fault_is_kept(link: LinkView, first: StreamFault, later: StreamFault)
    requires
        link.fault is None,
    ensures
        link.recorded(first).recorded(later).fault == Some(first),
{
}

/// A URL armed before the refusal survives the request that it answers, and
/// picking it up ends the request.
pub proof fn armed_url_survives_request(link: LinkView, url: Seq<char>, offset: u64)
    ensures
        link.with_url(url).requested(offset).supplied == Some(url),
        link.with_url(url).requested(offset).taken().wanted is None,
        link.requested(offset).with_url(url).supplied == Some(url),
        link.requested(offset).with_url(url).taken().wanted is None,
{
}

/// A refusal does not throw away a URL that is already waiting.
pub proof fn declining_keeps_a_waiting_url(link: LinkView)
    ensures
        link.refused().supplied == link.supplied,
        link.refused().wanted == link.wanted,
        link.refused().declined,
{
}

/// How a request failed in transport, as the HTTP client tells it.
#[derive(Debug, Clone, Copy)]
pub struct Transport {
    pub timeout: bool,
    pub connect: bool,
    pub request: bool,
}

/// Whether an HTTP status is the server having a bad moment.
pub open spec fn transient_code(status: u16) -> bool {
    500 <= status < 600 || status == 408
}

/// Whether a refusal is worth asking again: a server error or a request that
/// timed out. Anything else is a fact about the URL and stays one.
pub fn transient_status(status: u16) -> (r: bool)
    ensures
        r == transient_code(status),
{
    (500 <= status && status < 600) || status == 408
}

/// Whether a failed chunk is worth asking for again.
pub open spec fn transient_fault(status: Option<u16>, transport: Transport) -> bool {
    match status {
        Some(status) => transient_code(status),
        None => transport.timeout || transport.connect || transport.request,
    }
}

/// Whether a failed chunk is worth asking for again: by its status where the
/// server gave one, and otherwise by how the transport failed.
pub fn is_transient(status: Option<u16>, transport: Transport) -> (r: bool)
    ensures
        r == transient_fault(status, transport),
{
    match status {
        Some(status) => transient_status(status),
        None => transport.timeout || transport.connect || transport.request,
    }
}

/// What a status line says to do with a chunk's response.
#[derive(Debug, Clone, Copy, PartialEq, Eq, Structural)]
pub enum Answer {
    /// The range lies past the end: the file ends here.
    End,
    /// A refusal. Its body is an error page and no part of the file.
    Refused,
    /// The body is the chunk.
    Body,
}

/// Reads a chunk's status. Asking past the end (416) is how the end is found
/// where no length was stated; client and server errors are refusals.
pub fn answer(status: u16) -> (r: Answer)
    ensures
        r == if status == 416 {
            Answer::End
        } else if 400 <= status < 600 {
            Answer::Refused
        } else {
            Answer::Body
        },
{
    if status == 416 {
        Answer::End
    } else if 400 <= status && status < 600 {
        Answer::Refused
    } else {
        Answer::Body
    }
}

/// What the body of a chunk comes to. An empty one is the end of the file.
pub fn body(len: u64) -> (r: Chunk)
    ensures
        r == if len == 0 {
            Chunk::End
        } else {
            Chunk::Data(len)
        },
{
    if len == 0 {
        Chunk::End
    } else {
        Chunk::Data(len)
    }
}

/// The attempts made at one chunk.
#[derive(Debug, Clone, Copy)]
pub struct Attempts {
    /// Requests that have failed so far.
    pub failed: u32,
    /// The wait before the next one, in milliseconds.
    pub backoff_ms: u64,
}

/// Two to the power `n`.
pub open spec fn doubled(n: nat) -> nat
    decreases n,
{
    if n == 0 {
        1
    } else {
        2 * doubled((n - 1) as nat)
    }
}

impl Attempts {
    /// The wait has doubled once for each failure, and the attempts are not
    /// used up.
    pub open spec fn wf(self) -> bool {
        &&& self.failed < CHUNK_ATTEMPTS
        &&& self.backoff_ms == RETRY_BACKOFF_MS * doubled(self.failed as nat)
    }

    /// No attempt made yet.
    pub fn new() -> (r: Self)
        ensures
            r.wf(),
            r.failed == 0,
            r.backoff_ms == RETRY_BACKOFF_MS,
    {
        Attempts { failed: 0, backoff_ms: RETRY_BACKOFF_MS }
    }

    /// Takes a failed request into account. `Some` is how long to wait before
    /// asking again; `None` means that the chunk has failed for good, because
    /// asking again would not help or because this was the last attempt.
    pub fn note_failure(&mut self, status: Option<u16>, transport: Transport) -> (r: Option<u64>)
        requires
            old(self).wf(),
        ensures
            r == if transient_fault(status, transport) && old(self).failed + 1 < CHUNK_ATTEMPTS {
                Some(old(self).backoff_ms)
            } else {
                None::<u64>
            },
            r is Some ==> final(self).wf() && final(self).failed == old(self).failed + 1
                && final(self).backoff_ms == 2 * old(self).backoff_ms,
            r is None ==> *final(self) == *old(self),
    {
        let last = self.failed + 1 == CHUNK_ATTEMPTS;
        if last || !is_transient(status, transport) {
            return None;
        }
        proof {
            reveal_with_fuel(doubled, 4);
            assert(doubled(self.failed as nat) <= 4) by {
                assert(self.failed == 0 || self.failed == 1 || self.failed == 2);
            }
        }
        let wait = self.backoff_ms;
        self.failed = self.failed + 1;
        self.backoff_ms = self.backoff_ms * 2;
        Some(wait)
    }
}

/// The waits of one chunk come to well under a second in total.
pub proof fn waits_are_short(first: Attempts, second: Attempts)
    requires
        first.wf(),
        first.failed == 0,
        second.wf(),
        second.failed == 1,
    ensures
        first.backoff_ms + second.backoff_ms == 3 * RETRY_BACKOFF_MS,
        first.backoff_ms + second.backoff_ms < 1000,
{
    reveal_with_fuel(doubled, 3);
}

/// The last byte of the chunk that starts at `start`: a chunk later, or the
/// byte before the exclusive end `limit`, whichever comes first.
pub open spec fn chunk_end_of(start: u64, limit: Option<u64>) -> u64 {
    let end = if start + (CHUNK_BYTES - 1) > u64::MAX {
        u64::MAX
    } else {
        (start + (CHUNK_BYTES - 1)) as u64
    };
    match limit {
        Some(limit) => {
            let last = if limit == 0 {
                0
            } else {
                (limit - 1) as u64
            };
            if last < end {
                last
            } else {
                end
            }
        },
        None => end,
    }
}

/// Inclusive end offset of the chunk that begins at `start`.
pub fn chunk_end(start: u64, limit: Option<u64>) -> (r: u64)
    ensures
        r == chunk_end_of(start, limit),
{
    let end: u64 = start.saturating_add(CHUNK_BYTES - 1);
    match limit {
        Some(limit) => {
            let last: u64 = limit.saturating_sub(1);
            if last < end {
                last
            } else {
                end
            }
        },
        None => end,
    }
}

/// The value of the `Range` header that asks for the bytes from `start` to
/// `end`, both included.
pub fn range_header(start: u64, end: u64) -> (r: String)
    ensures
        r@ == "bytes="@ + text::decimal_of(start as nat) + "-"@ + text::decimal_of(end as nat),
{
    let mut r = String::new();
    r.append("bytes=");
    r.append(text::decimal(start).as_str());
    r.append("-");
    r.append(text::decimal(end).as_str());
    proof {
        assert(r@ =~= "bytes="@ + text::decimal_of(start as nat) + "-"@ + text::decimal_of(end as nat));
    }
    r
}

/// An inclusive end offset as an exclusive one.
pub fn exclusive_end(end: Option<u64>) -> (r: Option<u64>)
    requires
        end is Some ==> end->0 < u64::MAX,
    ensures
        r == match end {
            Some(e) => Some((e + 1) as u64),
            None => None,
        },
{
    match end {
        Some(e) => Some(e + 1),
        None => None,
    }
}

/// What stands after the last `/` of a text, or all of it where it has none.
pub open spec fn after_slash(s: Seq<char>) -> Seq<char> {
    text::split_of(s, '/').last()
}

/// The size of the whole file, out of a `Content-Range` header such as
/// `bytes 0-255/3449447`. `None` where there is no header or where it states
/// no size.
pub fn parse_total(content_range: Option<&str>) -> (r: Option<u64>)
    ensures
        r == match content_range {
            Some(value) => text::number_of(text::trim_of(after_slash(value@))),
            None => None,
        },
{
    match content_range {
        Some(value) => {
            let chars = text::to_chars(value);
            let pieces = text::split(&chars, '/');
            proof {
                lemma_split_not_empty(chars@, '/');
            }
            let last = &pieces[pieces.len() - 1];
            let inner = text::trim(last);
            text::number(&inner)
        },
        None => None,
    }
}

proof fn lemma_split_not_empty(s: Seq<char>, c: char)
    ensures
        text::split_of(s, c).len() > 0,
{
}

/// How the first response is to be read: whether the range was honoured, so
/// that more chunks follow, and how long the whole file is.
///
/// A 206 states the length of the file in its `Content-Range`. Any other
/// response is the whole file, and its own length is the length of the file.
pub fn first_response(
    status: u16,
    content_range: Option<&str>,
    content_length: Option<u64>,
) -> (r: (bool, Option<u64>))
    ensures
        r.0 == (status == 206),
        r.1 == if status == 206 {
            match content_range {
                Some(value) => text::number_of(text::trim_of(after_slash(value@))),
                None => None,
            }
        } else {
            content_length
        },
{
    if status == 206 {
        (true, parse_total(content_range))
    } else {
        (false, content_length)
    }
}

/// Failure to start reading a chunked response.
#[derive(Debug, Clone)]
pub struct ChunkedError(pub String);

/// What `StatusCode` of the `http` crate prints for a status code: the number
/// and, where it has one, the name of the status.
pub uninterp spec fn status_line_of(status: u16) -> Seq<char>;

/// Calls `Display` of `StatusCode` of the `http` crate, which reqwest
/// re-exports. The contract claims only that the text is a function of the
/// code. A `StatusCode` holds three digits, so other codes are left out.
#[verifier::external_body]
fn status_line(status: u16) -> (r: String)
    requires
        100 <= status <= 999,
    ensures
        r@ == status_line_of(status),
{
    format!("{}", reqwest::StatusCode::from_u16(status).unwrap())
}

/// Whether a stream may be read from a response with this status, or the error
/// that says why not.
pub fn into_result(status: u16) -> (r: Result<(), ChunkedError>)
    requires
        100 <= status <= 999,
    ensures
        r is Ok == (200 <= status < 300),
        r is Err ==> r->Err_0.0@ == "chunk request failed: HTTP "@ + status_line_of(status),
{
    let line = status_line(status);
    refuse_unless_success(status, line.as_str())
}

/// [`into_result`] for a status whose printed form is `line`.
pub fn refuse_unless_success(status: u16, line: &str) -> (r: Result<(), ChunkedError>)
    ensures
        r is Ok == (200 <= status < 300),
        r is Err ==> r->Err_0.0@ == "chunk request failed: HTTP "@ + line@,
{
    if 200 <= status && status < 300 {
        Ok(())
    } else {
        let mut why = String::new();
        why.append("chunk request failed: HTTP ");
        why.append(line);
        proof {
            assert(why@ =~= "chunk request failed: HTTP "@ + line@);
        }
        Err(ChunkedError(why))
    }
}

/// What arrived of the first response's body.
#[derive(Debug, Clone, Copy)]
pub struct Head {
    /// The offset after the last byte that was delivered.
    pub delivered: u64,
    /// Whether the body failed part way through.
    pub broken: bool,
}

impl Head {
    /// A head that begins at `start` and has delivered nothing yet.
    pub fn new(start: u64) -> (r: Self)
        ensures
            r.delivered == start,
            !r.broken,
    {
        Head { delivered: start, broken: false }
    }

    /// Takes one piece of the body into account: its length, or `None` for a
    /// read that failed.
    pub fn note(&mut self, piece: Option<u64>)
        ensures
            match piece {
                Some(len) => final(self).delivered == (old(self).delivered + len) % 0x1_0000_0000_0000_0000
                    && final(self).broken == old(self).broken,
                None => final(self).delivered == old(self).delivered && final(self).broken,
            },
    {
        match piece {
            Some(len) => {
                self.delivered = self.delivered.wrapping_add(len);
            },
            None => {
                self.broken = true;
            },
        }
    }
}

/// What one chunk request settled on.
#[derive(Debug, Clone, Copy, PartialEq, Eq)]
pub enum Chunk {
    /// So many bytes to hand up.
    Data(u64),
    /// The file ends here. Not a fault.
    End,
    /// Every attempt failed, with the last status where there was one.
    Failed(Option<u16>),
}

/// What the sequence of chunks yields next.
#[derive(Debug, Clone, Copy, PartialEq, Eq, Structural)]
pub enum Emit {
    /// The bytes of the chunk.
    Bytes,
    /// The error of the chunk, after which the sequence is over.
    Error,
    /// Nothing: the sequence is over.
    Finished,
}

/// Walking state for the chunk sequence.
#[derive(Debug, Clone, Copy)]
pub struct Cursor {
    /// The offset at which the next chunk starts. `None` ends the sequence.
    pub next: Option<u64>,
    /// Exclusive end, when a bounded range was asked for.
    pub limit: Option<u64>,
}

impl Cursor {
    /// Whether the sequence is over.
    pub open spec fn over(self) -> bool {
        match self.next {
            None => true,
            Some(start) => self.limit is Some && start >= self.limit->0,
        }
    }

    /// Picks up where the head stopped, and nowhere else: a server may send
    /// less than was asked for, and going on from the end of the range would
    /// cut the missing bytes out of the file. A head that broke off ends the
    /// sequence, so that the shortfall stays a gap that can be asked for again.
    pub fn after_head(head: Head, limit: Option<u64>) -> (r: Self)
        ensures
            r.limit == limit,
            r.next == if head.broken {
                None::<u64>
            } else {
                Some(head.delivered)
            },
    {
        if head.broken {
            Cursor { next: None, limit }
        } else {
            Cursor { next: Some(head.delivered), limit }
        }
    }

    /// The range to ask for next, both ends included, or `None` at the end of
    /// the sequence.
    pub fn range(&self) -> (r: Option<(u64, u64)>)
        ensures
            r == if self.over() {
                None::<(u64, u64)>
            } else {
                Some((self.next->0, chunk_end_of(self.next->0, self.limit)))
            },
    {
        match self.next {
            None => None,
            Some(start) => {
                if let Some(end) = self.limit {
                    if start >= end {
                        return None;
                    }
                }
                Some((start, chunk_end(start, self.limit)))
            },
        }
    }

    /// The chunk to go after next, or `None` at the end of the sequence.
    pub fn pursue(&self) -> (r: Option<Pursuit>)
        ensures
            r == if self.over() {
                None::<Pursuit>
            } else {
                Some(
                    Pursuit {
                        start: self.next->0,
                        end: chunk_end_of(self.next->0, self.limit),
                        stage: Stage::Fetching,
                    },
                )
            },
    {
        match self.range() {
            None => None,
            Some((start, end)) => Some(Pursuit { start, end, stage: Stage::Fetching }),
        }
    }

    /// A chunk was refused: the fault is written down, and a fresh URL is asked
    /// for. A URL that was armed in advance comes back at once.
    pub fn refused(&self, link: &mut StreamLink, status: Option<u16>) -> (r: Option<String>)
        requires
            self.next is Some,
        ensures
            ({
                let fault = StreamFault { status, offset: self.next->0 };
                let noted = old(link)@.recorded(fault);
                &&& text::opt_is(r, old(link)@.supplied)
                &&& final(link)@ == if noted.supplied is Some {
                    noted.taken()
                } else {
                    noted.requested(self.next->0)
                }
            }),
    {
        let start: u64 = self.next.unwrap();
        link.record(StreamFault { status, offset: start });
        link.refresh(start)
    }

    /// Takes the outcome of the current chunk and says what to yield for it.
    pub fn settle(&mut self, outcome: Chunk) -> (r: Emit)
        requires
            old(self).next is Some,
            outcome matches Chunk::Data(len) ==> old(self).next->0 + len <= u64::MAX,
        ensures
            final(self).limit == old(self).limit,
            match outcome {
                Chunk::Data(len) => r == Emit::Bytes && final(self).next == Some(
                    (old(self).next->0 + len) as u64,
                ),
                Chunk::End => r == Emit::Finished && final(self).next == old(self).next,
                Chunk::Failed(_) => r == Emit::Error && final(self).next is None,
            },
    {
        match outcome {
            Chunk::Data(len) => {
                let start: u64 = self.next.unwrap();
                self.next = Some(start + len);
                Emit::Bytes
            },
            Chunk::End => Emit::Finished,
            Chunk::Failed(_) => {
                self.next = None;
                Emit::Error
            },
        }
    }
}

/// How far the pursuit of one chunk has got.
#[derive(Debug, Clone, Copy, PartialEq, Eq)]
pub enum Stage {
    /// The range has been asked for.
    Fetching,
    /// It was refused, with this status where there was one, and a fresh URL has
    /// been asked for.
    Asking(Option<u16>),
    /// The same range has been asked for at the fresh URL.
    Retrying,
    Settled,
}

/// What the pursuit of a chunk takes next.
#[derive(Debug, Clone, Copy, PartialEq, Eq)]
pub enum Turn {
    /// Ask for a fresh URL, because of a refusal with this status.
    Ask(Option<u16>),
    /// Fetch this range, both ends included, at the fresh URL.
    Fetch { start: u64, end: u64 },
    /// This is what the chunk came to.
    Settle(Chunk),
}

/// The pursuit of one chunk: a range that is refused is asked about once, and
/// fetched once more where a fresh URL comes.
#[derive(Debug, Clone, Copy)]
pub struct Pursuit {
    pub start: u64,
    /// The last offset of the range.
    pub end: u64,
    pub stage: Stage,
}

impl Pursuit {
    /// The pursuit at another stage.
    pub open spec fn at(self, stage: Stage) -> Pursuit {
        Pursuit { stage, ..self }
    }

    /// What is done about what a fetch came to.
    pub open spec fn hears(self, outcome: Chunk) -> (Pursuit, Turn) {
        match (self.stage, outcome) {
            (Stage::Fetching, Chunk::Failed(status)) => (
                self.at(Stage::Asking(status)),
                Turn::Ask(status),
            ),
            _ => (self.at(Stage::Settled), Turn::Settle(outcome)),
        }
    }

    /// What is done once it is known whether a fresh URL came.
    pub open spec fn learns(self, fresh: bool) -> (Pursuit, Turn) {
        if fresh {
            (self.at(Stage::Retrying), Turn::Fetch { start: self.start, end: self.end })
        } else {
            (self.at(Stage::Settled), Turn::Settle(Chunk::Failed(self.stage->Asking_0)))
        }
    }

    /// Takes what a fetch of the range came to.
    pub fn heard(&mut self, outcome: Chunk) -> (r: Turn)
        ensures
            (*final(self), r) == old(self).hears(outcome),
    {
        match (self.stage, outcome) {
            (Stage::Fetching, Chunk::Failed(status)) => {
                self.stage = Stage::Asking(status);
                Turn::Ask(status)
            },
            _ => {
                self.stage = Stage::Settled;
                Turn::Settle(outcome)
            },
        }
    }

    /// Takes whether a fresh URL came.
    pub fn answered(&mut self, fresh: bool) -> (r: Turn)
        requires
            old(self).stage is Asking,
        ensures
            (*final(self), r) == old(self).learns(fresh),
    {
        match self.stage {
            Stage::Asking(status) => {
                if fresh {
                    self.stage = Stage::Retrying;
                    Turn::Fetch { start: self.start, end: self.end }
                } else {
                    self.stage = Stage::Settled;
                    Turn::Settle(Chunk::Failed(status))
                }
            },
            _ => Turn::Settle(Chunk::End),
        }
    }
}

/// No refusal is asked about twice. A chunk is asked about only when its first
/// fetch is refused; where a fresh URL comes, the same range is fetched again,
/// and whatever that comes to stands; where none comes, the refusal stands.
pub proof fn refusals_are_asked_about_once(pursuit: Pursuit, first: Chunk, second: Chunk)
    ensures
        pursuit.hears(first).1 is Ask ==> {
            let asking = pursuit.hears(first).0;
            let again = asking.learns(true);
            &&& pursuit.stage is Fetching
            &&& first is Failed
            &&& again.1 == (Turn::Fetch { start: pursuit.start, end: pursuit.end })
            &&& again.0.hears(second).1 == Turn::Settle(second)
            &&& asking.learns(false).1 == Turn::Settle(first)
        },
        !(pursuit.stage is Fetching) ==> !(pursuit.hears(first).1 is Ask),
{
}

/// The cursor after a run of chunks of the given lengths.
pub open spec fn walk(cursor: Cursor, lengths: Seq<u64>) -> Cursor
    decreases lengths.len(),
{
    if lengths.len() == 0 {
        cursor
    } else {
        let before = walk(cursor, lengths.drop_last());
        Cursor { next: Some((before.next->0 + lengths.last()) as u64), ..before }
    }
}

/// The sum of a run of lengths.
pub open spec fn total_of(lengths: Seq<u64>) -> nat
    decreases lengths.len(),
{
    if lengths.len() == 0 {
        0
    } else {
        total_of(lengths.drop_last()) + lengths.last() as nat
    }
}

/// Nothing is skipped and nothing is asked for twice: after any run of chunks
/// the next one starts exactly as far in as bytes have been delivered.
pub proof fn chunks_are_contiguous(cursor: Cursor, lengths: Seq<u64>)
    requires
        cursor.next is Some,
        cursor.next->0 + total_of(lengths) <= u64::MAX,
    ensures
        walk(cursor, lengths).next == Some((cursor.next->0 + total_of(lengths)) as u64),
        walk(cursor, lengths).limit == cursor.limit,
    decreases lengths.len(),
{
    if lengths.len() > 0 {
        chunks_are_contiguous(cursor, lengths.drop_last());
    }
}

/// A range that is asked for starts where the cursor stands, is not empty,
/// holds no more than a chunk, and never reaches the limit.
pub proof fn ranges_stay_inside(cursor: Cursor)
    requires
        !cursor.over(),
    ensures
        cursor.next->0 <= chunk_end_of(cursor.next->0, cursor.limit),
        chunk_end_of(cursor.next->0, cursor.limit) - cursor.next->0 < CHUNK_BYTES,
        cursor.limit is Some ==> chunk_end_of(cursor.next->0, cursor.limit) < cursor.limit->0,
{
}

/// A chunk that comes is handed up as it is, whether at first or at the fresh URL,
/// and a first fetch that fails is asked about, with the status that it failed
/// with.
pub proof fn first_failure_is_asked_about(pursuit: Pursuit, status: Option<u16>, len: u64)
    requires
        pursuit.stage is Fetching,
    ensures
        pursuit.hears(Chunk::Data(len)).1 == Turn::Settle(Chunk::Data(len)),
        pursuit.hears(Chunk::End).1 == Turn::Settle(Chunk::End),
        pursuit.hears(Chunk::Failed(status)).1 == Turn::Ask(status),
        ({
            let again = pursuit.hears(Chunk::Failed(status)).0.learns(true);
            &&& again.1 == (Turn::Fetch { start: pursuit.start, end: pursuit.end })
            &&& again.0.hears(Chunk::Data(len)).1 == Turn::Settle(Chunk::Data(len))
        }),
{
}

/// A chunk is a quarter of a mebibyte, unless the limit comes first; and then it
/// reaches right up to the limit.
pub proof fn chunks_are_whole(start: u64, limit: Option<u64>)
    requires
        start + 262144 <= u64::MAX,
        limit is Some ==> start < limit->0,
    ensures
        limit is None ==> chunk_end_of(start, limit) + 1 - start == 262144,
        limit is Some && limit->0 - start >= 262144 ==> chunk_end_of(start, limit) + 1 - start
            == 262144,
        limit is Some && limit->0 - start < 262144 ==> chunk_end_of(start, limit) + 1 == limit->0,
{
}

/// A server error and a request that timed out are worth asking again, and no
/// other answer is. Without an answer it is the transport that counts.
pub proof fn only_bad_moments_are_retried(status: u16, transport: Transport)
    ensures
        transient_fault(Some(status), transport) <==> 500 <= status <= 599 || status == 408,
        transient_fault(None, transport) <==> transport.timeout || transport.connect
            || transport.request,
{
}

/// How far a stream got is named to the nearest tenth of a mebibyte.
pub proof fn offsets_are_named_to_the_tenth(offset: nat)
    ensures
        offset * 10 - 524288 <= tenths_of_mib(offset) * 1048576 <= offset * 10 + 524288,
{
    let ten = (offset * 10) as int;
    assert(ten == ten / 1048576 * 1048576 + ten % 1048576);
}

/// A URL that is asked for and handed over reaches the download: the question
/// stands until then, with the offset that it is about, and is settled by picking
/// the URL up.
pub proof fn question_is_answered(link: LinkView, offset: u64, url: Seq<char>)
    ensures
        link.requested(offset).wanted == Some(offset),
        !link.requested(offset).declined,
        link.requested(offset).with_url(url).supplied == Some(url),
        link.requested(offset).with_url(url).wanted == Some(offset),
        !link.refused().with_url(url).declined,
        link.with_url(url).taken().supplied is None,
        link.with_url(url).taken().wanted is None,
        link.with_url(url).taken().fault == link.fault,
        link.requested(offset).given_up().wanted is None,
        link.supplied is None ==> link.taken() == link,
        LinkView::fresh().recorded(StreamFault { status: None, offset }).fault == Some(
            StreamFault { status: None, offset },
        ),
{
}

/// The sequence of chunks is over where the limit is reached, and not before.
pub proof fn sequence_goes_on_to_its_limit(cursor: Cursor)
    requires
        cursor.next is Some,
    ensures
        cursor.over() <==> cursor.limit is Some && cursor.next->0 >= cursor.limit->0,
{
}

/// The size of a file is what stands behind the last slash of its range.
pub proof fn total_stands_behind_the_slash(front: Seq<char>, n: u64)
    requires
        !front.contains('/'),
    ensures
        text::number_of(
            text::trim_of(after_slash(front.push('/') + text::decimal_of(n as nat))),
        ) == Some(n),
{
    let d = text::decimal_of(n as nat);
    text::decimal_reads_back(n);
    assert forall|k: int| 0 <= k < d.len() implies (#[trigger] d[k]) != '/' && !text::white_space(
        d[k],
    ) by {
        assert(text::is_digit(d[k]));
    }
    assert(!d.contains('/'));
    text::separator_ends_a_piece(front, '/', d);
    text::separator_ends_a_piece(d, '/', d);
    assert(text::split_of(front.push('/') + d, '/').last() == d);
    assert(d.len() > 0) by {
        assert(text::number_of(d) is Some);
    }
    text::trimming_takes_only_space(d, 0, d.len() as int);
    assert(d.subrange(0, d.len() as int) =~= d);
}

/// A fault is told with the status of the refusal where there was one, and with how
/// far into the file it struck, in mebibytes to one place.
pub proof fn faults_are_told(fault: StreamFault)
    ensures
        ({
            let tenths = tenths_of_mib(fault.offset as nat);
            let place = text::decimal_of(tenths / 10) + "."@ + text::decimal_of(tenths % 10);
            &&& fault.status is Some ==> fault.text_of() == "HTTP "@ + text::decimal_of(
                fault.status->0 as nat,
            ) + " at "@ + place + " MiB"@
            &&& fault.status is None ==> fault.text_of() == "connection lost at "@ + place
                + " MiB"@
        }),
{
}

} // verus!
