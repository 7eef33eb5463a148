//! Discord Rich Presence: the card on the user's profile that says what is
//! playing.
//!
//! What the card says, when it has changed enough to be worth sending, and when
//! the connection may be written to are decided here. The socket itself lives
//! outside: [`Presence`] collects messages for a worker, and [`Worker`] tells
//! that worker when to look for Discord and when to write.

use vstd::prelude::*;

use crate::source;

use crate::json;

use crate::json::Json;
use crate::text;

verus! {

broadcast use vstd::string::group_string_axioms;

/// The Discord application that the card belongs to. An application id is
/// public: it travels in every presence on the wire.
pub const APPLICATION_ID: &'static str = "1540750108822339695";

/// Where the program can be had.
pub const REPOSITORY: &'static str = "https://github.com/lightzgls/mtui";

/// The least time between two writes, in milliseconds. Discord counts updates
/// and drops them silently once there are too many.
pub const MIN_GAP_MS: u64 = 4000;

/// How long to wait before looking for Discord again, in milliseconds.
pub const RECONNECT_MS: u64 = 15000;

/// How far two versions of the same clock may differ before the card is
/// rewritten, in milliseconds.
pub const DRIFT_MS: u64 = 2000;

/// The longest text that Discord accepts on the card, in characters.
pub const MAX_FIELD: usize = 128;

/// The opcode of the frame that opens a connection.
pub const OP_HANDSHAKE: u32 = 0;

/// The opcode of the frame that every command travels in.
pub const OP_FRAME: u32 = 1;

/// The address of the picture of a video.
pub open spec fn cover_url_of(video_id: Seq<char>) -> Seq<char> {
    "https://i.ytimg.com/vi/"@ + video_id + "/hqdefault.jpg"@
}

/// The address of the picture of a video. This one exists for every upload.
pub fn cover_url(video_id: &str) -> (r: String)
    ensures
        r@ == cover_url_of(video_id@),
{
    let mut r = String::new();
    r.append("https://i.ytimg.com/vi/");
    r.append(video_id);
    r.append("/hqdefault.jpg");
    proof {
        assert(r@ =~= cover_url_of(video_id@));
    }
    r
}

/// The address of the page of a video.
pub open spec fn watch_url_of(video_id: Seq<char>) -> Seq<char> {
    "https://www.youtube.com/watch?v="@ + video_id
}

/// The address of the page of a video.
pub fn watch_url(video_id: &str) -> (r: String)
    ensures
        r@ == watch_url_of(video_id@),
{
    let mut r = String::new();
    r.append("https://www.youtube.com/watch?v=");
    r.append(video_id);
    proof {
        assert(r@ =~= watch_url_of(video_id@));
    }
    r
}

/// Where playback is, as two wall-clock instants. Discord works out the bar
/// from these.
#[derive(Debug, Clone, Copy, PartialEq, Eq, Structural)]
pub struct Clock {
    /// Unix milliseconds at which the track was at position zero.
    pub start_ms: u64,
    /// Unix milliseconds at which it reaches its end. A livestream has none.
    pub end_ms: Option<u64>,
}

/// What the card says.
#[derive(Debug)]
pub struct Activity<S = String> {
    pub video_id: S,
    pub title: S,
    pub artist: S,
    /// Shown over the artwork.
    pub album: Option<S>,
    pub paused: bool,
    /// Where the progress bar is. None while paused: Discord cannot hold a bar
    /// still.
    pub clock: Option<Clock>,
}

impl View for Activity {
    type V = Activity<Seq<char>>;

    open spec fn view(&self) -> Activity<Seq<char>> {
        Activity {
            video_id: self.video_id@,
            title: self.title@,
            artist: self.artist@,
            album: text::opt_view(self.album),
            paused: self.paused,
            clock: self.clock,
        }
    }
}

impl Clone for Activity {
    fn clone(&self) -> (r: Self)
        ensures
            r@ == self@,
    {
        Activity {
            video_id: self.video_id.clone(),
            title: self.title.clone(),
            artist: self.artist.clone(),
            album: text::clone_opt(&self.album),
            paused: self.paused,
            clock: self.clock,
        }
    }
}

/// What an optional card says.
pub open spec fn card_view(card: Option<Activity>) -> Option<Activity<Seq<char>>> {
    match card {
        Some(card) => Some(card@),
        None => None,
    }
}

/// How far apart two times are.
pub open spec fn apart(a: u64, b: u64) -> int {
    if a >= b {
        a - b
    } else {
        b - a
    }
}

/// Whether two clocks are the same to within what is worth a rewrite.
pub open spec fn same_clock(a: Option<Clock>, b: Option<Clock>) -> bool {
    match (a, b) {
        (None, None) => true,
        (Some(a), Some(b)) => a.end_ms is Some == b.end_ms is Some && apart(
            a.start_ms,
            b.start_ms,
        ) <= DRIFT_MS,
        _ => false,
    }
}

/// What the card shows under the title.
pub open spec fn state_of(artist: Seq<char>, paused: bool) -> Seq<char> {
    let name = text::trim_of(artist);
    if name.len() == 0 {
        if paused {
            "Paused"@
        } else {
            Seq::empty()
        }
    } else if paused {
        name + " (paused)"@
    } else {
        name
    }
}

/// A text as Discord accepts it: no longer than [`MAX_FIELD`], and filled up
/// with spaces to two characters.
pub open spec fn clamp_of(s: Seq<char>) -> Seq<char> {
    if s.len() == 0 {
        seq![' ', ' ']
    } else if s.len() == 1 {
        s.push(' ')
    } else if s.len() > MAX_FIELD {
        s.take(MAX_FIELD as int)
    } else {
        s
    }
}

/// Fits a text to what Discord accepts. Counted in characters, so that none is
/// cut through.
pub fn clamp(s: &str) -> (r: String)
    ensures
        r@ == clamp_of(s@),
        2 <= r@.len() <= MAX_FIELD,
{
    let chars = text::to_chars(s);
    let end: usize = if chars.len() > MAX_FIELD {
        MAX_FIELD
    } else {
        chars.len()
    };
    let kept = text::part(&chars, 0, end);
    let mut out = text::from_chars(&kept);
    let mut n: usize = end;
    while n < 2
        invariant
            n == out@.len(),
            end <= n,
            end == (if s@.len() > MAX_FIELD {
                MAX_FIELD as nat
            } else {
                s@.len()
            }),
            out@.take(end as int) == s@.take(end as int),
            forall|i: int| end <= i < n ==> out@[i] == ' ',
            n <= 2 || n == end,
        decreases 2 - n,
    {
        let ghost before = out@;
        out.push(' ');
        n += 1;
        proof {
            assert(out@.take(end as int) =~= before.take(end as int));
        }
    }
    proof {
        assert(out@.take(end as int) == s@.take(end as int));
        assert forall|i: int| 0 <= i < end implies out@[i] == s@[i] by {
            assert(out@.take(end as int)[i] == s@.take(end as int)[i]);
        }
        assert(out@ =~= clamp_of(s@));
    }
    out
}

impl Activity<Seq<char>> {
    /// Whether two cards are the same to within what is worth a rewrite.
    pub open spec fn same_card(self, other: Activity<Seq<char>>) -> bool {
        &&& same_clock(self.clock, other.clock)
        &&& self.video_id == other.video_id
        &&& self.title == other.title
        &&& self.artist == other.artist
        &&& self.album == other.album
        &&& self.paused == other.paused
    }
}

/// Whether a JSON value is the card of an activity, field by field.
pub open spec fn is_card(value: Json, a: Activity<Seq<char>>) -> bool {
    let fields = json::fields_of(value);
    let assets = json::fields_of(fields[4].1);
    let buttons = json::items_of(fields[5].1);
    let first = json::fields_of(buttons[0]);
    let second = json::fields_of(buttons[1]);
    let times = json::fields_of(fields[6].1);
    &&& value is Object
    &&& fields.len() == if a.clock is Some {
        7nat
    } else {
        6nat
    }
    &&& json::number_at(fields, 0, "type", 2)
    &&& json::number_at(fields, 1, "status_display_type", 2)
    &&& json::text_at(fields, 2, "details", clamp_of(a.title))
    &&& json::text_at(fields, 3, "state", clamp_of(state_of(a.artist, a.paused)))
    &&& json::named(fields, 4, "assets")
    &&& fields[4].1 is Object
    &&& assets.len() == 3
    &&& json::text_at(assets, 0, "large_image", cover_url_of(a.video_id))
    &&& json::text_at(
        assets,
        1,
        "large_text",
        clamp_of(
            match a.album {
                Some(album) => album,
                None => a.title,
            },
        ),
    )
    &&& json::text_at(assets, 2, "large_url", REPOSITORY@)
    &&& json::named(fields, 5, "buttons")
    &&& fields[5].1 is List
    &&& buttons.len() == 2
    &&& buttons[0] is Object
    &&& first.len() == 2
    &&& json::text_at(first, 0, "label", "Listen on YouTube"@)
    &&& json::text_at(first, 1, "url", watch_url_of(a.video_id))
    &&& buttons[1] is Object
    &&& second.len() == 2
    &&& json::text_at(second, 0, "label", "Get MTUI"@)
    &&& json::text_at(second, 1, "url", REPOSITORY@)
    &&& a.clock is Some ==> {
        &&& json::named(fields, 6, "timestamps")
        &&& fields[6].1 is Object
        &&& times.len() == if a.clock->0.end_ms is Some {
            2nat
        } else {
            1nat
        }
        &&& json::number_at(times, 0, "start", a.clock->0.start_ms)
        &&& a.clock->0.end_ms is Some ==> json::number_at(times, 1, "end", a.clock->0.end_ms->0)
    }
}

fn button(label: &str, url: &str) -> (r: Json)
    ensures
        r is Object,
        json::fields_of(r).len() == 2,
        json::text_at(json::fields_of(r), 0, "label", label@),
        json::text_at(json::fields_of(r), 1, "url", url@),
{
    let mut fields: Vec<(String, Json)> = Vec::new();
    fields.push(("label".to_owned(), Json::Text(label.to_owned())));
    fields.push(("url".to_owned(), Json::Text(url.to_owned())));
    Json::Object(fields)
}

impl Activity {
    /// Whether this is the same card as `other`, to within what the wall clock
    /// is worth trusting to.
    pub fn same_as(&self, other: &Self) -> (r: bool)
        ensures
            r == self@.same_card(other@),
    {
        let clocks = match (self.clock, other.clock) {
            (None, None) => true,
            (Some(a), Some(b)) => {
                let gap: u64 = if a.start_ms >= b.start_ms {
                    a.start_ms - b.start_ms
                } else {
                    b.start_ms - a.start_ms
                };
                a.end_ms.is_some() == b.end_ms.is_some() && gap <= DRIFT_MS
            },
            _ => false,
        };
        clocks && self.same_words(other)
    }

    /// Whether everything but the clock is equal.
    fn same_words(&self, other: &Self) -> (r: bool)
        ensures
            r == (self@.video_id == other@.video_id && self@.title == other@.title && self@.artist
                == other@.artist && self@.album == other@.album && self@.paused == other@.paused),
    {
        let albums = match (&self.album, &other.album) {
            (None, None) => true,
            (Some(a), Some(b)) => text::same(a.as_str(), b.as_str()),
            _ => false,
        };
        albums && text::same(self.video_id.as_str(), other.video_id.as_str()) && text::same(
            self.title.as_str(),
            other.title.as_str(),
        ) && text::same(self.artist.as_str(), other.artist.as_str()) && self.paused == other.paused
    }

    /// Whether two cards are equal, clock and all.
    pub fn equals(&self, other: &Self) -> (r: bool)
        ensures
            r == (self@ == other@),
    {
        self.same_words(other) && self.clock == other.clock
    }

    /// What the card shows under the title: the artist, and that the track is
    /// paused where it is.
    fn state_line(&self) -> (r: String)
        ensures
            r@ == state_of(self@.artist, self@.paused),
    {
        let chars = text::to_chars(self.artist.as_str());
        let name = text::trim(&chars);
        if name.len() == 0 {
            if self.paused {
                "Paused".to_owned()
            } else {
                String::new()
            }
        } else {
            let mut line = text::from_chars(&name);
            if self.paused {
                line.append(" (paused)");
            }
            line
        }
    }

    /// The card as Discord is sent it.
    pub fn payload(&self) -> (r: Json)
        ensures
            is_card(r, self@),
    {
        let mut assets: Vec<(String, Json)> = Vec::new();
        assets.push((
            "large_image".to_owned(),
            Json::Text(cover_url(self.video_id.as_str())),
        ));
        let hover = match &self.album {
            Some(album) => clamp(album.as_str()),
            None => clamp(self.title.as_str()),
        };
        assets.push(("large_text".to_owned(), Json::Text(hover)));
        assets.push(("large_url".to_owned(), Json::Text(REPOSITORY.to_owned())));

        let mut buttons: Vec<Json> = Vec::new();
        buttons.push(button("Listen on YouTube", watch_url(self.video_id.as_str()).as_str()));
        buttons.push(button("Get MTUI", REPOSITORY));

        let mut fields: Vec<(String, Json)> = Vec::new();
        fields.push(("type".to_owned(), Json::Number(2)));
        fields.push(("status_display_type".to_owned(), Json::Number(2)));
        fields.push(("details".to_owned(), Json::Text(clamp(self.title.as_str()))));
        let state = self.state_line();
        fields.push(("state".to_owned(), Json::Text(clamp(state.as_str()))));
        fields.push(("assets".to_owned(), Json::Object(assets)));
        fields.push(("buttons".to_owned(), Json::List(buttons)));
        if let Some(clock) = self.clock {
            let mut times: Vec<(String, Json)> = Vec::new();
            times.push(("start".to_owned(), Json::Number(clock.start_ms)));
            if let Some(end) = clock.end_ms {
                times.push(("end".to_owned(), Json::Number(end)));
            }
            fields.push(("timestamps".to_owned(), Json::Object(times)));
        }
        Json::Object(fields)
    }
}

/// A clock that only jittered is the same card, so a track that plays on
/// undisturbed is not sent again.
pub proof fn jitter_is_the_same_card(a: Activity<Seq<char>>, b: Activity<Seq<char>>)
    requires
        a.clock is Some,
        b == (Activity { clock: b.clock, ..a }),
        b.clock is Some,
        a.clock->0.end_ms is Some == b.clock->0.end_ms is Some,
    ensures
        a.same_card(b) == (apart(a.clock->0.start_ms, b.clock->0.start_ms) <= DRIFT_MS),
        a.same_card(b) == b.same_card(a),
{
}

/// A card is the same card as itself, and sameness does not depend on which of
/// the two came first.
pub proof fn sameness_is_mutual(a: Activity<Seq<char>>, b: Activity<Seq<char>>)
    ensures
        a.same_card(a),
        a.same_card(b) == b.same_card(a),
{
}

/// The first frame of a connection.
pub fn handshake(application_id: &str) -> (r: Json)
    ensures
        r is Object,
        json::fields_of(r).len() == 2,
        json::number_at(json::fields_of(r), 0, "v", 1),
        json::text_at(json::fields_of(r), 1, "client_id", application_id@),
{
    let mut fields: Vec<(String, Json)> = Vec::new();
    fields.push(("v".to_owned(), Json::Number(1)));
    fields.push(("client_id".to_owned(), Json::Text(application_id.to_owned())));
    Json::Object(fields)
}

/// The command that puts a card up, or takes it down where there is none. The
/// card is tied to a process, so that Discord can drop it when that dies.
pub fn set_activity(nonce: u64, pid: u32, activity: Option<&Activity>) -> (r: Json)
    ensures
        ({
            let fields = json::fields_of(r);
            let args = json::fields_of(fields[2].1);
            &&& r is Object
            &&& fields.len() == 3
            &&& json::text_at(fields, 0, "cmd", "SET_ACTIVITY"@)
            &&& json::text_at(fields, 1, "nonce", text::decimal_of(nonce as nat))
            &&& json::named(fields, 2, "args")
            &&& fields[2].1 is Object
            &&& args.len() == 2
            &&& json::number_at(args, 0, "pid", pid as u64)
            &&& json::named(args, 1, "activity")
            &&& match activity {
                Some(a) => is_card(args[1].1, a@),
                None => args[1].1 == Json::Null,
            }
        }),
{
    let mut args: Vec<(String, Json)> = Vec::new();
    args.push(("pid".to_owned(), Json::Number(pid as u64)));
    let card = match activity {
        Some(a) => a.payload(),
        None => Json::Null,
    };
    args.push(("activity".to_owned(), card));
    let mut fields: Vec<(String, Json)> = Vec::new();
    fields.push(("cmd".to_owned(), Json::Text("SET_ACTIVITY".to_owned())));
    fields.push(("nonce".to_owned(), Json::Text(text::decimal(nonce))));
    fields.push(("args".to_owned(), Json::Object(args)));
    Json::Object(fields)
}

/// A number in four bytes, the lowest first.
pub open spec fn le_bytes(n: u32) -> Seq<u8> {
    seq![
        (n % 256) as u8,
        (n / 256 % 256) as u8,
        (n / 65536 % 256) as u8,
        (n / 16777216) as u8,
    ]
}

fn push_le(out: &mut Vec<u8>, n: u32)
    ensures
        final(out)@ == old(out)@ + le_bytes(n),
{
    out.push((n % 256) as u8);
    out.push((n / 256 % 256) as u8);
    out.push((n / 65536 % 256) as u8);
    out.push((n / 16777216) as u8);
    proof {
        assert(out@ =~= old(out)@ + le_bytes(n));
    }
}

/// One frame: opcode, length and body, in one piece, since a header that went
/// out without its body would put the stream out of step for good. None for a
/// body too long for its length to be written.
pub fn frame(op: u32, body: &[u8]) -> (r: Option<Vec<u8>>)
    ensures
        match r {
            Some(bytes) => body@.len() <= u32::MAX && bytes@ == le_bytes(op) + le_bytes(
                body@.len() as u32,
            ) + body@,
            None => body@.len() > u32::MAX,
        },
{
    if body.len() as u64 > u32::MAX as u64 {
        return None;
    }
    let mut out: Vec<u8> = Vec::new();
    push_le(&mut out, op);
    push_le(&mut out, body.len() as u32);
    out.extend_from_slice(body);
    proof {
        assert(out@ =~= le_bytes(op) + le_bytes(body@.len() as u32) + body@);
    }
    Some(out)
}

/// What four bytes say, the lowest first.
pub open spec fn le_value(bytes: Seq<u8>) -> nat {
    (bytes[0] + 256 * bytes[1] + 65536 * bytes[2] + 16777216 * bytes[3]) as nat
}

proof fn lemma_le(n: u32)
    ensures
        le_value(le_bytes(n)) == n,
{
    let m = n as int;
    assert(m == m % 256 + 256 * (m / 256 % 256) + 65536 * (m / 65536 % 256) + 16777216 * (m
        / 16777216)) by (nonlinear_arith)
        requires
            0 <= m <= u32::MAX,
    ;
}

/// A frame can be read back: its first eight bytes state the opcode and the
/// length, and what follows is the body.
pub proof fn frame_can_be_read_back(op: u32, body: Seq<u8>)
    requires
        body.len() <= u32::MAX,
    ensures
        ({
            let bytes = le_bytes(op) + le_bytes(body.len() as u32) + body;
            &&& le_value(bytes.subrange(0, 4)) == op
            &&& le_value(bytes.subrange(4, 8)) == body.len()
            &&& bytes.skip(8) == body
        }),
{
    let bytes = le_bytes(op) + le_bytes(body.len() as u32) + body;
    assert(bytes.subrange(0, 4) =~= le_bytes(op));
    assert(bytes.subrange(4, 8) =~= le_bytes(body.len() as u32));
    assert(bytes.skip(8) =~= body);
    lemma_le(op);
    lemma_le(body.len() as u32);
}

/// Unix milliseconds now, as the clock of the machine has it; zero on a clock
/// set before 1970.
pub fn now_ms() -> (r: u64)
    ensures
        r <= u64::MAX / 1_000_000,
{
    crate::clock::unix_nanos() / 1_000_000
}

/// What the worker is handed.
#[derive(Debug)]
pub enum Message<A = Activity> {
    Show(A),
    Clear,
}

impl View for Message {
    type V = Message<Activity<Seq<char>>>;

    open spec fn view(&self) -> Message<Activity<Seq<char>>> {
        match self {
            Message::Show(activity) => Message::Show(activity@),
            Message::Clear => Message::Clear,
        }
    }
}

/// The user's switch, and the card that was last handed to the worker.
#[derive(Debug)]
pub struct Presence {
    /// The application that the worker connects as.
    pub application_id: String,
    /// The card last handed to the worker.
    pub last: Option<Activity>,
    /// Whether the worker has been told that nothing is playing.
    pub cleared: bool,
    pub enabled: bool,
    /// Why there can be no card, where there can be none.
    pub unavailable: Option<String>,
    /// Messages on their way to the worker.
    pub outbox: Vec<Message>,
}

/// What a [`Presence`] holds.
pub struct PresenceView {
    pub application_id: Seq<char>,
    pub last: Option<Activity<Seq<char>>>,
    pub cleared: bool,
    pub enabled: bool,
    pub unavailable: Option<Seq<char>>,
    pub outbox: Seq<Message<Activity<Seq<char>>>>,
}

impl View for Presence {
    type V = PresenceView;

    open spec fn view(&self) -> PresenceView {
        PresenceView {
            application_id: self.application_id@,
            last: card_view(self.last),
            cleared: self.cleared,
            enabled: self.enabled,
            unavailable: text::opt_view(self.unavailable),
            outbox: source::views(self.outbox@),
        }
    }
}

/// The application to connect as: the one that was configured, unless that is
/// blank.
pub open spec fn chosen_id(configured: Option<Seq<char>>) -> Seq<char> {
    if configured is Some && text::trim_of(configured->0).len() > 0 {
        configured->0
    } else {
        APPLICATION_ID@
    }
}

impl PresenceView {
    /// No card up, and the worker told so once.
    pub open spec fn taken_down(self) -> PresenceView {
        PresenceView {
            last: None,
            cleared: true,
            outbox: if self.cleared {
                self.outbox
            } else {
                self.outbox.push(Message::Clear)
            },
            ..self
        }
    }

    /// The state after the switch has been pressed.
    pub open spec fn toggled(self) -> PresenceView {
        let on = !self.enabled && self.unavailable is None;
        let moved = PresenceView { enabled: on, ..self };
        if on {
            moved
        } else {
            moved.taken_down()
        }
    }

    /// The state after the card that should be showing has been offered.
    pub open spec fn published(self, next: Option<Activity<Seq<char>>>) -> PresenceView {
        if !self.enabled {
            self
        } else {
            match next {
                None => self.taken_down(),
                Some(card) => if self.last is Some && self.last->0.same_card(card) {
                    self
                } else {
                    PresenceView {
                        last: Some(card),
                        cleared: false,
                        outbox: self.outbox.push(Message::Show(card)),
                        ..self
                    }
                },
            }
        }
    }

    /// What the switch is said to be.
    pub open spec fn status_of(self) -> Seq<char> {
        match self.unavailable {
            Some(reason) => "Discord presence unavailable: "@ + reason,
            None => if self.enabled {
                "Discord presence on"@
            } else {
                "Discord presence off"@
            },
        }
    }
}

impl Presence {
    /// A switch in the given position, with no card up. The worker is to be
    /// started for [`Presence::application_id`].
    pub fn spawn(application_id: Option<String>, enabled: bool) -> (r: Self)
        ensures
            r@ == (PresenceView {
                application_id: chosen_id(text::opt_view(application_id)),
                last: None,
                cleared: true,
                enabled,
                unavailable: None,
                outbox: Seq::empty(),
            }),
    {
        let chosen = match application_id {
            Some(id) => {
                let chars = text::to_chars(id.as_str());
                let inner = text::trim(&chars);
                if inner.len() > 0 {
                    id
                } else {
                    APPLICATION_ID.to_owned()
                }
            },
            None => APPLICATION_ID.to_owned(),
        };
        let r = Presence {
            application_id: chosen,
            last: None,
            cleared: true,
            enabled,
            unavailable: None,
            outbox: Vec::new(),
        };
        proof {
            assert(source::views(r.outbox@) =~= Seq::empty());
        }
        r
    }

    /// The worker could not be started, so there will be no card.
    pub fn worker_failed(&mut self)
        ensures
            final(self)@ == (PresenceView {
                enabled: false,
                unavailable: Some("the presence worker could not start"@),
                ..old(self)@
            }),
    {
        self.enabled = false;
        self.unavailable = Some("the presence worker could not start".to_owned());
    }

    /// Flips the switch and returns where it landed. Switching off takes the
    /// card down.
    pub fn toggle(&mut self) -> (r: bool)
        ensures
            final(self)@ == old(self)@.toggled(),
            r == final(self)@.enabled,
    {
        self.enabled = !self.enabled && self.unavailable.is_none();
        if !self.enabled {
            self.clear();
        }
        self.enabled
    }

    /// Where the switch is.
    pub fn enabled(&self) -> (r: bool)
        ensures
            r == self@.enabled,
    {
        self.enabled
    }

    /// What to tell the user about the switch.
    pub fn status(&self) -> (r: String)
        ensures
            r@ == self@.status_of(),
    {
        match &self.unavailable {
            Some(reason) => {
                let mut r = String::new();
                r.append("Discord presence unavailable: ");
                r.append(reason.as_str());
                proof {
                    assert(r@ =~= "Discord presence unavailable: "@ + reason@);
                }
                r
            },
            None => {
                if self.enabled {
                    "Discord presence on".to_owned()
                } else {
                    "Discord presence off".to_owned()
                }
            },
        }
    }

    /// Offers the card that should be showing now. It goes to the worker only
    /// where it has changed.
    pub fn publish(&mut self, next: Option<Activity>)
        ensures
            final(self)@ == old(self)@.published(card_view(next)),
    {
        if !self.enabled {
            return;
        }
        match next {
            None => {
                self.clear();
            },
            Some(card) => {
                if let Some(last) = &self.last {
                    if last.same_as(&card) {
                        return;
                    }
                }
                let ghost before = self.outbox@;
                self.outbox.push(Message::Show(card.clone()));
                proof {
                    assert(source::views(self.outbox@) =~= source::views(before).push(Message::Show(card@)));
                }
                self.last = Some(card);
                self.cleared = false;
            },
        }
    }

    /// Takes the card down.
    fn clear(&mut self)
        ensures
            final(self)@ == old(self)@.taken_down(),
    {
        self.last = None;
        if !self.cleared {
            let ghost before = self.outbox@;
            self.outbox.push(Message::Clear);
            proof {
                assert(source::views(self.outbox@) =~= source::views(before).push(Message::Clear));
            }
            self.cleared = true;
        }
    }
}

/// While the switch is off nothing is sent, whatever is offered.
pub proof fn nothing_is_sent_while_off(
    presence: PresenceView,
    next: Option<Activity<Seq<char>>>,
)
    requires
        !presence.enabled,
    ensures
        presence.published(next) == presence,
{
}

/// Switching off takes the card down, and offering it again does not put it
/// back up.
pub proof fn switching_off_keeps_the_card_down(
    presence: PresenceView,
    next: Option<Activity<Seq<char>>>,
)
    requires
        presence.enabled,
    ensures
        presence.toggled().last is None,
        presence.toggled().published(next).last is None,
        presence.toggled().published(next).outbox == presence.toggled().outbox,
{
}

/// A card that has not changed is not sent again, and neither is the news that
/// nothing is playing.
pub proof fn unchanged_card_is_not_sent_again(
    presence: PresenceView,
    next: Option<Activity<Seq<char>>>,
)
    ensures
        presence.published(next).published(next) == presence.published(next),
{
    if next is Some {
        sameness_is_mutual(next->0, next->0);
    }
}

/// The state of the worker that owns the connection. Times are in milliseconds
/// of a clock that only goes forward.
#[derive(Debug)]
pub struct Worker {
    pub connected: bool,
    /// The card that should be showing.
    pub wanted: Option<Activity>,
    /// The card that is showing.
    pub sent: Option<Activity>,
    pub last_write: Option<u64>,
    pub next_attempt: u64,
    /// Whether it has been logged that Discord cannot be reached.
    pub unavailable_logged: bool,
}

/// What a [`Worker`] holds.
pub struct WorkerView {
    pub connected: bool,
    pub wanted: Option<Activity<Seq<char>>>,
    pub sent: Option<Activity<Seq<char>>>,
    pub last_write: Option<u64>,
    pub next_attempt: u64,
    pub unavailable_logged: bool,
}

impl View for Worker {
    type V = WorkerView;

    open spec fn view(&self) -> WorkerView {
        WorkerView {
            connected: self.connected,
            wanted: card_view(self.wanted),
            sent: card_view(self.sent),
            last_write: self.last_write,
            next_attempt: self.next_attempt,
            unavailable_logged: self.unavailable_logged,
        }
    }
}

/// What the worker does next.
#[derive(Debug, Clone, Copy, PartialEq, Eq, Structural)]
pub enum WorkerStep {
    /// Wait for the next message.
    Wait,
    /// Look for Discord, and report to [`Worker::connection`].
    Connect,
    /// Send the card that is wanted, and report to [`Worker::written`].
    Write,
}

/// A time later by `by`, or the latest time where that would be later still.
pub open spec fn later(at: u64, by: u64) -> u64 {
    if at + by > u64::MAX {
        u64::MAX
    } else {
        (at + by) as u64
    }
}

/// How much of `span` is left `now`, where it began at `from`.
pub open spec fn left_of(span: u64, from: u64, now: u64) -> u64 {
    if now >= from + span {
        0
    } else if now >= from {
        (span - (now - from)) as u64
    } else {
        span
    }
}

impl WorkerView {
    /// Whether what is showing is not what should be showing.
    pub open spec fn pending(self) -> bool {
        self.wanted != self.sent
    }

    /// Whether a write would come too soon after the last one.
    pub open spec fn too_soon(self, now: u64) -> bool {
        self.last_write is Some && now < self.last_write->0 + MIN_GAP_MS
    }

    /// What to do once a connection is there.
    pub open spec fn write_step(self, now: u64) -> WorkerStep {
        if !self.pending() || self.too_soon(now) {
            WorkerStep::Wait
        } else {
            WorkerStep::Write
        }
    }

    /// The state after it was asked what to do, and what that is.
    pub open spec fn steps(self, now: u64) -> (WorkerView, WorkerStep) {
        if self.wanted is None && self.sent is None {
            (self, WorkerStep::Wait)
        } else if self.connected {
            (self, self.write_step(now))
        } else if now < self.next_attempt {
            (self, WorkerStep::Wait)
        } else {
            (
                WorkerView { next_attempt: later(now, RECONNECT_MS), ..self },
                WorkerStep::Connect,
            )
        }
    }

    /// The state over a fresh connection, and what to do then.
    pub open spec fn connects(self, now: u64) -> (WorkerView, WorkerStep) {
        let fresh = WorkerView {
            connected: true,
            sent: None,
            last_write: None,
            unavailable_logged: false,
            ..self
        };
        (fresh, fresh.write_step(now))
    }

    /// The state once the card that is wanted has been written.
    pub open spec fn shown(self, now: u64) -> WorkerView {
        WorkerView { sent: self.wanted, last_write: Some(now), ..self }
    }

    /// The state once a write has failed.
    pub open spec fn cut_off(self, now: u64) -> WorkerView {
        WorkerView {
            connected: false,
            sent: None,
            next_attempt: later(now, RECONNECT_MS),
            ..self
        }
    }
}

fn same_cards(a: &Option<Activity>, b: &Option<Activity>) -> (r: bool)
    ensures
        r == (card_view(*a) == card_view(*b)),
{
    match (a, b) {
        (None, None) => true,
        (Some(x), Some(y)) => x.equals(y),
        _ => false,
    }
}

impl Worker {
    /// A worker that has just been started.
    pub fn new(now: u64) -> (r: Self)
        ensures
            r@ == (WorkerView {
                connected: false,
                wanted: None,
                sent: None,
                last_write: None,
                next_attempt: now,
                unavailable_logged: false,
            }),
    {
        Worker {
            connected: false,
            wanted: None,
            sent: None,
            last_write: None,
            next_attempt: now,
            unavailable_logged: false,
        }
    }

    /// How long to wait for a message: until the next attempt at a connection,
    /// until the gap after the last write closes, or, with nothing pending, for
    /// as long as a reconnect takes.
    pub fn wait(&self, now: u64) -> (r: u64)
        ensures
            r == if !self@.pending() {
                RECONNECT_MS
            } else if !self@.connected {
                if self@.next_attempt > now {
                    (self@.next_attempt - now) as u64
                } else {
                    0
                }
            } else {
                match self@.last_write {
                    Some(at) => left_of(MIN_GAP_MS, at, now),
                    None => 0,
                }
            },
    {
        if same_cards(&self.wanted, &self.sent) {
            RECONNECT_MS
        } else if !self.connected {
            self.next_attempt.saturating_sub(now)
        } else {
            match self.last_write {
                Some(at) => MIN_GAP_MS.saturating_sub(now.saturating_sub(at)),
                None => 0,
            }
        }
    }

    /// Takes a message, if one came.
    pub fn receive(&mut self, message: Option<Message>)
        ensures
            final(self)@ == (WorkerView {
                wanted: match message {
                    Some(Message::Show(card)) => Some(card@),
                    Some(Message::Clear) => None,
                    None => old(self)@.wanted,
                },
                ..old(self)@
            }),
    {
        match message {
            Some(Message::Show(card)) => {
                self.wanted = Some(card);
            },
            Some(Message::Clear) => {
                self.wanted = None;
            },
            None => {},
        }
    }

    /// What to do now. With nothing to show and nothing showing no connection
    /// is opened at all.
    pub fn step(&mut self, now: u64) -> (r: WorkerStep)
        ensures
            ({
                let w = old(self)@;
                if w.wanted is None && w.sent is None {
                    r == WorkerStep::Wait && final(self)@ == w
                } else if !w.connected {
                    if now < w.next_attempt {
                        r == WorkerStep::Wait && final(self)@ == w
                    } else {
                        r == WorkerStep::Connect && final(self)@ == (WorkerView {
                            next_attempt: later(now, RECONNECT_MS),
                            ..w
                        })
                    }
                } else {
                    r == w.write_step(now) && final(self)@ == w
                }
            }),
            (final(self)@, r) == old(self)@.steps(now),
            old(self)@.connected && old(self)@.wanted != old(self)@.sent && (
            old(self)@.last_write is None || now >= old(self)@.last_write->0 + 4000) ==> r
                == WorkerStep::Write,
    {
        if self.wanted.is_none() && self.sent.is_none() {
            return WorkerStep::Wait;
        }
        if !self.connected {
            if now < self.next_attempt {
                return WorkerStep::Wait;
            }
            self.next_attempt = now.saturating_add(RECONNECT_MS);
            return WorkerStep::Connect;
        }
        self.write_now(now)
    }

    fn write_now(&self, now: u64) -> (r: WorkerStep)
        ensures
            r == self@.write_step(now),
            r == WorkerStep::Write <==> self@.wanted != self@.sent && (self@.last_write is None
                || now >= self@.last_write->0 + 4000),
    {
        if same_cards(&self.sent, &self.wanted) {
            return WorkerStep::Wait;
        }
        if let Some(at) = self.last_write {
            if now < at || now - at < MIN_GAP_MS {
                return WorkerStep::Wait;
            }
        }
        WorkerStep::Write
    }

    /// Discord was looked for. A fresh connection knows nothing of what was
    /// sent over the last one. A failure is worth a line in the log only the
    /// first time, which is what the answer says.
    pub fn connection(&mut self, found: bool, now: u64) -> (r: (WorkerStep, bool))
        ensures
            if found {
                &&& final(self)@ == (WorkerView {
                    connected: true,
                    sent: None,
                    last_write: None,
                    unavailable_logged: false,
                    ..old(self)@
                })
                &&& r.0 == final(self)@.write_step(now)
                &&& old(self)@.wanted is Some ==> r.0 == WorkerStep::Write
                &&& !r.1
            } else {
                &&& final(self)@ == (WorkerView { unavailable_logged: true, ..old(self)@ })
                &&& r.0 == WorkerStep::Wait
                &&& r.1 == !old(self)@.unavailable_logged
            },
            found ==> (final(self)@, r.0) == old(self)@.connects(now),
    {
        if found {
            self.connected = true;
            self.sent = None;
            self.last_write = None;
            self.unavailable_logged = false;
            (self.write_now(now), false)
        } else {
            let first = !self.unavailable_logged;
            self.unavailable_logged = true;
            (WorkerStep::Wait, first)
        }
    }

    /// The card that is wanted was written, or not. Where it was not, the
    /// connection is gone; what is wanted stays wanted and goes up again when
    /// Discord returns.
    pub fn written(&mut self, done: bool, now: u64)
        ensures
            final(self)@ == if done {
                WorkerView { sent: old(self)@.wanted, last_write: Some(now), ..old(self)@ }
            } else {
                WorkerView {
                    connected: false,
                    sent: None,
                    next_attempt: later(now, RECONNECT_MS),
                    ..old(self)@
                }
            },
            done ==> final(self)@ == old(self)@.shown(now),
            !done ==> final(self)@ == old(self)@.cut_off(now),
    {
        if done {
            self.sent = match &self.wanted {
                Some(card) => Some(card.clone()),
                None => None,
            };
            self.last_write = Some(now);
        } else {
            self.connected = false;
            self.sent = None;
            self.next_attempt = now.saturating_add(RECONNECT_MS);
        }
    }
}

/// A worker that is to show nothing and shows nothing never opens a
/// connection.
pub proof fn silence_opens_no_connection(worker: WorkerView, now: u64)
    requires
        worker.wanted is None,
        worker.sent is None,
    ensures
        !worker.pending(),
        worker.write_step(now) == WorkerStep::Wait,
{
}

/// Two writes over one connection are at least [`MIN_GAP_MS`] apart.
pub proof fn writes_keep_their_distance(worker: WorkerView, at: u64, now: u64)
    requires
        worker.last_write == Some(at),
        worker.write_step(now) == WorkerStep::Write,
    ensures
        now >= at + MIN_GAP_MS,
{
}

/// Over a connection a card that is not the one showing goes up now, unless
/// another was written less than four seconds ago. It then waits, and nothing
/// else makes it wait.
pub proof fn changed_card_is_written(worker: WorkerView, now: u64)
    requires
        worker.connected,
        worker.wanted != worker.sent,
    ensures
        worker.last_write is None ==> worker.steps(now) == (worker, WorkerStep::Write),
        worker.last_write is Some && now >= worker.last_write->0 + 4000 ==> worker.steps(now) == (
            worker,
            WorkerStep::Write,
        ),
        worker.last_write is Some && now < worker.last_write->0 + 4000 ==> worker.steps(now) == (
            worker,
            WorkerStep::Wait,
        ),
{
}

/// A fresh connection is told at once what should be showing, whatever was sent
/// over the last one and however lately.
pub proof fn fresh_connection_gets_the_card(worker: WorkerView, now: u64)
    ensures
        worker.wanted is Some ==> worker.connects(now).1 == WorkerStep::Write,
        worker.wanted is None ==> worker.connects(now).1 == WorkerStep::Wait,
        worker.connects(now).0.connected,
        worker.connects(now).0.wanted == worker.wanted,
        worker.connects(now).0.sent is None,
{
}

/// Once the card is written there is nothing to do until another is wanted.
pub proof fn written_card_is_showing(worker: WorkerView, now: u64, then: u64)
    ensures
        worker.shown(now).sent == worker.wanted,
        worker.shown(now).wanted == worker.wanted,
        worker.shown(now).connected == worker.connected,
        worker.connected ==> worker.shown(now).steps(then) == (
            worker.shown(now),
            WorkerStep::Wait,
        ),
{
}

/// A failed write loses the connection and not the card: Discord is looked for
/// again fifteen seconds later and not before, and is then told what is wanted.
pub proof fn lost_connection_is_looked_for_again(worker: WorkerView, now: u64, then: u64)
    requires
        now + 15000 <= u64::MAX,
        worker.wanted is Some,
    ensures
        ({
            let lost = worker.cut_off(now);
            let (trying, step) = lost.steps(then);
            &&& !lost.connected
            &&& lost.wanted == worker.wanted
            &&& then < now + 15000 ==> step == WorkerStep::Wait
            &&& then >= now + 15000 ==> step == WorkerStep::Connect
            &&& step == WorkerStep::Connect && then + 15000 <= u64::MAX ==> trying.next_attempt
                == then + 15000
            &&& trying.connects(then).1 == WorkerStep::Write
        }),
{
}

/// A card that says anything else than the one last offered goes to the worker:
/// another track, other words, paused or not, or a bar that has moved by more
/// than two seconds. So does the first one.
pub proof fn changed_card_is_sent(presence: PresenceView, card: Activity<Seq<char>>)
    requires
        presence.enabled,
        presence.last is None || {
            let last = presence.last->0;
            ||| last.video_id != card.video_id
            ||| last.title != card.title
            ||| last.artist != card.artist
            ||| last.album != card.album
            ||| last.paused != card.paused
            ||| last.clock is Some != card.clock is Some
            ||| last.clock is Some && card.clock is Some && {
                ||| last.clock->0.end_ms is Some != card.clock->0.end_ms is Some
                ||| last.clock->0.start_ms > card.clock->0.start_ms + 2000
                ||| card.clock->0.start_ms > last.clock->0.start_ms + 2000
            }
        },
    ensures
        ({
            let after = presence.published(Some(card));
            &&& after.outbox == presence.outbox.push(Message::Show(card))
            &&& after.last == Some(card)
            &&& !after.cleared
            &&& after.enabled
        }),
{
}

/// When nothing is playing the card is taken down, once.
pub proof fn silence_takes_the_card_down(presence: PresenceView)
    requires
        presence.enabled,
        !presence.cleared,
    ensures
        ({
            let after = presence.published(None);
            &&& after.outbox == presence.outbox.push(Message::Clear)
            &&& after.last is None
            &&& after.published(None) == after
        }),
{
}

/// The switch goes on and off by turns, unless there can be no card: then it
/// stays off. Switching off a card that is up tells the worker.
pub proof fn switch_turns(presence: PresenceView)
    ensures
        presence.unavailable is None ==> presence.toggled().enabled == !presence.enabled,
        presence.unavailable is Some ==> !presence.toggled().enabled,
        presence.enabled && !presence.cleared ==> presence.toggled().outbox
            == presence.outbox.push(Message::Clear),
        !presence.enabled && presence.unavailable is None ==> presence.toggled().outbox
            == presence.outbox,
{
}

/// A text on the card is what it was as far as Discord takes it: its first 128
/// characters, and spaces after it where it is shorter than two.
pub proof fn card_texts_are_kept(s: Seq<char>, i: int)
    ensures
        2 <= clamp_of(s).len() <= 128,
        2 <= s.len() <= 128 ==> clamp_of(s) == s,
        s.len() > 128 ==> clamp_of(s).len() == 128,
        0 <= i < s.len() && i < 128 ==> clamp_of(s)[i] == s[i],
        s.len() <= i < clamp_of(s).len() ==> clamp_of(s)[i] == ' ',
{
}

/// Under the title stands the artist, and behind the name that the track is
/// paused while it is. A blank name leaves only that, or nothing.
pub proof fn artist_stands_under_the_title(artist: Seq<char>)
    ensures
        state_of(artist, false) == text::trim_of(artist),
        text::trim_of(artist).len() > 0 ==> state_of(artist, true) == text::trim_of(artist)
            + " (paused)"@,
        text::trim_of(artist).len() == 0 ==> state_of(artist, true) == "Paused"@,
{
    assert(text::trim_of(artist).len() == 0 ==> text::trim_of(artist) =~= Seq::empty());
}

/// The worker connects as the application that was configured, as it was
/// written, and as the built-in one where none was or where it is blank.
pub proof fn configured_application_is_used(id: Seq<char>)
    ensures
        text::trim_of(id).len() > 0 ==> chosen_id(Some(id)) == id,
        text::trim_of(id).len() == 0 ==> chosen_id(Some(id)) == APPLICATION_ID@,
        chosen_id(None) == APPLICATION_ID@,
{
}

/// The wait ends exactly when the next write may come.
pub proof fn wait_ends_with_the_gap(at: u64, now: u64)
    requires
        at <= now,
        at + 4000 <= u64::MAX,
    ensures
        now < at + 4000 ==> now + left_of(MIN_GAP_MS, at, now) == at + 4000,
        now >= at + 4000 ==> left_of(MIN_GAP_MS, at, now) == 0,
{
}

/// The card carries the track: its title and artist, its own cover and its own
/// page, and, where the bar can move, when it began and when it ends.
pub proof fn card_carries_the_track(value: Json, card: Activity<Seq<char>>)
    requires
        is_card(value, card),
    ensures
        ({
            let fields = json::fields_of(value);
            let assets = json::fields_of(fields[4].1);
            let buttons = json::items_of(fields[5].1);
            let times = json::fields_of(fields[6].1);
            &&& json::text_at(fields, 2, "details", clamp_of(card.title))
            &&& !card.paused ==> json::text_at(
                fields,
                3,
                "state",
                clamp_of(text::trim_of(card.artist)),
            )
            &&& json::text_at(
                assets,
                0,
                "large_image",
                "https://i.ytimg.com/vi/"@ + card.video_id + "/hqdefault.jpg"@,
            )
            &&& card.album is Some ==> json::text_at(
                assets,
                1,
                "large_text",
                clamp_of(card.album->0),
            )
            &&& card.album is None ==> json::text_at(assets, 1, "large_text", clamp_of(card.title))
            &&& json::text_at(
                json::fields_of(buttons[0]),
                1,
                "url",
                "https://www.youtube.com/watch?v="@ + card.video_id,
            )
            &&& json::text_at(
                json::fields_of(buttons[1]),
                1,
                "url",
                "https://github.com/lightzgls/mtui"@,
            )
            &&& card.clock is Some <==> fields.len() == 7
            &&& card.clock is Some ==> json::number_at(times, 0, "start", card.clock->0.start_ms)
            &&& card.clock is Some && card.clock->0.end_ms is Some ==> json::number_at(
                times,
                1,
                "end",
                card.clock->0.end_ms->0,
            )
        }),
{
    artist_stands_under_the_title(card.artist);
}

/// What is said of the switch is where it is, and why there can be no card where
/// there can be none.
pub proof fn switch_is_told(presence: PresenceView)
    ensures
        presence.unavailable is Some ==> presence.status_of() == "Discord presence unavailable: "@
            + presence.unavailable->0,
        presence.unavailable is None && presence.enabled ==> presence.status_of()
            == "Discord presence on"@,
        presence.unavailable is None && !presence.enabled ==> presence.status_of()
            == "Discord presence off"@,
{
}

} // verus!
