//! The fast path: what YouTube's player API is asked, and what is made of its
//! answer.

use vstd::prelude::*;

use super::sha1;
use super::url;
use super::url::Format;
use super::{PlaybackSession, ResolveSource, ResolvedStream, SessionView};
use crate::json;
use crate::json::Json;
use crate::source;
use crate::text;

verus! {

broadcast use vstd::string::group_string_axioms;

/// Where the requests go.
pub const PLAYER_URL: &'static str = "https://music.youtube.com/youtubei/v1/player";

/// The origin that signed requests claim.
pub const MUSIC_ORIGIN: &'static str = "https://music.youtube.com";

/// How long one request may take, in nanoseconds.
pub const PLAYER_TIMEOUT: u64 = 5_000_000_000;

/// Which player the API is told that it talks to.
#[derive(Debug, Clone, Copy, PartialEq, Eq, Structural)]
pub enum PlayerClient {
    /// YouTube Music in a browser. It carries the session.
    WebRemix,
    Ios,
    AndroidVr,
}

impl PlayerClient {
    /// Its name, its version and its user agent.
    pub open spec fn identity_of(self) -> (Seq<char>, Seq<char>, Seq<char>) {
        match self {
            PlayerClient::WebRemix => ("WEB_REMIX"@, "1.20241127.01.00"@, "Mozilla/5.0"@),
            PlayerClient::Ios => (
                "IOS"@,
                "20.10.4"@,
                "com.google.ios.youtube/20.10.4 (iPhone16,2; U; CPU iOS 18_3_2 like Mac OS X;)"@,
            ),
            PlayerClient::AndroidVr => (
                "ANDROID_VR"@,
                "1.62.27"@,
                "com.google.android.apps.youtube.vr.oculus/1.62.27 (Linux; U; Android 12L; eureka-user Build/SQ3A.220605.009.A1) gzip"@,
            ),
        }
    }

    /// Where its streams are said to come from.
    pub open spec fn source_of(self) -> ResolveSource {
        match self {
            PlayerClient::WebRemix => ResolveSource::InnerTubeWebMusic,
            PlayerClient::Ios => ResolveSource::InnerTubeIos,
            PlayerClient::AndroidVr => ResolveSource::InnerTubeAndroidVr,
        }
    }

    pub fn name(self) -> (r: &'static str)
        ensures
            r@ == self.identity_of().0,
    {
        match self {
            PlayerClient::WebRemix => "WEB_REMIX",
            PlayerClient::Ios => "IOS",
            PlayerClient::AndroidVr => "ANDROID_VR",
        }
    }

    pub fn version(self) -> (r: &'static str)
        ensures
            r@ == self.identity_of().1,
    {
        match self {
            PlayerClient::WebRemix => "1.20241127.01.00",
            PlayerClient::Ios => "20.10.4",
            PlayerClient::AndroidVr => "1.62.27",
        }
    }

    pub fn user_agent(self) -> (r: &'static str)
        ensures
            r@ == self.identity_of().2,
    {
        match self {
            PlayerClient::WebRemix => "Mozilla/5.0",
            PlayerClient::Ios => "com.google.ios.youtube/20.10.4 (iPhone16,2; U; CPU iOS 18_3_2 like Mac OS X;)",
            PlayerClient::AndroidVr => "com.google.android.apps.youtube.vr.oculus/1.62.27 (Linux; U; Android 12L; eureka-user Build/SQ3A.220605.009.A1) gzip",
        }
    }

    pub fn source(self) -> (r: ResolveSource)
        ensures
            r == self.source_of(),
    {
        match self {
            PlayerClient::WebRemix => ResolveSource::InnerTubeWebMusic,
            PlayerClient::Ios => ResolveSource::InnerTubeIos,
            PlayerClient::AndroidVr => ResolveSource::InnerTubeAndroidVr,
        }
    }
}

/// The players that are tried, in order. The one that carries the session comes
/// first, and only where there is a session.
pub open spec fn order_of(signed: bool) -> Seq<PlayerClient> {
    if signed {
        seq![PlayerClient::WebRemix, PlayerClient::Ios, PlayerClient::AndroidVr]
    } else {
        seq![PlayerClient::Ios, PlayerClient::AndroidVr]
    }
}

/// Player number `i`, where there are so many.
pub fn client(signed: bool, i: usize) -> (r: Option<PlayerClient>)
    ensures
        match r {
            Some(c) => i < order_of(signed).len() && c == order_of(signed)[i as int],
            None => i >= order_of(signed).len(),
        },
{
    if signed {
        match i {
            0 => Some(PlayerClient::WebRemix),
            1 => Some(PlayerClient::Ios),
            2 => Some(PlayerClient::AndroidVr),
            _ => None,
        }
    } else {
        match i {
            0 => Some(PlayerClient::Ios),
            1 => Some(PlayerClient::AndroidVr),
            _ => None,
        }
    }
}

/// The session goes to one player only, and to none where there is none.
pub proof fn session_goes_to_one_player(signed: bool, i: int)
    requires
        0 <= i < order_of(signed).len(),
    ensures
        order_of(signed)[i] == PlayerClient::WebRemix <==> signed && i == 0,
{
}

/// Whether a document describes a player.
pub open spec fn is_client(value: Json, client: PlayerClient) -> bool {
    let fields = json::fields_of(value);
    &&& value is Object
    &&& json::text_at(fields, 0, "clientName", client.identity_of().0)
    &&& json::text_at(fields, 1, "clientVersion", client.identity_of().1)
    &&& json::text_at(fields, 2, "hl", "en"@)
    &&& match client {
        PlayerClient::WebRemix => fields.len() == 3,
        PlayerClient::Ios => fields.len() == 4 && json::text_at(
            fields,
            3,
            "deviceModel",
            "iPhone16,2"@,
        ),
        PlayerClient::AndroidVr => fields.len() == 4 && json::number_at(
            fields,
            3,
            "androidSdkVersion",
            32,
        ),
    }
}

/// What the API is asked about a video.
pub fn body(client: PlayerClient, video_id: &str) -> (r: Json)
    ensures
        ({
            let fields = json::fields_of(r);
            let context = json::fields_of(fields[1].1);
            &&& r is Object
            &&& fields.len() == 2
            &&& json::text_at(fields, 0, "videoId", video_id@)
            &&& json::named(fields, 1, "context")
            &&& fields[1].1 is Object
            &&& context.len() == 1
            &&& json::named(context, 0, "client")
            &&& is_client(context[0].1, client)
        }),
{
    let mut described: Vec<(String, Json)> = Vec::new();
    described.push(("clientName".to_owned(), Json::Text(client.name().to_owned())));
    described.push(("clientVersion".to_owned(), Json::Text(client.version().to_owned())));
    described.push(("hl".to_owned(), Json::Text("en".to_owned())));
    match client {
        PlayerClient::WebRemix => {},
        PlayerClient::Ios => {
            described.push(("deviceModel".to_owned(), Json::Text("iPhone16,2".to_owned())));
        },
        PlayerClient::AndroidVr => {
            described.push(("androidSdkVersion".to_owned(), Json::Number(32)));
        },
    }
    let mut context: Vec<(String, Json)> = Vec::new();
    context.push(("client".to_owned(), Json::Object(described)));
    let mut fields: Vec<(String, Json)> = Vec::new();
    fields.push(("videoId".to_owned(), Json::Text(video_id.to_owned())));
    fields.push(("context".to_owned(), Json::Object(context)));
    Json::Object(fields)
}

/// Google's authorization value for one cookie, origin and moment.
pub open spec fn authorization_of(
    sapisid: Seq<char>,
    origin: Seq<char>,
    now: u64,
) -> Seq<char> {
    let at = text::decimal_of(now as nat);
    "SAPISIDHASH "@ + at + "_"@ + sha1::digest_of(
        vstd::utf8::encode_utf8(at + " "@ + sapisid + " "@ + origin),
    )
}

/// Google's authorization value for one cookie, origin and moment, in seconds
/// since 1970.
pub fn sapisid_authorization(sapisid: &str, origin: &str, now: u64) -> (r: String)
    ensures
        r@ == authorization_of(sapisid@, origin@, now),
        r@ == "SAPISIDHASH "@ + text::decimal_of(now as nat) + "_"@ + sha1::digest_of(
            vstd::utf8::encode_utf8(
                text::decimal_of(now as nat) + " "@ + sapisid@ + " "@ + origin@,
            ),
        ),
{
    let at = text::decimal(now);
    let mut signed = text::join3(at.as_str(), " ", sapisid);
    signed.append(" ");
    signed.append(origin);
    let digest = sha1::sha1_hex(signed.as_str().as_bytes());
    let mut r = text::join3("SAPISIDHASH ", at.as_str(), "_");
    r.append(digest.as_str());
    r
}

/// The headers of a request: what the player is, what the body is, and, with a
/// session, its cookies and its signature.
pub open spec fn headers_of(
    client: PlayerClient,
    session: Option<SessionView>,
    now: u64,
) -> Seq<(Seq<char>, Seq<char>)> {
    seq![
        ("user-agent"@, client.identity_of().2),
        ("content-type"@, "application/json"@),
    ] + (match session {
        Some(s) => seq![
            ("cookie"@, s.cookie_header),
            ("origin"@, MUSIC_ORIGIN@),
            ("authorization"@, authorization_of(s.sapisid, MUSIC_ORIGIN@, now)),
        ],
        None => seq![],
    })
}

/// What a list of headers says.
pub open spec fn pairs_view(pairs: Seq<(String, String)>) -> Seq<(Seq<char>, Seq<char>)> {
    Seq::new(pairs.len(), |i: int| (pairs[i].0@, pairs[i].1@))
}

/// What an optional session holds.
pub open spec fn session_view(session: Option<&PlaybackSession>) -> Option<SessionView> {
    match session {
        Some(s) => Some(s@),
        None => None,
    }
}

/// The headers of a request that is sent at a time, in seconds since 1970.
pub fn headers_at(
    client: PlayerClient,
    session: Option<&PlaybackSession>,
    now: u64,
) -> (r: Vec<(String, String)>)
    ensures
        pairs_view(r@) == headers_of(client, session_view(session), now),
{
    let mut r: Vec<(String, String)> = Vec::new();
    r.push(("user-agent".to_owned(), client.user_agent().to_owned()));
    r.push(("content-type".to_owned(), "application/json".to_owned()));
    if let Some(s) = session {
        r.push(("cookie".to_owned(), s.cookie_header().to_owned()));
        r.push(("origin".to_owned(), MUSIC_ORIGIN.to_owned()));
        r.push(
            ("authorization".to_owned(), sapisid_authorization(s.sapisid(), MUSIC_ORIGIN, now)),
        );
    }
    proof {
        assert(pairs_view(r@) =~= headers_of(client, session_view(session), now));
    }
    r
}

/// The headers of a request that is sent now.
pub fn headers(client: PlayerClient, session: Option<&PlaybackSession>) -> (r: Vec<
    (String, String),
>)
    ensures
        exists|now: u64|
            pairs_view(r@) == #[trigger] headers_of(client, session_view(session), now),
{
    let now: u64 = crate::clock::unix_nanos() / 1_000_000_000;
    headers_at(client, session, now)
}

/// What the API answers.
#[derive(Debug)]
pub struct PlayerResponse {
    /// `OK`, where the video can be played.
    pub status: String,
    pub reason: Option<String>,
    pub formats: Vec<Format>,
}

/// What an answer comes to: a stream, or why there is none.
pub open spec fn answered(
    client: PlayerClient,
    video_id: Seq<char>,
    status: Seq<char>,
    reason: Option<Seq<char>>,
    formats: Seq<Format<Seq<char>>>,
) -> Result<ResolvedStream<Seq<char>>, Seq<char>> {
    if status != "OK"@ {
        Err(
            client.identity_of().0 + " refused "@ + video_id + ": "@ + status + " ("@ + (
            match reason {
                Some(reason) => reason,
                None => "no reason given"@,
            }) + ")"@,
        )
    } else {
        match url::picked(formats) {
            Some((address, itag)) => Ok(
                url::stream_of(address, Some(itag), client.source_of()),
            ),
            None => Err("player API returned no usable audio for "@ + video_id),
        }
    }
}

/// What an answer comes to: a stream, or why there is none.
pub fn read_response(
    client: PlayerClient,
    video_id: &str,
    response: &PlayerResponse,
) -> (r: Result<ResolvedStream, String>)
    ensures
        super::result_view(r) == answered(
            client,
            video_id@,
            response.status@,
            text::opt_view(response.reason),
            source::views(response.formats@),
        ),
{
    if !text::same(response.status.as_str(), "OK") {
        let reason = match &response.reason {
            Some(reason) => reason.as_str(),
            None => "no reason given",
        };
        let mut said = text::join3(client.name(), " refused ", video_id);
        said.append(": ");
        said.append(response.status.as_str());
        said.append(" (");
        said.append(reason);
        said.append(")");
        return Err(said);
    }
    match url::pick_audio(&response.formats) {
        Some((address, itag)) => Ok(
            url::stream(address.to_owned(), Some(itag), client.source()),
        ),
        None => Err(text::join2("player API returned no usable audio for ", video_id)),
    }
}

/// What is signed is the time in decimal, the cookie and the origin, in this
/// order and with one space between two of them; and what is sent is the time
/// and the digest of exactly that.
pub proof fn signature_covers_time_cookie_and_origin(
    sapisid: Seq<char>,
    origin: Seq<char>,
    now: u64,
)
    ensures
        authorization_of(sapisid, origin, now) == "SAPISIDHASH "@ + text::decimal_of(now as nat)
            + "_"@ + sha1::digest_of(
            vstd::utf8::encode_utf8(
                text::joined(seq![text::decimal_of(now as nat), sapisid, origin], " "@),
            ),
        ),
{
    let parts = seq![text::decimal_of(now as nat), sapisid, origin];
    assert(parts.drop_last() =~= seq![text::decimal_of(now as nat), sapisid]);
    assert(parts.drop_last().drop_last() =~= seq![text::decimal_of(now as nat)]);
    reveal_with_fuel(text::joined, 4);
    assert(text::joined(parts, " "@) =~= text::decimal_of(now as nat) + " "@ + sapisid + " "@
        + origin);
}

/// A request carries its session whole: the cookies as they are, the origin, and
/// the signature of the session's own cookie for that origin and moment. Without
/// a session none of the three is there. Either way it says what player it is
/// and that its body is JSON.
pub proof fn requests_carry_their_session(
    client: PlayerClient,
    session: Option<SessionView>,
    now: u64,
)
    ensures
        ({
            let headers = headers_of(client, session, now);
            &&& headers[0] == ("user-agent"@, client.identity_of().2)
            &&& headers[1] == ("content-type"@, "application/json"@)
            &&& match session {
                None => headers.len() == 2,
                Some(s) => {
                    &&& headers.len() == 5
                    &&& headers[2] == ("cookie"@, s.cookie_header)
                    &&& headers[3] == ("origin"@, "https://music.youtube.com"@)
                    &&& headers[4] == (
                        "authorization"@,
                        "SAPISIDHASH "@ + text::decimal_of(now as nat) + "_"@ + sha1::digest_of(
                            vstd::utf8::encode_utf8(
                                text::decimal_of(now as nat) + " "@ + s.sapisid
                                    + " https://music.youtube.com"@,
                            ),
                        ),
                    )
                },
            }
        }),
{
    if session is Some {
        reveal_strlit(" ");
        reveal_strlit("https://music.youtube.com");
        reveal_strlit(" https://music.youtube.com");
        let s = session->0;
        let at = text::decimal_of(now as nat);
        assert(at + " "@ + s.sapisid + " "@ + MUSIC_ORIGIN@ =~= at + " "@ + s.sapisid
            + " https://music.youtube.com"@);
    }
}

/// An answer that is not `OK` gives no stream, and one that is gives the picked
/// format: its URL, its number, and the player that gave it.
pub proof fn answers_give_the_picked_format(
    client: PlayerClient,
    video_id: Seq<char>,
    status: Seq<char>,
    reason: Option<Seq<char>>,
    formats: Seq<Format<Seq<char>>>,
)
    ensures
        ({
            let r = answered(client, video_id, status, reason, formats);
            &&& status != "OK"@ ==> r is Err
            &&& status == "OK"@ ==> (r is Ok) == (url::picked(formats) is Some)
            &&& r is Ok ==> {
                &&& r->Ok_0.url == (url::picked(formats)->0).0
                &&& r->Ok_0.format.itag == Some((url::picked(formats)->0).1)
                &&& r->Ok_0.expires_at == url::number_in(r->Ok_0.url, "expire"@)
                &&& r->Ok_0.content_length == url::number_in(r->Ok_0.url, "clen"@)
                &&& match client {
                    PlayerClient::WebRemix => r->Ok_0.source == ResolveSource::InnerTubeWebMusic,
                    PlayerClient::Ios => r->Ok_0.source == ResolveSource::InnerTubeIos,
                    PlayerClient::AndroidVr => r->Ok_0.source == ResolveSource::InnerTubeAndroidVr,
                }
            }
            &&& r is Err && status != "OK"@ && reason is Some ==> text::occurs(
                r->Err_0,
                reason->0,
            )
        }),
{
    let r = answered(client, video_id, status, reason, formats);
    if status != "OK"@ && reason is Some {
        let head = client.identity_of().0 + " refused "@ + video_id + ": "@ + status + " ("@;
        assert(text::occurs_at(r->Err_0, reason->0, head.len() as int)) by {
            assert(r->Err_0.subrange(head.len() as int, (head.len() + reason->0.len()) as int)
                =~= reason->0);
        }
    }
}

/// Each player goes by its own name, and its streams are said to come from it.
pub proof fn players_go_by_their_names(client: PlayerClient)
    ensures
        match client {
            PlayerClient::WebRemix => {
                &&& client.identity_of().0 == "WEB_REMIX"@
                &&& client.identity_of().2 == "Mozilla/5.0"@
                &&& client.source_of() == ResolveSource::InnerTubeWebMusic
            },
            PlayerClient::Ios => {
                &&& client.identity_of().0 == "IOS"@
                &&& client.identity_of().1 == "20.10.4"@
                &&& client.source_of() == ResolveSource::InnerTubeIos
            },
            PlayerClient::AndroidVr => {
                &&& client.identity_of().0 == "ANDROID_VR"@
                &&& client.identity_of().1 == "1.62.27"@
                &&& client.source_of() == ResolveSource::InnerTubeAndroidVr
            },
        },
{
}

/// A request describes the player that it claims to be: its name and version, and
/// the device behind it.
pub proof fn requests_describe_their_player(value: Json, client: PlayerClient)
    requires
        is_client(value, client),
    ensures
        ({
            let fields = json::fields_of(value);
            &&& json::text_at(fields, 0, "clientName", client.identity_of().0)
            &&& json::text_at(fields, 1, "clientVersion", client.identity_of().1)
            &&& client == PlayerClient::Ios ==> json::text_at(
                fields,
                3,
                "deviceModel",
                "iPhone16,2"@,
            )
            &&& client == PlayerClient::AndroidVr ==> json::number_at(
                fields,
                3,
                "androidSdkVersion",
                32,
            )
        }),
{
}

} // verus!
