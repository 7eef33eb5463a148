use mtui::resolver::cache::UrlCache;
use mtui::resolver::hunt::{Hunt, Stage, Step, ATTEMPT_TIMEOUT, FALLBACK_BUDGET};
use mtui::resolver::player_api::{
    body, client, headers, headers_at, read_response, sapisid_authorization, PlayerClient,
    PlayerResponse, MUSIC_ORIGIN,
};
use mtui::resolver::sha1::sha1_hex;
use mtui::resolver::url::{
    content_length, itag, parse_expiry, pick_audio, probe, probe_range, probe_step, query_value,
    served_probe, stream, Format, ProbeStep, CAP_BYTES,
};
use mtui::resolver::yt_dlp::{
    arguments, attempt, first_error_line, is_video_id, read_output, session_jar, strip_preamble,
    timeout_message, wait_step, Attempt, Wait,
};
use mtui::resolver::{
    restricted_mode, Begun, PlaybackSession, ResolveError, ResolveErrorKind, ResolveRequest,
    ResolveSource, ResolvedStream, Resolver, SAFETY_MARGIN,
};

const SECOND: u64 = 1_000_000_000;

fn candidate(tag: &str) -> ResolvedStream {
    stream(
        format!("https://example.com/{tag}.m4a"),
        Some(140),
        ResolveSource::YtDlp,
    )
}

fn format(itag: u32, url: Option<&str>, mime: &str) -> Format {
    Format {
        itag,
        url: url.map(str::to_string),
        mime_type: Some(mime.to_string()),
    }
}

fn chars(s: &str) -> Vec<char> {
    s.chars().collect()
}

#[test]
fn ranks_decodable_audio_formats() {
    let formats = vec![
        format(251, Some("opus"), "audio/webm; codecs=\"opus\""),
        format(141, Some("fat"), "audio/mp4; codecs=\"mp4a.40.2\""),
        format(140, Some("aac"), "audio/mp4; codecs=\"mp4a.40.2\""),
    ];
    assert_eq!(pick_audio(&formats), Some(("fat", 141)));
}

#[test]
fn rejects_ciphered_and_undecodable_formats() {
    let formats = vec![
        format(140, None, "audio/mp4"),
        format(251, Some("opus"), "audio/webm"),
    ];
    assert_eq!(pick_audio(&formats), None);
}

#[test]
fn parses_signed_url_metadata() {
    let url = "https://x.googlevideo.com/videoplayback?expire=1785600392&clen=3474230&itag=140";
    assert_eq!(content_length(url), Some(3_474_230));
    assert_eq!(parse_expiry(url), Some(1_785_600_392));
    assert_eq!(itag(url), Some(140));
    assert_eq!(query_value(url, "itag"), Some(chars("140")));
    assert_eq!(query_value(url, "missing"), None);
}

#[test]
fn metadata_that_is_not_a_number_is_none() {
    let url = "https://example.com/x?expire=soon&clen=&itag=4294967296";
    assert_eq!(content_length(url), None);
    assert_eq!(parse_expiry(url), None);
    assert_eq!(itag(url), None);
    assert_eq!(content_length("https://example.com/plain"), None);
}

#[test]
fn probe_requires_a_served_range() {
    assert!(served_probe(206, false));
    assert!(served_probe(200, false));
    assert!(!served_probe(401, false));
    assert!(!served_probe(403, false));
    assert!(!served_probe(429, false));
    assert!(!served_probe(502, false));
    assert!(served_probe(416, true));
    assert!(!served_probe(416, false));
}

#[test]
fn a_url_is_probed_near_its_end() {
    let known = probe("https://example.com/x?clen=3474230");
    assert_eq!(known.at, 3_474_229);
    assert!(!known.unknown_length);
    let unknown = probe("https://example.com/x");
    assert_eq!(unknown.at, CAP_BYTES);
    assert!(unknown.unknown_length);
    assert_eq!(probe_range(1000), "bytes=1000-1000");
}

#[test]
fn a_probe_that_failed_is_sent_once_more() {
    assert_eq!(probe_step(&vec![], false), ProbeStep::Send);
    assert_eq!(probe_step(&vec![None], false), ProbeStep::Send);
    assert_eq!(probe_step(&vec![None, None], false), ProbeStep::Settled(false));
    assert_eq!(probe_step(&vec![None, Some(206)], false), ProbeStep::Settled(true));
    assert_eq!(probe_step(&vec![Some(403)], false), ProbeStep::Settled(false));
}

#[test]
fn cache_is_bounded_lru_and_invalidatable() {
    let mut cache = UrlCache::new();
    for i in 0..UrlCache::CAPACITY {
        cache.insert(i.to_string(), candidate(&i.to_string()));
    }
    assert!(cache.get("0").is_some());
    cache.insert("new".into(), candidate("new"));
    assert!(cache.get("0").is_some());
    assert!(cache.get("1").is_none());
    cache.invalidate("0");
    assert!(cache.get("0").is_none());
}

#[test]
fn a_stream_that_is_about_to_expire_is_not_handed_out() {
    let address = "https://example.com/x?expire=1000";
    let fresh = stream(address.to_string(), Some(140), ResolveSource::YtDlp);
    assert!(fresh.valid_at(1000 * SECOND - SAFETY_MARGIN - 1));
    assert!(!fresh.valid_at(1000 * SECOND - SAFETY_MARGIN));
    assert!(!fresh.is_valid());
    assert!(candidate("endless").is_valid());

    let mut cache = UrlCache::new();
    cache.insert("x".to_string(), fresh);
    assert!(cache.get_at("x", 100 * SECOND).is_some());
    assert!(cache.get_at("x", 1000 * SECOND).is_none());
    assert!(cache.get_at("x", 100 * SECOND).is_none());
}

#[test]
fn inserting_again_replaces() {
    let mut cache = UrlCache::new();
    cache.insert("x".to_string(), candidate("one"));
    cache.insert("x".to_string(), candidate("two"));
    assert_eq!(cache.get("x").unwrap().url, "https://example.com/two.m4a");
    cache.clear();
    assert!(cache.get("x").is_none());
}

#[test]
fn changing_the_playback_session_clears_cached_urls() {
    let mut resolver = Resolver::new("yt-dlp");
    resolver.keep("track", &candidate("anonymous"));

    resolver.set_session(Some(PlaybackSession::new("SAPISID=x", "x")));
    assert!(!resolver.is_cached("track"));

    resolver.keep("track", &candidate("signed-in"));
    resolver.set_session(Some(PlaybackSession::new("SAPISID=x", "x")));
    assert!(
        resolver.is_cached("track"),
        "unchanged session cleared the cache"
    );
}

#[test]
fn sapisid_signatures_match_the_known_shape() {
    assert_eq!(sha1_hex(b"abc"), "a9993e364706816aba3e25717850c26c9cd0d89d");
    let header = sapisid_authorization("SECRET", MUSIC_ORIGIN, 1_700_000_000);
    assert!(header.starts_with("SAPISIDHASH 1700000000_"));
    assert_eq!(header.len(), "SAPISIDHASH 1700000000_".len() + 40);
}

#[test]
fn digests_of_known_messages() {
    assert_eq!(sha1_hex(b""), "da39a3ee5e6b4b0d3255bfef95601890afd80709");
    assert_eq!(
        sha1_hex(b"abcdbcdecdefdefgefghfghighijhijkijkljklmklmnlmnomnopnopq"),
        "84983e441c3bd26ebaae4aa1f95129e5e54670f1"
    );
    assert_eq!(
        sha1_hex(b"The quick brown fox jumps over the lazy dog"),
        "2fd4e1c67a2d28fced849ee1bb76e7391b93eb12"
    );
    assert_eq!(sha1_hex(&[b'a'; 200]).len(), 40);
}

#[test]
fn temporary_cookie_jars_are_scoped() {
    let session = PlaybackSession::new("SAPISID=secret; PREF=value", "secret");
    let body = session_jar(&session);
    assert!(body.starts_with("# Netscape HTTP Cookie File\n"));
    assert!(body.contains(".youtube.com\tTRUE\t/\tTRUE\t0\tSAPISID\tsecret"));
    assert!(body.contains(".youtube.com\tTRUE\t/\tTRUE\t0\tPREF\tvalue"));
}

#[test]
fn a_cookie_that_would_break_the_jar_is_left_out() {
    let session = PlaybackSession::new("A=1; B=x\ty; =3; nothing; C=a=b", "1");
    assert_eq!(
        session_jar(&session),
        "# Netscape HTTP Cookie File\n\
         .youtube.com\tTRUE\t/\tTRUE\t0\tA\t1\n\
         .youtube.com\tTRUE\t/\tTRUE\t0\tC\ta=b\n"
    );
}

#[test]
fn cached_results_are_identified_as_cache_hits() {
    let mut cache = UrlCache::new();
    cache.insert("track".into(), candidate("track"));
    let mut hit = cache.get("track").expect("entry should be cached");
    hit.source = ResolveSource::Cache;
    assert_eq!(hit.source, ResolveSource::Cache);
    assert_eq!(hit.format.itag, Some(140));
}

#[test]
fn a_held_stream_says_that_it_was_held() {
    let mut resolver = Resolver::new("yt-dlp");
    resolver.keep("track", &candidate("track"));
    match resolver.resolve(ResolveRequest::new("track")) {
        Begun::Held(stream) => {
            assert_eq!(stream.source, ResolveSource::Cache);
            assert_eq!(stream.url, "https://example.com/track.m4a");
        }
        Begun::Hunting(_, _) => panic!("the stream was held"),
    }
    match resolver.resolve(ResolveRequest { video_id: "track", bypass_cache: true }) {
        Begun::Held(_) => panic!("the cache was to be passed by"),
        Begun::Hunting(hunt, step) => {
            assert!(!hunt.fast);
            assert!(matches!(step, Step::Ask(PlayerClient::Ios)));
        }
    }
    assert!(!resolver.is_cached("track"));
    assert!(matches!(
        resolver.prefetch_fast("track"),
        Begun::Hunting(Hunt { fast: true, .. }, _)
    ));
}

#[test]
fn errors_are_structured() {
    assert_eq!(
        ResolveError::from_message("HTTP 429 Too Many Requests".to_string()).kind(),
        ResolveErrorKind::RateLimited
    );
    assert_eq!(
        ResolveError::from_message("This is a private video".to_string()).kind(),
        ResolveErrorKind::Private
    );
    assert_eq!(
        ResolveError::capped("abcdefghijk").kind(),
        ResolveErrorKind::Capped
    );
    assert!(ResolveError::capped("abcdefghijk")
        .message()
        .contains("abcdefghijk"));
}

#[test]
fn each_message_has_its_category() {
    let kind = |said: &str| ResolveError::from_message(said.to_string()).kind();
    assert_eq!(kind("please SIGN IN"), ResolveErrorKind::AuthenticationRequired);
    assert_eq!(kind("LOGIN_REQUIRED"), ResolveErrorKind::AuthenticationRequired);
    assert_eq!(kind("not available in your country"), ResolveErrorKind::GeoRestricted);
    assert_eq!(kind("This video is restricted"), ResolveErrorKind::RestrictedMode);
    assert_eq!(kind("this video is restricted"), ResolveErrorKind::Other);
    assert_eq!(kind("request timeout"), ResolveErrorKind::TimedOut);
    assert_eq!(kind("please update yt-dlp"), ResolveErrorKind::ExtractorOutdated);
    assert_eq!(kind("connection reset"), ResolveErrorKind::Network);
    assert_eq!(kind("Video unavailable"), ResolveErrorKind::Unavailable);
    assert_eq!(kind("what?"), ResolveErrorKind::Other);
    assert_eq!(
        ResolveError::from_message("what?".to_string()).message(),
        "what?"
    );
}

#[test]
fn strips_yt_dlp_error_preamble() {
    let stderr = b"WARNING: noise\nERROR: [youtube] dQw4w9WgXcQ: Video unavailable\n";
    assert_eq!(first_error_line(stderr), "Video unavailable");
}

#[test]
fn without_an_error_the_last_line_speaks() {
    assert_eq!(first_error_line(b"one\ntwo \n\n"), "two");
    assert_eq!(first_error_line(b""), "no error output");
    assert_eq!(first_error_line(b"ERROR: \xff broken"), "\u{fffd} broken");
    let stripped: String = strip_preamble(&chars("[generic] note: rest")).into_iter().collect();
    assert_eq!(stripped, "note: rest");
}

#[test]
fn video_ids_have_eleven_characters() {
    assert!(is_video_id(&chars("dQw4w9WgXcQ")));
    assert!(is_video_id(&chars("a-b_c-d_e-f")));
    assert!(!is_video_id(&chars("dQw4w9WgXc")));
    assert!(!is_video_id(&chars("dQw4w9WgXc!")));
}

#[test]
fn what_a_run_says_is_read() {
    let ok = read_output(
        true,
        b" https://example.com/a?itag=141&clen=10 \n",
        b"",
        "abcdefghijk",
        ResolveSource::YtDlpMusic,
    )
    .unwrap();
    assert_eq!(ok.url, "https://example.com/a?itag=141&clen=10");
    assert_eq!(ok.format.itag, Some(141));
    assert_eq!(ok.content_length, Some(10));
    assert_eq!(ok.source, ResolveSource::YtDlpMusic);

    let silent = read_output(true, b"\n", b"", "abcdefghijk", ResolveSource::YtDlp);
    assert_eq!(
        silent.unwrap_err(),
        "yt-dlp returned no stream URL for abcdefghijk"
    );
    let failed = read_output(
        false,
        b"",
        b"ERROR: [youtube] abcdefghijk: Private video\n",
        "abcdefghijk",
        ResolveSource::YtDlp,
    );
    assert_eq!(
        failed.unwrap_err(),
        "could not resolve abcdefghijk: Private video"
    );
}

#[test]
fn runs_are_waited_for_and_killed() {
    assert_eq!(wait_step(true, 20 * SECOND, 10 * SECOND), Wait::Read);
    assert_eq!(wait_step(false, 10 * SECOND, 10 * SECOND), Wait::Kill);
    assert_eq!(wait_step(false, 9 * SECOND, 10 * SECOND), Wait::Sleep);
    assert_eq!(
        timeout_message("abcdefghijk", 10 * SECOND),
        "could not resolve abcdefghijk: yt-dlp timed out after 10 seconds"
    );
    assert_eq!(
        timeout_message("abcdefghijk", 5),
        "could not resolve abcdefghijk: yt-dlp timed out after 1 seconds"
    );
}

#[test]
fn attempts_go_through_youtube_music_first() {
    assert_eq!(attempt(true, 0), Some(Attempt { signed: true, music: true }));
    assert_eq!(attempt(true, 3), Some(Attempt { signed: false, music: false }));
    assert_eq!(attempt(true, 4), None);
    assert_eq!(attempt(false, 0), Some(Attempt { signed: false, music: true }));
    assert_eq!(attempt(false, 2), None);
}

#[test]
fn no_cookie_is_among_the_arguments() {
    let run = Attempt { signed: true, music: true };
    let list = arguments(
        run,
        &Some("deno".to_string()),
        &Some("/tmp/jar".to_string()),
        "abcdefghijk",
    );
    assert_eq!(
        list,
        vec![
            "--no-js-runtimes",
            "--js-runtimes",
            "deno",
            "--format",
            "141/140/bestaudio[ext=m4a]/18",
            "--print",
            "urls",
            "--no-warnings",
            "--ignore-config",
            "--socket-timeout",
            "10",
            "--extractor-args",
            "youtube:player_client=web_music;player_skip=webpage,configs",
            "--cookies",
            "/tmp/jar",
            "https://music.youtube.com/watch?v=abcdefghijk",
        ]
    );
    let plain = arguments(Attempt { signed: false, music: false }, &None, &None, "abcdefghijk");
    assert_eq!(plain.len(), 9);
    assert_eq!(plain[8], "https://www.youtube.com/watch?v=abcdefghijk");
}

#[test]
fn the_session_goes_to_the_web_player_alone() {
    assert_eq!(client(true, 0), Some(PlayerClient::WebRemix));
    assert_eq!(client(false, 0), Some(PlayerClient::Ios));
    assert_eq!(client(false, 1), Some(PlayerClient::AndroidVr));
    assert_eq!(client(false, 2), None);
    let session = PlaybackSession::new("SAPISID=x", "x");
    let signed = headers_at(PlayerClient::WebRemix, Some(&session), 1_700_000_000);
    assert_eq!(signed.len(), 5);
    assert_eq!(signed[2], ("cookie".to_string(), "SAPISID=x".to_string()));
    assert_eq!(signed[3].1, MUSIC_ORIGIN);
    assert_eq!(
        signed[4].1,
        sapisid_authorization("x", MUSIC_ORIGIN, 1_700_000_000)
    );
    assert_eq!(headers_at(PlayerClient::Ios, None, 0).len(), 2);
    let sent = headers(PlayerClient::WebRemix, Some(&session));
    let at: u64 = sent[4].1["SAPISIDHASH ".len()..]
        .split('_')
        .next()
        .unwrap()
        .parse()
        .unwrap();
    assert!(at > 1_700_000_000);
}

#[test]
fn answers_of_the_player_are_read() {
    let ok = PlayerResponse {
        status: "OK".to_string(),
        reason: None,
        formats: vec![format(140, Some("https://example.com/a"), "audio/mp4")],
    };
    let found = read_response(PlayerClient::Ios, "abcdefghijk", &ok).unwrap();
    assert_eq!(found.source, ResolveSource::InnerTubeIos);
    assert_eq!(found.format.itag, Some(140));

    let refused = PlayerResponse {
        status: "LOGIN_REQUIRED".to_string(),
        reason: Some("Sign in".to_string()),
        formats: vec![],
    };
    assert_eq!(
        read_response(PlayerClient::AndroidVr, "abcdefghijk", &refused).unwrap_err(),
        "ANDROID_VR refused abcdefghijk: LOGIN_REQUIRED (Sign in)"
    );
    let empty = PlayerResponse {
        status: "OK".to_string(),
        reason: None,
        formats: vec![],
    };
    assert_eq!(
        read_response(PlayerClient::Ios, "abcdefghijk", &empty).unwrap_err(),
        "player API returned no usable audio for abcdefghijk"
    );
    assert!(matches!(
        body(PlayerClient::Ios, "abcdefghijk"),
        mtui::json::Json::Object(_)
    ));
}

#[test]
fn a_hunt_takes_only_a_whole_file() {
    let (mut hunt, step) = Hunt::begin("abcdefghijk", false, false);
    assert!(matches!(step, Step::Ask(PlayerClient::Ios)));
    let step = hunt.heard(Err("no".to_string()), 0);
    assert!(matches!(step, Step::Ask(PlayerClient::AndroidVr)));
    let step = hunt.heard(Ok(candidate("short")), 0);
    assert!(matches!(step, Step::Probe { .. }));
    let step = hunt.probed(false, 5 * SECOND);
    match step {
        Step::Run { attempt, timeout } => {
            assert!(attempt.music);
            assert_eq!(timeout, ATTEMPT_TIMEOUT);
        }
        _ => panic!("the runs come next"),
    }
    let step = hunt.heard(Err("This video is restricted".to_string()), 30 * SECOND);
    match step {
        Step::Run { attempt, timeout } => {
            assert!(!attempt.music);
            assert_eq!(timeout, 5 * SECOND);
        }
        _ => panic!("one run is left"),
    }
    let step = hunt.heard(Ok(candidate("whole")), 31 * SECOND);
    assert!(matches!(step, Step::Probe { .. }));
    match hunt.probed(true, 32 * SECOND) {
        Step::Found(stream) => assert_eq!(stream.url, "https://example.com/whole.m4a"),
        _ => panic!("a whole file is taken"),
    }
    assert!(matches!(hunt.stage, Stage::Over));
}

#[test]
fn a_hunt_says_why_it_found_nothing() {
    let (mut hunt, _) = Hunt::begin("abcdefghijk", false, false);
    hunt.heard(Err("a".to_string()), 0);
    hunt.heard(Err("b".to_string()), 0);
    hunt.heard(Err("ERROR: This video is restricted".to_string()), SECOND);
    match hunt.heard(Err("other".to_string()), 2 * SECOND) {
        Step::Failed(error) => {
            assert_eq!(error.message(), restricted_mode("abcdefghijk"));
            assert_eq!(error.kind(), ResolveErrorKind::RestrictedMode);
        }
        _ => panic!("nothing is left to try"),
    }

    let (mut late, _) = Hunt::begin("abcdefghijk", false, false);
    late.heard(Err("a".to_string()), 0);
    late.heard(Err("b".to_string()), 0);
    match late.heard(Err("slow".to_string()), FALLBACK_BUDGET) {
        Step::Failed(error) => {
            assert_eq!(error.message(), "stream resolution timed out after 30 seconds");
            assert_eq!(error.kind(), ResolveErrorKind::TimedOut);
        }
        _ => panic!("the budget is spent"),
    }

    let (mut capped, _) = Hunt::begin("abcdefghijk", false, false);
    capped.heard(Err("a".to_string()), 0);
    capped.heard(Err("b".to_string()), 0);
    capped.heard(Ok(candidate("one")), 0);
    capped.probed(false, 0);
    capped.heard(Ok(candidate("two")), 0);
    match capped.probed(false, 0) {
        Step::Failed(error) => assert_eq!(error.kind(), ResolveErrorKind::Capped),
        _ => panic!("every URL was cut short"),
    }

    let (mut fast, _) = Hunt::begin("abcdefghijk", true, true);
    fast.heard(Err("a".to_string()), 0);
    fast.heard(Err("b".to_string()), 0);
    assert!(matches!(fast.heard(Err("c".to_string()), 0), Step::GaveUp));
}
