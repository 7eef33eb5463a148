use mtui::discord::{
    clamp, cover_url, frame, handshake, now_ms, set_activity, watch_url, Activity, Clock, Message,
    Presence, Worker, WorkerStep, APPLICATION_ID, MAX_FIELD, MIN_GAP_MS, OP_FRAME, RECONNECT_MS,
    REPOSITORY,
};
use mtui::json::Json;

fn activity() -> Activity {
    Activity {
        video_id: "dQw4w9WgXcQ".to_string(),
        title: "Let It Happen".to_string(),
        artist: "Tame Impala".to_string(),
        album: Some("Currents".to_string()),
        paused: false,
        clock: Some(Clock {
            start_ms: 1_700_000_000_000,
            end_ms: Some(1_700_000_467_000),
        }),
    }
}

/// A field of an object, or nothing.
fn at<'a>(value: &'a Json, key: &str) -> &'a Json {
    match value {
        Json::Object(fields) => fields
            .iter()
            .find(|(name, _)| name == key)
            .map(|(_, value)| value)
            .unwrap_or(&Json::Null),
        _ => &Json::Null,
    }
}

fn said(value: &Json) -> &str {
    match value {
        Json::Text(text) => text,
        _ => panic!("not a text"),
    }
}

fn counted(value: &Json) -> u64 {
    match value {
        Json::Number(number) => *number,
        _ => panic!("not a number"),
    }
}

#[test]
fn a_clock_that_only_jittered_is_the_same_card() {
    // The case this exists for: a track playing undisturbed, whose derived
    // start wanders by a frame's worth of milliseconds every tick. Every
    // one of these would otherwise be a socket write.
    let mut drifted = activity();
    drifted.clock = Some(Clock {
        start_ms: 1_700_000_001_800,
        end_ms: Some(1_700_000_468_800),
    });
    assert!(activity().same_as(&drifted));
}

#[test]
fn a_seek_is_not() {
    let mut seeked = activity();
    seeked.clock = Some(Clock {
        start_ms: 1_700_000_030_000,
        end_ms: Some(1_700_000_497_000),
    });
    assert!(!activity().same_as(&seeked));
}

#[test]
fn pausing_and_resuming_both_change_the_card() {
    let mut paused = activity();
    paused.paused = true;
    paused.clock = None;
    assert!(!activity().same_as(&paused));
    assert!(!paused.same_as(&activity()));
}

#[test]
fn a_livestream_is_not_the_same_as_a_track_of_known_length() {
    // Both have a start and neither would fail the drift check, so without
    // the explicit test on `end_ms` a stream would inherit the previous
    // track's countdown.
    let mut live = activity();
    live.clock = Some(Clock {
        start_ms: 1_700_000_000_000,
        end_ms: None,
    });
    assert!(!activity().same_as(&live));
}

#[test]
fn a_different_track_of_the_same_name_is_a_different_card() {
    let mut other = activity();
    other.video_id = "aaaaaaaaaaa".to_string();
    assert!(!activity().same_as(&other));
}

#[test]
fn fields_are_fitted_to_what_discord_accepts() {
    // Both ends are reachable from real YouTube titles.
    assert_eq!(clamp("x").chars().count(), 2);
    assert_eq!(clamp(&"a".repeat(500)).chars().count(), MAX_FIELD);
    // Cut on a character, never through one -- a CJK title is three bytes
    // per glyph, so a byte-wise truncation would produce invalid UTF-8.
    let cjk = "夜".repeat(200);
    assert_eq!(clamp(&cjk).chars().count(), MAX_FIELD);
}

#[test]
fn the_payload_says_listening_and_carries_both_buttons() {
    let payload = activity().payload();
    assert_eq!(counted(at(&payload, "type")), 2);
    assert_eq!(counted(at(&payload, "status_display_type")), 2);
    assert_eq!(said(at(&payload, "details")), "Let It Happen");
    assert_eq!(said(at(&payload, "state")), "Tame Impala");
    assert!(matches!(at(&payload, "large_text"), Json::Null));
    let assets = at(&payload, "assets");
    assert_eq!(said(at(assets, "large_text")), "Currents");
    assert_eq!(said(at(assets, "large_url")), REPOSITORY);
    assert!(said(at(assets, "large_image")).contains("dQw4w9WgXcQ"));
    let timestamps = at(&payload, "timestamps");
    assert_eq!(counted(at(timestamps, "start")), 1_700_000_000_000u64);
    assert_eq!(counted(at(timestamps, "end")), 1_700_000_467_000u64);

    let Json::List(buttons) = at(&payload, "buttons") else {
        panic!("two buttons");
    };
    assert_eq!(buttons.len(), 2);
    assert!(said(at(&buttons[0], "url")).contains("dQw4w9WgXcQ"));
    // Every label has to fit Discord's 32-character ceiling, and they are
    // written here rather than fetched, so this is the only thing that
    // would catch one growing past it.
    for button in buttons {
        let label = said(at(button, "label"));
        assert!((1..=32).contains(&label.chars().count()), "{label:?}");
    }
}

#[test]
fn a_paused_card_has_no_bar_and_says_so() {
    let mut paused = activity();
    paused.paused = true;
    paused.clock = None;
    let payload = paused.payload();
    assert_eq!(said(at(&payload, "state")), "Tame Impala (paused)");
    // The important half: no timestamps at all, rather than stale ones that
    // would leave the bar advancing through a track nobody is hearing.
    assert!(matches!(at(&payload, "timestamps"), Json::Null));
}

#[test]
fn a_livestream_gets_a_start_and_no_end() {
    let mut live = activity();
    live.clock = Some(Clock {
        start_ms: 1_700_000_000_000,
        end_ms: None,
    });
    let payload = live.payload();
    let timestamps = at(&payload, "timestamps");
    assert_eq!(counted(at(timestamps, "start")), 1_700_000_000_000u64);
    assert!(matches!(at(timestamps, "end"), Json::Null));
}

#[test]
fn a_track_with_no_named_artist_is_not_left_saying_paused_about_nobody() {
    // What a plain YouTube search produces: a title, and no artist the
    // source was willing to name. The app blanks `unknown` before it gets
    // here, so both of these are reachable.
    let mut anonymous = activity();
    anonymous.artist = String::new();
    assert_eq!(said(at(&anonymous.payload(), "state")), "  ");

    anonymous.paused = true;
    anonymous.clock = None;
    assert_eq!(said(at(&anonymous.payload(), "state")), "Paused");
}

#[test]
fn a_track_with_no_album_hovers_its_own_title() {
    let mut single = activity();
    single.album = None;
    let payload = single.payload();
    assert_eq!(said(at(at(&payload, "assets"), "large_text")), "Let It Happen");
}

#[test]
fn a_blank_override_uses_the_built_in_application_id() {
    // An empty discord.json must not disable the official project id.
    assert!(!APPLICATION_ID.is_empty());
    let mut presence = Presence::spawn(Some("   ".to_string()), true);
    assert!(presence.enabled);
    assert_eq!(presence.application_id, APPLICATION_ID);
    assert!(!presence.toggle());
}

#[test]
fn switching_off_takes_the_card_down_and_keeps_it_down() {
    let mut presence = Presence::spawn(Some("123".to_string()), true);
    presence.publish(Some(activity()));
    assert!(presence.last.is_some());

    assert!(!presence.toggle());
    assert!(presence.last.is_none(), "the card should have been dropped");

    // The half that matters for privacy: publishing while off must not
    // quietly restore what the user just took down.
    presence.publish(Some(activity()));
    assert!(presence.last.is_none());
}

#[test]
fn an_unchanged_card_is_not_republished() {
    let mut presence = Presence::spawn(Some("123".to_string()), true);
    presence.publish(Some(activity()));
    let sent = presence.outbox.len();
    presence.publish(Some(activity()));
    assert!(presence.last.as_ref().is_some_and(|last| last.equals(&activity())));
    assert_eq!(presence.outbox.len(), sent);
}

#[test]
fn a_presence_that_cannot_start_says_so() {
    let mut presence = Presence::spawn(None, true);
    presence.worker_failed();
    assert!(!presence.enabled());
    assert!(!presence.status().is_empty());
    assert_eq!(
        presence.unavailable.as_deref(),
        Some("the presence worker could not start")
    );
}

#[test]
fn addresses_name_the_video() {
    assert_eq!(
        cover_url("abc"),
        "https://i.ytimg.com/vi/abc/hqdefault.jpg"
    );
    assert_eq!(watch_url("abc"), "https://www.youtube.com/watch?v=abc");
}

#[test]
fn frames_carry_their_opcode_and_length() {
    let bytes = frame(OP_FRAME, b"{}").unwrap();
    assert_eq!(bytes, [1, 0, 0, 0, 2, 0, 0, 0, b'{', b'}']);
    let hello = handshake("42");
    assert_eq!(counted(at(&hello, "v")), 1);
    assert_eq!(said(at(&hello, "client_id")), "42");
    let clear = set_activity(7, 99, None);
    assert_eq!(said(at(&clear, "cmd")), "SET_ACTIVITY");
    assert_eq!(said(at(&clear, "nonce")), "7");
    assert!(matches!(at(at(&clear, "args"), "activity"), Json::Null));
    assert_eq!(counted(at(at(&clear, "args"), "pid")), 99);
}

#[test]
fn the_worker_keeps_its_distance() {
    let start = 1_000_000;
    let mut worker = Worker::new(start);
    assert!(matches!(worker.step(start), WorkerStep::Wait));
    worker.receive(Some(Message::Show(activity())));
    assert!(matches!(worker.step(start), WorkerStep::Connect));
    let (_, logged) = worker.connection(false, start);
    assert!(logged, "the first failure is worth a line");
    assert!(matches!(worker.step(start + 1), WorkerStep::Wait));
    let later = start + RECONNECT_MS;
    assert!(matches!(worker.step(later), WorkerStep::Connect));
    worker.connection(true, later);
    worker.written(true, later);
    let mut paused = activity();
    paused.paused = true;
    paused.clock = None;
    worker.receive(Some(Message::Show(paused)));
    assert!(matches!(worker.step(later + 1), WorkerStep::Wait));
    assert_eq!(worker.wait(later + 1), MIN_GAP_MS - 1);
}

#[test]
fn the_clock_runs() {
    assert!(now_ms() > 1_600_000_000_000);
}
