use mtui::app::input::{bound, Action, TrayCommand};
use mtui::app::menu::{name, offers, Menu, HELP, SETTINGS_ROWS};
use mtui::app::mouse::{hit_at, Hit, Region};
use mtui::app::{
    App, CoverSize, ImagePlan, Mode, Overlay, View, MAX_AUTO_SKIPS, PREFETCH_IDLE, SEARCH_LIMIT,
};
use mtui::config::{CoverStyle, IconTheme, ImageRenderer, Settings};
use mtui::cover::Cover;
use mtui::discord::Presence;
use mtui::faces::{icon_step, on_return, tick, without_icon, IconFailure, IconStep, Return};
use mtui::graphics::Graphics;
use mtui::keys::{
    Event, KeyCode, KeyEvent, KeyEventKind, KeyModifiers, MouseButton, MouseEvent, MouseEventKind,
};
use mtui::now_playing::Tab;
use mtui::player::{Command, PlayState, PlayerEvent, Snapshot};
use mtui::resolver::{AudioFormat, ResolveSource, StreamUrl};
use mtui::source::{Card, Playlist, Request, Response, Shelf, Target, Track, Watch};
use mtui::terminal::{fit_width, symbol_width, Tracker};

const SECOND: u64 = 1_000_000_000;

fn snapshot(state: PlayState, position: u64) -> Snapshot {
    Snapshot {
        state,
        title: String::new(),
        position,
        volume: 100,
        error: None,
    }
}

fn app() -> App {
    let mut app = App::new(
        Graphics::blocks(),
        false,
        Presence::spawn(None, false),
        snapshot(PlayState::Idle, 0),
        0,
        true,
    );
    app.source.requests.clear();
    app
}

fn key(code: KeyCode) -> KeyEvent {
    KeyEvent {
        code,
        modifiers: KeyModifiers {
            shift: false,
            control: false,
            alt: false,
        },
        kind: KeyEventKind::Press,
    }
}

fn press(app: &mut App, code: KeyCode) {
    app.handle_key(key(code));
}

fn types(app: &mut App, text: &str) {
    for c in text.chars() {
        press(app, KeyCode::Char(c));
    }
}

fn track(id: &str) -> Track {
    Track {
        id: id.to_string(),
        title: format!("title {id}"),
        uploader: "artist".to_string(),
        duration: Some(180 * SECOND),
        album: None,
        playlist_item_id: None,
    }
}

fn resolved(id: &str) -> Response {
    Response::Resolved {
        id: id.to_string(),
        title: format!("title {id}"),
        stream: Ok(StreamUrl {
            url: format!("https://example.com/{id}.m4a"),
            expires_at: None,
            content_length: None,
            format: AudioFormat { itag: Some(140) },
            source: ResolveSource::YtDlp,
        }),
    }
}

/// An app that lists these tracks, with the first of them playing.
fn playing(ids: &[&str]) -> App {
    let mut app = app();
    app.screen.view = View::Tracks;
    app.list.results = ids.iter().map(|id| track(id)).collect();
    press(&mut app, KeyCode::Enter);
    app.apply(resolved(ids[0]));
    app.observe(SECOND, snapshot(PlayState::Playing, 0));
    app.tick_playback();
    app
}

#[test]
fn the_landing_page_is_asked_for_before_the_first_frame() {
    let app = App::new(
        Graphics::blocks(),
        true,
        Presence::spawn(None, false),
        snapshot(PlayState::Idle, 0),
        0,
        true,
    );
    assert_eq!(app.screen.view, View::Home);
    assert!(app.home.pending);
    assert!(matches!(app.source.requests[0], Request::Home));
    assert_eq!(app.screen.status, "loading the home feed ...");
}

#[test]
fn a_search_is_typed_and_sent() {
    let mut app = app();
    press(&mut app, KeyCode::Char('/'));
    assert_eq!(app.screen.mode, Mode::Editing);
    types(&mut app, "quiet");
    press(&mut app, KeyCode::Backspace);
    assert_eq!(app.list.query, "quie");
    press(&mut app, KeyCode::Enter);
    assert_eq!(app.screen.status, "searching for quie ...");
    assert!(app.screen.busy);
    assert!(app.awaiting());
    match &app.source.requests[0] {
        Request::Search { query, limit } => {
            assert_eq!(query, "quie");
            assert_eq!(*limit, SEARCH_LIMIT);
        }
        other => panic!("{other:?}"),
    }
    app.apply(Response::Results(vec![track("a"), track("b")]));
    assert!(!app.screen.busy);
    assert_eq!(app.screen.mode, Mode::Browse);
    assert_eq!(app.screen.view, View::Tracks);
    assert_eq!(app.list.results.len(), 2);
    assert_eq!(app.list_title(), " results ");
}

#[test]
fn choosing_a_track_loads_resolves_and_plays_it() {
    let mut app = app();
    app.screen.view = View::Tracks;
    app.list.results = vec![track("a"), track("b")];
    press(&mut app, KeyCode::Down);
    press(&mut app, KeyCode::Enter);
    assert!(matches!(&app.commands[0], Command::Load { title } if title == "title b \u{2014} artist"));
    assert_eq!(app.session.pending.as_deref(), Some("b"));
    assert!(app
        .source
        .requests
        .iter()
        .any(|r| matches!(r, Request::Resolve { id, bypass_cache: false, .. } if id == "b")));
    app.commands.clear();

    // A stream for something else is not played.
    app.apply(resolved("a"));
    assert!(app.commands.is_empty());
    assert_eq!(app.session.pending.as_deref(), Some("b"));

    app.apply(resolved("b"));
    assert!(matches!(&app.commands[0], Command::Play { id, .. } if id == "b"));
    assert!(app.session.pending.is_none());
}

#[test]
fn a_track_that_ended_hands_over_to_the_next() {
    let mut app = playing(&["a", "b"]);
    let now = app.session.now.as_mut().unwrap();
    now.queue = vec![track("a"), track("b")];
    now.playing = Some(0);
    app.commands.clear();
    app.observe(2 * SECOND, snapshot(PlayState::Idle, 180 * SECOND));
    app.tick_playback();
    assert!(matches!(&app.commands[0], Command::Load { title } if title == "title b \u{2014} artist"));
    assert_eq!(app.session.pending.as_deref(), Some("b"));
}

#[test]
fn an_error_is_no_ending() {
    let mut app = playing(&["a", "b"]);
    app.commands.clear();
    let mut failed = snapshot(PlayState::Idle, 20 * SECOND);
    failed.error = Some("stream stopped".to_string());
    app.observe(2 * SECOND, failed);
    app.tick_playback();
    assert!(app.commands.is_empty());
}

#[test]
fn a_queue_that_cannot_be_resolved_is_given_up_on() {
    let ids: Vec<String> = (0..10).map(|i| i.to_string()).collect();
    let list: Vec<&str> = ids.iter().map(String::as_str).collect();
    let mut app = playing(&list);
    let now = app.session.now.as_mut().unwrap();
    now.queue = list.iter().map(|id| track(id)).collect();
    now.playing = Some(0);
    app.observe(2 * SECOND, snapshot(PlayState::Idle, 180 * SECOND));
    app.tick_playback();
    let mut skipped = 0;
    while let Some(id) = app.session.pending.clone() {
        app.apply(Response::Resolved {
            id: id.clone(),
            title: format!("title {id}"),
            stream: Err("unavailable".to_string()),
        });
        skipped += 1;
        assert!(skipped <= 10);
    }
    assert_eq!(skipped, MAX_AUTO_SKIPS as usize + 1);
}

#[test]
fn a_stream_that_died_is_resolved_again() {
    let mut app = playing(&["a"]);
    app.source.requests.clear();
    app.poll_source(
        vec![],
        vec![PlayerEvent::NeedsUrl {
            id: "a".to_string(),
            from: 31 * SECOND,
        }],
    );
    assert!(matches!(
        &app.source.requests[0],
        Request::Resolve { id, bypass_cache: true, .. } if id == "a"
    ));
    app.commands.clear();
    app.apply(resolved("a"));
    assert!(matches!(
        &app.commands[0],
        Command::Resume { from, .. } if *from == 31 * SECOND
    ));
}

#[test]
fn the_selection_is_warmed_once_it_rests() {
    let mut app = app();
    app.screen.view = View::Tracks;
    app.list.results = vec![track("a"), track("b")];
    app.observe(0, snapshot(PlayState::Idle, 0));
    press(&mut app, KeyCode::Down);
    app.source.requests.clear();
    app.tick_prefetch();
    assert!(app.source.requests.is_empty(), "it has not rested yet");
    app.observe(PREFETCH_IDLE, snapshot(PlayState::Idle, 0));
    app.tick_prefetch();
    assert!(matches!(
        &app.source.requests[0],
        Request::Prefetch { id } if id == "b"
    ));
    assert_eq!(app.session.prefetching.as_deref(), Some("b"));
    app.apply(Response::Prefetched {
        id: "b".to_string(),
        ready: true,
    });
    assert_eq!(app.session.ready.as_deref(), Some("b"));
}

#[test]
fn the_player_page_walks_its_tabs() {
    let mut app = playing(&["a"]);
    press(&mut app, KeyCode::Char('P'));
    assert_eq!(app.screen.view, View::Playing);
    assert_eq!(app.screen.back_to, View::Tracks);
    app.source.requests.clear();
    press(&mut app, KeyCode::Char('1'));
    assert_eq!(app.session.now.as_ref().unwrap().tab, Tab::UpNext);
    press(&mut app, KeyCode::Char('2'));
    assert_eq!(app.session.now.as_ref().unwrap().tab, Tab::Lyrics);
    press(&mut app, KeyCode::Char('3'));
    assert_eq!(app.session.now.as_ref().unwrap().tab, Tab::Related);
    press(&mut app, KeyCode::Tab);
    assert_eq!(app.session.now.as_ref().unwrap().tab, Tab::Comments);
    press(&mut app, KeyCode::Char('1'));
    press(&mut app, KeyCode::Char('4'));
    assert_eq!(app.session.now.as_ref().unwrap().tab, Tab::Comments);
    assert!(app
        .source
        .requests
        .iter()
        .any(|r| matches!(r, Request::Comments { video_id } if video_id == "a")));
    press(&mut app, KeyCode::Esc);
    assert_eq!(app.screen.view, View::Tracks);
}

#[test]
fn scrolled_lyrics_stay_where_they_were_put() {
    let mut app = playing(&["a"]);
    press(&mut app, KeyCode::Char('P'));
    press(&mut app, KeyCode::Char('2'));
    assert!(app.session.now.as_ref().unwrap().follow_lyrics);
    press(&mut app, KeyCode::Char('j'));
    assert!(!app.session.now.as_ref().unwrap().follow_lyrics);
    press(&mut app, KeyCode::Char(' '));
    assert!(!app.session.now.as_ref().unwrap().follow_lyrics);
    press(&mut app, KeyCode::Char('2'));
    assert!(app.session.now.as_ref().unwrap().follow_lyrics);
}

#[test]
fn panels_of_another_track_are_dropped() {
    let mut app = playing(&["a"]);
    app.apply(Response::Watch {
        video_id: "gone".to_string(),
        watch: Ok(Watch {
            lyrics_id: Some("L".to_string()),
            related_id: None,
            queue: vec![track("x")],
            queue_title: "Other".to_string(),
            continuation: None,
        }),
        askable: true,
    });
    let now = app.session.now.as_ref().unwrap();
    assert!(now.lyrics_id.is_none());
    assert!(!now.watched);
}

#[test]
fn the_queue_comes_with_the_watch_page() {
    let mut app = playing(&["a"]);
    app.apply(Response::Watch {
        video_id: "a".to_string(),
        watch: Ok(Watch {
            lyrics_id: Some("L".to_string()),
            related_id: Some("R".to_string()),
            queue: vec![track("a"), track("x"), track("y")],
            queue_title: "Mix".to_string(),
            continuation: Some("T".to_string()),
        }),
        askable: true,
    });
    let now = app.session.now.as_ref().unwrap();
    assert!(now.watched);
    assert_eq!(now.queue_title, "Mix");
    assert_eq!(now.queue.len(), 3);
    assert_eq!(now.playing, Some(0));
    assert_eq!(now.lyrics_id.as_deref(), Some("L"));
}

#[test]
fn what_was_heard_is_reported_once() {
    let mut app = playing(&["a"]);
    app.observe(2 * SECOND, snapshot(PlayState::Playing, 90 * SECOND));
    app.tick_playback();
    let (heard, listened) = app.flush_listening().expect("something was heard");
    assert_eq!(heard.id, "a");
    assert_eq!(listened, 90 * SECOND);
    assert!(app.flush_listening().is_none());
}

#[test]
fn seeks_and_volume_go_to_the_player() {
    let mut app = playing(&["a"]);
    app.screen.view = View::Tracks;
    app.commands.clear();
    app.observe(2 * SECOND, snapshot(PlayState::Playing, 3 * SECOND));
    press(&mut app, KeyCode::Right);
    press(&mut app, KeyCode::Left);
    press(&mut app, KeyCode::Char('+'));
    assert!(matches!(app.commands[0], Command::Seek(to) if to == 8 * SECOND));
    assert!(matches!(app.commands[1], Command::Seek(0)));
    assert!(matches!(app.commands[2], Command::SetVolume(105)));
    assert_eq!(app.screen.status, "volume 105%");
}

#[test]
fn a_modal_owns_the_keyboard() {
    let mut app = app();
    app.screen.overlay = Overlay::Message {
        body: "long".to_string(),
    };
    press(&mut app, KeyCode::Char('/'));
    assert_eq!(app.screen.mode, Mode::Browse);
    press(&mut app, KeyCode::Esc);
    assert!(!app.screen.overlay.is_open());
    let mut quit = key(KeyCode::Char('c'));
    quit.modifiers.control = true;
    app.handle_key(quit);
    assert!(app.screen.should_quit);
}

#[test]
fn a_track_is_added_to_the_chosen_playlist() {
    let mut app = app();
    app.screen.signed_in = true;
    app.screen.view = View::Tracks;
    app.list.results = vec![track("a")];
    app.library.playlists = vec![
        Playlist {
            id: "p1".to_string(),
            title: "One".to_string(),
        },
        Playlist {
            id: "p2".to_string(),
            title: "Two".to_string(),
        },
    ];
    press(&mut app, KeyCode::Char('a'));
    assert!(app.screen.overlay.is_open());
    press(&mut app, KeyCode::Down);
    press(&mut app, KeyCode::Enter);
    assert!(app.source.requests.iter().any(|r| matches!(
        r,
        Request::AddToPlaylist { playlist_id, video_id, .. }
            if playlist_id == "p2" && video_id == "a"
    )));
}

#[test]
fn the_grid_keeps_its_cursor_on_a_card() {
    let mut app = app();
    let card = |id: &str| Card {
        title: id.to_string(),
        target: Target::Play {
            video_id: id.to_string(),
        },
        playable: Some(track(id)),
        key: id.to_string(),
    };
    app.apply(Response::Home(vec![
        Shelf {
            title: "one".to_string(),
            cards: vec![card("a"), card("b"), card("c")],
        },
        Shelf {
            title: "two".to_string(),
            cards: vec![card("d")],
        },
    ]));
    app.clamp_home_selection();
    press(&mut app, KeyCode::Right);
    press(&mut app, KeyCode::Right);
    assert_eq!(app.home_card().unwrap().title, "c");
    app.clamp_home_selection();
    app.clamp_home_cards(2);
    assert_eq!(app.home.scroll[0], 1);
    press(&mut app, KeyCode::Down);
    app.clamp_home_selection();
    assert_eq!(app.home_card().unwrap().title, "d");
}

#[test]
fn long_lists_scroll_with_the_selection() {
    let mut app = app();
    app.screen.view = View::Tracks;
    app.list.results = (0..30).map(|i| track(&i.to_string())).collect();
    app.list.selected = 20;
    app.clamp_scroll(10);
    assert_eq!(app.list.offset, 11);
    app.list.selected = 5;
    app.clamp_scroll(10);
    assert_eq!(app.list.offset, 5);
}

#[test]
fn art_is_asked_for_once_per_card() {
    let mut app = app();
    let cards = || vec![("k".to_string(), "https://example.com/k.jpg".to_string())];
    app.want_art(cards());
    app.want_art(cards());
    assert_eq!(app.source.requests.len(), 1);
    app.apply(Response::Art {
        key: "k".to_string(),
        art: Some(Cover::solid(2, 2)),
    });
    assert!(app.pictures.art.get("k").is_some());
}

#[test]
fn the_cover_is_painted_once_and_again_after_a_resize() {
    let mut app = app();
    let plan = ImagePlan {
        col: 1,
        row: 1,
        width: 16,
        height: 16,
    };
    app.pictures.graphics.sixel = true;
    app.pictures.cover = Some(Cover::solid(4, 4));
    app.pictures.image = Some(plan);
    assert!(app.image_to_paint().is_some());
    app.mark_painted();
    assert!(app.image_to_paint().is_none());
    app.handle_event(Event::Resize(100, 40));
    assert!(app.image_to_paint().is_some());
    app.mark_painted();
    app.pictures.image = None;
    assert!(app.image_needs_clearing());
    assert_eq!(CoverSize::Side.toggled(), CoverSize::Full);
}

#[test]
fn a_card_goes_up_for_what_is_playing() {
    let mut app = playing(&["a"]);
    app.observe(2 * SECOND, snapshot(PlayState::Playing, 10 * SECOND));
    let card = app.activity(1_000_000).unwrap();
    assert_eq!(card.title, "title a");
    assert_eq!(card.clock.unwrap().start_ms, 990_000);
    assert_eq!(card.clock.unwrap().end_ms, Some(1_170_000));
    app.observe(2 * SECOND, snapshot(PlayState::Paused, 10 * SECOND));
    assert!(app.activity(1_000_000).unwrap().clock.is_none());
    app.observe(2 * SECOND, snapshot(PlayState::Idle, 0));
    assert!(app.activity(1_000_000).is_none());
}

#[test]
fn the_icon_speaks_for_the_player() {
    let mut app = app();
    assert_eq!(app.tray_tip(), "MTUI -- nothing playing");
    app.handle_tray(TrayCommand::Show);
    assert!(app.screen.wants_foreground);
    app.handle_tray(TrayCommand::TogglePause);
    assert!(matches!(app.commands[0], Command::TogglePause));
    app.handle_tray(TrayCommand::Quit);
    assert!(app.screen.should_quit);
}

#[test]
fn the_two_faces_take_turns() {
    let mut app = app();
    assert!(app.enter_foreground(false));
    assert!(app.stays_in_front());
    app.note_closed(true);
    assert!(!app.stays_in_front());
    app.enter_background();
    assert!(app.stays_behind());
    app.icon_lost("gone");
    assert_eq!(app.screen.status, "the tray icon was lost: gone");
    assert!(!app.stays_behind());
    app.icon_failed(IconFailure::Create, "none", Some("disk full"));
    assert_eq!(
        app.screen.status,
        "could not create the tray icon: none; could not save settings: disk full"
    );
    assert_eq!(icon_step(true, false), IconStep::Create);
    assert_eq!(icon_step(false, true), IconStep::Remove);
    assert_eq!(
        on_return(true, true),
        Return {
            remove_icon: false,
            open_terminal: true
        }
    );
    let kept = without_icon(Settings {
        start_in_tray: true,
        icon_theme: IconTheme::Wave,
        ..Settings::default()
    });
    assert!(!kept.start_in_tray);
    assert_eq!(kept.icon_theme, IconTheme::Wave);
    assert_eq!(tick(true, true), 50);
    assert_eq!(tick(false, true), 200);
    assert_eq!(tick(false, false), 500);
}

#[test]
fn frames_move_the_queue_and_the_card() {
    let mut app = playing(&["a", "b"]);
    app.presence = Presence::spawn(None, true);
    app.observe(2 * SECOND, snapshot(PlayState::Playing, 10 * SECOND));
    app.foreground_frame_at(vec![], vec![], 1_000_000);
    assert!(app.presence.last.is_some());
    app.observe(3 * SECOND, snapshot(PlayState::Playing, 11 * SECOND));
    app.background_frame(vec![], vec![]);
    assert!(app.presence.last.as_ref().unwrap().clock.unwrap().start_ms > 1_000_000);
}

#[test]
fn keys_are_bound_by_the_view() {
    assert_eq!(bound(View::Home, KeyCode::Right), Action::Walk { forward: true });
    assert_eq!(bound(View::Tracks, KeyCode::Right), Action::Seek { forward: true });
    assert_eq!(bound(View::Playlists, KeyCode::Char('r')), Action::Reload);
    assert_eq!(bound(View::Playing, KeyCode::Char('q')), Action::Quit);
}

#[test]
fn a_worker_that_is_gone_is_reported() {
    let mut app = app();
    app.source.open = false;
    press(&mut app, KeyCode::Char('/'));
    types(&mut app, "x");
    press(&mut app, KeyCode::Enter);
    assert!(app.source.requests.is_empty());
    assert_eq!(app.screen.status, "source worker is not running");
}

#[test]
fn the_cursor_of_the_terminal_is_followed() {
    assert_eq!(symbol_width("a"), 1);
    assert_eq!(symbol_width("夜"), 2);
    assert_eq!(fit_width(0), 1);
    assert_eq!(fit_width(100_000), u16::MAX);
    let mut at = Tracker::new(10, 4);
    at.draw(7, 1, "夜");
    assert_eq!((at.x, at.y), (9, 1));
    at.draw_cell(9, 1, 1);
    assert_eq!((at.x, at.y), (0, 2));
    at.append_lines(9);
    assert_eq!((at.x, at.y), (0, 3));
    at.set_cursor(8, 3);
    at.set_size(5, 2);
    assert_eq!((at.x, at.y), (4, 1));
}

#[test]
fn a_pasted_link_plays_at_once() {
    let mut app = app();
    press(&mut app, KeyCode::Char('/'));
    types(&mut app, "dQw4w9WgXcQ");
    app.observe_link(Some("dQw4w9WgXcQ".to_string()));
    press(&mut app, KeyCode::Enter);
    assert!(app.session.pending.is_some());
    assert!(app.source.requests.iter().any(
        |request| matches!(request, Request::Resolve { id, bypass_cache: false, .. } if id == "dQw4w9WgXcQ")
    ));
    assert!(!app
        .source
        .requests
        .iter()
        .any(|request| matches!(request, Request::Search { .. })));
}

#[test]
fn a_panel_that_scrolled_itself_takes_its_cursor_along() {
    let mut app = playing(&["a", "b"]);
    app.follow_page(7);
    let now = app.session.now.as_ref().expect("a page");
    assert_eq!(now.cursor(), 7);
}

#[test]
fn the_card_of_the_moment_is_offered() {
    let mut app = playing(&["a"]);
    app.presence = Presence::spawn(None, true);
    app.tick_presence();
    assert_eq!(app.presence.outbox.len(), 1);
    app.tick_presence();
    assert_eq!(app.presence.outbox.len(), 1);
}

fn shelf(title: &str, ids: &[&str]) -> Shelf {
    Shelf {
        title: title.to_string(),
        cards: ids
            .iter()
            .map(|id| Card {
                title: id.to_string(),
                target: Target::Play {
                    video_id: id.to_string(),
                },
                playable: Some(track(id)),
                key: id.to_string(),
            })
            .collect(),
    }
}

fn titles(app: &App) -> Vec<&str> {
    app.home
        .shelves
        .iter()
        .map(|shelf| shelf.title.as_str())
        .collect()
}

#[test]
fn personal_shelves_go_in_front_of_the_feed() {
    let mut app = app();
    app.apply(Response::Home(vec![
        shelf("charts", &["a", "b"]),
        shelf("moods", &["c"]),
    ]));
    app.clamp_home_selection();
    press(&mut app, KeyCode::Right);
    app.apply(Response::PersonalShelves(vec![shelf("mine", &["x"])]));
    assert_eq!(titles(&app), ["mine", "charts", "moods"]);
    assert_eq!(app.screen.status, "3 shelves");
    assert_eq!(app.home.scroll, [0, 0, 0]);
    assert_eq!((app.home.shelf, app.home.card), (1, 1));
    assert_eq!(app.home_card().unwrap().title, "b");
    assert!(!app.home.pending);
}

#[test]
fn a_cursor_that_was_not_moved_goes_to_the_personal_shelves() {
    let mut app = app();
    app.apply(Response::Home(vec![shelf("charts", &["a"])]));
    app.apply(Response::PersonalShelves(vec![shelf("mine", &["x"])]));
    assert_eq!((app.home.shelf, app.home.card, app.home.top), (0, 0, 0));
    assert_eq!(app.home_card().unwrap().title, "x");
}

#[test]
fn no_personal_shelves_change_nothing() {
    let mut app = app();
    app.apply(Response::Home(vec![shelf("charts", &["a"])]));
    let status = app.screen.status.clone();
    app.apply(Response::PersonalShelves(vec![]));
    assert_eq!(titles(&app), ["charts"]);
    assert_eq!(app.screen.status, status);
}

#[test]
fn listed_shelves_come_in_their_order() {
    let mut app = app();
    app.observe_order(vec!["Quick picks".to_string(), "Listen again".to_string()]);
    app.apply(Response::Home(vec![
        shelf("charts", &["a"]),
        shelf("Listen again", &["b"]),
        shelf("moods", &["c"]),
    ]));
    assert_eq!(titles(&app), ["Listen again", "charts", "moods"]);
    app.apply(Response::PersonalShelves(vec![
        shelf("Playlists", &["d"]),
        shelf("Quick picks", &["e"]),
    ]));
    assert_eq!(
        titles(&app),
        ["Quick picks", "Listen again", "Playlists", "charts", "moods"]
    );
    assert_eq!(app.screen.status, "5 shelves");
}

#[test]
fn the_session_of_the_landing_page_is_refreshed_from_any_page() {
    for view in [View::Home, View::Tracks, View::Playlists, View::Playing] {
        let mut app = app();
        app.screen.view = view;
        press(&mut app, KeyCode::Char('M'));
        assert_eq!(app.source.requests.len(), 1);
        assert!(matches!(
            app.source.requests[0],
            Request::ImportCookies { force: true }
        ));
    }
    let mut app = app();
    app.source.open = false;
    press(&mut app, KeyCode::Char('M'));
    assert_eq!(app.screen.status, "source worker is not running");
}

fn control(app: &mut App, c: char) {
    let mut key = key(KeyCode::Char(c));
    key.modifiers.control = true;
    app.handle_key(key);
}

fn mouse(app: &mut App, kind: MouseEventKind, column: u16, row: u16) {
    app.handle_event(Event::Mouse(MouseEvent {
        kind,
        column,
        row,
        modifiers: KeyModifiers {
            shift: false,
            control: false,
            alt: false,
        },
    }));
}

fn click(app: &mut App, column: u16, row: u16) {
    mouse(app, MouseEventKind::Down(MouseButton::Left), column, row);
}

fn line_region(row: u16, hit: Hit) -> Region {
    Region {
        left: 0,
        top: row,
        width: 80,
        height: 1,
        hit,
    }
}

#[test]
fn the_app_menu_opens_from_anywhere_and_its_rows_act() {
    let mut app = app();
    press(&mut app, KeyCode::Char('/'));
    control(&mut app, 'k');
    assert!(matches!(
        app.screen.overlay,
        Overlay::Menu { menu: Menu::App, selected: 0 }
    ));
    assert_eq!(offers(Menu::App, View::Tracks).len(), 9);
    assert!(!offers(Menu::App, View::Playing).contains(&Action::Player));
    press(&mut app, KeyCode::Char('j'));
    press(&mut app, KeyCode::Char('k'));
    press(&mut app, KeyCode::Enter);
    assert_eq!(app.screen.view, View::Home);
    assert_eq!(app.screen.mode, Mode::Browse);
    assert!(!app.screen.overlay.is_open());
    control(&mut app, 'k');
    press(&mut app, KeyCode::End);
    press(&mut app, KeyCode::Enter);
    assert!(app.screen.should_quit);
}

#[test]
fn logging_out_is_under_the_accounts() {
    let mut app = app();
    control(&mut app, 'k');
    let at = offers(Menu::App, View::Home)
        .iter()
        .position(|action| *action == Action::Menu(Menu::Account))
        .unwrap();
    for _ in 0..at {
        press(&mut app, KeyCode::Down);
    }
    press(&mut app, KeyCode::Enter);
    press(&mut app, KeyCode::End);
    let rows = offers(Menu::Account, View::Home);
    assert_eq!(name(rows[rows.len() - 1]), "Log out of YouTube Music");
    press(&mut app, KeyCode::Enter);
    assert!(matches!(app.source.requests[..], [Request::SignOut]));
}

#[test]
fn the_page_menu_acts_on_the_selection() {
    let mut app = app();
    app.screen.view = View::Tracks;
    app.list.results = vec![track("a"), track("b")];
    app.list.selected = 1;
    press(&mut app, KeyCode::Char('.'));
    assert!(matches!(
        app.screen.overlay,
        Overlay::Menu { menu: Menu::Page, selected: 0 }
    ));
    press(&mut app, KeyCode::Enter);
    assert!(app.source.requests.iter().any(
        |request| matches!(request, Request::Resolve { id, .. } if id == "b")
    ));
    press(&mut app, KeyCode::Char('.'));
    press(&mut app, KeyCode::Esc);
    assert!(!app.screen.overlay.is_open());
}

#[test]
fn help_is_shown_and_dismissed() {
    let mut app = app();
    press(&mut app, KeyCode::Char('?'));
    assert!(matches!(&app.screen.overlay, Overlay::Message { body } if body == HELP));
    press(&mut app, KeyCode::Esc);
    assert!(!app.screen.overlay.is_open());
}

#[test]
fn settings_are_turned_and_remembered() {
    let mut app = app();
    press(&mut app, KeyCode::Char('S'));
    press(&mut app, KeyCode::Right);
    assert!(app.settings.start_in_tray);
    assert_eq!(app.settings_changed, Some(app.settings));
    press(&mut app, KeyCode::Down);
    press(&mut app, KeyCode::Enter);
    assert_eq!(app.cover_style(), CoverStyle::ColoredAscii);
    press(&mut app, KeyCode::Down);
    press(&mut app, KeyCode::Right);
    assert_eq!(app.settings.image_renderer, ImageRenderer::Kitty);
    assert!(app.graphics().kitty);
    press(&mut app, KeyCode::Left);
    assert_eq!(app.settings.image_renderer, ImageRenderer::Automatic);
    press(&mut app, KeyCode::Down);
    press(&mut app, KeyCode::Left);
    assert_eq!(app.icon_theme(), IconTheme::Mono);
    for _ in 0..SETTINGS_ROWS {
        press(&mut app, KeyCode::Down);
    }
    press(&mut app, KeyCode::Char(' '));
    assert!(app.presence.enabled());
    assert_eq!(app.presence_setting, Some(true));
    press(&mut app, KeyCode::Char('S'));
    assert!(!app.screen.overlay.is_open());
    control(&mut app, 's');
    assert!(matches!(app.screen.overlay, Overlay::Settings { selected: 0 }));
    let chosen = Settings::default();
    app.observe_settings(chosen);
    assert_eq!(app.settings, chosen);
}

#[test]
fn the_wheel_navigates() {
    let mut app = app();
    app.screen.view = View::Tracks;
    app.list.results = vec![track("a"), track("b"), track("c")];
    mouse(&mut app, MouseEventKind::ScrollDown, 0, 0);
    mouse(&mut app, MouseEventKind::ScrollDown, 0, 0);
    assert_eq!(app.list.selected, 2);
    mouse(&mut app, MouseEventKind::ScrollUp, 0, 0);
    assert_eq!(app.list.selected, 1);
    app.screen.overlay = Overlay::Settings { selected: 0 };
    mouse(&mut app, MouseEventKind::ScrollUp, 0, 0);
    assert_eq!(app.list.selected, 1);
}

#[test]
fn clicks_edit_the_search_box_and_open_what_they_fall_on() {
    let mut app = app();
    app.observe_layout(vec![line_region(0, Hit::Search)]);
    click(&mut app, 5, 0);
    assert_eq!(app.screen.mode, Mode::Editing);
    assert_eq!(app.screen.view, View::Tracks);

    app.list.results = vec![track("a"), track("b")];
    app.observe_layout(vec![
        line_region(3, Hit::Row(0)),
        line_region(4, Hit::Row(1)),
        line_region(5, Hit::Row(2)),
    ]);
    click(&mut app, 5, 5);
    assert_eq!(app.screen.mode, Mode::Editing);
    assert!(app.source.requests.is_empty());
    click(&mut app, 5, 4);
    assert_eq!(app.screen.mode, Mode::Browse);
    assert_eq!(app.list.selected, 1);
    assert!(app.source.requests.iter().any(
        |request| matches!(request, Request::Resolve { id, .. } if id == "b")
    ));
}

#[test]
fn clicks_open_cards_playlists_tabs_and_queue_entries() {
    let mut app = app();
    app.apply(Response::Home(vec![shelf("one", &["a"]), shelf("two", &["b", "c"])]));
    app.observe_layout(vec![line_region(2, Hit::Card { shelf: 1, card: 1 })]);
    click(&mut app, 0, 2);
    assert_eq!((app.home.shelf, app.home.card), (1, 1));
    assert!(app.source.requests.iter().any(
        |request| matches!(request, Request::Resolve { id, .. } if id == "c")
    ));

    app.screen.view = View::Playlists;
    app.library.playlists = vec![Playlist {
        id: "p".to_string(),
        title: "list".to_string(),
    }];
    app.observe_layout(vec![line_region(2, Hit::Row(0))]);
    click(&mut app, 0, 2);
    assert!(app.source.requests.iter().any(
        |request| matches!(request, Request::OpenPlaylist { id, .. } if id == "p")
    ));

    let mut app = playing(&["a"]);
    app.session.now.as_mut().unwrap().queue = vec![track("a"), track("q")];
    press(&mut app, KeyCode::Char('P'));
    app.observe_layout(vec![line_region(1, Hit::Tab(Tab::Comments))]);
    click(&mut app, 0, 1);
    assert_eq!(app.session.now.as_ref().unwrap().tab, Tab::Comments);
    app.observe_layout(vec![
        line_region(1, Hit::Tab(Tab::UpNext)),
        line_region(2, Hit::Row(1)),
    ]);
    click(&mut app, 0, 2);
    assert!(!app.source.requests.iter().any(
        |request| matches!(request, Request::Resolve { id, .. } if id == "q")
    ));
    click(&mut app, 0, 1);
    click(&mut app, 0, 2);
    assert!(app.source.requests.iter().any(
        |request| matches!(request, Request::Resolve { id, .. } if id == "q")
    ));
}

#[test]
fn what_is_drawn_last_is_on_top() {
    let layout = vec![line_region(1, Hit::Row(0)), line_region(1, Hit::Search)];
    assert_eq!(hit_at(&layout, 79, 1), Some(Hit::Search));
    assert_eq!(hit_at(&layout, 80, 1), None);
    assert_eq!(hit_at(&layout, 0, 2), None);
}
