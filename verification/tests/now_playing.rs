use mtui::now_playing::{
    panel, position, NowPlaying, Panel, RelatedRow, Tab, QUEUE_AHEAD, QUEUE_BEHIND, QUEUE_LOW,
    QUEUE_MEMORY,
};
use mtui::source::{label, Card, QueuePage, Shelf, Target, Track};

const SECOND: u64 = 1_000_000_000;

fn playing() -> NowPlaying {
    NowPlaying::new(&Track {
        id: "letithappen".to_string(),
        title: "Let It Happen".to_string(),
        uploader: "Tame Impala".to_string(),
        duration: Some(468 * SECOND),
        album: Some("Currents".to_string()),
        playlist_item_id: None,
    })
}

#[test]
fn a_new_page_follows_the_singer_until_told_otherwise() {
    assert!(
        playing().follow_lyrics,
        "a track just started is one nobody has scrolled yet"
    );
}

#[test]
fn scrolling_the_lyrics_hands_them_back_to_the_user() {
    let mut now = playing();
    now.open(Tab::Lyrics);

    now.scroll(3);
    assert_eq!(now.cursor(), 3);
    assert!(
        !now.follow_lyrics,
        "a panel that yanks itself back to the singer cannot be read ahead in"
    );

    // Bounded below only: the far end needs the wrapped length, which is
    // the renderer's to know.
    now.scroll(-10);
    assert_eq!(now.cursor(), 0);
}

#[test]
fn jumping_to_an_end_hands_them_back_too() {
    let mut now = playing();
    now.open(Tab::Lyrics);

    // What `G` asks for: a line no panel has, for the renderer to clamp.
    now.jump(usize::MAX);
    assert_eq!(now.cursor(), usize::MAX);
    assert!(!now.follow_lyrics);

    now.follow_lyrics = true;
    now.jump(0);
    assert!(!now.follow_lyrics, "`g` is a scroll like any other");
}

#[test]
fn opening_the_lyrics_tab_again_is_how_you_get_back_to_the_song() {
    let mut now = playing();
    assert!(now.open(Tab::Lyrics), "that was a change of tab");
    now.scroll(20);
    assert!(!now.follow_lyrics);

    // Pressing `2` while already on Lyrics: not a change of tab, so no
    // fetch is started, but it is the gesture that means "show me where we
    // are" -- and it needs no key of its own.
    assert!(!now.open(Tab::Lyrics), "the tab did not change");
    assert!(now.follow_lyrics, "the panel should be following again");
    assert_eq!(now.cursor(), 20, "the cursor is the renderer's to move");
}

#[test]
fn the_other_tabs_leave_the_lyrics_alone() {
    let mut now = playing();
    now.open(Tab::Lyrics);
    now.scroll(20);

    // Walking away and back through another tab does re-arm it, because
    // arriving on Lyrics is the gesture; walking *past* it does not.
    assert!(now.open(Tab::Comments));
    assert!(!now.follow_lyrics);
    now.scroll(5);
    assert_eq!(now.cursor(), 5, "each tab keeps its own cursor");
    assert_eq!(
        now.cursor[Tab::Lyrics.index()],
        20,
        "the lyrics cursor is where it was left"
    );
}

/// One numbered track, so a queue and the pages appended to it can be
/// built out of ids that never accidentally collide.
fn numbered(i: usize) -> Track {
    Track {
        id: i.to_string(),
        title: format!("track {i}"),
        uploader: "Tame Impala".to_string(),
        duration: Some(180 * SECOND),
        album: None,
        playlist_item_id: None,
    }
}

/// A queue of `count` tracks, ids "0", "1", ...
fn queued(count: usize) -> Vec<Track> {
    (0..count).map(numbered).collect()
}

#[test]
fn a_page_of_tracks_lands_on_the_end_of_the_queue() {
    let mut now = playing();
    now.queue = queued(3);
    now.playing = Some(0);

    assert_eq!(now.remaining(), 2);
    assert_eq!(now.absorb(queued(6).split_off(3)), 3);
    assert_eq!(now.queue.len(), 6);
    assert_eq!(
        now.remaining(),
        5,
        "the new tracks are ahead of the playing one"
    );
    assert_eq!(now.playing, Some(0), "appending must not move the cursor");
}

/// A radio repeats over hours. An endless queue that re-appends what it just
/// played is a loop, which is worse than a queue that ends honestly.
#[test]
fn a_page_of_tracks_already_held_is_not_appended_twice() {
    let mut now = playing();
    now.queue = queued(3);
    now.playing = Some(0);

    assert_eq!(now.absorb(queued(3)), 0, "every track was already held");
    assert_eq!(now.queue.len(), 3);

    // Half repeats, half new: only the new half lands.
    let mut page = queued(5);
    page.drain(..2);
    assert_eq!(now.absorb(page), 2);
    assert_eq!(now.queue.len(), 5);
}

/// The window is what keeps an endless queue from being an endless `Vec`.
/// Both indices have to move with it, or the queue silently jumps.
#[test]
fn the_queue_trims_behind_the_playing_track() {
    let mut now = playing();
    now.queue = queued(QUEUE_BEHIND + 10);
    now.playing = Some(QUEUE_BEHIND + 5);
    now.cursor[Tab::UpNext.index()] = QUEUE_BEHIND + 5;

    now.trim();

    assert_eq!(now.queue.len(), QUEUE_BEHIND + 5);
    assert_eq!(now.playing, Some(QUEUE_BEHIND));
    assert_eq!(now.cursor[Tab::UpNext.index()], QUEUE_BEHIND);
    assert_eq!(
        now.queue[QUEUE_BEHIND].id, "25",
        "the playing track is still the one under the index"
    );
    assert_eq!(now.remaining(), 4, "and what was ahead is untouched");
}

/// Trimming is what makes a track eligible to be offered again, so what
/// leaves the window has to be remembered or the radio simply re-queues it.
#[test]
fn a_track_trimmed_away_is_not_offered_back() {
    let mut now = playing();
    now.queue = queued(QUEUE_BEHIND + 2);
    now.playing = Some(QUEUE_BEHIND + 1);
    now.trim();

    assert!(now.dropped.contains(&"0".to_string()));
    assert_eq!(now.absorb(queued(1)), 0, "track 0 has already been played");
    assert_eq!(now.queue.len(), QUEUE_BEHIND + 1);
}

#[test]
fn a_short_queue_is_left_alone_by_the_trim() {
    let mut now = playing();
    now.queue = queued(5);
    now.playing = Some(4);
    now.cursor[Tab::UpNext.index()] = 4;

    now.trim();

    assert_eq!(
        now.queue.len(),
        5,
        "nothing has fallen out of the window yet"
    );
    assert_eq!(now.playing, Some(4));
    assert!(now.dropped.is_empty());
}

/// The whole claim of an endless queue: it can be played through for as
/// long as anyone likes without growing. Walked here the way a session
/// walks it -- top up when the tail runs low, advance one, trim behind --
/// for far more tracks than either bound holds.
#[test]
fn playing_through_an_endless_queue_does_not_grow_it() {
    let mut now = playing();
    now.queue = queued(1);
    now.playing = Some(0);

    let mut next = 1;
    for _ in 0..(QUEUE_MEMORY * 4) {
        if now.remaining() < QUEUE_LOW {
            // A page, as a continuation delivers one.
            let page: Vec<Track> = (next..next + 25).map(numbered).collect();
            next += 25;
            assert!(now.absorb(page) > 0, "a page of new tracks must land");
        }
        now.playing = Some(now.playing.unwrap() + 1);
        now.trim();
    }

    assert!(
        now.dropped.len() <= QUEUE_MEMORY,
        "remembered {} ids, over the {QUEUE_MEMORY} bound",
        now.dropped.len()
    );
    assert!(
        now.queue.len() <= QUEUE_BEHIND + 1 + QUEUE_AHEAD,
        "held {} tracks, wider than the window",
        now.queue.len()
    );
    assert_eq!(
        now.playing,
        Some(QUEUE_BEHIND),
        "the window settles with the playing track a fixed way into it"
    );
}

/// Nothing playing inside the queue is not the same as a queue with plenty
/// left: reporting its length would top up a queue standing still.
#[test]
fn a_queue_nothing_is_playing_in_has_nothing_remaining() {
    let mut now = playing();
    now.queue = queued(30);
    now.playing = None;

    assert_eq!(now.remaining(), 0);
}

/// A continuation that carried the queue forward is trusted about where the
/// next page lives, and leaves the station's name alone.
#[test]
fn a_page_that_carried_the_queue_forward_is_paged_again() {
    let mut now = playing();
    now.queue = queued(3);
    now.playing = Some(0);
    now.queue_title = "Let It Happen Mix".to_string();
    now.continuation = Some("FIRST".to_string());
    now.topup_failures = 2;

    let added = now.take_page(QueuePage {
        tracks: queued(8).split_off(3),
        continuation: Some("SECOND".to_string()),
        title: None,
    });

    assert_eq!(added, 5);
    assert_eq!(now.continuation.as_deref(), Some("SECOND"));
    assert_eq!(
        now.topup_failures, 0,
        "a page that worked clears what earlier failures had counted up"
    );
    assert_eq!(
        now.queue_title, "Let It Happen Mix",
        "more of the same station must not rename it"
    );
}

/// A page whose every track is already held teaches the queue nothing, and
/// the token that bought it will buy the same page again. Giving it up is
/// what lets the next top-up fall through to the journal instead of
/// spending a round trip per track re-learning the same thing.
#[test]
fn a_page_of_nothing_new_gives_up_the_token() {
    let mut now = playing();
    now.queue = queued(3);
    now.playing = Some(0);
    now.continuation = Some("TOKEN".to_string());

    let added = now.take_page(QueuePage {
        tracks: queued(3),
        continuation: Some("WOULD_BUY_THE_SAME_AGAIN".to_string()),
        title: None,
    });

    assert_eq!(added, 0);
    assert_eq!(now.queue.len(), 3, "nothing was appended");
    assert!(
        now.continuation.is_none(),
        "the offered token would buy this same page again"
    );
    assert_eq!(
        now.topup_failures, 1,
        "a station repeating itself has to count against the budget too"
    );
}

/// The handover to the journal: a station built locally is a different
/// station, and the panel has to say so rather than keep the old name over
/// entirely different music.
#[test]
fn a_seeded_station_renames_the_queue_and_is_paged_from_there() {
    let mut now = playing();
    now.queue = queued(2);
    now.playing = Some(1);
    now.queue_title = "Let It Happen Mix".to_string();
    // Tier one has already given up: this is the fallback landing.
    now.continuation = None;
    now.topup_failures = 1;

    let added = now.take_page(QueuePage {
        tracks: queued(20).split_off(2),
        continuation: Some("STATION_PAGE_TWO".to_string()),
        title: Some("Station from Currents".to_string()),
    });

    assert_eq!(added, 18);
    assert_eq!(now.queue_title, "Station from Currents");
    assert_eq!(
        now.continuation.as_deref(),
        Some("STATION_PAGE_TWO"),
        "the new station is YouTube's to page from here on"
    );
    assert_eq!(now.topup_failures, 0);
}

/// The window has a ceiling as well as a floor.
#[test]
fn the_queue_does_not_grow_past_the_window() {
    let mut now = playing();
    now.queue = queued(2);
    now.playing = Some(0);

    let page: Vec<Track> = queued(QUEUE_AHEAD + 20).split_off(2);
    now.absorb(page);

    assert_eq!(now.queue.len(), QUEUE_AHEAD + 1);
    assert_eq!(now.remaining(), QUEUE_AHEAD);
}

/// A top-up arrives below the low-water mark and may contain sixty rows.
/// The continuation it carries starts after all sixty, so all must fit or
/// the omitted tail can never be requested again.
#[test]
fn a_complete_continuation_page_fits_at_the_low_water_mark() {
    let mut now = playing();
    now.queue = queued(QUEUE_LOW);
    now.playing = Some(0);

    let page: Vec<Track> = (QUEUE_LOW..QUEUE_LOW + 60).map(numbered).collect();
    assert_eq!(now.absorb(page), 60);
    assert_eq!(now.remaining(), QUEUE_LOW - 1 + 60);
}

#[test]
fn tabs_go_round() {
    assert_eq!(Tab::UpNext.shifted(1), Tab::Lyrics);
    assert_eq!(Tab::UpNext.shifted(-1).shifted(1), Tab::UpNext);
    assert_eq!(Tab::UpNext.shifted(4), Tab::UpNext);
    assert_eq!(Tab::UpNext.shifted(-9), Tab::UpNext.shifted(3));
    assert_eq!(Tab::from_index(Tab::Comments.index()), Some(Tab::Comments));
    assert_eq!(Tab::from_index(4), None);
    assert_eq!(Tab::Lyrics.label(), "LYRICS");
}

#[test]
fn a_track_is_found_in_the_queue_by_its_id() {
    let queue = queued(4);
    assert_eq!(position(&queue, "2"), Some(2));
    assert_eq!(position(&queue, "4"), None);
    let mut now = playing();
    now.queue = queue;
    now.playing = Some(2);
    assert_eq!(now.next_in_queue().unwrap().id, "3");
    now.playing = Some(3);
    assert!(now.next_in_queue().is_none());
}

#[test]
fn the_page_says_what_is_playing() {
    let now = playing();
    assert_eq!(now.byline(), "Tame Impala \u{2022} Currents");
    let query = now.lyrics_query();
    assert_eq!(query.artist, "Tame Impala");
    assert_eq!(query.title, "Let It Happen");
    assert_eq!(query.album.as_deref(), Some("Currents"));
    assert_eq!(query.duration, Some(468 * SECOND));
    assert_eq!(label("Title", "Artist"), "Title \u{2014} Artist");
    assert_eq!(label("Title", "unknown"), "Title");
}

#[test]
fn a_panel_holds_what_came_or_why_nothing_did() {
    assert!(matches!(panel::<u8>(Ok(3)), Panel::Ready(3)));
    match panel::<u8>(Err("none".to_string())) {
        Panel::Empty(why) => assert_eq!(why, "none"),
        _ => panic!("nothing came"),
    }
    assert!(playing().lyrics.is_idle());
}

#[test]
fn related_cards_stand_under_their_headings() {
    let mut now = playing();
    now.related = Panel::Ready(vec![
        Shelf {
            title: "One".to_string(),
            cards: vec![Card {
                title: "a".to_string(),
                target: Target::Play { video_id: "v".to_string() },
                playable: None,
                key: "v".to_string(),
            }],
        },
        Shelf {
            title: "Two".to_string(),
            cards: vec![],
        },
    ]);
    let rows = now.related_rows();
    assert_eq!(rows.len(), 3);
    assert!(matches!(rows[0], RelatedRow::Heading("One")));
    assert!(matches!(rows[1], RelatedRow::Card(card) if card.title == "a"));
    assert!(matches!(rows[2], RelatedRow::Heading("Two")));
}
