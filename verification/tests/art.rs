use mtui::art::{ArtCache, CAPACITY};
use mtui::cover::Cover;

fn cover() -> Cover {
    Cover::solid(8, 8)
}

#[test]
fn a_card_is_asked_for_once() {
    let mut cache = ArtCache::default();
    assert!(cache.want("a"), "the first frame has to ask");
    assert!(!cache.want("a"), "and no frame after it may ask again");
}

#[test]
fn a_stored_picture_comes_back() {
    let mut cache = ArtCache::default();
    cache.want("a");
    cache.store("a".to_string(), Some(cover()));
    assert!(cache.get("a").is_some());
    assert!(!cache.want("a"));
    assert_eq!(cache.get("a").unwrap().rgb.len(), 8 * 8 * 3);
}

#[test]
fn art_that_never_arrives_is_not_asked_for_again() {
    // The point of remembering a failure: a 404 must not become a request
    // per frame for as long as the card is on screen.
    let mut cache = ArtCache::default();
    cache.want("a");
    cache.store("a".to_string(), None);
    assert!(cache.get("a").is_none());
    assert!(
        !cache.want("a"),
        "a known-missing picture is not re-requested"
    );
}

#[test]
fn the_cache_stays_inside_its_capacity() {
    let mut cache = ArtCache::default();
    for i in 0..CAPACITY * 2 {
        let key = i.to_string();
        cache.want(&key);
        cache.store(key, Some(cover()));
    }
    let held = cache.entries.iter().filter(|entry| entry.1.is_some()).count();
    assert!(held <= CAPACITY, "held {}", held);
    assert_eq!(cache.entries.len(), CAPACITY);
}

#[test]
fn the_oldest_unwanted_entry_is_the_one_dropped() {
    let mut cache = ArtCache::default();
    for i in 0..CAPACITY {
        let key = i.to_string();
        cache.want(&key);
        cache.store(key, Some(cover()));
    }
    // Ask for the oldest again, so the second-oldest becomes the victim.
    cache.want("0");
    cache.want("fresh");
    cache.store("fresh".to_string(), Some(cover()));

    assert!(cache.get("0").is_some(), "re-wanting it kept it");
    assert!(cache.get("1").is_none(), "the next oldest went instead");
    assert!(cache.get("fresh").is_some());
}

#[test]
fn an_answer_that_comes_too_late_is_discarded() {
    let mut cache = ArtCache::default();
    cache.want("slow");
    for i in 0..CAPACITY {
        cache.want(&i.to_string());
    }
    cache.store("slow".to_string(), Some(cover()));
    assert!(cache.get("slow").is_none());
    assert!(cache.want("slow"), "it has to be asked for again");
}
