use std::collections::VecDeque;

use mtui::player::chunked::{StreamFault, StreamLink};
use mtui::player::{
    clock, drain, resume_is_stale, same_representation, stopped_message, Command, EndStep, Ending,
    Engine, Opened, PlayState, Step, Track, UrlStep, MAX_REBUILDS,
};
use mtui::resolver::AudioFormat;

const SECOND: u64 = 1_000_000_000;

fn track(position: u64, total: Option<u64>) -> Track {
    Track {
        url: "https://example.com/a.m4a".into(),
        format: AudioFormat { itag: Some(140) },
        id: "dQw4w9WgXcQ".into(),
        link: StreamLink::default(),
        total: total.map(|secs| secs * SECOND),
        offset: 0,
        position: position * SECOND,
        seeking_to: None,
        rebuilds: 0,
        replacement: None,
    }
}

#[test]
fn only_the_same_known_format_can_resume_at_a_byte_offset() {
    let known = AudioFormat { itag: Some(141) };
    assert!(same_representation(known, known));
    assert!(!same_representation(known, AudioFormat { itag: Some(140) }));
    assert!(!same_representation(
        AudioFormat { itag: None },
        AudioFormat { itag: None }
    ));
}

#[test]
fn replacements_are_spliced_only_when_the_representation_matches() {
    let mut same = track(5, Some(213));
    same.arm_replacement(
        "https://example.com/refreshed.m4a".into(),
        AudioFormat { itag: Some(140) },
    );
    assert_eq!(same.url, "https://example.com/refreshed.m4a");
    assert!(same.replacement.is_none());

    let mut different = track(5, Some(213));
    different.arm_replacement(
        "https://example.com/complete.mp4".into(),
        AudioFormat { itag: Some(18) },
    );
    assert_eq!(different.url, "https://example.com/a.m4a");
    assert!(matches!(
        different.replacement,
        Some((_, AudioFormat { itag: Some(18) }))
    ));
}

#[test]
fn a_late_resume_is_ignored_after_the_downloader_recovered() {
    assert!(resume_is_stale(PlayState::Playing, false));
    assert!(!resume_is_stale(PlayState::Playing, true));
    assert!(!resume_is_stale(PlayState::Buffering, false));
}

/// The same track, whose downloader recorded a refusal at `offset`.
fn faulted(position: u64, total: Option<u64>, offset: u64) -> Track {
    let mut cur = track(position, total);
    cur.link.record(StreamFault {
        status: Some(403),
        offset,
    });
    cur
}

/// The same track, with a seek to `target` outstanding.
fn seeking(position: u64, total: Option<u64>, target: u64) -> Track {
    Track {
        seeking_to: Some(target * SECOND),
        ..track(position, total)
    }
}

#[test]
fn reaching_the_end_is_a_finished_track() {
    assert!(matches!(track(213, Some(213)).ending(), Ending::Finished));
}

#[test]
fn the_last_partial_frame_still_counts_as_finished() {
    // The decoder yields slightly less than the container advertises, so an
    // exact match is not something a real track ever produces.
    assert!(matches!(track(211, Some(213)).ending(), Ending::Finished));
}

#[test]
fn stopping_short_is_a_stall_worth_rebuilding() {
    let Ending::Stalled(from) = track(80, Some(213)).ending() else {
        panic!("a source that stopped 2 minutes early has not finished");
    };
    assert_eq!(
        from,
        80 * SECOND,
        "rebuild picks up where it died"
    );
}

#[test]
fn a_livestream_never_falls_short() {
    // Nothing states an end, so there is nothing to have stopped short of.
    assert!(matches!(track(80, None).ending(), Ending::Finished));
}

/// The silent-skip case, and the reason the downloader now writes down what
/// it hit. A container that states no duration -- a livestream, or a
/// fragmented mp4 whose sample table is short -- used to make every
/// mid-track death indistinguishable from a track that ended, so the queue
/// advanced to the next song with no error and no attempt to recover. A
/// recorded refusal is evidence the position alone could never supply.
#[test]
fn a_livestream_that_was_refused_is_a_stall_not_an_ending() {
    let Ending::Stalled(from) = faulted(80, None, 1024 * 1024).ending() else {
        panic!("a stream refused mid-track has not finished, stated length or not");
    };
    assert_eq!(from, 80 * SECOND);
}

/// A refusal on the last chunk is real but no longer interesting: the music
/// played. Recovering there would replay the last few seconds only to
/// arrive at the same end, and would do it on every track whose final range
/// request happens to be refused.
#[test]
fn a_fault_at_the_very_end_is_still_a_finished_track() {
    assert!(matches!(
        faulted(211, Some(213), 3_400_000).ending(),
        Ending::Finished
    ));
}

#[test]
fn a_spent_budget_reports_instead_of_retrying() {
    let mut stuck = track(80, Some(213));
    stuck.rebuilds = MAX_REBUILDS;
    let Ending::GaveUp { at, total, .. } = stuck.ending() else {
        panic!("the budget is spent, so this must not ask for another rebuild");
    };
    assert_eq!(
        (at, total),
        (80 * SECOND, Some(213 * SECOND))
    );
}

/// What the user is left with when nothing worked, and the one place the
/// cause is allowed to reach them. "stopped at 0:31 of 3:33" describes what
/// they can already hear; the fault names which of several very different
/// failures it was.
#[test]
fn the_message_names_the_fault_when_one_was_recorded() {
    let mut stuck = faulted(31, Some(213), 1024 * 1024);
    stuck.rebuilds = MAX_REBUILDS;
    let Ending::GaveUp { at, total, fault } = stuck.ending() else {
        panic!("the budget is spent, so this must not ask for another rebuild");
    };
    assert_eq!(
        stopped_message(at, total, fault),
        "stream stopped at 0:31 of 3:33 (HTTP 403 at 1.0 MiB)"
    );

    // Nothing recorded, so nothing invented.
    assert_eq!(
        stopped_message(at, total, None),
        "stream stopped at 0:31 of 3:33"
    );

    // A livestream has no length to name, and saying "of 0:00" would be
    // worse than saying nothing.
    assert_eq!(stopped_message(at, None, None), "stream stopped at 0:31");
}

/// The rewind case: a stream that could not follow the seek ends silently,
/// and picking up where the dead decoder claimed to be would put the audio
/// back where the rewind started while the clock -- and the lyrics reading
/// off it -- stayed at the target.
#[test]
fn a_drain_under_a_seek_is_recovered_at_the_target() {
    let Ending::Stalled(from) = seeking(80, Some(213), 45).ending() else {
        panic!("a source that drained under a seek has not finished");
    };
    assert_eq!(
        from,
        45 * SECOND,
        "the rebuild picks up where the seek was aimed"
    );
}

/// Otherwise a rewind landing inside the last few seconds would be read as
/// the track ending, and answered by playing the next song.
#[test]
fn a_seek_outstanding_is_never_a_finished_track() {
    assert!(matches!(
        seeking(213, Some(213), 200).ending(),
        Ending::Stalled(_)
    ));
    // Nor for a livestream, where a drain is otherwise always taken at its
    // word for want of anything to have fallen short of.
    assert!(matches!(seeking(80, None, 45).ending(), Ending::Stalled(_)));
}

#[test]
fn a_seek_is_believed_once_the_stream_plays_past_it() {
    let mut rewinding = track(80, Some(213));
    rewinding.aim_at(45 * SECOND);

    // Arriving at the target proves nothing: rodio reports the position it
    // was asked to seek to whether or not the stream could follow.
    rewinding.played_to(45 * SECOND);
    assert_eq!(rewinding.seeking_to, Some(45 * SECOND));

    // Playing on from it could only have come from audio decoded there.
    rewinding.played_to(46 * SECOND);
    assert_eq!(rewinding.seeking_to, None);
}

/// Otherwise pressing forward once more at the end of a song would open a
/// stream only to discover the track was over.
#[test]
fn a_seek_past_the_end_is_not_held_outstanding() {
    let mut ending = track(211, Some(213));
    ending.aim_at(240 * SECOND);
    assert_eq!(ending.seeking_to, None);
    // So a drain right afterwards is read as the track ending, which is
    // what it is, rather than as a seek to recover.
    assert!(matches!(ending.ending(), Ending::Finished));

    // A livestream has no end to have been sent past.
    let mut live = track(200, None);
    live.aim_at(240 * SECOND);
    assert_eq!(live.seeking_to, Some(240 * SECOND));
}

#[test]
fn a_spent_budget_reports_the_seek_target_too() {
    let mut stuck = seeking(80, Some(213), 45);
    stuck.rebuilds = MAX_REBUILDS;
    let Ending::GaveUp { at, total, .. } = stuck.ending() else {
        panic!("the budget is spent, so this must not ask for another rebuild");
    };
    assert_eq!(
        (at, total),
        (45 * SECOND, Some(213 * SECOND))
    );
}

#[test]
fn playing_on_from_a_rebuild_returns_the_budget() {
    // A rebuild at 1:00 that has since played to 1:06 has recovered, so the
    // next stall in a long track is not held against it.
    let mut recovered = track(66, Some(213));
    recovered.offset = 60 * SECOND;
    recovered.rebuilds = MAX_REBUILDS;
    recovered.note_progress();
    assert_eq!(recovered.rebuilds, 0);

    // One that died again immediately keeps spending it, so a stream that
    // cannot play at all stops instead of retrying forever.
    let mut stalled = track(61, Some(213));
    stalled.offset = 60 * SECOND;
    stalled.rebuilds = 1;
    stalled.note_progress();
    assert_eq!(stalled.rebuilds, 1);
}

/// Opening a stream blocks for a second or more. What arrives during it
/// decides whether the track that was opened is still the one wanted.
#[test]
fn a_choice_made_while_a_stream_opens_supersedes_it() {
    let mut queued = VecDeque::new();

    // Nothing waiting: the track that was opened is still the one to play.
    assert!(!drain(vec![], &mut queued));
    assert!(queued.is_empty());

    // A volume change says nothing about which track is wanted, so it is
    // kept for the new track rather than taken as a reason to drop it.
    assert!(!drain(vec![Command::SetVolume(50)], &mut queued));
    assert_eq!(queued.len(), 1);

    // The user chose something else while this was opening.
    let chosen = Command::Load {
        title: "another".into(),
    };
    assert!(drain(vec![chosen], &mut queued));
    // Everything drained is kept in order: the commands still have to run,
    // it is only the stream in hand that is thrown away.
    assert_eq!(queued.len(), 2);
    assert!(matches!(queued[0], Command::SetVolume(_)));
    assert!(matches!(queued[1], Command::Load { .. }));
}

#[test]
fn a_stop_during_an_open_also_supersedes_it() {
    let mut queued = VecDeque::new();
    assert!(
        drain(vec![Command::Stop], &mut queued),
        "nothing should start after a stop"
    );
}

#[test]
fn positions_are_named_as_a_clock() {
    assert_eq!(clock(83 * SECOND), "1:23");
    assert_eq!(clock(9 * SECOND), "0:09");
}

fn opened(total: u64) -> Opened {
    Opened {
        total: Some(total * SECOND),
        link: StreamLink::default(),
    }
}

/// An engine that plays a track of this length.
fn started(total: u64) -> Engine {
    let mut engine = Engine::new();
    let step = engine.command(
        Command::Play {
            url: "https://example.com/a.m4a".into(),
            format: AudioFormat { itag: Some(140) },
            title: "a".into(),
            id: "dQw4w9WgXcQ".into(),
        },
        false,
    );
    let Step::Open { url, format, id } = step else {
        panic!("the stream is to be opened");
    };
    engine.opened(url, format, id, Ok(opened(total)), false);
    engine
}

#[test]
fn a_stalled_stream_is_rebuilt_and_then_given_up_on() {
    let mut engine = started(213);
    assert_eq!(engine.state, PlayState::Playing);
    assert!(matches!(engine.settle(false, 80 * SECOND), UrlStep::Nothing));
    assert_eq!(engine.snapshot.position, 80 * SECOND);
    for rebuild in 0..MAX_REBUILDS {
        engine.settle(true, 0);
        let EndStep::Ask { id, from } = engine.conclude(true) else {
            panic!("rebuild {rebuild} is still allowed");
        };
        assert_eq!(id, "dQw4w9WgXcQ");
        assert_eq!(from, 80 * SECOND);
        assert_eq!(engine.state, PlayState::Buffering);
        let step = engine.command(
            Command::Resume {
                url: "https://example.com/b.m4a".into(),
                format: AudioFormat { itag: Some(140) },
                from,
            },
            false,
        );
        assert!(matches!(step, Step::Resume { .. }));
        engine.resumed(Ok(opened(213)), from);
        assert_eq!(engine.state, PlayState::Playing);
    }
    engine.settle(true, 0);
    assert!(matches!(engine.conclude(true), EndStep::Nothing));
    assert_eq!(engine.state, PlayState::Idle);
    assert_eq!(
        engine.snapshot.error.as_deref(),
        Some("stream stopped at 1:20 of 3:33")
    );
}

#[test]
fn a_finished_track_leaves_the_player_idle() {
    let mut engine = started(213);
    engine.settle(false, 212 * SECOND);
    assert!(matches!(engine.conclude(true), EndStep::Nothing));
    assert_eq!(engine.state, PlayState::Idle);
    assert!(engine.snapshot.error.is_none());
    assert!(engine.track.is_none());
}

#[test]
fn a_refused_download_asks_for_a_url_once() {
    let mut engine = started(213);
    engine.track.as_mut().unwrap().link.request_url(1024);
    let UrlStep::Ask { from, .. } = engine.settle(false, 30 * SECOND) else {
        panic!("a fresh URL is wanted");
    };
    assert_eq!(from, 30 * SECOND);
    engine.asked(true);
    assert!(matches!(engine.conclude(false), EndStep::Nothing));
    assert!(matches!(engine.settle(false, 31 * SECOND), UrlStep::Nothing));

    // The answer is spliced into the waiting download.
    let step = engine.command(
        Command::Resume {
            url: "https://example.com/b.m4a".into(),
            format: AudioFormat { itag: Some(140) },
            from,
        },
        false,
    );
    assert!(matches!(step, Step::Skip));
    let link = &mut engine.track.as_mut().unwrap().link;
    assert_eq!(link.take_url().as_deref(), Some("https://example.com/b.m4a"));
}

#[test]
fn a_held_stream_answers_before_anyone_is_asked() {
    let mut engine = started(213);
    let step = engine.command(
        Command::ArmReplacement {
            id: "dQw4w9WgXcQ".into(),
            url: "https://example.com/complete.mp4".into(),
            format: AudioFormat { itag: Some(18) },
        },
        false,
    );
    assert!(matches!(step, Step::Settle));
    engine.track.as_mut().unwrap().link.request_url(1024);
    let UrlStep::Replace { url, format } = engine.settle(false, 30 * SECOND) else {
        panic!("the held stream comes first");
    };
    assert_eq!(url, "https://example.com/complete.mp4");
    assert_eq!(
        engine.replaced(url, format, opened(213), 31 * SECOND),
        Some(31 * SECOND)
    );
    assert_eq!(engine.track.as_ref().unwrap().format.itag, Some(18));
}

#[test]
fn seeks_go_forward_in_place_and_back_by_rebuilding() {
    let mut engine = started(213);
    engine.settle(false, 80 * SECOND);
    assert!(matches!(
        engine.command(Command::Seek(90 * SECOND), false),
        Step::Forward { within, target } if within == 90 * SECOND && target == 90 * SECOND
    ));
    let Step::Rebuild { url, from } = engine.command(Command::Seek(45 * SECOND), false) else {
        panic!("only a fresh stream can go back");
    };
    assert_eq!(url, "https://example.com/a.m4a");
    assert_eq!(from, 45 * SECOND);
    assert_eq!(engine.snapshot.state, PlayState::Buffering);
    engine.rebuilt(Ok(opened(213)), from);
    assert_eq!(engine.track.as_ref().unwrap().offset, 45 * SECOND);
}

#[test]
fn the_volume_has_a_ceiling() {
    let mut engine = Engine::new();
    assert_eq!(engine.snapshot.volume, 100);
    assert!(matches!(
        engine.command(Command::SetVolume(900), false),
        Step::Volume(200)
    ));
    assert_eq!(engine.snapshot.volume, 200);
    assert!(matches!(engine.command(Command::Shutdown, false), Step::Quit));
}

#[test]
fn a_stream_that_does_not_open_is_reported() {
    let mut engine = Engine::new();
    engine.opened(
        "https://example.com/a.m4a".into(),
        AudioFormat { itag: None },
        "dQw4w9WgXcQ".into(),
        Err("no route".into()),
        false,
    );
    assert_eq!(engine.state, PlayState::Idle);
    assert_eq!(engine.snapshot.error.as_deref(), Some("no route"));
}

#[test]
fn a_resumed_source_begins_where_it_was_wound_to() {
    let mut engine = started(213);
    engine.settle(false, 60 * SECOND);
    assert_eq!(engine.snapshot.position, 60 * SECOND);
    engine.track.as_mut().unwrap().link.request_url(1000);
    let step = engine.command(
        Command::Resume {
            url: "https://example.com/b.m4a".into(),
            format: AudioFormat { itag: Some(139) },
            from: 60 * SECOND,
        },
        false,
    );
    assert!(matches!(step, Step::Resume { .. }));
    engine.resumed(Ok(opened(213)), 60 * SECOND);
    assert_eq!(engine.track.as_ref().unwrap().offset, 60 * SECOND);
    engine.settle(false, 2 * SECOND);
    assert_eq!(engine.snapshot.position, 62 * SECOND);
}
