//! What each answer comes to, and what playing asks for.
//!
//! Stated over what the program holds before and after, field by field.

use vstd::prelude::*;
use vstd::view::View as _;

use super::{AppView, Mode, Overlay, Resuming, SessionView, SignIn, View};
use crate::cover::Cover;
use crate::now_playing;
use crate::now_playing::{NowView, Panel, Tab};
use crate::player::{Command, PlayState};
use crate::resolver::StreamUrl;
use crate::source;
use crate::source::{
    Comments, Lyrics, PageView, Playlist, QueuePage, Request, Response, Shelf, Track, Watch,
};

verus! {

broadcast use vstd::string::group_string_axioms;

/// With fewer than five tracks ahead of the one that plays, topping up
/// asks once for more of this very queue, by the token that it holds or for a
/// new station, and notes that it has asked. With as many or more ahead, with a
/// page on its way, or after too many failures, nothing is asked.
pub proof fn low_queue_asks_for_more(app: AppView, at: int)
    requires
        app.session.now is Some,
        app.session.now->0.playing == Some(at as usize),
        0 <= at < app.session.now->0.queue.len() <= usize::MAX,
        app.source.open,
    ensures
        ({
            let now = app.session.now->0;
            let after = app.tops_up();
            let ahead = now.queue.len() - at - 1;
            if ahead < 5 && !now.topping_up && now.topup_failures < 3 {
                &&& after.source.requests.drop_last() == app.source.requests
                &&& after.source.requests.len() == app.source.requests.len() + 1
                &&& match now.continuation {
                    Some(token) => after.source.requests.last() == (Request::MoreQueue {
                        epoch: now.queue_epoch,
                        token,
                    }),
                    None => after.source.requests.last() == (Request::<Seq<char>>::SeedQueue {
                        epoch: now.queue_epoch,
                        rotation: app.session.seed_rotation,
                    }),
                }
                &&& after.session.now == Some(NowView { topping_up: true, ..now })
                &&& now.continuation is None ==> after.session.seed_rotation
                    != app.session.seed_rotation
            } else {
                after == app
            }
        }),
{
    reveal(AppView::tops_up);
    assert(app.tops_up().source.requests.len() > app.source.requests.len()
        ==> app.tops_up().source.requests.drop_last() =~= app.source.requests);
}

/// Lyrics that arrive for the track on the page are on it: the words themselves,
/// or why there are none. Nothing else changes.
pub proof fn lyrics_are_shown(app: AppView, video_id: String, lyrics: Result<Lyrics, String>)
    requires
        app.session.now is Some,
        app.session.now->0.video_id == video_id@,
    ensures
        ({
            let after = app.applies(Response::Lyrics { video_id, lyrics });
            let now = app.session.now->0;
            let panel = match lyrics {
                Ok(words) => Panel::Ready(words),
                Err(why) => Panel::Empty(why@),
            };
            after == (AppView {
                session: SessionView {
                    now: Some(NowView { lyrics: panel, ..now }),
                    ..app.session
                },
                ..app
            })
        }),
{
    reveal(AppView::takes_unasked);
    reveal(AppView::lyrics_shown);
}

/// The same of the comments.
pub proof fn comments_are_shown(app: AppView, video_id: String, comments: Result<Comments, String>)
    requires
        app.session.now is Some,
        app.session.now->0.video_id == video_id@,
    ensures
        ({
            let after = app.applies(Response::Comments { video_id, comments });
            let now = app.session.now->0;
            let panel = match comments {
                Ok(rows) => Panel::Ready(rows),
                Err(why) => Panel::Empty(why@),
            };
            after == (AppView {
                session: SessionView {
                    now: Some(NowView { comments: panel, ..now }),
                    ..app.session
                },
                ..app
            })
        }),
{
    reveal(AppView::takes_unasked);
    reveal(AppView::comments_shown);
}

/// The same of the related music: shelf by shelf as it came.
pub proof fn related_music_is_shown(
    app: AppView,
    video_id: String,
    related: Result<Vec<Shelf>, String>,
)
    requires
        app.session.now is Some,
        app.session.now->0.video_id == video_id@,
    ensures
        ({
            let after = app.applies(Response::Related { video_id, related });
            let shown = after.session.now->0.related;
            &&& after == (AppView {
                session: SessionView {
                    now: Some(NowView { related: shown, ..app.session.now->0 }),
                    ..app.session
                },
                ..app
            })
            &&& match related {
                Ok(shelves) => {
                    &&& shown is Ready
                    &&& shown->Ready_0.len() == shelves@.len()
                    &&& forall|i: int|
                        0 <= i < shelves@.len() ==> (#[trigger] shown->Ready_0[i]) == shelves@[i]@
                },
                Err(why) => shown == Panel::<Seq<source::ShelfView>, Seq<char>>::Empty(why@),
            }
        }),
{
    reveal(AppView::takes_unasked);
    reveal(AppView::related_shown);
}

/// How many requests a play in progress adds when it ends: one, where anything
/// was heard of it.
pub open spec fn reports_of(app: AppView) -> int {
    if app.session.listening is Some && (app.session.listening->0).1 > 0 {
        1
    } else {
        0
    }
}

/// A play that is over is handed to the worker with how much of it was heard.
pub proof fn heard_plays_are_reported(app: AppView)
    requires
        app.session.listening is Some,
        (app.session.listening->0).1 > 0,
        app.source.open,
    ensures
        app.heard_out().source.requests == app.source.requests.push(
            Request::ReportPlay {
                track: (app.session.listening->0).0,
                listened: (app.session.listening->0).1,
            },
        ),
        app.heard_out().commands == app.commands,
        app.heard_out().session.now == app.session.now,
{
    reveal(AppView::heard_out);
}

/// Playing a track stops what plays and announces it at once, puts its page up,
/// and asks for its stream, then its cover, then what surrounds it. Nothing but
/// its own stream is waited for.
pub proof fn playing_asks_for_the_stream(app: AppView, track: Track<Seq<char>>, auto: bool)
    requires
        app.source.open,
    ensures
        ({
            let after = app.plays(track, auto);
            let n = app.source.requests.len() + reports_of(app);
            &&& after.source.open
            &&& after.source.requests.len() >= n + 3
            &&& after.source.requests.take(app.source.requests.len() as int)
                == app.source.requests
            &&& after.source.requests[n] == (Request::Resolve {
                id: track.id,
                title: track.label_of(),
                bypass_cache: false,
            })
            &&& after.source.requests[n + 1] == (Request::Cover { id: track.id })
            &&& after.source.requests[n + 2] == (Request::Watch { video_id: track.id })
            &&& after.commands == app.commands.push(Command::Load { title: track.label_of() })
            &&& after.session.pending == Some(track.id)
            &&& after.session.resuming is None
            &&& after.session.auto == auto
            &&& after.session.listening == Some((track, 0u64))
            &&& after.session.now is Some
            &&& after.session.now->0.video_id == track.id
            &&& after.session.now->0.title == track.title
            &&& after.session.now->0.artist == track.uploader
            &&& after.session.now->0.duration == track.duration
            &&& after.pictures.cover is None
            &&& after.pictures.cover_id == Some(track.id)
            &&& after.screen.view == View::Playing
            &&& app.screen.view != View::Playing ==> after.screen.back_to == app.screen.view
        }),
{
    reveal(AppView::plays);
    reveal(AppView::loads);
    reveal(AppView::heard_out);
    reveal(AppView::asks_tab);
    reveal(AppView::tops_up);
    let after = app.plays(track, auto);
    assert(after.source.requests.take(app.source.requests.len() as int)
        =~= app.source.requests);
}

/// Without a worker nothing can be played: nothing is waited for, and the player
/// is stopped.
pub proof fn nothing_plays_without_a_worker(app: AppView, track: Track<Seq<char>>, auto: bool)
    requires
        !app.source.open,
    ensures
        app.plays(track, auto).session.pending is None,
        app.plays(track, auto).source == app.source,
        app.plays(track, auto).commands == app.commands.push(
            Command::Load { title: track.label_of() },
        ).push(Command::Stop),
        app.plays(track, auto).screen.status == "source worker is not running"@,
{
    reveal(AppView::plays);
    reveal(AppView::loads);
    reveal(AppView::heard_out);
}

/// A track that is played from the queue keeps its queue: the window may move,
/// but the track is where the index says, and what followed it still does.
pub proof fn queue_survives_its_tracks(app: AppView, at: int, auto: bool)
    requires
        app.session.now is Some,
        app.session.now->0.wf(),
        app.session.now->0.no_repeats(),
        0 <= at < app.session.now->0.queue.len(),
        app.source.open,
    ensures
        ({
            let before = app.session.now->0;
            let after = app.plays(before.queue[at], auto).session.now->0;
            &&& after.playing is Some
            &&& after.playing->0 < after.queue.len()
            &&& after.queue[after.playing->0 as int] == before.queue[at]
            &&& after.queue.len() - after.playing->0 == before.queue.len() - at
            &&& forall|k: int|
                0 <= k < before.queue.len() - at ==> after.queue[after.playing->0 + k]
                    == #[trigger] before.queue[at + k]
            &&& after.queue_epoch == before.queue_epoch
            &&& after.continuation == before.continuation
            &&& after.queue_title == before.queue_title
            &&& after.topup_failures == before.topup_failures
            &&& before.topping_up ==> after.topping_up
            &&& at <= 20 ==> after.queue == before.queue && after.dropped == before.dropped
            &&& at <= 20 ==> after.cursor[0] == at
            &&& after.tab == before.tab
        }),
{
    reveal(AppView::plays);
    reveal(AppView::loads);
    reveal(AppView::heard_out);
    reveal(AppView::asks_tab);
    reveal(AppView::tops_up);
    let before = app.session.now->0;
    now_playing::position_is_found(before.queue, before.queue[at].id);
    let found = now_playing::position_of(before.queue, before.queue[at].id);
    assert(now_playing::holds(before.queue, before.queue[at].id));
    let i = found->0 as int;
    if i < at {
        assert(before.queue[i].id != before.queue[at].id);
    }
    if at < i {
        assert(before.queue[at].id != before.queue[i].id);
    }
    assert(i == at);
    let after = app.plays(before.queue[at], auto).session.now->0;
    assert forall|k: int| 0 <= k < before.queue.len() - at implies after.queue[after.playing->0
        + k] == #[trigger] before.queue[at + k] by {}
}

/// The next track is the one behind the playing one, and the previous the one in
/// front of it. At either end nothing is played.
pub proof fn queue_is_walked_in_order(app: AppView, at: int, auto: bool)
    requires
        app.session.now is Some,
        app.session.now->0.playing == Some(at as usize),
        0 <= at < app.session.now->0.queue.len() <= usize::MAX,
    ensures
        ({
            let queue = app.session.now->0.queue;
            &&& at + 1 < queue.len() ==> app.advances(1, auto) == app.plays(queue[at + 1], auto)
            &&& at > 0 ==> app.advances(-1, auto) == app.plays(queue[at - 1], auto)
            &&& at + 1 == queue.len() ==> {
                let after = app.advances(1, auto);
                &&& after.commands == app.commands
                &&& after.source == app.source
                &&& after.session == app.session
                &&& after.screen.status == if app.session.now->0.topping_up {
                    "waiting for more of the queue ..."@
                } else {
                    "end of the queue"@
                }
            }
            &&& at == 0 ==> app.advances(-1, auto) == app
        }),
{
    reveal(AppView::advances);
}

/// A track that has played to its end is followed by the next one of the queue,
/// and what was heard of it is reported.
pub proof fn ended_track_is_followed(app: AppView, at: int)
    requires
        app.session.last_state == PlayState::Playing,
        app.seen.state == PlayState::Idle,
        app.seen.error is None,
        app.session.pending is None,
        app.session.now is Some,
        app.session.now->0.playing == Some(at as usize),
        0 <= at,
        at + 1 < app.session.now->0.queue.len() <= usize::MAX,
        app.source.open,
    ensures
        ({
            let next = app.session.now->0.queue[at + 1];
            let after = app.ticks_playback();
            &&& after.session.pending == Some(next.id)
            &&& after.session.auto
            &&& after.commands == app.commands.push(Command::Load { title: next.label_of() })
            &&& after.source.requests.len() >= app.source.requests.len() + reports_of(app) + 3
            &&& reports_of(app) == 1 ==> after.source.requests[app.source.requests.len() as int]
                == (Request::ReportPlay {
                track: (app.session.listening->0).0,
                listened: (app.session.listening->0).1,
            })
            &&& after.source.requests[app.source.requests.len() + reports_of(app)]
                == (Request::Resolve {
                id: next.id,
                title: next.label_of(),
                bypass_cache: false,
            })
        }),
{
    reveal(AppView::advances);
    reveal(AppView::plays);
    reveal(AppView::loads);
    reveal(AppView::heard_out);
    reveal(AppView::asks_tab);
    reveal(AppView::tops_up);
}

/// What has been heard of a track is the furthest that it got while it played.
pub proof fn listening_only_goes_forward(app: AppView)
    requires
        app.session.listening is Some,
        app.seen.state != PlayState::Idle,
    ensures
        ({
            let (track, heard) = app.session.listening->0;
            let after = app.ticks_playback().session.listening;
            &&& after is Some
            &&& (after->0).0 == track
            &&& (after->0).1 >= heard
            &&& (after->0).1 >= app.seen.position
            &&& (after->0).1 == heard || (after->0).1 == app.seen.position
        }),
        app.ticks_playback().session.last_state == app.seen.state,
{
}

/// A stream that arrives for the track being recovered carries it on from where
/// it stopped, and nothing is loaded anew; where none can be had, the player is
/// told.
pub proof fn recovered_track_goes_on(
    app: AppView,
    id: String,
    title: String,
    stream: Result<StreamUrl, String>,
)
    requires
        app.session.resuming is Some,
        app.session.resuming->0.id == id@,
    ensures
        ({
            let after = app.applies(Response::Resolved { id, title, stream });
            &&& after.session.resuming is None
            &&& after.session.pending == app.session.pending
            &&& after.session.now == app.session.now
            &&& after.source == app.source
            &&& after.commands.len() == app.commands.len() + 1
            &&& after.commands.drop_last() == app.commands
            &&& match stream {
                Ok(s) => after.commands.last() == (Command::Resume {
                    url: s.url@,
                    format: s.format,
                    from: app.session.resuming->0.from,
                }),
                Err(_) => after.commands.last() is ResumeFailed,
            }
        }),
{
    reveal(AppView::takes_unasked);
    reveal(AppView::resolves);
    reveal(AppView::recovers);
    let after = app.applies(Response::Resolved { id, title, stream });
    assert(after.commands.drop_last() =~= app.commands);
}

/// A stream that arrives for the track waited for is played.
pub proof fn awaited_stream_is_played(app: AppView, id: String, title: String, stream: StreamUrl)
    requires
        app.session.pending == Some(id@),
        app.session.resuming is None,
    ensures
        ({
            let after = app.applies(
                Response::Resolved { id, title, stream: Ok(stream) },
            );
            &&& after.commands == app.commands.push(
                Command::Play {
                    url: stream.url@,
                    format: stream.format,
                    title: title@,
                    id: id@,
                },
            )
            &&& after.session.pending is None
            &&& after.session.now == app.session.now
            &&& after.session.listening == app.session.listening
            &&& after.source == app.source
        }),
{
    reveal(AppView::takes_unasked);
    reveal(AppView::resolves);
}

/// A stream that the player has lost is resolved afresh, past the cache, and is
/// carried on from where it stopped.
pub proof fn lost_stream_is_resolved_again(app: AppView, id: Seq<char>, from: u64)
    requires
        app.session.listening is Some,
        app.source.open,
    ensures
        ({
            let after = app.resumes(id, from);
            &&& after.source.requests == app.source.requests.push(
                Request::Resolve {
                    id,
                    title: (app.session.listening->0).0.label_of(),
                    bypass_cache: true,
                },
            )
            &&& after.session.resuming == Some(Resuming { id, from })
            &&& after.commands == app.commands
            &&& after.session.listening == app.session.listening
        }),
{
    reveal(AppView::resumes);
}

/// Where a lost stream cannot be had again, the player is told so.
pub proof fn lost_cause_is_reported(app: AppView, id: Seq<char>, from: u64)
    requires
        app.session.listening is None || !app.source.open,
    ensures
        ({
            let after = app.resumes(id, from);
            &&& after.commands.len() == app.commands.len() + 1
            &&& after.commands.last() is ResumeFailed
            &&& after.source == app.source
            &&& after.session == app.session
        }),
{
    reveal(AppView::resumes);
}

/// A track that the queue cannot play is passed over, and the one behind it is
/// asked for.
pub proof fn unplayable_track_is_passed_over(
    app: AppView,
    id: Seq<char>,
    title: Seq<char>,
    why: Seq<char>,
    at: int,
)
    requires
        app.session.pending == Some(id),
        app.session.resuming is None,
        app.session.auto,
        app.session.skips < 3,
        app.session.now is Some,
        app.session.now->0.playing == Some(at as usize),
        0 <= at,
        at + 1 < app.session.now->0.queue.len() <= usize::MAX,
        app.source.open,
    ensures
        app.resolves(id, title, Err(why)).session.pending == Some(
            app.session.now->0.queue[at + 1].id,
        ),
        app.resolves(id, title, Err(why)).session.auto,
        app.resolves(id, title, Err(why)).session.skips == app.session.skips + 1,
        app.resolves(id, title, Err(why)).commands == app.commands.push(
            Command::Load { title: app.session.now->0.queue[at + 1].label_of() },
        ),
{
    reveal(AppView::resolves);
    reveal(AppView::steps_over);
    reveal(AppView::advances);
    reveal(AppView::plays);
    reveal(AppView::loads);
    reveal(AppView::heard_out);
    reveal(AppView::asks_tab);
    reveal(AppView::tops_up);
}

/// The watch answer of a track that came from no queue brings its station: the
/// whole queue as it came, under a new epoch, with the track where it stands in
/// it, the token for more, and what the panels need. The track behind it is then
/// resolved ahead of time.
pub proof fn watch_brings_the_station(
    app: AppView,
    video_id: String,
    watch: Watch,
    askable: bool,
    at: int,
)
    requires
        app.session.now is Some,
        app.session.now->0.video_id == video_id@,
        app.session.now->0.cursor.len() == 4,
        app.session.now->0.queue.len() <= usize::MAX,
        !now_playing::holds(app.session.now->0.queue, video_id@),
        0 <= at < watch.queue@.len() <= usize::MAX,
        watch.queue@[at].id@ == video_id@,
        forall|i: int| 0 <= i < at ==> (#[trigger] watch.queue@[i]).id@ != video_id@,
        app.source.open,
    ensures
        ({
            let after = app.applies(Response::Watch { video_id, watch: Ok(watch), askable });
            let now = after.session.now->0;
            &&& after.session.now is Some
            &&& now.queue.len() == watch.queue@.len()
            &&& forall|i: int| 0 <= i < watch.queue@.len() ==> (#[trigger] now.queue[i]) == watch.queue@[i]@
            &&& now.playing == Some(at as usize)
            &&& now.cursor[0] == at
            &&& now.queue_title == watch.queue_title@
            &&& now.continuation == match watch.continuation {
                Some(token) => Some(token@),
                None => None,
            }
            &&& now.topup_failures == 0
            &&& now.dropped.len() == 0
            &&& now.watched
            &&& now.lyrics_id == match watch.lyrics_id {
                Some(page) => Some(page@),
                None => None,
            }
            &&& now.related_id == match watch.related_id {
                Some(page) => Some(page@),
                None => None,
            }
            &&& now.queue_epoch == after.session.queue_epoch
            &&& after.session.queue_epoch != app.session.queue_epoch
            &&& now.duration == if app.session.now->0.duration is Some {
                app.session.now->0.duration
            } else {
                watch.queue@[at].duration
            }
            &&& after.commands == app.commands
            &&& at + 1 < watch.queue@.len() ==> {
                &&& after.source.requests.len() > app.source.requests.len()
                &&& after.source.requests[app.source.requests.len() as int]
                    == (Request::Prefetch { id: watch.queue@[at + 1].id@ })
            }
            &&& watch.queue@.len() - at - 1 < 5 ==> {
                &&& now.topping_up
                &&& after.source.requests.last() is MoreQueue || after.source.requests.last()
                    is SeedQueue
            }
        }),
{
    reveal(AppView::takes_unasked);
    reveal(AppView::watches);
    reveal(AppView::tops_up);
    let queue = watch@.queue;
    now_playing::position_is_found(app.session.now->0.queue, video_id@);
    match now_playing::position_of(app.session.now->0.queue, video_id@) {
        Some(i) => {
            assert(app.session.now->0.queue[i as int].id == video_id@);
        },
        None => {},
    }
    now_playing::position_is_found(queue, video_id@);
    assert(queue[at].id == video_id@);
    assert(now_playing::holds(queue, video_id@));
    let found = now_playing::position_of(queue, video_id@)->0 as int;
    if found < at {
        assert(watch.queue@[found].id@ != video_id@);
    }
    if at < found {
        assert(queue[at].id != video_id@);
    }
    assert(found == at);
}

/// A watch answer that failed leaves the page without neighbours, and says why
/// nothing related is there.
pub proof fn failed_watch_is_said(app: AppView, video_id: String, why: String, askable: bool)
    requires
        app.session.now is Some,
        app.session.now->0.video_id == video_id@,
    ensures
        ({
            let after = app.applies(Response::Watch { video_id, watch: Err(why), askable });
            let now = after.session.now->0;
            &&& after.session.now is Some
            &&& now.watched
            &&& now.playing is None
            &&& now.related == Panel::<Seq<source::ShelfView>, Seq<char>>::Empty(why@)
            &&& now.lyrics == if askable {
                app.session.now->0.lyrics
            } else {
                Panel::<Lyrics, Seq<char>>::Empty(why@)
            }
            &&& now.queue == app.session.now->0.queue
            &&& after.commands == app.commands
            &&& after.source == app.source
        }),
{
    reveal(AppView::takes_unasked);
    reveal(AppView::watches);
}

/// A page of new tracks that was asked for by the queue on screen is taken on
/// behind it, with the token for the one after; the queue is free to ask again,
/// and the track that now comes next is resolved ahead of time.
pub proof fn page_extends_the_queue(app: AppView, page: QueuePage)
    requires
        app.session.now is Some,
        app.session.now->0.wf(),
        app.session.now->0.playing is Some,
        app.session.now->0.queue.len() - app.session.now->0.playing->0 - 1 < 5,
        0 < page.tracks@.len() <= 60,
        forall|i: int, j: int|
            0 <= i < j < page.tracks@.len() ==> (#[trigger] page.tracks@[i]).id@ != (
            #[trigger] page.tracks@[j]).id@,
        forall|i: int|
            0 <= i < page.tracks@.len() ==> !now_playing::holds(
                app.session.now->0.queue,
                (#[trigger] page.tracks@[i]).id@,
            ) && !app.session.now->0.dropped.contains(page.tracks@[i].id@),
        app.source.open,
        app.session.pending is Some || app.seen.state != PlayState::Idle,
    ensures
        ({
            let before = app.session.now->0;
            let after = app.applies(
                Response::MoreQueue { epoch: before.queue_epoch, page: Ok(page) },
            );
            let now = after.session.now->0;
            &&& after.session.now is Some
            &&& now.queue.len() == before.queue.len() + page.tracks@.len()
            &&& forall|i: int|
                0 <= i < before.queue.len() ==> (#[trigger] now.queue[i]) == before.queue[i]
            &&& forall|i: int|
                0 <= i < page.tracks@.len() ==> now.queue[before.queue.len() + i]
                    == #[trigger] page.tracks@[i]@
            &&& now.playing == before.playing
            &&& now.continuation == match page.continuation {
                Some(token) => Some(token@),
                None => None,
            }
            &&& !now.topping_up
            &&& now.topup_failures == 0
            &&& after.commands == app.commands
            &&& after.source.requests == app.source.requests.push(
                Request::Prefetch { id: now.queue[before.playing->0 + 1].id },
            )
        }),
{
    reveal(AppView::takes_unasked);
    reveal(AppView::takes_page);
    let before = NowView { topping_up: false, ..app.session.now->0 };
    let tracks = page@.tracks;
    assert forall|i: int, j: int| 0 <= i < j < tracks.len() implies (#[trigger] tracks[i]).id != (
    #[trigger] tracks[j]).id by {
        assert(page.tracks@[i].id@ != page.tracks@[j].id@);
    }
    assert forall|i: int| 0 <= i < tracks.len() implies !now_playing::holds(
        before.queue,
        (#[trigger] tracks[i]).id,
    ) && !before.dropped.contains(tracks[i].id) by {
        assert(!now_playing::holds(before.queue, page.tracks@[i].id@));
    }
    now_playing::whole_page_fits_when_low(before, tracks);
    assert(before.with_tracks(tracks).queue == before.queue + tracks);
}

/// A queue that had run dry while nothing plays and nothing is waited for goes
/// on by itself when a page arrives: with the first track of the page.
pub proof fn dry_queue_starts_again(app: AppView, page: PageView)
    requires
        app.session.now is Some,
        app.session.now->0.wf(),
        app.session.now->0.playing is Some,
        app.session.now->0.playing->0 + 1 == app.session.now->0.queue.len(),
        app.session.pending is None,
        app.seen.state == PlayState::Idle,
        app.source.open,
        0 < page.tracks.len() <= 60,
        forall|i: int, j: int|
            0 <= i < j < page.tracks.len() ==> (#[trigger] page.tracks[i]).id != (
            #[trigger] page.tracks[j]).id,
        forall|i: int|
            0 <= i < page.tracks.len() ==> !now_playing::holds(
                app.session.now->0.queue,
                (#[trigger] page.tracks[i]).id,
            ) && !app.session.now->0.dropped.contains(page.tracks[i].id),
    ensures
        app.takes_page(app.session.now->0.queue_epoch, Ok(page)).session.pending == Some(
            page.tracks[0].id,
        ),
{
    reveal(AppView::takes_page);
    reveal(AppView::advances);
    reveal(AppView::plays);
    reveal(AppView::loads);
    reveal(AppView::heard_out);
    reveal(AppView::asks_tab);
    reveal(AppView::tops_up);
    let before = NowView { topping_up: false, ..app.session.now->0 };
    now_playing::whole_page_fits_when_low(before, page.tracks);
    assert(before.with_tracks(page.tracks).queue == before.queue + page.tracks);
}

/// A failed page frees the queue to ask again, and is counted.
pub proof fn failed_page_is_counted(app: AppView, why: Seq<char>)
    requires
        app.session.now is Some,
        app.session.now->0.topup_failures < u8::MAX,
    ensures
        ({
            let before = app.session.now->0;
            let after = app.takes_page(before.queue_epoch, Err(why));
            after == (AppView {
                session: SessionView {
                    now: Some(
                        NowView {
                            topping_up: false,
                            topup_failures: (before.topup_failures + 1) as u8,
                            ..before
                        },
                    ),
                    ..app.session
                },
                ..app
            })
        }),
{
    reveal(AppView::takes_page);
}

/// An open tab asks for its panel the first time it can: the comments at once,
/// the related music by its page, and the lyrics once the watch answer is in.
/// The panel then loads, so that it is not asked for again.
pub proof fn open_tab_asks_for_its_panel(app: AppView)
    requires
        app.session.now is Some,
        app.source.open,
    ensures
        ({
            let now = app.session.now->0;
            let after = app.asks_tab();
            let sent = after.source.requests;
            let page = after.session.now->0;
            let wants = (now.tab == Tab::Comments && now.comments is Idle) || (now.tab
                == Tab::Related && now.related is Idle && now.related_id is Some) || (now.tab
                == Tab::Lyrics && now.lyrics is Idle && now.watched);
            &&& after.commands == app.commands
            &&& !wants ==> after == app
            &&& wants ==> {
                &&& sent.len() == app.source.requests.len() + 1
                &&& sent.drop_last() == app.source.requests
                &&& match now.tab {
                    Tab::Comments => sent.last() == (Request::Comments { video_id: now.video_id })
                        && page.comments is Loading,
                    Tab::Related => sent.last() == (Request::Related {
                        video_id: now.video_id,
                        browse_id: now.related_id->0,
                    }) && page.related is Loading,
                    Tab::Lyrics => page.lyrics is Loading && match sent.last() {
                        Request::Lyrics { video_id, page_id, asked } => video_id == now.video_id
                            && page_id == now.lyrics_id && asked.artist == now.artist
                            && asked.title == now.title && asked.album == now.album
                            && asked.duration == now.duration,
                        _ => false,
                    },
                    Tab::UpNext => false,
                }
            }
            &&& after.asks_tab() == after
        }),
{
    reveal(AppView::asks_tab);
    let after = app.asks_tab();
    assert(after.source.requests.len() > app.source.requests.len()
        ==> after.source.requests.drop_last() =~= app.source.requests);
}

/// A selection that has rested for 400 milliseconds with nothing else going on
/// is resolved ahead of time, once.
pub proof fn rested_selection_is_warmed(app: AppView)
    requires
        app.screen.view == View::Tracks,
        app.list.selected < app.list.results.len(),
        app.screen.selection_settled is Some,
        app.clock >= app.screen.selection_settled->0 + 400_000_000,
        !app.screen.busy,
        app.session.pending is None,
        app.session.prefetching is None,
        app.screen.overlay is Closed,
        app.source.open,
        app.session.ready != Some(app.list.results[app.list.selected as int].id),
    ensures
        ({
            let id = app.list.results[app.list.selected as int].id;
            let after = app.ticks_prefetch();
            &&& after.source.requests == app.source.requests.push(Request::Prefetch { id })
            &&& after.session.prefetching == Some(id)
            &&& after.screen.selection_settled is None
            &&& after.commands == app.commands
            &&& after.ticks_prefetch() == after
        }),
{
}

/// A selection that has not rested long enough is left alone.
pub proof fn restless_selection_is_left_alone(app: AppView)
    requires
        app.screen.selection_settled is Some ==> app.clock < app.screen.selection_settled->0
            + 400_000_000,
    ensures
        app.ticks_prefetch() == app,
{
}

/// What was resolved ahead of time is remembered as ready, and the way is free
/// for the next.
pub proof fn warmed_track_is_ready(app: AppView, id: String, ready: bool)
    requires
        app.session.prefetching == Some(id@),
    ensures
        ({
            let after = app.applies(Response::Prefetched { id, ready });
            &&& after.session.prefetching is None
            &&& ready ==> after.session.ready == Some(id@)
            &&& !ready ==> after.session.ready != Some(id@)
            &&& after.source == app.source
            &&& after.commands == app.commands
        }),
{
    reveal(AppView::takes_unasked);
    reveal(AppView::prefetched);
}

/// The cover of the track on screen is shown as it came.
pub proof fn cover_is_shown(app: AppView, id: String, art: Option<Cover>)
    requires
        app.pictures.cover_id == Some(id@),
    ensures
        ({
            let after = app.applies(Response::Cover { id, art });
            &&& after.pictures.cover == art
            &&& after.pictures.cover_id == app.pictures.cover_id
            &&& after.session == app.session
            &&& after.screen == app.screen
        }),
{
    reveal(AppView::takes_unasked);
    reveal(AppView::covered);
}

/// The results of a search are listed from their top, the wait is over, and the
/// keyboard goes to them where there are any.
pub proof fn results_are_listed(app: AppView, tracks: Vec<source::Track>)
    ensures
        ({
            let after = app.applies(Response::Results(tracks));
            &&& listed(after, tracks@)
            &&& !after.screen.busy
            &&& after.list.open_playlist is None
            &&& after.list.browsing is None
            &&& after.list.query == app.list.query
            &&& tracks@.len() > 0 ==> after.screen.mode == Mode::Browse
            &&& tracks@.len() == 0 ==> after.screen.status == "no results"@
            &&& after.session == app.session
            &&& after.commands == app.commands
        }),
{
    reveal(AppView::takes_list);
    reveal(AppView::takes_results);
}

/// Whether the track list shows these tracks, from its top.
pub open spec fn listed(app: AppView, tracks: Seq<source::Track>) -> bool {
    &&& app.screen.view == View::Tracks
    &&& app.list.results.len() == tracks.len()
    &&& forall|i: int| 0 <= i < tracks.len() ==> (#[trigger] app.list.results[i]) == tracks[i]@
    &&& app.list.selected == 0
    &&& app.list.offset == 0
    &&& app.screen.selection_settled == Some(app.clock)
}

/// What was opened from the landing page is listed under its title.
pub proof fn opened_card_is_listed(app: AppView, title: String, tracks: Vec<source::Track>)
    ensures
        ({
            let after = app.applies(Response::Browsed { title, tracks });
            &&& listed(after, tracks@)
            &&& !after.screen.busy
            &&& after.list.open_playlist is None
            &&& after.list.browsing == Some(title@)
            &&& after.screen.mode == Mode::Browse
        }),
{
    reveal(AppView::takes_list);
    reveal(AppView::takes_browsed);
}

/// The tracks of a playlist are listed, and it is known which playlist they are
/// of.
pub proof fn opened_playlist_is_listed(
    app: AppView,
    id: String,
    title: String,
    tracks: Vec<source::Track>,
)
    ensures
        ({
            let after = app.applies(Response::PlaylistTracks { id, title, tracks });
            &&& listed(after, tracks@)
            &&& !after.screen.busy
            &&& after.list.open_playlist == Some((id@, title@))
            &&& after.list.browsing is None
            &&& tracks@.len() > 0 ==> after.screen.mode == Mode::Browse
        }),
{
    reveal(AppView::takes_list);
    reveal(AppView::takes_tracks);
}

/// A landing page takes the place of the one before it, from its top: the same
/// shelves, and as they came where no titles have a place of their own.
pub proof fn landing_page_is_shown(app: AppView, shelves: Vec<Shelf>)
    ensures
        ({
            let after = app.applies(Response::Home(shelves));
            &&& !after.home.pending
            &&& !after.screen.busy
            &&& after.home.shelves.to_multiset() == source::views(shelves@).to_multiset()
            &&& after.home.shelves.len() == shelves@.len()
            &&& after.home.scroll.len() == shelves@.len()
            &&& (after.home.shelf, after.home.card, after.home.top) == (0usize, 0usize, 0usize)
            &&& app.home.order.len() == 0 ==> forall|i: int|
                0 <= i < shelves@.len() ==> (#[trigger] after.home.shelves[i]) == shelves@[i]@
            &&& after.screen.selection_settled == Some(app.clock)
        }),
{
    reveal(AppView::takes_list);
    reveal(AppView::takes_home);
    super::shelves::ordering_keeps_the_shelves(source::views(shelves@), app.home.order);
    if app.home.order.len() == 0 {
        super::shelves::no_list_moves_nothing(source::views(shelves@), app.home.order);
    }
}

/// The playlists are held and shown, from their top, unless a picker waits for
/// them, which then has them to pick from.
pub proof fn playlists_are_shown(app: AppView, playlists: Vec<Playlist>)
    ensures
        ({
            let after = app.applies(Response::Playlists(playlists));
            &&& after.library.playlists.len() == playlists@.len()
            &&& forall|i: int|
                0 <= i < playlists@.len() ==> (#[trigger] after.library.playlists[i])
                    == playlists@[i]@
            &&& after.library.selected == 0
            &&& after.library.offset == 0
            &&& after.screen.signed_in
            &&& !after.screen.busy
            &&& app.screen.overlay is AddTo ==> after.screen.view == app.screen.view
                && after.screen.overlay == app.screen.overlay
            &&& !(app.screen.overlay is AddTo) && playlists@.len() > 0 ==> after.screen.view
                == View::Playlists && after.screen.mode == Mode::Browse
        }),
{
    reveal(AppView::takes_account);
    reveal(AppView::takes_playlists);
}

proof fn lemma_without_row(tracks: Seq<Track<Seq<char>>>, row: Seq<char>)
    ensures
        ({
            let kept = super::respond::without_row(tracks, row);
            &&& kept.len() <= tracks.len()
            &&& forall|i: int| 0 <= i < kept.len() ==> (#[trigger] kept[i]).playlist_item_id != Some(row)
            &&& forall|i: int| 0 <= i < kept.len() ==> tracks.contains(#[trigger] kept[i])
            &&& forall|i: int|
                0 <= i < tracks.len() && (#[trigger] tracks[i]).playlist_item_id != Some(row)
                    ==> kept.contains(tracks[i])
        }),
    decreases tracks.len(),
{
    if tracks.len() > 0 {
        let init = tracks.drop_last();
        lemma_without_row(init, row);
        let before = super::respond::without_row(init, row);
        let kept = super::respond::without_row(tracks, row);
        assert forall|i: int| 0 <= i < kept.len() implies tracks.contains(#[trigger] kept[i]) by {
            if i < before.len() {
                assert(init.contains(before[i]));
                let k = choose|k: int| 0 <= k < init.len() && init[k] == before[i];
                assert(tracks[k] == kept[i]);
            } else {
                assert(tracks[tracks.len() - 1] == kept[i]);
            }
        }
        assert forall|i: int|
            0 <= i < tracks.len() && (#[trigger] tracks[i]).playlist_item_id != Some(
                row,
            ) implies kept.contains(tracks[i]) by {
            if i < tracks.len() - 1 {
                assert(init[i] == tracks[i]);
                assert(before.contains(init[i]));
                let k = choose|k: int| 0 <= k < before.len() && before[k] == init[i];
                assert(kept[k] == tracks[i]);
            } else {
                assert(kept[kept.len() - 1] == tracks[i]);
            }
        }
    }
}

/// A row that was removed from a playlist leaves the list, every other stays,
/// and the selection stays on a row.
pub proof fn removed_row_leaves_the_list(app: AppView, playlist_item_id: String, title: String)
    requires
        app.list.results.len() <= usize::MAX,
    ensures
        ({
            let after = app.applies(Response::Removed { playlist_item_id, title });
            let rows = after.list.results;
            &&& forall|i: int|
                0 <= i < rows.len() ==> (#[trigger] rows[i]).playlist_item_id != Some(
                    playlist_item_id@,
                )
            &&& forall|i: int|
                0 <= i < app.list.results.len() && (#[trigger] app.list.results[i]).playlist_item_id
                    != Some(playlist_item_id@) ==> rows.contains(app.list.results[i])
            &&& forall|i: int| 0 <= i < rows.len() ==> app.list.results.contains(#[trigger] rows[i])
            &&& rows.len() > 0 ==> after.list.selected < rows.len()
            &&& !after.screen.busy
        }),
{
    reveal(AppView::takes_list);
    reveal(AppView::removes);
    lemma_without_row(app.list.results, playlist_item_id@);
}

/// What was done or has failed is said, and the wait is over.
pub proof fn outcomes_are_said(app: AppView, msg: String)
    ensures
        app.applies(Response::Done(msg)).screen.status == msg@,
        !app.applies(Response::Done(msg)).screen.busy,
        !app.applies(Response::Failed(msg)).screen.busy,
        !app.applies(Response::Failed(msg)).home.pending,
        !msg@.contains('\n') ==> app.applies(Response::Failed(msg)).screen.status == msg@,
        msg@.contains('\n') ==> app.applies(Response::Failed(msg)).screen.overlay
            == (Overlay::<Seq<char>>::Message { body: msg@ }),
{
    reveal(AppView::takes_list);
    reveal(AppView::fails);
}

/// A sign-in that succeeded closes its panel and asks for the playlists; one that
/// failed says why and leaves the user signed out; signing out forgets the
/// playlists, and the one on screen with them.
pub proof fn account_is_followed(app: AppView, msg: String)
    ensures
        ({
            let signed = app.applies(Response::SignedIn);
            &&& signed.screen.signed_in
            &&& signed.screen.overlay is Closed
            &&& app.source.open ==> signed.source.requests == app.source.requests.push(
                Request::Playlists,
            )
        }),
        ({
            let refused = app.applies(Response::SignInFailed(msg));
            &&& !refused.screen.signed_in
            &&& !msg@.contains('\n') ==> refused.screen.overlay == Overlay::SignIn(
                SignIn::Failed { reason: msg@ },
            )
            &&& msg@.contains('\n') ==> refused.screen.overlay == (Overlay::<
                Seq<char>,
            >::Message { body: msg@ })
        }),
        ({
            let out = app.applies(Response::SignedOut);
            &&& !out.screen.signed_in
            &&& out.library.playlists.len() == 0
            &&& out.list.open_playlist is None
            &&& app.list.open_playlist is Some ==> out.list.results.len() == 0
            &&& app.list.open_playlist is None ==> out.list.results == app.list.results
            &&& out.session == app.session
            &&& out.commands == app.commands
        }),
        ({
            let needed = app.applies(Response::NeedsSignIn);
            &&& !needed.screen.signed_in
            &&& app.source.open ==> needed.source.requests == app.source.requests.push(
                Request::SignIn,
            )
        }),
{
    reveal(AppView::takes_account);
    reveal(AppView::is_signed_in);
    reveal(AppView::is_refused);
    reveal(AppView::signs_out);
}

/// The code that the user has to type in is put on screen, with where to type it.
pub proof fn code_is_shown(app: AppView, user_code: String, url: String, expires_in: u64)
    requires
        app.clock + expires_in * 1_000_000_000 <= u64::MAX,
    ensures
        app.applies(Response::DeviceCode { user_code, url, expires_in }).screen.overlay
            == Overlay::SignIn(
            SignIn::Waiting {
                user_code: user_code@,
                url: url@,
                deadline: (app.clock + expires_in * 1_000_000_000) as u64,
            },
        ),
{
    reveal(AppView::takes_account);
    reveal(AppView::takes_code);
}

/// A session that was imported is put to use: the landing page is asked for
/// again, with the personal shelves behind it, and no other session is imported.
pub proof fn imported_session_is_used(app: AppView, browser: String)
    requires
        app.source.open,
        app.home.imported,
    ensures
        ({
            let after = app.applies(Response::CookiesImported(browser));
            &&& after.source.requests == app.source.requests.push(Request::Home).push(
                Request::PersonalShelves { rotation: app.home.rotation },
            )
            &&& after.home.pending
            &&& after.home.shelves == app.home.shelves
        }),
{
    reveal(AppView::takes_list);
    reveal(AppView::takes_session);
}

/// The program starts on the landing page, signed in or not as it was told, with
/// nothing playing, and asks for the page, for the personal shelves and for a
/// session, in this order.
pub proof fn program_starts_at_home(
    graphics: crate::graphics::Graphics,
    signed_in: bool,
    presence: crate::discord::PresenceView,
    seen: crate::player::SnapshotView,
    clock: u64,
)
    ensures
        ({
            let app = AppView::fresh(graphics, signed_in, presence, seen, clock, true).asks_home();
            &&& app.screen.view == View::Home
            &&& app.screen.mode == Mode::Browse
            &&& app.screen.signed_in == signed_in
            &&& !app.screen.should_quit
            &&& app.session.now is None
            &&& app.session.pending is None
            &&& app.commands.len() == 0
            &&& app.source.requests.len() == 3
            &&& app.source.requests[0] == Request::<Seq<char>>::Home
            &&& app.source.requests[1] is PersonalShelves
            &&& app.source.requests[2] == (Request::<Seq<char>>::ImportCookies { force: false })
            &&& app.home.pending
            &&& app.presence == presence
            &&& app.pictures.graphics == graphics
        }),
{
}

/// The card of the profile says what plays: the track, and, while the bar can
/// move, when it began and when it will end. There is none while nothing plays.
pub proof fn card_says_what_plays(app: AppView, now_ms: u64)
    requires
        app.seen.position / 1_000_000 <= now_ms,
    ensures
        app.session.now is None || app.seen.state == PlayState::Idle ==> app.activity_at(now_ms)
            is None,
        app.session.now is Some && app.seen.state != PlayState::Idle ==> {
            let now = app.session.now->0;
            let card = app.activity_at(now_ms)->0;
            &&& app.activity_at(now_ms) is Some
            &&& card.video_id == now.video_id
            &&& card.title == now.title
            &&& now.artist != "unknown"@ ==> card.artist == now.artist
            &&& now.artist == "unknown"@ ==> card.artist.len() == 0
            &&& card.album == now.album
            &&& card.paused == (app.seen.state == PlayState::Paused)
            &&& card.clock is Some == (app.seen.state == PlayState::Playing)
            &&& card.clock is Some ==> {
                let clock = card.clock->0;
                &&& clock.start_ms + app.seen.position / 1_000_000 == now_ms
                &&& clock.end_ms is Some == now.duration is Some
                &&& now.duration is Some && clock.start_ms + now.duration->0 / 1_000_000
                    <= u64::MAX ==> clock.end_ms->0 - clock.start_ms == now.duration->0
                    / 1_000_000
            }
        },
{
}

/// Offering the card hands the worker exactly what should be showing.
pub proof fn card_is_offered(app: AppView, now_ms: u64)
    requires
        app.presence.enabled,
        app.presence.last is None,
        app.activity_at(now_ms) is Some,
    ensures
        app.presents(now_ms).presence.outbox == app.presence.outbox.push(
            crate::discord::Message::Show(app.activity_at(now_ms)->0),
        ),
        app.presents(now_ms).presence.last == app.activity_at(now_ms),
{
}

/// Each card on screen whose picture is neither held nor asked for is asked for,
/// by its own key and address.
pub proof fn missing_pictures_are_asked_for(app: AppView, key: Seq<char>, url: Seq<char>)
    requires
        app.source.open,
        !crate::art::has_key(app.pictures.art, key),
    ensures
        app.wants_art(seq![(key, url)]).source.requests == app.source.requests.push(
            Request::Art { key, url },
        ),
{
    reveal_with_fuel(AppView::wants_art, 2);
    let one = seq![(key, url)];
    assert(one.drop_last() =~= Seq::<(Seq<char>, Seq<char>)>::empty());
}

/// The watch answer of a track that is in its queue keeps that queue: the track is
/// found in it, and only what the answer says of the track itself is taken.
pub proof fn watch_keeps_the_queue(
    app: AppView,
    video_id: String,
    watch: Watch,
    askable: bool,
    at: int,
)
    requires
        app.session.now is Some,
        app.session.now->0.video_id == video_id@,
        0 <= at < app.session.now->0.queue.len() <= usize::MAX,
        app.session.now->0.queue[at].id == video_id@,
        forall|i: int|
            0 <= i < at ==> (#[trigger] app.session.now->0.queue[i]).id != video_id@,
        app.source.open,
    ensures
        ({
            let before = app.session.now->0;
            let after = app.applies(Response::Watch { video_id, watch: Ok(watch), askable });
            let now = after.session.now->0;
            &&& after.session.now is Some
            &&& now.queue == before.queue
            &&& now.playing == Some(at as usize)
            &&& now.queue_epoch == before.queue_epoch
            &&& now.continuation == before.continuation
            &&& now.cursor == before.cursor
            &&& now.watched
            &&& now.lyrics_id == text_of(watch.lyrics_id)
            &&& now.related_id == text_of(watch.related_id)
            &&& watch.lyrics_id is None && !askable ==> now.lyrics is Empty
            &&& watch.lyrics_id is Some || askable ==> now.lyrics == before.lyrics
            &&& watch.related_id is None ==> now.related is Empty
            &&& watch.related_id is Some ==> now.related == before.related
            &&& at + 1 < before.queue.len() ==> after.source.requests.len()
                > app.source.requests.len()
                && after.source.requests[app.source.requests.len() as int] == (Request::Prefetch {
                id: before.queue[at + 1].id,
            })
        }),
{
    reveal(AppView::takes_unasked);
    reveal(AppView::watches);
    reveal(AppView::tops_up);
    let queue = app.session.now->0.queue;
    now_playing::position_is_found(queue, video_id@);
    assert(now_playing::holds(queue, video_id@));
    let found = now_playing::position_of(queue, video_id@)->0 as int;
    if at < found {
        assert(queue[at].id != video_id@);
    }
    if found < at {
        assert(queue[found].id != video_id@);
    }
}

/// What an optional text says.
pub open spec fn text_of(s: Option<String>) -> Option<Seq<char>> {
    match s {
        Some(s) => Some(s@),
        None => None,
    }
}

/// A track that the user chose and that cannot be played is not passed over: the
/// player stops, nothing is waited for, and the user is told why.
pub proof fn refused_choice_is_told(app: AppView, id: String, title: String, why: String)
    requires
        app.session.pending == Some(id@),
        app.session.resuming is None,
        !app.session.auto,
    ensures
        ({
            let after = app.applies(Response::Resolved { id, title, stream: Err(why) });
            &&& after.commands == app.commands.push(Command::Stop)
            &&& after.session.pending is None
            &&& after.session.now == app.session.now
            &&& after.source == app.source
            &&& !why@.contains('\n') ==> after.screen.status == why@
            &&& why@.contains('\n') ==> after.screen.overlay == (Overlay::<Seq<char>>::Message {
                body: why@,
            })
        }),
{
    reveal(AppView::takes_unasked);
    reveal(AppView::resolves);
}

/// Whether a track is liked now is said with its title.
pub proof fn likes_are_said(app: AppView, title: String)
    ensures
        app.applies(Response::Liked { title, liked: true }).screen.status == "liked "@ + title@,
        app.applies(Response::Liked { title, liked: false }).screen.status == "unliked "@ + title@,
        !app.applies(Response::Liked { title, liked: true }).screen.busy,
        app.applies(Response::Liked { title, liked: true }).session == app.session,
{
    reveal(AppView::takes_list);
    reveal(AppView::likes);
}

/// Without the worker nothing is asked and nothing is waited for, and that is
/// said.
pub proof fn nothing_is_asked_without_a_worker(app: AppView, request: Request<Seq<char>>)
    requires
        !app.source.open,
    ensures
        app.asks(request).source == app.source,
        !app.asks(request).screen.busy,
        app.asks(request).screen.status == "source worker is not running"@,
        app.asks_home().source == app.source,
        !app.asks_home().home.pending,
        app.tops_up().source == app.source,
        app.session.now is Some ==> app.tops_up().session.now is Some
            && !(app.tops_up().session.now->0.topping_up && !app.session.now->0.topping_up),
{
    reveal(AppView::tops_up);
}

/// Lyrics that could not be asked for before are asked for as soon as the watch
/// answer is in and their tab is open.
pub proof fn open_lyrics_are_fetched(app: AppView)
    requires
        app.session.now is Some,
        app.session.now->0.tab == Tab::Lyrics,
        app.session.now->0.lyrics is Idle,
        app.session.now->0.watched,
        app.source.open,
    ensures
        ({
            let after = app.ticks_page();
            let now = app.session.now->0;
            &&& after.session.now is Some
            &&& after.session.now->0.lyrics is Loading
            &&& after.source.requests.len() == app.source.requests.len() + 1
            &&& after.source.requests.last() matches Request::Lyrics { video_id, page_id, .. }
                && video_id == now.video_id && page_id == now.lyrics_id
        }),
{
    reveal(AppView::asks_tab);
}

/// The list pane is called after what it shows.
pub proof fn panes_are_called_after_what_they_show(app: AppView)
    ensures
        app.screen.view == View::Tracks && app.list.open_playlist is Some ==> app.title_of() == " "@
            + (app.list.open_playlist->0).1 + " "@,
        app.screen.view == View::Tracks && app.list.open_playlist is None && app.list.browsing
            is Some ==> app.title_of() == " "@ + app.list.browsing->0 + " "@,
        app.screen.view == View::Tracks && app.list.open_playlist is None && app.list.browsing
            is None ==> app.title_of() == " results "@,
{
}

/// The user waits while a request of theirs is out, and while a track of theirs is
/// on its way.
pub proof fn waiting_is_known(app: AppView)
    ensures
        app.waits() <==> app.screen.busy || app.session.pending is Some,
{
}

/// The picture of a card on screen is held once it has come, and shown for that
/// card.
pub proof fn pictures_are_filed(app: AppView, key: String, url: Seq<char>, cover: Cover)
    requires
        crate::art::distinct(app.pictures.art),
    ensures
        ({
            let wanted = app.wants_art(seq![(key@, url)]);
            let after = wanted.applies(Response::Art { key, art: Some(cover) });
            &&& crate::art::picture(after.pictures.art, key@) == Some(cover)
            &&& after.session == app.session
            &&& after.screen == app.screen
        }),
{
    reveal(AppView::takes_unasked);
    reveal(AppView::files);
    let one = seq![(key@, url)];
    assert(one.drop_last() =~= Seq::<(Seq<char>, Seq<char>)>::empty());
    reveal_with_fuel(AppView::wants_art, 2);
    crate::art::stored_picture_comes_back(app.pictures.art, key@, cover);
}

/// A track that the queue cannot play and that has none behind it ends the music:
/// the player stops, and nothing is waited for.
pub proof fn last_unplayable_track_ends_the_music(
    app: AppView,
    id: Seq<char>,
    title: Seq<char>,
    why: Seq<char>,
    at: int,
)
    requires
        app.session.pending == Some(id),
        app.session.resuming is None,
        app.session.auto,
        app.session.skips < 3,
        app.session.now is Some,
        app.session.now->0.playing == Some(at as usize),
        0 <= at,
        at + 1 == app.session.now->0.queue.len() <= usize::MAX,
    ensures
        app.resolves(id, title, Err(why)).session.pending is None,
        app.resolves(id, title, Err(why)).commands == app.commands.push(Command::Stop),
        app.resolves(id, title, Err(why)).source == app.source,
{
    reveal(AppView::resolves);
    reveal(AppView::steps_over);
    reveal(AppView::advances);
}

/// After three tracks in a row that would not play the queue gives up, and says
/// why.
pub proof fn queue_gives_up_after_three(
    app: AppView,
    id: Seq<char>,
    title: Seq<char>,
    why: Seq<char>,
)
    requires
        app.session.pending == Some(id),
        app.session.resuming is None,
        app.session.auto,
        app.session.skips >= 3,
    ensures
        app.resolves(id, title, Err(why)).session.pending is None,
        app.resolves(id, title, Err(why)).commands == app.commands.push(Command::Stop),
        !app.resolves(id, title, Err(why)).session.auto,
        !why.contains('\n') ==> app.resolves(id, title, Err(why)).screen.status == why,
{
    reveal(AppView::resolves);
}

/// A page that brings nothing new plays nothing and asks for nothing: the queue
/// stays, its token is gone, and it counts as a failure.
pub proof fn barren_page_plays_nothing(app: AppView, page: PageView)
    requires
        app.session.now is Some,
        app.session.now->0.topup_failures < u8::MAX,
        forall|i: int|
            0 <= i < page.tracks.len() ==> now_playing::holds(
                app.session.now->0.queue,
                (#[trigger] page.tracks[i]).id,
            ) || app.session.now->0.dropped.contains(page.tracks[i].id),
    ensures
        ({
            let before = app.session.now->0;
            let after = app.takes_page(before.queue_epoch, Ok(page));
            &&& after.commands == app.commands
            &&& after.source == app.source
            &&& after.session.pending == app.session.pending
            &&& after.session.now == Some(
                NowView {
                    topping_up: false,
                    continuation: None,
                    topup_failures: (before.topup_failures + 1) as u8,
                    ..before
                },
            )
        }),
{
    reveal(AppView::takes_page);
    let before = NowView { topping_up: false, ..app.session.now->0 };
    now_playing::barren_page_counts_as_a_failure(before, page);
}

/// A selection that is known to play at once is not asked for again.
pub proof fn ready_selection_is_not_asked_for(app: AppView)
    requires
        app.screen.view == View::Tracks,
        app.list.selected < app.list.results.len(),
        app.session.ready == Some(app.list.results[app.list.selected as int].id),
    ensures
        app.ticks_prefetch().source == app.source,
        app.ticks_prefetch().session == app.session,
{
}

} // verus!
