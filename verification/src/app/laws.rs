//! What holds of the program as a whole.

use vstd::prelude::*;

use super::respond;
use super::shelves;
use super::{AppView, HomeView, Mode, MAX_AUTO_SKIPS};
use crate::keys::{KeyCode, KeyEvent};
use crate::now_playing::Panel;
use crate::player::Command;
use crate::resolver::ResolvedStream;
use crate::source::{Card, Comments, Lyrics, PageView, Response, ShelfView, WatchView};

verus! {

/// A play is reported once, however many paths end it.
pub proof fn play_is_reported_once(app: AppView)
    ensures
        app.heard_out().heard_out() == app.heard_out(),
        app.heard_out().session.listening is None,
{
    reveal(AppView::heard_out);
}

/// A track that made no sound is not reported.
pub proof fn silence_is_not_reported(app: AppView)
    requires
        app.session.listening is Some,
        (app.session.listening->0).1 == 0,
    ensures
        app.heard_out().source == app.source,
{
    reveal(AppView::heard_out);
}

/// A stream for a track that is neither waited for nor being recovered starts
/// nothing.
pub proof fn late_streams_are_dropped(
    app: AppView,
    id: Seq<char>,
    title: Seq<char>,
    stream: Result<ResolvedStream<Seq<char>>, Seq<char>>,
)
    requires
        app.session.pending != Some(id),
        app.session.resuming is Some ==> app.session.resuming->0.id != id,
    ensures
        app.resolves(id, title, stream) == app,
{
    reveal(AppView::resolves);
}

/// After a stop nothing starts by itself: whatever stream, page of the queue or
/// page around a track still arrives, the player is sent nothing.
pub proof fn stop_is_final(
    app: AppView,
    id: Seq<char>,
    title: Seq<char>,
    stream: Result<ResolvedStream<Seq<char>>, Seq<char>>,
    epoch: u64,
    page: Result<PageView, Seq<char>>,
    watch: Result<WatchView, Seq<char>>,
    askable: bool,
)
    ensures
        app.stops().resolves(id, title, stream) == app.stops(),
        app.stops().takes_page(epoch, page) == app.stops(),
        app.stops().watches(id, watch, askable).commands == app.stops().commands,
        app.stops().ticks_playback().commands == app.stops().commands,
{
    reveal(AppView::stops);
    reveal(AppView::heard_out);
    reveal(AppView::resolves);
    reveal(AppView::takes_page);
    reveal(AppView::watches);
    reveal(AppView::advances);
}

/// What arrives for a track that has left the page changes no page.
pub proof fn late_panels_are_dropped(
    app: AppView,
    id: Seq<char>,
    lyrics: Panel<Lyrics, Seq<char>>,
    comments: Panel<Comments, Seq<char>>,
    related: Panel<Seq<ShelfView>, Seq<char>>,
    watch: Result<WatchView, Seq<char>>,
    askable: bool,
)
    requires
        !app.shows(id),
    ensures
        app.lyrics_shown(id, lyrics) == app,
        app.comments_shown(id, comments) == app,
        app.related_shown(id, related) == app,
        app.watches(id, watch, askable).session.now == app.session.now,
        app.watches(id, watch, askable).source == app.source,
{
    reveal(AppView::lyrics_shown);
    reveal(AppView::comments_shown);
    reveal(AppView::related_shown);
    reveal(AppView::watches);
}

/// A page that was asked for by a queue since replaced is dropped.
pub proof fn late_pages_are_dropped(
    app: AppView,
    epoch: u64,
    page: Result<PageView, Seq<char>>,
)
    requires
        app.session.now is Some ==> app.session.now->0.queue_epoch != epoch,
    ensures
        app.takes_page(epoch, page) == app,
{
    reveal(AppView::takes_page);
}

/// A cover of another track than the one on screen is dropped.
pub proof fn late_covers_are_dropped(
    app: AppView,
    id: Seq<char>,
    art: Option<crate::cover::Cover>,
)
    requires
        app.pictures.cover_id != Some(id),
    ensures
        app.covered(id, art) == app,
{
    reveal(AppView::covered);
}

/// The queue steps over no more tracks in a row than it may: what it has
/// skipped is counted, and at the limit playback stops and the queue with it.
pub proof fn skipping_is_bounded(
    app: AppView,
    id: Seq<char>,
    title: Seq<char>,
    why: Seq<char>,
)
    requires
        app.session.skips <= MAX_AUTO_SKIPS,
        app.session.pending == Some(id),
        app.session.resuming is None,
    ensures
        app.session.auto && app.session.skips < MAX_AUTO_SKIPS ==> app.resolves(
            id,
            title,
            Err(why),
        ).session.skips == app.session.skips + 1,
        !app.session.auto || app.session.skips == MAX_AUTO_SKIPS ==> {
            let over = app.resolves(id, title, Err(why));
            &&& over.session.pending is None
            &&& !over.session.auto
            &&& over.session.skips == app.session.skips
            &&& over.commands == app.commands.push(Command::Stop)
            &&& over.source == app.source
        },
{
    reveal(AppView::resolves);
    reveal(AppView::steps_over);
    reveal(AppView::advances);
    reveal(AppView::plays);
    reveal(AppView::loads);
    reveal(AppView::heard_out);
    reveal(AppView::asks_tab);
    reveal(AppView::tops_up);
}

/// A stream that plays clears what was skipped.
pub proof fn playing_clears_the_skips(
    app: AppView,
    id: Seq<char>,
    title: Seq<char>,
    stream: ResolvedStream<Seq<char>>,
)
    requires
        app.session.pending == Some(id),
        app.session.resuming is None,
    ensures
        ({
            let on = app.resolves(id, title, Ok(stream));
            &&& on.session.skips == 0
            &&& on.session.pending is None
            &&& on.commands == app.commands.push(
                Command::Play { url: stream.url, format: stream.format, title, id },
            )
        }),
{
    reveal(AppView::resolves);
}

/// Only an answer that the user waits for ends the wait.
pub proof fn unasked_answers_end_no_wait(app: AppView, response: Response)
    requires
        respond::unasked(response),
    ensures
        app.applies(response).screen.busy == app.screen.busy,
{
    reveal(AppView::takes_unasked);
    match response {
        Response::Resolved { id, title, stream } => {
            resolving_keeps_the_wait(app, id@, title@, super::play::stream_view(stream));
        },
        Response::Watch { video_id, watch, askable } => {
            reveal(AppView::watches);
            reveal(AppView::tops_up);
        },
        Response::MoreQueue { epoch, page } => {
            reveal(AppView::takes_page);
            reveal(AppView::advances);
            playing_keeps_the_wait();
        },
        _ => {
            reveal(AppView::lyrics_shown);
            reveal(AppView::comments_shown);
            reveal(AppView::related_shown);
            reveal(AppView::prefetched);
            reveal(AppView::files);
            reveal(AppView::covered);
        },
    }
}

proof fn playing_keeps_the_wait()
    ensures
        forall|app: AppView, track: crate::source::Track<Seq<char>>, auto: bool|
            (#[trigger] app.plays(track, auto)).screen.busy == app.screen.busy,
{
    reveal(AppView::plays);
    reveal(AppView::loads);
    reveal(AppView::heard_out);
    reveal(AppView::asks_tab);
    reveal(AppView::tops_up);
}

proof fn resolving_keeps_the_wait(
    app: AppView,
    id: Seq<char>,
    title: Seq<char>,
    stream: Result<ResolvedStream<Seq<char>>, Seq<char>>,
)
    ensures
        app.resolves(id, title, stream).screen.busy == app.screen.busy,
{
    reveal(AppView::resolves);
    reveal(AppView::recovers);
    reveal(AppView::steps_over);
    reveal(AppView::advances);
    playing_keeps_the_wait();
}

/// No two tracks are resolved ahead of time at once, and none while the user
/// waits for something.
pub proof fn prefetching_gives_way(app: AppView)
    requires
        app.session.prefetching is Some || app.screen.busy || app.session.pending is Some,
    ensures
        app.ticks_prefetch() == app,
{
}

/// Control with `c` ends the program, whatever has the keyboard.
pub proof fn there_is_always_a_way_out(app: AppView, key: KeyEvent)
    requires
        key.modifiers.control,
        key.code == KeyCode::Char('c'),
    ensures
        app.keyed(key).screen.should_quit,
{
}

/// While a modal is up no plain key ends the program, unless it takes the row of
/// a menu that says so.
pub proof fn modal_has_the_keyboard(app: AppView, key: KeyEvent)
    requires
        !key.modifiers.control,
        !(app.screen.overlay is Closed),
        app.screen.overlay is Menu ==> key.code != KeyCode::Enter,
    ensures
        app.keyed(key).screen.should_quit == app.screen.should_quit,
{
    reveal(AppView::overlay_key);
    reveal(AppView::picker_key);
    reveal(AppView::adds);
    reveal(AppView::menu_key);
    reveal(AppView::settings_key);
    reveal(AppView::turns);
    reveal(AppView::switches_presence);
}

/// In the search box a printable key is text and nothing else.
pub proof fn search_box_takes_text(app: AppView, key: KeyEvent, c: char)
    requires
        !key.modifiers.control,
        app.screen.overlay is Closed,
        app.screen.mode == Mode::Editing,
        key.code == KeyCode::Char(c),
    ensures
        app.keyed(key) == app.typed(app.list.query.push(c)),
{
    reveal(AppView::edit_key);
}

/// Backspace takes back what was typed last.
pub proof fn backspace_takes_back(app: AppView, c: char)
    ensures
        app.edit_key(KeyCode::Char(c)).edit_key(KeyCode::Backspace) == app,
{
    reveal(AppView::edit_key);
    assert(app.list.query.push(c).drop_last() =~= app.list.query);
}

/// A track that ends while another is on its way is not followed by the queue.
pub proof fn chosen_track_is_not_passed_over(app: AppView)
    requires
        app.session.pending is Some,
    ensures
        app.ticks_playback().session.pending == app.session.pending,
        app.ticks_playback().commands == app.commands,
{
    reveal(AppView::heard_out);
}

/// A stream that died with an error is not a track that ended: the queue stays
/// where it is.
pub proof fn error_is_not_an_ending(app: AppView)
    requires
        app.seen.error is Some,
    ensures
        app.ticks_playback() == app.notes_playback(),
{
}

proof fn lemma_card_place(cards: Seq<Card<Seq<char>>>, key: Seq<char>)
    requires
        respond::card_place(cards, key) is Some,
        cards.len() <= usize::MAX,
    ensures
        respond::card_place(cards, key)->0 < cards.len(),
        cards[respond::card_place(cards, key)->0 as int].key == key,
    decreases cards.len(),
{
    if respond::card_place(cards.drop_last(), key) is Some {
        lemma_card_place(cards.drop_last(), key);
    }
}

proof fn lemma_card_found(shelves: Seq<ShelfView>, title: Seq<char>, key: Seq<char>)
    requires
        respond::card_found(shelves, title, key) is Some,
        shelves.len() <= usize::MAX,
        forall|i: int| 0 <= i < shelves.len() ==> (#[trigger] shelves[i]).cards.len() <= usize::MAX,
    ensures
        ({
            let at = respond::card_found(shelves, title, key)->0;
            &&& at.0 < shelves.len()
            &&& shelves[at.0 as int].title == title
            &&& at.1 < shelves[at.0 as int].cards.len()
            &&& shelves[at.0 as int].cards[at.1 as int].key == key
        }),
    decreases shelves.len(),
{
    if respond::card_found(shelves.drop_last(), title, key) is Some {
        assert forall|i: int| 0 <= i < shelves.drop_last().len() implies (
        #[trigger] shelves.drop_last()[i]).cards.len() <= usize::MAX by {
            assert(shelves.drop_last()[i] == shelves[i]);
        }
        lemma_card_found(shelves.drop_last(), title, key);
    } else {
        assert(shelves.last() == shelves[shelves.len() - 1]);
        lemma_card_place(shelves.last().cards, key);
    }
}

proof fn lemma_card_there(cards: Seq<Card<Seq<char>>>, i: int)
    requires
        0 <= i < cards.len(),
    ensures
        respond::card_place(cards, cards[i].key) is Some,
    decreases cards.len(),
{
    if i < cards.len() - 1 {
        assert(cards.drop_last()[i] == cards[i]);
        lemma_card_there(cards.drop_last(), i);
    }
}

proof fn lemma_shelf_there(shelves: Seq<ShelfView>, i: int, card: int)
    requires
        0 <= i < shelves.len(),
        0 <= card < shelves[i].cards.len(),
    ensures
        respond::card_found(shelves, shelves[i].title, shelves[i].cards[card].key) is Some,
    decreases shelves.len(),
{
    if i < shelves.len() - 1 {
        assert(shelves.drop_last()[i] == shelves[i]);
        lemma_shelf_there(shelves.drop_last(), i, card);
    } else {
        lemma_card_there(shelves[i].cards, card);
    }
}

/// Each shelf of the landing page is there after the personal shelves have
/// joined it, and so is each of those; no other is.
proof fn lemma_merged(home: HomeView, personal: Seq<ShelfView>, shelf: ShelfView)
    ensures
        respond::merged_page(home, personal).contains(shelf) == (personal
            + home.shelves).contains(shelf),
{
    let whole = personal + home.shelves;
    let page = respond::merged_page(home, personal);
    shelves::ordering_keeps_the_shelves(whole, home.order);
    whole.to_multiset_ensures();
    page.to_multiset_ensures();
    assert(page.to_multiset().count(shelf) == whole.to_multiset().count(shelf));
}

/// The personal shelves join the landing page: what it held stays, they are all
/// there, and nothing else is. Where no titles have a place of their own, they
/// come in front.
pub proof fn personal_shelves_join_the_feed(home: HomeView, personal: Seq<ShelfView>)
    ensures
        ({
            let after = respond::merged_home(home, personal);
            &&& after.shelves.to_multiset() == (personal + home.shelves).to_multiset()
            &&& after.shelves.len() == personal.len() + home.shelves.len()
            &&& after.scroll.len() == after.shelves.len()
            &&& home.order.len() == 0 ==> after.shelves == personal + home.shelves
        }),
{
    shelves::ordering_keeps_the_shelves(personal + home.shelves, home.order);
    if home.order.len() == 0 {
        shelves::no_list_moves_nothing(personal + home.shelves, home.order);
    }
}

/// When the personal shelves join the landing page, a cursor that had been moved
/// stays on its card: the shelf has the same title, and the card the same key.
pub proof fn cursor_stays_on_its_card(home: HomeView, personal: Seq<ShelfView>)
    requires
        respond::focus_of(home) is Some,
        personal.len() + home.shelves.len() <= usize::MAX,
        forall|i: int|
            0 <= i < personal.len() ==> (#[trigger] personal[i]).cards.len() <= usize::MAX,
        forall|i: int|
            0 <= i < home.shelves.len() ==> (#[trigger] home.shelves[i]).cards.len()
                <= usize::MAX,
    ensures
        ({
            let (title, key) = respond::focus_of(home)->0;
            let after = respond::merged_home(home, personal);
            &&& after.shelf < after.shelves.len()
            &&& after.card < after.shelves[after.shelf as int].cards.len()
            &&& after.shelves[after.shelf as int].title == title
            &&& after.shelves[after.shelf as int].cards[after.card as int].key == key
            &&& after.top <= after.shelf
        }),
{
    let (title, key) = respond::focus_of(home)->0;
    let whole = personal + home.shelves;
    let page = respond::merged_page(home, personal);
    shelves::ordering_keeps_the_shelves(whole, home.order);
    assert forall|i: int| 0 <= i < page.len() implies (#[trigger] page[i]).cards.len()
        <= usize::MAX by {
        assert(page.contains(page[i]));
        lemma_merged(home, personal, page[i]);
        let k = choose|k: int| 0 <= k < whole.len() && whole[k] == page[i];
        if k < personal.len() {
            assert(whole[k] == personal[k]);
        } else {
            assert(whole[k] == home.shelves[k - personal.len()]);
        }
    }
    let focused = home.shelves[home.shelf as int];
    assert(whole[personal.len() + home.shelf] == focused);
    assert(whole.contains(focused));
    lemma_merged(home, personal, focused);
    let at = choose|at: int| 0 <= at < page.len() && page[at] == focused;
    lemma_shelf_there(page, at, home.card as int);
    lemma_card_found(page, title, key);
}

} // verus!
