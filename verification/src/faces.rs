//! The two faces of the program: the terminal, and an icon in the notification
//! area with the queue still playing behind it.
//!
//! Both are driven by the same [`App`], so going into the background stops
//! drawing and not playing. What is done in which order is decided here.

use vstd::prelude::*;

use crate::app::input::TrayCommand;
use crate::app::{App, AppView, Screen};
use crate::config::Settings;
use crate::keys::{Event, KeyEvent, KeyEventKind};
use crate::now_playing::Tab;
use crate::player::{PlayState, PlayerEvent};
use crate::source::Response;

verus! {

broadcast use vstd::string::group_string_axioms;

/// How long to wait for input before drawing again, in milliseconds.
pub const TICK: u64 = 200;

/// The same while the user waits for something.
pub const BUSY_TICK: u64 = 50;

/// The same with nothing on screen.
pub const IDLE_TICK: u64 = 500;

/// What is said on a terminal that is about to be given up.
pub const FAREWELL: &'static str = "MTUI is running in the background. Its icon is in the notification area, by the clock -- click it to bring this back, or right-click for controls. This window can be closed.";

/// How long to wait before looking again.
pub fn tick(awaiting: bool, foreground: bool) -> (r: u64)
    ensures
        r == if awaiting {
            BUSY_TICK
        } else if foreground {
            TICK
        } else {
            IDLE_TICK
        },
{
    if awaiting {
        BUSY_TICK
    } else if foreground {
        TICK
    } else {
        IDLE_TICK
    }
}

impl AppView {
    /// One frame in the terminal: what arrived is taken, the queue moves on
    /// before the next track is warmed, and the card of the profile comes last.
    pub open spec fn foreground_frame(
        self,
        responses: Seq<Response>,
        events: Seq<PlayerEvent>,
        now_ms: u64,
    ) -> AppView {
        self.applies_all(responses).answers_all(
            events,
        ).ticks_playback().ticks_page().ticks_prefetch().presents(now_ms)
    }

    /// One frame behind the icon. Panels that nobody can see are not fetched;
    /// the card of the profile, which others can, is kept up.
    pub open spec fn background_frame(
        self,
        responses: Seq<Response>,
        events: Seq<PlayerEvent>,
        now_ms: u64,
    ) -> AppView {
        self.applies_all(responses).answers_all(events).ticks_playback().ticks_prefetch().presents(
            now_ms,
        )
    }

    /// With the wish to go behind the icon set or taken back.
    pub open spec fn wanting_background(self, wants: bool) -> AppView {
        AppView { screen: Screen { wants_background: wants, ..self.screen }, ..self }
    }

    /// With the wish to come to the terminal set or taken back.
    pub open spec fn wanting_foreground(self, wants: bool) -> AppView {
        AppView { screen: Screen { wants_foreground: wants, ..self.screen }, ..self }
    }

    /// After something that the terminal reported. A key counts when it goes
    /// down, and another size destroys the pixels on screen.
    pub open spec fn reported(self, event: Event) -> AppView {
        match event {
            Event::Key(key) => if key.kind == KeyEventKind::Press {
                self.keyed(key)
            } else {
                self
            },
            Event::Resize(_, _) => AppView {
                pictures: crate::app::PicturesView { painted: None, ..self.pictures },
                ..self
            },
            Event::Mouse(event) => self.moused(event),
        }
    }
}

impl App {
    /// Does what one frame in the terminal takes, up to drawing it.
    pub fn foreground_frame_at(
        &mut self,
        responses: Vec<Response>,
        events: Vec<PlayerEvent>,
        now_ms: u64,
    )
        ensures
            final(self).view() == old(self).view().foreground_frame(
                responses@,
                events@,
                now_ms,
            ),
    {
        self.poll_source(responses, events);
        self.tick_playback();
        self.tick_page();
        self.tick_prefetch();
        self.present_at(now_ms);
    }

    /// Does what one frame behind the icon takes.
    pub fn background_frame_at(
        &mut self,
        responses: Vec<Response>,
        events: Vec<PlayerEvent>,
        now_ms: u64,
    )
        ensures
            final(self).view() == old(self).view().background_frame(
                responses@,
                events@,
                now_ms,
            ),
    {
        self.poll_source(responses, events);
        self.tick_playback();
        self.tick_prefetch();
        self.present_at(now_ms);
    }

    /// Does what one frame in the terminal takes, now.
    pub fn foreground_frame(&mut self, responses: Vec<Response>, events: Vec<PlayerEvent>)
        ensures
            exists|now_ms: u64|
                final(self).view() == #[trigger] old(self).view().foreground_frame(
                    responses@,
                    events@,
                    now_ms,
                ),
    {
        let now_ms: u64 = crate::discord::now_ms();
        self.foreground_frame_at(responses, events, now_ms);
    }

    /// Does what one frame behind the icon takes, now.
    pub fn background_frame(&mut self, responses: Vec<Response>, events: Vec<PlayerEvent>)
        ensures
            exists|now_ms: u64|
                final(self).view() == #[trigger] old(self).view().background_frame(
                    responses@,
                    events@,
                    now_ms,
                ),
    {
        let now_ms: u64 = crate::discord::now_ms();
        self.background_frame_at(responses, events, now_ms);
    }

    /// Comes to the terminal, and says whether it is there. One that has been
    /// closed sends the program behind the icon, whether or not it plays.
    pub fn enter_foreground(&mut self, closed: bool) -> (r: bool)
        ensures
            r == !closed,
            final(self).view() == if closed {
                old(self).view().wanting_foreground(false).wanting_background(true)
            } else {
                old(self).view().wanting_foreground(false)
            },
    {
        self.screen.wants_foreground = false;
        if closed {
            self.screen.wants_background = true;
        }
        !closed
    }

    /// Notes whether the terminal has been closed in the meantime.
    pub fn note_closed(&mut self, closed: bool)
        ensures
            final(self).view() == if closed {
                old(self).view().wanting_background(true)
            } else {
                old(self).view()
            },
    {
        if closed {
            self.screen.wants_background = true;
        }
    }

    /// Whether the terminal is still wanted.
    pub fn stays_in_front(&self) -> (r: bool)
        ensures
            r == (!self.view().screen.should_quit && !self.view().screen.wants_background),
    {
        !self.screen.should_quit && !self.screen.wants_background
    }

    /// Goes behind the icon.
    pub fn enter_background(&mut self)
        ensures
            final(self).view() == old(self).view().wanting_background(false),
    {
        self.screen.wants_background = false;
    }

    /// Whether the icon is all that is wanted.
    pub fn stays_behind(&self) -> (r: bool)
        ensures
            r == (!self.view().screen.should_quit && !self.view().screen.wants_foreground),
    {
        !self.screen.should_quit && !self.screen.wants_foreground
    }

    /// Takes something that the terminal reported.
    pub fn handle_event(&mut self, event: Event)
        ensures
            final(self).view() == old(self).view().reported(event),
    {
        match event {
            Event::Key(key) => {
                if key.kind == KeyEventKind::Press {
                    self.handle_key(key);
                }
            },
            Event::Resize(_, _) => self.invalidate_image(),
            Event::Mouse(event) => self.handle_mouse(event),
        }
    }

    /// A command of the icon while the terminal is up, where there is nothing
    /// to show.
    pub fn handle_tray_in_front(&mut self, command: TrayCommand)
        ensures
            final(self).view() == if command == TrayCommand::Show {
                old(self).view()
            } else {
                old(self).view().tray(command)
            },
    {
        if command != TrayCommand::Show {
            self.handle_tray(command);
        }
    }

    /// The icon could not be had, and this is said instead. Where the setting
    /// that asked for it could not be taken back either, that is said too.
    pub fn icon_failed(&mut self, what: IconFailure, why: &str, unsaved: Option<&str>)
        ensures
            final(self).view() == old(self).view().says(failure_of(what, why@, str_view(unsaved))),
    {
        let mut said = match what {
            IconFailure::Create => "could not create the tray icon: ".to_owned(),
            IconFailure::Show => "could not show the tray icon: ".to_owned(),
            IconFailure::Lost => "the tray icon was lost: ".to_owned(),
            IconFailure::Background => String::new(),
        };
        proof {
            if what == IconFailure::Background {
                assert(said@ =~= Seq::empty());
            }
        }
        said.append(why);
        if let Some(save) = unsaved {
            said.append("; could not save settings: ");
            said.append(save);
        }
        proof {
            assert(said@ =~= failure_of(what, why@, str_view(unsaved)));
        }
        self.screen.status = said;
    }

    /// The icon was lost while it was all there was, so the terminal has to
    /// come back.
    pub fn icon_lost(&mut self, why: &str)
        ensures
            final(self).view() == old(self).view().says(
                failure_of(IconFailure::Lost, why@, None),
            ).wanting_foreground(true),
    {
        self.icon_failed(IconFailure::Lost, why, None);
        self.screen.wants_foreground = true;
    }
}

/// What was wanted of the icon when it failed.
#[derive(Debug, Clone, Copy, PartialEq, Eq, Structural)]
pub enum IconFailure {
    Create,
    Show,
    Lost,
    /// It was wanted to go behind it.
    Background,
}

/// What an optional text says.
pub open spec fn str_view(s: Option<&str>) -> Option<Seq<char>> {
    match s {
        Some(s) => Some(s@),
        None => None,
    }
}

/// What is said of an icon that could not be had.
pub open spec fn failure_of(
    what: IconFailure,
    why: Seq<char>,
    unsaved: Option<Seq<char>>,
) -> Seq<char> {
    let said = match what {
        IconFailure::Create => "could not create the tray icon: "@ + why,
        IconFailure::Show => "could not show the tray icon: "@ + why,
        IconFailure::Lost => "the tray icon was lost: "@ + why,
        IconFailure::Background => why,
    };
    match unsaved {
        Some(save) => said + "; could not save settings: "@ + save,
        None => said,
    }
}

/// What is done about the icon while the terminal is up.
#[derive(Debug, Clone, Copy, PartialEq, Eq, Structural)]
pub enum IconStep {
    /// Make one, and then show it.
    Create,
    /// Take it away.
    Remove,
    /// Show what is playing on it.
    Show,
    Nothing,
}

/// What is done about the icon while the terminal is up: it is there exactly
/// where the settings ask for it.
pub fn icon_step(start_in_tray: bool, present: bool) -> (r: IconStep)
    ensures
        r == if start_in_tray && !present {
            IconStep::Create
        } else if !start_in_tray && present {
            IconStep::Remove
        } else if present {
            IconStep::Show
        } else {
            IconStep::Nothing
        },
{
    if start_in_tray && !present {
        IconStep::Create
    } else if !start_in_tray && present {
        IconStep::Remove
    } else if present {
        IconStep::Show
    } else {
        IconStep::Nothing
    }
}

/// The settings once the icon could not be had.
pub fn without_icon(settings: Settings) -> (r: Settings)
    ensures
        r == (Settings { start_in_tray: false, ..settings }),
{
    Settings { start_in_tray: false, ..settings }
}

/// What is done on the way back from behind the icon. The icon goes first, so
/// that a terminal which cannot be had does not leave the user with neither.
#[derive(Debug, Clone, Copy, PartialEq, Eq, Structural)]
pub struct Return {
    pub remove_icon: bool,
    pub open_terminal: bool,
}

/// What is done on the way back from behind the icon.
pub fn on_return(start_in_tray: bool, wants_foreground: bool) -> (r: Return)
    ensures
        r == (Return { remove_icon: !start_in_tray, open_terminal: wants_foreground }),
{
    Return { remove_icon: !start_in_tray, open_terminal: wants_foreground }
}

/// A key counts when it goes down and not when it comes up; another size destroys
/// the pixels on screen and nothing else; and the mouse is heard.
pub proof fn terminal_is_heard(app: AppView, key: KeyEvent, width: u16, height: u16)
    ensures
        key.kind == KeyEventKind::Press ==> app.reported(Event::Key(key)) == app.keyed(key),
        key.kind == KeyEventKind::Release ==> app.reported(Event::Key(key)) == app,
        app.reported(Event::Resize(width, height)) == (AppView {
            pictures: crate::app::PicturesView { painted: None, ..app.pictures },
            ..app
        }),
{
}

/// What has arrived is taken before time passes: a frame with an answer is a frame
/// without it, begun where the answer has been taken.
pub proof fn answers_come_first(app: AppView, response: Response, now_ms: u64)
    ensures
        ({
            let quiet = Seq::<Response>::empty();
            let calm = Seq::<PlayerEvent>::empty();
            &&& app.foreground_frame(seq![response], calm, now_ms) == app.applies(
                response,
            ).foreground_frame(quiet, calm, now_ms)
            &&& app.background_frame(seq![response], calm, now_ms) == app.applies(
                response,
            ).background_frame(quiet, calm, now_ms)
        }),
{
    assert(seq![response].drop_last() =~= Seq::empty());
    reveal_with_fuel(AppView::applies_all, 2);
}

/// In either face a lost stream is seen to within the frame that tells of it.
pub proof fn lost_streams_are_seen_to(app: AppView, id: String, from: u64, now_ms: u64)
    ensures
        ({
            let quiet = Seq::<Response>::empty();
            let calm = Seq::<PlayerEvent>::empty();
            let lost = seq![PlayerEvent::NeedsUrl { id, from }];
            &&& app.foreground_frame(quiet, lost, now_ms) == app.resumes(
                id@,
                from,
            ).foreground_frame(quiet, calm, now_ms)
            &&& app.background_frame(quiet, lost, now_ms) == app.resumes(
                id@,
                from,
            ).background_frame(quiet, calm, now_ms)
        }),
{
    let lost = seq![PlayerEvent::NeedsUrl { id, from }];
    assert(lost.drop_last() =~= Seq::empty());
    reveal_with_fuel(AppView::answers_all, 2);
}

/// In either face a track that has ended is followed by the next of the queue.
pub proof fn queue_plays_on_in_either_face(app: AppView, at: int, now_ms: u64)
    requires
        app.session.last_state == PlayState::Playing,
        app.seen.state == PlayState::Idle,
        app.seen.error is None,
        app.session.pending is None,
        app.session.now is Some,
        app.session.now->0.playing == Some(at as usize),
        0 <= at,
        at + 1 < app.session.now->0.queue.len() <= usize::MAX,
        app.source.open,
    ensures
        ({
            let quiet = Seq::<Response>::empty();
            let calm = Seq::<PlayerEvent>::empty();
            let next = app.session.now->0.queue[at + 1].id;
            &&& app.foreground_frame(quiet, calm, now_ms).session.pending == Some(next)
            &&& app.background_frame(quiet, calm, now_ms).session.pending == Some(next)
        }),
{
    crate::app::outcomes::ended_track_is_followed(app, at);
    reveal(AppView::asks_tab);
}

/// What is said of an icon that could not be had ends with why, and with why the
/// settings could not be saved where they could not.
pub proof fn icon_failures_say_why(what: IconFailure, why: Seq<char>, save: Seq<char>)
    ensures
        failure_of(what, why, None).len() >= why.len(),
        failure_of(what, why, None).skip(failure_of(what, why, None).len() - why.len()) == why,
        failure_of(what, why, Some(save)) == failure_of(what, why, None)
            + "; could not save settings: "@ + save,
{
    let said = failure_of(what, why, None);
    assert(said.skip(said.len() - why.len()) =~= why);
}

proof fn lemma_presence_is_left(app: AppView)
    ensures
        app.ticks_playback().presence == app.presence,
        app.ticks_page().presence == app.presence,
        app.ticks_prefetch().presence == app.presence,
{
    reveal(AppView::heard_out);
    reveal(AppView::advances);
    reveal(AppView::plays);
    reveal(AppView::loads);
    reveal(AppView::asks_tab);
    reveal(AppView::tops_up);
}

/// Every frame, in either face, ends by offering the card of what plays then.
pub proof fn card_is_kept_up_in_either_face(app: AppView, now_ms: u64)
    ensures
        ({
            let quiet = Seq::<Response>::empty();
            let calm = Seq::<PlayerEvent>::empty();
            let front = app.foreground_frame(quiet, calm, now_ms);
            let back = app.background_frame(quiet, calm, now_ms);
            &&& front.presence == app.presence.published(front.activity_at(now_ms))
            &&& back.presence == app.presence.published(back.activity_at(now_ms))
        }),
{
    lemma_presence_is_left(app);
    let played = app.ticks_playback();
    lemma_presence_is_left(played);
    lemma_presence_is_left(played.ticks_page());
}

/// Whether nothing changes about what plays in this frame.
pub open spec fn undisturbed(app: AppView) -> bool {
    &&& app.session.last_state == app.seen.state
    &&& app.session.listening is None
}

/// In either face a selection that has rested is resolved ahead of time.
pub proof fn selection_is_warmed_in_either_face(app: AppView, now_ms: u64)
    requires
        undisturbed(app),
        app.screen.view == crate::app::View::Tracks,
        app.list.selected < app.list.results.len(),
        app.screen.selection_settled is Some,
        app.clock >= app.screen.selection_settled->0 + 400_000_000,
        !app.screen.busy,
        app.session.pending is None,
        app.session.prefetching is None,
        app.session.now is None,
        app.screen.overlay is Closed,
        app.source.open,
        app.session.ready != Some(app.list.results[app.list.selected as int].id),
    ensures
        ({
            let quiet = Seq::<Response>::empty();
            let calm = Seq::<PlayerEvent>::empty();
            let id = app.list.results[app.list.selected as int].id;
            &&& app.foreground_frame(quiet, calm, now_ms).session.prefetching == Some(id)
            &&& app.background_frame(quiet, calm, now_ms).session.prefetching == Some(id)
        }),
{
}

/// Lyrics whose tab is open are fetched in the terminal, where they can be seen,
/// and not behind the icon.
pub proof fn panels_are_fetched_where_they_are_seen(app: AppView, now_ms: u64)
    requires
        undisturbed(app),
        app.session.now is Some,
        app.session.now->0.tab == Tab::Lyrics,
        app.session.now->0.lyrics is Idle,
        app.session.now->0.watched,
        app.screen.selection_settled is None,
        app.source.open,
    ensures
        ({
            let quiet = Seq::<Response>::empty();
            let calm = Seq::<PlayerEvent>::empty();
            let front = app.foreground_frame(quiet, calm, now_ms);
            let back = app.background_frame(quiet, calm, now_ms);
            &&& front.session.now is Some
            &&& front.session.now->0.lyrics is Loading
            &&& front.source.requests.len() == app.source.requests.len() + 1
            &&& front.source.requests.last() is Lyrics
            &&& back.session.now == app.session.now
            &&& back.source == app.source
        }),
{
    reveal(AppView::asks_tab);
}

/// A wish for one face or the other is what is set, and nothing else changes.
pub proof fn wishes_are_noted(app: AppView, wants: bool)
    ensures
        app.wanting_background(wants).screen.wants_background == wants,
        app.wanting_background(wants).screen.wants_foreground == app.screen.wants_foreground,
        app.wanting_foreground(wants).screen.wants_foreground == wants,
        app.wanting_foreground(wants).screen.wants_background == app.screen.wants_background,
        app.wanting_background(wants).session == app.session,
        app.wanting_foreground(wants).session == app.session,
{
}

} // verus!
