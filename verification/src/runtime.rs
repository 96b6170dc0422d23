//! What happens on an event.
use vstd::prelude::*;
use crate::app::{App, AppView, Mode};
use crate::filebrowser::BrowserView;
use crate::form::result_texts;
use crate::handlers::{
    handle_file_transfer_key, handle_file_transfer_paste, handle_hosts_key, handle_hosts_paste,
    handle_session_key, paste_run, Effect, EffectView,
};
use crate::keys::KeyEvent;
use crate::panes::selected_range;
use crate::screen;
use crate::screen::{ScreenPos, Selection};
use crate::ui::{
    clamped, contains, frame_to_screen, frame_to_screen_clamped, session_area, session_inner_rect,
};

verus! {

/// What the mouse did.
#[derive(Debug, Clone, Copy, PartialEq, Eq, Structural)]
pub enum MouseKind {
    ScrollUp,
    ScrollDown,
    LeftDown,
    LeftDrag,
    LeftUp,
    Other,
}

/// What the mouse did, and where.
#[derive(Debug, Clone, Copy, PartialEq, Eq, Structural)]
pub struct MouseEvent {
    pub kind: MouseKind,
    pub column: u16,
    pub row: u16,
}

/// An event of the terminal. Keys are pressed ones.
#[derive(Debug)]
pub enum Event {
    Resize { cols: u16, rows: u16 },
    Mouse(MouseEvent),
    Paste(String),
    Key(KeyEvent),
    Other,
}

/// The model of an event.
#[verifier::ext_equal]
pub enum EventView {
    Resize { cols: u16, rows: u16 },
    Mouse(MouseEvent),
    Paste(Seq<char>),
    Key(KeyEvent),
    Other,
}

impl View for Event {
    type V = EventView;

    open spec fn view(&self) -> EventView {
        match self {
            Event::Resize { cols, rows } => EventView::Resize { cols: *cols, rows: *rows },
            Event::Mouse(mouse) => EventView::Mouse(*mouse),
            Event::Paste(text) => EventView::Paste(text@),
            Event::Key(key) => EventView::Key(*key),
            Event::Other => EventView::Other,
        }
    }
}

/// What is to be done outside after an event.
#[derive(Debug)]
pub enum Step {
    Idle,
    /// Give every session's terminal a size.
    Resize { rows: u16, cols: u16 },
    /// Scroll a session's terminal.
    ScrollUp { session: u64, lines: usize },
    ScrollDown { session: u64, lines: usize },
    /// Copy the text of a session's screen from a position to before another.
    Copy { session: u64, from: ScreenPos, to: ScreenPos },
    /// Paste the text into a session's terminal.
    PasteInto(u64),
    Perform(Effect),
    /// Do what is asked for, and go on with the pasted text at a position, as in
    /// the view in which it was pasted.
    PasteUpTo { view: screen::View, at: usize, effect: Effect },
}

/// The model of what is to be done outside.
#[verifier::ext_equal]
pub enum StepView {
    Idle,
    Resize { rows: u16, cols: u16 },
    ScrollUp { session: u64, lines: int },
    ScrollDown { session: u64, lines: int },
    Copy { session: u64, from: ScreenPos, to: ScreenPos },
    PasteInto(u64),
    Perform(EffectView),
    PasteUpTo { view: screen::View, at: int, effect: EffectView },
}

impl View for Step {
    type V = StepView;

    open spec fn view(&self) -> StepView {
        match self {
            Step::Idle => StepView::Idle,
            Step::Resize { rows, cols } => StepView::Resize { rows: *rows, cols: *cols },
            Step::ScrollUp { session, lines } => StepView::ScrollUp {
                session: *session,
                lines: *lines as int,
            },
            Step::ScrollDown { session, lines } => StepView::ScrollDown {
                session: *session,
                lines: *lines as int,
            },
            Step::Copy { session, from, to } => StepView::Copy {
                session: *session,
                from: *from,
                to: *to,
            },
            Step::PasteInto(session) => StepView::PasteInto(*session),
            Step::Perform(effect) => StepView::Perform(effect@),
            Step::PasteUpTo { view, at, effect } => StepView::PasteUpTo {
                view: *view,
                at: *at as int,
                effect: effect@,
            },
        }
    }
}

/// How long to wait for an event, in milliseconds.
pub open spec fn wait_ms(app: AppView) -> u64 {
    if app.has_tabs() || app.mode is TestResult {
        16
    } else {
        1000
    }
}

/// How long to wait for an event, in milliseconds.
pub fn poll_timeout(app: &App) -> (ms: u64)
    ensures
        ms == wait_ms(app@),
{
    if app.has_tabs() || matches!(app.mode(), Mode::TestResult { .. }) {
        16
    } else {
        1000
    }
}

/// The application without a clipboard notice whose time is over.
pub open spec fn notice_expired(app: AppView, now: u64) -> AppView {
    AppView {
        clipboard_notice_until: match app.clipboard_notice_until {
            Some(until) => if now >= until {
                None
            } else {
                Some(until)
            },
            None => None,
        },
        ..app
    }
}

/// The application with every file browser looked after.
pub open spec fn browsers_polled(app: AppView) -> AppView {
    AppView { file_transfers: app.file_transfers.map_values(|b: BrowserView| b.polled()), ..app }
}

/// Brings the application up to date before it is drawn. `seen` is what was
/// seen of the sessions, in order, and `now` the time in milliseconds.
pub fn refresh(app: &mut App, seen: &Vec<(bool, Option<bool>)>, now: u64)
    requires
        old(app)@.wf(),
    ensures
        final(app)@ == notice_expired(
            browsers_polled(old(app)@.sessions_seen(seen@).close_exited_from(0)),
            now,
        ),
        final(app)@.wf(),
{
    app.poll_sessions(seen);
    app.close_exited_sessions();
    let ghost before = app@;
    app.poll_file_transfers();
    assert(app@ =~= browsers_polled(before));
    app.clear_expired_notifications(now);
}

/// What a border and the tab bar leave of a frame, as rows and columns.
pub open spec fn tab_size(cols: u16, rows: u16) -> (u16, u16) {
    (
        (if rows < 3 {
            0
        } else {
            rows - 3
        }) as u16,
        (if cols < 2 {
            0
        } else {
            cols - 2
        }) as u16,
    )
}

/// The size of the terminals in a frame of a size, as rows and columns.
pub open spec fn terminal_size(app: AppView, cols: u16, rows: u16) -> (u16, u16) {
    if app.has_tabs() {
        tab_size(cols, rows)
    } else {
        (rows, cols)
    }
}

/// The size of a session that is to be started in a frame of a size.
pub fn new_session_size(cols: u16, rows: u16) -> (size: (u16, u16))
    ensures
        size == tab_size(cols, rows),
{
    (rows.saturating_sub(3), cols.saturating_sub(2))
}

/// The size of the terminals in a frame of a size.
pub fn session_size(app: &App, cols: u16, rows: u16) -> (size: (u16, u16))
    ensures
        size == terminal_size(app@, cols, rows),
{
    if app.has_tabs() {
        new_session_size(cols, rows)
    } else {
        (rows, cols)
    }
}

impl AppView {
    /// The application with the selection drawn to where the mouse is.
    pub open spec fn drag_selection(self, mouse: MouseEvent, cols: u16, rows: u16) -> AppView {
        let inner = session_area(cols, rows, self.has_tabs());
        match self.selection {
            Some(s) => AppView {
                selection: Some(
                    Selection {
                        anchor: s.anchor,
                        end: ScreenPos {
                            row: clamped(mouse.row, inner.y, inner.height),
                            col: clamped(mouse.column, inner.x, inner.width),
                        },
                    },
                ),
                ..self
            },
            None => self,
        }
    }

    /// What the mouse does in a frame of a size: it scrolls a session and
    /// selects text in it, and the text is copied when the button is released.
    pub open spec fn mouse_event(self, mouse: MouseEvent, cols: u16, rows: u16) -> (
        AppView,
        StepView,
    ) {
        let inner = session_area(cols, rows, self.has_tabs());
        match mouse.kind {
            MouseKind::ScrollUp => match self.active_session() {
                Some(session) => (
                    AppView { selection: None, ..self },
                    StepView::ScrollUp { session: session.id, lines: 3 },
                ),
                None => (self, StepView::Idle),
            },
            MouseKind::ScrollDown => match self.active_session() {
                Some(session) => (
                    AppView { selection: None, ..self },
                    StepView::ScrollDown { session: session.id, lines: 3 },
                ),
                None => (self, StepView::Idle),
            },
            MouseKind::LeftDown => if !(self.view is Session) {
                (self, StepView::Idle)
            } else if contains(inner, mouse.column, mouse.row) {
                let pos = ScreenPos {
                    row: (mouse.row - inner.y) as u16,
                    col: (mouse.column - inner.x) as u16,
                };
                (
                    AppView { selection: Some(Selection { anchor: pos, end: pos }), ..self },
                    StepView::Idle,
                )
            } else {
                (AppView { selection: None, ..self }, StepView::Idle)
            },
            MouseKind::LeftDrag => (self.drag_selection(mouse, cols, rows), StepView::Idle),
            MouseKind::LeftUp => {
                let drawn = self.drag_selection(mouse, cols, rows);
                (
                    drawn,
                    match (selected_range(drawn.selection), drawn.active_session()) {
                        (Some(range), Some(session)) => StepView::Copy {
                            session: session.id,
                            from: range.0,
                            to: range.1,
                        },
                        _ => StepView::Idle,
                    },
                )
            },
            MouseKind::Other => (self, StepView::Idle),
        }
    }

    /// What text that was pasted in a view does from a position on: in a session
    /// it is pasted there, and elsewhere its characters are keys of that view,
    /// whatever view they lead to.
    pub open spec fn paste_event(
        self,
        view: screen::View,
        text: Seq<char>,
        from: int,
        env_user: Result<Seq<char>, Seq<char>>,
        after: AppView,
        step: StepView,
    ) -> bool {
        match view {
            screen::View::Hosts => step matches StepView::PasteUpTo { view: begun, at, effect }
                && begun == view && from <= at <= text.len() && (effect is Idle ==> at == text.len()) && (exists|
                states: Seq<AppView>,
            | #[trigger]
                paste_run(states, text, from, env_user, effect) && states.len() == at - from + 1
                    && states[0] == self && states.last() == after),
            screen::View::Session(_) => after == (AppView { selection: None, ..self }) && step == (
            match self.active_session() {
                Some(session) => StepView::PasteInto(session.id),
                None => StepView::Idle,
            }),
            screen::View::FileTransfer(_) => {
                let done = self.file_transfer_paste(text, from);
                after == done.0 && step == StepView::PasteUpTo { view, at: done.2, effect: done.1 }
            },
        }
    }

    /// What a key does.
    pub open spec fn key_event(
        self,
        key: KeyEvent,
        env_user: Result<Seq<char>, Seq<char>>,
        after: AppView,
        effect: EffectView,
    ) -> bool {
        match self.view {
            screen::View::Hosts => self.hosts_key(key, env_user, after, effect),
            screen::View::Session(_) => self.session_key(key, after, effect),
            screen::View::FileTransfer(_) => (after, effect) == self.file_transfer_key(key),
        }
    }

    /// What an event does in a frame of a size.
    pub open spec fn event(
        self,
        event: EventView,
        cols: u16,
        rows: u16,
        env_user: Result<Seq<char>, Seq<char>>,
        after: AppView,
        step: StepView,
    ) -> bool {
        match event {
            EventView::Resize { cols, rows } => {
                let size = terminal_size(self, cols, rows);
                after == self && step == StepView::Resize { rows: size.0, cols: size.1 }
            },
            EventView::Mouse(mouse) => (after, step) == self.mouse_event(mouse, cols, rows),
            EventView::Paste(text) => self.paste_event(
                self.view,
                text,
                0,
                env_user,
                after,
                step,
            ),
            EventView::Key(key) => step matches StepView::Perform(effect) && self.key_event(
                key,
                env_user,
                after,
                effect,
            ),
            EventView::Other => after == self && step is Idle,
        }
    }
}

fn drag(app: &mut App, mouse: MouseEvent, cols: u16, rows: u16)
    requires
        old(app)@.wf(),
    ensures
        final(app)@ == old(app)@.drag_selection(mouse, cols, rows),
        final(app)@.wf(),
{
    let inner = session_inner_rect(cols, rows, app.has_tabs());
    if let Some(s) = app.selection() {
        let end = frame_to_screen_clamped(mouse.column, mouse.row, inner);
        app.select(Selection { anchor: s.anchor, end });
    }
}

/// Handles the mouse, in a frame of a size.
pub fn handle_mouse(app: &mut App, mouse: MouseEvent, cols: u16, rows: u16) -> (step: Step)
    requires
        old(app)@.wf(),
    ensures
        (final(app)@, step@) == old(app)@.mouse_event(mouse, cols, rows),
        final(app)@.wf(),
{
    match mouse.kind {
        MouseKind::ScrollUp => match app.active_session_id() {
            Some(session) => {
                app.clear_selection();
                Step::ScrollUp { session, lines: 3 }
            },
            None => Step::Idle,
        },
        MouseKind::ScrollDown => match app.active_session_id() {
            Some(session) => {
                app.clear_selection();
                Step::ScrollDown { session, lines: 3 }
            },
            None => Step::Idle,
        },
        MouseKind::LeftDown => {
            if let screen::View::Session(_) = app.current_view() {
                let inner = session_inner_rect(cols, rows, app.has_tabs());
                match frame_to_screen(mouse.column, mouse.row, inner) {
                    Some(pos) => app.select(Selection { anchor: pos, end: pos }),
                    None => app.clear_selection(),
                }
            }
            Step::Idle
        },
        MouseKind::LeftDrag => {
            drag(app, mouse, cols, rows);
            Step::Idle
        },
        MouseKind::LeftUp => {
            drag(app, mouse, cols, rows);
            match (app.selection(), app.active_session_id()) {
                (Some(s), Some(session)) => {
                    let range = s.normalized();
                    Step::Copy { session, from: range.0, to: range.1 }
                },
                _ => Step::Idle,
            }
        },
        MouseKind::Other => Step::Idle,
    }
}

/// Handles text that was pasted in a view, from a position on.
///
/// The view is the one that was shown when the text was pasted. What was done
/// for an earlier part of the text may have led to another one.
pub fn handle_paste(
    app: &mut App,
    view: screen::View,
    text: &str,
    from: usize,
    env_user: &Result<String, String>,
) -> (step: Step)
    requires
        old(app)@.wf(),
        from <= text@.len(),
    ensures
        old(app)@.paste_event(view, text@, from as int, result_texts(*env_user), final(app)@, step@),
        final(app)@.wf(),
{
    match view {
        screen::View::Hosts => {
            let (at, effect) = handle_hosts_paste(app, text, from, env_user);
            Step::PasteUpTo { view, at, effect }
        },
        screen::View::Session(_) => {
            app.clear_selection();
            match app.active_session_id() {
                Some(session) => Step::PasteInto(session),
                None => Step::Idle,
            }
        },
        screen::View::FileTransfer(_) => {
            let (at, effect) = handle_file_transfer_paste(app, text, from);
            Step::PasteUpTo { view, at, effect }
        },
    }
}

/// Handles a key that was pressed.
pub fn handle_key_press(app: &mut App, key: KeyEvent, env_user: &Result<String, String>) -> (effect:
    Effect)
    requires
        old(app)@.wf(),
    ensures
        old(app)@.key_event(key, result_texts(*env_user), final(app)@, effect@),
        final(app)@.wf(),
{
    match app.current_view() {
        screen::View::Hosts => handle_hosts_key(app, key, env_user),
        screen::View::Session(_) => handle_session_key(app, &key),
        screen::View::FileTransfer(_) => handle_file_transfer_key(app, key),
    }
}

/// Handles an event, in a frame of a size.
pub fn handle_event(
    app: &mut App,
    event: &Event,
    cols: u16,
    rows: u16,
    env_user: &Result<String, String>,
) -> (step: Step)
    requires
        old(app)@.wf(),
    ensures
        old(app)@.event(event@, cols, rows, result_texts(*env_user), final(app)@, step@),
        final(app)@.wf(),
{
    match event {
        Event::Resize { cols, rows } => {
            let (rows, cols) = session_size(app, *cols, *rows);
            Step::Resize { rows, cols }
        },
        Event::Mouse(mouse) => handle_mouse(app, *mouse, cols, rows),
        Event::Paste(text) => {
            let view = app.current_view();
            handle_paste(app, view, text.as_str(), 0, env_user)
        },
        Event::Key(key) => Step::Perform(handle_key_press(app, *key, env_user)),
        Event::Other => Step::Idle,
    }
}

/// Text is only copied out of the session that is shown, and only after some was
/// selected in it.
pub proof fn lemma_copies_what_is_selected(app: AppView, mouse: MouseEvent, cols: u16, rows: u16)
    requires
        app.wf(),
        app.mouse_event(mouse, cols, rows).1 is Copy,
    ensures
        mouse.kind is LeftUp,
        app.selection is Some,
        app.active_session() is Some,
        app.mouse_event(mouse, cols, rows).1->Copy_session == app.active_session()->0.id,
        app.mouse_event(mouse, cols, rows).1->from == app.mouse_event(
            mouse,
            cols,
            rows,
        ).0.selection->0.first(),
{
}

} // verus!
