//! What events other than keys come to, and what is sent to a terminal.
use vstd::prelude::*;
use vstd::utf8::encode_utf8;
use crate::app::{AppView, TestStatusView};
use crate::connect_laws::stands_at;
use crate::handlers::{paste_run, paste_step, EffectView};
use crate::keys::{key_bytes, pasted, KeyCode, KeyEvent};
use crate::probe::{ProbeReply, ProbeView};
use crate::pty::{
    csi_answer, escape_answer, first_number, further_back, less_far_back, osc_answer, pasted_text,
};
use crate::runtime::{
    browsers_polled, notice_expired, terminal_size, wait_ms, EventView, MouseEvent, StepView,
};
use crate::screen;
use crate::screen::ScreenPos;
use crate::sizes::{grain, in_double, rounded, size_text, tenths};
use crate::text::decimal;
use crate::ui::session_area;

verus! {

// ---------------------------------------------------------------------------
// The mouse
// ---------------------------------------------------------------------------

/// Whether two applications differ in what is selected at most.
pub open spec fn only_selects(before: AppView, after: AppView) -> bool {
    after == (AppView { selection: after.selection, ..before })
}

/// The wheel scrolls the session that is shown by three lines, up or down as it is
/// turned, and drops the selection. Where no session is shown it does nothing.
pub proof fn lemma_wheel_scrolls(
    app: AppView,
    mouse: MouseEvent,
    cols: u16,
    rows: u16,
    env_user: Result<Seq<char>, Seq<char>>,
    after: AppView,
    step: StepView,
)
    requires
        mouse.kind is ScrollUp || mouse.kind is ScrollDown,
        app.event(EventView::Mouse(mouse), cols, rows, env_user, after, step),
    ensures
        match app.view {
            screen::View::Session(i) if i < app.sessions.len() => only_selects(app, after)
                && after.selection is None && step == (if mouse.kind is ScrollUp {
                StepView::ScrollUp { session: app.sessions[i as int].id, lines: 3 }
            } else {
                StepView::ScrollDown { session: app.sessions[i as int].id, lines: 3 }
            }),
            _ => after == app && step is Idle,
        },
{
}

/// Whether a place of the frame lies within the border around a session.
pub open spec fn is_within_border(
    app: AppView,
    cols: u16,
    rows: u16,
    column: u16,
    row: u16,
) -> bool {
    let bar: int = if app.sessions.len() > 0 || app.file_transfers.len() > 0 {
        1
    } else {
        0
    };
    1 <= column && column + 1 < cols && 1 <= row && row + 1 + bar < rows
}

/// Pressing the button in a session selects the cell under the mouse: the border takes
/// one column and one row. Pressing it elsewhere drops the selection.
pub proof fn lemma_press_selects_cell(
    app: AppView,
    mouse: MouseEvent,
    cols: u16,
    rows: u16,
    env_user: Result<Seq<char>, Seq<char>>,
    after: AppView,
    step: StepView,
)
    requires
        mouse.kind is LeftDown,
        app.event(EventView::Mouse(mouse), cols, rows, env_user, after, step),
    ensures
        step is Idle,
        app.view is Session ==> only_selects(app, after),
        app.view is Session ==> (after.selection is Some) == is_within_border(
            app,
            cols,
            rows,
            mouse.column,
            mouse.row,
        ),
        app.view is Session ==> (after.selection matches Some(s) ==> s.anchor == s.end
            && s.end.row + 1 == mouse.row && s.end.col + 1 == mouse.column),
        !(app.view is Session) ==> after == app,
{
}

/// How a selection that was drawn to the mouse ends: at the cell under it, and with the
/// mouse beyond an edge, at that edge.
pub open spec fn ends_at_mouse(end: ScreenPos, mouse: MouseEvent, width: int, height: int) -> bool {
    &&& mouse.column <= 1 ==> end.col == 0
    &&& 1 <= mouse.column <= width ==> end.col + 1 == mouse.column
    &&& mouse.column > width > 0 ==> end.col + 1 == width
    &&& mouse.row <= 1 ==> end.row == 0
    &&& 1 <= mouse.row <= height ==> end.row + 1 == mouse.row
    &&& mouse.row > height > 0 ==> end.row + 1 == height
}

/// Drawing the mouse along draws the selection to it, from where it began. Without a
/// selection it does nothing.
pub proof fn lemma_drag_draws_selection(
    app: AppView,
    mouse: MouseEvent,
    cols: u16,
    rows: u16,
    env_user: Result<Seq<char>, Seq<char>>,
    after: AppView,
    step: StepView,
)
    requires
        app.wf(),
        cols > 2,
        rows > 3,
        mouse.kind is LeftDrag || mouse.kind is LeftUp,
        app.event(EventView::Mouse(mouse), cols, rows, env_user, after, step),
    ensures
        only_selects(app, after),
        mouse.kind is LeftDrag ==> step is Idle,
        match app.selection {
            Some(s) => after.selection matches Some(drawn) && drawn.anchor == s.anchor
                && ends_at_mouse(
                drawn.end,
                mouse,
                cols - 2,
                if app.sessions.len() > 0 || app.file_transfers.len() > 0 {
                    rows - 3
                } else {
                    rows - 2
                },
            ),
            None => after == app,
        },
{
}

/// Releasing the button copies what is selected out of the session that is shown: from
/// the one end to the other, that cell with it, whichever of both was pressed first.
pub proof fn lemma_release_copies(
    app: AppView,
    mouse: MouseEvent,
    cols: u16,
    rows: u16,
    env_user: Result<Seq<char>, Seq<char>>,
    after: AppView,
    step: StepView,
)
    requires
        app.wf(),
        mouse.kind is LeftUp,
        app.event(EventView::Mouse(mouse), cols, rows, env_user, after, step),
    ensures
        match (app.view, after.selection) {
            (screen::View::Session(i), Some(s)) if i < app.sessions.len() => {
                &&& step matches StepView::Copy { session, from, to }
                &&& session == app.sessions[i as int].id
                &&& to.col > 0
                &&& from.row < to.row || from.row == to.row && from.col < to.col
                &&& {
                    let last = ScreenPos { row: to.row, col: (to.col - 1) as u16 };
                    (from == s.anchor && last == s.end) || (from == s.end && last == s.anchor)
                }
            },
            _ => step is Idle,
        },
{
}

/// Nothing else of the mouse does anything.
pub proof fn lemma_other_events_do_nothing(
    app: AppView,
    mouse: MouseEvent,
    cols: u16,
    rows: u16,
    env_user: Result<Seq<char>, Seq<char>>,
    after: AppView,
    step: StepView,
)
    requires
        ({
            ||| mouse.kind is Other && app.event(
                EventView::Mouse(mouse),
                cols,
                rows,
                env_user,
                after,
                step,
            )
            ||| app.event(EventView::Other, cols, rows, env_user, after, step)
        }),
    ensures
        after == app,
        step is Idle,
{
}

// ---------------------------------------------------------------------------
// The frame, pasting, and the time
// ---------------------------------------------------------------------------

/// The terminals get the size of the area that a session is drawn in: the border and
/// the bar of tabs take three rows and two columns. Nothing else changes.
pub proof fn lemma_terminals_fit(
    app: AppView,
    cols: u16,
    rows: u16,
    new_cols: u16,
    new_rows: u16,
    env_user: Result<Seq<char>, Seq<char>>,
    after: AppView,
    step: StepView,
)
    requires
        app.sessions.len() > 0,
        app.event(
            EventView::Resize { cols: new_cols, rows: new_rows },
            cols,
            rows,
            env_user,
            after,
            step,
        ),
    ensures
        after == app,
        step matches StepView::Resize { rows: height, cols: width } && {
            let area = session_area(new_cols, new_rows, true);
            &&& width == area.width && height == area.height
            &&& new_cols >= 2 ==> width + 2 == new_cols
            &&& new_rows >= 3 ==> height + 3 == new_rows
            &&& new_cols < 2 ==> width == 0
            &&& new_rows < 3 ==> height == 0
            &&& terminal_size(app, new_cols, new_rows) == (height, width)
        },
{
}

/// What is pasted into a session goes to its terminal, and the selection is dropped.
pub proof fn lemma_paste_goes_to_session(
    app: AppView,
    text: Seq<char>,
    cols: u16,
    rows: u16,
    env_user: Result<Seq<char>, Seq<char>>,
    after: AppView,
    step: StepView,
    i: usize,
)
    requires
        app.view == screen::View::Session(i),
        i < app.sessions.len(),
        app.event(EventView::Paste(text), cols, rows, env_user, after, step),
    ensures
        step == StepView::PasteInto(app.sessions[i as int].id),
        only_selects(app, after),
        after.selection is None,
{
}

/// Whether one character of a text that is pasted into the host browser was typed, and the
/// text then goes on behind it, unless something is to be done first.
pub open spec fn goes_on(
    app: AppView,
    text: Seq<char>,
    from: int,
    env_user: Result<Seq<char>, Seq<char>>,
    after: AppView,
    step: StepView,
    typed: AppView,
    effect: EffectView,
) -> bool {
    &&& app.hosts_key(pasted(text[from]), env_user, typed, effect)
    &&& if effect is Idle {
        typed.paste_event(screen::View::Hosts, text, from + 1, env_user, after, step)
    } else {
        after == typed && step == (StepView::PasteUpTo {
            view: screen::View::Hosts,
            at: from + 1,
            effect,
        })
    }
}

/// What is pasted into the host browser is typed character by character: the first is a
/// key, and the rest goes on where that has led, unless something is to be done first.
/// With no characters left nothing changes.
pub proof fn lemma_paste_is_typed(
    app: AppView,
    text: Seq<char>,
    from: int,
    env_user: Result<Seq<char>, Seq<char>>,
    after: AppView,
    step: StepView,
)
    requires
        0 <= from <= text.len(),
        app.paste_event(screen::View::Hosts, text, from, env_user, after, step),
    ensures
        from == text.len() ==> after == app && step == (StepView::PasteUpTo {
            view: screen::View::Hosts,
            at: from,
            effect: EffectView::Idle,
        }),
        from < text.len() ==> exists|typed: AppView, effect: EffectView| #[trigger]
            goes_on(app, text, from, env_user, after, step, typed, effect),
{
    let (at, last) = (step->PasteUpTo_at, step->PasteUpTo_effect);
    let states = choose|states: Seq<AppView>| #[trigger]
        paste_run(states, text, from, env_user, last) && states.len() == at - from + 1
            && states[0] == app && states.last() == after;
    if from < text.len() {
        assert(states.len() >= 2);
        let typed = states[1];
        let effect = if states.len() == 2 {
            last
        } else {
            EffectView::Idle
        };
        assert(paste_step(states, text, from, env_user, last, 0));
        assert(app.hosts_key(pasted(text[from]), env_user, typed, effect));
        if effect is Idle {
            let rest = states.drop_first();
            assert forall|i: int| 0 <= i < rest.len() - 1 implies #[trigger] paste_step(
                rest,
                text,
                from + 1,
                env_user,
                last,
                i,
            ) by {
                assert(paste_step(states, text, from, env_user, last, i + 1));
                assert(rest[i] == states[i + 1] && rest[i + 1] == states[i + 2]);
            }
            assert(paste_run(rest, text, from + 1, env_user, last));
            assert(rest[0] == typed && rest.last() == after);
        }
        assert(goes_on(app, text, from, env_user, after, step, typed, effect));
    }
}

/// Whether a state of the application was reached by a key, which asked for something.
pub open spec fn is_reached(state: AppView, c: char, after: AppView, effect: EffectView) -> bool {
    state.file_transfer_key(pasted(c)) == (after, effect)
}

/// Whether a key led to a state, and to what is to be done.
pub open spec fn came_of(c: char, after: AppView, effect: EffectView) -> bool {
    exists|state: AppView| #[trigger] is_reached(state, c, after, effect)
}

/// What is pasted into a file browser is typed character by character, until something is to
/// be done: that came of the last character that was typed, and the others follow it. Without
/// anything to be done the text is typed to its end.
pub proof fn lemma_paste_into_files(app: AppView, text: Seq<char>, from: int)
    requires
        0 <= from <= text.len(),
    ensures
        ({
            let (after, effect, at) = app.file_transfer_paste(text, from);
            &&& from <= at <= text.len()
            &&& effect is Idle ==> at == text.len()
            &&& from == text.len() ==> after == app && effect is Idle
            &&& from < text.len() ==> at > from && came_of(text[at - 1], after, effect)
            &&& at == from + 1 ==> app.file_transfer_key(pasted(text[from])) == (after, effect)
        }),
    decreases text.len() - from,
{
    if from < text.len() {
        let (typed, effect) = app.file_transfer_key(pasted(text[from]));
        assert(is_reached(app, text[from], typed, effect));
        assert(came_of(text[from], typed, effect));
        if effect is Idle {
            lemma_paste_into_files(typed, text, from + 1);
        }
    }
}

/// The notice of a copy is gone once its time is over, and stays until then.
pub proof fn lemma_notice_goes(app: AppView, now: u64)
    ensures
        ({
            let after = notice_expired(app, now);
            &&& after == (AppView { clipboard_notice_until: after.clipboard_notice_until, ..app })
            &&& after.clipboard_notice_until is Some <==> app.clipboard_notice_until is Some
                && now < app.clipboard_notice_until->0
            &&& after.clipboard_notice_until is Some ==> after.clipboard_notice_until
                == app.clipboard_notice_until
        }),
{
}

/// A notice that is shown is still there within two seconds, and gone afterwards.
pub proof fn lemma_notice_stands(app: AppView, now: u64, later: u64)
    requires
        now <= u64::MAX - 2000,
    ensures
        ({
            let after = notice_expired(app.notice_shown(now), later);
            &&& after == (AppView { clipboard_notice_until: after.clipboard_notice_until, ..app })
            &&& after.clipboard_notice_until is Some <==> later < now + 2000
        }),
{
}

/// Each file browser is looked after, and nothing else.
pub proof fn lemma_browsers_are_looked_after(app: AppView, i: int)
    requires
        0 <= i < app.file_transfers.len(),
    ensures
        browsers_polled(app).file_transfers.len() == app.file_transfers.len(),
        browsers_polled(app).file_transfers[i] == app.file_transfers[i].polled(),
        browsers_polled(app) == (AppView {
            file_transfers: browsers_polled(app).file_transfers,
            ..app
        }),
{
}

/// The screen is drawn often while anything can change by itself, and rarely otherwise.
pub proof fn lemma_waits(app: AppView)
    ensures
        (app.sessions.len() > 0 || app.file_transfers.len() > 0 || app.mode is TestResult)
            <==> wait_ms(app) <= 16,
        wait_ms(app) == 16 || wait_ms(app) == 1000,
{
}

// ---------------------------------------------------------------------------
// Keys
// ---------------------------------------------------------------------------

/// With control, the letter at a place of the alphabet sends the number of that place,
/// and in either case the same.
pub proof fn lemma_control_letters(lower: KeyEvent, upper: KeyEvent, c: char, d: char, place: u8)
    requires
        1 <= place <= 26,
        c as int == 'a' as int + place - 1,
        d as int == 'A' as int + place - 1,
        lower.code == KeyCode::Char(c),
        upper.code == KeyCode::Char(d),
        lower.modifiers.bits & 2 != 0,
        upper.modifiers.bits & 2 != 0,
    ensures
        key_bytes(lower) == Some(seq![place]),
        key_bytes(upper) == Some(seq![place]),
{
}

/// Whether bytes are the characters of a text.
pub open spec fn are_chars(bytes: Option<Seq<u8>>, text: Seq<char>) -> bool {
    bytes matches Some(bytes) && bytes.len() == text.len() && forall|i: int|
        0 <= i < text.len() ==> #[trigger] bytes[i] == text[i] as u8
}

/// A pasted character is typed as it is, but for the ends of lines, which are the enter
/// key, and the tab.
pub proof fn lemma_pasted_characters_are_typed(c: char)
    ensures
        match c {
            '\n' | '\r' => key_bytes(pasted(c)) == Some(seq![13u8]),
            '\t' => key_bytes(pasted(c)) == Some(seq![9u8]),
            _ => key_bytes(pasted(c)) == Some(encode_utf8(seq![c])),
        },
        pasted(c).modifiers.bits == 0,
{
    assert(0u8 & 2u8 == 0u8) by (bit_vector);
    assert(0u8 & 4u8 == 0u8) by (bit_vector);
}

/// The keys for moving send the sequences of a terminal, whatever is held down with them.
pub proof fn lemma_moving_keys_send(key: KeyEvent)
    ensures
        key.code is Up ==> are_chars(key_bytes(key), "\x1b[A"@),
        key.code is Down ==> are_chars(key_bytes(key), "\x1b[B"@),
        key.code is Right ==> are_chars(key_bytes(key), "\x1b[C"@),
        key.code is Left ==> are_chars(key_bytes(key), "\x1b[D"@),
        key.code is Home ==> are_chars(key_bytes(key), "\x1b[H"@),
        key.code is End ==> are_chars(key_bytes(key), "\x1b[F"@),
        key.code is PageUp ==> are_chars(key_bytes(key), "\x1b[5~"@),
        key.code is PageDown ==> are_chars(key_bytes(key), "\x1b[6~"@),
        key.code is Insert ==> are_chars(key_bytes(key), "\x1b[2~"@),
        key.code is Delete ==> are_chars(key_bytes(key), "\x1b[3~"@),
        key.code is BackTab ==> are_chars(key_bytes(key), "\x1b[Z"@),
        key.code is Tab ==> are_chars(key_bytes(key), "\t"@),
        key.code is Enter ==> are_chars(key_bytes(key), "\r"@),
        key.code is Esc ==> are_chars(key_bytes(key), "\x1b"@),
        key.code is Backspace ==> are_chars(key_bytes(key), "\x7f"@),
        key.code is Other ==> key_bytes(key) is None,
{
    reveal_strlit("\x1b[A");
    reveal_strlit("\x1b[B");
    reveal_strlit("\x1b[C");
    reveal_strlit("\x1b[D");
    reveal_strlit("\x1b[H");
    reveal_strlit("\x1b[F");
    reveal_strlit("\x1b[5~");
    reveal_strlit("\x1b[6~");
    reveal_strlit("\x1b[2~");
    reveal_strlit("\x1b[3~");
    reveal_strlit("\x1b[Z");
    reveal_strlit("\t");
    reveal_strlit("\r");
    reveal_strlit("\x1b");
    reveal_strlit("\x7f");
}

/// The numbers that the function keys from the fifth on send.
pub open spec fn function_number(n: u8) -> int {
    if n == 5 {
        15
    } else if n <= 10 {
        n + 11
    } else {
        n + 12
    }
}

/// Twelve function keys send something: the first four a letter in order, and the others
/// their number.
pub proof fn lemma_function_keys_send(key: KeyEvent, n: u8)
    requires
        key.code == KeyCode::F(n),
    ensures
        (key_bytes(key) is Some) == (1 <= n <= 12),
        1 <= n <= 4 ==> key_bytes(key) == Some(seq![27u8, 'O' as u8, ('P' as u8 + n - 1) as u8]),
        5 <= n <= 12 ==> key_bytes(key) == Some(
            seq![
                27u8,
                '[' as u8,
                (48 + function_number(n) / 10) as u8,
                (48 + function_number(n) % 10) as u8,
                '~' as u8,
            ],
        ),
{
}

// ---------------------------------------------------------------------------
// Terminals
// ---------------------------------------------------------------------------

/// The markers are put around pasted text and do not touch it.
pub proof fn lemma_pasted_text_is_kept(text: Seq<char>)
    ensures
        pasted_text(text, false) == text,
        pasted_text(text, true).len() == text.len() + 12,
        stands_at(pasted_text(text, true), "\x1b[200~"@, 0),
        stands_at(pasted_text(text, true), text, 6),
        stands_at(pasted_text(text, true), "\x1b[201~"@, text.len() + 6int),
{
    reveal_strlit("\x1b[200~");
    reveal_strlit("\x1b[201~");
    let all = pasted_text(text, true);
    assert(all.subrange(0, 6) =~= "\x1b[200~"@);
    assert(all.subrange(6, text.len() + 6int) =~= text);
    assert(all.subrange(text.len() + 6int, text.len() + 12int) =~= "\x1b[201~"@);
}

/// Scrolling down leads back to where one was before scrolling up as far, and no further than
/// to the end of the output.
pub proof fn lemma_scrolling_leads_back(current: usize, up: usize, down: usize)
    requires
        current + up <= usize::MAX,
    ensures
        further_back(current, up) == current + up,
        less_far_back(further_back(current, up) as usize, up) == current,
        less_far_back(current, down) == 0 || less_far_back(current, down) + down == current,
        less_far_back(current, down) == 0 <==> current <= down,
{
}

/// Where the cursor is, is told by its row and its column, both counted from one, and the
/// two ways to ask differ by a question mark. The size is told by rows and columns.
pub proof fn lemma_reports_tell(cursor: (u16, u16), size: (u16, u16))
    ensures
        csi_answer(None, None, 6, 'n', cursor, size) == Some(
            "\x1b["@ + decimal(cursor.0 as nat + 1) + ";"@ + decimal(cursor.1 as nat + 1) + "R"@,
        ),
        csi_answer(Some('?' as u8), None, 6, 'n', cursor, size) == Some(
            "\x1b[?"@ + decimal(cursor.0 as nat + 1) + ";"@ + decimal(cursor.1 as nat + 1) + "R"@,
        ),
        csi_answer(None, None, 18, 't', cursor, size) == Some(
            "\x1b[8;"@ + decimal(size.0 as nat) + ";"@ + decimal(size.1 as nat) + "t"@,
        ),
{
}

/// What a control sequence asks for is its first number, whatever follows it, and zero where
/// there is none.
pub proof fn lemma_first_number_counts(params: Seq<&[u16]>, others: Seq<&[u16]>)
    ensures
        params.len() == 0 ==> first_number(params) == 0,
        params.len() > 0 && params[0]@.len() == 0 ==> first_number(params) == 0,
        params.len() > 0 && params[0]@.len() > 0 ==> first_number(params) == params[0]@[0],
        params.len() > 0 ==> first_number(params + others) == first_number(params),
{
}

/// The other answers do not depend on the cursor or the size, and there are no others.
pub proof fn lemma_other_answers(
    i1: Option<u8>,
    i2: Option<u8>,
    param: u16,
    c: char,
    cursor: (u16, u16),
    size: (u16, u16),
)
    ensures
        csi_answer(i1, i2, param, c, cursor, size) is Some <==> i2 is None && {
            ||| i1 is None && c == 'c' && param == 0
            ||| i1 is None && c == 'n' && (param == 5 || param == 6)
            ||| i1 is None && c == 't' && param == 18
            ||| i1 == Some('>' as u8) && c == 'c'
            ||| i1 == Some('?' as u8) && c == 'n' && param == 6
        },
        c == 'c' && i1 is None && i2 is None && param == 0 ==> csi_answer(
            i1,
            i2,
            param,
            c,
            cursor,
            size,
        ) == escape_answer(None, None, 'Z' as u8),
        c == 'n' && i1 is None && i2 is None && param == 5 ==> csi_answer(
            i1,
            i2,
            param,
            c,
            cursor,
            size,
        ) == Some("\x1b[0n"@),
        c == 'c' && i1 == Some('>' as u8) && i2 is None ==> csi_answer(
            i1,
            i2,
            param,
            c,
            cursor,
            size,
        ) == Some("\x1b[>0;136;0c"@),
{
}

/// `ESC Z` alone is answered, by the attributes of a terminal with advanced video.
pub proof fn lemma_identification(i1: Option<u8>, i2: Option<u8>, b: u8)
    ensures
        escape_answer(i1, i2, b) is Some <==> i1 is None && i2 is None && b == 'Z' as u8,
        escape_answer(i1, i2, b) is Some ==> escape_answer(i1, i2, b) == Some("\x1b[?1;2c"@),
{
}

/// A colour is told where one is asked for: the answer repeats which, and the background
/// is black and the others are white.
pub proof fn lemma_colours_are_told(params: Seq<Seq<u8>>)
    ensures
        osc_answer(params) is Some <==> params.len() == 2 && params[1] =~= seq!['?' as u8] && (
        params[0] =~= seq!['1' as u8, '0' as u8] || params[0] =~= seq!['1' as u8, '1' as u8]
            || params[0] =~= seq!['1' as u8, '2' as u8]),
        osc_answer(params) matches Some(answer) ==> {
            &&& answer.len() == 25
            &&& answer[2] as u8 == params[0][0] && answer[3] as u8 == params[0][1]
            &&& stands_at(answer, ";rgb:"@, 4)
            &&& params[0][1] == '1' as u8 ==> stands_at(answer, "0000/0000/0000"@, 9)
            &&& params[0][1] != '1' as u8 ==> stands_at(answer, "ffff/ffff/ffff"@, 9)
        },
{
    reveal_strlit("\x1b]10;rgb:ffff/ffff/ffff\x1b\\");
    reveal_strlit("\x1b]11;rgb:0000/0000/0000\x1b\\");
    reveal_strlit("\x1b]12;rgb:ffff/ffff/ffff\x1b\\");
    reveal_strlit(";rgb:");
    reveal_strlit("0000/0000/0000");
    reveal_strlit("ffff/ffff/ffff");
    assert(seq![0x31u8, 0x30u8][1] == 0x30);
    assert(seq![0x31u8, 0x31u8][1] == 0x31);
    assert(seq![0x31u8, 0x32u8][1] == 0x32);
    if let Some(answer) = osc_answer(params) {
        assert(answer.subrange(4, 9) =~= ";rgb:"@);
        if params[0][1] == 0x31 {
            assert(answer.subrange(9, 23) =~= "0000/0000/0000"@);
        } else {
            assert(answer.subrange(9, 23) =~= "ffff/ffff/ffff"@);
        }
    }
}

// ---------------------------------------------------------------------------
// Checks of hosts
// ---------------------------------------------------------------------------

/// A check goes on after an address that did not answer, and ends otherwise. It went well
/// if and only if an address answered.
pub proof fn lemma_check_ends(probe: ProbeView, reply: ProbeReply)
    ensures
        probe.after(reply).1 is None <==> reply is Refused,
        probe.after(reply).0.port == probe.port,
        probe.after(reply).1 matches Some(TestStatusView::Done { success, message }) ==> success
            == (reply is Connected) && (reply matches ProbeReply::Unresolved(error) ==> message
            == error@),
        !(probe.after(reply).1 matches Some(TestStatusView::Testing)),
        reply matches ProbeReply::Refused(error) ==> probe.after(reply).0.after(
            ProbeReply::NoMore,
        ).1 == Some(TestStatusView::Done { success: false, message: error@ }),
{
}

/// A check goes well if and only if one of the addresses answers. Otherwise it tells what
/// was said of the last one.
pub proof fn lemma_check_tries_every_address(
    probe: ProbeView,
    attempts: Seq<Result<(), Seq<char>>>,
)
    ensures
        probe.outcome(attempts) matches TestStatusView::Done { success, message } && {
            &&& success <==> exists|i: int| 0 <= i < attempts.len() && #[trigger] attempts[i] is Ok
            &&& success ==> stands_at(message, decimal(probe.port as nat), "Port "@.len() as int)
            &&& !success && attempts.len() > 0 ==> attempts.last() == Err::<(), Seq<char>>(message)
        },
    decreases attempts.len(),
{
    let said = "Port "@ + decimal(probe.port as nat) + " is open"@;
    let at = "Port "@.len() as int;
    assert(said.subrange(at, at + decimal(probe.port as nat).len()) =~= decimal(
        probe.port as nat,
    ));
    if attempts.len() > 0 {
        match attempts[0] {
            Ok(_) => {},
            Err(error) => {
                let next = ProbeView { last_error: Some(error), ..probe };
                let rest = attempts.drop_first();
                lemma_check_tries_every_address(next, rest);
                if exists|i: int| 0 <= i < attempts.len() && #[trigger] attempts[i] is Ok {
                    let i = choose|i: int| 0 <= i < attempts.len() && #[trigger] attempts[i] is Ok;
                    assert(rest[i - 1] is Ok);
                }
                if exists|i: int| 0 <= i < rest.len() && #[trigger] rest[i] is Ok {
                    let i = choose|i: int| 0 <= i < rest.len() && #[trigger] rest[i] is Ok;
                    assert(attempts[i + 1] is Ok);
                }
                if rest.len() > 0 {
                    assert(rest.last() == attempts.last());
                }
            },
        }
    }
}

// ---------------------------------------------------------------------------
// Sizes
// ---------------------------------------------------------------------------

/// Whether a text is a number of tenths, in a unit.
pub open spec fn tells_tenths(text: Seq<char>, tenths: int, unit: Seq<char>) -> bool {
    0 <= tenths && text == decimal((tenths / 10) as nat) + "."@ + decimal((tenths % 10) as nat) + unit
}

/// The text of a size and the unit that it is in.
pub open spec fn is_size_in(text: Seq<char>, bytes: u64, unit: int, name: Seq<char>) -> bool {
    exists|t: int| #[trigger]
        tells_tenths(text, t, name) && {
            let off = 10 * bytes - t * unit;
            -(unit + 20480) <= 2 * off <= unit + 20480 && (bytes < 9007199254740992 ==> -unit <= 2
                * off <= unit)
        }
}

proof fn lemma_rounded_is_near(a: int, b: int)
    requires
        a >= 0,
        b > 0,
    ensures
        rounded(a, b) >= 0,
        -b <= 2 * (a - rounded(a, b) * b) <= b,
{
    let q = a / b;
    vstd::arithmetic::div_mod::lemma_fundamental_div_mod(a, b);
    vstd::arithmetic::div_mod::lemma_mod_bound(a, b);
    vstd::arithmetic::div_mod::lemma_div_pos_is_pos(a, b);
    assert(b * q == q * b) by (nonlinear_arith);
    assert((q + 1) * b == q * b + b) by (nonlinear_arith);
}

proof fn lemma_size_in(bytes: u64, unit: u64, name: Seq<char>)
    requires
        unit > 0,
    ensures
        is_size_in(crate::sizes::fixed_point(tenths(bytes, unit)) + name, bytes, unit as int, name),
{
    let text = crate::sizes::fixed_point(tenths(bytes, unit)) + name;
    let t = tenths(bytes, unit);
    let g = grain(bytes);
    lemma_rounded_is_near(bytes as int, g);
    let near = rounded(bytes as int, g);
    assert(near * g >= 0) by (nonlinear_arith)
        requires
            near >= 0,
            g >= 1,
    ;
    lemma_rounded_is_near(10 * in_double(bytes), unit as int);
    assert(tells_tenths(text, t, name));
    if bytes < 9007199254740992 {
        assert(near * 1 == near) by (nonlinear_arith);
        assert(in_double(bytes) == bytes) by {
            assert(rounded(bytes as int, 1) == bytes) by {
                vstd::arithmetic::div_mod::lemma_div_basics(bytes as int);
                assert(bytes as int % 1 == 0);
            }
        }
    }
}

/// A size is told in the largest of the units that it reaches, to the nearest tenth, and
/// below a kilobyte in bytes. From 2 to the 53rd on it is rounded in double precision first.
pub proof fn lemma_sizes_are_told(bytes: u64)
    ensures
        bytes < 1024 ==> size_text(bytes) == decimal(bytes as nat) + " B"@,
        1024 <= bytes < 1048576 ==> is_size_in(size_text(bytes), bytes, 1024, " KB"@),
        1048576 <= bytes < 1073741824 ==> is_size_in(
            size_text(bytes),
            bytes,
            1048576,
            " MB"@,
        ),
        1073741824 <= bytes ==> is_size_in(
            size_text(bytes),
            bytes,
            1073741824,
            " GB"@,
        ),
{
    lemma_size_in(bytes, 1024, " KB"@);
    lemma_size_in(bytes, 1048576, " MB"@);
    lemma_size_in(bytes, 1073741824, " GB"@);
}

} // verus!
