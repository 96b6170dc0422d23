//! Line inputs.
use vstd::prelude::*;
use crate::keys::{KeyCode as K, KeyEvent};
use crossterm::event::{Event, KeyCode as C, KeyEvent as CE, KeyModifiers as CM};
use tui_input::Input;
use tui_input::backend::crossterm::EventHandler;

verus! {

/// A line of text with a cursor, from the crate `tui-input`.
#[verifier::external_type_specification]
#[verifier::external_body]
pub struct ExInput(tui_input::Input);

/// The characters that an input holds.
pub uninterp spec fn input_text(input: tui_input::Input) -> Seq<char>;

/// How many characters stand before an input's cursor.
pub uninterp spec fn input_cursor(input: tui_input::Input) -> nat;

/// What an input cut last, and whether its last request was a cut.
pub uninterp spec fn input_cut(input: tui_input::Input) -> (Seq<char>, bool);

/// The model of an input.
#[verifier::ext_equal]
pub struct InputView {
    pub text: Seq<char>,
    pub cursor: nat,
    pub cut: (Seq<char>, bool),
}

/// The model of an input.
pub open spec fn input_view(input: tui_input::Input) -> InputView {
    InputView { text: input_text(input), cursor: input_cursor(input), cut: input_cut(input) }
}

/// What `tui_input::Input` becomes on a key, and whether the key meant anything
/// to it.
pub uninterp spec fn edited(
    text: Seq<char>,
    cursor: nat,
    cut: (Seq<char>, bool),
    code: K,
    modifiers: u8,
) -> (Seq<char>, nat, (Seq<char>, bool), bool);

/// How many columns of the screen stand before the cursor of a text.
pub uninterp spec fn cursor_column(text: Seq<char>, cursor: nat) -> usize;

impl InputView {
    /// An input that holds a text, with the cursor at its end.
    pub open spec fn new(text: Seq<char>) -> InputView {
        InputView { text, cursor: text.len(), cut: (seq![], false) }
    }

    /// An empty input.
    pub open spec fn empty() -> InputView {
        InputView::new(seq![])
    }

    /// The input without its text.
    pub open spec fn reset(self) -> InputView {
        InputView { text: seq![], cursor: 0, cut: self.cut }
    }

    /// The input after a key.
    pub open spec fn after(self, key: KeyEvent) -> InputView {
        let r = edited(self.text, self.cursor, self.cut, key.code, key.modifiers.bits);
        InputView { text: r.0, cursor: r.1, cut: r.2 }
    }

    /// Whether a key means anything to the input.
    pub open spec fn takes(self, key: KeyEvent) -> bool {
        edited(self.text, self.cursor, self.cut, key.code, key.modifiers.bits).3
    }

    /// The column of the cursor.
    pub open spec fn column(self) -> usize {
        cursor_column(self.text, self.cursor)
    }
}

/// `tui_input::Input::new` holds the given text, with the cursor at its end and
/// nothing cut.
pub assume_specification[ tui_input::Input::new ](value: String) -> (input: tui_input::Input)
    ensures
        input_text(input) == value@,
        input_cursor(input) == value@.len(),
        input_cut(input) == (Seq::<char>::empty(), false),
;

/// `tui_input::Input::value` gives the text.
pub assume_specification[ tui_input::Input::value ](input: &tui_input::Input) -> (text: &str)
    ensures
        text@ == input_text(*input),
;

/// `tui_input::Input::reset` drops the text and moves the cursor to the start.
/// What was cut stays.
pub assume_specification[ tui_input::Input::reset ](input: &mut tui_input::Input)
    ensures
        input_text(*final(input)) == Seq::<char>::empty(),
        input_cursor(*final(input)) == 0,
        input_cut(*final(input)) == input_cut(*old(input)),
;

/// `tui_input::Input::visual_cursor` depends on the text and the cursor alone.
pub assume_specification[ tui_input::Input::visual_cursor ](input: &tui_input::Input) -> (column:
    usize)
    ensures
        column == cursor_column(input_text(*input), input_cursor(*input)),
;

/// Calls `tui_input::backend::crossterm::EventHandler::handle_event` with a key
/// press.
///
/// What the input becomes depends on what it was, on the key and on the
/// modifiers. A character without modifiers, or with shift alone, goes in at
/// the cursor. A key that means nothing leaves the text and the cursor alone. Of
/// the other keys nothing but that dependence is stated.
#[verifier::external_body]
pub(crate) fn handle_key(input: &mut tui_input::Input, key: KeyEvent) -> (taken: bool)
    ensures
        ({
            let r = edited(
                input_text(*old(input)),
                input_cursor(*old(input)),
                input_cut(*old(input)),
                key.code,
                key.modifiers.bits,
            );
            input_text(*final(input)) == r.0 && input_cursor(*final(input)) == r.1 && input_cut(
                *final(input),
            ) == r.2 && taken == r.3
        }),
        key.code matches K::Char(c) ==> key.modifiers.bits <= 1 && input_cursor(*old(input))
            <= input_text(*old(input)).len() ==> input_text(*final(input)) == input_text(
            *old(input),
        ).insert(input_cursor(*old(input)) as int, c) && input_cursor(*final(input))
            == input_cursor(*old(input)) + 1 && taken,
        !taken ==> input_text(*final(input)) == input_text(*old(input)) && input_cursor(
            *final(input),
        ) == input_cursor(*old(input)),
{
    let code = match key.code {
        K::Char(c) => C::Char(c), K::F(n) => C::F(n), K::Enter => C::Enter,
        K::Tab => C::Tab, K::BackTab => C::BackTab, K::Backspace => C::Backspace,
        K::Esc => C::Esc, K::Up => C::Up, K::Down => C::Down, K::Left => C::Left,
        K::Right => C::Right, K::Home => C::Home, K::End => C::End,
        K::Insert => C::Insert, K::Delete => C::Delete, K::PageUp => C::PageUp,
        K::PageDown => C::PageDown, K::Other => C::Null,
    };
    input.handle_event(&Event::Key(CE::new(code, CM::from_bits_truncate(key.modifiers.bits)))).is_some()
}

/// An empty input.
pub fn empty_input() -> (input: tui_input::Input)
    ensures
        input_view(input) == InputView::empty(),
{
    tui_input::Input::new(String::new())
}

} // verus!
