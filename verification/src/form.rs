//! The input model of the terminal front end.
//!
//! The drawing is the front end's own business; what is modelled and
//! verified here is the state it edits: labelled text fields gathered in
//! forms, the focus movement between them, and the decision each key
//! press triggers in the application loop.

use crate::strutil::{clone_string, pop_char, push_char};
use vstd::prelude::*;

verus! {

/// A key press, reduced to what the application logic reads of it.
pub enum KeyPress {
    Char(char),
    Backspace,
    Tab,
    BackTab,
    Up,
    Down,
    Enter,
    Esc,
    Other,
}

/// The mathematical model of a text field.
pub ghost struct FieldModel {
    pub label: Seq<char>,
    pub value: Seq<char>,
}

/// One labelled text field of a form.
pub struct StringField {
    pub label: &'static str,
    pub value: String,
}

impl View for StringField {
    type V = FieldModel;

    open spec fn view(&self) -> FieldModel {
        FieldModel { label: self.label@, value: self.value@ }
    }
}

impl DeepView for StringField {
    type V = FieldModel;

    open spec fn deep_view(&self) -> FieldModel {
        self@
    }
}

impl StringField {
    /// A field with the given label and starting text.
    pub fn new(label: &'static str, value: String) -> (r: StringField)
        ensures
            r@.label == label@,
            r@.value == value@,
    {
        StringField { label, value }
    }

    /// Typed characters append to the value, backspace removes the last
    /// character, and every other key leaves the field unchanged.
    pub fn on_key_press(&mut self, key: &KeyPress)
        ensures
            final(self)@.label == old(self)@.label,
            (match key {
                KeyPress::Char(c) => final(self)@.value == old(self)@.value.push(*c),
                KeyPress::Backspace => final(self)@.value == (if old(self)@.value.len() > 0 {
                    old(self)@.value.drop_last()
                } else {
                    old(self)@.value
                }),
                _ => *final(self) == *old(self),
            }),
    {
        match key {
            KeyPress::Char(c) => push_char(&mut self.value, *c),
            KeyPress::Backspace => pop_char(&mut self.value),
            _ => {},
        }
    }

    /// Where the cursor stands: just after the rendered `label: value`
    /// text, measured in bytes as the front end draws it.
    pub fn cursor_offset(&self) -> (x: i32)
        requires
            vstd::utf8::encode_utf8(self@.label).len() + vstd::utf8::encode_utf8(self@.value).len()
                + 2 <= i32::MAX,
        ensures
            x == vstd::utf8::encode_utf8(self@.label).len() + vstd::utf8::encode_utf8(
                self@.value,
            ).len() + 2,
    {
        (self.label.len() + self.value.as_str().len() + 2) as i32
    }
}

/// A form: labelled fields and the index of the focused one.
pub struct InputForm {
    pub focus: usize,
    pub fields: Vec<StringField>,
}

impl InputForm {
    /// A well-formed form keeps its focus on an existing field.
    pub open spec fn wf(&self) -> bool {
        self.fields.len() > 0 && self.focus < self.fields.len()
    }

    /// Tab and down move the focus forward, shift-tab and up move it
    /// back, both stopping at the ends; any other key goes to the
    /// focused field.
    pub fn on_key_press(&mut self, key: &KeyPress)
        requires
            old(self).wf(),
        ensures
            final(self).wf(),
            final(self).fields@.len() == old(self).fields@.len(),
            (match key {
                KeyPress::Tab | KeyPress::Down => {
                    &&& final(self).fields@ == old(self).fields@
                    &&& final(self).focus == (if old(self).focus + 1 < old(self).fields@.len() {
                        old(self).focus + 1
                    } else {
                        old(self).focus as int
                    })
                },
                KeyPress::BackTab | KeyPress::Up => {
                    &&& final(self).fields@ == old(self).fields@
                    &&& final(self).focus == (if old(self).focus > 0 {
                        old(self).focus - 1
                    } else {
                        0
                    })
                },
                _ => {
                    &&& final(self).focus == old(self).focus
                    &&& final(self).fields@.len() == old(self).fields@.len()
                    &&& (forall|i: int|
                        0 <= i < old(self).fields@.len() && i != old(self).focus
                            ==> final(self).fields@[i] == #[trigger] old(self).fields@[i])
                    &&& final(self).fields@[old(self).focus as int]@.label == old(
                        self,
                    ).fields@[old(self).focus as int]@.label
                    &&& (match key {
                        KeyPress::Char(c) => final(self).fields@[old(self).focus as int]@.value
                            == old(self).fields@[old(self).focus as int]@.value.push(*c),
                        KeyPress::Backspace => final(self).fields@[old(self).focus as int]@.value
                            == (if old(self).fields@[old(self).focus as int]@.value.len() > 0 {
                            old(self).fields@[old(self).focus as int]@.value.drop_last()
                        } else {
                            old(self).fields@[old(self).focus as int]@.value
                        }),
                        _ => final(self).fields@[old(self).focus as int]
                            == old(self).fields@[old(self).focus as int],
                    })
                },
            }),
    {
        match key {
            KeyPress::Tab | KeyPress::Down => {
                if self.focus < self.fields.len() - 1 {
                    self.focus = self.focus + 1;
                }
            },
            KeyPress::BackTab | KeyPress::Up => {
                if self.focus > 0 {
                    self.focus = self.focus - 1;
                }
            },
            _ => {
                let focus = self.focus;
                let label = self.fields[focus].label;
                let value = clone_string(&self.fields[focus].value);
                let mut field = StringField { label, value };
                field.on_key_press(key);
                let ghost fm = field@;
                self.fields.set(focus, field);
                proof {
                    assert(self.fields@[focus as int]@ == fm);
                }
            },
        }
    }

    /// The current text of every field, in order.
    pub fn get_form_fields(&self) -> (r: Vec<String>)
        ensures
            r.deep_view().len() == self.fields@.len(),
            forall|i: int|
                0 <= i < self.fields@.len() ==> r.deep_view()[i] == #[trigger] self.fields@[i]@.value,
    {
        let mut out: Vec<String> = Vec::new();
        let n = self.fields.len();
        let mut i: usize = 0;
        while i < n
            invariant
                n == self.fields@.len(),
                0 <= i <= n,
                out.deep_view().len() == i,
                forall|j: int|
                    0 <= j < i ==> out.deep_view()[j] == #[trigger] self.fields@[j]@.value,
            decreases n - i,
        {
            out.push(clone_string(&self.fields[i].value));
            i = i + 1;
        }
        out
    }
}

/// The windows of the front end.
#[derive(Clone, Copy, Debug, PartialEq, Eq, Structural)]
pub enum AppWindow {
    Home,
    Gen,
    Prove,
    Verify,
    Result,
}

/// The run states of the front end.
#[derive(Clone, Copy, Debug, PartialEq, Eq, Structural)]
pub enum AppState {
    Running,
    Cancelled,
    Submitted,
}

/// What one key press makes the application do next.
#[derive(Clone, Copy, Debug, PartialEq, Eq, Structural)]
pub enum AppAction {
    /// Leave the application.
    Cancel,
    /// Close the current window and return to the home screen.
    CloseToHome,
    /// Submit the current window's form.
    Submit,
    /// Open the given window.
    OpenWindow(AppWindow),
    /// Hand the key to the current window's form.
    EditForm,
    /// Nothing changes.
    Stay,
}

/// The decision the application takes for a key press: `home_choice` is
/// what the home screen's selection list answered for the same key, if
/// anything.  The home list answers the quit code for `q` and Escape,
/// and the selected entry for Enter.
pub open spec fn decide_key_spec(
    window: AppWindow,
    key: KeyPress,
    home_choice: Option<usize>,
) -> AppAction {
    match key {
        KeyPress::Esc => {
            if window is Home {
                AppAction::Cancel
            } else {
                AppAction::CloseToHome
            }
        },
        KeyPress::Enter => {
            if window is Home {
                match home_choice {
                    Some(0) => AppAction::OpenWindow(AppWindow::Gen),
                    Some(1) => AppAction::OpenWindow(AppWindow::Prove),
                    Some(2) => AppAction::OpenWindow(AppWindow::Verify),
                    _ => AppAction::Stay,
                }
            } else {
                AppAction::Submit
            }
        },
        _ => {
            match window {
                AppWindow::Gen | AppWindow::Prove | AppWindow::Verify => AppAction::EditForm,
                AppWindow::Home => {
                    if home_choice == Some(410usize) {
                        AppAction::Cancel
                    } else {
                        AppAction::Stay
                    }
                },
                AppWindow::Result => AppAction::CloseToHome,
            }
        },
    }
}

/// What the home screen's selection list does with a key press.
#[derive(Clone, Copy, Debug, PartialEq, Eq, Structural)]
pub enum HomeReaction {
    /// Move the highlight down.
    NavigateNext,
    /// Move the highlight up.
    NavigatePrevious,
    /// Leave the application; the list answers its quit code.
    Quit,
    /// Answer the highlighted entry.
    ChooseSelected,
    /// Nothing.
    Ignore,
}

/// The home list's reaction to a key press: `j` and down navigate
/// forward, `k` and up navigate back, `q` and Escape quit, Enter chooses
/// the highlighted entry.
pub open spec fn home_key_spec(key: KeyPress) -> HomeReaction {
    match key {
        KeyPress::Char(c) => {
            if c == 'j' {
                HomeReaction::NavigateNext
            } else if c == 'k' {
                HomeReaction::NavigatePrevious
            } else if c == 'q' {
                HomeReaction::Quit
            } else {
                HomeReaction::Ignore
            }
        },
        KeyPress::Down => HomeReaction::NavigateNext,
        KeyPress::Up => HomeReaction::NavigatePrevious,
        KeyPress::Esc => HomeReaction::Quit,
        KeyPress::Enter => HomeReaction::ChooseSelected,
        _ => HomeReaction::Ignore,
    }
}

/// Decides what the home screen's list does with a key press.
pub fn home_key(key: &KeyPress) -> (r: HomeReaction)
    ensures
        r == home_key_spec(*key),
{
    match key {
        KeyPress::Char(c) => {
            if *c == 'j' {
                HomeReaction::NavigateNext
            } else if *c == 'k' {
                HomeReaction::NavigatePrevious
            } else if *c == 'q' {
                HomeReaction::Quit
            } else {
                HomeReaction::Ignore
            }
        },
        KeyPress::Down => HomeReaction::NavigateNext,
        KeyPress::Up => HomeReaction::NavigatePrevious,
        KeyPress::Esc => HomeReaction::Quit,
        KeyPress::Enter => HomeReaction::ChooseSelected,
        _ => HomeReaction::Ignore,
    }
}

/// Decides what a key press does in the application loop.
pub fn decide_key(window: &AppWindow, key: &KeyPress, home_choice: Option<usize>) -> (a: AppAction)
    ensures
        a == decide_key_spec(*window, *key, home_choice),
{
    match key {
        KeyPress::Esc => {
            if matches!(window, AppWindow::Home) {
                AppAction::Cancel
            } else {
                AppAction::CloseToHome
            }
        },
        KeyPress::Enter => {
            if matches!(window, AppWindow::Home) {
                match home_choice {
                    Some(0) => AppAction::OpenWindow(AppWindow::Gen),
                    Some(1) => AppAction::OpenWindow(AppWindow::Prove),
                    Some(2) => AppAction::OpenWindow(AppWindow::Verify),
                    _ => AppAction::Stay,
                }
            } else {
                AppAction::Submit
            }
        },
        _ => {
            match window {
                AppWindow::Gen | AppWindow::Prove | AppWindow::Verify => AppAction::EditForm,
                AppWindow::Home => {
                    let quit = match home_choice {
                        Some(v) => v == 410,
                        None => false,
                    };
                    if quit {
                        AppAction::Cancel
                    } else {
                        AppAction::Stay
                    }
                },
                AppWindow::Result => AppAction::CloseToHome,
            }
        },
    }
}

} // verus!
