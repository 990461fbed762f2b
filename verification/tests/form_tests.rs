//! The front end's input model: field editing, focus movement, and the
//! key-press decisions of the application loop.

use zkpod::form::{
    decide_key, home_key, AppAction, AppWindow, HomeReaction, InputForm, KeyPress, StringField,
};

#[test]
fn home_list_reacts_to_navigation_and_quit_keys() {
    assert_eq!(home_key(&KeyPress::Char('j')), HomeReaction::NavigateNext);
    assert_eq!(home_key(&KeyPress::Down), HomeReaction::NavigateNext);
    assert_eq!(home_key(&KeyPress::Char('k')), HomeReaction::NavigatePrevious);
    assert_eq!(home_key(&KeyPress::Up), HomeReaction::NavigatePrevious);
    assert_eq!(home_key(&KeyPress::Char('q')), HomeReaction::Quit);
    assert_eq!(home_key(&KeyPress::Esc), HomeReaction::Quit);
    assert_eq!(home_key(&KeyPress::Enter), HomeReaction::ChooseSelected);
    assert_eq!(home_key(&KeyPress::Char('x')), HomeReaction::Ignore);
    assert_eq!(home_key(&KeyPress::Tab), HomeReaction::Ignore);
}

#[test]
fn field_editing_appends_and_removes() {
    let mut f = StringField::new("Issuer ID", "Cha".to_string());
    f.on_key_press(&KeyPress::Char('i'));
    f.on_key_press(&KeyPress::Char('n'));
    assert_eq!(f.value, "Chain");
    f.on_key_press(&KeyPress::Backspace);
    assert_eq!(f.value, "Chai");
    f.on_key_press(&KeyPress::Enter);
    assert_eq!(f.value, "Chai");
    assert_eq!(f.label, "Issuer ID");
}

#[test]
fn backspace_on_empty_field_is_harmless() {
    let mut f = StringField::new("x", String::new());
    f.on_key_press(&KeyPress::Backspace);
    assert_eq!(f.value, "");
}

#[test]
fn cursor_offset_counts_label_value_and_separator() {
    let f = StringField::new("ab", "cdef".to_string());
    assert_eq!(f.cursor_offset(), 8);
}

#[test]
fn focus_moves_and_stops_at_the_ends() {
    let mut form = InputForm {
        focus: 0,
        fields: vec![
            StringField::new("one", "1".to_string()),
            StringField::new("two", "2".to_string()),
        ],
    };
    form.on_key_press(&KeyPress::BackTab);
    assert_eq!(form.focus, 0);
    form.on_key_press(&KeyPress::Tab);
    assert_eq!(form.focus, 1);
    form.on_key_press(&KeyPress::Down);
    assert_eq!(form.focus, 1);
    form.on_key_press(&KeyPress::Up);
    assert_eq!(form.focus, 0);
}

#[test]
fn typing_edits_only_the_focused_field() {
    let mut form = InputForm {
        focus: 1,
        fields: vec![
            StringField::new("one", "1".to_string()),
            StringField::new("two", "2".to_string()),
        ],
    };
    form.on_key_press(&KeyPress::Char('!'));
    assert_eq!(form.get_form_fields(), vec!["1".to_string(), "2!".to_string()]);
}

#[test]
fn get_form_fields_returns_values_in_order() {
    let form = InputForm {
        focus: 0,
        fields: vec![
            StringField::new("a", "first".to_string()),
            StringField::new("b", "second".to_string()),
            StringField::new("c", "third".to_string()),
        ],
    };
    assert_eq!(
        form.get_form_fields(),
        vec!["first".to_string(), "second".to_string(), "third".to_string()]
    );
}

#[test]
fn escape_quits_home_and_closes_other_windows() {
    assert_eq!(decide_key(&AppWindow::Home, &KeyPress::Esc, None), AppAction::Cancel);
    assert_eq!(decide_key(&AppWindow::Prove, &KeyPress::Esc, None), AppAction::CloseToHome);
    assert_eq!(decide_key(&AppWindow::Result, &KeyPress::Esc, None), AppAction::CloseToHome);
}

#[test]
fn enter_submits_forms_and_opens_home_selection() {
    assert_eq!(decide_key(&AppWindow::Gen, &KeyPress::Enter, None), AppAction::Submit);
    assert_eq!(decide_key(&AppWindow::Verify, &KeyPress::Enter, None), AppAction::Submit);
    assert_eq!(
        decide_key(&AppWindow::Home, &KeyPress::Enter, Some(0)),
        AppAction::OpenWindow(AppWindow::Gen)
    );
    assert_eq!(
        decide_key(&AppWindow::Home, &KeyPress::Enter, Some(1)),
        AppAction::OpenWindow(AppWindow::Prove)
    );
    assert_eq!(
        decide_key(&AppWindow::Home, &KeyPress::Enter, Some(2)),
        AppAction::OpenWindow(AppWindow::Verify)
    );
    assert_eq!(decide_key(&AppWindow::Home, &KeyPress::Enter, Some(9)), AppAction::Stay);
    assert_eq!(decide_key(&AppWindow::Home, &KeyPress::Enter, None), AppAction::Stay);
}

#[test]
fn other_keys_edit_forms_or_quit_from_home() {
    assert_eq!(decide_key(&AppWindow::Gen, &KeyPress::Char('x'), None), AppAction::EditForm);
    assert_eq!(
        decide_key(&AppWindow::Home, &KeyPress::Char('q'), Some(410)),
        AppAction::Cancel
    );
    assert_eq!(decide_key(&AppWindow::Home, &KeyPress::Char('j'), None), AppAction::Stay);
    assert_eq!(decide_key(&AppWindow::Result, &KeyPress::Char('x'), None), AppAction::CloseToHome);
}
