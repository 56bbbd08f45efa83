use tordln::modal::ModalOutcome;
use tordln::input::Key;
use tordln::modal::{checkbox, slider_bar, AddModal, ModalFocus};

fn modal(n: usize) -> AddModal {
    let names: Vec<String> = (0..n).map(|i| format!("file{i}")).collect();
    AddModal::new("/dl", names)
}

#[test]
fn new_modal_defaults() {
    let m = modal(2);
    assert_eq!(m.path, "/dl");
    assert!(!m.limit_enabled);
    assert_eq!(m.limit_value, 5);
    assert_eq!(m.files, vec![("file0".to_string(), true), ("file1".to_string(), true)]);
    assert_eq!(m.file_focus, 0);
    assert_eq!(m.focus, ModalFocus::Path);
    assert!(!m.confirmed && !m.cancelled);
}

#[test]
fn selected_files_lists_checked_indices() {
    let mut m = modal(4);
    m.files[1].1 = false;
    m.files[3].1 = false;
    assert_eq!(m.selected_files(), vec![0, 2]);
    m.files[0].1 = false;
    m.files[2].1 = false;
    assert_eq!(m.selected_files(), Vec::<usize>::new());
}

#[test]
fn focus_order_forward_through_files() {
    let mut m = modal(2);
    let expect = [
        ModalFocus::LimitToggle,
        ModalFocus::Slider,
        ModalFocus::LimitValue,
        ModalFocus::File(0),
        ModalFocus::File(1),
        ModalFocus::Confirm,
        ModalFocus::Cancel,
        ModalFocus::Path,
    ];
    for f in expect {
        m.handle_key(Key::Tab);
        assert_eq!(m.focus, f);
    }
    assert_eq!(m.file_focus, 1);
}

#[test]
fn focus_wraps_backwards() {
    let mut m = modal(1);
    m.handle_key(Key::BackTab);
    assert_eq!(m.focus, ModalFocus::Cancel);
    m.handle_key(Key::Up);
    assert_eq!(m.focus, ModalFocus::Confirm);
    m.handle_key(Key::Left);
    assert_eq!(m.focus, ModalFocus::File(0));
    assert_eq!(m.file_focus, 0);
}

#[test]
fn focus_forward_then_back_returns() {
    let mut m = modal(3);
    for _ in 0..5 {
        m.handle_key(Key::Down);
    }
    let before = m.focus;
    m.handle_key(Key::Right);
    m.handle_key(Key::Left);
    assert_eq!(m.focus, before);
}

#[test]
fn unknown_file_focus_counts_as_first() {
    let mut m = modal(1);
    m.focus = ModalFocus::File(7);
    m.advance_focus(1);
    assert_eq!(m.focus, ModalFocus::LimitToggle);
    m.focus = ModalFocus::File(7);
    m.advance_focus(-1);
    assert_eq!(m.focus, ModalFocus::Cancel);
    m.focus = ModalFocus::Path;
    m.advance_focus(9);
    assert_eq!(m.focus, ModalFocus::Slider, "7 controls: 9 steps = 2 steps");
}

#[test]
fn space_toggles_limit_and_files() {
    let mut m = modal(2);
    m.focus = ModalFocus::LimitToggle;
    m.handle_key(Key::Char(' '));
    assert!(m.limit_enabled);
    m.handle_key(Key::Char(' '));
    assert!(!m.limit_enabled);
    m.focus = ModalFocus::File(1);
    m.handle_key(Key::Char(' '));
    assert_eq!(m.selected_files(), vec![0]);
    m.toggle();
    assert_eq!(m.selected_files(), vec![0, 1]);
    m.focus = ModalFocus::File(5);
    m.toggle();
    assert_eq!(m.selected_files(), vec![0, 1]);
}

#[test]
fn typing_edits_path() {
    let mut m = modal(0);
    m.handle_key(Key::Char('x'));
    m.handle_key(Key::Char('é'));
    assert_eq!(m.path, "/dlxé");
    m.handle_key(Key::Backspace);
    m.handle_key(Key::Backspace);
    m.handle_key(Key::Backspace);
    assert_eq!(m.path, "/d");
    // a space toggles instead of typing
    m.handle_key(Key::Char(' '));
    assert_eq!(m.path, "/d");
}

#[test]
fn limit_value_digits() {
    let mut m = modal(0);
    m.focus = ModalFocus::LimitValue;
    m.limit_value = 1;
    m.type_char('0');
    assert_eq!(m.limit_value, 10);
    m.type_char('5');
    assert_eq!(m.limit_value, 10, "values above 10 are ignored");
    m.limit_value = 0;
    m.type_char('0');
    assert_eq!(m.limit_value, 1, "zero becomes one");
    m.limit_value = 0;
    m.type_char('7');
    assert_eq!(m.limit_value, 7);
    m.type_char('a');
    assert_eq!(m.limit_value, 7);
    m.limit_value = 4_000_000_000;
    m.type_char('1');
    assert_eq!(m.limit_value, 4_000_000_000, "overflowing text is ignored");
}

#[test]
fn limit_value_backspace() {
    let mut m = modal(0);
    m.focus = ModalFocus::LimitValue;
    m.limit_value = 7;
    m.backspace();
    assert_eq!(m.limit_value, 1);
    m.limit_value = 10;
    m.backspace();
    assert_eq!(m.limit_value, 1);
    m.limit_value = 345;
    m.backspace();
    assert_eq!(m.limit_value, 10);
    m.limit_value = 57;
    m.backspace();
    assert_eq!(m.limit_value, 5);
}

#[test]
fn enter_and_esc() {
    let mut m = modal(0);
    m.handle_key(Key::Enter);
    assert!(!m.confirmed && !m.cancelled);
    m.focus = ModalFocus::Confirm;
    m.handle_key(Key::Enter);
    assert!(m.confirmed);
    let mut m = modal(0);
    m.focus = ModalFocus::Cancel;
    m.handle_key(Key::Enter);
    assert!(m.cancelled && !m.confirmed);
    let mut m = modal(0);
    m.handle_key(Key::Esc);
    assert!(m.cancelled);
    let mut m = modal(0);
    m.handle_key(Key::Other);
    assert_eq!(m.focus, ModalFocus::Path);
}

#[test]
fn modal_texts() {
    assert_eq!(checkbox(true), "[x]");
    assert_eq!(checkbox(false), "[ ]");
    assert_eq!(slider_bar(3), "[███░░░░░░░]");
    assert_eq!(slider_bar(0), "[░░░░░░░░░░]");
    assert_eq!(slider_bar(99), "[██████████]");
    let mut m = modal(2);
    assert_eq!(m.limit_text(), "5");
    m.limit_value = 10;
    assert_eq!(m.limit_text(), "10");
    m.focus = ModalFocus::File(1);
    assert!(m.file_row_focused(1));
    assert!(!m.file_row_focused(0));
}

#[test]
fn dialog_outcomes() {
    let mut m = modal(0);
    assert_eq!(m.outcome(), ModalOutcome::Open);
    m.cancelled = true;
    assert_eq!(m.outcome(), ModalOutcome::Cancelled);
    m.confirmed = true;
    assert_eq!(m.outcome(), ModalOutcome::Confirmed);
}
