use tuiermo::evaluator::LetterClass;
use tuiermo::normalize::normalize;
use tuiermo::session::{
    compare_arrays, get_random_word, handle_key_events, App, InputEvent, InputMode, WORD_LEN,
};

fn type_text(app: &mut App, text: &str) {
    let cursor = text.chars().count();
    handle_key_events(
        InputEvent::BufferChanged(String::from(text), cursor),
        app,
    );
}

#[test]
fn word_source_is_fixed_and_normalized() {
    let w = get_random_word();
    assert_eq!(w, "acaso");
    assert_eq!(w.chars().count(), WORD_LEN);
}

#[test]
fn new_session_defaults() {
    let app = App::new();
    assert_eq!(app.input_mode, InputMode::Normal);
    assert!(app.guesses.is_empty());
    assert!(app.running);
    assert_eq!(app.wordle, "acaso");
    assert_eq!(app.input.text, "");
    assert_eq!(app.input.cursor, 0);
    app.tick();
}

#[test]
fn begin_edit_enters_editing_with_cleared_buffer() {
    let mut app = App::new();
    handle_key_events(InputEvent::BeginEdit, &mut app);
    assert_eq!(app.input_mode, InputMode::Editing);
    assert_eq!(app.input.text, "");
    assert!(app.running);
}

#[test]
fn quit_clears_running_flag() {
    let mut app = App::new();
    handle_key_events(InputEvent::Quit, &mut app);
    assert!(!app.running);
    assert_eq!(app.input_mode, InputMode::Normal);
}

#[test]
fn normal_mode_ignores_editing_events() {
    let mut app = App::new();
    handle_key_events(InputEvent::Submit, &mut app);
    handle_key_events(InputEvent::Cancel, &mut app);
    type_text(&mut app, "xyz");
    assert_eq!(app.input_mode, InputMode::Normal);
    assert_eq!(app.input.text, "");
    assert!(app.guesses.is_empty());
    assert!(app.running);
}

#[test]
fn cancel_discards_buffer_and_returns_to_normal() {
    let mut app = App::new();
    handle_key_events(InputEvent::BeginEdit, &mut app);
    type_text(&mut app, "abcde");
    handle_key_events(InputEvent::Cancel, &mut app);
    assert_eq!(app.input_mode, InputMode::Normal);
    assert_eq!(app.input.text, "");
    assert_eq!(app.input.cursor, 0);
    assert!(app.guesses.is_empty());
}

#[test]
fn wrong_length_submission_is_rejected_silently() {
    let mut app = App::new();
    handle_key_events(InputEvent::BeginEdit, &mut app);
    handle_key_events(InputEvent::Submit, &mut app);
    assert_eq!(app.guesses.len(), 0);
    assert_eq!(app.input_mode, InputMode::Editing);

    type_text(&mut app, "abc");
    handle_key_events(InputEvent::Submit, &mut app);
    assert_eq!(app.guesses.len(), 0);
    assert_eq!(app.input_mode, InputMode::Editing);
    assert_eq!(app.input.text, "abc");

    type_text(&mut app, "abcdef");
    handle_key_events(InputEvent::Submit, &mut app);
    assert_eq!(app.guesses.len(), 0);
    assert_eq!(app.input_mode, InputMode::Editing);
    assert_eq!(app.input.text, "abcdef");
}

#[test]
fn history_grows_in_submission_order() {
    let mut app = App::new();
    handle_key_events(InputEvent::BeginEdit, &mut app);
    type_text(&mut app, "alibi");
    handle_key_events(InputEvent::Submit, &mut app);
    assert_eq!(app.guesses.len(), 1);
    assert_eq!(app.input_mode, InputMode::Editing);
    assert_eq!(app.input.text, "");

    type_text(&mut app, "mundo");
    handle_key_events(InputEvent::Submit, &mut app);
    assert_eq!(app.guesses.len(), 2);
    assert_eq!(app.guesses[0].text, "alibi");
    assert_eq!(app.guesses[1].text, "mundo");
}

#[test]
fn end_to_end_scenario() {
    let mut app = App::new();
    handle_key_events(InputEvent::BeginEdit, &mut app);

    type_text(&mut app, "alibi");
    handle_key_events(InputEvent::Submit, &mut app);
    assert_eq!(
        app.guesses[0].classes,
        vec![
            LetterClass::Correct,
            LetterClass::Absent,
            LetterClass::Absent,
            LetterClass::Absent,
            LetterClass::Absent,
        ]
    );

    type_text(&mut app, "acaso");
    handle_key_events(InputEvent::Submit, &mut app);
    assert_eq!(app.guesses[1].classes, vec![LetterClass::Correct; 5]);
    assert!(compare_arrays(&app.wordle, &app.guesses[1].text));
}

#[test]
fn submission_is_accent_folded_and_lowercased() {
    let mut app = App::new();
    handle_key_events(InputEvent::BeginEdit, &mut app);
    type_text(&mut app, "\u{c1}CASO");
    handle_key_events(InputEvent::Submit, &mut app);
    assert_eq!(app.guesses.len(), 1);
    assert_eq!(app.guesses[0].text, "acaso");
    assert_eq!(app.guesses[0].classes, vec![LetterClass::Correct; 5]);
}

#[test]
fn normalize_folds_and_lowercases() {
    assert_eq!(normalize("\u{c1}\u{c9}\u{ed}"), "aei");
    assert_eq!(normalize("Mundo"), "mundo");
    assert_eq!(normalize(""), "");
}

#[test]
fn compare_arrays_on_equal_and_unequal_words() {
    assert!(compare_arrays("acaso", "acaso"));
    assert!(!compare_arrays("acaso", "acasa"));
    assert!(!compare_arrays("acaso", "acas"));
    assert!(compare_arrays("", ""));
}
