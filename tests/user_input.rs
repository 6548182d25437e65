use factorio::music::PlaylistIdWrapper;
use factorio::widgets::popups::{AddPlaylistPopup, AddSongPopup, LoadingPopup, MessagePopup};
use factorio::widgets::user_input::{EditKey, UserInput, UserInputKeyEvent};

#[test]
fn typing_then_submitting() {
    let mut field = UserInput::new(true);
    for c in "abc".chars() {
        field.enter_char(c);
    }
    assert_eq!(field.submit_message(), "abc");
    assert_eq!(field.submit_message(), "");
}

#[test]
fn inserting_at_the_cursor() {
    let mut field = UserInput::new(false);
    field.enter_char('a');
    field.enter_char('c');
    field.move_cursor_left();
    field.enter_char('b');
    assert_eq!(field.submit_message(), "abc");
}

#[test]
fn deleting_before_the_cursor() {
    let mut field = UserInput::new(false);
    for c in "héllo".chars() {
        field.enter_char(c);
    }
    field.move_cursor_left();
    field.move_cursor_left();
    field.delete_char();
    assert_eq!(field.submit_message(), "hélo");
}

#[test]
fn cursor_stays_within_the_text() {
    let mut field = UserInput::new(false);
    field.move_cursor_left();
    field.delete_char();
    field.enter_char('x');
    field.move_cursor_right();
    field.move_cursor_right();
    field.enter_char('y');
    assert_eq!(field.clamp_cursor(10), 2);
    field.reset_cursor();
    field.enter_char('z');
    assert_eq!(field.submit_message(), "zxy");
}

#[test]
fn popups_start_empty() {
    assert_eq!(AddPlaylistPopup::new().user_input, UserInput::new(true));
    let popup = AddSongPopup::new(PlaylistIdWrapper::Liked);
    assert_eq!(popup.user_input, UserInput::new(true));
    assert!(matches!(popup.playlist_id, PlaylistIdWrapper::Liked));
    assert!(LoadingPopup::new().active);
    let message = MessagePopup::new("t".to_string(), "m".to_string());
    assert_eq!(message.title, "t");
    assert_eq!(message.message, "m");
}

#[test]
fn keys_edit_and_submit() {
    let mut field = UserInput::new(true);
    assert!(matches!(field.handle_key_events(EditKey::Char('a')), UserInputKeyEvent::Nothing));
    assert!(matches!(field.handle_key_events(EditKey::Char('c')), UserInputKeyEvent::Nothing));
    assert!(matches!(field.handle_key_events(EditKey::Left), UserInputKeyEvent::Nothing));
    field.handle_key_events(EditKey::Char('b'));
    assert!(matches!(field.handle_key_events(EditKey::Other), UserInputKeyEvent::Pass));
    match field.handle_key_events(EditKey::Enter) {
        UserInputKeyEvent::Data(text) => assert_eq!(text, "abc"),
        other => panic!("unexpected {other:?}"),
    }
    assert_eq!(field.submit_message(), "");
}

#[test]
fn keys_report_every_edit_without_enter() {
    let mut field = UserInput::new(false);
    match field.handle_key_events(EditKey::Char('x')) {
        UserInputKeyEvent::Data(text) => assert_eq!(text, "x"),
        other => panic!("unexpected {other:?}"),
    }
    field.handle_key_events(EditKey::Char('y'));
    match field.handle_key_events(EditKey::Backspace) {
        UserInputKeyEvent::Data(text) => assert_eq!(text, "x"),
        other => panic!("unexpected {other:?}"),
    }
    assert!(matches!(field.handle_key_events(EditKey::Right), UserInputKeyEvent::Nothing));
}
