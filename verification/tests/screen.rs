use northbridge::screen::{extract_text, PollAction, TextPatterns, POLL_ATTEMPTS};
use northbridge::BrailleScreen;

fn extract(raw: &str) -> String {
    let patterns = TextPatterns::new().expect("the screen patterns compile");
    extract_text(raw, &patterns)
}

#[test]
fn text_of_a_screen_update() {
    assert_eq!(
        extract("\x1b[H\x1b[2Jhello world\r\x1b[2d\u{2813}\u{2811}\x1b[5G"),
        "hello world"
    );
}

#[test]
fn last_screen_update_wins() {
    assert_eq!(
        extract("\x1b[H\x1b[2Jold text\r\x1b[2d\u{2801}\x1b[H\x1b[2Jnew text\r\x1b[2d\u{2803}"),
        "new text"
    );
}

#[test]
fn without_clear_screen_the_text_starts_at_the_start() {
    assert_eq!(extract("plain text\rrest"), "plain text");
    assert_eq!(extract(""), "");
}

#[test]
fn second_row_ends_the_text_when_there_is_no_return() {
    assert_eq!(extract("\x1b[H\x1b[2Jabc\x1b[2d\u{2801}\u{2802}"), "abc");
    assert_eq!(extract("\x1b[H\x1b[2Jno end"), "no end");
}

#[test]
fn a_return_ends_the_text_even_after_the_second_row() {
    assert_eq!(extract("\x1b[H\x1b[2Jab\x1b[2dcd\ref"), "abcd");
}

#[test]
fn escape_sequences_are_removed() {
    assert_eq!(extract("\x1b[H\x1b[2J\x1b[1mbold\x1b[0m text\r"), "bold text");
    assert_eq!(extract("\x1b[H\x1b[2J\x1b(Bx\x1b[?25ly\x1b=z\r"), "xyz");
}

#[test]
fn braille_and_control_characters_are_dropped() {
    assert_eq!(extract("\x1b[H\x1b[2Jab\u{2801}c\x07d\u{28ff}\r"), "abcd");
}

#[test]
fn newlines_are_kept() {
    assert_eq!(extract("\x1b[H\x1b[2Jline1\nline2\r"), "line1\nline2");
}

#[test]
fn trailing_curses_noise_is_removed() {
    assert_eq!(extract("\x1b[H\x1b[2JFile Edit {\r"), "File Edit");
    assert_eq!(extract("\x1b[H\x1b[2Jmenu $l\r"), "menu");
    assert_eq!(extract("\x1b[H\x1b[2Jok {[B[A\r"), "ok");
}

#[test]
fn white_space_is_trimmed() {
    assert_eq!(extract("\x1b[H\x1b[2J   spaced out \t\r"), "spaced out");
    assert_eq!(extract("\x1b[H\x1b[2J\u{a0}nbsp\u{3000}\r"), "nbsp");
}

#[test]
fn a_new_screen_shows_nothing() {
    let mut screen = BrailleScreen::new().expect("the screen patterns compile");
    assert_eq!(screen.read(), "");
}

#[test]
fn read_gives_the_latest_text_and_keeps_it() {
    let mut screen = BrailleScreen::new().unwrap();
    screen.absorb(b"\x1b[H\x1b[2Jhel");
    screen.absorb(b"lo\r\x1b[2d");
    assert_eq!(screen.read(), "hello");
    assert_eq!(screen.read(), "hello");
    screen.absorb(b"\x1b[H\x1b[2J   \r");
    assert_eq!(screen.read(), "hello");
    screen.absorb(b"\x1b[H\x1b[2Jworld\r");
    assert_eq!(screen.read(), "world");
}

#[test]
fn invalid_utf8_is_replaced() {
    let mut screen = BrailleScreen::new().unwrap();
    screen.absorb(b"\x1b[H\x1b[2Jab\xffcd\r");
    assert_eq!(screen.read(), "ab\u{FFFD}cd");
}

#[test]
fn polling_stops_once_something_arrived() {
    let mut screen = BrailleScreen::new().unwrap();
    assert_eq!(screen.after_drain(0), PollAction::SleepAndRetry);
    assert_eq!(screen.after_drain(POLL_ATTEMPTS - 2), PollAction::SleepAndRetry);
    assert_eq!(screen.after_drain(POLL_ATTEMPTS - 1), PollAction::SleepAndFinish);
    screen.absorb(b"x");
    assert_eq!(screen.after_drain(0), PollAction::Finish);
    assert_eq!(screen.after_drain(POLL_ATTEMPTS - 1), PollAction::Finish);
    screen.read();
    assert_eq!(screen.after_drain(3), PollAction::SleepAndRetry);
}

#[test]
fn a_read_round_goes_on_only_while_bytes_come() {
    let mut screen = BrailleScreen::new().unwrap();
    assert!(screen.take_read(Some(b"\x1b[H\x1b[2Jhi\r")));
    assert!(!screen.take_read(Some(b"")));
    assert!(!screen.take_read(None));
    assert_eq!(screen.after_drain(0), PollAction::Finish);
    assert_eq!(screen.read(), "hi");
}
