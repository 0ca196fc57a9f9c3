use northbridge::bridge::{
    check_text, cursor_argument, needs_default_tty, poll_key, wait_key, write_outcome, KeyPoll,
};
use northbridge::{Display, Error, Key, Northbridge};

#[test]
fn display_keeps_its_size() {
    let d = Display::new(40, 1);
    assert_eq!(d.width, 40);
    assert_eq!(d.height, 1);
}

#[test]
fn total_cells_is_width_times_height() {
    assert_eq!(Display::new(40, 1).total_cells(), 40);
    assert_eq!(Display::new(20, 4).total_cells(), 80);
    assert_eq!(Display::new(0, 7).total_cells(), 0);
}

#[test]
fn key_keeps_its_code() {
    assert_eq!(Key::from_code(0x2000_0000_0001_0203).code, 0x2000_0000_0001_0203);
    assert_eq!(Key::from_code(0), Key { code: 0 });
}

#[test]
fn default_tty_is_tried_only_after_a_failure() {
    assert!(needs_default_tty(-1));
    assert!(!needs_default_tty(0));
    assert!(!needs_default_tty(3));
}

#[test]
fn connected_bridge_holds_the_tty() {
    let nb = Northbridge::connected("link", 40, 1, None).unwrap();
    assert_eq!(nb.display_size(), (40, 1));
    assert_eq!(*nb.display(), Display { width: 40, height: 1 });
    assert_eq!(*nb.connection(), "link");
    assert!(nb.in_tty_mode());
    let nb = Northbridge::connected(7u8, 12, 2, Some(0)).unwrap();
    assert_eq!(nb.display_size(), (12, 2));
}

#[test]
fn failed_default_tty_fails_the_connection() {
    let r = Northbridge::connected((), 40, 1, Some(-1));
    assert!(matches!(r, Err(Error::TtyMode)));
}

#[test]
fn text_with_a_null_byte_is_refused() {
    assert_eq!(check_text("hello from northbridge"), Ok(()));
    assert_eq!(check_text(""), Ok(()));
    assert_eq!(check_text("a\0b"), Err(Error::InvalidText));
    assert_eq!(check_text("\0"), Err(Error::InvalidText));
}

#[test]
fn cursor_cells_count_from_one_for_brlapi() {
    assert_eq!(cursor_argument(0), 1);
    assert_eq!(cursor_argument(5), 6);
    assert_eq!(cursor_argument(39), 40);
    assert_eq!(cursor_argument(i32::MAX as u32 - 1), i32::MAX);
}

#[test]
fn negative_write_answer_is_a_write_error() {
    assert_eq!(write_outcome(0), Ok(()));
    assert_eq!(write_outcome(12), Ok(()));
    assert_eq!(write_outcome(-1), Err(Error::Write));
}

#[test]
fn key_poll_follows_the_answer() {
    assert_eq!(poll_key(1, 42, false), Ok(KeyPoll::Pressed(Key { code: 42 })));
    assert_eq!(poll_key(1, 42, true), Ok(KeyPoll::Pressed(Key { code: 42 })));
    assert_eq!(poll_key(0, 42, false), Ok(KeyPoll::Wait));
    assert_eq!(poll_key(0, 42, true), Ok(KeyPoll::TimedOut));
    assert_eq!(poll_key(-1, 42, false), Err(Error::ReadKey));
    assert_eq!(poll_key(2, 42, true), Err(Error::ReadKey));
}

#[test]
fn blocking_key_read_follows_the_answer() {
    assert_eq!(wait_key(1, 9), Ok(Key { code: 9 }));
    assert_eq!(wait_key(0, 9), Err(Error::ReadKey));
    assert_eq!(wait_key(-1, 9), Err(Error::ReadKey));
}
