//! The bridge to BRLTTY: the display it controls, and the decisions taken on
//! the answers of BrlAPI.
use vstd::prelude::*;
use crate::display::Display;
use crate::error::Error;
use crate::keys::Key;
use crate::text::chars_of;

verus! {

/// A virtual braille display and keyboard, over a BrlAPI connection of type
/// `C`, once TTY mode has been entered.
pub struct Northbridge<C> {
    connection: C,
    display: Display,
    in_tty_mode: bool,
}

impl<C> Northbridge<C> {
    /// The connection the bridge talks over.
    pub closed spec fn link(&self) -> C {
        self.connection
    }

    /// The display the bridge controls.
    pub closed spec fn geometry(&self) -> Display {
        self.display
    }

    /// Whether the bridge holds the TTY and must leave it when closed.
    pub closed spec fn holds_tty(&self) -> bool {
        self.in_tty_mode
    }

    /// The bridge over `connection`, to a display of `width` by `height`
    /// cells, once TTY mode was asked for. `default_result` is BrlAPI's
    /// answer to entering the default TTY, asked only where entering by path
    /// failed (see `needs_default_tty`): a negative answer fails the
    /// connection with `Error::TtyMode`.
    pub fn connected(connection: C, width: u32, height: u32, default_result: Option<i32>) -> (r: Result<Self, Error>)
        ensures
            r is Err <==> (default_result matches Some(d) && d < 0),
            r is Err ==> r == Err::<Self, Error>(Error::TtyMode),
            r matches Ok(nb) ==> (nb.link() == connection && nb.geometry() == (Display { width, height }) && nb.holds_tty()),
    {
        if let Some(d) = default_result {
            if d < 0 {
                return Err(Error::TtyMode);
            }
        }
        Ok(Northbridge { connection, display: Display::new(width, height), in_tty_mode: true })
    }

    /// Display dimensions in cells (width, height).
    pub fn display_size(&self) -> (size: (u32, u32))
        ensures
            size == (self.geometry().width, self.geometry().height),
    {
        (self.display.width, self.display.height)
    }

    /// Information about the connected braille display.
    pub fn display(&self) -> (d: &Display)
        ensures
            *d == self.geometry(),
    {
        &self.display
    }

    /// The connection the bridge talks over.
    pub fn connection(&self) -> (c: &C)
        ensures
            *c == self.link(),
    {
        &self.connection
    }

    /// Whether TTY mode must be left when the bridge is closed.
    pub fn in_tty_mode(&self) -> (b: bool)
        ensures
            b == self.holds_tty(),
    {
        self.in_tty_mode
    }
}

/// Whether the default TTY must be tried, given BrlAPI's answer to entering
/// TTY mode by path: it must where that answer is negative.
pub fn needs_default_tty(path_result: i32) -> (b: bool)
    ensures
        b == (path_result < 0),
{
    path_result < 0
}

/// Whether BrlAPI can take `text`: it travels as a C string, so it may not
/// hold a null character; where it does, `Error::InvalidText`.
pub fn check_text(text: &str) -> (r: Result<(), Error>)
    ensures
        r is Ok <==> !text@.contains('\0'),
        r is Err ==> r == Err::<(), Error>(Error::InvalidText),
{
    let chars = chars_of(text);
    let mut i: usize = 0;
    while i < chars.len()
        invariant
            i <= chars@.len(),
            chars@ == text@,
            forall|j: int| 0 <= j < i ==> chars@[j] != '\0',
        decreases chars@.len() - i,
    {
        if chars[i] == '\0' {
            assert(text@[i as int] == '\0');
            return Err(Error::InvalidText);
        }
        i = i + 1;
    }
    Ok(())
}

/// The cursor argument BrlAPI is given to put the cursor on the 0-based
/// cell `cursor`: BrlAPI counts cells from 1 (0 is `BRLAPI_CURSOR_OFF`, no
/// cursor), so it is `cursor + 1`, which must fit in BrlAPI's `int`.
pub fn cursor_argument(cursor: u32) -> (c: i32)
    requires
        cursor < i32::MAX as u32,
    ensures
        c == cursor + 1,
{
    (cursor + 1) as i32
}

/// The outcome of writing text, from BrlAPI's answer: a negative answer is
/// `Error::Write`.
pub fn write_outcome(result: i32) -> (r: Result<(), Error>)
    ensures
        r is Ok <==> result >= 0,
        r is Err ==> r == Err::<(), Error>(Error::Write),
{
    if result < 0 {
        Err(Error::Write)
    } else {
        Ok(())
    }
}

/// How long to wait between two polls of the keyboard, in milliseconds.
pub const KEY_POLL_INTERVAL_MS: u64 = 10;

/// What a poll of the keyboard gave.
#[derive(Debug, Clone, Copy, PartialEq, Eq, Structural)]
pub enum KeyPoll {
    /// A key was pressed.
    Pressed(Key),
    /// No key came before the timeout.
    TimedOut,
    /// No key yet: wait, then poll again.
    Wait,
}

/// One step of waiting for a key with a timeout, from BrlAPI's answer
/// `result` to a non-blocking read and the `code` it read: 1 is a key,
/// 0 is no key (then `TimedOut` once `timed_out`, else `Wait`), anything
/// else is `Error::ReadKey`.
pub fn poll_key(result: i32, code: u64, timed_out: bool) -> (r: Result<KeyPoll, Error>)
    ensures
        result == 1 ==> r == Ok::<KeyPoll, Error>(KeyPoll::Pressed(Key { code })),
        result == 0 && timed_out ==> r == Ok::<KeyPoll, Error>(KeyPoll::TimedOut),
        result == 0 && !timed_out ==> r == Ok::<KeyPoll, Error>(KeyPoll::Wait),
        result != 0 && result != 1 ==> r == Err::<KeyPoll, Error>(Error::ReadKey),
{
    if result == 1 {
        Ok(KeyPoll::Pressed(Key::from_code(code)))
    } else if result == 0 {
        if timed_out {
            Ok(KeyPoll::TimedOut)
        } else {
            Ok(KeyPoll::Wait)
        }
    } else {
        Err(Error::ReadKey)
    }
}

/// The key read by a blocking read, from BrlAPI's answer `result` and the
/// `code` it read: 1 is a key, anything else is `Error::ReadKey`.
pub fn wait_key(result: i32, code: u64) -> (r: Result<Key, Error>)
    ensures
        result == 1 ==> r == Ok::<Key, Error>(Key { code }),
        result != 1 ==> r == Err::<Key, Error>(Error::ReadKey),
{
    if result == 1 {
        Ok(Key::from_code(code))
    } else {
        Err(Error::ReadKey)
    }
}

} // verus!
