//! Keyboard and mouse input, sent through `xdotool`, and clicks on named
//! elements, found through the accessibility tree.
use vstd::prelude::*;
use vstd::string::StringExecFns;
use crate::error::Error;
use crate::text::{decode_lossy, push_char, utf8_lossy};

verus! {

broadcast use vstd::string::group_string_axioms;

/// A program, the arguments it is run with, and the environment variables
/// set for it.
#[derive(Debug, Clone, PartialEq, Eq)]
pub struct CommandLine {
    /// The program to run.
    pub program: String,
    /// Its arguments, in order.
    pub args: Vec<String>,
    /// Environment variables set for it, as (name, value) pairs, in order.
    pub env: Vec<(String, String)>,
}

impl CommandLine {
    /// The program.
    pub open spec fn program_of(&self) -> Seq<char> {
        self.program@
    }

    /// The arguments.
    pub open spec fn args_of(&self) -> Seq<Seq<char>> {
        self.args@.map_values(|a: String| a@)
    }

    /// The environment variables.
    pub open spec fn env_of(&self) -> Seq<(Seq<char>, Seq<char>)> {
        self.env@.map_values(|v: (String, String)| (v.0@, v.1@))
    }
}

/// The decimal digits of `n`, most significant first.
pub open spec fn decimal_digits(n: nat) -> Seq<char>
    decreases n,
{
    if n < 10 {
        seq![digit_char(n)]
    } else {
        decimal_digits(n / 10).push(digit_char(n % 10))
    }
}

/// The character of the decimal digit `d`.
pub open spec fn digit_char(d: nat) -> char {
    (d + 48) as char
}

/// `x` written in decimal, with a leading `-` when negative (as std's
/// `to_string` writes an `i32`).
pub open spec fn decimal(x: int) -> Seq<char> {
    if x < 0 {
        seq!['-'] + decimal_digits((-x) as nat)
    } else {
        decimal_digits(x as nat)
    }
}

/// The number that the decimal digits `s` stand for, most significant first.
pub open spec fn digits_value(s: Seq<char>) -> int
    decreases s.len(),
{
    if s.len() == 0 {
        0
    } else {
        digits_value(s.drop_last()) * 10 + (s.last() as int - 48)
    }
}

/// Whether every character of `s` is a decimal digit.
pub open spec fn all_digits(s: Seq<char>) -> bool {
    forall|i: int| 0 <= i < s.len() ==> '0' <= #[trigger] s[i] <= '9'
}

/// The digits of `n` are the standard base-10 numeral of `n`: they are all
/// decimal digits, they read back as `n`, none is a leading zero, and there
/// are exactly as many as `n` needs (one for `n < 10`, one more than for
/// `n / 10` otherwise).
pub proof fn lemma_decimal_digits_read_back(n: nat)
    ensures
        all_digits(decimal_digits(n)),
        digits_value(decimal_digits(n)) == n,
        decimal_digits(n).len() >= 1,
        decimal_digits(n)[0] == '0' <==> n == 0,
        n < 10 ==> decimal_digits(n).len() == 1,
        n >= 10 ==> decimal_digits(n).len() == decimal_digits(n / 10).len() + 1,
    decreases n,
{
    let d = digit_char(n % 10);
    assert(d as int == n % 10 + 48);
    let s = decimal_digits(n);
    if n >= 10 {
        lemma_decimal_digits_read_back(n / 10);
        assert(s.drop_last() == decimal_digits(n / 10));
        assert(s[0] == decimal_digits(n / 10)[0]);
        assert(digits_value(s) == (n / 10) * 10 + n % 10);
        assert((n / 10) * 10 + n % 10 == n) by (nonlinear_arith);
    } else {
        assert(s.drop_last().len() == 0);
        assert(digits_value(s.drop_last()) == 0);
        assert(s.last() == d);
        assert(digits_value(s) == n);
    }
}

/// `decimal(x)` is the standard base-10 numeral of `x`: for `x >= 0` its
/// digits read back as `x`; for `x < 0` it is `-` followed by digits that
/// read back as `-x`; and no digit is a leading zero unless `x` is 0.
pub proof fn lemma_decimal_reads_back(x: int)
    ensures
        x >= 0 ==> all_digits(decimal(x)) && digits_value(decimal(x)) == x,
        x < 0 ==> decimal(x)[0] == '-' && all_digits(decimal(x).drop_first())
            && digits_value(decimal(x).drop_first()) == -x,
        x != 0 ==> decimal(x)[if x < 0 { 1int } else { 0int }] != '0',
{
    if x < 0 {
        lemma_decimal_digits_read_back((-x) as nat);
        assert(decimal(x).drop_first() == decimal_digits((-x) as nat));
    } else {
        lemma_decimal_digits_read_back(x as nat);
    }
}

fn push_digits(s: &mut String, n: u32)
    ensures
        final(s)@ == old(s)@ + decimal_digits(n as nat),
    decreases n,
{
    if n >= 10 {
        push_digits(s, n / 10);
    }
    let d: u8 = (n % 10) as u8;
    push_char(s, (d + 48) as char);
    proof {
        if n < 10 {
            assert(old(s)@ + decimal_digits(n as nat) == old(s)@.push(digit_char(n as nat)));
        }
    }
}

/// `x` written in decimal.
pub fn decimal_string(x: i32) -> (s: String)
    ensures
        s@ == decimal(x as int),
        x >= 0 ==> all_digits(s@) && digits_value(s@) == x,
        x < 0 ==> s@[0] == '-' && all_digits(s@.drop_first()) && digits_value(s@.drop_first()) == -x,
{
    proof {
        lemma_decimal_reads_back(x as int);
    }
    let mut s = String::new();
    if x < 0 {
        push_char(&mut s, '-');
        let magnitude: u32 = (0i64 - x as i64) as u32;
        push_digits(&mut s, magnitude);
    } else {
        push_digits(&mut s, x as u32);
    }
    s
}


/// `xdotool key <key>`: presses the key (or chord) `key`.
pub fn xdotool_key(key: &str) -> (c: CommandLine)
    ensures
        c.program_of() == "xdotool"@,
        c.args_of() == seq!["key"@, key@],
        c.env_of().len() == 0,
{
    let args = vec![String::from_str("key"), String::from_str(key)];
    let c = CommandLine { program: String::from_str("xdotool"), args, env: Vec::new() };
    assert(c.args_of() == seq!["key"@, key@]);
    c
}

/// `xdotool type --clearmodifiers <text>`: types `text`.
pub fn xdotool_type(text: &str) -> (c: CommandLine)
    ensures
        c.program_of() == "xdotool"@,
        c.args_of() == seq!["type"@, "--clearmodifiers"@, text@],
        c.env_of().len() == 0,
{
    let args = vec![String::from_str("type"), String::from_str("--clearmodifiers"), String::from_str(text)];
    let c = CommandLine { program: String::from_str("xdotool"), args, env: Vec::new() };
    assert(c.args_of() == seq!["type"@, "--clearmodifiers"@, text@]);
    c
}

/// `xdotool mousemove --sync <x> <y>`: moves the pointer to `(x, y)` and
/// waits until it is there.
pub fn xdotool_mousemove(x: i32, y: i32) -> (c: CommandLine)
    ensures
        c.program_of() == "xdotool"@,
        c.args_of() == seq!["mousemove"@, "--sync"@, decimal(x as int), decimal(y as int)],
        c.env_of().len() == 0,
{
    let args = vec![String::from_str("mousemove"), String::from_str("--sync"), decimal_string(x), decimal_string(y)];
    let c = CommandLine { program: String::from_str("xdotool"), args, env: Vec::new() };
    assert(c.args_of() == seq!["mousemove"@, "--sync"@, decimal(x as int), decimal(y as int)]);
    c
}

/// `xdotool click 1`: clicks the left button where the pointer is.
pub fn xdotool_click() -> (c: CommandLine)
    ensures
        c.program_of() == "xdotool"@,
        c.args_of() == seq!["click"@, "1"@],
        c.env_of().len() == 0,
{
    let args = vec![String::from_str("click"), String::from_str("1")];
    let c = CommandLine { program: String::from_str("xdotool"), args, env: Vec::new() };
    assert(c.args_of() == seq!["click"@, "1"@]);
    c
}

/// The outcome of an input command: it succeeds when the command could be
/// run (`ran`) and exited with success (`success`), and fails with
/// `Error::Input` otherwise.
pub fn input_outcome(ran: bool, success: bool) -> (r: Result<(), Error>)
    ensures
        r is Ok <==> ran && success,
        r is Err ==> r == Err::<(), Error>(Error::Input),
{
    if ran && success {
        Ok(())
    } else {
        Err(Error::Input)
    }
}

/// The outcome of a click on the element named `target`: `Error::Input` when
/// the finder could not be run; what it printed, decoded as UTF-8 with each
/// invalid sequence replaced, when it exited with success; and
/// `Error::ClickNotFound(target)` otherwise.
pub fn click_outcome(ran: bool, success: bool, stdout: &[u8], target: &str) -> (r: Result<String, Error>)
    ensures
        !ran ==> r == Err::<String, Error>(Error::Input),
        ran && success ==> (r matches Ok(s) && s@ == utf8_lossy(stdout@)),
        ran && !success ==> (r matches Err(Error::ClickNotFound(t)) && t@ == target@),
{
    if !ran {
        return Err(Error::Input);
    }
    let printed = decode_lossy(stdout);
    if success {
        Ok(printed)
    } else {
        Err(Error::ClickNotFound(String::from_str(target)))
    }
}


/// The script that finds an element by name in the accessibility tree (a
/// case-insensitive substring match on the names of the windows' elements)
/// and clicks it: through its action interface where it has one, else with
/// the mouse at its centre, trying its parent when the element itself
/// cannot be clicked. It prints what it clicked, or exits with failure when
/// nothing matched.
pub const CLICK_SCRIPT: &'static str = r#"
import sys, subprocess, gi
gi.require_version('Atspi', '2.0')
from gi.repository import Atspi
Atspi.init()

target = sys.argv[1]

def try_click(node):
    name = node.get_name() or ""
    role = node.get_role_name()
    # Try the action interface first
    try:
        ai = node.get_action_iface()
        if ai and ai.get_n_actions() > 0:
            for i in range(ai.get_n_actions()):
                aname = ai.get_action_name(i)
                if aname in ("click", "activate", "press", "toggle"):
                    ai.do_action(i)
                    print(f"clicked: {name} [{role}]")
                    return True
            ai.do_action(0)
            print(f"action[0]: {name} [{role}]")
            return True
    except:
        pass
    # Fall back to mouse click via component position
    try:
        comp = node.get_component()
        if comp:
            pos = comp.get_position(Atspi.CoordType.SCREEN)
            size = comp.get_size()
            x = pos.x + size.x // 2
            y = pos.y + size.y // 2
            if x > 0 and y > 0:
                subprocess.run(["xdotool", "mousemove", "--sync", str(x), str(y)])
                subprocess.run(["xdotool", "click", "1"])
                print(f"mouse click: {name} [{role}] at ({x},{y})")
                return True
    except:
        pass
    return False

def find_and_click(node, target, depth=0):
    if node is None or depth > 15:
        return False
    name = node.get_name() or ""
    if name and target.lower() in name.lower():
        # Try clicking this node
        if try_click(node):
            return True
        # Try clicking the parent (e.g. label inside a list row)
        try:
            parent = node.get_parent()
            if parent and try_click(parent):
                return True
        except:
            pass
    try:
        for i in range(min(node.get_child_count(), 100)):
            child = node.get_child_at_index(i)
            if find_and_click(child, target, depth + 1):
                return True
    except:
        pass
    return False

desktop = Atspi.get_desktop(0)
found = False
for i in range(desktop.get_child_count()):
    app = desktop.get_child_at_index(i)
    if app:
        for j in range(min(app.get_child_count(), 10)):
            win = app.get_child_at_index(j)
            if win and find_and_click(win, target):
                found = True
                break
    if found:
        break

if not found:
    print(f"not found: {target}")
    sys.exit(1)
"#;

/// `/usr/bin/python3 -c <CLICK_SCRIPT> <target>`: clicks the element named
/// `target`.
pub fn click_command(target: &str) -> (c: CommandLine)
    ensures
        c.program_of() == "/usr/bin/python3"@,
        c.args_of() == seq!["-c"@, CLICK_SCRIPT@, target@],
        c.env_of().len() == 0,
{
    let args = vec![String::from_str("-c"), String::from_str(CLICK_SCRIPT), String::from_str(target)];
    let c = CommandLine { program: String::from_str("/usr/bin/python3"), args, env: Vec::new() };
    assert(c.args_of() == seq!["-c"@, CLICK_SCRIPT@, target@]);
    c
}

} // verus!
