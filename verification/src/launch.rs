//! How the braille screen is brought up: BRLTTY pointed at a fresh
//! pseudo-terminal with its TTY driver, and the Orca screen reader feeding it.
use vstd::prelude::*;
use vstd::string::StringExecFns;
use crate::input::CommandLine;

verus! {

broadcast use vstd::string::group_string_axioms;

/// The files of a previous BrlAPI server's socket, removed before BRLTTY is
/// started again.
pub const STALE_SOCKET: &'static str = "/var/lib/BrlAPI/.0";

/// The other file of a previous BrlAPI server's socket.
pub const STALE_SOCKET_LINK: &'static str = "/var/lib/BrlAPI/0";

/// How long to let a killed BRLTTY go, in milliseconds.
pub const BRLTTY_STOP_PAUSE_MS: u64 = 500;

/// How long BRLTTY takes to create its BrlAPI socket, in milliseconds.
pub const BRLTTY_START_WAIT_MS: u64 = 3000;

/// The X display used when none is set.
pub const DEFAULT_DISPLAY: &'static str = ":0";

/// The session bus used when none is set.
pub const DEFAULT_SESSION_BUS: &'static str = "unix:path=/run/user/1000/bus";

/// `value`, or `default` when it is not set.
pub fn setting_or(value: Option<String>, default: &str) -> (s: String)
    ensures
        value matches Some(v) ==> s@ == v@,
        value is None ==> s@ == default@,
{
    match value {
        Some(v) => v,
        None => String::from_str(default),
    }
}

/// `sudo pkill -9 brltty`: stops any running BRLTTY.
pub fn stop_brltty_command() -> (c: CommandLine)
    ensures
        c.program_of() == "sudo"@,
        c.args_of() == seq!["pkill"@, "-9"@, "brltty"@],
        c.env_of().len() == 0,
{
    let args = vec![String::from_str("pkill"), String::from_str("-9"), String::from_str("brltty")];
    let c = CommandLine { program: String::from_str("sudo"), args, env: Vec::new() };
    assert(c.args_of() == seq!["pkill"@, "-9"@, "brltty"@]);
    c
}

/// `pgrep <name>`: succeeds when a process named `name` runs.
pub fn running_check_command(name: &str) -> (c: CommandLine)
    ensures
        c.program_of() == "pgrep"@,
        c.args_of() == seq![name@],
        c.env_of().len() == 0,
{
    let args = vec![String::from_str(name)];
    let c = CommandLine { program: String::from_str("pgrep"), args, env: Vec::new() };
    assert(c.args_of() == seq![name@]);
    c
}

/// Whether the process looked for runs, from the outcome of
/// `running_check_command`: it does when the check could be run (`ran`) and
/// exited with success (`success`).
pub fn running_outcome(ran: bool, success: bool) -> (running: bool)
    ensures
        running == (ran && success),
{
    ran && success
}

/// BRLTTY with its TTY braille driver on the terminal `device`, the xterm
/// terminal type, the a2 text table, in the foreground, and with the
/// environment of the graphical session.
pub fn brltty_command(device: &str, display: &str, bus: &str) -> (c: CommandLine)
    ensures
        c.program_of() == "brltty"@,
        c.args_of() == seq![
            "-b"@, "tt"@, "-d"@, device@, "-B"@, "term=xterm"@, "-x"@, "a2"@, "-n"@, "-e"@,
        ],
        c.env_of() == seq![
            ("TERM"@, "xterm"@),
            ("DISPLAY"@, display@),
            ("DBUS_SESSION_BUS_ADDRESS"@, bus@),
        ],
{
    let args = vec![
        String::from_str("-b"),
        String::from_str("tt"),
        String::from_str("-d"),
        String::from_str(device),
        String::from_str("-B"),
        String::from_str("term=xterm"),
        String::from_str("-x"),
        String::from_str("a2"),
        String::from_str("-n"),
        String::from_str("-e"),
    ];
    let env = vec![
        (String::from_str("TERM"), String::from_str("xterm")),
        (String::from_str("DISPLAY"), String::from_str(display)),
        (String::from_str("DBUS_SESSION_BUS_ADDRESS"), String::from_str(bus)),
    ];
    let c = CommandLine { program: String::from_str("brltty"), args, env };
    assert(c.args_of() == seq![
        "-b"@, "tt"@, "-d"@, device@, "-B"@, "term=xterm"@, "-x"@, "a2"@, "-n"@, "-e"@,
    ]);
    assert(c.env_of() == seq![
        ("TERM"@, "xterm"@),
        ("DISPLAY"@, display@),
        ("DBUS_SESSION_BUS_ADDRESS"@, bus@),
    ]);
    c
}

/// Orca, replacing any running instance, with speech disabled, in the
/// graphical session.
pub fn orca_command(display: &str, bus: &str) -> (c: CommandLine)
    ensures
        c.program_of() == "orca"@,
        c.args_of() == seq!["--replace"@, "--disable"@, "speech"@],
        c.env_of() == seq![("DISPLAY"@, display@), ("DBUS_SESSION_BUS_ADDRESS"@, bus@)],
{
    let args = vec![String::from_str("--replace"), String::from_str("--disable"), String::from_str("speech")];
    let env = vec![
        (String::from_str("DISPLAY"), String::from_str(display)),
        (String::from_str("DBUS_SESSION_BUS_ADDRESS"), String::from_str(bus)),
    ];
    let c = CommandLine { program: String::from_str("orca"), args, env };
    assert(c.args_of() == seq!["--replace"@, "--disable"@, "speech"@]);
    assert(c.env_of() == seq![("DISPLAY"@, display@), ("DBUS_SESSION_BUS_ADDRESS"@, bus@)]);
    c
}

/// What to do about Orca once BRLTTY runs.
#[derive(Debug, Clone, Copy, PartialEq, Eq, Structural)]
pub struct OrcaPlan {
    /// Whether to start Orca.
    pub launch: bool,
    /// How long to wait afterwards, in milliseconds, for Orca to connect to
    /// BrlAPI.
    pub settle_ms: u64,
}

/// Orca is started only where it is not running already; a first start
/// is given three seconds to connect to BrlAPI, a running instance one
/// second to reconnect to the new BRLTTY.
pub fn orca_plan(running: bool) -> (p: OrcaPlan)
    ensures
        p.launch == !running,
        p.settle_ms == (if running { 1000u64 } else { 3000u64 }),
{
    if running {
        OrcaPlan { launch: false, settle_ms: 1000 }
    } else {
        OrcaPlan { launch: true, settle_ms: 3000 }
    }
}

} // verus!
