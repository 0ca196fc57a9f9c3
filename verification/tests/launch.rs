use northbridge::launch::{
    brltty_command, orca_command, orca_plan, running_check_command, running_outcome, setting_or,
    stop_brltty_command,
    OrcaPlan, DEFAULT_DISPLAY, DEFAULT_SESSION_BUS,
};

fn strings(v: &[&str]) -> Vec<String> {
    v.iter().map(|s| s.to_string()).collect()
}

fn pairs(v: &[(&str, &str)]) -> Vec<(String, String)> {
    v.iter().map(|(a, b)| (a.to_string(), b.to_string())).collect()
}

#[test]
fn brltty_runs_the_tty_driver_on_the_terminal() {
    let c = brltty_command("/dev/pts/7", ":1", "unix:path=/run/user/1001/bus");
    assert_eq!(c.program, "brltty");
    assert_eq!(
        c.args,
        strings(&["-b", "tt", "-d", "/dev/pts/7", "-B", "term=xterm", "-x", "a2", "-n", "-e"])
    );
    assert_eq!(
        c.env,
        pairs(&[
            ("TERM", "xterm"),
            ("DISPLAY", ":1"),
            ("DBUS_SESSION_BUS_ADDRESS", "unix:path=/run/user/1001/bus")
        ])
    );
}

#[test]
fn orca_runs_without_speech() {
    let c = orca_command(":0", "bus");
    assert_eq!(c.program, "orca");
    assert_eq!(c.args, strings(&["--replace", "--disable", "speech"]));
    assert_eq!(c.env, pairs(&[("DISPLAY", ":0"), ("DBUS_SESSION_BUS_ADDRESS", "bus")]));
}

#[test]
fn helper_commands() {
    let c = stop_brltty_command();
    assert_eq!(c.program, "sudo");
    assert_eq!(c.args, strings(&["pkill", "-9", "brltty"]));
    let c = running_check_command("orca");
    assert_eq!(c.program, "pgrep");
    assert_eq!(c.args, strings(&["orca"]));
}

#[test]
fn settings_fall_back_to_defaults() {
    assert_eq!(setting_or(Some(":2".to_string()), DEFAULT_DISPLAY), ":2");
    assert_eq!(setting_or(None, DEFAULT_DISPLAY), ":0");
    assert_eq!(setting_or(None, DEFAULT_SESSION_BUS), "unix:path=/run/user/1000/bus");
}

#[test]
fn orca_is_started_only_when_not_running() {
    assert_eq!(orca_plan(false), OrcaPlan { launch: true, settle_ms: 3000 });
    assert_eq!(orca_plan(true), OrcaPlan { launch: false, settle_ms: 1000 });
}

#[test]
fn a_process_runs_when_the_check_succeeds() {
    assert!(running_outcome(true, true));
    assert!(!running_outcome(true, false));
    assert!(!running_outcome(false, false));
    assert!(!running_outcome(false, true));
}
