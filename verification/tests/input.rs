use northbridge::input::{
    click_command, click_outcome, decimal_string, input_outcome, xdotool_click, xdotool_key,
    xdotool_mousemove, xdotool_type, CommandLine, CLICK_SCRIPT,
};
use northbridge::Error;

fn strings(v: &[&str]) -> Vec<String> {
    v.iter().map(|s| s.to_string()).collect()
}

fn check(c: &CommandLine, program: &str, args: &[&str]) {
    assert_eq!(c.program, program);
    assert_eq!(c.args, strings(args));
    assert!(c.env.is_empty());
}

#[test]
fn decimal_writes_integers_as_std_does() {
    for x in [0, 7, 9, 10, 99, 100, 12345, -1, -10, -305, i32::MAX, i32::MIN] {
        assert_eq!(decimal_string(x), x.to_string());
    }
    assert_eq!(decimal_string(-2147483648), "-2147483648");
    assert_eq!(decimal_string(640), "640");
}

#[test]
fn key_command() {
    check(&xdotool_key("Tab"), "xdotool", &["key", "Tab"]);
    check(&xdotool_key("ctrl+f"), "xdotool", &["key", "ctrl+f"]);
}

#[test]
fn type_command() {
    check(&xdotool_type("about"), "xdotool", &["type", "--clearmodifiers", "about"]);
}

#[test]
fn mouse_commands() {
    check(&xdotool_mousemove(640, -12), "xdotool", &["mousemove", "--sync", "640", "-12"]);
    check(&xdotool_click(), "xdotool", &["click", "1"]);
}

#[test]
fn click_by_name_command() {
    let c = click_command("About");
    assert_eq!(c.program, "/usr/bin/python3");
    assert_eq!(c.args, vec!["-c".to_string(), CLICK_SCRIPT.to_string(), "About".to_string()]);
    assert!(CLICK_SCRIPT.contains("find_and_click"));
}

#[test]
fn input_succeeds_only_when_run_with_success() {
    assert_eq!(input_outcome(true, true), Ok(()));
    assert_eq!(input_outcome(true, false), Err(Error::Input));
    assert_eq!(input_outcome(false, false), Err(Error::Input));
    assert_eq!(input_outcome(false, true), Err(Error::Input));
}

#[test]
fn click_outcome_gives_what_was_printed() {
    assert_eq!(
        click_outcome(true, true, b"clicked: About [list item]\n", "About"),
        Ok("clicked: About [list item]\n".to_string())
    );
    assert_eq!(click_outcome(true, true, b"ok \xff", "x"), Ok("ok \u{FFFD}".to_string()));
}

#[test]
fn click_outcome_errors() {
    assert_eq!(click_outcome(false, true, b"", "About"), Err(Error::Input));
    assert_eq!(
        click_outcome(true, false, b"not found: Nowhere\n", "Nowhere"),
        Err(Error::ClickNotFound("Nowhere".to_string()))
    );
}
