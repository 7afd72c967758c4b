use chirp::daemon::{
    launchd_plist, log_path, parse_pid, pid_path, status_message, stop_message, stop_plan,
    should_auto_install, systemd_unit, task_command, terminal_launches, uninstall_message, Platform,
    StopPlan,
};
use chirp::db::{data_dir, data_dir_in};

#[test]
fn test_pid_path_in_data_dir() {
    let path = pid_path();
    assert!(path.ends_with("chirp.pid"));
    assert!(path.contains("Chirp"));
}

#[test]
fn log_path_in_data_dir() {
    let path = log_path();
    assert!(path.ends_with("chirp-daemon.log"));
    assert!(path.starts_with(&data_dir()));
    assert!(data_dir().ends_with("Chirp"));
}

#[test]
fn pid_file_text() {
    assert_eq!(parse_pid("1234"), Some(1234));
    assert_eq!(parse_pid(" 99999999\n"), Some(99999999));
    assert_eq!(parse_pid("+7"), Some(7));
    assert_eq!(parse_pid("4294967295"), Some(4294967295));
    assert_eq!(parse_pid("4294967296"), None);
    assert_eq!(parse_pid(""), None);
    assert_eq!(parse_pid("+"), None);
    assert_eq!(parse_pid("-1"), None);
    assert_eq!(parse_pid("12a"), None);
    let own: u32 = 31337;
    assert_eq!(parse_pid(&format!("{}", own)), Some(own));
}

#[test]
fn stop_decisions_and_messages() {
    assert_eq!(stop_plan(None), StopPlan::NotRunning);
    assert_eq!(stop_plan(Some("junk")), StopPlan::Invalid);
    assert_eq!(stop_plan(Some("42\n")), StopPlan::Kill(42));
    assert_eq!(stop_message(StopPlan::NotRunning, false), "chirp daemon is not running (no PID file)");
    assert_eq!(stop_message(StopPlan::Invalid, false), "invalid PID file, removing");
    assert_eq!(stop_message(StopPlan::Kill(42), true), "chirp daemon stopped (PID 42)");
    assert_eq!(stop_message(StopPlan::Kill(42), false), "process 42 not found, cleaning up");
    assert_eq!(status_message(true, " 42\n"), "chirp daemon is running (PID 42)");
    assert_eq!(status_message(false, ""), "chirp daemon is not running");
}

#[test]
fn service_definitions() {
    let unit = systemd_unit("/usr/bin/chirp");
    assert_eq!(
        unit,
        "[Unit]\nDescription=Chirp task reminder daemon\n\n[Service]\nExecStart=/usr/bin/chirp daemon\nRestart=on-failure\nRestartSec=5\n\n[Install]\nWantedBy=default.target"
    );
    let plist = launchd_plist("/bin/chirp", "/tmp/log");
    assert!(plist.contains("<string>/bin/chirp</string>\n        <string>daemon</string>"));
    assert_eq!(plist.matches("<string>/tmp/log</string>").count(), 2);
    assert!(plist.starts_with("<?xml version=\"1.0\" encoding=\"UTF-8\"?>"));
    assert!(plist.ends_with("</dict>\n</plist>"));
    assert_eq!(task_command("C:\\chirp.exe"), "\"C:\\chirp.exe\" daemon");
}

fn shown(ls: &[chirp::daemon::Launch]) -> Vec<(String, Vec<String>)> {
    ls.iter().map(|l| (l.program.clone(), l.args.clone())).collect()
}

#[test]
fn terminal_launch_plans() {
    let mac = terminal_launches(Platform::MacOs, "", "/bin/chirp");
    assert_eq!(
        shown(&mac),
        vec![(
            "osascript".to_string(),
            vec![
                "-e".to_string(),
                "tell application \"Terminal\"\n                    activate\n                    do script \"/bin/chirp\"\n                end tell".to_string()
            ]
        )]
    );
    let iterm = terminal_launches(Platform::MacOs, "iTerm.app", "x");
    assert!(iterm[0].args[1].starts_with("tell application \"iTerm\""));
    let other = terminal_launches(Platform::MacOs, "WezTerm", "x");
    assert_eq!(shown(&other), vec![("open".to_string(), vec!["-a", "WezTerm", "--args", "-e", "x"].into_iter().map(String::from).collect())]);
    let linux = terminal_launches(Platform::Linux, "", "c");
    let names: Vec<&str> = linux.iter().map(|l| l.program.as_str()).collect();
    assert_eq!(names, vec!["gnome-terminal", "konsole", "xfce4-terminal", "alacritty", "kitty", "xterm"]);
    assert_eq!(linux[0].args, vec!["--".to_string(), "c".to_string()]);
    assert_eq!(linux[4].args, vec!["c".to_string()]);
    let win = terminal_launches(Platform::Windows, "", "c.exe");
    assert_eq!(shown(&win), vec![("cmd".to_string(), vec!["/c", "start", "Chirp", "c.exe"].into_iter().map(String::from).collect())]);
    assert!(terminal_launches(Platform::Other, "", "c").is_empty());
}

#[test]
fn data_dir_falls_back_to_current_directory() {
    assert_eq!(data_dir_in(None), "./Chirp");
    assert_eq!(data_dir_in(Some("/x")), "/x/Chirp");
}

#[test]
fn auto_install_only_when_absent_and_stopped() {
    assert!(should_auto_install(false, false));
    assert!(!should_auto_install(true, false));
    assert!(!should_auto_install(false, true));
    assert!(!should_auto_install(true, true));
}

#[test]
fn uninstall_messages_per_platform() {
    assert_eq!(uninstall_message(Platform::MacOs, true).as_deref(), Some("Uninstalled chirp daemon"));
    assert_eq!(uninstall_message(Platform::MacOs, false).as_deref(), Some("No launch agent found"));
    assert_eq!(uninstall_message(Platform::Linux, false).as_deref(), Some("No systemd service found"));
    assert_eq!(uninstall_message(Platform::Windows, false).as_deref(), Some("No scheduled task found"));
    assert_eq!(uninstall_message(Platform::Windows, true).as_deref(), Some("Uninstalled chirp daemon"));
    assert_eq!(uninstall_message(Platform::Other, true), None);
}
