use iqfeed_rs::connection_manager::{launch, unix, windows, Platform};

fn login() -> Vec<String> {
    let texts = [
        "-product",
        "PID",
        "-version",
        "1.0",
        "-login",
        "user",
        "-password",
        "secret",
        "-autoconnect",
        "-saveloginingo",
    ];
    texts
        .iter()
        .map(|text| text.to_string())
        .collect()
}

#[test]
fn windows_runs_the_connector_itself() {
    let command = windows("PID", "1.0", "C:\\feed\\connect.exe", "user", "secret");
    assert_eq!(command.program, "C:\\feed\\connect.exe");
    assert_eq!(command.arguments, login());
}

#[test]
fn unix_runs_the_connector_under_a_virtual_display() {
    let command = unix("PID", "1.0", "/opt/feed/connect", "user", "secret");
    assert_eq!(command.program, "xvfb-run");
    let mut expected: Vec<String> =
        ["-s", "-noreset", "a", "/opt/feed/connect"].iter().map(|text| text.to_string()).collect();
    expected.extend(login());
    assert_eq!(command.arguments, expected);
}

#[test]
fn launch_goes_by_the_platform() {
    let on_windows = launch(Platform::Windows, "PID", "1.0", "path", "user", "secret").unwrap();
    assert_eq!(on_windows.program, "path");
    assert_eq!(on_windows.arguments.len(), 10);
    let on_unix = launch(Platform::Unix, "PID", "1.0", "path", "user", "secret").unwrap();
    assert_eq!(on_unix.program, "xvfb-run");
    assert_eq!(on_unix.arguments.len(), 14);
    assert_eq!(on_unix.arguments[3], "path");
    assert!(launch(Platform::Other, "PID", "1.0", "path", "user", "secret").is_none());
}
