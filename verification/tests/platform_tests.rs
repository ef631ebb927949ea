use termmux::error::TerminalError;
use termmux::network::network_manager_online;
use termmux::network::NetworkMonitor;
use termmux::network::status_transition;
use termmux::network::NetworkStatus;
use termmux::platform::external_terminal_command;
use termmux::platform::get_comprehensive_path;
use termmux::platform::get_default_shell;
use termmux::platform::get_log_directory;
use termmux::platform::get_operator_binary_path;
use termmux::platform::get_orchestrator_binary_path;
use termmux::platform::shell_invocation;
use termmux::platform::split_path;

#[test]
fn default_shell_prefers_the_environment() {
    assert_eq!(get_default_shell(false, Some("/usr/bin/fish".to_string())), "/usr/bin/fish");
    assert_eq!(get_default_shell(false, None), "/bin/bash");
    assert_eq!(get_default_shell(true, None), "powershell.exe");
    assert_eq!(get_default_shell(true, Some("cmd.exe".to_string())), "cmd.exe");
}

#[test]
fn zsh_runs_interactive() {
    assert_eq!(shell_invocation("/usr/bin/zsh"), vec!["-i".to_string()]);
}

#[test]
fn bash_runs_login_interactive() {
    assert_eq!(shell_invocation("/bin/bash"), vec!["--login".to_string(), "-i".to_string()]);
}

#[test]
fn other_shells_run_bare() {
    assert!(shell_invocation("/bin/sh").is_empty());
    assert!(shell_invocation("/bin/cat").is_empty());
}

#[test]
fn orchestrator_paths_by_platform() {
    assert_eq!(
        get_orchestrator_binary_path("linux", "x86_64"),
        "bin/orchestrator/agentkube-orchestrator-x86_64-unknown-linux-gnu"
    );
    assert_eq!(
        get_orchestrator_binary_path("macos", "aarch64"),
        "/Applications/Agentkube.app/Contents/Resources/bin/orchestrator/agentkube-orchestrator-aarch64-apple-darwin"
    );
    assert_eq!(
        get_orchestrator_binary_path("windows", "x86"),
        "bin\\orchestrator\\agentkube-orchestrator-i686-pc-windows-msvc.exe"
    );
    assert_eq!(get_orchestrator_binary_path("windows", "mips"), "bin\\orchestrator\\orchestrator.exe");
    assert_eq!(get_orchestrator_binary_path("freebsd", "x86_64"), "bin/orchestrator/orchestrator");
}

#[test]
fn operator_paths_by_platform() {
    assert_eq!(
        get_operator_binary_path("linux", "aarch64"),
        "bin/operator/agentkube-operator-aarch64-unknown-linux-gnu"
    );
    assert_eq!(
        get_operator_binary_path("macos", "x86_64"),
        "/Applications/Agentkube.app/Contents/Resources/bin/operator/agentkube-operator-x86_64-apple-darwin"
    );
    assert_eq!(
        get_operator_binary_path("windows", "x86_64"),
        "bin\\operator\\agentkube-operator-x86_64-pc-windows-msvc.exe"
    );
    assert_eq!(get_operator_binary_path("plan9", "arm"), "bin/operator/operator");
}

#[test]
fn log_directory_by_platform() {
    assert_eq!(
        get_log_directory(true, "/Users/me"),
        "/Users/me/Library/Logs/platform.agentkube.app"
    );
    assert_eq!(
        get_log_directory(false, "/home/me/.config"),
        "/home/me/.config/platform.agentkube.app/logs"
    );
}

#[test]
fn split_path_entries() {
    assert_eq!(split_path("/usr/bin:/bin"), vec!["/usr/bin".to_string(), "/bin".to_string()]);
    assert_eq!(split_path("/usr/bin"), vec!["/usr/bin".to_string()]);
    assert_eq!(split_path(""), vec![String::new()]);
    assert_eq!(split_path("a::b"), vec!["a".to_string(), String::new(), "b".to_string()]);
    assert_eq!(split_path("a:"), vec!["a".to_string(), String::new()]);
}

#[test]
fn comprehensive_path_keeps_order_and_skips_duplicates() {
    let candidates = vec![
        "/usr/local/bin".to_string(),
        "/bin".to_string(),
        "/opt/homebrew/bin".to_string(),
    ];
    assert_eq!(
        get_comprehensive_path("/usr/bin:/bin", &candidates),
        "/usr/bin:/bin:/usr/local/bin:/opt/homebrew/bin"
    );
}

#[test]
fn comprehensive_path_with_empty_inherited_path() {
    let candidates = vec!["/usr/bin".to_string(), "/usr/bin".to_string(), "/bin".to_string()];
    assert_eq!(get_comprehensive_path("", &candidates), "/usr/bin:/bin");
}

#[test]
fn comprehensive_path_with_no_candidates() {
    assert_eq!(get_comprehensive_path("/usr/bin", &Vec::new()), "/usr/bin");
    assert_eq!(get_comprehensive_path("", &Vec::new()), "");
}

#[test]
fn external_terminal_linux_dispatch() {
    let (prog, args) = external_terminal_command("linux", "alacritty", "/work", &None);
    assert_eq!(prog, "alacritty");
    assert_eq!(args, vec!["--working-directory".to_string(), "/work".to_string()]);
    let (prog, args) =
        external_terminal_command("linux", "gnome-terminal", "/work", &Some("make".to_string()));
    assert_eq!(prog, "gnome-terminal");
    assert_eq!(
        args,
        vec![
            "--working-directory".to_string(),
            "/work".to_string(),
            "--".to_string(),
            "sh".to_string(),
            "-c".to_string(),
            "make".to_string(),
        ]
    );
    let (prog, args) = external_terminal_command("linux", "konsole", "/w", &None);
    assert_eq!(prog, "konsole");
    assert_eq!(args, vec!["--workdir".to_string(), "/w".to_string()]);
    let (prog, args) = external_terminal_command("linux", "other", "/w", &None);
    assert_eq!(prog, "xterm");
    assert_eq!(args, vec!["-e".to_string(), "cd /w && $SHELL".to_string()]);
}

#[test]
fn external_terminal_macos_dispatch() {
    let (prog, args) = external_terminal_command("macos", "iterm", "/w", &Some("ls".to_string()));
    assert_eq!(prog, "osascript");
    assert_eq!(args[0], "-e");
    assert_eq!(
        args[1],
        "tell application \"iTerm\"\ncreate window with default profile\ntell current session of current window\nwrite text \"cd /w && ls\"\nend tell\nend tell"
    );
    let (prog, args) = external_terminal_command("macos", "alacritty", "/w", &None);
    assert_eq!(prog, "open");
    assert_eq!(
        args,
        vec![
            "-a".to_string(),
            "Alacritty".to_string(),
            "--args".to_string(),
            "--working-directory".to_string(),
            "/w".to_string(),
        ]
    );
    let (prog, args) = external_terminal_command("macos", "anything", "/w", &None);
    assert_eq!(prog, "osascript");
    assert_eq!(
        args[1],
        "tell application \"Terminal\"\ndo script \"cd /w\"\nactivate\nend tell"
    );
}

#[test]
fn external_terminal_windows_dispatch() {
    let (prog, args) = external_terminal_command("windows", "wt", "C:\\w", &None);
    assert_eq!(prog, "wt.exe");
    assert_eq!(args, vec!["-d".to_string(), "C:\\w".to_string()]);
    let (prog, args) = external_terminal_command("windows", "powershell", "C:\\w", &None);
    assert_eq!(prog, "powershell.exe");
    assert_eq!(
        args,
        vec!["-NoExit".to_string(), "-Command".to_string(), "Set-Location 'C:\\w'".to_string()]
    );
    let (prog, args) =
        external_terminal_command("windows", "other", "C:\\w", &Some("dir".to_string()));
    assert_eq!(prog, "cmd.exe");
    assert_eq!(
        args,
        vec![
            "/K".to_string(),
            "cd /d C:\\w".to_string(),
            "&&".to_string(),
            "dir".to_string(),
        ]
    );
}

#[test]
fn network_status_defaults_to_online() {
    assert!(NetworkStatus::default().online);
}

#[test]
fn transition_emits_exactly_on_change() {
    let online = NetworkStatus { online: true };
    let offline = NetworkStatus { online: false };
    assert_eq!(status_transition(online, true), (online, false));
    assert_eq!(status_transition(online, false), (offline, true));
    assert_eq!(status_transition(offline, false), (offline, false));
    assert_eq!(status_transition(offline, true), (online, true));
}

#[test]
fn monitor_emits_exactly_on_transitions() {
    let mut monitor = NetworkMonitor::new();
    assert!(monitor.get_status().online);
    // confirming the current state stays silent
    assert!(!monitor.update_status(true));
    // a transition emits, in both directions
    assert!(monitor.update_status(false));
    assert!(!monitor.get_status().online);
    assert!(!monitor.update_status(false));
    assert!(monitor.update_status(true));
    assert!(monitor.get_status().online);
}

#[test]
fn network_manager_threshold() {
    assert!(!network_manager_online(20));
    assert!(!network_manager_online(69));
    assert!(network_manager_online(70));
    assert!(network_manager_online(100));
}

#[test]
fn error_descriptions() {
    assert_eq!(TerminalError::NotFound.describe(), "session not found");
    assert_eq!(TerminalError::Closed.describe(), "session closed");
    assert_eq!(TerminalError::Write("boom".to_string()).describe(), "boom");
}
