//! Platform-conditional choices, written as pure functions from a platform
//! descriptor to a command specification so that they are checkable apart
//! from any process execution.

use vstd::prelude::*;

use crate::strutil::seq_contains_sub;
use crate::strutil::str_eq;
use crate::strutil::str_contains;

verus! {

/// The shell a new session runs when the caller names none: the value of the
/// platform's shell variable when it is set, else a fixed default.
pub open spec fn spec_default_shell(windows: bool, env_shell: Option<Seq<char>>) -> Seq<char> {
    match env_shell {
        Some(s) => s,
        None => if windows {
            "powershell.exe"@
        } else {
            "/bin/bash"@
        },
    }
}

/// Picks the default shell from the platform and the shell environment
/// variable's value, which the caller reads (`COMSPEC` on Windows, `SHELL`
/// elsewhere).
pub fn get_default_shell(windows: bool, env_shell: Option<String>) -> (r: String)
    ensures
        r@ == spec_default_shell(windows, match env_shell {
            Some(s) => Some(s@),
            None => None,
        }),
{
    match env_shell {
        Some(s) => s,
        None => if windows {
            String::from_str("powershell.exe")
        } else {
            String::from_str("/bin/bash")
        },
    }
}

/// The interactive-mode arguments a shell is invoked with: zsh takes `-i`,
/// bash takes `--login -i`, anything else runs bare.
pub open spec fn spec_shell_invocation(shell: Seq<char>) -> Seq<Seq<char>> {
    if seq_contains_sub(shell, "zsh"@) {
        seq!["-i"@]
    } else if seq_contains_sub(shell, "bash"@) {
        seq!["--login"@, "-i"@]
    } else {
        Seq::empty()
    }
}

/// The arguments to hand the default shell for an interactive session.
pub fn shell_invocation(shell: &str) -> (args: Vec<String>)
    ensures
        args.deep_view() == spec_shell_invocation(shell@),
{
    let mut args: Vec<String> = Vec::new();
    if str_contains(shell, "zsh") {
        args.push(String::from_str("-i"));
    } else if str_contains(shell, "bash") {
        args.push(String::from_str("--login"));
        args.push(String::from_str("-i"));
    }
    proof {
        assert(args.deep_view() =~= spec_shell_invocation(shell@));
    }
    args
}

/// Where the orchestrator companion binary lives, by operating system and
/// architecture; unknown platforms fall back to an unsuffixed name.
pub open spec fn spec_orchestrator_binary_path(os: Seq<char>, arch: Seq<char>) -> Seq<char> {
    if os == "windows"@ {
        if arch == "x86_64"@ {
            "bin\\orchestrator\\agentkube-orchestrator-x86_64-pc-windows-msvc.exe"@
        } else if arch == "x86"@ {
            "bin\\orchestrator\\agentkube-orchestrator-i686-pc-windows-msvc.exe"@
        } else if arch == "aarch64"@ {
            "bin\\orchestrator\\agentkube-orchestrator-aarch64-pc-windows-msvc.exe"@
        } else {
            "bin\\orchestrator\\orchestrator.exe"@
        }
    } else if os == "macos"@ {
        if arch == "x86_64"@ {
            "/Applications/Agentkube.app/Contents/Resources/bin/orchestrator/agentkube-orchestrator-x86_64-apple-darwin"@
        } else if arch == "aarch64"@ {
            "/Applications/Agentkube.app/Contents/Resources/bin/orchestrator/agentkube-orchestrator-aarch64-apple-darwin"@
        } else {
            "bin/orchestrator/orchestrator"@
        }
    } else if os == "linux"@ {
        if arch == "x86_64"@ {
            "bin/orchestrator/agentkube-orchestrator-x86_64-unknown-linux-gnu"@
        } else if arch == "aarch64"@ {
            "bin/orchestrator/agentkube-orchestrator-aarch64-unknown-linux-gnu"@
        } else {
            "bin/orchestrator/orchestrator"@
        }
    } else {
        "bin/orchestrator/orchestrator"@
    }
}

/// The orchestrator binary's path for this platform descriptor.
pub fn get_orchestrator_binary_path(os: &str, arch: &str) -> (r: String)
    ensures
        r@ == spec_orchestrator_binary_path(os@, arch@),
{
    if str_eq(os, "windows") {
        if str_eq(arch, "x86_64") {
            String::from_str("bin\\orchestrator\\agentkube-orchestrator-x86_64-pc-windows-msvc.exe")
        } else if str_eq(arch, "x86") {
            String::from_str("bin\\orchestrator\\agentkube-orchestrator-i686-pc-windows-msvc.exe")
        } else if str_eq(arch, "aarch64") {
            String::from_str(
                "bin\\orchestrator\\agentkube-orchestrator-aarch64-pc-windows-msvc.exe",
            )
        } else {
            String::from_str("bin\\orchestrator\\orchestrator.exe")
        }
    } else if str_eq(os, "macos") {
        if str_eq(arch, "x86_64") {
            String::from_str(
                "/Applications/Agentkube.app/Contents/Resources/bin/orchestrator/agentkube-orchestrator-x86_64-apple-darwin",
            )
        } else if str_eq(arch, "aarch64") {
            String::from_str(
                "/Applications/Agentkube.app/Contents/Resources/bin/orchestrator/agentkube-orchestrator-aarch64-apple-darwin",
            )
        } else {
            String::from_str("bin/orchestrator/orchestrator")
        }
    } else if str_eq(os, "linux") {
        if str_eq(arch, "x86_64") {
            String::from_str("bin/orchestrator/agentkube-orchestrator-x86_64-unknown-linux-gnu")
        } else if str_eq(arch, "aarch64") {
            String::from_str("bin/orchestrator/agentkube-orchestrator-aarch64-unknown-linux-gnu")
        } else {
            String::from_str("bin/orchestrator/orchestrator")
        }
    } else {
        String::from_str("bin/orchestrator/orchestrator")
    }
}

/// Where the operator companion binary lives, by operating system and
/// architecture; unknown platforms fall back to an unsuffixed name.
pub open spec fn spec_operator_binary_path(os: Seq<char>, arch: Seq<char>) -> Seq<char> {
    if os == "windows"@ {
        if arch == "x86_64"@ {
            "bin\\operator\\agentkube-operator-x86_64-pc-windows-msvc.exe"@
        } else if arch == "x86"@ {
            "bin\\operator\\agentkube-operator-i686-pc-windows-msvc.exe"@
        } else if arch == "aarch64"@ {
            "bin\\operator\\agentkube-operator-aarch64-pc-windows-msvc.exe"@
        } else {
            "bin\\operator\\operator.exe"@
        }
    } else if os == "macos"@ {
        if arch == "x86_64"@ {
            "/Applications/Agentkube.app/Contents/Resources/bin/operator/agentkube-operator-x86_64-apple-darwin"@
        } else if arch == "aarch64"@ {
            "/Applications/Agentkube.app/Contents/Resources/bin/operator/agentkube-operator-aarch64-apple-darwin"@
        } else {
            "bin/operator/operator"@
        }
    } else if os == "linux"@ {
        if arch == "x86_64"@ {
            "bin/operator/agentkube-operator-x86_64-unknown-linux-gnu"@
        } else if arch == "aarch64"@ {
            "bin/operator/agentkube-operator-aarch64-unknown-linux-gnu"@
        } else {
            "bin/operator/operator"@
        }
    } else {
        "bin/operator/operator"@
    }
}

/// The operator binary's path for this platform descriptor.
pub fn get_operator_binary_path(os: &str, arch: &str) -> (r: String)
    ensures
        r@ == spec_operator_binary_path(os@, arch@),
{
    if str_eq(os, "windows") {
        if str_eq(arch, "x86_64") {
            String::from_str("bin\\operator\\agentkube-operator-x86_64-pc-windows-msvc.exe")
        } else if str_eq(arch, "x86") {
            String::from_str("bin\\operator\\agentkube-operator-i686-pc-windows-msvc.exe")
        } else if str_eq(arch, "aarch64") {
            String::from_str("bin\\operator\\agentkube-operator-aarch64-pc-windows-msvc.exe")
        } else {
            String::from_str("bin\\operator\\operator.exe")
        }
    } else if str_eq(os, "macos") {
        if str_eq(arch, "x86_64") {
            String::from_str(
                "/Applications/Agentkube.app/Contents/Resources/bin/operator/agentkube-operator-x86_64-apple-darwin",
            )
        } else if str_eq(arch, "aarch64") {
            String::from_str(
                "/Applications/Agentkube.app/Contents/Resources/bin/operator/agentkube-operator-aarch64-apple-darwin",
            )
        } else {
            String::from_str("bin/operator/operator")
        }
    } else if str_eq(os, "linux") {
        if str_eq(arch, "x86_64") {
            String::from_str("bin/operator/agentkube-operator-x86_64-unknown-linux-gnu")
        } else if str_eq(arch, "aarch64") {
            String::from_str("bin/operator/agentkube-operator-aarch64-unknown-linux-gnu")
        } else {
            String::from_str("bin/operator/operator")
        }
    } else {
        String::from_str("bin/operator/operator")
    }
}

/// Where the companion services' logs go, under the platform's base
/// directory — the home directory on macOS, the configuration directory
/// elsewhere.  Joined with forward slashes; the caller reads the base.
pub open spec fn spec_log_directory(macos: bool, base: Seq<char>) -> Seq<char> {
    if macos {
        base + "/Library/Logs/platform.agentkube.app"@
    } else {
        base + "/platform.agentkube.app/logs"@
    }
}

/// The log directory for the companion services.
pub fn get_log_directory(macos: bool, base: &str) -> (r: String)
    ensures
        r@ == spec_log_directory(macos, base@),
{
    let mut s = String::from_str(base);
    if macos {
        s.append("/Library/Logs/platform.agentkube.app");
    } else {
        s.append("/platform.agentkube.app/logs");
    }
    s
}

/// The script handed to the macOS scripting runner to open a new iTerm
/// window in the working directory, optionally running a command there.
pub open spec fn spec_iterm_script(cwd: Seq<char>, command: Option<Seq<char>>) -> Seq<char> {
    "tell application \"iTerm\"\ncreate window with default profile\ntell current session of current window\nwrite text \"cd "@
        + cwd + (match command {
        Some(c) => " && "@ + c,
        None => Seq::<char>::empty(),
    }) + "\"\nend tell\nend tell"@
}

/// The script handed to the macOS scripting runner for the stock terminal
/// application.
pub open spec fn spec_terminal_app_script(cwd: Seq<char>, command: Option<Seq<char>>) -> Seq<
    char,
> {
    "tell application \"Terminal\"\ndo script \"cd "@ + cwd + (match command {
        Some(c) => " && "@ + c,
        None => Seq::<char>::empty(),
    }) + "\"\nactivate\nend tell"@
}

/// The single shell command an xterm fallback runs: change directory, then
/// the requested command or the user's shell.
pub open spec fn spec_shell_chain(cwd: Seq<char>, command: Option<Seq<char>>) -> Seq<char> {
    "cd "@ + cwd + " && "@ + (match command {
        Some(c) => c,
        None => "$SHELL"@,
    })
}

/// The program and arguments that open the requested external terminal
/// application in a working directory, optionally running a command: a
/// stateless dispatch table from platform descriptor to command
/// specification.  Unknown terminal kinds fall back to the platform's
/// stock terminal, and unknown platforms to the xterm fallback.
pub open spec fn spec_external_terminal_command(
    os: Seq<char>,
    kind: Seq<char>,
    cwd: Seq<char>,
    command: Option<Seq<char>>,
) -> (Seq<char>, Seq<Seq<char>>) {
    if os == "macos"@ {
        if kind == "iterm"@ || kind == "iTerm"@ {
            ("osascript"@, seq!["-e"@, spec_iterm_script(cwd, command)])
        } else if kind == "alacritty"@ {
            (
                "open"@,
                seq!["-a"@, "Alacritty"@, "--args"@, "--working-directory"@, cwd] + (match command {
                    Some(c) => seq!["-e"@, c],
                    None => Seq::<Seq<char>>::empty(),
                }),
            )
        } else {
            ("osascript"@, seq!["-e"@, spec_terminal_app_script(cwd, command)])
        }
    } else if os == "linux"@ {
        if kind == "alacritty"@ {
            (
                "alacritty"@,
                seq!["--working-directory"@, cwd] + (match command {
                    Some(c) => seq!["-e"@, "sh"@, "-c"@, c],
                    None => Seq::<Seq<char>>::empty(),
                }),
            )
        } else if kind == "gnome-terminal"@ {
            (
                "gnome-terminal"@,
                seq!["--working-directory"@, cwd] + (match command {
                    Some(c) => seq!["--"@, "sh"@, "-c"@, c],
                    None => Seq::<Seq<char>>::empty(),
                }),
            )
        } else if kind == "konsole"@ {
            (
                "konsole"@,
                seq!["--workdir"@, cwd] + (match command {
                    Some(c) => seq!["-e"@, "sh"@, "-c"@, c],
                    None => Seq::<Seq<char>>::empty(),
                }),
            )
        } else {
            ("xterm"@, seq!["-e"@, spec_shell_chain(cwd, command)])
        }
    } else if os == "windows"@ {
        if kind == "windows-terminal"@ || kind == "wt"@ {
            (
                "wt.exe"@,
                seq!["-d"@, cwd] + (match command {
                    Some(c) => seq!["cmd"@, "/c"@, c],
                    None => Seq::<Seq<char>>::empty(),
                }),
            )
        } else if kind == "powershell"@ {
            (
                "powershell.exe"@,
                seq!["-NoExit"@, "-Command"@, "Set-Location '"@ + cwd + "'"@] + (match command {
                    Some(c) => seq![";"@, c],
                    None => Seq::<Seq<char>>::empty(),
                }),
            )
        } else {
            (
                "cmd.exe"@,
                seq!["/K"@, "cd /d "@ + cwd] + (match command {
                    Some(c) => seq!["&&"@, c],
                    None => Seq::<Seq<char>>::empty(),
                }),
            )
        }
    } else {
        ("xterm"@, seq!["-e"@, spec_shell_chain(cwd, command)])
    }
}

/// Appends the optional trailing command to an argument list, each element
/// under a fixed flag sequence.
fn push_arg(args: &mut Vec<String>, a: &str)
    ensures
        final(args).deep_view() == old(args).deep_view().push(a@),
{
    let ghost before = args.deep_view();
    args.push(String::from_str(a));
    proof {
        assert(args.deep_view() =~= before.push(a@));
    }
}

/// Builds the xterm fallback's single shell command.
fn shell_chain(cwd: &str, command: &Option<String>) -> (r: String)
    ensures
        r@ == spec_shell_chain(cwd@, match command {
            Some(c) => Some(c@),
            None => None,
        }),
{
    let mut s = String::from_str("cd ");
    s.append(cwd);
    s.append(" && ");
    match command {
        Some(c) => s.append(c.as_str()),
        None => s.append("$SHELL"),
    }
    s
}

/// The program to spawn, and its arguments, to open the requested external
/// terminal in a working directory, optionally running a command there.
pub fn external_terminal_command(
    os: &str,
    terminal_type: &str,
    cwd: &str,
    command: &Option<String>,
) -> (r: (String, Vec<String>))
    ensures
        ({
            let spec = spec_external_terminal_command(os@, terminal_type@, cwd@, match command {
                Some(c) => Some(c@),
                None => None,
            });
            r.0@ == spec.0 && r.1.deep_view() == spec.1
        }),
{
    let mut args: Vec<String> = Vec::new();
    if str_eq(os, "macos") {
        if str_eq(terminal_type, "iterm") || str_eq(terminal_type, "iTerm") {
            let mut script = String::from_str(
                "tell application \"iTerm\"\ncreate window with default profile\ntell current session of current window\nwrite text \"cd ",
            );
            script.append(cwd);
            match command {
                Some(c) => {
                    script.append(" && ");
                    script.append(c.as_str());
                },
                None => {},
            }
            script.append("\"\nend tell\nend tell");
            push_arg(&mut args, "-e");
            let ghost sv = script@;
            let ghost b0 = args.deep_view();
            args.push(script);
            proof {
                assert(sv =~= spec_iterm_script(cwd@, match command {
                    Some(c) => Some(c@),
                    None => None,
                }));
                assert(args.deep_view() =~= b0.push(sv));
                assert(args.deep_view() =~= spec_external_terminal_command(
                    os@,
                    terminal_type@,
                    cwd@,
                    match command {
                        Some(c) => Some(c@),
                        None => None,
                    },
                ).1);
            }
            (String::from_str("osascript"), args)
        } else if str_eq(terminal_type, "alacritty") {
            push_arg(&mut args, "-a");
            push_arg(&mut args, "Alacritty");
            push_arg(&mut args, "--args");
            push_arg(&mut args, "--working-directory");
            push_arg(&mut args, cwd);
            match command {
                Some(c) => {
                    push_arg(&mut args, "-e");
                    push_arg(&mut args, c.as_str());
                },
                None => {},
            }
            proof {
                assert(args.deep_view() =~= spec_external_terminal_command(
                    os@,
                    terminal_type@,
                    cwd@,
                    match command {
                        Some(c) => Some(c@),
                        None => None,
                    },
                ).1);
            }
            (String::from_str("open"), args)
        } else {
            let mut script = String::from_str("tell application \"Terminal\"\ndo script \"cd ");
            script.append(cwd);
            match command {
                Some(c) => {
                    script.append(" && ");
                    script.append(c.as_str());
                },
                None => {},
            }
            script.append("\"\nactivate\nend tell");
            push_arg(&mut args, "-e");
            let ghost sv = script@;
            let ghost b0 = args.deep_view();
            args.push(script);
            proof {
                assert(sv =~= spec_terminal_app_script(cwd@, match command {
                    Some(c) => Some(c@),
                    None => None,
                }));
                assert(args.deep_view() =~= b0.push(sv));
                assert(args.deep_view() =~= spec_external_terminal_command(
                    os@,
                    terminal_type@,
                    cwd@,
                    match command {
                        Some(c) => Some(c@),
                        None => None,
                    },
                ).1);
            }
            (String::from_str("osascript"), args)
        }
    } else if str_eq(os, "linux") {
        if str_eq(terminal_type, "alacritty") {
            push_arg(&mut args, "--working-directory");
            push_arg(&mut args, cwd);
            match command {
                Some(c) => {
                    push_arg(&mut args, "-e");
                    push_arg(&mut args, "sh");
                    push_arg(&mut args, "-c");
                    push_arg(&mut args, c.as_str());
                },
                None => {},
            }
            proof {
                assert(args.deep_view() =~= spec_external_terminal_command(
                    os@,
                    terminal_type@,
                    cwd@,
                    match command {
                        Some(c) => Some(c@),
                        None => None,
                    },
                ).1);
            }
            (String::from_str("alacritty"), args)
        } else if str_eq(terminal_type, "gnome-terminal") {
            push_arg(&mut args, "--working-directory");
            push_arg(&mut args, cwd);
            match command {
                Some(c) => {
                    push_arg(&mut args, "--");
                    push_arg(&mut args, "sh");
                    push_arg(&mut args, "-c");
                    push_arg(&mut args, c.as_str());
                },
                None => {},
            }
            proof {
                assert(args.deep_view() =~= spec_external_terminal_command(
                    os@,
                    terminal_type@,
                    cwd@,
                    match command {
                        Some(c) => Some(c@),
                        None => None,
                    },
                ).1);
            }
            (String::from_str("gnome-terminal"), args)
        } else if str_eq(terminal_type, "konsole") {
            push_arg(&mut args, "--workdir");
            push_arg(&mut args, cwd);
            match command {
                Some(c) => {
                    push_arg(&mut args, "-e");
                    push_arg(&mut args, "sh");
                    push_arg(&mut args, "-c");
                    push_arg(&mut args, c.as_str());
                },
                None => {},
            }
            proof {
                assert(args.deep_view() =~= spec_external_terminal_command(
                    os@,
                    terminal_type@,
                    cwd@,
                    match command {
                        Some(c) => Some(c@),
                        None => None,
                    },
                ).1);
            }
            (String::from_str("konsole"), args)
        } else {
            push_arg(&mut args, "-e");
            let chain = shell_chain(cwd, command);
            let ghost sv = chain@;
            let ghost b0 = args.deep_view();
            args.push(chain);
            proof {
                assert(args.deep_view() =~= b0.push(sv));
                assert(args.deep_view() =~= spec_external_terminal_command(
                    os@,
                    terminal_type@,
                    cwd@,
                    match command {
                        Some(c) => Some(c@),
                        None => None,
                    },
                ).1);
            }
            (String::from_str("xterm"), args)
        }
    } else if str_eq(os, "windows") {
        if str_eq(terminal_type, "windows-terminal") || str_eq(terminal_type, "wt") {
            push_arg(&mut args, "-d");
            push_arg(&mut args, cwd);
            match command {
                Some(c) => {
                    push_arg(&mut args, "cmd");
                    push_arg(&mut args, "/c");
                    push_arg(&mut args, c.as_str());
                },
                None => {},
            }
            proof {
                assert(args.deep_view() =~= spec_external_terminal_command(
                    os@,
                    terminal_type@,
                    cwd@,
                    match command {
                        Some(c) => Some(c@),
                        None => None,
                    },
                ).1);
            }
            (String::from_str("wt.exe"), args)
        } else if str_eq(terminal_type, "powershell") {
            push_arg(&mut args, "-NoExit");
            push_arg(&mut args, "-Command");
            let mut setloc = String::from_str("Set-Location '");
            setloc.append(cwd);
            setloc.append("'");
            let ghost sv = setloc@;
            let ghost b0 = args.deep_view();
            args.push(setloc);
            proof {
                assert(sv =~= "Set-Location '"@ + cwd@ + "'"@);
                assert(args.deep_view() =~= b0.push(sv));
            }
            match command {
                Some(c) => {
                    push_arg(&mut args, ";");
                    push_arg(&mut args, c.as_str());
                },
                None => {},
            }
            proof {
                assert(args.deep_view() =~= spec_external_terminal_command(
                    os@,
                    terminal_type@,
                    cwd@,
                    match command {
                        Some(c) => Some(c@),
                        None => None,
                    },
                ).1);
            }
            (String::from_str("powershell.exe"), args)
        } else {
            push_arg(&mut args, "/K");
            let mut cdd = String::from_str("cd /d ");
            cdd.append(cwd);
            let ghost sv = cdd@;
            let ghost b0 = args.deep_view();
            args.push(cdd);
            proof {
                assert(sv =~= "cd /d "@ + cwd@);
                assert(args.deep_view() =~= b0.push(sv));
            }
            match command {
                Some(c) => {
                    push_arg(&mut args, "&&");
                    push_arg(&mut args, c.as_str());
                },
                None => {},
            }
            proof {
                assert(args.deep_view() =~= spec_external_terminal_command(
                    os@,
                    terminal_type@,
                    cwd@,
                    match command {
                        Some(c) => Some(c@),
                        None => None,
                    },
                ).1);
            }
            (String::from_str("cmd.exe"), args)
        }
    } else {
        push_arg(&mut args, "-e");
        let chain = shell_chain(cwd, command);
        let ghost sv = chain@;
        let ghost b0 = args.deep_view();
        args.push(chain);
        proof {
            assert(args.deep_view() =~= b0.push(sv));
            assert(args.deep_view() =~= spec_external_terminal_command(
                os@,
                terminal_type@,
                cwd@,
                match command {
                    Some(c) => Some(c@),
                    None => None,
                },
            ).1);
        }
        (String::from_str("xterm"), args)
    }
}

/// The position of the first path separator, or -1.
pub open spec fn first_colon(s: Seq<char>) -> int
    decreases s.len(),
{
    if s.len() == 0 {
        -1
    } else if s[0] == ':' {
        0
    } else {
        let r = first_colon(s.drop_first());
        if r < 0 {
            -1
        } else {
            r + 1
        }
    }
}

/// Where `first_colon` points: at a separator, with none before it.
proof fn lemma_first_colon(s: Seq<char>)
    ensures
        -1 <= first_colon(s) < s.len(),
        first_colon(s) >= 0 ==> s[first_colon(s)] == ':',
        first_colon(s) < 0 ==> forall|j: int| 0 <= j < s.len() ==> s[j] != ':',
    decreases s.len(),
{
    if s.len() > 0 && s[0] != ':' {
        lemma_first_colon(s.drop_first());
        if first_colon(s) < 0 {
            assert forall|j: int| 0 <= j < s.len() implies s[j] != ':' by {
                if j > 0 {
                    assert(s[j] == s.drop_first()[j - 1]);
                }
            }
        }
    }
}

/// The separator `first_colon` finds is the first one.
proof fn lemma_first_colon_at(s: Seq<char>, i: int)
    requires
        0 <= i < s.len(),
        s[i] == ':',
        forall|j: int| 0 <= j < i ==> s[j] != ':',
    ensures
        first_colon(s) == i,
    decreases s.len(),
{
    if i > 0 {
        assert(forall|j: int| 0 <= j < i - 1 ==> s.drop_first()[j] == s[j + 1]);
        assert(s.drop_first()[i - 1] == s[i]);
        lemma_first_colon_at(s.drop_first(), i - 1);
    }
}

/// A search-path string's entries, split on `:`; an empty string is one
/// empty entry, as the platform's convention has it.
pub open spec fn spec_split_path(s: Seq<char>) -> Seq<Seq<char>>
    decreases s.len(),
    via spec_split_path_decreases
{
    let i = first_colon(s);
    if i < 0 {
        seq![s]
    } else {
        seq![s.take(i)] + spec_split_path(s.skip(i + 1))
    }
}

#[via_fn]
proof fn spec_split_path_decreases(s: Seq<char>) {
    lemma_first_colon(s);
}

/// Splits a search-path string into its entries.
pub fn split_path(s: &str) -> (r: Vec<String>)
    ensures
        r.deep_view() == spec_split_path(s@),
{
    let n = s.unicode_len();
    let mut r: Vec<String> = Vec::new();
    let mut start: usize = 0;
    let mut i: usize = 0;
    proof {
        assert(s@.skip(0) =~= s@);
        assert(r.deep_view() + spec_split_path(s@) =~= spec_split_path(s@));
    }
    while i < n
        invariant
            start <= i <= n,
            n == s@.len(),
            forall|j: int| start <= j < i ==> s@[j] != ':',
            spec_split_path(s@) == r.deep_view() + spec_split_path(s@.skip(start as int)),
        decreases n - i,
    {
        if s.get_char(i) == ':' {
            let seg = String::from_str(s.substring_char(start, i));
            let ghost r0 = r.deep_view();
            r.push(seg);
            proof {
                let rest = s@.skip(start as int);
                assert(forall|k: int| 0 <= k < rest.len() ==> rest[k] == s@[start + k]);
                assert(rest[i - start] == ':');
                lemma_first_colon_at(rest, i - start);
                assert(spec_split_path(rest) == seq![rest.take(i - start)] + spec_split_path(
                    rest.skip(i - start + 1),
                ));
                assert(rest.take(i - start) =~= s@.subrange(start as int, i as int));
                assert(rest.skip(i - start + 1) =~= s@.skip(i + 1));
                assert(seg@ == s@.subrange(start as int, i as int));
                assert(r.deep_view() =~= r0.push(seg@));
                assert(r0 + (seq![seg@] + spec_split_path(s@.skip(i + 1))) =~= r.deep_view()
                    + spec_split_path(s@.skip(i + 1)));
            }
            start = i + 1;
        }
        i = i + 1;
    }
    let seg = String::from_str(s.substring_char(start, n));
    let ghost r0 = r.deep_view();
    r.push(seg);
    proof {
        let rest = s@.skip(start as int);
        assert(forall|k: int| 0 <= k < rest.len() ==> rest[k] == s@[start + k]);
        lemma_first_colon(rest);
        if first_colon(rest) >= 0 {
            assert(rest[first_colon(rest)] == ':');
            assert(false);
        }
        assert(spec_split_path(rest) == seq![rest]);
        assert(seg@ == rest);
        assert(r.deep_view() =~= r0.push(seg@));
        assert(r0 + seq![rest] =~= r.deep_view());
    }
    r
}

/// Folds candidate entries into an entry list: each candidate not already
/// present is appended, in order; duplicates are skipped.
pub open spec fn spec_merge_paths(acc: Seq<Seq<char>>, items: Seq<Seq<char>>) -> Seq<Seq<char>>
    decreases items.len(),
{
    if items.len() == 0 {
        acc
    } else if acc.contains(items[0]) {
        spec_merge_paths(acc, items.drop_first())
    } else {
        spec_merge_paths(acc.push(items[0]), items.drop_first())
    }
}

/// Folding one more item only consults what has accumulated so far.
proof fn lemma_merge_paths_snoc(acc: Seq<Seq<char>>, items: Seq<Seq<char>>, x: Seq<char>)
    ensures
        spec_merge_paths(acc, items.push(x)) == ({
            let m = spec_merge_paths(acc, items);
            if m.contains(x) {
                m
            } else {
                m.push(x)
            }
        }),
    decreases items.len(),
{
    if items.len() == 0 {
        assert(items.push(x)[0] == x);
        assert(items.push(x).drop_first() =~= Seq::<Seq<char>>::empty());
        assert(spec_merge_paths(acc, Seq::<Seq<char>>::empty()) == acc);
        assert(spec_merge_paths(acc.push(x), Seq::<Seq<char>>::empty()) == acc.push(x));
        assert(spec_merge_paths(acc, items) == acc);
    } else {
        assert(items.push(x)[0] == items[0]);
        assert(items.push(x).drop_first() =~= items.drop_first().push(x));
        if acc.contains(items[0]) {
            lemma_merge_paths_snoc(acc, items.drop_first(), x);
        } else {
            lemma_merge_paths_snoc(acc.push(items[0]), items.drop_first(), x);
        }
    }
}

/// Whether the entry list holds this entry.
fn path_list_contains(v: &Vec<String>, x: &str) -> (r: bool)
    ensures
        r == v.deep_view().contains(x@),
{
    let n = v.len();
    let mut i: usize = 0;
    while i < n
        invariant
            i <= n,
            n == v@.len(),
            forall|j: int| 0 <= j < i ==> v.deep_view()[j] != x@,
        decreases n - i,
    {
        if str_eq(v[i].as_str(), x) {
            proof {
                assert(v.deep_view()[i as int] == x@);
            }
            return true;
        }
        proof {
            assert(v.deep_view()[i as int] == v@[i as int]@);
        }
        i = i + 1;
    }
    proof {
        assert(!v.deep_view().contains(x@));
    }
    false
}

/// An entry list joined back into a search-path string with `:`.
pub open spec fn spec_join_path(parts: Seq<Seq<char>>) -> Seq<char>
    decreases parts.len(),
{
    if parts.len() == 0 {
        Seq::empty()
    } else if parts.len() == 1 {
        parts[0]
    } else {
        parts[0] + seq![':'] + spec_join_path(parts.drop_first())
    }
}

/// Joining appends at the end, one separator per boundary.
proof fn lemma_join_path_snoc(parts: Seq<Seq<char>>, x: Seq<char>)
    requires
        parts.len() >= 1,
    ensures
        spec_join_path(parts.push(x)) == spec_join_path(parts) + seq![':'] + x,
    decreases parts.len(),
{
    assert(parts.push(x)[0] == parts[0]);
    assert(parts.push(x).drop_first() =~= parts.drop_first().push(x));
    if parts.len() == 1 {
        assert(parts.push(x).drop_first() =~= seq![x]);
        assert(spec_join_path(seq![x]) == x);
    } else {
        lemma_join_path_snoc(parts.drop_first(), x);
    }
}

/// Joins an entry list back into a search-path string.
fn join_path(parts: &Vec<String>) -> (r: String)
    ensures
        r@ == spec_join_path(parts.deep_view()),
{
    let n = parts.len();
    if n == 0 {
        return String::new();
    }
    let mut s = parts[0].clone();
    let mut i: usize = 1;
    proof {
        assert(parts.deep_view().take(1) =~= seq![parts.deep_view()[0]]);
        assert(spec_join_path(parts.deep_view().take(1)) == parts.deep_view()[0]);
    }
    while i < n
        invariant
            1 <= i <= n,
            n == parts@.len(),
            s@ == spec_join_path(parts.deep_view().take(i as int)),
        decreases n - i,
    {
        s.append(":");
        s.append(parts[i].as_str());
        proof {
            reveal_strlit(":");
            assert(":"@ =~= seq![':']);
            lemma_join_path_snoc(parts.deep_view().take(i as int), parts.deep_view()[i as int]);
            assert(parts.deep_view().take(i + 1) =~= parts.deep_view().take(i as int).push(
                parts.deep_view()[i as int],
            ));
            assert(s@ =~= spec_join_path(parts.deep_view().take(i as int)) + seq![':']
                + parts.deep_view()[i as int]);
        }
        i = i + 1;
    }
    proof {
        assert(parts.deep_view().take(n as int) =~= parts.deep_view());
    }
    s
}

/// The search path handed to the companion services: the inherited path's
/// entries first, in order, then every candidate directory not already
/// present.
pub open spec fn spec_comprehensive_path(existing: Seq<char>, candidates: Seq<Seq<char>>) -> Seq<
    char,
> {
    let base = if existing.len() == 0 {
        Seq::<Seq<char>>::empty()
    } else {
        spec_split_path(existing)
    };
    spec_join_path(spec_merge_paths(base, candidates))
}

/// Builds the merged search path.  The caller reads the inherited path and
/// keeps only the candidate directories that exist on disk.
pub fn get_comprehensive_path(existing_path: &str, candidates: &Vec<String>) -> (r: String)
    ensures
        r@ == spec_comprehensive_path(existing_path@, candidates.deep_view()),
{
    let mut all: Vec<String> = if existing_path.unicode_len() > 0 {
        split_path(existing_path)
    } else {
        Vec::new()
    };
    let ghost base = all.deep_view();
    proof {
        if existing_path@.len() == 0 {
            assert(base =~= Seq::<Seq<char>>::empty());
        }
        assert(base =~= spec_merge_paths(base, candidates.deep_view().take(0)));
    }
    let n = candidates.len();
    let mut i: usize = 0;
    while i < n
        invariant
            i <= n,
            n == candidates@.len(),
            all.deep_view() == spec_merge_paths(base, candidates.deep_view().take(i as int)),
        decreases n - i,
    {
        let ghost before = all.deep_view();
        if !path_list_contains(&all, candidates[i].as_str()) {
            all.push(candidates[i].clone());
            proof {
                assert(all.deep_view() =~= before.push(candidates.deep_view()[i as int]));
            }
        }
        proof {
            lemma_merge_paths_snoc(
                base,
                candidates.deep_view().take(i as int),
                candidates.deep_view()[i as int],
            );
            assert(candidates.deep_view().take(i + 1) =~= candidates.deep_view().take(
                i as int,
            ).push(candidates.deep_view()[i as int]));
        }
        i = i + 1;
    }
    proof {
        assert(candidates.deep_view().take(n as int) =~= candidates.deep_view());
    }
    join_path(&all)
}

} // verus!
