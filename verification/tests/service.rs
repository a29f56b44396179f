use codexclaw::config::AppPaths;
use codexclaw::service::{
    detect_active_macos_label, handle, handle_in, render_linux_unit, render_macos_plist,
    ServiceCommand, ServiceDirs, ServiceStep, ServiceSystem,
};

fn paths() -> AppPaths {
    AppPaths {
        config_path: "/home/u/.config/codexclaw/config.toml".to_string(),
        state_dir: "/s".to_string(),
        cache_dir: "/c".to_string(),
    }
}

fn system(os: &str) -> ServiceSystem {
    ServiceSystem {
        os: os.to_string(),
        exe: Some("/usr/bin/codexclaw".to_string()),
        env_home: Some("/home/u".to_string()),
        uid: "501".to_string(),
        active_label: None,
    }
}

fn user_dirs() -> ServiceDirs {
    ServiceDirs {
        config: Some("/home/u/.config".to_string()),
        home: Some("/home/u".to_string()),
    }
}

fn plan(command: ServiceCommand, system: &ServiceSystem) -> Vec<ServiceStep> {
    handle_in(command, &paths(), system, &user_dirs()).expect("plan")
}

fn run(program: &str, args: &[&str]) -> ServiceStep {
    ServiceStep::Run {
        program: program.to_string(),
        args: args.iter().map(|arg| arg.to_string()).collect(),
    }
}

fn try_run(program: &str, args: &[&str]) -> ServiceStep {
    ServiceStep::TryRun {
        program: program.to_string(),
        args: args.iter().map(|arg| arg.to_string()).collect(),
    }
}

#[test]
fn linux_units_are_installed_and_enabled() {
    let steps = plan(ServiceCommand::Install, &system("linux"));
    assert_eq!(
        steps[0],
        ServiceStep::CreateDirectory("/home/u/.config/systemd/user".to_string())
    );
    match &steps[1] {
        ServiceStep::WriteFile { path, content } => {
            assert_eq!(path, "/home/u/.config/systemd/user/codexclaw.service");
            assert!(content.contains(
                "ExecStart=/usr/bin/codexclaw --config /home/u/.config/codexclaw/config.toml run\n"
            ));
            assert!(content.contains("WorkingDirectory=/home/u\n"));
            assert!(content.contains("ExecReload=/bin/kill -HUP $MAINPID\n"));
        }
        other => panic!("unexpected {other:?}"),
    }
    assert_eq!(
        &steps[2..],
        &[
            run("systemctl", &["--user", "daemon-reload"]),
            run("systemctl", &["--user", "enable", "--now", "codexclaw.service"]),
            ServiceStep::Print("/home/u/.config/systemd/user/codexclaw.service".to_string()),
        ]
    );
}

#[test]
fn linux_units_are_removed() {
    assert_eq!(
        plan(ServiceCommand::Uninstall, &system("linux")),
        vec![
            try_run("systemctl", &["--user", "disable", "--now", "codexclaw.service"]),
            ServiceStep::RemoveIfPresent(
                "/home/u/.config/systemd/user/codexclaw.service".to_string()
            ),
            try_run("systemctl", &["--user", "daemon-reload"]),
        ]
    );
}

#[test]
fn linux_actions_go_to_systemctl() {
    for (command, args) in [
        (ServiceCommand::Start, vec!["--user", "start", "codexclaw.service"]),
        (ServiceCommand::Stop, vec!["--user", "stop", "codexclaw.service"]),
        (ServiceCommand::Restart, vec!["--user", "restart", "codexclaw.service"]),
        (ServiceCommand::Reload, vec!["--user", "reload", "codexclaw.service"]),
        (
            ServiceCommand::Status,
            vec!["--user", "status", "--no-pager", "codexclaw.service"],
        ),
    ] {
        assert_eq!(plan(command, &system("linux")), vec![run("systemctl", &args)]);
    }
}

#[test]
fn mac_agents_are_installed_and_started() {
    let plist = "/home/u/Library/LaunchAgents/dev.codexclaw.agent.plist";
    let steps = plan(ServiceCommand::Install, &system("macos"));
    assert_eq!(
        steps[0],
        ServiceStep::CreateDirectory("/home/u/Library/LaunchAgents".to_string())
    );
    assert!(matches!(&steps[1], ServiceStep::WriteFile { path, .. } if path == plist));
    assert_eq!(
        &steps[2..],
        &[
            try_run("launchctl", &["bootout", "gui/501", plist]),
            run("launchctl", &["bootstrap", "gui/501", plist]),
            run("launchctl", &["enable", "gui/501/dev.codexclaw.agent"]),
            run("launchctl", &["kickstart", "-k", "gui/501/dev.codexclaw.agent"]),
            ServiceStep::Print(plist.to_string()),
        ]
    );
    assert_eq!(
        plan(ServiceCommand::Uninstall, &system("macos")),
        vec![
            try_run("launchctl", &["bootout", "gui/501", plist]),
            ServiceStep::RemoveIfPresent(plist.to_string()),
        ]
    );
}

#[test]
fn mac_actions_go_to_the_label_that_is_loaded() {
    let mut mac = system("macos");
    mac.active_label = detect_active_macos_label(false, true);
    assert_eq!(
        plan(ServiceCommand::Start, &mac),
        vec![run("launchctl", &["kickstart", "-k", "gui/501/dev.codexclaw.agent"])]
    );
    assert_eq!(
        plan(ServiceCommand::Reload, &mac),
        vec![run("launchctl", &["kill", "HUP", "gui/501/dev.hooyodex.agent"])]
    );
    assert_eq!(
        plan(ServiceCommand::Stop, &mac),
        vec![run("launchctl", &["bootout", "gui/501/dev.hooyodex.agent"])]
    );
    mac.active_label = detect_active_macos_label(false, false);
    assert_eq!(
        plan(ServiceCommand::Restart, &mac),
        vec![run("launchctl", &["kickstart", "-k", "gui/501/dev.codexclaw.agent"])]
    );
    mac.active_label = detect_active_macos_label(true, true);
    assert_eq!(
        plan(ServiceCommand::Status, &mac),
        vec![run("launchctl", &["print", "gui/501/dev.codexclaw.agent"])]
    );
}

#[test]
fn files_are_printed() {
    let unit = render_linux_unit("/e", "/c", &None);
    assert!(unit.contains("\nEnvironment=RUST_LOG=hooyodex=info\n"));
    assert!(unit.ends_with("WorkingDirectory=.\n\n[Install]\nWantedBy=default.target\n"));
    let steps = handle_in(
        ServiceCommand::Print,
        &paths(),
        &system("linux"),
        &ServiceDirs {
            config: None,
            home: None,
        },
    )
    .expect("plan");
    assert!(matches!(&steps[..], [ServiceStep::Print(text)] if text.starts_with("[Unit]\n")));
    let plist = render_macos_plist("/a&b", "/c<d>", &None, &Some("/h".to_string()));
    assert!(plist.contains("<string>/a&amp;b</string>"));
    assert!(plist.contains("<string>/c&lt;d&gt;</string>"));
    assert!(plist.contains("<string>dev.codexclaw.agent</string>"));
    assert!(plist.contains("<key>RUST_LOG</key>\n    <string>hooyodex=info</string>"));
    assert!(plist.contains("<string>/h/Library/Logs/hooyodex.err.log</string>"));
}

#[test]
fn failures_say_what_is_missing() {
    let none = ServiceDirs {
        config: None,
        home: None,
    };
    for (command, os, message) in [
        (
            ServiceCommand::Install,
            "linux",
            "failed to determine ~/.config for systemd user unit",
        ),
        (
            ServiceCommand::Uninstall,
            "macos",
            "failed to determine ~/Library/LaunchAgents",
        ),
        (
            ServiceCommand::Install,
            "windows",
            "unsupported OS for service install: windows",
        ),
        (
            ServiceCommand::Uninstall,
            "windows",
            "unsupported OS for service uninstall: windows",
        ),
        (
            ServiceCommand::Start,
            "windows",
            "unsupported OS for service commands: windows",
        ),
        (
            ServiceCommand::Print,
            "windows",
            "unsupported OS for service print: windows",
        ),
    ] {
        assert_eq!(
            handle_in(command, &paths(), &system(os), &none),
            Err(message.to_string())
        );
    }
    let mut unknown = system("linux");
    unknown.exe = None;
    assert_eq!(
        handle_in(ServiceCommand::Install, &paths(), &unknown, &user_dirs()),
        Err("failed to determine current executable path".to_string())
    );
}

#[test]
fn commands_use_the_directories_of_the_system() {
    let text = |path: Option<std::path::PathBuf>| {
        path.map(|path| path.to_string_lossy().into_owned())
    };
    let dirs = ServiceDirs {
        config: text(dirs::config_dir()),
        home: text(dirs::home_dir()),
    };
    for os in ["linux", "macos"] {
        assert_eq!(
            handle(ServiceCommand::Uninstall, &paths(), &system(os)),
            handle_in(ServiceCommand::Uninstall, &paths(), &system(os), &dirs)
        );
    }
}
