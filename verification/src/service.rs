//! The background service: its files, and the commands that control it.
use vstd::prelude::*;
use vstd::string::*;

use crate::config::AppPaths;
use crate::markdown::inline::{escape_html, escaped};
use crate::paths::{join_path, path_join};
use crate::text::{chars_of, opt_view, same_text, string_of, texts_view};
use crate::user_dirs::{user_config_dir, user_home_dir};

verus! {

/// A command about the service.
#[derive(Debug, Clone, Copy, PartialEq, Eq, Structural)]
pub enum ServiceCommand {
    Install,
    Uninstall,
    Start,
    Stop,
    Restart,
    Reload,
    Status,
    Print,
}

/// What is known of the system on which a command runs.
#[derive(Debug, Clone)]
pub struct ServiceSystem {
    /// The name of the operating system.
    pub os: String,
    /// The path of the program, where it is known.
    pub exe: Option<String>,
    /// What the environment names as the user's home.
    pub env_home: Option<String>,
    /// The number of the user.
    pub uid: String,
    /// The label under which the service is loaded, where it is.
    pub active_label: Option<String>,
}

/// The directories of the user that the service's files depend on.
#[derive(Debug, Clone)]
pub struct ServiceDirs {
    pub config: Option<String>,
    pub home: Option<String>,
}

/// Something to be done for a command.
#[derive(Debug, Clone, PartialEq, Eq)]
pub enum ServiceStep {
    CreateDirectory(String),
    WriteFile { path: String, content: String },
    RemoveIfPresent(String),
    /// Runs a program, which must succeed.
    Run { program: String, args: Vec<String> },
    /// Runs a program, whatever comes of it.
    TryRun { program: String, args: Vec<String> },
    Print(String),
}

/// `ServiceStep` as a mathematical value.
#[verifier::ext_equal]
pub enum ServiceStepView {
    CreateDirectory(Seq<char>),
    WriteFile { path: Seq<char>, content: Seq<char> },
    RemoveIfPresent(Seq<char>),
    Run { program: Seq<char>, args: Seq<Seq<char>> },
    TryRun { program: Seq<char>, args: Seq<Seq<char>> },
    Print(Seq<char>),
}

impl View for ServiceStep {
    type V = ServiceStepView;

    open spec fn view(&self) -> ServiceStepView {
        match *self {
            ServiceStep::CreateDirectory(path) => ServiceStepView::CreateDirectory(path@),
            ServiceStep::WriteFile { path, content } => ServiceStepView::WriteFile {
                path: path@,
                content: content@,
            },
            ServiceStep::RemoveIfPresent(path) => ServiceStepView::RemoveIfPresent(path@),
            ServiceStep::Run { program, args } => ServiceStepView::Run {
                program: program@,
                args: texts_view(args@),
            },
            ServiceStep::TryRun { program, args } => ServiceStepView::TryRun {
                program: program@,
                args: texts_view(args@),
            },
            ServiceStep::Print(text) => ServiceStepView::Print(text@),
        }
    }
}

/// The view of a list of steps.
pub open spec fn steps_view(steps: Seq<ServiceStep>) -> Seq<ServiceStepView> {
    Seq::new(steps.len(), |i: int| steps[i]@)
}

// ---------------------------------------------------------------------------
// Names and places
// ---------------------------------------------------------------------------
/// The name of the systemd unit.
pub open spec fn unit_name() -> Seq<char> {
    "codexclaw.service"@
}

/// The label of the launchd agent.
pub open spec fn agent_label() -> Seq<char> {
    "dev.codexclaw.agent"@
}

/// The name of the systemd unit.
pub fn linux_service_name() -> (name: &'static str)
    ensures
        name@ == unit_name(),
{
    "codexclaw.service"
}

/// The label of the launchd agent.
pub fn mac_label() -> (label: &'static str)
    ensures
        label@ == agent_label(),
{
    "dev.codexclaw.agent"
}

/// Another label under which the launchd agent may be loaded.
pub fn mac_alt_label() -> (label: &'static str)
    ensures
        label@ == "dev.hooyodex.agent"@,
{
    "dev.hooyodex.agent"
}

/// The label under which the agent is loaded: the main one before the other.
pub fn detect_active_macos_label(main_loaded: bool, alt_loaded: bool) -> (label: Option<String>)
    ensures
        opt_view(label) == if main_loaded {
            Some(agent_label())
        } else if alt_loaded {
            Some("dev.hooyodex.agent"@)
        } else {
            None
        },
{
    if main_loaded {
        Some(mac_label().to_string())
    } else if alt_loaded {
        Some(mac_alt_label().to_string())
    } else {
        None
    }
}

/// The domain of the user's agents.
pub open spec fn agent_domain(uid: Seq<char>) -> Seq<char> {
    "gui/"@ + uid
}

/// The domain of the user's agents.
pub fn launchctl_domain(uid: &str) -> (domain: String)
    ensures
        domain@ == agent_domain(uid@),
{
    let mut domain = "gui/".to_string();
    domain.append(uid);
    domain
}

/// The agent with the label `label` in the domain of the user.
pub open spec fn agent_target(uid: Seq<char>, label: Seq<char>) -> Seq<char> {
    agent_domain(uid) + "/"@ + label
}

/// The agent with the label `label` in the domain of the user.
pub fn launchctl_target(uid: &str, label: &str) -> (target: String)
    ensures
        target@ == agent_target(uid@, label@),
{
    let mut target = launchctl_domain(uid);
    target.append("/");
    target.append(label);
    target
}

/// The directory of the user's systemd units.
pub open spec fn unit_dir(config: Seq<char>) -> Seq<char> {
    path_join(path_join(config, "systemd"@), "user"@)
}

/// The file of the systemd unit.
pub open spec fn unit_place(config: Seq<char>) -> Seq<char> {
    path_join(unit_dir(config), unit_name())
}

/// The directory of the user's launchd agents.
pub open spec fn agents_dir(home: Seq<char>) -> Seq<char> {
    path_join(path_join(home, "Library"@), "LaunchAgents"@)
}

/// The file of the launchd agent.
pub open spec fn plist_place(home: Seq<char>) -> Seq<char> {
    path_join(agents_dir(home), agent_label() + ".plist"@)
}

/// The directory of the agent's logs.
pub open spec fn log_dir(home: Option<Seq<char>>) -> Seq<char> {
    path_join(
        path_join(
            match home {
                Some(dir) => dir,
                None => "."@,
            },
            "Library"@,
        ),
        "Logs"@,
    )
}

/// The directory and the file of the systemd unit.
pub fn linux_unit_path(config: &str) -> (places: (String, String))
    ensures
        places.0@ == unit_dir(config@),
        places.1@ == unit_place(config@),
{
    let systemd = join_path(config, "systemd");
    let dir = join_path(systemd.as_str(), "user");
    let file = join_path(dir.as_str(), linux_service_name());
    (dir, file)
}

/// The directory and the file of the launchd agent.
pub fn mac_plist_path(home: &str) -> (places: (String, String))
    ensures
        places.0@ == agents_dir(home@),
        places.1@ == plist_place(home@),
{
    let library = join_path(home, "Library");
    let dir = join_path(library.as_str(), "LaunchAgents");
    let mut name = mac_label().to_string();
    name.append(".plist");
    let file = join_path(dir.as_str(), name.as_str());
    (dir, file)
}

/// The directory of the agent's logs.
pub fn default_log_dir(home: &Option<String>) -> (dir: String)
    ensures
        dir@ == log_dir(opt_view(*home)),
{
    let library = match home {
        Some(dir) => join_path(dir.as_str(), "Library"),
        None => join_path(".", "Library"),
    };
    join_path(library.as_str(), "Logs")
}

// ---------------------------------------------------------------------------
// Files
// ---------------------------------------------------------------------------
/// Where the service looks for programs.
pub open spec fn service_path() -> Seq<char> {
    "/opt/homebrew/bin:/usr/local/bin:/usr/bin:/bin:/usr/sbin:/sbin"@
}

/// Where the service looks for programs.
pub fn service_path_env() -> (path: &'static str)
    ensures
        path@ == service_path(),
{
    "/opt/homebrew/bin:/usr/local/bin:/usr/bin:/bin:/usr/sbin:/sbin"
}

/// The directory in which the service runs.
pub open spec fn work_dir(env_home: Option<Seq<char>>) -> Seq<char> {
    match env_home {
        Some(dir) => dir,
        None => "."@,
    }
}

/// The systemd unit.
pub open spec fn unit_text(exe: Seq<char>, config: Seq<char>, env_home: Option<Seq<char>>) -> Seq<
    char,
> {
    "[Unit]\nDescription=Hooyodex Telegram Gateway\nAfter=network-online.target\nWants=network-online.target\n\n[Service]\nType=simple\nExecStart="@
        + exe + " --config "@ + config
        + " run\nExecReload=/bin/kill -HUP $MAINPID\nRestart=on-failure\nRestartSec=3\nTimeoutStopSec=20\nEnvironment=RUST_LOG=hooyodex=info\nEnvironment=PATH="@
        + service_path() + "\nWorkingDirectory="@ + work_dir(env_home)
        + "\n\n[Install]\nWantedBy=default.target\n"@
}

/// The directory in which the service runs.
fn work_dir_text(env_home: &Option<String>) -> (dir: String)
    ensures
        dir@ == work_dir(opt_view(*env_home)),
{
    match env_home {
        Some(dir) => dir.clone(),
        None => ".".to_string(),
    }
}

/// The systemd unit.
pub fn render_linux_unit(exe: &str, config: &str, env_home: &Option<String>) -> (text: String)
    ensures
        text@ == unit_text(exe@, config@, opt_view(*env_home)),
{
    let mut text = "[Unit]\nDescription=Hooyodex Telegram Gateway\nAfter=network-online.target\nWants=network-online.target\n\n[Service]\nType=simple\nExecStart=".to_string();
    text.append(exe);
    text.append(" --config ");
    text.append(config);
    text.append(
        " run\nExecReload=/bin/kill -HUP $MAINPID\nRestart=on-failure\nRestartSec=3\nTimeoutStopSec=20\nEnvironment=RUST_LOG=hooyodex=info\nEnvironment=PATH=",
    );
    text.append(service_path_env());
    text.append("\nWorkingDirectory=");
    let dir = work_dir_text(env_home);
    text.append(dir.as_str());
    text.append("\n\n[Install]\nWantedBy=default.target\n");
    text
}

/// The launchd agent.
pub open spec fn plist_text(
    exe: Seq<char>,
    config: Seq<char>,
    env_home: Option<Seq<char>>,
    home: Option<Seq<char>>,
) -> Seq<char> {
    "<?xml version=\"1.0\" encoding=\"UTF-8\"?>\n<!DOCTYPE plist PUBLIC \"-//Apple//DTD PLIST 1.0//EN\" \"http://www.apple.com/DTDs/PropertyList-1.0.dtd\">\n<plist version=\"1.0\">\n<dict>\n  <key>Label</key>\n  <string>"@
        + agent_label()
        + "</string>\n  <key>ProgramArguments</key>\n  <array>\n    <string>"@ + escaped(exe)
        + "</string>\n    <string>--config</string>\n    <string>"@ + escaped(config)
        + "</string>\n    <string>run</string>\n  </array>\n  <key>RunAtLoad</key>\n  <true/>\n  <key>KeepAlive</key>\n  <true/>\n  <key>WorkingDirectory</key>\n  <string>"@
        + escaped(work_dir(env_home))
        + "</string>\n  <key>EnvironmentVariables</key>\n  <dict>\n    <key>RUST_LOG</key>\n    <string>hooyodex=info</string>\n    <key>PATH</key>\n    <string>"@
        + service_path()
        + "</string>\n  </dict>\n  <key>StandardOutPath</key>\n  <string>"@ + escaped(
        path_join(log_dir(home), "hooyodex.out.log"@),
    ) + "</string>\n  <key>StandardErrorPath</key>\n  <string>"@ + escaped(
        path_join(log_dir(home), "hooyodex.err.log"@),
    ) + "</string>\n</dict>\n</plist>\n"@
}

/// `text` as XML text.
fn xml_escape(text: &str) -> (out: String)
    ensures
        out@ == escaped(text@),
{
    let chars = chars_of(text);
    let out = escape_html(chars.as_slice());
    string_of(out.as_slice())
}

/// The launchd agent.
pub fn render_macos_plist(
    exe: &str,
    config: &str,
    env_home: &Option<String>,
    home: &Option<String>,
) -> (text: String)
    ensures
        text@ == plist_text(exe@, config@, opt_view(*env_home), opt_view(*home)),
{
    let dir = work_dir_text(env_home);
    let logs = default_log_dir(home);
    let out_log = join_path(logs.as_str(), "hooyodex.out.log");
    let err_log = join_path(logs.as_str(), "hooyodex.err.log");
    let exe_text = xml_escape(exe);
    let config_text = xml_escape(config);
    let dir_text = xml_escape(dir.as_str());
    let out_text = xml_escape(out_log.as_str());
    let err_text = xml_escape(err_log.as_str());
    let mut text = "<?xml version=\"1.0\" encoding=\"UTF-8\"?>\n<!DOCTYPE plist PUBLIC \"-//Apple//DTD PLIST 1.0//EN\" \"http://www.apple.com/DTDs/PropertyList-1.0.dtd\">\n<plist version=\"1.0\">\n<dict>\n  <key>Label</key>\n  <string>".to_string();
    text.append(mac_label());
    text.append("</string>\n  <key>ProgramArguments</key>\n  <array>\n    <string>");
    text.append(exe_text.as_str());
    text.append("</string>\n    <string>--config</string>\n    <string>");
    text.append(config_text.as_str());
    text.append(
        "</string>\n    <string>run</string>\n  </array>\n  <key>RunAtLoad</key>\n  <true/>\n  <key>KeepAlive</key>\n  <true/>\n  <key>WorkingDirectory</key>\n  <string>",
    );
    text.append(dir_text.as_str());
    text.append(
        "</string>\n  <key>EnvironmentVariables</key>\n  <dict>\n    <key>RUST_LOG</key>\n    <string>hooyodex=info</string>\n    <key>PATH</key>\n    <string>",
    );
    text.append(service_path_env());
    text.append("</string>\n  </dict>\n  <key>StandardOutPath</key>\n  <string>");
    text.append(out_text.as_str());
    text.append("</string>\n  <key>StandardErrorPath</key>\n  <string>");
    text.append(err_text.as_str());
    text.append("</string>\n</dict>\n</plist>\n");
    text
}

// ---------------------------------------------------------------------------
// Plans
// ---------------------------------------------------------------------------
/// Whether the operating system is Linux.
pub open spec fn on_linux(system: ServiceSystem) -> bool {
    system.os@ == "linux"@
}

/// Whether the operating system is macOS.
pub open spec fn on_macos(system: ServiceSystem) -> bool {
    system.os@ == "macos"@
}

/// A call of `systemctl` for the user.
pub open spec fn systemctl(args: Seq<Seq<char>>) -> (Seq<char>, Seq<Seq<char>>) {
    ("systemctl"@, seq!["--user"@] + args)
}

/// A program that must succeed.
pub open spec fn must(call: (Seq<char>, Seq<Seq<char>>)) -> ServiceStepView {
    ServiceStepView::Run { program: call.0, args: call.1 }
}

/// A program that may fail.
pub open spec fn may(call: (Seq<char>, Seq<Seq<char>>)) -> ServiceStepView {
    ServiceStepView::TryRun { program: call.0, args: call.1 }
}

/// What installs the service.
pub open spec fn install_plan(
    config_path: Seq<char>,
    system: ServiceSystem,
    dirs: ServiceDirs,
) -> Result<Seq<ServiceStepView>, Seq<char>> {
    if system.exe is None {
        Err("failed to determine current executable path"@)
    } else {
        let exe = system.exe->0@;
        if on_linux(system) {
            match dirs.config {
                None => Err("failed to determine ~/.config for systemd user unit"@),
                Some(config) => Ok(
                    seq![
                        ServiceStepView::CreateDirectory(unit_dir(config@)),
                        ServiceStepView::WriteFile {
                            path: unit_place(config@),
                            content: unit_text(exe, config_path, opt_view(system.env_home)),
                        },
                        must(systemctl(seq!["daemon-reload"@])),
                        must(systemctl(seq!["enable"@, "--now"@, unit_name()])),
                        ServiceStepView::Print(unit_place(config@)),
                    ],
                ),
            }
        } else if on_macos(system) {
            match dirs.home {
                None => Err("failed to determine ~/Library/LaunchAgents"@),
                Some(home) => {
                    let plist = plist_place(home@);
                    let domain = agent_domain(system.uid@);
                    let target = agent_target(system.uid@, agent_label());
                    Ok(
                        seq![
                            ServiceStepView::CreateDirectory(agents_dir(home@)),
                            ServiceStepView::WriteFile {
                                path: plist,
                                content: plist_text(
                                    exe,
                                    config_path,
                                    opt_view(system.env_home),
                                    opt_view(dirs.home),
                                ),
                            },
                            may(("launchctl"@, seq!["bootout"@, domain, plist])),
                            must(("launchctl"@, seq!["bootstrap"@, domain, plist])),
                            must(("launchctl"@, seq!["enable"@, target])),
                            must(("launchctl"@, seq!["kickstart"@, "-k"@, target])),
                            ServiceStepView::Print(plist),
                        ],
                    )
                },
            }
        } else {
            Err("unsupported OS for service install: "@ + system.os@)
        }
    }
}

/// What removes the service.
pub open spec fn uninstall_plan(system: ServiceSystem, dirs: ServiceDirs) -> Result<
    Seq<ServiceStepView>,
    Seq<char>,
> {
    if on_linux(system) {
        match dirs.config {
            None => Err("failed to determine ~/.config for systemd user unit"@),
            Some(config) => Ok(
                seq![
                    may(systemctl(seq!["disable"@, "--now"@, unit_name()])),
                    ServiceStepView::RemoveIfPresent(unit_place(config@)),
                    may(systemctl(seq!["daemon-reload"@])),
                ],
            ),
        }
    } else if on_macos(system) {
        match dirs.home {
            None => Err("failed to determine ~/Library/LaunchAgents"@),
            Some(home) => Ok(
                seq![
                    may(
                        (
                            "launchctl"@,
                            seq!["bootout"@, agent_domain(system.uid@), plist_place(home@)],
                        ),
                    ),
                    ServiceStepView::RemoveIfPresent(plist_place(home@)),
                ],
            ),
        }
    } else {
        Err("unsupported OS for service uninstall: "@ + system.os@)
    }
}

/// A command to the service manager.
#[derive(Debug, Clone, Copy, PartialEq, Eq, Structural)]
pub enum PlatformAction {
    Start,
    Stop,
    Restart,
    Reload,
    Status,
}

/// What `systemctl` is told.
pub open spec fn systemctl_args(action: PlatformAction) -> Seq<Seq<char>> {
    match action {
        PlatformAction::Start => seq!["start"@, unit_name()],
        PlatformAction::Stop => seq!["stop"@, unit_name()],
        PlatformAction::Restart => seq!["restart"@, unit_name()],
        PlatformAction::Reload => seq!["reload"@, unit_name()],
        PlatformAction::Status => seq!["status"@, "--no-pager"@, unit_name()],
    }
}

/// The label that an action is about: a start is about the main one, the other
/// actions about the one that is loaded.
pub open spec fn action_label(action: PlatformAction, system: ServiceSystem) -> Seq<char> {
    match (action, system.active_label) {
        (PlatformAction::Start, _) => agent_label(),
        (_, Some(label)) => label@,
        (_, None) => agent_label(),
    }
}

/// What `launchctl` is told.
pub open spec fn launchctl_args(action: PlatformAction, target: Seq<char>) -> Seq<Seq<char>> {
    match action {
        PlatformAction::Start => seq!["kickstart"@, "-k"@, target],
        PlatformAction::Stop => seq!["bootout"@, target],
        PlatformAction::Restart => seq!["kickstart"@, "-k"@, target],
        PlatformAction::Reload => seq!["kill"@, "HUP"@, target],
        PlatformAction::Status => seq!["print"@, target],
    }
}

/// What carries out an action.
pub open spec fn action_plan(action: PlatformAction, system: ServiceSystem) -> Result<
    Seq<ServiceStepView>,
    Seq<char>,
> {
    if on_linux(system) {
        Ok(seq![must(systemctl(systemctl_args(action)))])
    } else if on_macos(system) {
        let target = agent_target(system.uid@, action_label(action, system));
        Ok(seq![must(("launchctl"@, launchctl_args(action, target)))])
    } else {
        Err("unsupported OS for service commands: "@ + system.os@)
    }
}

/// What shows the service's file.
pub open spec fn print_plan(config_path: Seq<char>, system: ServiceSystem, dirs: ServiceDirs) -> Result<
    Seq<ServiceStepView>,
    Seq<char>,
> {
    if system.exe is None {
        Err("failed to determine current executable path"@)
    } else if on_linux(system) {
        Ok(
            seq![
                ServiceStepView::Print(
                    unit_text(system.exe->0@, config_path, opt_view(system.env_home)),
                ),
            ],
        )
    } else if on_macos(system) {
        Ok(
            seq![
                ServiceStepView::Print(
                    plist_text(
                        system.exe->0@,
                        config_path,
                        opt_view(system.env_home),
                        opt_view(dirs.home),
                    ),
                ),
            ],
        )
    } else {
        Err("unsupported OS for service print: "@ + system.os@)
    }
}

/// What carries out a command.
pub open spec fn service_plan(
    command: ServiceCommand,
    config_path: Seq<char>,
    system: ServiceSystem,
    dirs: ServiceDirs,
) -> Result<Seq<ServiceStepView>, Seq<char>> {
    match command {
        ServiceCommand::Install => install_plan(config_path, system, dirs),
        ServiceCommand::Uninstall => uninstall_plan(system, dirs),
        ServiceCommand::Start => action_plan(PlatformAction::Start, system),
        ServiceCommand::Stop => action_plan(PlatformAction::Stop, system),
        ServiceCommand::Restart => action_plan(PlatformAction::Restart, system),
        ServiceCommand::Reload => action_plan(PlatformAction::Reload, system),
        ServiceCommand::Status => action_plan(PlatformAction::Status, system),
        ServiceCommand::Print => print_plan(config_path, system, dirs),
    }
}

/// Whether an outcome is the one that is planned.
pub open spec fn meets_plan(
    outcome: Result<Vec<ServiceStep>, String>,
    plan: Result<Seq<ServiceStepView>, Seq<char>>,
) -> bool {
    match (outcome, plan) {
        (Ok(steps), Ok(planned)) => steps_view(steps@) == planned,
        (Err(message), Err(planned)) => message@ == planned,
        _ => false,
    }
}

/// The texts `a`, `b` and `c`, as far as they are given.
fn text_list(a: &str, b: Option<&str>, c: Option<&str>) -> (list: Vec<String>)
    ensures
        texts_view(list@) == match (b, c) {
            (Some(second), Some(third)) => seq![a@, second@, third@],
            (Some(second), None) => seq![a@, second@],
            (None, Some(third)) => seq![a@, third@],
            (None, None) => seq![a@],
        },
{
    let ghost all = match (b, c) {
        (Some(second), Some(third)) => seq![a@, second@, third@],
        (Some(second), None) => seq![a@, second@],
        (None, Some(third)) => seq![a@, third@],
        (None, None) => seq![a@],
    };
    let mut list: Vec<String> = Vec::new();
    list.push(a.to_string());
    if let Some(second) = b {
        list.push(second.to_string());
    }
    if let Some(third) = c {
        list.push(third.to_string());
    }
    assert(texts_view(list@) =~= all);
    list
}

/// The arguments of `systemctl` for the user.
fn user_args(a: &str, b: Option<&str>, c: Option<&str>) -> (list: Vec<String>)
    ensures
        texts_view(list@) == seq!["--user"@] + match (b, c) {
            (Some(second), Some(third)) => seq![a@, second@, third@],
            (Some(second), None) => seq![a@, second@],
            (None, Some(third)) => seq![a@, third@],
            (None, None) => seq![a@],
        },
{
    let mut list = text_list(a, b, c);
    let ghost rest = texts_view(list@);
    list.insert(0, "--user".to_string());
    assert(texts_view(list@) =~= seq!["--user"@] + rest);
    list
}

fn run_step(program: &str, args: Vec<String>) -> (step: ServiceStep)
    ensures
        step@ == must((program@, texts_view(args@))),
{
    ServiceStep::Run { program: program.to_string(), args }
}

fn try_step(program: &str, args: Vec<String>) -> (step: ServiceStep)
    ensures
        step@ == may((program@, texts_view(args@))),
{
    ServiceStep::TryRun { program: program.to_string(), args }
}

/// What installs the service.
pub fn install(config_path: &str, system: &ServiceSystem, dirs: &ServiceDirs) -> (outcome: Result<
    Vec<ServiceStep>,
    String,
>)
    ensures
        meets_plan(outcome, install_plan(config_path@, *system, *dirs)),
{
    let exe = match &system.exe {
        Some(exe) => exe,
        None => return Err("failed to determine current executable path".to_string()),
    };
    let mut steps: Vec<ServiceStep> = Vec::new();
    if same_text(system.os.as_str(), "linux") {
        let config = match &dirs.config {
            Some(config) => config,
            None => {
                return Err("failed to determine ~/.config for systemd user unit".to_string());
            },
        };
        let (dir, path) = linux_unit_path(config.as_str());
        let content = render_linux_unit(exe.as_str(), config_path, &system.env_home);
        steps.push(ServiceStep::CreateDirectory(dir));
        steps.push(ServiceStep::WriteFile { path: path.clone(), content });
        steps.push(run_step("systemctl", user_args("daemon-reload", None, None)));
        steps.push(
            run_step("systemctl", user_args("enable", Some("--now"), Some(linux_service_name()))),
        );
        steps.push(ServiceStep::Print(path));
        assert(steps_view(steps@) =~= install_plan(config_path@, *system, *dirs)->Ok_0);
        Ok(steps)
    } else if same_text(system.os.as_str(), "macos") {
        let home = match &dirs.home {
            Some(home) => home,
            None => return Err("failed to determine ~/Library/LaunchAgents".to_string()),
        };
        let (dir, path) = mac_plist_path(home.as_str());
        let content = render_macos_plist(
            exe.as_str(),
            config_path,
            &system.env_home,
            &dirs.home,
        );
        let domain = launchctl_domain(system.uid.as_str());
        let target = launchctl_target(system.uid.as_str(), mac_label());
        steps.push(ServiceStep::CreateDirectory(dir));
        steps.push(ServiceStep::WriteFile { path: path.clone(), content });
        steps.push(
            try_step(
                "launchctl",
                text_list("bootout", Some(domain.as_str()), Some(path.as_str())),
            ),
        );
        steps.push(
            run_step(
                "launchctl",
                text_list("bootstrap", Some(domain.as_str()), Some(path.as_str())),
            ),
        );
        steps.push(run_step("launchctl", text_list("enable", Some(target.as_str()), None)));
        steps.push(
            run_step("launchctl", text_list("kickstart", Some("-k"), Some(target.as_str()))),
        );
        steps.push(ServiceStep::Print(path));
        assert(steps_view(steps@) =~= install_plan(config_path@, *system, *dirs)->Ok_0);
        Ok(steps)
    } else {
        let mut message = "unsupported OS for service install: ".to_string();
        message.append(system.os.as_str());
        Err(message)
    }
}

/// What removes the service.
pub fn uninstall(system: &ServiceSystem, dirs: &ServiceDirs) -> (outcome: Result<
    Vec<ServiceStep>,
    String,
>)
    ensures
        meets_plan(outcome, uninstall_plan(*system, *dirs)),
{
    let mut steps: Vec<ServiceStep> = Vec::new();
    if same_text(system.os.as_str(), "linux") {
        let config = match &dirs.config {
            Some(config) => config,
            None => {
                return Err("failed to determine ~/.config for systemd user unit".to_string());
            },
        };
        let (_, path) = linux_unit_path(config.as_str());
        steps.push(
            try_step("systemctl", user_args("disable", Some("--now"), Some(linux_service_name()))),
        );
        steps.push(ServiceStep::RemoveIfPresent(path));
        steps.push(try_step("systemctl", user_args("daemon-reload", None, None)));
        assert(steps_view(steps@) =~= uninstall_plan(*system, *dirs)->Ok_0);
        Ok(steps)
    } else if same_text(system.os.as_str(), "macos") {
        let home = match &dirs.home {
            Some(home) => home,
            None => return Err("failed to determine ~/Library/LaunchAgents".to_string()),
        };
        let (_, path) = mac_plist_path(home.as_str());
        let domain = launchctl_domain(system.uid.as_str());
        steps.push(
            try_step(
                "launchctl",
                text_list("bootout", Some(domain.as_str()), Some(path.as_str())),
            ),
        );
        steps.push(ServiceStep::RemoveIfPresent(path));
        assert(steps_view(steps@) =~= uninstall_plan(*system, *dirs)->Ok_0);
        Ok(steps)
    } else {
        let mut message = "unsupported OS for service uninstall: ".to_string();
        message.append(system.os.as_str());
        Err(message)
    }
}

/// What carries out an action.
pub fn run_platform_action(system: &ServiceSystem, action: PlatformAction) -> (outcome: Result<
    Vec<ServiceStep>,
    String,
>)
    ensures
        meets_plan(outcome, action_plan(action, *system)),
{
    let mut steps: Vec<ServiceStep> = Vec::new();
    if same_text(system.os.as_str(), "linux") {
        let unit = linux_service_name();
        let args = match action {
            PlatformAction::Start => user_args("start", Some(unit), None),
            PlatformAction::Stop => user_args("stop", Some(unit), None),
            PlatformAction::Restart => user_args("restart", Some(unit), None),
            PlatformAction::Reload => user_args("reload", Some(unit), None),
            PlatformAction::Status => user_args("status", Some("--no-pager"), Some(unit)),
        };
        steps.push(run_step("systemctl", args));
        assert(steps_view(steps@) =~= action_plan(action, *system)->Ok_0);
        Ok(steps)
    } else if same_text(system.os.as_str(), "macos") {
        let label = match action {
            PlatformAction::Start => mac_label().to_string(),
            _ => match &system.active_label {
                Some(label) => label.clone(),
                None => mac_label().to_string(),
            },
        };
        let target = launchctl_target(system.uid.as_str(), label.as_str());
        let args = match action {
            PlatformAction::Start => text_list("kickstart", Some("-k"), Some(target.as_str())),
            PlatformAction::Stop => text_list("bootout", Some(target.as_str()), None),
            PlatformAction::Restart => text_list("kickstart", Some("-k"), Some(target.as_str())),
            PlatformAction::Reload => text_list("kill", Some("HUP"), Some(target.as_str())),
            PlatformAction::Status => text_list("print", Some(target.as_str()), None),
        };
        steps.push(run_step("launchctl", args));
        assert(steps_view(steps@) =~= action_plan(action, *system)->Ok_0);
        Ok(steps)
    } else {
        let mut message = "unsupported OS for service commands: ".to_string();
        message.append(system.os.as_str());
        Err(message)
    }
}

/// What shows the service's file.
pub fn print_units(config_path: &str, system: &ServiceSystem, dirs: &ServiceDirs) -> (outcome:
    Result<Vec<ServiceStep>, String>)
    ensures
        meets_plan(outcome, print_plan(config_path@, *system, *dirs)),
{
    let exe = match &system.exe {
        Some(exe) => exe,
        None => return Err("failed to determine current executable path".to_string()),
    };
    let mut steps: Vec<ServiceStep> = Vec::new();
    if same_text(system.os.as_str(), "linux") {
        steps.push(
            ServiceStep::Print(render_linux_unit(exe.as_str(), config_path, &system.env_home)),
        );
        assert(steps_view(steps@) =~= print_plan(config_path@, *system, *dirs)->Ok_0);
        Ok(steps)
    } else if same_text(system.os.as_str(), "macos") {
        steps.push(
            ServiceStep::Print(
                render_macos_plist(exe.as_str(), config_path, &system.env_home, &dirs.home),
            ),
        );
        assert(steps_view(steps@) =~= print_plan(config_path@, *system, *dirs)->Ok_0);
        Ok(steps)
    } else {
        let mut message = "unsupported OS for service print: ".to_string();
        message.append(system.os.as_str());
        Err(message)
    }
}

/// What carries out a command, given the directories of the user.
pub fn handle_in(
    command: ServiceCommand,
    paths: &AppPaths,
    system: &ServiceSystem,
    dirs: &ServiceDirs,
) -> (outcome: Result<Vec<ServiceStep>, String>)
    ensures
        meets_plan(outcome, service_plan(command, paths.config_path@, *system, *dirs)),
{
    match command {
        ServiceCommand::Install => install(paths.config_path.as_str(), system, dirs),
        ServiceCommand::Uninstall => uninstall(system, dirs),
        ServiceCommand::Start => run_platform_action(system, PlatformAction::Start),
        ServiceCommand::Stop => run_platform_action(system, PlatformAction::Stop),
        ServiceCommand::Restart => run_platform_action(system, PlatformAction::Restart),
        ServiceCommand::Reload => run_platform_action(system, PlatformAction::Reload),
        ServiceCommand::Status => run_platform_action(system, PlatformAction::Status),
        ServiceCommand::Print => print_units(paths.config_path.as_str(), system, dirs),
    }
}

/// What carries out a command, in the directories that the system names.
pub fn handle(command: ServiceCommand, paths: &AppPaths, system: &ServiceSystem) -> (outcome:
    Result<Vec<ServiceStep>, String>)
    ensures
        exists|dirs: ServiceDirs|
            meets_plan(
                outcome,
                #[trigger] service_plan(command, paths.config_path@, *system, dirs),
            ),
{
    let dirs = ServiceDirs { config: user_config_dir(), home: user_home_dir() };
    handle_in(command, paths, system, &dirs)
}

} // verus!
