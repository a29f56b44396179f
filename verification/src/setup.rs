//! What holds of the configuration, the service and the transcriber.
use vstd::prelude::*;

use crate::basics::{law_ink, law_path_join, law_stands_at};
use crate::config::{
    config_error_text, config_fault, default_config_place, places, AppConfig, AppPathsView,
    ConfigError, UserDirs,
};
use crate::markdown::inline::escaped;
use crate::paths::path_join;
use crate::patterns::{contains_text, stands_at};
use crate::service::{
    agent_label, log_dir, plist_text, service_path, service_plan, unit_text, ServiceCommand, ServiceDirs,
    ServiceStepView, ServiceSystem, work_dir,
};
use crate::text::{has_ink, is_white_space, opt_view};
use crate::transcription::{job_place, own_transcriber, transcriber_args_of};

verus! {

// ---------------------------------------------------------------------------
// Configuration
// ---------------------------------------------------------------------------
/// The program has a directory of its own among the user's state and cache
/// directories; a configuration file that is named is used, and local data
/// stands in for state.
pub proof fn law_places(explicit: Option<Seq<char>>, dirs: UserDirs)
    ensures
        dirs.state is None && dirs.data_local is None ==> places(explicit, dirs) == Err::<
            AppPathsView,
            ConfigError,
        >(ConfigError::NoStateDirectory),
        (dirs.state is Some || dirs.data_local is Some) && dirs.cache is None ==> places(
            explicit,
            dirs,
        ) == Err::<AppPathsView, ConfigError>(ConfigError::NoCacheDirectory),
        (dirs.state is Some || dirs.data_local is Some) && dirs.cache is Some ==> (places(
            explicit,
            dirs,
        ) matches Ok(paths) && {
            &&& dirs.cache matches Some(cache) && paths.cache_dir == path_join(
                cache@,
                "codexclaw"@,
            )
            &&& dirs.state matches Some(state) ==> paths.state_dir == path_join(
                state@,
                "codexclaw"@,
            )
            &&& dirs.state is None ==> (dirs.data_local matches Some(local) ==> paths.state_dir
                == path_join(local@, "codexclaw"@))
            &&& explicit matches Some(path) ==> paths.config_path == path
            &&& explicit is None ==> (dirs.config matches Some(config) ==> paths.config_path
                == path_join(path_join(config@, "codexclaw"@), "config.toml"@))
            &&& explicit is None && dirs.config is None ==> paths.config_path
                == "./codexclaw.toml"@
        }),
        dirs.config matches Some(config) ==> default_config_place(Some(config@)) == path_join(
            path_join(config@, "codexclaw"@),
            "config.toml"@,
        ),
{
}

/// A configuration can be used exactly where there is a token and a secret, the
/// public address is a secure one, and the working directory is absolute.
pub proof fn law_usable_configurations(config: AppConfig)
    ensures
        config_fault(config) is None <==> {
            &&& exists|i: int|
                0 <= i < config.telegram.bot_token@.len() && !is_white_space(
                    #[trigger] config.telegram.bot_token@[i],
                )
            &&& exists|i: int|
                0 <= i < config.telegram.webhook_secret@.len() && !is_white_space(
                    #[trigger] config.telegram.webhook_secret@[i],
                )
            &&& config.telegram.public_base_url@.len() >= 8
            &&& config.telegram.public_base_url@.take(8) == seq![
                'h',
                't',
                't',
                'p',
                's',
                ':',
                '/',
                '/',
            ]
            &&& config.codex.working_directory@.len() > 0
            &&& config.codex.working_directory@[0] == '/'
        },
{
    law_ink(config.telegram.bot_token@);
    law_ink(config.telegram.webhook_secret@);
    law_path_join(Seq::empty(), config.codex.working_directory@);
    reveal_strlit("https://");
    assert("https://"@ =~= seq!['h', 't', 't', 'p', 's', ':', '/', '/']);
}

/// The first fault is the one that is told, in words of its own.
pub proof fn law_faults(config: AppConfig)
    ensures
        !has_ink(config.telegram.bot_token@) ==> config_fault(config) == Some(
            ConfigError::EmptyBotToken,
        ),
        has_ink(config.telegram.bot_token@) && !has_ink(config.telegram.webhook_secret@)
            ==> config_fault(config) == Some(ConfigError::EmptyWebhookSecret),
        config_fault(config) == Some(ConfigError::InsecureBaseUrl) ==> !(
        config.telegram.public_base_url@.len() >= 8 && config.telegram.public_base_url@.take(8)
            == "https://"@),
        config_fault(config) == Some(ConfigError::RelativeWorkingDirectory) ==> !(
        config.codex.working_directory@.len() > 0 && config.codex.working_directory@[0] == '/')
            && config.telegram.public_base_url@.take(8) == "https://"@,
        config_error_text(ConfigError::NoStateDirectory) == "failed to determine state directory"@,
        config_error_text(ConfigError::NoCacheDirectory) == "failed to determine cache directory"@,
        config_error_text(ConfigError::EmptyBotToken) == "telegram.bot_token must not be empty"@,
        config_error_text(ConfigError::EmptyWebhookSecret)
            == "telegram.webhook_secret must not be empty"@,
        config_error_text(ConfigError::InsecureBaseUrl)
            == "telegram.public_base_url must start with https://"@,
        config_error_text(ConfigError::RelativeWorkingDirectory)
            == "codex.working_directory must be an absolute path"@,
{
    reveal_strlit("https://");
    law_path_join(Seq::empty(), config.codex.working_directory@);
}

// ---------------------------------------------------------------------------
// The service
// ---------------------------------------------------------------------------
proof fn lemma_holds(head: Seq<char>, part: Seq<char>, tail: Seq<char>)
    ensures
        contains_text(head + part + tail, part),
{
    law_stands_at(head + part + tail, 0, part);
}

/// The systemd unit runs the program with its configuration, in the user's home.
pub proof fn law_unit_runs_the_program(exe: Seq<char>, config: Seq<char>, home: Seq<char>)
    ensures
        contains_text(
            unit_text(exe, config, Some(home)),
            "ExecStart="@ + exe + " --config "@ + config + " run\n"@,
        ),
        contains_text(unit_text(exe, config, Some(home)), "\nWorkingDirectory="@ + home + "\n"@),
        contains_text(unit_text(exe, config, None), "\nWorkingDirectory="@ + "."@ + "\n"@),
        contains_text(
            unit_text(exe, config, None),
            "ExecStart="@ + exe + " --config "@ + config + " run\n"@,
        ),
{
    lemma_unit(exe, config, Some(home), home);
    lemma_unit(exe, config, None, "."@);
}

proof fn lemma_unit(exe: Seq<char>, config: Seq<char>, home: Option<Seq<char>>, dir: Seq<char>)
    requires
        dir == match home {
            Some(given) => given,
            None => "."@,
        },
    ensures
        contains_text(
            unit_text(exe, config, home),
            "ExecStart="@ + exe + " --config "@ + config + " run\n"@,
        ),
        contains_text(unit_text(exe, config, home), "\nWorkingDirectory="@ + dir + "\n"@),
{
    let a = "[Unit]\nDescription=Hooyodex Telegram Gateway\nAfter=network-online.target\nWants=network-online.target\n\n[Service]\nType=simple\nExecStart="@;
    let b = " run\nExecReload=/bin/kill -HUP $MAINPID\nRestart=on-failure\nRestartSec=3\nTimeoutStopSec=20\nEnvironment=RUST_LOG=hooyodex=info\nEnvironment=PATH="@;
    let c = "\n\n[Install]\nWantedBy=default.target\n"@;
    reveal_strlit("[Unit]\nDescription=Hooyodex Telegram Gateway\nAfter=network-online.target\nWants=network-online.target\n\n[Service]\nType=simple\nExecStart=");
    reveal_strlit(" run\nExecReload=/bin/kill -HUP $MAINPID\nRestart=on-failure\nRestartSec=3\nTimeoutStopSec=20\nEnvironment=RUST_LOG=hooyodex=info\nEnvironment=PATH=");
    reveal_strlit("\n\n[Install]\nWantedBy=default.target\n");
    reveal_strlit("ExecStart=");
    reveal_strlit(" run\n");
    reveal_strlit("\n");
    let text = unit_text(exe, config, home);
    let path = service_path();
    let start = a.take(a.len() - 10);
    assert(a =~= start + "ExecStart="@);
    assert(b =~= " run\n"@ + b.skip(5));
    assert(c =~= "\n"@ + c.skip(1));
    let rest = b.skip(5) + path + "\nWorkingDirectory="@ + dir + c;
    assert(text =~= start + ("ExecStart="@ + exe + " --config "@ + config + " run\n"@) + rest);
    lemma_holds(start, "ExecStart="@ + exe + " --config "@ + config + " run\n"@, rest);
    let head = a + exe + " --config "@ + config + b + path;
    assert(text =~= head + ("\nWorkingDirectory="@ + dir + "\n"@) + c.skip(1));
    lemma_holds(head, "\nWorkingDirectory="@ + dir + "\n"@, c.skip(1));
}

/// The systemd unit is restarted when it fails, reloaded by a signal, finds its
/// programs, and is started with the user's session.
pub proof fn law_unit_settings(exe: Seq<char>, config: Seq<char>, home: Option<Seq<char>>)
    ensures
        contains_text(
            unit_text(exe, config, home),
            "\nExecReload=/bin/kill -HUP $MAINPID\nRestart=on-failure\nRestartSec=3\nTimeoutStopSec=20\nEnvironment=RUST_LOG=hooyodex=info\nEnvironment=PATH="@
                + "/opt/homebrew/bin:/usr/local/bin:/usr/bin:/bin:/usr/sbin:/sbin"@,
        ),
        "[Unit]\nDescription=Hooyodex Telegram Gateway\nAfter=network-online.target\nWants=network-online.target\n\n[Service]\nType=simple\nExecStart="@.is_prefix_of(
            unit_text(exe, config, home),
        ),
        ({
            let text = unit_text(exe, config, home);
            text.skip(text.len() - 36) == "\n\n[Install]\nWantedBy=default.target\n"@
        }),
{
    reveal_strlit("[Unit]\nDescription=Hooyodex Telegram Gateway\nAfter=network-online.target\nWants=network-online.target\n\n[Service]\nType=simple\nExecStart=");
    reveal_strlit(" run\nExecReload=/bin/kill -HUP $MAINPID\nRestart=on-failure\nRestartSec=3\nTimeoutStopSec=20\nEnvironment=RUST_LOG=hooyodex=info\nEnvironment=PATH=");
    reveal_strlit("\nExecReload=/bin/kill -HUP $MAINPID\nRestart=on-failure\nRestartSec=3\nTimeoutStopSec=20\nEnvironment=RUST_LOG=hooyodex=info\nEnvironment=PATH=");
    reveal_strlit("\n\n[Install]\nWantedBy=default.target\n");
    let text = unit_text(exe, config, home);
    let a = "[Unit]\nDescription=Hooyodex Telegram Gateway\nAfter=network-online.target\nWants=network-online.target\n\n[Service]\nType=simple\nExecStart="@;
    let b = " run\nExecReload=/bin/kill -HUP $MAINPID\nRestart=on-failure\nRestartSec=3\nTimeoutStopSec=20\nEnvironment=RUST_LOG=hooyodex=info\nEnvironment=PATH="@;
    let kept = "\nExecReload=/bin/kill -HUP $MAINPID\nRestart=on-failure\nRestartSec=3\nTimeoutStopSec=20\nEnvironment=RUST_LOG=hooyodex=info\nEnvironment=PATH="@;
    let path = "/opt/homebrew/bin:/usr/local/bin:/usr/bin:/bin:/usr/sbin:/sbin"@;
    assert(b =~= b.take(4) + kept);
    let head = a + exe + " --config "@ + config + b.take(4);
    let tail = text.skip((head + (kept + path)).len() as int);
    assert(text.take((head + (kept + path)).len() as int) =~= head + (kept + path));
    assert(text =~= head + (kept + path) + tail);
    lemma_holds(head, kept + path, tail);
    assert(a =~= text.take(a.len() as int));
    let end = "\n\n[Install]\nWantedBy=default.target\n"@;
    assert(end.len() == 36);
    assert(text.skip(text.len() - 36) =~= end);
}

proof fn lemma_more(s: Seq<char>, t: Seq<char>, part: Seq<char>)
    requires
        contains_text(s, part),
    ensures
        contains_text(s + t, part),
{
    let at = choose|at: int| #[trigger] stands_at(s, at, part);
    assert((s + t).subrange(at, at + part.len()) =~= s.subrange(at, at + part.len()));
    assert(stands_at(s + t, at, part));
}

/// A value between two texts stands between the end of the one and the start of
/// the other.
proof fn lemma_between(
    head: Seq<char>,
    left: Seq<char>,
    value: Seq<char>,
    right: Seq<char>,
    l: Seq<char>,
    r: Seq<char>,
)
    requires
        l.len() <= left.len(),
        left.skip(left.len() - l.len()) == l,
        r.len() <= right.len(),
        right.take(r.len() as int) == r,
    ensures
        contains_text(head + left + value + right, l + value + r),
{
    let s = head + left + value + right;
    let before = head + left.take(left.len() - l.len());
    let after = right.skip(r.len() as int);
    assert(left =~= left.take(left.len() - l.len()) + l);
    assert(right =~= r + after);
    assert(s =~= before + (l + value + r) + after);
    lemma_holds(before, l + value + r, after);
}

/// The launchd agent has its own label, is kept alive from the start, and runs
/// in the user's home.
pub proof fn law_agent_settings(
    exe: Seq<char>,
    config: Seq<char>,
    env_home: Option<Seq<char>>,
    home: Option<Seq<char>>,
    dir: Seq<char>,
)
    requires
        dir == match env_home {
            Some(given) => given,
            None => "."@,
        },
    ensures
        contains_text(
            plist_text(exe, config, env_home, home),
            "<key>Label</key>\n  <string>"@ + "dev.codexclaw.agent"@ + "</string>\n"@,
        ),
        contains_text(
            plist_text(exe, config, env_home, home),
            "<key>RunAtLoad</key>\n  <true/>\n  <key>KeepAlive</key>\n  <true/>\n  <key>WorkingDirectory</key>\n  <string>"@
                + escaped(dir) + "</string>\n"@,
        ),
{
    let a = "<?xml version=\"1.0\" encoding=\"UTF-8\"?>\n<!DOCTYPE plist PUBLIC \"-//Apple//DTD PLIST 1.0//EN\" \"http://www.apple.com/DTDs/PropertyList-1.0.dtd\">\n<plist version=\"1.0\">\n<dict>\n  <key>Label</key>\n  <string>"@;
    let b = "</string>\n  <key>ProgramArguments</key>\n  <array>\n    <string>"@;
    let c = "</string>\n    <string>--config</string>\n    <string>"@;
    let d = "</string>\n    <string>run</string>\n  </array>\n  <key>RunAtLoad</key>\n  <true/>\n  <key>KeepAlive</key>\n  <true/>\n  <key>WorkingDirectory</key>\n  <string>"@;
    let e = "</string>\n  <key>EnvironmentVariables</key>\n  <dict>\n    <key>RUST_LOG</key>\n    <string>hooyodex=info</string>\n    <key>PATH</key>\n    <string>"@;
    let f = "</string>\n  </dict>\n  <key>StandardOutPath</key>\n  <string>"@;
    let g = "</string>\n  <key>StandardErrorPath</key>\n  <string>"@;
    let h = "</string>\n</dict>\n</plist>\n"@;
    let name = agent_label();
    let out = escaped(path_join(log_dir(home), "hooyodex.out.log"@));
    let err = escaped(path_join(log_dir(home), "hooyodex.err.log"@));
    let shut = "</string>\n"@;
    let label = "<key>Label</key>\n  <string>"@;
    let kept = "<key>RunAtLoad</key>\n  <true/>\n  <key>KeepAlive</key>\n  <true/>\n  <key>WorkingDirectory</key>\n  <string>"@;
    lemma_agent_texts();
    let none = Seq::<char>::empty();
    lemma_between(none, a, name, b, label, shut);
    assert(none + a =~= a);
    let part = label + name + shut;
    let s1 = a + name + b;
    let s2 = s1 + escaped(exe);
    let s3 = s2 + c;
    let s4 = s3 + escaped(config);
    let s5 = s4 + d;
    let s6 = s5 + escaped(dir);
    let s7 = s6 + e;
    lemma_more(s1, escaped(exe), part);
    lemma_more(s2, c, part);
    lemma_more(s3, escaped(config), part);
    lemma_more(s4, d, part);
    lemma_more(s5, escaped(dir), part);
    lemma_more(s6, e, part);
    lemma_agent_end(s7, part, f, out, g, err, h);
    lemma_between(s4, d, escaped(dir), e, kept, shut);
    lemma_agent_end(s7, kept + escaped(dir) + shut, f, out, g, err, h);
}

proof fn lemma_agent_end(
    s: Seq<char>,
    part: Seq<char>,
    f: Seq<char>,
    out: Seq<char>,
    g: Seq<char>,
    err: Seq<char>,
    h: Seq<char>,
)
    requires
        contains_text(s, part),
    ensures
        contains_text(s + service_path() + f + out + g + err + h, part),
{
    lemma_more(s, service_path(), part);
    lemma_more(s + service_path(), f, part);
    lemma_more(s + service_path() + f, out, part);
    lemma_more(s + service_path() + f + out, g, part);
    lemma_more(s + service_path() + f + out + g, err, part);
    lemma_more(s + service_path() + f + out + g + err, h, part);
}

/// How the fixed texts of the agent's file start and end.
proof fn lemma_agent_texts()
    ensures
        ({
            let a = "<?xml version=\"1.0\" encoding=\"UTF-8\"?>\n<!DOCTYPE plist PUBLIC \"-//Apple//DTD PLIST 1.0//EN\" \"http://www.apple.com/DTDs/PropertyList-1.0.dtd\">\n<plist version=\"1.0\">\n<dict>\n  <key>Label</key>\n  <string>"@;
            let b = "</string>\n  <key>ProgramArguments</key>\n  <array>\n    <string>"@;
            let d = "</string>\n    <string>run</string>\n  </array>\n  <key>RunAtLoad</key>\n  <true/>\n  <key>KeepAlive</key>\n  <true/>\n  <key>WorkingDirectory</key>\n  <string>"@;
            let e = "</string>\n  <key>EnvironmentVariables</key>\n  <dict>\n    <key>RUST_LOG</key>\n    <string>hooyodex=info</string>\n    <key>PATH</key>\n    <string>"@;
            let f = "</string>\n  </dict>\n  <key>StandardOutPath</key>\n  <string>"@;
            let g = "</string>\n  <key>StandardErrorPath</key>\n  <string>"@;
            let h = "</string>\n</dict>\n</plist>\n"@;
            let shut = "</string>\n"@;
            let label = "<key>Label</key>\n  <string>"@;
            let kept = "<key>RunAtLoad</key>\n  <true/>\n  <key>KeepAlive</key>\n  <true/>\n  <key>WorkingDirectory</key>\n  <string>"@;
            let path = "<key>RUST_LOG</key>\n    <string>hooyodex=info</string>\n    <key>PATH</key>\n    <string>"@;
            let out = "<key>StandardOutPath</key>\n  <string>"@;
            let err = "<key>StandardErrorPath</key>\n  <string>"@;
            &&& label.len() <= a.len() && a.skip(a.len() - label.len()) == label
            &&& kept.len() <= d.len() && d.skip(d.len() - kept.len()) == kept
            &&& path.len() <= e.len() && e.skip(e.len() - path.len()) == path
            &&& out.len() <= f.len() && f.skip(f.len() - out.len()) == out
            &&& err.len() <= g.len() && g.skip(g.len() - err.len()) == err
            &&& shut.len() <= b.len() && b.take(shut.len() as int) == shut
            &&& shut.len() <= e.len() && e.take(shut.len() as int) == shut
            &&& shut.len() <= f.len() && f.take(shut.len() as int) == shut
            &&& shut.len() <= g.len() && g.take(shut.len() as int) == shut
            &&& shut.len() <= h.len() && h.take(shut.len() as int) == shut
        }),
{
    reveal_strlit("<?xml version=\"1.0\" encoding=\"UTF-8\"?>\n<!DOCTYPE plist PUBLIC \"-//Apple//DTD PLIST 1.0//EN\" \"http://www.apple.com/DTDs/PropertyList-1.0.dtd\">\n<plist version=\"1.0\">\n<dict>\n  <key>Label</key>\n  <string>");
    reveal_strlit("</string>\n  <key>ProgramArguments</key>\n  <array>\n    <string>");
    reveal_strlit("</string>\n    <string>run</string>\n  </array>\n  <key>RunAtLoad</key>\n  <true/>\n  <key>KeepAlive</key>\n  <true/>\n  <key>WorkingDirectory</key>\n  <string>");
    reveal_strlit("</string>\n  <key>EnvironmentVariables</key>\n  <dict>\n    <key>RUST_LOG</key>\n    <string>hooyodex=info</string>\n    <key>PATH</key>\n    <string>");
    reveal_strlit("</string>\n  </dict>\n  <key>StandardOutPath</key>\n  <string>");
    reveal_strlit("</string>\n  <key>StandardErrorPath</key>\n  <string>");
    reveal_strlit("</string>\n</dict>\n</plist>\n");
    reveal_strlit("</string>\n");
    reveal_strlit("<key>Label</key>\n  <string>");
    reveal_strlit("<key>RunAtLoad</key>\n  <true/>\n  <key>KeepAlive</key>\n  <true/>\n  <key>WorkingDirectory</key>\n  <string>");
    reveal_strlit("<key>RUST_LOG</key>\n    <string>hooyodex=info</string>\n    <key>PATH</key>\n    <string>");
    reveal_strlit("<key>StandardOutPath</key>\n  <string>");
    reveal_strlit("<key>StandardErrorPath</key>\n  <string>");
}

/// The launchd agent finds its programs, and writes its logs among the user's.
pub proof fn law_agent_logs(
    exe: Seq<char>,
    config: Seq<char>,
    env_home: Option<Seq<char>>,
    home: Option<Seq<char>>,
    logs: Seq<char>,
)
    requires
        logs == match home {
            Some(given) => path_join(path_join(given, "Library"@), "Logs"@),
            None => path_join(path_join("."@, "Library"@), "Logs"@),
        },
    ensures
        contains_text(
            plist_text(exe, config, env_home, home),
            "<key>RUST_LOG</key>\n    <string>hooyodex=info</string>\n    <key>PATH</key>\n    <string>"@
                + "/opt/homebrew/bin:/usr/local/bin:/usr/bin:/bin:/usr/sbin:/sbin"@
                + "</string>\n"@,
        ),
        contains_text(
            plist_text(exe, config, env_home, home),
            "<key>StandardOutPath</key>\n  <string>"@ + escaped(
                path_join(logs, "hooyodex.out.log"@),
            ) + "</string>\n"@,
        ),
        contains_text(
            plist_text(exe, config, env_home, home),
            "<key>StandardErrorPath</key>\n  <string>"@ + escaped(
                path_join(logs, "hooyodex.err.log"@),
            ) + "</string>\n"@,
        ),
{
    let a = "<?xml version=\"1.0\" encoding=\"UTF-8\"?>\n<!DOCTYPE plist PUBLIC \"-//Apple//DTD PLIST 1.0//EN\" \"http://www.apple.com/DTDs/PropertyList-1.0.dtd\">\n<plist version=\"1.0\">\n<dict>\n  <key>Label</key>\n  <string>"@;
    let b = "</string>\n  <key>ProgramArguments</key>\n  <array>\n    <string>"@;
    let c = "</string>\n    <string>--config</string>\n    <string>"@;
    let d = "</string>\n    <string>run</string>\n  </array>\n  <key>RunAtLoad</key>\n  <true/>\n  <key>KeepAlive</key>\n  <true/>\n  <key>WorkingDirectory</key>\n  <string>"@;
    let e = "</string>\n  <key>EnvironmentVariables</key>\n  <dict>\n    <key>RUST_LOG</key>\n    <string>hooyodex=info</string>\n    <key>PATH</key>\n    <string>"@;
    let f = "</string>\n  </dict>\n  <key>StandardOutPath</key>\n  <string>"@;
    let g = "</string>\n  <key>StandardErrorPath</key>\n  <string>"@;
    let h = "</string>\n</dict>\n</plist>\n"@;
    let out = escaped(path_join(logs, "hooyodex.out.log"@));
    let err = escaped(path_join(logs, "hooyodex.err.log"@));
    let path = "/opt/homebrew/bin:/usr/local/bin:/usr/bin:/bin:/usr/sbin:/sbin"@;
    let shut = "</string>\n"@;
    lemma_agent_texts();
    let head = a + agent_label() + b + escaped(exe) + c + escaped(config) + d + escaped(
        work_dir(env_home),
    );
    let s = head + e + path;
    let l = "<key>RUST_LOG</key>\n    <string>hooyodex=info</string>\n    <key>PATH</key>\n    <string>"@;
    lemma_between(head, e, path, f, l, shut);
    lemma_more(s + f, out, l + path + shut);
    lemma_more(s + f + out, g, l + path + shut);
    lemma_more(s + f + out + g, err, l + path + shut);
    lemma_more(s + f + out + g + err, h, l + path + shut);
    let m = "<key>StandardOutPath</key>\n  <string>"@;
    lemma_between(s, f, out, g, m, shut);
    lemma_more(s + f + out + g, err, m + out + shut);
    lemma_more(s + f + out + g + err, h, m + out + shut);
    lemma_between(s + f + out, g, err, h, "<key>StandardErrorPath</key>\n  <string>"@, shut);
}

/// The launchd agent runs the program with its configuration, both as XML text.
pub proof fn law_agent_runs_the_program(
    exe: Seq<char>,
    config: Seq<char>,
    env_home: Option<Seq<char>>,
    home: Option<Seq<char>>,
)
    ensures
        contains_text(
            plist_text(exe, config, env_home, home),
            "<string>"@ + escaped(exe)
                + "</string>\n    <string>--config</string>\n    <string>"@ + escaped(config)
                + "</string>\n    <string>run</string>\n"@,
        ),
{
    let a = "<?xml version=\"1.0\" encoding=\"UTF-8\"?>\n<!DOCTYPE plist PUBLIC \"-//Apple//DTD PLIST 1.0//EN\" \"http://www.apple.com/DTDs/PropertyList-1.0.dtd\">\n<plist version=\"1.0\">\n<dict>\n  <key>Label</key>\n  <string>"@;
    let b = "</string>\n  <key>ProgramArguments</key>\n  <array>\n    <string>"@;
    let c = "</string>\n    <string>run</string>\n  </array>\n  <key>RunAtLoad</key>\n  <true/>\n  <key>KeepAlive</key>\n  <true/>\n  <key>WorkingDirectory</key>\n  <string>"@;
    reveal_strlit("</string>\n  <key>ProgramArguments</key>\n  <array>\n    <string>");
    reveal_strlit("</string>\n    <string>run</string>\n  </array>\n  <key>RunAtLoad</key>\n  <true/>\n  <key>KeepAlive</key>\n  <true/>\n  <key>WorkingDirectory</key>\n  <string>");
    reveal_strlit("<string>");
    reveal_strlit("</string>\n    <string>run</string>\n");
    let text = plist_text(exe, config, env_home, home);
    let n = "</string>\n    <string>run</string>\n"@.len() as int;
    let part = "<string>"@ + escaped(exe)
        + "</string>\n    <string>--config</string>\n    <string>"@ + escaped(config)
        + "</string>\n    <string>run</string>\n"@;
    assert(b =~= b.take(b.len() - 8) + "<string>"@);
    assert(c =~= "</string>\n    <string>run</string>\n"@ + c.skip(n));
    let head = a + agent_label() + b.take(b.len() - 8);
    let tail = text.skip((head + part).len() as int);
    assert(text.take((head + part).len() as int) =~= head + part);
    assert(text =~= head + part + tail);
    lemma_holds(head, part, tail);
}

/// On Linux the service is a unit of the user's own systemd: installing it
/// writes the unit that is printed and starts it, and removing it stops it and
/// removes the same file.
pub proof fn law_linux_service(
    config_path: Seq<char>,
    system: ServiceSystem,
    dirs: ServiceDirs,
    exe: Seq<char>,
    config: Seq<char>,
)
    requires
        system.os@ == "linux"@,
        opt_view(system.exe) == Some(exe),
        opt_view(dirs.config) == Some(config),
    ensures
        ({
            let dir = path_join(path_join(config, "systemd"@), "user"@);
            let unit = path_join(dir, "codexclaw.service"@);
            let text = unit_text(exe, config_path, opt_view(system.env_home));
            &&& service_plan(ServiceCommand::Install, config_path, system, dirs) == Ok::<
                Seq<ServiceStepView>,
                Seq<char>,
            >(
                seq![
                    ServiceStepView::CreateDirectory(dir),
                    ServiceStepView::WriteFile { path: unit, content: text },
                    ServiceStepView::Run {
                        program: "systemctl"@,
                        args: seq!["--user"@, "daemon-reload"@],
                    },
                    ServiceStepView::Run {
                        program: "systemctl"@,
                        args: seq!["--user"@, "enable"@, "--now"@, "codexclaw.service"@],
                    },
                    ServiceStepView::Print(unit),
                ],
            )
            &&& service_plan(ServiceCommand::Uninstall, config_path, system, dirs) == Ok::<
                Seq<ServiceStepView>,
                Seq<char>,
            >(
                seq![
                    ServiceStepView::TryRun {
                        program: "systemctl"@,
                        args: seq!["--user"@, "disable"@, "--now"@, "codexclaw.service"@],
                    },
                    ServiceStepView::RemoveIfPresent(unit),
                    ServiceStepView::TryRun {
                        program: "systemctl"@,
                        args: seq!["--user"@, "daemon-reload"@],
                    },
                ],
            )
            &&& service_plan(ServiceCommand::Print, config_path, system, dirs) == Ok::<
                Seq<ServiceStepView>,
                Seq<char>,
            >(seq![ServiceStepView::Print(text)])
        }),
{
    lemma_systems();
    assert(seq!["--user"@] + seq!["daemon-reload"@] =~= seq!["--user"@, "daemon-reload"@]);
    assert(seq!["--user"@] + seq!["enable"@, "--now"@, "codexclaw.service"@] =~= seq![
        "--user"@,
        "enable"@,
        "--now"@,
        "codexclaw.service"@,
    ]);
    assert(seq!["--user"@] + seq!["disable"@, "--now"@, "codexclaw.service"@] =~= seq![
        "--user"@,
        "disable"@,
        "--now"@,
        "codexclaw.service"@,
    ]);
}

proof fn lemma_systems()
    ensures
        "linux"@ != "macos"@,
{
    reveal_strlit("linux");
    reveal_strlit("macos");
    assert("linux"@[0] != "macos"@[0]);
}

/// A plan of one program that must succeed.
pub open spec fn runs(
    plan: Result<Seq<ServiceStepView>, Seq<char>>,
    program: Seq<char>,
    args: Seq<Seq<char>>,
) -> bool {
    plan == Ok::<Seq<ServiceStepView>, Seq<char>>(
        seq![ServiceStepView::Run { program, args }],
    )
}

/// On Linux each command is passed on to systemd, for the service's unit.
pub proof fn law_linux_commands(
    config_path: Seq<char>,
    system: ServiceSystem,
    dirs: ServiceDirs,
)
    requires
        system.os@ == "linux"@,
    ensures
        runs(
            service_plan(ServiceCommand::Start, config_path, system, dirs),
            "systemctl"@,
            seq!["--user"@, "start"@, "codexclaw.service"@],
        ),
        runs(
            service_plan(ServiceCommand::Stop, config_path, system, dirs),
            "systemctl"@,
            seq!["--user"@, "stop"@, "codexclaw.service"@],
        ),
        runs(
            service_plan(ServiceCommand::Restart, config_path, system, dirs),
            "systemctl"@,
            seq!["--user"@, "restart"@, "codexclaw.service"@],
        ),
        runs(
            service_plan(ServiceCommand::Reload, config_path, system, dirs),
            "systemctl"@,
            seq!["--user"@, "reload"@, "codexclaw.service"@],
        ),
        runs(
            service_plan(ServiceCommand::Status, config_path, system, dirs),
            "systemctl"@,
            seq!["--user"@, "status"@, "--no-pager"@, "codexclaw.service"@],
        ),
{
    assert(seq!["--user"@] + seq!["start"@, "codexclaw.service"@] =~= seq![
        "--user"@,
        "start"@,
        "codexclaw.service"@,
    ]);
    assert(seq!["--user"@] + seq!["stop"@, "codexclaw.service"@] =~= seq![
        "--user"@,
        "stop"@,
        "codexclaw.service"@,
    ]);
    assert(seq!["--user"@] + seq!["restart"@, "codexclaw.service"@] =~= seq![
        "--user"@,
        "restart"@,
        "codexclaw.service"@,
    ]);
    assert(seq!["--user"@] + seq!["reload"@, "codexclaw.service"@] =~= seq![
        "--user"@,
        "reload"@,
        "codexclaw.service"@,
    ]);
    assert(seq!["--user"@] + seq!["status"@, "--no-pager"@, "codexclaw.service"@] =~= seq![
        "--user"@,
        "status"@,
        "--no-pager"@,
        "codexclaw.service"@,
    ]);
}

/// On macOS each command is passed on to launchd: a start for the agent under its
/// own label, the others for the one that is loaded, if any.
pub proof fn law_macos_commands(
    config_path: Seq<char>,
    system: ServiceSystem,
    dirs: ServiceDirs,
    label: Seq<char>,
)
    requires
        system.os@ == "macos"@,
        match system.active_label {
            Some(loaded) => label == loaded@,
            None => label == "dev.codexclaw.agent"@,
        },
    ensures
        ({
            let target = "gui/"@ + system.uid@ + "/"@ + label;
            &&& runs(
                service_plan(ServiceCommand::Start, config_path, system, dirs),
                "launchctl"@,
                seq![
                    "kickstart"@,
                    "-k"@,
                    "gui/"@ + system.uid@ + "/"@ + "dev.codexclaw.agent"@,
                ],
            )
            &&& runs(
                service_plan(ServiceCommand::Stop, config_path, system, dirs),
                "launchctl"@,
                seq!["bootout"@, target],
            )
            &&& runs(
                service_plan(ServiceCommand::Restart, config_path, system, dirs),
                "launchctl"@,
                seq!["kickstart"@, "-k"@, target],
            )
            &&& runs(
                service_plan(ServiceCommand::Reload, config_path, system, dirs),
                "launchctl"@,
                seq!["kill"@, "HUP"@, target],
            )
            &&& runs(
                service_plan(ServiceCommand::Status, config_path, system, dirs),
                "launchctl"@,
                seq!["print"@, target],
            )
        }),
{
    lemma_systems();
}

/// On macOS the service is an agent of the user's own launchd: installing it
/// writes the file that is printed and starts it, and removing it stops it and
/// removes the same file.
pub proof fn law_macos_service(
    config_path: Seq<char>,
    system: ServiceSystem,
    dirs: ServiceDirs,
    exe: Seq<char>,
    home: Seq<char>,
)
    requires
        system.os@ == "macos"@,
        opt_view(system.exe) == Some(exe),
        opt_view(dirs.home) == Some(home),
    ensures
        ({
            let dir = path_join(path_join(home, "Library"@), "LaunchAgents"@);
            let plist = path_join(dir, "dev.codexclaw.agent"@ + ".plist"@);
            let domain = "gui/"@ + system.uid@;
            let target = domain + "/"@ + "dev.codexclaw.agent"@;
            let text = plist_text(exe, config_path, opt_view(system.env_home), Some(home));
            &&& service_plan(ServiceCommand::Install, config_path, system, dirs) == Ok::<
                Seq<ServiceStepView>,
                Seq<char>,
            >(
                seq![
                    ServiceStepView::CreateDirectory(dir),
                    ServiceStepView::WriteFile { path: plist, content: text },
                    ServiceStepView::TryRun {
                        program: "launchctl"@,
                        args: seq!["bootout"@, domain, plist],
                    },
                    ServiceStepView::Run {
                        program: "launchctl"@,
                        args: seq!["bootstrap"@, domain, plist],
                    },
                    ServiceStepView::Run {
                        program: "launchctl"@,
                        args: seq!["enable"@, target],
                    },
                    ServiceStepView::Run {
                        program: "launchctl"@,
                        args: seq!["kickstart"@, "-k"@, target],
                    },
                    ServiceStepView::Print(plist),
                ],
            )
            &&& service_plan(ServiceCommand::Uninstall, config_path, system, dirs) == Ok::<
                Seq<ServiceStepView>,
                Seq<char>,
            >(
                seq![
                    ServiceStepView::TryRun {
                        program: "launchctl"@,
                        args: seq!["bootout"@, domain, plist],
                    },
                    ServiceStepView::RemoveIfPresent(plist),
                ],
            )
            &&& service_plan(ServiceCommand::Print, config_path, system, dirs) == Ok::<
                Seq<ServiceStepView>,
                Seq<char>,
            >(seq![ServiceStepView::Print(text)])
        }),
{
    lemma_systems();
}

/// What is missing is told: the program's path, the directory for the file, or a
/// service manager that is known.
pub proof fn law_service_faults(
    command: ServiceCommand,
    config_path: Seq<char>,
    system: ServiceSystem,
    dirs: ServiceDirs,
)
    ensures
        ({
            let plan = service_plan(command, config_path, system, dirs);
            let writes = command is Install || command is Print;
            let places = command is Install || command is Uninstall;
            let known = system.os@ == "linux"@ || system.os@ == "macos"@;
            &&& writes && system.exe is None ==> plan == Err::<Seq<ServiceStepView>, Seq<char>>(
                "failed to determine current executable path"@,
            )
            &&& places && (system.exe is Some || command is Uninstall) && system.os@ == "linux"@
                && dirs.config is None ==> plan == Err::<Seq<ServiceStepView>, Seq<char>>(
                "failed to determine ~/.config for systemd user unit"@,
            )
            &&& places && (system.exe is Some || command is Uninstall) && system.os@ == "macos"@
                && dirs.home is None ==> plan == Err::<Seq<ServiceStepView>, Seq<char>>(
                "failed to determine ~/Library/LaunchAgents"@,
            )
            &&& !known && (system.exe is Some || !writes) ==> plan == Err::<
                Seq<ServiceStepView>,
                Seq<char>,
            >(
                (if command is Install {
                    "unsupported OS for service install: "@
                } else if command is Uninstall {
                    "unsupported OS for service uninstall: "@
                } else if command is Print {
                    "unsupported OS for service print: "@
                } else {
                    "unsupported OS for service commands: "@
                }) + system.os@,
            )
        }),
{
    lemma_systems();
}

// ---------------------------------------------------------------------------
// The transcriber
// ---------------------------------------------------------------------------
/// The user's own transcriber is looked for among the user's programs, unless
/// the configured one is a path of its own or there is no home.
pub proof fn law_own_transcriber(command: Seq<char>, home: Seq<char>)
    ensures
        own_transcriber(command, None) is None,
        command.len() > 0 && command[0] == '/' ==> own_transcriber(command, Some(home)) is None,
        !(command.len() > 0 && command[0] == '/') ==> own_transcriber(command, Some(home)) == Some(
            path_join(path_join(path_join(home, ".local"@), "bin"@), command),
        ),
{
    law_path_join(home, command);
}

/// The transcriber is told the recording, the model, and to write plain text
/// into a file named after the transcript in the job's directory.
pub proof fn law_transcriber_arguments(
    audio: Seq<char>,
    model: Seq<char>,
    output: Seq<char>,
    cache: Seq<char>,
    id: Seq<char>,
)
    ensures
        ({
            let args = transcriber_args_of(audio, model, output);
            &&& args.len() == 9
            &&& args[0] == audio
            &&& args[1] == "--model"@ && args[2] == model
            &&& args[3] == "--output-dir"@ && args[4] == output
            &&& args[5] == "--output-format"@ && args[6] == "txt"@
            &&& args[7] == "--output-template"@ && args[8] == "transcript"@
        }),
        job_place(cache, id) == path_join(path_join(cache, "voice-transcripts"@), id),
{
}

} // verus!
