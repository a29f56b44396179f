//! Configuration: its values, its defaults, and the places derived from it.
use vstd::prelude::*;
use vstd::string::*;

use crate::paths::{is_absolute, is_absolute_path, join_path, path_join};
use crate::patterns::text_starts_with;
use crate::text::{cut_run, cut_trailing, has_ink, is_blank, only, opt_view};
use crate::user_dirs::{user_cache_dir, user_config_dir, user_data_local_dir, user_state_dir};

verus! {

/// Where the program keeps its files.
#[derive(Debug, Clone, PartialEq, Eq)]
pub struct AppPaths {
    pub config_path: String,
    pub state_dir: String,
    pub cache_dir: String,
}

/// The configuration of the program.
#[derive(Debug, Clone, PartialEq, Eq)]
pub struct AppConfig {
    pub paths: AppPaths,
    pub server: ServerConfig,
    pub telegram: TelegramConfig,
    pub whatsapp: Option<WhatsAppConfig>,
    pub operator: OperatorConfig,
    pub voice: VoiceConfig,
    pub codex: CodexConfig,
}

/// Where the webhook server listens.
#[derive(Debug, Clone, PartialEq, Eq)]
pub struct ServerConfig {
    pub listen: String,
}

/// The Telegram bot.
#[derive(Debug, Clone, PartialEq, Eq)]
pub struct TelegramConfig {
    pub bot_token: String,
    pub allowed_user_ids: Vec<i64>,
    pub public_base_url: String,
    pub webhook_secret: String,
    pub api_base_url: String,
}

/// The WhatsApp account.
#[derive(Debug, Clone, PartialEq, Eq)]
pub struct WhatsAppConfig {
    pub account_id: String,
    pub verify_token: String,
    pub access_token: String,
    pub phone_number_id: String,
    pub webhook_path: String,
    pub api_base_url: String,
    pub allowed_senders: Vec<String>,
}

/// Who is asked for approvals.
#[derive(Debug, Clone, PartialEq, Eq)]
pub struct OperatorConfig {
    pub telegram: Option<OperatorTelegramConfig>,
}

/// The Telegram chat in which approvals are asked for.
#[derive(Debug, Clone, Copy, PartialEq, Eq)]
pub struct OperatorTelegramConfig {
    pub chat_id: i64,
    pub thread_id: Option<i64>,
}

/// How voice messages are transcribed.
#[derive(Debug, Clone, PartialEq, Eq)]
pub struct VoiceConfig {
    pub enabled: bool,
    pub transcriber_command: String,
    pub model: String,
}

/// The Codex server and how its threads are set up.
#[derive(Debug, Clone, PartialEq, Eq)]
pub struct CodexConfig {
    pub connect_url: String,
    pub listen_url: String,
    pub reuse_existing_server: bool,
    pub experimental_api: bool,
    pub working_directory: String,
    pub model: Option<String>,
    pub additional_directories: Vec<String>,
    pub approval_policy: String,
    pub sandbox_mode: String,
    pub skip_git_repo_check: bool,
    pub network_access_enabled: bool,
    pub web_search_enabled: bool,
    pub orchestrator_name: Option<String>,
}

/// Why a configuration cannot be used.
#[derive(Debug, Clone, Copy, PartialEq, Eq, Structural)]
pub enum ConfigError {
    NoStateDirectory,
    NoCacheDirectory,
    EmptyBotToken,
    EmptyWebhookSecret,
    InsecureBaseUrl,
    RelativeWorkingDirectory,
}

/// The error in words.
pub open spec fn config_error_text(error: ConfigError) -> Seq<char> {
    match error {
        ConfigError::NoStateDirectory => "failed to determine state directory"@,
        ConfigError::NoCacheDirectory => "failed to determine cache directory"@,
        ConfigError::EmptyBotToken => "telegram.bot_token must not be empty"@,
        ConfigError::EmptyWebhookSecret => "telegram.webhook_secret must not be empty"@,
        ConfigError::InsecureBaseUrl => "telegram.public_base_url must start with https://"@,
        ConfigError::RelativeWorkingDirectory =>
            "codex.working_directory must be an absolute path"@,
    }
}

impl ConfigError {
    /// The error in words.
    pub fn message(self) -> (text: &'static str)
        ensures
            text@ == config_error_text(self),
    {
        match self {
            ConfigError::NoStateDirectory => "failed to determine state directory",
            ConfigError::NoCacheDirectory => "failed to determine cache directory",
            ConfigError::EmptyBotToken => "telegram.bot_token must not be empty",
            ConfigError::EmptyWebhookSecret => "telegram.webhook_secret must not be empty",
            ConfigError::InsecureBaseUrl => "telegram.public_base_url must start with https://",
            ConfigError::RelativeWorkingDirectory => "codex.working_directory must be an absolute path",
        }
    }
}

// ---------------------------------------------------------------------------
// Places
// ---------------------------------------------------------------------------
/// `AppPaths` as a mathematical value.
#[verifier::ext_equal]
pub struct AppPathsView {
    pub config_path: Seq<char>,
    pub state_dir: Seq<char>,
    pub cache_dir: Seq<char>,
}

impl View for AppPaths {
    type V = AppPathsView;

    open spec fn view(&self) -> AppPathsView {
        AppPathsView {
            config_path: self.config_path@,
            state_dir: self.state_dir@,
            cache_dir: self.cache_dir@,
        }
    }
}

/// The directories of the user, as far as they are known.
pub struct UserDirs {
    pub config: Option<String>,
    pub state: Option<String>,
    pub data_local: Option<String>,
    pub cache: Option<String>,
}

/// Where the configuration file is looked for.
pub open spec fn default_config_place(config_dir: Option<Seq<char>>) -> Seq<char> {
    match config_dir {
        Some(dir) => path_join(path_join(dir, "codexclaw"@), "config.toml"@),
        None => "./codexclaw.toml"@,
    }
}

/// The places of the program among the directories of the user. A
/// configuration file that is named explicitly takes the place of the default;
/// local data stands in for the state directory.
pub open spec fn places(explicit: Option<Seq<char>>, dirs: UserDirs) -> Result<
    AppPathsView,
    ConfigError,
> {
    let state = match dirs.state {
        Some(dir) => Some(dir@),
        None => opt_view(dirs.data_local),
    };
    match (state, dirs.cache) {
        (None, _) => Err(ConfigError::NoStateDirectory),
        (_, None) => Err(ConfigError::NoCacheDirectory),
        (Some(state_dir), Some(cache_dir)) => Ok(
            AppPathsView {
                config_path: match explicit {
                    Some(path) => path,
                    None => default_config_place(opt_view(dirs.config)),
                },
                state_dir: path_join(state_dir, "codexclaw"@),
                cache_dir: path_join(cache_dir@, "codexclaw"@),
            },
        ),
    }
}

/// Where the configuration file is looked for.
pub fn default_config_path(config_dir: &Option<String>) -> (path: String)
    ensures
        path@ == default_config_place(opt_view(*config_dir)),
{
    match config_dir {
        Some(dir) => {
            let own = join_path(dir.as_str(), "codexclaw");
            join_path(own.as_str(), "config.toml")
        },
        None => "./codexclaw.toml".to_string(),
    }
}

impl AppPaths {
    /// The places of the program among the directories of the user.
    pub fn from_dirs(explicit: Option<String>, dirs: UserDirs) -> (paths: Result<
        Self,
        ConfigError,
    >)
        ensures
            match paths {
                Ok(found) => places(opt_view(explicit), dirs) == Ok::<AppPathsView, ConfigError>(
                    found@,
                ),
                Err(error) => places(opt_view(explicit), dirs) == Err::<AppPathsView, ConfigError>(
                    error,
                ),
            },
    {
        let config_path = match explicit {
            Some(path) => path,
            None => default_config_path(&dirs.config),
        };
        let state = match dirs.state {
            Some(dir) => Some(dir),
            None => dirs.data_local,
        };
        let state_dir = match state {
            Some(dir) => join_path(dir.as_str(), "codexclaw"),
            None => return Err(ConfigError::NoStateDirectory),
        };
        let cache_dir = match dirs.cache {
            Some(dir) => join_path(dir.as_str(), "codexclaw"),
            None => return Err(ConfigError::NoCacheDirectory),
        };
        Ok(AppPaths { config_path, state_dir, cache_dir })
    }

    /// The places of the program among the directories that the system names.
    pub fn from_explicit(explicit: Option<String>) -> (paths: Result<Self, ConfigError>)
        ensures
            exists|dirs: UserDirs|
                match paths {
                    Ok(found) => #[trigger] places(opt_view(explicit), dirs) == Ok::<
                        AppPathsView,
                        ConfigError,
                    >(found@),
                    Err(error) => places(opt_view(explicit), dirs) == Err::<
                        AppPathsView,
                        ConfigError,
                    >(error),
                },
    {
        let dirs = UserDirs {
            config: user_config_dir(),
            state: user_state_dir(),
            data_local: user_data_local_dir(),
            cache: user_cache_dir(),
        };
        let ghost known = dirs;
        let paths = AppPaths::from_dirs(explicit, dirs);
        assert(match paths {
            Ok(found) => places(opt_view(explicit), known) == Ok::<AppPathsView, ConfigError>(
                found@,
            ),
            Err(error) => places(opt_view(explicit), known) == Err::<AppPathsView, ConfigError>(
                error,
            ),
        });
        paths
    }
}

impl AppConfig {
    /// The file in which the sessions are kept.
    pub fn sessions_path(&self) -> (path: String)
        ensures
            path@ == path_join(self.paths.state_dir@, "sessions.json"@),
    {
        join_path(self.paths.state_dir.as_str(), "sessions.json")
    }

    /// The directory into which attachments are downloaded.
    pub fn attachment_root(&self) -> (path: String)
        ensures
            path@ == path_join(self.paths.cache_dir@, "attachments"@),
    {
        join_path(self.paths.cache_dir.as_str(), "attachments")
    }

    /// The path of the Telegram webhook on the server.
    pub fn webhook_path(&self) -> (path: String)
        ensures
            path@ == "/telegram/"@ + self.telegram.webhook_secret@,
    {
        let mut path = "/telegram/".to_string();
        path.append(self.telegram.webhook_secret.as_str());
        path
    }

    /// The address at which Telegram reaches the webhook.
    pub fn webhook_url(&self) -> (url: String)
        ensures
            url@ == cut_run(self.telegram.public_base_url@, only('/')) + ("/telegram/"@
                + self.telegram.webhook_secret@),
    {
        let mut url = cut_trailing(self.telegram.public_base_url.as_str(), '/');
        let path = self.webhook_path();
        url.append(path.as_str());
        url
    }
}

// ---------------------------------------------------------------------------
// Validation
// ---------------------------------------------------------------------------
/// The first fault of a configuration.
pub open spec fn config_fault(config: AppConfig) -> Option<ConfigError> {
    if !has_ink(config.telegram.bot_token@) {
        Some(ConfigError::EmptyBotToken)
    } else if !has_ink(config.telegram.webhook_secret@) {
        Some(ConfigError::EmptyWebhookSecret)
    } else if !"https://"@.is_prefix_of(config.telegram.public_base_url@) {
        Some(ConfigError::InsecureBaseUrl)
    } else if !is_absolute_path(config.codex.working_directory@) {
        Some(ConfigError::RelativeWorkingDirectory)
    } else {
        None
    }
}

/// Checks a configuration.
pub fn validate(config: &AppConfig) -> (checked: Result<(), ConfigError>)
    ensures
        match checked {
            Ok(()) => config_fault(*config) is None,
            Err(error) => config_fault(*config) == Some(error),
        },
{
    if is_blank(config.telegram.bot_token.as_str()) {
        return Err(ConfigError::EmptyBotToken);
    }
    if is_blank(config.telegram.webhook_secret.as_str()) {
        return Err(ConfigError::EmptyWebhookSecret);
    }
    if !text_starts_with(config.telegram.public_base_url.as_str(), "https://") {
        return Err(ConfigError::InsecureBaseUrl);
    }
    if !is_absolute(config.codex.working_directory.as_str()) {
        return Err(ConfigError::RelativeWorkingDirectory);
    }
    Ok(())
}

// ---------------------------------------------------------------------------
// Defaults
// ---------------------------------------------------------------------------
/// A setting that is on unless it is switched off.
pub fn default_true() -> (value: bool)
    ensures
        value,
{
    true
}

/// The address of the Telegram Bot API.
pub fn default_telegram_api_base() -> (url: String)
    ensures
        url@ == "https://api.telegram.org"@,
{
    "https://api.telegram.org".to_string()
}

/// The address at which the Codex server is reached.
pub fn default_codex_connect_url() -> (url: String)
    ensures
        url@ == "ws://127.0.0.1:4222"@,
{
    "ws://127.0.0.1:4222".to_string()
}

/// The address on which the Codex server listens.
pub fn default_codex_listen_url() -> (url: String)
    ensures
        url@ == "ws://127.0.0.1:4222"@,
{
    "ws://127.0.0.1:4222".to_string()
}

/// When Codex asks before it acts.
pub fn default_approval_policy() -> (policy: String)
    ensures
        policy@ == "never"@,
{
    "never".to_string()
}

/// What Codex may touch.
pub fn default_sandbox_mode() -> (mode: String)
    ensures
        mode@ == "danger-full-access"@,
{
    "danger-full-access".to_string()
}

/// Whether Codex runs outside of repositories.
pub fn default_skip_git_repo_check() -> (value: bool)
    ensures
        value,
{
    true
}

/// Whether Codex may use the network.
pub fn default_network_access_enabled() -> (value: bool)
    ensures
        value,
{
    true
}

/// Whether Codex may search the web.
pub fn default_web_search_enabled() -> (value: bool)
    ensures
        value,
{
    true
}

impl Default for OperatorConfig {
    fn default() -> (config: Self)
        ensures
            config.telegram is None,
    {
        OperatorConfig { telegram: None }
    }
}

impl Default for VoiceConfig {
    fn default() -> (config: Self)
        ensures
            config.enabled,
            config.transcriber_command@ == "parakeet-mlx"@,
            config.model@ == "mlx-community/parakeet-tdt-0.6b-v3"@,
    {
        VoiceConfig {
            enabled: true,
            transcriber_command: "parakeet-mlx".to_string(),
            model: "mlx-community/parakeet-tdt-0.6b-v3".to_string(),
        }
    }
}

impl Default for AppPaths {
    fn default() -> (paths: Self)
        ensures
            paths.config_path@.len() == 0,
            paths.state_dir@.len() == 0,
            paths.cache_dir@.len() == 0,
    {
        AppPaths {
            config_path: String::new(),
            state_dir: String::new(),
            cache_dir: String::new(),
        }
    }
}

} // verus!
