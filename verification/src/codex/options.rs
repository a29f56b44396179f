//! How Codex is set up: the client, its threads and its turns.
use vstd::prelude::*;
use vstd::string::*;

use crate::codex::context::{
    normal_input, normalize_input_local, turn_items_view, Input, TurnInputItem,
};
use crate::codex::tool_specs::{
    is_approval_tool, is_media_tool, telegram_request_approval_tool_spec,
    telegram_send_media_tool_spec, DynamicToolSpec,
};
use crate::config::AppConfig;
use crate::json::{
    bool_value, object_entries, object_insert, object_new, text_array, text_value, texts_value,
    JsonView,
};
use crate::paths::path_join;
use crate::text::{opt_view, same_text, texts_view};

verus! {

// ---------------------------------------------------------------------------
// The client
// ---------------------------------------------------------------------------
/// Who talks to the server.
#[derive(Debug, Clone, PartialEq, Eq)]
pub struct ClientInfo {
    pub name: String,
    pub title: String,
    pub version: String,
}

/// What the client can do.
#[derive(Debug, Clone, Copy, PartialEq, Eq)]
pub struct InitializeCapabilities {
    pub experimental_api: Option<bool>,
}

/// How the client introduces itself.
#[derive(Debug, Clone, PartialEq, Eq)]
pub struct InitializeParams {
    pub client_info: ClientInfo,
    pub capabilities: Option<InitializeCapabilities>,
}

/// How the client, at the version `version`, introduces itself.
pub fn build_initialize_params(config: &AppConfig, version: &str) -> (params: InitializeParams)
    ensures
        params.client_info.name@ == "codex_sdk_rs"@,
        params.client_info.title@ == "Codex Rust SDK"@,
        params.client_info.version@ == version@,
        params.capabilities == if config.codex.experimental_api {
            Some((InitializeCapabilities { experimental_api: Some(true) }))
        } else {
            None
        },
{
    let capabilities = if config.codex.experimental_api {
        Some(InitializeCapabilities { experimental_api: Some(true) })
    } else {
        None
    };
    InitializeParams {
        client_info: ClientInfo {
            name: "codex_sdk_rs".to_string(),
            title: "Codex Rust SDK".to_string(),
            version: version.to_string(),
        },
        capabilities,
    }
}

// ---------------------------------------------------------------------------
// Threads
// ---------------------------------------------------------------------------
/// When Codex asks before it acts.
#[derive(Debug, Clone, Copy, PartialEq, Eq, Structural)]
pub enum ApprovalMode {
    OnRequest,
    OnFailure,
    Untrusted,
    Never,
}

/// What Codex may touch.
#[derive(Debug, Clone, Copy, PartialEq, Eq, Structural)]
pub enum SandboxMode {
    ReadOnly,
    WorkspaceWrite,
    DangerFullAccess,
}

/// How Codex searches the web.
#[derive(Debug, Clone, Copy, PartialEq, Eq, Structural)]
pub enum WebSearchMode {
    Live,
}

/// The approval mode that the configuration calls `policy`.
pub open spec fn approval_mode_of(policy: Seq<char>) -> ApprovalMode {
    if policy == "on-request"@ {
        ApprovalMode::OnRequest
    } else if policy == "on-failure"@ {
        ApprovalMode::OnFailure
    } else if policy == "untrusted"@ {
        ApprovalMode::Untrusted
    } else {
        ApprovalMode::Never
    }
}

/// The approval mode that the configuration calls `policy`.
pub fn approval_mode(policy: &str) -> (mode: ApprovalMode)
    ensures
        mode == approval_mode_of(policy@),
{
    if same_text(policy, "on-request") {
        ApprovalMode::OnRequest
    } else if same_text(policy, "on-failure") {
        ApprovalMode::OnFailure
    } else if same_text(policy, "untrusted") {
        ApprovalMode::Untrusted
    } else {
        ApprovalMode::Never
    }
}

/// The name of an approval mode.
pub open spec fn approval_mode_name(mode: ApprovalMode) -> Seq<char> {
    match mode {
        ApprovalMode::OnRequest => "on-request"@,
        ApprovalMode::OnFailure => "on-failure"@,
        ApprovalMode::Untrusted => "untrusted"@,
        ApprovalMode::Never => "never"@,
    }
}

/// The name of the approval mode that the configuration calls `value`. A name
/// that is not known stands for `never`.
pub fn normalized_approval_policy(value: &str) -> (policy: &'static str)
    ensures
        policy@ == approval_mode_name(approval_mode_of(value@)),
{
    match approval_mode(value) {
        ApprovalMode::OnRequest => "on-request",
        ApprovalMode::OnFailure => "on-failure",
        ApprovalMode::Untrusted => "untrusted",
        ApprovalMode::Never => "never",
    }
}

/// The sandbox mode that the configuration calls `name`.
pub open spec fn sandbox_mode_of(name: Seq<char>) -> SandboxMode {
    if name == "read-only"@ {
        SandboxMode::ReadOnly
    } else if name == "workspace-write"@ {
        SandboxMode::WorkspaceWrite
    } else {
        SandboxMode::DangerFullAccess
    }
}

/// The sandbox mode that the configuration calls `name`.
pub fn sandbox_mode(name: &str) -> (mode: SandboxMode)
    ensures
        mode == sandbox_mode_of(name@),
{
    if same_text(name, "read-only") {
        SandboxMode::ReadOnly
    } else if same_text(name, "workspace-write") {
        SandboxMode::WorkspaceWrite
    } else {
        SandboxMode::DangerFullAccess
    }
}

/// How a thread is set up.
#[derive(Debug)]
pub struct ThreadOptions {
    pub working_directory: String,
    pub skip_git_repo_check: bool,
    pub network_access_enabled: bool,
    pub web_search_enabled: bool,
    pub web_search_mode: WebSearchMode,
    pub dynamic_tools: Vec<DynamicToolSpec>,
    pub additional_directories: Vec<String>,
    pub model: Option<String>,
    pub approval_policy: ApprovalMode,
    pub sandbox_mode: SandboxMode,
}

/// The directories that Codex may use besides the working directory: that of
/// the attachments, then the configured ones.
pub open spec fn directories_of(config: AppConfig) -> Seq<Seq<char>> {
    seq![path_join(config.paths.cache_dir@, "attachments"@)] + texts_view(
        config.codex.additional_directories@,
    )
}

/// The directories that Codex may use besides the working directory.
pub fn additional_directories(config: &AppConfig) -> (directories: Vec<String>)
    ensures
        texts_view(directories@) == directories_of(*config),
{
    let mut directories: Vec<String> = Vec::new();
    directories.push(config.attachment_root());
    let extra = &config.codex.additional_directories;
    let mut i: usize = 0;
    while i < extra.len()
        invariant
            i <= extra.len(),
            directories@.len() == i + 1,
            directories@[0]@ == path_join(config.paths.cache_dir@, "attachments"@),
            forall|k: int| 0 <= k < i ==> (#[trigger] directories@[k + 1])@ == extra@[k]@,
        decreases extra.len() - i,
    {
        directories.push(extra[i].clone());
        i += 1;
    }
    assert forall|k: int| 0 <= k < directories@.len() implies (#[trigger] directories@[k])@
        == directories_of(*config)[k] by {
        if k > 0 {
            assert(directories@[(k - 1) + 1]@ == extra@[k - 1]@);
        }
    }
    assert(texts_view(directories@) =~= directories_of(*config));
    directories
}

/// How the threads of the gateway are set up.
pub fn base_thread_options(config: &AppConfig) -> (options: ThreadOptions)
    ensures
        options.working_directory@ == config.codex.working_directory@,
        options.skip_git_repo_check == config.codex.skip_git_repo_check,
        options.network_access_enabled == config.codex.network_access_enabled,
        options.web_search_enabled == config.codex.web_search_enabled,
        options.web_search_mode == WebSearchMode::Live,
        options.dynamic_tools@.len() == 2,
        is_media_tool(options.dynamic_tools@[0]),
        is_approval_tool(options.dynamic_tools@[1]),
        texts_view(options.additional_directories@) == directories_of(*config),
        opt_view(options.model) == opt_view(config.codex.model),
        options.approval_policy == approval_mode_of(config.codex.approval_policy@),
        options.sandbox_mode == sandbox_mode_of(config.codex.sandbox_mode@),
{
    let mut dynamic_tools: Vec<DynamicToolSpec> = Vec::new();
    dynamic_tools.push(telegram_send_media_tool_spec());
    dynamic_tools.push(telegram_request_approval_tool_spec());
    let model = match &config.codex.model {
        Some(model) => Some(model.clone()),
        None => None,
    };
    ThreadOptions {
        working_directory: config.codex.working_directory.clone(),
        skip_git_repo_check: config.codex.skip_git_repo_check,
        network_access_enabled: config.codex.network_access_enabled,
        web_search_enabled: config.codex.web_search_enabled,
        web_search_mode: WebSearchMode::Live,
        dynamic_tools,
        additional_directories: additional_directories(config),
        model,
        approval_policy: approval_mode(config.codex.approval_policy.as_str()),
        sandbox_mode: sandbox_mode(config.codex.sandbox_mode.as_str()),
    }
}

// ---------------------------------------------------------------------------
// Turns
// ---------------------------------------------------------------------------
/// What the server is told to start a turn.
#[derive(Debug)]
pub struct TurnStartParams {
    pub thread_id: String,
    pub input: Vec<TurnInputItem>,
    pub cwd: Option<String>,
    pub model: Option<String>,
    pub approval_policy: Option<String>,
    pub extra: serde_json::Map<String, serde_json::Value>,
}

/// The settings of a turn that go beyond the protocol's own.
pub open spec fn turn_settings(config: AppConfig) -> Map<Seq<char>, JsonView> {
    map![
        "skipGitRepoCheck"@ => JsonView::Bool(config.codex.skip_git_repo_check),
        "webSearchMode"@ => JsonView::Text("live"@),
        "webSearchEnabled"@ => JsonView::Bool(config.codex.web_search_enabled),
        "networkAccessEnabled"@ => JsonView::Bool(config.codex.network_access_enabled),
        "additionalDirectories"@ => text_array(directories_of(config)),
    ]
}

/// What the server is told to start a turn.
pub fn build_live_turn_start_params(config: &AppConfig, thread_id: &str, input: &Input) -> (params:
    TurnStartParams)
    ensures
        params.thread_id@ == thread_id@,
        turn_items_view(params.input@) == normal_input(input@),
        opt_view(params.cwd) == Some(config.codex.working_directory@),
        opt_view(params.model) == opt_view(config.codex.model),
        opt_view(params.approval_policy) == Some(
            approval_mode_name(approval_mode_of(config.codex.approval_policy@)),
        ),
        object_entries(params.extra) == turn_settings(*config),
{
    let mut extra = object_new();
    object_insert(&mut extra, "skipGitRepoCheck", bool_value(config.codex.skip_git_repo_check));
    object_insert(&mut extra, "webSearchMode", text_value("live"));
    object_insert(&mut extra, "webSearchEnabled", bool_value(config.codex.web_search_enabled));
    object_insert(
        &mut extra,
        "networkAccessEnabled",
        bool_value(config.codex.network_access_enabled),
    );
    let directories = additional_directories(config);
    object_insert(&mut extra, "additionalDirectories", texts_value(&directories));
    let model = match &config.codex.model {
        Some(model) => Some(model.clone()),
        None => None,
    };
    let policy = normalized_approval_policy(config.codex.approval_policy.as_str());
    TurnStartParams {
        thread_id: thread_id.to_string(),
        input: normalize_input_local(input),
        cwd: Some(config.codex.working_directory.clone()),
        model,
        approval_policy: Some(policy.to_string()),
        extra,
    }
}

/// What the server is told to steer a turn.
#[derive(Debug)]
pub struct TurnSteerParams {
    pub thread_id: String,
    pub input: Vec<TurnInputItem>,
    pub expected_turn_id: Option<String>,
}

/// What the server is told to steer a turn.
pub fn build_turn_steer_params(thread_id: &str, turn_id: &str, input: &Input) -> (params:
    TurnSteerParams)
    ensures
        params.thread_id@ == thread_id@,
        turn_items_view(params.input@) == normal_input(input@),
        opt_view(params.expected_turn_id) == Some(turn_id@),
{
    TurnSteerParams {
        thread_id: thread_id.to_string(),
        input: normalize_input_local(input),
        expected_turn_id: Some(turn_id.to_string()),
    }
}

} // verus!
