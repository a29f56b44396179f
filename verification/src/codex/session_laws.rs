//! What holds of sessions, and of how Codex is set up.
use vstd::prelude::*;

use crate::codex::input_laws::law_thread_names;
use crate::codex::options::{
    approval_mode_name, approval_mode_of, directories_of, sandbox_mode_of, turn_settings,
    ApprovalMode, SandboxMode,
};
use crate::codex::sessions::{
    ink_lines, newest_thread, orchestrator_step, session_index_place, session_thread,
    steer_step_of, with_turn, without_turn, ActiveChatTurnView, ActiveTurnsView,
    OrchestratorEventView, OrchestratorStepView, OrchestratorView, SessionIndexEntry, SteerPhase,
    SteerStepView, TurnStartView,
};
use crate::config::AppConfig;
use crate::json::JsonView;
use crate::paths::path_join;
use crate::text::{has_ink, trim};

verus! {

// ---------------------------------------------------------------------------
// The session index
// ---------------------------------------------------------------------------
/// Every line with something on it is kept, trimmed, in its place; a blank one
/// is left out.
pub proof fn law_index_lines(before: Seq<Seq<char>>, line: Seq<char>)
    ensures
        ink_lines(Seq::empty()) == Seq::<Seq<char>>::empty(),
        has_ink(line) ==> ink_lines(before.push(line)) == ink_lines(before).push(trim(line)),
        !has_ink(line) ==> ink_lines(before.push(line)) == ink_lines(before),
{
    assert(before.push(line).drop_last() =~= before);
}

/// The newest thread of a name is the last one listed under it.
pub proof fn law_newest_thread(entries: Seq<SessionIndexEntry>, name: Seq<char>) -> (at: int)
    ensures
        newest_thread(entries, name) is Some ==> {
            &&& 0 <= at < entries.len()
            &&& entries[at].thread_name@ == name
            &&& newest_thread(entries, name) == Some(entries[at].id@)
            &&& forall|i: int| at < i < entries.len() ==> (#[trigger] entries[i]).thread_name@ != name
        },
        newest_thread(entries, name) is None ==> !has_ink(name) || forall|i: int|
            0 <= i < entries.len() ==> (#[trigger] entries[i]).thread_name@ != name,
        !has_ink(name) ==> newest_thread(entries, name) is None,
    decreases entries.len(),
{
    if entries.len() == 0 {
        0
    } else {
        let rest = entries.drop_last();
        let at = law_newest_thread(rest, name);
        if entries.last().thread_name@ == name {
            entries.len() - 1
        } else {
            assert forall|i: int| 0 <= i < entries.len() - 1 implies entries[i] == rest[i] by {}
            at
        }
    }
}

/// A session goes on in the newest thread that bears its name. Only where there
/// is none, it goes on in the newest one that bears the name which the session
/// would have had before.
pub proof fn law_thread_of_a_session(
    entries: Seq<SessionIndexEntry>,
    key: Seq<char>,
    rest: Seq<char>,
)
    ensures
        newest_thread(entries, "session:"@ + key) matches Some(id) ==> session_thread(entries, key)
            == Some(id),
        newest_thread(entries, "session:"@ + key) is None && key == "telegram:default:"@ + rest
            ==> session_thread(entries, key) == newest_thread(entries, "telegram:"@ + rest),
        newest_thread(entries, "session:"@ + key) is None && !"telegram:default:"@.is_prefix_of(key)
            ==> session_thread(entries, key) is None,
{
    law_thread_names(key, rest);
}

/// The index lies in the home of Codex, which is in the user's home unless it is
/// set.
pub proof fn law_index_place(codex_home: Seq<char>, home: Option<Seq<char>>, dir: Seq<char>)
    ensures
        session_index_place(Some(codex_home), home) == Ok::<Seq<char>, Seq<char>>(
            path_join(codex_home, "session_index.jsonl"@),
        ),
        session_index_place(None, Some(dir)) == session_index_place(
            Some(path_join(dir, ".codex"@)),
            home,
        ),
        session_index_place(None, None) == Err::<Seq<char>, Seq<char>>(
            "failed to resolve home directory"@,
        ),
{
}

// ---------------------------------------------------------------------------
// Turns
// ---------------------------------------------------------------------------
/// A running turn that the server has named is steered by its name, one that it
/// has not named is waited for, and one that did not start is reported.
pub proof fn law_running_turns_are_steered(
    turn: ActiveChatTurnView,
    phase: SteerPhase,
    turn_id: Seq<char>,
    fault: Seq<char>,
)
    requires
        !turn.finished,
    ensures
        turn.start == TurnStartView::Ready(turn_id) ==> steer_step_of(turn, phase) == (
        SteerStepView::Send { thread_id: turn.thread_id, turn_id }),
        turn.start is Pending ==> steer_step_of(turn, phase) is Wait,
        turn.start == TurnStartView::Failed(fault) ==> steer_step_of(turn, phase)
            == SteerStepView::Fail(fault),
        steer_step_of(turn, phase) !is Skip,
        ({
            let over = ActiveChatTurnView { finished: true, ..turn };
            &&& steer_step_of(over, SteerPhase::Checking) is Skip
            &&& turn.start is Ready ==> steer_step_of(over, phase) is Skip
            &&& turn.start is Pending ==> steer_step_of(over, SteerPhase::Waiting) is Wait
            &&& turn.start == TurnStartView::Failed(fault) ==> steer_step_of(
                over,
                SteerPhase::Waiting,
            ) == SteerStepView::Fail(fault)
        }),
{
}

/// A turn that is started in a session is the one that runs there, under a
/// number of its own; other sessions are left alone.
pub proof fn law_started_turn_runs<H>(
    view: ActiveTurnsView<H>,
    key: Seq<char>,
    handle: H,
    other: Seq<char>,
    serial: u64,
)
    ensures
        ({
            let next = with_turn(view, key, handle);
            &&& next.turns.contains_key(key)
            &&& next.turns[key] == (view.next_serial, handle)
            &&& next.next_serial != view.next_serial
            &&& view.next_serial < u64::MAX ==> next.next_serial == view.next_serial + 1
            &&& view.next_serial == u64::MAX ==> next.next_serial == 0
            &&& other != key ==> {
                &&& next.turns.contains_key(other) == view.turns.contains_key(other)
                &&& view.turns.contains_key(other) ==> next.turns[other] == view.turns[other]
            }
        }),
        ({
            let next = without_turn(view, key, serial);
            &&& next.next_serial == view.next_serial
            &&& view.turns.contains_key(key) && view.turns[key].0 == serial
                ==> !next.turns.contains_key(key)
            &&& !view.turns.contains_key(key) ==> !next.turns.contains_key(key)
            &&& view.turns.contains_key(key) && view.turns[key].0 != serial
                ==> next.turns.contains_key(key) && next.turns[key] == view.turns[key]
            &&& other != key ==> {
                &&& next.turns.contains_key(other) == view.turns.contains_key(other)
                &&& view.turns.contains_key(other) ==> next.turns[other] == view.turns[other]
            }
        }),
{
}

// ---------------------------------------------------------------------------
// The orchestrator
// ---------------------------------------------------------------------------
/// An orchestrator that is asked for is left alone where it is at hand, taken up
/// again where its thread is known, and started only where it has none. Asking
/// alone changes nothing.
pub proof fn law_asking_for_the_orchestrator(state: OrchestratorView)
    ensures
        ({
            let (next, step) = orchestrator_step(state, OrchestratorEventView::Asked);
            &&& next == state
            &&& state.ready ==> step is Done
            &&& !state.ready ==> (state.thread_id matches Some(id) ==> step
                == OrchestratorStepView::Resume(id))
            &&& !state.ready && state.thread_id is None ==> step == OrchestratorStepView::Start(
                "You are the persistent top-level orchestrator for this Hooyodex service. Maintain long-lived orchestration context. Only create automations or cron-style tasks when explicitly requested."@,
            )
        }),
{
}

/// The thread of a new orchestrator is written down and kept; the orchestrator
/// is at hand once that is done, and no longer when Codex is started anew.
pub proof fn law_orchestrator_is_kept(state: OrchestratorView, id: Seq<char>)
    ensures
        orchestrator_step(state, OrchestratorEventView::Briefed(Some(id))) == (
            OrchestratorView { ready: state.ready, thread_id: Some(id) },
            OrchestratorStepView::Save(id),
        ),
        orchestrator_step(state, OrchestratorEventView::Briefed(None)) == (
            OrchestratorView { ready: true, thread_id: state.thread_id },
            OrchestratorStepView::Done,
        ),
        orchestrator_step(state, OrchestratorEventView::Saved) == (
            OrchestratorView { ready: true, thread_id: state.thread_id },
            OrchestratorStepView::Done,
        ),
        orchestrator_step(state, OrchestratorEventView::Resumed) == (
            OrchestratorView { ready: true, thread_id: state.thread_id },
            OrchestratorStepView::Done,
        ),
        orchestrator_step(state, OrchestratorEventView::RuntimeReplaced) == (
            OrchestratorView { ready: false, thread_id: state.thread_id },
            OrchestratorStepView::Done,
        ),
{
}

// ---------------------------------------------------------------------------
// Options
// ---------------------------------------------------------------------------
/// A mode is known by its name, and a name that is not known asks for nothing.
pub proof fn law_approval_modes(mode: ApprovalMode, policy: Seq<char>)
    ensures
        approval_mode_of(approval_mode_name(mode)) == mode,
        approval_mode_of("on-request"@) is OnRequest,
        approval_mode_of("on-failure"@) is OnFailure,
        approval_mode_of("untrusted"@) is Untrusted,
        policy != "on-request"@ && policy != "on-failure"@ && policy != "untrusted"@
            ==> approval_mode_of(policy) is Never,
        approval_mode_name(ApprovalMode::Never) == "never"@,
{
    reveal_strlit("on-request");
    reveal_strlit("on-failure");
    reveal_strlit("untrusted");
    reveal_strlit("never");
    assert("on-request"@[3] == 'r' && "on-failure"@[3] == 'f' && "untrusted"@[3] == 'r');
    assert("untrusted"@.len() == 9 && "on-request"@.len() == 10 && "never"@.len() == 5);
}

/// A sandbox is known by its name, and a name that is not known lifts it.
pub proof fn law_sandbox_modes(name: Seq<char>)
    ensures
        sandbox_mode_of("read-only"@) is ReadOnly,
        sandbox_mode_of("workspace-write"@) is WorkspaceWrite,
        sandbox_mode_of("danger-full-access"@) is DangerFullAccess,
        name != "read-only"@ && name != "workspace-write"@ ==> sandbox_mode_of(name)
            == SandboxMode::DangerFullAccess,
{
    reveal_strlit("read-only");
    reveal_strlit("workspace-write");
    reveal_strlit("danger-full-access");
    assert("read-only"@.len() == 9 && "workspace-write"@.len() == 15
        && "danger-full-access"@.len() == 18);
}

/// Besides the working directory Codex may use that of the attachments, and each
/// of the configured directories, in order.
pub proof fn law_directories(config: AppConfig, i: int)
    ensures
        directories_of(config).len() == config.codex.additional_directories@.len() + 1,
        directories_of(config)[0] == path_join(config.paths.cache_dir@, "attachments"@),
        0 <= i < config.codex.additional_directories@.len() ==> directories_of(config)[i + 1]
            == config.codex.additional_directories@[i]@,
{
}

/// The settings of a turn are those of the configuration.
pub proof fn law_turn_settings(config: AppConfig, i: int)
    ensures
        ({
            let settings = turn_settings(config);
            &&& forall|key: Seq<char>| #[trigger]
                settings.contains_key(key) <==> key == "skipGitRepoCheck"@ || key
                    == "webSearchMode"@ || key == "webSearchEnabled"@ || key
                    == "networkAccessEnabled"@ || key == "additionalDirectories"@
            &&& settings["skipGitRepoCheck"@] == JsonView::Bool(config.codex.skip_git_repo_check)
            &&& settings["webSearchMode"@] == JsonView::Text("live"@)
            &&& settings["webSearchEnabled"@] == JsonView::Bool(config.codex.web_search_enabled)
            &&& settings["networkAccessEnabled"@] == JsonView::Bool(
                config.codex.network_access_enabled,
            )
            &&& settings["additionalDirectories"@] matches JsonView::Array(items) && items.len()
                == config.codex.additional_directories@.len() + 1 && items[0] == JsonView::Text(
                path_join(config.paths.cache_dir@, "attachments"@),
            ) && (0 <= i < config.codex.additional_directories@.len() ==> items[i + 1]
                == JsonView::Text(config.codex.additional_directories@[i]@))
        }),
{
    reveal_strlit("skipGitRepoCheck");
    reveal_strlit("webSearchMode");
    reveal_strlit("webSearchEnabled");
    reveal_strlit("networkAccessEnabled");
    reveal_strlit("additionalDirectories");
    assert("skipGitRepoCheck"@.len() == 16 && "webSearchMode"@.len() == 13
        && "webSearchEnabled"@.len() == 16 && "networkAccessEnabled"@.len() == 20
        && "additionalDirectories"@.len() == 21);
    assert("skipGitRepoCheck"@[0] != "webSearchEnabled"@[0]);
}

} // verus!
