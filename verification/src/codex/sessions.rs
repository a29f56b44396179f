//! Sessions: which thread a chat has, and which turn runs in it.
use vstd::prelude::*;
use vstd::string::*;

use crate::codex::context::{
    chat_thread_name, legacy_name, legacy_telegram_thread_name, thread_name,
};
use crate::collections::{lists_values, TextMap};
use crate::paths::{join_path, path_join};
use crate::patterns::{lines, lines_of};
use crate::text::{
    chars_of, chars_view, has_ink, is_blank, is_white_space, lemma_cut_run, lemma_run_end_is,
    opt_view, same_text, string_of, texts_view, trim, trim_start, trimmed, white,
};
use crate::user_dirs::user_home_dir;

verus! {

// ---------------------------------------------------------------------------
// The session index
// ---------------------------------------------------------------------------
/// A thread and its name, as the session index of Codex lists them.
#[derive(Debug, Clone, PartialEq, Eq)]
pub struct SessionIndexEntry {
    pub id: String,
    pub thread_name: String,
}

/// The lines without surrounding white space, blank ones left out.
pub open spec fn ink_lines(ls: Seq<Seq<char>>) -> Seq<Seq<char>>
    decreases ls.len(),
{
    if ls.len() == 0 {
        seq![]
    } else if has_ink(ls.last()) {
        ink_lines(ls.drop_last()).push(trim(ls.last()))
    } else {
        ink_lines(ls.drop_last())
    }
}

/// The lines of the session index that hold an entry.
pub fn session_index_lines(raw: &str) -> (found: Vec<String>)
    ensures
        texts_view(found@) == ink_lines(lines(raw@)),
{
    let chars = chars_of(raw);
    let ls = lines_of(chars.as_slice());
    let ghost views = chars_view(ls@);
    let mut found: Vec<String> = Vec::new();
    let mut i: usize = 0;
    assert(views.take(0) =~= seq![]);
    assert(texts_view(found@) =~= seq![]);
    while i < ls.len()
        invariant
            i <= ls.len(),
            views == chars_view(ls@),
            texts_view(found@) == ink_lines(views.take(i as int)),
        decreases ls.len() - i,
    {
        let ghost before = texts_view(found@);
        assert(views.take(i + 1).drop_last() =~= views.take(i as int));
        let line = trimmed(ls[i].as_slice());
        if line.len() > 0 {
            found.push(string_of(line));
            assert(texts_view(found@) =~= before.push(line@));
        }
        i += 1;
    }
    assert(views.take(i as int) =~= views);
    found
}

/// The newest thread, which is the last one, with the name `name`.
pub open spec fn newest_thread(entries: Seq<SessionIndexEntry>, name: Seq<char>) -> Option<Seq<char>>
    decreases entries.len(),
{
    if entries.len() == 0 || !has_ink(name) {
        None
    } else if entries.last().thread_name@ == name {
        Some(entries.last().id@)
    } else {
        newest_thread(entries.drop_last(), name)
    }
}

/// The newest thread with the name `thread_name`.
pub fn find_thread_id_in_session_index(
    entries: &Vec<SessionIndexEntry>,
    thread_name: &str,
) -> (found: Option<String>)
    ensures
        opt_view(found) == newest_thread(entries@, thread_name@),
{
    if is_blank(thread_name) {
        return None;
    }
    let mut found: Option<String> = None;
    let mut i: usize = 0;
    while i < entries.len()
        invariant
            i <= entries.len(),
            has_ink(thread_name@),
            opt_view(found) == newest_thread(entries@.take(i as int), thread_name@),
        decreases entries.len() - i,
    {
        assert(entries@.take(i + 1).drop_last() =~= entries@.take(i as int));
        if same_text(entries[i].thread_name.as_str(), thread_name) {
            found = Some(entries[i].id.clone());
        }
        i += 1;
    }
    assert(entries@.take(i as int) =~= entries@);
    found
}

/// The thread of a session: the newest one with its name, or else the newest
/// one with the name that it had before.
pub open spec fn session_thread(entries: Seq<SessionIndexEntry>, key: Seq<char>) -> Option<Seq<char>> {
    match newest_thread(entries, thread_name(key)) {
        Some(id) => Some(id),
        None => match legacy_name(key) {
            Some(name) => newest_thread(entries, name),
            None => None,
        },
    }
}

/// The thread of a session.
pub fn find_chat_thread_id_by_name(entries: &Vec<SessionIndexEntry>, key: &str) -> (found: Option<
    String,
>)
    ensures
        opt_view(found) == session_thread(entries@, key@),
{
    let name = chat_thread_name(key);
    if let Some(id) = find_thread_id_in_session_index(entries, name.as_str()) {
        return Some(id);
    }
    match legacy_telegram_thread_name(key) {
        Some(legacy) => find_thread_id_in_session_index(entries, legacy.as_str()),
        None => None,
    }
}

/// The name of a session's thread is not blank.
proof fn lemma_thread_name_has_ink(key: Seq<char>)
    ensures
        has_ink(thread_name(key)),
{
    reveal_strlit("session:");
    let name = thread_name(key);
    assert(!is_white_space(name[0]));
    lemma_run_end_is(name, 0, white(), 0);
    assert(trim_start(name) =~= name);
    lemma_cut_run(name, white());
    if trim(name).len() == 0 {
        assert(white()(name[0]));
    }
}

/// A thread that is listed under the name of a session is found again as its
/// thread: a session keeps the thread that was started for it.
pub proof fn law_named_thread_is_found(
    entries: Seq<SessionIndexEntry>,
    key: Seq<char>,
    entry: SessionIndexEntry,
)
    requires
        entry.thread_name@ == thread_name(key),
    ensures
        session_thread(entries.push(entry), key) == Some(entry.id@),
{
    lemma_thread_name_has_ink(key);
}

/// Threads that are listed under other names do not change which thread a
/// session has.
pub proof fn law_other_threads_change_nothing(
    entries: Seq<SessionIndexEntry>,
    key: Seq<char>,
    entry: SessionIndexEntry,
)
    requires
        entry.thread_name@ != thread_name(key),
        legacy_name(key) != Some(entry.thread_name@),
    ensures
        session_thread(entries.push(entry), key) == session_thread(entries, key),
{
    assert(entries.push(entry).drop_last() =~= entries);
}

/// Where Codex keeps the session index, given its home and the user's home.
pub open spec fn session_index_place(codex_home: Option<Seq<char>>, home: Option<Seq<char>>) -> Result<
    Seq<char>,
    Seq<char>,
> {
    match (codex_home, home) {
        (Some(dir), _) => Ok(path_join(dir, "session_index.jsonl"@)),
        (None, Some(dir)) => Ok(path_join(path_join(dir, ".codex"@), "session_index.jsonl"@)),
        (None, None) => Err("failed to resolve home directory"@),
    }
}

/// Where Codex keeps the session index, given its home and the user's home.
pub fn session_index_path(codex_home: &Option<String>, home: &Option<String>) -> (path: Result<
    String,
    String,
>)
    ensures
        match path {
            Ok(found) => session_index_place(opt_view(*codex_home), opt_view(*home)) == Ok::<
                Seq<char>,
                Seq<char>,
            >(found@),
            Err(message) => session_index_place(opt_view(*codex_home), opt_view(*home)) == Err::<
                Seq<char>,
                Seq<char>,
            >(message@),
        },
{
    if let Some(dir) = codex_home {
        return Ok(join_path(dir.as_str(), "session_index.jsonl"));
    }
    match home {
        Some(dir) => {
            let own = join_path(dir.as_str(), ".codex");
            Ok(join_path(own.as_str(), "session_index.jsonl"))
        },
        None => Err("failed to resolve home directory".to_string()),
    }
}

/// Where Codex keeps the session index, given its home if that is set.
pub fn codex_session_index_path(codex_home: &Option<String>) -> (path: Result<String, String>)
    ensures
        exists|home: Option<Seq<char>>|
            match path {
                Ok(found) => #[trigger] session_index_place(opt_view(*codex_home), home) == Ok::<
                    Seq<char>,
                    Seq<char>,
                >(found@),
                Err(message) => session_index_place(opt_view(*codex_home), home) == Err::<
                    Seq<char>,
                    Seq<char>,
                >(message@),
            },
{
    let home = user_home_dir();
    let path = session_index_path(codex_home, &home);
    assert(match path {
        Ok(found) => session_index_place(opt_view(*codex_home), opt_view(home)) == Ok::<
            Seq<char>,
            Seq<char>,
        >(found@),
        Err(message) => session_index_place(opt_view(*codex_home), opt_view(home)) == Err::<
            Seq<char>,
            Seq<char>,
        >(message@),
    });
    path
}

// ---------------------------------------------------------------------------
// Opening threads
// ---------------------------------------------------------------------------
/// How the thread of a session is come by.
#[derive(Debug, Clone, PartialEq, Eq)]
pub enum ThreadOpening {
    /// The thread is at hand.
    Cached,
    /// The thread with this id is taken up again.
    Resume(String),
    /// A new thread is started and given this name.
    StartNamed(String),
}

/// How the thread of a session is come by: one that is at hand before one that
/// the index lists before a new one.
pub fn open_chat_thread(cached: bool, entries: &Vec<SessionIndexEntry>, key: &str) -> (opening:
    ThreadOpening)
    ensures
        match opening {
            ThreadOpening::Cached => cached,
            ThreadOpening::Resume(id) => !cached && session_thread(entries@, key@) == Some(id@),
            ThreadOpening::StartNamed(name) => !cached && session_thread(entries@, key@) is None
                && name@ == thread_name(key@),
        },
{
    if cached {
        return ThreadOpening::Cached;
    }
    match find_chat_thread_id_by_name(entries, key) {
        Some(id) => ThreadOpening::Resume(id),
        None => ThreadOpening::StartNamed(chat_thread_name(key)),
    }
}

/// What makes sure that a thread has an id before a turn starts in it.
#[derive(Debug, Clone, PartialEq, Eq)]
pub enum IdentityStep {
    /// The thread has none yet: naming it gives it one.
    AssignName(String),
    /// The thread has one: it is read.
    Read,
}

/// What makes sure that a thread has an id.
pub fn chat_thread_identity_step(has_id: bool, key: &str) -> (step: IdentityStep)
    ensures
        match step {
            IdentityStep::AssignName(name) => !has_id && name@ == thread_name(key@),
            IdentityStep::Read => has_id,
        },
{
    if has_id {
        IdentityStep::Read
    } else {
        IdentityStep::AssignName(chat_thread_name(key))
    }
}

/// The id of a thread after the attempt to name it.
pub fn named_thread_id(named: Result<(), String>, id: Option<String>) -> (found: Result<
    String,
    String,
>)
    ensures
        match (named, id) {
            (Err(message), _) => found matches Err(error) && error@ == message@,
            (Ok(()), Some(known)) => found matches Ok(given) && given@ == known@,
            (Ok(()), None) => found matches Err(error) && error@
                == "thread id unavailable after naming"@,
        },
{
    match named {
        Err(message) => Err(message),
        Ok(()) => match id {
            Some(known) => Ok(known),
            None => Err("thread id unavailable after naming".to_string()),
        },
    }
}

/// The id of a thread after the attempt to read it. A thread that cannot be
/// read is not used, whatever id it has.
pub fn prepare_live_thread(read: Result<(), String>, id: Option<String>) -> (found: Result<
    String,
    String,
>)
    ensures
        match (read, id) {
            (Err(message), _) => found matches Err(error) && error@ == message@,
            (Ok(()), Some(known)) => found matches Ok(given) && given@ == known@,
            (Ok(()), None) => found matches Err(error) && error@
                == "thread id unavailable after start/resume"@,
        },
{
    match read {
        Err(message) => Err(message),
        Ok(()) => match id {
            Some(known) => Ok(known),
            None => Err("thread id unavailable after start/resume".to_string()),
        },
    }
}

// ---------------------------------------------------------------------------
// The orchestrator
// ---------------------------------------------------------------------------
/// What a new orchestrator is told.
pub open spec fn orchestrator_brief() -> Seq<char> {
    "You are the persistent top-level orchestrator for this Hooyodex service. Maintain long-lived orchestration context. Only create automations or cron-style tasks when explicitly requested."@
}

/// The orchestrator's thread: whether it is at hand, and its id, if it has one.
#[derive(Debug)]
pub struct Orchestrator {
    ready: bool,
    thread_id: Option<String>,
}

/// `Orchestrator` as a mathematical value.
#[verifier::ext_equal]
pub struct OrchestratorView {
    pub ready: bool,
    pub thread_id: Option<Seq<char>>,
}

impl View for Orchestrator {
    type V = OrchestratorView;

    closed spec fn view(&self) -> OrchestratorView {
        OrchestratorView { ready: self.ready, thread_id: opt_view(self.thread_id) }
    }
}

/// What happens to the orchestrator. Work that fails is no event.
#[derive(Debug, Clone, PartialEq, Eq)]
pub enum OrchestratorEvent {
    /// The orchestrator is asked for.
    Asked,
    /// Its thread was taken up again.
    Resumed,
    /// A new thread was told what it is for, and has this id, if any.
    Briefed(Option<String>),
    /// The id was written down.
    Saved,
    /// Codex was started anew: the thread is no longer at hand.
    RuntimeReplaced,
}

/// `OrchestratorEvent` as a mathematical value.
#[verifier::ext_equal]
pub enum OrchestratorEventView {
    Asked,
    Resumed,
    Briefed(Option<Seq<char>>),
    Saved,
    RuntimeReplaced,
}

impl View for OrchestratorEvent {
    type V = OrchestratorEventView;

    open spec fn view(&self) -> OrchestratorEventView {
        match *self {
            OrchestratorEvent::Asked => OrchestratorEventView::Asked,
            OrchestratorEvent::Resumed => OrchestratorEventView::Resumed,
            OrchestratorEvent::Briefed(id) => OrchestratorEventView::Briefed(opt_view(id)),
            OrchestratorEvent::Saved => OrchestratorEventView::Saved,
            OrchestratorEvent::RuntimeReplaced => OrchestratorEventView::RuntimeReplaced,
        }
    }
}

/// What is to be done next.
#[derive(Debug, Clone, PartialEq, Eq)]
pub enum OrchestratorStep {
    /// Nothing.
    Done,
    /// The thread with this id is taken up again.
    Resume(String),
    /// A new thread is started and told this.
    Start(String),
    /// This id is written down as the orchestrator's.
    Save(String),
}

/// `OrchestratorStep` as a mathematical value.
#[verifier::ext_equal]
pub enum OrchestratorStepView {
    Done,
    Resume(Seq<char>),
    Start(Seq<char>),
    Save(Seq<char>),
}

impl View for OrchestratorStep {
    type V = OrchestratorStepView;

    open spec fn view(&self) -> OrchestratorStepView {
        match *self {
            OrchestratorStep::Done => OrchestratorStepView::Done,
            OrchestratorStep::Resume(id) => OrchestratorStepView::Resume(id@),
            OrchestratorStep::Start(brief) => OrchestratorStepView::Start(brief@),
            OrchestratorStep::Save(id) => OrchestratorStepView::Save(id@),
        }
    }
}

/// The orchestrator after an event, and what is to be done next. A thread that
/// is at hand is left alone, one that is known is taken up again, and only
/// where there is none a new one is started. It is at hand once its id, if it
/// has one, is written down.
pub open spec fn orchestrator_step(state: OrchestratorView, event: OrchestratorEventView) -> (
    OrchestratorView,
    OrchestratorStepView,
) {
    match event {
        OrchestratorEventView::Asked => (
            state,
            if state.ready {
                OrchestratorStepView::Done
            } else {
                match state.thread_id {
                    Some(id) => OrchestratorStepView::Resume(id),
                    None => OrchestratorStepView::Start(orchestrator_brief()),
                }
            },
        ),
        OrchestratorEventView::Briefed(Some(id)) => (
            OrchestratorView { thread_id: Some(id), ..state },
            OrchestratorStepView::Save(id),
        ),
        OrchestratorEventView::Resumed
        | OrchestratorEventView::Briefed(None)
        | OrchestratorEventView::Saved => (
            OrchestratorView { ready: true, ..state },
            OrchestratorStepView::Done,
        ),
        OrchestratorEventView::RuntimeReplaced => (
            OrchestratorView { ready: false, ..state },
            OrchestratorStepView::Done,
        ),
    }
}

impl Orchestrator {
    /// The orchestrator whose thread has the id `thread_id`, as far as is known,
    /// and is not at hand.
    pub fn new(thread_id: Option<String>) -> (orchestrator: Self)
        ensures
            orchestrator@ == (OrchestratorView { ready: false, thread_id: opt_view(thread_id) }),
    {
        Orchestrator { ready: false, thread_id }
    }

    /// What is to be done after an event.
    pub fn step(&mut self, event: OrchestratorEvent) -> (step: OrchestratorStep)
        ensures
            (final(self)@, step@) == orchestrator_step(old(self)@, event@),
    {
        match event {
            OrchestratorEvent::Asked => {
                if self.ready {
                    return OrchestratorStep::Done;
                }
                match &self.thread_id {
                    Some(id) => OrchestratorStep::Resume(id.clone()),
                    None => OrchestratorStep::Start(
                        "You are the persistent top-level orchestrator for this Hooyodex service. Maintain long-lived orchestration context. Only create automations or cron-style tasks when explicitly requested.".to_string(),
                    ),
                }
            },
            OrchestratorEvent::Briefed(Some(id)) => {
                self.thread_id = Some(id.clone());
                OrchestratorStep::Save(id)
            },
            OrchestratorEvent::Resumed
            | OrchestratorEvent::Briefed(None)
            | OrchestratorEvent::Saved => {
                self.ready = true;
                OrchestratorStep::Done
            },
            OrchestratorEvent::RuntimeReplaced => {
                self.ready = false;
                OrchestratorStep::Done
            },
        }
    }
}

/// The orchestrator after it was asked for and all that was to be done
/// succeeded. A new thread, if there is one, has the id `given`.
pub open spec fn ensured(state: OrchestratorView, given: Option<Seq<char>>) -> OrchestratorView {
    let (asked, step) = orchestrator_step(state, OrchestratorEventView::Asked);
    match step {
        OrchestratorStepView::Resume(_) => orchestrator_step(
            asked,
            OrchestratorEventView::Resumed,
        ).0,
        OrchestratorStepView::Start(_) => {
            let (briefed, step) = orchestrator_step(asked, OrchestratorEventView::Briefed(given));
            match step {
                OrchestratorStepView::Save(_) => orchestrator_step(
                    briefed,
                    OrchestratorEventView::Saved,
                ).0,
                _ => briefed,
            }
        },
        _ => asked,
    }
}

/// Once the orchestrator was asked for with success, asking again starts,
/// resumes and runs nothing, and its thread stays the same.
pub proof fn law_one_orchestrator(
    state: OrchestratorView,
    given: Option<Seq<char>>,
    given_later: Option<Seq<char>>,
)
    ensures
        orchestrator_step(ensured(state, given), OrchestratorEventView::Asked) == (
            ensured(state, given),
            OrchestratorStepView::Done,
        ),
        ensured(ensured(state, given), given_later) == ensured(state, given),
{
}

/// However Codex is started anew, an orchestrator with a thread keeps it: the
/// thread is taken up again, and none is started.
pub proof fn law_orchestrator_outlives_codex(state: OrchestratorView, given: Option<Seq<char>>)
    requires
        state.thread_id is Some,
    ensures
        ({
            let (lost, _) = orchestrator_step(state, OrchestratorEventView::RuntimeReplaced);
            &&& orchestrator_step(lost, OrchestratorEventView::Asked).1
                == OrchestratorStepView::Resume(state.thread_id->0)
            &&& ensured(lost, given) == (OrchestratorView { ready: true, ..state })
        }),
{
}

// ---------------------------------------------------------------------------
// A running turn
// ---------------------------------------------------------------------------
/// Whether the server has answered the request to start a turn.
#[derive(Debug, Clone, PartialEq, Eq)]
pub enum TurnStartState {
    Pending,
    Ready(String),
    Failed(String),
}

/// `TurnStartState` as a mathematical value.
#[verifier::ext_equal]
pub enum TurnStartView {
    Pending,
    Ready(Seq<char>),
    Failed(Seq<char>),
}

impl View for TurnStartState {
    type V = TurnStartView;

    open spec fn view(&self) -> TurnStartView {
        match *self {
            TurnStartState::Pending => TurnStartView::Pending,
            TurnStartState::Ready(turn_id) => TurnStartView::Ready(turn_id@),
            TurnStartState::Failed(message) => TurnStartView::Failed(message@),
        }
    }
}

/// A turn that runs in a chat's thread.
#[derive(Debug)]
pub struct ActiveChatTurn {
    thread_id: String,
    start_state: TurnStartState,
    finished: bool,
}

/// `ActiveChatTurn` as a mathematical value.
#[verifier::ext_equal]
pub struct ActiveChatTurnView {
    pub thread_id: Seq<char>,
    pub start: TurnStartView,
    pub finished: bool,
}

impl View for ActiveChatTurn {
    type V = ActiveChatTurnView;

    closed spec fn view(&self) -> ActiveChatTurnView {
        ActiveChatTurnView {
            thread_id: self.thread_id@,
            start: self.start_state@,
            finished: self.finished,
        }
    }
}

/// How far an attempt to steer has come.
#[derive(Debug, Clone, Copy, PartialEq, Eq, Structural)]
pub enum SteerPhase {
    Checking,
    Waiting,
}

/// What an attempt to steer does next.
#[derive(Debug, Clone, PartialEq, Eq)]
pub enum SteerStep {
    /// The turn is over: there is nothing to steer.
    Skip,
    /// The turn has no id yet: wait until that changes.
    Wait,
    /// Steer this turn of this thread.
    Send { thread_id: String, turn_id: String },
    /// The turn did not start.
    Fail(String),
}

/// `SteerStep` as a mathematical value.
#[verifier::ext_equal]
pub enum SteerStepView {
    Skip,
    Wait,
    Send { thread_id: Seq<char>, turn_id: Seq<char> },
    Fail(Seq<char>),
}

impl View for SteerStep {
    type V = SteerStepView;

    open spec fn view(&self) -> SteerStepView {
        match *self {
            SteerStep::Skip => SteerStepView::Skip,
            SteerStep::Wait => SteerStepView::Wait,
            SteerStep::Send { thread_id, turn_id } => SteerStepView::Send {
                thread_id: thread_id@,
                turn_id: turn_id@,
            },
            SteerStep::Fail(message) => SteerStepView::Fail(message@),
        }
    }
}

/// What an attempt to steer `turn` does next. A turn that is over when the
/// attempt begins, or when its id is known, is left alone.
pub open spec fn steer_step_of(turn: ActiveChatTurnView, phase: SteerPhase) -> SteerStepView {
    if phase == SteerPhase::Checking && turn.finished {
        SteerStepView::Skip
    } else {
        match turn.start {
            TurnStartView::Pending => SteerStepView::Wait,
            TurnStartView::Failed(message) => SteerStepView::Fail(message),
            TurnStartView::Ready(turn_id) => if turn.finished {
                SteerStepView::Skip
            } else {
                SteerStepView::Send { thread_id: turn.thread_id, turn_id }
            },
        }
    }
}

impl ActiveChatTurn {
    /// A turn of the thread `thread_id` that was asked for.
    pub fn new(thread_id: String) -> (turn: Self)
        ensures
            turn@ == (ActiveChatTurnView {
                thread_id: thread_id@,
                start: TurnStartView::Pending,
                finished: false,
            }),
    {
        ActiveChatTurn { thread_id, start_state: TurnStartState::Pending, finished: false }
    }

    /// The server answered the request to start the turn.
    pub fn publish_turn_start(&mut self, result: Result<String, String>)
        ensures
            final(self)@ == (ActiveChatTurnView {
                start: match result {
                    Ok(turn_id) => TurnStartView::Ready(turn_id@),
                    Err(message) => TurnStartView::Failed(message@),
                },
                ..old(self)@
            }),
    {
        self.start_state = match result {
            Ok(turn_id) => TurnStartState::Ready(turn_id),
            Err(message) => TurnStartState::Failed(message),
        };
    }

    /// The id of the turn, once the server has answered; nothing before that.
    pub fn turn_id_if_known(&self) -> (known: Option<Result<String, String>>)
        ensures
            match known {
                None => self@.start is Pending,
                Some(Ok(turn_id)) => self@.start == TurnStartView::Ready(turn_id@),
                Some(Err(message)) => self@.start == TurnStartView::Failed(message@),
            },
    {
        match &self.start_state {
            TurnStartState::Pending => None,
            TurnStartState::Ready(turn_id) => Some(Ok(turn_id.clone())),
            TurnStartState::Failed(message) => Some(Err(message.clone())),
        }
    }

    /// The turn is over.
    pub fn mark_finished(&mut self)
        ensures
            final(self)@ == (ActiveChatTurnView { finished: true, ..old(self)@ }),
    {
        self.finished = true;
    }

    /// Whether the turn is over.
    pub fn is_finished(&self) -> (yes: bool)
        ensures
            yes == self@.finished,
    {
        self.finished
    }

    /// What an attempt to steer the turn does next.
    pub fn steer_step(&self, phase: SteerPhase) -> (step: SteerStep)
        ensures
            step@ == steer_step_of(self@, phase),
    {
        if phase == SteerPhase::Checking && self.finished {
            return SteerStep::Skip;
        }
        match &self.start_state {
            TurnStartState::Pending => SteerStep::Wait,
            TurnStartState::Failed(message) => SteerStep::Fail(message.clone()),
            TurnStartState::Ready(turn_id) => if self.finished {
                SteerStep::Skip
            } else {
                SteerStep::Send {
                    thread_id: self.thread_id.clone(),
                    turn_id: turn_id.clone(),
                }
            },
        }
    }
}

/// A turn that is over is never steered, and nothing is steered before the
/// server has named the turn.
pub proof fn law_only_running_turns_are_steered(turn: ActiveChatTurnView, phase: SteerPhase)
    ensures
        steer_step_of(turn, phase) is Send ==> !turn.finished && turn.start is Ready,
        steer_step_of(turn, phase) matches SteerStepView::Send { thread_id, turn_id }
            ==> thread_id == turn.thread_id && turn.start == TurnStartView::Ready(turn_id),
{
}

// ---------------------------------------------------------------------------
// The running turns of all chats
// ---------------------------------------------------------------------------
/// The running turns, one for each session at most. Each is known by a serial
/// number and a handle.
pub struct ActiveTurns<H> {
    turns: TextMap<(u64, H)>,
    next_serial: u64,
}

/// `ActiveTurns` as a mathematical value.
#[verifier::ext_equal]
pub struct ActiveTurnsView<H> {
    pub turns: Map<Seq<char>, (u64, H)>,
    pub next_serial: u64,
}

impl<H> View for ActiveTurns<H> {
    type V = ActiveTurnsView<H>;

    closed spec fn view(&self) -> ActiveTurnsView<H> {
        ActiveTurnsView { turns: self.turns@, next_serial: self.next_serial }
    }
}

/// The number after `serial`; after the last one the numbers start again.
pub open spec fn serial_after(serial: u64) -> u64 {
    if serial == u64::MAX {
        0
    } else {
        (serial + 1) as u64
    }
}

/// The turns after one more was started in the session `key`.
pub open spec fn with_turn<H>(view: ActiveTurnsView<H>, key: Seq<char>, handle: H) -> ActiveTurnsView<
    H,
> {
    ActiveTurnsView {
        turns: view.turns.insert(key, (view.next_serial, handle)),
        next_serial: serial_after(view.next_serial),
    }
}

/// The turns after the one with the number `serial` is over. A turn that has
/// taken its place in the session `key` stays.
pub open spec fn without_turn<H>(
    view: ActiveTurnsView<H>,
    key: Seq<char>,
    serial: u64,
) -> ActiveTurnsView<H> {
    ActiveTurnsView {
        turns: if view.turns.contains_key(key) && view.turns[key].0 == serial {
            view.turns.remove(key)
        } else {
            view.turns
        },
        next_serial: view.next_serial,
    }
}

/// A turn that takes the place of another stays when the other is over, and
/// goes when it is over itself.
pub proof fn law_newer_turn_stays<H>(
    view: ActiveTurnsView<H>,
    key: Seq<char>,
    older: H,
    newer: H,
)
    ensures
        ({
            let one = with_turn(view, key, older);
            let two = with_turn(one, key, newer);
            &&& without_turn(two, key, view.next_serial) == two
            &&& !without_turn(two, key, one.next_serial).turns.contains_key(key)
        }),
{
}

impl<H> ActiveTurns<H> {
    /// No turn runs.
    pub fn new() -> (turns: Self)
        ensures
            turns@ == (ActiveTurnsView { turns: Map::<Seq<char>, (u64, H)>::empty(), next_serial: 0 }),
    {
        ActiveTurns { turns: TextMap::new(), next_serial: 0 }
    }

    /// A turn runs in the session `key`, in place of one that ran there.
    pub fn insert(&mut self, key: &str, handle: H) -> (serial: u64)
        ensures
            serial == old(self)@.next_serial,
            final(self)@ == with_turn(old(self)@, key@, handle),
    {
        let serial = self.next_serial;
        self.turns.insert(key.to_string(), (serial, handle));
        self.next_serial = if serial == u64::MAX {
            0
        } else {
            serial + 1
        };
        serial
    }

    /// The turn that runs in the session `key`.
    pub fn current_active_turn(&self, key: &str) -> (turn: Option<&(u64, H)>)
        ensures
            match turn {
                Some(found) => self@.turns.contains_key(key@) && *found == self@.turns[key@],
                None => !self@.turns.contains_key(key@),
            },
    {
        self.turns.get(key)
    }

    /// The turn with the number `serial` no longer runs in the session `key`.
    /// A turn that has taken its place stays.
    pub fn remove_active_turn(&mut self, key: &str, serial: u64)
        ensures
            final(self)@ == without_turn(old(self)@, key@, serial),
    {
        let current = match self.turns.get(key) {
            Some(found) => found.0 == serial,
            None => false,
        };
        if current {
            self.turns.remove(key);
        }
    }

    /// Whatever turn runs in the session `key` is forgotten.
    pub fn forget(&mut self, key: &str)
        ensures
            final(self)@ == (ActiveTurnsView {
                turns: old(self)@.turns.remove(key@),
                next_serial: old(self)@.next_serial,
            }),
    {
        self.turns.remove(key);
    }

    /// Forgets all turns, and hands them out.
    pub fn take_all(&mut self) -> (turns: Vec<(u64, H)>)
        ensures
            final(self)@ == (ActiveTurnsView {
                turns: Map::<Seq<char>, (u64, H)>::empty(),
                next_serial: old(self)@.next_serial,
            }),
            lists_values(old(self)@.turns, turns@),
    {
        self.turns.take_values()
    }
}

// ---------------------------------------------------------------------------
// A message for a session
// ---------------------------------------------------------------------------
/// What is done with a message for a session.
#[derive(Debug, Clone, Copy, PartialEq, Eq, Structural)]
pub enum MessageStep {
    /// It steers the turn that runs.
    Steer,
    /// The turn that ran is over: it is forgotten, and the message looked at
    /// again.
    ForgetTurn,
    /// No turn runs: the thread is opened.
    OpenThread,
    /// The thread is open and no turn runs in it: a turn is started.
    StartTurn,
}

/// What is done with a message before its thread is open: `active` tells
/// whether a turn runs in the session, and whether that is over.
pub fn message_step_before_thread(active: Option<bool>) -> (step: MessageStep)
    ensures
        step == match active {
            None => MessageStep::OpenThread,
            Some(true) => MessageStep::ForgetTurn,
            Some(false) => MessageStep::Steer,
        },
{
    match active {
        None => MessageStep::OpenThread,
        Some(finished) => if finished {
            MessageStep::ForgetTurn
        } else {
            MessageStep::Steer
        },
    }
}

/// What is done with a message once its thread is open: a turn that was
/// started meanwhile is steered.
pub fn message_step_in_thread(active: bool) -> (step: MessageStep)
    ensures
        step == if active {
            MessageStep::Steer
        } else {
            MessageStep::StartTurn
        },
{
    if active {
        MessageStep::Steer
    } else {
        MessageStep::StartTurn
    }
}

} // verus!
