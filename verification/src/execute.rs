//! Running a plugin: the steps of the daemon, and those of the process that it
//! forks for the plugin. The steps are decided here and carried out elsewhere.

use crate::bytes::{faithful, lossy_text, utf8_lossy};
use crate::dispatch::{
    change_run, change_runs, entry_change_runs, event_runs, lemma_run_of_entry, ChangedPathView,
    FileEventKind, PluginRun, PluginRunView,
};
use crate::event::EventView;
use crate::gather::lemma_gathered_contains;
use crate::plugin::{manifest_path, manifest_path_of, PluginEntries};
use crate::text::{copy_option, opt_text, same_text, trim, trimmed};
use vstd::prelude::*;

verus! {

/// The shell command that writes the current slot of the system to a file.
pub const SLOT_COMMAND: &'static str =
    "readarray -t CURRENT_SLOT < <(obsidianctl status | grep \"Slot\" | awk '{print $NF}' | tail -n +2) && echo $CURRENT_SLOT > /tmp/slot.tmp";

/// The file that the current slot is written to.
pub const SLOT_FILE: &'static str = "/tmp/slot.tmp";

/// A plugin for `slot` runs in the slot that the slot file gives: any plugin
/// for no slot or for both, and one for a single slot in that slot.
pub open spec fn slot_allows(slot: Seq<char>, slot_file: Seq<char>) -> bool {
    slot.len() == 0 || slot == "AB"@ || slot == trimmed(slot_file)
}

/// Does a plugin for `slot` run in the slot that the slot file gives?
pub fn runs_in_slot(slot: &str, slot_file: &str) -> (r: bool)
    ensures
        r == slot_allows(slot@, slot_file@),
{
    slot.is_empty() || same_text(slot, "AB") || same_text(slot, trim(slot_file))
}

/// The user that a plugin runs as: for `@` the user who asked for the run, if
/// one did, for `#` the superuser, and else the user that is named. Without a
/// name it is the user of the daemon.
pub open spec fn user_for(run_as: Seq<char>, ctl_user: Option<Seq<char>>) -> Option<Seq<char>> {
    if run_as == "@"@ {
        ctl_user
    } else if run_as == "#"@ {
        Some("root"@)
    } else if run_as.len() > 0 {
        Some(run_as)
    } else {
        None
    }
}

/// The user that a plugin runs as.
pub fn target_user(run_as: &str, ctl_user: &Option<String>) -> (r: Option<String>)
    ensures
        opt_text(r) == user_for(run_as@, opt_text(*ctl_user)),
{
    if same_text(run_as, "@") {
        copy_option(ctl_user)
    } else if same_text(run_as, "#") {
        Some("root".to_string())
    } else if !run_as.is_empty() {
        Some(run_as.to_string())
    } else {
        None
    }
}

/// How a plugin is started: the shell command, the user to become, if any, and
/// what is put in the environment.
pub struct LaunchPlan {
    pub command: String,
    pub target_user: Option<String>,
    pub environment: Vec<(String, String)>,
}

/// How a plugin is started, as a plain value.
#[verifier::ext_equal]
pub struct LaunchPlanView {
    pub command: Seq<char>,
    pub target_user: Option<Seq<char>>,
    pub environment: Seq<(Seq<char>, Seq<char>)>,
}

impl View for LaunchPlan {
    type V = LaunchPlanView;

    open spec fn view(&self) -> LaunchPlanView {
        LaunchPlanView {
            command: self.command@,
            target_user: opt_text(self.target_user),
            environment: self.environment@.map_values(|e: (String, String)| (e.0@, e.1@)),
        }
    }
}

/// What is put in the environment: the name of the event, and its data if it
/// has any.
pub open spec fn environment_for(event_name: Seq<char>, event_data: Option<Seq<char>>) -> Seq<
    (Seq<char>, Seq<char>),
> {
    match event_data {
        Some(data) => seq![("EVENT_NAME"@, event_name), ("EVENT_RETURN"@, data)],
        None => seq![("EVENT_NAME"@, event_name)],
    }
}

/// How a plugin with this manifest is started.
pub open spec fn plan_for(run: PluginRunView, manifest: Seq<char>) -> LaunchPlanView {
    LaunchPlanView {
        command: "source "@ + manifest + " && main"@,
        target_user: user_for(run.plugin.run_as, run.ctl_user),
        environment: environment_for(run.event_name, run.event_data),
    }
}

/// How a plugin with this manifest is started.
pub fn launch_plan(run: &PluginRun, manifest: &str) -> (r: LaunchPlan)
    ensures
        r@ == plan_for(run@, manifest@),
{
    let mut command: String = "source ".to_string();
    command.append(manifest);
    command.append(" && main");
    let mut environment: Vec<(String, String)> = Vec::new();
    environment.push(("EVENT_NAME".to_string(), run.event_name.clone()));
    if let Some(data) = &run.event_data {
        environment.push(("EVENT_RETURN".to_string(), data.clone()));
    }
    let r = LaunchPlan {
        command,
        target_user: target_user(run.plugin.run_as.as_str(), &run.ctl_user),
        environment,
    };
    assert(r@.environment =~= environment_for(run@.event_name, run@.event_data));
    r
}

/// Why a run failed.
#[derive(Clone, Copy)]
pub enum ExecError {
    /// The current slot could not be found out.
    NoSlot,
    /// The plugin's process could not be forked.
    NotForked,
    /// The plugin's process ended with a status other than zero.
    Failed,
    /// The plugin's process was ended by a signal.
    Signaled,
    /// The plugin's process stopped in another way.
    Abnormal,
    /// A system call or a file failed on the way.
    Outside,
}

/// What is said of a run that failed, unless the system says it.
pub open spec fn message_of(error: ExecError) -> Option<Seq<char>> {
    match error {
        ExecError::NoSlot => Some("failed to get current slot"@),
        ExecError::NotForked => Some("failed to fork process"@),
        ExecError::Failed => Some("plugin execution failed"@),
        ExecError::Signaled => Some("plugin terminated by signal"@),
        ExecError::Abnormal => Some("plugin process abnormal termination"@),
        ExecError::Outside => None,
    }
}

/// What is said of a run that failed, unless the system says it.
pub fn error_message(error: ExecError) -> (r: Option<&'static str>)
    ensures
        r is Some <==> message_of(error) is Some,
        r is Some ==> r->0@ == message_of(error)->0,
{
    match error {
        ExecError::NoSlot => Some("failed to get current slot"),
        ExecError::NotForked => Some("failed to fork process"),
        ExecError::Failed => Some("plugin execution failed"),
        ExecError::Signaled => Some("plugin terminated by signal"),
        ExecError::Abnormal => Some("plugin process abnormal termination"),
        ExecError::Outside => None,
    }
}

/// How a process ended.
#[derive(Clone, Copy)]
pub enum WaitOutcome {
    Exited(i32),
    Signaled,
    Other,
}

/// What comes of a run whose process ended in this way.
pub open spec fn result_of(outcome: WaitOutcome) -> Result<(), ExecError> {
    match outcome {
        WaitOutcome::Exited(status) => if status == 0 {
            Ok(())
        } else {
            Err(ExecError::Failed)
        },
        WaitOutcome::Signaled => Err(ExecError::Signaled),
        WaitOutcome::Other => Err(ExecError::Abnormal),
    }
}

/// How far a run has come.
#[derive(Clone, Copy)]
pub enum Phase {
    /// The slot command runs.
    AskingSlot,
    /// The slot file is read.
    ReadingSlot,
    /// The plugin's process is forked.
    Forking,
    /// The plugin's process is waited for.
    Waiting,
    /// The run is over.
    Finished,
}

/// What the daemon does next.
pub enum Action {
    /// Run the slot command.
    AskSlot,
    /// Read the slot file.
    ReadSlot,
    /// Fork a process that starts the plugin so.
    Fork(LaunchPlan),
    /// Wait for the process.
    Wait,
    /// The run is over.
    Finish(Result<(), ExecError>),
}

/// What the daemon does next, as a plain value.
pub enum ActionView {
    AskSlot,
    ReadSlot,
    Fork(LaunchPlanView),
    Wait,
    Finish(Result<(), ExecError>),
}

impl View for Action {
    type V = ActionView;

    open spec fn view(&self) -> ActionView {
        match self {
            Action::AskSlot => ActionView::AskSlot,
            Action::ReadSlot => ActionView::ReadSlot,
            Action::Fork(plan) => ActionView::Fork(plan@),
            Action::Wait => ActionView::Wait,
            Action::Finish(result) => ActionView::Finish(*result),
        }
    }
}

/// What became of the last action.
pub enum Input {
    /// The slot command ran, successfully or not.
    SlotAsked(bool),
    /// The slot file holds this.
    SlotRead(String),
    /// The process was forked.
    Forked,
    /// The process could not be forked.
    NotForked,
    /// The process ended.
    Ended(WaitOutcome),
    /// The action could not be carried out.
    Broken,
}

/// What became of the last action, as a plain value.
pub enum InputView {
    SlotAsked(bool),
    SlotRead(Seq<char>),
    Forked,
    NotForked,
    Ended(WaitOutcome),
    Broken,
}

impl View for Input {
    type V = InputView;

    open spec fn view(&self) -> InputView {
        match self {
            Input::SlotAsked(success) => InputView::SlotAsked(*success),
            Input::SlotRead(text) => InputView::SlotRead(text@),
            Input::Forked => InputView::Forked,
            Input::NotForked => InputView::NotForked,
            Input::Ended(outcome) => InputView::Ended(*outcome),
            Input::Broken => InputView::Broken,
        }
    }
}

/// An input is one that the action of this phase can have.
pub open spec fn awaits(phase: Phase, input: InputView) -> bool {
    match input {
        InputView::SlotAsked(_) => phase is AskingSlot,
        InputView::SlotRead(_) => phase is ReadingSlot,
        InputView::Forked => phase is Forking,
        InputView::NotForked => phase is Forking,
        InputView::Ended(_) => phase is Waiting,
        InputView::Broken => phase is AskingSlot || phase is ReadingSlot || phase is Waiting,
    }
}

/// The next action of a run, whose manifest has this path. A plugin for another
/// slot is passed over without an error.
pub open spec fn next_action(run: PluginRunView, manifest: Seq<char>, input: InputView) -> ActionView {
    match input {
        InputView::SlotAsked(success) => if success {
            ActionView::ReadSlot
        } else {
            ActionView::Finish(Err(ExecError::NoSlot))
        },
        InputView::SlotRead(text) => if slot_allows(run.plugin.slot, text) {
            ActionView::Fork(plan_for(run, manifest))
        } else {
            ActionView::Finish(Ok(()))
        },
        InputView::Forked => ActionView::Wait,
        InputView::NotForked => ActionView::Finish(Err(ExecError::NotForked)),
        InputView::Ended(outcome) => ActionView::Finish(result_of(outcome)),
        InputView::Broken => ActionView::Finish(Err(ExecError::Outside)),
    }
}

/// The phase in which an action is carried out.
pub open spec fn phase_of(action: ActionView) -> Phase {
    match action {
        ActionView::AskSlot => Phase::AskingSlot,
        ActionView::ReadSlot => Phase::ReadingSlot,
        ActionView::Fork(_) => Phase::Forking,
        ActionView::Wait => Phase::Waiting,
        ActionView::Finish(_) => Phase::Finished,
    }
}

/// A run under way.
pub struct Execution {
    pub run: PluginRun,
    pub phase: Phase,
}

/// The next action of a run, whose manifest has this path.
pub fn decide(run: &PluginRun, manifest: &str, input: Input) -> (r: Action)
    ensures
        r@ == next_action(run@, manifest@, input@),
{
    match input {
        Input::SlotAsked(success) => if success {
            Action::ReadSlot
        } else {
            Action::Finish(Err(ExecError::NoSlot))
        },
        Input::SlotRead(text) => if runs_in_slot(run.plugin.slot.as_str(), text.as_str()) {
            Action::Fork(launch_plan(run, manifest))
        } else {
            Action::Finish(Ok(()))
        },
        Input::Forked => Action::Wait,
        Input::NotForked => Action::Finish(Err(ExecError::NotForked)),
        Input::Ended(outcome) => Action::Finish(
            match outcome {
                WaitOutcome::Exited(status) => if status == 0 {
                    Ok(())
                } else {
                    Err(ExecError::Failed)
                },
                WaitOutcome::Signaled => Err(ExecError::Signaled),
                WaitOutcome::Other => Err(ExecError::Abnormal),
            },
        ),
        Input::Broken => Action::Finish(Err(ExecError::Outside)),
    }
}

impl Execution {
    /// Begins a run: the first action is to ask for the slot.
    pub fn start(run: PluginRun) -> (r: (Execution, Action))
        ensures
            r.0.run@ == run@,
            r.1@ == ActionView::AskSlot,
            r.0.phase == phase_of(r.1@),
    {
        (Execution { run, phase: Phase::AskingSlot }, Action::AskSlot)
    }

    /// Takes in what became of the last action, and gives the next.
    pub fn step(&mut self, input: Input) -> (r: Action)
        requires
            awaits(old(self).phase, input@),
        ensures
            final(self).run == old(self).run,
            r@ == next_action(
                old(self).run@,
                utf8_lossy(manifest_path_of(old(self).run@.plugin.path)),
                input@,
            ),
            final(self).phase == phase_of(r@),
            faithful(manifest_path_of(old(self).run@.plugin.path)),
    {
        let manifest: String = lossy_text(manifest_path(self.run.plugin.path.as_slice()).as_slice());
        let action: Action = decide(&self.run, manifest.as_str(), input);
        self.phase = match &action {
            Action::AskSlot => Phase::AskingSlot,
            Action::ReadSlot => Phase::ReadingSlot,
            Action::Fork(_) => Phase::Forking,
            Action::Wait => Phase::Waiting,
            Action::Finish(_) => Phase::Finished,
        };
        action
    }
}

/// How far the plugin's process has come before it hands over to the shell.
#[derive(Clone, Copy)]
pub enum ChildPhase {
    /// The user is looked up.
    LookingUp,
    /// The group is set; the user is to follow.
    SettingGid(u32),
    /// The user is set.
    SettingUid,
    /// The command runs.
    Running,
    /// The process ends.
    Ending,
}

/// What the plugin's process does next.
pub enum ChildAction {
    /// Look up this user.
    LookUp(String),
    /// Set the group.
    SetGid(u32),
    /// Set the user.
    SetUid(u32),
    /// Run the command.
    Run,
    /// End with this status.
    Exit(i32),
}

/// What the plugin's process does next, as a plain value.
pub enum ChildActionView {
    LookUp(Seq<char>),
    SetGid(u32),
    SetUid(u32),
    Run,
    Exit(i32),
}

impl View for ChildAction {
    type V = ChildActionView;

    open spec fn view(&self) -> ChildActionView {
        match self {
            ChildAction::LookUp(name) => ChildActionView::LookUp(name@),
            ChildAction::SetGid(gid) => ChildActionView::SetGid(*gid),
            ChildAction::SetUid(uid) => ChildActionView::SetUid(*uid),
            ChildAction::Run => ChildActionView::Run,
            ChildAction::Exit(status) => ChildActionView::Exit(*status),
        }
    }
}

/// What became of the last action of the plugin's process.
#[derive(Clone, Copy)]
pub enum ChildInput {
    /// The user has these numbers.
    Found { uid: u32, gid: u32 },
    /// There is no such user.
    Missing,
    /// The group was set, or not.
    GidSet(bool),
    /// The user was set, or not.
    UidSet(bool),
    /// The command ended: successfully or not, and with this status, unless a
    /// signal ended it.
    Ended { success: bool, status: Option<i32> },
}

/// An input is one that the action of this phase can have.
pub open spec fn child_awaits(phase: ChildPhase, input: ChildInput) -> bool {
    match input {
        ChildInput::Found { .. } => phase is LookingUp,
        ChildInput::Missing => phase is LookingUp,
        ChildInput::GidSet(_) => phase is SettingGid,
        ChildInput::UidSet(_) => phase is SettingUid,
        ChildInput::Ended { .. } => phase is Running,
    }
}

/// The first step of the plugin's process: to look up the user that it is to
/// become, or else to run the command.
pub open spec fn first_child_step(target_user: Option<Seq<char>>) -> (ChildPhase, ChildActionView) {
    match target_user {
        Some(name) => (ChildPhase::LookingUp, ChildActionView::LookUp(name)),
        None => (ChildPhase::Running, ChildActionView::Run),
    }
}

/// The status with which the process ends after its command.
pub open spec fn exit_status(success: bool, status: Option<i32>) -> i32 {
    if success {
        0
    } else {
        match status {
            Some(s) => s,
            None => 1,
        }
    }
}

/// The next step of the plugin's process. The group is set before the user,
/// after which it could not be. Where either fails the process ends; where the
/// user is unknown the command runs as the daemon's user.
pub open spec fn next_child_step(phase: ChildPhase, input: ChildInput) -> (
    ChildPhase,
    ChildActionView,
) {
    match input {
        ChildInput::Found { uid, gid } => (
            ChildPhase::SettingGid(uid),
            ChildActionView::SetGid(gid),
        ),
        ChildInput::Missing => (ChildPhase::Running, ChildActionView::Run),
        ChildInput::GidSet(done) => if done {
            (ChildPhase::SettingUid, ChildActionView::SetUid(phase->SettingGid_0))
        } else {
            (ChildPhase::Ending, ChildActionView::Exit(1))
        },
        ChildInput::UidSet(done) => if done {
            (ChildPhase::Running, ChildActionView::Run)
        } else {
            (ChildPhase::Ending, ChildActionView::Exit(1))
        },
        ChildInput::Ended { success, status } => (
            ChildPhase::Ending,
            ChildActionView::Exit(exit_status(success, status)),
        ),
    }
}

/// Begins the work of the plugin's process.
pub fn start_child(target_user: &Option<String>) -> (r: (ChildPhase, ChildAction))
    ensures
        (r.0, r.1@) == first_child_step(opt_text(*target_user)),
{
    match target_user {
        Some(name) => (ChildPhase::LookingUp, ChildAction::LookUp(name.clone())),
        None => (ChildPhase::Running, ChildAction::Run),
    }
}

/// Takes in what became of the last action of the plugin's process, and gives
/// the next.
pub fn step_child(phase: ChildPhase, input: ChildInput) -> (r: (ChildPhase, ChildAction))
    requires
        child_awaits(phase, input),
    ensures
        (r.0, r.1@) == next_child_step(phase, input),
{
    match (phase, input) {
        (_, ChildInput::Found { uid, gid }) => (
            ChildPhase::SettingGid(uid),
            ChildAction::SetGid(gid),
        ),
        (_, ChildInput::Missing) => (ChildPhase::Running, ChildAction::Run),
        (ChildPhase::SettingGid(uid), ChildInput::GidSet(true)) => (
            ChildPhase::SettingUid,
            ChildAction::SetUid(uid),
        ),
        (_, ChildInput::UidSet(true)) => (ChildPhase::Running, ChildAction::Run),
        (_, ChildInput::Ended { success, status }) => {
            let code: i32 = if success {
                0
            } else {
                match status {
                    Some(s) => s,
                    None => 1,
                }
            };
            (ChildPhase::Ending, ChildAction::Exit(code))
        },
        (_, _) => (ChildPhase::Ending, ChildAction::Exit(1)),
    }
}

/// A plugin for no slot or for both slots runs whatever the slot is, and one
/// for a single slot runs only in it.
pub proof fn law_slots(run: PluginRunView, manifest: Seq<char>, slot_file: Seq<char>)
    ensures
        run.plugin.slot == "AB"@ || run.plugin.slot.len() == 0 ==> next_action(
            run,
            manifest,
            InputView::SlotRead(slot_file),
        ) == ActionView::Fork(plan_for(run, manifest)),
        run.plugin.slot != "AB"@ && run.plugin.slot.len() > 0 ==> (next_action(
            run,
            manifest,
            InputView::SlotRead(slot_file),
        ) == ActionView::Fork(plan_for(run, manifest)) <==> trimmed(slot_file) == run.plugin.slot),
        !slot_allows(run.plugin.slot, slot_file) ==> next_action(
            run,
            manifest,
            InputView::SlotRead(slot_file),
        ) == ActionView::Finish(Ok(())),
{
}

/// What becomes of the actions of a run, whichever of them come up; `None` for
/// one that could not be carried out.
pub struct Answers {
    pub asked: Option<bool>,
    pub slot_file: Option<Seq<char>>,
    pub forked: bool,
    pub outcome: Option<WaitOutcome>,
}

/// What becomes of an action.
pub open spec fn answer_to(action: ActionView, answers: Answers) -> InputView {
    match action {
        ActionView::AskSlot => match answers.asked {
            Some(success) => InputView::SlotAsked(success),
            None => InputView::Broken,
        },
        ActionView::ReadSlot => match answers.slot_file {
            Some(text) => InputView::SlotRead(text),
            None => InputView::Broken,
        },
        ActionView::Fork(_) => if answers.forked {
            InputView::Forked
        } else {
            InputView::NotForked
        },
        ActionView::Wait => match answers.outcome {
            Some(outcome) => InputView::Ended(outcome),
            None => InputView::Broken,
        },
        ActionView::Finish(_) => InputView::Broken,
    }
}

/// The action that a run has come to after `count` more actions, or the last.
pub open spec fn played(
    run: PluginRunView,
    manifest: Seq<char>,
    action: ActionView,
    answers: Answers,
    count: nat,
) -> ActionView
    decreases count,
{
    if count == 0 || action is Finish {
        action
    } else {
        let next = next_action(run, manifest, answer_to(action, answers));
        played(run, manifest, next, answers, (count - 1) as nat)
    }
}

/// What comes of a run of a plugin for this slot.
pub open spec fn run_result(slot: Seq<char>, answers: Answers) -> Result<(), ExecError> {
    match (answers.asked, answers.slot_file) {
        (None, _) => Err(ExecError::Outside),
        (Some(false), _) => Err(ExecError::NoSlot),
        (Some(true), None) => Err(ExecError::Outside),
        (Some(true), Some(text)) => if !slot_allows(slot, text) {
            Ok(())
        } else if !answers.forked {
            Err(ExecError::NotForked)
        } else {
            match answers.outcome {
                Some(outcome) => result_of(outcome),
                None => Err(ExecError::Outside),
            }
        },
    }
}

/// Every input that comes of an action is one that its phase awaits, and after
/// four actions at most the run is over, with a result that depends on the slot
/// of the plugin and on what became of the actions alone.
pub proof fn law_run_ends(
    run: PluginRunView,
    manifest: Seq<char>,
    action: ActionView,
    answers: Answers,
)
    ensures
        !(action is Finish) ==> awaits(phase_of(action), answer_to(action, answers)),
        played(run, manifest, ActionView::AskSlot, answers, 4) == ActionView::Finish(
            run_result(run.plugin.slot, answers),
        ),
{
    reveal_with_fuel(played, 5);
}

/// A plugin is told the event that it is run for: the name, and the data if the
/// event has any.
pub proof fn law_plugin_is_told_its_event(
    entries: PluginEntries,
    event: EventView,
    ctl_user: Option<Seq<char>>,
    i: int,
    manifest: Seq<char>,
)
    requires
        0 <= i < event_runs(entries, event, ctl_user).len(),
    ensures
        plan_for(event_runs(entries, event, ctl_user)[i], manifest).environment == environment_for(
            event.name,
            event.data,
        ),
{
    let k = lemma_run_of_entry(entries, event, ctl_user, i);
}

/// A plugin that runs as the user who asks becomes that user, also where an
/// event is asked for that runs several plugins.
pub proof fn law_asking_user_is_taken(
    entries: PluginEntries,
    event: EventView,
    ctl_user: Seq<char>,
    i: int,
    manifest: Seq<char>,
)
    requires
        0 <= i < event_runs(entries, event, Some(ctl_user)).len(),
        event_runs(entries, event, Some(ctl_user))[i].plugin.run_as == "@"@,
    ensures
        plan_for(event_runs(entries, event, Some(ctl_user))[i], manifest).target_user == Some(
            ctl_user,
        ),
{
    let k = lemma_run_of_entry(entries, event, Some(ctl_user), i);
}

/// A plugin that is run for a changed path is told a path that changed.
pub proof fn law_plugin_is_told_its_path(
    entries: PluginEntries,
    kind: FileEventKind,
    changes: Seq<ChangedPathView>,
    i: int,
    manifest: Seq<char>,
)
    requires
        0 <= i < change_runs(entries, kind, changes).len(),
    ensures
        exists|k: int|
            0 <= k < changes.len() && plan_for(
                change_runs(entries, kind, changes)[i],
                manifest,
            ).environment == environment_for(
                change_runs(entries, kind, changes)[i].event_name,
                Some((#[trigger] changes[k]).shown),
            ),
{
    let runs = change_runs(entries, kind, changes);
    let f = entry_change_runs(kind, changes);
    assert(runs.contains(runs[i]));
    lemma_gathered_contains(entries, f, runs[i]);
    let e = choose|e: int| 0 <= e < entries.len() && (#[trigger] f(entries[e])).contains(runs[i]);
    let g = change_run(entries[e].1, kind);
    lemma_gathered_contains(changes, g, runs[i]);
    let k = choose|k: int| 0 <= k < changes.len() && (#[trigger] g(changes[k])).contains(runs[i]);
    assert(runs[i] == g(changes[k])[0]);
    assert(changes[k].shown == runs[i].event_data->0);
}

/// Whatever becomes of an action, the run goes on to a later phase, so that it
/// is over after four actions at most; a process is forked only after the slot
/// was read.
pub proof fn law_run_goes_forward(
    run: PluginRunView,
    manifest: Seq<char>,
    phase: Phase,
    input: InputView,
)
    requires
        awaits(phase, input),
    ensures
        phase_rank(phase) < phase_rank(phase_of(next_action(run, manifest, input))) <= 4,
        next_action(run, manifest, input) is Fork ==> phase is ReadingSlot,
        next_action(run, manifest, input) is Wait ==> phase is Forking,
{
}

/// The phases in order.
pub open spec fn phase_rank(phase: Phase) -> int {
    match phase {
        Phase::AskingSlot => 0,
        Phase::ReadingSlot => 1,
        Phase::Forking => 2,
        Phase::Waiting => 3,
        Phase::Finished => 4,
    }
}

/// The command of a plugin that is to run as a user who is known runs only
/// after first the group and then the user have been set; where one of them
/// cannot be set, the process ends with an error and the command does not run.
pub proof fn law_user_before_command(name: Seq<char>, uid: u32, gid: u32, gid_set: bool, uid_set: bool)
    ensures
        ({
            let (p0, a0) = first_child_step(Some(name));
            let (p1, a1) = next_child_step(p0, ChildInput::Found { uid, gid });
            let (p2, a2) = next_child_step(p1, ChildInput::GidSet(gid_set));
            let (p3, a3) = next_child_step(p2, ChildInput::UidSet(uid_set));
            &&& a0 == ChildActionView::LookUp(name) && child_awaits(
                p0,
                ChildInput::Found { uid, gid },
            )
            &&& a1 == ChildActionView::SetGid(gid) && child_awaits(p1, ChildInput::GidSet(gid_set))
            &&& !gid_set ==> a2 == ChildActionView::Exit(1) && p2 == ChildPhase::Ending
            &&& gid_set ==> a2 == ChildActionView::SetUid(uid) && child_awaits(
                p2,
                ChildInput::UidSet(uid_set),
            )
            &&& gid_set && !uid_set ==> a3 == ChildActionView::Exit(1) && p3 == ChildPhase::Ending
            &&& gid_set && uid_set ==> a3 == ChildActionView::Run && p3 == ChildPhase::Running
        }),
{
}

/// Where the plugin's command succeeds the run does, and where the command
/// fails, be it by a status or by a signal, the run fails.
pub proof fn law_failure_is_reported(success: bool, status: Option<i32>)
    requires
        !success ==> status != Some(0i32),
    ensures
        result_of(WaitOutcome::Exited(exit_status(success, status))) is Ok <==> success,
{
}

/// A plugin without a user to run as, one whose run nobody asked for, and one
/// whose user is unknown runs as the daemon's user: no user and no group is
/// set for it.
pub proof fn law_daemon_user(run_as: Seq<char>)
    requires
        run_as.len() == 0 || run_as == "@"@,
    ensures
        user_for(run_as, None) == None::<Seq<char>>,
        first_child_step(None).1 == ChildActionView::Run,
        next_child_step(ChildPhase::LookingUp, ChildInput::Missing).1 == ChildActionView::Run,
{
    reveal_strlit("@");
    reveal_strlit("#");
}

/// Who a plugin runs as: for `@` the user who asked, if one did; for `#` the
/// superuser; for any other name that user; and for none the daemon's user. Only
/// for `@` does it matter who asked, and whether anybody did.
pub proof fn law_run_as(run_as: Seq<char>, ctl_user: Option<Seq<char>>, other: Option<Seq<char>>)
    ensures
        user_for("@"@, ctl_user) == ctl_user,
        user_for("#"@, ctl_user) == Some("root"@),
        user_for(Seq::empty(), ctl_user) == None::<Seq<char>>,
        run_as.len() > 0 && run_as != "@"@ && run_as != "#"@ ==> user_for(run_as, ctl_user) == Some(
            run_as,
        ),
        run_as != "@"@ ==> user_for(run_as, ctl_user) == user_for(run_as, other),
{
    reveal_strlit("@");
    reveal_strlit("#");
    assert("@"@[0] == '@' && "#"@[0] == '#');
}

/// How a run is started: the shell sources the manifest and calls `main`, as the
/// user of the plugin's choice, with the name of the event in the environment
/// and its data where it has any, and nothing else.
pub proof fn law_launch(run: PluginRunView, manifest: Seq<char>)
    ensures
        ({
            let plan = plan_for(run, manifest);
            &&& plan.command == "source "@ + manifest + " && main"@
            &&& plan.target_user == user_for(run.plugin.run_as, run.ctl_user)
            &&& plan.environment.len() >= 1 && plan.environment[0] == (
                "EVENT_NAME"@,
                run.event_name,
            )
            &&& run.event_data is None ==> plan.environment.len() == 1
            &&& run.event_data is Some ==> plan.environment.len() == 2 && plan.environment[1] == (
                "EVENT_RETURN"@,
                run.event_data->0,
            )
        }),
{
}

/// What follows on what became of an action, for every run.
pub proof fn law_actions(
    run: PluginRunView,
    manifest: Seq<char>,
    slot_file: Seq<char>,
    status: i32,
)
    ensures
        next_action(run, manifest, InputView::SlotAsked(true)) == ActionView::ReadSlot,
        next_action(run, manifest, InputView::SlotAsked(false)) == ActionView::Finish(
            Err(ExecError::NoSlot),
        ),
        run.plugin.slot.len() == 0 || run.plugin.slot == "AB"@ || run.plugin.slot == trimmed(
            slot_file,
        ) ==> next_action(run, manifest, InputView::SlotRead(slot_file)) == ActionView::Fork(
            plan_for(run, manifest),
        ),
        run.plugin.slot.len() > 0 && run.plugin.slot != "AB"@ && run.plugin.slot != trimmed(
            slot_file,
        ) ==> next_action(run, manifest, InputView::SlotRead(slot_file)) == ActionView::Finish(
            Ok(()),
        ),
        next_action(run, manifest, InputView::Forked) == ActionView::Wait,
        next_action(run, manifest, InputView::NotForked) == ActionView::Finish(
            Err(ExecError::NotForked),
        ),
        next_action(run, manifest, InputView::Ended(WaitOutcome::Exited(0))) == ActionView::Finish(
            Ok(()),
        ),
        status != 0 ==> next_action(run, manifest, InputView::Ended(WaitOutcome::Exited(status)))
            == ActionView::Finish(Err(ExecError::Failed)),
        next_action(run, manifest, InputView::Ended(WaitOutcome::Signaled)) == ActionView::Finish(
            Err(ExecError::Signaled),
        ),
        next_action(run, manifest, InputView::Ended(WaitOutcome::Other)) == ActionView::Finish(
            Err(ExecError::Abnormal),
        ),
        next_action(run, manifest, InputView::Broken) == ActionView::Finish(
            Err(ExecError::Outside),
        ),
        phase_of(ActionView::AskSlot) == Phase::AskingSlot,
        phase_of(ActionView::ReadSlot) == Phase::ReadingSlot,
        phase_of(ActionView::Fork(plan_for(run, manifest))) == Phase::Forking,
        phase_of(ActionView::Wait) == Phase::Waiting,
        phase_of(ActionView::Finish(Ok(()))) == Phase::Finished,
{
}

/// Each failure of the daemon's own has its message, and what the system says of
/// a failed call is left to the system.
pub proof fn law_messages()
    ensures
        message_of(ExecError::NoSlot) == Some("failed to get current slot"@),
        message_of(ExecError::NotForked) == Some("failed to fork process"@),
        message_of(ExecError::Failed) == Some("plugin execution failed"@),
        message_of(ExecError::Signaled) == Some("plugin terminated by signal"@),
        message_of(ExecError::Abnormal) == Some("plugin process abnormal termination"@),
        message_of(ExecError::Outside) is None,
{
}

/// The steps of the plugin's process: without a user it runs its command at once;
/// with one it looks the user up, and sets the group and then the user that it
/// found. A user that is not known is passed over, and a group or user that
/// cannot be set ends the process with status one. The status of the command is
/// that of the process, and one where a signal ended the command.
pub proof fn law_child_steps(name: Seq<char>, uid: u32, gid: u32, status: i32)
    ensures
        first_child_step(None) == (ChildPhase::Running, ChildActionView::Run),
        first_child_step(Some(name)) == (ChildPhase::LookingUp, ChildActionView::LookUp(name)),
        next_child_step(ChildPhase::LookingUp, ChildInput::Found { uid, gid }) == (
            ChildPhase::SettingGid(uid),
            ChildActionView::SetGid(gid),
        ),
        next_child_step(ChildPhase::LookingUp, ChildInput::Missing) == (
            ChildPhase::Running,
            ChildActionView::Run,
        ),
        next_child_step(ChildPhase::SettingGid(uid), ChildInput::GidSet(true)) == (
            ChildPhase::SettingUid,
            ChildActionView::SetUid(uid),
        ),
        next_child_step(ChildPhase::SettingGid(uid), ChildInput::GidSet(false)) == (
            ChildPhase::Ending,
            ChildActionView::Exit(1),
        ),
        next_child_step(ChildPhase::SettingUid, ChildInput::UidSet(true)) == (
            ChildPhase::Running,
            ChildActionView::Run,
        ),
        next_child_step(ChildPhase::SettingUid, ChildInput::UidSet(false)) == (
            ChildPhase::Ending,
            ChildActionView::Exit(1),
        ),
        next_child_step(
            ChildPhase::Running,
            ChildInput::Ended { success: true, status: Some(status) },
        ) == (ChildPhase::Ending, ChildActionView::Exit(0)),
        next_child_step(
            ChildPhase::Running,
            ChildInput::Ended { success: false, status: Some(status) },
        ) == (ChildPhase::Ending, ChildActionView::Exit(status)),
        next_child_step(
            ChildPhase::Running,
            ChildInput::Ended { success: false, status: None },
        ) == (ChildPhase::Ending, ChildActionView::Exit(1)),
{
}

/// The slot is asked for by a shell command that writes it to a file, and is read
/// from that file.
pub proof fn law_slot_command()
    ensures
        SLOT_FILE@ == "/tmp/slot.tmp"@,
        SLOT_COMMAND@
            == "readarray -t CURRENT_SLOT < <(obsidianctl status | grep \"Slot\" | awk '{print $NF}' | tail -n +2) && echo $CURRENT_SLOT > /tmp/slot.tmp"@,
{
}

} // verus!
