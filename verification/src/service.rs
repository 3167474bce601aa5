//! The background services: whether they are in order, and how they are put in order.
use vstd::prelude::*;
use vstd::string::StringExecFns;

use crate::escape;
use crate::escape::{applescript_string, shell_quote};
use crate::path;
use crate::path::{join_path, parent_path};
use crate::text;
use crate::text::str_eq;

verus! {

pub const CONTROLLER_LABEL: &'static str = "com.evren.nosleeptilldone";

pub const WATCHDOG_LABEL: &'static str = "com.evren.nosleeptilldone.watchdog";

pub const LEGACY_CONTROLLER_LABEL: &'static str = "com.evren.lidsleep-delay";

pub const LEGACY_WATCHDOG_LABEL: &'static str = "com.evren.lidsleep-delay-watchdog";

/// The state of the background services.
#[derive(Debug, Eq, PartialEq)]
pub enum ServiceStatus {
    Missing,
    /// Something is wrong, for a reason.
    RepairRequired(String),
    UpdateRequired,
    Installing,
    Ready,
    /// The state is not known, for a reason.
    Error(String),
}

/// What a status holds.
#[verifier::ext_equal]
pub enum StatusModel {
    Missing,
    RepairRequired(Seq<char>),
    UpdateRequired,
    Installing,
    Ready,
    Error(Seq<char>),
}

impl View for ServiceStatus {
    type V = StatusModel;

    open spec fn view(&self) -> StatusModel {
        match *self {
            ServiceStatus::Missing => StatusModel::Missing,
            ServiceStatus::RepairRequired(reason) => StatusModel::RepairRequired(reason@),
            ServiceStatus::UpdateRequired => StatusModel::UpdateRequired,
            ServiceStatus::Installing => StatusModel::Installing,
            ServiceStatus::Ready => StatusModel::Ready,
            ServiceStatus::Error(reason) => StatusModel::Error(reason@),
        }
    }
}

impl Clone for ServiceStatus {
    fn clone(&self) -> (r: Self)
        ensures
            r@ == self@,
    {
        match self {
            ServiceStatus::Missing => ServiceStatus::Missing,
            ServiceStatus::RepairRequired(reason) => ServiceStatus::RepairRequired(reason.clone()),
            ServiceStatus::UpdateRequired => ServiceStatus::UpdateRequired,
            ServiceStatus::Installing => ServiceStatus::Installing,
            ServiceStatus::Ready => ServiceStatus::Ready,
            ServiceStatus::Error(reason) => ServiceStatus::Error(reason.clone()),
        }
    }
}

/// Whether two states are the same.
pub fn same_status(left: &ServiceStatus, right: &ServiceStatus) -> (r: bool)
    ensures
        r == (left@ == right@),
{
    match (left, right) {
        (ServiceStatus::Missing, ServiceStatus::Missing) => true,
        (ServiceStatus::RepairRequired(a), ServiceStatus::RepairRequired(b)) => str_eq(a.as_str(), b.as_str()),
        (ServiceStatus::UpdateRequired, ServiceStatus::UpdateRequired) => true,
        (ServiceStatus::Installing, ServiceStatus::Installing) => true,
        (ServiceStatus::Ready, ServiceStatus::Ready) => true,
        (ServiceStatus::Error(a), ServiceStatus::Error(b)) => str_eq(a.as_str(), b.as_str()),
        _ => false,
    }
}

/// What the menu offers to do about the services; nothing where they are in order.
pub open spec fn action_text(status: StatusModel) -> Option<Seq<char>> {
    match status {
        StatusModel::Missing => Some("Install Background Service..."@),
        StatusModel::RepairRequired(_) => Some("Repair Background Service..."@),
        StatusModel::UpdateRequired => Some("Update Background Service..."@),
        StatusModel::Installing => Some("Installing Background Service..."@),
        StatusModel::Ready => None,
        StatusModel::Error(_) => Some("Repair Background Service..."@),
    }
}

pub fn background_service_action_text(status: &ServiceStatus) -> (r: Option<&'static str>)
    ensures
        match action_text(status@) {
            Some(text) => r matches Some(s) && s@ == text,
            None => r is None,
        },
{
    match status {
        ServiceStatus::Missing => Some("Install Background Service..."),
        ServiceStatus::RepairRequired(_) | ServiceStatus::Error(_) => Some("Repair Background Service..."),
        ServiceStatus::UpdateRequired => Some("Update Background Service..."),
        ServiceStatus::Installing => Some("Installing Background Service..."),
        ServiceStatus::Ready => None,
    }
}

/// The words for the state of the services.
pub open spec fn status_text(status: StatusModel) -> Seq<char> {
    match status {
        StatusModel::Missing => "background service not installed"@,
        StatusModel::RepairRequired(reason) => "background service needs repair: "@ + reason,
        StatusModel::UpdateRequired => "background service update available"@,
        StatusModel::Installing => "installing background service"@,
        StatusModel::Ready => "background service ready"@,
        StatusModel::Error(reason) => "background service status failed: "@ + reason,
    }
}

pub fn service_status_text(status: &ServiceStatus) -> (s: String)
    ensures
        s@ == status_text(status@),
{
    match status {
        ServiceStatus::Missing => "background service not installed".to_owned(),
        ServiceStatus::RepairRequired(reason) => {
            let mut s = "background service needs repair: ".to_owned();
            s.append(reason.as_str());
            s
        },
        ServiceStatus::UpdateRequired => "background service update available".to_owned(),
        ServiceStatus::Installing => "installing background service".to_owned(),
        ServiceStatus::Ready => "background service ready".to_owned(),
        ServiceStatus::Error(reason) => {
            let mut s = "background service status failed: ".to_owned();
            s.append(reason.as_str());
            s
        },
    }
}

/// The number of files of the services.
pub const FILE_COUNT: usize = 4;

/// Where the files of the services are installed.
pub open spec fn installed_file(index: int) -> Seq<char> {
    if index == 0 {
        "/usr/local/sbin/no-sleep-till-done"@
    } else if index == 1 {
        "/usr/local/sbin/no-sleep-till-done-watchdog"@
    } else if index == 2 {
        "/Library/LaunchDaemons/com.evren.nosleeptilldone.plist"@
    } else {
        "/Library/LaunchDaemons/com.evren.nosleeptilldone.watchdog.plist"@
    }
}

pub fn installed_path(index: usize) -> (s: &'static str)
    ensures
        s@ == installed_file(index as int),
{
    if index == 0 {
        "/usr/local/sbin/no-sleep-till-done"
    } else if index == 1 {
        "/usr/local/sbin/no-sleep-till-done-watchdog"
    } else if index == 2 {
        "/Library/LaunchDaemons/com.evren.nosleeptilldone.plist"
    } else {
        "/Library/LaunchDaemons/com.evren.nosleeptilldone.watchdog.plist"
    }
}

/// The name by which tasks mark themselves as worth waiting for.
pub const TASK_MARKER: &'static str = "nosleeptilldone";

/// The name of the application's program in the menu bar.
pub const MENU_BAR_PROGRAM: &'static str = "no-sleep-till-done-menubar";

/// The names of the application's programs.
pub open spec fn program_name(index: int) -> Seq<char> {
    if index == 0 {
        "no-sleep-till-done"@
    } else if index == 1 {
        "no-sleep-till-done-watchdog"@
    } else {
        MENU_BAR_PROGRAM@
    }
}

/// The marker of a task matches none of the application's programs, in whatever
/// directory they stand that does not itself contain the marker.
pub proof fn marker_matches_no_program(directory: Seq<char>, index: int)
    requires
        !text::contains(directory, TASK_MARKER@),
    ensures
        !text::contains(directory + "/"@ + program_name(index), TASK_MARKER@),
        !text::contains(installed_file(0), TASK_MARKER@),
        !text::contains(installed_file(1), TASK_MARKER@),
{
    reveal_strlit("nosleeptilldone");
    reveal_strlit("no-sleep-till-done");
    reveal_strlit("no-sleep-till-done-watchdog");
    reveal_strlit("no-sleep-till-done-menubar");
    reveal_strlit("/usr/local/sbin");
    reveal_strlit("/usr/local/sbin/no-sleep-till-done");
    reveal_strlit("/usr/local/sbin/no-sleep-till-done-watchdog");
    reveal_strlit("/");
    lemma_program(directory, index);
    let sbin = "/usr/local/sbin"@;
    assert(!text::contains(sbin, TASK_MARKER@)) by {
        if text::contains(sbin, TASK_MARKER@) {
            let i = choose|i: int| text::occurs_at(sbin, TASK_MARKER@, i);
            assert(sbin.subrange(i, i + 15)[0] == sbin[i]);
            assert(TASK_MARKER@[0] == 'n');
        }
    }
    lemma_program(sbin, 0);
    lemma_program(sbin, 1);
    assert(sbin + "/"@ + program_name(0) =~= installed_file(0));
    assert(sbin + "/"@ + program_name(1) =~= installed_file(1));
}

proof fn lemma_program(directory: Seq<char>, index: int)
    requires
        !text::contains(directory, TASK_MARKER@),
    ensures
        !text::contains(directory + "/"@ + program_name(index), TASK_MARKER@),
{
    reveal_strlit("nosleeptilldone");
    reveal_strlit("no-sleep-till-done");
    reveal_strlit("no-sleep-till-done-watchdog");
    reveal_strlit("no-sleep-till-done-menubar");
    reveal_strlit("/");
    let marker = TASK_MARKER@;
    let name = program_name(index);
    let all = directory + "/"@ + name;
    let n = directory.len() as int;
    assert(all[n] == '/');
    assert(name[2] == '-' && name[8] == '-' && name[13] == '-');
    if text::contains(all, marker) {
        let i = choose|i: int| text::occurs_at(all, marker, i);
        let found = all.subrange(i, i + 15);
        if i + 15 <= n {
            assert(directory.subrange(i, i + 15) =~= found);
            assert(text::occurs_at(directory, marker, i));
        } else if i <= n {
            assert(found[n - i] == '/');
        } else {
            let k = i - n - 1;
            assert forall|j: int| k <= j < k + 15 implies name[j] != '-' by {
                assert(found[j - k] == name[j]);
            }
            assert(k + 15 <= name.len());
        }
    }
}

/// Where the files of the services were installed under their former names.
pub open spec fn legacy_file(index: int) -> Seq<char> {
    if index == 0 {
        "/usr/local/sbin/lidsleep-delay"@
    } else if index == 1 {
        "/usr/local/sbin/lidsleep-delay-watchdog"@
    } else if index == 2 {
        "/Library/LaunchDaemons/com.evren.lidsleep-delay.plist"@
    } else {
        "/Library/LaunchDaemons/com.evren.lidsleep-delay-watchdog.plist"@
    }
}

pub fn legacy_path(index: usize) -> (s: &'static str)
    ensures
        s@ == legacy_file(index as int),
{
    if index == 0 {
        "/usr/local/sbin/lidsleep-delay"
    } else if index == 1 {
        "/usr/local/sbin/lidsleep-delay-watchdog"
    } else if index == 2 {
        "/Library/LaunchDaemons/com.evren.lidsleep-delay.plist"
    } else {
        "/Library/LaunchDaemons/com.evren.lidsleep-delay-watchdog.plist"
    }
}

/// Where the application brings the files of the services along.
pub open spec fn bundled_file(resources: Seq<char>, index: int) -> Seq<char> {
    if index == 0 {
        path::joined(resources, "no-sleep-till-done"@)
    } else if index == 1 {
        path::joined(resources, "no-sleep-till-done-watchdog"@)
    } else if index == 2 {
        path::joined(path::joined(resources, "launchd"@), "com.evren.nosleeptilldone.plist"@)
    } else {
        path::joined(path::joined(resources, "launchd"@), "com.evren.nosleeptilldone.watchdog.plist"@)
    }
}

pub fn bundled_path(resources: &str, index: usize) -> (s: String)
    ensures
        s@ == bundled_file(resources@, index as int),
{
    if index == 0 {
        join_path(resources, "no-sleep-till-done")
    } else if index == 1 {
        join_path(resources, "no-sleep-till-done-watchdog")
    } else {
        let launchd = join_path(resources, "launchd");
        if index == 2 {
            join_path(launchd.as_str(), "com.evren.nosleeptilldone.plist")
        } else {
            join_path(launchd.as_str(), "com.evren.nosleeptilldone.watchdog.plist")
        }
    }
}

pub const NO_PARENT: &'static str = "current executable has no parent directory";

pub const NO_CONTENTS: &'static str = "app Contents directory not found";

/// The directory of what the application brings along: beside the directory of
/// its executable.
pub fn bundled_resources_dir(executable: &str) -> (r: Result<String, &'static str>)
    ensures
        if !path::has_parent(executable@) {
            r matches Err(message) && message@ == NO_PARENT@
        } else if !path::has_parent(path::parent_of(executable@)) {
            r matches Err(message) && message@ == NO_CONTENTS@
        } else {
            r matches Ok(dir) && dir@ == path::joined(
                path::parent_of(path::parent_of(executable@)),
                "Resources"@,
            )
        },
{
    match parent_path(executable) {
        None => Err(NO_PARENT),
        Some(own) => match parent_path(own.as_str()) {
            None => Err(NO_CONTENTS),
            Some(contents) => Ok(join_path(contents.as_str(), "Resources")),
        },
    }
}

/// Whether two files hold the same.
pub fn files_equal(left: &[u8], right: &[u8]) -> (r: bool)
    ensures
        r == (left@ == right@),
{
    if left.len() != right.len() {
        return false;
    }
    let mut i: usize = 0;
    while i < left.len()
        invariant
            i <= left@.len(),
            left@.len() == right@.len(),
            forall|j: int| 0 <= j < i ==> left@[j] == right@[j],
        decreases left@.len() - i,
    {
        if left[i] != right[i] {
            return false;
        }
        i = i + 1;
    }
    assert(left@ =~= right@);
    true
}

/// A step in finding out about the services: the next question.
#[derive(Debug, Eq, PartialEq)]
pub enum ServiceStep {
    /// Is a file of the services installed? So many were, of those before it.
    Installed { index: usize, found: usize },
    /// Is a file of the services installed under its former name?
    LegacyInstalled { index: usize },
    /// Does the controller run under its former name?
    LegacyControllerRuns,
    /// Does the watchdog run under its former name?
    LegacyWatchdogRuns,
    /// Where are the files that the application brings along?
    Resources,
    /// Is an installed file the same as the one that the application brings along?
    Compare { index: usize },
    /// Does the controller run?
    ControllerRuns,
    /// Does the watchdog run?
    WatchdogRuns,
    /// The state of the services.
    Done(ServiceStatus),
}

/// What a step holds.
pub enum StepModel {
    Installed { index: int, found: int },
    LegacyInstalled { index: int },
    LegacyControllerRuns,
    LegacyWatchdogRuns,
    Resources,
    Compare { index: int },
    ControllerRuns,
    WatchdogRuns,
    Done(StatusModel),
}

impl View for ServiceStep {
    type V = StepModel;

    open spec fn view(&self) -> StepModel {
        match *self {
            ServiceStep::Installed { index, found } => StepModel::Installed {
                index: index as int,
                found: found as int,
            },
            ServiceStep::LegacyInstalled { index } => StepModel::LegacyInstalled { index: index as int },
            ServiceStep::LegacyControllerRuns => StepModel::LegacyControllerRuns,
            ServiceStep::LegacyWatchdogRuns => StepModel::LegacyWatchdogRuns,
            ServiceStep::Resources => StepModel::Resources,
            ServiceStep::Compare { index } => StepModel::Compare { index: index as int },
            ServiceStep::ControllerRuns => StepModel::ControllerRuns,
            ServiceStep::WatchdogRuns => StepModel::WatchdogRuns,
            ServiceStep::Done(status) => StepModel::Done(status@),
        }
    }
}

/// The answer to a question.
#[derive(Debug, Eq, PartialEq)]
pub enum Answer {
    Yes,
    No,
    /// There is none, for a reason.
    Failed(String),
}

/// What an answer holds.
pub enum AnswerModel {
    Yes,
    No,
    Failed(Seq<char>),
}

impl View for Answer {
    type V = AnswerModel;

    open spec fn view(&self) -> AnswerModel {
        match *self {
            Answer::Yes => AnswerModel::Yes,
            Answer::No => AnswerModel::No,
            Answer::Failed(reason) => AnswerModel::Failed(reason@),
        }
    }
}

pub const INCOMPLETE: &'static str = "installed files are incomplete";

pub const NO_CONTROLLER: &'static str = "controller is not running";

pub const NO_WATCHDOG: &'static str = "safety watchdog is not running";

/// The first question.
pub open spec fn first_step() -> StepModel {
    StepModel::Installed { index: 0, found: 0 }
}

/// The step after a question, by its answer.
pub open spec fn next_step(step: StepModel, answer: AnswerModel) -> StepModel {
    match step {
        StepModel::Installed { index, found } => {
            let now = found + if answer is Yes {
                1int
            } else {
                0
            };
            if index + 1 < FILE_COUNT {
                StepModel::Installed { index: index + 1, found: now }
            } else if now == 0 {
                StepModel::LegacyInstalled { index: 0 }
            } else if now != FILE_COUNT {
                StepModel::Done(StatusModel::RepairRequired(INCOMPLETE@))
            } else {
                StepModel::Resources
            }
        },
        StepModel::LegacyInstalled { index } => if answer is Yes {
            StepModel::Done(StatusModel::UpdateRequired)
        } else if index + 1 < FILE_COUNT {
            StepModel::LegacyInstalled { index: index + 1 }
        } else {
            StepModel::LegacyControllerRuns
        },
        StepModel::LegacyControllerRuns => if answer is Yes {
            StepModel::Done(StatusModel::UpdateRequired)
        } else {
            StepModel::LegacyWatchdogRuns
        },
        StepModel::LegacyWatchdogRuns => if answer is Yes {
            StepModel::Done(StatusModel::UpdateRequired)
        } else {
            StepModel::Done(StatusModel::Missing)
        },
        StepModel::Resources => match answer {
            AnswerModel::Failed(reason) => StepModel::Done(StatusModel::Error(reason)),
            _ => StepModel::Compare { index: 0 },
        },
        StepModel::Compare { index } => match answer {
            AnswerModel::Yes => if index + 1 < FILE_COUNT {
                StepModel::Compare { index: index + 1 }
            } else {
                StepModel::ControllerRuns
            },
            AnswerModel::No => StepModel::Done(StatusModel::UpdateRequired),
            AnswerModel::Failed(reason) => StepModel::Done(StatusModel::Error(reason)),
        },
        StepModel::ControllerRuns => if answer is Yes {
            StepModel::WatchdogRuns
        } else {
            StepModel::Done(StatusModel::RepairRequired(NO_CONTROLLER@))
        },
        StepModel::WatchdogRuns => if answer is Yes {
            StepModel::Done(StatusModel::Ready)
        } else {
            StepModel::Done(StatusModel::RepairRequired(NO_WATCHDOG@))
        },
        StepModel::Done(status) => StepModel::Done(status),
    }
}

impl ServiceStep {
    /// A step that can be reached: indices stay within the files.
    pub open spec fn is_sound(self) -> bool {
        match self {
            ServiceStep::Installed { index, found } => index < FILE_COUNT && found <= index,
            ServiceStep::LegacyInstalled { index } => index < FILE_COUNT,
            ServiceStep::Compare { index } => index < FILE_COUNT,
            _ => true,
        }
    }

    /// The first question about the services.
    pub fn first() -> (r: ServiceStep)
        ensures
            r@ == first_step(),
            r.is_sound(),
    {
        ServiceStep::Installed { index: 0, found: 0 }
    }

    /// The step after a question, by its answer.
    pub fn background_service_status(self, answer: Answer) -> (r: ServiceStep)
        requires
            self.is_sound(),
        ensures
            r@ == next_step(self@, answer@),
            r.is_sound(),
    {
        match self {
            ServiceStep::Installed { index, found } => {
                let now: usize = match answer {
                    Answer::Yes => found + 1,
                    _ => found,
                };
                if index + 1 < FILE_COUNT {
                    ServiceStep::Installed { index: index + 1, found: now }
                } else if now == 0 {
                    ServiceStep::LegacyInstalled { index: 0 }
                } else if now != FILE_COUNT {
                    ServiceStep::Done(ServiceStatus::RepairRequired(INCOMPLETE.to_owned()))
                } else {
                    ServiceStep::Resources
                }
            },
            ServiceStep::LegacyInstalled { index } => match answer {
                Answer::Yes => ServiceStep::Done(ServiceStatus::UpdateRequired),
                _ => {
                    if index + 1 < FILE_COUNT {
                        ServiceStep::LegacyInstalled { index: index + 1 }
                    } else {
                        ServiceStep::LegacyControllerRuns
                    }
                },
            },
            ServiceStep::LegacyControllerRuns => match answer {
                Answer::Yes => ServiceStep::Done(ServiceStatus::UpdateRequired),
                _ => ServiceStep::LegacyWatchdogRuns,
            },
            ServiceStep::LegacyWatchdogRuns => match answer {
                Answer::Yes => ServiceStep::Done(ServiceStatus::UpdateRequired),
                _ => ServiceStep::Done(ServiceStatus::Missing),
            },
            ServiceStep::Resources => match answer {
                Answer::Failed(reason) => ServiceStep::Done(ServiceStatus::Error(reason)),
                _ => ServiceStep::Compare { index: 0 },
            },
            ServiceStep::Compare { index } => match answer {
                Answer::Yes => {
                    if index + 1 < FILE_COUNT {
                        ServiceStep::Compare { index: index + 1 }
                    } else {
                        ServiceStep::ControllerRuns
                    }
                },
                Answer::No => ServiceStep::Done(ServiceStatus::UpdateRequired),
                Answer::Failed(reason) => ServiceStep::Done(ServiceStatus::Error(reason)),
            },
            ServiceStep::ControllerRuns => match answer {
                Answer::Yes => ServiceStep::WatchdogRuns,
                _ => ServiceStep::Done(ServiceStatus::RepairRequired(NO_CONTROLLER.to_owned())),
            },
            ServiceStep::WatchdogRuns => match answer {
                Answer::Yes => ServiceStep::Done(ServiceStatus::Ready),
                _ => ServiceStep::Done(ServiceStatus::RepairRequired(NO_WATCHDOG.to_owned())),
            },
            ServiceStep::Done(status) => ServiceStep::Done(status),
        }
    }
}

/// How the system stands: the answer to every question that could be asked.
pub struct Findings {
    /// Which of the files are installed.
    pub installed: spec_fn(int) -> bool,
    /// Which of the files are installed under their former names.
    pub legacy: spec_fn(int) -> bool,
    pub legacy_controller_runs: bool,
    pub legacy_watchdog_runs: bool,
    /// Why there is nothing that the application brings along.
    pub no_resources: Option<Seq<char>>,
    /// Which installed files are those that the application brings along.
    pub same: spec_fn(int) -> AnswerModel,
    pub controller_runs: bool,
    pub watchdog_runs: bool,
}

pub open spec fn yes_or_no(truth: bool) -> AnswerModel {
    if truth {
        AnswerModel::Yes
    } else {
        AnswerModel::No
    }
}

/// The true answer to a question.
pub open spec fn true_answer(findings: Findings, step: StepModel) -> AnswerModel {
    match step {
        StepModel::Installed { index, .. } => yes_or_no((findings.installed)(index)),
        StepModel::LegacyInstalled { index } => yes_or_no((findings.legacy)(index)),
        StepModel::LegacyControllerRuns => yes_or_no(findings.legacy_controller_runs),
        StepModel::LegacyWatchdogRuns => yes_or_no(findings.legacy_watchdog_runs),
        StepModel::Resources => match findings.no_resources {
            Some(reason) => AnswerModel::Failed(reason),
            None => AnswerModel::Yes,
        },
        StepModel::Compare { index } => (findings.same)(index),
        StepModel::ControllerRuns => yes_or_no(findings.controller_runs),
        StepModel::WatchdogRuns => yes_or_no(findings.watchdog_runs),
        StepModel::Done(_) => AnswerModel::Yes,
    }
}

/// The first of the compared files, from `index` on, that decides the state.
pub open spec fn compared(findings: Findings, index: int) -> Option<StatusModel>
    decreases FILE_COUNT - index,
{
    if index < 0 || index >= FILE_COUNT {
        None
    } else {
        match (findings.same)(index) {
            AnswerModel::Yes => compared(findings, index + 1),
            AnswerModel::No => Some(StatusModel::UpdateRequired),
            AnswerModel::Failed(reason) => Some(StatusModel::Error(reason)),
        }
    }
}

/// The state of the services, by how the system stands. Where nothing is
/// installed, traces of the services under their former names call for an
/// update. Where everything is installed, it has to be what the application
/// brings along, and to run.
pub open spec fn status_by(findings: Findings) -> StatusModel {
    let installed = |i: int| (findings.installed)(i);
    let none = !installed(0) && !installed(1) && !installed(2) && !installed(3);
    let all = installed(0) && installed(1) && installed(2) && installed(3);
    if none {
        if (findings.legacy)(0) || (findings.legacy)(1) || (findings.legacy)(2) || (findings.legacy)(3)
            || findings.legacy_controller_runs || findings.legacy_watchdog_runs {
            StatusModel::UpdateRequired
        } else {
            StatusModel::Missing
        }
    } else if !all {
        StatusModel::RepairRequired(INCOMPLETE@)
    } else if findings.no_resources is Some {
        StatusModel::Error(findings.no_resources->0)
    } else if compared(findings, 0) is Some {
        compared(findings, 0)->0
    } else if !findings.controller_runs {
        StatusModel::RepairRequired(NO_CONTROLLER@)
    } else if !findings.watchdog_runs {
        StatusModel::RepairRequired(NO_WATCHDOG@)
    } else {
        StatusModel::Ready
    }
}

/// The step after some true answers.
pub open spec fn step_after(findings: Findings, count: nat) -> StepModel
    decreases count,
{
    if count == 0 {
        first_step()
    } else {
        let before = step_after(findings, (count - 1) as nat);
        next_step(before, true_answer(findings, before))
    }
}

/// Asking ends after at most eleven questions, with the state by how the system stands.
pub proof fn questions_find_the_status(findings: Findings)
    ensures
        step_after(findings, 11) == StepModel::Done(status_by(findings)),
{
    reveal_with_fuel(step_after, 12);
    reveal_with_fuel(compared, 5);
}

/// The script that installs the services from the files that the application
/// brings along, starts them, and takes those under the former names away.
pub open spec fn install_script(resources: Seq<char>) -> Seq<char> {
    "install -m 755 "@ + escape::shell_word(bundled_file(resources, 0))
        + " /usr/local/sbin/no-sleep-till-done\ninstall -m 755 "@ + escape::shell_word(bundled_file(resources, 1))
        + " /usr/local/sbin/no-sleep-till-done-watchdog\ninstall -m 644 "@ + escape::shell_word(
        bundled_file(resources, 2),
    ) + " /Library/LaunchDaemons/com.evren.nosleeptilldone.plist\ninstall -m 644 "@ + escape::shell_word(
        bundled_file(resources, 3),
    ) + INSTALL_TAIL@
}

/// The part of the script after the names of the files.
pub const INSTALL_TAIL: &'static str = " /Library/LaunchDaemons/com.evren.nosleeptilldone.watchdog.plist
launchctl bootout system /Library/LaunchDaemons/com.evren.nosleeptilldone.plist >/dev/null 2>&1 || true
launchctl bootout system /Library/LaunchDaemons/com.evren.nosleeptilldone.watchdog.plist >/dev/null 2>&1 || true
bounded_launchctl 10 bootstrap system /Library/LaunchDaemons/com.evren.nosleeptilldone.plist
bounded_launchctl 10 bootstrap system /Library/LaunchDaemons/com.evren.nosleeptilldone.watchdog.plist
launchctl enable system/com.evren.nosleeptilldone
launchctl enable system/com.evren.nosleeptilldone.watchdog
launchctl bootout system /Library/LaunchDaemons/com.evren.lidsleep-delay.plist >/dev/null 2>&1 || true
launchctl bootout system /Library/LaunchDaemons/com.evren.lidsleep-delay-watchdog.plist >/dev/null 2>&1 || true
rm -f /Library/LaunchDaemons/com.evren.lidsleep-delay.plist
rm -f /Library/LaunchDaemons/com.evren.lidsleep-delay-watchdog.plist
rm -f /usr/local/sbin/lidsleep-delay
rm -f /usr/local/sbin/lidsleep-delay-watchdog
sleep 1
";

/// The first of the files that the application should bring along and does not.
pub open spec fn first_missing(present: Seq<bool>) -> Option<int>
    decreases present.len(),
{
    if present.len() == 0 {
        None
    } else if !present[0] {
        Some(0)
    } else {
        match first_missing(present.drop_first()) {
            Some(i) => Some(i + 1),
            None => None,
        }
    }
}

/// The script that installs the services, or the message on the first file that
/// the application does not bring along.
pub fn ensure_privileged_services(resources: &str, present: [bool; 4]) -> (r: Result<String, String>)
    ensures
        match first_missing(present@) {
            Some(i) => r matches Err(message) && message@ == "bundled background service resource missing: "@
                + bundled_file(resources@, i),
            None => r matches Ok(script) && script@ == install_script(resources@),
        },
{
    reveal_with_fuel(first_missing, 5);
    let ghost all = present@;
    assert(all.drop_first().drop_first().drop_first().drop_first().len() == 0);
    let missing: Option<usize> = if !present[0] {
        Some(0)
    } else if !present[1] {
        Some(1)
    } else if !present[2] {
        Some(2)
    } else if !present[3] {
        Some(3)
    } else {
        None
    };
    if let Some(index) = missing {
        let mut message = "bundled background service resource missing: ".to_owned();
        let file = bundled_path(resources, index);
        message.append(file.as_str());
        return Err(message);
    }
    let controller = shell_quote(bundled_path(resources, 0).as_str());
    let watchdog = shell_quote(bundled_path(resources, 1).as_str());
    let controller_plist = shell_quote(bundled_path(resources, 2).as_str());
    let watchdog_plist = shell_quote(bundled_path(resources, 3).as_str());
    let mut script = "install -m 755 ".to_owned();
    script.append(controller.as_str());
    script.append(" /usr/local/sbin/no-sleep-till-done\ninstall -m 755 ");
    script.append(watchdog.as_str());
    script.append(" /usr/local/sbin/no-sleep-till-done-watchdog\ninstall -m 644 ");
    script.append(controller_plist.as_str());
    script.append(" /Library/LaunchDaemons/com.evren.nosleeptilldone.plist\ninstall -m 644 ");
    script.append(watchdog_plist.as_str());
    script.append(INSTALL_TAIL);
    Ok(script)
}

/// What stands before every script that the administrator runs: a call of the
/// service manager that gives up after a time.
pub const SCRIPT_HEAD: &'static str = "bounded_launchctl() {
  seconds=\"$1\"
  shift
  launchctl \"$@\" &
  pid=\"$!\"
  elapsed=0
  while kill -0 \"$pid\" >/dev/null 2>&1; do
    if [ \"$elapsed\" -ge \"$seconds\" ]; then
      kill -TERM \"$pid\" >/dev/null 2>&1 || true
      sleep 1
      kill -KILL \"$pid\" >/dev/null 2>&1 || true
      wait \"$pid\" >/dev/null 2>&1 || true
      echo \"launchctl $* timed out\" >&2
      return 124
    fi
    sleep 1
    elapsed=$((elapsed + 1))
  done
  wait \"$pid\"
}
";

/// The script that lets the machine sleep as usual.
pub const RESTORE_SCRIPT: &'static str = "pmset -b disablesleep 0";

/// What has the administrator run a script.
pub open spec fn privileged_text(script: Seq<char>) -> Seq<char> {
    "do shell script "@ + escape::script_string(SCRIPT_HEAD@ + script) + " with administrator privileges"@
}

/// What the scripting host is told, to have the administrator run a script.
pub fn run_privileged_shell(script: &str) -> (r: String)
    ensures
        r@ == "do shell script "@ + escape::script_string(SCRIPT_HEAD@ + script@) + " with administrator privileges"@,
        r@ == privileged_text(script@),
{
    let mut whole = SCRIPT_HEAD.to_owned();
    whole.append(script);
    let quoted = applescript_string(whole.as_str());
    let mut r = "do shell script ".to_owned();
    r.append(quoted.as_str());
    r.append(" with administrator privileges");
    r
}

/// The message on a script of the administrator that failed.
pub fn privileged_failure(status: &str) -> (r: String)
    ensures
        r@ == "administrator command failed with "@ + status@,
{
    let mut r = "administrator command failed with ".to_owned();
    r.append(status);
    r
}

/// A service as the service manager names it.
pub fn system_service(label: &str) -> (r: String)
    ensures
        r@ == "system/"@ + label@,
{
    let mut r = "system/".to_owned();
    r.append(label);
    r
}

/// What asking finds, by how the system stands: the services are ready exactly
/// where all their files are installed as the application brings them along, and
/// both run; they are missing exactly where nothing of them is there, under either
/// name; and where only some files are installed they need repair.
pub proof fn services_are_what_is_found(f: Findings)
    ensures
        ({
            let found = step_after(f, 11);
            let none = !(f.installed)(0) && !(f.installed)(1) && !(f.installed)(2) && !(f.installed)(3);
            let all = (f.installed)(0) && (f.installed)(1) && (f.installed)(2) && (f.installed)(3);
            let same = (f.same)(0) is Yes && (f.same)(1) is Yes && (f.same)(2) is Yes && (f.same)(3) is Yes;
            let traces = (f.legacy)(0) || (f.legacy)(1) || (f.legacy)(2) || (f.legacy)(3) || f.legacy_controller_runs
                || f.legacy_watchdog_runs;
            let ours = all && f.no_resources is None && same;
            &&& found is Done
            &&& found == StepModel::Done(StatusModel::Ready) <==> ours && f.controller_runs && f.watchdog_runs
            &&& found == StepModel::Done(StatusModel::Missing) <==> none && !traces
            &&& none && traces ==> found == StepModel::Done(StatusModel::UpdateRequired)
            &&& !none && !all ==> found == StepModel::Done(
                StatusModel::RepairRequired("installed files are incomplete"@),
            )
            &&& all && f.no_resources is Some ==> found == StepModel::Done(StatusModel::Error(f.no_resources->0))
            &&& ours && !f.controller_runs ==> found == StepModel::Done(
                StatusModel::RepairRequired("controller is not running"@),
            )
            &&& ours && f.controller_runs && !f.watchdog_runs ==> found == StepModel::Done(
                StatusModel::RepairRequired("safety watchdog is not running"@),
            )
        }),
{
    reveal_with_fuel(step_after, 12);
}

/// The first of the compared files that is not the same, or cannot be compared,
/// decides: it calls for an update, or is the failure.
pub proof fn first_difference_decides(f: Findings, first: int)
    requires
        0 <= first < 4,
        (f.installed)(0) && (f.installed)(1) && (f.installed)(2) && (f.installed)(3),
        f.no_resources is None,
        forall|i: int| 0 <= i < first ==> (#[trigger] (f.same)(i)) is Yes,
        !((f.same)(first) is Yes),
    ensures
        (f.same)(first) is No ==> step_after(f, 11) == StepModel::Done(StatusModel::UpdateRequired),
        (f.same)(first) matches AnswerModel::Failed(reason) ==> step_after(f, 11) == StepModel::Done(
            StatusModel::Error(reason),
        ),
{
    reveal_with_fuel(step_after, 12);
    if first > 0 {
        assert((f.same)(0) is Yes);
    }
    if first > 1 {
        assert((f.same)(1) is Yes);
    }
    if first > 2 {
        assert((f.same)(2) is Yes);
    }
}

/// What the menu offers, and the words, say what is the matter with the services.
pub proof fn services_are_described(reason: Seq<char>)
    ensures
        action_text(StatusModel::Missing) == Some("Install Background Service..."@),
        action_text(StatusModel::RepairRequired(reason)) == Some("Repair Background Service..."@),
        action_text(StatusModel::Error(reason)) == Some("Repair Background Service..."@),
        action_text(StatusModel::UpdateRequired) == Some("Update Background Service..."@),
        action_text(StatusModel::Installing) == Some("Installing Background Service..."@),
        action_text(StatusModel::Ready) is None,
        status_text(StatusModel::Missing) == "background service not installed"@,
        status_text(StatusModel::RepairRequired(reason)) == "background service needs repair: "@ + reason,
        status_text(StatusModel::Error(reason)) == "background service status failed: "@ + reason,
        status_text(StatusModel::UpdateRequired) == "background service update available"@,
        status_text(StatusModel::Installing) == "installing background service"@,
        status_text(StatusModel::Ready) == "background service ready"@,
{
}

/// The files of the services are brought along in one directory, the settings for
/// the service manager in a directory below it, each under the name by which it is
/// installed.
pub proof fn files_are_brought_along(resources: Seq<char>)
    requires
        resources.len() > 0,
        resources.last() != '/',
    ensures
        bundled_file(resources, 0) == resources + "/no-sleep-till-done"@,
        bundled_file(resources, 1) == resources + "/no-sleep-till-done-watchdog"@,
        bundled_file(resources, 2) == resources + "/launchd/com.evren.nosleeptilldone.plist"@,
        bundled_file(resources, 3) == resources + "/launchd/com.evren.nosleeptilldone.watchdog.plist"@,
        installed_file(0) == "/usr/local/sbin/no-sleep-till-done"@,
        installed_file(1) == "/usr/local/sbin/no-sleep-till-done-watchdog"@,
        installed_file(2) == "/Library/LaunchDaemons/com.evren.nosleeptilldone.plist"@,
        installed_file(3) == "/Library/LaunchDaemons/com.evren.nosleeptilldone.watchdog.plist"@,
        legacy_file(0) == "/usr/local/sbin/lidsleep-delay"@,
        legacy_file(1) == "/usr/local/sbin/lidsleep-delay-watchdog"@,
        legacy_file(2) == "/Library/LaunchDaemons/com.evren.lidsleep-delay.plist"@,
        legacy_file(3) == "/Library/LaunchDaemons/com.evren.lidsleep-delay-watchdog.plist"@,
{
    reveal_strlit("/");
    reveal_strlit("launchd");
    reveal_strlit("no-sleep-till-done");
    reveal_strlit("no-sleep-till-done-watchdog");
    reveal_strlit("com.evren.nosleeptilldone.plist");
    reveal_strlit("com.evren.nosleeptilldone.watchdog.plist");
    reveal_strlit("/no-sleep-till-done");
    reveal_strlit("/no-sleep-till-done-watchdog");
    reveal_strlit("/launchd/com.evren.nosleeptilldone.plist");
    reveal_strlit("/launchd/com.evren.nosleeptilldone.watchdog.plist");
    assert(bundled_file(resources, 0) =~= resources + "/no-sleep-till-done"@);
    assert(bundled_file(resources, 1) =~= resources + "/no-sleep-till-done-watchdog"@);
    let launchd = path::joined(resources, "launchd"@);
    assert(launchd.last() == 'd');
    assert(bundled_file(resources, 2) =~= resources + "/launchd/com.evren.nosleeptilldone.plist"@);
    assert(bundled_file(resources, 3) =~= resources + "/launchd/com.evren.nosleeptilldone.watchdog.plist"@);
}

/// The first file that is not brought along is the one that is named; none is where
/// all are there.
pub proof fn first_missing_file_is_named(present: Seq<bool>)
    ensures
        first_missing(present) is None <==> forall|i: int| 0 <= i < present.len() ==> #[trigger] present[i],
        first_missing(present) matches Some(at) ==> 0 <= at < present.len() && !present[at] && forall|i: int|
            0 <= i < at ==> #[trigger] present[i],
    decreases present.len(),
{
    if present.len() > 0 && present[0] {
        let rest = present.drop_first();
        first_missing_file_is_named(rest);
        if first_missing(rest) is None {
            assert forall|i: int| 0 <= i < present.len() implies #[trigger] present[i] by {
                if i > 0 {
                    assert(rest[i - 1] == present[i]);
                }
            }
        } else {
            let at = first_missing(rest)->0;
            assert(present[at + 1] == rest[at]);
            assert forall|i: int| 0 <= i < at + 1 implies #[trigger] present[i] by {
                if i > 0 {
                    assert(rest[i - 1] == present[i]);
                }
            }
        }
    }
}

/// The script installs each file that is brought along in its place, the programs
/// to be run and the settings to be read, before it does anything else.
pub proof fn script_installs_every_file(resources: Seq<char>)
    ensures
        install_script(resources) == "install -m 755 "@ + escape::shell_word(bundled_file(resources, 0)) + " "@
            + installed_file(0) + "\n"@ + "install -m 755 "@ + escape::shell_word(bundled_file(resources, 1)) + " "@
            + installed_file(1) + "\n"@ + "install -m 644 "@ + escape::shell_word(bundled_file(resources, 2)) + " "@
            + installed_file(2) + "\n"@ + "install -m 644 "@ + escape::shell_word(bundled_file(resources, 3))
            + INSTALL_TAIL@,
{
    reveal_strlit(" ");
    reveal_strlit("\n");
    reveal_strlit("install -m 755 ");
    reveal_strlit("install -m 644 ");
    reveal_strlit("/usr/local/sbin/no-sleep-till-done");
    reveal_strlit("/usr/local/sbin/no-sleep-till-done-watchdog");
    reveal_strlit("/Library/LaunchDaemons/com.evren.nosleeptilldone.plist");
    reveal_strlit(" /usr/local/sbin/no-sleep-till-done\ninstall -m 755 ");
    reveal_strlit(" /usr/local/sbin/no-sleep-till-done-watchdog\ninstall -m 644 ");
    reveal_strlit(" /Library/LaunchDaemons/com.evren.nosleeptilldone.plist\ninstall -m 644 ");
    assert(" /usr/local/sbin/no-sleep-till-done\ninstall -m 755 "@ =~= " "@ + installed_file(0) + "\n"@
        + "install -m 755 "@);
    assert(" /usr/local/sbin/no-sleep-till-done-watchdog\ninstall -m 644 "@ =~= " "@ + installed_file(1) + "\n"@
        + "install -m 644 "@);
    assert(" /Library/LaunchDaemons/com.evren.nosleeptilldone.plist\ninstall -m 644 "@ =~= " "@ + installed_file(2)
        + "\n"@ + "install -m 644 "@);
    assert(install_script(resources) =~= "install -m 755 "@ + escape::shell_word(bundled_file(resources, 0)) + " "@
        + installed_file(0) + "\n"@ + "install -m 755 "@ + escape::shell_word(bundled_file(resources, 1)) + " "@
        + installed_file(1) + "\n"@ + "install -m 644 "@ + escape::shell_word(bundled_file(resources, 2)) + " "@
        + installed_file(2) + "\n"@ + "install -m 644 "@ + escape::shell_word(bundled_file(resources, 3))
        + INSTALL_TAIL@);
}

/// The scripting host is told to run, with the administrator's privileges, what it
/// reads as the script, behind what stands before every script.
pub proof fn administrator_runs_the_script(script: Seq<char>)
    ensures
        ({
            let quoted = privileged_text(script).subrange(
                16,
                privileged_text(script).len() - 30,
            );
            &&& privileged_text(script).take(16) == "do shell script "@
            &&& privileged_text(script).skip(privileged_text(script).len() - 30) == " with administrator privileges"@
            &&& quoted.len() > 0 && quoted[0] == '"'
            &&& escape::script_reads(quoted.drop_first()) == Some(SCRIPT_HEAD@ + script)
        }),
{
    reveal_strlit("do shell script ");
    reveal_strlit(" with administrator privileges");
    let all = privileged_text(script);
    let quoted = escape::script_string(SCRIPT_HEAD@ + script);
    escape::script_reads_back(SCRIPT_HEAD@ + script);
    assert("do shell script "@.len() == 16);
    assert(" with administrator privileges"@.len() == 30);
    assert(all.take(16) =~= "do shell script "@);
    assert(all.skip(all.len() - 30) =~= " with administrator privileges"@);
    assert(all.subrange(16, all.len() - 30) =~= quoted);
}

} // verus!
