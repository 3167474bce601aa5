//! The files by which the application and the controller speak, and leaving.
use vstd::prelude::*;

use crate::lease;
use crate::lease::{LeaseRecord, APP_ACTIVE_LEASE_PATH, CONTROLLER_RESET_REQUEST_PATH};

verus! {

/// The lease under its former name, for a controller from before.
pub const LEGACY_APP_ACTIVE_LEASE_PATH: &'static str = "/tmp/com.evren.lidsleep-delay.active";

/// The request to reset under its former name.
pub const LEGACY_CONTROLLER_RESET_REQUEST_PATH: &'static str = "/tmp/com.evren.lidsleep-delay.reset";

/// The lock that one application holds.
pub const LOCK_PATH: &'static str = "/tmp/com.evren.nosleeptilldone.menubar.lock";

/// What a request to reset says.
pub const RESET_TEXT: &'static str = "reset\n";

/// A change to a file.
#[derive(Debug, Eq, PartialEq)]
pub struct FileStep {
    pub path: &'static str,
    /// What is written; where nothing is, the file is taken away. A file that is
    /// not there counts as taken away.
    pub text: Option<String>,
    /// Whether what follows is given up where this fails.
    pub required: bool,
}

/// What a change to a file holds.
#[verifier::ext_equal]
pub struct FileStepModel {
    pub path: Seq<char>,
    pub text: Option<Seq<char>>,
    pub required: bool,
}

impl View for FileStep {
    type V = FileStepModel;

    open spec fn view(&self) -> FileStepModel {
        FileStepModel {
            path: self.path@,
            text: match self.text {
                Some(text) => Some(text@),
                None => None,
            },
            required: self.required,
        }
    }
}

/// What some changes to files hold.
pub open spec fn step_models(steps: Seq<FileStep>) -> Seq<FileStepModel> {
    steps.map_values(|s: FileStep| s@)
}

/// The changes that renew the lease.
pub open spec fn lease_steps(record: LeaseRecord) -> Seq<FileStepModel> {
    seq![
        FileStepModel { path: APP_ACTIVE_LEASE_PATH@, text: Some(lease::lease_text(record)), required: true },
        FileStepModel { path: LEGACY_APP_ACTIVE_LEASE_PATH@, text: Some(lease::lease_text(record)), required: false },
    ]
}

/// The changes that ask the controller to reset.
pub open spec fn reset_steps() -> Seq<FileStepModel> {
    seq![
        FileStepModel { path: APP_ACTIVE_LEASE_PATH@, text: None, required: true },
        FileStepModel { path: LEGACY_APP_ACTIVE_LEASE_PATH@, text: None, required: false },
        FileStepModel { path: CONTROLLER_RESET_REQUEST_PATH@, text: Some(RESET_TEXT@), required: true },
        FileStepModel { path: LEGACY_CONTROLLER_RESET_REQUEST_PATH@, text: Some(RESET_TEXT@), required: false },
    ]
}

/// Renewing the lease. The file under the former name keeps a controller from
/// before at work, and does not have to be written.
pub fn refresh_active_lease(record: LeaseRecord) -> (steps: Vec<FileStep>)
    ensures
        step_models(steps@) == seq![
            FileStepModel {
                path: APP_ACTIVE_LEASE_PATH@,
                text: Some(lease::lease_text(record)),
                required: true,
            },
            FileStepModel {
                path: LEGACY_APP_ACTIVE_LEASE_PATH@,
                text: Some(lease::lease_text(record)),
                required: false,
            },
        ],
        step_models(steps@) == lease_steps(record),
{
    let text = record.serialize();
    let mut steps: Vec<FileStep> = Vec::new();
    steps.push(FileStep { path: APP_ACTIVE_LEASE_PATH, text: Some(text.clone()), required: true });
    steps.push(FileStep { path: LEGACY_APP_ACTIVE_LEASE_PATH, text: Some(text), required: false });
    assert(step_models(steps@) =~= seq![
        FileStepModel {
            path: APP_ACTIVE_LEASE_PATH@,
            text: Some(lease::lease_text(record)),
            required: true,
        },
        FileStepModel {
            path: LEGACY_APP_ACTIVE_LEASE_PATH@,
            text: Some(lease::lease_text(record)),
            required: false,
        },
    ]);
    steps
}

/// Asking the controller to reset: the lease is taken away, and the request is
/// made. The files under their former names do not matter.
pub fn request_controller_reset() -> (steps: Vec<FileStep>)
    ensures
        step_models(steps@) == seq![
            FileStepModel { path: APP_ACTIVE_LEASE_PATH@, text: None, required: true },
            FileStepModel { path: LEGACY_APP_ACTIVE_LEASE_PATH@, text: None, required: false },
            FileStepModel { path: CONTROLLER_RESET_REQUEST_PATH@, text: Some(RESET_TEXT@), required: true },
            FileStepModel { path: LEGACY_CONTROLLER_RESET_REQUEST_PATH@, text: Some(RESET_TEXT@), required: false },
        ],
        step_models(steps@) == reset_steps(),
{
    let mut steps: Vec<FileStep> = Vec::new();
    steps.push(FileStep { path: APP_ACTIVE_LEASE_PATH, text: None, required: true });
    steps.push(FileStep { path: LEGACY_APP_ACTIVE_LEASE_PATH, text: None, required: false });
    steps.push(
        FileStep { path: CONTROLLER_RESET_REQUEST_PATH, text: Some(RESET_TEXT.to_owned()), required: true },
    );
    steps.push(
        FileStep {
            path: LEGACY_CONTROLLER_RESET_REQUEST_PATH,
            text: Some(RESET_TEXT.to_owned()),
            required: false,
        },
    );
    assert(step_models(steps@) =~= seq![
        FileStepModel { path: APP_ACTIVE_LEASE_PATH@, text: None, required: true },
        FileStepModel { path: LEGACY_APP_ACTIVE_LEASE_PATH@, text: None, required: false },
        FileStepModel { path: CONTROLLER_RESET_REQUEST_PATH@, text: Some(RESET_TEXT@), required: true },
        FileStepModel { path: LEGACY_CONTROLLER_RESET_REQUEST_PATH@, text: Some(RESET_TEXT@), required: false },
    ]);
    steps
}

/// How often the sleep override is read on the way out.
pub const QUIT_TRIES: u32 = 10;

/// The time before each reading, in milliseconds.
pub const QUIT_WAIT_MILLIS: u64 = 500;

/// A step on the way out.
#[derive(Clone, Copy, Debug, Eq, PartialEq, Structural)]
pub enum QuitStep {
    /// Wait, and read the sleep override; so many tries are left.
    Wait { tries: u32 },
    /// The machine sleeps as usual again.
    Restored,
    /// The administrator has to let the machine sleep as usual.
    Force,
}

impl QuitStep {
    /// The step after a reading of the sleep override.
    pub open spec fn after(self, sleep_disabled: Option<bool>) -> QuitStep {
        match self {
            QuitStep::Wait { tries } => if sleep_disabled == Some(false) {
                QuitStep::Restored
            } else if tries <= 1 {
                QuitStep::Force
            } else {
                QuitStep::Wait { tries: (tries - 1) as u32 }
            },
            _ => self,
        }
    }

    /// The first step on the way out.
    pub fn first() -> (r: QuitStep)
        ensures
            r == (QuitStep::Wait { tries: QUIT_TRIES }),
    {
        QuitStep::Wait { tries: QUIT_TRIES }
    }

    /// The step after a reading of the sleep override, which may have failed.
    pub fn ensure_sleep_restored_after_quit(self, sleep_disabled: Option<bool>) -> (r: QuitStep)
        ensures
            r == self.after(sleep_disabled),
    {
        match self {
            QuitStep::Wait { tries } => match sleep_disabled {
                Some(false) => QuitStep::Restored,
                _ => {
                    if tries <= 1 {
                        QuitStep::Force
                    } else {
                        QuitStep::Wait { tries: tries - 1 }
                    }
                },
            },
            _ => self,
        }
    }
}

/// The step after some readings.
pub open spec fn after_readings(readings: Seq<Option<bool>>) -> QuitStep
    decreases readings.len(),
{
    if readings.len() == 0 {
        QuitStep::Wait { tries: QUIT_TRIES }
    } else {
        after_readings(readings.drop_last()).after(readings.last())
    }
}

/// The override is forced away exactly where none of the readings found it gone,
/// after as many readings as there are tries; and leaving waits no longer than that.
pub proof fn leaving_restores_or_forces(readings: Seq<Option<bool>>)
    ensures
        readings.len() < QUIT_TRIES && !readings.contains(Some(false)) ==> after_readings(readings) == (QuitStep::Wait {
            tries: (QUIT_TRIES - readings.len()) as u32,
        }),
        readings.len() >= QUIT_TRIES && !readings.take(QUIT_TRIES as int).contains(Some(false)) ==> after_readings(
            readings,
        ) == QuitStep::Force,
        (exists|i: int| 0 <= i < readings.len() && i < QUIT_TRIES && #[trigger] readings[i] == Some(false))
            ==> after_readings(readings) == QuitStep::Restored,
    decreases readings.len(),
{
    if readings.len() > 0 {
        let before = readings.drop_last();
        leaving_restores_or_forces(before);
        let n = QUIT_TRIES as int;
        if !readings.contains(Some(false)) {
            assert forall|i: int| 0 <= i < before.len() implies before[i] != Some(false) by {
                assert(readings.contains(readings[i]));
            }
            assert(readings.contains(readings[readings.len() - 1]));
        }
        if readings.len() >= n && !readings.take(n).contains(Some(false)) {
            assert forall|i: int| 0 <= i < n implies readings[i] != Some(false) by {
                assert(readings.take(n)[i] == readings[i]);
                assert(readings.take(n).contains(readings.take(n)[i]));
            }
            if before.len() >= n {
                assert(before.take(n) =~= readings.take(n));
            } else {
                assert(!before.contains(Some(false)));
            }
        }
        if exists|i: int| 0 <= i < readings.len() && i < n && #[trigger] readings[i] == Some(false) {
            let i = choose|i: int| 0 <= i < readings.len() && i < n && #[trigger] readings[i] == Some(false);
            if i < before.len() {
                assert(before[i] == readings[i]);
            } else if before.contains(Some(false)) {
                let j = choose|j: int| 0 <= j < before.len() && before[j] == Some(false);
                assert(j < n && before[j] == Some(false));
            } else {
                assert(before.len() < n);
            }
        }
    }
}

/// Leaving reads the override ten times at most, half a second apart.
pub proof fn leaving_reads_ten_times(readings: Seq<Option<bool>>)
    ensures
        QUIT_TRIES == 10,
        QUIT_WAIT_MILLIS == 500,
        after_readings(readings) is Wait <==> readings.len() < 10 && !readings.contains(Some(false)),
        after_readings(readings) is Restored <==> exists|i: int|
            0 <= i < readings.len() && i < 10 && #[trigger] readings[i] == Some(false),
{
    leaving_restores_or_forces(readings);
    if readings.contains(Some(false)) {
        let i = choose|i: int| 0 <= i < readings.len() && readings[i] == Some(false);
        if readings.len() < 10 {
            assert(readings[i] == Some(false) && i < 10);
        }
    }
    if readings.len() >= 10 && readings.take(10).contains(Some(false)) {
        let i = choose|i: int| 0 <= i < 10 && readings.take(10)[i] == Some(false);
        assert(readings[i] == Some(false));
    }
    if readings.len() >= 10 && (exists|i: int|
        0 <= i < readings.len() && i < 10 && #[trigger] readings[i] == Some(false)) {
        let i = choose|i: int| 0 <= i < readings.len() && i < 10 && #[trigger] readings[i] == Some(false);
        assert(readings.take(10)[i] == Some(false));
    }
    if readings.len() < 10 && (exists|i: int|
        0 <= i < readings.len() && i < 10 && #[trigger] readings[i] == Some(false)) {
        let i = choose|i: int| 0 <= i < readings.len() && i < 10 && #[trigger] readings[i] == Some(false);
        assert(readings.contains(Some(false)));
    }
}

/// Renewing the lease writes, where the controller reads it, what the controller
/// reads as that lease; failing to write it there is a failure, and the file for a
/// controller from before gets the same.
pub proof fn renewed_lease_is_read_back(record: LeaseRecord)
    ensures
        lease_steps(record)[0].path == "/tmp/com.evren.nosleeptilldone.active"@,
        lease_steps(record)[0].text is Some,
        lease::lease_of(lease_steps(record)[0].text->0) == Some(record),
        lease_steps(record)[0].required,
        lease_steps(record)[1].path == "/tmp/com.evren.lidsleep-delay.active"@,
        lease_steps(record)[1].text == lease_steps(record)[0].text,
        !lease_steps(record)[1].required,
        lease_steps(record).len() == 2,
{
    lease::lease_reads_back(record);
}

/// Asking for a reset takes every lease away before it makes the request, for the
/// present controller without fail and for one from before as far as it goes.
pub proof fn reset_takes_the_lease_away()
    ensures
        reset_steps().len() == 4,
        reset_steps()[0] == (FileStepModel {
            path: "/tmp/com.evren.nosleeptilldone.active"@,
            text: None,
            required: true,
        }),
        reset_steps()[1] == (FileStepModel {
            path: "/tmp/com.evren.lidsleep-delay.active"@,
            text: None,
            required: false,
        }),
        reset_steps()[2] == (FileStepModel {
            path: "/tmp/com.evren.nosleeptilldone.reset"@,
            text: Some("reset\n"@),
            required: true,
        }),
        reset_steps()[3] == (FileStepModel {
            path: "/tmp/com.evren.lidsleep-delay.reset"@,
            text: Some("reset\n"@),
            required: false,
        }),
{
}

} // verus!
