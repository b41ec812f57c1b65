//! The printer's numeric machine status and sub-status codes, and their
//! normalized meaning. The rest of the library works with
//! [`NormalizedStatus`] rather than with raw codes.

use vstd::prelude::*;

verus! {

/// What the printer is doing, independent of the numeric protocol codes.
#[derive(Clone, Copy, Debug, PartialEq, Eq, Structural)]
pub enum NormalizedStatus {
    Offline,
    Initializing,
    Idle,
    Printing,
    Pausing,
    Paused,
    Resuming,
    Stopping,
    Stopped,
    PrintCompleted,
    SelfChecking,
    AutoLeveling,
    PidCalibrating,
    ResonanceTesting,
    Updating,
    FileTransferring,
    Homing,
    Preheating,
    FilamentOperating,
    ExtruderOperating,
    VideoComposing,
    EmergencyStop,
    PowerLossRecovery,
    Busy,
    Error,
    IdNotMatch,
    AuthError,
    Unknown,
}

/// The human-readable label of a normalized status.
pub open spec fn label_of(s: NormalizedStatus) -> Seq<char> {
    match s {
        NormalizedStatus::Offline => "Offline"@,
        NormalizedStatus::Initializing => "Initializing"@,
        NormalizedStatus::Idle => "Idle"@,
        NormalizedStatus::Printing => "Printing"@,
        NormalizedStatus::Pausing => "Pausing"@,
        NormalizedStatus::Paused => "Paused"@,
        NormalizedStatus::Resuming => "Resuming"@,
        NormalizedStatus::Stopping => "Stopping"@,
        NormalizedStatus::Stopped => "Stopped"@,
        NormalizedStatus::PrintCompleted => "Print Completed"@,
        NormalizedStatus::SelfChecking => "Self Checking"@,
        NormalizedStatus::AutoLeveling => "Auto Leveling"@,
        NormalizedStatus::PidCalibrating => "PID Calibrating"@,
        NormalizedStatus::ResonanceTesting => "Resonance Testing"@,
        NormalizedStatus::Updating => "Updating"@,
        NormalizedStatus::FileTransferring => "File Transferring"@,
        NormalizedStatus::Homing => "Homing"@,
        NormalizedStatus::Preheating => "Preheating"@,
        NormalizedStatus::FilamentOperating => "Filament Operating"@,
        NormalizedStatus::ExtruderOperating => "Extruder Operating"@,
        NormalizedStatus::VideoComposing => "Video Composing"@,
        NormalizedStatus::EmergencyStop => "Emergency Stop"@,
        NormalizedStatus::PowerLossRecovery => "Power Loss Recovery"@,
        NormalizedStatus::Busy => "Busy"@,
        NormalizedStatus::Error => "Error"@,
        NormalizedStatus::IdNotMatch => "ID Not Match"@,
        NormalizedStatus::AuthError => "Auth Error"@,
        NormalizedStatus::Unknown => "Unknown"@,
    }
}

/// Different statuses have different labels, so a label names its status.
pub proof fn lemma_labels_distinct(a: NormalizedStatus, b: NormalizedStatus)
    requires
        a != b,
    ensures
        label_of(a) != label_of(b),
{
    reveal_strlit("Offline");
    reveal_strlit("Initializing");
    reveal_strlit("Idle");
    reveal_strlit("Printing");
    reveal_strlit("Pausing");
    reveal_strlit("Paused");
    reveal_strlit("Resuming");
    reveal_strlit("Stopping");
    reveal_strlit("Stopped");
    reveal_strlit("Print Completed");
    reveal_strlit("Self Checking");
    reveal_strlit("Auto Leveling");
    reveal_strlit("PID Calibrating");
    reveal_strlit("Resonance Testing");
    reveal_strlit("Updating");
    reveal_strlit("File Transferring");
    reveal_strlit("Homing");
    reveal_strlit("Preheating");
    reveal_strlit("Filament Operating");
    reveal_strlit("Extruder Operating");
    reveal_strlit("Video Composing");
    reveal_strlit("Emergency Stop");
    reveal_strlit("Power Loss Recovery");
    reveal_strlit("Busy");
    reveal_strlit("Error");
    reveal_strlit("ID Not Match");
    reveal_strlit("Auth Error");
    reveal_strlit("Unknown");
    assert(label_of(a).len() != label_of(b).len() || label_of(a)[0] != label_of(b)[0]
        || label_of(a)[1] != label_of(b)[1]);
}

/// The UI badge variant of a normalized status.
pub open spec fn variant_of(s: NormalizedStatus) -> Seq<char> {
    match s {
        NormalizedStatus::Offline => "error"@,
        NormalizedStatus::Initializing => "idle"@,
        NormalizedStatus::Idle => "idle"@,
        NormalizedStatus::Printing => "active"@,
        NormalizedStatus::Pausing => "pausing"@,
        NormalizedStatus::Paused => "paused"@,
        NormalizedStatus::Resuming => "resuming"@,
        NormalizedStatus::Stopping => "stopping"@,
        NormalizedStatus::Stopped => "completed"@,
        NormalizedStatus::PrintCompleted => "completed"@,
        NormalizedStatus::SelfChecking => "active"@,
        NormalizedStatus::AutoLeveling => "active"@,
        NormalizedStatus::PidCalibrating => "active"@,
        NormalizedStatus::ResonanceTesting => "active"@,
        NormalizedStatus::Updating => "active"@,
        NormalizedStatus::FileTransferring => "active"@,
        NormalizedStatus::Homing => "active"@,
        NormalizedStatus::Preheating => "active"@,
        NormalizedStatus::FilamentOperating => "active"@,
        NormalizedStatus::ExtruderOperating => "active"@,
        NormalizedStatus::VideoComposing => "active"@,
        NormalizedStatus::EmergencyStop => "error"@,
        NormalizedStatus::PowerLossRecovery => "active"@,
        NormalizedStatus::Busy => "active"@,
        NormalizedStatus::Error => "error"@,
        NormalizedStatus::IdNotMatch => "error"@,
        NormalizedStatus::AuthError => "error"@,
        NormalizedStatus::Unknown => "idle"@,
    }
}

/// Whether a normalized status belongs to a print job that is under way.
pub open spec fn active_print(s: NormalizedStatus) -> bool {
    s is Printing
    || s is Pausing
    || s is Paused
    || s is Resuming
    || s is Stopping
    || s is Preheating
    || s is AutoLeveling
    || s is Homing
}

impl NormalizedStatus {
    /// The human-readable label, such as "Print Completed".
    pub fn label(self) -> (r: &'static str)
        ensures
            r@ == label_of(self),
    {
        match self {
            NormalizedStatus::Offline => "Offline",
            NormalizedStatus::Initializing => "Initializing",
            NormalizedStatus::Idle => "Idle",
            NormalizedStatus::Printing => "Printing",
            NormalizedStatus::Pausing => "Pausing",
            NormalizedStatus::Paused => "Paused",
            NormalizedStatus::Resuming => "Resuming",
            NormalizedStatus::Stopping => "Stopping",
            NormalizedStatus::Stopped => "Stopped",
            NormalizedStatus::PrintCompleted => "Print Completed",
            NormalizedStatus::SelfChecking => "Self Checking",
            NormalizedStatus::AutoLeveling => "Auto Leveling",
            NormalizedStatus::PidCalibrating => "PID Calibrating",
            NormalizedStatus::ResonanceTesting => "Resonance Testing",
            NormalizedStatus::Updating => "Updating",
            NormalizedStatus::FileTransferring => "File Transferring",
            NormalizedStatus::Homing => "Homing",
            NormalizedStatus::Preheating => "Preheating",
            NormalizedStatus::FilamentOperating => "Filament Operating",
            NormalizedStatus::ExtruderOperating => "Extruder Operating",
            NormalizedStatus::VideoComposing => "Video Composing",
            NormalizedStatus::EmergencyStop => "Emergency Stop",
            NormalizedStatus::PowerLossRecovery => "Power Loss Recovery",
            NormalizedStatus::Busy => "Busy",
            NormalizedStatus::Error => "Error",
            NormalizedStatus::IdNotMatch => "ID Not Match",
            NormalizedStatus::AuthError => "Auth Error",
            NormalizedStatus::Unknown => "Unknown",
        }
    }

    /// The badge variant: "error", "pausing", "paused", "resuming", "stopping",
    /// "active", "completed" or "idle".
    pub fn variant(self) -> (r: &'static str)
        ensures
            r@ == variant_of(self),
    {
        match self {
            NormalizedStatus::Offline => "error",
            NormalizedStatus::Initializing => "idle",
            NormalizedStatus::Idle => "idle",
            NormalizedStatus::Printing => "active",
            NormalizedStatus::Pausing => "pausing",
            NormalizedStatus::Paused => "paused",
            NormalizedStatus::Resuming => "resuming",
            NormalizedStatus::Stopping => "stopping",
            NormalizedStatus::Stopped => "completed",
            NormalizedStatus::PrintCompleted => "completed",
            NormalizedStatus::SelfChecking => "active",
            NormalizedStatus::AutoLeveling => "active",
            NormalizedStatus::PidCalibrating => "active",
            NormalizedStatus::ResonanceTesting => "active",
            NormalizedStatus::Updating => "active",
            NormalizedStatus::FileTransferring => "active",
            NormalizedStatus::Homing => "active",
            NormalizedStatus::Preheating => "active",
            NormalizedStatus::FilamentOperating => "active",
            NormalizedStatus::ExtruderOperating => "active",
            NormalizedStatus::VideoComposing => "active",
            NormalizedStatus::EmergencyStop => "error",
            NormalizedStatus::PowerLossRecovery => "active",
            NormalizedStatus::Busy => "active",
            NormalizedStatus::Error => "error",
            NormalizedStatus::IdNotMatch => "error",
            NormalizedStatus::AuthError => "error",
            NormalizedStatus::Unknown => "idle",
        }
    }

    /// Whether this status belongs to a print job that is under way.
    pub fn is_active_print(self) -> (r: bool)
        ensures
            r == active_print(self),
    {
        match self {
            NormalizedStatus::Printing
            | NormalizedStatus::Pausing
            | NormalizedStatus::Paused
            | NormalizedStatus::Resuming
            | NormalizedStatus::Stopping
            | NormalizedStatus::Preheating
            | NormalizedStatus::AutoLeveling
            | NormalizedStatus::Homing => true,
            _ => false,
        }
    }
}

/// The normalized meaning of a main machine status code.
pub open spec fn normalized_of(status: i64) -> NormalizedStatus {
    match status {
        -1 => NormalizedStatus::Offline,
        0 => NormalizedStatus::Initializing,
        1 => NormalizedStatus::Idle,
        2 => NormalizedStatus::Printing,
        3 | 4 => NormalizedStatus::FilamentOperating,
        5 => NormalizedStatus::AutoLeveling,
        6 => NormalizedStatus::PidCalibrating,
        7 => NormalizedStatus::ResonanceTesting,
        8 => NormalizedStatus::SelfChecking,
        9 => NormalizedStatus::Updating,
        10 => NormalizedStatus::Homing,
        11 => NormalizedStatus::FileTransferring,
        12 => NormalizedStatus::VideoComposing,
        13 => NormalizedStatus::ExtruderOperating,
        14 => NormalizedStatus::EmergencyStop,
        15 => NormalizedStatus::PowerLossRecovery,
        998 => NormalizedStatus::Busy,
        999 => NormalizedStatus::Error,
        1000 => NormalizedStatus::IdNotMatch,
        1001 => NormalizedStatus::AuthError,
        _ => NormalizedStatus::Unknown,
    }
}

/// Maps a main machine status code to its normalized meaning; codes that the
/// protocol does not define are `Unknown`.
pub fn normalize_machine_status(status: i64) -> (r: NormalizedStatus)
    ensures
        r == normalized_of(status),
{
    match status {
        -1 => NormalizedStatus::Offline,
        0 => NormalizedStatus::Initializing,
        1 => NormalizedStatus::Idle,
        2 => NormalizedStatus::Printing,
        3 | 4 => NormalizedStatus::FilamentOperating,
        5 => NormalizedStatus::AutoLeveling,
        6 => NormalizedStatus::PidCalibrating,
        7 => NormalizedStatus::ResonanceTesting,
        8 => NormalizedStatus::SelfChecking,
        9 => NormalizedStatus::Updating,
        10 => NormalizedStatus::Homing,
        11 => NormalizedStatus::FileTransferring,
        12 => NormalizedStatus::VideoComposing,
        13 => NormalizedStatus::ExtruderOperating,
        14 => NormalizedStatus::EmergencyStop,
        15 => NormalizedStatus::PowerLossRecovery,
        998 => NormalizedStatus::Busy,
        999 => NormalizedStatus::Error,
        1000 => NormalizedStatus::IdNotMatch,
        1001 => NormalizedStatus::AuthError,
        _ => NormalizedStatus::Unknown,
    }
}

/// One row of the status table: a sub-status code, the main statuses under
/// which it occurs, its protocol name and description, and its meaning.
#[derive(Clone, Copy, Debug, PartialEq, Eq)]
pub struct StatusMapping {
    pub status: &'static [i64],
    pub sub_status: i64,
    pub name: &'static str,
    pub description: &'static str,
    pub normalized: NormalizedStatus,
}

/// The mathematical content of a [`StatusMapping`].
pub struct StatusMappingView {
    pub status: Seq<i64>,
    pub sub_status: i64,
    pub name: Seq<char>,
    pub description: Seq<char>,
    pub normalized: NormalizedStatus,
}

impl View for StatusMapping {
    type V = StatusMappingView;

    open spec fn view(&self) -> StatusMappingView {
        StatusMappingView {
            status: self.status@,
            sub_status: self.sub_status,
            name: self.name@,
            description: self.description@,
            normalized: self.normalized,
        }
    }
}

pub open spec fn row(
    status: Seq<i64>,
    sub_status: i64,
    name: Seq<char>,
    description: Seq<char>,
    normalized: NormalizedStatus,
) -> StatusMappingView {
    StatusMappingView { status, sub_status, name, description, normalized }
}

/// The status table, in the order in which it is searched.
pub open spec fn status_table() -> Seq<StatusMappingView> {
    seq![
        row(seq![2i64], 0, "NONE"@, "No specific sub-status"@, NormalizedStatus::Printing),
        row(seq![2i64], 1041, "IDLE_IN_PRINT"@, "Idle within a print"@, NormalizedStatus::Printing),
        row(seq![2i64, 10i64], 1045, "EXTRUDER_PREHEATING"@, "Nozzle heating up"@, NormalizedStatus::Preheating),
        row(seq![2i64], 1096, "EXTRUDER_PREHEATING_2"@, "Nozzle heating"@, NormalizedStatus::Preheating),
        row(seq![2i64], 1405, "BED_PREHEATING"@, "Bed heating up"@, NormalizedStatus::Preheating),
        row(seq![2i64], 1906, "BED_PREHEATING_2"@, "Bed heating"@, NormalizedStatus::Preheating),
        row(seq![2i64], 2075, "PRINTING"@, "Printing"@, NormalizedStatus::Printing),
        row(seq![2i64], 2077, "PRINTING_COMPLETED"@, "Print completed successfully"@, NormalizedStatus::PrintCompleted),
        row(seq![2i64], 2401, "RESUMING"@, "Resuming from pause"@, NormalizedStatus::Resuming),
        row(seq![2i64], 2402, "RESUMING_COMPLETED"@, "Resume completed"@, NormalizedStatus::Printing),
        row(seq![2i64], 2501, "PAUSING"@, "Pause in progress"@, NormalizedStatus::Pausing),
        row(seq![2i64], 2502, "PAUSED"@, "Print paused"@, NormalizedStatus::Paused),
        row(seq![2i64], 2505, "PAUSED_2"@, "Paused variant"@, NormalizedStatus::Paused),
        row(seq![2i64], 2503, "STOPPING"@, "Stopping the print"@, NormalizedStatus::Stopping),
        row(seq![2i64], 2504, "STOPPED"@, "Print stopped or cancelled"@, NormalizedStatus::Stopped),
        row(seq![2i64], 2801, "HOMING"@, "Homing during print"@, NormalizedStatus::Homing),
        row(seq![2i64], 2802, "HOMING_COMPLETED"@, "Mid-print homing completed"@, NormalizedStatus::Printing),
        row(seq![2i64], 2901, "AUTO_LEVELING"@, "Leveling during print"@, NormalizedStatus::AutoLeveling),
        row(seq![2i64], 2902, "AUTO_LEVELING_COMPLETED"@, "Mid-print leveling completed"@, NormalizedStatus::Printing),
        row(seq![2i64, 10i64], 1066, "EXTRUDER_TEMP_WAIT"@, "Extruder temperature reached"@, NormalizedStatus::ExtruderOperating),
        row(seq![3i64, 4i64], 1133, "FILAMENT_LOADING"@, "Loading filament"@, NormalizedStatus::FilamentOperating),
        row(seq![3i64, 4i64], 1134, "FILAMENT_LOADING_2"@, "Filament loading phase 2"@, NormalizedStatus::FilamentOperating),
        row(seq![3i64, 4i64], 1135, "FILAMENT_LOADING_3"@, "Filament loading phase 3"@, NormalizedStatus::FilamentOperating),
        row(seq![3i64, 4i64], 1136, "FILAMENT_LOADING_COMPLETED"@, "Filament loading completed"@, NormalizedStatus::Idle),
        row(seq![3i64, 4i64], 1143, "FILAMENT_PRE_UNLOAD"@, "Preparing to unload filament"@, NormalizedStatus::FilamentOperating),
        row(seq![3i64, 4i64], 1144, "FILAMENT_UNLOADING"@, "Unloading filament"@, NormalizedStatus::FilamentOperating),
        row(seq![3i64, 4i64], 1145, "FILAMENT_UNLOADING_COMPLETED"@, "Filament unloading completed"@, NormalizedStatus::Idle),
        row(seq![5i64], 2901, "AL_AUTO_LEVELING"@, "Bed probing in progress"@, NormalizedStatus::AutoLeveling),
        row(seq![5i64], 2902, "AL_AUTO_LEVELING_COMPLETED"@, "Bed leveling completed"@, NormalizedStatus::Idle),
        row(seq![6i64], 1503, "PID_CALIBRATING"@, "PID calibration running"@, NormalizedStatus::PidCalibrating),
        row(seq![6i64], 1504, "PID_CALIBRATING_2"@, "PID calibration phase 2"@, NormalizedStatus::PidCalibrating),
        row(seq![6i64], 1505, "PID_CALIBRATING_COMPLETED"@, "PID calibration completed"@, NormalizedStatus::Idle),
        row(seq![6i64], 1506, "PID_CALIBRATING_FAILED"@, "PID calibration failed"@, NormalizedStatus::Error),
        row(seq![7i64], 5934, "RESONANCE_TEST"@, "Resonance test running"@, NormalizedStatus::ResonanceTesting),
        row(seq![7i64], 5935, "RESONANCE_TEST_COMPLETED"@, "Resonance test completed"@, NormalizedStatus::Idle),
        row(seq![7i64], 5936, "RESONANCE_TEST_FAILED"@, "Resonance test failed"@, NormalizedStatus::Error),
        row(seq![9i64], 2061, "UPDATING_INIT"@, "Firmware update initializing"@, NormalizedStatus::Updating),
        row(seq![9i64], 2071, "UPDATING_1"@, "Firmware update phase 1"@, NormalizedStatus::Updating),
        row(seq![9i64], 2072, "UPDATING_2"@, "Firmware update phase 2"@, NormalizedStatus::Updating),
        row(seq![9i64], 2073, "UPDATING_3"@, "Firmware update phase 3"@, NormalizedStatus::Updating),
        row(seq![9i64], 2074, "UPDATING_COMPLETED"@, "Firmware update completed"@, NormalizedStatus::Idle),
        row(seq![9i64], 2075, "UPDATING_FAILED"@, "Firmware update failed"@, NormalizedStatus::Error),
        row(seq![10i64], 2801, "H_HOMING"@, "Homing in progress"@, NormalizedStatus::Homing),
        row(seq![10i64], 2802, "H_HOMING_COMPLETED"@, "Homing completed"@, NormalizedStatus::Idle),
        row(seq![10i64], 2803, "H_HOMING_FAILED"@, "Homing failed"@, NormalizedStatus::Error),
        row(seq![11i64], 3000, "UPLOADING_FILE"@, "File upload in progress"@, NormalizedStatus::FileTransferring),
        row(seq![11i64], 3001, "UPLOADING_FILE_COMPLETED"@, "File upload completed"@, NormalizedStatus::Idle),
        row(seq![13i64], 1061, "EXTRUDER_LOADING"@, "Extruder filament loading"@, NormalizedStatus::ExtruderOperating),
        row(seq![13i64], 1062, "EXTRUDER_UNLOADING"@, "Extruder filament unloading"@, NormalizedStatus::ExtruderOperating),
        row(seq![13i64], 1063, "EXTRUDER_LOADING_COMPLETED"@, "Extruder loading completed"@, NormalizedStatus::Idle),
        row(seq![13i64], 1064, "EXTRUDER_UNLOADING_COMPLETED"@, "Extruder unloading completed"@, NormalizedStatus::Idle),
    ]
}

/// The status table as values.
pub fn status_mappings() -> (v: Vec<StatusMapping>)
    ensures
        v@.len() == status_table().len(),
        forall|i: int| 0 <= i < v@.len() ==> #[trigger] v@[i]@ == status_table()[i],
{
    let v = vec![
        StatusMapping { status: &[2], sub_status: 0, name: "NONE", description: "No specific sub-status", normalized: NormalizedStatus::Printing },
        StatusMapping { status: &[2], sub_status: 1041, name: "IDLE_IN_PRINT", description: "Idle within a print", normalized: NormalizedStatus::Printing },
        StatusMapping { status: &[2, 10], sub_status: 1045, name: "EXTRUDER_PREHEATING", description: "Nozzle heating up", normalized: NormalizedStatus::Preheating },
        StatusMapping { status: &[2], sub_status: 1096, name: "EXTRUDER_PREHEATING_2", description: "Nozzle heating", normalized: NormalizedStatus::Preheating },
        StatusMapping { status: &[2], sub_status: 1405, name: "BED_PREHEATING", description: "Bed heating up", normalized: NormalizedStatus::Preheating },
        StatusMapping { status: &[2], sub_status: 1906, name: "BED_PREHEATING_2", description: "Bed heating", normalized: NormalizedStatus::Preheating },
        StatusMapping { status: &[2], sub_status: 2075, name: "PRINTING", description: "Printing", normalized: NormalizedStatus::Printing },
        StatusMapping { status: &[2], sub_status: 2077, name: "PRINTING_COMPLETED", description: "Print completed successfully", normalized: NormalizedStatus::PrintCompleted },
        StatusMapping { status: &[2], sub_status: 2401, name: "RESUMING", description: "Resuming from pause", normalized: NormalizedStatus::Resuming },
        StatusMapping { status: &[2], sub_status: 2402, name: "RESUMING_COMPLETED", description: "Resume completed", normalized: NormalizedStatus::Printing },
        StatusMapping { status: &[2], sub_status: 2501, name: "PAUSING", description: "Pause in progress", normalized: NormalizedStatus::Pausing },
        StatusMapping { status: &[2], sub_status: 2502, name: "PAUSED", description: "Print paused", normalized: NormalizedStatus::Paused },
        StatusMapping { status: &[2], sub_status: 2505, name: "PAUSED_2", description: "Paused variant", normalized: NormalizedStatus::Paused },
        StatusMapping { status: &[2], sub_status: 2503, name: "STOPPING", description: "Stopping the print", normalized: NormalizedStatus::Stopping },
        StatusMapping { status: &[2], sub_status: 2504, name: "STOPPED", description: "Print stopped or cancelled", normalized: NormalizedStatus::Stopped },
        StatusMapping { status: &[2], sub_status: 2801, name: "HOMING", description: "Homing during print", normalized: NormalizedStatus::Homing },
        StatusMapping { status: &[2], sub_status: 2802, name: "HOMING_COMPLETED", description: "Mid-print homing completed", normalized: NormalizedStatus::Printing },
        StatusMapping { status: &[2], sub_status: 2901, name: "AUTO_LEVELING", description: "Leveling during print", normalized: NormalizedStatus::AutoLeveling },
        StatusMapping { status: &[2], sub_status: 2902, name: "AUTO_LEVELING_COMPLETED", description: "Mid-print leveling completed", normalized: NormalizedStatus::Printing },
        StatusMapping { status: &[2, 10], sub_status: 1066, name: "EXTRUDER_TEMP_WAIT", description: "Extruder temperature reached", normalized: NormalizedStatus::ExtruderOperating },
        StatusMapping { status: &[3, 4], sub_status: 1133, name: "FILAMENT_LOADING", description: "Loading filament", normalized: NormalizedStatus::FilamentOperating },
        StatusMapping { status: &[3, 4], sub_status: 1134, name: "FILAMENT_LOADING_2", description: "Filament loading phase 2", normalized: NormalizedStatus::FilamentOperating },
        StatusMapping { status: &[3, 4], sub_status: 1135, name: "FILAMENT_LOADING_3", description: "Filament loading phase 3", normalized: NormalizedStatus::FilamentOperating },
        StatusMapping { status: &[3, 4], sub_status: 1136, name: "FILAMENT_LOADING_COMPLETED", description: "Filament loading completed", normalized: NormalizedStatus::Idle },
        StatusMapping { status: &[3, 4], sub_status: 1143, name: "FILAMENT_PRE_UNLOAD", description: "Preparing to unload filament", normalized: NormalizedStatus::FilamentOperating },
        StatusMapping { status: &[3, 4], sub_status: 1144, name: "FILAMENT_UNLOADING", description: "Unloading filament", normalized: NormalizedStatus::FilamentOperating },
        StatusMapping { status: &[3, 4], sub_status: 1145, name: "FILAMENT_UNLOADING_COMPLETED", description: "Filament unloading completed", normalized: NormalizedStatus::Idle },
        StatusMapping { status: &[5], sub_status: 2901, name: "AL_AUTO_LEVELING", description: "Bed probing in progress", normalized: NormalizedStatus::AutoLeveling },
        StatusMapping { status: &[5], sub_status: 2902, name: "AL_AUTO_LEVELING_COMPLETED", description: "Bed leveling completed", normalized: NormalizedStatus::Idle },
        StatusMapping { status: &[6], sub_status: 1503, name: "PID_CALIBRATING", description: "PID calibration running", normalized: NormalizedStatus::PidCalibrating },
        StatusMapping { status: &[6], sub_status: 1504, name: "PID_CALIBRATING_2", description: "PID calibration phase 2", normalized: NormalizedStatus::PidCalibrating },
        StatusMapping { status: &[6], sub_status: 1505, name: "PID_CALIBRATING_COMPLETED", description: "PID calibration completed", normalized: NormalizedStatus::Idle },
        StatusMapping { status: &[6], sub_status: 1506, name: "PID_CALIBRATING_FAILED", description: "PID calibration failed", normalized: NormalizedStatus::Error },
        StatusMapping { status: &[7], sub_status: 5934, name: "RESONANCE_TEST", description: "Resonance test running", normalized: NormalizedStatus::ResonanceTesting },
        StatusMapping { status: &[7], sub_status: 5935, name: "RESONANCE_TEST_COMPLETED", description: "Resonance test completed", normalized: NormalizedStatus::Idle },
        StatusMapping { status: &[7], sub_status: 5936, name: "RESONANCE_TEST_FAILED", description: "Resonance test failed", normalized: NormalizedStatus::Error },
        StatusMapping { status: &[9], sub_status: 2061, name: "UPDATING_INIT", description: "Firmware update initializing", normalized: NormalizedStatus::Updating },
        StatusMapping { status: &[9], sub_status: 2071, name: "UPDATING_1", description: "Firmware update phase 1", normalized: NormalizedStatus::Updating },
        StatusMapping { status: &[9], sub_status: 2072, name: "UPDATING_2", description: "Firmware update phase 2", normalized: NormalizedStatus::Updating },
        StatusMapping { status: &[9], sub_status: 2073, name: "UPDATING_3", description: "Firmware update phase 3", normalized: NormalizedStatus::Updating },
        StatusMapping { status: &[9], sub_status: 2074, name: "UPDATING_COMPLETED", description: "Firmware update completed", normalized: NormalizedStatus::Idle },
        StatusMapping { status: &[9], sub_status: 2075, name: "UPDATING_FAILED", description: "Firmware update failed", normalized: NormalizedStatus::Error },
        StatusMapping { status: &[10], sub_status: 2801, name: "H_HOMING", description: "Homing in progress", normalized: NormalizedStatus::Homing },
        StatusMapping { status: &[10], sub_status: 2802, name: "H_HOMING_COMPLETED", description: "Homing completed", normalized: NormalizedStatus::Idle },
        StatusMapping { status: &[10], sub_status: 2803, name: "H_HOMING_FAILED", description: "Homing failed", normalized: NormalizedStatus::Error },
        StatusMapping { status: &[11], sub_status: 3000, name: "UPLOADING_FILE", description: "File upload in progress", normalized: NormalizedStatus::FileTransferring },
        StatusMapping { status: &[11], sub_status: 3001, name: "UPLOADING_FILE_COMPLETED", description: "File upload completed", normalized: NormalizedStatus::Idle },
        StatusMapping { status: &[13], sub_status: 1061, name: "EXTRUDER_LOADING", description: "Extruder filament loading", normalized: NormalizedStatus::ExtruderOperating },
        StatusMapping { status: &[13], sub_status: 1062, name: "EXTRUDER_UNLOADING", description: "Extruder filament unloading", normalized: NormalizedStatus::ExtruderOperating },
        StatusMapping { status: &[13], sub_status: 1063, name: "EXTRUDER_LOADING_COMPLETED", description: "Extruder loading completed", normalized: NormalizedStatus::Idle },
        StatusMapping { status: &[13], sub_status: 1064, name: "EXTRUDER_UNLOADING_COMPLETED", description: "Extruder unloading completed", normalized: NormalizedStatus::Idle },
    ];
    assert forall|i: int| 0 <= i < v@.len() implies #[trigger] v@[i]@ == status_table()[i] by {
        assert(v@[i].status@ =~= status_table()[i].status);
    }
    v
}

/// Whether a table row describes the given main status and sub-status.
pub open spec fn row_matches(r: StatusMappingView, status: i64, sub_status: i64) -> bool {
    r.status.contains(status) && r.sub_status == sub_status
}

/// Whether row `i` is the first row of the table that describes the codes.
pub open spec fn first_match(i: int, status: i64, sub_status: i64) -> bool {
    &&& 0 <= i < status_table().len()
    &&& row_matches(status_table()[i], status, sub_status)
    &&& forall|j: int| 0 <= j < i ==> !row_matches(#[trigger] status_table()[j], status, sub_status)
}

/// Finds the first table row for a main status and sub-status.
pub fn lookup_status(status: i64, sub_status: i64) -> (r: Option<StatusMapping>)
    ensures
        r matches Some(m) ==> exists|i: int| first_match(i, status, sub_status) && m@ == status_table()[i],
        r is None <==> forall|i: int|
            0 <= i < status_table().len() ==> !row_matches(#[trigger] status_table()[i], status, sub_status),
{
    let table = status_mappings();
    let mut i: usize = 0;
    while i < table.len()
        invariant
            table@.len() == status_table().len(),
            forall|k: int| 0 <= k < table@.len() ==> #[trigger] table@[k]@ == status_table()[k],
            i <= table@.len(),
            forall|j: int| 0 <= j < i ==> !row_matches(#[trigger] status_table()[j], status, sub_status),
        decreases table@.len() - i,
    {
        let m = table[i];
        assert(m@ == status_table()[i as int]);
        if m.sub_status == sub_status && slice_contains(m.status, status) {
            assert(first_match(i as int, status, sub_status));
            return Some(m);
        }
        i += 1;
    }
    None
}

fn slice_contains(s: &[i64], x: i64) -> (r: bool)
    ensures
        r == s@.contains(x),
{
    let mut i: usize = 0;
    while i < s.len()
        invariant
            i <= s@.len(),
            forall|j: int| 0 <= j < i ==> s@[j] != x,
        decreases s@.len() - i,
    {
        if s[i] == x {
            assert(s@[i as int] == x);
            return true;
        }
        i += 1;
    }
    false
}

} // verus!
