//! The parts of the printer's status reports and registration messages that
//! the library reads, and the numbers of the printer's RPC methods.

use vstd::prelude::*;

verus! {

pub const METHOD_GET_DEVICE_INFO: u16 = 1001;

pub const METHOD_GET_FULL_STATUS: u16 = 1002;

pub const METHOD_START_PRINT: u16 = 1020;

pub const METHOD_PAUSE_PRINT: u16 = 1021;

pub const METHOD_STOP_PRINT: u16 = 1022;

pub const METHOD_RESUME_PRINT: u16 = 1023;

pub const METHOD_HOME_AXES: u16 = 1026;

pub const METHOD_JOG_AXIS: u16 = 1027;

pub const METHOD_SET_LED: u16 = 1029;

pub const METHOD_SET_FAN: u16 = 1030;

pub const METHOD_SET_SPEED_MODE: u16 = 1031;

pub const METHOD_GET_PRINT_HISTORY: u16 = 1036;

pub const METHOD_GET_FILE_LIST: u16 = 1044;

pub const METHOD_GET_FILE_THUMBNAIL: u16 = 1045;

pub const METHOD_GET_FILE_INFO: u16 = 1046;

pub const METHOD_SET_AMS_AUTO_REFILL: u16 = 2004;

pub const METHOD_GET_AMS_INFO: u16 = 2005;

pub const METHOD_STATUS_PUSH: u16 = 6000;

#[derive(Debug, Clone)]
pub struct RegisterRequest {
    pub client_id: String,
    pub request_id: String,
}

#[derive(Debug, Clone)]
pub struct RegisterResponse {
    pub client_id: String,
    pub error: String,
}

#[derive(Debug, Clone)]
pub struct SoftwareVersion {
    pub mcu_version: String,
    pub ota_version: String,
    pub soc_version: String,
}

#[derive(Debug, Clone)]
pub struct DeviceInfo {
    pub hardware_version: String,
    pub hostname: String,
    pub ip: String,
    pub machine_model: String,
    pub protocol_version: String,
    pub sn: String,
    pub software_version: SoftwareVersion,
}

#[derive(Debug, Clone)]
pub struct ExternalDevice {
    pub camera: bool,
    pub device_type: String,
    pub u_disk: bool,
}

#[derive(Debug, Clone)]
pub struct Led {
    pub status: i64,
}

#[derive(Debug, Clone)]
pub struct ToolHead {
    pub homed_axes: String,
}

/// One error that the printer reports.
#[derive(Debug, Clone)]
pub struct ExceptionEntry {
    pub code: i64,
    pub description: Option<String>,
    pub recovery: Option<String>,
}

/// The machine status part of a status report.
#[derive(Debug, Clone)]
pub struct MachineStatus {
    pub exception_status: Option<Vec<ExceptionEntry>>,
    pub progress: i64,
    pub status: i64,
    pub sub_status: i64,
    pub sub_status_reason_code: Option<i64>,
}

/// The print job part of a status report.
#[derive(Debug, Clone)]
pub struct PrintStatus {
    pub bed_mesh_detect: Option<bool>,
    pub current_layer: Option<i64>,
    pub enable: Option<bool>,
    pub filament_detect: Option<bool>,
    pub filename: String,
    pub print_duration: Option<i64>,
    pub remaining_time_sec: Option<i64>,
    pub state: String,
    pub total_duration: Option<i64>,
    pub uuid: String,
}

pub open spec fn opt_text(o: Option<String>) -> Option<Seq<char>> {
    match o {
        Some(s) => Some(s@),
        None => None,
    }
}

pub struct ExceptionView {
    pub code: i64,
    pub description: Option<Seq<char>>,
    pub recovery: Option<Seq<char>>,
}

impl View for ExceptionEntry {
    type V = ExceptionView;

    open spec fn view(&self) -> ExceptionView {
        ExceptionView {
            code: self.code,
            description: opt_text(self.description),
            recovery: opt_text(self.recovery),
        }
    }
}

pub struct MachineStatusView {
    pub exception_status: Option<Seq<ExceptionView>>,
    pub progress: i64,
    pub status: i64,
    pub sub_status: i64,
    pub sub_status_reason_code: Option<i64>,
}

impl View for MachineStatus {
    type V = MachineStatusView;

    open spec fn view(&self) -> MachineStatusView {
        MachineStatusView {
            exception_status: match self.exception_status {
                Some(v) => Some(v@.map_values(|e: ExceptionEntry| e@)),
                None => None,
            },
            progress: self.progress,
            status: self.status,
            sub_status: self.sub_status,
            sub_status_reason_code: self.sub_status_reason_code,
        }
    }
}

pub struct PrintStatusView {
    pub bed_mesh_detect: Option<bool>,
    pub current_layer: Option<i64>,
    pub enable: Option<bool>,
    pub filament_detect: Option<bool>,
    pub filename: Seq<char>,
    pub print_duration: Option<i64>,
    pub remaining_time_sec: Option<i64>,
    pub state: Seq<char>,
    pub total_duration: Option<i64>,
    pub uuid: Seq<char>,
}

impl View for PrintStatus {
    type V = PrintStatusView;

    open spec fn view(&self) -> PrintStatusView {
        PrintStatusView {
            bed_mesh_detect: self.bed_mesh_detect,
            current_layer: self.current_layer,
            enable: self.enable,
            filament_detect: self.filament_detect,
            filename: self.filename@,
            print_duration: self.print_duration,
            remaining_time_sec: self.remaining_time_sec,
            state: self.state@,
            total_duration: self.total_duration,
            uuid: self.uuid@,
        }
    }
}

impl Default for MachineStatus {
    fn default() -> (m: Self)
        ensures
            m.exception_status is None,
            m.progress == 0,
            m.status == 0,
            m.sub_status == 0,
            m.sub_status_reason_code is None,
    {
        MachineStatus {
            exception_status: None,
            progress: 0,
            status: 0,
            sub_status: 0,
            sub_status_reason_code: None,
        }
    }
}

impl Default for PrintStatus {
    fn default() -> (p: Self)
        ensures
            p.bed_mesh_detect is None,
            p.current_layer is None,
            p.enable is None,
            p.filament_detect is None,
            p.filename@.len() == 0,
            p.print_duration is None,
            p.remaining_time_sec is None,
            p.state@.len() == 0,
            p.total_duration is None,
            p.uuid@.len() == 0,
    {
        PrintStatus {
            bed_mesh_detect: None,
            current_layer: None,
            enable: None,
            filament_detect: None,
            filename: String::new(),
            print_duration: None,
            remaining_time_sec: None,
            state: String::new(),
            total_duration: None,
            uuid: String::new(),
        }
    }
}

} // verus!
