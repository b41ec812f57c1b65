//! The phase badge: what the printer is doing, in words, from its machine
//! status, sub-status and print state.

use vstd::prelude::*;

use crate::status_map::{
    NormalizedStatus, StatusMappingView, first_match, label_of, lookup_status, normalize_machine_status,
    normalized_of, row_matches, status_table, variant_of,
};
use crate::text::str_eq;

verus! {

/// The phase shown to the user.
#[derive(Debug, Clone, Copy)]
pub struct PhaseInfo {
    /// Main machine status.
    pub label: &'static str,
    /// Detailed status within the main status.
    pub detail: Option<&'static str>,
    /// Protocol name of the detailed status.
    pub protocol_name: Option<&'static str>,
    /// Badge variant.
    pub variant: &'static str,
}

pub struct PhaseView {
    pub label: Seq<char>,
    pub detail: Option<Seq<char>>,
    pub protocol_name: Option<Seq<char>>,
    pub variant: Seq<char>,
}

pub open spec fn opt_view(o: Option<&'static str>) -> Option<Seq<char>> {
    match o {
        Some(s) => Some(s@),
        None => None,
    }
}

impl View for PhaseInfo {
    type V = PhaseView;

    open spec fn view(&self) -> PhaseView {
        PhaseView {
            label: self.label@,
            detail: opt_view(self.detail),
            protocol_name: opt_view(self.protocol_name),
            variant: self.variant@,
        }
    }
}

/// The first table row for a main status and sub-status, if any.
pub open spec fn lookup_view(status: i64, sub_status: i64) -> Option<StatusMappingView> {
    if exists|i: int| first_match(i, status, sub_status) {
        Some(status_table()[choose|i: int| first_match(i, status, sub_status)])
    } else {
        None
    }
}

/// The sub-status that the Canvas filament system reports while it works;
/// the protocol documentation does not list it.
pub const CANVAS_OPERATION_SUB_STATUS: i64 = 1066;

pub open spec fn phase(
    label: Seq<char>,
    detail: Option<Seq<char>>,
    protocol_name: Option<Seq<char>>,
    variant: Seq<char>,
) -> PhaseView {
    PhaseView { label, detail, protocol_name, variant }
}

/// The phase for a machine status, sub-status and print state:
/// - status -1 (no connection) is "Offline";
/// - a sub-status in the table gives its description and protocol name,
///   under the label of the main status, or under its own label when it
///   means idle or print completed; the Canvas operation code is reported
///   as an undocumented filament change;
/// - otherwise error statuses show as themselves, then the print state
///   "paused" or "printing" decides, and last the main status.
pub open spec fn phase_of(machine_status: i64, sub_status: i64, print_state: Seq<char>) -> PhaseView {
    if machine_status == -1 {
        phase("Offline"@, None, None, "error"@)
    } else {
        match lookup_view(machine_status, sub_status) {
            Some(m) => {
                let main = normalized_of(machine_status);
                if m.sub_status == CANVAS_OPERATION_SUB_STATUS {
                    phase(
                        label_of(main),
                        Some("Canvas Operation - undocumented"@),
                        Some("FILAMENT_CHANGE"@),
                        variant_of(m.normalized),
                    )
                } else if m.normalized is Idle || m.normalized is PrintCompleted {
                    phase(
                        label_of(m.normalized),
                        Some(m.description),
                        Some(m.name),
                        variant_of(m.normalized),
                    )
                } else {
                    phase(label_of(main), Some(m.description), Some(m.name), variant_of(m.normalized))
                }
            },
            None => {
                let n = normalized_of(machine_status);
                if n is EmergencyStop || n is Error || n is IdNotMatch || n is AuthError {
                    phase(label_of(n), None, None, variant_of(n))
                } else if print_state == "paused"@ {
                    phase("Paused"@, None, None, "paused"@)
                } else if print_state == "printing"@ {
                    phase("Printing"@, None, None, "active"@)
                } else {
                    phase(label_of(n), None, None, variant_of(n))
                }
            },
        }
    }
}

/// A sub-status whose table row means the print completed, or the printer
/// is idle, shows as "Print Completed" or "Idle", whatever the main status
/// says, with the row's description and protocol name; the Canvas
/// operation code is the one exception.
pub proof fn lemma_ended_sub_status_label(machine_status: i64, sub_status: i64, print_state: Seq<char>)
    ensures
        ({
            let p = phase_of(machine_status, sub_status, print_state);
            let m = lookup_view(machine_status, sub_status)->0;
            machine_status != -1 && lookup_view(machine_status, sub_status) is Some
                && m.sub_status != CANVAS_OPERATION_SUB_STATUS ==> ({
                    &&& m.normalized is PrintCompleted ==> p.label == "Print Completed"@
                    &&& m.normalized is Idle ==> p.label == "Idle"@
                    &&& p.detail == Some(m.description)
                    &&& p.protocol_name == Some(m.name)
                    &&& !(m.normalized is PrintCompleted || m.normalized is Idle) ==> p.label == label_of(
                        normalized_of(machine_status),
                    )
                })
        }),
        machine_status == -1 ==> phase_of(machine_status, sub_status, print_state) == (PhaseView {
            label: "Offline"@,
            detail: None,
            protocol_name: None,
            variant: "error"@,
        }),
        machine_status != -1 && lookup_view(machine_status, sub_status) is Some && sub_status
            == CANVAS_OPERATION_SUB_STATUS ==> ({
            let p = phase_of(machine_status, sub_status, print_state);
            &&& p.detail == Some("Canvas Operation - undocumented"@)
            &&& p.protocol_name == Some("FILAMENT_CHANGE"@)
            &&& p.label == label_of(normalized_of(machine_status))
        }),
{
}

proof fn lemma_first_match_unique(i: int, j: int, status: i64, sub_status: i64)
    requires
        first_match(i, status, sub_status),
        first_match(j, status, sub_status),
    ensures
        i == j,
{
    if i < j {
        assert(!row_matches(status_table()[i], status, sub_status));
    } else if j < i {
        assert(!row_matches(status_table()[j], status, sub_status));
    }
}

/// Computes the phase badge.
pub fn build_phase_info(machine_status: i64, sub_status: i64, print_state: &str) -> (p: PhaseInfo)
    ensures
        p@ == phase_of(machine_status, sub_status, print_state@),
{
    if machine_status == -1 {
        return PhaseInfo {
            label: "Offline",
            detail: None,
            protocol_name: None,
            variant: "error",
        };
    }
    match lookup_status(machine_status, sub_status) {
        Some(m) => {
            proof {
                let i = choose|i: int| first_match(i, machine_status, sub_status) && m@ == status_table()[i];
                let k = choose|i: int| first_match(i, machine_status, sub_status);
                lemma_first_match_unique(i, k, machine_status, sub_status);
                assert(lookup_view(machine_status, sub_status) == Some(m@));
            }
            let main = normalize_machine_status(machine_status);
            if m.sub_status == CANVAS_OPERATION_SUB_STATUS {
                return PhaseInfo {
                    label: main.label(),
                    detail: Some("Canvas Operation - undocumented"),
                    protocol_name: Some("FILAMENT_CHANGE"),
                    variant: m.normalized.variant(),
                };
            }
            let mut label = main.label();
            let mut variant = m.normalized.variant();
            match m.normalized {
                NormalizedStatus::Idle | NormalizedStatus::PrintCompleted => {
                    label = m.normalized.label();
                    variant = m.normalized.variant();
                },
                _ => {},
            }
            PhaseInfo {
                label,
                detail: Some(m.description),
                protocol_name: Some(m.name),
                variant,
            }
        },
        None => {
            let normalized = normalize_machine_status(machine_status);
            match normalized {
                NormalizedStatus::EmergencyStop
                | NormalizedStatus::Error
                | NormalizedStatus::IdNotMatch
                | NormalizedStatus::AuthError => {
                    return PhaseInfo {
                        label: normalized.label(),
                        detail: None,
                        protocol_name: None,
                        variant: normalized.variant(),
                    };
                },
                _ => {},
            }
            if str_eq(print_state, "paused") {
                PhaseInfo { label: "Paused", detail: None, protocol_name: None, variant: "paused" }
            } else if str_eq(print_state, "printing") {
                PhaseInfo { label: "Printing", detail: None, protocol_name: None, variant: "active" }
            } else {
                PhaseInfo {
                    label: normalized.label(),
                    detail: None,
                    protocol_name: None,
                    variant: normalized.variant(),
                }
            }
        },
    }
}

} // verus!
