//! Records that the clinic store hands to the background tasks.
use vstd::prelude::*;

verus! {

/// What a medication log entry says about a dose.
#[derive(Clone, Copy, Debug, PartialEq, Eq, Structural)]
pub enum MedicationStatus {
    Taken,
    Missed,
    Skipped,
}

impl MedicationStatus {
    /// Name under which the store keeps the status.
    pub fn as_str(&self) -> (r: &'static str)
        ensures
            r@ == medication_status_text(*self),
    {
        match self {
            MedicationStatus::Taken => "taken",
            MedicationStatus::Missed => "missed",
            MedicationStatus::Skipped => "skipped",
        }
    }
}

pub open spec fn medication_status_text(s: MedicationStatus) -> Seq<char> {
    match s {
        MedicationStatus::Taken => "taken"@,
        MedicationStatus::Missed => "missed"@,
        MedicationStatus::Skipped => "skipped"@,
    }
}

/// A medication plan: the dose times, as "HH:MM" texts, repeated every day
/// from `start_date` to `end_date`.
pub struct MedicationSchedule {
    pub id: String,
    pub patient_id: String,
    pub prescription_id: String,
    pub start_date: String,
    pub end_date: String,
    pub times_per_day: i32,
    pub medication_times: Vec<String>,
    pub notes: Option<String>,
}

/// One recorded dose event; `taken_at` is in seconds since the Unix epoch.
pub struct MedicationLog {
    pub id: String,
    pub schedule_id: String,
    pub taken_at: i64,
    pub status: MedicationStatus,
    pub notes: Option<String>,
}

/// The display name of a patient.
pub struct PatientName {
    pub patient_id: String,
    pub name: String,
}

} // verus!
