//! Wire names and defaults of the plain API data models.

use drag_reorder::models::{
    ApiV2010AccountIncomingPhoneNumberCapabilities, CallEnumUpdateStatus, MessageEnumRiskCheck,
    TranscriptionEnumStatus,
};

#[test]
fn risk_check_wire_names_and_default() {
    assert_eq!(MessageEnumRiskCheck::Enable.to_string(), "enable");
    assert_eq!(MessageEnumRiskCheck::Disable.to_string(), "disable");
    assert_eq!(MessageEnumRiskCheck::default(), MessageEnumRiskCheck::Enable);
}

#[test]
fn call_update_status_wire_names_and_default() {
    assert_eq!(CallEnumUpdateStatus::Canceled.to_string(), "canceled");
    assert_eq!(CallEnumUpdateStatus::Completed.to_string(), "completed");
    assert_eq!(CallEnumUpdateStatus::default(), CallEnumUpdateStatus::Canceled);
}

#[test]
fn transcription_status_wire_names_and_default() {
    assert_eq!(TranscriptionEnumStatus::InProgress.to_string(), "in-progress");
    assert_eq!(TranscriptionEnumStatus::Completed.to_string(), "completed");
    assert_eq!(TranscriptionEnumStatus::Failed.to_string(), "failed");
    assert_eq!(TranscriptionEnumStatus::default(), TranscriptionEnumStatus::InProgress);
}

#[test]
fn new_capability_set_reports_nothing() {
    let capabilities = ApiV2010AccountIncomingPhoneNumberCapabilities::new();
    assert_eq!(capabilities.mms, None);
    assert_eq!(capabilities.sms, None);
    assert_eq!(capabilities.voice, None);
    assert_eq!(capabilities.fax, None);
}
