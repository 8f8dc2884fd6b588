//! Plain data models of a telephony Web API: status enumerations with their
//! wire names, and the capability set of a phone number.

use vstd::prelude::*;

verus! {

/// Whether risk checking is applied to a message.
#[derive(Clone, Copy, Debug, Eq, PartialEq, Ord, PartialOrd, Hash, Structural)]
pub enum MessageEnumRiskCheck {
    Enable,
    Disable,
}

impl MessageEnumRiskCheck {
    /// The variant's wire name.
    pub fn to_string(&self) -> (r: String)
        ensures
            r@ == match *self {
                MessageEnumRiskCheck::Enable => "enable"@,
                MessageEnumRiskCheck::Disable => "disable"@,
            },
    {
        match *self {
            MessageEnumRiskCheck::Enable => "enable".to_owned(),
            MessageEnumRiskCheck::Disable => "disable".to_owned(),
        }
    }
}

impl Default for MessageEnumRiskCheck {
    /// Risk checking defaults to enabled.
    fn default() -> (r: MessageEnumRiskCheck)
        ensures
            r == MessageEnumRiskCheck::Enable,
    {
        MessageEnumRiskCheck::Enable
    }
}

/// The status a call in progress can be moved to.
#[derive(Clone, Copy, Debug, Eq, PartialEq, Ord, PartialOrd, Hash, Structural)]
pub enum CallEnumUpdateStatus {
    Canceled,
    Completed,
}

impl CallEnumUpdateStatus {
    /// The variant's wire name.
    pub fn to_string(&self) -> (r: String)
        ensures
            r@ == match *self {
                CallEnumUpdateStatus::Canceled => "canceled"@,
                CallEnumUpdateStatus::Completed => "completed"@,
            },
    {
        match *self {
            CallEnumUpdateStatus::Canceled => "canceled".to_owned(),
            CallEnumUpdateStatus::Completed => "completed".to_owned(),
        }
    }
}

impl Default for CallEnumUpdateStatus {
    fn default() -> (r: CallEnumUpdateStatus)
        ensures
            r == CallEnumUpdateStatus::Canceled,
    {
        CallEnumUpdateStatus::Canceled
    }
}

/// The status of a call transcription.
#[derive(Clone, Copy, Debug, Eq, PartialEq, Ord, PartialOrd, Hash, Structural)]
pub enum TranscriptionEnumStatus {
    InProgress,
    Completed,
    Failed,
}

impl TranscriptionEnumStatus {
    /// The variant's wire name.
    pub fn to_string(&self) -> (r: String)
        ensures
            r@ == match *self {
                TranscriptionEnumStatus::InProgress => "in-progress"@,
                TranscriptionEnumStatus::Completed => "completed"@,
                TranscriptionEnumStatus::Failed => "failed"@,
            },
    {
        match *self {
            TranscriptionEnumStatus::InProgress => "in-progress".to_owned(),
            TranscriptionEnumStatus::Completed => "completed".to_owned(),
            TranscriptionEnumStatus::Failed => "failed".to_owned(),
        }
    }
}

impl Default for TranscriptionEnumStatus {
    fn default() -> (r: TranscriptionEnumStatus)
        ensures
            r == TranscriptionEnumStatus::InProgress,
    {
        TranscriptionEnumStatus::InProgress
    }
}

/// The set of Boolean properties that indicate whether a phone number can
/// receive calls or messages; each capability can be `true`, `false` or not
/// reported.
#[derive(Clone, Debug, PartialEq)]
pub struct ApiV2010AccountIncomingPhoneNumberCapabilities {
    pub mms: Option<bool>,
    pub sms: Option<bool>,
    pub voice: Option<bool>,
    pub fax: Option<bool>,
}

impl ApiV2010AccountIncomingPhoneNumberCapabilities {
    /// A capability set with nothing reported yet.
    pub fn new() -> (r: ApiV2010AccountIncomingPhoneNumberCapabilities)
        ensures
            r.mms is None,
            r.sms is None,
            r.voice is None,
            r.fax is None,
    {
        ApiV2010AccountIncomingPhoneNumberCapabilities {
            mms: None,
            sms: None,
            voice: None,
            fax: None,
        }
    }
}

} // verus!
