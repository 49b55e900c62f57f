//! The messages by which the registry tells a signer what a call will do.

use vstd::prelude::*;

verus! {

/// The language and time zone of a consent message.
#[allow(non_camel_case_types)]
#[derive(Clone, Debug, PartialEq, Eq)]
pub struct icrc21_consent_message_metadata {
    /// A BCP-47 language tag.
    pub language: String,
    /// The user's offset from UTC in minutes; UTC where absent.
    pub utc_offset_minutes: Option<i16>,
}

/// The kind of device that will show the message.
#[allow(non_camel_case_types)]
#[derive(Clone, Copy, Debug, PartialEq, Eq)]
pub enum icrc21_device_spec {
    /// A display for long, formatted documents.
    GenericDisplay,
    /// A display for a list of titled fields in plain text.
    FieldsDisplay,
}

/// What the user prefers of a consent message.
#[allow(non_camel_case_types)]
#[derive(Clone, Debug, PartialEq, Eq)]
pub struct icrc21_consent_message_spec {
    pub metadata: icrc21_consent_message_metadata,
    pub device_spec: Option<icrc21_device_spec>,
}

/// A request for the consent message of one call.
#[allow(non_camel_case_types)]
#[derive(Clone, Debug, PartialEq, Eq)]
pub struct icrc21_consent_message_request {
    /// The name of the method to be called.
    pub method: String,
    /// The encoded argument of the call.
    pub arg: Vec<u8>,
    pub user_preferences: icrc21_consent_message_spec,
}

/// A message as a list of titled fields under one intent.
#[allow(non_camel_case_types)]
#[derive(Clone, Debug, PartialEq, Eq)]
pub struct icrc21_field_display_message {
    pub intent: String,
    pub fields: Vec<(String, String)>,
}

/// A consent message, in both of its forms.
#[allow(non_camel_case_types)]
#[derive(Clone, Debug, PartialEq, Eq)]
pub struct icrc21_consent_message {
    pub generic_display_message: String,
    pub fields_display_message: icrc21_field_display_message,
}

/// A consent message with the metadata it was written for.
#[allow(non_camel_case_types)]
#[derive(Clone, Debug, PartialEq, Eq)]
pub struct icrc21_consent_info {
    pub consent_message: icrc21_consent_message,
    pub metadata: icrc21_consent_message_metadata,
}

/// A technical description of an error, for developers.
#[allow(non_camel_case_types)]
#[derive(Clone, Debug, PartialEq, Eq)]
pub struct icrc21_error_info {
    pub description: String,
}

/// An error with a code that a machine can read.
#[allow(non_camel_case_types)]
#[derive(Clone, Debug, PartialEq, Eq)]
pub struct icrc21_generic_error {
    pub error_code: u64,
    pub description: String,
}

/// Why no consent message is given.
#[allow(non_camel_case_types)]
#[derive(Clone, Debug, PartialEq, Eq)]
pub enum icrc21_error {
    /// The call is none that the registry supports.
    UnsupportedCanisterCall(icrc21_error_info),
    /// There is no consent message for this call.
    ConsentMessageUnavailable(icrc21_error_info),
    /// Payment was missing or insufficient.
    InsufficientPayment(icrc21_generic_error),
    /// Any other error.
    GenericError(icrc21_error_info),
}

/// The answer to a request for a consent message.
#[allow(non_camel_case_types)]
pub type icrc21_consent_message_response = Result<icrc21_consent_info, icrc21_error>;

} // verus!
