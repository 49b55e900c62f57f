//! The building blocks of the answers to requests for consent messages.

use vstd::prelude::*;
use vstd::string::StringExecFns;
use crate::types::icrc21::{
    icrc21_consent_info, icrc21_consent_message, icrc21_consent_message_metadata,
    icrc21_consent_message_request, icrc21_consent_message_response, icrc21_error,
    icrc21_error_info, icrc21_field_display_message,
};

verus! {

/// The answer that carries a consent message: `generic_message` for a
/// generic display, `intent` and `fields` for a display of fields, with
/// the metadata of the request.
pub fn create_consent_info(
    generic_message: String,
    intent: String,
    fields: Vec<(String, String)>,
    metadata: icrc21_consent_message_metadata,
) -> (r: icrc21_consent_message_response)
    ensures
        r == icrc21_consent_message_response::Ok(
            icrc21_consent_info {
                consent_message: icrc21_consent_message {
                    generic_display_message: generic_message,
                    fields_display_message: icrc21_field_display_message { intent, fields },
                },
                metadata,
            },
        ),
{
    let fields_message = icrc21_field_display_message { intent, fields };
    let consent_message = icrc21_consent_message {
        generic_display_message: generic_message,
        fields_display_message: fields_message,
    };
    let consent_info = icrc21_consent_info { consent_message, metadata };
    Ok(consent_info)
}

/// The answer that refuses a call as unsupported, with `description`.
pub fn create_error_response(description: String) -> (r: icrc21_consent_message_response)
    ensures
        r == icrc21_consent_message_response::Err(
            icrc21_error::UnsupportedCanisterCall(icrc21_error_info { description }),
        ),
{
    let error_info = icrc21_error_info { description };
    Err(icrc21_error::UnsupportedCanisterCall(error_info))
}

/// The description with which a method without consent message is refused.
pub open spec fn unsupported_method(method: Seq<char>) -> Seq<char> {
    "Method '"@ + method + "' is not supported"@
}

/// The answer to a request that names a method without consent message.
pub fn handle_unsupported_method(args: icrc21_consent_message_request) -> (r:
    icrc21_consent_message_response)
    ensures
        r matches Err(icrc21_error::UnsupportedCanisterCall(info)) && info.description@
            == unsupported_method(args.method@),
{
    let mut description = String::from_str("Method '");
    description.append(args.method.as_str());
    description.append("' is not supported");
    create_error_response(description)
}

} // verus!
