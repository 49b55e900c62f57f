//! Which standards the registry supports.

use vstd::prelude::*;
use vstd::string::StringExecFns;
use crate::types::icrc10::SupportedStandard;

verus! {

/// The names of the supported standards, in the order of the answer.
pub open spec fn standard_names() -> Seq<Seq<char>> {
    seq!["ICRC-37"@, "ICRC-3"@, "ICRC-7"@, "ICRC-10"@, "ICRC-21"@]
}

/// The addresses of the texts of the supported standards, in the order of
/// the answer.
pub open spec fn standard_urls() -> Seq<Seq<char>> {
    seq![
        "https://github.com/dfinity/ICRC/blob/main/ICRCs/ICRC-37/ICRC-37.md"@,
        "https://github.com/dfinity/ICRC-1/blob/main/standards/ICRC-3/README.md"@,
        "https://github.com/dfinity/ICRC/blob/main/ICRCs/ICRC-7/ICRC-7.md"@,
        "https://github.com/dfinity/ICRC/blob/main/ICRCs/ICRC-10/ICRC-10.md"@,
        "https://github.com/dfinity/wg-identity-authentication/blob/main/topics/ICRC-21/icrc_21_consent_msg.md"@,
    ]
}

fn standard(name: &str, url: &str) -> (r: SupportedStandard)
    ensures
        r.name@ == name@,
        r.url@ == url@,
{
    SupportedStandard { name: String::from_str(name), url: String::from_str(url) }
}

/// The standards that the registry supports.
pub fn icrc10_supported_standards() -> (r: Vec<SupportedStandard>)
    ensures
        r@.len() == 5,
        forall|i: int|
            0 <= i < 5 ==> (#[trigger] r@[i]).name@ == standard_names()[i] && r@[i].url@
                == standard_urls()[i],
{
    let mut standards: Vec<SupportedStandard> = Vec::new();
    standards.push(
        standard("ICRC-37", "https://github.com/dfinity/ICRC/blob/main/ICRCs/ICRC-37/ICRC-37.md"),
    );
    standards.push(
        standard("ICRC-3", "https://github.com/dfinity/ICRC-1/blob/main/standards/ICRC-3/README.md"),
    );
    standards.push(
        standard("ICRC-7", "https://github.com/dfinity/ICRC/blob/main/ICRCs/ICRC-7/ICRC-7.md"),
    );
    standards.push(
        standard("ICRC-10", "https://github.com/dfinity/ICRC/blob/main/ICRCs/ICRC-10/ICRC-10.md"),
    );
    standards.push(
        standard(
            "ICRC-21",
            "https://github.com/dfinity/wg-identity-authentication/blob/main/topics/ICRC-21/icrc_21_consent_msg.md",
        ),
    );
    standards
}

} // verus!
