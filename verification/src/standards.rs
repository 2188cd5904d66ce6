//! The standards this ledger implements, as self-describing name/url pairs.

use vstd::prelude::*;

verus! {

/// One supported standard: its name and the url of its specification.
pub struct SupportedStandard {
    pub name: String,
    pub url: String,
}

/// One supported block type: its tag and the url of its specification.
pub struct Standard {
    pub name: String,
    pub url: String,
}

/// The standards this ledger implements.
pub fn icrc10_supported_standards() -> (r: Vec<SupportedStandard>)
    ensures
        r@.len() == 4,
        r@[0].name@ == "ICRC-3"@,
        r@[1].name@ == "ICRC-7"@,
        r@[2].name@ == "ICRC-10"@,
        r@[3].name@ == "ICRC-37"@,
{
    let mut r: Vec<SupportedStandard> = Vec::new();
    r.push(
        SupportedStandard {
            name: "ICRC-3".to_owned(),
            url: "https://github.com/dfinity/ICRC-1/tree/main/standards/ICRC-3".to_owned(),
        },
    );
    r.push(
        SupportedStandard {
            name: "ICRC-7".to_owned(),
            url: "https://github.com/dfinity/ICRC/tree/main/ICRCs/ICRC-7".to_owned(),
        },
    );
    r.push(
        SupportedStandard {
            name: "ICRC-10".to_owned(),
            url: "https://github.com/dfinity/ICRC/tree/main/ICRCs/ICRC-10".to_owned(),
        },
    );
    r.push(
        SupportedStandard {
            name: "ICRC-37".to_owned(),
            url: "https://github.com/dfinity/ICRC/tree/main/ICRCs/ICRC-37".to_owned(),
        },
    );
    r
}

/// The block type tags this ledger may write, each with the standard that
/// defines it.
pub fn icrc3_supported_block_types() -> (r: Vec<Standard>)
    ensures
        r@.len() == 9,
        r@[0].name@ == "7mint"@,
        r@[1].name@ == "7burn"@,
        r@[2].name@ == "7xfer"@,
        r@[3].name@ == "7update"@,
        r@[4].name@ == "37approve"@,
        r@[5].name@ == "37approve_coll"@,
        r@[6].name@ == "37revoke"@,
        r@[7].name@ == "37revoke_coll"@,
        r@[8].name@ == "37xfer"@,
{
    let icrc7 = "https://github.com/dfinity/ICRC/blob/main/ICRCs/ICRC-7/ICRC-7.md";
    let icrc37 = "https://github.com/dfinity/ICRC/blob/main/ICRCs/ICRC-37/ICRC-37.md";
    let mut r: Vec<Standard> = Vec::new();
    r.push(Standard { name: "7mint".to_owned(), url: icrc7.to_owned() });
    r.push(Standard { name: "7burn".to_owned(), url: icrc7.to_owned() });
    r.push(Standard { name: "7xfer".to_owned(), url: icrc7.to_owned() });
    r.push(Standard { name: "7update".to_owned(), url: icrc7.to_owned() });
    r.push(Standard { name: "37approve".to_owned(), url: icrc37.to_owned() });
    r.push(Standard { name: "37approve_coll".to_owned(), url: icrc37.to_owned() });
    r.push(Standard { name: "37revoke".to_owned(), url: icrc37.to_owned() });
    r.push(Standard { name: "37revoke_coll".to_owned(), url: icrc37.to_owned() });
    r.push(Standard { name: "37xfer".to_owned(), url: icrc37.to_owned() });
    r
}

} // verus!
