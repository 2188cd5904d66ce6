//! Argument records for every ledger operation, their error taxonomies, and
//! the validation layer: each argument type carries its own rule set,
//! evaluated against the call time, the caller and the collection settings
//! alone — storage-state checks live in the operation layer.

use vstd::prelude::*;
use crate::SECOND;
use crate::bytesutil::bytes_eq;
use crate::settings::Settings;

verus! {

/// The one-byte principal id reserved for the anonymous caller.
pub open spec fn is_anonymous(p: Seq<u8>) -> bool {
    p.len() == 1 && p[0] == 4u8
}

/// Decides [`is_anonymous`].
pub fn principal_is_anonymous(p: &Vec<u8>) -> (r: bool)
    ensures
        r == is_anonymous(p@),
{
    p.len() == 1 && p[0] == 4u8
}

/// Whether `p` occurs in a list of principal ids.
pub open spec fn has_principal(s: Seq<Vec<u8>>, p: Seq<u8>) -> bool {
    exists|i: int| 0 <= i < s.len() && s[i]@ == p
}

/// Decides [`has_principal`].
pub fn principal_in(list: &Vec<Vec<u8>>, p: &Vec<u8>) -> (r: bool)
    ensures
        r == has_principal(list@, p@),
{
    let mut i: usize = 0;
    while i < list.len()
        invariant
            i <= list@.len(),
            forall|j: int| 0 <= j < i ==> list@[j]@ != p@,
        decreases list@.len() - i,
    {
        if bytes_eq(&list[i], p) {
            return true;
        }
        i = i + 1;
    }
    false
}

/// An account: an owner principal and an optional subaccount. This ledger
/// supports only the default subaccount.
pub struct Account {
    pub owner: Vec<u8>,
    pub subaccount: Option<Vec<u8>>,
}

/// A `created_at_time` in nanoseconds lies beyond the permitted clock drift:
/// compared in seconds, it is after `now + permitted_drift`.
pub open spec fn created_in_future(created_ns: u64, now_sec: u64, drift_sec: u64) -> bool {
    created_ns / SECOND > now_sec + drift_sec
}

/// A `created_at_time` in nanoseconds fell out of the deduplication window:
/// compared in seconds, it is before `now - (tx_window + permitted_drift)`.
pub open spec fn created_too_old(created_ns: u64, now_sec: u64, window_sec: u64, drift_sec: u64) -> bool {
    created_ns / SECOND + window_sec + drift_sec < now_sec
}

/// An `expires_at` in nanoseconds is too close to now to accept an approval:
/// compared in seconds, it is before `now + permitted_drift`.
pub open spec fn expiry_too_close(expires_ns: u64, now_sec: u64, drift_sec: u64) -> bool {
    expires_ns / SECOND < now_sec + drift_sec
}

/// How a `created_at_time` fares against the drift and deduplication
/// windows.
pub enum TimeVerdict {
    Fine,
    InFuture { ledger_time: u64 },
    TooEarly,
}

/// Applies the timestamp window rules to an optional `created_at_time`
/// (nanoseconds), at `now_sec` seconds. The future check comes first, as
/// everywhere in this ledger.
pub fn check_created_at(created_at_time: &Option<u64>, now_sec: u64, settings: &Settings) -> (r:
    TimeVerdict)
    ensures
        match r {
            TimeVerdict::Fine => (*created_at_time) matches Some(c) ==> !created_in_future(
                c,
                now_sec,
                settings.permitted_drift,
            ) && !created_too_old(c, now_sec, settings.tx_window, settings.permitted_drift),
            TimeVerdict::InFuture { ledger_time } => (*created_at_time) matches Some(c)
                && created_in_future(c, now_sec, settings.permitted_drift) && ledger_time
                == now_sec + settings.permitted_drift,
            TimeVerdict::TooEarly => (*created_at_time) matches Some(c) && !created_in_future(
                c,
                now_sec,
                settings.permitted_drift,
            ) && created_too_old(c, now_sec, settings.tx_window, settings.permitted_drift),
        },
{
    match created_at_time {
        None => TimeVerdict::Fine,
        Some(c) => {
            let cs: u64 = *c / SECOND;
            if cs as u128 > now_sec as u128 + settings.permitted_drift as u128 {
                TimeVerdict::InFuture { ledger_time: now_sec + settings.permitted_drift }
            } else if (cs as u128) + (settings.tx_window as u128) + (
            settings.permitted_drift as u128) < now_sec as u128 {
                TimeVerdict::TooEarly
            } else {
                TimeVerdict::Fine
            }
        },
    }
}

/// Whether a memo exceeds the configured size bound.
pub open spec fn memo_too_large_spec(memo: Option<Vec<u8>>, max_memo_size: u16) -> bool {
    memo matches Some(m) && m@.len() > max_memo_size
}

/// Decides [`memo_too_large_spec`].
pub fn memo_too_large(memo: &Option<Vec<u8>>, settings: &Settings) -> (r: bool)
    ensures
        r == memo_too_large_spec(*memo, settings.max_memo_size),
{
    match memo {
        Some(m) => m.len() > settings.max_memo_size as usize,
        None => false,
    }
}

// ---------------------------------------------------------------------------
// Transfer.
// ---------------------------------------------------------------------------

/// One item of a transfer batch.
pub struct TransferArg {
    pub from_subaccount: Option<Vec<u8>>,
    pub to: Account,
    pub token_id: u64,
    pub memo: Option<Vec<u8>>,
    pub created_at_time: Option<u64>,
}

/// Why one transfer item failed.
#[derive(Debug)]
pub enum TransferError {
    NonExistingTokenId,
    InvalidRecipient,
    Unauthorized,
    TooOld,
    CreatedInFuture { ledger_time: u64 },
    Duplicate { duplicate_of: u64 },
    GenericError { error_code: u64, message: String },
    GenericBatchError { error_code: u64, message: String },
}

pub type TransferResult = Result<u64, TransferError>;

/// The first transfer rule an item breaks, if any, in checking order.
pub enum TransferVerdict {
    Fine,
    SubaccountUnsupported,
    BadRecipient,
    MemoTooLarge,
    InFuture { ledger_time: u64 },
    TooEarly,
}

pub open spec fn transfer_verdict_spec(
    a: TransferArg,
    now_sec: u64,
    caller: Seq<u8>,
    settings: Settings,
) -> TransferVerdict {
    if a.from_subaccount is Some || a.to.subaccount is Some {
        TransferVerdict::SubaccountUnsupported
    } else if is_anonymous(a.to.owner@) || a.to.owner@ == caller {
        TransferVerdict::BadRecipient
    } else if memo_too_large_spec(a.memo, settings.max_memo_size) {
        TransferVerdict::MemoTooLarge
    } else if a.created_at_time matches Some(c) && created_in_future(
        c,
        now_sec,
        settings.permitted_drift,
    ) {
        TransferVerdict::InFuture { ledger_time: (now_sec + settings.permitted_drift) as u64 }
    } else if a.created_at_time matches Some(c) && created_too_old(
        c,
        now_sec,
        settings.tx_window,
        settings.permitted_drift,
    ) {
        TransferVerdict::TooEarly
    } else {
        TransferVerdict::Fine
    }
}

/// The one transfer error a verdict is reported with.
pub open spec fn transfer_error_for(v: TransferVerdict, e: TransferError) -> bool {
    match v {
        TransferVerdict::Fine => false,
        TransferVerdict::SubaccountUnsupported => e matches TransferError::GenericError {
            error_code,
            message,
        } && error_code == 0 && message@ == "subaccount is not supported"@,
        TransferVerdict::BadRecipient => e is InvalidRecipient,
        TransferVerdict::MemoTooLarge => e matches TransferError::GenericError {
            error_code,
            message,
        } && error_code == 0 && message@ == "memo size is too large"@,
        TransferVerdict::InFuture { ledger_time } => e matches TransferError::CreatedInFuture {
            ledger_time: lt,
        } && lt == ledger_time,
        TransferVerdict::TooEarly => e is TooOld,
    }
}

impl TransferArg {
    /// The subaccount / recipient / memo / timestamp rules for a transfer,
    /// checked in that order; storage state plays no part here.
    pub fn validate(&self, now_sec: u64, caller: &Vec<u8>, settings: &Settings) -> (r: Result<
        (),
        TransferError,
    >)
        ensures
            ({
                let v = transfer_verdict_spec(*self, now_sec, caller@, *settings);
                match r {
                    Ok(()) => v is Fine,
                    Err(e) => transfer_error_for(v, e),
                }
            }),
    {
        if self.from_subaccount.is_some() || self.to.subaccount.is_some() {
            return Err(TransferError::GenericError {
                error_code: 0,
                message: "subaccount is not supported".to_owned(),
            });
        }
        if principal_is_anonymous(&self.to.owner) || bytes_eq(&self.to.owner, caller) {
            return Err(TransferError::InvalidRecipient);
        }
        if memo_too_large(&self.memo, settings) {
            return Err(TransferError::GenericError {
                error_code: 0,
                message: "memo size is too large".to_owned(),
            });
        }
        match check_created_at(&self.created_at_time, now_sec, settings) {
            TimeVerdict::InFuture { ledger_time } => Err(TransferError::CreatedInFuture {
                ledger_time,
            }),
            TimeVerdict::TooEarly => Err(TransferError::TooOld),
            TimeVerdict::Fine => Ok(()),
        }
    }
}

// ---------------------------------------------------------------------------
// Mint.
// ---------------------------------------------------------------------------

/// A mint batch: one fresh sub-item of `token_id` for each listed holder.
pub struct MintArg {
    pub token_id: u64,
    pub holders: Vec<Vec<u8>>,
}

/// What a new token group is created from.
pub struct CreateTokenArg {
    pub name: String,
    pub description: Option<String>,
    pub asset_name: String,
    pub asset_content_type: String,
    pub asset_content: Vec<u8>,
    pub metadata: crate::val::Metadata,
    pub supply_cap: Option<u32>,
    pub author: Vec<u8>,
    pub challenge: Option<Vec<u8>>,
}

/// A field-wise update of an unminted token; absent fields are left alone.
pub struct UpdateTokenArg {
    pub id: u64,
    pub name: Option<String>,
    pub description: Option<String>,
    pub asset_name: Option<String>,
    pub asset_content_type: Option<String>,
    pub asset_content: Option<Vec<u8>>,
    pub metadata: Option<crate::val::Metadata>,
    pub supply_cap: Option<u32>,
    pub author: Option<Vec<u8>>,
}

/// Why a mint failed.
#[derive(Debug)]
pub enum MintError {
    NonExistingTokenId,
    SupplyCapReached,
    GenericBatchError { error_code: u64, message: String },
}

pub type MintResult = Result<u64, MintError>;

// ---------------------------------------------------------------------------
// Approvals.
// ---------------------------------------------------------------------------

/// The common payload of an approval: whom to entitle, until when.
pub struct ApprovalInfo {
    pub spender: Account,
    pub from_subaccount: Option<Vec<u8>>,
    pub expires_at: Option<u64>,
    pub created_at_time: Option<u64>,
    pub memo: Option<Vec<u8>>,
}

/// One item of a token-approval batch.
pub struct ApproveTokenArg {
    pub token_id: u64,
    pub approval_info: ApprovalInfo,
}

/// Why one token-approval item failed.
#[derive(Debug)]
pub enum ApproveTokenError {
    InvalidSpender,
    Unauthorized,
    NonExistingTokenId,
    TooOld,
    CreatedInFuture { ledger_time: u64 },
    GenericError { error_code: u64, message: String },
    GenericBatchError { error_code: u64, message: String },
}

pub type ApproveTokenResult = Result<u64, ApproveTokenError>;

/// The approval rule set shared by token-level and collection-level
/// approvals, as one verdict. It checks, in order: subaccounts are
/// unsupported; the spender must be a real principal other than the caller;
/// the timestamp window; the expiry margin; the memo bound.
pub enum ApprovalVerdict {
    Fine,
    SubaccountUnsupported,
    BadSpender,
    InFuture { ledger_time: u64 },
    TooEarly,
    ExpiryTooClose,
    MemoTooLarge,
}

pub open spec fn approval_verdict_spec(
    info: ApprovalInfo,
    now_sec: u64,
    caller: Seq<u8>,
    settings: Settings,
) -> ApprovalVerdict {
    if info.from_subaccount is Some || info.spender.subaccount is Some {
        ApprovalVerdict::SubaccountUnsupported
    } else if is_anonymous(info.spender.owner@) || info.spender.owner@ == caller {
        ApprovalVerdict::BadSpender
    } else if info.created_at_time matches Some(c) && created_in_future(
        c,
        now_sec,
        settings.permitted_drift,
    ) {
        ApprovalVerdict::InFuture { ledger_time: (now_sec + settings.permitted_drift) as u64 }
    } else if info.created_at_time matches Some(c) && created_too_old(
        c,
        now_sec,
        settings.tx_window,
        settings.permitted_drift,
    ) {
        ApprovalVerdict::TooEarly
    } else if info.expires_at matches Some(e) && expiry_too_close(
        e,
        now_sec,
        settings.permitted_drift,
    ) {
        ApprovalVerdict::ExpiryTooClose
    } else if memo_too_large_spec(info.memo, settings.max_memo_size) {
        ApprovalVerdict::MemoTooLarge
    } else {
        ApprovalVerdict::Fine
    }
}

impl ApprovalInfo {
    /// Applies the shared approval rule set.
    pub fn verdict(&self, now_sec: u64, caller: &Vec<u8>, settings: &Settings) -> (r:
        ApprovalVerdict)
        ensures
            r == approval_verdict_spec(*self, now_sec, caller@, *settings),
    {
        if self.from_subaccount.is_some() || self.spender.subaccount.is_some() {
            return ApprovalVerdict::SubaccountUnsupported;
        }
        if principal_is_anonymous(&self.spender.owner) || bytes_eq(&self.spender.owner, caller) {
            return ApprovalVerdict::BadSpender;
        }
        match check_created_at(&self.created_at_time, now_sec, settings) {
            TimeVerdict::InFuture { ledger_time } => {
                return ApprovalVerdict::InFuture { ledger_time };
            },
            TimeVerdict::TooEarly => {
                return ApprovalVerdict::TooEarly;
            },
            TimeVerdict::Fine => {},
        }
        if let Some(e) = self.expires_at {
            let es: u128 = (e / SECOND) as u128;
            if es < now_sec as u128 + settings.permitted_drift as u128 {
                return ApprovalVerdict::ExpiryTooClose;
            }
        }
        if memo_too_large(&self.memo, settings) {
            return ApprovalVerdict::MemoTooLarge;
        }
        ApprovalVerdict::Fine
    }
}

/// The one token-approval error a verdict is reported with.
pub open spec fn approve_token_error_for(v: ApprovalVerdict, e: ApproveTokenError) -> bool {
    match v {
        ApprovalVerdict::Fine => false,
        ApprovalVerdict::SubaccountUnsupported => e matches ApproveTokenError::GenericError {
            error_code,
            message,
        } && error_code == 0 && message@ == "subaccount is not supported"@,
        ApprovalVerdict::BadSpender => e is InvalidSpender,
        ApprovalVerdict::InFuture { ledger_time } => e matches ApproveTokenError::CreatedInFuture {
            ledger_time: lt,
        } && lt == ledger_time,
        ApprovalVerdict::TooEarly => e is TooOld,
        ApprovalVerdict::ExpiryTooClose => e matches ApproveTokenError::GenericError {
            error_code,
            message,
        } && error_code == 0 && message@ == "approval expiration time is too close"@,
        ApprovalVerdict::MemoTooLarge => e matches ApproveTokenError::GenericError {
            error_code,
            message,
        } && error_code == 0 && message@ == "memo size is too large"@,
    }
}

impl ApproveTokenArg {
    /// The validation rules for one token-approval item.
    pub fn validate(&self, now_sec: u64, caller: &Vec<u8>, settings: &Settings) -> (r: Result<
        (),
        ApproveTokenError,
    >)
        ensures
            ({
                let v = approval_verdict_spec(self.approval_info, now_sec, caller@, *settings);
                match r {
                    Ok(()) => v is Fine,
                    Err(e) => approve_token_error_for(v, e),
                }
            }),
    {
        match self.approval_info.verdict(now_sec, caller, settings) {
            ApprovalVerdict::Fine => Ok(()),
            ApprovalVerdict::SubaccountUnsupported => Err(ApproveTokenError::GenericError {
                error_code: 0,
                message: "subaccount is not supported".to_owned(),
            }),
            ApprovalVerdict::BadSpender => Err(ApproveTokenError::InvalidSpender),
            ApprovalVerdict::InFuture { ledger_time } => Err(ApproveTokenError::CreatedInFuture {
                ledger_time,
            }),
            ApprovalVerdict::TooEarly => Err(ApproveTokenError::TooOld),
            ApprovalVerdict::ExpiryTooClose => Err(ApproveTokenError::GenericError {
                error_code: 0,
                message: "approval expiration time is too close".to_owned(),
            }),
            ApprovalVerdict::MemoTooLarge => Err(ApproveTokenError::GenericError {
                error_code: 0,
                message: "memo size is too large".to_owned(),
            }),
        }
    }
}

/// One item of a collection-approval batch.
pub struct ApproveCollectionArg {
    pub approval_info: ApprovalInfo,
}

/// Why one collection-approval item failed.
#[derive(Debug)]
pub enum ApproveCollectionError {
    InvalidSpender,
    TooOld,
    CreatedInFuture { ledger_time: u64 },
    GenericError { error_code: u64, message: String },
    GenericBatchError { error_code: u64, message: String },
}

pub type ApproveCollectionResult = Result<u64, ApproveCollectionError>;

/// The one collection-approval error a verdict is reported with.
pub open spec fn approve_coll_error_for(v: ApprovalVerdict, e: ApproveCollectionError) -> bool {
    match v {
        ApprovalVerdict::Fine => false,
        ApprovalVerdict::SubaccountUnsupported => e matches ApproveCollectionError::GenericError {
            error_code,
            message,
        } && error_code == 0 && message@ == "subaccount is not supported"@,
        ApprovalVerdict::BadSpender => e is InvalidSpender,
        ApprovalVerdict::InFuture { ledger_time } => e matches
            ApproveCollectionError::CreatedInFuture { ledger_time: lt } && lt == ledger_time,
        ApprovalVerdict::TooEarly => e is TooOld,
        ApprovalVerdict::ExpiryTooClose => e matches ApproveCollectionError::GenericError {
            error_code,
            message,
        } && error_code == 0 && message@ == "approval expiration time is too close"@,
        ApprovalVerdict::MemoTooLarge => e matches ApproveCollectionError::GenericError {
            error_code,
            message,
        } && error_code == 0 && message@ == "memo size is too large"@,
    }
}

impl ApproveCollectionArg {
    /// The validation rules for one collection-approval item.
    pub fn validate(&self, now_sec: u64, caller: &Vec<u8>, settings: &Settings) -> (r: Result<
        (),
        ApproveCollectionError,
    >)
        ensures
            ({
                let v = approval_verdict_spec(self.approval_info, now_sec, caller@, *settings);
                match r {
                    Ok(()) => v is Fine,
                    Err(e) => approve_coll_error_for(v, e),
                }
            }),
    {
        match self.approval_info.verdict(now_sec, caller, settings) {
            ApprovalVerdict::Fine => Ok(()),
            ApprovalVerdict::SubaccountUnsupported => Err(ApproveCollectionError::GenericError {
                error_code: 0,
                message: "subaccount is not supported".to_owned(),
            }),
            ApprovalVerdict::BadSpender => Err(ApproveCollectionError::InvalidSpender),
            ApprovalVerdict::InFuture { ledger_time } => Err(
                ApproveCollectionError::CreatedInFuture { ledger_time },
            ),
            ApprovalVerdict::TooEarly => Err(ApproveCollectionError::TooOld),
            ApprovalVerdict::ExpiryTooClose => Err(ApproveCollectionError::GenericError {
                error_code: 0,
                message: "approval expiration time is too close".to_owned(),
            }),
            ApprovalVerdict::MemoTooLarge => Err(ApproveCollectionError::GenericError {
                error_code: 0,
                message: "memo size is too large".to_owned(),
            }),
        }
    }
}

// ---------------------------------------------------------------------------
// Revocations.
// ---------------------------------------------------------------------------

/// One item of a token-approval revocation batch; no `spender` revokes every
/// approval on the item.
pub struct RevokeTokenApprovalArg {
    pub spender: Option<Account>,
    pub from_subaccount: Option<Vec<u8>>,
    pub token_id: u64,
    pub memo: Option<Vec<u8>>,
    pub created_at_time: Option<u64>,
}

/// Why one token-approval revocation failed.
#[derive(Debug)]
pub enum RevokeTokenApprovalError {
    ApprovalDoesNotExist,
    Unauthorized,
    NonExistingTokenId,
    TooOld,
    CreatedInFuture { ledger_time: u64 },
    GenericError { error_code: u64, message: String },
    GenericBatchError { error_code: u64, message: String },
}

pub type RevokeTokenApprovalResult = Result<u64, RevokeTokenApprovalError>;

/// The revocation rule set shared by both revocation kinds, as one verdict.
pub enum RevokeVerdict {
    Fine,
    SubaccountUnsupported,
    BadSpender,
    InFuture { ledger_time: u64 },
    TooEarly,
    MemoTooLarge,
}

pub open spec fn revoke_verdict_spec(
    spender: Option<Account>,
    from_subaccount: Option<Vec<u8>>,
    memo: Option<Vec<u8>>,
    created_at_time: Option<u64>,
    now_sec: u64,
    caller: Seq<u8>,
    settings: Settings,
) -> RevokeVerdict {
    if from_subaccount is Some || (spender matches Some(s) && s.subaccount is Some) {
        RevokeVerdict::SubaccountUnsupported
    } else if spender matches Some(s) && (is_anonymous(s.owner@) || s.owner@ == caller) {
        RevokeVerdict::BadSpender
    } else if created_at_time matches Some(c) && created_in_future(
        c,
        now_sec,
        settings.permitted_drift,
    ) {
        RevokeVerdict::InFuture { ledger_time: (now_sec + settings.permitted_drift) as u64 }
    } else if created_at_time matches Some(c) && created_too_old(
        c,
        now_sec,
        settings.tx_window,
        settings.permitted_drift,
    ) {
        RevokeVerdict::TooEarly
    } else if memo_too_large_spec(memo, settings.max_memo_size) {
        RevokeVerdict::MemoTooLarge
    } else {
        RevokeVerdict::Fine
    }
}

/// Applies the shared revocation rule set.
pub fn revoke_verdict(
    spender: &Option<Account>,
    from_subaccount: &Option<Vec<u8>>,
    memo: &Option<Vec<u8>>,
    created_at_time: &Option<u64>,
    now_sec: u64,
    caller: &Vec<u8>,
    settings: &Settings,
) -> (r: RevokeVerdict)
    ensures
        r == revoke_verdict_spec(
            *spender,
            *from_subaccount,
            *memo,
            *created_at_time,
            now_sec,
            caller@,
            *settings,
        ),
{
    let sub_bad = match spender {
        Some(s) => s.subaccount.is_some(),
        None => false,
    };
    if from_subaccount.is_some() || sub_bad {
        return RevokeVerdict::SubaccountUnsupported;
    }
    let spender_bad = match spender {
        Some(s) => principal_is_anonymous(&s.owner) || bytes_eq(&s.owner, caller),
        None => false,
    };
    if spender_bad {
        return RevokeVerdict::BadSpender;
    }
    match check_created_at(created_at_time, now_sec, settings) {
        TimeVerdict::InFuture { ledger_time } => {
            return RevokeVerdict::InFuture { ledger_time };
        },
        TimeVerdict::TooEarly => {
            return RevokeVerdict::TooEarly;
        },
        TimeVerdict::Fine => {},
    }
    if memo_too_large(memo, settings) {
        return RevokeVerdict::MemoTooLarge;
    }
    RevokeVerdict::Fine
}

/// The one token-revocation error a verdict is reported with.
pub open spec fn revoke_token_error_for(v: RevokeVerdict, e: RevokeTokenApprovalError) -> bool {
    match v {
        RevokeVerdict::Fine => false,
        RevokeVerdict::SubaccountUnsupported => e matches RevokeTokenApprovalError::GenericError {
            error_code,
            message,
        } && error_code == 0 && message@ == "subaccount is not supported"@,
        RevokeVerdict::BadSpender => e matches RevokeTokenApprovalError::GenericError {
            error_code,
            message,
        } && error_code == 0 && message@ == "invalid spender"@,
        RevokeVerdict::InFuture { ledger_time } => e matches
            RevokeTokenApprovalError::CreatedInFuture { ledger_time: lt } && lt == ledger_time,
        RevokeVerdict::TooEarly => e is TooOld,
        RevokeVerdict::MemoTooLarge => e matches RevokeTokenApprovalError::GenericError {
            error_code,
            message,
        } && error_code == 0 && message@ == "memo size is too large"@,
    }
}

impl RevokeTokenApprovalArg {
    /// The validation rules for one token-approval revocation.
    pub fn validate(&self, now_sec: u64, caller: &Vec<u8>, settings: &Settings) -> (r: Result<
        (),
        RevokeTokenApprovalError,
    >)
        ensures
            ({
                let v = revoke_verdict_spec(
                    self.spender,
                    self.from_subaccount,
                    self.memo,
                    self.created_at_time,
                    now_sec,
                    caller@,
                    *settings,
                );
                match r {
                    Ok(()) => v is Fine,
                    Err(e) => revoke_token_error_for(v, e),
                }
            }),
    {
        match revoke_verdict(
            &self.spender,
            &self.from_subaccount,
            &self.memo,
            &self.created_at_time,
            now_sec,
            caller,
            settings,
        ) {
            RevokeVerdict::Fine => Ok(()),
            RevokeVerdict::SubaccountUnsupported => Err(RevokeTokenApprovalError::GenericError {
                error_code: 0,
                message: "subaccount is not supported".to_owned(),
            }),
            RevokeVerdict::BadSpender => Err(RevokeTokenApprovalError::GenericError {
                error_code: 0,
                message: "invalid spender".to_owned(),
            }),
            RevokeVerdict::InFuture { ledger_time } => Err(
                RevokeTokenApprovalError::CreatedInFuture { ledger_time },
            ),
            RevokeVerdict::TooEarly => Err(RevokeTokenApprovalError::TooOld),
            RevokeVerdict::MemoTooLarge => Err(RevokeTokenApprovalError::GenericError {
                error_code: 0,
                message: "memo size is too large".to_owned(),
            }),
        }
    }
}

/// One item of a collection-approval revocation batch; no `spender` revokes
/// the caller's every collection-level approval.
pub struct RevokeCollectionApprovalArg {
    pub spender: Option<Account>,
    pub from_subaccount: Option<Vec<u8>>,
    pub memo: Option<Vec<u8>>,
    pub created_at_time: Option<u64>,
}

/// Why one collection-approval revocation failed.
#[derive(Debug)]
pub enum RevokeCollectionApprovalError {
    ApprovalDoesNotExist,
    TooOld,
    CreatedInFuture { ledger_time: u64 },
    GenericError { error_code: u64, message: String },
    GenericBatchError { error_code: u64, message: String },
}

pub type RevokeCollectionApprovalResult = Result<u64, RevokeCollectionApprovalError>;

/// The one collection-revocation error a verdict is reported with.
pub open spec fn revoke_coll_error_for(v: RevokeVerdict, e: RevokeCollectionApprovalError) -> bool {
    match v {
        RevokeVerdict::Fine => false,
        RevokeVerdict::SubaccountUnsupported => e matches
            RevokeCollectionApprovalError::GenericError { error_code, message } && error_code == 0
            && message@ == "subaccount is not supported"@,
        RevokeVerdict::BadSpender => e matches RevokeCollectionApprovalError::GenericError {
            error_code,
            message,
        } && error_code == 0 && message@ == "invalid spender"@,
        RevokeVerdict::InFuture { ledger_time } => e matches
            RevokeCollectionApprovalError::CreatedInFuture { ledger_time: lt } && lt == ledger_time,
        RevokeVerdict::TooEarly => e is TooOld,
        RevokeVerdict::MemoTooLarge => e matches RevokeCollectionApprovalError::GenericError {
            error_code,
            message,
        } && error_code == 0 && message@ == "memo size is too large"@,
    }
}

impl RevokeCollectionApprovalArg {
    /// The validation rules for one collection-approval revocation.
    pub fn validate(&self, now_sec: u64, caller: &Vec<u8>, settings: &Settings) -> (r: Result<
        (),
        RevokeCollectionApprovalError,
    >)
        ensures
            ({
                let v = revoke_verdict_spec(
                    self.spender,
                    self.from_subaccount,
                    self.memo,
                    self.created_at_time,
                    now_sec,
                    caller@,
                    *settings,
                );
                match r {
                    Ok(()) => v is Fine,
                    Err(e) => revoke_coll_error_for(v, e),
                }
            }),
    {
        match revoke_verdict(
            &self.spender,
            &self.from_subaccount,
            &self.memo,
            &self.created_at_time,
            now_sec,
            caller,
            settings,
        ) {
            RevokeVerdict::Fine => Ok(()),
            RevokeVerdict::SubaccountUnsupported => Err(
                RevokeCollectionApprovalError::GenericError {
                    error_code: 0,
                    message: "subaccount is not supported".to_owned(),
                },
            ),
            RevokeVerdict::BadSpender => Err(RevokeCollectionApprovalError::GenericError {
                error_code: 0,
                message: "invalid spender".to_owned(),
            }),
            RevokeVerdict::InFuture { ledger_time } => Err(
                RevokeCollectionApprovalError::CreatedInFuture { ledger_time },
            ),
            RevokeVerdict::TooEarly => Err(RevokeCollectionApprovalError::TooOld),
            RevokeVerdict::MemoTooLarge => Err(RevokeCollectionApprovalError::GenericError {
                error_code: 0,
                message: "memo size is too large".to_owned(),
            }),
        }
    }
}

// ---------------------------------------------------------------------------
// Transfer-from, and approval queries.
// ---------------------------------------------------------------------------

/// One item of a transfer-from batch: a spender moving `from`'s sub-item.
pub struct TransferFromArg {
    pub spender_subaccount: Option<Vec<u8>>,
    pub from: Account,
    pub to: Account,
    pub token_id: u64,
    pub memo: Option<Vec<u8>>,
    pub created_at_time: Option<u64>,
}

/// Why one transfer-from item failed.
#[derive(Debug)]
pub enum TransferFromError {
    NonExistingTokenId,
    InvalidRecipient,
    Unauthorized,
    TooOld,
    CreatedInFuture { ledger_time: u64 },
    Duplicate { duplicate_of: u64 },
    GenericError { error_code: u64, message: String },
    GenericBatchError { error_code: u64, message: String },
}

pub type TransferFromResult = Result<u64, TransferFromError>;

/// The first transfer-from rule an item breaks, if any, in checking order.
pub enum TransferFromVerdict {
    Fine,
    SubaccountUnsupported,
    BadOwner,
    BadRecipient,
    MemoTooLarge,
    InFuture { ledger_time: u64 },
    TooEarly,
}

pub open spec fn transfer_from_verdict_spec(
    a: TransferFromArg,
    now_sec: u64,
    caller: Seq<u8>,
    settings: Settings,
) -> TransferFromVerdict {
    if a.spender_subaccount is Some || a.from.subaccount is Some || a.to.subaccount is Some {
        TransferFromVerdict::SubaccountUnsupported
    } else if is_anonymous(a.from.owner@) || a.from.owner@ == caller {
        TransferFromVerdict::BadOwner
    } else if is_anonymous(a.to.owner@) || a.to.owner@ == a.from.owner@ {
        TransferFromVerdict::BadRecipient
    } else if memo_too_large_spec(a.memo, settings.max_memo_size) {
        TransferFromVerdict::MemoTooLarge
    } else if a.created_at_time matches Some(c) && created_in_future(
        c,
        now_sec,
        settings.permitted_drift,
    ) {
        TransferFromVerdict::InFuture { ledger_time: (now_sec + settings.permitted_drift) as u64 }
    } else if a.created_at_time matches Some(c) && created_too_old(
        c,
        now_sec,
        settings.tx_window,
        settings.permitted_drift,
    ) {
        TransferFromVerdict::TooEarly
    } else {
        TransferFromVerdict::Fine
    }
}

/// The one transfer-from error a verdict is reported with.
pub open spec fn transfer_from_error_for(v: TransferFromVerdict, e: TransferFromError) -> bool {
    match v {
        TransferFromVerdict::Fine => false,
        TransferFromVerdict::SubaccountUnsupported => e matches TransferFromError::GenericError {
            error_code,
            message,
        } && error_code == 0 && message@ == "subaccount is not supported"@,
        TransferFromVerdict::BadOwner => e is Unauthorized,
        TransferFromVerdict::BadRecipient => e is InvalidRecipient,
        TransferFromVerdict::MemoTooLarge => e matches TransferFromError::GenericError {
            error_code,
            message,
        } && error_code == 0 && message@ == "memo size is too large"@,
        TransferFromVerdict::InFuture { ledger_time } => e matches
            TransferFromError::CreatedInFuture { ledger_time: lt } && lt == ledger_time,
        TransferFromVerdict::TooEarly => e is TooOld,
    }
}

impl TransferFromArg {
    /// The subaccount / owner / recipient / memo / timestamp rules for a
    /// transfer-from, checked in that order. The executor may not be the
    /// owner: this path is for third-party spenders.
    pub fn validate(&self, now_sec: u64, caller: &Vec<u8>, settings: &Settings) -> (r: Result<
        (),
        TransferFromError,
    >)
        ensures
            ({
                let v = transfer_from_verdict_spec(*self, now_sec, caller@, *settings);
                match r {
                    Ok(()) => v is Fine,
                    Err(e) => transfer_from_error_for(v, e),
                }
            }),
    {
        if self.spender_subaccount.is_some() || self.from.subaccount.is_some()
            || self.to.subaccount.is_some() {
            return Err(TransferFromError::GenericError {
                error_code: 0,
                message: "subaccount is not supported".to_owned(),
            });
        }
        if principal_is_anonymous(&self.from.owner) || bytes_eq(&self.from.owner, caller) {
            return Err(TransferFromError::Unauthorized);
        }
        if principal_is_anonymous(&self.to.owner) || bytes_eq(&self.to.owner, &self.from.owner) {
            return Err(TransferFromError::InvalidRecipient);
        }
        if memo_too_large(&self.memo, settings) {
            return Err(TransferFromError::GenericError {
                error_code: 0,
                message: "memo size is too large".to_owned(),
            });
        }
        match check_created_at(&self.created_at_time, now_sec, settings) {
            TimeVerdict::InFuture { ledger_time } => Err(TransferFromError::CreatedInFuture {
                ledger_time,
            }),
            TimeVerdict::TooEarly => Err(TransferFromError::TooOld),
            TimeVerdict::Fine => Ok(()),
        }
    }
}

/// One item of an approval-check query.
pub struct IsApprovedArg {
    pub spender: Account,
    pub from_subaccount: Option<Vec<u8>>,
    pub token_id: u64,
}

/// One token-level approval, as queries report it.
pub struct TokenApproval {
    pub token_id: u64,
    pub approval_info: ApprovalInfo,
}

/// A collection-level approval, as queries report it.
pub type CollectionApproval = ApprovalInfo;

} // verus!
