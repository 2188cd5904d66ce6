use sft_ledger::challenge::ChallengeArg;
use sft_ledger::collection::InitArg;
use sft_ledger::crypto::val_hash;
use sft_ledger::ids::SftId;
use sft_ledger::ledger::Ledger;
use sft_ledger::tx::{BlockDecodeError, Transaction};
use sft_ledger::types::{
    Account, ApprovalInfo, ApproveCollectionArg, ApproveCollectionError, MintArg, MintError,
    TransferArg, TransferError,
};
use sft_ledger::val::{entries_find, Val};
use sft_ledger::SECOND;

fn principal(tag: u8) -> Vec<u8> {
    vec![tag]
}

fn account(tag: u8) -> Account {
    Account { owner: principal(tag), subaccount: None }
}

fn init_args() -> InitArg {
    InitArg {
        symbol: "SFT".to_string(),
        name: "A ledger".to_string(),
        description: None,
        logo: None,
        assets_origin: None,
        supply_cap: None,
        max_query_batch_size: None,
        max_update_batch_size: None,
        max_take_value: None,
        default_take_value: None,
        max_memo_size: None,
        atomic_batch_transfers: None,
        tx_window: Some(3600),
        permitted_drift: Some(120),
        max_approvals_per_token_or_collection: None,
        max_revoke_approvals: None,
    }
}

fn fresh_ledger() -> Ledger {
    let mut l = Ledger::init(init_args(), 1000);
    l.admin_set_managers(vec![principal(9)], 1000).unwrap();
    l.admin_set_minters(vec![principal(9)], 1000).unwrap();
    l
}

fn create_token_args(tag: u8) -> sft_ledger::types::CreateTokenArg {
    sft_ledger::types::CreateTokenArg {
        name: format!("token {}", tag),
        description: None,
        asset_name: "art.png".to_string(),
        asset_content_type: "image/png".to_string(),
        asset_content: vec![tag, 1, 2, 3],
        metadata: Vec::new(),
        supply_cap: None,
        author: principal(9),
        challenge: None,
    }
}

fn transfer_arg(to: u8, token_id: u64) -> TransferArg {
    TransferArg {
        from_subaccount: None,
        to: account(to),
        token_id,
        memo: None,
        created_at_time: None,
    }
}

#[test]
fn block_works() {
    let tx = Transaction {
        ts: 1,
        op: "7mint".to_string(),
        tid: 1,
        from: Some(principal(4)),
        to: Some(principal(4)),
        spender: None,
        exp: None,
        meta: None,
        memo: None,
        created_at_time: None,
    };
    let block = tx.into_block(Some(vec![0u8; 32]));
    println!("{:?}", val_hash(&block));
}

#[test]
fn id_round_trip() {
    for (g, i) in [(1u32, 1u32), (1, 2), (7, 9), (u32::MAX, u32::MAX)] {
        let packed = SftId(g, i).to_u64();
        let back = SftId::from_u64(packed);
        assert_eq!(back.0, g);
        assert_eq!(back.1, i);
    }
    assert_eq!(SftId(1, 1).to_u64(), (1u64 << 32) | 1);
    assert_eq!(SftId(1, 1).token_index(), 0);
    assert_eq!(SftId(3, 4).next().1, 5);
}

#[test]
fn mint_then_transfer_scenario() {
    let mut l = fresh_ledger();
    let id = l.sft_create_token(&principal(9), create_token_args(0), 1000).unwrap();
    assert_eq!(id, 1);

    // Mint one sub-item of group 1 to holder A: block index 0, first block.
    let mint = l
        .sft_mint(
            &principal(9),
            MintArg { token_id: SftId(1, 0).to_u64(), holders: vec![principal(1)] },
            2000 * SECOND,
        )
        .unwrap()
        .unwrap();
    assert_eq!(mint, 0);
    let owners = l.icrc7_owner_of(&vec![SftId(1, 1).to_u64()]).unwrap();
    assert_eq!(owners[0].as_deref(), Some(&principal(1)[..]));

    // The genesis block has no phash.
    match &l.blocks[0] {
        Val::Dict(es) => assert!(entries_find(es, "phash").is_none()),
        _ => panic!("block must be a map"),
    }

    // A transfers sub-item 1 to B: block index 1 chained to block 0.
    let res = l
        .icrc7_transfer(&principal(1), vec![transfer_arg(2, SftId(1, 1).to_u64())], 3000 * SECOND)
        .unwrap();
    assert!(matches!(res[0], Some(Ok(1))));
    let owners = l.icrc7_owner_of(&vec![SftId(1, 1).to_u64()]).unwrap();
    assert_eq!(owners[0].as_deref(), Some(&principal(2)[..]));

    let b0_hash = val_hash(&l.blocks[0]);
    match &l.blocks[1] {
        Val::Dict(es) => {
            let i = entries_find(es, "phash").expect("second block carries phash");
            match &es[i].1 {
                Val::Blob(b) => assert_eq!(b, &b0_hash),
                _ => panic!("phash must be a blob"),
            }
        },
        _ => panic!("block must be a map"),
    }

    // The reverse index moved with the item: A holds nothing, B holds (1, 1).
    assert!(!l.holder_tokens.iter().any(|e| e.0 == principal(1)));
    let b_entry = l.holder_tokens.iter().find(|e| e.0 == principal(2)).expect("B is indexed");
    assert!(b_entry.1.iter().any(|(tid, items)| *tid == 1 && items.iter().any(|(sid, _)| *sid == 1)));
}

#[test]
fn chain_recomputes_to_recorded_head() {
    let mut l = fresh_ledger();
    l.sft_create_token(&principal(9), create_token_args(0), 1000).unwrap();
    l.sft_mint(
        &principal(9),
        MintArg {
            token_id: SftId(1, 0).to_u64(),
            holders: vec![principal(1), principal(2), principal(3)],
        },
        2000 * SECOND,
    )
    .unwrap()
    .unwrap();
    assert_eq!(l.total(), 3);
    for i in 1..l.blocks.len() {
        let prev_hash = val_hash(&l.blocks[i - 1]);
        match &l.blocks[i] {
            Val::Dict(es) => {
                let pi = entries_find(es, "phash").expect("phash present");
                match &es[pi].1 {
                    Val::Blob(b) => assert_eq!(b, &prev_hash),
                    _ => panic!("phash must be a blob"),
                }
            },
            _ => panic!("block must be a map"),
        }
    }
    let last_hash = val_hash(l.blocks.last().unwrap());
    assert_eq!(l.collection.last_block_hash.as_ref(), Some(&last_hash));
    assert_eq!(l.collection.last_block_index, Some(2));
    // Distinct blocks hash differently.
    assert_ne!(val_hash(&l.blocks[0]), val_hash(&l.blocks[1]));
}

#[test]
fn tokens_in_pagination_tiles() {
    let mut l = fresh_ledger();
    l.sft_create_token(&principal(9), create_token_args(0), 1000).unwrap();
    l.sft_mint(
        &principal(9),
        MintArg {
            token_id: SftId(1, 0).to_u64(),
            holders: (1..=5u8).map(principal).collect(),
        },
        2000 * SECOND,
    )
    .unwrap()
    .unwrap();
    let mut seen: Vec<u64> = Vec::new();
    let mut prev: Option<u64> = None;
    loop {
        let page = l.sft_tokens_in(SftId(1, 0).to_u64(), prev, Some(2));
        if page.is_empty() {
            break;
        }
        prev = Some(*page.last().unwrap());
        seen.extend_from_slice(&page);
    }
    let full: Vec<u64> = (1..=5u32).map(|s| SftId(1, s).to_u64()).collect();
    assert_eq!(seen, full);
}

#[test]
fn asset_hash_is_a_digest() {
    let mut l = fresh_ledger();
    l.sft_create_token(&principal(9), create_token_args(0), 1000).unwrap();
    let hash = &l.tokens[0].asset_hash;
    assert_eq!(hash.len(), 32);
    assert_ne!(&hash[..4], &create_token_args(0).asset_content[..]);
}

#[test]
fn block_decode_round_trip_and_errors() {
    let tx = Transaction {
        ts: 42,
        op: "7xfer".to_string(),
        tid: SftId(1, 1).to_u64(),
        from: Some(principal(1)),
        to: Some(principal(2)),
        spender: None,
        exp: None,
        meta: None,
        memo: Some(vec![9, 9]),
        created_at_time: Some(41),
    };
    let block = tx.into_block(None);
    let back = Transaction::try_from_block(&block).unwrap();
    assert_eq!(back.ts, 42);
    assert_eq!(back.op, "7xfer");
    assert_eq!(back.tid, SftId(1, 1).to_u64());
    assert_eq!(back.from, Some(principal(1)));
    assert_eq!(back.to, Some(principal(2)));
    assert_eq!(back.memo, Some(vec![9, 9]));
    assert_eq!(back.created_at_time, Some(41));

    assert!(matches!(
        Transaction::try_from_block(&Val::Nat(3)),
        Err(BlockDecodeError::NotAMap)
    ));
    assert!(matches!(
        Transaction::try_from_block(&Val::Dict(Vec::new())),
        Err(BlockDecodeError::MissingTs)
    ));
}

#[test]
fn stale_timestamp_scenario() {
    let l = fresh_ledger();
    let settings = l.collection.settings;
    let caller = principal(1);
    let now_sec = 10000u64;

    let mut arg = transfer_arg(2, SftId(1, 1).to_u64());
    arg.created_at_time = Some((10000 - 3721) * SECOND);
    match arg.validate(now_sec, &caller, &settings) {
        Err(TransferError::TooOld) => {},
        other => panic!("expected TooOld, got {:?}", other),
    }

    let mut arg = transfer_arg(2, SftId(1, 1).to_u64());
    arg.created_at_time = Some((10000 + 121) * SECOND);
    match arg.validate(now_sec, &caller, &settings) {
        Err(TransferError::CreatedInFuture { ledger_time }) => assert_eq!(ledger_time, 10120),
        other => panic!("expected CreatedInFuture, got {:?}", other),
    }
}

#[test]
fn invalid_recipient_and_memo() {
    let l = fresh_ledger();
    let settings = l.collection.settings;
    let caller = principal(1);

    // Anonymous recipient.
    let arg = transfer_arg(4, SftId(1, 1).to_u64());
    assert!(matches!(
        arg.validate(10_000, &caller, &settings),
        Err(TransferError::InvalidRecipient)
    ));

    // Recipient equals caller.
    let arg = transfer_arg(1, SftId(1, 1).to_u64());
    assert!(matches!(
        arg.validate(10_000, &caller, &settings),
        Err(TransferError::InvalidRecipient)
    ));

    // Memo beyond the bound.
    let mut arg = transfer_arg(2, SftId(1, 1).to_u64());
    arg.memo = Some(vec![0u8; 33]);
    match arg.validate(10_000, &caller, &settings) {
        Err(TransferError::GenericError { error_code, message }) => {
            assert_eq!(error_code, 0);
            assert_eq!(message, "memo size is too large");
        },
        other => panic!("expected GenericError, got {:?}", other),
    }
}

fn approve_arg(spender: u8, expires_at: Option<u64>) -> ApproveCollectionArg {
    ApproveCollectionArg {
        approval_info: ApprovalInfo {
            spender: account(spender),
            from_subaccount: None,
            expires_at,
            created_at_time: None,
            memo: None,
        },
    }
}

#[test]
fn approval_expiry_boundary() {
    let mut l = fresh_ledger();
    let owner = principal(1);
    let spender = principal(2);
    // Approve with an expiry of 5000 seconds (given in nanoseconds).
    let res = l
        .icrc37_approve_collection(
            &owner,
            vec![approve_arg(2, Some(5000 * SECOND))],
            1000 * SECOND,
        )
        .unwrap();
    assert!(matches!(res[0], Some(Ok(_))));

    // expires_at == now: NOT approved (exclusive bound).
    assert!(!l.is_approved(&owner, &spender, 1, 1, 5000));
    // expires_at == now + 1: approved.
    assert!(l.is_approved(&owner, &spender, 1, 1, 4999));
}

#[test]
fn over_cap_approval_scenario() {
    let mut args = init_args();
    args.max_approvals_per_token_or_collection = Some(1);
    let mut l = Ledger::init(args, 1000);
    let owner = principal(1);

    let res = l
        .icrc37_approve_collection(&owner, vec![approve_arg(2, Some(9000 * SECOND))], 1000 * SECOND)
        .unwrap();
    assert!(matches!(res[0], Some(Ok(0))));
    let blocks_before = l.total();

    let res = l
        .icrc37_approve_collection(&owner, vec![approve_arg(3, Some(9000 * SECOND))], 1000 * SECOND)
        .unwrap();
    match &res[0] {
        Some(Err(ApproveCollectionError::GenericBatchError { message, .. })) => {
            assert_eq!(message, "exceeds the maximum number of approvals");
        },
        other => panic!("expected GenericBatchError, got {:?}", other),
    }
    assert_eq!(l.total(), blocks_before);
}

#[test]
fn batch_atomicity() {
    // Atomic mode: one invalid item aborts the whole batch with no effect.
    let mut args = init_args();
    args.atomic_batch_transfers = Some(true);
    let mut l = Ledger::init(args, 1000);
    l.admin_set_managers(vec![principal(9)], 1000).unwrap();
    l.admin_set_minters(vec![principal(9)], 1000).unwrap();
    l.sft_create_token(&principal(9), create_token_args(0), 1000).unwrap();
    l.sft_mint(
        &principal(9),
        MintArg {
            token_id: SftId(1, 0).to_u64(),
            holders: vec![principal(1), principal(1), principal(1)],
        },
        2000 * SECOND,
    )
    .unwrap()
    .unwrap();
    let blocks_before = l.total();
    let batch = vec![
        transfer_arg(2, SftId(1, 1).to_u64()),
        transfer_arg(4, SftId(1, 2).to_u64()), // anonymous recipient: invalid
        transfer_arg(2, SftId(1, 3).to_u64()),
    ];
    let r = l.icrc7_transfer(&principal(1), batch, 3000 * SECOND);
    assert!(r.is_err());
    assert_eq!(l.total(), blocks_before);
    let owners = l
        .icrc7_owner_of(&vec![SftId(1, 1).to_u64(), SftId(1, 3).to_u64()])
        .unwrap();
    assert_eq!(owners[0].as_deref(), Some(&principal(1)[..]));
    assert_eq!(owners[1].as_deref(), Some(&principal(1)[..]));

    // Non-atomic mode: items 1 and 3 succeed, item 2 errors at its index.
    let mut l = fresh_ledger();
    l.sft_create_token(&principal(9), create_token_args(0), 1000).unwrap();
    l.sft_mint(
        &principal(9),
        MintArg {
            token_id: SftId(1, 0).to_u64(),
            holders: vec![principal(1), principal(1), principal(1)],
        },
        2000 * SECOND,
    )
    .unwrap()
    .unwrap();
    let blocks_before = l.total();
    let batch = vec![
        transfer_arg(2, SftId(1, 1).to_u64()),
        transfer_arg(4, SftId(1, 2).to_u64()),
        transfer_arg(2, SftId(1, 3).to_u64()),
    ];
    let res = l.icrc7_transfer(&principal(1), batch, 3000 * SECOND).unwrap();
    assert!(matches!(res[0], Some(Ok(_))));
    assert!(matches!(res[1], Some(Err(TransferError::InvalidRecipient))));
    assert!(matches!(res[2], Some(Ok(_))));
    assert_eq!(l.total(), blocks_before + 2);
}

#[test]
fn mint_errors() {
    let mut l = fresh_ledger();
    // Unknown group.
    let r = l
        .sft_mint(
            &principal(9),
            MintArg { token_id: SftId(1, 0).to_u64(), holders: vec![principal(1)] },
            2000 * SECOND,
        )
        .unwrap();
    assert!(matches!(r, Err(MintError::NonExistingTokenId)));

    // Supply cap: cap 2 rejects a batch that would reach it.
    let mut args = create_token_args(0);
    args.supply_cap = Some(2);
    l.sft_create_token(&principal(9), args, 1000).unwrap();
    let r = l
        .sft_mint(
            &principal(9),
            MintArg {
                token_id: SftId(1, 0).to_u64(),
                holders: vec![principal(1), principal(2)],
            },
            2000 * SECOND,
        )
        .unwrap();
    assert!(matches!(r, Err(MintError::SupplyCapReached)));

    // A non-minter is turned away whole.
    let r = l.sft_mint(
        &principal(5),
        MintArg { token_id: SftId(1, 0).to_u64(), holders: vec![principal(1)] },
        2000 * SECOND,
    );
    assert_eq!(r.unwrap_err(), "caller is not a minter");
}

#[test]
fn create_token_rejects_duplicate_asset() {
    let mut l = fresh_ledger();
    l.sft_create_token(&principal(9), create_token_args(0), 1000).unwrap();
    let r = l.sft_create_token(&principal(9), create_token_args(0), 1000);
    assert_eq!(r.unwrap_err(), "asset already exists");
    // A different asset makes the next group.
    let id = l.sft_create_token(&principal(9), create_token_args(1), 1000).unwrap();
    assert_eq!(id, 2);
}

#[test]
fn tokens_pagination_tiles() {
    let mut l = fresh_ledger();
    for t in 0..5u8 {
        l.sft_create_token(&principal(9), create_token_args(t), 1000).unwrap();
    }
    // Collect successive pages of size 2, resuming after each page's last id.
    let mut seen: Vec<u64> = Vec::new();
    let mut prev: Option<u64> = None;
    loop {
        let page = l.icrc7_tokens(prev, Some(2));
        if page.is_empty() {
            break;
        }
        prev = Some(*page.last().unwrap());
        seen.extend_from_slice(&page);
    }
    let full: Vec<u64> = (1..=5u32).map(|g| SftId(g, 0).to_u64()).collect();
    assert_eq!(seen, full);
}

#[test]
fn challenge_round_trip() {
    let key = vec![7u8; 32];
    let arg = ChallengeArg { author: principal(1), asset_hash: vec![5u8; 32] };
    let token = arg.challenge(&key, 10_000);
    assert!(arg.verify(&key, 9_500, &token).is_ok());
    assert_eq!(
        arg.verify(&key, 10_500, &token).unwrap_err(),
        "the challenge is expired"
    );
    let other = ChallengeArg { author: principal(2), asset_hash: vec![5u8; 32] };
    assert_eq!(
        other.verify(&key, 9_500, &token).unwrap_err(),
        "failed to verify the challenge"
    );
}

#[test]
fn token_approval_and_clearing_on_transfer() {
    let mut l = fresh_ledger();
    l.sft_create_token(&principal(9), create_token_args(0), 1000).unwrap();
    l.sft_mint(
        &principal(9),
        MintArg { token_id: SftId(1, 0).to_u64(), holders: vec![principal(1)] },
        2000 * SECOND,
    )
    .unwrap()
    .unwrap();
    let owner = principal(1);
    let spender = principal(3);

    let arg = sft_ledger::types::ApproveTokenArg {
        token_id: SftId(1, 1).to_u64(),
        approval_info: ApprovalInfo {
            spender: account(3),
            from_subaccount: None,
            expires_at: Some(9000 * SECOND),
            created_at_time: None,
            memo: None,
        },
    };
    let res = l.icrc37_approve_tokens(&owner, vec![arg], 3000 * SECOND).unwrap();
    assert!(matches!(res[0], Some(Ok(_))));
    assert!(l.is_approved(&owner, &spender, 1, 1, 3000));
    assert!(!l.is_approved(&owner, &spender, 1, 1, 9000));

    // The spender moves the item; the transfer clears standing approvals.
    let xfer = sft_ledger::types::TransferFromArg {
        spender_subaccount: None,
        from: account(1),
        to: account(2),
        token_id: SftId(1, 1).to_u64(),
        memo: None,
        created_at_time: None,
    };
    let res = l.icrc37_transfer_from(&spender, vec![xfer], 4000 * SECOND).unwrap();
    assert!(matches!(res[0], Some(Ok(_))));
    let owners = l.icrc7_owner_of(&vec![SftId(1, 1).to_u64()]).unwrap();
    assert_eq!(owners[0].as_deref(), Some(&principal(2)[..]));
    assert!(!l.is_approved(&principal(2), &spender, 1, 1, 3000));
}

#[test]
fn token_approval_revocation() {
    let mut l = fresh_ledger();
    l.sft_create_token(&principal(9), create_token_args(0), 1000).unwrap();
    l.sft_mint(
        &principal(9),
        MintArg { token_id: SftId(1, 0).to_u64(), holders: vec![principal(1)] },
        2000 * SECOND,
    )
    .unwrap()
    .unwrap();
    let owner = principal(1);
    let arg = sft_ledger::types::ApproveTokenArg {
        token_id: SftId(1, 1).to_u64(),
        approval_info: ApprovalInfo {
            spender: account(3),
            from_subaccount: None,
            expires_at: Some(9000 * SECOND),
            created_at_time: None,
            memo: None,
        },
    };
    l.icrc37_approve_tokens(&owner, vec![arg], 3000 * SECOND).unwrap();
    assert!(l.is_approved(&owner, &principal(3), 1, 1, 3000));

    // Revoking a spender that never was approved: ApprovalDoesNotExist.
    let revoke_absent = sft_ledger::types::RevokeTokenApprovalArg {
        spender: Some(account(5)),
        from_subaccount: None,
        token_id: SftId(1, 1).to_u64(),
        memo: None,
        created_at_time: None,
    };
    let res = l.icrc37_revoke_token_approvals(&owner, vec![revoke_absent], 3000 * SECOND).unwrap();
    assert!(matches!(
        res[0],
        Some(Err(sft_ledger::types::RevokeTokenApprovalError::ApprovalDoesNotExist))
    ));

    // Revoking the named spender removes exactly that approval.
    let revoke_named = sft_ledger::types::RevokeTokenApprovalArg {
        spender: Some(account(3)),
        from_subaccount: None,
        token_id: SftId(1, 1).to_u64(),
        memo: None,
        created_at_time: None,
    };
    let res = l.icrc37_revoke_token_approvals(&owner, vec![revoke_named], 3000 * SECOND).unwrap();
    assert!(matches!(res[0], Some(Ok(_))));
    assert!(!l.is_approved(&owner, &principal(3), 1, 1, 3000));
}

#[test]
fn update_token_locks_after_mint() {
    let mut l = fresh_ledger();
    l.sft_create_token(&principal(9), create_token_args(0), 1000).unwrap();
    let update = |name: Option<&str>| sft_ledger::types::UpdateTokenArg {
        id: SftId(1, 0).to_u64(),
        name: name.map(|n| n.to_string()),
        description: None,
        asset_name: None,
        asset_content_type: None,
        asset_content: None,
        metadata: None,
        supply_cap: None,
        author: None,
    };
    // Before minting the author (a manager here) may update.
    l.sft_update_token(&principal(9), update(Some("renamed")), 1500).unwrap();
    assert_eq!(l.tokens[0].name, "renamed");
    // A stranger may not.
    let r = l.sft_update_token(&principal(5), update(Some("no")), 1500);
    assert_eq!(r.unwrap_err(), "caller is not a manager or author");
    // After the first mint the record is locked.
    l.sft_mint(
        &principal(9),
        MintArg { token_id: SftId(1, 0).to_u64(), holders: vec![principal(1)] },
        2000 * SECOND,
    )
    .unwrap()
    .unwrap();
    let r = l.sft_update_token(&principal(9), update(Some("late")), 2500);
    assert_eq!(r.unwrap_err(), "token has been minted, can not be updated");
}

#[test]
fn zero_take_yields_empty_page() {
    let mut l = fresh_ledger();
    l.sft_create_token(&principal(9), create_token_args(0), 1000).unwrap();
    assert!(l.icrc7_tokens(None, Some(0)).is_empty());
}

#[test]
fn balance_and_approval_enumeration() {
    let mut l = fresh_ledger();
    l.sft_create_token(&principal(9), create_token_args(0), 1000).unwrap();
    l.sft_mint(
        &principal(9),
        MintArg {
            token_id: SftId(1, 0).to_u64(),
            holders: vec![principal(1), principal(1), principal(2)],
        },
        2000 * SECOND,
    )
    .unwrap()
    .unwrap();
    let balances = l.icrc7_balance_of(&vec![principal(1), principal(2), principal(7)]).unwrap();
    assert_eq!(balances, vec![2, 1, 0]);

    // Two collection approvals for spenders 3 and 5; pages of one tile the
    // enumeration in ascending spender order.
    let owner = principal(1);
    l.icrc37_approve_collection(
        &owner,
        vec![approve_arg(5, Some(9000 * SECOND)), approve_arg(3, Some(9000 * SECOND))],
        1000 * SECOND,
    )
    .unwrap();
    let page1 = l.icrc37_get_collection_approvals(&owner, &None, Some(1));
    assert_eq!(page1.len(), 1);
    assert_eq!(page1[0].spender.owner, principal(3));
    let page2 = l.icrc37_get_collection_approvals(
        &owner,
        &Some(page1[0].spender.owner.clone()),
        Some(1),
    );
    assert_eq!(page2.len(), 1);
    assert_eq!(page2[0].spender.owner, principal(5));
    let page3 = l.icrc37_get_collection_approvals(
        &owner,
        &Some(page2[0].spender.owner.clone()),
        Some(1),
    );
    assert!(page3.is_empty());
}

#[test]
fn challenge_token_creation() {
    let mut l = fresh_ledger();
    l.challenge_secret = vec![7u8; 32];
    let author = principal(2);
    let args = {
        let mut a = create_token_args(0);
        a.author = author.clone();
        a
    };
    let hash = {
        // The challenge binds the asset's content hash.
        let mut probe = fresh_ledger();
        probe.sft_create_token(&principal(9), create_token_args(0), 1000).unwrap();
        probe.tokens[0].asset_hash.clone()
    };
    let subject =
        sft_ledger::challenge::ChallengeArg { author: author.clone(), asset_hash: hash };
    let token = l.sft_challenge(&principal(9), &subject, 5000).unwrap();
    let mut create = args;
    create.challenge = Some(token);
    let id = l.sft_create_token_by_challenge(&author, create, 5100).unwrap();
    assert_eq!(id, 1);

    // A stranger cannot use the author's challenge.
    let mut other_args = create_token_args(1);
    other_args.author = principal(3);
    other_args.challenge = Some(vec![1, 2, 3]);
    let r = l.sft_create_token_by_challenge(&principal(3), other_args, 5100);
    assert!(r.is_err());
}

#[test]
fn tokens_of_pagination_tiles() {
    let mut l = fresh_ledger();
    l.sft_create_token(&principal(9), create_token_args(0), 1000).unwrap();
    l.sft_create_token(&principal(9), create_token_args(1), 1000).unwrap();
    // A holds sub-items 1 and 2 of group 1 and sub-item 1 of group 2.
    l.sft_mint(
        &principal(9),
        MintArg { token_id: SftId(1, 0).to_u64(), holders: vec![principal(1), principal(1)] },
        2000 * SECOND,
    )
    .unwrap()
    .unwrap();
    l.sft_mint(
        &principal(9),
        MintArg { token_id: SftId(2, 0).to_u64(), holders: vec![principal(1)] },
        2000 * SECOND,
    )
    .unwrap()
    .unwrap();
    let mut seen: Vec<u64> = Vec::new();
    let mut prev: Option<u64> = None;
    loop {
        let page = l.icrc7_tokens_of(&principal(1), prev, Some(2));
        if page.is_empty() {
            break;
        }
        prev = Some(*page.last().unwrap());
        seen.extend_from_slice(&page);
    }
    let full = vec![SftId(1, 1).to_u64(), SftId(1, 2).to_u64(), SftId(2, 1).to_u64()];
    assert_eq!(seen, full);
}

#[test]
fn supported_standards_listed() {
    let standards = sft_ledger::standards::icrc10_supported_standards();
    assert_eq!(standards.len(), 4);
    assert_eq!(standards[0].name, "ICRC-3");
    let blocks = sft_ledger::standards::icrc3_supported_block_types();
    assert_eq!(blocks.len(), 9);
    assert_eq!(blocks[0].name, "7mint");
}
