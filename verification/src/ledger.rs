//! The ledger state machine: the explicit store context holding the
//! collection singleton, the token records, the holder lists, the reverse
//! holder index with its per-item approvals, the collection-level approvals,
//! the content-addressed assets and the hash-chained block log — and every
//! state-changing operation over them.

use vstd::prelude::*;
use crate::SECOND;
use crate::assoc::{
    bmap_get, bmap_has, bmap_unique, bmap_sorted, bmap_find, bmap_set, bmap_remove,
    bmap_sorted_set, lemma_bmap_get_at, lemma_bmap_sorted_unique, umap_get, umap_has, umap_sorted,
    umap_find, umap_set, umap_remove, lemma_umap_get_at,
};
use crate::bytesutil::{bytes_clone, bytes_eq, lex_lt, str_eq};
use crate::challenge::{challenge_mac, ChallengeArg};
use crate::crypto::{cbor_of_pair, cbor_of_u64, cbor_parse_pair_of, cbor_parse_u64_of};
use crate::collection::{Collection, InitArg, UpdateCollectionArg};
use crate::crypto::{hash_of, sha3_of, sha3_256, val_hash};
use crate::ids::SftId;
use crate::tx::{block_phash, block_tx_view, Transaction, TxView};
use crate::types::{
    principal_in, CreateTokenArg, MintArg, MintError, MintResult, TransferArg, TransferError,
    TransferResult,
};
use crate::val::{meta_view, clone_metadata, MetaVal, MetaValV, Metadata, Val};

verus! {

/// One token group: its descriptive record, its asset, its metadata and its
/// running sub-item supply.
pub struct Token {
    pub id: u32,
    pub name: String,
    pub description: Option<String>,
    pub asset_name: String,
    pub asset_content_type: String,
    pub asset_hash: Vec<u8>,
    pub metadata: Metadata,
    pub author: Vec<u8>,
    pub supply_cap: Option<u32>,
    pub total_supply: u32,
    pub created_at: u64,
    pub updated_at: u64,
}

/// A reserved key of the token metadata view: the token record itself
/// supplies these, overriding anything stored under them.
pub open spec fn reserved_meta_key(k: Seq<char>) -> bool {
    ||| k == "icrc7:name"@
    ||| k == "icrc7:description"@
    ||| k == "asset_name"@
    ||| k == "asset_content_type"@
    ||| k == "asset_hash"@
}

/// The metadata entries whose key is not reserved, in order.
pub open spec fn unreserved_meta(es: Seq<(Seq<char>, MetaValV)>) -> Seq<(Seq<char>, MetaValV)>
    decreases es.len(),
{
    if es.len() == 0 {
        es
    } else if reserved_meta_key(es.last().0) {
        unreserved_meta(es.drop_last())
    } else {
        unreserved_meta(es.drop_last()).push(es.last())
    }
}

/// The entries [`Token::metadata_map`] yields: the stored metadata without
/// the reserved keys, then the record's own fields.
pub open spec fn token_metadata_view(t: Token) -> Seq<(Seq<char>, MetaValV)> {
    unreserved_meta(meta_view(t.metadata@)) + seq![
        ("icrc7:name"@, MetaValV::Text(t.name@)),
    ] + (match t.description {
        Some(d) => seq![("icrc7:description"@, MetaValV::Text(d@))],
        None => Seq::empty(),
    }) + seq![
        ("asset_name"@, MetaValV::Text(t.asset_name@)),
        ("asset_content_type"@, MetaValV::Text(t.asset_content_type@)),
        ("asset_hash"@, MetaValV::Blob(t.asset_hash@)),
    ]
}

impl Token {
    /// The token metadata map reported to queries and logged in mint blocks.
    pub fn metadata_map(&self) -> (r: Metadata)
        ensures
            meta_view(r@) == token_metadata_view(*self),
    {
        let mut r: Metadata = Vec::new();
        let mut i: usize = 0;
        proof {
            assert(unreserved_meta(meta_view(self.metadata@.subrange(0, 0))) =~= meta_view(r@));
        }
        while i < self.metadata.len()
            invariant
                i <= self.metadata@.len(),
                meta_view(r@) == unreserved_meta(meta_view(self.metadata@.subrange(0, i as int))),
            decreases self.metadata@.len() - i,
        {
            let ghost prefix = self.metadata@.subrange(0, i as int);
            let ghost step = self.metadata@.subrange(0, i as int + 1);
            let key = &self.metadata[i].0;
            let keep = !(str_eq(key.as_str(), "icrc7:name") || str_eq(
                key.as_str(),
                "icrc7:description",
            ) || str_eq(key.as_str(), "asset_name") || str_eq(key.as_str(), "asset_content_type")
                || str_eq(key.as_str(), "asset_hash"));
            let ghost pre_r = r@;
            if keep {
                r.push((key.clone(), crate::val::clone_meta_val(&self.metadata[i].1)));
            }
            proof {
                assert(step.drop_last() =~= prefix);
                assert(step.last() == self.metadata@[i as int]);
                assert(meta_view(step) =~= meta_view(prefix).push(
                    (self.metadata@[i as int].0@, self.metadata@[i as int].1@),
                ));
                assert(meta_view(step).drop_last() =~= meta_view(prefix));
                assert(meta_view(step).last() == (
                    self.metadata@[i as int].0@,
                    self.metadata@[i as int].1@,
                ));
                assert(reserved_meta_key(meta_view(step).last().0) == !keep);
                if keep {
                    assert(meta_view(r@) =~= meta_view(pre_r).push(
                        (self.metadata@[i as int].0@, self.metadata@[i as int].1@),
                    ));
                    assert(unreserved_meta(meta_view(step)) == unreserved_meta(
                        meta_view(prefix),
                    ).push(meta_view(step).last()));
                } else {
                    assert(unreserved_meta(meta_view(step)) == unreserved_meta(meta_view(prefix)));
                }
            }
            i = i + 1;
        }
        proof {
            assert(self.metadata@.subrange(0, self.metadata@.len() as int) =~= self.metadata@);
        }
        r.push(("icrc7:name".to_owned(), MetaVal::Text(self.name.clone())));
        if let Some(description) = &self.description {
            r.push(("icrc7:description".to_owned(), MetaVal::Text(description.clone())));
        }
        r.push(("asset_name".to_owned(), MetaVal::Text(self.asset_name.clone())));
        r.push(("asset_content_type".to_owned(), MetaVal::Text(self.asset_content_type.clone())));
        r.push(("asset_hash".to_owned(), MetaVal::Blob(bytes_clone(&self.asset_hash))));
        proof {
            assert(meta_view(r@) =~= token_metadata_view(*self));
        }
        r
    }
}

/// A token group's holder list: position `sid - 1` names the owner of
/// sub-item `sid`.
pub type Holders = Vec<Vec<u8>>;

/// The approvals standing on one thing: spender id, bound to
/// (created-at-seconds, expires-at-seconds; zero meaning none), with
/// spenders ascending.
pub type Approvals = Vec<(Vec<u8>, (u64, u64))>;

/// One holder's sub-items of one token group: sub-item id, bound to the
/// approvals standing on it, ids ascending.
pub type ItemRecords = Vec<(u32, Option<Approvals>)>;

/// One holder's reverse index: token-group id, bound to the held sub-items,
/// ids ascending.
pub type HolderTokens = Vec<(u32, ItemRecords)>;

/// The whole ledger state: the explicit store context every operation works
/// against.
pub struct Ledger {
    pub collection: Collection,
    pub tokens: Vec<Token>,
    pub holders: Vec<Holders>,
    pub holder_tokens: Vec<(Vec<u8>, HolderTokens)>,
    pub approvals: Vec<(Vec<u8>, Approvals)>,
    pub assets: Vec<(Vec<u8>, Vec<u8>)>,
    pub blocks: Vec<Val>,
    pub challenge_secret: Vec<u8>,
}

/// One holder's reverse-index entry is well shaped: groups ascend, sub-items
/// ascend, and every approval list is sorted by spender.
pub open spec fn ht_wf(ht: HolderTokens) -> bool {
    &&& umap_sorted(ht@)
    &&& forall|gi: int| 0 <= gi < ht@.len() ==> umap_sorted(#[trigger] ht@[gi].1@)
    &&& forall|gi: int, si: int|
        0 <= gi < ht@.len() && 0 <= si < ht@[gi].1@.len() ==> (#[trigger] ht@[gi].1@[si].1 matches
            Some(aps) ==> bmap_sorted(aps@))
}

impl Ledger {
    /// The holder list of group `tid` says `owner` holds sub-item `sid`.
    pub open spec fn holds(self, owner: Seq<u8>, tid: u32, sid: u32) -> bool {
        &&& 1 <= tid <= self.holders.len()
        &&& 1 <= sid <= self.holders[tid - 1]@.len()
        &&& self.holders[tid - 1]@[sid - 1]@ == owner
    }

    /// The reverse index's record for `(owner, tid, sid)`: absent, or present
    /// with the approvals standing on the item.
    pub open spec fn index_item(self, owner: Seq<u8>, tid: u32, sid: u32) -> Option<
        Option<Approvals>,
    > {
        idx_item(self.holder_tokens@, owner, tid, sid)
    }

    /// The reverse index lists `(owner, tid, sid)`.
    pub open spec fn indexed(self, owner: Seq<u8>, tid: u32, sid: u32) -> bool {
        self.index_item(owner, tid, sid) is Some
    }

    /// Ownership/index consistency: the reverse index lists a holding if and
    /// only if the holder list records it.
    pub open spec fn index_consistent(self) -> bool {
        forall|owner: Seq<u8>, tid: u32, sid: u32|
            #[trigger] self.indexed(owner, tid, sid) <==> self.holds(owner, tid, sid)
    }

    /// The chain head and the chain itself: every block carries the hash of
    /// its predecessor, the first block carries none, and the collection
    /// records the last index and hash.
    pub open spec fn chain_wf(self) -> bool {
        &&& forall|i: int|
            1 <= i < self.blocks@.len() ==> block_phash(#[trigger] self.blocks@[i]) == Some(
                hash_of(self.blocks@[i - 1]),
            )
        &&& self.blocks@.len() > 0 ==> block_phash(self.blocks@[0]) is None
        &&& self.collection.last_block_index == (if self.blocks@.len() == 0 {
            None::<u64>
        } else {
            Some((self.blocks@.len() - 1) as u64)
        })
        &&& match self.collection.last_block_hash {
            None => self.blocks@.len() == 0,
            Some(h) => self.blocks@.len() > 0 && h@ == hash_of(self.blocks@.last()),
        }
    }

    /// The whole well-formedness invariant: every store is shaped as its
    /// reader expects, the two ownership indexes agree, and the chain holds.
    pub open spec fn wf(self) -> bool {
        &&& self.holders.len() == self.tokens.len()
        &&& self.tokens.len() <= u32::MAX
        &&& forall|i: int| 0 <= i < self.tokens.len() ==> (#[trigger] self.tokens[i].id) == i + 1
        &&& forall|i: int|
            0 <= i < self.tokens.len() ==> (#[trigger] self.holders[i]@.len())
                == self.tokens[i].total_supply
        &&& self.collection.total_supply == self.tokens.len()
        &&& bmap_unique(self.holder_tokens@)
        &&& forall|oi: int|
            0 <= oi < self.holder_tokens@.len() ==> ht_wf(#[trigger] self.holder_tokens@[oi].1)
        &&& bmap_unique(self.approvals@)
        &&& forall|ai: int|
            0 <= ai < self.approvals@.len() ==> bmap_sorted(#[trigger] self.approvals@[ai].1@)
        &&& bmap_unique(self.assets@)
        &&& self.index_consistent()
        &&& self.chain_wf()
    }

    /// A fresh ledger: the initialized collection and empty stores.
    pub fn init(args: InitArg, now_sec: u64) -> (r: Ledger)
        ensures
            r.wf(),
            r.collection.symbol@ == args.symbol@,
            r.collection.name@ == args.name@,
            r.collection.settings == crate::collection::init_settings(args),
            r.tokens@.len() == 0,
            r.blocks@.len() == 0,
            r.holder_tokens@.len() == 0,
            r.approvals@.len() == 0,
            r.assets@.len() == 0,
    {
        let r = Ledger {
            collection: Collection::init(args, now_sec),
            tokens: Vec::new(),
            holders: Vec::new(),
            holder_tokens: Vec::new(),
            approvals: Vec::new(),
            assets: Vec::new(),
            blocks: Vec::new(),
            challenge_secret: Vec::new(),
        };
        proof {
            assert forall|owner: Seq<u8>, tid: u32, sid: u32|
                #[trigger] r.indexed(owner, tid, sid) == r.holds(owner, tid, sid) by {
                assert(!bmap_has(r.holder_tokens@, owner));
            }
        }
        r
    }

    /// How many blocks the log holds.
    pub fn total(&self) -> (r: u64)
        requires
            self.wf(),
        ensures
            r == self.blocks@.len(),
    {
        self.blocks.len() as u64
    }

    /// Builds the block for `tx`, chains it to the last block's hash,
    /// appends it and advances the chain head; the new block's index comes
    /// back. The append and the head update are one step: nothing in between
    /// can observe one without the other.
    pub fn append_block(&mut self, tx: Transaction) -> (r: u64)
        requires
            old(self).wf(),
        ensures
            final(self).wf(),
            r == old(self).blocks@.len(),
            final(self).blocks@.len() == old(self).blocks@.len() + 1,
            final(self).blocks@ == old(self).blocks@.push(final(self).blocks@.last()),
            crate::tx::block_decodable(final(self).blocks@.last()),
            block_tx_view(final(self).blocks@.last()) == tx@,
            block_phash(final(self).blocks@.last()) == (if old(self).blocks@.len() == 0 {
                None::<Seq<u8>>
            } else {
                Some(hash_of(old(self).blocks@.last()))
            }),
            final(self).collection.last_block_index == Some(r),
            final(self).tokens == old(self).tokens,
            final(self).holders == old(self).holders,
            final(self).holder_tokens == old(self).holder_tokens,
            final(self).approvals == old(self).approvals,
            final(self).assets == old(self).assets,
            final(self).collection.settings == old(self).collection.settings,
            final(self).collection.minters == old(self).collection.minters,
            final(self).collection.managers == old(self).collection.managers,
            final(self).collection.total_supply == old(self).collection.total_supply,
            final(self).collection.supply_cap == old(self).collection.supply_cap,
            final(self).collection.updated_at == old(self).collection.updated_at,
    {
        let phash: Option<Vec<u8>> = match &self.collection.last_block_hash {
            Some(h) => Some(bytes_clone(h)),
            None => None,
        };
        let blk = tx.into_block(phash);
        let idx = self.blocks.len() as u64;
        let new_hash = val_hash(&blk);
        self.blocks.push(blk);
        self.collection.last_block_index = Some(idx);
        self.collection.last_block_hash = Some(new_hash);
        proof {
            assert(final(self).blocks@.drop_last() =~= old(self).blocks@);
            assert(forall|i: int|
                0 <= i < old(self).blocks@.len() ==> final(self).blocks@[i] == old(
                    self,
                ).blocks@[i]);
            lemma_index_consistent_preserved(*old(self), *self);
        }
        idx
    }
}

/// Two states with the same holder lists and the same reverse index are
/// consistent together: if one satisfies the ownership/index invariant, so
/// does the other.
pub proof fn lemma_index_consistent_preserved(a: Ledger, b: Ledger)
    requires
        a.index_consistent(),
        b.holder_tokens == a.holder_tokens,
        b.holders == a.holders,
    ensures
        b.index_consistent(),
{
    assert forall|owner: Seq<u8>, tid: u32, sid: u32| #[trigger] b.indexed(owner, tid, sid)
        <==> b.holds(owner, tid, sid) by {
        assert(b.indexed(owner, tid, sid) == a.indexed(owner, tid, sid));
        assert(b.holds(owner, tid, sid) == a.holds(owner, tid, sid));
    }
}


/// The reverse-index record for `(owner, tid, sid)` in a bare index map.
pub open spec fn idx_item(
    m: Seq<(Vec<u8>, HolderTokens)>,
    owner: Seq<u8>,
    tid: u32,
    sid: u32,
) -> Option<Option<Approvals>> {
    match bmap_get(m, owner) {
        Some(ht) => match umap_get(ht@, tid) {
            Some(items) => umap_get(items@, sid),
            None => None,
        },
        None => None,
    }
}

/// Every entry of an index map is well shaped.
pub open spec fn ht_map_wf(m: Seq<(Vec<u8>, HolderTokens)>) -> bool {
    bmap_unique(m) && forall|oi: int| 0 <= oi < m.len() ==> ht_wf(#[trigger] m[oi].1)
}

/// Records `(owner, tid, sid)` in the reverse index, binding the item to
/// `aps`; every other record is untouched.
pub fn ht_index_insert(
    m: &mut Vec<(Vec<u8>, HolderTokens)>,
    owner: &Vec<u8>,
    tid: u32,
    sid: u32,
    aps: Option<Approvals>,
)
    requires
        ht_map_wf(old(m)@),
        aps matches Some(a) ==> bmap_sorted(a@),
    ensures
        ht_map_wf(final(m)@),
        idx_item(final(m)@, owner@, tid, sid) == Some(aps),
        forall|o: Seq<u8>, t: u32, s: u32|
            !(o == owner@ && t == tid && s == sid) ==> #[trigger] idx_item(final(m)@, o, t, s)
                == idx_item(old(m)@, o, t, s),
{
    let ghost m0 = m@;
    let ht_opt = bmap_remove(m, owner);
    let ghost m1 = m@;
    let mut ht: HolderTokens = match ht_opt {
        Some(ht) => ht,
        None => Vec::new(),
    };
    proof {
        if bmap_has(m0, owner@) {
            let oi = crate::assoc::bmap_idx(m0, owner@);
            assert(ht_wf(m0[oi].1));
        }
        assert(ht_wf(ht));
    }
    let ghost ht0 = ht;
    let items_opt = umap_remove(&mut ht, tid);
    let mut items: ItemRecords = match items_opt {
        Some(x) => x,
        None => Vec::new(),
    };
    proof {
        if umap_has(ht0@, tid) {
            let gi = crate::assoc::umap_idx(ht0@, tid);
            assert(umap_sorted(ht0@[gi].1@));
        }
        assert(umap_sorted(items@));
        assert forall|si: int| 0 <= si < items@.len() implies (#[trigger] items@[si].1 matches
            Some(a) ==> bmap_sorted(a@)) by {
            if umap_has(ht0@, tid) {
                let gi = crate::assoc::umap_idx(ht0@, tid);
                assert(ht0@[gi].1@[si] == items@[si]);
            }
        }
    }
    let ghost items0 = items;
    umap_set(&mut items, sid, aps);
    let ghost ht1 = ht;
    umap_set(&mut ht, tid, items);
    proof {
        assert(ht_wf(ht)) by {
            assert forall|gi: int| 0 <= gi < ht@.len() implies umap_sorted(
                #[trigger] ht@[gi].1@,
            ) && (forall|si: int|
                0 <= si < ht@[gi].1@.len() ==> (#[trigger] ht@[gi].1@[si].1 matches Some(a)
                    ==> bmap_sorted(a@))) by {
                if ht@[gi].1 == items {
                    assert forall|si: int| 0 <= si < items@.len() implies (
                    #[trigger] items@[si].1 matches Some(a) ==> bmap_sorted(a@)) by {
                        if items@[si].1 != aps {
                            let i0 = choose|i0: int|
                                0 <= i0 < items0@.len() && items@[si] == items0@[i0];
                            assert(items0@[i0].1 matches Some(a) ==> bmap_sorted(a@));
                        }
                    }
                } else {
                    let i1 = choose|i1: int| 0 <= i1 < ht1@.len() && ht@[gi] == ht1@[i1];
                    assert(ht_wf(ht0));
                    let i0 = choose|i0: int| 0 <= i0 < ht0@.len() && ht1@[i1] == ht0@[i0];
                    assert(ht_wf(ht0) ==> umap_sorted(ht0@[i0].1@));
                }
            }
        }
    }
    let key = bytes_clone(owner);
    bmap_set(m, key, ht);
    proof {
        assert(ht_map_wf(m@)) by {
            assert forall|oi: int| 0 <= oi < m@.len() implies ht_wf(#[trigger] m@[oi].1) by {
                if m@[oi].1 != ht {
                    let j1 = choose|j1: int| 0 <= j1 < m1.len() && m@[oi] == m1[j1];
                    let j0 = choose|j0: int| 0 <= j0 < m0.len() && m1[j1] == m0[j0];
                    assert(ht_wf(m0[j0].1));
                }
            }
        }
        assert(bmap_get(m@, owner@) == Some(ht));
        lemma_umap_get_at(ht@, tid, crate::assoc::umap_idx(ht@, tid));
        assert(umap_get(ht@, tid) == Some(items));
        assert(idx_item(m@, owner@, tid, sid) == Some(aps));
        assert forall|o: Seq<u8>, t: u32, s: u32|
            !(o == owner@ && t == tid && s == sid) implies #[trigger] idx_item(m@, o, t, s)
            == idx_item(m0, o, t, s) by {
            if o == owner@ {
                assert(bmap_get(m@, o) == Some(ht));
                assert(bmap_get(m1, o) is None);
                if t == tid {
                    assert(umap_get(ht@, t) == Some(items));
                    assert(umap_get(items@, s) == umap_get(items0@, s));
                    assert(umap_get(items0@, s) == (match umap_get(ht0@, tid) {
                        Some(it) => umap_get(it@, s),
                        None => None,
                    }));
                    assert(bmap_get(m0, o) == (if bmap_has(m0, o) {
                        Some(ht0)
                    } else {
                        None::<HolderTokens>
                    }));
                } else {
                    assert(umap_get(ht@, t) == umap_get(ht0@, t));
                }
            } else {
                assert(bmap_get(m@, o) == bmap_get(m1, o));
                assert(bmap_get(m1, o) == bmap_get(m0, o));
            }
        }
    }
}

/// Clears `(owner, tid, sid)` from the reverse index, dropping a group or a
/// holder entry that becomes empty; every other record is untouched.
pub fn ht_index_remove(m: &mut Vec<(Vec<u8>, HolderTokens)>, owner: &Vec<u8>, tid: u32, sid: u32)
    requires
        ht_map_wf(old(m)@),
    ensures
        ht_map_wf(final(m)@),
        idx_item(final(m)@, owner@, tid, sid) is None,
        forall|o: Seq<u8>, t: u32, s: u32|
            !(o == owner@ && t == tid && s == sid) ==> #[trigger] idx_item(final(m)@, o, t, s)
                == idx_item(old(m)@, o, t, s),
{
    let ghost m0 = m@;
    let ht_opt = bmap_remove(m, owner);
    let ghost m1 = m@;
    let mut ht: HolderTokens = match ht_opt {
        Some(ht) => ht,
        None => {
            proof {
                assert forall|o: Seq<u8>, t: u32, s: u32|
                    !(o == owner@ && t == tid && s == sid) implies #[trigger] idx_item(
                    m@,
                    o,
                    t,
                    s,
                ) == idx_item(m0, o, t, s) by {
                    if o == owner@ {
                        assert(bmap_get(m0, o) is None);
                    }
                }
            }
            return;
        },
    };
    proof {
        let oi = crate::assoc::bmap_idx(m0, owner@);
        assert(ht_wf(m0[oi].1));
        assert(ht_wf(ht));
    }
    let ghost ht0 = ht;
    let items_opt = umap_remove(&mut ht, tid);
    let mut items: ItemRecords = match items_opt {
        Some(x) => x,
        None => {
            let key = bytes_clone(owner);
            proof {
                assert(ht@ == ht0@);
            }
            bmap_set(m, key, ht);
            proof {
                assert(ht_map_wf(m@)) by {
                    assert forall|oi: int| 0 <= oi < m@.len() implies ht_wf(
                        #[trigger] m@[oi].1,
                    ) by {
                        if m@[oi].1 != ht {
                            let j1 = choose|j1: int| 0 <= j1 < m1.len() && m@[oi] == m1[j1];
                            let j0 = choose|j0: int| 0 <= j0 < m0.len() && m1[j1] == m0[j0];
                            assert(ht_wf(m0[j0].1));
                        }
                    }
                }
                assert forall|o: Seq<u8>, t: u32, s: u32|
                    !(o == owner@ && t == tid && s == sid) implies #[trigger] idx_item(
                    m@,
                    o,
                    t,
                    s,
                ) == idx_item(m0, o, t, s) by {
                    if o == owner@ {
                        assert(bmap_get(m@, o) == Some(ht));
                        assert(bmap_get(m0, o) == Some(ht0));
                    } else {
                        assert(bmap_get(m@, o) == bmap_get(m1, o));
                        assert(bmap_get(m1, o) == bmap_get(m0, o));
                    }
                }
                assert(idx_item(m@, owner@, tid, sid) is None);
            }
            return;
        },
    };
    proof {
        let gi = crate::assoc::umap_idx(ht0@, tid);
        assert(umap_sorted(ht0@[gi].1@));
        assert(umap_sorted(items@));
        assert forall|si: int| 0 <= si < items@.len() implies (#[trigger] items@[si].1 matches
            Some(a) ==> bmap_sorted(a@)) by {
            let gi = crate::assoc::umap_idx(ht0@, tid);
            assert(ht0@[gi].1@[si] == items@[si]);
        }
    }
    let ghost items0 = items;
    umap_remove(&mut items, sid);
    let ghost ht1 = ht;
    if items.len() > 0 {
        umap_set(&mut ht, tid, items);
        proof {
            assert forall|gi: int| 0 <= gi < ht@.len() implies umap_sorted(#[trigger] ht@[gi].1@)
                && (forall|si: int|
                0 <= si < ht@[gi].1@.len() ==> (#[trigger] ht@[gi].1@[si].1 matches Some(a)
                    ==> bmap_sorted(a@))) by {
                if ht@[gi].1 == items {
                    assert forall|si: int| 0 <= si < items@.len() implies (
                    #[trigger] items@[si].1 matches Some(a) ==> bmap_sorted(a@)) by {
                        let i0 = choose|i0: int|
                            0 <= i0 < items0@.len() && items@[si] == items0@[i0];
                        assert(items0@[i0].1 matches Some(a) ==> bmap_sorted(a@));
                    }
                } else {
                    let i1 = choose|i1: int| 0 <= i1 < ht1@.len() && ht@[gi] == ht1@[i1];
                    let i0 = choose|i0: int| 0 <= i0 < ht0@.len() && ht1@[i1] == ht0@[i0];
                    assert(umap_sorted(ht0@[i0].1@));
                }
            }
            assert(ht_wf(ht));
        }
    }
    let ghost ht2 = ht;
    if ht.len() > 0 {
        let key = bytes_clone(owner);
        bmap_set(m, key, ht);
    }
    proof {
        assert(ht_map_wf(m@)) by {
            assert forall|oi: int| 0 <= oi < m@.len() implies ht_wf(#[trigger] m@[oi].1) by {
                if m@[oi].1 != ht2 {
                    let j1 = choose|j1: int| 0 <= j1 < m1.len() && m@[oi] == m1[j1];
                    let j0 = choose|j0: int| 0 <= j0 < m0.len() && m1[j1] == m0[j0];
                    assert(ht_wf(m0[j0].1));
                } else {
                    assert(ht_wf(ht2)) by {
                        if ht2@.len() > 0 {
                        }
                    }
                }
            }
        }
        let get_new_owner = (if ht2@.len() > 0 {
            Some(ht2)
        } else {
            None::<HolderTokens>
        });
        assert(bmap_get(m@, owner@) == get_new_owner);
        assert(idx_item(m@, owner@, tid, sid) is None) by {
            if ht2@.len() > 0 {
                if umap_has(ht2@, tid) {
                    assert(umap_get(ht2@, tid) == Some(items));
                    assert(umap_get(items@, sid) is None);
                }
            }
        }
        assert forall|o: Seq<u8>, t: u32, s: u32|
            !(o == owner@ && t == tid && s == sid) implies #[trigger] idx_item(m@, o, t, s)
            == idx_item(m0, o, t, s) by {
            if o == owner@ {
                assert(bmap_get(m0, o) == Some(ht0));
                if t == tid {
                    assert(umap_get(items@, s) == umap_get(items0@, s));
                    if ht2@.len() > 0 {
                        if items0@.len() > 0 && umap_get(ht2@, tid) is Some {
                        }
                    } else {
                        assert(ht1@.len() == 0 && items@.len() == 0);
                        assert(umap_get(items0@, s) == umap_get(items@, s));
                    }
                } else {
                    if ht2@.len() > 0 {
                        assert(bmap_get(m@, o) == Some(ht2));
                        assert(umap_get(ht2@, t) == umap_get(ht1@, t));
                        assert(umap_get(ht1@, t) == umap_get(ht0@, t));
                    } else {
                        assert(umap_get(ht0@, t) == umap_get(ht1@, t));
                        assert(ht1@.len() == 0);
                        assert(umap_get(ht0@, t) is None);
                    }
                }
            } else {
                assert(bmap_get(m@, o) == bmap_get(m1, o));
                assert(bmap_get(m1, o) == bmap_get(m0, o));
            }
        }
    }
}

/// Replaces the holder at `(t_idx, s_idx)`; every other list and position is
/// untouched.
fn set_holder(holders: &mut Vec<Holders>, t_idx: usize, s_idx: usize, owner: Vec<u8>)
    requires
        t_idx < old(holders)@.len(),
        s_idx < old(holders)@[t_idx as int]@.len(),
    ensures
        final(holders)@.len() == old(holders)@.len(),
        forall|j: int|
            0 <= j < old(holders)@.len() && j != t_idx ==> final(holders)@[j] == old(holders)@[j],
        final(holders)@[t_idx as int]@ == old(holders)@[t_idx as int]@.update(s_idx as int, owner),
{
    let hl = &mut holders[t_idx];
    hl.set(s_idx, owner);
}

/// Appends a holder to the list at `t_idx`; every other list is untouched.
fn push_holder(holders: &mut Vec<Holders>, t_idx: usize, owner: Vec<u8>)
    requires
        t_idx < old(holders)@.len(),
    ensures
        final(holders)@.len() == old(holders)@.len(),
        forall|j: int|
            0 <= j < old(holders)@.len() && j != t_idx ==> final(holders)@[j] == old(holders)@[j],
        final(holders)@[t_idx as int]@ == old(holders)@[t_idx as int]@.push(owner),
{
    let hl = &mut holders[t_idx];
    hl.push(owner);
}


/// One transfer applied: the holder cell rewritten, the reverse index moved
/// over with the item's approvals cleared, one chained block of the right
/// shape, and everything else untouched. Shared by direct transfers (no
/// spender, `7xfer`) and approval-backed ones (`37xfer`).
pub open spec fn applied_transfer(
    pre: Ledger,
    post: Ledger,
    from: Seq<u8>,
    to: Seq<u8>,
    tid: u32,
    sid: u32,
    memo: Option<Seq<u8>>,
    spender: Option<Seq<u8>>,
    now_ns: u64,
) -> bool {
    &&& post.blocks@.len() == pre.blocks@.len() + 1
    &&& forall|j: int| 0 <= j < pre.blocks@.len() ==> post.blocks@[j] == pre.blocks@[j]
    &&& crate::tx::block_decodable(post.blocks@.last())
    &&& block_tx_view(post.blocks@.last()) == (TxView {
        ts: now_ns,
        op: if spender is Some {
            "37xfer"@
        } else {
            "7xfer"@
        },
        tid: crate::ids::pack_spec(tid, sid),
        from: Some(from),
        to: Some(to),
        spender,
        exp: None,
        meta: None,
        memo,
        created_at_time: None,
    })
    &&& post.holders@.len() == pre.holders@.len()
    &&& forall|j: int|
        0 <= j < pre.holders@.len() && j != tid - 1 ==> post.holders@[j] == pre.holders@[j]
    &&& 1 <= tid <= pre.holders@.len() && 1 <= sid <= pre.holders@[tid - 1]@.len()
    &&& post.holders@[tid - 1]@.len() == pre.holders@[tid - 1]@.len()
    &&& post.holders@[tid - 1]@[sid - 1]@ == to
    &&& forall|s2: int|
        0 <= s2 < pre.holders@[tid - 1]@.len() && s2 != sid - 1
            ==> #[trigger] post.holders@[tid - 1]@[s2] == pre.holders@[tid - 1]@[s2]
    &&& post.index_item(to, tid, sid) == Some(None::<Approvals>)
    &&& forall|o: Seq<u8>, t: u32, s: u32|
        !(t == tid && s == sid) ==> #[trigger] post.index_item(o, t, s) == pre.index_item(o, t, s)
    &&& post.tokens == pre.tokens
    &&& post.approvals == pre.approvals
    &&& post.assets == pre.assets
    &&& post.collection.settings == pre.collection.settings
    &&& post.collection.minters == pre.collection.minters
    &&& post.collection.managers == pre.collection.managers
    &&& post.collection.total_supply == pre.collection.total_supply
    &&& post.collection.supply_cap == pre.collection.supply_cap
}

/// What one item of a transfer batch does: the validation error, the
/// existence error, the authorization error or the applied transfer, each if
/// and only if its condition, in checking order.
pub open spec fn transfer_step(
    pre: Ledger,
    caller: Seq<u8>,
    arg: TransferArg,
    now_ns: u64,
    post: Ledger,
    r: Option<TransferResult>,
) -> bool {
    let v = crate::types::transfer_verdict_spec(
        arg,
        now_ns / SECOND,
        caller,
        pre.collection.settings,
    );
    let tid = crate::ids::unpack_group(arg.token_id);
    let sid = crate::ids::unpack_item(arg.token_id);
    let in_range = 1 <= tid <= pre.holders@.len() && 1 <= sid <= pre.holders@[tid - 1]@.len();
    if !(v is Fine) {
        post == pre && (r matches Some(Err(e)) && crate::types::transfer_error_for(v, e))
    } else if !in_range {
        post == pre && (r matches Some(Err(e)) && e is NonExistingTokenId)
    } else if pre.holders@[tid - 1]@[sid - 1]@ != caller {
        post == pre && (r matches Some(Err(e)) && e is Unauthorized)
    } else {
        &&& r matches Some(rr) && (rr matches Ok(idx) && idx == pre.blocks@.len())
        &&& applied_transfer(
            pre,
            post,
            caller,
            arg.to.owner@,
            tid,
            sid,
            crate::tx::opt_bytes_view(arg.memo),
            None,
            now_ns,
        )
    }
}

/// A transfer batch as a chain of states: `sts[i]` steps to `sts[i + 1]` by
/// item `i`, yielding `res[i]`.
pub open spec fn transfer_chain(
    sts: Seq<Ledger>,
    caller: Seq<u8>,
    args: Seq<TransferArg>,
    now_ns: u64,
    res: Seq<Option<TransferResult>>,
) -> bool {
    &&& sts.len() == args.len() + 1
    &&& res.len() == args.len()
    &&& forall|i: int|
        0 <= i < args.len() ==> transfer_step(
            #[trigger] sts[i],
            caller,
            args[i],
            now_ns,
            sts[i + 1],
            res[i],
        )
}

/// A transfer batch carried `pre` to `post` yielding `res`: some chain of
/// states steps through the items.
pub open spec fn transfer_batch_ok(
    pre: Ledger,
    post: Ledger,
    caller: Seq<u8>,
    args: Seq<TransferArg>,
    now_ns: u64,
    res: Seq<Option<TransferResult>>,
) -> bool {
    exists|sts: Seq<Ledger>|
        sts.len() > 0 && sts[0] == pre && sts[sts.len() - 1] == post
            && #[trigger] transfer_chain(sts, caller, args, now_ns, res)
}

/// An item that fails the atomic pre-check of a transfer batch: invalid, or
/// not held by the caller.
pub open spec fn atomic_transfer_bad(l: Ledger, caller: Seq<u8>, arg: TransferArg, now_ns: u64) -> bool {
    let v = crate::types::transfer_verdict_spec(
        arg,
        now_ns / SECOND,
        caller,
        l.collection.settings,
    );
    !(v is Fine) || !l.holds(
        caller,
        crate::ids::unpack_group(arg.token_id),
        crate::ids::unpack_item(arg.token_id),
    )
}

impl Ledger {
    /// Moves sub-item `(tid, sid)` from its current holder `caller` to
    /// `to_owner`: the holder list is rewritten in place, the reverse index
    /// is moved over with the item's standing approvals cleared, and a
    /// transfer block is chained on. Fails without any effect when the item
    /// does not exist or `caller` does not hold it.
    pub fn transfer_item(
        &mut self,
        caller: &Vec<u8>,
        to_owner: &Vec<u8>,
        tid: u32,
        sid: u32,
        memo: Option<Vec<u8>>,
        now_ns: u64,
    ) -> (r: Result<u64, TransferError>)
        requires
            old(self).wf(),
            caller@ != to_owner@,
        ensures
            final(self).wf(),
            match r {
                Ok(idx) => old(self).holds(caller@, tid, sid) && idx == old(self).blocks@.len()
                    && applied_transfer(
                    *old(self),
                    *final(self),
                    caller@,
                    to_owner@,
                    tid,
                    sid,
                    crate::tx::opt_bytes_view(memo),
                    None,
                    now_ns,
                ),
                Err(TransferError::NonExistingTokenId) => !(1 <= tid <= old(self).holders@.len()
                    && 1 <= sid <= old(self).holders@[tid - 1]@.len()) && *final(self) == *old(
                    self,
                ),
                Err(TransferError::Unauthorized) => 1 <= tid <= old(self).holders@.len() && 1
                    <= sid <= old(self).holders@[tid - 1]@.len() && old(
                    self,
                ).holders@[tid - 1]@[sid - 1]@ != caller@ && *final(self) == *old(self),
                _ => false,
            },
    {
        if tid < 1 || (tid as usize) > self.holders.len() {
            return Err(TransferError::NonExistingTokenId);
        }
        let t_idx = (tid - 1) as usize;
        if sid < 1 || (sid as usize) > self.holders[t_idx].len() {
            return Err(TransferError::NonExistingTokenId);
        }
        let s_idx = (sid as usize) - 1;
        if !bytes_eq(&self.holders[t_idx][s_idx], caller) {
            return Err(TransferError::Unauthorized);
        }
        proof {
            assert(old(self).holds(caller@, tid, sid));
        }
        let ghost l0 = *self;
        let ghost m0 = self.holder_tokens@;
        set_holder(&mut self.holders, t_idx, s_idx, bytes_clone(to_owner));
        ht_index_remove(&mut self.holder_tokens, caller, tid, sid);
        let ghost m1 = self.holder_tokens@;
        ht_index_insert(&mut self.holder_tokens, to_owner, tid, sid, None);
        proof {
            assert forall|o: Seq<u8>, t: u32, s: u32| #[trigger] self.indexed(o, t, s)
                <==> self.holds(o, t, s) by {
                if o == to_owner@ && t == tid && s == sid {
                    assert(self.indexed(o, t, s));
                    assert(self.holds(o, t, s));
                } else {
                    assert(idx_item(self.holder_tokens@, o, t, s) == idx_item(m1, o, t, s));
                    if o == caller@ && t == tid && s == sid {
                        assert(idx_item(m1, o, t, s) is None);
                        assert(self.holders@[t - 1]@[s - 1]@ == to_owner@);
                        assert(!self.holds(o, t, s));
                    } else {
                        assert(idx_item(m1, o, t, s) == idx_item(m0, o, t, s));
                        assert(l0.indexed(o, t, s) == l0.holds(o, t, s));
                        if t == tid && s == sid {
                            assert(l0.holders@[t - 1]@[s - 1]@ == caller@);
                            assert(!l0.holds(o, t, s));
                            assert(self.holders@[t - 1]@[s - 1]@ == to_owner@);
                            assert(!self.holds(o, t, s));
                        } else {
                            assert(self.holds(o, t, s) == l0.holds(o, t, s)) by {
                                if 1 <= t <= self.holders@.len() {
                                    if t == tid {
                                        assert(self.holders@[t - 1]@ == l0.holders@[t - 1]@.update(
                                            s_idx as int,
                                            self.holders@[t - 1]@[s_idx as int],
                                        ));
                                    } else {
                                        assert(self.holders@[t - 1] == l0.holders@[t - 1]);
                                    }
                                }
                            }
                        }
                    }
                }
            }
            assert(self.wf());
        }
        let tx = Transaction::transfer(
            now_ns,
            SftId(tid, sid).to_u64(),
            bytes_clone(caller),
            bytes_clone(to_owner),
            memo,
        );
        let idx = self.append_block(tx);
        proof {
            assert forall|o: Seq<u8>, t: u32, s: u32| !(t == tid && s == sid) implies (
            #[trigger] self.index_item(o, t, s) == l0.index_item(o, t, s)) by {
                assert(idx_item(self.holder_tokens@, o, t, s) == idx_item(m1, o, t, s));
                assert(idx_item(m1, o, t, s) == idx_item(m0, o, t, s));
            }
        }
        Ok(idx)
    }
}


/// One mint applied: the holder list of the group grows by one position
/// owned by `holder`, the group's supply advances, the reverse index gains
/// the fresh item with no approvals, one mint block is chained on, and
/// everything else is untouched.
pub open spec fn applied_mint(
    pre: Ledger,
    post: Ledger,
    minter: Seq<u8>,
    holder: Seq<u8>,
    tid: u32,
    tid_packed: u64,
    metav: Seq<(Seq<char>, MetaValV)>,
    now_ns: u64,
) -> bool {
    &&& 1 <= tid <= pre.holders@.len()
    &&& post.blocks@.len() == pre.blocks@.len() + 1
    &&& forall|j: int| 0 <= j < pre.blocks@.len() ==> post.blocks@[j] == pre.blocks@[j]
    &&& block_tx_view(post.blocks@.last()) == (TxView {
        ts: now_ns,
        op: "7mint"@,
        tid: tid_packed,
        from: Some(minter),
        to: Some(holder),
        spender: None,
        exp: None,
        meta: Some(metav),
        memo: None,
        created_at_time: None,
    })
    &&& post.holders@.len() == pre.holders@.len()
    &&& forall|j: int|
        0 <= j < pre.holders@.len() && j != tid - 1 ==> post.holders@[j] == pre.holders@[j]
    &&& post.holders@[tid - 1]@.len() == pre.holders@[tid - 1]@.len() + 1
    &&& post.holders@[tid - 1]@[pre.holders@[tid - 1]@.len() as int]@ == holder
    &&& forall|s2: int|
        0 <= s2 < pre.holders@[tid - 1]@.len() ==> #[trigger] post.holders@[tid - 1]@[s2]
            == pre.holders@[tid - 1]@[s2]
    &&& post.tokens@.len() == pre.tokens@.len()
    &&& forall|j: int|
        0 <= j < pre.tokens@.len() && j != tid - 1 ==> post.tokens@[j] == pre.tokens@[j]
    &&& post.tokens@[tid - 1].total_supply == pre.tokens@[tid - 1].total_supply + 1
    &&& post.tokens@[tid - 1].supply_cap == pre.tokens@[tid - 1].supply_cap
    &&& post.tokens@[tid - 1].metadata == pre.tokens@[tid - 1].metadata
    &&& post.tokens@[tid - 1].id == pre.tokens@[tid - 1].id
    &&& post.tokens@[tid - 1].name == pre.tokens@[tid - 1].name
    &&& post.tokens@[tid - 1].description == pre.tokens@[tid - 1].description
    &&& post.tokens@[tid - 1].asset_name == pre.tokens@[tid - 1].asset_name
    &&& post.tokens@[tid - 1].asset_content_type == pre.tokens@[tid - 1].asset_content_type
    &&& post.tokens@[tid - 1].asset_hash == pre.tokens@[tid - 1].asset_hash
    &&& post.tokens@[tid - 1].author == pre.tokens@[tid - 1].author
    &&& post.index_item(holder, tid, (pre.holders@[tid - 1]@.len() + 1) as u32) == Some(
        None::<Approvals>,
    )
    &&& forall|o: Seq<u8>, t: u32, s: u32|
        !(t == tid && s == (pre.holders@[tid - 1]@.len() + 1) as u32)
            ==> #[trigger] post.index_item(o, t, s) == pre.index_item(o, t, s)
    &&& post.approvals == pre.approvals
    &&& post.assets == pre.assets
    &&& post.collection.settings == pre.collection.settings
    &&& post.collection.minters == pre.collection.minters
    &&& post.collection.managers == pre.collection.managers
    &&& post.collection.total_supply == pre.collection.total_supply
    &&& post.collection.supply_cap == pre.collection.supply_cap
}

/// A mint batch as a chain of states: one applied mint per listed holder,
/// all logging the metadata the token carried when the batch began.
pub open spec fn mint_chain(
    sts: Seq<Ledger>,
    minter: Seq<u8>,
    holders: Seq<Vec<u8>>,
    tid: u32,
    tid_packed: u64,
    now_ns: u64,
) -> bool {
    &&& sts.len() == holders.len() + 1
    &&& 1 <= tid <= sts[0].tokens@.len()
    &&& forall|i: int|
        0 <= i < holders.len() ==> applied_mint(
            #[trigger] sts[i],
            sts[i + 1],
            minter,
            holders[i]@,
            tid,
            tid_packed,
            token_metadata_view(sts[0].tokens@[tid - 1]),
            now_ns,
        )
}

/// A mint batch carried `pre` to `post`: some chain of applied mints steps
/// through the holders.
pub open spec fn mint_batch_ok(
    pre: Ledger,
    post: Ledger,
    minter: Seq<u8>,
    holders: Seq<Vec<u8>>,
    tid: u32,
    tid_packed: u64,
    now_ns: u64,
) -> bool {
    exists|sts: Seq<Ledger>|
        sts.len() > 0 && sts[0] == pre && sts[sts.len() - 1] == post && #[trigger] mint_chain(
            sts,
            minter,
            holders,
            tid,
            tid_packed,
            now_ns,
        )
}

impl Ledger {
    /// Mints one fresh sub-item of group `tid` to `holder`: the holder list
    /// grows by one, the group's supply advances, the reverse index gains
    /// the new item with no approvals, and a mint block is chained on.
    fn mint_to(
        &mut self,
        minter: &Vec<u8>,
        holder: &Vec<u8>,
        tid: u32,
        tid_packed: u64,
        meta: Metadata,
        now_ns: u64,
    ) -> (r: u64)
        requires
            old(self).wf(),
            1 <= tid <= old(self).holders@.len(),
            old(self).holders@[tid - 1]@.len() < u32::MAX,
        ensures
            final(self).wf(),
            r == old(self).blocks@.len(),
            applied_mint(
                *old(self),
                *final(self),
                minter@,
                holder@,
                tid,
                tid_packed,
                meta_view(meta@),
                now_ns,
            ),
    {
        let t_idx = (tid - 1) as usize;
        let new_sid: u32 = (self.holders[t_idx].len() as u32) + 1;
        let ghost l0 = *self;
        let ghost m0 = self.holder_tokens@;
        push_holder(&mut self.holders, t_idx, bytes_clone(holder));
        {
            let tok = &mut self.tokens[t_idx];
            tok.total_supply = tok.total_supply + 1;
            tok.updated_at = now_ns / SECOND;
        }
        ht_index_insert(&mut self.holder_tokens, holder, tid, new_sid, None);
        proof {
            assert forall|o: Seq<u8>, t: u32, s: u32| #[trigger] self.indexed(o, t, s)
                <==> self.holds(o, t, s) by {
                if o == holder@ && t == tid && s == new_sid {
                    assert(self.indexed(o, t, s));
                    assert(self.holders@[t - 1]@[s - 1]@ == holder@);
                } else {
                    assert(idx_item(self.holder_tokens@, o, t, s) == idx_item(m0, o, t, s));
                    assert(l0.indexed(o, t, s) == l0.holds(o, t, s));
                    if t == tid && s == new_sid {
                        assert(!l0.holds(o, t, s));
                        assert(self.holders@[t - 1]@[s - 1]@ == holder@ && o != holder@);
                    } else if t == tid {
                        assert(self.holds(o, t, s) == l0.holds(o, t, s));
                    } else {
                        if 1 <= t <= self.holders@.len() {
                            assert(self.holders@[t - 1] == l0.holders@[t - 1]);
                        }
                    }
                }
            }
            assert(self.wf());
        }
        let tx = Transaction::mint(
            now_ns,
            tid_packed,
            Some(bytes_clone(minter)),
            bytes_clone(holder),
            meta,
            None,
        );
        self.append_block(tx)
    }

    /// Mints one sub-item of the requested token group to every listed
    /// holder, recording one mint block each; the token's supply and the
    /// reverse index advance with the holder list. A batch that is empty,
    /// oversized or sent by a non-minter aborts whole; a missing group or an
    /// exhausted supply cap is reported without any effect.
    pub fn sft_mint(&mut self, caller: &Vec<u8>, args: MintArg, now_ns: u64) -> (r: Result<
        MintResult,
        String,
    >)
        requires
            old(self).wf(),
        ensures
            final(self).wf(),
            ({
                let minter_ok = crate::types::has_principal(
                    old(self).collection.minters@,
                    caller@,
                );
                let n = args.holders@.len();
                let maxb = old(self).collection.settings.max_update_batch_size;
                let tid = crate::ids::unpack_group(args.token_id);
                let in_range = 1 <= tid <= old(self).tokens@.len();
                let cap_hit = in_range && (old(self).tokens@[tid - 1].total_supply + n
                    > u32::MAX || (old(self).tokens@[tid - 1].supply_cap matches Some(cap) && old(
                    self,
                ).tokens@[tid - 1].total_supply + n >= cap));
                match r {
                    Err(m) => *final(self) == *old(self) && (if !minter_ok {
                        m@ == "caller is not a minter"@
                    } else if n == 0 {
                        m@ == "no mint holders provided"@
                    } else {
                        n > maxb && m@ == "exceeds max update batch size"@
                    }),
                    Ok(rr) => minter_ok && 0 < n <= maxb && match rr {
                        Err(e) => *final(self) == *old(self) && (match e {
                            MintError::NonExistingTokenId => !in_range,
                            MintError::SupplyCapReached => in_range && cap_hit,
                            _ => false,
                        }),
                        Ok(idx) => in_range && !cap_hit && idx == old(self).blocks@.len() + n - 1
                            && mint_batch_ok(
                            *old(self),
                            *final(self),
                            caller@,
                            args.holders@,
                            tid,
                            args.token_id,
                            now_ns,
                        ),
                    },
                }
            }),
    {
        if !principal_in(&self.collection.minters, caller) {
            return Err("caller is not a minter".to_owned());
        }
        if args.holders.len() == 0 {
            return Err("no mint holders provided".to_owned());
        }
        if args.holders.len() > self.collection.settings.max_update_batch_size as usize {
            return Err("exceeds max update batch size".to_owned());
        }
        let id = SftId::from_u64(args.token_id);
        let tid = id.0;
        if tid < 1 || (tid as usize) > self.tokens.len() {
            return Ok(Err(MintError::NonExistingTokenId));
        }
        let t_idx = (tid - 1) as usize;
        let n = args.holders.len();
        let supply = self.tokens[t_idx].total_supply;
        if supply as u64 + n as u64 > u32::MAX as u64 {
            return Ok(Err(MintError::SupplyCapReached));
        }
        if let Some(cap) = self.tokens[t_idx].supply_cap {
            if supply as u64 + n as u64 >= cap as u64 {
                return Ok(Err(MintError::SupplyCapReached));
            }
        }
        let meta_base = self.tokens[t_idx].metadata_map();
        let mut block_idx: u64 = 0;
        let mut i: usize = 0;
        let ghost n0 = self.holders@[t_idx as int]@.len();
        let ghost b0 = self.blocks@.len();
        let ghost mut sts: Seq<Ledger> = seq![*old(self)];
        while i < n
            invariant
                self.wf(),
                1 <= tid <= self.holders@.len(),
                t_idx == tid - 1,
                n == args.holders@.len(),
                i <= n,
                self.holders@[t_idx as int]@.len() == n0 + i,
                n0 + n <= u32::MAX,
                self.blocks@.len() == b0 + i,
                i > 0 ==> block_idx == b0 + i - 1,
                tid == crate::ids::unpack_group(args.token_id),
                meta_view(meta_base@) == token_metadata_view(old(self).tokens@[t_idx as int]),
                sts.len() == i + 1,
                sts[0] == *old(self),
                sts[sts.len() - 1] == *self,
                forall|j: int|
                    0 <= j < i ==> applied_mint(
                        #[trigger] sts[j],
                        sts[j + 1],
                        caller@,
                        args.holders@[j]@,
                        tid,
                        args.token_id,
                        token_metadata_view(old(self).tokens@[t_idx as int]),
                        now_ns,
                    ),
            decreases n - i,
        {
            let ghost pre_l = *self;
            let meta = clone_metadata(&meta_base);
            block_idx = self.mint_to(caller, &args.holders[i], tid, args.token_id, meta, now_ns);
            proof {
                assert(applied_mint(
                    pre_l,
                    *self,
                    caller@,
                    args.holders@[i as int]@,
                    tid,
                    args.token_id,
                    token_metadata_view(old(self).tokens@[t_idx as int]),
                    now_ns,
                ));
                sts = sts.push(*self);
            }
            i = i + 1;
        }
        proof {
            assert(mint_chain(sts, caller@, args.holders@, tid, args.token_id, now_ns));
            assert(mint_batch_ok(
                *old(self),
                *self,
                caller@,
                args.holders@,
                tid,
                args.token_id,
                now_ns,
            ));
        }
        Ok(Ok(block_idx))
    }

    /// The token-creation core shared by the manager path and the
    /// challenge path: the collection cap, the fresh-asset rule, the new
    /// record and holder list, the advanced group count.
    fn create_token_core(&mut self, args: CreateTokenArg, now_sec: u64) -> (r: Result<u64, String>)
        requires
            old(self).wf(),
        ensures
            final(self).wf(),
            ({
                let cap_hit = (old(self).collection.supply_cap matches Some(cap) && old(
                    self,
                ).collection.total_supply >= cap) || old(self).tokens@.len() >= u32::MAX;
                let dup = bmap_has(old(self).assets@, sha3_of(args.asset_content@));
                match r {
                    Err(m) => *final(self) == *old(self) && (if cap_hit {
                        m@ == "supply cap reached"@
                    } else {
                        dup && m@ == "asset already exists"@
                    }),
                    Ok(id) => {
                        &&& !cap_hit && !dup
                        &&& id == old(self).tokens@.len() + 1
                        &&& final(self).tokens@.len() == old(self).tokens@.len() + 1
                        &&& final(self).tokens@.last().name@ == args.name@
                        &&& final(self).tokens@.last().asset_hash@ == sha3_of(args.asset_content@)
                        &&& final(self).tokens@.last().total_supply == 0
                        &&& final(self).tokens@.last().supply_cap == args.supply_cap
                        &&& final(self).tokens@.last().author@ == args.author@
                        &&& final(self).holders@.last()@.len() == 0
                        &&& bmap_get(final(self).assets@, sha3_of(args.asset_content@)) matches
                            Some(c) && c@ == args.asset_content@
                        &&& final(self).collection.total_supply == old(
                            self,
                        ).collection.total_supply + 1
                        &&& final(self).blocks == old(self).blocks
                    },
                }
            }),
    {
        if let Some(cap) = self.collection.supply_cap {
            if self.collection.total_supply >= cap {
                return Err("supply cap reached".to_owned());
            }
        }
        if self.tokens.len() as u64 >= u32::MAX as u64 {
            return Err("supply cap reached".to_owned());
        }
        let hash = sha3_256(&args.asset_content);
        if let Some(_i) = bmap_find(&self.assets, &hash) {
            return Err("asset already exists".to_owned());
        }
        let ghost l0 = *self;
        let id: u32 = self.tokens.len() as u32 + 1;
        bmap_set(&mut self.assets, bytes_clone(&hash), args.asset_content);
        let token = Token {
            id,
            name: args.name,
            description: args.description,
            asset_name: args.asset_name,
            asset_content_type: args.asset_content_type,
            asset_hash: hash,
            metadata: args.metadata,
            author: args.author,
            supply_cap: args.supply_cap,
            total_supply: 0,
            created_at: now_sec,
            updated_at: now_sec,
        };
        self.tokens.push(token);
        self.holders.push(Vec::new());
        self.collection.total_supply = self.collection.total_supply + 1;
        self.collection.updated_at = now_sec;
        proof {
            assert forall|o: Seq<u8>, t: u32, s: u32| #[trigger] self.indexed(o, t, s)
                <==> self.holds(o, t, s) by {
                assert(self.indexed(o, t, s) == l0.indexed(o, t, s));
                assert(l0.indexed(o, t, s) == l0.holds(o, t, s));
                if t == id {
                    assert(self.holders@[t - 1]@.len() == 0);
                    assert(!l0.holds(o, t, s));
                } else {
                    if 1 <= t <= l0.holders@.len() {
                        assert(self.holders@[t - 1] == l0.holders@[t - 1]);
                    }
                }
            }
            assert(self.wf());
        }
        Ok(id as u64)
    }

    /// Creates a new token group from the given record: the asset is stored
    /// under its content hash (a duplicate is rejected), the token takes the
    /// next group id with an empty holder list, and the collection's group
    /// count advances. Only a manager may create, and only below the
    /// collection supply cap.
    pub fn sft_create_token(&mut self, caller: &Vec<u8>, args: CreateTokenArg, now_sec: u64) -> (r:
        Result<u64, String>)
        requires
            old(self).wf(),
        ensures
            final(self).wf(),
            ({
                let mgr = crate::types::has_principal(old(self).collection.managers@, caller@);
                let cap_hit = (old(self).collection.supply_cap matches Some(cap) && old(
                    self,
                ).collection.total_supply >= cap) || old(self).tokens@.len() >= u32::MAX;
                let dup = bmap_has(old(self).assets@, sha3_of(args.asset_content@));
                match r {
                    Err(m) => *final(self) == *old(self) && (if !mgr {
                        m@ == "caller is not a manager"@
                    } else if cap_hit {
                        m@ == "supply cap reached"@
                    } else {
                        dup && m@ == "asset already exists"@
                    }),
                    Ok(id) => {
                        &&& mgr && !cap_hit && !dup
                        &&& id == old(self).tokens@.len() + 1
                        &&& final(self).tokens@.len() == old(self).tokens@.len() + 1
                        &&& final(self).tokens@.last().name@ == args.name@
                        &&& final(self).tokens@.last().asset_hash@ == sha3_of(args.asset_content@)
                        &&& final(self).tokens@.last().total_supply == 0
                        &&& final(self).tokens@.last().supply_cap == args.supply_cap
                        &&& final(self).tokens@.last().author@ == args.author@
                        &&& final(self).holders@.last()@.len() == 0
                        &&& bmap_get(final(self).assets@, sha3_of(args.asset_content@)) matches
                            Some(c) && c@ == args.asset_content@
                        &&& final(self).collection.total_supply == old(
                            self,
                        ).collection.total_supply + 1
                        &&& final(self).blocks == old(self).blocks
                    },
                }
            }),
    {
        if !principal_in(&self.collection.managers, caller) {
            return Err("caller is not a manager".to_owned());
        }
        self.create_token_core(args, now_sec)
    }
}


/// A collection-level approval of `spender` by `owner` is active at
/// `now_sec`: the recorded expiry is strictly in the future (an expiry equal
/// to now has lapsed), with zero standing for no expiry at all being
/// inactive only when in the past — a zero expiry never passes this check,
/// matching the stored form where revoked and expired entries are removed
/// rather than zeroed.
pub open spec fn coll_approved(l: Ledger, owner: Seq<u8>, spender: Seq<u8>, now_sec: u64) -> bool {
    bmap_get(l.approvals@, owner) matches Some(aps) && (bmap_get(aps@, spender) matches Some(ce)
        && ce.1 > now_sec)
}

/// A token-level approval of `spender` on `(owner, tid, sid)` is active at
/// `now_sec`, with the same strict expiry bound.
pub open spec fn token_approved(
    l: Ledger,
    owner: Seq<u8>,
    spender: Seq<u8>,
    tid: u32,
    sid: u32,
    now_sec: u64,
) -> bool {
    l.index_item(owner, tid, sid) matches Some(slot) && (slot matches Some(aps) && (bmap_get(
        aps@,
        spender,
    ) matches Some(ce) && ce.1 > now_sec))
}

/// The expiry bound is exclusive on both kinds of approval: an approval
/// whose expiry equals the clock is no longer active, one expiring a second
/// later still is.
pub proof fn lemma_approval_expiry_boundary(
    l: Ledger,
    owner: Seq<u8>,
    spender: Seq<u8>,
    now_sec: u64,
    ce: (u64, u64),
)
    requires
        bmap_get(l.approvals@, owner) matches Some(aps) && bmap_get(aps@, spender) == Some(ce),
    ensures
        ce.1 == now_sec ==> !coll_approved(l, owner, spender, now_sec),
        ce.1 > now_sec ==> coll_approved(l, owner, spender, now_sec),
{
}

impl Ledger {
    /// Whether `spender` may move `(tid, sid)` out of `owner`'s hands now:
    /// an active collection-level approval, or failing that an active
    /// token-level one.
    pub fn is_approved(
        &self,
        owner: &Vec<u8>,
        spender: &Vec<u8>,
        tid: u32,
        sid: u32,
        now_sec: u64,
    ) -> (r: bool)
        requires
            self.wf(),
        ensures
            r == (coll_approved(*self, owner@, spender@, now_sec) || token_approved(
                *self,
                owner@,
                spender@,
                tid,
                sid,
                now_sec,
            )),
    {
        if let Some(ai) = bmap_find(&self.approvals, owner) {
            proof {
                lemma_bmap_get_at(self.approvals@, owner@, ai as int);
            }
            if let Some(si) = bmap_find(&self.approvals[ai].1, spender) {
                proof {
                    lemma_bmap_sorted_unique(self.approvals@[ai as int].1@);
                    lemma_bmap_get_at(self.approvals@[ai as int].1@, spender@, si as int);
                }
                if self.approvals[ai].1[si].1.1 > now_sec {
                    return true;
                }
            }
        }
        if let Some(oi) = bmap_find(&self.holder_tokens, owner) {
            proof {
                lemma_bmap_get_at(self.holder_tokens@, owner@, oi as int);
            }
            let ht = &self.holder_tokens[oi].1;
            if let Some(gi) = umap_find(ht, tid) {
                proof {
                    lemma_umap_get_at(ht@, tid, gi as int);
                }
                let items = &ht[gi].1;
                if let Some(ii) = umap_find(items, sid) {
                    proof {
                        lemma_umap_get_at(items@, sid, ii as int);
                    }
                    if let Some(aps) = &items[ii].1 {
                        if let Some(si) = bmap_find(aps, spender) {
                            proof {
                                lemma_bmap_sorted_unique(aps@);
                                lemma_bmap_get_at(aps@, spender@, si as int);
                            }
                            if aps[si].1.1 > now_sec {
                                return true;
                            }
                        }
                    }
                }
            }
        }
        false
    }

    /// Whether every item of a transfer batch passes the atomic pre-check:
    /// valid and currently held by the caller.
    fn transfer_precheck(&self, caller: &Vec<u8>, args: &Vec<TransferArg>, now_ns: u64) -> (ok:
        bool)
        requires
            self.wf(),
        ensures
            ok <==> (forall|j: int|
                0 <= j < args@.len() ==> !atomic_transfer_bad(
                    *self,
                    caller@,
                    #[trigger] args@[j],
                    now_ns,
                )),
    {
        let now_sec = now_ns / SECOND;
        let settings = self.collection.settings;
        let mut i: usize = 0;
        while i < args.len()
            invariant
                self.wf(),
                i <= args@.len(),
                now_sec == now_ns / SECOND,
                settings == self.collection.settings,
                forall|j: int|
                    0 <= j < i ==> !atomic_transfer_bad(
                        *self,
                        caller@,
                        #[trigger] args@[j],
                        now_ns,
                    ),
            decreases args@.len() - i,
        {
            if args[i].validate(now_sec, caller, &settings).is_err() {
                proof {
                    assert(atomic_transfer_bad(*self, caller@, args@[i as int], now_ns));
                }
                return false;
            }
            let id = SftId::from_u64(args[i].token_id);
            if id.0 < 1 || (id.0 as usize) > self.holders.len() {
                return false;
            }
            let hl = &self.holders[(id.0 - 1) as usize];
            if id.1 < 1 || (id.1 as usize) > hl.len() {
                return false;
            }
            if !bytes_eq(&hl[(id.1 - 1) as usize], caller) {
                return false;
            }
            proof {
                assert(!atomic_transfer_bad(*self, caller@, args@[i as int], now_ns));
            }
            i = i + 1;
        }
        true
    }

    /// Applies a transfer batch item by item, yielding the chain of states
    /// the items step through.
    fn apply_transfers(&mut self, caller: &Vec<u8>, args: &Vec<TransferArg>, now_ns: u64) -> (res:
        Vec<Option<TransferResult>>)
        requires
            old(self).wf(),
        ensures
            final(self).wf(),
            res@.len() == args@.len(),
            final(self).collection.settings == old(self).collection.settings,
            transfer_batch_ok(*old(self), *final(self), caller@, args@, now_ns, res@),
    {
        let now_sec = now_ns / SECOND;
        let settings = self.collection.settings;
        let mut res: Vec<Option<TransferResult>> = Vec::new();
        let mut i: usize = 0;
        let ghost mut sts: Seq<Ledger> = seq![*old(self)];
        while i < args.len()
            invariant
                self.wf(),
                res@.len() == i,
                i <= args@.len(),
                now_sec == now_ns / SECOND,
                settings == old(self).collection.settings,
                self.collection.settings == old(self).collection.settings,
                sts.len() == i + 1,
                sts[0] == *old(self),
                sts[sts.len() - 1] == *self,
                forall|j: int|
                    0 <= j < i ==> transfer_step(
                        #[trigger] sts[j],
                        caller@,
                        args@[j],
                        now_ns,
                        sts[j + 1],
                        res@[j],
                    ),
            decreases args@.len() - i,
        {
            let ghost pre_l = *self;
            match args[i].validate(now_sec, caller, &settings) {
                Err(e) => {
                    res.push(Some(Err(e)));
                },
                Ok(()) => {
                    let id = SftId::from_u64(args[i].token_id);
                    let memo = match &args[i].memo {
                        Some(m) => Some(bytes_clone(m)),
                        None => None,
                    };
                    proof {
                        assert(crate::tx::opt_bytes_view(memo) == crate::tx::opt_bytes_view(
                            args@[i as int].memo,
                        ));
                    }
                    let one = self.transfer_item(
                        caller,
                        &args[i].to.owner,
                        id.0,
                        id.1,
                        memo,
                        now_ns,
                    );
                    res.push(Some(one));
                },
            }
            proof {
                assert(transfer_step(
                    pre_l,
                    caller@,
                    args@[i as int],
                    now_ns,
                    *self,
                    res@[i as int],
                ));
                sts = sts.push(*self);
            }
            i = i + 1;
        }
        proof {
            assert(transfer_chain(sts, caller@, args@, now_ns, res@));
            assert(transfer_batch_ok(*old(self), *self, caller@, args@, now_ns, res@));
        }
        res
    }

    /// Performs a batch of holder-initiated transfers: each item is
    /// validated and applied independently, its result at its index, the
    /// whole batch a chain of single-item steps. With atomic batch transfers
    /// enabled and more than one item, every item is pre-validated and
    /// pre-authorized, and any failure aborts the whole batch before any
    /// effect.
    pub fn icrc7_transfer(&mut self, caller: &Vec<u8>, args: Vec<TransferArg>, now_ns: u64) -> (r:
        Result<Vec<Option<TransferResult>>, String>)
        requires
            old(self).wf(),
        ensures
            final(self).wf(),
            ({
                let s0 = old(self).collection.settings;
                let blocked = s0.atomic_batch_transfers && args@.len() > 1 && (exists|i: int|
                    0 <= i < args@.len() && #[trigger] atomic_transfer_bad(
                        *old(self),
                        caller@,
                        args@[i],
                        now_ns,
                    ));
                match r {
                    Err(m) => *final(self) == *old(self) && (if args@.len() == 0 {
                        m@ == "no transfer args provided"@
                    } else if args@.len() > s0.max_update_batch_size {
                        m@ == "exceeds max update batch size"@
                    } else {
                        blocked && m@ == "invalid transfer args"@
                    }),
                    Ok(res) => args@.len() > 0 && args@.len() <= s0.max_update_batch_size
                        && !blocked && res@.len() == args@.len() && transfer_batch_ok(
                        *old(self),
                        *final(self),
                        caller@,
                        args@,
                        now_ns,
                        res@,
                    ),
                }
            }),
    {
        if args.len() == 0 {
            return Err("no transfer args provided".to_owned());
        }
        if args.len() > self.collection.settings.max_update_batch_size as usize {
            return Err("exceeds max update batch size".to_owned());
        }
        if self.collection.settings.atomic_batch_transfers && args.len() > 1 {
            if !self.transfer_precheck(caller, &args, now_ns) {
                proof {
                    assert(exists|i: int|
                        0 <= i < args@.len() && #[trigger] atomic_transfer_bad(
                            *old(self),
                            caller@,
                            args@[i],
                            now_ns,
                        ));
                }
                return Err("invalid transfer args".to_owned());
            }
        }
        let res = self.apply_transfers(caller, &args, now_ns);
        Ok(res)
    }
}

/// How many collection-level approvals `owner` has standing.
pub open spec fn coll_approval_count(l: Ledger, owner: Seq<u8>) -> int {
    match bmap_get(l.approvals@, owner) {
        Some(a) => a@.len() as int,
        None => 0,
    }
}

/// One collection-level approval applied: the spender entered in the
/// owner's approval list with the given seconds, one approval block chained
/// on, and everything else untouched.
pub open spec fn applied_coll_approval(
    pre: Ledger,
    post: Ledger,
    owner: Seq<u8>,
    info: crate::types::ApprovalInfo,
    now_ns: u64,
) -> bool {
    let spender = info.spender.owner@;
    let created_sec = (match info.created_at_time {
        Some(c) => c,
        None => 0u64,
    }) / SECOND;
    let exp_sec = (match info.expires_at {
        Some(e) => e,
        None => 0u64,
    }) / SECOND;
    &&& post.blocks@.len() == pre.blocks@.len() + 1
    &&& forall|j: int| 0 <= j < pre.blocks@.len() ==> post.blocks@[j] == pre.blocks@[j]
    &&& block_tx_view(post.blocks@.last()) == (TxView {
        ts: now_ns,
        op: "37approve_coll"@,
        tid: 0,
        from: Some(owner),
        to: None,
        spender: Some(spender),
        exp: info.expires_at,
        meta: None,
        memo: crate::tx::opt_bytes_view(info.memo),
        created_at_time: None,
    })
    &&& bmap_get(post.approvals@, owner) matches Some(aps2) && ({
        &&& bmap_get(aps2@, spender) == Some((created_sec, exp_sec))
        &&& forall|sp: Seq<u8>|
            sp != spender ==> #[trigger] bmap_get(aps2@, sp) == (match bmap_get(
                pre.approvals@,
                owner,
            ) {
                Some(a) => bmap_get(a@, sp),
                None => None,
            })
        &&& aps2@.len() <= coll_approval_count(pre, owner) + 1
    })
    &&& forall|o: Seq<u8>|
        o != owner ==> #[trigger] bmap_get(post.approvals@, o) == bmap_get(pre.approvals@, o)
    &&& post.holder_tokens == pre.holder_tokens
    &&& post.holders == pre.holders
    &&& post.tokens == pre.tokens
    &&& post.assets == pre.assets
    &&& post.collection.settings == pre.collection.settings
    &&& post.collection.minters == pre.collection.minters
    &&& post.collection.managers == pre.collection.managers
    &&& post.collection.total_supply == pre.collection.total_supply
    &&& post.collection.supply_cap == pre.collection.supply_cap
}

/// What one item of a collection-approval batch does: the validation error,
/// the cap error (with nothing changed and no block appended), or the
/// applied approval, each if and only if its condition.
pub open spec fn approve_coll_step(
    pre: Ledger,
    caller: Seq<u8>,
    arg: crate::types::ApproveCollectionArg,
    now_ns: u64,
    post: Ledger,
    r: Option<crate::types::ApproveCollectionResult>,
) -> bool {
    let v = crate::types::approval_verdict_spec(
        arg.approval_info,
        now_ns / SECOND,
        caller,
        pre.collection.settings,
    );
    if !(v is Fine) {
        post == pre && (r matches Some(Err(e)) && crate::types::approve_coll_error_for(v, e))
    } else if coll_approval_count(pre, caller)
        >= pre.collection.settings.max_approvals_per_token_or_collection {
        post == pre && (r matches Some(Err(e)) && (e matches
            crate::types::ApproveCollectionError::GenericBatchError { error_code, message }
            && error_code == 0 && message@ == "exceeds the maximum number of approvals"@))
    } else {
        &&& r matches Some(rr) && (rr matches Ok(idx) && idx == pre.blocks@.len())
        &&& applied_coll_approval(pre, post, caller, arg.approval_info, now_ns)
    }
}

/// A collection-approval batch as a chain of states.
pub open spec fn approve_coll_chain(
    sts: Seq<Ledger>,
    caller: Seq<u8>,
    args: Seq<crate::types::ApproveCollectionArg>,
    now_ns: u64,
    res: Seq<Option<crate::types::ApproveCollectionResult>>,
) -> bool {
    &&& sts.len() == args.len() + 1
    &&& res.len() == args.len()
    &&& forall|i: int|
        0 <= i < args.len() ==> approve_coll_step(
            #[trigger] sts[i],
            caller,
            args[i],
            now_ns,
            sts[i + 1],
            res[i],
        )
}

/// A collection-approval batch carried `pre` to `post` yielding `res`.
pub open spec fn approve_coll_batch_ok(
    pre: Ledger,
    post: Ledger,
    caller: Seq<u8>,
    args: Seq<crate::types::ApproveCollectionArg>,
    now_ns: u64,
    res: Seq<Option<crate::types::ApproveCollectionResult>>,
) -> bool {
    exists|sts: Seq<Ledger>|
        sts.len() > 0 && sts[0] == pre && sts[sts.len() - 1] == post
            && #[trigger] approve_coll_chain(sts, caller, args, now_ns, res)
}

impl Ledger {
    /// Enters one collection-level approval for `caller`, below the cap.
    fn approve_coll_item(
        &mut self,
        caller: &Vec<u8>,
        info: &crate::types::ApprovalInfo,
        now_ns: u64,
    ) -> (idx: u64)
        requires
            old(self).wf(),
            coll_approval_count(*old(self), caller@) < old(
                self,
            ).collection.settings.max_approvals_per_token_or_collection,
        ensures
            final(self).wf(),
            idx == old(self).blocks@.len(),
            applied_coll_approval(*old(self), *final(self), caller@, *info, now_ns),
    {
        let created_sec: u64 = match info.created_at_time {
            Some(c) => c / SECOND,
            None => 0,
        };
        let exp_sec: u64 = match info.expires_at {
            Some(e) => e / SECOND,
            None => 0,
        };
        let ghost m0 = self.approvals@;
        let aps_opt = bmap_remove(&mut self.approvals, caller);
        let mut aps: Approvals = match aps_opt {
            Some(a) => a,
            None => Vec::new(),
        };
        proof {
            if bmap_has(m0, caller@) {
                let ai = crate::assoc::bmap_idx(m0, caller@);
                assert(bmap_sorted(m0[ai].1@));
            }
            assert(bmap_sorted(aps@));
        }
        let ghost aps0 = aps@;
        bmap_sorted_set(&mut aps, bytes_clone(&info.spender.owner), (created_sec, exp_sec));
        let ghost aps1 = aps@;
        bmap_set(&mut self.approvals, bytes_clone(caller), aps);
        proof {
            lemma_index_consistent_preserved(*old(self), *self);
            assert(self.wf());
        }
        let memo = match &info.memo {
            Some(m) => Some(bytes_clone(m)),
            None => None,
        };
        let tx = Transaction::approve_collection(
            now_ns,
            bytes_clone(caller),
            bytes_clone(&info.spender.owner),
            info.expires_at,
            memo,
        );
        let idx = self.append_block(tx);
        proof {
            assert(bmap_get(self.approvals@, caller@) matches Some(a2) && a2@ == aps1);
            assert forall|sp: Seq<u8>| sp != info.spender.owner@ implies #[trigger] bmap_get(
                aps1,
                sp,
            ) == (match bmap_get(m0, caller@) {
                Some(a) => bmap_get(a@, sp),
                None => None::<(u64, u64)>,
            }) by {
                assert(bmap_get(aps1, sp) == bmap_get(aps0, sp));
            }
        }
        idx
    }

    /// Grants `spender` a collection-level approval from `caller` for each
    /// item: validated, capped, applied and logged item by item, the whole
    /// batch a chain of single-item steps.
    pub fn icrc37_approve_collection(
        &mut self,
        caller: &Vec<u8>,
        args: Vec<crate::types::ApproveCollectionArg>,
        now_ns: u64,
    ) -> (r: Result<Vec<Option<crate::types::ApproveCollectionResult>>, String>)
        requires
            old(self).wf(),
        ensures
            final(self).wf(),
            match r {
                Err(m) => *final(self) == *old(self) && (if args@.len() == 0 {
                    m@ == "no ApproveCollectionArg provided"@
                } else {
                    args@.len() > old(self).collection.settings.max_update_batch_size && m@
                        == "exceeds max update batch size"@
                }),
                Ok(res) => args@.len() > 0 && args@.len() <= old(
                    self,
                ).collection.settings.max_update_batch_size && res@.len() == args@.len()
                    && approve_coll_batch_ok(
                    *old(self),
                    *final(self),
                    caller@,
                    args@,
                    now_ns,
                    res@,
                ),
            },
    {
        if args.len() == 0 {
            return Err("no ApproveCollectionArg provided".to_owned());
        }
        let settings = self.collection.settings;
        if args.len() > settings.max_update_batch_size as usize {
            return Err("exceeds max update batch size".to_owned());
        }
        let now_sec = now_ns / SECOND;
        let max = settings.max_approvals_per_token_or_collection;
        let mut res: Vec<Option<crate::types::ApproveCollectionResult>> = Vec::new();
        let mut i: usize = 0;
        let ghost mut sts: Seq<Ledger> = seq![*old(self)];
        while i < args.len()
            invariant
                self.wf(),
                res@.len() == i,
                i <= args@.len(),
                now_sec == now_ns / SECOND,
                settings == old(self).collection.settings,
                max == settings.max_approvals_per_token_or_collection,
                self.collection.settings == old(self).collection.settings,
                sts.len() == i + 1,
                sts[0] == *old(self),
                sts[sts.len() - 1] == *self,
                forall|j: int|
                    0 <= j < i ==> approve_coll_step(
                        #[trigger] sts[j],
                        caller@,
                        args@[j],
                        now_ns,
                        sts[j + 1],
                        res@[j],
                    ),
            decreases args@.len() - i,
        {
            let ghost pre_l = *self;
            match args[i].validate(now_sec, caller, &settings) {
                Err(e) => {
                    res.push(Some(Err(e)));
                },
                Ok(()) => {
                    let cnt: usize = match bmap_find(&self.approvals, caller) {
                        Some(ai) => {
                            proof {
                                lemma_bmap_get_at(self.approvals@, caller@, ai as int);
                            }
                            self.approvals[ai].1.len()
                        },
                        None => 0,
                    };
                    if cnt as u64 >= max as u64 {
                        res.push(
                            Some(
                                Err(
                                    crate::types::ApproveCollectionError::GenericBatchError {
                                        error_code: 0,
                                        message: "exceeds the maximum number of approvals".to_owned(),
                                    },
                                ),
                            ),
                        );
                    } else {
                        let idx = self.approve_coll_item(caller, &args[i].approval_info, now_ns);
                        res.push(Some(Ok(idx)));
                    }
                },
            }
            proof {
                assert(approve_coll_step(
                    pre_l,
                    caller@,
                    args@[i as int],
                    now_ns,
                    *self,
                    res@[i as int],
                ));
                sts = sts.push(*self);
            }
            i = i + 1;
        }
        proof {
            assert(approve_coll_chain(sts, caller@, args@, now_ns, res@));
            assert(approve_coll_batch_ok(*old(self), *self, caller@, args@, now_ns, res@));
        }
        Ok(res)
    }
}

/// One named collection-level revocation applied: the spender removed from
/// the owner's approval list, one revocation block chained on, and
/// everything else untouched.
pub open spec fn applied_coll_revoke_one(
    pre: Ledger,
    post: Ledger,
    owner: Seq<u8>,
    spender: Seq<u8>,
    memo: Option<Seq<u8>>,
    now_ns: u64,
) -> bool {
    &&& post.blocks@.len() == pre.blocks@.len() + 1
    &&& forall|j: int| 0 <= j < pre.blocks@.len() ==> post.blocks@[j] == pre.blocks@[j]
    &&& block_tx_view(post.blocks@.last()) == (TxView {
        ts: now_ns,
        op: "37revoke_coll"@,
        tid: 0,
        from: Some(owner),
        to: None,
        spender: Some(spender),
        exp: None,
        meta: None,
        memo,
        created_at_time: None,
    })
    &&& bmap_get(post.approvals@, owner) matches Some(aps2) && ({
        &&& bmap_get(aps2@, spender) is None
        &&& forall|sp: Seq<u8>|
            sp != spender ==> #[trigger] bmap_get(aps2@, sp) == (match bmap_get(
                pre.approvals@,
                owner,
            ) {
                Some(a) => bmap_get(a@, sp),
                None => None,
            })
    })
    &&& forall|o: Seq<u8>|
        o != owner ==> #[trigger] bmap_get(post.approvals@, o) == bmap_get(pre.approvals@, o)
    &&& post.holder_tokens == pre.holder_tokens
    &&& post.holders == pre.holders
    &&& post.tokens == pre.tokens
    &&& post.assets == pre.assets
    &&& post.collection.settings == pre.collection.settings
    &&& post.collection.minters == pre.collection.minters
    &&& post.collection.managers == pre.collection.managers
    &&& post.collection.total_supply == pre.collection.total_supply
    &&& post.collection.supply_cap == pre.collection.supply_cap
}

/// A revoke-all collection revocation applied: the owner's whole approval
/// record dropped, one revocation block chained on, and everything else
/// untouched.
pub open spec fn applied_coll_revoke_all(
    pre: Ledger,
    post: Ledger,
    owner: Seq<u8>,
    memo: Option<Seq<u8>>,
    now_ns: u64,
) -> bool {
    &&& post.blocks@.len() == pre.blocks@.len() + 1
    &&& forall|j: int| 0 <= j < pre.blocks@.len() ==> post.blocks@[j] == pre.blocks@[j]
    &&& block_tx_view(post.blocks@.last()) == (TxView {
        ts: now_ns,
        op: "37revoke_coll"@,
        tid: 0,
        from: Some(owner),
        to: None,
        spender: None,
        exp: None,
        meta: None,
        memo,
        created_at_time: None,
    })
    &&& bmap_get(post.approvals@, owner) is None
    &&& forall|o: Seq<u8>|
        o != owner ==> #[trigger] bmap_get(post.approvals@, o) == bmap_get(pre.approvals@, o)
    &&& post.holder_tokens == pre.holder_tokens
    &&& post.holders == pre.holders
    &&& post.tokens == pre.tokens
    &&& post.assets == pre.assets
    &&& post.collection.settings == pre.collection.settings
    &&& post.collection.minters == pre.collection.minters
    &&& post.collection.managers == pre.collection.managers
    &&& post.collection.total_supply == pre.collection.total_supply
    &&& post.collection.supply_cap == pre.collection.supply_cap
}

/// What one item of a collection-revocation batch does: the validation
/// error; with a named spender, that entry removed exactly or
/// `ApprovalDoesNotExist`; with none, the whole record dropped or
/// `ApprovalDoesNotExist` when there was no record.
pub open spec fn revoke_coll_step(
    pre: Ledger,
    caller: Seq<u8>,
    arg: crate::types::RevokeCollectionApprovalArg,
    now_ns: u64,
    post: Ledger,
    r: Option<crate::types::RevokeCollectionApprovalResult>,
) -> bool {
    let v = crate::types::revoke_verdict_spec(
        arg.spender,
        arg.from_subaccount,
        arg.memo,
        arg.created_at_time,
        now_ns / SECOND,
        caller,
        pre.collection.settings,
    );
    if !(v is Fine) {
        post == pre && (r matches Some(Err(e)) && crate::types::revoke_coll_error_for(v, e))
    } else {
        match arg.spender {
            Some(sp) => {
                if bmap_get(pre.approvals@, caller) matches Some(a) && bmap_has(a@, sp.owner@) {
                    (r matches Some(rr) && (rr matches Ok(idx) && idx == pre.blocks@.len()))
                        && applied_coll_revoke_one(
                        pre,
                        post,
                        caller,
                        sp.owner@,
                        crate::tx::opt_bytes_view(arg.memo),
                        now_ns,
                    )
                } else {
                    post == pre && (r matches Some(Err(e)) && e is ApprovalDoesNotExist)
                }
            },
            None => {
                if bmap_has(pre.approvals@, caller) {
                    (r matches Some(rr) && (rr matches Ok(idx) && idx == pre.blocks@.len()))
                        && applied_coll_revoke_all(
                        pre,
                        post,
                        caller,
                        crate::tx::opt_bytes_view(arg.memo),
                        now_ns,
                    )
                } else {
                    post == pre && (r matches Some(Err(e)) && e is ApprovalDoesNotExist)
                }
            },
        }
    }
}

/// A collection-revocation batch as a chain of states.
pub open spec fn revoke_coll_chain(
    sts: Seq<Ledger>,
    caller: Seq<u8>,
    args: Seq<crate::types::RevokeCollectionApprovalArg>,
    now_ns: u64,
    res: Seq<Option<crate::types::RevokeCollectionApprovalResult>>,
) -> bool {
    &&& sts.len() == args.len() + 1
    &&& res.len() == args.len()
    &&& forall|i: int|
        0 <= i < args.len() ==> revoke_coll_step(
            #[trigger] sts[i],
            caller,
            args[i],
            now_ns,
            sts[i + 1],
            res[i],
        )
}

/// A collection-revocation batch carried `pre` to `post` yielding `res`.
pub open spec fn revoke_coll_batch_ok(
    pre: Ledger,
    post: Ledger,
    caller: Seq<u8>,
    args: Seq<crate::types::RevokeCollectionApprovalArg>,
    now_ns: u64,
    res: Seq<Option<crate::types::RevokeCollectionApprovalResult>>,
) -> bool {
    exists|sts: Seq<Ledger>|
        sts.len() > 0 && sts[0] == pre && sts[sts.len() - 1] == post
            && #[trigger] revoke_coll_chain(sts, caller, args, now_ns, res)
}

impl Ledger {
    /// Removes one named spender from `caller`'s collection approvals.
    fn revoke_coll_one(
        &mut self,
        caller: &Vec<u8>,
        spender: &Vec<u8>,
        memo: Option<Vec<u8>>,
        now_ns: u64,
    ) -> (idx: u64)
        requires
            old(self).wf(),
            bmap_get(old(self).approvals@, caller@) matches Some(a) && bmap_has(a@, spender@),
        ensures
            final(self).wf(),
            idx == old(self).blocks@.len(),
            applied_coll_revoke_one(
                *old(self),
                *final(self),
                caller@,
                spender@,
                crate::tx::opt_bytes_view(memo),
                now_ns,
            ),
    {
        let ghost m0 = self.approvals@;
        let aps_opt = bmap_remove(&mut self.approvals, caller);
        let mut aps: Approvals = match aps_opt {
            Some(a) => a,
            None => Vec::new(),
        };
        proof {
            let ai = crate::assoc::bmap_idx(m0, caller@);
            assert(bmap_sorted(m0[ai].1@));
            assert(bmap_sorted(aps@));
            lemma_bmap_sorted_unique(aps@);
        }
        let ghost aps0 = aps@;
        bmap_remove(&mut aps, spender);
        let ghost aps1 = aps@;
        bmap_set(&mut self.approvals, bytes_clone(caller), aps);
        proof {
            lemma_index_consistent_preserved(*old(self), *self);
            assert(self.wf());
        }
        let tx = Transaction::revoke_collection(
            now_ns,
            bytes_clone(caller),
            Some(bytes_clone(spender)),
            memo,
        );
        let idx = self.append_block(tx);
        proof {
            assert(bmap_get(self.approvals@, caller@) matches Some(a2) && a2@ == aps1);
            assert forall|sp: Seq<u8>| sp != spender@ implies #[trigger] bmap_get(aps1, sp) == (
            match bmap_get(m0, caller@) {
                Some(a) => bmap_get(a@, sp),
                None => None::<(u64, u64)>,
            }) by {
                assert(bmap_get(aps1, sp) == bmap_get(aps0, sp));
            }
        }
        idx
    }

    /// Drops `caller`'s whole collection-approval record.
    fn revoke_coll_all(&mut self, caller: &Vec<u8>, memo: Option<Vec<u8>>, now_ns: u64) -> (idx:
        u64)
        requires
            old(self).wf(),
            bmap_has(old(self).approvals@, caller@),
        ensures
            final(self).wf(),
            idx == old(self).blocks@.len(),
            applied_coll_revoke_all(
                *old(self),
                *final(self),
                caller@,
                crate::tx::opt_bytes_view(memo),
                now_ns,
            ),
    {
        bmap_remove(&mut self.approvals, caller);
        proof {
            lemma_index_consistent_preserved(*old(self), *self);
            assert(self.wf());
        }
        let tx = Transaction::revoke_collection(now_ns, bytes_clone(caller), None, memo);
        self.append_block(tx)
    }

    /// Revokes `caller`'s collection-level approvals item by item: a named
    /// spender is removed exactly (absent means the approval does not
    /// exist), no spender drops the whole record; each applied revocation
    /// logs a block, the whole batch a chain of single-item steps.
    pub fn icrc37_revoke_collection_approvals(
        &mut self,
        caller: &Vec<u8>,
        args: Vec<crate::types::RevokeCollectionApprovalArg>,
        now_ns: u64,
    ) -> (r: Result<Vec<Option<crate::types::RevokeCollectionApprovalResult>>, String>)
        requires
            old(self).wf(),
        ensures
            final(self).wf(),
            match r {
                Err(m) => *final(self) == *old(self) && (if args@.len() == 0 {
                    m@ == "no RevokeCollectionApprovalArg provided"@
                } else {
                    args@.len() > old(self).collection.settings.max_revoke_approvals && m@
                        == "exceeds max revoke approvals"@
                }),
                Ok(res) => args@.len() > 0 && args@.len() <= old(
                    self,
                ).collection.settings.max_revoke_approvals && res@.len() == args@.len()
                    && revoke_coll_batch_ok(
                    *old(self),
                    *final(self),
                    caller@,
                    args@,
                    now_ns,
                    res@,
                ),
            },
    {
        if args.len() == 0 {
            return Err("no RevokeCollectionApprovalArg provided".to_owned());
        }
        let settings = self.collection.settings;
        if args.len() > settings.max_revoke_approvals as usize {
            return Err("exceeds max revoke approvals".to_owned());
        }
        let now_sec = now_ns / SECOND;
        let mut res: Vec<Option<crate::types::RevokeCollectionApprovalResult>> = Vec::new();
        let mut i: usize = 0;
        let ghost mut sts: Seq<Ledger> = seq![*old(self)];
        while i < args.len()
            invariant
                self.wf(),
                res@.len() == i,
                i <= args@.len(),
                now_sec == now_ns / SECOND,
                settings == old(self).collection.settings,
                self.collection.settings == old(self).collection.settings,
                sts.len() == i + 1,
                sts[0] == *old(self),
                sts[sts.len() - 1] == *self,
                forall|j: int|
                    0 <= j < i ==> revoke_coll_step(
                        #[trigger] sts[j],
                        caller@,
                        args@[j],
                        now_ns,
                        sts[j + 1],
                        res@[j],
                    ),
            decreases args@.len() - i,
        {
            let ghost pre_l = *self;
            match args[i].validate(now_sec, caller, &settings) {
                Err(e) => {
                    res.push(Some(Err(e)));
                },
                Ok(()) => {
                    let memo = match &args[i].memo {
                        Some(m) => Some(bytes_clone(m)),
                        None => None,
                    };
                    proof {
                        assert(crate::tx::opt_bytes_view(memo) == crate::tx::opt_bytes_view(
                            args@[i as int].memo,
                        ));
                    }
                    match &args[i].spender {
                        Some(sp) => {
                            let present: bool = match bmap_find(&self.approvals, caller) {
                                None => false,
                                Some(ai) => {
                                    proof {
                                        lemma_bmap_get_at(self.approvals@, caller@, ai as int);
                                    }
                                    bmap_find(&self.approvals[ai].1, &sp.owner).is_some()
                                },
                            };
                            if present {
                                let idx = self.revoke_coll_one(caller, &sp.owner, memo, now_ns);
                                res.push(Some(Ok(idx)));
                            } else {
                                res.push(
                                    Some(
                                        Err(
                                            crate::types::RevokeCollectionApprovalError::ApprovalDoesNotExist,
                                        ),
                                    ),
                                );
                            }
                        },
                        None => {
                            if bmap_find(&self.approvals, caller).is_some() {
                                let idx = self.revoke_coll_all(caller, memo, now_ns);
                                res.push(Some(Ok(idx)));
                            } else {
                                res.push(
                                    Some(
                                        Err(
                                            crate::types::RevokeCollectionApprovalError::ApprovalDoesNotExist,
                                        ),
                                    ),
                                );
                            }
                        },
                    }
                },
            }
            proof {
                assert(revoke_coll_step(
                    pre_l,
                    caller@,
                    args@[i as int],
                    now_ns,
                    *self,
                    res@[i as int],
                ));
                sts = sts.push(*self);
            }
            i = i + 1;
        }
        proof {
            assert(revoke_coll_chain(sts, caller@, args@, now_ns, res@));
            assert(revoke_coll_batch_ok(*old(self), *self, caller@, args@, now_ns, res@));
        }
        Ok(res)
    }
}



/// Copies an approvals list entry by entry.
fn clone_approvals(a: &Approvals) -> (r: Approvals)
    ensures
        r@.len() == a@.len(),
        forall|i: int|
            0 <= i < a@.len() ==> (#[trigger] r@[i]).0@ == a@[i].0@ && r@[i].1 == a@[i].1,
        bmap_sorted(a@) ==> bmap_sorted(r@),
        bmap_sorted(a@) ==> forall|k: Seq<u8>| #[trigger] bmap_get(r@, k) == bmap_get(a@, k),
{
    let mut r: Approvals = Vec::new();
    let mut i: usize = 0;
    while i < a.len()
        invariant
            i <= a@.len(),
            r@.len() == i,
            forall|j: int|
                0 <= j < i ==> (#[trigger] r@[j]).0@ == a@[j].0@ && r@[j].1 == a@[j].1,
        decreases a@.len() - i,
    {
        r.push((bytes_clone(&a[i].0), a[i].1));
        i = i + 1;
    }
    proof {
        if bmap_sorted(a@) {
            assert forall|x: int, y: int| 0 <= x < y < r@.len() implies crate::bytesutil::lex_lt(
                r@[x].0@,
                r@[y].0@,
            ) by {
                assert(crate::bytesutil::lex_lt(a@[x].0@, a@[y].0@));
            }
            lemma_bmap_sorted_unique(a@);
            lemma_bmap_sorted_unique(r@);
            assert forall|k: Seq<u8>| #[trigger] bmap_get(r@, k) == bmap_get(a@, k) by {
                if bmap_has(a@, k) {
                    let i = crate::assoc::bmap_idx(a@, k);
                    lemma_bmap_get_at(a@, k, i);
                    lemma_bmap_get_at(r@, k, i);
                } else if bmap_has(r@, k) {
                    let i = crate::assoc::bmap_idx(r@, k);
                    assert(a@[i].0@ == k);
                }
            }
        }
    }
    r
}

impl Ledger {
    /// Moves `(tid, sid)` from `from_owner` to `to_owner` on the strength of
    /// an active approval held by `spender`: authorization first, then the
    /// same in-place move as a direct transfer, logged as a transfer-from
    /// block.
    pub fn transfer_from_item(
        &mut self,
        spender: &Vec<u8>,
        from_owner: &Vec<u8>,
        to_owner: &Vec<u8>,
        tid: u32,
        sid: u32,
        memo: Option<Vec<u8>>,
        now_ns: u64,
    ) -> (r: Result<u64, crate::types::TransferFromError>)
        requires
            old(self).wf(),
            from_owner@ != to_owner@,
        ensures
            final(self).wf(),
            match r {
                Ok(idx) => old(self).holds(from_owner@, tid, sid) && (coll_approved(
                    *old(self),
                    from_owner@,
                    spender@,
                    now_ns / SECOND,
                ) || token_approved(
                    *old(self),
                    from_owner@,
                    spender@,
                    tid,
                    sid,
                    now_ns / SECOND,
                )) && idx == old(self).blocks@.len() && applied_transfer(
                    *old(self),
                    *final(self),
                    from_owner@,
                    to_owner@,
                    tid,
                    sid,
                    crate::tx::opt_bytes_view(memo),
                    Some(spender@),
                    now_ns,
                ),
                Err(e) => *final(self) == *old(self) && ({
                    let approved = coll_approved(
                        *old(self),
                        from_owner@,
                        spender@,
                        now_ns / SECOND,
                    ) || token_approved(
                        *old(self),
                        from_owner@,
                        spender@,
                        tid,
                        sid,
                        now_ns / SECOND,
                    );
                    let in_range = 1 <= tid <= old(self).holders@.len() && 1 <= sid <= old(
                        self,
                    ).holders@[tid - 1]@.len();
                    match e {
                        crate::types::TransferFromError::Unauthorized => !approved || (in_range
                            && old(self).holders@[tid - 1]@[sid - 1]@ != from_owner@),
                        crate::types::TransferFromError::NonExistingTokenId => approved
                            && !in_range,
                        _ => false,
                    }
                }),
            },
    {
        let now_sec = now_ns / SECOND;
        if !self.is_approved(from_owner, spender, tid, sid, now_sec) {
            return Err(crate::types::TransferFromError::Unauthorized);
        }
        if tid < 1 || (tid as usize) > self.holders.len() {
            return Err(crate::types::TransferFromError::NonExistingTokenId);
        }
        let t_idx = (tid - 1) as usize;
        if sid < 1 || (sid as usize) > self.holders[t_idx].len() {
            return Err(crate::types::TransferFromError::NonExistingTokenId);
        }
        let s_idx = (sid as usize) - 1;
        if !bytes_eq(&self.holders[t_idx][s_idx], from_owner) {
            return Err(crate::types::TransferFromError::Unauthorized);
        }
        let ghost l0 = *self;
        let ghost m0 = self.holder_tokens@;
        set_holder(&mut self.holders, t_idx, s_idx, bytes_clone(to_owner));
        ht_index_remove(&mut self.holder_tokens, from_owner, tid, sid);
        let ghost m1 = self.holder_tokens@;
        ht_index_insert(&mut self.holder_tokens, to_owner, tid, sid, None);
        proof {
            assert forall|o: Seq<u8>, t: u32, s: u32| #[trigger] self.indexed(o, t, s)
                <==> self.holds(o, t, s) by {
                if o == to_owner@ && t == tid && s == sid {
                    assert(self.indexed(o, t, s));
                    assert(self.holds(o, t, s));
                } else {
                    assert(idx_item(self.holder_tokens@, o, t, s) == idx_item(m1, o, t, s));
                    if o == from_owner@ && t == tid && s == sid {
                        assert(idx_item(m1, o, t, s) is None);
                        assert(self.holders@[t - 1]@[s - 1]@ == to_owner@);
                        assert(!self.holds(o, t, s));
                    } else {
                        assert(idx_item(m1, o, t, s) == idx_item(m0, o, t, s));
                        assert(l0.indexed(o, t, s) == l0.holds(o, t, s));
                        if t == tid && s == sid {
                            assert(l0.holders@[t - 1]@[s - 1]@ == from_owner@);
                            assert(!l0.holds(o, t, s));
                            assert(self.holders@[t - 1]@[s - 1]@ == to_owner@);
                            assert(!self.holds(o, t, s));
                        } else {
                            assert(self.holds(o, t, s) == l0.holds(o, t, s)) by {
                                if 1 <= t <= self.holders@.len() {
                                    if t == tid {
                                        assert(self.holders@[t - 1]@ == l0.holders@[t - 1]@.update(
                                            s_idx as int,
                                            self.holders@[t - 1]@[s_idx as int],
                                        ));
                                    } else {
                                        assert(self.holders@[t - 1] == l0.holders@[t - 1]);
                                    }
                                }
                            }
                        }
                    }
                }
            }
            assert(self.wf());
        }
        let tx = Transaction::transfer_from(
            now_ns,
            SftId(tid, sid).to_u64(),
            bytes_clone(from_owner),
            bytes_clone(to_owner),
            bytes_clone(spender),
            memo,
        );
        let idx = self.append_block(tx);
        proof {
            assert forall|o: Seq<u8>, t: u32, s: u32| !(t == tid && s == sid) implies (
            #[trigger] self.index_item(o, t, s) == l0.index_item(o, t, s)) by {
                assert(idx_item(self.holder_tokens@, o, t, s) == idx_item(m1, o, t, s));
                assert(idx_item(m1, o, t, s) == idx_item(m0, o, t, s));
            }
        }
        Ok(idx)
    }

    /// What one item of a transfer-from batch does: the validation error,
    /// the authorization against standing approvals, the existence and
    /// holder checks, or the applied transfer, each if and only if its
    /// condition, in checking order.
    pub open spec fn transfer_from_step(
        pre: Ledger,
        spender: Seq<u8>,
        arg: crate::types::TransferFromArg,
        now_ns: u64,
        post: Ledger,
        r: Option<crate::types::TransferFromResult>,
    ) -> bool {
        let v = crate::types::transfer_from_verdict_spec(
            arg,
            now_ns / SECOND,
            spender,
            pre.collection.settings,
        );
        let tid = crate::ids::unpack_group(arg.token_id);
        let sid = crate::ids::unpack_item(arg.token_id);
        let approved = coll_approved(pre, arg.from.owner@, spender, now_ns / SECOND)
            || token_approved(pre, arg.from.owner@, spender, tid, sid, now_ns / SECOND);
        let in_range = 1 <= tid <= pre.holders@.len() && 1 <= sid <= pre.holders@[tid - 1]@.len();
        if !(v is Fine) {
            post == pre && (r matches Some(Err(e)) && crate::types::transfer_from_error_for(v, e))
        } else if !approved {
            post == pre && (r matches Some(Err(e)) && e is Unauthorized)
        } else if !in_range {
            post == pre && (r matches Some(Err(e)) && e is NonExistingTokenId)
        } else if pre.holders@[tid - 1]@[sid - 1]@ != arg.from.owner@ {
            post == pre && (r matches Some(Err(e)) && e is Unauthorized)
        } else {
            &&& r matches Some(rr) && (rr matches Ok(idx) && idx == pre.blocks@.len())
            &&& applied_transfer(
                pre,
                post,
                arg.from.owner@,
                arg.to.owner@,
                tid,
                sid,
                crate::tx::opt_bytes_view(arg.memo),
                Some(spender),
                now_ns,
            )
        }
    }

    /// A transfer-from batch as a chain of states.
    pub open spec fn transfer_from_chain(
        sts: Seq<Ledger>,
        spender: Seq<u8>,
        args: Seq<crate::types::TransferFromArg>,
        now_ns: u64,
        res: Seq<Option<crate::types::TransferFromResult>>,
    ) -> bool {
        &&& sts.len() == args.len() + 1
        &&& res.len() == args.len()
        &&& forall|i: int|
            0 <= i < args.len() ==> Ledger::transfer_from_step(
                #[trigger] sts[i],
                spender,
                args[i],
                now_ns,
                sts[i + 1],
                res[i],
            )
    }

    /// A transfer-from batch carried `pre` to `post` yielding `res`.
    pub open spec fn transfer_from_batch_ok(
        pre: Ledger,
        post: Ledger,
        spender: Seq<u8>,
        args: Seq<crate::types::TransferFromArg>,
        now_ns: u64,
        res: Seq<Option<crate::types::TransferFromResult>>,
    ) -> bool {
        exists|sts: Seq<Ledger>|
            sts.len() > 0 && sts[0] == pre && sts[sts.len() - 1] == post
                && #[trigger] Ledger::transfer_from_chain(sts, spender, args, now_ns, res)
    }

    /// An item that fails the atomic pre-check of a transfer-from batch:
    /// invalid, or without an active approval for the spender.
    pub open spec fn atomic_transfer_from_bad(
        l: Ledger,
        spender: Seq<u8>,
        arg: crate::types::TransferFromArg,
        now_ns: u64,
    ) -> bool {
        let v = crate::types::transfer_from_verdict_spec(
            arg,
            now_ns / SECOND,
            spender,
            l.collection.settings,
        );
        let tid = crate::ids::unpack_group(arg.token_id);
        let sid = crate::ids::unpack_item(arg.token_id);
        !(v is Fine) || !(coll_approved(l, arg.from.owner@, spender, now_ns / SECOND)
            || token_approved(l, arg.from.owner@, spender, tid, sid, now_ns / SECOND))
    }

    /// Whether every item of a transfer-from batch passes the atomic
    /// pre-check.
    fn transfer_from_precheck(
        &self,
        caller: &Vec<u8>,
        args: &Vec<crate::types::TransferFromArg>,
        now_ns: u64,
    ) -> (ok: bool)
        requires
            self.wf(),
        ensures
            ok <==> (forall|j: int|
                0 <= j < args@.len() ==> !Ledger::atomic_transfer_from_bad(
                    *self,
                    caller@,
                    #[trigger] args@[j],
                    now_ns,
                )),
    {
        let now_sec = now_ns / SECOND;
        let settings = self.collection.settings;
        let mut i: usize = 0;
        while i < args.len()
            invariant
                self.wf(),
                i <= args@.len(),
                now_sec == now_ns / SECOND,
                settings == self.collection.settings,
                forall|j: int|
                    0 <= j < i ==> !Ledger::atomic_transfer_from_bad(
                        *self,
                        caller@,
                        #[trigger] args@[j],
                        now_ns,
                    ),
            decreases args@.len() - i,
        {
            if args[i].validate(now_sec, caller, &settings).is_err() {
                proof {
                    assert(Ledger::atomic_transfer_from_bad(
                        *self,
                        caller@,
                        args@[i as int],
                        now_ns,
                    ));
                }
                return false;
            }
            let id = SftId::from_u64(args[i].token_id);
            if !self.is_approved(&args[i].from.owner, caller, id.0, id.1, now_sec) {
                return false;
            }
            proof {
                assert(!Ledger::atomic_transfer_from_bad(*self, caller@, args@[i as int], now_ns));
            }
            i = i + 1;
        }
        true
    }

    /// Applies a transfer-from batch item by item, yielding the chain of
    /// states the items step through.
    fn apply_transfers_from(
        &mut self,
        caller: &Vec<u8>,
        args: &Vec<crate::types::TransferFromArg>,
        now_ns: u64,
    ) -> (res: Vec<Option<crate::types::TransferFromResult>>)
        requires
            old(self).wf(),
        ensures
            final(self).wf(),
            res@.len() == args@.len(),
            final(self).collection.settings == old(self).collection.settings,
            Ledger::transfer_from_batch_ok(
                *old(self),
                *final(self),
                caller@,
                args@,
                now_ns,
                res@,
            ),
    {
        let now_sec = now_ns / SECOND;
        let settings = self.collection.settings;
        let mut res: Vec<Option<crate::types::TransferFromResult>> = Vec::new();
        let mut i: usize = 0;
        let ghost mut sts: Seq<Ledger> = seq![*old(self)];
        while i < args.len()
            invariant
                self.wf(),
                res@.len() == i,
                i <= args@.len(),
                now_sec == now_ns / SECOND,
                settings == old(self).collection.settings,
                self.collection.settings == old(self).collection.settings,
                sts.len() == i + 1,
                sts[0] == *old(self),
                sts[sts.len() - 1] == *self,
                forall|j: int|
                    0 <= j < i ==> Ledger::transfer_from_step(
                        #[trigger] sts[j],
                        caller@,
                        args@[j],
                        now_ns,
                        sts[j + 1],
                        res@[j],
                    ),
            decreases args@.len() - i,
        {
            let ghost pre_l = *self;
            match args[i].validate(now_sec, caller, &settings) {
                Err(e) => {
                    res.push(Some(Err(e)));
                },
                Ok(()) => {
                    let id = SftId::from_u64(args[i].token_id);
                    if !self.is_approved(&args[i].from.owner, caller, id.0, id.1, now_sec) {
                        res.push(Some(Err(crate::types::TransferFromError::Unauthorized)));
                    } else {
                        let memo = match &args[i].memo {
                            Some(m) => Some(bytes_clone(m)),
                            None => None,
                        };
                        proof {
                            assert(crate::tx::opt_bytes_view(memo) == crate::tx::opt_bytes_view(
                                args@[i as int].memo,
                            ));
                        }
                        let one = self.transfer_from_item(
                            caller,
                            &args[i].from.owner,
                            &args[i].to.owner,
                            id.0,
                            id.1,
                            memo,
                            now_ns,
                        );
                        res.push(Some(one));
                    }
                },
            }
            proof {
                assert(Ledger::transfer_from_step(
                    pre_l,
                    caller@,
                    args@[i as int],
                    now_ns,
                    *self,
                    res@[i as int],
                ));
                sts = sts.push(*self);
            }
            i = i + 1;
        }
        proof {
            assert(Ledger::transfer_from_chain(sts, caller@, args@, now_ns, res@));
            assert(Ledger::transfer_from_batch_ok(
                *old(self),
                *self,
                caller@,
                args@,
                now_ns,
                res@,
            ));
        }
        res
    }

    /// Performs a batch of approval-backed transfers: each item is
    /// validated, authorized against standing approvals and applied
    /// independently, its result at its index, the whole batch a chain of
    /// single-item steps. With atomic batch transfers enabled and more than
    /// one item, validation and authorization are pre-checked for the whole
    /// batch, which aborts untouched on any failure.
    pub fn icrc37_transfer_from(
        &mut self,
        caller: &Vec<u8>,
        args: Vec<crate::types::TransferFromArg>,
        now_ns: u64,
    ) -> (r: Result<Vec<Option<crate::types::TransferFromResult>>, String>)
        requires
            old(self).wf(),
        ensures
            final(self).wf(),
            ({
                let s0 = old(self).collection.settings;
                let blocked = s0.atomic_batch_transfers && args@.len() > 1 && (exists|i: int|
                    0 <= i < args@.len() && #[trigger] Ledger::atomic_transfer_from_bad(
                        *old(self),
                        caller@,
                        args@[i],
                        now_ns,
                    ));
                match r {
                    Err(m) => *final(self) == *old(self) && (if args@.len() == 0 {
                        m@ == "no transfer args provided"@
                    } else if args@.len() > s0.max_update_batch_size {
                        m@ == "exceeds max update batch size"@
                    } else {
                        blocked && m@ == "not approved or invalid transfer from args"@
                    }),
                    Ok(res) => args@.len() > 0 && args@.len() <= s0.max_update_batch_size
                        && !blocked && res@.len() == args@.len()
                        && Ledger::transfer_from_batch_ok(
                        *old(self),
                        *final(self),
                        caller@,
                        args@,
                        now_ns,
                        res@,
                    ),
                }
            }),
    {
        if args.len() == 0 {
            return Err("no transfer args provided".to_owned());
        }
        if args.len() > self.collection.settings.max_update_batch_size as usize {
            return Err("exceeds max update batch size".to_owned());
        }
        if self.collection.settings.atomic_batch_transfers && args.len() > 1 {
            if !self.transfer_from_precheck(caller, &args, now_ns) {
                proof {
                    assert(exists|i: int|
                        0 <= i < args@.len() && #[trigger] Ledger::atomic_transfer_from_bad(
                            *old(self),
                            caller@,
                            args@[i],
                            now_ns,
                        ));
                }
                return Err("not approved or invalid transfer from args".to_owned());
            }
        }
        let res = self.apply_transfers_from(caller, &args, now_ns);
        Ok(res)
    }

    /// Updates the collection record: managers only, and the supply cap may
    /// only ever shrink.
    pub fn sft_update_collection(
        &mut self,
        caller: &Vec<u8>,
        args: UpdateCollectionArg,
        now_sec: u64,
    ) -> (r: Result<(), String>)
        requires
            old(self).wf(),
        ensures
            final(self).wf(),
            ({
                let mgr = crate::types::has_principal(old(self).collection.managers@, caller@);
                let raise = args.supply_cap matches Some(cap) && cap >= (
                match old(self).collection.supply_cap {
                    Some(c) => c,
                    None => 0u64,
                });
                match r {
                    Err(m) => *final(self) == *old(self) && (if !mgr {
                        m@ == "caller is not a manager"@
                    } else {
                        raise && m@ == "supply cap can not be increased"@
                    }),
                    Ok(()) => mgr && !raise && final(self).collection.settings
                        == crate::collection::updated_settings(old(self).collection.settings, args)
                        && final(self).collection.updated_at == now_sec && final(self).tokens
                        == old(self).tokens && final(self).blocks == old(self).blocks,
                }
            }),
    {
        if !principal_in(&self.collection.managers, caller) {
            return Err("caller is not a manager".to_owned());
        }
        if let Some(cap) = args.supply_cap {
            let current: u64 = match self.collection.supply_cap {
                Some(c) => c,
                None => 0,
            };
            if cap >= current {
                return Err("supply cap can not be increased".to_owned());
            }
        }
        let ghost l0 = *self;
        self.collection.apply_update(args, now_sec);
        proof {
            lemma_index_consistent_preserved(l0, *self);
            assert(self.wf());
        }
        Ok(())
    }

    /// Replaces the operator set of minters.
    pub fn admin_set_minters(&mut self, minters: Vec<Vec<u8>>, now_sec: u64) -> (r: Result<
        (),
        String,
    >)
        requires
            old(self).wf(),
        ensures
            final(self).wf(),
            r is Ok,
            final(self).collection.minters == minters,
            final(self).collection.updated_at == now_sec,
            final(self).tokens == old(self).tokens,
            final(self).blocks == old(self).blocks,
    {
        self.collection.updated_at = now_sec;
        self.collection.minters = minters;
        proof {
            lemma_index_consistent_preserved(*old(self), *self);
        }
        Ok(())
    }

    /// Replaces the operator set of managers.
    pub fn admin_set_managers(&mut self, managers: Vec<Vec<u8>>, now_sec: u64) -> (r: Result<
        (),
        String,
    >)
        requires
            old(self).wf(),
        ensures
            final(self).wf(),
            r is Ok,
            final(self).collection.managers == managers,
            final(self).collection.updated_at == now_sec,
            final(self).tokens == old(self).tokens,
            final(self).blocks == old(self).blocks,
    {
        self.collection.updated_at = now_sec;
        self.collection.managers = managers;
        proof {
            lemma_index_consistent_preserved(*old(self), *self);
        }
        Ok(())
    }
}


/// The full ascending enumeration of token-group ids, as packed ids with a
/// zero item part.
pub open spec fn all_token_ids(n: int) -> Seq<u64> {
    Seq::new(n as nat, |i: int| crate::ids::pack_spec((i + 1) as u32, 0))
}

/// The full ascending enumeration of the sub-item ids of group `tid`.
pub open spec fn all_item_ids(tid: u32, total: int) -> Seq<u64> {
    Seq::new(total as nat, |i: int| crate::ids::pack_spec(tid, (i + 1) as u32))
}

/// Pagination monotonicity: pages that are adjacent subranges of the full
/// ascending enumeration concatenate back to it, with no duplicates and no
/// gaps; each query below reports its page as such a subrange, with the next
/// page starting where the last ended.
pub proof fn lemma_pages_tile(all: Seq<u64>, a: int, b: int, c: int)
    requires
        0 <= a <= b <= c <= all.len(),
    ensures
        all.subrange(a, b) + all.subrange(b, c) == all.subrange(a, c),
{
    assert(all.subrange(a, b) + all.subrange(b, c) =~= all.subrange(a, c));
}

impl Ledger {
    /// The token-group ids in ascending order, one page: iteration resumes
    /// strictly after `prev`'s group, emits at least one id when any remain,
    /// and at most the effective take.
    pub fn icrc7_tokens(&self, prev: Option<u64>, take: Option<u64>) -> (r: Vec<u64>)
        requires
            self.wf(),
        ensures
            ({
                let n = self.tokens@.len() as int;
                let start = (match prev {
                    Some(p) => crate::ids::unpack_group(p) as int + 1,
                    None => 1,
                });
                let cap = self.collection.take_spec(take) as int;
                let lo = (if start - 1 <= n {
                    start - 1
                } else {
                    n
                });
                let hi = (if lo + cap <= n {
                    lo + cap
                } else {
                    n
                });
                r@ == all_token_ids(n).subrange(lo, hi)
            }),
    {
        let take_eff: u16 = self.collection.take_value(take);
        let n: u32 = self.tokens.len() as u32;
        let start: u64 = match prev {
            Some(p) => SftId::from_u64(p).0 as u64 + 1,
            None => 1,
        };
        let ghost nn = self.tokens@.len() as int;
        let lo64: u64 = if start - 1 <= n as u64 {
            start - 1
        } else {
            n as u64
        };
        let avail: u64 = n as u64 - lo64;
        let cap64: u64 = take_eff as u64;
        let count: u64 = if cap64 <= avail {
            cap64
        } else {
            avail
        };
        let mut res: Vec<u64> = Vec::new();
        let mut k: u64 = 0;
        proof {
            assert(res@ =~= all_token_ids(nn).subrange(lo64 as int, lo64 as int));
        }
        while k < count
            invariant
                nn == self.tokens@.len() as int,
                n == nn,
                lo64 + count <= n,
                k <= count,
                res@ == all_token_ids(nn).subrange(lo64 as int, lo64 as int + k),
            decreases count - k,
        {
            res.push(SftId((lo64 + k) as u32 + 1, 0).to_u64());
            proof {
                assert(all_token_ids(nn)[lo64 as int + k] == crate::ids::pack_spec(
                    (lo64 + k + 1) as u32,
                    0,
                ));
                assert(res@ =~= all_token_ids(nn).subrange(lo64 as int, lo64 as int + k + 1));
            }
            k = k + 1;
        }
        proof {
            let startg = (match prev {
                Some(p) => crate::ids::unpack_group(p) as int + 1,
                None => 1int,
            });
            let cap = self.collection.take_spec(take) as int;
            let lo = (if startg - 1 <= nn {
                startg - 1
            } else {
                nn
            });
            let hi = (if lo + cap <= nn {
                lo + cap
            } else {
                nn
            });
            assert(lo == lo64 as int);
            assert(lo64 as int + count == hi);
        }
        res
    }

    /// The owner of each listed token id, if minted; the whole call fails on
    /// an oversized batch.
    pub fn icrc7_owner_of(&self, token_ids: &Vec<u64>) -> (r: Result<Vec<Option<Vec<u8>>>, String>)
        requires
            self.wf(),
        ensures
            match r {
                Err(m) => m@ == "exceeds max query batch size"@ && token_ids@.len()
                    > self.collection.settings.max_query_batch_size,
                Ok(res) => res@.len() == token_ids@.len() && (forall|i: int|
                    0 <= i < token_ids@.len() ==> {
                        let tid = crate::ids::unpack_group(token_ids@[i]);
                        let sid = crate::ids::unpack_item(token_ids@[i]);
                        match #[trigger] res@[i] {
                            Some(owner) => 1 <= tid <= self.holders@.len() && 1 <= sid
                                <= self.holders@[tid - 1]@.len() && owner@
                                == self.holders@[tid - 1]@[sid - 1]@,
                            None => !(1 <= tid <= self.holders@.len() && 1 <= sid
                                <= self.holders@[tid - 1]@.len()),
                        }
                    }),
            },
    {
        if token_ids.len() > self.collection.settings.max_query_batch_size as usize {
            return Err("exceeds max query batch size".to_owned());
        }
        let mut res: Vec<Option<Vec<u8>>> = Vec::new();
        let mut i: usize = 0;
        while i < token_ids.len()
            invariant
                self.wf(),
                i <= token_ids@.len(),
                res@.len() == i,
                forall|j: int|
                    0 <= j < i ==> {
                        let tid = crate::ids::unpack_group(token_ids@[j]);
                        let sid = crate::ids::unpack_item(token_ids@[j]);
                        match #[trigger] res@[j] {
                            Some(owner) => 1 <= tid <= self.holders@.len() && 1 <= sid
                                <= self.holders@[tid - 1]@.len() && owner@
                                == self.holders@[tid - 1]@[sid - 1]@,
                            None => !(1 <= tid <= self.holders@.len() && 1 <= sid
                                <= self.holders@[tid - 1]@.len()),
                        }
                    },
            decreases token_ids@.len() - i,
        {
            let id = SftId::from_u64(token_ids[i]);
            if id.0 >= 1 && (id.0 as usize) <= self.holders.len() {
                let hl = &self.holders[(id.0 - 1) as usize];
                if id.1 >= 1 && (id.1 as usize) <= hl.len() {
                    res.push(Some(bytes_clone(&hl[(id.1 - 1) as usize])));
                } else {
                    res.push(None);
                }
            } else {
                res.push(None);
            }
            i = i + 1;
        }
        Ok(res)
    }
}

impl Collection {
    /// The effective take as a specification value: the requested or default
    /// count, never above the maximum.
    pub open spec fn take_spec(self, take: Option<u64>) -> u16 {
        let wanted = (match take {
            None => self.settings.default_take_value as u64,
            Some(t) => t,
        });
        if wanted < self.settings.max_take_value as u64 {
            wanted as u16
        } else {
            self.settings.max_take_value
        }
    }
}

/// Chain integrity, as the standing invariant states it: every block after
/// the first carries the hash of its predecessor, the first carries none,
/// and the collection's recorded chain head is the hash of the last block.
pub proof fn lemma_chain_integrity(l: Ledger)
    requires
        l.wf(),
    ensures
        forall|i: int|
            1 <= i < l.blocks@.len() ==> block_phash(#[trigger] l.blocks@[i]) == Some(
                hash_of(l.blocks@[i - 1]),
            ),
        l.blocks@.len() > 0 ==> block_phash(l.blocks@[0]) is None,
        l.blocks@.len() > 0 ==> (l.collection.last_block_hash matches Some(h) && h@ == hash_of(
            l.blocks@.last(),
        )),
{
}

/// Ownership/index consistency, as the standing invariant states it: the
/// reverse index lists `(owner, tid, sid)` exactly when the holder list of
/// group `tid` records `owner` at position `sid - 1`.
pub proof fn lemma_ownership_index_consistency(l: Ledger, owner: Seq<u8>, tid: u32, sid: u32)
    requires
        l.wf(),
    ensures
        l.indexed(owner, tid, sid) <==> (1 <= tid <= l.holders@.len() && 1 <= sid
            <= l.holders@[tid - 1]@.len() && l.holders@[tid - 1]@[sid - 1]@ == owner),
{
    assert(l.indexed(owner, tid, sid) <==> l.holds(owner, tid, sid));
}


impl Ledger {
    /// The sub-item ids of one token group in ascending order, one page:
    /// iteration resumes strictly after `prev`'s sub-item id.
    pub fn sft_tokens_in(&self, token_id: u64, prev: Option<u64>, take: Option<u64>) -> (r: Vec<
        u64,
    >)
        requires
            self.wf(),
        ensures
            ({
                let tid = crate::ids::unpack_group(token_id);
                let total = (if 1 <= tid <= self.holders@.len() {
                    self.holders@[tid - 1]@.len() as int
                } else {
                    0int
                });
                let start = (match prev {
                    Some(p) => crate::ids::unpack_item(p) as int + 1,
                    None => 1,
                });
                let cap = self.collection.take_spec(take) as int;
                let lo = (if start - 1 <= total {
                    start - 1
                } else {
                    total
                });
                let hi = (if lo + cap <= total {
                    lo + cap
                } else {
                    total
                });
                r@ == all_item_ids(tid, total).subrange(lo, hi)
            }),
    {
        let take_eff: u16 = self.collection.take_value(take);
        let tid: u32 = SftId::from_u64(token_id).0;
        let total: u64 = if tid >= 1 && (tid as usize) <= self.holders.len() {
            self.holders[(tid - 1) as usize].len() as u64
        } else {
            0
        };
        let start: u64 = match prev {
            Some(p) => SftId::from_u64(p).1 as u64 + 1,
            None => 1,
        };
        let ghost nn = (if 1 <= tid <= self.holders@.len() {
            self.holders@[tid - 1]@.len() as int
        } else {
            0int
        });
        let lo64: u64 = if start - 1 <= total {
            start - 1
        } else {
            total
        };
        let avail: u64 = total - lo64;
        let cap64: u64 = take_eff as u64;
        let count: u64 = if cap64 <= avail {
            cap64
        } else {
            avail
        };
        let mut res: Vec<u64> = Vec::new();
        let mut k: u64 = 0;
        proof {
            assert(res@ =~= all_item_ids(tid, nn).subrange(lo64 as int, lo64 as int));
        }
        while k < count
            invariant
                nn == total,
                lo64 + count <= total,
                total <= u32::MAX,
                k <= count,
                res@ == all_item_ids(tid, nn).subrange(lo64 as int, lo64 as int + k),
            decreases count - k,
        {
            res.push(SftId(tid, (lo64 + k) as u32 + 1).to_u64());
            proof {
                assert(all_item_ids(tid, nn)[lo64 as int + k] == crate::ids::pack_spec(
                    tid,
                    (lo64 + k + 1) as u32,
                ));
                assert(res@ =~= all_item_ids(tid, nn).subrange(lo64 as int, lo64 as int + k + 1));
            }
            k = k + 1;
        }
        proof {
            let startg = (match prev {
                Some(p) => crate::ids::unpack_item(p) as int + 1,
                None => 1int,
            });
            let cap = self.collection.take_spec(take) as int;
            let lo = (if startg - 1 <= nn {
                startg - 1
            } else {
                nn
            });
            let hi = (if lo + cap <= nn {
                lo + cap
            } else {
                nn
            });
            assert(lo == lo64 as int);
            assert(lo64 as int + count == hi);
        }
        res
    }
}


/// One token-level approval applied: the spender entered in the approvals
/// standing on `(owner, tid, sid)`, one approval block chained on, and
/// everything else untouched.
pub open spec fn applied_token_approval(
    pre: Ledger,
    post: Ledger,
    owner: Seq<u8>,
    tid: u32,
    sid: u32,
    tid_packed: u64,
    info: crate::types::ApprovalInfo,
    now_ns: u64,
) -> bool {
    let spender = info.spender.owner@;
    let created_sec = (match info.created_at_time {
        Some(c) => c,
        None => 0u64,
    }) / SECOND;
    let exp_sec = (match info.expires_at {
        Some(e) => e,
        None => 0u64,
    }) / SECOND;
    &&& post.blocks@.len() == pre.blocks@.len() + 1
    &&& forall|j: int| 0 <= j < pre.blocks@.len() ==> post.blocks@[j] == pre.blocks@[j]
    &&& block_tx_view(post.blocks@.last()) == (TxView {
        ts: now_ns,
        op: "37approve"@,
        tid: tid_packed,
        from: Some(owner),
        to: None,
        spender: Some(spender),
        exp: info.expires_at,
        meta: None,
        memo: crate::tx::opt_bytes_view(info.memo),
        created_at_time: None,
    })
    &&& post.index_item(owner, tid, sid) matches Some(slot2) && (slot2 matches Some(aps2) && ({
        &&& bmap_get(aps2@, spender) == Some((created_sec, exp_sec))
        &&& forall|sp: Seq<u8>|
            sp != spender ==> #[trigger] bmap_get(aps2@, sp) == (match pre.index_item(
                owner,
                tid,
                sid,
            ) {
                Some(Some(a)) => bmap_get(a@, sp),
                _ => None,
            })
    }))
    &&& forall|o: Seq<u8>, t: u32, s: u32|
        !(o == owner && t == tid && s == sid) ==> #[trigger] post.index_item(o, t, s)
            == pre.index_item(o, t, s)
    &&& post.holders == pre.holders
    &&& post.tokens == pre.tokens
    &&& post.approvals == pre.approvals
    &&& post.assets == pre.assets
    &&& post.collection.settings == pre.collection.settings
    &&& post.collection.minters == pre.collection.minters
    &&& post.collection.managers == pre.collection.managers
    &&& post.collection.total_supply == pre.collection.total_supply
    &&& post.collection.supply_cap == pre.collection.supply_cap
}

/// What one item of a token-approval batch does: a caller with no holdings
/// record is turned away, then the validation error, the existence error,
/// the per-item cap error, or the applied approval, each if and only if its
/// condition, in checking order.
pub open spec fn approve_token_step(
    pre: Ledger,
    caller: Seq<u8>,
    arg: crate::types::ApproveTokenArg,
    now_ns: u64,
    post: Ledger,
    r: Option<crate::types::ApproveTokenResult>,
) -> bool {
    let v = crate::types::approval_verdict_spec(
        arg.approval_info,
        now_ns / SECOND,
        caller,
        pre.collection.settings,
    );
    let tid = crate::ids::unpack_group(arg.token_id);
    let sid = crate::ids::unpack_item(arg.token_id);
    if !bmap_has(pre.holder_tokens@, caller) {
        post == pre && (r matches Some(Err(e)) && e is Unauthorized)
    } else if !(v is Fine) {
        post == pre && (r matches Some(Err(e)) && crate::types::approve_token_error_for(v, e))
    } else if pre.index_item(caller, tid, sid) is None {
        post == pre && (r matches Some(Err(e)) && e is NonExistingTokenId)
    } else if pre.index_item(caller, tid, sid) matches Some(Some(aps)) && aps@.len()
        >= pre.collection.settings.max_approvals_per_token_or_collection {
        post == pre && (r matches Some(Err(e)) && (e matches
            crate::types::ApproveTokenError::GenericBatchError { error_code, message }
            && error_code == 0 && message@ == "exceeds the maximum number of approvals"@))
    } else {
        &&& r matches Some(rr) && (rr matches Ok(idx) && idx == pre.blocks@.len())
        &&& applied_token_approval(
            pre,
            post,
            caller,
            tid,
            sid,
            arg.token_id,
            arg.approval_info,
            now_ns,
        )
    }
}

/// A token-approval batch as a chain of states.
pub open spec fn approve_token_chain(
    sts: Seq<Ledger>,
    caller: Seq<u8>,
    args: Seq<crate::types::ApproveTokenArg>,
    now_ns: u64,
    res: Seq<Option<crate::types::ApproveTokenResult>>,
) -> bool {
    &&& sts.len() == args.len() + 1
    &&& res.len() == args.len()
    &&& forall|i: int|
        0 <= i < args.len() ==> approve_token_step(
            #[trigger] sts[i],
            caller,
            args[i],
            now_ns,
            sts[i + 1],
            res[i],
        )
}

/// A token-approval batch carried `pre` to `post` yielding `res`.
pub open spec fn approve_token_batch_ok(
    pre: Ledger,
    post: Ledger,
    caller: Seq<u8>,
    args: Seq<crate::types::ApproveTokenArg>,
    now_ns: u64,
    res: Seq<Option<crate::types::ApproveTokenResult>>,
) -> bool {
    exists|sts: Seq<Ledger>|
        sts.len() > 0 && sts[0] == pre && sts[sts.len() - 1] == post
            && #[trigger] approve_token_chain(sts, caller, args, now_ns, res)
}

impl Ledger {
    /// Grants `spender` a token-level approval on each listed sub-item the
    /// caller holds, bounded per item by the approval cap, logging one
    /// approval block each; the whole batch a chain of single-item steps.
    pub fn icrc37_approve_tokens(
        &mut self,
        caller: &Vec<u8>,
        args: Vec<crate::types::ApproveTokenArg>,
        now_ns: u64,
    ) -> (r: Result<Vec<Option<crate::types::ApproveTokenResult>>, String>)
        requires
            old(self).wf(),
        ensures
            final(self).wf(),
            match r {
                Err(m) => *final(self) == *old(self) && (if args@.len() == 0 {
                    m@ == "no ApproveTokenArgs provided"@
                } else {
                    args@.len() > old(self).collection.settings.max_update_batch_size && m@
                        == "exceeds max update batch size"@
                }),
                Ok(res) => args@.len() > 0 && args@.len() <= old(
                    self,
                ).collection.settings.max_update_batch_size && res@.len() == args@.len()
                    && approve_token_batch_ok(
                    *old(self),
                    *final(self),
                    caller@,
                    args@,
                    now_ns,
                    res@,
                ),
            },
    {
        if args.len() == 0 {
            return Err("no ApproveTokenArgs provided".to_owned());
        }
        let settings = self.collection.settings;
        if args.len() > settings.max_update_batch_size as usize {
            return Err("exceeds max update batch size".to_owned());
        }
        let now_sec = now_ns / SECOND;
        let max = settings.max_approvals_per_token_or_collection as u64;
        let mut res: Vec<Option<crate::types::ApproveTokenResult>> = Vec::new();
        let ghost mut sts: Seq<Ledger> = seq![*old(self)];
        if bmap_find(&self.holder_tokens, caller).is_none() {
            let mut i: usize = 0;
            while i < args.len()
                invariant
                    res@.len() == i,
                    i <= args@.len(),
                    *self == *old(self),
                    !bmap_has(self.holder_tokens@, caller@),
                    sts.len() == i + 1,
                    sts[0] == *old(self),
                    sts[sts.len() - 1] == *self,
                    forall|j: int|
                        0 <= j < i ==> approve_token_step(
                            #[trigger] sts[j],
                            caller@,
                            args@[j],
                            now_ns,
                            sts[j + 1],
                            res@[j],
                        ),
                decreases args@.len() - i,
            {
                res.push(Some(Err(crate::types::ApproveTokenError::Unauthorized)));
                proof {
                    sts = sts.push(*self);
                }
                i = i + 1;
            }
            proof {
                assert(approve_token_chain(sts, caller@, args@, now_ns, res@));
                assert(approve_token_batch_ok(*old(self), *self, caller@, args@, now_ns, res@));
            }
            return Ok(res);
        }
        let mut i: usize = 0;
        while i < args.len()
            invariant
                self.wf(),
                res@.len() == i,
                i <= args@.len(),
                now_sec == now_ns / SECOND,
                settings == old(self).collection.settings,
                max == settings.max_approvals_per_token_or_collection as u64,
                self.collection.settings == old(self).collection.settings,
                bmap_has(self.holder_tokens@, caller@),
                sts.len() == i + 1,
                sts[0] == *old(self),
                sts[sts.len() - 1] == *self,
                forall|j: int|
                    0 <= j < i ==> approve_token_step(
                        #[trigger] sts[j],
                        caller@,
                        args@[j],
                        now_ns,
                        sts[j + 1],
                        res@[j],
                    ),
            decreases args@.len() - i,
        {
            let ghost pre_l = *self;
            match args[i].validate(now_sec, caller, &settings) {
                Err(e) => {
                    res.push(Some(Err(e)));
                },
                Ok(()) => {
                    let id = SftId::from_u64(args[i].token_id);
                    let info = &args[i].approval_info;
                    let created_sec: u64 = match info.created_at_time {
                        Some(c) => c / SECOND,
                        None => 0,
                    };
                    let exp_sec: u64 = match info.expires_at {
                        Some(e) => e / SECOND,
                        None => 0,
                    };
                    let built: Result<Approvals, crate::types::ApproveTokenError> = {
                        match bmap_find(&self.holder_tokens, caller) {
                            None => Err(crate::types::ApproveTokenError::NonExistingTokenId),
                            Some(oi) => {
                                proof {
                                    assert(ht_wf(self.holder_tokens@[oi as int].1));
                                    lemma_bmap_get_at(self.holder_tokens@, caller@, oi as int);
                                }
                                let ht = &self.holder_tokens[oi].1;
                                match umap_find(ht, id.0) {
                                    None => Err(
                                        crate::types::ApproveTokenError::NonExistingTokenId,
                                    ),
                                    Some(gi) => {
                                        proof {
                                            lemma_umap_get_at(ht@, id.0, gi as int);
                                        }
                                        let items = &ht[gi].1;
                                        match umap_find(items, id.1) {
                                            None => Err(
                                                crate::types::ApproveTokenError::NonExistingTokenId,
                                            ),
                                            Some(ii) => {
                                                proof {
                                                    lemma_umap_get_at(items@, id.1, ii as int);
                                                    assert(self.index_item(caller@, id.0, id.1)
                                                        is Some);
                                                }
                                                match &items[ii].1 {
                                                None => {
                                                    let mut aps: Approvals = Vec::new();
                                                    bmap_sorted_set(
                                                        &mut aps,
                                                        bytes_clone(&info.spender.owner),
                                                        (created_sec, exp_sec),
                                                    );
                                                    Ok(aps)
                                                },
                                                Some(aps) => {
                                                    if aps.len() as u64 >= max {
                                                        Err(
                                                            crate::types::ApproveTokenError::GenericBatchError {
                                                                error_code: 0,
                                                                message:
                                                                    "exceeds the maximum number of approvals".to_owned(),
                                                            },
                                                        )
                                                    } else {
                                                        let mut cloned = clone_approvals(aps);
                                                        bmap_sorted_set(
                                                            &mut cloned,
                                                            bytes_clone(&info.spender.owner),
                                                            (created_sec, exp_sec),
                                                        );
                                                        Ok(cloned)
                                                    }
                                                },
                                                }
                                            },
                                        }
                                    },
                                }
                            },
                        }
                    };
                    match built {
                        Err(e) => {
                            res.push(Some(Err(e)));
                        },
                        Ok(new_aps) => {
                            let ghost lpre = *self;
                            ht_index_insert(
                                &mut self.holder_tokens,
                                caller,
                                id.0,
                                id.1,
                                Some(new_aps),
                            );
                            proof {
                                assert forall|o: Seq<u8>, t: u32, s: u32|
                                    #[trigger] self.indexed(o, t, s) <==> self.holds(
                                    o,
                                    t,
                                    s,
                                ) by {
                                    if o == caller@ && t == id.0 && s == id.1 {
                                        assert(self.indexed(o, t, s));
                                        assert(lpre.indexed(o, t, s));
                                        assert(lpre.holds(o, t, s));
                                        assert(self.holds(o, t, s));
                                    } else {
                                        assert(idx_item(self.holder_tokens@, o, t, s) == idx_item(
                                            lpre.holder_tokens@,
                                            o,
                                            t,
                                            s,
                                        ));
                                        assert(lpre.indexed(o, t, s) == lpre.holds(o, t, s));
                                    }
                                }
                                assert(self.wf());
                            }
                            let memo = match &info.memo {
                                Some(m) => Some(bytes_clone(m)),
                                None => None,
                            };
                            proof {
                                assert(crate::tx::opt_bytes_view(memo)
                                    == crate::tx::opt_bytes_view(
                                    args@[i as int].approval_info.memo,
                                ));
                            }
                            let tx = Transaction::approve(
                                now_ns,
                                args[i].token_id,
                                bytes_clone(caller),
                                bytes_clone(&info.spender.owner),
                                info.expires_at,
                                memo,
                            );
                            let idx = self.append_block(tx);
                            res.push(Some(Ok(idx)));
                        },
                    }
                },
            }
            proof {
                assert(bmap_has(self.holder_tokens@, caller@)) by {
                    if self.holder_tokens@ != pre_l.holder_tokens@ {
                        assert(self.index_item(
                            caller@,
                            crate::ids::unpack_group(args@[i as int].token_id),
                            crate::ids::unpack_item(args@[i as int].token_id),
                        ) is Some);
                    }
                }
                assert(approve_token_step(
                    pre_l,
                    caller@,
                    args@[i as int],
                    now_ns,
                    *self,
                    res@[i as int],
                ));
                sts = sts.push(*self);
            }
            i = i + 1;
        }
        proof {
            assert(approve_token_chain(sts, caller@, args@, now_ns, res@));
            assert(approve_token_batch_ok(*old(self), *self, caller@, args@, now_ns, res@));
        }
        Ok(res)
    }
}


/// One named token-level revocation applied: the spender removed from the
/// approvals standing on `(owner, tid, sid)`, one revocation block chained
/// on, and everything else untouched.
pub open spec fn applied_token_revoke_one(
    pre: Ledger,
    post: Ledger,
    owner: Seq<u8>,
    tid: u32,
    sid: u32,
    tid_packed: u64,
    spender: Seq<u8>,
    memo: Option<Seq<u8>>,
    now_ns: u64,
) -> bool {
    &&& post.blocks@.len() == pre.blocks@.len() + 1
    &&& forall|j: int| 0 <= j < pre.blocks@.len() ==> post.blocks@[j] == pre.blocks@[j]
    &&& block_tx_view(post.blocks@.last()) == (TxView {
        ts: now_ns,
        op: "37revoke"@,
        tid: tid_packed,
        from: Some(owner),
        to: None,
        spender: Some(spender),
        exp: None,
        meta: None,
        memo,
        created_at_time: None,
    })
    &&& post.index_item(owner, tid, sid) matches Some(slot2) && (slot2 matches Some(aps2) && ({
        &&& bmap_get(aps2@, spender) is None
        &&& forall|sp: Seq<u8>|
            sp != spender ==> #[trigger] bmap_get(aps2@, sp) == (match pre.index_item(
                owner,
                tid,
                sid,
            ) {
                Some(Some(a)) => bmap_get(a@, sp),
                _ => None,
            })
    }))
    &&& forall|o: Seq<u8>, t: u32, s: u32|
        !(o == owner && t == tid && s == sid) ==> #[trigger] post.index_item(o, t, s)
            == pre.index_item(o, t, s)
    &&& post.holders == pre.holders
    &&& post.tokens == pre.tokens
    &&& post.approvals == pre.approvals
    &&& post.assets == pre.assets
    &&& post.collection.settings == pre.collection.settings
    &&& post.collection.minters == pre.collection.minters
    &&& post.collection.managers == pre.collection.managers
    &&& post.collection.total_supply == pre.collection.total_supply
    &&& post.collection.supply_cap == pre.collection.supply_cap
}

/// A revoke-all token-level revocation applied: every approval standing on
/// `(owner, tid, sid)` cleared, one revocation block chained on, and
/// everything else untouched.
pub open spec fn applied_token_revoke_all(
    pre: Ledger,
    post: Ledger,
    owner: Seq<u8>,
    tid: u32,
    sid: u32,
    tid_packed: u64,
    memo: Option<Seq<u8>>,
    now_ns: u64,
) -> bool {
    &&& post.blocks@.len() == pre.blocks@.len() + 1
    &&& forall|j: int| 0 <= j < pre.blocks@.len() ==> post.blocks@[j] == pre.blocks@[j]
    &&& block_tx_view(post.blocks@.last()) == (TxView {
        ts: now_ns,
        op: "37revoke"@,
        tid: tid_packed,
        from: Some(owner),
        to: None,
        spender: None,
        exp: None,
        meta: None,
        memo,
        created_at_time: None,
    })
    &&& post.index_item(owner, tid, sid) == Some(None::<Approvals>)
    &&& forall|o: Seq<u8>, t: u32, s: u32|
        !(o == owner && t == tid && s == sid) ==> #[trigger] post.index_item(o, t, s)
            == pre.index_item(o, t, s)
    &&& post.holders == pre.holders
    &&& post.tokens == pre.tokens
    &&& post.approvals == pre.approvals
    &&& post.assets == pre.assets
    &&& post.collection.settings == pre.collection.settings
    &&& post.collection.minters == pre.collection.minters
    &&& post.collection.managers == pre.collection.managers
    &&& post.collection.total_supply == pre.collection.total_supply
    &&& post.collection.supply_cap == pre.collection.supply_cap
}

/// What one item of a token-revocation batch does: a caller with no
/// holdings record is turned away, then the validation error, the existence
/// error; a named spender is removed exactly or `ApprovalDoesNotExist`, no
/// spender clears the item's approvals.
pub open spec fn revoke_token_step(
    pre: Ledger,
    caller: Seq<u8>,
    arg: crate::types::RevokeTokenApprovalArg,
    now_ns: u64,
    post: Ledger,
    r: Option<crate::types::RevokeTokenApprovalResult>,
) -> bool {
    let v = crate::types::revoke_verdict_spec(
        arg.spender,
        arg.from_subaccount,
        arg.memo,
        arg.created_at_time,
        now_ns / SECOND,
        caller,
        pre.collection.settings,
    );
    let tid = crate::ids::unpack_group(arg.token_id);
    let sid = crate::ids::unpack_item(arg.token_id);
    if !bmap_has(pre.holder_tokens@, caller) {
        post == pre && (r matches Some(Err(e)) && e is Unauthorized)
    } else if !(v is Fine) {
        post == pre && (r matches Some(Err(e)) && crate::types::revoke_token_error_for(v, e))
    } else if pre.index_item(caller, tid, sid) is None {
        post == pre && (r matches Some(Err(e)) && e is NonExistingTokenId)
    } else {
        match arg.spender {
            Some(sp) => {
                if pre.index_item(caller, tid, sid) matches Some(Some(aps)) && bmap_has(
                    aps@,
                    sp.owner@,
                ) {
                    (r matches Some(rr) && (rr matches Ok(idx) && idx == pre.blocks@.len()))
                        && applied_token_revoke_one(
                        pre,
                        post,
                        caller,
                        tid,
                        sid,
                        arg.token_id,
                        sp.owner@,
                        crate::tx::opt_bytes_view(arg.memo),
                        now_ns,
                    )
                } else {
                    post == pre && (r matches Some(Err(e)) && e is ApprovalDoesNotExist)
                }
            },
            None => {
                (r matches Some(rr) && (rr matches Ok(idx) && idx == pre.blocks@.len()))
                    && applied_token_revoke_all(
                    pre,
                    post,
                    caller,
                    tid,
                    sid,
                    arg.token_id,
                    crate::tx::opt_bytes_view(arg.memo),
                    now_ns,
                )
            },
        }
    }
}

/// A token-revocation batch as a chain of states.
pub open spec fn revoke_token_chain(
    sts: Seq<Ledger>,
    caller: Seq<u8>,
    args: Seq<crate::types::RevokeTokenApprovalArg>,
    now_ns: u64,
    res: Seq<Option<crate::types::RevokeTokenApprovalResult>>,
) -> bool {
    &&& sts.len() == args.len() + 1
    &&& res.len() == args.len()
    &&& forall|i: int|
        0 <= i < args.len() ==> revoke_token_step(
            #[trigger] sts[i],
            caller,
            args[i],
            now_ns,
            sts[i + 1],
            res[i],
        )
}

/// A token-revocation batch carried `pre` to `post` yielding `res`.
pub open spec fn revoke_token_batch_ok(
    pre: Ledger,
    post: Ledger,
    caller: Seq<u8>,
    args: Seq<crate::types::RevokeTokenApprovalArg>,
    now_ns: u64,
    res: Seq<Option<crate::types::RevokeTokenApprovalResult>>,
) -> bool {
    exists|sts: Seq<Ledger>|
        sts.len() > 0 && sts[0] == pre && sts[sts.len() - 1] == post
            && #[trigger] revoke_token_chain(sts, caller, args, now_ns, res)
}

impl Ledger {
    /// Revokes `caller`'s token-level approvals item by item: a named
    /// spender is removed exactly (absent means the approval does not
    /// exist), no spender clears the sub-item's approval set; each applied
    /// revocation logs a block, the whole batch a chain of single-item
    /// steps.
    pub fn icrc37_revoke_token_approvals(
        &mut self,
        caller: &Vec<u8>,
        args: Vec<crate::types::RevokeTokenApprovalArg>,
        now_ns: u64,
    ) -> (r: Result<Vec<Option<crate::types::RevokeTokenApprovalResult>>, String>)
        requires
            old(self).wf(),
        ensures
            final(self).wf(),
            match r {
                Err(m) => *final(self) == *old(self) && (if args@.len() == 0 {
                    m@ == "no RevokeTokenApprovalArg provided"@
                } else {
                    args@.len() > old(self).collection.settings.max_revoke_approvals && m@
                        == "exceeds max revoke approvals"@
                }),
                Ok(res) => args@.len() > 0 && args@.len() <= old(
                    self,
                ).collection.settings.max_revoke_approvals && res@.len() == args@.len()
                    && revoke_token_batch_ok(
                    *old(self),
                    *final(self),
                    caller@,
                    args@,
                    now_ns,
                    res@,
                ),
            },
    {
        if args.len() == 0 {
            return Err("no RevokeTokenApprovalArg provided".to_owned());
        }
        let settings = self.collection.settings;
        if args.len() > settings.max_revoke_approvals as usize {
            return Err("exceeds max revoke approvals".to_owned());
        }
        let now_sec = now_ns / SECOND;
        let mut res: Vec<Option<crate::types::RevokeTokenApprovalResult>> = Vec::new();
        let ghost mut sts: Seq<Ledger> = seq![*old(self)];
        if bmap_find(&self.holder_tokens, caller).is_none() {
            let mut i: usize = 0;
            while i < args.len()
                invariant
                    res@.len() == i,
                    i <= args@.len(),
                    *self == *old(self),
                    !bmap_has(self.holder_tokens@, caller@),
                    sts.len() == i + 1,
                    sts[0] == *old(self),
                    sts[sts.len() - 1] == *self,
                    forall|j: int|
                        0 <= j < i ==> revoke_token_step(
                            #[trigger] sts[j],
                            caller@,
                            args@[j],
                            now_ns,
                            sts[j + 1],
                            res@[j],
                        ),
                decreases args@.len() - i,
            {
                res.push(Some(Err(crate::types::RevokeTokenApprovalError::Unauthorized)));
                proof {
                    sts = sts.push(*self);
                }
                i = i + 1;
            }
            proof {
                assert(revoke_token_chain(sts, caller@, args@, now_ns, res@));
                assert(revoke_token_batch_ok(*old(self), *self, caller@, args@, now_ns, res@));
            }
            return Ok(res);
        }
        let mut i: usize = 0;
        while i < args.len()
            invariant
                self.wf(),
                res@.len() == i,
                i <= args@.len(),
                now_sec == now_ns / SECOND,
                settings == old(self).collection.settings,
                self.collection.settings == old(self).collection.settings,
                bmap_has(self.holder_tokens@, caller@),
                sts.len() == i + 1,
                sts[0] == *old(self),
                sts[sts.len() - 1] == *self,
                forall|j: int|
                    0 <= j < i ==> revoke_token_step(
                        #[trigger] sts[j],
                        caller@,
                        args@[j],
                        now_ns,
                        sts[j + 1],
                        res@[j],
                    ),
            decreases args@.len() - i,
        {
            let ghost pre_l = *self;
            match args[i].validate(now_sec, caller, &settings) {
                Err(e) => {
                    res.push(Some(Err(e)));
                },
                Ok(()) => {
                    let id = SftId::from_u64(args[i].token_id);
                    let built: Result<Option<Approvals>, crate::types::RevokeTokenApprovalError> = {
                        match bmap_find(&self.holder_tokens, caller) {
                            None => Err(crate::types::RevokeTokenApprovalError::NonExistingTokenId),
                            Some(oi) => {
                                proof {
                                    assert(ht_wf(self.holder_tokens@[oi as int].1));
                                    lemma_bmap_get_at(self.holder_tokens@, caller@, oi as int);
                                }
                                let ht = &self.holder_tokens[oi].1;
                                match umap_find(ht, id.0) {
                                    None => Err(
                                        crate::types::RevokeTokenApprovalError::NonExistingTokenId,
                                    ),
                                    Some(gi) => {
                                        proof {
                                            lemma_umap_get_at(ht@, id.0, gi as int);
                                        }
                                        let items = &ht[gi].1;
                                        match umap_find(items, id.1) {
                                            None => Err(
                                                crate::types::RevokeTokenApprovalError::NonExistingTokenId,
                                            ),
                                            Some(ii) => {
                                                proof {
                                                    lemma_umap_get_at(items@, id.1, ii as int);
                                                    assert(self.index_item(caller@, id.0, id.1)
                                                        is Some);
                                                }
                                                match &args[i].spender {
                                                None => Ok(None),
                                                Some(sp) => match &items[ii].1 {
                                                    None => Err(
                                                        crate::types::RevokeTokenApprovalError::ApprovalDoesNotExist,
                                                    ),
                                                    Some(aps) => {
                                                        proof {
                                                            assert(bmap_sorted(aps@));
                                                        }
                                                        let mut cloned = clone_approvals(aps);
                                                        proof {
                                                            lemma_bmap_sorted_unique(cloned@);
                                                        }
                                                        match bmap_remove(
                                                            &mut cloned,
                                                            &sp.owner,
                                                        ) {
                                                            None => Err(
                                                                crate::types::RevokeTokenApprovalError::ApprovalDoesNotExist,
                                                            ),
                                                            Some(_e) => Ok(Some(cloned)),
                                                        }
                                                    },
                                                },
                                                }
                                            },
                                        }
                                    },
                                }
                            },
                        }
                    };
                    match built {
                        Err(e) => {
                            res.push(Some(Err(e)));
                        },
                        Ok(new_slot) => {
                            let ghost lpre = *self;
                            let ghost was_all = new_slot is None;
                            ht_index_insert(
                                &mut self.holder_tokens,
                                caller,
                                id.0,
                                id.1,
                                new_slot,
                            );
                            proof {
                                assert forall|o: Seq<u8>, t: u32, s: u32|
                                    #[trigger] self.indexed(o, t, s) <==> self.holds(
                                    o,
                                    t,
                                    s,
                                ) by {
                                    if o == caller@ && t == id.0 && s == id.1 {
                                        assert(self.indexed(o, t, s));
                                        assert(lpre.indexed(o, t, s));
                                        assert(lpre.holds(o, t, s));
                                        assert(self.holds(o, t, s));
                                    } else {
                                        assert(idx_item(self.holder_tokens@, o, t, s) == idx_item(
                                            lpre.holder_tokens@,
                                            o,
                                            t,
                                            s,
                                        ));
                                        assert(lpre.indexed(o, t, s) == lpre.holds(o, t, s));
                                    }
                                }
                                assert(self.wf());
                            }
                            let memo = match &args[i].memo {
                                Some(m) => Some(bytes_clone(m)),
                                None => None,
                            };
                            proof {
                                assert(crate::tx::opt_bytes_view(memo)
                                    == crate::tx::opt_bytes_view(args@[i as int].memo));
                            }
                            let spender_arg = match &args[i].spender {
                                Some(sp) => Some(bytes_clone(&sp.owner)),
                                None => None,
                            };
                            let tx = Transaction::revoke(
                                now_ns,
                                args[i].token_id,
                                bytes_clone(caller),
                                spender_arg,
                                memo,
                            );
                            let idx = self.append_block(tx);
                            res.push(Some(Ok(idx)));
                        },
                    }
                },
            }
            proof {
                assert(bmap_has(self.holder_tokens@, caller@)) by {
                    if self.holder_tokens@ != pre_l.holder_tokens@ {
                        assert(self.index_item(
                            caller@,
                            crate::ids::unpack_group(args@[i as int].token_id),
                            crate::ids::unpack_item(args@[i as int].token_id),
                        ) is Some);
                    }
                }
                assert(revoke_token_step(
                    pre_l,
                    caller@,
                    args@[i as int],
                    now_ns,
                    *self,
                    res@[i as int],
                ));
                sts = sts.push(*self);
            }
            i = i + 1;
        }
        proof {
            assert(revoke_token_chain(sts, caller@, args@, now_ns, res@));
            assert(revoke_token_batch_ok(*old(self), *self, caller@, args@, now_ns, res@));
        }
        Ok(res)
    }
}


impl Ledger {
    /// Updates an unminted token record: only a manager or the token's
    /// author may, only before the first mint, and the token supply cap may
    /// only ever shrink. Present fields overwrite, absent fields stay; a new
    /// asset replaces the old one under its content hash.
    pub fn sft_update_token(
        &mut self,
        caller: &Vec<u8>,
        args: crate::types::UpdateTokenArg,
        now_sec: u64,
    ) -> (r: Result<(), String>)
        requires
            old(self).wf(),
        ensures
            final(self).wf(),
            ({
                let tid = crate::ids::unpack_group(args.id);
                let in_range = 1 <= tid <= old(self).tokens@.len();
                let tk = old(self).tokens@[tid - 1];
                let authorized = in_range && (crate::types::has_principal(
                    old(self).collection.managers@,
                    caller@,
                ) || tk.author@ == caller@);
                let minted = in_range && tk.total_supply > 0;
                let raise = in_range && (args.supply_cap matches Some(cap) && cap >= (
                match tk.supply_cap {
                    Some(c) => c,
                    None => 0u32,
                }));
                match r {
                    Err(m) => *final(self) == *old(self) && (if !in_range {
                        m@ == "token not found"@
                    } else if !authorized {
                        m@ == "caller is not a manager or author"@
                    } else if minted {
                        m@ == "token has been minted, can not be updated"@
                    } else {
                        raise && m@ == "supply cap can not be increased"@
                    }),
                    Ok(()) => {
                        &&& in_range && authorized && !minted && !raise
                        &&& tk.total_supply == 0
                        &&& final(self).tokens@.len() == old(self).tokens@.len()
                        &&& forall|j: int|
                            0 <= j < old(self).tokens@.len() && j != tid - 1 ==> final(self).tokens@[j] == old(self).tokens@[j]
                        &&& ({
                            let nt = final(self).tokens@[tid - 1];
                            &&& nt.id == tk.id
                            &&& nt.total_supply == 0
                            &&& nt.created_at == tk.created_at
                            &&& nt.updated_at == now_sec
                            &&& nt.name == (match args.name {
                                Some(n) => n,
                                None => tk.name,
                            })
                            &&& nt.description == (match args.description {
                                Some(d) => Some(d),
                                None => tk.description,
                            })
                            &&& nt.asset_name == (match args.asset_name {
                                Some(a) => a,
                                None => tk.asset_name,
                            })
                            &&& nt.asset_content_type == (match args.asset_content_type {
                                Some(a) => a,
                                None => tk.asset_content_type,
                            })
                            &&& nt.metadata == (match args.metadata {
                                Some(m) => m,
                                None => tk.metadata,
                            })
                            &&& nt.supply_cap == (match args.supply_cap {
                                Some(c) => Some(c),
                                None => tk.supply_cap,
                            })
                            &&& nt.author == (match args.author {
                                Some(a) => a,
                                None => tk.author,
                            })
                            &&& match args.asset_content {
                                Some(c) => nt.asset_hash@ == sha3_of(c@) && (bmap_get(
                                    final(self).assets@,
                                    sha3_of(c@),
                                ) matches Some(cc) && cc@ == c@) && (forall|h: Seq<u8>|
                                    h != sha3_of(c@) && h != tk.asset_hash@
                                        ==> #[trigger] bmap_get(final(self).assets@, h)
                                        == bmap_get(old(self).assets@, h)),
                                None => nt.asset_hash == tk.asset_hash && final(self).assets
                                    == old(self).assets,
                            }
                        })
                        &&& final(self).holders == old(self).holders
                        &&& final(self).holder_tokens == old(self).holder_tokens
                        &&& final(self).approvals == old(self).approvals
                        &&& final(self).blocks == old(self).blocks
                        &&& final(self).collection == old(self).collection
                    },
                }
            }),
    {
        let id = SftId::from_u64(args.id);
        let tid = id.0;
        if tid < 1 || (tid as usize) > self.tokens.len() {
            return Err("token not found".to_owned());
        }
        let t_idx = (tid - 1) as usize;
        let authorized = principal_in(&self.collection.managers, caller) || bytes_eq(
            &self.tokens[t_idx].author,
            caller,
        );
        if !authorized {
            return Err("caller is not a manager or author".to_owned());
        }
        if self.tokens[t_idx].total_supply > 0 {
            return Err("token has been minted, can not be updated".to_owned());
        }
        if let Some(cap) = args.supply_cap {
            let current: u32 = match self.tokens[t_idx].supply_cap {
                Some(c) => c,
                None => 0,
            };
            if cap >= current {
                return Err("supply cap can not be increased".to_owned());
            }
        }
        let ghost l0 = *self;
        let crate::types::UpdateTokenArg {
            id: _,
            name,
            description,
            asset_name,
            asset_content_type,
            asset_content,
            metadata,
            supply_cap,
            author,
        } = args;
        if let Some(content) = asset_content {
            let hash = sha3_256(&content);
            let old_hash = bytes_clone(&self.tokens[t_idx].asset_hash);
            bmap_remove(&mut self.assets, &old_hash);
            bmap_set(&mut self.assets, bytes_clone(&hash), content);
            let tok = &mut self.tokens[t_idx];
            tok.asset_hash = hash;
        }
        {
            let tok = &mut self.tokens[t_idx];
            if let Some(n) = name {
                tok.name = n;
            }
            if let Some(d) = description {
                tok.description = Some(d);
            }
            if let Some(a) = asset_name {
                tok.asset_name = a;
            }
            if let Some(a) = asset_content_type {
                tok.asset_content_type = a;
            }
            if let Some(m) = metadata {
                tok.metadata = m;
            }
            if let Some(c) = supply_cap {
                tok.supply_cap = Some(c);
            }
            if let Some(a) = author {
                tok.author = a;
            }
            tok.updated_at = now_sec;
        }
        proof {
            lemma_index_consistent_preserved(l0, *self);
            assert(self.wf());
        }
        Ok(())
    }
}


/// The sum of sub-item counts in one holder's reverse index.
pub open spec fn ht_balance(ht: Seq<(u32, ItemRecords)>) -> int
    decreases ht.len(),
{
    if ht.len() == 0 {
        0
    } else {
        ht.last().1@.len() + ht_balance(ht.drop_last())
    }
}

/// How many sub-items `owner` holds, by the reverse index.
pub open spec fn balance_spec(l: Ledger, owner: Seq<u8>) -> int {
    match bmap_get(l.holder_tokens@, owner) {
        Some(ht) => ht_balance(ht@),
        None => 0,
    }
}

impl Ledger {
    /// Issues a creation challenge for the given subject under the ledger's
    /// secret, stamped with the call time; managers only.
    pub fn sft_challenge(&self, caller: &Vec<u8>, arg: &ChallengeArg, now_sec: u64) -> (r: Result<
        Vec<u8>,
        String,
    >)
        requires
            self.wf(),
        ensures
            match r {
                Err(m) => !crate::types::has_principal(self.collection.managers@, caller@) && m@
                    == "caller is not a manager"@,
                Ok(tok) => crate::types::has_principal(self.collection.managers@, caller@) && tok@
                    == cbor_of_pair(
                    cbor_of_u64(now_sec),
                    challenge_mac(self.challenge_secret@, arg.payload()),
                ),
            },
    {
        if !principal_in(&self.collection.managers, caller) {
            return Err("caller is not a manager".to_owned());
        }
        Ok(arg.challenge(&self.challenge_secret, now_sec))
    }

    /// Creates a token group on the strength of a challenge: the caller must
    /// be the stated author and present a token that authenticates the asset
    /// under the ledger's secret, no older than the freshness window; the
    /// creation core then applies as for a manager.
    pub fn sft_create_token_by_challenge(
        &mut self,
        caller: &Vec<u8>,
        args: CreateTokenArg,
        now_sec: u64,
    ) -> (r: Result<u64, String>)
        requires
            old(self).wf(),
        ensures
            final(self).wf(),
            ({
                let expire_at = (if now_sec >= 600 {
                    (now_sec - 600) as u64
                } else {
                    0u64
                });
                let chal_ok = args.challenge matches Some(chal) && (cbor_parse_pair_of(chal@)
                    matches Some(p) && (cbor_parse_u64_of(p.0) matches Some(ts) && ts >= expire_at
                    && p.1 == challenge_mac(
                    old(self).challenge_secret@,
                    caller@ + sha3_of(args.asset_content@),
                )));
                match r {
                    Err(m) => *final(self) == *old(self),
                    Ok(id) => {
                        &&& caller@ == args.author@ && chal_ok
                        &&& id == old(self).tokens@.len() + 1
                        &&& final(self).tokens@.len() == old(self).tokens@.len() + 1
                        &&& final(self).tokens@.last().asset_hash@ == sha3_of(args.asset_content@)
                        &&& final(self).tokens@.last().total_supply == 0
                        &&& final(self).tokens@.last().author@ == args.author@
                        &&& final(self).holders@.last()@.len() == 0
                        &&& final(self).collection.total_supply == old(
                            self,
                        ).collection.total_supply + 1
                        &&& final(self).blocks == old(self).blocks
                    },
                }
            }),
    {
        if !bytes_eq(caller, &args.author) {
            return Err("caller is not the author".to_owned());
        }
        let chal = match &args.challenge {
            Some(c) => bytes_clone(c),
            None => {
                return Err("challenge is required".to_owned());
            },
        };
        let expire_at: u64 = if now_sec >= 600 {
            now_sec - 600
        } else {
            0
        };
        let hash = sha3_256(&args.asset_content);
        let subject = ChallengeArg { author: bytes_clone(caller), asset_hash: hash };
        if let Err(m) = subject.verify(&self.challenge_secret, expire_at, &chal) {
            return Err(m);
        }
        self.create_token_core(args, now_sec)
    }

    /// The token metadata map for each listed token id, if the group exists;
    /// the whole call fails on an oversized batch.
    pub fn icrc7_token_metadata(&self, token_ids: &Vec<u64>) -> (r: Result<
        Vec<Option<Metadata>>,
        String,
    >)
        requires
            self.wf(),
        ensures
            match r {
                Err(m) => m@ == "exceeds max query batch size"@ && token_ids@.len()
                    > self.collection.settings.max_query_batch_size,
                Ok(res) => res@.len() == token_ids@.len() && (forall|i: int|
                    0 <= i < token_ids@.len() ==> {
                        let tid = crate::ids::unpack_group(token_ids@[i]);
                        match #[trigger] res@[i] {
                            Some(m) => 1 <= tid <= self.tokens@.len() && meta_view(m@)
                                == token_metadata_view(self.tokens@[tid - 1]),
                            None => !(1 <= tid <= self.tokens@.len()),
                        }
                    }),
            },
    {
        if token_ids.len() > self.collection.settings.max_query_batch_size as usize {
            return Err("exceeds max query batch size".to_owned());
        }
        let mut res: Vec<Option<Metadata>> = Vec::new();
        let mut i: usize = 0;
        while i < token_ids.len()
            invariant
                self.wf(),
                i <= token_ids@.len(),
                res@.len() == i,
                forall|j: int|
                    0 <= j < i ==> {
                        let tid = crate::ids::unpack_group(token_ids@[j]);
                        match #[trigger] res@[j] {
                            Some(m) => 1 <= tid <= self.tokens@.len() && meta_view(m@)
                                == token_metadata_view(self.tokens@[tid - 1]),
                            None => !(1 <= tid <= self.tokens@.len()),
                        }
                    },
            decreases token_ids@.len() - i,
        {
            let id = SftId::from_u64(token_ids[i]);
            if id.0 >= 1 && (id.0 as usize) <= self.tokens.len() {
                res.push(Some(self.tokens[(id.0 - 1) as usize].metadata_map()));
            } else {
                res.push(None);
            }
            i = i + 1;
        }
        Ok(res)
    }

    /// The number of sub-items each listed owner holds, by the reverse
    /// index, saturating at the integer bound; the whole call fails on an
    /// oversized batch.
    pub fn icrc7_balance_of(&self, owners: &Vec<Vec<u8>>) -> (r: Result<Vec<u64>, String>)
        requires
            self.wf(),
        ensures
            match r {
                Err(m) => m@ == "exceeds max query batch size"@ && owners@.len()
                    > self.collection.settings.max_query_batch_size,
                Ok(res) => res@.len() == owners@.len() && (forall|i: int|
                    0 <= i < owners@.len() ==> #[trigger] res@[i] == (if balance_spec(
                        *self,
                        owners@[i]@,
                    ) <= u64::MAX {
                        balance_spec(*self, owners@[i]@) as u64
                    } else {
                        u64::MAX
                    })),
            },
    {
        if owners.len() > self.collection.settings.max_query_batch_size as usize {
            return Err("exceeds max query batch size".to_owned());
        }
        let mut res: Vec<u64> = Vec::new();
        let mut i: usize = 0;
        while i < owners.len()
            invariant
                self.wf(),
                i <= owners@.len(),
                res@.len() == i,
                forall|j: int|
                    0 <= j < i ==> #[trigger] res@[j] == (if balance_spec(*self, owners@[j]@)
                        <= u64::MAX {
                        balance_spec(*self, owners@[j]@) as u64
                    } else {
                        u64::MAX
                    }),
            decreases owners@.len() - i,
        {
            let mut acc: u64 = 0;
            match bmap_find(&self.holder_tokens, &owners[i]) {
                None => {},
                Some(oi) => {
                    proof {
                        lemma_bmap_get_at(self.holder_tokens@, owners@[i as int]@, oi as int);
                    }
                    let ht = &self.holder_tokens[oi].1;
                    let mut g: usize = 0;
                    proof {
                        assert(ht@.subrange(0, 0) =~= Seq::<(u32, ItemRecords)>::empty());
                    }
                    while g < ht.len()
                        invariant
                            g <= ht@.len(),
                            ht_balance(ht@.subrange(0, g as int)) >= 0,
                            acc == (if ht_balance(ht@.subrange(0, g as int)) <= u64::MAX {
                                ht_balance(ht@.subrange(0, g as int)) as u64
                            } else {
                                u64::MAX
                            }),
                        decreases ht@.len() - g,
                    {
                        let n = ht[g].1.len();
                        proof {
                            let stepg = ht@.subrange(0, g as int + 1);
                            assert(stepg.drop_last() =~= ht@.subrange(0, g as int));
                            assert(stepg.last() == ht@[g as int]);
                        }
                        if (n as u64) > u64::MAX - acc {
                            acc = u64::MAX;
                        } else {
                            acc = acc + n as u64;
                        }
                        g = g + 1;
                    }
                    proof {
                        assert(ht@.subrange(0, ht@.len() as int) =~= ht@);
                    }
                },
            }
            res.push(acc);
            i = i + 1;
        }
        Ok(res)
    }
}


/// The report form of one stored approval: the spender, and each stored
/// second field reported only when non-zero.
pub open spec fn entry_info_matches(info: crate::types::ApprovalInfo, e: (Vec<u8>, (u64, u64))) -> bool {
    &&& info.spender.owner@ == e.0@
    &&& info.spender.subaccount is None
    &&& info.from_subaccount is None
    &&& info.created_at_time == (if e.1.0 > 0 {
        Some(e.1.0)
    } else {
        None::<u64>
    })
    &&& info.expires_at == (if e.1.1 > 0 {
        Some(e.1.1)
    } else {
        None::<u64>
    })
    &&& info.memo is None
}

/// The entry lies strictly after the cursor spender, or there is no cursor.
pub open spec fn after_spender(prev: Option<Seq<u8>>, key: Seq<u8>) -> bool {
    match prev {
        None => true,
        Some(p) => lex_lt(p, key),
    }
}

/// One page of an approval list: the entries strictly after the cursor, in
/// stored (ascending) order, capped at `take`.
pub open spec fn approvals_page_ok(
    aps: Seq<(Vec<u8>, (u64, u64))>,
    prev: Option<Seq<u8>>,
    take: int,
    r: Seq<crate::types::ApprovalInfo>,
) -> bool {
    exists|lo: int|
        #![trigger aps.subrange(lo, lo)]
        {
            &&& 0 <= lo <= aps.len()
            &&& forall|j: int| 0 <= j < lo ==> !after_spender(prev, #[trigger] aps[j].0@)
            &&& (lo < aps.len() ==> after_spender(prev, aps[lo].0@))
            &&& r.len() == (if take <= aps.len() - lo {
                take
            } else {
                aps.len() - lo
            })
            &&& forall|k: int|
                0 <= k < r.len() ==> entry_info_matches(#[trigger] r[k], aps[lo + k])
        }
}

/// The first index of a sorted approval list strictly after spender `p`.
fn approvals_upper_bound(aps: &Approvals, p: &Vec<u8>) -> (lo: usize)
    ensures
        lo <= aps@.len(),
        forall|j: int| 0 <= j < lo ==> !lex_lt(p@, #[trigger] aps@[j].0@),
        lo < aps@.len() ==> lex_lt(p@, aps@[lo as int].0@),
{
    let mut i: usize = 0;
    while i < aps.len()
        invariant
            i <= aps@.len(),
            forall|j: int| 0 <= j < i ==> !lex_lt(p@, #[trigger] aps@[j].0@),
        decreases aps@.len() - i,
    {
        if crate::bytesutil::bytes_lt(p, &aps[i].0) {
            return i;
        }
        i = i + 1;
    }
    i
}

/// Builds one page of an approval list, resuming strictly after `prev`.
fn approvals_page(
    aps: &Approvals,
    prev: &Option<Vec<u8>>,
    take: u16,
) -> (r: Vec<crate::types::ApprovalInfo>)
    requires
        bmap_sorted(aps@),
    ensures
        approvals_page_ok(
            aps@,
            (match prev {
                Some(p) => Some(p@),
                None => None,
            }),
            take as int,
            r@,
        ),
{
    let ghost prevv: Option<Seq<u8>> = match prev {
        Some(p) => Some(p@),
        None => None,
    };
    let lo: usize = match prev {
        None => 0,
        Some(p) => approvals_upper_bound(aps, p),
    };
    let ghost lo0 = lo as int;
    let avail: usize = aps.len() - lo;
    let count: usize = if (take as usize) <= avail {
        take as usize
    } else {
        avail
    };
    let mut r: Vec<crate::types::ApprovalInfo> = Vec::new();
    let hi: usize = lo + count;
    let mut idx: usize = lo;
    while idx < hi
        invariant
            lo0 <= idx <= hi,
            hi == lo0 + count,
            hi <= aps@.len(),
            r@.len() == idx - lo0,
            forall|k2: int|
                0 <= k2 < r@.len() ==> entry_info_matches(#[trigger] r@[k2], aps@[lo0 + k2]),
        decreases hi - idx,
    {
        let e = &aps[idx];
        r.push(
            crate::types::ApprovalInfo {
                spender: crate::types::Account { owner: bytes_clone(&e.0), subaccount: None },
                from_subaccount: None,
                expires_at: if e.1.1 > 0 {
                    Some(e.1.1)
                } else {
                    None
                },
                created_at_time: if e.1.0 > 0 {
                    Some(e.1.0)
                } else {
                    None
                },
                memo: None,
            },
        );
        idx = idx + 1;
    }
    proof {
        assert(aps@.subrange(lo0, lo0) =~= aps@.subrange(lo0, lo0));
        assert(lo < aps@.len() ==> after_spender(prevv, aps@[lo0].0@)) by {
            if prevv is None {
            }
        }
        assert(approvals_page_ok(aps@, prevv, take as int, r@));
    }
    r
}

impl Ledger {
    /// The collection-level approvals standing for `owner`, one page,
    /// spenders ascending, resuming strictly after `prev`'s spender.
    pub fn icrc37_get_collection_approvals(
        &self,
        owner: &Vec<u8>,
        prev: &Option<Vec<u8>>,
        take: Option<u64>,
    ) -> (r: Vec<crate::types::ApprovalInfo>)
        requires
            self.wf(),
        ensures
            approvals_page_ok(
                (match bmap_get(self.approvals@, owner@) {
                    Some(a) => a@,
                    None => Seq::empty(),
                }),
                (match prev {
                    Some(p) => Some(p@),
                    None => None,
                }),
                self.collection.take_spec(take) as int,
                r@,
            ),
    {
        let take_eff = self.collection.take_value(take);
        match bmap_find(&self.approvals, owner) {
            None => {
                let r: Vec<crate::types::ApprovalInfo> = Vec::new();
                proof {
                    assert(Seq::<(Vec<u8>, (u64, u64))>::empty().subrange(0, 0) =~= Seq::<
                        (Vec<u8>, (u64, u64)),
                    >::empty());
                    assert(approvals_page_ok(
                        Seq::<(Vec<u8>, (u64, u64))>::empty(),
                        (match *prev {
                            Some(p) => Some(p@),
                            None => None,
                        }),
                        take_eff as int,
                        r@,
                    ));
                }
                r
            },
            Some(ai) => {
                proof {
                    lemma_bmap_get_at(self.approvals@, owner@, ai as int);
                }
                approvals_page(&self.approvals[ai].1, prev, take_eff)
            },
        }
    }

    /// The token-level approvals standing on one sub-item, one page,
    /// spenders ascending, resuming strictly after `prev`'s spender. The
    /// item is looked up through its current holder's reverse index.
    pub fn icrc37_get_token_approvals(
        &self,
        token_id: u64,
        prev: &Option<Vec<u8>>,
        take: Option<u64>,
    ) -> (r: Vec<crate::types::ApprovalInfo>)
        requires
            self.wf(),
        ensures
            ({
                let tid = crate::ids::unpack_group(token_id);
                let sid = crate::ids::unpack_item(token_id);
                let aps = (if self.holds_item(tid, sid) {
                    match self.index_item(self.holders@[tid - 1]@[sid - 1]@, tid, sid) {
                        Some(Some(a)) => a@,
                        _ => Seq::empty(),
                    }
                } else {
                    Seq::empty()
                });
                approvals_page_ok(
                    aps,
                    (match prev {
                        Some(p) => Some(p@),
                        None => None,
                    }),
                    self.collection.take_spec(take) as int,
                    r@,
                )
            }),
    {
        let take_eff = self.collection.take_value(take);
        let id = SftId::from_u64(token_id);
        if id.0 >= 1 && (id.0 as usize) <= self.holders.len() {
            let hl = &self.holders[(id.0 - 1) as usize];
            if id.1 >= 1 && (id.1 as usize) <= hl.len() {
                let holder = &hl[(id.1 - 1) as usize];
                if let Some(oi) = bmap_find(&self.holder_tokens, holder) {
                    proof {
                        lemma_bmap_get_at(self.holder_tokens@, holder@, oi as int);
                        assert(ht_wf(self.holder_tokens@[oi as int].1));
                    }
                    let ht = &self.holder_tokens[oi].1;
                    if let Some(gi) = umap_find(ht, id.0) {
                        proof {
                            lemma_umap_get_at(ht@, id.0, gi as int);
                        }
                        let items = &ht[gi].1;
                        if let Some(ii) = umap_find(items, id.1) {
                            proof {
                                lemma_umap_get_at(items@, id.1, ii as int);
                            }
                            if let Some(aps) = &items[ii].1 {
                                return approvals_page(aps, prev, take_eff);
                            }
                        }
                    }
                }
            }
        }
        let r: Vec<crate::types::ApprovalInfo> = Vec::new();
        proof {
            assert(Seq::<(Vec<u8>, (u64, u64))>::empty().subrange(0, 0) =~= Seq::<
                (Vec<u8>, (u64, u64)),
            >::empty());
            assert(approvals_page_ok(
                Seq::<(Vec<u8>, (u64, u64))>::empty(),
                (match prev {
                    Some(p) => Some(p@),
                    None => None,
                }),
                take_eff as int,
                r@,
            ));
        }
        r
    }

    /// The holder list of group `tid` has a position for sub-item `sid`.
    pub open spec fn holds_item(self, tid: u32, sid: u32) -> bool {
        1 <= tid <= self.holders@.len() && 1 <= sid <= self.holders@[tid - 1]@.len()
    }
}


/// The packed ids of one reverse-index group, sub-items in stored order.
pub open spec fn group_ids(g: (u32, ItemRecords)) -> Seq<u64> {
    Seq::new(g.1@.len(), |i: int| crate::ids::pack_spec(g.0, g.1@[i].0))
}

/// One holder's full enumeration: every held packed id, groups in stored
/// (ascending) order, sub-items ascending within each.
pub open spec fn ht_flat(ht: Seq<(u32, ItemRecords)>) -> Seq<u64>
    decreases ht.len(),
{
    if ht.len() == 0 {
        Seq::empty()
    } else {
        ht_flat(ht.drop_last()) + group_ids(ht.last())
    }
}

/// The id lies strictly after the cursor id, or there is no cursor.
pub open spec fn above_id(prev: Option<u64>, id: u64) -> bool {
    match prev {
        None => true,
        Some(p) => id > p,
    }
}

/// One page of an id enumeration: the ids strictly after the cursor, in
/// stored order, capped at `take`.
pub open spec fn ids_page_ok(flat: Seq<u64>, prev: Option<u64>, take: int, r: Seq<u64>) -> bool {
    exists|lo: int|
        #![trigger flat.subrange(lo, lo)]
        {
            &&& 0 <= lo <= flat.len()
            &&& forall|j: int| 0 <= j < lo ==> !above_id(prev, #[trigger] flat[j])
            &&& (lo < flat.len() ==> above_id(prev, flat[lo]))
            &&& r.len() == (if take <= flat.len() - lo {
                take
            } else {
                flat.len() - lo
            })
            &&& forall|k: int| 0 <= k < r.len() ==> #[trigger] r[k] == flat[lo + k]
        }
}

/// Materializes one holder's full enumeration.
fn flatten_holdings(ht: &HolderTokens) -> (all: Vec<u64>)
    ensures
        all@ == ht_flat(ht@),
{
    let mut all: Vec<u64> = Vec::new();
    let mut gi: usize = 0;
    proof {
        assert(ht@.subrange(0, 0) =~= Seq::<(u32, ItemRecords)>::empty());
    }
    while gi < ht.len()
        invariant
            gi <= ht@.len(),
            all@ == ht_flat(ht@.subrange(0, gi as int)),
        decreases ht@.len() - gi,
    {
        let ghost base = all@;
        let mut si: usize = 0;
        proof {
            assert(all@ =~= base + Seq::new(0, |i: int| crate::ids::pack_spec(
                ht@[gi as int].0,
                ht@[gi as int].1@[i].0,
            )));
        }
        while si < ht[gi].1.len()
            invariant
                gi < ht@.len(),
                si <= ht@[gi as int].1@.len(),
                all@ == base + Seq::new(si as nat, |i: int| crate::ids::pack_spec(
                    ht@[gi as int].0,
                    ht@[gi as int].1@[i].0,
                )),
            decreases ht@[gi as int].1@.len() - si,
        {
            all.push(SftId(ht[gi].0, ht[gi].1[si].0).to_u64());
            proof {
                assert(all@ =~= base + Seq::new((si + 1) as nat, |i: int| crate::ids::pack_spec(
                    ht@[gi as int].0,
                    ht@[gi as int].1@[i].0,
                )));
            }
            si = si + 1;
        }
        proof {
            let stepg = ht@.subrange(0, gi as int + 1);
            assert(stepg.drop_last() =~= ht@.subrange(0, gi as int));
            assert(stepg.last() == ht@[gi as int]);
            assert(group_ids(ht@[gi as int]) =~= Seq::new(
                ht@[gi as int].1@.len(),
                |i: int| crate::ids::pack_spec(ht@[gi as int].0, ht@[gi as int].1@[i].0),
            ));
            assert(all@ == ht_flat(stepg));
        }
        gi = gi + 1;
    }
    proof {
        assert(ht@.subrange(0, ht@.len() as int) =~= ht@);
    }
    all
}

/// The first index of an id list strictly after `p`.
fn ids_upper_bound(all: &Vec<u64>, p: u64) -> (lo: usize)
    ensures
        lo <= all@.len(),
        forall|j: int| 0 <= j < lo ==> !(#[trigger] all@[j] > p),
        lo < all@.len() ==> all@[lo as int] > p,
{
    let mut i: usize = 0;
    while i < all.len()
        invariant
            i <= all@.len(),
            forall|j: int| 0 <= j < i ==> !(#[trigger] all@[j] > p),
        decreases all@.len() - i,
    {
        if all[i] > p {
            return i;
        }
        i = i + 1;
    }
    i
}

impl Ledger {
    /// The packed ids of every sub-item `owner` holds, one page, in the
    /// reverse index's ascending order, resuming strictly after `prev`.
    pub fn icrc7_tokens_of(&self, owner: &Vec<u8>, prev: Option<u64>, take: Option<u64>) -> (r:
        Vec<u64>)
        requires
            self.wf(),
        ensures
            ids_page_ok(
                (match bmap_get(self.holder_tokens@, owner@) {
                    Some(ht) => ht_flat(ht@),
                    None => Seq::empty(),
                }),
                prev,
                self.collection.take_spec(take) as int,
                r@,
            ),
    {
        let take_eff = self.collection.take_value(take);
        match bmap_find(&self.holder_tokens, owner) {
            None => {
                let r: Vec<u64> = Vec::new();
                proof {
                    assert(Seq::<u64>::empty().subrange(0, 0) =~= Seq::<u64>::empty());
                    assert(ids_page_ok(Seq::<u64>::empty(), prev, take_eff as int, r@));
                }
                r
            },
            Some(oi) => {
                proof {
                    lemma_bmap_get_at(self.holder_tokens@, owner@, oi as int);
                }
                let all = flatten_holdings(&self.holder_tokens[oi].1);
                let lo: usize = match prev {
                    None => 0,
                    Some(p) => ids_upper_bound(&all, p),
                };
                let ghost lo0 = lo as int;
                let avail: usize = all.len() - lo;
                let count: usize = if (take_eff as usize) <= avail {
                    take_eff as usize
                } else {
                    avail
                };
                let hi: usize = lo + count;
                let mut r: Vec<u64> = Vec::new();
                let mut idx: usize = lo;
                while idx < hi
                    invariant
                        lo0 <= idx <= hi,
                        hi == lo0 + count,
                        hi <= all@.len(),
                        r@.len() == idx - lo0,
                        forall|k2: int| 0 <= k2 < r@.len() ==> #[trigger] r@[k2] == all@[lo0 + k2],
                    decreases hi - idx,
                {
                    r.push(all[idx]);
                    idx = idx + 1;
                }
                proof {
                    assert(all@.subrange(lo0, lo0) =~= all@.subrange(lo0, lo0));
                    assert(ids_page_ok(all@, prev, take_eff as int, r@));
                }
                r
            },
        }
    }
}

} // verus!
