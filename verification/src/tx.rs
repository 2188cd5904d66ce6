//! The block/transaction codec: each ledger operation is staged as a
//! [`Transaction`], serialized into a canonical map-shaped [`Val`] (absent
//! optional fields are omitted, never written as nulls), chained to the
//! previous block through its hash, and decoded back totally.

use vstd::prelude::*;
use crate::val::{
    entries_find, entries_get, meta_view, MetaVal, MetaValV, Metadata, Val,
};
use crate::bytesutil::bytes_clone;

verus! {

/// An in-memory staging record for one ledger operation, before it is turned
/// into a hashed block. Accounts are principal byte strings; timestamps are
/// nanoseconds.
pub struct Transaction {
    pub ts: u64,
    pub op: String,
    pub tid: u64,
    pub from: Option<Vec<u8>>,
    pub to: Option<Vec<u8>>,
    pub spender: Option<Vec<u8>>,
    pub exp: Option<u64>,
    pub meta: Option<Metadata>,
    pub memo: Option<Vec<u8>>,
    pub created_at_time: Option<u64>,
}

/// The mathematical shape of a [`Transaction`].
pub struct TxView {
    pub ts: u64,
    pub op: Seq<char>,
    pub tid: u64,
    pub from: Option<Seq<u8>>,
    pub to: Option<Seq<u8>>,
    pub spender: Option<Seq<u8>>,
    pub exp: Option<u64>,
    pub meta: Option<Seq<(Seq<char>, MetaValV)>>,
    pub memo: Option<Seq<u8>>,
    pub created_at_time: Option<u64>,
}

pub open spec fn opt_bytes_view(o: Option<Vec<u8>>) -> Option<Seq<u8>> {
    match o {
        Some(b) => Some(b@),
        None => None,
    }
}

impl View for Transaction {
    type V = TxView;

    open spec fn view(&self) -> TxView {
        TxView {
            ts: self.ts,
            op: self.op@,
            tid: self.tid,
            from: opt_bytes_view(self.from),
            to: opt_bytes_view(self.to),
            spender: opt_bytes_view(self.spender),
            exp: self.exp,
            meta: match self.meta {
                Some(m) => Some(meta_view(m@)),
                None => None,
            },
            memo: opt_bytes_view(self.memo),
            created_at_time: self.created_at_time,
        }
    }
}

// ---------------------------------------------------------------------------
// Reading the wire shapes.
// ---------------------------------------------------------------------------

/// An account value on the wire: a one- or two-element array whose first
/// element is the owner's principal bytes.
pub open spec fn account_ok(v: Val) -> bool {
    match v {
        Val::Array(xs) => (xs@.len() == 1 || xs@.len() == 2) && xs@[0] is Blob,
        _ => false,
    }
}

/// The owner bytes of an account value.
pub open spec fn account_owner(v: Val) -> Seq<u8> {
    match v {
        Val::Array(xs) => match xs@[0] {
            Val::Blob(b) => b@,
            _ => Seq::empty(),
        },
        _ => Seq::empty(),
    }
}

pub open spec fn opt_account_ok(o: Option<Val>) -> bool {
    match o {
        Some(v) => account_ok(v),
        None => true,
    }
}

pub open spec fn opt_account_owner(o: Option<Val>) -> Option<Seq<u8>> {
    match o {
        Some(v) => Some(account_owner(v)),
        None => None,
    }
}

pub open spec fn opt_nat_of(o: Option<Val>) -> Option<u64> {
    match o {
        Some(Val::Nat(n)) => Some(n),
        _ => None,
    }
}

pub open spec fn opt_blob_of(o: Option<Val>) -> Option<Seq<u8>> {
    match o {
        Some(Val::Blob(b)) => Some(b@),
        _ => None,
    }
}

/// A metadata value on the wire: a leaf, never an array or a nested map.
pub open spec fn meta_val_ok(v: Val) -> bool {
    v is Blob || v is Text || v is Nat || v is Int
}

pub open spec fn meta_val_view(v: Val) -> MetaValV {
    match v {
        Val::Blob(b) => MetaValV::Blob(b@),
        Val::Text(s) => MetaValV::Text(s@),
        Val::Nat(n) => MetaValV::Nat(n),
        Val::Int(i) => MetaValV::Int(i),
        _ => MetaValV::Nat(0),
    }
}

pub open spec fn meta_entries_ok(es: Seq<(String, Val)>) -> bool {
    forall|i: int| 0 <= i < es.len() ==> meta_val_ok(#[trigger] es[i].1)
}

pub open spec fn meta_entries_view(es: Seq<(String, Val)>) -> Seq<(Seq<char>, MetaValV)> {
    es.map(|i: int, e: (String, Val)| (e.0@, meta_val_view(e.1)))
}

pub open spec fn opt_meta_ok(o: Option<Val>) -> bool {
    match o {
        Some(Val::Dict(es)) => meta_entries_ok(es@),
        Some(_) => false,
        None => true,
    }
}

pub open spec fn opt_meta_view(o: Option<Val>) -> Option<Seq<(Seq<char>, MetaValV)>> {
    match o {
        Some(Val::Dict(es)) => Some(meta_entries_view(es@)),
        _ => None,
    }
}

// ---------------------------------------------------------------------------
// What a well-formed block is, and what transaction it denotes.
// ---------------------------------------------------------------------------

/// The inner `tx` map decodes: `tid` is present as a number and every
/// optional field that is present has its one wire shape.
pub open spec fn tx_entries_decodable(tes: Seq<(String, Val)>) -> bool {
    &&& entries_get(tes, "tid"@) matches Some(v) && v is Nat
    &&& opt_account_ok(entries_get(tes, "from"@))
    &&& opt_account_ok(entries_get(tes, "to"@))
    &&& opt_account_ok(entries_get(tes, "spender"@))
    &&& (entries_get(tes, "exp"@) matches Some(v) ==> v is Nat)
    &&& (entries_get(tes, "ts"@) matches Some(v) ==> v is Nat)
    &&& (entries_get(tes, "memo"@) matches Some(v) ==> v is Blob)
    &&& opt_meta_ok(entries_get(tes, "meta"@))
}

/// A block's top-level entries decode: `ts` and `btype` are present with
/// their shapes, and the nested `tx` map decodes.
pub open spec fn block_entries_decodable(es: Seq<(String, Val)>) -> bool {
    &&& entries_get(es, "ts"@) matches Some(t) && t is Nat
    &&& entries_get(es, "btype"@) matches Some(b) && b is Text
    &&& entries_get(es, "tx"@) matches Some(t) && (t matches Val::Dict(tes)
        && tx_entries_decodable(tes@))
}

/// A block decodes: it is a map whose entries decode.
pub open spec fn block_decodable(v: Val) -> bool {
    match v {
        Val::Dict(entries) => block_entries_decodable(entries@),
        _ => false,
    }
}

pub open spec fn text_view_of(o: Option<Val>) -> Seq<char> {
    match o {
        Some(Val::Text(s)) => s@,
        _ => Seq::empty(),
    }
}

pub open spec fn nat_view_of(o: Option<Val>) -> u64 {
    match o {
        Some(Val::Nat(n)) => n,
        _ => 0,
    }
}

pub open spec fn inner_tx_entries(es: Seq<(String, Val)>) -> Seq<(String, Val)> {
    match entries_get(es, "tx"@) {
        Some(Val::Dict(tes)) => tes@,
        _ => Seq::empty(),
    }
}

/// The transaction that a block with top-level entries `es` denotes.
pub open spec fn block_entries_tx_view(entries: Seq<(String, Val)>) -> TxView {
    let tes = inner_tx_entries(entries);
    TxView {
        ts: nat_view_of(entries_get(entries, "ts"@)),
        op: text_view_of(entries_get(entries, "btype"@)),
        tid: nat_view_of(entries_get(tes, "tid"@)),
        from: opt_account_owner(entries_get(tes, "from"@)),
        to: opt_account_owner(entries_get(tes, "to"@)),
        spender: opt_account_owner(entries_get(tes, "spender"@)),
        exp: opt_nat_of(entries_get(tes, "exp"@)),
        meta: opt_meta_view(entries_get(tes, "meta"@)),
        memo: opt_blob_of(entries_get(tes, "memo"@)),
        created_at_time: opt_nat_of(entries_get(tes, "ts"@)),
    }
}

/// The transaction a decodable block denotes.
pub open spec fn block_tx_view(v: Val) -> TxView {
    match v {
        Val::Dict(entries) => block_entries_tx_view(entries@),
        _ => block_entries_tx_view(Seq::empty()),
    }
}

/// The previous-block hash carried by a block's top-level entries, if any.
pub open spec fn block_entries_phash(es: Seq<(String, Val)>) -> Option<Seq<u8>> {
    match entries_get(es, "phash"@) {
        Some(Val::Blob(b)) => Some(b@),
        _ => None,
    }
}

/// The previous-block hash a block carries, if any.
pub open spec fn block_phash(v: Val) -> Option<Seq<u8>> {
    match v {
        Val::Dict(entries) => block_entries_phash(entries@),
        _ => None,
    }
}

// ---------------------------------------------------------------------------
// Encoding.
// ---------------------------------------------------------------------------

/// Builds the wire form of an account: a one-element array of the owner's
/// principal bytes.
fn account_val(owner: Vec<u8>) -> (r: Val)
    ensures
        account_ok(r),
        account_owner(r) == owner@,
{
    let mut xs: Vec<Val> = Vec::new();
    xs.push(Val::Blob(owner));
    Val::Array(xs)
}

/// Converts a metadata map into its wire entries.
fn meta_vals(m: &Metadata) -> (r: Vec<(String, Val)>)
    ensures
        meta_entries_ok(r@),
        meta_entries_view(r@) == meta_view(m@),
{
    let mut r: Vec<(String, Val)> = Vec::new();
    let mut i: usize = 0;
    while i < m.len()
        invariant
            i <= m@.len(),
            r@.len() == i,
            meta_entries_ok(r@),
            forall|j: int| 0 <= j < i ==> r@[j].0@ == m@[j].0@ && meta_val_view(
                #[trigger] r@[j].1,
            ) == m@[j].1@,
        decreases m@.len() - i,
    {
        let v = match &m[i].1 {
            MetaVal::Blob(b) => Val::Blob(bytes_clone(b)),
            MetaVal::Text(s) => Val::Text(s.clone()),
            MetaVal::Nat(n) => Val::Nat(*n),
            MetaVal::Int(x) => Val::Int(*x),
        };
        r.push((m[i].0.clone(), v));
        i = i + 1;
    }
    proof {
        assert(meta_entries_view(r@) =~= meta_view(m@));
    }
    r
}

/// The wire keys are pairwise distinct character sequences.
proof fn lemma_block_keys_distinct()
    ensures
        "btype"@ != "phash"@,
        "btype"@ != "ts"@,
        "btype"@ != "tx"@,
        "btype"@ != "tid"@,
        "btype"@ != "from"@,
        "btype"@ != "to"@,
        "btype"@ != "spender"@,
        "btype"@ != "exp"@,
        "btype"@ != "meta"@,
        "btype"@ != "memo"@,
        "phash"@ != "ts"@,
        "phash"@ != "tx"@,
        "phash"@ != "tid"@,
        "phash"@ != "from"@,
        "phash"@ != "to"@,
        "phash"@ != "spender"@,
        "phash"@ != "exp"@,
        "phash"@ != "meta"@,
        "phash"@ != "memo"@,
        "ts"@ != "tx"@,
        "ts"@ != "tid"@,
        "ts"@ != "from"@,
        "ts"@ != "to"@,
        "ts"@ != "spender"@,
        "ts"@ != "exp"@,
        "ts"@ != "meta"@,
        "ts"@ != "memo"@,
        "tx"@ != "tid"@,
        "tx"@ != "from"@,
        "tx"@ != "to"@,
        "tx"@ != "spender"@,
        "tx"@ != "exp"@,
        "tx"@ != "meta"@,
        "tx"@ != "memo"@,
        "tid"@ != "from"@,
        "tid"@ != "to"@,
        "tid"@ != "spender"@,
        "tid"@ != "exp"@,
        "tid"@ != "meta"@,
        "tid"@ != "memo"@,
        "from"@ != "to"@,
        "from"@ != "spender"@,
        "from"@ != "exp"@,
        "from"@ != "meta"@,
        "from"@ != "memo"@,
        "to"@ != "spender"@,
        "to"@ != "exp"@,
        "to"@ != "meta"@,
        "to"@ != "memo"@,
        "spender"@ != "exp"@,
        "spender"@ != "meta"@,
        "spender"@ != "memo"@,
        "exp"@ != "meta"@,
        "exp"@ != "memo"@,
        "meta"@ != "memo"@,
{
    broadcast use vstd::string::group_string_axioms;

    reveal_strlit("btype");
    reveal_strlit("phash");
    reveal_strlit("ts");
    reveal_strlit("tx");
    reveal_strlit("tid");
    reveal_strlit("from");
    reveal_strlit("to");
    reveal_strlit("spender");
    reveal_strlit("exp");
    reveal_strlit("meta");
    reveal_strlit("memo");
    assert("btype"@.len() == 5 && "phash"@.len() == 5 && "ts"@.len() == 2 && "tx"@.len() == 2);
    assert("tid"@.len() == 3 && "from"@.len() == 4 && "to"@.len() == 2 && "spender"@.len() == 7);
    assert("exp"@.len() == 3 && "meta"@.len() == 4 && "memo"@.len() == 4);
    assert("btype"@[0] == 'b' && "phash"@[0] == 'p');
    assert("ts"@[1] == 's' && "tx"@[1] == 'x' && "to"@[1] == 'o');
    assert("exp"@[0] == 'e' && "tid"@[0] == 't');
    assert("from"@[0] == 'f' && "memo"@[0] == 'm' && "meta"@[0] == 'm');
    assert("memo"@[2] == 'm' && "meta"@[2] == 't');
    assert("tid"@[1] == 'i' && "ts"@[1] == 's' && "tx"@[1] == 'x' && "to"@[1] == 'o');
}

impl Transaction {
    /// Serializes this transaction into the canonical block map, carrying
    /// `phash` if and only if a previous block hash is given. Every field of
    /// the result is pinned: the block decodes back to this transaction.
    #[verifier::rlimit(100)]
    pub fn into_block(self, phash: Option<Vec<u8>>) -> (r: Val)
        ensures
            block_decodable(r),
            block_tx_view(r) == self@,
            block_phash(r) == opt_bytes_view(phash),
    {
        let ghost selfv = self@;
        let ghost phv = opt_bytes_view(phash);
        let Transaction { ts, op, tid, from, to, spender, exp, meta, memo, created_at_time } =
            self;

        let mut tes: Vec<(String, Val)> = Vec::new();
        proof {
            assert(forall|key: Seq<char>| entries_get(tes@, key) is None);
        }
        if let Some(e) = exp {
            let ghost pre = tes@;
            tes.push(("exp".to_owned(), Val::Nat(e)));
            proof {
                assert(tes@.drop_last() =~= pre);
                assert(entries_get(tes@, "exp"@) == Some(Val::Nat(e)));
                assert(forall|key: Seq<char>| #![trigger entries_get(tes@, key)] key != "exp"@
                    ==> entries_get(tes@, key) == entries_get(pre, key));
            }
        }
        if let Some(f) = from {
            let ghost pre = tes@;
            let ghost fv = f@;
            let av = account_val(f);
            tes.push(("from".to_owned(), av));
            proof {
                assert(tes@.drop_last() =~= pre);
                assert(entries_get(tes@, "from"@) matches Some(a) && account_ok(a)
                    && account_owner(a) == fv);
                assert(forall|key: Seq<char>| #![trigger entries_get(tes@, key)] key != "from"@
                    ==> entries_get(tes@, key) == entries_get(pre, key));
            }
        }
        if let Some(mm) = memo {
            let ghost pre = tes@;
            let ghost mv = mm@;
            tes.push(("memo".to_owned(), Val::Blob(mm)));
            proof {
                assert(tes@.drop_last() =~= pre);
                assert(entries_get(tes@, "memo"@) matches Some(b) && b is Blob && opt_blob_of(
                    entries_get(tes@, "memo"@),
                ) == Some(mv));
                assert(forall|key: Seq<char>| #![trigger entries_get(tes@, key)] key != "memo"@
                    ==> entries_get(tes@, key) == entries_get(pre, key));
            }
        }
        if let Some(m) = &meta {
            let ghost pre = tes@;
            let mvs = meta_vals(m);
            tes.push(("meta".to_owned(), Val::Dict(mvs)));
            proof {
                assert(tes@.drop_last() =~= pre);
                assert(opt_meta_ok(entries_get(tes@, "meta"@)) && opt_meta_view(
                    entries_get(tes@, "meta"@),
                ) == Some(meta_view(m@)));
                assert(forall|key: Seq<char>| #![trigger entries_get(tes@, key)] key != "meta"@
                    ==> entries_get(tes@, key) == entries_get(pre, key));
            }
        }
        if let Some(s) = spender {
            let ghost pre = tes@;
            let ghost sv = s@;
            let av = account_val(s);
            tes.push(("spender".to_owned(), av));
            proof {
                assert(tes@.drop_last() =~= pre);
                assert(entries_get(tes@, "spender"@) matches Some(a) && account_ok(a)
                    && account_owner(a) == sv);
                assert(forall|key: Seq<char>| #![trigger entries_get(tes@, key)] key != "spender"@
                    ==> entries_get(tes@, key) == entries_get(pre, key));
            }
        }
        {
            let ghost pre = tes@;
            tes.push(("tid".to_owned(), Val::Nat(tid)));
            proof {
                assert(tes@.drop_last() =~= pre);
                assert(entries_get(tes@, "tid"@) == Some(Val::Nat(tid)));
                assert(forall|key: Seq<char>| #![trigger entries_get(tes@, key)] key != "tid"@
                    ==> entries_get(tes@, key) == entries_get(pre, key));
            }
        }
        if let Some(t) = to {
            let ghost pre = tes@;
            let ghost tv = t@;
            let av = account_val(t);
            tes.push(("to".to_owned(), av));
            proof {
                assert(tes@.drop_last() =~= pre);
                assert(entries_get(tes@, "to"@) matches Some(a) && account_ok(a)
                    && account_owner(a) == tv);
                assert(forall|key: Seq<char>| #![trigger entries_get(tes@, key)] key != "to"@
                    ==> entries_get(tes@, key) == entries_get(pre, key));
            }
        }
        if let Some(c) = created_at_time {
            let ghost pre = tes@;
            tes.push(("ts".to_owned(), Val::Nat(c)));
            proof {
                assert(tes@.drop_last() =~= pre);
                assert(entries_get(tes@, "ts"@) == Some(Val::Nat(c)));
                assert(forall|key: Seq<char>| #![trigger entries_get(tes@, key)] key != "ts"@
                    ==> entries_get(tes@, key) == entries_get(pre, key));
            }
        }

        let mut top: Vec<(String, Val)> = Vec::new();
        proof {
            assert(forall|key: Seq<char>| entries_get(top@, key) is None);
        }
        {
            let ghost pre = top@;
            top.push(("btype".to_owned(), Val::Text(op)));
            proof {
                assert(top@.drop_last() =~= pre);
                assert(entries_get(top@, "btype"@) matches Some(b) && b is Text);
                assert(forall|key: Seq<char>| #![trigger entries_get(top@, key)] key != "btype"@
                    ==> entries_get(top@, key) == entries_get(pre, key));
            }
        }
        if let Some(h) = phash {
            let ghost pre = top@;
            let ghost hv = h@;
            top.push(("phash".to_owned(), Val::Blob(h)));
            proof {
                assert(top@.drop_last() =~= pre);
                assert(entries_get(top@, "phash"@) matches Some(b) && b is Blob && (
                match entries_get(top@, "phash"@) {
                    Some(Val::Blob(bb)) => bb@ == hv,
                    _ => false,
                }));
                assert(forall|key: Seq<char>| #![trigger entries_get(top@, key)] key != "phash"@
                    ==> entries_get(top@, key) == entries_get(pre, key));
            }
        }
        {
            let ghost pre = top@;
            top.push(("ts".to_owned(), Val::Nat(ts)));
            proof {
                assert(top@.drop_last() =~= pre);
                assert(entries_get(top@, "ts"@) == Some(Val::Nat(ts)));
                assert(forall|key: Seq<char>| #![trigger entries_get(top@, key)] key != "ts"@
                    ==> entries_get(top@, key) == entries_get(pre, key));
            }
        }
        let ghost tesv = tes@;
        {
            let ghost pre = top@;
            top.push(("tx".to_owned(), Val::Dict(tes)));
            proof {
                assert(top@.drop_last() =~= pre);
                assert(entries_get(top@, "tx"@) matches Some(t) && (t matches Val::Dict(xx)
                    && xx@ == tesv));
                assert(forall|key: Seq<char>| #![trigger entries_get(top@, key)] key != "tx"@
                    ==> entries_get(top@, key) == entries_get(pre, key));
            }
        }
        proof {
            lemma_block_keys_distinct();
            assert(entries_get(top@, "ts"@) == Some(Val::Nat(ts)));
            assert(entries_get(top@, "btype"@) matches Some(b) && b is Text);
            assert(entries_get(inner_tx_entries(top@), "tid"@) == Some(Val::Nat(tid)));
            assert(block_entries_decodable(top@));
            let tv = block_entries_tx_view(top@);
            assert(inner_tx_entries(top@) == tesv);
            assert(tv.ts == selfv.ts && tv.op == selfv.op && tv.tid == selfv.tid);
            assert(tv.from == selfv.from && tv.to == selfv.to && tv.spender == selfv.spender);
            assert(tv.exp == selfv.exp && tv.meta == selfv.meta && tv.memo == selfv.memo);
            assert(tv.created_at_time == selfv.created_at_time);
            assert(block_entries_phash(top@) == phv);
        }
        Val::Dict(top)
    }
}

// ---------------------------------------------------------------------------
// Decoding.
// ---------------------------------------------------------------------------

/// Why a value failed to decode as a block.
#[derive(Clone, Copy, PartialEq, Eq, Structural, Debug)]
pub enum BlockDecodeError {
    NotAMap,
    MissingTs,
    MissingBtype,
    MissingTx,
    MissingTid,
    WrongShape,
}

/// The error a non-decodable value is rejected with: the first check that
/// fails, in decoding order.
pub open spec fn block_decode_err(v: Val) -> BlockDecodeError {
    match v {
        Val::Dict(entries) => {
            let es = entries@;
            if entries_get(es, "ts"@) is None {
                BlockDecodeError::MissingTs
            } else if !(entries_get(es, "ts"@) matches Some(t) && t is Nat) {
                BlockDecodeError::WrongShape
            } else if entries_get(es, "btype"@) is None {
                BlockDecodeError::MissingBtype
            } else if !(entries_get(es, "btype"@) matches Some(t) && t is Text) {
                BlockDecodeError::WrongShape
            } else if entries_get(es, "tx"@) is None {
                BlockDecodeError::MissingTx
            } else if !(entries_get(es, "tx"@) matches Some(t) && t is Dict) {
                BlockDecodeError::WrongShape
            } else if entries_get(inner_tx_entries(es), "tid"@) is None {
                BlockDecodeError::MissingTid
            } else {
                BlockDecodeError::WrongShape
            }
        },
        _ => BlockDecodeError::NotAMap,
    }
}

/// Reads an account value, handing back the owner's principal bytes.
fn read_account(v: &Val) -> (r: Option<Vec<u8>>)
    ensures
        account_ok(*v) ==> (r matches Some(b) && b@ == account_owner(*v)),
        !account_ok(*v) ==> r is None,
{
    match v {
        Val::Array(xs) => {
            if xs.len() == 1 || xs.len() == 2 {
                match &xs[0] {
                    Val::Blob(b) => Some(bytes_clone(b)),
                    _ => None,
                }
            } else {
                None
            }
        },
        _ => None,
    }
}

/// Reads a metadata map value back into a [`Metadata`] list.
fn read_meta(es: &Vec<(String, Val)>) -> (r: Option<Metadata>)
    ensures
        meta_entries_ok(es@) ==> (r matches Some(m) && meta_view(m@) == meta_entries_view(es@)),
        !meta_entries_ok(es@) ==> r is None,
{
    let mut m: Metadata = Vec::new();
    let mut i: usize = 0;
    while i < es.len()
        invariant
            i <= es@.len(),
            m@.len() == i,
            forall|j: int| 0 <= j < i ==> meta_val_ok(#[trigger] es@[j].1),
            forall|j: int| 0 <= j < i ==> m@[j].0@ == es@[j].0@ && m@[j].1@ == meta_val_view(
                es@[j].1,
            ),
        decreases es@.len() - i,
    {
        let mv = match &es[i].1 {
            Val::Blob(b) => MetaVal::Blob(bytes_clone(b)),
            Val::Text(s) => MetaVal::Text(s.clone()),
            Val::Nat(n) => MetaVal::Nat(*n),
            Val::Int(x) => MetaVal::Int(*x),
            _ => {
                return None;
            },
        };
        m.push((es[i].0.clone(), mv));
        i = i + 1;
    }
    proof {
        assert(meta_view(m@) =~= meta_entries_view(es@));
    }
    Some(m)
}

impl Transaction {
    /// Decodes a block back into the transaction it records. Total: any value
    /// is either decoded or rejected with the first failing check; no shape
    /// makes it panic.
    pub fn try_from_block(v: &Val) -> (r: Result<Transaction, BlockDecodeError>)
        ensures
            match r {
                Ok(t) => block_decodable(*v) && t@ == block_tx_view(*v),
                Err(e) => !block_decodable(*v) && e == block_decode_err(*v),
            },
    {
        let entries = match v {
            Val::Dict(entries) => entries,
            _ => {
                return Err(BlockDecodeError::NotAMap);
            },
        };
        let ts: u64 = match entries_find(entries, "ts") {
            None => {
                return Err(BlockDecodeError::MissingTs);
            },
            Some(i) => match &entries[i].1 {
                Val::Nat(n) => *n,
                _ => {
                    return Err(BlockDecodeError::WrongShape);
                },
            },
        };
        let op: String = match entries_find(entries, "btype") {
            None => {
                return Err(BlockDecodeError::MissingBtype);
            },
            Some(i) => match &entries[i].1 {
                Val::Text(s) => s.clone(),
                _ => {
                    return Err(BlockDecodeError::WrongShape);
                },
            },
        };
        let tes = match entries_find(entries, "tx") {
            None => {
                return Err(BlockDecodeError::MissingTx);
            },
            Some(i) => match &entries[i].1 {
                Val::Dict(tes) => tes,
                _ => {
                    return Err(BlockDecodeError::WrongShape);
                },
            },
        };
        let tid: u64 = match entries_find(tes, "tid") {
            None => {
                return Err(BlockDecodeError::MissingTid);
            },
            Some(i) => match &tes[i].1 {
                Val::Nat(n) => *n,
                _ => {
                    return Err(BlockDecodeError::WrongShape);
                },
            },
        };
        let from: Option<Vec<u8>> = match entries_find(tes, "from") {
            None => None,
            Some(i) => match read_account(&tes[i].1) {
                Some(b) => Some(b),
                None => {
                    return Err(BlockDecodeError::WrongShape);
                },
            },
        };
        let to: Option<Vec<u8>> = match entries_find(tes, "to") {
            None => None,
            Some(i) => match read_account(&tes[i].1) {
                Some(b) => Some(b),
                None => {
                    return Err(BlockDecodeError::WrongShape);
                },
            },
        };
        let spender: Option<Vec<u8>> = match entries_find(tes, "spender") {
            None => None,
            Some(i) => match read_account(&tes[i].1) {
                Some(b) => Some(b),
                None => {
                    return Err(BlockDecodeError::WrongShape);
                },
            },
        };
        let exp: Option<u64> = match entries_find(tes, "exp") {
            None => None,
            Some(i) => match &tes[i].1 {
                Val::Nat(n) => Some(*n),
                _ => {
                    return Err(BlockDecodeError::WrongShape);
                },
            },
        };
        let created_at_time: Option<u64> = match entries_find(tes, "ts") {
            None => None,
            Some(i) => match &tes[i].1 {
                Val::Nat(n) => Some(*n),
                _ => {
                    return Err(BlockDecodeError::WrongShape);
                },
            },
        };
        let memo: Option<Vec<u8>> = match entries_find(tes, "memo") {
            None => None,
            Some(i) => match &tes[i].1 {
                Val::Blob(b) => Some(bytes_clone(b)),
                _ => {
                    return Err(BlockDecodeError::WrongShape);
                },
            },
        };
        let meta: Option<Metadata> = match entries_find(tes, "meta") {
            None => None,
            Some(i) => match &tes[i].1 {
                Val::Dict(mes) => match read_meta(mes) {
                    Some(m) => Some(m),
                    None => {
                        return Err(BlockDecodeError::WrongShape);
                    },
                },
                _ => {
                    return Err(BlockDecodeError::WrongShape);
                },
            },
        };
        Ok(Transaction { ts, op, tid, from, to, spender, exp, meta, memo, created_at_time })
    }
}

// ---------------------------------------------------------------------------
// Staging records, one per ledger operation.
// ---------------------------------------------------------------------------

impl Transaction {
    /// Stages a mint: `to` receives a fresh sub-item of token `tid`.
    pub fn mint(
        now_ns: u64,
        tid: u64,
        from: Option<Vec<u8>>,
        to: Vec<u8>,
        meta: Metadata,
        memo: Option<Vec<u8>>,
    ) -> (r: Transaction)
        ensures
            r@ == (TxView {
                ts: now_ns,
                op: "7mint"@,
                tid,
                from: opt_bytes_view(from),
                to: Some(to@),
                spender: None,
                exp: None,
                meta: Some(meta_view(meta@)),
                memo: opt_bytes_view(memo),
                created_at_time: None,
            }),
    {
        Transaction {
            ts: now_ns,
            op: "7mint".to_owned(),
            tid,
            from,
            to: Some(to),
            spender: None,
            exp: None,
            meta: Some(meta),
            memo,
            created_at_time: None,
        }
    }

    /// Stages a burn of one sub-item of token `tid`.
    pub fn burn(
        now_ns: u64,
        tid: u64,
        from: Vec<u8>,
        to: Option<Vec<u8>>,
        memo: Option<Vec<u8>>,
    ) -> (r: Transaction)
        ensures
            r@ == (TxView {
                ts: now_ns,
                op: "7burn"@,
                tid,
                from: Some(from@),
                to: opt_bytes_view(to),
                spender: None,
                exp: None,
                meta: None,
                memo: opt_bytes_view(memo),
                created_at_time: None,
            }),
    {
        Transaction {
            ts: now_ns,
            op: "7burn".to_owned(),
            tid,
            from: Some(from),
            to,
            spender: None,
            exp: None,
            meta: None,
            memo,
            created_at_time: None,
        }
    }

    /// Stages a holder-initiated transfer of one sub-item of token `tid`.
    pub fn transfer(
        now_ns: u64,
        tid: u64,
        from: Vec<u8>,
        to: Vec<u8>,
        memo: Option<Vec<u8>>,
    ) -> (r: Transaction)
        ensures
            r@ == (TxView {
                ts: now_ns,
                op: "7xfer"@,
                tid,
                from: Some(from@),
                to: Some(to@),
                spender: None,
                exp: None,
                meta: None,
                memo: opt_bytes_view(memo),
                created_at_time: None,
            }),
    {
        Transaction {
            ts: now_ns,
            op: "7xfer".to_owned(),
            tid,
            from: Some(from),
            to: Some(to),
            spender: None,
            exp: None,
            meta: None,
            memo,
            created_at_time: None,
        }
    }

    /// Stages a token update.
    pub fn update(
        now_ns: u64,
        tid: u64,
        from: Vec<u8>,
        meta: Metadata,
        memo: Option<Vec<u8>>,
    ) -> (r: Transaction)
        ensures
            r@ == (TxView {
                ts: now_ns,
                op: "7update"@,
                tid,
                from: Some(from@),
                to: None,
                spender: None,
                exp: None,
                meta: Some(meta_view(meta@)),
                memo: opt_bytes_view(memo),
                created_at_time: None,
            }),
    {
        Transaction {
            ts: now_ns,
            op: "7update".to_owned(),
            tid,
            from: Some(from),
            to: None,
            spender: None,
            exp: None,
            meta: Some(meta),
            memo,
            created_at_time: None,
        }
    }

    /// Stages a token-level approval of `spender` by `from`.
    pub fn approve(
        now_ns: u64,
        tid: u64,
        from: Vec<u8>,
        spender: Vec<u8>,
        exp_sec: Option<u64>,
        memo: Option<Vec<u8>>,
    ) -> (r: Transaction)
        ensures
            r@ == (TxView {
                ts: now_ns,
                op: "37approve"@,
                tid,
                from: Some(from@),
                to: None,
                spender: Some(spender@),
                exp: exp_sec,
                meta: None,
                memo: opt_bytes_view(memo),
                created_at_time: None,
            }),
    {
        Transaction {
            ts: now_ns,
            op: "37approve".to_owned(),
            tid,
            from: Some(from),
            to: None,
            spender: Some(spender),
            exp: exp_sec,
            meta: None,
            memo,
            created_at_time: None,
        }
    }

    /// Stages a collection-level approval of `spender` by `from`.
    pub fn approve_collection(
        now_ns: u64,
        from: Vec<u8>,
        spender: Vec<u8>,
        exp_sec: Option<u64>,
        memo: Option<Vec<u8>>,
    ) -> (r: Transaction)
        ensures
            r@ == (TxView {
                ts: now_ns,
                op: "37approve_coll"@,
                tid: 0,
                from: Some(from@),
                to: None,
                spender: Some(spender@),
                exp: exp_sec,
                meta: None,
                memo: opt_bytes_view(memo),
                created_at_time: None,
            }),
    {
        Transaction {
            ts: now_ns,
            op: "37approve_coll".to_owned(),
            tid: 0,
            from: Some(from),
            to: None,
            spender: Some(spender),
            exp: exp_sec,
            meta: None,
            memo,
            created_at_time: None,
        }
    }

    /// Stages a token-level approval revocation; no `spender` means all of
    /// them.
    pub fn revoke(
        now_ns: u64,
        tid: u64,
        from: Vec<u8>,
        spender: Option<Vec<u8>>,
        memo: Option<Vec<u8>>,
    ) -> (r: Transaction)
        ensures
            r@ == (TxView {
                ts: now_ns,
                op: "37revoke"@,
                tid,
                from: Some(from@),
                to: None,
                spender: opt_bytes_view(spender),
                exp: None,
                meta: None,
                memo: opt_bytes_view(memo),
                created_at_time: None,
            }),
    {
        Transaction {
            ts: now_ns,
            op: "37revoke".to_owned(),
            tid,
            from: Some(from),
            to: None,
            spender,
            exp: None,
            meta: None,
            memo,
            created_at_time: None,
        }
    }

    /// Stages a collection-level approval revocation; no `spender` means all
    /// of them.
    pub fn revoke_collection(
        now_ns: u64,
        from: Vec<u8>,
        spender: Option<Vec<u8>>,
        memo: Option<Vec<u8>>,
    ) -> (r: Transaction)
        ensures
            r@ == (TxView {
                ts: now_ns,
                op: "37revoke_coll"@,
                tid: 0,
                from: Some(from@),
                to: None,
                spender: opt_bytes_view(spender),
                exp: None,
                meta: None,
                memo: opt_bytes_view(memo),
                created_at_time: None,
            }),
    {
        Transaction {
            ts: now_ns,
            op: "37revoke_coll".to_owned(),
            tid: 0,
            from: Some(from),
            to: None,
            spender,
            exp: None,
            meta: None,
            memo,
            created_at_time: None,
        }
    }

    /// Stages a transfer executed by an approved `spender` on behalf of
    /// `from`.
    pub fn transfer_from(
        now_ns: u64,
        tid: u64,
        from: Vec<u8>,
        to: Vec<u8>,
        spender: Vec<u8>,
        memo: Option<Vec<u8>>,
    ) -> (r: Transaction)
        ensures
            r@ == (TxView {
                ts: now_ns,
                op: "37xfer"@,
                tid,
                from: Some(from@),
                to: Some(to@),
                spender: Some(spender@),
                exp: None,
                meta: None,
                memo: opt_bytes_view(memo),
                created_at_time: None,
            }),
    {
        Transaction {
            ts: now_ns,
            op: "37xfer".to_owned(),
            tid,
            from: Some(from),
            to: Some(to),
            spender: Some(spender),
            exp: None,
            meta: None,
            memo,
            created_at_time: None,
        }
    }
}

} // verus!
