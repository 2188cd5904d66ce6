//! The self-describing structured value that blocks are made of: maps with
//! string keys, arrays, byte blobs, text and integers, mirroring the shapes
//! the block wire format uses.

use vstd::prelude::*;
use crate::bytesutil::str_eq;

verus! {

/// A structured value. Blocks are `Map` values whose keys encode which
/// optional transaction fields are present. (`Dict` is the map shape.)
pub enum Val {
    Blob(Vec<u8>),
    Text(String),
    Nat(u64),
    Int(i64),
    Array(Vec<Val>),
    Dict(Vec<(String, Val)>),
}

/// A flat metadata value: what a token's metadata map may hold.
pub enum MetaVal {
    Blob(Vec<u8>),
    Text(String),
    Nat(u64),
    Int(i64),
}

/// The mathematical shape of a [`MetaVal`].
pub enum MetaValV {
    Blob(Seq<u8>),
    Text(Seq<char>),
    Nat(u64),
    Int(i64),
}

impl View for MetaVal {
    type V = MetaValV;

    open spec fn view(&self) -> MetaValV {
        match self {
            MetaVal::Blob(b) => MetaValV::Blob(b@),
            MetaVal::Text(s) => MetaValV::Text(s@),
            MetaVal::Nat(n) => MetaValV::Nat(*n),
            MetaVal::Int(i) => MetaValV::Int(*i),
        }
    }
}

/// A token metadata map: keys with flat values, in insertion order.
pub type Metadata = Vec<(String, MetaVal)>;

/// The mathematical shape of a [`Metadata`] entry list.
pub open spec fn meta_view(es: Seq<(String, MetaVal)>) -> Seq<(Seq<char>, MetaValV)> {
    es.map(|i: int, e: (String, MetaVal)| (e.0@, e.1@))
}

/// Copies one metadata value.
pub fn clone_meta_val(m: &MetaVal) -> (r: MetaVal)
    ensures
        r@ == m@,
{
    match m {
        MetaVal::Blob(b) => MetaVal::Blob(crate::bytesutil::bytes_clone(b)),
        MetaVal::Text(s) => MetaVal::Text(s.clone()),
        MetaVal::Nat(n) => MetaVal::Nat(*n),
        MetaVal::Int(i) => MetaVal::Int(*i),
    }
}

/// Copies a metadata entry list.
pub fn clone_metadata(m: &Metadata) -> (r: Metadata)
    ensures
        meta_view(r@) == meta_view(m@),
        r@.len() == m@.len(),
{
    let mut r: Metadata = Vec::new();
    let mut i: usize = 0;
    while i < m.len()
        invariant
            i <= m@.len(),
            r@.len() == i,
            forall|j: int| 0 <= j < i ==> r@[j].0@ == m@[j].0@ && r@[j].1@ == m@[j].1@,
        decreases m@.len() - i,
    {
        r.push((m[i].0.clone(), clone_meta_val(&m[i].1)));
        i = i + 1;
    }
    proof {
        assert(meta_view(r@) =~= meta_view(m@));
    }
    r
}

/// The value bound to `key` in an entry list, if any; a later entry wins,
/// as a map insert would.
pub open spec fn entries_get(es: Seq<(String, Val)>, key: Seq<char>) -> Option<Val>
    decreases es.len(),
{
    if es.len() == 0 {
        None
    } else if es.last().0@ == key {
        Some(es.last().1)
    } else {
        entries_get(es.drop_last(), key)
    }
}

/// No key occurs twice in the entry list.
pub open spec fn entries_unique(es: Seq<(String, Val)>) -> bool {
    forall|i: int, j: int| 0 <= i < j < es.len() ==> es[i].0@ != es[j].0@
}

/// Finds the index of the last entry bound to `key`.
pub fn entries_find(es: &Vec<(String, Val)>, key: &str) -> (r: Option<usize>)
    ensures
        match r {
            Some(i) => i < es@.len() && es@[i as int].0@ == key@ && entries_get(es@, key@)
                == Some(es@[i as int].1),
            None => entries_get(es@, key@) is None,
        },
{
    proof {
        assert(es@.subrange(0, es@.len() as int) =~= es@);
    }
    let mut i: usize = es.len();
    loop
        invariant
            i <= es@.len(),
            entries_get(es@, key@) == entries_get(es@.subrange(0, i as int), key@),
        decreases i,
    {
        if i == 0 {
            proof {
                assert(es@.subrange(0, 0).len() == 0);
            }
            return None;
        }
        let ghost pre = es@.subrange(0, i as int);
        proof {
            assert(pre.last() == es@[i - 1]);
        }
        if str_eq(es[i - 1].0.as_str(), key) {
            return Some(i - 1);
        }
        proof {
            assert(pre.drop_last() =~= es@.subrange(0, i - 1));
        }
        i = i - 1;
    }
}

} // verus!
