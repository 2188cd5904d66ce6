//! The identifier codec: a (token-group id, sub-item id) pair bit-packed into
//! one 64-bit token id, with the cursor successor used by pagination.

use vstd::prelude::*;

verus! {

/// A token identifier: group id (field 0) and sub-item id (field 1).
/// Group ids start at 1 (index 0 is reserved); sub-item ids of minted items
/// start at 1 as well.
#[derive(Clone, Copy, PartialEq, Eq, Structural, Debug)]
pub struct SftId(pub u32, pub u32);

/// The packed 64-bit form of the pair `(group, item)`.
pub open spec fn pack_spec(group: u32, item: u32) -> u64 {
    ((group as u64) << 32) | (item as u64)
}

/// The group half of a packed token id.
pub open spec fn unpack_group(id: u64) -> u32 {
    (id >> 32) as u32
}

/// The sub-item half of a packed token id.
pub open spec fn unpack_item(id: u64) -> u32 {
    (id & 0xffff_ffff) as u32
}

impl SftId {
    /// Zero-based index of this id's token group in the token store.
    pub fn token_index(&self) -> (r: u32)
        ensures
            r == if self.0 >= 1 { (self.0 - 1) as u32 } else { 0u32 },
    {
        if self.0 == 0 {
            0
        } else {
            self.0 - 1
        }
    }

    /// Packs the pair into a single 64-bit token id.
    pub fn to_u64(&self) -> (r: u64)
        ensures
            r == pack_spec(self.0, self.1),
    {
        (self.0 as u64) << 32 | self.1 as u64
    }

    /// The inverse of [`SftId::to_u64`].
    pub fn from_u64(id: u64) -> (r: SftId)
        ensures
            r.0 == unpack_group(id),
            r.1 == unpack_item(id),
    {
        proof {
            assert(id >> 32 <= 0xffff_ffffu64 && (id & 0xffff_ffff) <= 0xffff_ffffu64)
                by (bit_vector);
        }
        SftId((id >> 32) as u32, (id & 0xffff_ffff) as u32)
    }

    /// The same group with the sub-item id incremented (saturating): the
    /// exclusive lower bound used to resume pagination after this id.
    pub fn next(&self) -> (r: SftId)
        ensures
            r.0 == self.0,
            r.1 == if self.1 < 0xffff_ffffu32 { (self.1 + 1) as u32 } else { 0xffff_ffffu32 },
    {
        if self.1 == 0xffff_ffffu32 {
            SftId(self.0, self.1)
        } else {
            SftId(self.0, self.1 + 1)
        }
    }
}

/// Packing then unpacking a (group, item) pair returns the same pair.
pub proof fn lemma_id_round_trip(group: u32, item: u32)
    requires
        group >= 1,
        item >= 1,
    ensures
        unpack_group(pack_spec(group, item)) == group,
        unpack_item(pack_spec(group, item)) == item,
{
    assert((((group as u64) << 32 | (item as u64)) >> 32) as u32 == group) by (bit_vector);
    assert(((((group as u64) << 32 | (item as u64)) & 0xffff_ffff)) as u32 == item)
        by (bit_vector);
}

/// Packing is strictly monotone in the lexicographic order on (group, item):
/// the packed ids enumerate in the same order as the pairs.
pub proof fn lemma_pack_order(a: SftId, b: SftId)
    requires
        a.0 < b.0 || (a.0 == b.0 && a.1 < b.1),
    ensures
        pack_spec(a.0, a.1) < pack_spec(b.0, b.1),
{
    let (g1, i1, g2, i2) = (a.0, a.1, b.0, b.1);
    assert(g1 < g2 || (g1 == g2 && i1 < i2) ==> ((g1 as u64) << 32 | (i1 as u64)) < ((
    g2 as u64) << 32 | (i2 as u64))) by (bit_vector);
}

} // verus!
