//! The collection singleton: identity and presentation fields, the running
//! totals, the chain head, the operator sets and the tunable settings; its
//! initialization, its metadata views and the admin update path.

use vstd::prelude::*;
use crate::settings::Settings;
use crate::val::{meta_view, MetaVal, MetaValV, Metadata};

verus! {

/// The collection singleton record.
pub struct Collection {
    pub symbol: String,
    pub name: String,
    pub description: Option<String>,
    pub logo: Option<String>,
    pub assets_origin: Option<String>,
    pub total_supply: u64,
    pub supply_cap: Option<u64>,
    pub created_at: u64,
    pub updated_at: u64,
    pub last_block_index: Option<u64>,
    pub last_block_hash: Option<Vec<u8>>,
    pub minters: Vec<Vec<u8>>,
    pub managers: Vec<Vec<u8>>,
    pub settings: Settings,
}

/// What a fresh collection is initialized with.
pub struct InitArg {
    pub symbol: String,
    pub name: String,
    pub description: Option<String>,
    pub logo: Option<String>,
    pub assets_origin: Option<String>,
    pub supply_cap: Option<u64>,
    pub max_query_batch_size: Option<u16>,
    pub max_update_batch_size: Option<u16>,
    pub max_take_value: Option<u16>,
    pub default_take_value: Option<u16>,
    pub max_memo_size: Option<u16>,
    pub atomic_batch_transfers: Option<bool>,
    pub tx_window: Option<u64>,
    pub permitted_drift: Option<u64>,
    pub max_approvals_per_token_or_collection: Option<u16>,
    pub max_revoke_approvals: Option<u16>,
}

/// A field-wise update of the collection; absent fields are left alone.
pub struct UpdateCollectionArg {
    pub name: Option<String>,
    pub description: Option<String>,
    pub logo: Option<String>,
    pub assets_origin: Option<String>,
    pub supply_cap: Option<u64>,
    pub max_query_batch_size: Option<u16>,
    pub max_update_batch_size: Option<u16>,
    pub max_take_value: Option<u16>,
    pub default_take_value: Option<u16>,
    pub max_memo_size: Option<u16>,
    pub atomic_batch_transfers: Option<bool>,
    pub tx_window: Option<u64>,
    pub permitted_drift: Option<u64>,
    pub max_approvals_per_token_or_collection: Option<u16>,
    pub max_revoke_approvals: Option<u16>,
}

/// The settings an initialization argument settles on: each bound takes the
/// given value or its default.
pub open spec fn init_settings(a: InitArg) -> Settings {
    Settings {
        max_query_batch_size: opt_or_u16(a.max_query_batch_size, 100),
        max_update_batch_size: opt_or_u16(a.max_update_batch_size, 20),
        default_take_value: opt_or_u16(a.default_take_value, 10),
        max_take_value: opt_or_u16(a.max_take_value, 100),
        max_memo_size: opt_or_u16(a.max_memo_size, 32),
        atomic_batch_transfers: match a.atomic_batch_transfers {
            Some(b) => b,
            None => false,
        },
        tx_window: opt_or_u64(a.tx_window, 7200),
        permitted_drift: opt_or_u64(a.permitted_drift, 120),
        max_approvals_per_token_or_collection: opt_or_u16(
            a.max_approvals_per_token_or_collection,
            10,
        ),
        max_revoke_approvals: opt_or_u16(a.max_revoke_approvals, 10),
    }
}

pub open spec fn opt_or_u16(o: Option<u16>, d: u16) -> u16 {
    match o {
        Some(v) => v,
        None => d,
    }
}

pub open spec fn opt_or_u64(o: Option<u64>, d: u64) -> u64 {
    match o {
        Some(v) => v,
        None => d,
    }
}

/// The settings after a field-wise update.
pub open spec fn updated_settings(s: Settings, args: UpdateCollectionArg) -> Settings {
    Settings {
        max_query_batch_size: opt_or_u16(args.max_query_batch_size, s.max_query_batch_size),
        max_update_batch_size: opt_or_u16(args.max_update_batch_size, s.max_update_batch_size),
        default_take_value: opt_or_u16(args.default_take_value, s.default_take_value),
        max_take_value: opt_or_u16(args.max_take_value, s.max_take_value),
        max_memo_size: opt_or_u16(args.max_memo_size, s.max_memo_size),
        atomic_batch_transfers: match args.atomic_batch_transfers {
            Some(b) => b,
            None => s.atomic_batch_transfers,
        },
        tx_window: opt_or_u64(args.tx_window, s.tx_window),
        permitted_drift: opt_or_u64(args.permitted_drift, s.permitted_drift),
        max_approvals_per_token_or_collection: opt_or_u16(
            args.max_approvals_per_token_or_collection,
            s.max_approvals_per_token_or_collection,
        ),
        max_revoke_approvals: opt_or_u16(args.max_revoke_approvals, s.max_revoke_approvals),
    }
}

/// Applies the settings half of a collection update.
fn apply_settings_update(s: &mut Settings, args: &UpdateCollectionArg)
    ensures
        *final(s) == updated_settings(*old(s), *args),
{
    if let Some(val) = args.max_query_batch_size {
        s.max_query_batch_size = val;
    }
    if let Some(val) = args.max_update_batch_size {
        s.max_update_batch_size = val;
    }
    if let Some(val) = args.default_take_value {
        s.default_take_value = val;
    }
    if let Some(val) = args.max_take_value {
        s.max_take_value = val;
    }
    if let Some(val) = args.max_memo_size {
        s.max_memo_size = val;
    }
    if let Some(val) = args.atomic_batch_transfers {
        s.atomic_batch_transfers = val;
    }
    if let Some(val) = args.tx_window {
        s.tx_window = val;
    }
    if let Some(val) = args.permitted_drift {
        s.permitted_drift = val;
    }
    if let Some(val) = args.max_approvals_per_token_or_collection {
        s.max_approvals_per_token_or_collection = val;
    }
    if let Some(val) = args.max_revoke_approvals {
        s.max_revoke_approvals = val;
    }
}

impl Collection {
    /// The collection created at initialization: the given identity fields,
    /// the settled settings, no tokens, no chain yet, no operators.
    pub fn init(args: InitArg, now_sec: u64) -> (r: Collection)
        ensures
            r.symbol@ == args.symbol@,
            r.name@ == args.name@,
            r.description == args.description,
            r.logo == args.logo,
            r.assets_origin == args.assets_origin,
            r.supply_cap == args.supply_cap,
            r.total_supply == 0,
            r.created_at == now_sec,
            r.updated_at == now_sec,
            r.last_block_index is None,
            r.last_block_hash is None,
            r.minters@.len() == 0,
            r.managers@.len() == 0,
            r.settings == init_settings(args),
    {
        let settings = Settings {
            max_query_batch_size: match args.max_query_batch_size {
                Some(v) => v,
                None => 100,
            },
            max_update_batch_size: match args.max_update_batch_size {
                Some(v) => v,
                None => 20,
            },
            default_take_value: match args.default_take_value {
                Some(v) => v,
                None => 10,
            },
            max_take_value: match args.max_take_value {
                Some(v) => v,
                None => 100,
            },
            max_memo_size: match args.max_memo_size {
                Some(v) => v,
                None => 32,
            },
            atomic_batch_transfers: match args.atomic_batch_transfers {
                Some(v) => v,
                None => false,
            },
            tx_window: match args.tx_window {
                Some(v) => v,
                None => 7200,
            },
            permitted_drift: match args.permitted_drift {
                Some(v) => v,
                None => 120,
            },
            max_approvals_per_token_or_collection: match args
                .max_approvals_per_token_or_collection {
                Some(v) => v,
                None => 10,
            },
            max_revoke_approvals: match args.max_revoke_approvals {
                Some(v) => v,
                None => 10,
            },
        };
        Collection {
            symbol: args.symbol,
            name: args.name,
            description: args.description,
            logo: args.logo,
            assets_origin: args.assets_origin,
            total_supply: 0,
            supply_cap: args.supply_cap,
            created_at: now_sec,
            updated_at: now_sec,
            last_block_index: None,
            last_block_hash: None,
            minters: Vec::new(),
            managers: Vec::new(),
            settings,
        }
    }

    /// The effective page size: the requested `take`, or the default when
    /// none is requested, never above the maximum.
    pub fn take_value(&self, take: Option<u64>) -> (r: u16)
        ensures
            ({
                let wanted = (match take {
                    None => self.settings.default_take_value as u64,
                    Some(t) => t,
                });
                r == if wanted < self.settings.max_take_value as u64 {
                    wanted as u16
                } else {
                    self.settings.max_take_value
                }
            }),
    {
        let wanted: u64 = match take {
            None => self.settings.default_take_value as u64,
            Some(t) => t,
        };
        if wanted < self.settings.max_take_value as u64 {
            wanted as u16
        } else {
            self.settings.max_take_value
        }
    }

    /// The collection-level metadata map, in its fixed key order; optional
    /// fields appear only when set.
    pub fn metadata(&self) -> (r: Metadata)
        ensures
            meta_view(r@) == collection_metadata_view(*self),
    {
        let mut r: Metadata = Vec::new();
        r.push(("icrc7:symbol".to_owned(), MetaVal::Text(self.symbol.clone())));
        r.push(("icrc7:name".to_owned(), MetaVal::Text(self.name.clone())));
        if let Some(description) = &self.description {
            r.push(("icrc7:description".to_owned(), MetaVal::Text(description.clone())));
        }
        if let Some(logo) = &self.logo {
            r.push(("icrc7:logo".to_owned(), MetaVal::Text(logo.clone())));
        }
        r.push(("icrc7:total_supply".to_owned(), MetaVal::Nat(self.total_supply)));
        if let Some(supply_cap) = self.supply_cap {
            r.push(("icrc7:supply_cap".to_owned(), MetaVal::Nat(supply_cap)));
        }
        proof {
            assert(meta_view(r@) =~= collection_metadata_view(*self));
        }
        r
    }

    /// The approval-related metadata map: each bound appears when non-zero.
    pub fn icrc37_metadata(&self) -> (r: Metadata)
        ensures
            meta_view(r@) == icrc37_metadata_view(*self),
    {
        let mut r: Metadata = Vec::new();
        if self.settings.max_approvals_per_token_or_collection > 0 {
            r.push(
                (
                    "icrc37:max_approvals_per_token_or_collection".to_owned(),
                    MetaVal::Nat(self.settings.max_approvals_per_token_or_collection as u64),
                ),
            );
        }
        if self.settings.max_revoke_approvals > 0 {
            r.push(
                (
                    "icrc37:max_revoke_approvals".to_owned(),
                    MetaVal::Nat(self.settings.max_revoke_approvals as u64),
                ),
            );
        }
        proof {
            assert(meta_view(r@) =~= icrc37_metadata_view(*self));
        }
        r
    }

    /// Applies a field-wise update: present fields overwrite, absent fields
    /// stay; `updated_at` is stamped. The supply-cap guard lives with the
    /// caller.
    #[verifier::rlimit(100)]
    #[verifier::spinoff_prover]
    pub fn apply_update(&mut self, args: UpdateCollectionArg, now_sec: u64)
        ensures
            final(self).updated_at == now_sec,
            final(self).name@ == (match args.name {
                Some(n) => n@,
                None => old(self).name@,
            }),
            final(self).description == (match args.description {
                Some(d) => Some(d),
                None => old(self).description,
            }),
            final(self).logo == (match args.logo {
                Some(d) => Some(d),
                None => old(self).logo,
            }),
            final(self).assets_origin == (match args.assets_origin {
                Some(d) => Some(d),
                None => old(self).assets_origin,
            }),
            final(self).supply_cap == (match args.supply_cap {
                Some(d) => Some(d),
                None => old(self).supply_cap,
            }),
            final(self).settings == updated_settings(old(self).settings, args),
            final(self).symbol == old(self).symbol,
            final(self).total_supply == old(self).total_supply,
            final(self).created_at == old(self).created_at,
            final(self).last_block_index == old(self).last_block_index,
            final(self).last_block_hash == old(self).last_block_hash,
            final(self).minters == old(self).minters,
            final(self).managers == old(self).managers,
    {
        self.updated_at = now_sec;
        apply_settings_update(&mut self.settings, &args);
        if let Some(name) = args.name {
            self.name = name;
        }
        if let Some(val) = args.description {
            self.description = Some(val);
        }
        if let Some(val) = args.logo {
            self.logo = Some(val);
        }
        if let Some(val) = args.assets_origin {
            self.assets_origin = Some(val);
        }
        if let Some(val) = args.supply_cap {
            self.supply_cap = Some(val);
        }
    }
}

/// The entries [`Collection::metadata`] yields.
pub open spec fn collection_metadata_view(c: Collection) -> Seq<(Seq<char>, MetaValV)> {
    seq![
        ("icrc7:symbol"@, MetaValV::Text(c.symbol@)),
        ("icrc7:name"@, MetaValV::Text(c.name@)),
    ] + (match c.description {
        Some(d) => seq![("icrc7:description"@, MetaValV::Text(d@))],
        None => Seq::empty(),
    }) + (match c.logo {
        Some(d) => seq![("icrc7:logo"@, MetaValV::Text(d@))],
        None => Seq::empty(),
    }) + seq![("icrc7:total_supply"@, MetaValV::Nat(c.total_supply))] + (match c.supply_cap {
        Some(d) => seq![("icrc7:supply_cap"@, MetaValV::Nat(d))],
        None => Seq::empty(),
    })
}

/// The entries [`Collection::icrc37_metadata`] yields.
pub open spec fn icrc37_metadata_view(c: Collection) -> Seq<(Seq<char>, MetaValV)> {
    (if c.settings.max_approvals_per_token_or_collection > 0 {
        seq![
            (
                "icrc37:max_approvals_per_token_or_collection"@,
                MetaValV::Nat(c.settings.max_approvals_per_token_or_collection as u64),
            ),
        ]
    } else {
        Seq::empty()
    }) + (if c.settings.max_revoke_approvals > 0 {
        seq![("icrc37:max_revoke_approvals"@, MetaValV::Nat(c.settings.max_revoke_approvals as u64))]
    } else {
        Seq::empty()
    })
}

} // verus!
