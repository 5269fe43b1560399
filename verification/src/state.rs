//! The transform data model: ordered asset mappings for definitions, the
//! persisted transform state, per-call execution arguments, and the size of
//! the persisted record.
//!
//! Account-slot positions are derived from the iteration order of these
//! mappings, so they are kept as explicitly ordered lists of entries; a
//! well-formed mapping has pairwise-distinct asset keys.

use crate::address::{addr_eq, Address};
use vstd::pervasive::arbitrary;
use vstd::prelude::*;

verus! {

/// One (asset id, token account) pair of an ordered mapping.
#[derive(Clone, Copy, Debug, PartialEq, Eq)]
pub struct AccountEntry {
    pub asset: Address,
    pub account: Address,
}

/// One (asset id, amount) pair: the declared full supply of an output asset.
#[derive(Clone, Copy, Debug, PartialEq, Eq)]
pub struct SupplyEntry {
    pub asset: Address,
    pub amount: u64,
}

/// The transform definition an initializer supplies at creation time.
#[derive(Clone, Debug, PartialEq)]
pub struct InitializeArgs {
    pub inputs: Vec<AccountEntry>,
    pub outputs: Vec<AccountEntry>,
}

/// Per-call execution arguments: the caller's own deposit and withdrawal
/// accounts, keyed by asset id.
#[derive(Clone, Debug, PartialEq)]
pub struct ExecuteArgs {
    pub user_inputs: Vec<AccountEntry>,
    pub user_outputs: Vec<AccountEntry>,
}

/// The persisted, ledger-resident counterpart of a definition: the single
/// source of truth for account ordering at execution time.
#[derive(Clone, Debug, PartialEq)]
pub struct Tokenitis {
    pub inputs: Vec<AccountEntry>,
    pub outputs: Vec<AccountEntry>,
}

/// The asset keys of `entries` are pairwise distinct.
pub open spec fn distinct_assets(entries: Seq<AccountEntry>) -> bool {
    forall|i: int, j: int|
        0 <= i < j < entries.len() ==> entries[i].asset@ != entries[j].asset@
}

/// No asset appears in both `inputs` and `outputs`.
pub open spec fn disjoint_assets(inputs: Seq<AccountEntry>, outputs: Seq<AccountEntry>) -> bool {
    forall|i: int, j: int|
        0 <= i < inputs.len() && 0 <= j < outputs.len()
            ==> inputs[i].asset@ != outputs[j].asset@
}

impl InitializeArgs {
    /// Definition invariant: distinct keys per direction, and no asset on
    /// both sides of the same transform.
    pub open spec fn wf(&self) -> bool {
        &&& distinct_assets(self.inputs@)
        &&& distinct_assets(self.outputs@)
        &&& disjoint_assets(self.inputs@, self.outputs@)
    }
}

impl Tokenitis {
    /// State invariant, established at creation from a well-formed definition.
    pub open spec fn wf(&self) -> bool {
        &&& distinct_assets(self.inputs@)
        &&& distinct_assets(self.outputs@)
        &&& disjoint_assets(self.inputs@, self.outputs@)
    }
}

/// Some entry of `entries` carries the asset key `asset`.
pub open spec fn spec_has_asset(entries: Seq<AccountEntry>, asset: Seq<u8>) -> bool {
    exists|i: int| 0 <= i < entries.len() && entries[i].asset@ == asset
}

/// The token account of the first entry keyed by `asset`.
pub open spec fn spec_account_of(entries: Seq<AccountEntry>, asset: Seq<u8>) -> Address
    decreases entries.len(),
{
    if entries.len() == 0 {
        arbitrary()
    } else if entries[0].asset@ == asset {
        entries[0].account
    } else {
        spec_account_of(entries.skip(1), asset)
    }
}

/// Some entry of `supply` carries the asset key `asset`.
pub open spec fn spec_has_supply(supply: Seq<SupplyEntry>, asset: Seq<u8>) -> bool {
    exists|i: int| 0 <= i < supply.len() && supply[i].asset@ == asset
}

/// The amount of the first supply entry keyed by `asset`.
pub open spec fn spec_supply_of(supply: Seq<SupplyEntry>, asset: Seq<u8>) -> u64
    decreases supply.len(),
{
    if supply.len() == 0 {
        arbitrary()
    } else if supply[0].asset@ == asset {
        supply[0].amount
    } else {
        spec_supply_of(supply.skip(1), asset)
    }
}

/// The first mapping of `spec_account_of` is the first matching entry.
pub proof fn lemma_account_of_first(entries: Seq<AccountEntry>, asset: Seq<u8>, i: int)
    requires
        0 <= i < entries.len(),
        entries[i].asset@ == asset,
        forall|j: int| 0 <= j < i ==> entries[j].asset@ != asset,
    ensures
        spec_account_of(entries, asset) == entries[i].account,
    decreases i,
{
    if i > 0 {
        lemma_account_of_first(entries.skip(1), asset, i - 1);
    }
}

/// The first mapping of `spec_supply_of` is the first matching entry.
pub proof fn lemma_supply_of_first(supply: Seq<SupplyEntry>, asset: Seq<u8>, i: int)
    requires
        0 <= i < supply.len(),
        supply[i].asset@ == asset,
        forall|j: int| 0 <= j < i ==> supply[j].asset@ != asset,
    ensures
        spec_supply_of(supply, asset) == supply[i].amount,
    decreases i,
{
    if i > 0 {
        lemma_supply_of_first(supply.skip(1), asset, i - 1);
    }
}

/// Look an asset up in an ordered account mapping; first match wins.
pub fn lookup_account(entries: &Vec<AccountEntry>, asset: &Address) -> (r: Option<Address>)
    ensures
        r is Some <==> spec_has_asset(entries@, asset@),
        r matches Some(a) ==> a == spec_account_of(entries@, asset@),
{
    let n = entries.len();
    let mut i: usize = 0;
    while i < n
        invariant
            i <= n,
            n == entries@.len(),
            forall|j: int| 0 <= j < i ==> entries@[j].asset@ != asset@,
        decreases n - i,
    {
        if addr_eq(&entries[i].asset, asset) {
            proof {
                lemma_account_of_first(entries@, asset@, i as int);
            }
            return Some(entries[i].account);
        }
        i = i + 1;
    }
    None
}

/// Look an asset up in an ordered supply mapping; first match wins.
pub fn lookup_supply(supply: &Vec<SupplyEntry>, asset: &Address) -> (r: Option<u64>)
    ensures
        r is Some <==> spec_has_supply(supply@, asset@),
        r matches Some(a) ==> a == spec_supply_of(supply@, asset@),
{
    let n = supply.len();
    let mut i: usize = 0;
    while i < n
        invariant
            i <= n,
            n == supply@.len(),
            forall|j: int| 0 <= j < i ==> supply@[j].asset@ != asset@,
        decreases n - i,
    {
        if addr_eq(&supply[i].asset, asset) {
            proof {
                lemma_supply_of_first(supply@, asset@, i as int);
            }
            return Some(supply[i].amount);
        }
        i = i + 1;
    }
    None
}

/// Decide whether the asset keys of `entries` are pairwise distinct.
pub fn distinct_assets_check(entries: &Vec<AccountEntry>) -> (r: bool)
    ensures
        r == distinct_assets(entries@),
{
    let n = entries.len();
    let mut i: usize = 0;
    while i < n
        invariant
            i <= n,
            n == entries@.len(),
            forall|p: int, q: int| 0 <= p < q < i ==> entries@[p].asset@ != entries@[q].asset@,
        decreases n - i,
    {
        let mut j: usize = 0;
        while j < i
            invariant
                j <= i,
                i < n,
                n == entries@.len(),
                forall|p: int| 0 <= p < j ==> entries@[p].asset@ != entries@[i as int].asset@,
            decreases i - j,
        {
            if addr_eq(&entries[j].asset, &entries[i].asset) {
                proof {
                    assert(entries@[j as int].asset@ == entries@[i as int].asset@);
                    assert(!distinct_assets(entries@));
                }
                return false;
            }
            j = j + 1;
        }
        i = i + 1;
    }
    true
}

/// Decide whether no asset stands on both sides of a transform.
pub fn disjoint_assets_check(inputs: &Vec<AccountEntry>, outputs: &Vec<AccountEntry>) -> (r: bool)
    ensures
        r == disjoint_assets(inputs@, outputs@),
{
    let m = outputs.len();
    let mut j: usize = 0;
    while j < m
        invariant
            j <= m,
            m == outputs@.len(),
            forall|q: int| 0 <= q < j ==> !spec_has_asset(inputs@, outputs@[q].asset@),
        decreases m - j,
    {
        match lookup_account(inputs, &outputs[j].asset) {
            Some(_) => {
                proof {
                    assert(spec_has_asset(inputs@, outputs@[j as int].asset@));
                    let w = choose|i: int|
                        0 <= i < inputs@.len() && inputs@[i].asset@ == outputs@[j as int].asset@;
                    assert(inputs@[w].asset@ == outputs@[j as int].asset@);
                    assert(!disjoint_assets(inputs@, outputs@));
                }
                return false;
            },
            None => {},
        }
        j = j + 1;
    }
    proof {
        assert forall|i: int, q: int|
            0 <= i < inputs@.len() && 0 <= q < outputs@.len() implies inputs@[i].asset@
            != outputs@[q].asset@ by {
            assert(!spec_has_asset(inputs@, outputs@[q].asset@));
        }
    }
    true
}

impl InitializeArgs {
    /// Decide the definition invariant: distinct keys per direction, no
    /// asset on both sides.
    pub fn check_well_formed(&self) -> (r: bool)
        ensures
            r == self.wf(),
    {
        distinct_assets_check(&self.inputs) && distinct_assets_check(&self.outputs)
            && disjoint_assets_check(&self.inputs, &self.outputs)
    }
}

impl Tokenitis {
    /// Decide the persisted-state invariant.
    pub fn check_well_formed(&self) -> (r: bool)
        ensures
            r == self.wf(),
    {
        distinct_assets_check(&self.inputs) && distinct_assets_check(&self.outputs)
            && disjoint_assets_check(&self.inputs, &self.outputs)
    }
}

/// The first asset of `entries`, in iteration order, that `user` holds no
/// account for.
pub open spec fn spec_first_missing(entries: Seq<AccountEntry>, user: Seq<AccountEntry>) -> Option<
    Address,
>
    decreases entries.len(),
{
    if entries.len() == 0 {
        None
    } else if !spec_has_asset(user, entries[0].asset@) {
        Some(entries[0].asset)
    } else {
        spec_first_missing(entries.skip(1), user)
    }
}

/// The first asset of `entries`, in iteration order, that `supply` declares
/// no amount for.
pub open spec fn spec_first_missing_supply(
    entries: Seq<AccountEntry>,
    supply: Seq<SupplyEntry>,
) -> Option<Address>
    decreases entries.len(),
{
    if entries.len() == 0 {
        None
    } else if !spec_has_supply(supply, entries[0].asset@) {
        Some(entries[0].asset)
    } else {
        spec_first_missing_supply(entries.skip(1), supply)
    }
}

/// A prefix with no missing asset stays without one when the next asset is
/// covered.
pub proof fn lemma_first_missing_extend(entries: Seq<AccountEntry>, user: Seq<AccountEntry>, i: int)
    requires
        0 <= i < entries.len(),
        spec_first_missing(entries.take(i), user) is None,
        spec_has_asset(user, entries[i].asset@),
    ensures
        spec_first_missing(entries.take(i + 1), user) is None,
    decreases i,
{
    if i == 0 {
        assert(entries.take(1).skip(1) =~= Seq::<AccountEntry>::empty());
        assert(entries.take(1)[0] == entries[0]);
        assert(spec_first_missing(Seq::<AccountEntry>::empty(), user) is None);
        assert(spec_first_missing(entries.take(1), user) == spec_first_missing(
            entries.take(1).skip(1),
            user,
        ));
    } else {
        assert(entries.take(i)[0] == entries[0]);
        assert(spec_has_asset(user, entries[0].asset@));
        assert(entries.take(i).skip(1) =~= entries.skip(1).take(i - 1));
        assert(entries.skip(1)[i - 1] == entries[i]);
        lemma_first_missing_extend(entries.skip(1), user, i - 1);
        assert(spec_first_missing(entries.skip(1).take(i), user) is None);
        assert(entries.take(i + 1)[0] == entries[0]);
        assert(entries.take(i + 1).skip(1) =~= entries.skip(1).take(i));
        assert(spec_first_missing(entries.take(i + 1), user) == spec_first_missing(
            entries.take(i + 1).skip(1),
            user,
        ));
    }
}

/// When a prefix has no missing asset and the next one is uncovered, it is
/// the first missing asset of the whole mapping.
pub proof fn lemma_first_missing_found(entries: Seq<AccountEntry>, user: Seq<AccountEntry>, i: int)
    requires
        0 <= i < entries.len(),
        spec_first_missing(entries.take(i), user) is None,
        !spec_has_asset(user, entries[i].asset@),
    ensures
        spec_first_missing(entries, user) == Some(entries[i].asset),
    decreases i,
{
    if i > 0 {
        assert(entries.take(i)[0] == entries[0]);
        assert(entries.take(i).skip(1) =~= entries.skip(1).take(i - 1));
        lemma_first_missing_found(entries.skip(1), user, i - 1);
    }
}

/// A prefix with no missing supply stays without one when the next asset is
/// covered.
pub proof fn lemma_first_missing_supply_extend(
    entries: Seq<AccountEntry>,
    supply: Seq<SupplyEntry>,
    i: int,
)
    requires
        0 <= i < entries.len(),
        spec_first_missing_supply(entries.take(i), supply) is None,
        spec_has_supply(supply, entries[i].asset@),
    ensures
        spec_first_missing_supply(entries.take(i + 1), supply) is None,
    decreases i,
{
    if i == 0 {
        assert(entries.take(1).skip(1) =~= Seq::<AccountEntry>::empty());
        assert(entries.take(1)[0] == entries[0]);
        assert(spec_first_missing_supply(Seq::<AccountEntry>::empty(), supply) is None);
        assert(spec_first_missing_supply(entries.take(1), supply) == spec_first_missing_supply(
            entries.take(1).skip(1),
            supply,
        ));
    } else {
        assert(entries.take(i)[0] == entries[0]);
        assert(spec_has_supply(supply, entries[0].asset@));
        assert(entries.take(i).skip(1) =~= entries.skip(1).take(i - 1));
        assert(entries.skip(1)[i - 1] == entries[i]);
        lemma_first_missing_supply_extend(entries.skip(1), supply, i - 1);
        assert(spec_first_missing_supply(entries.skip(1).take(i), supply) is None);
        assert(entries.take(i + 1)[0] == entries[0]);
        assert(entries.take(i + 1).skip(1) =~= entries.skip(1).take(i));
        assert(spec_first_missing_supply(entries.take(i + 1), supply)
            == spec_first_missing_supply(entries.take(i + 1).skip(1), supply));
    }
}

/// When a prefix has no missing supply and the next asset is undeclared, it
/// is the first missing asset of the whole mapping.
pub proof fn lemma_first_missing_supply_found(
    entries: Seq<AccountEntry>,
    supply: Seq<SupplyEntry>,
    i: int,
)
    requires
        0 <= i < entries.len(),
        spec_first_missing_supply(entries.take(i), supply) is None,
        !spec_has_supply(supply, entries[i].asset@),
    ensures
        spec_first_missing_supply(entries, supply) == Some(entries[i].asset),
    decreases i,
{
    if i > 0 {
        assert(entries.take(i)[0] == entries[0]);
        assert(entries.take(i).skip(1) =~= entries.skip(1).take(i - 1));
        lemma_first_missing_supply_found(entries.skip(1), supply, i - 1);
    }
}

/// Width of one serialized (asset id, token account) record of the persisted
/// state.
pub const STATE_ENTRY_LEN: u64 = 64;

/// Width of the serialized header of the persisted state: one length prefix
/// for each of the two mappings.
pub const STATE_HEADER_LEN: u64 = 8;

/// Size of the persisted transform state as a function of the mapping
/// cardinalities alone.
pub open spec fn spec_program_state_len(n_inputs: int, n_outputs: int) -> int {
    STATE_HEADER_LEN + STATE_ENTRY_LEN * (n_inputs + n_outputs)
}

/// Space the account hosting the persisted transform state must be created
/// with; a fixed-width function of the definition's cardinalities.
pub fn program_state_len(args: &InitializeArgs) -> (r: u64)
    requires
        spec_program_state_len(args.inputs@.len() as int, args.outputs@.len() as int)
            <= u64::MAX,
    ensures
        r == spec_program_state_len(args.inputs@.len() as int, args.outputs@.len() as int),
{
    let ni = args.inputs.len() as u64;
    let no = args.outputs.len() as u64;
    STATE_HEADER_LEN + STATE_ENTRY_LEN * ni + STATE_ENTRY_LEN * no
}

/// The fixed seed the program-derived authority is derived from.
pub open spec fn spec_authority_seed() -> Seq<u8> {
    seq![116u8, 111u8, 107u8, 101u8, 110u8, 105u8, 116u8, 105u8, 115u8]
}

/// The fixed seed the program-derived authority is derived from, as bytes.
pub fn authority_seed() -> (r: Vec<u8>)
    ensures
        r@ == spec_authority_seed(),
{
    let mut v: Vec<u8> = Vec::new();
    v.push(116);
    v.push(111);
    v.push(107);
    v.push(101);
    v.push(110);
    v.push(105);
    v.push(116);
    v.push(105);
    v.push(115);
    proof {
        assert(v@ =~= spec_authority_seed());
    }
    v
}

} // verus!
