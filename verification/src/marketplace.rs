//! The marketplace's state: its settings, the registry of listings with the
//! index of each seller's listings, and the balances that sellers have
//! prepaid for storage.

use crate::collections::{texts, StringMap, StringSet};
use crate::events::Effects;
use crate::listing::{listing_key, quote_price, quoted_price};
use crate::types::{
    CallContext, ListingView, MarketData, MarketDataJson, MarketError, MarketplaceConfig,
    STORAGE_ADD_MARKET_DATA,
};
use vstd::prelude::*;

verus! {

/// The marketplace.
#[derive(Debug)]
pub struct Marketplace {
    /// The account that may change the settings.
    pub owner_id: String,
    /// The account that receives the fees.
    pub treasury_id: String,
    /// The asset contracts whose items may be listed.
    pub approved_nft_contract_ids: StringSet,
    /// The balance that each seller has prepaid for storage.
    pub storage_deposits: StringMap<u128>,
    /// The treasury's share of each sale, in parts per ten thousand.
    pub transaction_fee: u16,
    /// For each seller, the keys of their listings.
    pub by_owner_id: StringMap<StringSet>,
    /// The listings, by key.
    pub market: StringMap<MarketData>,
}

/// What a [`Marketplace`] holds, as plain mathematical values.
pub ghost struct MarketplaceView {
    pub owner_id: Seq<char>,
    pub treasury_id: Seq<char>,
    pub approved_nft_contract_ids: Set<Seq<char>>,
    pub storage_deposits: Map<Seq<char>, u128>,
    pub transaction_fee: u16,
    pub by_owner_id: Map<Seq<char>, Set<Seq<char>>>,
    pub market: Map<Seq<char>, ListingView>,
}

/// The views of the listings of a registry.
pub open spec fn listings_view(market: Map<Seq<char>, MarketData>) -> Map<Seq<char>, ListingView> {
    market.map_values(|d: MarketData| d@)
}

/// The views of the key sets of an index.
pub open spec fn index_view(index: Map<Seq<char>, StringSet>) -> Map<Seq<char>, Set<Seq<char>>> {
    index.map_values(|s: StringSet| s@)
}

impl View for Marketplace {
    type V = MarketplaceView;

    open spec fn view(&self) -> MarketplaceView {
        MarketplaceView {
            owner_id: self.owner_id@,
            treasury_id: self.treasury_id@,
            approved_nft_contract_ids: self.approved_nft_contract_ids@,
            storage_deposits: self.storage_deposits@,
            transaction_fee: self.transaction_fee,
            by_owner_id: index_view(self.by_owner_id@),
            market: listings_view(self.market@),
        }
    }
}

/// The number of listings that the index holds for `account`.
pub open spec fn supply_of(index: Map<Seq<char>, Set<Seq<char>>>, account: Seq<char>) -> nat {
    if index.contains_key(account) {
        index[account].len()
    } else {
        0
    }
}

/// The balance that `account` has prepaid for storage.
pub open spec fn balance_of(deposits: Map<Seq<char>, u128>, account: Seq<char>) -> u128 {
    if deposits.contains_key(account) {
        deposits[account]
    } else {
        0
    }
}

/// The index with `key` added to the listings of `owner`.
pub open spec fn index_with(
    index: Map<Seq<char>, Set<Seq<char>>>,
    owner: Seq<char>,
    key: Seq<char>,
) -> Map<Seq<char>, Set<Seq<char>>> {
    if index.contains_key(owner) {
        index.insert(owner, index[owner].insert(key))
    } else {
        index.insert(owner, Set::<Seq<char>>::empty().insert(key))
    }
}

/// The index with `key` taken out of the listings of `owner`; an owner whose
/// last listing leaves is taken out of the index.
pub open spec fn index_without(
    index: Map<Seq<char>, Set<Seq<char>>>,
    owner: Seq<char>,
    key: Seq<char>,
) -> Map<Seq<char>, Set<Seq<char>>> {
    if index.contains_key(owner) {
        if index[owner].remove(key) == Set::<Seq<char>>::empty() {
            index.remove(owner)
        } else {
            index.insert(owner, index[owner].remove(key))
        }
    } else {
        index
    }
}

/// The marketplace without the listing under `key`: the listing leaves the
/// registry and its seller's index together.
pub open spec fn registry_without(state: MarketplaceView, key: Seq<char>) -> MarketplaceView {
    if state.market.contains_key(key) {
        MarketplaceView {
            market: state.market.remove(key),
            by_owner_id: index_without(state.by_owner_id, state.market[key].owner_id, key),
            ..state
        }
    } else {
        state
    }
}

/// The marketplace with `listing` filed under `key` and indexed under its
/// seller. What stood under the key before leaves first, out of the registry
/// and out of its own seller's index.
pub open spec fn registry_with(
    state: MarketplaceView,
    key: Seq<char>,
    listing: ListingView,
) -> MarketplaceView {
    let cleared = registry_without(state, key);
    MarketplaceView {
        market: cleared.market.insert(key, listing),
        by_owner_id: index_with(cleared.by_owner_id, listing.owner_id, key),
        ..cleared
    }
}

/// The marketplace with the listing under `key` replaced by one of the same
/// seller; the index stays as it is.
pub open spec fn registry_updated(
    state: MarketplaceView,
    key: Seq<char>,
    listing: ListingView,
) -> MarketplaceView {
    MarketplaceView { market: state.market.insert(key, listing), ..state }
}

/// Whether the seller index agrees with the registry: every key in the
/// index is the key of a listing of that seller, every listing is indexed
/// under its seller, and no seller is indexed with nothing.
pub open spec fn registry_ok(state: MarketplaceView) -> bool {
    &&& forall|owner: Seq<char>, key: Seq<char>|
        state.by_owner_id.contains_key(owner) && #[trigger] state.by_owner_id[owner].contains(key)
            ==> state.market.contains_key(key) && state.market[key].owner_id == owner
    &&& forall|key: Seq<char>| #[trigger]
        state.market.contains_key(key) ==> state.by_owner_id.contains_key(
            state.market[key].owner_id,
        ) && state.by_owner_id[state.market[key].owner_id].contains(key)
    &&& forall|owner: Seq<char>| #[trigger]
        state.by_owner_id.contains_key(owner) ==> state.by_owner_id[owner] != Set::<
            Seq<char>,
        >::empty()
}

/// Removing a listing keeps the index in agreement with the registry.
pub proof fn lemma_without_keeps_registry_ok(state: MarketplaceView, key: Seq<char>)
    requires
        registry_ok(state),
    ensures
        registry_ok(registry_without(state, key)),
{
    if state.market.contains_key(key) {
        let seller = state.market[key].owner_id;
        let after = registry_without(state, key);
        let rest = state.by_owner_id[seller].remove(key);
        assert(state.by_owner_id.contains_key(seller) && state.by_owner_id[seller].contains(key));
        assert forall|owner: Seq<char>, k: Seq<char>|
            after.by_owner_id.contains_key(owner) && #[trigger] after.by_owner_id[owner].contains(
                k,
            ) implies after.market.contains_key(k) && after.market[k].owner_id == owner by {
            assert(state.by_owner_id.contains_key(owner) && state.by_owner_id[owner].contains(k));
        }
        assert forall|k: Seq<char>| #[trigger] after.market.contains_key(k) implies after.by_owner_id.contains_key(
            after.market[k].owner_id) && after.by_owner_id[after.market[k].owner_id].contains(k) by {
            assert(state.market.contains_key(k));
            if state.market[k].owner_id == seller {
                assert(rest.contains(k));
                assert(rest != Set::<Seq<char>>::empty());
            }
        }
        assert forall|owner: Seq<char>| #[trigger]
            after.by_owner_id.contains_key(owner) implies after.by_owner_id[owner] != Set::<
            Seq<char>,
        >::empty() by {
            assert(state.by_owner_id.contains_key(owner));
        }
    }
}

/// Filing a listing keeps the index in agreement with the registry.
pub proof fn lemma_with_keeps_registry_ok(
    state: MarketplaceView,
    key: Seq<char>,
    listing: ListingView,
)
    requires
        registry_ok(state),
    ensures
        registry_ok(registry_with(state, key, listing)),
{
    lemma_without_keeps_registry_ok(state, key);
    let cleared = registry_without(state, key);
    let after = registry_with(state, key, listing);
    let seller = listing.owner_id;
    assert(!cleared.market.contains_key(key));
    assert(after.by_owner_id.contains_key(seller) && after.by_owner_id[seller].contains(key));
    assert forall|owner: Seq<char>, k: Seq<char>|
        after.by_owner_id.contains_key(owner) && #[trigger] after.by_owner_id[owner].contains(
            k,
        ) implies after.market.contains_key(k) && after.market[k].owner_id == owner by {
        if k != key || owner != seller {
            assert(cleared.by_owner_id.contains_key(owner) && cleared.by_owner_id[owner].contains(
                k,
            ));
        }
    }
    assert forall|k: Seq<char>| #[trigger] after.market.contains_key(k) implies after.by_owner_id.contains_key(
        after.market[k].owner_id) && after.by_owner_id[after.market[k].owner_id].contains(k) by {
        if k != key {
            assert(cleared.market.contains_key(k));
        }
    }
    assert forall|owner: Seq<char>| #[trigger]
        after.by_owner_id.contains_key(owner) implies after.by_owner_id[owner] != Set::<
        Seq<char>,
    >::empty() by {
        if owner != seller {
            assert(cleared.by_owner_id.contains_key(owner));
        }
    }
}

/// Replacing a listing by one of the same seller keeps the index in
/// agreement with the registry.
pub proof fn lemma_update_keeps_registry_ok(
    state: MarketplaceView,
    key: Seq<char>,
    listing: ListingView,
)
    requires
        registry_ok(state),
        state.market.contains_key(key),
        state.market[key].owner_id == listing.owner_id,
    ensures
        registry_ok(registry_updated(state, key, listing)),
{
    let after = registry_updated(state, key, listing);
    assert forall|owner: Seq<char>, k: Seq<char>|
        after.by_owner_id.contains_key(owner) && #[trigger] after.by_owner_id[owner].contains(
            k,
        ) implies after.market.contains_key(k) && after.market[k].owner_id == owner by {
        assert(state.by_owner_id.contains_key(owner) && state.by_owner_id[owner].contains(k));
    }
    assert forall|k: Seq<char>| #[trigger] after.market.contains_key(k) implies after.by_owner_id.contains_key(
        after.market[k].owner_id) && after.by_owner_id[after.market[k].owner_id].contains(k) by {
        assert(state.market.contains_key(k));
    }
}

/// Removing a listing undoes filing it: where the index agrees with the
/// registry and nothing stood under the key, the marketplace is again what
/// it was.
pub proof fn lemma_removing_undoes_adding(
    state: MarketplaceView,
    key: Seq<char>,
    listing: ListingView,
)
    requires
        registry_ok(state),
        !state.market.contains_key(key),
    ensures
        registry_without(registry_with(state, key, listing), key) == state,
{
    let filed = registry_with(state, key, listing);
    let back = registry_without(filed, key);
    let seller = listing.owner_id;
    assert(back.market =~= state.market);
    if state.by_owner_id.contains_key(seller) {
        assert(!state.by_owner_id[seller].contains(key));
        assert(state.by_owner_id[seller].insert(key).remove(key) =~= state.by_owner_id[seller]);
    } else {
        assert(Set::<Seq<char>>::empty().insert(key).remove(key) =~= Set::<Seq<char>>::empty());
    }
    assert(back.by_owner_id =~= state.by_owner_id);
}

/// Once a listing has been removed, nothing stands under its key, whatever
/// is done to the settings and balances afterwards.
pub proof fn lemma_removed_listing_is_absent(state: MarketplaceView, key: Seq<char>)
    ensures
        !registry_without(state, key).market.contains_key(key),
        forall|other: Seq<char>|
            other != key ==> (#[trigger] registry_without(state, key).market.contains_key(other)
                <==> state.market.contains_key(other)),
{
}

/// Why a change of the settings is refused, if it is: it must carry exactly
/// one indivisible unit of funds and come from the owner.
pub open spec fn admin_rejection(
    state: MarketplaceView,
    predecessor: Seq<char>,
    attached: u128,
) -> Option<MarketError> {
    if attached != 1 {
        Some(MarketError::RequiresOneYocto)
    } else if predecessor != state.owner_id {
        Some(MarketError::OwnerOnly)
    } else {
        None
    }
}

/// Adds each of `accounts` to `set`.
pub fn add_accounts(accounts: Option<Vec<String>>, set: &mut StringSet)
    ensures
        final(set)@ == match accounts {
            Some(ids) => old(set)@.union(texts(ids@).to_set()),
            None => old(set)@,
        },
{
    if let Some(ids) = accounts {
        let mut i: usize = 0;
        assert(texts(ids@).take(0).to_set() =~= Set::<Seq<char>>::empty());
        assert(set@ =~= old(set)@.union(texts(ids@).take(0).to_set()));
        while i < ids.len()
            invariant
                i <= ids.len(),
                set@ == old(set)@.union(texts(ids@).take(i as int).to_set()),
            decreases ids.len() - i,
        {
            let ghost seen = texts(ids@).take(i as int);
            set.insert(ids[i].clone());
            proof {
                assert(texts(ids@).take(i + 1) =~= seen.push(ids[i as int]@));
                seen.lemma_push_to_set_commute(ids[i as int]@);
                assert(set@ =~= old(set)@.union(texts(ids@).take(i + 1).to_set()));
            }
            i = i + 1;
        }
        assert(texts(ids@).take(ids.len() as int) =~= texts(ids@));
    }
}

/// Takes each of `accounts` out of `set`.
pub fn remove_accounts(accounts: Option<Vec<String>>, set: &mut StringSet)
    ensures
        final(set)@ == match accounts {
            Some(ids) => old(set)@.difference(texts(ids@).to_set()),
            None => old(set)@,
        },
{
    if let Some(ids) = accounts {
        let mut i: usize = 0;
        assert(texts(ids@).take(0).to_set() =~= Set::<Seq<char>>::empty());
        assert(set@ =~= old(set)@.difference(texts(ids@).take(0).to_set()));
        while i < ids.len()
            invariant
                i <= ids.len(),
                set@ == old(set)@.difference(texts(ids@).take(i as int).to_set()),
            decreases ids.len() - i,
        {
            let ghost seen = texts(ids@).take(i as int);
            set.remove(&ids[i]);
            proof {
                assert(texts(ids@).take(i + 1) =~= seen.push(ids[i as int]@));
                seen.lemma_push_to_set_commute(ids[i as int]@);
                assert(set@ =~= old(set)@.difference(texts(ids@).take(i + 1).to_set()));
            }
            i = i + 1;
        }
        assert(texts(ids@).take(ids.len() as int) =~= texts(ids@));
    }
}

/// The effects of a call that asks nothing of its caller.
pub fn no_effects() -> (effects: Effects)
    ensures
        effects@ == (crate::events::EffectsView {
            transfers: Seq::empty(),
            events: Seq::empty(),
            purchase: None,
        }),
{
    let effects = Effects { transfers: Vec::new(), events: Vec::new(), purchase: None };
    assert(effects@.transfers =~= Seq::empty());
    assert(effects@.events =~= Seq::empty());
    effects
}

impl Marketplace {
    /// A marketplace without listings or balances.
    pub fn new(
        owner_id: String,
        treasury_id: String,
        approved_nft_contract_ids: Option<Vec<String>>,
        current_fee: u16,
    ) -> (this: Self)
        ensures
            registry_ok(this@),
            this@ == (MarketplaceView {
                owner_id: owner_id@,
                treasury_id: treasury_id@,
                approved_nft_contract_ids: match approved_nft_contract_ids {
                    Some(ids) => texts(ids@).to_set(),
                    None => Set::empty(),
                },
                storage_deposits: Map::empty(),
                transaction_fee: current_fee,
                by_owner_id: Map::empty(),
                market: Map::empty(),
            }),
    {
        let mut approved = StringSet::new();
        add_accounts(approved_nft_contract_ids, &mut approved);
        let this = Marketplace {
            transaction_fee: current_fee,
            owner_id,
            treasury_id,
            storage_deposits: StringMap::new(),
            by_owner_id: StringMap::new(),
            approved_nft_contract_ids: approved,
            market: StringMap::new(),
        };
        proof {
            assert(this@.by_owner_id =~= Map::empty());
            assert(this@.market =~= Map::empty());
            assert(this@.approved_nft_contract_ids =~= match approved_nft_contract_ids {
                Some(ids) => texts(ids@).to_set(),
                None => Set::empty(),
            });
        }
        this
    }

    /// Checks that a change of the settings carries one indivisible unit of
    /// funds and comes from the owner.
    fn assert_owner(&self, ctx: &CallContext) -> (result: Result<(), MarketError>)
        ensures
            result == (match admin_rejection(self@, ctx.predecessor_id@, ctx.attached_deposit) {
                Some(e) => Err::<(), MarketError>(e),
                None => Ok(()),
            }),
    {
        if ctx.attached_deposit != 1 {
            Err(MarketError::RequiresOneYocto)
        } else if !(ctx.predecessor_id == self.owner_id) {
            Err(MarketError::OwnerOnly)
        } else {
            Ok(())
        }
    }

    /// Names the account that receives the fees.
    pub fn set_treasury(&mut self, ctx: &CallContext, treasury_id: String) -> (result: Result<
        (),
        MarketError,
    >)
        ensures
            registry_ok(old(self)@) ==> registry_ok(final(self)@),
            result == (match admin_rejection(
                old(self)@,
                ctx.predecessor_id@,
                ctx.attached_deposit,
            ) {
                Some(e) => Err::<(), MarketError>(e),
                None => Ok(()),
            }),
            final(self)@ == (if result.is_ok() {
                MarketplaceView { treasury_id: treasury_id@, ..old(self)@ }
            } else {
                old(self)@
            }),
    {
        self.assert_owner(ctx)?;
        self.treasury_id = treasury_id;
        Ok(())
    }

    /// Sets the treasury's share of each sale, in parts per ten thousand.
    pub fn set_transaction_fee(&mut self, ctx: &CallContext, fee: u16) -> (result: Result<
        (),
        MarketError,
    >)
        ensures
            registry_ok(old(self)@) ==> registry_ok(final(self)@),
            result == (match admin_rejection(
                old(self)@,
                ctx.predecessor_id@,
                ctx.attached_deposit,
            ) {
                Some(e) => Err::<(), MarketError>(e),
                None => Ok(()),
            }),
            final(self)@ == (if result.is_ok() {
                MarketplaceView { transaction_fee: fee, ..old(self)@ }
            } else {
                old(self)@
            }),
    {
        self.assert_owner(ctx)?;
        self.transaction_fee = fee;
        Ok(())
    }

    /// Hands the marketplace to a new owner.
    pub fn transfer_ownership(&mut self, ctx: &CallContext, owner_id: String) -> (result: Result<
        (),
        MarketError,
    >)
        ensures
            registry_ok(old(self)@) ==> registry_ok(final(self)@),
            result == (match admin_rejection(
                old(self)@,
                ctx.predecessor_id@,
                ctx.attached_deposit,
            ) {
                Some(e) => Err::<(), MarketError>(e),
                None => Ok(()),
            }),
            final(self)@ == (if result.is_ok() {
                MarketplaceView { owner_id: owner_id@, ..old(self)@ }
            } else {
                old(self)@
            }),
    {
        self.assert_owner(ctx)?;
        self.owner_id = owner_id;
        Ok(())
    }

    /// Puts asset contracts on the allow-list.
    pub fn add_approved_nft_contract_ids(
        &mut self,
        ctx: &CallContext,
        nft_contract_ids: Vec<String>,
    ) -> (result: Result<(), MarketError>)
        ensures
            registry_ok(old(self)@) ==> registry_ok(final(self)@),
            result == (match admin_rejection(
                old(self)@,
                ctx.predecessor_id@,
                ctx.attached_deposit,
            ) {
                Some(e) => Err::<(), MarketError>(e),
                None => Ok(()),
            }),
            final(self)@ == (if result.is_ok() {
                MarketplaceView {
                    approved_nft_contract_ids: old(self)@.approved_nft_contract_ids.union(
                        texts(nft_contract_ids@).to_set(),
                    ),
                    ..old(self)@
                }
            } else {
                old(self)@
            }),
    {
        self.assert_owner(ctx)?;
        add_accounts(Some(nft_contract_ids), &mut self.approved_nft_contract_ids);
        Ok(())
    }

    /// Takes asset contracts off the allow-list.
    pub fn remove_approved_nft_contract_ids(
        &mut self,
        ctx: &CallContext,
        nft_contract_ids: Vec<String>,
    ) -> (result: Result<(), MarketError>)
        ensures
            registry_ok(old(self)@) ==> registry_ok(final(self)@),
            result == (match admin_rejection(
                old(self)@,
                ctx.predecessor_id@,
                ctx.attached_deposit,
            ) {
                Some(e) => Err::<(), MarketError>(e),
                None => Ok(()),
            }),
            final(self)@ == (if result.is_ok() {
                MarketplaceView {
                    approved_nft_contract_ids: old(self)@.approved_nft_contract_ids.difference(
                        texts(nft_contract_ids@).to_set(),
                    ),
                    ..old(self)@
                }
            } else {
                old(self)@
            }),
    {
        self.assert_owner(ctx)?;
        remove_accounts(Some(nft_contract_ids), &mut self.approved_nft_contract_ids);
        Ok(())
    }

    /// The settings.
    pub fn get_config(&self) -> (config: MarketplaceConfig)
        ensures
            config.owner_id@ == self@.owner_id,
            config.treasury_id@ == self@.treasury_id,
            config.transaction_fee == self@.transaction_fee,
    {
        MarketplaceConfig {
            owner_id: self.owner_id.clone(),
            treasury_id: self.treasury_id.clone(),
            transaction_fee: self.transaction_fee,
        }
    }

    /// The asset contracts on the allow-list, each once.
    pub fn approved_nft_contract_ids(&self) -> (ids: Vec<String>)
        ensures
            texts(ids@).no_duplicates(),
            texts(ids@).to_set() == self@.approved_nft_contract_ids,
    {
        self.approved_nft_contract_ids.to_vec()
    }

    /// The balance that a seller must have prepaid for each listing.
    pub fn storage_minimum_balance(&self) -> (balance: u128)
        ensures
            balance == STORAGE_ADD_MARKET_DATA,
    {
        STORAGE_ADD_MARKET_DATA
    }

    /// The number of listings that the index holds for `account_id`.
    pub fn get_supply_by_owner_id(&self, account_id: String) -> (supply: u64)
        ensures
            supply == supply_of(self@.by_owner_id, account_id@),
    {
        match self.by_owner_id.get(&account_id) {
            Some(keys) => keys.len() as u64,
            None => 0,
        }
    }

    /// The listing of item `token_id` of contract `nft_contract_id`, with the
    /// price that it asks at time `now`.
    pub fn get_market_data(self, nft_contract_id: String, token_id: String, now: u64) -> (result:
        Result<MarketDataJson, MarketError>)
        ensures
            ({
                let key = crate::listing::key_of(nft_contract_id@, token_id@);
                match result {
                    Ok(shown) => {
                        &&& self@.market.contains_key(key)
                        &&& quoted_price(self@.market[key], now) == Ok::<u128, MarketError>(
                            shown@.price,
                        )
                        &&& shown@ == (ListingView { price: shown@.price, ..self@.market[key] })
                    },
                    Err(e) => if self@.market.contains_key(key) {
                        quoted_price(self@.market[key], now) == Err::<u128, MarketError>(e)
                    } else {
                        e == MarketError::ListingNotFound
                    },
                }
            }),
    {
        let key: String = listing_key(&nft_contract_id, &token_id);
        let listing: &MarketData = match self.market.get(&key) {
            Some(listing) => listing,
            None => {
                return Err(MarketError::ListingNotFound);
            },
        };
        let price: u128 = quote_price(listing, now)?;
        let copy: MarketData = listing.clone();
        Ok(
            MarketDataJson {
                owner_id: copy.owner_id,
                approval_id: copy.approval_id,
                nft_contract_id: copy.nft_contract_id,
                token_id: copy.token_id,
                price,
                bids: copy.bids,
                started_at: copy.started_at,
                ended_at: copy.ended_at,
                end_price: copy.end_price,
                is_auction: copy.is_auction,
            },
        )
    }
}

} // verus!
