//! The escrow vault of a collection: it collects either native funds or one
//! fungible token, keeps account of other tokens sent to it, and on
//! withdrawal splits what it collected between the collection's owner, the
//! contract that owns the vault, and the treasury.

use crate::collections::StringMap;
use crate::payout::lists_mapping;
use crate::types::{shares_view, Share};
use vstd::prelude::*;

verus! {

/// The most fungible tokens, beside its own, that a vault keeps account of.
pub const MAX_OWNED_TOKENS: usize = 3;

/// Why a call to the vault was rejected. A rejected call changes nothing.
#[derive(Debug, Clone, Copy, PartialEq, Eq, Structural)]
pub enum VaultError {
    /// The vault collects a token, so it takes no native funds.
    NearDepositsClosed,
    /// Only the contract that owns the vault may withdraw.
    OwnerContractOnly,
    /// An amount does not fit the range of balances.
    ArithmeticOverflow,
    /// Only a transaction signed by the admin may report tokens.
    AdminOnly,
    /// The vault collects no token, so it has none to compare with.
    NoTokenContract,
    /// The token's contract itself signed the report.
    NotCrossContract,
    /// The vault would keep account of more tokens than it may.
    TooManyTokens,
}

/// The vault.
#[derive(Debug)]
pub struct Contract {
    /// The contract that created the vault and may withdraw from it.
    pub owner_contract: String,
    /// The token that the vault collects; native funds where there is none.
    pub ft_contract: Option<String>,
    /// What the vault has collected.
    pub amount: u128,
    pub treasury: String,
    /// The balances of the other tokens sent to the vault, by token contract.
    pub owned_fts: StringMap<u128>,
    pub admin: String,
}

/// What a vault holds, as plain mathematical values.
pub ghost struct VaultView {
    pub owner_contract: Seq<char>,
    pub ft_contract: Option<Seq<char>>,
    pub amount: u128,
    pub treasury: Seq<char>,
    pub owned_fts: Map<Seq<char>, u128>,
    pub admin: Seq<char>,
}

impl View for Contract {
    type V = VaultView;

    open spec fn view(&self) -> VaultView {
        VaultView {
            owner_contract: self.owner_contract@,
            ft_contract: match self.ft_contract {
                Some(id) => Some(id@),
                None => None,
            },
            amount: self.amount,
            treasury: self.treasury@,
            owned_fts: self.owned_fts@,
            admin: self.admin@,
        }
    }
}

/// How a withdrawal splits what the vault collected.
#[derive(Debug, PartialEq, Eq)]
pub struct Withdrawal {
    /// The part of the collection's owner.
    pub to_owner: u128,
    /// The part of the contract that owns the vault.
    pub to_owner_contract: u128,
    /// The part of the treasury.
    pub to_treasury: u128,
    /// The other tokens that go to the collection's owner: each token's
    /// contract with the balance held.
    pub owned: Vec<Share>,
}

/// The parts of a withdrawal of `amount` at a fee of `burn_fee` percent: the
/// fee, rounded down, is halved between the owning contract and the
/// treasury, and the owner gets the rest. There is no split where the
/// product does not fit the range of balances or the fee is more than the
/// amount.
pub open spec fn withdrawal_parts(amount: u128, burn_fee: u128) -> Option<(u128, u128, u128)> {
    let fee = amount * burn_fee / 100;
    if amount * burn_fee > u128::MAX || fee > amount {
        None
    } else {
        Some(((amount - fee) as u128, (fee / 2) as u128, (fee / 2) as u128))
    }
}

/// Works out the parts of a withdrawal.
pub fn split_withdrawal(amount: u128, burn_fee: u128) -> (parts: Option<(u128, u128, u128)>)
    ensures
        parts == withdrawal_parts(amount, burn_fee),
{
    match amount.checked_mul(burn_fee) {
        Some(product) => {
            let fee: u128 = product / 100;
            if fee > amount {
                None
            } else {
                Some((amount - fee, fee / 2, fee / 2))
            }
        },
        None => None,
    }
}

/// The balance of another token that the vault keeps on account.
pub open spec fn balance_held(state: VaultView, token: Seq<char>) -> u128 {
    if state.owned_fts.contains_key(token) {
        state.owned_fts[token]
    } else {
        0
    }
}

/// Why a report of tokens received is refused, if it is: it must belong to a
/// transaction that the admin signed, the vault's own token must not have
/// signed it itself, and the vault keeps account of no more than three other
/// tokens.
pub open spec fn receipt_rejection(
    state: VaultView,
    token: Seq<char>,
    signer: Seq<char>,
    amount: u128,
) -> Option<VaultError> {
    if signer != state.admin {
        Some(VaultError::AdminOnly)
    } else if state.ft_contract.is_none() {
        Some(VaultError::NoTokenContract)
    } else if token == state.ft_contract.unwrap() {
        if token == signer {
            Some(VaultError::NotCrossContract)
        } else if state.amount + amount > u128::MAX {
            Some(VaultError::ArithmeticOverflow)
        } else {
            None
        }
    } else if balance_held(state, token) + amount > u128::MAX {
        Some(VaultError::ArithmeticOverflow)
    } else if state.owned_fts.dom().len() + (if state.owned_fts.contains_key(token) {
        0nat
    } else {
        1nat
    }) > 3 {
        Some(VaultError::TooManyTokens)
    } else {
        None
    }
}

/// The vault after a report of tokens received: the vault's own token adds
/// to what it collected, any other adds to that token's balance.
pub open spec fn after_receipt(state: VaultView, token: Seq<char>, amount: u128) -> VaultView {
    if Some(token) == state.ft_contract {
        VaultView { amount: (state.amount + amount) as u128, ..state }
    } else {
        VaultView {
            owned_fts: state.owned_fts.insert(token, (balance_held(state, token) + amount) as u128),
            ..state
        }
    }
}

impl Contract {
    /// An empty vault owned by `owner_contract`.
    pub fn init(
        owner_contract: String,
        ft_contract: Option<String>,
        treasury: String,
        admin: String,
    ) -> (vault: Self)
        ensures
            vault@ == (VaultView {
                owner_contract: owner_contract@,
                ft_contract: match ft_contract {
                    Some(id) => Some(id@),
                    None => None,
                },
                amount: 0,
                treasury: treasury@,
                owned_fts: Map::empty(),
                admin: admin@,
            }),
    {
        Contract { owner_contract, ft_contract, amount: 0, treasury, owned_fts: StringMap::new(), admin }
    }

    /// Adds native funds to what the vault has collected.
    pub fn deposit_near(&mut self, attached_deposit: u128) -> (result: Result<(), VaultError>)
        ensures
            match result {
                Ok(_) => old(self)@.ft_contract.is_none() && old(self)@.amount + attached_deposit
                    <= u128::MAX && final(self)@ == (VaultView {
                    amount: (old(self)@.amount + attached_deposit) as u128,
                    ..old(self)@
                }),
                Err(e) => final(self)@ == old(self)@ && e == (if old(self)@.ft_contract.is_some() {
                    VaultError::NearDepositsClosed
                } else {
                    VaultError::ArithmeticOverflow
                }) && (old(self)@.ft_contract.is_some() || old(self)@.amount + attached_deposit
                    > u128::MAX),
            },
    {
        if self.ft_contract.is_some() {
            return Err(VaultError::NearDepositsClosed);
        }
        match self.amount.checked_add(attached_deposit) {
            Some(total) => {
                self.amount = total;
                Ok(())
            },
            None => Err(VaultError::ArithmeticOverflow),
        }
    }

    /// Empties the vault: splits what it collected and lists the other
    /// tokens it holds, which keep their balances on account.
    pub fn withdraw(&mut self, predecessor_id: &String, burn_fee: u128) -> (result: Result<
        Withdrawal,
        VaultError,
    >)
        ensures
            match result {
                Ok(out) => {
                    &&& predecessor_id@ == old(self)@.owner_contract
                    &&& withdrawal_parts(old(self)@.amount, burn_fee) == Some(
                        (out.to_owner, out.to_owner_contract, out.to_treasury),
                    )
                    &&& lists_mapping(shares_view(out.owned@), old(self)@.owned_fts)
                    &&& final(self)@ == (VaultView { amount: 0, ..old(self)@ })
                },
                Err(e) => final(self)@ == old(self)@ && (if predecessor_id@ != old(
                    self,
                )@.owner_contract {
                    e == VaultError::OwnerContractOnly
                } else {
                    e == VaultError::ArithmeticOverflow && withdrawal_parts(
                        old(self)@.amount,
                        burn_fee,
                    ).is_none()
                }),
            },
    {
        if !(*predecessor_id == self.owner_contract) {
            return Err(VaultError::OwnerContractOnly);
        }
        let (to_owner, to_owner_contract, to_treasury): (u128, u128, u128) = match split_withdrawal(
            self.amount,
            burn_fee,
        ) {
            Some(parts) => parts,
            None => {
                return Err(VaultError::ArithmeticOverflow);
            },
        };
        let tokens: Vec<String> = self.owned_fts.keys();
        let mut owned: Vec<Share> = Vec::new();
        let mut i: usize = 0;
        while i < tokens.len()
            invariant
                i <= tokens.len(),
                owned.len() == i,
                crate::collections::texts(tokens@).to_set() == self.owned_fts@.dom(),
                forall|j: int|
                    0 <= j < i ==> (#[trigger] owned[j]).account_id@ == tokens[j]@
                        && self.owned_fts@.contains_key(tokens[j]@) && owned[j].amount
                        == self.owned_fts@[tokens[j]@],
            decreases tokens.len() - i,
        {
            proof {
                assert(crate::collections::texts(tokens@)[i as int] == tokens[i as int]@);
                assert(crate::collections::texts(tokens@).to_set().contains(tokens[i as int]@));
            }
            let held: u128 = match self.owned_fts.get(&tokens[i]) {
                Some(balance) => *balance,
                None => 0,
            };
            owned.push(Share { account_id: tokens[i].clone(), amount: held });
            i = i + 1;
        }
        proof {
            let listed = shares_view(owned@);
            let names = crate::collections::texts(tokens@);
            assert forall|a: int, b: int| 0 <= a < b < listed.len() implies (#[trigger] listed[a]).account_id
                != (#[trigger] listed[b]).account_id by {
                assert(names[a] == listed[a].account_id && names[b] == listed[b].account_id);
            }
            assert forall|k: Seq<char>| #[trigger]
                self.owned_fts@.contains_key(k) implies exists|j: int|
                0 <= j < listed.len() && (#[trigger] listed[j]).account_id == k by {
                assert(names.to_set().contains(k));
                let j: int = choose|j: int| 0 <= j < names.len() && names[j] == k;
                assert(listed[j].account_id == k);
            }
        }
        self.amount = 0;
        Ok(Withdrawal { to_owner, to_owner_contract, to_treasury, owned })
    }

    /// Takes a token contract's report that tokens were sent to the vault,
    /// and says how many of them the vault gives back: none.
    pub fn ft_on_transfer(&mut self, predecessor_id: &String, signer_id: &String, amount: u128) -> (result:
        Result<u128, VaultError>)
        ensures
            match result {
                Ok(unused) => {
                    &&& unused == 0
                    &&& receipt_rejection(old(self)@, predecessor_id@, signer_id@, amount).is_none()
                    &&& final(self)@ == after_receipt(old(self)@, predecessor_id@, amount)
                },
                Err(e) => receipt_rejection(old(self)@, predecessor_id@, signer_id@, amount) == Some(
                    e,
                ) && final(self)@ == old(self)@,
            },
    {
        if !(*signer_id == self.admin) {
            return Err(VaultError::AdminOnly);
        }
        let own: bool = match &self.ft_contract {
            Some(token) => *predecessor_id == *token,
            None => {
                return Err(VaultError::NoTokenContract);
            },
        };
        if own {
            if *predecessor_id == *signer_id {
                return Err(VaultError::NotCrossContract);
            }
            match self.amount.checked_add(amount) {
                Some(total) => {
                    self.amount = total;
                },
                None => {
                    return Err(VaultError::ArithmeticOverflow);
                },
            }
        } else {
            let count: usize = self.owned_fts.len();
            let (held, known): (u128, bool) = match self.owned_fts.get(predecessor_id) {
                Some(balance) => (*balance, true),
                None => (0, false),
            };
            let total: u128 = match held.checked_add(amount) {
                Some(total) => total,
                None => {
                    return Err(VaultError::ArithmeticOverflow);
                },
            };
            if count > MAX_OWNED_TOKENS || (!known && count == MAX_OWNED_TOKENS) {
                return Err(VaultError::TooManyTokens);
            }
            self.owned_fts.insert(predecessor_id.clone(), total);
        }
        Ok(0)
    }
}

} // verus!
