//! The launchpad that deploys a collection's contract: its settings, and the
//! account of what a launch costs and where the new contract is to live.

use vstd::prelude::*;
use vstd::string::StringExecFns;

verus! {

/// The balance that a new collection's contract needs beside the cost of
/// storing its code.
pub const NFT_CONTRACT_STORAGE: u128 = 30_000_000_000_000_000_000_000;

/// Why a call to the launchpad was rejected. A rejected call changes nothing.
#[derive(Debug, Clone, Copy, PartialEq, Eq, Structural)]
pub enum LaunchError {
    /// The call must carry exactly one indivisible unit of funds.
    RequiresOneYocto,
    /// Only the admin may change the settings.
    AdminOnly,
    /// An amount does not fit its range.
    ArithmeticOverflow,
    /// The attached funds do not cover the new contract's storage.
    InsufficientDeposit,
    /// Burn fee and payment split together reach the whole.
    InvalidSplit,
    /// The name of the new contract's account is no account name.
    InvalidAccountId,
}

/// The launchpad's settings, as shown to a reader.
#[derive(Debug, PartialEq, Eq)]
pub struct ConfigInfo {
    pub treasury: String,
    pub admin: String,
}

/// The launchpad.
#[derive(Debug, PartialEq, Eq)]
pub struct Contract {
    pub treasury: String,
    pub admin: String,
}

/// A launch that has been accounted for.
#[derive(Debug, PartialEq, Eq)]
pub struct Launch {
    /// The account of the new collection's contract.
    pub nft_contract_id: String,
    /// The funds that the new account is created with.
    pub minimum_needed: u128,
    /// What is handed back to the caller, where it is worth handing back.
    pub refund: Option<u128>,
}

/// Whether a character may stand in an account name as a letter or digit.
pub open spec fn is_name_char(c: char) -> bool {
    ('a' <= c && c <= 'z') || ('0' <= c && c <= '9')
}

/// Whether a character separates the parts of an account name.
pub open spec fn is_separator(c: char) -> bool {
    c == '-' || c == '_' || c == '.'
}

/// Whether `name` is the name of an account: two to sixty-four characters,
/// each a lower-case letter, a digit or a separator, with no separator at
/// either end and no two separators side by side.
pub open spec fn account_id_valid(name: Seq<char>) -> bool {
    &&& 2 <= name.len() <= 64
    &&& forall|i: int| 0 <= i < name.len() ==> is_name_char(#[trigger] name[i]) || is_separator(name[i])
    &&& !is_separator(name[0])
    &&& !is_separator(name[name.len() - 1])
    &&& forall|i: int|
        0 <= i < name.len() - 1 ==> !(is_separator(#[trigger] name[i]) && is_separator(name[i + 1]))
}

/// Asks `AccountId`'s `FromStr` whether a text is the name of an account.
/// The contract claims that it accepts exactly the names of the rule above.
/// That function measures the length in bytes; since every character it
/// admits takes one byte, this is the number of characters for every name it
/// accepts, and a name with any other character is refused whatever its
/// length.
#[verifier::external_body]
fn is_account_id(name: &String) -> (valid: bool)
    ensures
        valid == account_id_valid(name@),
{
    name.parse::<near_sdk::AccountId>().is_ok()
}

/// The name of the account of a collection launched as `nft_id` by the
/// launchpad `launchpad_id`: a sub-account of the launchpad.
pub open spec fn collection_account(nft_id: Seq<char>, launchpad_id: Seq<char>) -> Seq<char> {
    nft_id + seq!['.'] + launchpad_id
}

/// What the account of a new collection must be created with: the cost of
/// storing its code and the balance it needs beside.
pub open spec fn launch_cost(byte_cost: u128, contract_bytes: u128) -> int {
    byte_cost * contract_bytes + NFT_CONTRACT_STORAGE
}

/// Why a launch is refused, if it is.
pub open spec fn launch_rejection(
    attached: u128,
    byte_cost: u128,
    contract_bytes: u128,
    payment_split_percent: u32,
    burn_fee: u32,
    account_is_valid: bool,
) -> Option<LaunchError> {
    if launch_cost(byte_cost, contract_bytes) > u128::MAX {
        Some(LaunchError::ArithmeticOverflow)
    } else if launch_cost(byte_cost, contract_bytes) > attached {
        Some(LaunchError::InsufficientDeposit)
    } else if burn_fee + payment_split_percent > u32::MAX {
        Some(LaunchError::ArithmeticOverflow)
    } else if burn_fee + payment_split_percent >= 100 {
        Some(LaunchError::InvalidSplit)
    } else if !account_is_valid {
        Some(LaunchError::InvalidAccountId)
    } else {
        None
    }
}

/// Accounts for a launch into the account `nft_contract_id`, of which
/// `account_is_valid` says whether its name is an account name. What the
/// attached funds hold above the cost is handed back, unless it is no more
/// than one indivisible unit.
pub fn plan_launch(
    attached: u128,
    byte_cost: u128,
    contract_bytes: u128,
    payment_split_percent: u32,
    burn_fee: u32,
    nft_contract_id: String,
    account_is_valid: bool,
) -> (result: Result<Launch, LaunchError>)
    ensures
        match result {
            Ok(launch) => {
                &&& launch_rejection(
                    attached,
                    byte_cost,
                    contract_bytes,
                    payment_split_percent,
                    burn_fee,
                    account_is_valid,
                ).is_none()
                &&& launch.nft_contract_id@ == nft_contract_id@
                &&& launch.minimum_needed == launch_cost(byte_cost, contract_bytes)
                &&& launch.refund == (if attached - launch.minimum_needed > 1 {
                    Some((attached - launch.minimum_needed) as u128)
                } else {
                    None
                })
            },
            Err(e) => launch_rejection(
                attached,
                byte_cost,
                contract_bytes,
                payment_split_percent,
                burn_fee,
                account_is_valid,
            ) == Some(e),
        },
{
    let code_cost: u128 = match byte_cost.checked_mul(contract_bytes) {
        Some(cost) => cost,
        None => {
            return Err(LaunchError::ArithmeticOverflow);
        },
    };
    let minimum_needed: u128 = match code_cost.checked_add(NFT_CONTRACT_STORAGE) {
        Some(cost) => cost,
        None => {
            return Err(LaunchError::ArithmeticOverflow);
        },
    };
    if minimum_needed > attached {
        return Err(LaunchError::InsufficientDeposit);
    }
    match burn_fee.checked_add(payment_split_percent) {
        Some(parts) => {
            if parts >= 100 {
                return Err(LaunchError::InvalidSplit);
            }
        },
        None => {
            return Err(LaunchError::ArithmeticOverflow);
        },
    }
    if !account_is_valid {
        return Err(LaunchError::InvalidAccountId);
    }
    let rest: u128 = attached - minimum_needed;
    let refund: Option<u128> = if rest > 1 {
        Some(rest)
    } else {
        None
    };
    Ok(Launch { nft_contract_id, minimum_needed, refund })
}

impl Contract {
    /// A launchpad with its settings.
    pub fn init(treasury: String, admin: String) -> (launchpad: Self)
        ensures
            launchpad.treasury@ == treasury@,
            launchpad.admin@ == admin@,
    {
        Contract { treasury, admin }
    }

    /// Changes the settings. Only the admin may, with exactly one
    /// indivisible unit of funds attached.
    pub fn set_config(
        &mut self,
        predecessor_id: &String,
        attached_deposit: u128,
        treasury: String,
        admin: String,
    ) -> (result: Result<(), LaunchError>)
        ensures
            result == (if attached_deposit != 1 {
                Err::<(), LaunchError>(LaunchError::RequiresOneYocto)
            } else if predecessor_id@ != old(self).admin@ {
                Err(LaunchError::AdminOnly)
            } else {
                Ok(())
            }),
            result.is_ok() ==> final(self).treasury@ == treasury@ && final(self).admin@ == admin@,
            result.is_err() ==> final(self).treasury@ == old(self).treasury@ && final(self).admin@
                == old(self).admin@,
    {
        if attached_deposit != 1 {
            return Err(LaunchError::RequiresOneYocto);
        }
        if !(*predecessor_id == self.admin) {
            return Err(LaunchError::AdminOnly);
        }
        self.treasury = treasury;
        self.admin = admin;
        Ok(())
    }

    /// The settings.
    pub fn get_config(&self) -> (config: ConfigInfo)
        ensures
            config.treasury@ == self.treasury@,
            config.admin@ == self.admin@,
    {
        ConfigInfo { treasury: self.treasury.clone(), admin: self.admin.clone() }
    }

    /// Accounts for the launch of the collection `nft_id` by the launchpad
    /// whose own account is `current_id`, with `attached_deposit` funds, for a
    /// contract of `contract_bytes` bytes where a byte of storage costs
    /// `byte_cost`.
    pub fn launch(
        &self,
        current_id: &String,
        attached_deposit: u128,
        byte_cost: u128,
        contract_bytes: u128,
        payment_split_percent: u32,
        burn_fee: u32,
        nft_id: &String,
    ) -> (result: Result<Launch, LaunchError>)
        ensures
            match result {
                Ok(launch) => {
                    &&& launch_rejection(
                        attached_deposit,
                        byte_cost,
                        contract_bytes,
                        payment_split_percent,
                        burn_fee,
                        account_id_valid(collection_account(nft_id@, current_id@)),
                    ).is_none()
                    &&& launch.nft_contract_id@ == collection_account(nft_id@, current_id@)
                    &&& launch.minimum_needed == launch_cost(byte_cost, contract_bytes)
                    &&& launch.refund == (if attached_deposit - launch.minimum_needed > 1 {
                        Some((attached_deposit - launch.minimum_needed) as u128)
                    } else {
                        None
                    })
                },
                Err(e) => launch_rejection(
                    attached_deposit,
                    byte_cost,
                    contract_bytes,
                    payment_split_percent,
                    burn_fee,
                    account_id_valid(collection_account(nft_id@, current_id@)),
                ) == Some(e),
            },
    {
        proof {
            reveal_strlit(".");
        }
        let nft_contract_id: String = nft_id.clone().concat(".").concat(current_id.as_str());
        assert(nft_contract_id@ =~= collection_account(nft_id@, current_id@));
        let valid: bool = is_account_id(&nft_contract_id);
        plan_launch(
            attached_deposit,
            byte_cost,
            contract_bytes,
            payment_split_percent,
            burn_fee,
            nft_contract_id,
            valid,
        )
    }
}

} // verus!
