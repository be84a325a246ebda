use vstd::prelude::*;

use crate::errors::LedgerError;

verus! {

/// The mint gate's policy: who may create new tokens. Transfers are never
/// gated. The initial policy of a fresh contract is `Closed`.
#[derive(Clone, Copy, Debug, PartialEq, Eq, Structural)]
pub enum Status {
    /// Anybody may mint.
    Open,
    /// Only accounts on the whitelist may mint.
    Whitelisted,
    /// Nobody but the contract's own account may mint.
    Closed,
}

/// Whether `account` occurs in `whitelist`.
pub open spec fn spec_on_whitelist(whitelist: Seq<String>, account: Seq<char>) -> bool {
    exists|i: int| 0 <= i < whitelist.len() && whitelist[i]@ == account
}

/// The mint gate's decision, in evaluation order: the contract's own account
/// may always mint; otherwise `Open` admits everybody, `Whitelisted` admits
/// exactly the whitelist, and `Closed` admits nobody.
pub open spec fn spec_mint_allowed(
    status: Status,
    whitelist: Seq<String>,
    caller: Seq<char>,
    contract_account: Seq<char>,
) -> Result<(), LedgerError> {
    if caller == contract_account {
        Ok(())
    } else {
        match status {
            Status::Open => Ok(()),
            Status::Whitelisted => if spec_on_whitelist(whitelist, caller) {
                Ok(())
            } else {
                Err(LedgerError::NotWhitelisted)
            },
            Status::Closed => Err(LedgerError::MintingDisabled),
        }
    }
}

/// Whether `account` occurs in `whitelist`.
pub fn on_whitelist(whitelist: &Vec<String>, account: &String) -> (r: bool)
    ensures
        r == spec_on_whitelist(whitelist@, account@),
{
    let n = whitelist.len();
    let mut i: usize = 0;
    while i < n
        invariant
            n == whitelist@.len(),
            i <= n,
            forall|j: int| 0 <= j < i ==> whitelist@[j]@ != account@,
        decreases n - i,
    {
        if whitelist[i] == *account {
            return true;
        }
        i = i + 1;
    }
    false
}

/// Evaluates the mint gate for one mint request.
pub fn mint_allowed(
    status: Status,
    whitelist: &Vec<String>,
    caller: &String,
    contract_account: &String,
) -> (r: Result<(), LedgerError>)
    ensures
        r == spec_mint_allowed(status, whitelist@, caller@, contract_account@),
{
    if *caller == *contract_account {
        return Ok(());
    }
    match status {
        Status::Open => Ok(()),
        Status::Whitelisted => {
            if on_whitelist(whitelist, caller) {
                Ok(())
            } else {
                Err(LedgerError::NotWhitelisted)
            }
        },
        Status::Closed => Err(LedgerError::MintingDisabled),
    }
}

/// The policy named by a policy-change request: `"all"` opens minting,
/// `"whitelist"` restricts it to the whitelist, `"none"` closes it, and any
/// other text is rejected.
pub open spec fn spec_parse_status(s: Seq<char>) -> Result<Status, LedgerError> {
    if s == "all"@ {
        Ok(Status::Open)
    } else if s == "whitelist"@ {
        Ok(Status::Whitelisted)
    } else if s == "none"@ {
        Ok(Status::Closed)
    } else {
        Err(LedgerError::InvalidPolicyValue)
    }
}

/// Parses a policy-change request.
pub fn parse_status(s: &String) -> (r: Result<Status, LedgerError>)
    ensures
        r == spec_parse_status(s@),
{
    let all: String = "all".to_owned();
    let whitelist: String = "whitelist".to_owned();
    let none_text: String = "none".to_owned();
    if *s == all {
        Ok(Status::Open)
    } else if *s == whitelist {
        Ok(Status::Whitelisted)
    } else if *s == none_text {
        Ok(Status::Closed)
    } else {
        Err(LedgerError::InvalidPolicyValue)
    }
}

} // verus!
