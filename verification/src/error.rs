//! The ledger's error type, and the text each error renders to.

use vstd::prelude::*;
use vstd::string::StringExecFns;

verus! {

/// Every way a ledger operation can fail. Failures never leave a partial
/// write behind: an operation that returns an error leaves the state as it
/// found it.
#[derive(Clone, Copy, Debug, PartialEq, Eq)]
pub enum ContractError {
    /// A supply counter would leave the unsigned 128-bit range.
    Overflow,
    /// Collection ownership has been renounced; nobody may register.
    NoOwner,
    /// The caller is not the collection's current owner.
    NotOwner,
    /// The minter role has been renounced; nobody may mint.
    NoMinter,
    /// The caller is not the current minter.
    NotMinter,
    /// A token id would be registered twice. The registration counter is the
    /// only id source, so this is never produced; it is kept for callers that
    /// match on the full set of failures.
    AlreadyRegisteredToken,
    /// The token id counter is exhausted.
    MaximumNumberOfTokens,
    /// A registration asked for a maximum supply of zero.
    ZeroMaxSupply,
    /// A mint, burn or transfer of zero was requested.
    InvalidZeroAmount,
    /// Minting would push `current_supply + burned` past the cap.
    CannotExceedMaxSupply,
    /// The token id was never registered.
    InvalidToken { id: u64 },
    /// The holder does not own `required` of the token; only `available`.
    InsufficientFunds { id: u64, required: u128, available: u128 },
    /// The caller is neither the owner nor a currently approved operator.
    Unauthorized,
    /// An approval was submitted with an expiration that has already passed.
    Expired,
    /// The token was registered as not transferrable.
    NotTransferable { id: u64 },
}

/// The decimal digit character for a value below ten.
pub open spec fn dec_digit(d: nat) -> char {
    if d == 0 {
        '0'
    } else if d == 1 {
        '1'
    } else if d == 2 {
        '2'
    } else if d == 3 {
        '3'
    } else if d == 4 {
        '4'
    } else if d == 5 {
        '5'
    } else if d == 6 {
        '6'
    } else if d == 7 {
        '7'
    } else if d == 8 {
        '8'
    } else {
        '9'
    }
}

/// The decimal rendering of a natural number, most significant digit first.
pub open spec fn dec_str(n: nat) -> Seq<char>
    decreases n,
{
    if n < 10 {
        seq![dec_digit(n)]
    } else {
        dec_str(n / 10) + seq![dec_digit(n % 10)]
    }
}

/// The one-character string for a decimal digit.
fn digit_str(d: u8) -> (s: &'static str)
    requires
        d < 10,
    ensures
        s@ =~= seq![dec_digit(d as nat)],
{
    proof {
        reveal_strlit("0");
        reveal_strlit("1");
        reveal_strlit("2");
        reveal_strlit("3");
        reveal_strlit("4");
        reveal_strlit("5");
        reveal_strlit("6");
        reveal_strlit("7");
        reveal_strlit("8");
        reveal_strlit("9");
    }
    if d == 0 {
        "0"
    } else if d == 1 {
        "1"
    } else if d == 2 {
        "2"
    } else if d == 3 {
        "3"
    } else if d == 4 {
        "4"
    } else if d == 5 {
        "5"
    } else if d == 6 {
        "6"
    } else if d == 7 {
        "7"
    } else if d == 8 {
        "8"
    } else {
        "9"
    }
}

/// Renders a number in decimal.
pub fn dec_of_u128(n: u128) -> (s: String)
    ensures
        s@ == dec_str(n as nat),
    decreases n,
{
    if n < 10 {
        String::from_str(digit_str(n as u8))
    } else {
        proof {
            assert(n / 10 < n && n % 10 < 10) by (nonlinear_arith)
                requires
                    n >= 10,
            ;
        }
        let mut s = dec_of_u128(n / 10);
        s.append(digit_str((n % 10) as u8));
        s
    }
}

/// The text of each error, as shown to a caller.
pub open spec fn spec_message(e: ContractError) -> Seq<char> {
    match e {
        ContractError::Overflow => "Arithmetic overflow"@,
        ContractError::NoOwner => "Contract ownership has been renounced"@,
        ContractError::NotOwner => "Caller is not the contract's current owner"@,
        ContractError::NoMinter => "Contract minting has been renounced"@,
        ContractError::NotMinter => "Caller is not the contract's current minter"@,
        ContractError::AlreadyRegisteredToken => "Token is already registered"@,
        ContractError::MaximumNumberOfTokens => "Maximum number of registrable tokens has been reached"@,
        ContractError::ZeroMaxSupply => "Cannot use zero as maximum supply for a token"@,
        ContractError::InvalidZeroAmount => "Invalid zero amount"@,
        ContractError::CannotExceedMaxSupply => "Minting cannot exceed the maximum supply"@,
        ContractError::InvalidToken { id } => "Invalid token: no token with id "@ + dec_str(
            id as nat,
        ),
        ContractError::InsufficientFunds { id, required, available } => "Insufficient balance for token with id "@
            + dec_str(id as nat) + ": required "@ + dec_str(required as nat) + ", available "@
            + dec_str(available as nat),
        ContractError::Unauthorized => "Unauthorized"@,
        ContractError::Expired => "Expired"@,
        ContractError::NotTransferable { id } => "Token with id "@ + dec_str(id as nat)
            + " is not transferable"@,
    }
}

impl ContractError {
    /// The error rendered as text.
    pub fn message(&self) -> (r: String)
        ensures
            r@ == spec_message(*self),
    {
        match self {
            ContractError::Overflow => String::from_str("Arithmetic overflow"),
            ContractError::NoOwner => String::from_str("Contract ownership has been renounced"),
            ContractError::NotOwner => String::from_str(
                "Caller is not the contract's current owner",
            ),
            ContractError::NoMinter => String::from_str("Contract minting has been renounced"),
            ContractError::NotMinter => String::from_str(
                "Caller is not the contract's current minter",
            ),
            ContractError::AlreadyRegisteredToken => String::from_str(
                "Token is already registered",
            ),
            ContractError::MaximumNumberOfTokens => String::from_str(
                "Maximum number of registrable tokens has been reached",
            ),
            ContractError::ZeroMaxSupply => String::from_str(
                "Cannot use zero as maximum supply for a token",
            ),
            ContractError::InvalidZeroAmount => String::from_str("Invalid zero amount"),
            ContractError::CannotExceedMaxSupply => String::from_str(
                "Minting cannot exceed the maximum supply",
            ),
            ContractError::InvalidToken { id } => {
                let mut s = String::from_str("Invalid token: no token with id ");
                let d = dec_of_u128(*id as u128);
                s.append(d.as_str());
                s
            },
            ContractError::InsufficientFunds { id, required, available } => {
                let mut s = String::from_str("Insufficient balance for token with id ");
                let d1 = dec_of_u128(*id as u128);
                s.append(d1.as_str());
                s.append(": required ");
                let d2 = dec_of_u128(*required);
                s.append(d2.as_str());
                s.append(", available ");
                let d3 = dec_of_u128(*available);
                s.append(d3.as_str());
                s
            },
            ContractError::Unauthorized => String::from_str("Unauthorized"),
            ContractError::Expired => String::from_str("Expired"),
            ContractError::NotTransferable { id } => {
                let mut s = String::from_str("Token with id ");
                let d = dec_of_u128(*id as u128);
                s.append(d.as_str());
                s.append(" is not transferable");
                s
            },
        }
    }
}

} // verus!
