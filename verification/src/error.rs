use vstd::prelude::*;
use cosmwasm_std::{OverflowError, StdError};

verus! {

#[verifier::external_type_specification]
#[verifier::external_body]
pub struct ExStdError(StdError);

#[verifier::external_type_specification]
#[verifier::external_body]
pub struct ExOverflowError(OverflowError);

/// Every way an operation of the registries can be refused.
#[derive(Debug, PartialEq)]
pub enum ContractError {
    Std(StdError),
    Overflow(OverflowError),
    Unauthorized {},
    InsufficientFundsSend {},
    AddressAlreadySet { address: String, name: String },
    AddressUnSet { address: String },
    NameTaken { name: String },
    NameTooShort { length: u64, min_length: u64 },
    NameTooLong { length: u64, max_length: u64 },
    InvalidCharacter { c: char },
    DuplicateMember { member: String },
}

/// `ContractError` with its strings taken as character sequences; the
/// errors that come from storage or arithmetic are known only by kind.
pub enum ErrorView {
    Std,
    Overflow,
    Unauthorized,
    InsufficientFundsSend,
    AddressAlreadySet { address: Seq<char>, name: Seq<char> },
    AddressUnSet { address: Seq<char> },
    NameTaken { name: Seq<char> },
    NameTooShort { length: u64, min_length: u64 },
    NameTooLong { length: u64, max_length: u64 },
    InvalidCharacter { c: char },
    DuplicateMember { member: Seq<char> },
}

impl View for ContractError {
    type V = ErrorView;

    open spec fn view(&self) -> ErrorView {
        match self {
            ContractError::Std(_) => ErrorView::Std,
            ContractError::Overflow(_) => ErrorView::Overflow,
            ContractError::Unauthorized {  } => ErrorView::Unauthorized,
            ContractError::InsufficientFundsSend {  } => ErrorView::InsufficientFundsSend,
            ContractError::AddressAlreadySet { address, name } => ErrorView::AddressAlreadySet {
                address: address@,
                name: name@,
            },
            ContractError::AddressUnSet { address } => ErrorView::AddressUnSet { address: address@ },
            ContractError::NameTaken { name } => ErrorView::NameTaken { name: name@ },
            ContractError::NameTooShort { length, min_length } => ErrorView::NameTooShort {
                length: *length,
                min_length: *min_length,
            },
            ContractError::NameTooLong { length, max_length } => ErrorView::NameTooLong {
                length: *length,
                max_length: *max_length,
            },
            ContractError::InvalidCharacter { c } => ErrorView::InvalidCharacter { c: *c },
            ContractError::DuplicateMember { member } => ErrorView::DuplicateMember {
                member: member@,
            },
        }
    }
}

} // verus!
