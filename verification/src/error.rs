//! The ways in which an operation on the escrows can fail.

use crate::state::{Escrow, Milestone};
use vstd::prelude::*;

verus! {

/// Why an operation was refused. A refused operation changes nothing and
/// releases nothing.
#[derive(Debug, Clone, Copy, PartialEq, Eq, Structural)]
pub enum ContractError {
    /// The outgoing message for a token transfer could not be written.
    Std,
    /// The caller may not do this.
    Unauthorized,
    /// A token contract is not on the whitelist.
    NotInWhitelist,
    /// The escrow's deadline has passed.
    Expired,
    /// No escrow has this id.
    NotFound,
    /// The identity validator rejected an account.
    InvalidAddress,
    /// Nothing would be held.
    EmptyBalance,
    /// An escrow has this id already.
    AlreadyInUse,
    /// Nothing can be released while no recipient is set.
    RecipientNotSet,
    /// The escrow has no milestone with this id.
    MilestoneNotFound,
    /// An escrow needs at least one milestone.
    EmptyMilestones,
    /// What was handed over is not what the milestones add up to.
    FundsMismatch,
    /// The milestone's deadline has passed.
    MilestoneExpired,
    /// The milestone was approved before.
    MilestoneCompleted,
}

impl ContractError {
    /// The message that goes with the error.
    pub fn message(&self) -> (text: &'static str)
        ensures
            text@ == error_text(*self),
    {
        match self {
            ContractError::Std => "Message could not be serialized",
            ContractError::Unauthorized => "Unauthorized",
            ContractError::NotInWhitelist => "Only accepts tokens in the cw20_whitelist",
            ContractError::Expired => "Escrow is expired",
            ContractError::NotFound => "Escrow not found",
            ContractError::InvalidAddress => "Address is invalid",
            ContractError::EmptyBalance => "Send some coins to create an escrow",
            ContractError::AlreadyInUse => "Escrow id already in use",
            ContractError::RecipientNotSet => "Recipient is not set",
            ContractError::MilestoneNotFound => "Milestone not found",
            ContractError::EmptyMilestones => "Milestones can't be empty",
            ContractError::FundsMismatch => "Funds sent do not match the milestones",
            ContractError::MilestoneExpired => "Milestone is expired",
            ContractError::MilestoneCompleted => "Milestone is already completed",
        }
    }
}

/// The message that goes with each error.
pub open spec fn error_text(e: ContractError) -> Seq<char> {
    match e {
        ContractError::Std => "Message could not be serialized"@,
        ContractError::Unauthorized => "Unauthorized"@,
        ContractError::NotInWhitelist => "Only accepts tokens in the cw20_whitelist"@,
        ContractError::Expired => "Escrow is expired"@,
        ContractError::NotFound => "Escrow not found"@,
        ContractError::InvalidAddress => "Address is invalid"@,
        ContractError::EmptyBalance => "Send some coins to create an escrow"@,
        ContractError::AlreadyInUse => "Escrow id already in use"@,
        ContractError::RecipientNotSet => "Recipient is not set"@,
        ContractError::MilestoneNotFound => "Milestone not found"@,
        ContractError::EmptyMilestones => "Milestones can't be empty"@,
        ContractError::FundsMismatch => "Funds sent do not match the milestones"@,
        ContractError::MilestoneExpired => "Milestone is expired"@,
        ContractError::MilestoneCompleted => "Milestone is already completed"@,
    }
}

} // verus!
