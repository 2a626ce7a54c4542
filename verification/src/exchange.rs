//! The exchange contract's function selector and error taxonomy.

use vstd::prelude::*;

verus! {

/// What the host reports back to a contract call.
#[derive(Clone, Copy, PartialEq, Eq, Debug)]
pub enum ContractError {
    /// The function selector byte names no function.
    InvalidFunction,
    /// A contract-specific failure, by its code.
    Custom(u8),
}

/// Functions available in the contract.
#[derive(Clone, Copy, PartialEq, Eq, Debug)]
pub enum ExchangeFunction {
    OrderMatch,
}

impl ExchangeFunction {
    /// Decodes a function selector byte.
    pub fn try_from(b: u8) -> (r: Result<ExchangeFunction, ContractError>)
        ensures
            b == 0 ==> r == Ok::<ExchangeFunction, ContractError>(ExchangeFunction::OrderMatch),
            b != 0 ==> r == Err::<ExchangeFunction, ContractError>(ContractError::InvalidFunction),
    {
        match b {
            0 => Ok(ExchangeFunction::OrderMatch),
            _ => Err(ContractError::InvalidFunction),
        }
    }
}

/// Everything the order-match entrypoint can reject.
#[derive(Clone, Copy, PartialEq, Eq, Debug)]
pub enum OrderError {
    /// Missing inputs in transfer call.
    OrderMissingInputs,
    /// Missing outputs in transfer call.
    OrderMissingOutputs,
    /// Clear input used non-native token.
    OrderClearInputNonNativeToken,
    /// Clear input used unauthorised pubkey.
    OrderClearInputUnauthorised,
    /// Merkle root not found in previous state.
    OrderMerkleRootNotFound,
    /// Duplicate nullifier found.
    DuplicateNullifier,
    /// Duplicate coin found.
    DuplicateCoin,
    /// Value commitment mismatch.
    ValueMismatch,
    /// Token commitment mismatch.
    TokenMismatch,
    /// Invalid number of inputs.
    InvalidNumberOfInputs,
    /// Invalid number of outputs.
    InvalidNumberOfOutputs,
    /// Spend hook is not zero.
    SpendHookNonZero,
    /// Merkle root not found in previous state.
    SwapMerkleRootNotFound,
    /// Token ID does not derive from mint authority.
    TokenIdDoesNotDeriveFromMint,
    /// Token mint is frozen.
    TokenMintFrozen,
    /// Parent call function mismatch.
    ParentCallFunctionMismatch,
    /// Parent call input mismatch.
    ParentCallInputMismatch,
    /// Child call function mismatch.
    ChildCallFunctionMismatch,
    /// Child call input mismatch.
    ChildCallInputMismatch,
    /// Genesis call used in non-genesis block.
    GenesisCallNonGenesisBlock,
    /// Missing nullifier.
    MissingNullifier,
    /// Missing inputs in fee call.
    FeeMissingInputs,
    /// Insufficient fee paid.
    InsufficientFee,
    /// Coin merkle root not found in previous state.
    CoinMerkleRootNotFound,
    /// Roots value data mismatch.
    RootsValueDataMismatch,
    /// Children indexes length mismatch.
    ChildrenIndexesLengthMismatch,
    /// Timeout duration is too short.
    ShortTimeoutDuration,
}

/// The contract-specific code each order error is reported under.
pub open spec fn custom_code_of(e: OrderError) -> u8 {
    match e {
        OrderError::OrderMissingInputs => 1,
        OrderError::OrderMissingOutputs => 2,
        OrderError::OrderClearInputNonNativeToken => 3,
        OrderError::OrderClearInputUnauthorised => 4,
        OrderError::OrderMerkleRootNotFound => 5,
        OrderError::DuplicateNullifier => 6,
        OrderError::DuplicateCoin => 7,
        OrderError::ValueMismatch => 8,
        OrderError::TokenMismatch => 9,
        OrderError::InvalidNumberOfInputs => 10,
        OrderError::InvalidNumberOfOutputs => 11,
        OrderError::SpendHookNonZero => 12,
        OrderError::SwapMerkleRootNotFound => 13,
        OrderError::TokenIdDoesNotDeriveFromMint => 14,
        OrderError::TokenMintFrozen => 15,
        OrderError::ParentCallFunctionMismatch => 16,
        OrderError::ParentCallInputMismatch => 17,
        OrderError::ChildCallFunctionMismatch => 18,
        OrderError::ChildCallInputMismatch => 19,
        OrderError::GenesisCallNonGenesisBlock => 20,
        OrderError::MissingNullifier => 21,
        OrderError::FeeMissingInputs => 22,
        OrderError::InsufficientFee => 23,
        OrderError::CoinMerkleRootNotFound => 24,
        OrderError::RootsValueDataMismatch => 25,
        OrderError::ChildrenIndexesLengthMismatch => 26,
        OrderError::ShortTimeoutDuration => 27,
    }
}

impl From<OrderError> for ContractError {
    /// Reports an order error as the host's custom error with the
    /// matching code.
    fn from(e: OrderError) -> (r: ContractError) {
        ContractError::Custom(match e {
            OrderError::OrderMissingInputs => 1,
            OrderError::OrderMissingOutputs => 2,
            OrderError::OrderClearInputNonNativeToken => 3,
            OrderError::OrderClearInputUnauthorised => 4,
            OrderError::OrderMerkleRootNotFound => 5,
            OrderError::DuplicateNullifier => 6,
            OrderError::DuplicateCoin => 7,
            OrderError::ValueMismatch => 8,
            OrderError::TokenMismatch => 9,
            OrderError::InvalidNumberOfInputs => 10,
            OrderError::InvalidNumberOfOutputs => 11,
            OrderError::SpendHookNonZero => 12,
            OrderError::SwapMerkleRootNotFound => 13,
            OrderError::TokenIdDoesNotDeriveFromMint => 14,
            OrderError::TokenMintFrozen => 15,
            OrderError::ParentCallFunctionMismatch => 16,
            OrderError::ParentCallInputMismatch => 17,
            OrderError::ChildCallFunctionMismatch => 18,
            OrderError::ChildCallInputMismatch => 19,
            OrderError::GenesisCallNonGenesisBlock => 20,
            OrderError::MissingNullifier => 21,
            OrderError::FeeMissingInputs => 22,
            OrderError::InsufficientFee => 23,
            OrderError::CoinMerkleRootNotFound => 24,
            OrderError::RootsValueDataMismatch => 25,
            OrderError::ChildrenIndexesLengthMismatch => 26,
            OrderError::ShortTimeoutDuration => 27,
        })
    }
}

impl vstd::std_specs::convert::FromSpecImpl<OrderError> for ContractError {
    open spec fn obeys_from_spec() -> bool {
        true
    }

    open spec fn from_spec(e: OrderError) -> ContractError {
        ContractError::Custom(custom_code_of(e))
    }
}

} // verus!
