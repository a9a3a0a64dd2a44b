//! Pool descriptors, their resolution from on-chain reads, and the price of a
//! pool in its current state.

use crate::address::Address;
use crate::price::{convert, convert_spec, ConversionError, DerivedPrice};
use crate::sqrt_price::SqrtPriceX96;
use vstd::prelude::*;

verus! {

/// The one pool version whose on-chain layout and price formula are known.
pub const SUPPORTED_POOL_VERSION: u8 = 3;

/// The largest fee tier: the fee is a 24-bit number on chain.
pub const MAX_FEE: u32 = 0xFF_FFFF;

/// A token of a pool: its address and its decimal precision.
#[derive(Clone, Copy, Debug, PartialEq, Eq)]
pub struct Token {
    pub address: Address,
    pub decimals: u8,
}

/// The immutable description of a pool.
#[derive(Clone, Copy, Debug, PartialEq, Eq)]
pub struct Pool {
    pub address: Address,
    pub version: u8,
    pub token0: Token,
    pub token1: Token,
    /// The fee tier. It plays no part in the price.
    pub fee: u32,
}

impl Pool {
    /// A descriptor is well formed when its two tokens differ and its fee is
    /// a 24-bit number.
    pub open spec fn wf(&self) -> bool {
        &&& self.token0.address != self.token1.address
        &&& self.fee <= MAX_FEE
    }
}

/// One reading of a pool's mutable state. Only the square-root price enters
/// the price; the other fields are carried along as they were read.
#[derive(Clone, Copy, Debug, PartialEq, Eq)]
pub struct RawPriceState {
    pub sqrt_price: SqrtPriceX96,
    pub tick: i32,
    pub observation_index: u16,
    pub observation_cardinality: u16,
    pub observation_cardinality_next: u16,
    pub fee_protocol: u8,
    pub unlocked: bool,
}

/// Why an on-chain read gave no value.
#[derive(Clone, Copy, Debug, PartialEq, Eq, Structural)]
pub enum ReadFailure {
    /// The node answered, but the contract did not: the call reverted or its
    /// answer could not be decoded.
    Rejected,
    /// The node did not answer in time, or the connection failed.
    Transport,
}

/// Why a pool has no descriptor.
#[derive(Clone, Copy, Debug, PartialEq, Eq, Structural)]
pub enum ResolutionError {
    /// The address does not expose the read interface of a pool.
    InterfaceMissing,
    /// A token did not report its decimal precision.
    DecimalsUnavailable,
    /// A read timed out or the connection failed.
    Transport,
    /// The pool names the same token twice.
    IdenticalTokens,
    /// The fee does not fit in 24 bits.
    FeeOutOfRange,
}

/// Why a pool state has no price.
#[derive(Clone, Copy, Debug, PartialEq, Eq, Structural)]
pub enum PriceError {
    /// The pool's version is not [`SUPPORTED_POOL_VERSION`].
    UnsupportedPoolVersion(u8),
    /// The state holds a degenerate square-root price.
    Conversion(ConversionError),
}

/// What the first batch of reads returns: the two token addresses and the
/// fee tier.
#[derive(Clone, Copy, Debug, PartialEq, Eq)]
pub struct PoolImmutables {
    pub token0: Address,
    pub token1: Address,
    pub fee: u32,
}

/// What [`check_immutables`] returns.
pub open spec fn check_immutables_spec(read: Result<PoolImmutables, ReadFailure>) -> Result<
    PoolImmutables,
    ResolutionError,
> {
    match read {
        Err(ReadFailure::Rejected) => Err(ResolutionError::InterfaceMissing),
        Err(ReadFailure::Transport) => Err(ResolutionError::Transport),
        Ok(immutables) => if immutables.token0 == immutables.token1 {
            Err(ResolutionError::IdenticalTokens)
        } else if immutables.fee > MAX_FEE {
            Err(ResolutionError::FeeOutOfRange)
        } else {
            Ok(immutables)
        },
    }
}

/// Judges the outcome of the first batch of reads. A failed read is passed on
/// as the matching error and never retried; an answer is accepted when it can
/// belong to a well-formed pool.
pub fn check_immutables(read: Result<PoolImmutables, ReadFailure>) -> (r: Result<
    PoolImmutables,
    ResolutionError,
>)
    ensures
        r == check_immutables_spec(read),
{
    match read {
        Err(ReadFailure::Rejected) => Err(ResolutionError::InterfaceMissing),
        Err(ReadFailure::Transport) => Err(ResolutionError::Transport),
        Ok(immutables) => {
            if immutables.token0 == immutables.token1 {
                Err(ResolutionError::IdenticalTokens)
            } else if immutables.fee > MAX_FEE {
                Err(ResolutionError::FeeOutOfRange)
            } else {
                Ok(immutables)
            }
        },
    }
}

/// What [`assemble_pool`] returns.
pub open spec fn assemble_pool_spec(
    address: Address,
    version: u8,
    immutables: PoolImmutables,
    decimals: Result<(u8, u8), ReadFailure>,
) -> Result<Pool, ResolutionError> {
    match decimals {
        Err(ReadFailure::Rejected) => Err(ResolutionError::DecimalsUnavailable),
        Err(ReadFailure::Transport) => Err(ResolutionError::Transport),
        Ok((decimals0, decimals1)) => Ok(
            Pool {
                address,
                version,
                token0: Token { address: immutables.token0, decimals: decimals0 },
                token1: Token { address: immutables.token1, decimals: decimals1 },
                fee: immutables.fee,
            },
        ),
    }
}

/// Completes a descriptor from the second batch of reads, the two decimal
/// precisions in token order.
pub fn assemble_pool(
    address: Address,
    version: u8,
    immutables: PoolImmutables,
    decimals: Result<(u8, u8), ReadFailure>,
) -> (r: Result<Pool, ResolutionError>)
    ensures
        r == assemble_pool_spec(address, version, immutables, decimals),
{
    match decimals {
        Err(ReadFailure::Rejected) => Err(ResolutionError::DecimalsUnavailable),
        Err(ReadFailure::Transport) => Err(ResolutionError::Transport),
        Ok((decimals0, decimals1)) => Ok(
            Pool {
                address,
                version,
                token0: Token { address: immutables.token0, decimals: decimals0 },
                token1: Token { address: immutables.token1, decimals: decimals1 },
                fee: immutables.fee,
            },
        ),
    }
}

/// What [`get_price`] returns.
pub open spec fn get_price_spec(pool: Pool, state: RawPriceState, reference: Address) -> Result<
    DerivedPrice,
    PriceError,
> {
    if pool.version != SUPPORTED_POOL_VERSION {
        Err(PriceError::UnsupportedPoolVersion(pool.version))
    } else {
        match convert_spec(
            state.sqrt_price@,
            pool.token0.decimals,
            pool.token1.decimals,
            pool.token0.address == reference,
        ) {
            Ok(price) => Ok(price),
            Err(error) => Err(PriceError::Conversion(error)),
        }
    }
}

/// The price of a pool in the given state, with the reference currency as
/// the quote token whenever it is token0 of the pool.
pub fn get_price(pool: &Pool, state: &RawPriceState, reference: &Address) -> (r: Result<
    DerivedPrice,
    PriceError,
>)
    ensures
        r == get_price_spec(*pool, *state, *reference),
{
    if pool.version != SUPPORTED_POOL_VERSION {
        return Err(PriceError::UnsupportedPoolVersion(pool.version));
    }
    let token0_is_reference = pool.token0.address == *reference;
    match convert(
        &state.sqrt_price,
        pool.token0.decimals,
        pool.token1.decimals,
        token0_is_reference,
    ) {
        Ok(price) => Ok(price),
        Err(error) => Err(PriceError::Conversion(error)),
    }
}

/// A descriptor resolved from accepted immutables is well formed.
pub proof fn lemma_resolved_pool_is_well_formed(
    address: Address,
    version: u8,
    read: Result<PoolImmutables, ReadFailure>,
    decimals: Result<(u8, u8), ReadFailure>,
)
    ensures
        check_immutables_spec(read) matches Ok(immutables) ==> (assemble_pool_spec(
            address,
            version,
            immutables,
            decimals,
        ) matches Ok(pool) ==> pool.wf()),
{
}

} // verus!
