use pool_price_feed::address::Address;
use pool_price_feed::pool::{
    assemble_pool, check_immutables, get_price, Pool, PoolImmutables, PriceError, RawPriceState,
    ReadFailure, ResolutionError, Token, MAX_FEE, SUPPORTED_POOL_VERSION,
};
use pool_price_feed::price::{ConversionError, DerivedPrice};
use pool_price_feed::sqrt_price::{SqrtPriceX96, Q96};

fn address(last: u8) -> Address {
    let mut bytes = [0u8; 20];
    bytes[0] = 0xA0;
    bytes[19] = last;
    Address { bytes }
}

fn state(sqrt_price: u128) -> RawPriceState {
    RawPriceState {
        sqrt_price: SqrtPriceX96::from_u128(sqrt_price),
        tick: -5,
        observation_index: 1,
        observation_cardinality: 2,
        observation_cardinality_next: 3,
        fee_protocol: 0,
        unlocked: true,
    }
}

fn pool(version: u8) -> Pool {
    Pool {
        address: address(9),
        version,
        token0: Token { address: address(1), decimals: 6 },
        token1: Token { address: address(2), decimals: 18 },
        fee: 500,
    }
}

#[test]
fn addresses_compare_byte_by_byte() {
    assert_eq!(address(1), address(1));
    assert_ne!(address(1), address(2));
    let mut other = address(1);
    other.bytes[0] = 0xA1;
    assert_ne!(address(1), other);
}

#[test]
fn immutables_of_a_pool_are_accepted() {
    let immutables = PoolImmutables { token0: address(1), token1: address(2), fee: MAX_FEE };
    assert_eq!(check_immutables(Ok(immutables)), Ok(immutables));
}

#[test]
fn rejected_immutables_mean_no_pool_interface() {
    assert_eq!(
        check_immutables(Err(ReadFailure::Rejected)),
        Err(ResolutionError::InterfaceMissing)
    );
}

#[test]
fn transport_failure_is_passed_on() {
    assert_eq!(check_immutables(Err(ReadFailure::Transport)), Err(ResolutionError::Transport));
    let immutables = PoolImmutables { token0: address(1), token1: address(2), fee: 500 };
    assert_eq!(
        assemble_pool(address(9), 3, immutables, Err(ReadFailure::Transport)),
        Err(ResolutionError::Transport)
    );
}

#[test]
fn identical_tokens_are_refused() {
    let immutables = PoolImmutables { token0: address(1), token1: address(1), fee: 500 };
    assert_eq!(check_immutables(Ok(immutables)), Err(ResolutionError::IdenticalTokens));
}

#[test]
fn fee_of_more_than_24_bits_is_refused() {
    let immutables = PoolImmutables { token0: address(1), token1: address(2), fee: MAX_FEE + 1 };
    assert_eq!(check_immutables(Ok(immutables)), Err(ResolutionError::FeeOutOfRange));
}

#[test]
fn missing_decimals_fail_the_resolution() {
    let immutables = PoolImmutables { token0: address(1), token1: address(2), fee: 500 };
    assert_eq!(
        assemble_pool(address(9), 3, immutables, Err(ReadFailure::Rejected)),
        Err(ResolutionError::DecimalsUnavailable)
    );
}

#[test]
fn resolved_pool_holds_what_was_read() {
    let immutables = PoolImmutables { token0: address(1), token1: address(2), fee: 500 };
    assert_eq!(assemble_pool(address(9), 3, immutables, Ok((6, 18))), Ok(pool(3)));
}

#[test]
fn supported_version_is_three() {
    assert_eq!(SUPPORTED_POOL_VERSION, 3);
}

#[test]
fn price_of_a_pool_without_the_reference() {
    let price = get_price(&pool(3), &state(2 * Q96), &address(7));
    assert_eq!(price, Ok(DerivedPrice { mantissa: 4, exponent: 12, inverted: false }));
}

#[test]
fn price_is_inverted_when_token0_is_the_reference() {
    let price = get_price(&pool(3), &state(2 * Q96), &address(1));
    assert_eq!(price, Ok(DerivedPrice { mantissa: 4, exponent: 12, inverted: true }));
}

#[test]
fn price_is_not_inverted_when_token1_is_the_reference() {
    let price = get_price(&pool(3), &state(2 * Q96), &address(2));
    assert_eq!(price, Ok(DerivedPrice { mantissa: 4, exponent: 12, inverted: false }));
}

#[test]
fn unsupported_version_is_an_error_not_a_panic() {
    assert_eq!(
        get_price(&pool(2), &state(2 * Q96), &address(7)),
        Err(PriceError::UnsupportedPoolVersion(2))
    );
    assert_eq!(
        get_price(&pool(4), &state(0), &address(7)),
        Err(PriceError::UnsupportedPoolVersion(4))
    );
}

#[test]
fn degenerate_state_is_a_conversion_error() {
    assert_eq!(
        get_price(&pool(3), &state(0), &address(7)),
        Err(PriceError::Conversion(ConversionError::ZeroSqrtPrice))
    );
    assert_eq!(
        get_price(&pool(3), &state(5), &address(1)),
        Err(PriceError::Conversion(ConversionError::ReciprocalOfZero))
    );
}
