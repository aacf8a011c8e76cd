//! The state of a Uniswap V2 pair: swaps, minting and burning of liquidity tokens, what liquidity
//! tokens are worth, and changes that an indexer reports.
//!
//! Numbers of 256 bits are computed by `alloy`, numbers of any size are read and written by
//! `num-bigint`; what is believed of either stands in [`u256`], [`big_uint`] and [`address`]. The
//! contracts speak of a pair as a [`model::PoolView`]; the laws that relate several operations
//! stand in [`laws`].

pub mod address;
pub mod big_uint;
pub mod cpmm;
pub mod delta;
pub mod errors;
pub mod laws;
pub mod model;
pub mod safe_math;
pub mod solidity_math;
pub mod state;
pub mod token;
pub mod u256;

pub use address::Address;
pub use big_uint::{biguint_to_u256, u256_to_biguint, BigUint};
pub use delta::ProtocolStateDelta;
pub use errors::{SimulationError, TransitionError};
pub use state::{GetAmountOutResult, UniswapV2State, UNISWAP_V2_FEE_BPS};
pub use token::{Bytes, Token};
pub use u256::U256;
