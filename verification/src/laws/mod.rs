pub mod burning;
pub mod fee;
pub mod liquidity;
pub mod minting;
pub mod numbers;
pub mod outcomes;
pub mod pricing;
pub mod swap;
pub mod transition;
