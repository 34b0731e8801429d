//! Sliding-window statistics over IEEE-754 binary64 time series.
//!
//! A series is carried as a `Vec<u64>` of bit patterns, one per sample.
//! All window bookkeeping (warm-up, skipping of non-finite samples, FIFO
//! aging of running sums, rank counting) is verified; the double-precision
//! arithmetic itself is performed by a soft-float library behind trusted
//! wrappers whose results are named by uninterpreted spec functions.

pub mod arith;
pub mod bits;
pub mod corr;
pub mod error;
pub mod factors;
pub mod laws;
pub mod mean;
pub mod pct;
pub mod rank;
pub mod std_dev;
pub mod window;

pub use corr::rolling_correlation;
pub use error::ExprError;
pub use factors::alpha101_factor_42;
pub use factors::mean_reversion_factor;
pub use factors::momentum_factor;
pub use factors::relative_strength_factor;
pub use mean::rolling_mean;
pub use pct::pct_change;
pub use rank::rolling_rank;
pub use std_dev::rolling_std;
