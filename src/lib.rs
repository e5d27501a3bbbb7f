//! Markov-chain Monte Carlo sampling: an integer-exact histogram and the
//! decision logic of a Wang-Landau density-of-states estimator.

pub mod histogram;
pub mod simple;
pub mod wanglandau;

pub use histogram::{Histogram, HistogramError, Ratio};
pub use simple::Simple;
pub use wanglandau::{Phase, Schedule, StartStep, SweepAction, WangLandau};
