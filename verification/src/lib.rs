//! Nearest-integer rounding of finite doubles under four half-way
//! tie-breaking rules, and the partitioning logic of a parallel
//! reduction that sums rounding differences across a workload.

pub mod policy;
pub mod reduce;
