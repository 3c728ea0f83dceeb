//! Transaction-ledger fraud pipeline: record cleaning, feature encoding,
//! an account-interaction graph, a positional train/test split and
//! held-out accuracy scoring.

pub mod encode;
pub mod evaluate;
pub mod graph;
pub mod pipeline;
pub mod record;
pub mod split;
