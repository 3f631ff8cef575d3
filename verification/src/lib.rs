//! Claim dependency graphs and context budgeting for reasoning sessions.
//!
//! The crate is a library of pure functions. Its centre is the claim
//! dependency graph of [`cdg`]: claims joined by typed, weighted, directed
//! edges, from which a stratification of the claims, a bundle of coherence
//! metrics and the difference between two such bundles are computed.
//!
//! Scores and weights are fixed-point numbers: a `u64` or `u32` counts
//! millionths (see [`fixed`]), so that every result is an exact function of the
//! inputs and every contract can state it. Times are milliseconds since the
//! Unix epoch.
//!
//! Around the graph stand the rules of a session and of what it draws on:
//! [`session`] holds the sessions themselves, [`context`] the token budget,
//! the paper trail and the token counts, [`documents`] the chunking of
//! reference documents, [`obsidian`] the index of a vault of notes,
//! [`chroma`] what goes into the vector store, and [`watcher`] what a change
//! in a session directory calls for. None of them reads a file or a socket.
//! Where a function needs the time, a variant that ends in `_at` takes it as
//! an argument, and the plain one asks [`clock`].

pub mod fixed;
pub mod clock;
pub mod seqs;
pub mod text;
pub mod utf8_text;
pub mod chars;
pub mod session;
pub mod cdg;
pub mod context;
pub mod chroma;
pub mod documents;
pub mod obsidian;
pub mod terminal;
pub mod watcher;

pub use cdg::diff::{compute_pass_diff, diff_against_latest, take_snapshot};
pub use cdg::metrics::compute_metrics;
pub use cdg::orphans::find_orphans;
pub use cdg::strata::{claim_strata, compute_strata};
pub use cdg::table::StratumTable;
pub use cdg::types::{
    CdgEdge, CdgMetrics, CdgSnapshot, ClaimStratum, EdgeType, PassDiff, ResolutionStatus,
};
pub use cdg::weight::{edge_weight, resolution_bonus, type_weight};
pub use fixed::UNIT;
pub use session::Claim;
