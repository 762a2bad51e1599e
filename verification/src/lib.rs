//! Policy configuration for a deterministic EVM-style execution engine.
//!
//! The [`cfg::CfgEnv`] value records every tunable or relaxable rule that
//! governs transaction validation and bytecode execution, and answers the
//! engine's policy questions through the [`cfg::Cfg`] capability trait.
//! The [`codec`] module gives the policy value a self-describing byte
//! encoding in which absent toggles are not represented at all.

pub mod cfg;
pub mod codec;

pub use cfg::AnalysisKind;
pub use cfg::Cfg;
pub use cfg::CfgEnv;
pub use cfg::EnvKzgSettings;
pub use cfg::DEFAULT_MEMORY_LIMIT;
pub use cfg::MAX_CODE_SIZE;
