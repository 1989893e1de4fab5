//! Developer-support utilities: a hierarchical start/lap/finish timer, the
//! planning logic behind the statement-level and function-level timing
//! attributes, CPU vendor detection from a `cpuid` vendor leaf, and the names
//! of the node's storage directories.

pub mod attr;
pub mod cpu;
pub mod rewrite;
pub mod span;
pub mod storage;
pub mod text;
pub mod timer;
