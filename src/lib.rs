//! Branch bookkeeping for a ticket workflow: the production and homologation
//! branches of a ticket, the commits that one holds and the other lacks, and the
//! decisions of a selective cherry-pick between them.
//!
//! - `text`: white space, splitting and lines of strings, over their character sequences.
//! - `naming`: the naming scheme, its configuration, and how a branch resolves to its pair.
//! - `log`: log listings parsed into commits, selected by author, rendered, and ranged.
//! - `session`: one `pick` run as a state machine from answers to actions.
//! - `error`: why a run fails.
pub mod error;
pub mod log;
pub mod naming;
pub mod session;
pub mod text;
