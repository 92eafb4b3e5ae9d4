//! The rules by which Little Snitch is driven from outside: reading its rule set, rule
//! files, traffic and preferences, proposing changes to them, and letting a change
//! through only with the token of its proposal.
//!
//! Everything here computes on plain values. What is read from the disk, printed by the
//! `littlesnitch` command or told by the clock comes in as an argument, and what is to
//! be run or written goes out as a result.

pub mod assoc;
pub mod cli;
pub mod grouping;
pub mod hash;
pub mod json;
pub mod lsrules;
pub mod managed_dir;
pub mod model;
pub mod net;
pub mod safety;
pub mod text;
pub mod textdiff;
pub mod time_fmt;
pub mod tools;
