//! The lexical stage of a small scripting language: source text in, an
//! ordered sequence of classified tokens out, with line tracking and
//! non-fatal error reports.
//!
//! `scanner` holds the scanner, both as an executable state machine and as a
//! mathematical function of the text (`scan_tokens`, `scan_errors`) that the
//! executable scanner is proved to compute. `laws` states and proves general
//! facts about every scan. `lox` holds the session state of the driver around
//! the scanner and its decisions.
use vstd::prelude::*;

pub mod laws;
pub mod lox;
pub mod scanner;
pub mod token;

verus! {

} // verus!
