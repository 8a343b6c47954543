//! Policy core for a pair of command-line shims that wrap a line-search tool
//! and a file-tailing tool when they run inside an agent-driven terminal
//! session.
//!
//! The library holds everything that can be stated and proved: the
//! environment classifier that decides whether a session is agent-driven, the
//! argument rewriting rules that guarantee a minimum amount of output, the
//! construction of unique capture-file names for piped input, and the exact
//! text of every advisory message. The surrounding binary does the ambient
//! work (reading environment variables and standard input, spawning the real
//! tool) and hands this library plain values.

pub mod advisory;
pub mod classify;
pub mod grep_policy;
pub mod nums;
pub mod outside;
pub mod strutil;
pub mod tail_policy;
pub mod tmpname;

use vstd::prelude::*;

verus! {

/// The trailing argument contributed by a captured pipe input, if any.
pub open spec fn capture_tail(capture: Option<Seq<char>>) -> Seq<Seq<char>> {
    match capture {
        Some(f) => seq![f],
        None => Seq::empty(),
    }
}

} // verus!
