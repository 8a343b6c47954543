//! The environment classifier: decides whether the invoking context is an
//! agent-driven editor session or an ordinary interactive shell.
//!
//! Of the two conceivable policies — a strict check of a single dedicated
//! agent-identity marker, or a broad multi-signal heuristic — this crate
//! uses the broad policy: a terminal-integration variable naming the
//! editor, either of two editor IPC variables whose value names it, or an
//! ancestor process whose command name does. The
//! tradeoff is deliberate: the broad policy can misfire in a terminal pane
//! of the editor that a human is typing into, and in exchange it never
//! misses an agent session that forgot to export a dedicated marker.
//!
//! The caller reads the ambient state (environment variables, the process
//! table) and hands the raw values in; every decision made on those values
//! is verified here.

use vstd::prelude::*;
use crate::nums::parse_u32;
use crate::nums::parse_u32_spec;
use crate::outside::lower_of;
use crate::outside::lowercase;
use crate::outside::trim_of;
use crate::outside::trimmed;
use crate::strutil::seq_contains;
use crate::strutil::str_contains;

verus! {

/// How many ancestor processes are examined at most when walking up the
/// process tree.
pub const ANCESTRY_MAX_DEPTH: usize = 10;

/// The view of an optional string argument.
pub open spec fn opt_view(o: Option<&str>) -> Option<Seq<char>> {
    match o {
        Some(s) => Some(s@),
        None => None,
    }
}

/// The environment-variable signals that classify a session as
/// agent-driven: the terminal-integration marker names the editor outright,
/// or one of the two editor IPC variables mentions it in any case.
pub open spec fn env_indicates_agent(
    term_program: Option<Seq<char>>,
    askpass: Option<Seq<char>>,
    ipc_hook: Option<Seq<char>>,
) -> bool {
    ||| (term_program matches Some(t) && (seq_contains(t, "vscode"@) || seq_contains(
        t,
        "Cursor"@,
    )))
    ||| (askpass matches Some(a) && seq_contains(lower_of(a), "cursor"@))
    ||| (ipc_hook matches Some(h) && seq_contains(lower_of(h), "cursor"@))
}

/// Classify a session from the values of the three environment variables,
/// each `None` when the variable is unset.
pub fn is_agent_env(
    term_program: Option<&str>,
    askpass: Option<&str>,
    ipc_hook: Option<&str>,
) -> (r: bool)
    ensures
        r == env_indicates_agent(opt_view(term_program), opt_view(askpass), opt_view(ipc_hook)),
{
    if let Some(t) = term_program {
        if str_contains(t, "vscode") || str_contains(t, "Cursor") {
            return true;
        }
    }
    if let Some(a) = askpass {
        let low = lowercase(a);
        if str_contains(low.as_str(), "cursor") {
            return true;
        }
    }
    if let Some(h) = ipc_hook {
        let low = lowercase(h);
        if str_contains(low.as_str(), "cursor") {
            return true;
        }
    }
    false
}

/// An environment with none of the agent signals is classified as
/// interactive: the wrappers then delegate with the argument list untouched.
pub proof fn lemma_no_signals_means_interactive(
    term_program: Option<Seq<char>>,
    askpass: Option<Seq<char>>,
    ipc_hook: Option<Seq<char>>,
)
    requires
        term_program matches Some(t) ==> !seq_contains(t, "vscode"@) && !seq_contains(
            t,
            "Cursor"@,
        ),
        askpass matches Some(a) ==> !seq_contains(lower_of(a), "cursor"@),
        ipc_hook matches Some(h) ==> !seq_contains(lower_of(h), "cursor"@),
    ensures
        !env_indicates_agent(term_program, askpass, ipc_hook),
{
}

/// A process command name counts as the editor when, trimmed and folded to
/// lower case, it mentions the editor's name.
pub open spec fn comm_is_agent_spec(c: Seq<char>) -> bool {
    ||| seq_contains(lower_of(trim_of(c)), "cursor"@)
    ||| seq_contains(lower_of(trim_of(c)), "vscode"@)
}

/// Does this process command name belong to the editor?
pub fn comm_indicates_agent(comm: &str) -> (r: bool)
    ensures
        r == comm_is_agent_spec(comm@),
{
    let t = trimmed(comm);
    let low = lowercase(t);
    str_contains(low.as_str(), "cursor") || str_contains(low.as_str(), "vscode")
}

/// The decision taken at one rung of the process-ancestry walk.
#[derive(Clone, Copy, Debug, PartialEq, Eq, Structural)]
pub enum AncestryStep {
    /// The ancestor's command name names the editor: the session is
    /// agent-driven.
    AgentFound,
    /// Keep walking, at this parent process id.
    Ascend(u32),
    /// Stop walking: the chain ended or could not be read further.
    Halt,
}

/// What one rung of the walk decides, from the ancestor's command name and
/// the text the process table gave for its parent id (`None` where the
/// lookup failed or was not valid text).
pub open spec fn ancestry_step_spec(
    comm: Option<Seq<char>>,
    ppid_text: Option<Seq<char>>,
) -> AncestryStep {
    if comm matches Some(c) && comm_is_agent_spec(c) {
        AncestryStep::AgentFound
    } else {
        match ppid_text {
            Some(p) => match parse_u32_spec(trim_of(p)) {
                Some(n) => if n <= 1 {
                    AncestryStep::Halt
                } else {
                    AncestryStep::Ascend(n)
                },
                None => AncestryStep::Halt,
            },
            None => AncestryStep::Halt,
        }
    }
}

/// Decide one rung of the process-ancestry walk.
pub fn ancestry_step(comm: Option<&str>, ppid_text: Option<&str>) -> (r: AncestryStep)
    ensures
        r == ancestry_step_spec(opt_view(comm), opt_view(ppid_text)),
{
    if let Some(c) = comm {
        if comm_indicates_agent(c) {
            return AncestryStep::AgentFound;
        }
    }
    match ppid_text {
        Some(p) => {
            let t = trimmed(p);
            match parse_u32(t) {
                Some(n) => if n <= 1 {
                    AncestryStep::Halt
                } else {
                    AncestryStep::Ascend(n)
                },
                None => AncestryStep::Halt,
            }
        },
        None => AncestryStep::Halt,
    }
}

} // verus!
