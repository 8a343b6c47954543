//! The argument policy for the line-search tool. In an agent session the
//! shim guarantees a context window around matches: when no context flag is
//! present it inserts a default one, and it always prepends colorized
//! output and the exclusion of common version-control and tooling
//! directories. A captured pipe input, when there is one, becomes the last
//! positional argument.

use vstd::prelude::*;
use crate::advisory::Advisory;
use crate::capture_tail;
use crate::nums::dec_spec;
use crate::nums::u32_to_dec;
use crate::strutil::starts_with_spec;
use crate::strutil::str_starts_with;

verus! {

/// The default context window inserted when the user asked for none.
pub const DEFAULT_CONTEXT_LINES: u32 = 20;

/// Does this argument ask for a context window? The fixed prefixes cover
/// the short and long spellings of before-, after- and around-context.
pub open spec fn is_context_flag(a: Seq<char>) -> bool {
    ||| starts_with_spec(a, "-A"@)
    ||| starts_with_spec(a, "-B"@)
    ||| starts_with_spec(a, "-C"@)
    ||| starts_with_spec(a, "--context"@)
    ||| starts_with_spec(a, "--after-context"@)
    ||| starts_with_spec(a, "--before-context"@)
}

/// Some argument of the list asks for a context window.
pub open spec fn has_context_spec(args: Seq<Seq<char>>) -> bool {
    exists|i: int| 0 <= i < args.len() && is_context_flag(#[trigger] args[i])
}

/// Does any argument of the list ask for a context window?
pub fn has_context_arg(args: &Vec<String>) -> (r: bool)
    ensures
        r == has_context_spec(args.deep_view()),
{
    let mut i: usize = 0;
    while i < args.len()
        invariant
            i <= args.len(),
            forall|j: int| 0 <= j < i ==> !is_context_flag(#[trigger] args.deep_view()[j]),
        decreases args.len() - i,
    {
        let a = &args[i];
        if str_starts_with(a.as_str(), "-A") || str_starts_with(a.as_str(), "-B")
            || str_starts_with(a.as_str(), "-C") || str_starts_with(a.as_str(), "--context")
            || str_starts_with(a.as_str(), "--after-context") || str_starts_with(
            a.as_str(),
            "--before-context",
        ) {
            assert(is_context_flag(args.deep_view()[i as int]));
            return true;
        }
        i += 1;
    }
    false
}

/// The arguments the shim always adds, ahead of the user's own.
pub open spec fn grep_extras() -> Seq<Seq<char>> {
    seq![
        "--color=auto"@,
        "--exclude-dir={.bzr,CVS,.git,.hg,.svn,.idea,.tox,.venv,venv}"@,
    ]
}

/// The final argument list for the search tool in an agent session: the
/// fixed extras, then a default context window when the user requested
/// none, then the user's arguments, then the captured-input path.
pub open spec fn grep_rewritten_spec(
    args: Seq<Seq<char>>,
    capture: Option<Seq<char>>,
    context_lines: u32,
) -> Seq<Seq<char>> {
    let with_context = if has_context_spec(args) {
        args
    } else {
        seq!["-C"@, dec_spec(context_lines as int)] + args
    };
    grep_extras() + with_context + capture_tail(capture)
}

/// The advisory shown when a default context window is inserted.
pub open spec fn grep_advisory_spec(context_lines: u32) -> (Seq<char>, Seq<char>) {
    ("grep"@, "grep -C "@ + dec_spec(context_lines as int))
}

/// Decide the final argument list for one search invocation.
///
/// Outside an agent session nothing is touched: the user's arguments come
/// back exactly as given and no advisory is emitted. In an agent session
/// the list is rewritten as `grep_rewritten_spec` states, and an advisory
/// is emitted exactly when a context window had to be inserted.
pub fn grep_plan(agent: bool, args: Vec<String>, capture: Option<String>, context_lines: u32) -> (r:
    (Vec<String>, Vec<Advisory>))
    ensures
        !agent ==> r.0.deep_view() == args.deep_view() && r.1.deep_view() =~= Seq::<
            (Seq<char>, Seq<char>),
        >::empty(),
        agent ==> r.0.deep_view() == grep_rewritten_spec(
            args.deep_view(),
            capture.deep_view(),
            context_lines,
        ),
        agent ==> r.1.deep_view() == (if has_context_spec(args.deep_view()) {
            Seq::<(Seq<char>, Seq<char>)>::empty()
        } else {
            seq![grep_advisory_spec(context_lines)]
        }),
{
    if !agent {
        let advisories: Vec<Advisory> = Vec::new();
        proof {
            assert(advisories.deep_view() =~= Seq::<(Seq<char>, Seq<char>)>::empty());
        }
        return (args, advisories);
    }
    let ghost orig = args.deep_view();
    let mut advisories: Vec<Advisory> = Vec::new();
    let has_context = has_context_arg(&args);
    let mut rewritten: Vec<String> = Vec::new();
    rewritten.push(String::from_str("--color=auto"));
    rewritten.push(String::from_str("--exclude-dir={.bzr,CVS,.git,.hg,.svn,.idea,.tox,.venv,venv}"));
    if !has_context {
        let mut enforced = String::from_str("grep -C ");
        let window = u32_to_dec(context_lines);
        enforced.append(window.as_str());
        advisories.push(Advisory::new(String::from_str("grep"), enforced));
        rewritten.push(String::from_str("-C"));
        rewritten.push(window);
    }
    let ghost base = rewritten.deep_view();
    proof {
        if has_context {
            assert(base =~= grep_extras());
        } else {
            assert(base =~= grep_extras() + seq!["-C"@, dec_spec(context_lines as int)]);
        }
    }
    let mut i: usize = 0;
    while i < args.len()
        invariant
            i <= args.len(),
            args.deep_view() == orig,
            rewritten.deep_view() == base + orig.take(i as int),
        decreases args.len() - i,
    {
        let elem = args[i].clone();
        let ghost pre = rewritten;
        let ghost ge = elem;
        rewritten.push(elem);
        proof {
            crate::strutil::lemma_deep_view_push(pre, rewritten, ge);
            assert(ge@ == orig[i as int]);
            assert(orig.take(i + 1) =~= orig.take(i as int).push(orig[i as int]));
            assert(rewritten.deep_view() =~= base + orig.take(i + 1));
        }
        i += 1;
    }
    proof {
        assert(orig.take(orig.len() as int) =~= orig);
    }
    match capture {
        Some(f) => {
            let ghost pre = rewritten;
            let ghost gf = f;
            rewritten.push(f);
            proof {
                crate::strutil::lemma_deep_view_push(pre, rewritten, gf);
                assert(rewritten.deep_view() =~= grep_rewritten_spec(
                    orig,
                    capture.deep_view(),
                    context_lines,
                ));
            }
        },
        None => {
            proof {
                assert(rewritten.deep_view() =~= grep_rewritten_spec(
                    orig,
                    capture.deep_view(),
                    context_lines,
                ));
            }
        },
    }
    proof {
        if has_context {
            assert(advisories.deep_view() =~= Seq::<(Seq<char>, Seq<char>)>::empty());
        } else {
            assert(advisories.deep_view() =~= seq![grep_advisory_spec(context_lines)]);
        }
    }
    (rewritten, advisories)
}

/// A captured pipe input changes the search invocation in exactly one way:
/// its path is appended as the last argument. Everything else is processed
/// as if no pipe existed, so an empty pipe and no pipe at all produce the
/// same list.
pub proof fn lemma_grep_capture_only_appends(
    args: Seq<Seq<char>>,
    f: Seq<char>,
    context_lines: u32,
)
    ensures
        grep_rewritten_spec(args, Some(f), context_lines) == grep_rewritten_spec(
            args,
            None,
            context_lines,
        ).push(f),
        grep_rewritten_spec(args, Some(f), context_lines).last() == f,
{
    assert(grep_rewritten_spec(args, Some(f), context_lines) =~= grep_rewritten_spec(
        args,
        None,
        context_lines,
    ).push(f));
}

/// In an agent session without a context flag, exactly one context-window
/// insertion occurs, and it is the default window: the rewritten list is
/// longer by exactly the two inserted elements, which sit right after the
/// fixed extras.
pub proof fn lemma_grep_default_context_inserted_once(
    args: Seq<Seq<char>>,
    capture: Option<Seq<char>>,
    context_lines: u32,
)
    requires
        !has_context_spec(args),
    ensures
        grep_rewritten_spec(args, capture, context_lines) == grep_extras() + seq![
            "-C"@,
            dec_spec(context_lines as int),
        ] + args + capture_tail(capture),
{
}

/// With a context flag already present, the engine inserts no context
/// window: the user's arguments appear unchanged between the extras and
/// the capture path.
pub proof fn lemma_grep_context_respected(
    args: Seq<Seq<char>>,
    capture: Option<Seq<char>>,
    context_lines: u32,
)
    requires
        has_context_spec(args),
    ensures
        grep_rewritten_spec(args, capture, context_lines) == grep_extras() + args + capture_tail(
            capture,
        ),
{
}

} // verus!
