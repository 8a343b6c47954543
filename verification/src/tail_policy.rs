//! The argument policy for the file-tailing tool. In an agent session the
//! shim guarantees a minimum number of lines: a line-count request below
//! the threshold — given either as a flag followed by a number or as a
//! dash directly followed by a number — is raised to the threshold, and
//! when no count was requested and no bare argument is present an explicit
//! count flag is prepended. A captured pipe input, when there is one,
//! becomes the last argument.

use vstd::prelude::*;
use crate::advisory::Advisory;
use crate::capture_tail;
use crate::nums::i32_dec_spec;
use crate::nums::i32_to_dec;
use crate::nums::parse_i32;
use crate::nums::parse_i32_spec;
use crate::strutil::lemma_deep_view_prepend;
use crate::strutil::lemma_deep_view_push;
use crate::strutil::starts_with_spec;
use crate::strutil::str_eq;
use crate::strutil::str_starts_with;

verus! {

/// The minimum number of lines the policy enforces.
pub const MIN_TAIL_LINES: i32 = 100;

/// The argument begins with a dash, as the heuristic for "flag-shaped"
/// arguments has it.
pub open spec fn is_dash_arg(a: Seq<char>) -> bool {
    starts_with_spec(a, "-"@)
}

/// Every argument of the list is flag-shaped.
pub open spec fn all_dash(out: Seq<Seq<char>>) -> bool {
    forall|i: int| 0 <= i < out.len() ==> is_dash_arg(#[trigger] out[i])
}

/// What one left-to-right scan of the argument list produces.
pub struct TailScan {
    /// The arguments after the per-argument rewrites.
    pub out: Seq<Seq<char>>,
    /// The advisories emitted by those rewrites, in order.
    pub advisories: Seq<(Seq<char>, Seq<char>)>,
    /// Whether some argument was recognized as a line-count request.
    pub found_count: bool,
}

/// The scan of the argument list: a count flag and its following value are
/// taken together, a dash directly followed by a number is a count of its
/// own, and any count below `min` is raised to `min` with an advisory.
/// A value that does not parse as a number is left untouched and not
/// counted as a line-count request; neither is a count flag that ends the
/// list with no value after it.
pub open spec fn tail_scan(args: Seq<Seq<char>>, min: i32) -> TailScan
    decreases args.len(),
{
    if args.len() == 0 {
        TailScan { out: Seq::empty(), advisories: Seq::empty(), found_count: false }
    } else {
        let a = args[0];
        if a == "-n"@ {
            if args.len() >= 2 {
                let rest = tail_scan(args.skip(2), min);
                let v = args[1];
                match parse_i32_spec(v) {
                    Some(n) => if n < min {
                        TailScan {
                            out: seq![a, i32_dec_spec(min as int)] + rest.out,
                            advisories: seq![tail_n_advisory(n as int, min)] + rest.advisories,
                            found_count: true,
                        }
                    } else {
                        TailScan {
                            out: seq![a, v] + rest.out,
                            advisories: rest.advisories,
                            found_count: true,
                        }
                    },
                    None => TailScan {
                        out: seq![a, v] + rest.out,
                        advisories: rest.advisories,
                        found_count: rest.found_count,
                    },
                }
            } else {
                TailScan { out: seq![a], advisories: Seq::empty(), found_count: false }
            }
        } else if a.len() > 1 && is_dash_arg(a) {
            let rest = tail_scan(args.skip(1), min);
            match parse_i32_spec(a.skip(1)) {
                Some(n) => if n < min {
                    TailScan {
                        out: seq!["-"@ + i32_dec_spec(min as int)] + rest.out,
                        advisories: seq![tail_dash_advisory(a, min)] + rest.advisories,
                        found_count: true,
                    }
                } else {
                    TailScan {
                        out: seq![a] + rest.out,
                        advisories: rest.advisories,
                        found_count: true,
                    }
                },
                None => TailScan {
                    out: seq![a] + rest.out,
                    advisories: rest.advisories,
                    found_count: rest.found_count,
                },
            }
        } else {
            let rest = tail_scan(args.skip(1), min);
            TailScan {
                out: seq![a] + rest.out,
                advisories: rest.advisories,
                found_count: rest.found_count,
            }
        }
    }
}

/// The advisory for a too-small count given through the explicit flag.
pub open spec fn tail_n_advisory(n: int, min: i32) -> (Seq<char>, Seq<char>) {
    ("tail -n "@ + i32_dec_spec(n), "tail -n "@ + i32_dec_spec(min as int))
}

/// The advisory for a too-small count given as a dash followed by the
/// number.
pub open spec fn tail_dash_advisory(a: Seq<char>, min: i32) -> (Seq<char>, Seq<char>) {
    ("tail "@ + a, "tail -"@ + i32_dec_spec(min as int))
}

/// The advisory for an invocation that named no count at all.
pub open spec fn tail_default_advisory(min: i32) -> (Seq<char>, Seq<char>) {
    ("tail"@, "tail -n "@ + i32_dec_spec(min as int))
}

/// The adjusted argument list and its advisories: the scan's result, with
/// an explicit count flag prepended when no count was recognized and every
/// scanned argument is flag-shaped (a bare argument, such as a file name,
/// is taken as evidence that a count was effectively supplied; a deliberate
/// heuristic of the tool).
pub open spec fn tail_adjusted_spec(args: Seq<Seq<char>>, min: i32) -> (
    Seq<Seq<char>>,
    Seq<(Seq<char>, Seq<char>)>,
) {
    let s = tail_scan(args, min);
    if !s.found_count && all_dash(s.out) {
        (
            seq!["-n"@, i32_dec_spec(min as int)] + s.out,
            s.advisories + seq![tail_default_advisory(min)],
        )
    } else {
        (s.out, s.advisories)
    }
}

/// The final argument list for the tailing tool in an agent session.
pub open spec fn tail_rewritten_spec(
    args: Seq<Seq<char>>,
    capture: Option<Seq<char>>,
    min: i32,
) -> Seq<Seq<char>> {
    tail_adjusted_spec(args, min).0 + capture_tail(capture)
}

/// Scan the argument list and enforce the minimum line count, returning
/// the adjusted list and the advisories to print.
pub fn adjust_line_count(args: Vec<String>, min_lines: i32) -> (r: (Vec<String>, Vec<Advisory>))
    ensures
        r.0.deep_view() == tail_adjusted_spec(args.deep_view(), min_lines).0,
        r.1.deep_view() == tail_adjusted_spec(args.deep_view(), min_lines).1,
{
    let ghost orig = args.deep_view();
    let mut out: Vec<String> = Vec::new();
    let mut advisories: Vec<Advisory> = Vec::new();
    let mut found_count = false;
    let mut i: usize = 0;
    proof {
        assert(orig.skip(0) =~= orig);
        assert(out.deep_view() =~= Seq::<Seq<char>>::empty());
        assert(advisories.deep_view() =~= Seq::<(Seq<char>, Seq<char>)>::empty());
    }
    while i < args.len()
        invariant
            i <= args.len(),
            args.deep_view() == orig,
            orig.len() == args@.len(),
            tail_scan(orig, min_lines).out == out.deep_view() + tail_scan(
                orig.skip(i as int),
                min_lines,
            ).out,
            tail_scan(orig, min_lines).advisories == advisories.deep_view() + tail_scan(
                orig.skip(i as int),
                min_lines,
            ).advisories,
            tail_scan(orig, min_lines).found_count == (found_count || tail_scan(
                orig.skip(i as int),
                min_lines,
            ).found_count),
        decreases args.len() - i,
    {
        let ghost rem = orig.skip(i as int);
        proof {
            assert(rem[0] == orig[i as int]);
        }
        let a = &args[i];
        if str_eq(a.as_str(), "-n") {
            let ghost pre = out;
            let cloned = a.clone();
            let ghost gc = cloned;
            out.push(cloned);
            proof {
                lemma_deep_view_push(pre, out, gc);
            }
            if i + 1 < args.len() {
                let v = &args[i + 1];
                proof {
                    assert(rem[1] == orig[i + 1]);
                    assert(rem.len() >= 2);
                }
                let parsed = parse_i32(v.as_str());
                if parsed.is_some() {
                    found_count = true;
                }
                let raise = match parsed {
                    Some(num) => num < min_lines,
                    None => false,
                };
                if raise {
                    let num = match parsed {
                        Some(num) => num,
                        None => 0,
                    };
                    let mut original_text = String::from_str("tail -n ");
                    original_text.append(i32_to_dec(num).as_str());
                    let mut enforced_text = String::from_str("tail -n ");
                    enforced_text.append(i32_to_dec(min_lines).as_str());
                    let ghost preadv = advisories;
                    let adv = Advisory::new(original_text, enforced_text);
                    let ghost gadv = adv;
                    advisories.push(adv);
                    let ghost pre2 = out;
                    let raised = i32_to_dec(min_lines);
                    let ghost graised = raised;
                    out.push(raised);
                    proof {
                        lemma_deep_view_push(preadv, advisories, gadv);
                        lemma_deep_view_push(pre2, out, graised);
                    }
                } else {
                    let ghost pre2 = out;
                    let kept = v.clone();
                    let ghost gkept = kept;
                    out.push(kept);
                    proof {
                        lemma_deep_view_push(pre2, out, gkept);
                    }
                }
                proof {
                    assert(rem.skip(2) =~= orig.skip(i + 2));
                }
                i += 2;
            } else {
                proof {
                    assert(rem.len() == 1);
                    assert(rem.skip(1) =~= orig.skip(i + 1));
                    assert(tail_scan(rem.skip(1), min_lines).out =~= Seq::<Seq<char>>::empty());
                }
                i += 1;
            }
        } else {
            let alen = a.as_str().unicode_len();
            let dash = str_starts_with(a.as_str(), "-");
            proof {
                assert(rem.skip(1) =~= orig.skip(i + 1));
            }
            if dash && alen > 1 {
                let digits = a.as_str().substring_char(1, alen);
                proof {
                    assert(digits@ =~= rem[0].skip(1));
                }
                match parse_i32(digits) {
                    Some(num) => {
                        found_count = true;
                        if num < min_lines {
                            let mut original_text = String::from_str("tail ");
                            original_text.append(a.as_str());
                            let mut enforced_text = String::from_str("tail -");
                            enforced_text.append(i32_to_dec(min_lines).as_str());
                            let ghost preadv = advisories;
                            let adv = Advisory::new(original_text, enforced_text);
                            let ghost gadv = adv;
                            advisories.push(adv);
                            let mut raised = String::from_str("-");
                            raised.append(i32_to_dec(min_lines).as_str());
                            let ghost pre = out;
                            let ghost graised = raised;
                            out.push(raised);
                            proof {
                                lemma_deep_view_push(preadv, advisories, gadv);
                                lemma_deep_view_push(pre, out, graised);
                            }
                        } else {
                            let ghost pre = out;
                            let kept = a.clone();
                            let ghost gkept = kept;
                            out.push(kept);
                            proof {
                                lemma_deep_view_push(pre, out, gkept);
                            }
                        }
                    },
                    None => {
                        let ghost pre = out;
                        let kept = a.clone();
                        let ghost gkept = kept;
                        out.push(kept);
                        proof {
                            lemma_deep_view_push(pre, out, gkept);
                        }
                    },
                }
                i += 1;
            } else {
                let ghost pre = out;
                let kept = a.clone();
                let ghost gkept = kept;
                out.push(kept);
                proof {
                    lemma_deep_view_push(pre, out, gkept);
                }
                i += 1;
            }
        }
    }
    proof {
        assert(orig.skip(orig.len() as int) =~= Seq::<Seq<char>>::empty());
        assert(tail_scan(orig, min_lines).out =~= out.deep_view());
        assert(tail_scan(orig, min_lines).advisories =~= advisories.deep_view());
    }
    let needs_default = !found_count && all_args_dash(&out);
    if needs_default {
        let mut enforced_text = String::from_str("tail -n ");
        enforced_text.append(i32_to_dec(min_lines).as_str());
        let ghost preadv = advisories;
        let adv = Advisory::new(String::from_str("tail"), enforced_text);
        let ghost gadv = adv;
        advisories.push(adv);
        proof {
            lemma_deep_view_push(preadv, advisories, gadv);
        }
        let ghost pre1 = out;
        let count_text = i32_to_dec(min_lines);
        let ghost gcount = count_text;
        out.insert(0, count_text);
        proof {
            assert(out@ =~= seq![gcount] + pre1@);
            lemma_deep_view_prepend(pre1, out, gcount);
        }
        let ghost pre2 = out;
        let flag = String::from_str("-n");
        let ghost gflag = flag;
        out.insert(0, flag);
        proof {
            assert(out@ =~= seq![gflag] + pre2@);
            lemma_deep_view_prepend(pre2, out, gflag);
            assert(out.deep_view() =~= tail_adjusted_spec(orig, min_lines).0);
            assert(advisories.deep_view() =~= tail_adjusted_spec(orig, min_lines).1);
        }
    }
    (out, advisories)
}

/// Is every argument of the list flag-shaped?
fn all_args_dash(args: &Vec<String>) -> (r: bool)
    ensures
        r == all_dash(args.deep_view()),
{
    let mut i: usize = 0;
    while i < args.len()
        invariant
            i <= args.len(),
            forall|j: int| 0 <= j < i ==> is_dash_arg(#[trigger] args.deep_view()[j]),
        decreases args.len() - i,
    {
        if !str_starts_with(args[i].as_str(), "-") {
            assert(!is_dash_arg(args.deep_view()[i as int]));
            return false;
        }
        i += 1;
    }
    true
}

/// Decide the final argument list for one tail invocation.
///
/// Outside an agent session nothing is touched: the user's arguments come
/// back exactly as given and no advisory is emitted. In an agent session
/// the count policy is enforced and the captured-input path, if any, is
/// appended last.
pub fn tail_plan(agent: bool, args: Vec<String>, capture: Option<String>, min_lines: i32) -> (r: (
    Vec<String>,
    Vec<Advisory>,
))
    ensures
        !agent ==> r.0.deep_view() == args.deep_view() && r.1.deep_view() =~= Seq::<
            (Seq<char>, Seq<char>),
        >::empty(),
        agent ==> r.0.deep_view() == tail_rewritten_spec(
            args.deep_view(),
            capture.deep_view(),
            min_lines,
        ),
        agent ==> r.1.deep_view() == tail_adjusted_spec(args.deep_view(), min_lines).1,
{
    if !agent {
        let advisories: Vec<Advisory> = Vec::new();
        proof {
            assert(advisories.deep_view() =~= Seq::<(Seq<char>, Seq<char>)>::empty());
        }
        return (args, advisories);
    }
    let ghost orig = args.deep_view();
    let (mut out, advisories) = adjust_line_count(args, min_lines);
    match capture {
        Some(f) => {
            let ghost pre = out;
            let ghost gf = f;
            out.push(f);
            proof {
                lemma_deep_view_push(pre, out, gf);
                assert(out.deep_view() =~= tail_rewritten_spec(
                    orig,
                    capture.deep_view(),
                    min_lines,
                ));
            }
        },
        None => {
            proof {
                assert(out.deep_view() =~= tail_rewritten_spec(
                    orig,
                    capture.deep_view(),
                    min_lines,
                ));
            }
        },
    }
    (out, advisories)
}

/// A count given through the explicit flag and below the minimum is raised
/// to exactly the minimum, wherever the flag stands in the list, and an
/// advisory names both the requested and the enforced value.
pub proof fn lemma_count_flag_below_min(v: Seq<char>, rest: Seq<Seq<char>>, min: i32, n: i32)
    requires
        parse_i32_spec(v) == Some(n),
        n < min,
    ensures
        tail_scan(seq!["-n"@, v] + rest, min).out == seq!["-n"@, i32_dec_spec(min as int)]
            + tail_scan(rest, min).out,
        tail_scan(seq!["-n"@, v] + rest, min).advisories == seq![tail_n_advisory(n as int, min)]
            + tail_scan(rest, min).advisories,
        tail_scan(seq!["-n"@, v] + rest, min).found_count,
{
    let args = seq!["-n"@, v] + rest;
    assert(args[0] == "-n"@);
    assert(args[1] == v);
    assert(args.skip(2) =~= rest);
}

/// A count given through the explicit flag and at or above the minimum is
/// passed through unchanged, with no advisory.
pub proof fn lemma_count_flag_kept(v: Seq<char>, rest: Seq<Seq<char>>, min: i32, n: i32)
    requires
        parse_i32_spec(v) == Some(n),
        n >= min,
    ensures
        tail_scan(seq!["-n"@, v] + rest, min).out == seq!["-n"@, v] + tail_scan(rest, min).out,
        tail_scan(seq!["-n"@, v] + rest, min).advisories == tail_scan(rest, min).advisories,
        tail_scan(seq!["-n"@, v] + rest, min).found_count,
{
    let args = seq!["-n"@, v] + rest;
    assert(args[0] == "-n"@);
    assert(args[1] == v);
    assert(args.skip(2) =~= rest);
}

/// A count flag whose following value does not parse as a number leaves
/// both arguments unchanged, emits no advisory, and does not classify the
/// invocation as having supplied a count: when nothing else does either,
/// the default count flag is still owed.
pub proof fn lemma_count_flag_invalid_value(v: Seq<char>, rest: Seq<Seq<char>>, min: i32)
    requires
        parse_i32_spec(v) is None,
    ensures
        tail_scan(seq!["-n"@, v] + rest, min).out == seq!["-n"@, v] + tail_scan(rest, min).out,
        tail_scan(seq!["-n"@, v] + rest, min).advisories == tail_scan(rest, min).advisories,
        tail_scan(seq!["-n"@, v] + rest, min).found_count == tail_scan(rest, min).found_count,
{
    let args = seq!["-n"@, v] + rest;
    assert(args[0] == "-n"@);
    assert(args[1] == v);
    assert(args.skip(2) =~= rest);
}

/// A count given as a dash directly followed by a number, below the
/// minimum, is replaced by the dash form of the minimum, with an advisory
/// naming both spellings.
pub proof fn lemma_dash_count_below_min(a: Seq<char>, rest: Seq<Seq<char>>, min: i32, n: i32)
    requires
        a != "-n"@,
        a.len() > 1,
        is_dash_arg(a),
        parse_i32_spec(a.skip(1)) == Some(n),
        n < min,
    ensures
        tail_scan(seq![a] + rest, min).out == seq!["-"@ + i32_dec_spec(min as int)] + tail_scan(
            rest,
            min,
        ).out,
        tail_scan(seq![a] + rest, min).advisories == seq![tail_dash_advisory(a, min)] + tail_scan(
            rest,
            min,
        ).advisories,
        tail_scan(seq![a] + rest, min).found_count,
{
    let args = seq![a] + rest;
    assert(args[0] == a);
    assert(args.skip(1) =~= rest);
}

/// A count given as a dash directly followed by a number, at or above the
/// minimum, is passed through unchanged, with no advisory.
pub proof fn lemma_dash_count_kept(a: Seq<char>, rest: Seq<Seq<char>>, min: i32, n: i32)
    requires
        a != "-n"@,
        a.len() > 1,
        is_dash_arg(a),
        parse_i32_spec(a.skip(1)) == Some(n),
        n >= min,
    ensures
        tail_scan(seq![a] + rest, min).out == seq![a] + tail_scan(rest, min).out,
        tail_scan(seq![a] + rest, min).advisories == tail_scan(rest, min).advisories,
        tail_scan(seq![a] + rest, min).found_count,
{
    let args = seq![a] + rest;
    assert(args[0] == a);
    assert(args.skip(1) =~= rest);
}

/// An argument that neither is the count flag nor parses as a dash-number
/// is passed through untouched and does not count as a line-count request.
pub proof fn lemma_other_arg_untouched(a: Seq<char>, rest: Seq<Seq<char>>, min: i32)
    requires
        a != "-n"@,
        a.len() > 1 && is_dash_arg(a) ==> parse_i32_spec(a.skip(1)) is None,
    ensures
        tail_scan(seq![a] + rest, min).out == seq![a] + tail_scan(rest, min).out,
        tail_scan(seq![a] + rest, min).advisories == tail_scan(rest, min).advisories,
        tail_scan(seq![a] + rest, min).found_count == tail_scan(rest, min).found_count,
{
    let args = seq![a] + rest;
    assert(args[0] == a);
    assert(args.skip(1) =~= rest);
}

/// A captured pipe input changes the tail invocation in exactly one way:
/// its path is appended as the last argument. Everything else is processed
/// as if no pipe existed, so an empty pipe and no pipe at all produce the
/// same list.
pub proof fn lemma_tail_capture_only_appends(args: Seq<Seq<char>>, f: Seq<char>, min: i32)
    ensures
        tail_rewritten_spec(args, Some(f), min) == tail_rewritten_spec(args, None, min).push(f),
        tail_rewritten_spec(args, Some(f), min).last() == f,
{
    assert(tail_rewritten_spec(args, Some(f), min) =~= tail_rewritten_spec(
        args,
        None,
        min,
    ).push(f));
}

} // verus!
