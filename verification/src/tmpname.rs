//! Naming of capture files: a piped input is saved under
//! `<dir>/<prefix>_<pid>_<timestamp>_<random-hex>.txt`, and a name is only
//! handed out after a check that no file by that name already exists.

use vstd::prelude::*;
use crate::nums::dec_spec;
use crate::nums::hex8_spec;
use crate::nums::lemma_hex8_injective;
use crate::nums::u32_to_dec;
use crate::nums::u32_to_hex8;
use crate::outside::now_timestamp;
use crate::outside::path_exists;
use crate::outside::random_u32;

verus! {

/// The directory where captured pipe input is stored.
pub const CAPTURE_DIR: &'static str = "/tmp/cursor_outputs";

/// The full capture-file name built from its five components.
pub open spec fn tmpname_spec(
    dir: Seq<char>,
    prefix: Seq<char>,
    pid: u32,
    timestamp: Seq<char>,
    random: u32,
) -> Seq<char> {
    dir + "/"@ + prefix + "_"@ + dec_spec(pid as int) + "_"@ + timestamp + "_"@ + hex8_spec(
        random,
    ) + ".txt"@
}

/// Build the capture-file name from its components.
pub fn make_tmpfile_name(dir: &str, prefix: &str, pid: u32, timestamp: &str, random: u32) -> (r:
    String)
    ensures
        r@ == tmpname_spec(dir@, prefix@, pid, timestamp@, random),
{
    let mut r = String::from_str(dir);
    r.append("/");
    r.append(prefix);
    r.append("_");
    let pid_text = u32_to_dec(pid);
    r.append(pid_text.as_str());
    r.append("_");
    r.append(timestamp);
    r.append("_");
    let random_text = u32_to_hex8(random);
    r.append(random_text.as_str());
    r.append(".txt");
    proof {
        assert(r@ =~= tmpname_spec(dir@, prefix@, pid, timestamp@, random));
    }
    r
}

/// Generate a capture-file name that no existing file bears: draw a fresh
/// timestamp and random suffix, and try again for as long as a file of the
/// generated name is already on disk. The retry counter is wide enough
/// that it never runs out in practice; a name is returned only when the
/// existence check found none.
pub fn generate_unique_tmpfile(dir: &str, prefix: &str, pid: u32) -> (r: Option<String>)
    ensures
        r matches Some(name) ==> exists|t: Seq<char>, random: u32|
            name@ == tmpname_spec(dir@, prefix@, pid, t, random),
{
    let mut fuel: u64 = u64::MAX;
    while fuel > 0
        invariant
            true,
        decreases fuel,
    {
        let timestamp = now_timestamp();
        let random = random_u32();
        let candidate = make_tmpfile_name(dir, prefix, pid, timestamp.as_str(), random);
        if !path_exists(candidate.as_str()) {
            proof {
                assert(candidate@ == tmpname_spec(dir@, prefix@, pid, timestamp@, random));
            }
            return Some(candidate);
        }
        fuel -= 1;
    }
    None
}

/// Piped input is captured if and only if the session is agent-driven,
/// standard input is a pipe rather than a terminal, and the pipe delivered
/// at least one byte. An empty pipe produces no capture file, and outside
/// an agent session standard input is never drained.
pub fn should_capture(agent: bool, stdin_is_pipe: bool, input_len: usize) -> (r: bool)
    ensures
        r == (agent && stdin_is_pipe && input_len > 0),
{
    agent && stdin_is_pipe && input_len > 0
}

/// Two capture-file names that differ only in their random suffix are
/// distinct: a run of generated names never repeats as long as the random
/// components differ, whatever the clock does.
pub proof fn lemma_distinct_randoms_distinct_names(
    dir: Seq<char>,
    prefix: Seq<char>,
    pid: u32,
    timestamp: Seq<char>,
    r1: u32,
    r2: u32,
)
    requires
        r1 != r2,
    ensures
        tmpname_spec(dir, prefix, pid, timestamp, r1) != tmpname_spec(
            dir,
            prefix,
            pid,
            timestamp,
            r2,
        ),
{
    let stem = dir + "/"@ + prefix + "_"@ + dec_spec(pid as int) + "_"@ + timestamp + "_"@;
    let n1 = tmpname_spec(dir, prefix, pid, timestamp, r1);
    let n2 = tmpname_spec(dir, prefix, pid, timestamp, r2);
    assert(n1 =~= stem + hex8_spec(r1) + ".txt"@);
    assert(n2 =~= stem + hex8_spec(r2) + ".txt"@);
    if n1 == n2 {
        assert(n1.subrange(stem.len() as int, stem.len() as int + 8) =~= hex8_spec(r1));
        assert(n2.subrange(stem.len() as int, stem.len() as int + 8) =~= hex8_spec(r2));
        lemma_hex8_injective(r1, r2);
        assert(false);
    }
}

} // verus!
