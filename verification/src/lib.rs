pub mod commands;
pub mod escape;
pub mod pool;
pub mod probe;
pub mod queue;
pub mod record;
pub mod session;
pub mod target;
pub mod worker;

use vstd::prelude::*;

verus! {

/// The run's configuration, as the command line hands it over: one target
/// or a file of targets, an optional username list (absent means DEFAULT
/// mode), the password wordlist, and the worker count.
pub struct Args {
    /// Timeout in seconds for each connection attempt.
    pub timeout: u64,
    /// One target, as `host:port`.
    pub target: String,
    /// A file naming one target per line, when a list was given.
    pub target_list: Option<String>,
    /// The username list file; empty means single-credential mode.
    pub users: String,
    /// The password wordlist file.
    pub passwords: String,
    /// Number of worker threads per target.
    pub threads: u8,
    /// Where confirmed findings are appended, when requested.
    pub output_file: Option<String>,
}

/// Chooses the targets of one run: every line of the target-list file when
/// one was named, else the single configured target. Targets are then
/// processed strictly in this order, one pool of workers at a time.
pub fn run(args: &Args, target_list_lines: &Option<Vec<String>>) -> (targets: Vec<String>)
    requires
        (args.target_list is Some) <==> (target_list_lines is Some),
    ensures
        match target_list_lines {
            Some(lines) => targets@ == lines@,
            None => targets@.len() == 1 && targets@[0]@ == args.target@,
        },
{
    match target_list_lines {
        Some(lines) => {
            let mut targets: Vec<String> = Vec::new();
            let mut i: usize = 0;
            while i < lines.len()
                invariant
                    i <= lines@.len(),
                    targets@ == lines@.take(i as int),
                decreases lines@.len() - i,
            {
                targets.push(lines[i].clone());
                proof {
                    assert(lines@.take(i + 1) =~= lines@.take(i as int).push(lines@[i as int]));
                }
                i += 1;
            }
            proof {
                assert(lines@.take(lines@.len() as int) =~= lines@);
            }
            targets
        },
        None => {
            let mut targets: Vec<String> = Vec::new();
            targets.push(args.target.clone());
            targets
        },
    }
}

/// Marker byte of a positive status reply: `+`, the only signal of a
/// successful authentication attempt.
pub open spec fn success_marker() -> u8 {
    43u8
}

/// A reply signals success exactly when its first byte is the positive
/// status marker `+` (0x2B); an empty reply never does.
pub open spec fn spec_reply_is_success(reply: Seq<u8>) -> bool {
    reply.len() > 0 && reply[0] == success_marker()
}

/// Classifies one reply: success is recognized solely by the first byte
/// being `+`; malformed or empty replies count as failed attempts.
pub fn reply_is_success(reply: &Vec<u8>) -> (b: bool)
    ensures
        b == spec_reply_is_success(reply@),
{
    reply.len() > 0 && reply[0] == 43u8
}

} // verus!
