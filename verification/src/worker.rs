use vstd::prelude::*;
use vstd::pervasive::unreached;
use crate::commands::auth_command_acl;
use crate::queue::WorkQueue;
use crate::pool::remove_indices;
use crate::pool::CredentialPool;
use crate::pool::PoolStatus;
use crate::probe::classify_spec;
use crate::probe::classify_probe_reply;
use crate::probe::ProbeOutcome;
use crate::record::FoundCredential;
use crate::spec_reply_is_success;
use crate::reply_is_success;
use crate::target::host_of;
use crate::target::parse_target;
use crate::target::port_of;

verus! {

/// Position of the first success among a password's replies, one per
/// username tried in snapshot order; the length when none succeeded.
pub open spec fn first_success(rs: Seq<Seq<u8>>) -> int
    decreases rs.len(),
{
    if rs.len() == 0 {
        0
    } else if spec_reply_is_success(rs[0]) {
        0
    } else {
        1 + first_success(rs.drop_first())
    }
}

/// The passwords whose reply signalled success, in attempt order: what a
/// DEFAULT-mode drain of the queue finds.
pub open spec fn successful_passwords(pws: Seq<Seq<char>>, rs: Seq<Seq<u8>>) -> Seq<Seq<char>>
    decreases pws.len(),
{
    if pws.len() == 0 || rs.len() == 0 {
        Seq::empty()
    } else {
        (if spec_reply_is_success(rs[0]) {
            seq![pws[0]]
        } else {
            Seq::empty()
        }) + successful_passwords(pws.drop_first(), rs.drop_first())
    }
}

/// One further attempt extends the findings by the new password exactly
/// when its reply signalled success.
proof fn lemma_successful_passwords_push(pws: Seq<Seq<char>>, rs: Seq<Seq<u8>>, p: Seq<char>,
    r: Seq<u8>)
    requires
        pws.len() == rs.len(),
    ensures
        successful_passwords(pws.push(p), rs.push(r)) == successful_passwords(pws, rs) + (
        if spec_reply_is_success(r) {
            seq![p]
        } else {
            Seq::<Seq<char>>::empty()
        }),
    decreases pws.len(),
{
    let tail = if spec_reply_is_success(r) {
        seq![p]
    } else {
        Seq::<Seq<char>>::empty()
    };
    if pws.len() == 0 {
        assert(pws.push(p).drop_first() =~= Seq::<Seq<char>>::empty());
        assert(rs.push(r).drop_first() =~= Seq::<Seq<u8>>::empty());
        assert(successful_passwords(Seq::empty(), Seq::empty())
            == Seq::<Seq<char>>::empty());
        assert(successful_passwords(pws.push(p), rs.push(r)) =~= tail);
        assert(successful_passwords(pws, rs) + tail =~= tail);
    } else {
        assert(pws.push(p).drop_first() =~= pws.drop_first().push(p));
        assert(rs.push(r).drop_first() =~= rs.drop_first().push(r));
        lemma_successful_passwords_push(pws.drop_first(), rs.drop_first(), p, r);
        let head = if spec_reply_is_success(rs[0]) {
            seq![pws[0]]
        } else {
            Seq::<Seq<char>>::empty()
        };
        assert(pws.push(p)[0] == pws[0]);
        assert(rs.push(r)[0] == rs[0]);
        assert(successful_passwords(pws.push(p), rs.push(r)) == head + (successful_passwords(
            pws.drop_first(),
            rs.drop_first(),
        ) + tail));
        assert(head + (successful_passwords(pws.drop_first(), rs.drop_first()) + tail) =~= (
        head + successful_passwords(pws.drop_first(), rs.drop_first())) + tail);
    }
}

/// A position with failures before it and a success at it (or the length,
/// after nothing but failures) is exactly `first_success`.
proof fn lemma_first_success_at(rs: Seq<Seq<u8>>, j: int)
    requires
        0 <= j <= rs.len(),
        forall|k: int| 0 <= k < j ==> !spec_reply_is_success(#[trigger] rs[k]),
        j == rs.len() || spec_reply_is_success(rs[j]),
    ensures
        first_success(rs) == j,
    decreases j,
{
    if rs.len() == 0 {
    } else if j == 0 {
    } else {
        assert(!spec_reply_is_success(rs[0]));
        let rest = rs.drop_first();
        assert(forall|k: int| 0 <= k < j - 1 ==> rest[k] == rs[k + 1]
            && !spec_reply_is_success(#[trigger] rest[k]));
        lemma_first_success_at(rest, j - 1);
    }
}

/// The two credential-checking modes, fixed once per target at worker
/// construction.
#[derive(PartialEq, Eq, Structural, Debug, Clone, Copy)]
pub enum AuthMode {
    /// Single-credential authentication: no username, one auth argument.
    DefaultAuth,
    /// Per-username authentication against the shared credential pool.
    Acl,
}

/// What the probe reply tells the run to do for this target.
#[derive(PartialEq, Eq, Structural, Debug, Clone, Copy)]
pub enum ProbeDecision {
    /// Authentication is required: spawn the brute-force work.
    Proceed,
    /// No authentication: record one finding with sentinel fields and do
    /// no password attempts at all.
    RecordNoAuthAndSkip,
    /// The reply matched no known marker: log and skip, nothing to do.
    SkipAmbiguous,
}

/// One worker's fixed view of its target: address and mode. The live
/// transport session, the shared queue and the shared pool stay outside;
/// the worker decides, step by step, what to send and what a reply means.
pub struct Worker {
    pub ip: String,
    pub port: String,
    pub mode: AuthMode,
}

impl Worker {
    /// A worker for one `host:port` target: the address is split once, and
    /// the mode is ACL exactly when a username list was supplied.
    pub fn new(target: &String, users_file: &String) -> (w: Worker)
        ensures
            w.ip@ == host_of(target@),
            w.port@ == port_of(target@),
            w.mode == (if users_file@.len() == 0 {
                AuthMode::DefaultAuth
            } else {
                AuthMode::Acl
            }),
    {
        let (ip, port) = parse_target(target);
        let mode = if users_file.as_str().is_empty() {
            AuthMode::DefaultAuth
        } else {
            AuthMode::Acl
        };
        Worker { ip, port, mode }
    }

    pub fn get_ip(&self) -> (r: &str)
        ensures
            r@ == self.ip@,
    {
        self.ip.as_str()
    }

    pub fn get_port(&self) -> (r: &str)
        ensures
            r@ == self.port@,
    {
        self.port.as_str()
    }

    /// A finding for this worker's target, stamped with the current time.
    pub fn found(&self, username: &String, password: &String) -> (r: FoundCredential)
        ensures
            r.ip@ == self.ip@,
            r.port@ == self.port@,
            r.username@ == username@,
            r.password@ == password@,
    {
        FoundCredential::new(&self.ip, &self.port, username, password)
    }

    /// The finding recorded when a target needs no authentication at all:
    /// both credential fields hold the sentinel `n/a`.
    pub fn no_auth_found(&self) -> (r: FoundCredential)
        ensures
            r.ip@ == self.ip@,
            r.port@ == self.port@,
            r.username@ == "n/a"@,
            r.password@ == "n/a"@,
    {
        let sentinel = String::from_str("n/a");
        self.found(&sentinel, &sentinel)
    }

    /// Reads the diagnostic reply, once per target and before any
    /// brute-force work: `-NOAUTH` lets the attack proceed; `+PONG` means
    /// the target is open, so one sentinel finding is recorded and zero
    /// password attempts follow; anything else skips the target.
    pub fn check_authentication(&self, reply: &Vec<u8>) -> (d: ProbeDecision)
        ensures
            (d == ProbeDecision::Proceed) <==> classify_spec(reply@) is AuthRequired,
            (d == ProbeDecision::RecordNoAuthAndSkip) <==> classify_spec(reply@) is NoAuth,
            (d == ProbeDecision::SkipAmbiguous) <==> classify_spec(reply@) is Ambiguous,
    {
        match classify_probe_reply(reply) {
            ProbeOutcome::AuthRequired => ProbeDecision::Proceed,
            ProbeOutcome::NoAuth => ProbeDecision::RecordNoAuthAndSkip,
            ProbeOutcome::Ambiguous => ProbeDecision::SkipAmbiguous,
        }
    }

    /// One DEFAULT-mode attempt: reads the reply to the single-argument
    /// auth command for `password`. A success reply yields exactly one
    /// finding, with the sentinel username; any other reply yields none,
    /// and the drain goes on either way — workers do not stop early.
    pub fn check_non_acl(&self, password: &String, reply: &Vec<u8>) -> (r: Option<
        FoundCredential,
    >)
        ensures
            (r is Some) <==> spec_reply_is_success(reply@),
            r is Some ==> r->Some_0.username@ == "n/a"@ && r->Some_0.password@ == password@
                && r->Some_0.ip@ == self.ip@ && r->Some_0.port@ == self.port@,
    {
        if reply_is_success(reply) {
            let sentinel = String::from_str("n/a");
            Some(self.found(&sentinel, password))
        } else {
            None
        }
    }

    /// A DEFAULT-mode drain of the whole queue, with the reply each
    /// popped password drew: every queued password is attempted exactly
    /// once, in queue order, the workers never stop early, and the
    /// findings are exactly the passwords whose reply signalled success,
    /// each with the sentinel username.
    pub fn run_queue(&self, q: &mut WorkQueue, replies: &Vec<Vec<u8>>) -> (found: Vec<
        FoundCredential,
    >)
        requires
            self.mode == AuthMode::DefaultAuth,
            replies@.len() == old(q)@.len(),
        ensures
            final(q)@.len() == 0,
            found@.map_values(|f: FoundCredential| f.password@) == successful_passwords(
                old(q)@.map_values(|p: String| p@),
                replies@.map_values(|v: Vec<u8>| v@),
            ),
            forall|i: int|
                0 <= i < found@.len() ==> (#[trigger] found@[i]).username@ == "n/a"@
                    && found@[i].ip@ == self.ip@ && found@[i].port@ == self.port@,
    {
        let ghost q0 = old(q)@;
        let ghost pwsv = q0.map_values(|p: String| p@);
        let ghost rsv = replies@.map_values(|v: Vec<u8>| v@);
        let mut found: Vec<FoundCredential> = Vec::new();
        let mut k: usize = 0;
        proof {
            assert(q0.skip(0) =~= q0);
            assert(pwsv.take(0) =~= Seq::<Seq<char>>::empty());
            assert(rsv.take(0) =~= Seq::<Seq<u8>>::empty());
            assert(found@.map_values(|f: FoundCredential| f.password@)
                =~= Seq::<Seq<char>>::empty());
        }
        while k < replies.len()
            invariant
                pwsv == q0.map_values(|p: String| p@),
                rsv == replies@.map_values(|v: Vec<u8>| v@),
                replies@.len() == q0.len(),
                k <= q0.len(),
                q@ == q0.skip(k as int),
                found@.map_values(|f: FoundCredential| f.password@) == successful_passwords(
                    pwsv.take(k as int),
                    rsv.take(k as int),
                ),
                forall|i: int|
                    0 <= i < found@.len() ==> (#[trigger] found@[i]).username@ == "n/a"@
                        && found@[i].ip@ == self.ip@ && found@[i].port@ == self.port@,
            decreases q0.len() - k,
        {
            let password = match q.pop() {
                Some(p) => p,
                None => unreached(),
            };
            proof {
                assert(q0.skip(k as int).drop_first() =~= q0.skip(k + 1));
                assert(password == q0[k as int]);
            }
            let reply = &replies[k];
            let ghost found_before = found@.map_values(|f: FoundCredential| f.password@);
            if let Some(f) = self.check_non_acl(&password, reply) {
                found.push(f);
                proof {
                    assert(found@.map_values(|f: FoundCredential| f.password@)
                        =~= found_before.push(password@));
                }
            }
            proof {
                assert(pwsv.take(k + 1) =~= pwsv.take(k as int).push(pwsv[k as int]));
                assert(rsv.take(k + 1) =~= rsv.take(k as int).push(rsv[k as int]));
                lemma_successful_passwords_push(
                    pwsv.take(k as int),
                    rsv.take(k as int),
                    pwsv[k as int],
                    rsv[k as int],
                );
                if spec_reply_is_success(rsv[k as int]) {
                    assert(found_before.push(password@) =~= found_before + seq![
                        pwsv[k as int],
                    ]);
                } else {
                    assert(found@.map_values(|f: FoundCredential| f.password@)
                        =~= found_before + Seq::<Seq<char>>::empty());
                }
            }
            k += 1;
        }
        proof {
            assert(q0.skip(q0.len() as int) =~= Seq::<String>::empty());
            assert(pwsv.take(q0.len() as int) =~= pwsv);
            assert(rsv.take(q0.len() as int) =~= rsv);
        }
        found
    }

    /// One ACL-mode attempt for a single popped password, with the reply
    /// each username of the current pool would draw: the usernames are
    /// tried in pool order, the first success yields exactly one finding
    /// and prunes exactly that username; with no success the pool stands
    /// unchanged. An empty pool after the prune is the terminal condition
    /// for the whole target.
    pub fn check_acl(&self, pool: &mut CredentialPool, password: &String, replies: &Vec<
        Vec<u8>,
    >) -> (r: (Option<FoundCredential>, PoolStatus))
        requires
            replies@.len() == old(pool)@.len(),
        ensures
            ({
                let fs = first_success(replies@.map_values(|v: Vec<u8>| v@));
                &&& fs < old(pool)@.len() ==> {
                    &&& r.0 is Some
                    &&& r.0->Some_0.username@ == old(pool)@[fs]@
                    &&& r.0->Some_0.password@ == password@
                    &&& r.0->Some_0.ip@ == self.ip@
                    &&& r.0->Some_0.port@ == self.port@
                    &&& final(pool)@ == old(pool)@.remove(fs)
                }
                &&& fs >= old(pool)@.len() ==> r.0 is None && final(pool)@ == old(pool)@
                &&& (r.1 == PoolStatus::Exhausted) <==> final(pool)@.len() == 0
            }),
    {
        let ghost rsv = replies@.map_values(|v: Vec<u8>| v@);
        let snapshot = pool.snapshot();
        let mut scan = AclScan::start(snapshot);
        while !scan.done()
            invariant
                rsv == replies@.map_values(|v: Vec<u8>| v@),
                rsv.len() == pool@.len(),
                scan.users@ == pool@,
                scan.wf(),
                scan.matched is None ==> forall|k: int|
                    0 <= k < scan.idx ==> !spec_reply_is_success(#[trigger] rsv[k]),
                scan.matched is Some ==> {
                    let m = scan.matched->Some_0 as int;
                    &&& spec_reply_is_success(rsv[m])
                    &&& forall|k: int| 0 <= k < m ==> !spec_reply_is_success(#[trigger] rsv[k])
                },
            decreases scan.users@.len() - scan.idx,
        {
            let reply = &replies[scan.idx];
            scan.on_reply(reply);
        }
        match scan.matched {
            Some(pos) => {
                proof {
                    lemma_first_success_at(rsv, pos as int);
                }
                let finding = match scan.matched_user() {
                    Some(user) => self.found(user, password),
                    None => unreached(),
                };
                let mut positions: Vec<usize> = Vec::new();
                positions.push(pos);
                proof {
                    let ps = positions@.map_values(|p: usize| p as int);
                    assert(ps =~= seq![pos as int]);
                    assert(ps.drop_first() =~= Seq::<int>::empty());
                    assert(remove_indices(pool@, Seq::<int>::empty()) == pool@);
                    assert(ps.first() == pos as int);
                    assert(remove_indices(pool@, ps) == pool@.remove(pos as int));
                }
                let status = pool.remove_positions(&positions);
                (Some(finding), status)
            },
            None => {
                proof {
                    lemma_first_success_at(rsv, rsv.len() as int);
                }
                let status = if pool.is_empty() {
                    PoolStatus::Exhausted
                } else {
                    PoolStatus::Remaining
                };
                (None, status)
            },
        }
    }
}

/// One ACL-mode scan: for a single popped password, the usernames of one
/// pool snapshot are tried in order; the first success ends the scan, so
/// at most one username matches per password attempt.
pub struct AclScan {
    /// The read-only snapshot of the pool taken for this password.
    pub users: Vec<String>,
    /// The next username position to try.
    pub idx: usize,
    /// The position of the matched username, once one succeeded.
    pub matched: Option<usize>,
}

impl AclScan {
    /// The scan keeps its cursor inside the snapshot and a match, once
    /// recorded, names a snapshot entry before the cursor.
    pub open spec fn wf(&self) -> bool {
        &&& self.idx <= self.users@.len()
        &&& (self.matched is Some ==> self.matched->Some_0 < self.idx)
    }

    /// The scan is over: a username matched, or every one was tried.
    pub open spec fn spec_done(&self) -> bool {
        self.matched is Some || self.idx == self.users@.len()
    }

    /// Begins a scan over one snapshot; an empty snapshot is done at once,
    /// so an exhausted pool leads to no attempt at all.
    pub fn start(snapshot: Vec<String>) -> (s: AclScan)
        ensures
            s.users@ == snapshot@,
            s.idx == 0,
            s.matched is None,
            s.wf(),
            snapshot@.len() == 0 ==> s.spec_done(),
    {
        AclScan { users: snapshot, idx: 0, matched: None }
    }

    pub fn done(&self) -> (b: bool)
        ensures
            b == self.spec_done(),
    {
        match self.matched {
            Some(_) => true,
            None => self.idx == self.users.len(),
        }
    }

    /// The next exchange of the scan: the two-argument auth command for
    /// the username under the cursor — or nothing, once the scan is done,
    /// so no attempt is ever issued past a match or past the snapshot.
    pub fn next_command(&self, password: &String) -> (c: Option<String>)
        requires
            self.wf(),
        ensures
            (c is Some) <==> !self.spec_done(),
            c is Some ==> c->Some_0@ == "AUTH '"@ + self.users@[self.idx as int]@ + "' '"@
                + password@ + "'\r\n"@,
    {
        if self.done() {
            None
        } else {
            Some(auth_command_acl(&self.users[self.idx], password))
        }
    }

    /// Reads the reply to the attempt for the username under the cursor: a
    /// success records the match and ends the scan; anything else moves
    /// the cursor to the next username.
    pub fn on_reply(&mut self, reply: &Vec<u8>)
        requires
            old(self).wf(),
            !old(self).spec_done(),
        ensures
            final(self).users == old(self).users,
            final(self).wf(),
            spec_reply_is_success(reply@) ==> final(self).matched == Some(old(self).idx)
                && final(self).idx == old(self).idx + 1,
            !spec_reply_is_success(reply@) ==> final(self).matched is None && final(self).idx
                == old(self).idx + 1,
    {
        if reply_is_success(reply) {
            self.matched = Some(self.idx);
        }
        let n = self.users.len();
        proof {
            assert(self.idx < n);
        }
        self.idx = self.idx + 1;
    }

    /// The matched username itself, once the scan found one.
    pub fn matched_user(&self) -> (r: Option<&String>)
        requires
            self.wf(),
        ensures
            (r is Some) <==> (self.matched is Some),
            r is Some ==> r->Some_0@ == self.users@[self.matched->Some_0 as int]@,
    {
        match self.matched {
            Some(pos) => Some(&self.users[pos]),
            None => None,
        }
    }
}

} // verus!
