use vstd::prelude::*;

verus! {

/// `s` with the elements at the given positions removed. The positions are
/// strictly ascending and each names a place in the original `s`: the
/// definition removes the later positions first, so that earlier removals
/// never shift the places the remaining positions name.
pub open spec fn remove_indices(s: Seq<String>, ps: Seq<int>) -> Seq<String>
    decreases ps.len(),
{
    if ps.len() == 0 {
        s
    } else {
        remove_indices(s, ps.drop_first()).remove(ps.first())
    }
}

/// Strictly ascending positions, each inside a sequence of length `n`.
pub open spec fn valid_positions(ps: Seq<int>, n: int) -> bool {
    &&& forall|i: int, j: int| 0 <= i < j < ps.len() ==> ps[i] < ps[j]
    &&& forall|i: int| 0 <= i < ps.len() ==> 0 <= #[trigger] ps[i] < n
}

/// Strictly ascending integers grow at least as fast as their index.
proof fn lemma_ascending_gap(ps: Seq<int>, a: int, b: int)
    requires
        forall|i: int, j: int| 0 <= i < j < ps.len() ==> ps[i] < ps[j],
        0 <= a <= b < ps.len(),
    ensures
        ps[b] - ps[a] >= b - a,
    decreases b - a,
{
    if a < b {
        lemma_ascending_gap(ps, a, b - 1);
    }
}

/// Whether a prune left any candidate usernames behind.
#[derive(PartialEq, Eq, Structural, Debug, Clone, Copy)]
pub enum PoolStatus {
    /// Every username has been matched: the terminal condition for the
    /// whole target, after which no further attempts are issued.
    Exhausted,
    /// Candidates remain; the run goes on.
    Remaining,
}

/// The shared, shrinking ordered list of candidate usernames of ACL mode.
/// Workers enumerate a snapshot of it while scanning; pruning happens in
/// one exclusive section at a time and only ever removes entries.
pub struct CredentialPool {
    users: Vec<String>,
}

impl View for CredentialPool {
    type V = Seq<String>;

    closed spec fn view(&self) -> Seq<String> {
        self.users@
    }
}

impl CredentialPool {
    /// A pool holding exactly the given usernames, in order.
    pub fn new(users: Vec<String>) -> (r: CredentialPool)
        ensures
            r@ == users@,
    {
        CredentialPool { users }
    }

    pub fn len(&self) -> (n: usize)
        ensures
            n == self@.len(),
    {
        self.users.len()
    }

    pub fn is_empty(&self) -> (b: bool)
        ensures
            b == (self@.len() == 0),
    {
        self.users.len() == 0
    }

    /// A read-only copy of the current usernames, in pool order: what one
    /// worker scans for one password.
    pub fn snapshot(&self) -> (r: Vec<String>)
        ensures
            r@ == self@,
    {
        let mut r: Vec<String> = Vec::new();
        let mut i: usize = 0;
        while i < self.users.len()
            invariant
                i <= self.users@.len(),
                r@ == self.users@.take(i as int),
            decreases self.users@.len() - i,
        {
            r.push(self.users[i].clone());
            proof {
                assert(self.users@.take(i + 1) =~= self.users@.take(i as int).push(
                    self.users@[i as int]));
            }
            i += 1;
        }
        proof {
            assert(self.users@.take(self.users@.len() as int) =~= self.users@);
        }
        r
    }

    /// Prunes the matched usernames: removes exactly the entries at the
    /// given positions (strictly ascending, each naming a place in the
    /// pool as it stands) and reports whether the pool is now exhausted,
    /// which ends the whole run for the target.
    pub fn remove_positions(&mut self, positions: &Vec<usize>) -> (status: PoolStatus)
        requires
            valid_positions(
                positions@.map_values(|p: usize| p as int),
                old(self)@.len() as int,
            ),
        ensures
            final(self)@ == remove_indices(
                old(self)@,
                positions@.map_values(|p: usize| p as int),
            ),
            final(self)@.len() == old(self)@.len() - positions@.len(),
            (status == PoolStatus::Exhausted) <==> final(self)@.len() == 0,
    {
        let ghost ps = positions@.map_values(|p: usize| p as int);
        let ghost s0 = self.users@;
        let mut j: usize = positions.len();
        proof {
            assert(ps.skip(j as int) =~= Seq::<int>::empty());
        }
        while j > 0
            invariant
                j <= positions@.len(),
                ps == positions@.map_values(|p: usize| p as int),
                valid_positions(ps, s0.len() as int),
                self.users@ == remove_indices(s0, ps.skip(j as int)),
                self.users@.len() == s0.len() - (ps.len() - j),
            decreases j,
        {
            let pos = positions[j - 1];
            proof {
                if j < positions@.len() {
                    lemma_ascending_gap(ps, j - 1, ps.len() - 1);
                }
                assert(pos < self.users@.len());
            }
            self.users.remove(pos);
            proof {
                let q = ps.skip(j - 1);
                assert(q.drop_first() =~= ps.skip(j as int));
                assert(q.first() == ps[j - 1]);
                assert(remove_indices(s0, q) == remove_indices(s0, ps.skip(j as int)).remove(
                    ps[j - 1]));
            }
            j -= 1;
        }
        proof {
            assert(ps.skip(0) =~= ps);
        }
        if self.users.len() == 0 {
            PoolStatus::Exhausted
        } else {
            PoolStatus::Remaining
        }
    }
}

} // verus!
