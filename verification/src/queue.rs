use vstd::prelude::*;
use vstd::seq_lib::lemma_multiset_commutative;
use crate::escape::escape_spec;
use crate::escape::escape_quotes;

verus! {

/// The FIFO of password candidates: the producer pushes at the back, any
/// idle worker pops at the front, and a popped candidate is gone for good.
pub struct WorkQueue {
    items: Vec<String>,
}

impl View for WorkQueue {
    type V = Seq<String>;

    closed spec fn view(&self) -> Seq<String> {
        self.items@
    }
}

impl WorkQueue {
    pub fn new() -> (q: WorkQueue)
        ensures
            q@.len() == 0,
    {
        WorkQueue { items: Vec::new() }
    }

    /// Push never blocks and never drops: the candidate joins the back.
    pub fn push(&mut self, item: String)
        ensures
            final(self)@ == old(self)@.push(item),
    {
        self.items.push(item);
    }

    /// Non-blocking pop: hands out the front candidate and removes it, or
    /// reports the queue empty at this moment.
    pub fn pop(&mut self) -> (r: Option<String>)
        ensures
            old(self)@.len() == 0 ==> r is None && final(self)@ == old(self)@,
            old(self)@.len() > 0 ==> r == Some(old(self)@.first()) && final(self)@ == old(
                self,
            )@.drop_first(),
    {
        if self.items.len() == 0 {
            None
        } else {
            let item = self.items.remove(0);
            proof {
                assert(old(self)@.remove(0) =~= old(self)@.drop_first());
            }
            Some(item)
        }
    }

    pub fn is_empty(&self) -> (b: bool)
        ensures
            b == (self@.len() == 0),
    {
        self.items.len() == 0
    }

    pub fn len(&self) -> (n: usize)
        ensures
            n == self@.len(),
    {
        self.items.len()
    }
}

/// The producer's compute: streams the wordlist lines into the queue, each
/// line escaped exactly once on its way in.
pub fn produce(lines: &Vec<String>, q: &mut WorkQueue)
    ensures
        final(q)@.len() == old(q)@.len() + lines@.len(),
        forall|i: int| 0 <= i < old(q)@.len() ==> final(q)@[i] == old(q)@[i],
        forall|i: int|
            0 <= i < lines@.len() ==> final(q)@[old(q)@.len() + i]@ == escape_spec(lines@[i]@),
{
    let ghost q0 = q@;
    let mut i: usize = 0;
    while i < lines.len()
        invariant
            i <= lines@.len(),
            q@.len() == q0.len() + i,
            forall|j: int| 0 <= j < q0.len() ==> q@[j] == q0[j],
            forall|j: int| 0 <= j < i ==> q@[q0.len() + j]@ == escape_spec(lines@[j]@),
        decreases lines@.len() - i,
    {
        q.push(escape_quotes(&lines[i]));
        i += 1;
    }
}

/// Exhaustive single use: after any number of pops, the candidates handed
/// out so far and those still queued together make up exactly the original
/// contents — the queue neither duplicates nor loses a password, so each
/// one is attempted at most once across the run.
pub proof fn lemma_exhaustive_single_use(initial: Seq<String>, k: int)
    requires
        0 <= k <= initial.len(),
    ensures
        initial.take(k).to_multiset().add(initial.skip(k).to_multiset())
            == initial.to_multiset(),
        initial.no_duplicates() ==> initial.take(k).no_duplicates(),
{
    assert(initial.take(k) + initial.skip(k) =~= initial);
    lemma_multiset_commutative(initial.take(k), initial.skip(k));
    if initial.no_duplicates() {
        assert forall|i: int, j: int|
            0 <= i < initial.take(k).len() && 0 <= j < initial.take(k).len() && i != j
            implies initial.take(k)[i] != initial.take(k)[j] by {
            assert(initial[i] != initial[j]);
        }
    }
}

} // verus!
