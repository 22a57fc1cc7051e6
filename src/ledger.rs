use crate::types::{Digest, NodeId};
use vstd::prelude::*;

verus! {

/// A view response accepted into the ledger of a round.
#[derive(Clone, Debug)]
pub struct ReceivedView<V> {
    pub node: NodeId,
    pub digest: Digest,
    pub view: V,
}

impl<V> ReceivedView<V> {
    pub fn new(node: NodeId, digest: Digest, view: V) -> (r: Self)
        ensures
            r == (ReceivedView { node, digest, view }),
    {
        ReceivedView { node, digest, view }
    }

    pub fn view(&self) -> (r: &V)
        ensures
            *r == self.view,
    {
        &self.view
    }

    pub fn into_view(self) -> (r: V)
        ensures
            r == self.view,
    {
        self.view
    }
}

/// Sum of the bucket sizes of a ledger.
pub open spec fn total<V>(s: Seq<(Digest, Seq<ReceivedView<V>>)>) -> nat
    decreases s.len(),
{
    if s.len() == 0 {
        0
    } else {
        total(s.drop_last()) + s.last().1.len()
    }
}

pub open spec fn holds_digest<V>(s: Seq<(Digest, Seq<ReceivedView<V>>)>, d: Digest) -> bool {
    exists|i: int| 0 <= i < s.len() && s[i].0 == d
}

/// Position of the bucket of digest `d` (meaningful when `holds_digest(s, d)`).
pub open spec fn index_of<V>(s: Seq<(Digest, Seq<ReceivedView<V>>)>, d: Digest) -> int {
    choose|i: int| 0 <= i < s.len() && s[i].0 == d
}

/// Number of votes for digest `d`.
pub open spec fn count<V>(s: Seq<(Digest, Seq<ReceivedView<V>>)>, d: Digest) -> nat {
    if holds_digest(s, d) {
        s[index_of(s, d)].1.len()
    } else {
        0
    }
}

/// Whether node `n` has a response in the ledger.
pub open spec fn has_voter<V>(s: Seq<(Digest, Seq<ReceivedView<V>>)>, n: NodeId) -> bool {
    exists|i: int, j: int| 0 <= i < s.len() && 0 <= j < s[i].1.len() && s[i].1[j].node == n
}

/// One bucket per digest, no empty bucket, each entry filed under its own
/// digest, and at most one entry per node over the whole ledger.
pub open spec fn ledger_wf<V>(s: Seq<(Digest, Seq<ReceivedView<V>>)>) -> bool {
    &&& forall|i: int, j: int|
        0 <= i < s.len() && 0 <= j < s.len() && i != j ==> s[i].0 != s[j].0
    &&& forall|i: int| 0 <= i < s.len() ==> s[i].1.len() > 0
    &&& forall|i: int, j: int| 0 <= i < s.len() && 0 <= j < s[i].1.len() ==> s[i].1[j].digest == s[i].0
    &&& forall|i: int, j: int, k: int, l: int|
        0 <= i < s.len() && 0 <= j < s[i].1.len() && 0 <= k < s.len() && 0 <= l < s[k].1.len()
            && (i != k || j != l) ==> s[i].1[j].node != s[k].1[l].node
}

/// The ledger after a response has been appended to the bucket of its digest.
pub open spec fn with_response<V>(s: Seq<(Digest, Seq<ReceivedView<V>>)>, rv: ReceivedView<V>) -> Seq<
    (Digest, Seq<ReceivedView<V>>),
> {
    if holds_digest(s, rv.digest) {
        let i = index_of(s, rv.digest);
        s.update(i, (s[i].0, s[i].1.push(rv)))
    } else {
        s.push((rv.digest, seq![rv]))
    }
}

/// No bucket holds more than `f` votes.
pub open spec fn no_candidate<V>(s: Seq<(Digest, Seq<ReceivedView<V>>)>, f: nat) -> bool {
    forall|k: int| 0 <= k < s.len() ==> s[k].1.len() <= f
}

/// Bucket `k` is the only one with more than `f` votes.
pub open spec fn sole_candidate<V>(s: Seq<(Digest, Seq<ReceivedView<V>>)>, f: nat, k: int) -> bool {
    &&& 0 <= k < s.len()
    &&& s[k].1.len() > f
    &&& forall|j: int| 0 <= j < s.len() && j != k ==> s[j].1.len() <= f
}

/// At least two buckets hold more than `f` votes.
pub open spec fn many_candidates<V>(s: Seq<(Digest, Seq<ReceivedView<V>>)>, f: nat) -> bool {
    exists|j: int, k: int|
        0 <= j < s.len() && 0 <= k < s.len() && j != k && s[j].1.len() > f && s[k].1.len() > f
}

/// How many buckets exceed the fault bound.
#[derive(Clone, Copy, Debug, PartialEq, Eq, Structural)]
pub enum Candidates {
    Zero,
    One(usize),
    Many,
}

struct LedgerBucket<V> {
    digest: Digest,
    views: Vec<ReceivedView<V>>,
}

/// The votes of one round: for each distinct digest, the responses that
/// carried it, in arrival order.
pub struct VoteLedger<V> {
    buckets: Vec<LedgerBucket<V>>,
    voters: Vec<NodeId>,
}

impl<V> View for VoteLedger<V> {
    type V = Seq<(Digest, Seq<ReceivedView<V>>)>;

    closed spec fn view(&self) -> Self::V {
        buckets_view(self.buckets@)
    }
}

spec fn buckets_view<V>(b: Seq<LedgerBucket<V>>) -> Seq<(Digest, Seq<ReceivedView<V>>)> {
    b.map_values(|b: LedgerBucket<V>| (b.digest, b.views@))
}

/// The nodes of all entries of `buckets`, bucket by bucket.
fn collect_voters<V>(buckets: &Vec<LedgerBucket<V>>) -> (r: Vec<NodeId>)
    requires
        ledger_wf(buckets_view(buckets@)),
    ensures
        r@.no_duplicates(),
        r@.len() == total(buckets_view(buckets@)),
        forall|n: NodeId| r@.contains(n) <==> has_voter(buckets_view(buckets@), n),
{
    let ghost s = buckets_view(buckets@);
    let mut r: Vec<NodeId> = Vec::new();
    let mut i: usize = 0;
    while i < buckets.len()
        invariant
            s == buckets_view(buckets@),
            ledger_wf(s),
            0 <= i <= s.len(),
            r@.no_duplicates(),
            r@.len() == total(s.take(i as int)),
            forall|n: NodeId| r@.contains(n) <==> has_voter(s.take(i as int), n),
        decreases s.len() - i,
    {
        let views = &buckets[i].views;
        assert(views@ == s[i as int].1);
        let mut j: usize = 0;
        while j < views.len()
            invariant
                s == buckets_view(buckets@),
                ledger_wf(s),
                0 <= i < s.len(),
                views@ == s[i as int].1,
                0 <= j <= views@.len(),
                r@.no_duplicates(),
                r@.len() == total(s.take(i as int)) + j,
                forall|n: NodeId|
                    r@.contains(n) <==> (has_voter(s.take(i as int), n) || exists|jj: int|
                        0 <= jj < j && #[trigger] views@[jj].node == n),
            decreases views@.len() - j,
        {
            let node = views[j].node;
            proof {
                if r@.contains(node) {
                    if has_voter(s.take(i as int), node) {
                        let (a, b) = choose|a: int, b: int|
                            0 <= a < s.take(i as int).len() && 0 <= b < s.take(i as int)[a].1.len()
                                && s.take(i as int)[a].1[b].node == node;
                        assert(s[a].1[b].node == s[i as int].1[j as int].node);
                    } else {
                        let jj = choose|jj: int| 0 <= jj < j && #[trigger] views@[jj].node == node;
                        assert(s[i as int].1[jj].node == s[i as int].1[j as int].node);
                    }
                }
            }
            let ghost before = r@;
            r.push(node);
            proof {
                assert forall|a: int, b: int| 0 <= a < r@.len() && 0 <= b < r@.len() && a != b implies r@[a]
                    != r@[b] by {
                    if a == before.len() {
                        assert(before[b] == r@[b]);
                    } else if b == before.len() {
                        assert(before[a] == r@[a]);
                    }
                }
                assert forall|n: NodeId|
                    r@.contains(n) <==> (has_voter(s.take(i as int), n) || exists|jj: int|
                        0 <= jj < j + 1 && #[trigger] views@[jj].node == n) by {
                    if r@.contains(n) {
                        let k = choose|k: int| 0 <= k < r@.len() && r@[k] == n;
                        if k < before.len() {
                            assert(before[k] == n);
                        } else {
                            assert(views@[j as int].node == n);
                        }
                    }
                    if exists|jj: int| 0 <= jj < j + 1 && #[trigger] views@[jj].node == n {
                        let jj = choose|jj: int| 0 <= jj < j + 1 && #[trigger] views@[jj].node == n;
                        if jj < j {
                            assert(before.contains(n));
                        }
                        assert(r@[before.len() as int] == node);
                    }
                    if before.contains(n) {
                        let k = choose|k: int| 0 <= k < before.len() && before[k] == n;
                        assert(r@[k] == n);
                    }
                }
            }
            j = j + 1;
        }
        proof {
            let p = s.take(i as int);
            let q = s.take(i + 1);
            assert(q.drop_last() =~= p);
            assert forall|n: NodeId|
                has_voter(q, n) <==> (has_voter(p, n) || exists|jj: int|
                    0 <= jj < views@.len() && #[trigger] views@[jj].node == n) by {
                if has_voter(q, n) {
                    let (a, b) = choose|a: int, b: int|
                        0 <= a < q.len() && 0 <= b < q[a].1.len() && q[a].1[b].node == n;
                    if a < i {
                        assert(p[a].1[b].node == n);
                    } else {
                        assert(views@[b].node == n);
                    }
                }
                if has_voter(p, n) {
                    let (a, b) = choose|a: int, b: int|
                        0 <= a < p.len() && 0 <= b < p[a].1.len() && p[a].1[b].node == n;
                    assert(q[a].1[b].node == n);
                }
                if exists|jj: int| 0 <= jj < views@.len() && #[trigger] views@[jj].node == n {
                    let jj = choose|jj: int| 0 <= jj < views@.len() && #[trigger] views@[jj].node == n;
                    assert(q[i as int].1[jj].node == n);
                }
            }
        }
        i = i + 1;
    }
    assert(s.take(s.len() as int) =~= s);
    r
}

proof fn lemma_total_update<V>(
    s: Seq<(Digest, Seq<ReceivedView<V>>)>,
    i: int,
    p: (Digest, Seq<ReceivedView<V>>),
)
    requires
        0 <= i < s.len(),
    ensures
        total(s.update(i, p)) == total(s) - s[i].1.len() + p.1.len(),
    decreases s.len(),
{
    let t = s.update(i, p);
    if i == s.len() - 1 {
        assert(t.drop_last() =~= s.drop_last());
    } else {
        lemma_total_update(s.drop_last(), i, p);
        assert(t.drop_last() =~= s.drop_last().update(i, p));
    }
}

proof fn lemma_total_push<V>(s: Seq<(Digest, Seq<ReceivedView<V>>)>, p: (Digest, Seq<ReceivedView<V>>))
    ensures
        total(s.push(p)) == total(s) + p.1.len(),
{
    assert(s.push(p).drop_last() =~= s);
}

impl<V> VoteLedger<V> {
    pub closed spec fn wf(&self) -> bool {
        &&& ledger_wf(self@)
        &&& self.voters@.no_duplicates()
        &&& self.voters@.len() == total(self@)
        &&& forall|n: NodeId| self.voters@.contains(n) <==> has_voter(self@, n)
    }

    pub fn new() -> (r: Self)
        ensures
            r.wf(),
            r@ == Seq::<(Digest, Seq<ReceivedView<V>>)>::empty(),
    {
        let r = VoteLedger { buckets: Vec::new(), voters: Vec::new() };
        assert(r@ =~= Seq::<(Digest, Seq<ReceivedView<V>>)>::empty());
        r
    }

    /// Number of distinct digests.
    pub fn len(&self) -> (r: usize)
        ensures
            r == self@.len(),
    {
        self.buckets.len()
    }

    /// Number of votes in bucket `k`.
    pub fn bucket_len(&self, k: usize) -> (r: usize)
        requires
            k < self@.len(),
        ensures
            r == self@[k as int].1.len(),
    {
        self.buckets[k].views.len()
    }

    /// The first response filed in bucket `k`.
    pub fn first_view(&self, k: usize) -> (r: &V)
        requires
            self.wf(),
            k < self@.len(),
        ensures
            *r == self@[k as int].1[0].view,
    {
        assert(self.buckets@[k as int].views@ == self@[k as int].1);
        &self.buckets[k].views[0].view
    }

    /// Number of responses accepted so far.
    pub fn responses(&self) -> (r: usize)
        requires
            self.wf(),
        ensures
            r == total(self@),
    {
        self.voters.len()
    }

    pub fn has_voted(&self, node: NodeId) -> (r: bool)
        requires
            self.wf(),
        ensures
            r == has_voter(self@, node),
    {
        let mut i: usize = 0;
        while i < self.voters.len()
            invariant
                self.wf(),
                0 <= i <= self.voters@.len(),
                forall|k: int| 0 <= k < i ==> self.voters@[k] != node,
            decreases self.voters@.len() - i,
        {
            if self.voters[i] == node {
                assert(self.voters@[i as int] == node);
                assert(self.voters@.contains(node));
                return true;
            }
            i = i + 1;
        }
        assert(!self.voters@.contains(node));
        false
    }

    fn find(&self, d: &Digest) -> (r: Option<usize>)
        requires
            self.wf(),
        ensures
            r is None ==> !holds_digest(self@, *d),
            r matches Some(i) ==> i < self@.len() && i == index_of(self@, *d) && holds_digest(
                self@,
                *d,
            ),
    {
        let mut i: usize = 0;
        while i < self.buckets.len()
            invariant
                self.wf(),
                0 <= i <= self@.len(),
                self@.len() == self.buckets@.len(),
                forall|k: int| 0 <= k < i ==> self@[k].0 != *d,
            decreases self@.len() - i,
        {
            if self.buckets[i].digest == *d {
                proof {
                    assert(self@[i as int].0 == *d);
                    assert(holds_digest(self@, *d));
                    let j = index_of(self@, *d);
                    assert(self@[j].0 == *d);
                    assert(ledger_wf(self@));
                    if j != i {
                        assert(self@[j].0 != self@[i as int].0);
                    }
                }
                return Some(i);
            }
            i = i + 1;
        }
        None
    }

    /// Votes for digest `d`.
    pub fn count_of(&self, d: &Digest) -> (r: usize)
        requires
            self.wf(),
        ensures
            r == count(self@, *d),
    {
        match self.find(d) {
            Some(i) => self.buckets[i].views.len(),
            None => 0,
        }
    }

    /// Files a response from a node that has not voted in this round.
    pub fn record(&mut self, rv: ReceivedView<V>)
        requires
            old(self).wf(),
            !has_voter(old(self)@, rv.node),
        ensures
            final(self).wf(),
            final(self)@ == with_response(old(self)@, rv),
            ledger_wf(final(self)@),
            total(final(self)@) == total(old(self)@) + 1,
    {
        let ghost s = self@;
        let node = rv.node;
        let digest = rv.digest;
        let ghost grv = rv;
        let ghost target = with_response(s, grv);
        match self.find(&digest) {
            Some(i) => {
                let mut b = self.buckets.remove(i);
                b.views.push(rv);
                self.buckets.insert(i, b);
                proof {
                    assert(self@ =~= target);
                    lemma_total_update(s, i as int, target[i as int]);
                }
            },
            None => {
                let mut views = Vec::new();
                views.push(rv);
                self.buckets.push(LedgerBucket { digest, views });
                proof {
                    assert(self@ =~= target);
                    lemma_total_push(s, target.last());
                }
            },
        }
        self.voters.push(node);
        proof {
            let t = self@;
            assert forall|n: NodeId| has_voter(t, n) <==> (has_voter(s, n) || n == node) by {
                if has_voter(t, n) {
                    let (i, j) = choose|i: int, j: int|
                        0 <= i < t.len() && 0 <= j < t[i].1.len() && t[i].1[j].node == n;
                    if n != node {
                        assert(0 <= i < s.len() && 0 <= j < s[i].1.len() && s[i].1[j].node == n);
                    }
                }
                if has_voter(s, n) {
                    let (i, j) = choose|i: int, j: int|
                        0 <= i < s.len() && 0 <= j < s[i].1.len() && s[i].1[j].node == n;
                    assert(t[i].1[j] == s[i].1[j]);
                }
                if n == node {
                    if holds_digest(s, grv.digest) {
                        let i = index_of(s, grv.digest);
                        assert(t[i].1[s[i].1.len() as int] == grv);
                    } else {
                        assert(t[s.len() as int].1[0] == grv);
                    }
                }
            }
            assert forall|n: NodeId| self.voters@.contains(n) <==> has_voter(self@, n) by {
                if self.voters@.contains(n) {
                    let k = choose|k: int| 0 <= k < self.voters@.len() && self.voters@[k] == n;
                    if k < self.voters@.len() - 1 {
                        assert(old(self).voters@.contains(n));
                    }
                }
                if old(self).voters@.contains(n) {
                    let k = choose|k: int|
                        0 <= k < old(self).voters@.len() && old(self).voters@[k] == n;
                    assert(self.voters@[k] == n);
                }
                assert(self.voters@.last() == node);
            }
            assert forall|i: int, j: int, k: int, l: int|
                0 <= i < t.len() && 0 <= j < t[i].1.len() && 0 <= k < t.len() && 0 <= l
                    < t[k].1.len() && (i != k || j != l) implies t[i].1[j].node
                != t[k].1[l].node by {
                let a = t[i].1[j];
                let b = t[k].1[l];
                if a == grv {
                    if b.node == grv.node {
                        assert(has_voter(s, grv.node));
                    }
                }
            }
            assert(ledger_wf(t));
            assert(!old(self).voters@.contains(node));
            assert forall|a: int, b: int|
                0 <= a < self.voters@.len() && 0 <= b < self.voters@.len() && a != b implies self.voters@[a]
                != self.voters@[b] by {
                let ov = old(self).voters@;
                if a == ov.len() {
                    assert(ov[b] == self.voters@[b]);
                } else if b == ov.len() {
                    assert(ov[a] == self.voters@[a]);
                }
            }
            assert(self.voters@.no_duplicates());
            assert(self.voters@.len() == total(self@));
        }
    }

    /// Which buckets hold more than `f` votes.
    pub fn candidates(&self, f: usize) -> (r: Candidates)
        requires
            self.wf(),
        ensures
            r is Zero <==> no_candidate(self@, f as nat),
            r matches Candidates::One(k) ==> sole_candidate(self@, f as nat, k as int),
            r is Many <==> many_candidates(self@, f as nat),
    {
        let mut first: Option<usize> = None;
        let mut second: Option<usize> = None;
        let mut k: usize = 0;
        while k < self.buckets.len()
            invariant
                0 <= k <= self@.len(),
                self@.len() == self.buckets@.len(),
                first is None ==> second is None,
                first is None ==> forall|m: int| 0 <= m < k ==> self@[m].1.len() <= f,
                first matches Some(a) ==> a < k && self@[a as int].1.len() > f,
                second is None ==> (first matches Some(a) ==> forall|m: int|
                    0 <= m < k && m != a ==> self@[m].1.len() <= f),
                second matches Some(b) ==> first matches Some(a) && b < k && b != a
                    && self@[b as int].1.len() > f,
            decreases self@.len() - k,
        {
            if self.buckets[k].views.len() > f {
                if first.is_none() {
                    first = Some(k);
                } else if second.is_none() {
                    second = Some(k);
                }
            }
            k = k + 1;
        }
        match (first, second) {
            (Some(_), Some(_)) => Candidates::Many,
            (Some(a), None) => Candidates::One(a),
            _ => Candidates::Zero,
        }
    }

    /// Each digest with its number of votes, in order of first arrival.
    pub fn tallies(&self) -> (r: Vec<(Digest, usize)>)
        ensures
            r@.len() == self@.len(),
            forall|k: int|
                0 <= k < r@.len() ==> r@[k].0 == self@[k].0 && r@[k].1 == self@[k].1.len(),
    {
        let mut r: Vec<(Digest, usize)> = Vec::new();
        let mut k: usize = 0;
        while k < self.buckets.len()
            invariant
                0 <= k <= self@.len(),
                self@.len() == self.buckets@.len(),
                r@.len() == k,
                forall|m: int|
                    0 <= m < k ==> r@[m].0 == self@[m].0 && r@[m].1 == self@[m].1.len(),
            decreases self@.len() - k,
        {
            r.push((self.buckets[k].digest, self.buckets[k].views.len()));
            k = k + 1;
        }
        r
    }

    /// Takes out the bucket of digest `d`, if there is one.
    pub fn remove(&mut self, d: &Digest) -> (r: Option<Vec<ReceivedView<V>>>)
        requires
            old(self).wf(),
        ensures
            final(self).wf(),
            !holds_digest(old(self)@, *d) ==> r is None && final(self)@ == old(self)@,
            holds_digest(old(self)@, *d) ==> (r matches Some(views) && views@ == old(self)@[index_of(
                old(self)@,
                *d,
            )].1 && final(self)@ == old(self)@.remove(index_of(old(self)@, *d))),
    {
        match self.find(d) {
            None => None,
            Some(i) => {
                let ghost s = self@;
                let b = self.buckets.remove(i);
                proof {
                    let t = self@;
                    assert(t =~= s.remove(i as int));
                    assert forall|a: int, c: int, k: int, l: int|
                        0 <= a < t.len() && 0 <= c < t[a].1.len() && 0 <= k < t.len() && 0 <= l < t[k].1.len()
                            && (a != k || c != l) implies t[a].1[c].node != t[k].1[l].node by {
                        let a2 = if a < i { a } else { a + 1 };
                        let k2 = if k < i { k } else { k + 1 };
                        assert(t[a] == s[a2] && t[k] == s[k2]);
                    }
                    assert forall|a: int, k: int| 0 <= a < t.len() && 0 <= k < t.len() && a != k implies t[a].0 != t[k].0 by {
                        let a2 = if a < i { a } else { a + 1 };
                        let k2 = if k < i { k } else { k + 1 };
                        assert(t[a] == s[a2] && t[k] == s[k2]);
                    }
                    assert(ledger_wf(t));
                }
                self.voters = collect_voters(&self.buckets);
                Some(b.views)
            },
        }
    }

    /// The last response filed in bucket `k`.
    pub fn into_last_view(self, k: usize) -> (r: V)
        requires
            self.wf(),
            k < self@.len(),
        ensures
            r == self@[k as int].1.last().view,
    {
        let mut buckets = self.buckets;
        assert(self@[k as int].1.len() > 0);
        let mut b = buckets.remove(k);
        assert(b.views@ == self@[k as int].1);
        let last = b.views.pop().unwrap();
        last.view
    }

    /// Bounds the number of responses by the size of any set that holds
    /// every voter.
    pub proof fn lemma_voters_bound(&self, known: Set<NodeId>)
        requires
            self.wf(),
            known.finite(),
            forall|n: NodeId| has_voter(self@, n) ==> known.contains(n),
        ensures
            total(self@) <= known.len(),
    {
        self.voters@.unique_seq_to_set();
        assert(self.voters@.to_set().subset_of(known));
        vstd::set_lib::lemma_len_subset(self.voters@.to_set(), known);
    }
}

} // verus!
