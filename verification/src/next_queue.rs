//! The queue of upcoming pieces, fed by the seven-bag randomizer: whenever
//! the queue runs low, a freshly shuffled permutation of all seven kinds is
//! appended. The whole stream of draws therefore divides into consecutive
//! bags of seven, each containing every kind exactly once.

use vstd::multiset::Multiset;
use vstd::prelude::*;

use rand::seq::SliceRandom;

use crate::tetromino::Tetromino;

verus! {

/// How many upcoming pieces are always available to preview.
pub const NEXT_SIZE: usize = 5;

/// The number of pieces in one bag: one of each kind.
pub const BAG_SIZE: usize = 7;

/// One of each of the seven kinds.
pub open spec fn full_bag() -> Multiset<Tetromino> {
    Multiset::empty().insert(Tetromino::I).insert(Tetromino::O).insert(Tetromino::T).insert(
        Tetromino::S,
    ).insert(Tetromino::Z).insert(Tetromino::J).insert(Tetromino::L)
}

/// The sequence divides into consecutive runs of seven, each holding every
/// kind exactly once.
pub open spec fn bag_partitioned(s: Seq<Tetromino>) -> bool
    decreases s.len(),
{
    if s.len() == 0 {
        true
    } else if s.len() < 7 {
        false
    } else {
        s.take(7).to_multiset() == full_bag() && bag_partitioned(s.skip(7))
    }
}

/// Appending one full bag keeps the stream partitioned into bags.
proof fn lemma_bag_partitioned_append(s: Seq<Tetromino>, b: Seq<Tetromino>)
    requires
        bag_partitioned(s),
        b.len() == 7,
        b.to_multiset() == full_bag(),
    ensures
        bag_partitioned(s + b),
    decreases s.len(),
{
    if s.len() == 0 {
        assert((s + b) =~= b);
        assert((s + b).take(7) =~= b);
        assert((s + b).skip(7) =~= Seq::<Tetromino>::empty());
        assert(bag_partitioned((s + b).skip(7)));
        assert(bag_partitioned(s + b));
    } else {
        assert((s + b).take(7) =~= s.take(7));
        assert((s + b).skip(7) =~= s.skip(7) + b);
        lemma_bag_partitioned_append(s.skip(7), b);
        assert(bag_partitioned(s + b));
    }
}

/// In a bag-partitioned stream, every window of seven that starts at a
/// multiple of seven holds every kind exactly once.
proof fn lemma_partitioned_window(s: Seq<Tetromino>, k: int)
    requires
        bag_partitioned(s),
        0 <= k,
        7 * k + 7 <= s.len(),
    ensures
        s.subrange(7 * k, 7 * k + 7).to_multiset() == full_bag(),
    decreases k,
{
    if k == 0 {
        assert(s.subrange(0, 7) =~= s.take(7));
    } else {
        lemma_partitioned_window(s.skip(7), k - 1);
        assert(s.subrange(7 * k, 7 * k + 7) =~= s.skip(7).subrange(
            7 * (k - 1),
            7 * (k - 1) + 7,
        ));
    }
}

/// Each kind appears exactly once in a full bag.
pub proof fn lemma_full_bag_count(t: Tetromino)
    ensures
        full_bag().count(t) == 1,
{
    broadcast use vstd::multiset::group_multiset_axioms;

}

/// The queue of upcoming pieces. `queue` holds the pieces in draw order,
/// soonest first; `history` records every piece drawn so far, for stating
/// the fairness of the whole stream of draws.
#[derive(Clone)]
pub struct NextQueue {
    queue: Vec<Tetromino>,
    history: Ghost<Seq<Tetromino>>,
}

/// Relies on rand::seq::SliceRandom::shuffle, driven by the thread-local
/// generator from rand::rng(): it permutes the slice in place, so the
/// multiset of elements and the length are unchanged.
#[verifier::external_body]
fn shuffle_pieces(v: &mut Vec<Tetromino>)
    ensures
        final(v)@.to_multiset() == old(v)@.to_multiset(),
        final(v)@.len() == old(v)@.len(),
{
    v.shuffle(&mut rand::rng());
}

/// A freshly shuffled full bag.
fn fresh_bag() -> (b: Vec<Tetromino>)
    ensures
        b@.len() == 7,
        b@.to_multiset() == full_bag(),
{
    let mut b: Vec<Tetromino> = Vec::new();
    b.push(Tetromino::I);
    b.push(Tetromino::O);
    b.push(Tetromino::T);
    b.push(Tetromino::S);
    b.push(Tetromino::Z);
    b.push(Tetromino::J);
    b.push(Tetromino::L);
    proof {
        broadcast use vstd::seq_lib::group_to_multiset_ensures;
        broadcast use vstd::multiset::group_multiset_axioms;

        vstd::multiset::lemma_multiset_empty_len::<Tetromino>(
            Seq::<Tetromino>::empty().to_multiset(),
        );
        assert(b@ =~= Seq::<Tetromino>::empty().push(Tetromino::I).push(Tetromino::O).push(
            Tetromino::T,
        ).push(Tetromino::S).push(Tetromino::Z).push(Tetromino::J).push(Tetromino::L));
        assert(Seq::<Tetromino>::empty().to_multiset() =~= Multiset::<Tetromino>::empty());
        assert(b@.to_multiset() =~= full_bag());
    }
    shuffle_pieces(&mut b);
    b
}

impl NextQueue {
    /// The upcoming pieces in draw order, soonest first.
    pub closed spec fn upcoming(self) -> Seq<Tetromino> {
        self.queue@
    }

    /// Every piece drawn so far, oldest first.
    pub closed spec fn drawn(self) -> Seq<Tetromino> {
        self.history@
    }

    /// The whole stream the randomizer committed to: past draws followed by
    /// the upcoming pieces. The queue always ends exactly at a bag boundary.
    pub open spec fn stream(self) -> Seq<Tetromino> {
        self.drawn() + self.upcoming()
    }

    /// More than `NEXT_SIZE` pieces are always queued, and the stream
    /// divides into full bags.
    pub open spec fn wf(self) -> bool {
        &&& NEXT_SIZE < self.upcoming().len() <= NEXT_SIZE + BAG_SIZE
        &&& bag_partitioned(self.stream())
    }

    /// A queue holding one freshly shuffled bag, nothing drawn yet.
    pub fn new() -> (q: NextQueue)
        ensures
            q.wf(),
            q.drawn().len() == 0,
            q.upcoming().len() == 7,
    {
        let bag = fresh_bag();
        let q = NextQueue { queue: bag, history: Ghost(Seq::empty()) };
        proof {
            assert(q.stream() =~= q.queue@);
            assert(q.stream().take(7) =~= q.stream());
            assert(q.stream().skip(7) =~= Seq::<Tetromino>::empty());
            assert(bag_partitioned(q.stream().skip(7)));
            assert(bag_partitioned(q.stream()));
        }
        q
    }

    /// Pop and return the front piece, appending a fresh bag whenever the
    /// queue would otherwise drop to `NEXT_SIZE`. The pieces already queued
    /// keep their order; the draw history grows by the returned piece.
    pub fn next_tetromino(&mut self) -> (t: Tetromino)
        requires
            old(self).wf(),
        ensures
            final(self).wf(),
            t == old(self).upcoming()[0],
            final(self).drawn() == old(self).drawn().push(t),
            final(self).stream() == old(self).stream() || final(self).stream() == old(
                self,
            ).stream() + final(self).upcoming().skip(old(self).upcoming().len() - 1),
            forall|i: int|
                1 <= i < old(self).upcoming().len() ==> final(self).upcoming()[i - 1] == old(
                    self,
                ).upcoming()[i],
            final(self).upcoming().len() > NEXT_SIZE,
    {
        let ghost old_q = *self;
        let t = self.queue.remove(0);
        proof {
            self.history@ = self.history@.push(t);
            assert(self.stream() =~= old_q.stream());
        }
        if self.queue.len() <= NEXT_SIZE {
            let bag = fresh_bag();
            let ghost mid = *self;
            let mut i: usize = 0;
            while i < bag.len()
                invariant
                    bag@.len() == 7,
                    i <= 7,
                    self.queue@ == mid.queue@ + bag@.take(i as int),
                    self.history@ == mid.history@,
                decreases 7 - i,
            {
                self.queue.push(bag[i]);
                proof {
                    assert(self.queue@ =~= mid.queue@ + bag@.take(i + 1));
                }
                i = i + 1;
            }
            proof {
                assert(self.queue@ =~= mid.queue@ + bag@);
                assert(self.stream() =~= mid.stream() + bag@);
                lemma_bag_partitioned_append(mid.stream(), bag@);
                assert(self.upcoming().skip(old_q.upcoming().len() - 1) =~= bag@);
                assert(self.stream() =~= old_q.stream() + bag@);
            }
        }
        t
    }

    /// The piece the next draw will return, without consuming it.
    pub fn peek(&self) -> (t: Tetromino)
        requires
            self.wf(),
        ensures
            t == self.upcoming()[0],
    {
        self.queue[0]
    }

    /// The first `n` upcoming pieces in draw order, soonest first. Any
    /// `n` up to `NEXT_SIZE` is always available.
    pub fn preview(&self, n: usize) -> (r: Vec<Tetromino>)
        requires
            self.wf(),
            n <= NEXT_SIZE,
        ensures
            r@ == self.upcoming().take(n as int),
            r@.len() == n,
    {
        let mut r: Vec<Tetromino> = Vec::new();
        let mut i: usize = 0;
        while i < n
            invariant
                i <= n,
                n <= NEXT_SIZE,
                self.wf(),
                r@ == self.upcoming().take(i as int),
            decreases n - i,
        {
            r.push(self.queue[i]);
            proof {
                assert(r@ =~= self.upcoming().take(i + 1));
            }
            i = i + 1;
        }
        r
    }

    /// All queued pieces in draw order, soonest first.
    pub fn queue(&self) -> (r: Vec<Tetromino>)
        ensures
            r@ == self.upcoming(),
    {
        let mut r: Vec<Tetromino> = Vec::new();
        let mut i: usize = 0;
        while i < self.queue.len()
            invariant
                i <= self.queue@.len(),
                r@ == self.queue@.take(i as int),
            decreases self.queue@.len() - i,
        {
            r.push(self.queue[i]);
            proof {
                assert(r@ =~= self.queue@.take(i + 1));
            }
            i = i + 1;
        }
        proof {
            assert(r@ =~= self.queue@);
        }
        r
    }

    /// Law: every run of seven draws aligned to a bag boundary contains
    /// each of the seven kinds exactly once. The stream covers past draws
    /// and upcoming pieces alike, so this holds of any seven consecutive
    /// draws that start at a multiple of seven.
    pub proof fn lemma_bag_fairness(self, k: int)
        requires
            self.wf(),
            0 <= k,
            7 * k + 7 <= self.stream().len(),
        ensures
            self.stream().subrange(7 * k, 7 * k + 7).to_multiset() == full_bag(),
    {
        lemma_partitioned_window(self.stream(), k);
    }
}

} // verus!
