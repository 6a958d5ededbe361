//! How the next piece is chosen.

use vstd::prelude::*;
use std::collections::VecDeque;
use crate::piece::Tetromino;
use crate::rules::rng::Rng;

verus! {

/// A source of upcoming tetrominoes.
///
/// The engine only ever asks for the next piece, so the policy behind it (a
/// shuffle bag, uniform noise, or a fixed script in a test) is interchangeable.
pub trait Randomizer: Sized {
    /// The pieces already decided, soonest first.
    open spec fn queued(&self) -> Seq<Tetromino> {
        arbitrary()
    }

    /// The piece the next draw produces.
    open spec fn next_of(&self) -> Tetromino {
        arbitrary()
    }

    /// Whether `after` is this source once its next piece has been drawn.
    open spec fn drawn_into(&self, after: Self) -> bool {
        arbitrary()
    }

    /// Produces the next tetromino to spawn. Afterwards, the piece the next
    /// draw produces is the first of those queued, when any are.
    fn next_piece(&mut self) -> (t: Tetromino)
        ensures
            t == old(self).next_of(),
            old(self).drawn_into(*final(self)),
            final(self).queued().len() > 0 ==> final(self).next_of() == final(self).queued()[0],
    ;

    /// The next `count` pieces without consuming them.
    fn peek(&self, count: usize) -> (v: Vec<Tetromino>)
        ensures
            v@ == self.queued().take(if count <= self.queued().len() {
                count as int
            } else {
                self.queued().len() as int
            }),
    ;
}

/// Every tetromino, in canonical order.
pub open spec fn all_pieces() -> Seq<Tetromino> {
    seq![
        Tetromino::I,
        Tetromino::O,
        Tetromino::T,
        Tetromino::S,
        Tetromino::Z,
        Tetromino::J,
        Tetromino::L,
    ]
}

/// Whether `s` holds seven pieces, every tetromino exactly once.
pub open spec fn is_bag(s: Seq<Tetromino>) -> bool {
    &&& s.len() == 7
    &&& forall|i: int, j: int| 0 <= i < j < 7 ==> s[i] != s[j]
    &&& forall|t: Tetromino| #[trigger] s.contains(t)
}

/// Whether `s` is a run of whole bags, one after another.
pub open spec fn is_bag_run(s: Seq<Tetromino>) -> bool {
    &&& s.len() % 7 == 0
    &&& forall|k: int| 0 <= k < s.len() / 7 ==> is_bag(#[trigger] s.subrange(7 * k, 7 * k + 7))
}

/// `s` with the entries at `i` and `j` exchanged.
pub open spec fn swapped(s: Seq<Tetromino>, i: int, j: int) -> Seq<Tetromino> {
    s.update(i, s[j]).update(j, s[i])
}

/// The Fisher-Yates pass from position `index` down to position one: each
/// position is exchanged with one drawn from `0..=index`. Returns the shuffled
/// pieces and the generator after its draws.
pub open spec fn shuffle_from<R: Rng>(batch: Seq<Tetromino>, rng: R, index: int) -> (Seq<Tetromino>, R)
    decreases index,
{
    if index <= 0 {
        (batch, rng)
    } else {
        let j = (rng.upcoming_value() % ((index + 1) as u64)) as int;
        shuffle_from(swapped(batch, index, j), rng.advanced(), index - 1)
    }
}

/// A freshly shuffled bag drawn from `rng`, and the generator afterwards.
pub open spec fn fresh_bag<R: Rng>(rng: R) -> (Seq<Tetromino>, R) {
    shuffle_from(all_pieces(), rng, 6)
}

/// The canonical order is itself a bag.
pub proof fn lemma_all_pieces_is_bag()
    ensures
        is_bag(all_pieces()),
{
    let a = all_pieces();
    assert forall|t: Tetromino| #[trigger] a.contains(t) by {
        match t {
            Tetromino::I => assert(a[0] == t),
            Tetromino::O => assert(a[1] == t),
            Tetromino::T => assert(a[2] == t),
            Tetromino::S => assert(a[3] == t),
            Tetromino::Z => assert(a[4] == t),
            Tetromino::J => assert(a[5] == t),
            Tetromino::L => assert(a[6] == t),
        }
    }
}

/// Exchanging two entries of a bag leaves a bag.
pub proof fn lemma_swap_keeps_bag(s: Seq<Tetromino>, i: int, j: int)
    requires
        is_bag(s),
        0 <= i < 7,
        0 <= j < 7,
    ensures
        is_bag(swapped(s, i, j)),
{
    let w = swapped(s, i, j);
    assert forall|t: Tetromino| #[trigger] w.contains(t) by {
        assert(s.contains(t));
        let k = choose|k: int| 0 <= k < s.len() && s[k] == t;
        if k == i {
            assert(w[j] == t);
        } else if k == j {
            assert(w[i] == t);
        } else {
            assert(w[k] == t);
        }
    }
}

/// Shuffling a bag yields a bag.
pub proof fn lemma_shuffle_keeps_bag<R: Rng>(batch: Seq<Tetromino>, rng: R, index: int)
    requires
        is_bag(batch),
        index <= 6,
    ensures
        is_bag(shuffle_from(batch, rng, index).0),
    decreases index,
{
    if index > 0 {
        let j = (rng.upcoming_value() % ((index + 1) as u64)) as int;
        lemma_swap_keeps_bag(batch, index, j);
        lemma_shuffle_keeps_bag(swapped(batch, index, j), rng.advanced(), index - 1);
    }
}

/// A freshly shuffled bag holds every tetromino exactly once.
pub proof fn lemma_fresh_bag_is_bag<R: Rng>(rng: R)
    ensures
        is_bag(fresh_bag(rng).0),
{
    lemma_all_pieces_is_bag();
    lemma_shuffle_keeps_bag(all_pieces(), rng, 6);
}

/// A value taken modulo `index + 1` picks a position in `0..=index`.
proof fn lemma_draw_in_range(v: u64, index: int)
    requires
        0 <= index <= 6,
    ensures
        0 <= v % ((index + 1) as u64) <= index,
{
    let m = (index + 1) as u64;
    assert(v % m < m) by (nonlinear_arith)
        requires
            m > 0,
    ;
}

/// A shuffle pass from `index` never moves the pieces above `index`, and keeps
/// the length.
proof fn lemma_shuffle_keeps_the_top<R: Rng>(batch: Seq<Tetromino>, rng: R, index: int)
    requires
        index < batch.len(),
        index <= 6,
    ensures
        shuffle_from(batch, rng, index).0.len() == batch.len(),
        forall|m: int| index < m < batch.len() ==> #[trigger] shuffle_from(batch, rng, index).0[m] == batch[m],
    decreases index,
{
    if index > 0 {
        let j = (rng.upcoming_value() % ((index + 1) as u64)) as int;
        lemma_draw_in_range(rng.upcoming_value(), index);
        lemma_shuffle_keeps_the_top(swapped(batch, index, j), rng.advanced(), index - 1);
    }
}

/// A shuffle pass settles its top position first and for good: the piece that
/// ends at `index` is the one at the position the generator's next value
/// picks among `0..=index`, itself included, and nothing above `index` moves.
/// In particular the last piece of a fresh bag is the piece of the canonical
/// order at the generator's first value modulo seven.
pub proof fn law_shuffle_settles_the_top<R: Rng>(batch: Seq<Tetromino>, rng: R, index: int)
    requires
        0 < index < batch.len(),
        index <= 6,
    ensures
        shuffle_from(batch, rng, index).0.len() == batch.len(),
        shuffle_from(batch, rng, index).0[index] == batch[(rng.upcoming_value() % ((index + 1) as u64)) as int],
        rng.upcoming_value() % ((index + 1) as u64) == index ==> shuffle_from(batch, rng, index).0[index] == batch[index],
        forall|m: int| index < m < batch.len() ==> #[trigger] shuffle_from(batch, rng, index).0[m] == batch[m],
        fresh_bag(rng).0[6] == all_pieces()[(rng.upcoming_value() % 7) as int],
{
    let j = (rng.upcoming_value() % ((index + 1) as u64)) as int;
    lemma_draw_in_range(rng.upcoming_value(), index);
    lemma_draw_in_range(rng.upcoming_value(), 6);
    let w = swapped(batch, index, j);
    lemma_shuffle_keeps_the_top(batch, rng, index);
    lemma_shuffle_keeps_the_top(w, rng.advanced(), index - 1);
    assert(shuffle_from(batch, rng, index) == shuffle_from(w, rng.advanced(), index - 1));
    assert(w[index] == batch[j]);
    let k = (rng.upcoming_value() % 7u64) as int;
    let a = swapped(all_pieces(), 6, k);
    lemma_shuffle_keeps_the_top(a, rng.advanced(), 5);
    assert(fresh_bag(rng) == shuffle_from(a, rng.advanced(), 5));
}

/// The number of upcoming pieces kept available for display.
pub const LOOKAHEAD: usize = 5;

/// The seven-bag randomizer: every tetromino appears once before any repeats.
///
/// This is what keeps a game fair: uniform random choice can withhold the line
/// piece for dozens of spawns, while a bag bounds the worst-case drought at
/// twelve pieces.
#[derive(Clone)]
pub struct SevenBag<R: Rng> {
    rng: R,
    queue: VecDeque<Tetromino>,
    drawn: Ghost<Seq<Tetromino>>,
}

impl<R: Rng> SevenBag<R> {
    /// The generator pieces are drawn from.
    pub closed spec fn source(self) -> R {
        self.rng
    }

    /// The pieces waiting to be drawn, soonest first.
    pub closed spec fn pending(self) -> Seq<Tetromino> {
        self.queue@
    }

    /// Every piece drawn so far, in order.
    pub closed spec fn history(self) -> Seq<Tetromino> {
        self.drawn@
    }

    /// The bag's own consistency: more than the lookahead is always queued, and
    /// what was drawn followed by what is queued is a run of whole bags.
    pub open spec fn wf(self) -> bool {
        &&& self.pending().len() > LOOKAHEAD
        &&& is_bag_run(self.history() + self.pending())
    }

    /// The number of upcoming pieces kept available for display.
    pub const LOOKAHEAD: usize = 5;

    /// Shuffles a fresh bag from the generator.
    fn shuffle(&mut self) -> (batch: Vec<Tetromino>)
        ensures
            batch@.len() == 7,
            (batch@, final(self).rng) == fresh_bag(old(self).rng),
            final(self).queue == old(self).queue,
            final(self).drawn == old(self).drawn,
    {
        let mut batch: Vec<Tetromino> = Vec::new();
        batch.push(Tetromino::I);
        batch.push(Tetromino::O);
        batch.push(Tetromino::T);
        batch.push(Tetromino::S);
        batch.push(Tetromino::Z);
        batch.push(Tetromino::J);
        batch.push(Tetromino::L);
        assert(batch@ =~= all_pieces());
        let mut index: usize = 6;
        while index > 0
            invariant
                index <= 6,
                batch@.len() == 7,
                shuffle_from(batch@, self.rng, index as int) == fresh_bag(old(self).rng),
                self.queue == old(self).queue,
                self.drawn == old(self).drawn,
            decreases index,
        {
            let j = self.rng.next_below(index + 1);
            let a = batch[index];
            let b = batch[j];
            batch.set(index, b);
            batch.set(j, a);
            index = index - 1;
        }
        batch
    }

    /// Queues a freshly shuffled bag when no more than the lookahead is waiting,
    /// which always leaves more than the lookahead queued.
    fn top_up(&mut self)
        ensures
            old(self).queue@.len() <= LOOKAHEAD ==> {
                &&& final(self).queue@ == old(self).queue@ + fresh_bag(old(self).rng).0
                &&& final(self).rng == fresh_bag(old(self).rng).1
            },
            old(self).queue@.len() > LOOKAHEAD ==> {
                &&& final(self).queue@ == old(self).queue@
                &&& final(self).rng == old(self).rng
            },
            final(self).drawn == old(self).drawn,
    {
        if self.queue.len() <= LOOKAHEAD {
            let batch = self.shuffle();
            let ghost start = self.queue@;
            let ghost rng_after = self.rng;
            let ghost drawn_before = self.drawn;
            let mut i: usize = 0;
            while i < 7
                invariant
                    batch@.len() == 7,
                    i <= 7,
                    self.queue@ == start + batch@.subrange(0, i as int),
                    self.rng == rng_after,
                    self.drawn == drawn_before,
                decreases 7 - i,
            {
                self.queue.push_back(batch[i]);
                i = i + 1;
                assert(self.queue@ =~= start + batch@.subrange(0, i as int));
            }
            assert(batch@.subrange(0, 7) =~= batch@);
        }
    }

    /// Creates a bag drawing from `rng`.
    pub fn new(rng: R) -> (bag: SevenBag<R>)
        ensures
            bag.wf(),
            bag.history() == Seq::<Tetromino>::empty(),
            (bag.pending(), bag.source()) == fresh_bag(rng),
    {
        let mut bag = SevenBag { rng, queue: VecDeque::new(), drawn: Ghost(Seq::empty()) };
        bag.top_up();
        proof {
            lemma_fresh_bag_is_bag(rng);
            let run = bag.history() + bag.pending();
            assert(run =~= fresh_bag(rng).0);
            assert(run.subrange(0, 7) =~= run);
        }
        bag
    }
}

/// The queue and generator after topping up: a fresh bag is appended when no
/// more than the lookahead is queued.
pub open spec fn refilled<R: Rng>(q: Seq<Tetromino>, rng: R) -> (Seq<Tetromino>, R) {
    if q.len() <= LOOKAHEAD {
        (q + fresh_bag(rng).0, fresh_bag(rng).1)
    } else {
        (q, rng)
    }
}

impl<R: Rng> Randomizer for SevenBag<R> {
    open spec fn queued(&self) -> Seq<Tetromino> {
        self.pending()
    }

    open spec fn next_of(&self) -> Tetromino {
        refilled(self.pending(), self.source()).0[0]
    }

    open spec fn drawn_into(&self, after: SevenBag<R>) -> bool {
        let first = refilled(self.pending(), self.source());
        let second = refilled(first.0.drop_first(), first.1);
        &&& after.pending() == second.0
        &&& after.source() == second.1
        &&& after.history() == self.history().push(first.0[0])
    }

    fn next_piece(&mut self) -> (t: Tetromino) {
        proof {
            lemma_fresh_bag_is_bag(self.rng);
        }
        self.top_up();
        assert(self.queue@ == refilled(old(self).pending(), old(self).source()).0);
        assert(self.queue@.len() > LOOKAHEAD);
        proof {
            lemma_fresh_bag_is_bag(self.rng);
        }
        let piece = match self.queue.pop_front() {
            Some(p) => p,
            None => Tetromino::I,
        };
        proof {
            self.drawn@ = self.drawn@.push(piece);
        }
        self.top_up();
        piece
    }

    fn peek(&self, count: usize) -> (v: Vec<Tetromino>) {
        let n = if count <= self.queue.len() { count } else { self.queue.len() };
        let mut v: Vec<Tetromino> = Vec::new();
        let mut i: usize = 0;
        while i < n
            invariant
                i <= n,
                n <= self.queue@.len(),
                v@ == self.queue@.take(i as int),
            decreases n - i,
        {
            v.push(self.queue[i]);
            i = i + 1;
            assert(v@ =~= self.queue@.take(i as int));
        }
        v
    }
}

/// Appending a bag to a run of bags gives a run of bags.
pub proof fn lemma_run_extend(run: Seq<Tetromino>, bag: Seq<Tetromino>)
    requires
        is_bag_run(run),
        is_bag(bag),
    ensures
        is_bag_run(run + bag),
{
    let s = run + bag;
    let n = run.len() / 7;
    assert(s.len() / 7 == n + 1);
    assert forall|k: int| 0 <= k < s.len() / 7 implies is_bag(#[trigger] s.subrange(7 * k, 7 * k + 7)) by {
        if k < n {
            assert(s.subrange(7 * k, 7 * k + 7) =~= run.subrange(7 * k, 7 * k + 7));
        } else {
            assert(7 * k == run.len());
            assert(s.subrange(7 * k, 7 * k + 7) =~= bag);
        }
    }
}

/// Drawing from a consistent bag keeps it consistent: more than the lookahead
/// stays queued and the pieces drawn so far, followed by those queued, still
/// form a run of whole bags.
pub proof fn law_draw_keeps_the_bag_consistent<R: Rng>(before: SevenBag<R>, after: SevenBag<R>)
    requires
        before.wf(),
        before.drawn_into(after),
    ensures
        after.wf(),
        after.history() == before.history().push(before.next_of()),
        before.next_of() == before.pending()[0],
        after.pending().len() >= before.pending().len() - 1,
        after.pending().subrange(0, before.pending().len() - 1) == before.pending().drop_first(),
{
    let q = before.pending();
    let first = refilled(q, before.source());
    assert(first.0 == q);
    let rest = q.drop_first();
    let joined = before.history() + q;
    assert(before.history().push(q[0]) + rest =~= joined);
    if rest.len() <= LOOKAHEAD {
        lemma_fresh_bag_is_bag(first.1);
        lemma_run_extend(joined, fresh_bag(first.1).0);
        assert(after.history() + after.pending() =~= joined + fresh_bag(first.1).0);
    } else {
        assert(after.history() + after.pending() =~= joined);
    }
    assert(after.pending().subrange(0, q.len() - 1) =~= rest);
}

/// In a run of whole bags, every complete group of seven that starts on a bag
/// boundary holds each tetromino exactly once.
pub proof fn lemma_groups_of_seven(run: Seq<Tetromino>, k: int)
    requires
        is_bag_run(run),
        0 <= k,
        7 * k + 7 <= run.len(),
    ensures
        is_bag(run.subrange(7 * k, 7 * k + 7)),
{
    assert(k < run.len() / 7);
}

/// Every drawn group of seven from a consistent bag holds each tetromino
/// exactly once.
pub proof fn lemma_drawn_groups_are_bags<R: Rng>(bag: SevenBag<R>, k: int)
    requires
        bag.wf(),
        0 <= k,
        7 * k + 7 <= bag.history().len(),
    ensures
        is_bag(bag.history().subrange(7 * k, 7 * k + 7)),
{
    let run = bag.history() + bag.pending();
    lemma_groups_of_seven(run, k);
    assert(run.subrange(7 * k, 7 * k + 7) =~= bag.history().subrange(7 * k, 7 * k + 7));
}

/// In a run of whole bags no tetromino is ever missing from thirteen pieces in a
/// row: a player waits at most twelve pieces for any given piece.
pub proof fn lemma_drought_bound(run: Seq<Tetromino>, start: int, t: Tetromino)
    requires
        is_bag_run(run),
        0 <= start,
        start + 13 <= run.len(),
    ensures
        exists|i: int| start <= i < start + 13 && run[i] == t,
{
    let k = (start + 6) / 7;
    assert(7 * k >= start && 7 * k <= start + 6);
    lemma_groups_of_seven(run, k);
    let b = run.subrange(7 * k, 7 * k + 7);
    assert(b.contains(t));
    let j = choose|j: int| 0 <= j < b.len() && b[j] == t;
    assert(run[7 * k + j] == t);
}

/// Whether each bag of `bags` is the one before it after one draw.
pub open spec fn drawn_in_turn<R: Rng>(bags: Seq<SevenBag<R>>) -> bool {
    forall|i: int| 0 <= i < bags.len() - 1 ==> #[trigger] bags[i].drawn_into(bags[i + 1])
}

/// After `i` draws from a consistent bag, it is still consistent, and what it
/// queues starts with what was queued at first, less the first `i` pieces.
proof fn lemma_queue_after_draws<R: Rng>(bags: Seq<SevenBag<R>>, i: int)
    requires
        drawn_in_turn(bags),
        bags.len() > 0,
        bags[0].wf(),
        0 <= i < bags.len(),
        i < bags[0].pending().len(),
    ensures
        bags[i].wf(),
        bags[i].pending().len() >= bags[0].pending().len() - i,
        bags[i].pending().subrange(0, bags[0].pending().len() - i)
            == bags[0].pending().subrange(i, bags[0].pending().len() as int),
    decreases i,
{
    let q = bags[0].pending();
    if i == 0 {
        assert(q.subrange(0, q.len() as int) =~= q);
    } else {
        let k = i - 1;
        lemma_queue_after_draws(bags, k);
        assert(bags[k].drawn_into(bags[k + 1]));
        assert(k + 1 == i);
        law_draw_keeps_the_bag_consistent(bags[k], bags[i]);
        let before = bags[k].pending();
        let after = bags[i].pending();
        assert(after.subrange(0, q.len() - i) =~= q.subrange(i, q.len() as int)) by {
            assert forall|j: int| 0 <= j < q.len() - i implies after.subrange(0, q.len() - i)[j]
                == q.subrange(i, q.len() as int)[j] by {
                assert(after.subrange(0, before.len() - 1)[j] == before.drop_first()[j]);
                assert(before.subrange(0, q.len() - k)[j + 1] == q.subrange(k, q.len() as int)[j + 1]);
            }
        }
    }
}

/// What a consistent bag queues is what it hands out: the piece drawn at the
/// `i`-th draw is the `i`-th piece queued at the start, for every piece that
/// was queued.
pub proof fn law_draws_follow_the_queue<R: Rng>(bags: Seq<SevenBag<R>>)
    requires
        drawn_in_turn(bags),
        bags.len() > 0,
        bags[0].wf(),
    ensures
        forall|i: int|
            0 <= i < bags.len() && i < bags[0].pending().len() ==> #[trigger] bags[i].next_of() == bags[0].pending()[i],
{
    assert forall|i: int| 0 <= i < bags.len() && i < bags[0].pending().len() implies #[trigger] bags[i].next_of()
        == bags[0].pending()[i] by {
        lemma_queue_after_draws(bags, i);
        let q = bags[0].pending();
        assert(bags[i].pending().len() > LOOKAHEAD);
        assert(bags[i].next_of() == bags[i].pending()[0]);
        assert(bags[i].pending().subrange(0, q.len() - i)[0] == q.subrange(i, q.len() as int)[0]);
    }
}

} // verus!
