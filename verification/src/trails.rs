//! Orbit trails: one bounded first-in first-out queue of samples per body.
//!
//! The samples themselves (positions and colours) are opaque to this module;
//! it decides which queue receives a sample, which sample falls off, and in
//! which order the samples are laid out for drawing.
use std::collections::VecDeque;

use vstd::prelude::*;

verus! {

/// Number of samples that every trail holds once it has been reset.
pub const TRAIL_LEN: usize = 700;

/// A queue after one sample was appended: the sample goes to the back, and
/// the oldest sample leaves the front once the queue would exceed
/// `TRAIL_LEN`.
pub open spec fn record<V>(q: Seq<V>, v: V) -> Seq<V> {
    if q.push(v).len() > TRAIL_LEN {
        q.push(v).drop_first()
    } else {
        q.push(v)
    }
}

/// Whether body `i` takes a sample in a sampling round: never the central
/// star (index 0), only bodies that have both a trail and a fresh sample,
/// and only when the schedule says it is due.
pub open spec fn takes_sample(n_trails: int, due: Seq<bool>, n_fresh: int, i: int) -> bool {
    &&& 1 <= i
    &&& i < n_trails
    &&& i < n_fresh
    &&& due[i]
}

/// The trails after one sampling round.
pub open spec fn sampled<V>(q: Seq<Seq<V>>, due: Seq<bool>, fresh: Seq<V>) -> Seq<Seq<V>> {
    Seq::new(
        q.len(),
        |i: int|
            if takes_sample(q.len() as int, due, fresh.len() as int, i) {
                record(q[i], fresh[i])
            } else {
                q[i]
            },
    )
}

/// A trail freshly reset to its body's starting sample.
pub open spec fn full_of<V>(v: V) -> Seq<V> {
    Seq::new(TRAIL_LEN as nat, |k: int| v)
}

/// Position in the flattened trail buffer of the `k`-th newest sample of
/// trail `i`.
pub open spec fn flat_index(i: int, k: int) -> int {
    i * TRAIL_LEN + k
}

/// Trails hold 700 samples; a reset trail is 700 copies of its start.
pub proof fn lemma_full_of<V>(v: V)
    ensures
        TRAIL_LEN == 700,
        full_of(v).len() == 700,
        forall|k: int| 0 <= k < 700 ==> #[trigger] full_of(v)[k] == v,
{
}

/// The flattened trails are laid out trail after trail: the sample of rank
/// `k + 1` of trail `i` sits at `700 * i + k`, so every trail's newest
/// sample starts its strip.
pub proof fn lemma_flat_index_row_major(i: int, k: int)
    ensures
        flat_index(i, k) == 700 * i + k,
        flat_index(i, 0) == 700 * i,
{
}

/// Which bodies take a sample: exactly those other than the central star
/// that have a trail and a fresh sample and are due.
pub proof fn lemma_takes_sample_exactly(n_trails: int, due: Seq<bool>, n_fresh: int, i: int)
    ensures
        takes_sample(n_trails, due, n_fresh, i) <==> (1 <= i && i < n_trails && i < n_fresh
            && due[i]),
        !takes_sample(n_trails, due, n_fresh, 0),
{
}

/// A flattening is exactly: one strip of 700 entries per trail, entry `k`
/// of strip `i` being the faded `k`-th newest sample of trail `i`, with
/// rank `k + 1` of 700.
pub proof fn lemma_is_flattening_exactly<V, F: Fn(V, usize, usize) -> V>(
    q: Seq<Seq<V>>,
    fade: F,
    out: Seq<V>,
    i: int,
    k: int,
)
    requires
        is_flattening(q, fade, out),
        0 <= i < q.len(),
        0 <= k < 700,
    ensures
        out.len() == 700 * q.len(),
        call_ensures(fade, (q[i][699 - k], (k + 1) as usize, 700usize), out[700 * i + k]),
{
    assert(flat_index(i, k) == 700 * i + k);
}

/// Recording a sample makes it the newest one of the trail, and keeps
/// every earlier sample that stays, in order.
pub proof fn lemma_record_appends<V>(q: Seq<V>, v: V)
    ensures
        record(q, v).len() >= 1,
        record(q, v).last() == v,
        record(q, v).len() == if q.len() < TRAIL_LEN { q.len() + 1 } else { q.len() },
        q.len() < TRAIL_LEN ==> record(q, v) == q.push(v),
{
    if q.push(v).len() > TRAIL_LEN {
        assert(q.push(v).drop_first().last() == v);
    } else {
        assert(q.push(v).len() == q.len() + 1);
    }
}

/// In a sampling round, every body other than the central star that has a
/// trail and a fresh sample, and is due, gets that sample as its newest
/// one; a full trail slides by one. Every other trail stays as it was.
/// This holds for any number of bodies.
pub proof fn lemma_sampling_round<V>(q: Seq<Seq<V>>, due: Seq<bool>, fresh: Seq<V>, i: int)
    requires
        0 <= i < q.len(),
    ensures
        sampled(q, due, fresh).len() == q.len(),
        1 <= i && i < fresh.len() && due[i] ==> {
            &&& sampled(q, due, fresh)[i].last() == fresh[i]
            &&& q[i].len() == TRAIL_LEN ==> sampled(q, due, fresh)[i] == q[i].drop_first().push(
                fresh[i],
            )
        },
        !(1 <= i && i < fresh.len() && due[i]) ==> sampled(q, due, fresh)[i] == q[i],
{
    if 1 <= i && i < fresh.len() && due[i] {
        lemma_record_appends(q[i], fresh[i]);
        if q[i].len() == TRAIL_LEN {
            lemma_full_trail_slides(q[i], fresh[i]);
        }
    }
}

/// A full trail that takes a sample slides by one: its oldest sample
/// leaves and the new one becomes the newest, so it stays full.
pub proof fn lemma_full_trail_slides<V>(q: Seq<V>, v: V)
    requires
        q.len() == TRAIL_LEN,
    ensures
        record(q, v) == q.drop_first().push(v),
        record(q, v).len() == TRAIL_LEN,
        record(q, v).last() == v,
{
    assert(q.push(v).drop_first() =~= q.drop_first().push(v));
}

/// A sampling round keeps the number of trails, keeps every full trail
/// full, and never touches the central star's trail (index 0).
pub proof fn lemma_sampling_keeps_trails_full<V>(q: Seq<Seq<V>>, due: Seq<bool>, fresh: Seq<V>)
    requires
        forall|i: int| 0 <= i < q.len() ==> #[trigger] q[i].len() == TRAIL_LEN,
    ensures
        sampled(q, due, fresh).len() == q.len(),
        forall|i: int| 0 <= i < q.len() ==> #[trigger] sampled(q, due, fresh)[i].len() == TRAIL_LEN,
        q.len() > 0 ==> sampled(q, due, fresh)[0] == q[0],
{
    assert forall|i: int| 0 <= i < q.len() implies #[trigger] sampled(q, due, fresh)[i].len()
        == TRAIL_LEN by {
        if takes_sample(q.len() as int, due, fresh.len() as int, i) {
            lemma_full_trail_slides(q[i], fresh[i]);
        }
    }
}

/// A body that is not due keeps its trail unchanged in a sampling round.
pub proof fn lemma_idle_trail_unchanged<V>(q: Seq<Seq<V>>, due: Seq<bool>, fresh: Seq<V>, i: int)
    requires
        0 <= i < q.len(),
        i < due.len(),
        !due[i],
    ensures
        sampled(q, due, fresh)[i] == q[i],
{
}

/// The flattened trail buffer is tiled by the trail strips: strip `i` of
/// `n` occupies the `TRAIL_LEN` positions starting at `i * TRAIL_LEN`, all
/// inside a buffer of `n * TRAIL_LEN` vertices, and the next strip starts
/// right after it.
pub proof fn lemma_strips_tile_buffer(n: int, i: int, k: int)
    requires
        0 <= i < n,
        0 <= k < TRAIL_LEN,
    ensures
        i * TRAIL_LEN <= flat_index(i, k) < (i + 1) * TRAIL_LEN,
        (i + 1) * TRAIL_LEN <= n * TRAIL_LEN,
        flat_index(i, k) < n * TRAIL_LEN,
        flat_index(i + 1, 0) == (i + 1) * TRAIL_LEN,
{
    assert((i + 1) * TRAIL_LEN <= n * TRAIL_LEN) by (nonlinear_arith)
        requires
            i + 1 <= n,
    ;
}

/// `out` is a layout of the trails `q` for drawing: trail after trail,
/// each newest sample first, every sample passed through `fade` with its
/// rank (1 for the newest) and the trail's length.
pub open spec fn is_flattening<V, F: Fn(V, usize, usize) -> V>(
    q: Seq<Seq<V>>,
    fade: F,
    out: Seq<V>,
) -> bool {
    &&& out.len() == q.len() * TRAIL_LEN
    &&& forall|i: int, k: int|
        0 <= i < q.len() && 0 <= k < TRAIL_LEN ==> call_ensures(
            fade,
            (q[i][TRAIL_LEN - 1 - k], (k + 1) as usize, TRAIL_LEN),
            #[trigger] out[flat_index(i, k)],
        )
}

/// `fade` gives one result for one argument.
pub open spec fn fade_is_deterministic<V, F: Fn(V, usize, usize) -> V>(fade: F) -> bool {
    forall|v: V, r: usize, n: usize, a: V, b: V|
        #![trigger call_ensures(fade, (v, r, n), a), call_ensures(fade, (v, r, n), b)]
        call_ensures(fade, (v, r, n), a) && call_ensures(fade, (v, r, n), b) ==> a == b
}

/// With a deterministic fade, the layout of full trails is unique: two
/// flattenings of the same trails, such as two calls of `flatten` in a
/// row, agree entry by entry.
pub proof fn lemma_flatten_deterministic<V, F: Fn(V, usize, usize) -> V>(
    q: Seq<Seq<V>>,
    fade: F,
    out1: Seq<V>,
    out2: Seq<V>,
)
    requires
        forall|i: int| 0 <= i < q.len() ==> #[trigger] q[i].len() == TRAIL_LEN,
        is_flattening(q, fade, out1),
        is_flattening(q, fade, out2),
        fade_is_deterministic(fade),
    ensures
        out1 == out2,
{
    assert forall|x: int| 0 <= x < out1.len() implies out1[x] == out2[x] by {
        let i = x / (TRAIL_LEN as int);
        let k = x % (TRAIL_LEN as int);
        assert(flat_index(i, k) == x);
        assert(0 <= i < q.len()) by (nonlinear_arith)
            requires
                0 <= x < q.len() * 700,
                i == x / 700,
        ;
        let v = q[i][TRAIL_LEN - 1 - k];
        assert(call_ensures(fade, (v, (k + 1) as usize, TRAIL_LEN), out1[flat_index(i, k)]));
        assert(call_ensures(fade, (v, (k + 1) as usize, TRAIL_LEN), out2[flat_index(i, k)]));
    }
    assert(out1 =~= out2);
}

/// The per-body trails.
pub struct Trails<V> {
    queues: Vec<VecDeque<V>>,
}

impl<V> View for Trails<V> {
    type V = Seq<Seq<V>>;

    closed spec fn view(&self) -> Seq<Seq<V>> {
        Seq::new(self.queues@.len(), |i: int| self.queues@[i]@)
    }
}

impl<V: Copy> Trails<V> {
    /// Every trail holds exactly `TRAIL_LEN` samples, and the flattened
    /// trails fit in memory.
    pub open spec fn well_formed(&self) -> bool {
        &&& forall|i: int| 0 <= i < self@.len() ==> #[trigger] self@[i].len() == TRAIL_LEN
        &&& self@.len() * TRAIL_LEN <= usize::MAX
    }

    /// No trails at all.
    pub fn new() -> (t: Self)
        ensures
            t@ == Seq::<Seq<V>>::empty(),
            t.well_formed(),
    {
        let t = Trails { queues: Vec::new() };
        assert(t@ =~= Seq::<Seq<V>>::empty());
        t
    }

    /// Number of trails (one per body once reset).
    pub fn len(&self) -> (n: usize)
        ensures
            n == self@.len(),
    {
        self.queues.len()
    }

    /// One trail per body, each filled with `TRAIL_LEN` copies of the body's
    /// starting sample.
    pub fn reset(&mut self, starts: &[V])
        requires
            starts@.len() * TRAIL_LEN <= usize::MAX,
        ensures
            final(self)@ == Seq::new(starts@.len(), |i: int| full_of(starts@[i])),
            final(self).well_formed(),
            final(self)@.len() == starts@.len(),
            forall|i: int|
                0 <= i < starts@.len() ==> {
                    &&& #[trigger] final(self)@[i].len() == 700
                    &&& forall|k: int| 0 <= k < 700 ==> #[trigger] final(self)@[i][k] == starts@[i]
                },
    {
        let mut queues: Vec<VecDeque<V>> = Vec::new();
        let mut i: usize = 0;
        while i < starts.len()
            invariant
                i <= starts@.len(),
                queues@.len() == i,
                forall|j: int| 0 <= j < i ==> #[trigger] queues@[j]@ == full_of(starts@[j]),
            decreases starts@.len() - i,
        {
            let v = starts[i];
            let mut dq: VecDeque<V> = VecDeque::new();
            let mut k: usize = 0;
            while k < TRAIL_LEN
                invariant
                    k <= TRAIL_LEN,
                    dq@ == Seq::new(k as nat, |m: int| v),
                decreases TRAIL_LEN - k,
            {
                dq.push_back(v);
                k = k + 1;
                assert(dq@ =~= Seq::new(k as nat, |m: int| v));
            }
            assert(dq@ =~= full_of(v));
            queues.push(dq);
            i = i + 1;
        }
        self.queues = queues;
        assert(self@ =~= Seq::new(starts@.len(), |i: int| full_of(starts@[i])));
    }

    /// One sampling round: every body that `takes_sample` gets `fresh[i]`
    /// appended to its trail (dropping the oldest sample beyond `TRAIL_LEN`).
    /// Returns the indices of those bodies, in increasing order.
    pub fn sample(&mut self, due: &[bool], fresh: &[V]) -> (recorded: Vec<usize>)
        requires
            due@.len() == fresh@.len(),
        ensures
            final(self)@ == sampled(old(self)@, due@, fresh@),
            old(self).well_formed() ==> final(self).well_formed(),
            forall|a: int, b: int|
                0 <= a < b < recorded@.len() ==> recorded@[a] < recorded@[b],
            forall|a: int|
                0 <= a < recorded@.len() ==> takes_sample(
                    old(self)@.len() as int,
                    due@,
                    fresh@.len() as int,
                    #[trigger] recorded@[a] as int,
                ),
            forall|i: int|
                takes_sample(old(self)@.len() as int, due@, fresh@.len() as int, i)
                    ==> recorded@.contains(i as usize),
            final(self)@.len() == old(self)@.len(),
            forall|i: int|
                1 <= i < old(self)@.len() && i < fresh@.len() && #[trigger] due@[i] ==> {
                    &&& recorded@.contains(i as usize)
                    &&& final(self)@[i].len() >= 1
                    &&& final(self)@[i].last() == fresh@[i]
                },
            forall|i: int|
                0 <= i < old(self)@.len() && !(1 <= i && i < fresh@.len() && due@[i])
                    ==> #[trigger] final(self)@[i] == old(self)@[i],
            forall|a: int|
                0 <= a < recorded@.len() ==> {
                    &&& 1 <= #[trigger] recorded@[a] < old(self)@.len()
                    &&& recorded@[a] < fresh@.len()
                    &&& due@[recorded@[a] as int]
                },
    {
        let ghost q0 = self@;
        let mut queues: Vec<VecDeque<V>> = Vec::new();
        std::mem::swap(&mut queues, &mut self.queues);
        let n = queues.len();
        let mut recorded: Vec<usize> = Vec::new();
        let mut i: usize = 1;
        while i < n && i < fresh.len()
            invariant
                1 <= i,
                queues@.len() == n,
                n == q0.len(),
                due@.len() == fresh@.len(),
                forall|j: int|
                    0 <= j < n ==> #[trigger] queues@[j]@ == (if j < i {
                        sampled(q0, due@, fresh@)[j]
                    } else {
                        q0[j]
                    }),
                forall|a: int, b: int|
                    0 <= a < b < recorded@.len() ==> recorded@[a] < recorded@[b],
                forall|a: int|
                    0 <= a < recorded@.len() ==> #[trigger] recorded@[a] < i && takes_sample(
                        q0.len() as int,
                        due@,
                        fresh@.len() as int,
                        recorded@[a] as int,
                    ),
                forall|j: int|
                    takes_sample(q0.len() as int, due@, fresh@.len() as int, j) && j < i
                        ==> recorded@.contains(j as usize),
            decreases n - i,
        {
            if due[i] {
                let mut dq: VecDeque<V> = VecDeque::new();
                queues.set_and_swap(i, &mut dq);
                let ghost before = dq@;
                dq.push_back(fresh[i]);
                if dq.len() > TRAIL_LEN {
                    dq.pop_front();
                }
                assert(dq@ =~= record(before, fresh@[i as int]));
                queues.set_and_swap(i, &mut dq);
                let ghost r0 = recorded@;
                recorded.push(i);
                assert(recorded@.last() == i);
                assert forall|j: int|
                    takes_sample(q0.len() as int, due@, fresh@.len() as int, j) && j < i + 1
                        implies recorded@.contains(j as usize) by {
                    if j < i {
                        assert(r0.contains(j as usize));
                        let w = choose|w: int| 0 <= w < r0.len() && r0[w] == j as usize;
                        assert(recorded@[w] == j as usize);
                    } else {
                        assert(recorded@[recorded@.len() - 1] == j as usize);
                    }
                }
            }
            i = i + 1;
        }
        proof {
            assert forall|j: int| 0 <= j < n implies #[trigger] queues@[j]@ == sampled(
                q0,
                due@,
                fresh@,
            )[j] by {
                if j >= i {
                    assert(!takes_sample(q0.len() as int, due@, fresh@.len() as int, j));
                }
            }
        }
        std::mem::swap(&mut queues, &mut self.queues);
        assert(self@ =~= sampled(q0, due@, fresh@));
        proof {
            assert forall|j: int|
                1 <= j < q0.len() && j < fresh@.len() && #[trigger] due@[j] implies {
                    &&& self@[j].len() >= 1
                    &&& self@[j].last() == fresh@[j]
                } by {
                lemma_record_appends(q0[j], fresh@[j]);
            }
        }
        recorded
    }

    /// The trails laid out for drawing: trail after trail, each one newest
    /// sample first. The sample of rank `r` (1 for the newest) in a trail
    /// of `n` samples is passed through `fade(v, r, n)` on its way out.
    pub fn flatten<F: Fn(V, usize, usize) -> V>(&self, fade: F) -> (out: Vec<V>)
        requires
            self.well_formed(),
            forall|v: V, r: usize, n: usize| call_requires(fade, (v, r, n)),
        ensures
            is_flattening(self@, fade, out@),
            out@.len() == self@.len() * TRAIL_LEN,
            forall|i: int, k: int|
                0 <= i < self@.len() && 0 <= k < TRAIL_LEN ==> call_ensures(
                    fade,
                    (self@[i][TRAIL_LEN - 1 - k], (k + 1) as usize, TRAIL_LEN),
                    #[trigger] out@[flat_index(i, k)],
                ),
    {
        let mut out: Vec<V> = Vec::new();
        let count = self.queues.len();
        let mut i: usize = 0;
        while i < count
            invariant
                self.well_formed(),
                forall|v: V, r: usize, n: usize| call_requires(fade, (v, r, n)),
                count == self@.len(),
                i <= count,
                out@.len() == i * TRAIL_LEN,
                forall|ii: int, k: int|
                    0 <= ii < i && 0 <= k < TRAIL_LEN ==> call_ensures(
                        fade,
                        (self@[ii][TRAIL_LEN - 1 - k], (k + 1) as usize, TRAIL_LEN),
                        #[trigger] out@[flat_index(ii, k)],
                    ),
            decreases count - i,
        {
            let dq = &self.queues[i];
            let len = dq.len();
            assert(len == TRAIL_LEN) by {
                assert(self@[i as int] == self.queues@[i as int]@);
                assert(self@[i as int].len() == TRAIL_LEN);
            }
            let n = if len > 1 { len } else { 1 };
            let mut k: usize = 0;
            while k < len
                invariant
                    self.well_formed(),
                    forall|v: V, r: usize, n: usize| call_requires(fade, (v, r, n)),
                    count == self@.len(),
                    i < count,
                    len == TRAIL_LEN,
                    n == TRAIL_LEN,
                    dq@ == self@[i as int],
                    k <= len,
                    out@.len() == i * TRAIL_LEN + k,
                    forall|ii: int, kk: int|
                        (0 <= ii < i && 0 <= kk < TRAIL_LEN) || (ii == i && 0 <= kk < k)
                            ==> call_ensures(
                            fade,
                            (self@[ii][TRAIL_LEN - 1 - kk], (kk + 1) as usize, TRAIL_LEN),
                            #[trigger] out@[flat_index(ii, kk)],
                        ),
                decreases len - k,
            {
                let v = dq[len - 1 - k];
                let faded = fade(v, k + 1, n);
                let ghost before = out@;
                out.push(faded);
                assert forall|ii: int, kk: int|
                    (0 <= ii < i && 0 <= kk < TRAIL_LEN) || (ii == i && 0 <= kk < k + 1)
                        implies call_ensures(
                        fade,
                        (self@[ii][TRAIL_LEN - 1 - kk], (kk + 1) as usize, TRAIL_LEN),
                        #[trigger] out@[flat_index(ii, kk)],
                    ) by {
                    if ii == i && kk == k {
                        assert(out@[flat_index(ii, kk)] == faded);
                    } else {
                        assert(out@[flat_index(ii, kk)] == before[flat_index(ii, kk)]);
                    }
                }
                k = k + 1;
            }
            i = i + 1;
        }
        out
    }
}

} // verus!
