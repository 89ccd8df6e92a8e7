use std::collections::VecDeque;
use vstd::prelude::*;

verus! {

/// Lifecycle of a trail: it grows until it is deactivated, then drains.
#[derive(Clone, Copy, Debug, PartialEq, Eq, Structural)]
pub enum Phase {
    Growing,
    Draining,
}

/// Mathematical state of one trail.
pub struct TrailModel<S> {
    /// Retained positions, oldest first.
    pub positions: Seq<(S, S)>,
    /// Number of growth pushes received (saturating at `u32::MAX`).
    pub age: u32,
    pub phase: Phase,
}

/// Effect of one `push` of `v` on a trail of capacity `n`.
pub open spec fn push_model<S>(m: TrailModel<S>, v: (S, S), n: nat) -> TrailModel<S> {
    match m.phase {
        Phase::Growing => {
            let grown = m.positions.push(v);
            TrailModel {
                positions: if grown.len() > n { grown.drop_first() } else { grown },
                age: if m.age < u32::MAX { (m.age + 1) as u32 } else { m.age },
                phase: Phase::Growing,
            }
        },
        Phase::Draining => TrailModel {
            positions: if m.positions.len() > 0 { m.positions.drop_first() } else { m.positions },
            age: m.age,
            phase: Phase::Draining,
        },
    }
}

/// Effect of `deactivate`.
pub open spec fn deactivate_model<S>(m: TrailModel<S>) -> TrailModel<S> {
    TrailModel { positions: m.positions, age: m.age, phase: Phase::Draining }
}

/// The state of a freshly created trail.
pub open spec fn empty_model<S>() -> TrailModel<S> {
    TrailModel { positions: Seq::empty(), age: 0, phase: Phase::Growing }
}

/// Pushing each value of `vs` in turn, starting from `m`.
pub open spec fn push_all<S>(m: TrailModel<S>, vs: Seq<(S, S)>, n: nat) -> TrailModel<S>
    decreases vs.len(),
{
    if vs.len() == 0 {
        m
    } else {
        push_model(push_all(m, vs.drop_last(), n), vs.last(), n)
    }
}

/// A push never takes a trail beyond its capacity.
pub proof fn lemma_push_within_capacity<S>(m: TrailModel<S>, v: (S, S), n: nat)
    requires
        m.positions.len() <= n,
    ensures
        push_model(m, v, n).positions.len() <= n,
{
}

/// The age never decreases; once a trail drains its age and phase are frozen,
/// and deactivating it leaves its age as it was.
pub proof fn lemma_age_monotone<S>(m: TrailModel<S>, v: (S, S), n: nat)
    ensures
        push_model(m, v, n).age >= m.age,
        m.phase == Phase::Draining ==> push_model(m, v, n).age == m.age,
        m.phase == Phase::Draining ==> push_model(m, v, n).phase == Phase::Draining,
        deactivate_model(m).age == m.age,
{
}

/// Deactivating twice gives the same state as deactivating once.
pub proof fn lemma_deactivate_idempotent<S>(m: TrailModel<S>)
    ensures
        deactivate_model(deactivate_model(m)) == deactivate_model(m),
{
}

/// Pushing at most `n` values into a fresh trail of capacity `n` retains all
/// of them in push order, and the age counts them.
pub proof fn lemma_windowing<S>(vs: Seq<(S, S)>, n: nat)
    requires
        vs.len() <= n,
        vs.len() <= u32::MAX,
    ensures
        push_all(empty_model::<S>(), vs, n).positions == vs,
        push_all(empty_model::<S>(), vs, n).age == vs.len(),
        push_all(empty_model::<S>(), vs, n).phase == Phase::Growing,
    decreases vs.len(),
{
    if vs.len() == 0 {
        assert(vs =~= Seq::<(S, S)>::empty());
    } else {
        lemma_windowing(vs.drop_last(), n);
        assert(vs.drop_last().push(vs.last()) =~= vs);
    }
}

/// A draining trail loses exactly one position per push until it is empty,
/// then stays empty; its age and phase do not change.
pub proof fn lemma_draining<S>(m: TrailModel<S>, vs: Seq<(S, S)>, n: nat)
    requires
        m.phase == Phase::Draining,
    ensures
        push_all(m, vs, n).phase == Phase::Draining,
        push_all(m, vs, n).age == m.age,
        push_all(m, vs, n).positions.len() == if m.positions.len() >= vs.len() {
            m.positions.len() - vs.len()
        } else {
            0
        },
    decreases vs.len(),
{
    if vs.len() > 0 {
        lemma_draining(m, vs.drop_last(), n);
    }
}

/// One entity's bounded history of positions, with capacity `N`.
pub struct Particle<S, const N: usize> {
    data: VecDeque<(S, S)>,
    time: u32,
    phase: Phase,
}

impl<S, const N: usize> View for Particle<S, N> {
    type V = TrailModel<S>;

    closed spec fn view(&self) -> TrailModel<S> {
        TrailModel { positions: self.data@, age: self.time, phase: self.phase }
    }
}

impl<S: Copy, const N: usize> Particle<S, N> {
    /// A trail never holds more than its capacity.
    pub open spec fn wf(&self) -> bool {
        self@.positions.len() <= N
    }

    /// An empty, growing trail of age zero.
    pub fn new() -> (r: Self)
        ensures
            r.wf(),
            r@ == empty_model::<S>(),
    {
        let r = Self { data: VecDeque::new(), time: 0, phase: Phase::Growing };
        assert(r@.positions =~= Seq::<(S, S)>::empty());
        r
    }

    /// A fresh trail that has received one growth push of `position`, the
    /// randomly sampled birth place of the particle.
    pub fn random(position: (S, S)) -> (r: Self)
        requires
            N > 0,
        ensures
            r.wf(),
            r@ == push_model(empty_model::<S>(), position, N as nat),
            r@.positions == seq![position],
            r@.age == 1,
            r@.phase == Phase::Growing,
    {
        let mut this = Self::new();
        this.push(position);
        assert(seq![position] =~= Seq::<(S, S)>::empty().push(position));
        this
    }

    /// Number of retained positions.
    pub fn len(&self) -> (r: usize)
        ensures
            r == self@.positions.len(),
    {
        self.data.len()
    }

    /// Number of growth pushes received so far.
    pub fn age(&self) -> (r: u32)
        ensures
            r == self@.age,
    {
        self.time
    }

    /// Current lifecycle phase.
    pub fn phase(&self) -> (r: Phase)
        ensures
            r == self@.phase,
    {
        self.phase
    }

    /// While growing, appends `value` (dropping the oldest position beyond
    /// capacity) and ages by one; while draining, ignores `value` and drops
    /// the oldest position, if any.
    pub fn push(&mut self, value: (S, S))
        requires
            old(self).wf(),
        ensures
            final(self).wf(),
            final(self)@ == push_model(old(self)@, value, N as nat),
    {
        match self.phase {
            Phase::Growing => {
                self.data.push_back(value);
                if self.data.len() > N {
                    self.data.pop_front();
                }
                if self.time < u32::MAX {
                    self.time = self.time + 1;
                }
            },
            Phase::Draining => {
                if self.data.len() > 0 {
                    self.data.pop_front();
                }
            },
        }
    }

    /// Switches the trail to draining; it will never grow again.
    pub fn deactivate(&mut self)
        requires
            old(self).wf(),
        ensures
            final(self).wf(),
            final(self)@ == deactivate_model(old(self)@),
    {
        self.phase = Phase::Draining;
    }

    /// The position `n` steps after the oldest retained one, if there is one.
    pub fn at(&self, n: usize) -> (r: Option<(S, S)>)
        requires
            n < N,
        ensures
            n < self@.positions.len() ==> r == Some(self@.positions[n as int]),
            n >= self@.positions.len() ==> r is None,
    {
        if n < self.len() {
            Some(self.data[n])
        } else {
            None
        }
    }

    /// The most recent position, if any.
    pub fn last(&self) -> (r: Option<&(S, S)>)
        ensures
            self@.positions.len() == 0 ==> r is None,
            self@.positions.len() > 0 ==> r is Some && *r.unwrap() == self@.positions.last(),
    {
        let len = self.data.len();
        if len == 0 {
            None
        } else {
            Some(&self.data[len - 1])
        }
    }
}

} // verus!
