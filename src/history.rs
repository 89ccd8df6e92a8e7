use crate::particle::{
    deactivate_model, empty_model, lemma_draining, push_all, push_model, Particle, Phase,
    TrailModel,
};
use vstd::prelude::*;

verus! {

/// What `expires` makes of one trail: `None` when the trail is removed.
pub open spec fn expire_one<S>(t: TrailModel<S>, threshold: u32) -> Option<TrailModel<S>> {
    let e = if t.age > threshold { deactivate_model(t) } else { t };
    if e.phase == Phase::Draining && e.positions.len() == 0 {
        None
    } else {
        Some(e)
    }
}

/// The ensemble after an `expires` call with `threshold`.
pub open spec fn expire_model<S>(ms: Seq<TrailModel<S>>, threshold: u32) -> Seq<TrailModel<S>> {
    ms.filter_map(|t: TrailModel<S>| expire_one(t, threshold))
}

/// The segment a trail contributes at age offset `i`: its positions at `i`
/// and `i + 1` as `[x_i, y_i, x_i+1, y_i+1]`, when it holds both.
pub open spec fn segment<S>(t: TrailModel<S>, i: int) -> Option<Seq<S>> {
    if 0 <= i && i + 1 < t.positions.len() {
        Some(
            seq![
                t.positions[i].0,
                t.positions[i].1,
                t.positions[i + 1].0,
                t.positions[i + 1].1,
            ],
        )
    } else {
        None
    }
}

/// All segments at age offset `i`, in ensemble order.
pub open spec fn generation<S>(ms: Seq<TrailModel<S>>, i: int) -> Seq<Seq<S>> {
    ms.filter_map(|t: TrailModel<S>| segment(t, i))
}

/// The segments of one produced generation, as sequences.
pub open spec fn segments_view<S>(g: Seq<[S; 4]>) -> Seq<Seq<S>> {
    g.map_values(|a: [S; 4]| a@)
}

/// A trail older than the threshold is deactivated by the next `expires` but
/// kept while it still holds positions; after as many further pushes as it
/// held positions it is empty and the following `expires` removes it.
pub proof fn lemma_expiry_timing<S>(t: TrailModel<S>, threshold: u32, vs: Seq<(S, S)>, n: nat)
    requires
        t.age > threshold,
    ensures
        t.positions.len() > 0 ==> expire_one(t, threshold) == Some(deactivate_model(t)),
        t.positions.len() == 0 ==> expire_one(t, threshold) is None,
        vs.len() < t.positions.len() ==> expire_one(
            push_all(deactivate_model(t), vs, n),
            threshold,
        ) == Some(push_all(deactivate_model(t), vs, n)),
        vs.len() >= t.positions.len() ==> expire_one(
            push_all(deactivate_model(t), vs, n),
            threshold,
        ) is None,
{
    lemma_draining(deactivate_model(t), vs, n);
}

/// Over a whole ensemble, one `expires` call keeps every trail older than the
/// threshold that still holds positions, now draining; after it no trail
/// older than the threshold is growing, and no draining trail is empty.
pub proof fn lemma_expire_ensemble<S>(ms: Seq<TrailModel<S>>, threshold: u32)
    ensures
        forall|i: int|
            0 <= i < ms.len() && (#[trigger] ms[i]).age > threshold && ms[i].positions.len() > 0
                ==> expire_model(ms, threshold).contains(deactivate_model(ms[i])),
        forall|j: int|
            0 <= j < expire_model(ms, threshold).len() ==> {
                let t = #[trigger] expire_model(ms, threshold)[j];
                &&& !(t.phase == Phase::Draining && t.positions.len() == 0)
                &&& (t.age > threshold ==> t.phase == Phase::Draining)
            },
    decreases ms.len(),
{
    if ms.len() > 0 {
        let rest = ms.drop_last();
        lemma_expire_ensemble(rest, threshold);
        let r = expire_model(rest, threshold);
        let out = expire_model(ms, threshold);
        match expire_one(ms.last(), threshold) {
            Some(e) => {
                assert(out == r + seq![e]);
            },
            None => {
                assert(out == r);
            },
        }
        assert forall|i: int|
            0 <= i < ms.len() && (#[trigger] ms[i]).age > threshold && ms[i].positions.len() > 0
                implies out.contains(deactivate_model(ms[i])) by {
            if i < ms.len() - 1 {
                assert(rest[i] == ms[i]);
                let k = choose|k: int| 0 <= k < r.len() && r[k] == deactivate_model(rest[i]);
                assert(out[k] == r[k]);
            } else {
                assert(out[r.len() as int] == deactivate_model(ms[i]));
            }
        }
    }
}

/// An ensemble of trails of capacity `N` each.
pub struct History<S, const N: usize> {
    data: Vec<Particle<S, N>>,
}

impl<S, const N: usize> View for History<S, N> {
    type V = Seq<TrailModel<S>>;

    closed spec fn view(&self) -> Seq<TrailModel<S>> {
        self.data@.map_values(|p: Particle<S, N>| p@)
    }
}

impl<S: Copy, const N: usize> History<S, N> {
    /// Every trail holds at most `N` positions.
    pub open spec fn wf(&self) -> bool {
        forall|i: int| 0 <= i < self@.len() ==> (#[trigger] self@[i]).positions.len() <= N
    }

    /// An empty ensemble.
    pub fn new() -> (r: Self)
        ensures
            r.wf(),
            r@ == Seq::<TrailModel<S>>::empty(),
    {
        let r = Self { data: Vec::new() };
        assert(r@ =~= Seq::<TrailModel<S>>::empty());
        r
    }

    /// Number of trails.
    pub fn len(&self) -> (r: usize)
        ensures
            r == self@.len(),
    {
        self.data.len()
    }

    /// The `i`-th trail.
    pub fn get(&self, i: usize) -> (r: &Particle<S, N>)
        requires
            self.wf(),
            i < self@.len(),
        ensures
            r@ == self@[i as int],
            r.wf(),
    {
        &self.data[i]
    }

    /// Adds `particle` at the end of the ensemble.
    pub fn insert(&mut self, particle: Particle<S, N>)
        requires
            old(self).wf(),
            particle.wf(),
        ensures
            final(self).wf(),
            final(self)@ == old(self)@.push(particle@),
    {
        let ghost prev = self@;
        self.data.push(particle);
        assert(self@ =~= prev.push(particle@));
    }

    /// Adds a new trail born at `position`, the randomly sampled spawn place.
    pub fn spawn(&mut self, position: (S, S))
        requires
            old(self).wf(),
            N > 0,
        ensures
            final(self).wf(),
            final(self)@ == old(self)@.push(push_model(empty_model::<S>(), position, N as nat)),
    {
        let p = Particle::<S, N>::random(position);
        self.insert(p);
    }
    /// The segments at age offset `i`, in ensemble order.
    fn generation_at(&self, i: usize) -> (r: Vec<[S; 4]>)
        requires
            self.wf(),
            i + 1 < N,
        ensures
            segments_view(r@) == generation(self@, i as int),
    {
        let mut r: Vec<[S; 4]> = Vec::new();
        let mut j: usize = 0;
        while j < self.data.len()
            invariant
                self.wf(),
                i + 1 < N,
                j <= self@.len(),
                segments_view(r@) == generation(self@.subrange(0, j as int), i as int),
            decreases self@.len() - j,
        {
            let p = &self.data[j];
            match (p.at(i), p.at(i + 1)) {
                (Some((x0, y0)), Some((x1, y1))) => {
                    let a: [S; 4] = [x0, y0, x1, y1];
                    assert(a@ =~= seq![x0, y0, x1, y1]);
                    r.push(a);
                },
                _ => {},
            }
            proof {
                let prefix = self@.subrange(0, j as int + 1);
                assert(prefix.drop_last() =~= self@.subrange(0, j as int));
                assert(prefix.last() == self@[j as int]);
                assert(segments_view(r@) =~= generation(prefix, i as int));
            }
            j = j + 1;
        }
        assert(self@.subrange(0, self@.len() as int) =~= self@);
        r
    }

    /// For each age offset `i` from `0` to `N - 2`, the segments
    /// `[x_i, y_i, x_i+1, y_i+1]` of every trail that holds positions at both
    /// offsets, in ensemble order.
    pub fn gen_iter(&self) -> (r: Vec<Vec<[S; 4]>>)
        requires
            self.wf(),
        ensures
            N > 0 ==> r@.len() == N - 1,
            N == 0 ==> r@.len() == 0,
            forall|i: int|
                0 <= i < r@.len() ==> segments_view(#[trigger] r@[i]@) == generation(self@, i),
    {
        let mut r: Vec<Vec<[S; 4]>> = Vec::new();
        let mut i: usize = 0;
        while i + 1 < N
            invariant
                self.wf(),
                r@.len() == i,
                N > 0 ==> i <= N - 1,
                N == 0 ==> i == 0,
                forall|k: int|
                    0 <= k < r@.len() ==> segments_view(#[trigger] r@[k]@) == generation(self@, k),
            decreases N - i,
        {
            let g = self.generation_at(i);
            r.push(g);
            i = i + 1;
        }
        r
    }
    /// Deactivates every trail older than `expiration_date`, then removes
    /// every trail that is draining and empty. The others keep their order.
    pub fn expires(&mut self, expiration_date: u32)
        requires
            old(self).wf(),
        ensures
            final(self).wf(),
            final(self)@ == expire_model(old(self)@, expiration_date),
    {
        let ghost orig = self@;
        let mut pending: Vec<Particle<S, N>> = Vec::new();
        std::mem::swap(&mut self.data, &mut pending);
        let ghost n = pending@.len();
        let mut reversed: Vec<Particle<S, N>> = Vec::new();
        while pending.len() > 0
            invariant
                n == orig.len(),
                pending@.len() + reversed@.len() == n,
                forall|k: int| 0 <= k < pending@.len() ==> #[trigger] pending@[k]@ == orig[k],
                forall|k: int|
                    0 <= k < reversed@.len() ==> #[trigger] reversed@[k]@ == orig[n - 1 - k],
            decreases pending@.len(),
        {
            let p = pending.pop().unwrap();
            reversed.push(p);
        }
        assert(self@ =~= Seq::<TrailModel<S>>::empty());
        while reversed.len() > 0
            invariant
                n == orig.len(),
                forall|k: int| 0 <= k < n ==> (#[trigger] orig[k]).positions.len() <= N,
                forall|k: int|
                    0 <= k < reversed@.len() ==> #[trigger] reversed@[k]@ == orig[n - 1 - k],
                reversed@.len() <= n,
                self.wf(),
                self@ == expire_model(orig.subrange(0, n - reversed@.len()), expiration_date),
            decreases reversed@.len(),
        {
            let ghost done = (n - reversed@.len()) as int;
            let ghost before = self@;
            let mut p = reversed.pop().unwrap();
            assert(p@ == orig[done]);
            if p.age() > expiration_date {
                p.deactivate();
            }
            if !(p.phase() == Phase::Draining && p.len() == 0) {
                self.data.push(p);
                assert(self@ =~= before.push(p@));
            }
            proof {
                let prefix = orig.subrange(0, done + 1);
                assert(prefix.drop_last() =~= orig.subrange(0, done));
                assert(prefix.last() == orig[done]);
            }
        }
        assert(orig.subrange(0, n as int) =~= orig);
    }

    /// The most recent position of each trail, `None` for an empty one.
    pub fn lasts(&self) -> (r: Vec<Option<(S, S)>>)
        requires
            self.wf(),
        ensures
            r@.len() == self@.len(),
            forall|i: int|
                0 <= i < r@.len() ==> #[trigger] r@[i] == (if self@[i].positions.len() == 0 {
                    None
                } else {
                    Some(self@[i].positions.last())
                }),
    {
        let mut r: Vec<Option<(S, S)>> = Vec::new();
        let mut j: usize = 0;
        while j < self.data.len()
            invariant
                j <= self@.len(),
                r@.len() == j,
                forall|i: int|
                    0 <= i < j ==> #[trigger] r@[i] == (if self@[i].positions.len() == 0 {
                        None
                    } else {
                        Some(self@[i].positions.last())
                    }),
            decreases self@.len() - j,
        {
            let last = match self.data[j].last() {
                Some(v) => Some(*v),
                None => None,
            };
            r.push(last);
            j = j + 1;
        }
        r
    }

    /// One step of the ensemble: pushes `next[i]` into the `i`-th trail
    /// wherever it is given, and leaves the trails without one untouched.
    pub fn advance(&mut self, next: &Vec<Option<(S, S)>>)
        requires
            old(self).wf(),
            next@.len() == old(self)@.len(),
        ensures
            final(self).wf(),
            final(self)@.len() == old(self)@.len(),
            forall|i: int|
                0 <= i < next@.len() ==> #[trigger] final(self)@[i] == match next@[i] {
                    Some(v) => push_model(old(self)@[i], v, N as nat),
                    None => old(self)@[i],
                },
    {
        let ghost orig = self@;
        let mut j: usize = 0;
        while j < next.len()
            invariant
                next@.len() == orig.len(),
                self@.len() == orig.len(),
                j <= next@.len(),
                self.wf(),
                forall|i: int|
                    0 <= i < j ==> #[trigger] self@[i] == match next@[i] {
                        Some(v) => push_model(orig[i], v, N as nat),
                        None => orig[i],
                    },
                forall|i: int| j <= i < orig.len() ==> #[trigger] self@[i] == orig[i],
            decreases next@.len() - j,
        {
            match next[j] {
                Some(v) => {
                    let ghost before = self@;
                    assert(before[j as int] == self.data@[j as int]@);
                    assert(self.data@[j as int].wf());
                    self.data[j].push(v);
                    assert(self@ =~= before.update(j as int, push_model(orig[j as int], v, N as nat)));
                },
                None => {},
            }
            j = j + 1;
        }
    }
}

} // verus!
