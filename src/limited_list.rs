use vstd::prelude::*;

verus! {

/// Index of the `k`-th retained element of a ring of capacity `n` whose oldest
/// element sits at `head`.
pub open spec fn ring_slot(head: int, k: int, n: int) -> int {
    if head + k < n {
        head + k
    } else {
        head + k - n
    }
}

/// The last `n` elements of `s` (all of `s` when it is not longer than `n`).
pub open spec fn keep_last<T>(s: Seq<T>, n: nat) -> Seq<T> {
    if s.len() <= n {
        s
    } else {
        s.subrange(s.len() - n, s.len() as int)
    }
}

/// A fixed-capacity ring that keeps the `N` most recently pushed values.
pub struct LimitedList<T, const N: usize> {
    data: [T; N],
    size: usize,
    head: usize,
}

impl<T, const N: usize> View for LimitedList<T, N> {
    type V = Seq<T>;

    /// The retained values, oldest first.
    closed spec fn view(&self) -> Seq<T> {
        Seq::new(self.size as nat, |k: int| self.data@[ring_slot(self.head as int, k, N as int)])
    }
}

impl<T: Default + Copy, const N: usize> LimitedList<T, N> {
    pub closed spec fn wf(&self) -> bool {
        &&& self.size <= N
        &&& (N == 0 ==> self.head == 0)
        &&& (N > 0 ==> self.head < N)
    }

    /// An empty ring.
    pub fn new() -> (r: Self)
        ensures
            r.wf(),
            r@ == Seq::<T>::empty(),
    {
        let filler = T::default();
        let r = Self { data: [filler; N], size: 0, head: 0 };
        assert(r@ =~= Seq::<T>::empty());
        r
    }

    /// Appends `value`; when the ring is full the oldest value is dropped.
    pub fn push(&mut self, value: T)
        requires
            old(self).wf(),
            N > 0,
        ensures
            final(self).wf(),
            final(self)@ == keep_last(old(self)@.push(value), N as nat),
            final(self)@.len() <= N,
    {
        let ghost prev = self@;
        if self.size < N {
            let slot = if self.size < N - self.head {
                self.head + self.size
            } else {
                self.size - (N - self.head)
            };
            self.data[slot] = value;
            self.size = self.size + 1;
            assert(self@ =~= prev.push(value));
        } else {
            let slot = self.head;
            self.data[slot] = value;
            self.head = if self.head + 1 < N { self.head + 1 } else { 0 };
            assert(self@ =~= prev.push(value).subrange(1, N as int + 1));
        }
    }

    /// The retained values, oldest first.
    pub fn iter(&self) -> (r: Vec<T>)
        requires
            self.wf(),
        ensures
            r@ == self@,
    {
        let mut r: Vec<T> = Vec::new();
        let mut k: usize = 0;
        while k < self.size
            invariant
                self.wf(),
                k <= self.size,
                r@ == self@.subrange(0, k as int),
            decreases self.size - k,
        {
            let slot = if k < N - self.head {
                self.head + k
            } else {
                k - (N - self.head)
            };
            r.push(self.data[slot]);
            k = k + 1;
            assert(r@ =~= self@.subrange(0, k as int));
        }
        assert(r@ =~= self@);
        r
    }

    /// The most recently pushed value still retained, if any.
    pub fn last(&self) -> (r: Option<&T>)
        requires
            self.wf(),
        ensures
            self@.len() == 0 ==> r is None,
            self@.len() > 0 ==> r is Some && *r.unwrap() == self@.last(),
    {
        if self.size == 0 {
            None
        } else {
            let k = self.size - 1;
            let slot = if k < N - self.head {
                self.head + k
            } else {
                k - (N - self.head)
            };
            Some(&self.data[slot])
        }
    }
}

} // verus!
