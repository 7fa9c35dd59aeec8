use vstd::prelude::*;

verus! {

/// Index of one media-engine worker inside a [`WorkerPool`].
pub type WorkerId = usize;

/// A fixed set of workers, each with the number of rooms that currently use it.
pub struct WorkerPool {
    pub loads: Vec<u64>,
}

/// Position of the first least-loaded entry of `loads`.
pub open spec fn is_least_loaded(loads: Seq<u64>, w: int) -> bool {
    &&& 0 <= w < loads.len()
    &&& forall|j: int| 0 <= j < loads.len() ==> loads[w] <= loads[j]
    &&& forall|j: int| 0 <= j < w ==> loads[w] < loads[j]
}

impl WorkerPool {
    pub open spec fn view(&self) -> Seq<u64> {
        self.loads@
    }

    /// A pool of `size` workers that no room uses yet.
    pub fn new(size: usize) -> (r: Self)
        ensures
            r@ == Seq::new(size as nat, |i: int| 0u64),
    {
        let mut loads: Vec<u64> = Vec::new();
        let mut i: usize = 0;
        while i < size
            invariant
                i <= size,
                loads@ == Seq::new(i as nat, |k: int| 0u64),
            decreases size - i,
        {
            loads.push(0);
            i = i + 1;
            proof {
                assert(loads@ =~= Seq::new(i as nat, |k: int| 0u64));
            }
        }
        WorkerPool { loads }
    }

    pub fn size(&self) -> (r: usize)
        ensures
            r == self@.len(),
    {
        self.loads.len()
    }

    /// Hands out the first least-loaded worker and counts one more room on it.
    /// Returns `None` only when the pool has no worker at all.
    pub fn acquire_worker(&mut self) -> (r: Option<WorkerId>)
        ensures
            old(self)@.len() == 0 <==> r.is_none(),
            r.is_none() ==> final(self)@ == old(self)@,
            r matches Some(w) ==> {
                &&& is_least_loaded(old(self)@, w as int)
                &&& final(self)@ == old(self)@.update(w as int, saturating_inc(old(self)@[w as int]))
            },
    {
        let n = self.loads.len();
        if n == 0 {
            return None;
        }
        let mut best: usize = 0;
        let mut i: usize = 1;
        while i < n
            invariant
                n == self.loads@.len(),
                self@ == old(self)@,
                1 <= i <= n,
                best < i,
                forall|j: int| 0 <= j < i ==> self.loads@[best as int] <= self.loads@[j],
                forall|j: int| 0 <= j < best ==> self.loads@[best as int] < self.loads@[j],
            decreases n - i,
        {
            if self.loads[i] < self.loads[best] {
                best = i;
            }
            i = i + 1;
        }
        let cur = self.loads[best];
        let next = if cur < u64::MAX { cur + 1 } else { cur };
        self.loads.set(best, next);
        Some(best)
    }

    /// Counts one room less on `w`; a worker already at zero stays there.
    pub fn release_worker(&mut self, w: WorkerId)
        ensures
            w < old(self)@.len() ==> final(self)@ == old(self)@.update(w as int, saturating_dec(old(self)@[w as int])),
            w >= old(self)@.len() ==> final(self)@ == old(self)@,
    {
        if w < self.loads.len() {
            let cur = self.loads[w];
            let next = if cur > 0 { cur - 1 } else { 0 };
            self.loads.set(w, next);
        }
    }
}

pub open spec fn saturating_inc(x: u64) -> u64 {
    if x < u64::MAX { (x + 1) as u64 } else { x }
}

pub open spec fn saturating_dec(x: u64) -> u64 {
    if x > 0 { (x - 1) as u64 } else { 0 }
}

} // verus!
