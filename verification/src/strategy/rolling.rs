//! Rolling window of samples, with the moments that belong to it.
//!
//! The window is a ring: it remembers the last `capacity` samples and tells which one the next
//! push drives out. The moments are carried along; whoever pushes a sample works them out from
//! the sample that leaves and the one that comes.
use vstd::prelude::*;
use crate::num::{spec_zero, Num};

verus! {

/// One ten-billionth: a deviation below it counts as none.
pub const MIN_STD_BITS: u64 = 0x3DDB_7CDF_D9D7_BDBB;

/// Sum, squared deviations, mean and standard deviation of a window.
#[derive(Clone, Copy, Debug, PartialEq, Eq, Structural)]
pub struct Moments {
    pub sum: Num,
    pub m2: Num,
    pub mean: Num,
    pub std_dev: Num,
}

/// Whether a deviation is too small to divide by.
pub open spec fn negligible(std_dev: Num) -> bool {
    std_dev.below(Num { bits: MIN_STD_BITS })
}

/// The moments of an empty window.
pub open spec fn no_moments() -> Moments {
    Moments { sum: spec_zero(), m2: spec_zero(), mean: spec_zero(), std_dev: spec_zero() }
}

/// The window after a sample was pushed.
pub open spec fn pushed(window: Seq<Num>, capacity: nat, value: Num) -> Seq<Num> {
    if window.len() < capacity {
        window.push(value)
    } else {
        window.drop_first().push(value)
    }
}

/// Rolling window.
#[derive(Debug)]
pub struct RollingStats {
    buffer: Vec<Num>,
    capacity: usize,
    write_pos: usize,
    count: usize,
    moments: Moments,
}

impl RollingStats {
    /// The samples in the window, the oldest first.
    pub closed spec fn window(&self) -> Seq<Num> {
        if self.count < self.capacity {
            self.buffer@.take(self.count as int)
        } else {
            self.buffer@.skip(self.write_pos as int) + self.buffer@.take(self.write_pos as int)
        }
    }

    /// Most samples that the window holds.
    pub closed spec fn spec_capacity(&self) -> nat {
        self.capacity as nat
    }

    /// The moments of the window.
    pub closed spec fn spec_moments(&self) -> Moments {
        self.moments
    }

    /// A partly filled ring is filled from its start.
    pub closed spec fn wf(&self) -> bool {
        &&& self.capacity > 0
        &&& self.buffer@.len() == self.capacity
        &&& self.write_pos < self.capacity
        &&& self.count <= self.capacity
        &&& self.count < self.capacity ==> self.write_pos == self.count
    }

    /// An empty window.
    pub fn new(capacity: usize) -> (r: RollingStats)
        requires
            capacity > 0,
        ensures
            r.wf(),
            r.spec_capacity() == capacity,
            r.window() == Seq::<Num>::empty(),
            r.spec_moments() == no_moments(),
    {
        let mut buffer: Vec<Num> = Vec::new();
        while buffer.len() < capacity
            invariant
                buffer@.len() <= capacity,
            decreases capacity - buffer@.len(),
        {
            buffer.push(Num::zero());
        }
        RollingStats {
            buffer,
            capacity,
            write_pos: 0,
            count: 0,
            moments: Moments {
                sum: Num::zero(),
                m2: Num::zero(),
                mean: Num::zero(),
                std_dev: Num::zero(),
            },
        }
    }

    /// The sample that the next push drives out.
    pub fn leaving(&self) -> (r: Option<Num>)
        requires
            self.wf(),
        ensures
            r == if self.window().len() < self.spec_capacity() {
                None
            } else {
                Some(self.window()[0])
            },
    {
        if self.count >= self.capacity {
            Some(self.buffer[self.write_pos])
        } else {
            None
        }
    }

    /// Pushes a sample, with the moments of the window that it makes.
    pub fn push(&mut self, value: Num, moments: Moments)
        requires
            old(self).wf(),
        ensures
            final(self).wf(),
            final(self).spec_capacity() == old(self).spec_capacity(),
            final(self).window() == pushed(
                old(self).window(),
                old(self).spec_capacity(),
                value,
            ),
            final(self).spec_moments() == moments,
    {
        let at: usize = self.write_pos;
        let ghost before = self.window();
        if self.count < self.capacity {
            self.count = self.count + 1;
        }
        self.buffer.set(at, value);
        self.write_pos = if at + 1 >= self.capacity { 0 } else { at + 1 };
        self.moments = moments;
        proof {
            let want = pushed(before, self.capacity as nat, value);
            assert(self.window() =~= want);
        }
    }

    /// The moments of the window.
    pub fn moments(&self) -> (r: Moments)
        ensures
            r == self.spec_moments(),
    {
        self.moments
    }

    /// Mean of the window.
    pub fn mean(&self) -> (r: Num)
        ensures
            r == self.spec_moments().mean,
    {
        self.moments.mean
    }

    /// Standard deviation of the window.
    pub fn std_dev(&self) -> (r: Num)
        ensures
            r == self.spec_moments().std_dev,
    {
        self.moments.std_dev
    }

    /// Whether the deviation is too small to divide by: a score is then zero.
    pub fn is_flat(&self) -> (r: bool)
        ensures
            r == self.spec_moments().std_dev.below(Num { bits: MIN_STD_BITS }),
r == negligible(self.spec_moments().std_dev),
    {
        self.moments.std_dev.lt(Num::new(MIN_STD_BITS))
    }

    /// Samples in the window.
    pub fn count(&self) -> (r: usize)
        requires
            self.wf(),
        ensures
            r == self.window().len(),
    {
        self.count
    }

    /// Whether the window is full.
    pub fn is_full(&self) -> (r: bool)
        requires
            self.wf(),
        ensures
            r == (self.window().len() >= self.spec_capacity()),
    {
        self.count >= self.capacity
    }

    /// Empties the window.
    pub fn clear(&mut self)
        requires
            old(self).wf(),
        ensures
            final(self).wf(),
            final(self).spec_capacity() == old(self).spec_capacity(),
            final(self).window() == Seq::<Num>::empty(),
            final(self).spec_moments() == no_moments(),
    {
        self.write_pos = 0;
        self.count = 0;
        self.moments = Moments {
            sum: Num::zero(),
            m2: Num::zero(),
            mean: Num::zero(),
            std_dev: Num::zero(),
        };
    }
}

/// The window after all of `values` were pushed in turn.
pub open spec fn pushed_all(window: Seq<Num>, capacity: nat, values: Seq<Num>) -> Seq<Num>
    decreases values.len(),
{
    if values.len() == 0 {
        window
    } else {
        pushed(pushed_all(window, capacity, values.drop_last()), capacity, values.last())
    }
}

/// The window holds the samples pushed last, as many as fit, in the order of their coming.
pub proof fn window_holds_the_latest(capacity: nat, values: Seq<Num>)
    requires
        capacity > 0,
    ensures
        pushed_all(Seq::empty(), capacity, values) == if values.len() <= capacity {
            values
        } else {
            values.skip(values.len() - capacity)
        },
    decreases values.len(),
{
    if values.len() > 0 {
        let before = values.drop_last();
        window_holds_the_latest(capacity, before);
        let want = if values.len() <= capacity {
            values
        } else {
            values.skip(values.len() - capacity)
        };
        assert(pushed_all(Seq::empty(), capacity, values) =~= want);
    } else {
        assert(values =~= Seq::empty());
    }
}

/// A deviation counts from one ten-billionth on; an empty window has no moments at all.
pub proof fn tiny_deviations_count_as_none(std_dev: Num)
    ensures
        negligible(std_dev) <==> std_dev.below(Num { bits: 0x3DDB_7CDF_D9D7_BDBB }),
        no_moments().sum == spec_zero() && no_moments().m2 == spec_zero(),
        no_moments().mean == spec_zero() && no_moments().std_dev == spec_zero(),
{
}

} // verus!
