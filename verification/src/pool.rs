//! Queue-number allocation for a pool of kernel packet queues.
//!
//! Queue numbers are a namespace shared with other processes, so binding a
//! contiguous block must tolerate conflicts: the allocator scans its current
//! window from the top down, and on a conflict it gives back everything it
//! bound in the failed attempt, moves the window past the conflicting
//! number, and retries, until a whole block binds or the number space is
//! exhausted. The caller performs the actual kernel binds and reports each
//! outcome back; this state machine decides every step and owns the
//! bookkeeping.

use vstd::prelude::*;
use vstd::slice::slice_to_vec;

verus! {

/// The first queue number a pool tries.
pub const QUEUE_BASE_NUM: u16 = 1000;

/// The default worker-thread count when none is configured.
pub const DEFAULT_THREADS: u16 = 2;

/// What the allocator wants next: bind one more number, or stop because the
/// block is complete or because no block can fit any more.
#[derive(Clone, Copy, PartialEq, Eq, Structural, Debug)]
pub enum AllocStep {
    Bind(u16),
    Done,
    Exhausted,
}

/// The allocation state machine. `bound` holds the numbers bound in the
/// current attempt, from the top of the window downwards; `granted` records
/// every number the kernel has ever granted to this pool.
pub struct QueueAlloc {
    pub count: u16,
    pub window_start: u16,
    pub bound: Vec<u16>,
    pub failed: bool,
    pub granted: Ghost<Set<u16>>,
}

impl QueueAlloc {
    /// The state invariant: the window fits in the number space while the
    /// allocator has not failed, and `bound` descends from the window top,
    /// holding only numbers the kernel granted.
    pub open spec fn wf(self) -> bool {
        &&& 1 <= self.count
        &&& (!self.failed ==> self.window_start + self.count <= 0x10000)
        &&& self.bound@.len() <= self.count
        &&& (!self.failed ==> forall|k: int|
            0 <= k < self.bound@.len() ==> self.bound@[k] == self.window_start + self.count - 1
                - k)
        &&& forall|k: int|
            0 <= k < self.bound@.len() ==> self.granted@.contains(#[trigger] self.bound@[k])
    }

    /// The next step: with a full block the allocation is done; otherwise
    /// the next number below the ones already bound, scanning downward.
    pub open spec fn next_spec(self) -> AllocStep {
        if self.failed {
            AllocStep::Exhausted
        } else if self.bound@.len() == self.count {
            AllocStep::Done
        } else {
            AllocStep::Bind(
                (self.window_start + self.count - 1 - self.bound@.len()) as u16,
            )
        }
    }

    /// A fresh allocator for `count` numbers, with its window at `base`.
    pub fn new(count: u16, base: u16) -> (a: QueueAlloc)
        requires
            1 <= count,
            base + count <= 0x10000,
        ensures
            a.wf(),
            a.count == count,
            a.window_start == base,
            a.bound@.len() == 0,
            !a.failed,
            a.granted@ == Set::<u16>::empty(),
    {
        QueueAlloc {
            count,
            window_start: base,
            bound: Vec::new(),
            failed: false,
            granted: Ghost(Set::empty()),
        }
    }

    /// What to do next, as `next_spec` says.
    pub fn next(&self) -> (s: AllocStep)
        requires
            self.wf(),
        ensures
            s == self.next_spec(),
    {
        if self.failed {
            AllocStep::Exhausted
        } else if self.bound.len() >= self.count as usize {
            AllocStep::Done
        } else {
            AllocStep::Bind(self.count - 1 - (self.bound.len() as u16) + self.window_start)
        }
    }

    /// The kernel granted the bind of `q`: record it and move on.
    pub fn bind_ok(&mut self, q: u16)
        requires
            old(self).wf(),
            old(self).next_spec() == AllocStep::Bind(q),
        ensures
            final(self).wf(),
            final(self).count == old(self).count,
            final(self).window_start == old(self).window_start,
            !final(self).failed,
            final(self).bound@ == old(self).bound@.push(q),
            final(self).granted@ == old(self).granted@.insert(q),
    {
        self.bound.push(q);
        proof {
            self.granted@ = self.granted@.insert(q);
        }
    }

    /// The bind of `q` conflicted with a foreign owner: give back exactly
    /// the numbers this attempt bound — never a number the kernel did not
    /// grant to this pool — and move the window past `q`, or fail when no
    /// window of `count` numbers fits above `q` any more.
    pub fn bind_conflict(&mut self, q: u16) -> (to_unbind: Vec<u16>)
        requires
            old(self).wf(),
            old(self).next_spec() == AllocStep::Bind(q),
        ensures
            final(self).wf(),
            to_unbind@ == old(self).bound@,
            forall|k: int|
                0 <= k < to_unbind@.len() ==> old(self).granted@.contains(
                    #[trigger] to_unbind@[k],
                ),
            final(self).bound@.len() == 0,
            final(self).count == old(self).count,
            final(self).granted@ == old(self).granted@,
            final(self).failed == (q + 1 + old(self).count > 0x10000),
            !final(self).failed ==> final(self).window_start == q + 1,
    {
        let to_unbind = slice_to_vec(self.bound.as_slice());
        self.bound.clear();
        let limit: u32 = q as u32 + 1 + self.count as u32;
        if limit > 0x10000 {
            self.failed = true;
        } else {
            self.window_start = q + 1;
        }
        to_unbind
    }

    /// The bound block once the allocation is done: the inclusive range of
    /// exactly `count` consecutive numbers, every one of which the kernel
    /// granted to this pool.
    pub fn range(&self) -> (r: (u16, u16))
        requires
            self.wf(),
            self.next_spec() == AllocStep::Done,
        ensures
            r.0 == self.window_start,
            r.1 == self.window_start + self.count - 1,
            r.1 - r.0 + 1 == self.count,
            forall|q: u16| r.0 <= q <= r.1 ==> self.granted@.contains(q),
    {
        proof {
            assert forall|q: u16|
                self.window_start <= q <= self.window_start + self.count - 1 implies self.granted@.contains(
                q,
            ) by {
                let k = self.window_start + self.count - 1 - q;
                assert(self.bound@[k as int] == q);
            }
        }
        (self.window_start, self.window_start + (self.count - 1))
    }
}

/// Round a configured worker-thread count up to an even number (down at the
/// very top of the range, where up does not fit); absent configuration
/// falls back to the default.
pub fn normalize_thread_count(parsed: Option<u16>) -> (n: u16)
    ensures
        n % 2 == 0,
        (match parsed {
            None => n == DEFAULT_THREADS,
            Some(t) => (if t % 2 == 0 {
                n == t
            } else if t < u16::MAX {
                n == t + 1
            } else {
                n == t - 1
            }),
        }),
{
    match parsed {
        None => DEFAULT_THREADS,
        Some(t) => {
            if t % 2 == 0 {
                t
            } else if t < u16::MAX {
                t + 1
            } else {
                t - 1
            }
        },
    }
}

/// The per-direction share of the worker threads: each of the two pools
/// gets half.
pub fn split_pools(total: u16) -> (r: (u16, u16))
    ensures
        r.0 == total / 2,
        r.1 == total / 2,
{
    (total / 2, total / 2)
}

} // verus!
