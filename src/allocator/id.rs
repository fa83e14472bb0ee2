//! Allocation of identifiers from a range of numbers.
use vstd::prelude::*;

use crate::allocator::resource::{Error, Resource, ResourceAllocator, ResourceSize};

verus! {

impl Resource for u32 {

}

impl ResourceSize for u32 {

}

/// Identifiers from `start` to `end`, with those in use kept in ascending
/// order.
#[derive(Debug)]
pub struct IdAllocator {
    start: u32,
    end: u32,
    used: Vec<u32>,
}

/// `s` is in strictly ascending order.
pub open spec fn ascending(s: Seq<u32>) -> bool {
    forall|i: int, j: int| 0 <= i < j < s.len() ==> s[i] < s[j]
}

impl IdAllocator {
    /// The first identifier.
    pub closed spec fn spec_start(&self) -> u32 {
        self.start
    }

    /// The last identifier.
    pub closed spec fn spec_end(&self) -> u32 {
        self.end
    }

    /// The identifiers in use, in ascending order.
    pub closed spec fn spec_used(&self) -> Seq<u32> {
        self.used@
    }

    /// An allocator of the identifiers `start` to `end`, none in use.
    pub fn new(start: u32, end: u32) -> (r: Option<Self>)
        ensures
            match r {
                Some(a) => a.wf() && a.spec_start() == start && a.spec_end() == end
                    && a.spec_used().len() == 0,
                None => false,
            },
    {
        Some(IdAllocator { start, end, used: Vec::new() })
    }

    /// The lowest identifier from `start` that is not in use; with none in
    /// use, `start` itself. `Overflow` where all identifiers to `end` are in
    /// use.
    fn first_usable_number(&self) -> (r: Result<u32, Error>)
        requires
            self.wf(),
        ensures
            match r {
                Ok(v) => {
                    &&& self.spec_start() <= v
                    &&& !self.spec_used().contains(v)
                    &&& forall|w: u32|
                        self.spec_start() <= w < v ==> self.spec_used().contains(w)
                    &&& (v <= self.spec_end() || self.spec_used().len() == 0)
                    &&& (self.spec_used().len() == 0 ==> v == self.spec_start())
                },
                Err(e) => {
                    &&& e == Error::Overflow
                    &&& self.spec_used().len() > 0
                    &&& forall|w: u32|
                        self.spec_start() <= w <= self.spec_end() ==> self.spec_used().contains(w)
                },
            },
    {
        if self.used.len() == 0 {
            return Ok(self.start);
        }
        let mut previous = self.start;
        let mut i: usize = 0;
        while i < self.used.len()
            invariant
                self.wf(),
                i <= self.used@.len(),
                previous == self.start + i,
                forall|k: int| 0 <= k < i ==> (#[trigger] self.used@[k]) == self.start + k,
            decreases self.used@.len() - i,
        {
            let x = self.used[i];
            proof {
                if i > 0 {
                    assert(self.used@[i - 1] < self.used@[i as int]);
                }
            }
            if x > previous {
                proof {
                    assert forall|w: u32| self.start <= w < previous implies self.used@.contains(
                        w,
                    ) by {
                        assert(self.used@[w - self.start] == w);
                    }
                    assert forall|k: int| 0 <= k < self.used@.len() implies self.used@[k]
                        != previous by {
                        if k > i {
                            assert(self.used@[i as int] < self.used@[k]);
                        }
                    }
                }
                return Ok(previous);
            }
            if x == u32::MAX {
                proof {
                    assert forall|w: u32| self.start <= w <= self.end implies self.used@.contains(
                        w,
                    ) by {
                        assert(self.used@[w - self.start] == w);
                    }
                }
                return Err(Error::Overflow);
            }
            previous = x + 1;
            i = i + 1;
        }
        if previous <= self.end {
            proof {
                assert forall|w: u32| self.start <= w < previous implies self.used@.contains(w) by {
                    assert(self.used@[w - self.start] == w);
                }
            }
            Ok(previous)
        } else {
            proof {
                assert forall|w: u32| self.start <= w <= self.end implies self.used@.contains(w) by {
                    assert(self.used@[w - self.start] == w);
                }
            }
            Err(Error::Overflow)
        }
    }

    /// Puts `id`, not in use, among the identifiers in use, keeping the order.
    fn insert_used(&mut self, id: u32)
        requires
            old(self).wf(),
            id >= old(self).spec_start(),
            id <= old(self).spec_end() || id == old(self).spec_start(),
            !old(self).spec_used().contains(id),
        ensures
            final(self).wf(),
            final(self).spec_start() == old(self).spec_start(),
            final(self).spec_end() == old(self).spec_end(),
            forall|w: u32|
                final(self).spec_used().contains(w) <==> (old(self).spec_used().contains(w) || w
                    == id),
    {
        let mut p: usize = 0;
        while p < self.used.len() && self.used[p] < id
            invariant
                p <= self.used@.len(),
                forall|k: int| 0 <= k < p ==> (#[trigger] self.used@[k]) < id,
            decreases self.used@.len() - p,
        {
            p = p + 1;
        }
        let ghost s = self.used@;
        proof {
            if p < s.len() {
                assert(s[p as int] != id);
            }
        }
        self.used.insert(p, id);
        proof {
            assert forall|w: u32| self.used@.contains(w) <==> (s.contains(w) || w == id) by {
                if self.used@.contains(w) {
                    let k = choose|k: int| 0 <= k < self.used@.len() && self.used@[k] == w;
                    if k < p {
                        assert(s[k] == w);
                    } else if k > p {
                        assert(s[k - 1] == w);
                    }
                }
                if s.contains(w) {
                    let k = choose|k: int| 0 <= k < s.len() && s[k] == w;
                    if k < p {
                        assert(self.used@[k] == w);
                    } else {
                        assert(self.used@[k + 1] == w);
                    }
                }
                if w == id {
                    assert(self.used@[p as int] == w);
                }
            }
        }
    }
}

impl ResourceAllocator<u32, u32> for IdAllocator {
    /// The identifiers in use are in ascending order, none below `start`, and
    /// none above `end` but `start` itself.
    open spec fn wf(&self) -> bool {
        &&& ascending(self.spec_used())
        &&& forall|i: int|
            0 <= i < self.spec_used().len() ==> (#[trigger] self.spec_used()[i]) >= self.spec_start()
                && (self.spec_used()[i] <= self.spec_end() || self.spec_used()[i]
                == self.spec_start())
    }

    /// Allocates `resource` where given, else the lowest free identifier.
    ///
    /// `SizeInvalid` unless `size` is 1; `OutofScope` for an identifier
    /// outside `start` to `end`; `Duplicated` for one in use; `Overflow`
    /// where none is free.
    fn allocate(&mut self, resource: Option<u32>, size: u32) -> (r: Result<u32, Error>)
        ensures
            final(self).spec_start() == old(self).spec_start(),
            final(self).spec_end() == old(self).spec_end(),
            size != 1 ==> r == Err::<u32, Error>(Error::SizeInvalid),
            size == 1 ==> match resource {
                Some(res) => if res < old(self).spec_start() || res > old(self).spec_end() {
                    r == Err::<u32, Error>(Error::OutofScope)
                } else if old(self).spec_used().contains(res) {
                    r == Err::<u32, Error>(Error::Duplicated)
                } else {
                    r == Ok::<u32, Error>(res)
                },
                None => match r {
                    Ok(v) => {
                        &&& old(self).spec_start() <= v
                        &&& !old(self).spec_used().contains(v)
                        &&& forall|w: u32|
                            old(self).spec_start() <= w < v ==> old(self).spec_used().contains(w)
                    },
                    Err(e) => {
                        &&& e == Error::Overflow
                        &&& forall|w: u32|
                            old(self).spec_start() <= w <= old(self).spec_end() ==> old(
                                self,
                            ).spec_used().contains(w)
                    },
                },
            },
            match r {
                Ok(v) => forall|w: u32|
                    final(self).spec_used().contains(w) <==> (old(self).spec_used().contains(w)
                        || w == v),
                Err(_) => final(self).spec_used() == old(self).spec_used(),
            },
    {
        if size != 1 {
            return Err(Error::SizeInvalid);
        }
        let ret = match resource {
            Some(res) => {
                if res < self.start || res > self.end {
                    return Err(Error::OutofScope);
                }
                let mut i: usize = 0;
                while i < self.used.len()
                    invariant
                        *self == *old(self),
                        self.wf(),
                        size == 1,
                        self.start <= res <= self.end,
                        resource == Some(res),
                        i <= self.used@.len(),
                        forall|k: int| 0 <= k < i ==> (#[trigger] self.used@[k]) != res,
                    decreases self.used@.len() - i,
                {
                    if self.used[i] == res {
                        assert(self.used@[i as int] == res);
                        return Err(Error::Duplicated);
                    }
                    i = i + 1;
                }
                res
            },
            None => match self.first_usable_number() {
                Ok(v) => v,
                Err(e) => return Err(e),
            },
        };
        self.insert_used(ret);
        Ok(ret)
    }

    /// Releases `resource`; nothing happens unless `size` is 1 and the
    /// identifier is in use.
    fn free(&mut self, resource: u32, size: u32)
        ensures
            final(self).spec_start() == old(self).spec_start(),
            final(self).spec_end() == old(self).spec_end(),
            size != 1 ==> final(self).spec_used() == old(self).spec_used(),
            size == 1 ==> forall|w: u32|
                final(self).spec_used().contains(w) <==> (old(self).spec_used().contains(w) && w
                    != resource),
    {
        if size != 1 {
            return;
        }
        let mut i: usize = 0;
        while i < self.used.len()
            invariant
                *self == *old(self),
                self.wf(),
                size == 1,
                i <= self.used@.len(),
                forall|k: int| 0 <= k < i ==> (#[trigger] self.used@[k]) != resource,
            decreases self.used@.len() - i,
        {
            if self.used[i] == resource {
                let ghost s = self.used@;
                self.used.remove(i);
                proof {
                    assert forall|x: int, y: int| 0 <= x < y < self.used@.len() implies self.used@[x]
                        < self.used@[y] by {
                        let xo = if x < i { x } else { x + 1 };
                        let yo = if y < i { y } else { y + 1 };
                        assert(self.used@[x] == s[xo]);
                        assert(self.used@[y] == s[yo]);
                    }
                    assert forall|k: int| 0 <= k < self.used@.len() implies (
                    #[trigger] self.used@[k]) >= self.start && (self.used@[k] <= self.end
                        || self.used@[k] == self.start) by {
                        let ko = if k < i { k } else { k + 1 };
                        assert(self.used@[k] == s[ko]);
                    }
                    assert forall|w: u32| self.used@.contains(w) <==> (s.contains(w) && w
                        != resource) by {
                        if self.used@.contains(w) {
                            let k = choose|k: int| 0 <= k < self.used@.len() && self.used@[k] == w;
                            let ko = if k < i { k } else { k + 1 };
                            assert(self.used@[k] == s[ko]);
                            if ko != i {
                                if ko < i {
                                    assert(s[ko] < s[i as int]);
                                } else {
                                    assert(s[i as int] < s[ko]);
                                }
                            }
                        }
                        if s.contains(w) && w != resource {
                            let k = choose|k: int| 0 <= k < s.len() && s[k] == w;
                            if k < i {
                                assert(self.used@[k] == w);
                            } else {
                                assert(self.used@[k - 1] == w);
                            }
                        }
                    }
                }
                return;
            }
            i = i + 1;
        }
        proof {
            assert forall|w: u32| self.used@.contains(w) <==> (self.used@.contains(w) && w
                != resource) by {
                if self.used@.contains(w) && w == resource {
                    let k = choose|k: int| 0 <= k < self.used@.len() && self.used@[k] == w;
                }
            }
        }
    }
}

} // verus!
