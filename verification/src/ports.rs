//! Pool of UDP ports that node sessions receive on.

use crate::monitor::OtMonitorError;
use vstd::prelude::*;

verus! {

/// Port on which one registered node streams its readings.
pub type NodeRcvPort = u16;

/// A pool of the ports of one contiguous range. It holds the ports that
/// are free, in strictly increasing order.
pub struct Ports {
    base: NodeRcvPort,
    size: u16,
    ports: Vec<NodeRcvPort>,
}

/// `s` is strictly increasing.
pub open spec fn strictly_increasing(s: Seq<u16>) -> bool {
    forall|i: int, j: int| 0 <= i < j < s.len() ==> s[i] < s[j]
}

impl Ports {
    /// First port of the range the pool was made with.
    pub closed spec fn base(&self) -> u16 {
        self.base
    }

    /// Number of ports of the range the pool was made with.
    pub closed spec fn size(&self) -> u16 {
        self.size
    }

    /// Whether `port` is one of the pool's: whether it lies in the range
    /// `base .. base + size`.
    pub open spec fn in_range(&self, port: u16) -> bool {
        self.base() <= port < self.base() + self.size()
    }

    /// The free ports in ascending order.
    pub closed spec fn free_list(&self) -> Seq<u16> {
        self.ports@
    }

    /// The set of free ports.
    pub open spec fn view(&self) -> Set<u16> {
        Set::new(|p: u16| self.free_list().contains(p))
    }

    /// The range fits the port numbers, and the free list is ordered,
    /// holds no port twice and none from outside the range.
    pub open spec fn wf(&self) -> bool {
        &&& self.base() + self.size() <= u16::MAX
        &&& strictly_increasing(self.free_list())
        &&& forall|i: int|
            0 <= i < self.free_list().len() ==> self.in_range(#[trigger] self.free_list()[i])
    }

    /// The smallest free port; meaningful when the pool is not empty.
    pub open spec fn lowest(&self) -> u16 {
        self.free_list()[0]
    }

    /// Whether no port is free.
    pub open spec fn is_exhausted(&self) -> bool {
        self.free_list().len() == 0
    }

    /// A pool whose free ports are `base, base + 1, .., base + size - 1`.
    pub fn new(base: NodeRcvPort, size: u16) -> (res: Result<Self, OtMonitorError>)
        ensures
            base + size > u16::MAX <==> res is Err,
            res matches Err(e) ==> e matches OtMonitorError::PortError(m) && m@
                == "Incompatible port base + size requested"@,
            res matches Ok(pool) ==> {
                &&& pool.wf()
                &&& pool.base() == base
                &&& pool.size() == size
                &&& pool.free_list().len() == size
                &&& forall|i: int| 0 <= i < size ==> pool.free_list()[i] == base + i
                &&& forall|p: u16| pool@.contains(p) <==> base <= p < base + size
            },
    {
        if base.checked_add(size).is_none() {
            return Err(
                OtMonitorError::PortError("Incompatible port base + size requested".to_owned()),
            );
        }
        Ok(Self::range(base, size))
    }

    /// The pool of the `size` ports from `base`, which must fit the port
    /// range.
    pub fn range(base: NodeRcvPort, size: u16) -> (pool: Self)
        requires
            base + size <= u16::MAX,
        ensures
            pool.wf(),
            pool.base() == base,
            pool.size() == size,
            pool.free_list().len() == size,
            forall|i: int| 0 <= i < size ==> pool.free_list()[i] == base + i,
            forall|p: u16| pool@.contains(p) <==> base <= p < base + size,
    {
        let mut ports: Vec<NodeRcvPort> = Vec::new();
        let mut i: u16 = 0;
        while i < size
            invariant
                base + size <= u16::MAX,
                i <= size,
                ports@.len() == i,
                forall|k: int| 0 <= k < i ==> ports@[k] == base + k,
            decreases size - i,
        {
            ports.push(base + i);
            i = i + 1;
        }
        let pool = Ports { base, size, ports };
        proof {
            assert forall|p: u16| pool@.contains(p) <==> base <= p < base + size by {
                if base <= p < base + size {
                    assert(pool.free_list()[p - base] == p);
                }
            }
        }
        pool
    }

    /// Every free port is one of the pool's.
    pub proof fn lemma_free_ports_in_range(&self, port: NodeRcvPort)
        requires
            self.wf(),
            self@.contains(port),
        ensures
            self.in_range(port),
    {
        let k = choose|k: int| 0 <= k < self.free_list().len() && self.free_list()[k] == port;
        assert(self.in_range(self.free_list()[k]));
    }

    /// Whether `port` is free.
    pub fn is_free(&self, port: NodeRcvPort) -> (r: bool)
        ensures
            r == self@.contains(port),
    {
        let mut i: usize = 0;
        while i < self.ports.len()
            invariant
                i <= self.ports@.len(),
                forall|k: int| 0 <= k < i ==> self.ports@[k] != port,
            decreases self.ports@.len() - i,
        {
            if self.ports[i] == port {
                return true;
            }
            i = i + 1;
        }
        false
    }

    /// How many ports are free.
    pub fn free_count(&self) -> (n: usize)
        ensures
            n == self.free_list().len(),
    {
        self.ports.len()
    }

    /// Whether `port` is one of the pool's.
    pub fn is_in_range(&self, port: NodeRcvPort) -> (r: bool)
        ensures
            r == self.in_range(port),
    {
        self.base <= port && port - self.base < self.size
    }

    /// Returns `port` to the free set. A port that is already free stays
    /// free once; a port from outside the pool's range is not taken.
    pub fn mark_port_free_to_use(&mut self, port: NodeRcvPort)
        requires
            old(self).wf(),
        ensures
            final(self).wf(),
            final(self).base() == old(self).base(),
            final(self).size() == old(self).size(),
            final(self)@ =~= if old(self).in_range(port) {
                old(self)@.insert(port)
            } else {
                old(self)@
            },
            old(self)@.contains(port) || !old(self).in_range(port) ==> final(self).free_list()
                == old(self).free_list(),
    {
        if !self.is_in_range(port) {
            return;
        }
        let mut i: usize = 0;
        while i < self.ports.len() && self.ports[i] < port
            invariant
                self.ports@ == old(self).ports@,
                i <= self.ports@.len(),
                forall|k: int| 0 <= k < i ==> self.ports@[k] < port,
            decreases self.ports@.len() - i,
        {
            i = i + 1;
        }
        if i < self.ports.len() && self.ports[i] == port {
            return;
        }
        let ghost before = self.ports@;
        self.ports.insert(i, port);
        proof {
            let after = self.ports@;
            assert(after == before.insert(i as int, port));
            assert forall|a: int, b: int| 0 <= a < b < after.len() implies after[a] < after[b] by {
                if a < i && b > i {
                    assert(before[a] < before[b - 1]);
                }
            }
            assert forall|k: int| 0 <= k < after.len() implies self.in_range(#[trigger] after[k]) by {
                if k < i {
                    assert(after[k] == before[k]);
                } else if k > i {
                    assert(after[k] == before[k - 1]);
                }
            }
            assert forall|p: u16| after.contains(p) <==> (before.contains(p) || p == port) by {
                if after.contains(p) {
                    let k = choose|k: int| 0 <= k < after.len() && after[k] == p;
                    if k < i {
                        assert(before[k] == p);
                    } else if k > i {
                        assert(before[k - 1] == p);
                    }
                }
                if before.contains(p) {
                    let k = choose|k: int| 0 <= k < before.len() && before[k] == p;
                    if k < i {
                        assert(after[k] == p);
                    } else {
                        assert(after[k + 1] == p);
                    }
                }
                if p == port {
                    assert(after[i as int] == p);
                }
            }
        }
    }

    /// Takes the numerically smallest free port out of the pool.
    pub fn get_free_port(&mut self) -> (res: Result<NodeRcvPort, OtMonitorError>)
        requires
            old(self).wf(),
        ensures
            final(self).wf(),
            final(self).base() == old(self).base(),
            final(self).size() == old(self).size(),
            old(self).is_exhausted() <==> res is Err,
            forall|p: u16| old(self)@.contains(p) ==> res is Ok,
            res matches Err(e) ==> final(self).free_list() == old(self).free_list() && (
            e matches OtMonitorError::PortError(m) && m@ == "No free ports available"@),
            res matches Ok(port) ==> {
                &&& port == old(self).lowest()
                &&& old(self).in_range(port)
                &&& old(self)@.contains(port)
                &&& forall|p: u16| old(self)@.contains(p) ==> port <= p
                &&& final(self)@ =~= old(self)@.remove(port)
                &&& final(self).free_list() == old(self).free_list().subrange(1, old(self).free_list().len() as int)
            },
    {
        if self.ports.len() == 0 {
            return Err(OtMonitorError::PortError("No free ports available".to_owned()));
        }
        let ghost before = self.ports@;
        let port = self.ports.remove(0);
        proof {
            let after = self.ports@;
            assert(after =~= before.subrange(1, before.len() as int));
            assert(before[0] == port);
            assert forall|k: int| 0 <= k < after.len() implies self.in_range(#[trigger] after[k]) by {
                assert(after[k] == before[k + 1]);
            }
            assert forall|p: u16| before.contains(p) implies port <= p by {
                let k = choose|k: int| 0 <= k < before.len() && before[k] == p;
                if k > 0 {
                    assert(before[0] < before[k]);
                }
            }
            assert forall|p: u16| after.contains(p) <==> (before.contains(p) && p != port) by {
                if after.contains(p) {
                    let k = choose|k: int| 0 <= k < after.len() && after[k] == p;
                    assert(before[k + 1] == p);
                    assert(before[0] < before[k + 1]);
                }
                if before.contains(p) && p != port {
                    let k = choose|k: int| 0 <= k < before.len() && before[k] == p;
                    assert(after[k - 1] == p);
                }
            }
        }
        Ok(port)
    }
}

} // verus!
