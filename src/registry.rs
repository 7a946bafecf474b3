//! The registry of software breakpoints: one record per address, holding the
//! byte that the trap opcode displaced.
use vstd::prelude::*;

verus! {

/// A software breakpoint: its address and the original byte at that address.
/// The byte is meaningful only once the breakpoint has been armed in a live
/// tracee; until then it is zero.
#[derive(Clone, Copy, Debug, PartialEq, Eq, Structural)]
pub struct Breakpoint {
    pub addr: usize,
    pub orig_byte: u8,
}

/// Breakpoints in the order they were first set, at most one per address.
pub struct BreakpointRegistry {
    entries: Vec<Breakpoint>,
}

impl View for BreakpointRegistry {
    /// Address to saved original byte.
    type V = Map<usize, u8>;

    closed spec fn view(&self) -> Map<usize, u8> {
        Map::new(
            |a: usize| exists|i: int| 0 <= i < self.entries@.len() && self.entries@[i].addr == a,
            |a: usize|
                self.entries@[choose|i: int|
                    0 <= i < self.entries@.len() && self.entries@[i].addr == a].orig_byte,
        )
    }
}

impl BreakpointRegistry {
    /// Addresses are unique.
    pub closed spec fn wf(&self) -> bool {
        forall|i: int, j: int|
            0 <= i < j < self.entries@.len() ==> #[trigger] self.entries@[i].addr
                != #[trigger] self.entries@[j].addr
    }

    /// The registered addresses, in the order they were first set.
    pub closed spec fn order(&self) -> Seq<usize> {
        self.entries@.map_values(|b: Breakpoint| b.addr)
    }

    proof fn lemma_view_at(&self, i: int)
        requires
            self.wf(),
            0 <= i < self.entries@.len(),
        ensures
            self@.contains_key(self.entries@[i].addr),
            self@[self.entries@[i].addr] == self.entries@[i].orig_byte,
    {
        let a = self.entries@[i].addr;
        assert(self@.contains_key(a));
        let j = choose|j: int| 0 <= j < self.entries@.len() && self.entries@[j].addr == a;
        if j < i {
            assert(self.entries@[j].addr != self.entries@[i].addr);
        } else if i < j {
            assert(self.entries@[i].addr != self.entries@[j].addr);
        }
    }

    /// The order lists each registered address exactly once.
    pub proof fn lemma_order(&self)
        requires
            self.wf(),
        ensures
            self.order().no_duplicates(),
            self.order().to_set() == self@.dom(),
            self.order().len() == self@.len(),
    {
        let o = self.order();
        assert forall|i: int, j: int| 0 <= i < o.len() && 0 <= j < o.len() && i != j implies o[i]
            != o[j] by {
            if i < j {
                assert(self.entries@[i].addr != self.entries@[j].addr);
            } else {
                assert(self.entries@[j].addr != self.entries@[i].addr);
            }
        }
        assert forall|a: usize| o.to_set().contains(a) <==> self@.dom().contains(a) by {
            if o.to_set().contains(a) {
                let i = choose|i: int| 0 <= i < o.len() && o[i] == a;
                self.lemma_view_at(i);
            }
            if self@.dom().contains(a) {
                let i = choose|i: int| 0 <= i < self.entries@.len() && self.entries@[i].addr == a;
                assert(o[i] == a);
            }
        }
        assert(o.to_set() =~= self@.dom());
        o.unique_seq_to_set();
    }

    /// An empty registry.
    pub fn new() -> (r: Self)
        ensures
            r.wf(),
            r@ == Map::<usize, u8>::empty(),
            r.order() == Seq::<usize>::empty(),
    {
        let r = BreakpointRegistry { entries: Vec::new() };
        assert(r@ =~= Map::<usize, u8>::empty());
        assert(r.order() =~= Seq::<usize>::empty());
        r
    }

    /// Number of breakpoints.
    pub fn len(&self) -> (r: usize)
        requires
            self.wf(),
        ensures
            r == self@.len(),
    {
        proof {
            self.lemma_order();
        }
        self.entries.len()
    }

    fn index_of(&self, addr: usize) -> (r: Option<usize>)
        requires
            self.wf(),
        ensures
            match r {
                Some(i) => i < self.entries@.len() && self.entries@[i as int].addr == addr,
                None => !self@.contains_key(addr),
            },
    {
        let mut i: usize = 0;
        while i < self.entries.len()
            invariant
                i <= self.entries@.len(),
                forall|k: int| 0 <= k < i ==> self.entries@[k].addr != addr,
            decreases self.entries@.len() - i,
        {
            if self.entries[i].addr == addr {
                return Some(i);
            }
            i = i + 1;
        }
        None
    }

    /// Whether a breakpoint is set at `addr`.
    pub fn contains(&self, addr: usize) -> (r: bool)
        requires
            self.wf(),
        ensures
            r == self@.contains_key(addr),
    {
        match self.index_of(addr) {
            Some(i) => {
                proof {
                    self.lemma_view_at(i as int);
                }
                true
            },
            None => false,
        }
    }

    /// The breakpoint at `addr`, if one is set.
    pub fn find(&self, addr: usize) -> (r: Option<Breakpoint>)
        requires
            self.wf(),
        ensures
            r.is_some() == self@.contains_key(addr),
            r.is_some() ==> r.unwrap().addr == addr && r.unwrap().orig_byte == self@[addr],
    {
        match self.index_of(addr) {
            Some(i) => {
                proof {
                    self.lemma_view_at(i as int);
                }
                Some(self.entries[i])
            },
            None => None,
        }
    }

    /// Records `orig_byte` as the byte displaced at `addr`, adding a
    /// breakpoint there if there is none; a new address goes last in the order.
    pub fn insert(&mut self, addr: usize, orig_byte: u8)
        requires
            old(self).wf(),
        ensures
            final(self).wf(),
            final(self)@ == old(self)@.insert(addr, orig_byte),
            old(self)@.contains_key(addr) ==> final(self).order() == old(self).order(),
            !old(self)@.contains_key(addr) ==> final(self).order() == old(self).order().push(addr),
    {
        let ghost old_self = *self;
        let b = Breakpoint { addr, orig_byte };
        match self.index_of(addr) {
            Some(i) => {
                self.entries.set(i, b);
                proof {
                    assert(self.order() =~= old_self.order());
                    assert forall|a: usize| #[trigger]
                        self@.contains_key(a) == old_self@.insert(addr, orig_byte).contains_key(
                            a,
                        ) by {
                        if self@.contains_key(a) {
                            let j = choose|j: int|
                                0 <= j < self.entries@.len() && self.entries@[j].addr == a;
                            old_self.lemma_view_at(j);
                        }
                        if old_self@.contains_key(a) {
                            let j = choose|j: int|
                                0 <= j < old_self.entries@.len() && old_self.entries@[j].addr == a;
                            self.lemma_view_at(j);
                        }
                        if a == addr {
                            self.lemma_view_at(i as int);
                        }
                    }
                    assert forall|a: usize| #[trigger]
                        self@.contains_key(a) implies self@[a] == old_self@.insert(
                        addr,
                        orig_byte,
                    )[a] by {
                        let j = choose|j: int|
                            0 <= j < self.entries@.len() && self.entries@[j].addr == a;
                        self.lemma_view_at(j);
                        if j != i {
                            old_self.lemma_view_at(j);
                        }
                    }
                    assert(self@ =~= old_self@.insert(addr, orig_byte));
                }
            },
            None => {
                self.entries.push(b);
                proof {
                    let n = old_self.entries@.len() as int;
                    assert(self.order() =~= old_self.order().push(addr));
                    assert forall|a: usize| #[trigger]
                        self@.contains_key(a) == old_self@.insert(addr, orig_byte).contains_key(
                            a,
                        ) by {
                        if self@.contains_key(a) {
                            let j = choose|j: int|
                                0 <= j < self.entries@.len() && self.entries@[j].addr == a;
                            if j < n {
                                old_self.lemma_view_at(j);
                            }
                        }
                        if old_self@.contains_key(a) {
                            let j = choose|j: int|
                                0 <= j < old_self.entries@.len() && old_self.entries@[j].addr == a;
                            assert(self.entries@[j] == old_self.entries@[j]);
                        }
                        if a == addr {
                            assert(self.entries@[n].addr == a);
                        }
                    }
                    assert forall|a: usize| #[trigger]
                        self@.contains_key(a) implies self@[a] == old_self@.insert(
                        addr,
                        orig_byte,
                    )[a] by {
                        let j = choose|j: int|
                            0 <= j < self.entries@.len() && self.entries@[j].addr == a;
                        self.lemma_view_at(j);
                        if j < n {
                            assert(self.entries@[j] == old_self.entries@[j]);
                            old_self.lemma_view_at(j);
                        }
                    }
                    assert(self@ =~= old_self@.insert(addr, orig_byte));
                }
            },
        }
    }

    /// The registered addresses, in the order they were first set.
    pub fn addresses(&self) -> (r: Vec<usize>)
        requires
            self.wf(),
        ensures
            r@ == self.order(),
            r@.no_duplicates(),
            r@.to_set() == self@.dom(),
    {
        proof {
            self.lemma_order();
        }
        let mut r: Vec<usize> = Vec::new();
        let mut i: usize = 0;
        while i < self.entries.len()
            invariant
                i <= self.entries@.len(),
                r@ == self.order().subrange(0, i as int),
            decreases self.entries@.len() - i,
        {
            r.push(self.entries[i].addr);
            i = i + 1;
            assert(r@ =~= self.order().subrange(0, i as int));
        }
        assert(r@ =~= self.order());
        r
    }
}

} // verus!
