//! Exclusive access to collections. A collection is idle or busy; an
//! operation that reads, changes and writes a collection runs only while it
//! holds the collection, and gives it back when it ends, however it ends.
//! Operations on different collections never wait for each other.

use vstd::prelude::*;

verus! {

/// The collections that are busy.
pub struct ConcurrencyGuard {
    busy: Vec<String>,
}

impl ConcurrencyGuard {
    /// No collection is listed twice.
    #[verifier::type_invariant]
    spec fn listed_once(&self) -> bool {
        forall|i: int, j: int|
            0 <= i < j < self.busy@.len() ==> #[trigger] self.busy@[i]@ != #[trigger] self.busy@[j]@
    }

    /// The names of the busy collections.
    pub closed spec fn busy_names(&self) -> Set<Seq<char>> {
        Set::new(
            |name: Seq<char>|
                exists|i: int| 0 <= i < self.busy@.len() && #[trigger] self.busy@[i]@ == name,
        )
    }

    /// Whether the collection is busy.
    pub open spec fn is_busy_spec(&self, name: Seq<char>) -> bool {
        self.busy_names().contains(name)
    }

    /// A guard under which every collection is idle.
    pub fn new() -> (guard: ConcurrencyGuard)
        ensures
            guard.busy_names() == Set::<Seq<char>>::empty(),
    {
        let guard = ConcurrencyGuard { busy: Vec::new() };
        assert(guard.busy_names() =~= Set::<Seq<char>>::empty());
        guard
    }

    fn place(&self, name: &String) -> (r: Option<usize>)
        ensures
            match r {
                Some(i) => i < self.busy@.len() && self.busy@[i as int]@ == name@,
                None => !self.is_busy_spec(name@),
            },
    {
        let mut i: usize = 0;
        while i < self.busy.len()
            invariant
                i <= self.busy@.len(),
                forall|k: int| 0 <= k < i ==> #[trigger] self.busy@[k]@ != name@,
            decreases self.busy.len() - i,
        {
            if self.busy[i] == *name {
                return Some(i);
            }
            i += 1;
        }
        None
    }

    /// Whether the collection is busy.
    pub fn is_busy(&self, name: &str) -> (busy: bool)
        ensures
            busy == self.is_busy_spec(name@),
    {
        let key = String::from_str(name);
        self.place(&key).is_some()
    }

    /// Asks for the collection. It is granted exactly where the collection is
    /// idle, and the collection is busy from then on; a collection that is
    /// busy stays so, and the caller has to ask again later. No other
    /// collection changes its state.
    pub fn try_acquire(&mut self, name: &str) -> (granted: bool)
        ensures
            granted == !old(self).is_busy_spec(name@),
            final(self).busy_names() == old(self).busy_names().insert(name@),
    {
        let key = String::from_str(name);
        match self.place(&key) {
            Some(i) => {
                assert(self.busy_names() =~= self.busy_names().insert(name@));
                false
            },
            None => {
                let ghost before = *self;
                proof {
                    use_type_invariant(&*self);
                }
                let mut busy = self.busy.clone();
                assert(busy@ =~= self.busy@);
                busy.push(key);
                self.busy = busy;
                assert forall|n: Seq<char>|
                    self.busy_names().contains(n) == before.busy_names().insert(name@).contains(
                        n,
                    ) by {
                    if before.busy_names().contains(n) {
                        let i = choose|i: int|
                            0 <= i < before.busy@.len() && #[trigger] before.busy@[i]@ == n;
                        assert(self.busy@[i]@ == n);
                    }
                    if n == name@ {
                        assert(self.busy@[before.busy@.len() as int]@ == n);
                    }
                }
                assert(self.busy_names() =~= before.busy_names().insert(name@));
                true
            },
        }
    }

    /// Gives the collection back: it is idle afterwards, whether or not it
    /// was busy. No other collection changes its state.
    pub fn release(&mut self, name: &str)
        ensures
            final(self).busy_names() == old(self).busy_names().remove(name@),
    {
        let key = String::from_str(name);
        proof {
            use_type_invariant(&*self);
        }
        match self.place(&key) {
            Some(i) => {
                let ghost before = *self;
                let mut busy = self.busy.clone();
                assert(busy@ =~= self.busy@);
                busy.remove(i);
                self.busy = busy;
                assert forall|n: Seq<char>|
                    self.busy_names().contains(n) == before.busy_names().remove(name@).contains(
                        n,
                    ) by {
                    if self.busy_names().contains(n) {
                        let k = choose|k: int|
                            0 <= k < self.busy@.len() && #[trigger] self.busy@[k]@ == n;
                        if k < i {
                            assert(before.busy@[k]@ == n);
                        } else {
                            assert(before.busy@[k + 1]@ == n);
                        }
                    }
                    if before.busy_names().contains(n) && n != name@ {
                        let k = choose|k: int|
                            0 <= k < before.busy@.len() && #[trigger] before.busy@[k]@ == n;
                        if k < i {
                            assert(self.busy@[k]@ == n);
                        } else {
                            assert(self.busy@[k - 1]@ == n);
                        }
                    }
                }
                assert(self.busy_names() =~= before.busy_names().remove(name@));
            },
            None => {
                assert(self.busy_names() =~= self.busy_names().remove(name@));
            },
        }
    }
}

} // verus!
