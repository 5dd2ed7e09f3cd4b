//! The set of display names currently claimed by live sessions.
use vstd::prelude::*;

verus! {

/// Names in use, each at most once.
pub struct Registry {
    names: Vec<String>,
}

/// What a `try_claim` of `name` on `before` that answered `ok` leaves behind.
pub open spec fn claim_post(before: Registry, name: Seq<char>, ok: bool, after: Registry) -> bool {
    &&& after.wf()
    &&& ok == !before.claimed().contains(name)
    &&& after.claimed() == before.claimed().insert(name)
}

/// What a `release` of `name` on `before` leaves behind.
pub open spec fn release_post(before: Registry, name: Seq<char>, after: Registry) -> bool {
    &&& after.wf()
    &&& after.claimed() == before.claimed().remove(name)
}

impl Registry {
    /// The names claimed, as character sequences.
    pub closed spec fn claimed(self) -> Set<Seq<char>> {
        Set::new(|n: Seq<char>| exists|i: int| 0 <= i < self.names@.len() && self.names@[i]@ == n)
    }

    /// No name is stored twice.
    pub closed spec fn wf(self) -> bool {
        forall|i: int, j: int|
            0 <= i < self.names@.len() && 0 <= j < self.names@.len() && i != j
                ==> self.names@[i]@ != self.names@[j]@
    }

    pub fn new() -> (r: Registry)
        ensures
            r.wf(),
            r.claimed() == Set::<Seq<char>>::empty(),
    {
        let r = Registry { names: Vec::new() };
        assert(r.claimed() =~= Set::<Seq<char>>::empty());
        r
    }

    /// The position of `name` in the store, if it is there.
    fn position(&self, name: &String) -> (r: Option<usize>)
        ensures
            match r {
                Some(i) => i < self.names@.len() && self.names@[i as int]@ == name@,
                None => forall|i: int| 0 <= i < self.names@.len() ==> self.names@[i]@ != name@,
            },
    {
        let mut i: usize = 0;
        while i < self.names.len()
            invariant
                i <= self.names@.len(),
                forall|k: int| 0 <= k < i ==> self.names@[k]@ != name@,
            decreases self.names@.len() - i,
        {
            if self.names[i] == *name {
                return Some(i);
            }
            i = i + 1;
        }
        None
    }

    /// Whether `name` is currently claimed.
    pub fn contains(&self, name: &String) -> (r: bool)
        ensures
            r == self.claimed().contains(name@),
    {
        match self.position(name) {
            Some(i) => {
                assert(self.names@[i as int]@ == name@);
                true
            },
            None => false,
        }
    }

    /// Claims `name` if nobody holds it: checks and inserts in one step.
    /// Answers whether the claim was granted.
    pub fn try_claim(&mut self, name: String) -> (r: bool)
        requires
            old(self).wf(),
        ensures
            claim_post(*old(self), name@, r, *final(self)),
            !r ==> *final(self) == *old(self),
    {
        match self.position(&name) {
            Some(i) => {
                assert(self.names@[i as int]@ == name@);
                assert(self.claimed().contains(name@));
                assert(self.claimed().insert(name@) =~= self.claimed());
                false
            },
            None => {
                let ghost before = *self;
                let ghost n = name@;
                self.names.push(name);
                assert(self.names@[self.names@.len() - 1]@ == n);
                assert forall|m: Seq<char>| self.claimed().contains(m) == before.claimed().insert(n).contains(m) by {
                    if before.claimed().contains(m) {
                        let i = choose|i: int| 0 <= i < before.names@.len() && before.names@[i]@ == m;
                        assert(self.names@[i]@ == m);
                    }
                    if self.claimed().contains(m) && m != n {
                        let i = choose|i: int| 0 <= i < self.names@.len() && self.names@[i]@ == m;
                        assert(before.names@[i]@ == m);
                    }
                }
                assert(self.claimed() =~= before.claimed().insert(n));
                assert forall|i: int, j: int|
                    0 <= i < self.names@.len() && 0 <= j < self.names@.len() && i != j
                        implies self.names@[i]@ != self.names@[j]@ by {
                    if i < before.names@.len() && j < before.names@.len() {
                        assert(before.names@[i] == self.names@[i]);
                        assert(before.names@[j] == self.names@[j]);
                    }
                }
                true
            },
        }
    }

    /// Gives `name` up. Releasing a name nobody holds changes nothing.
    pub fn release(&mut self, name: &String)
        requires
            old(self).wf(),
        ensures
            release_post(*old(self), name@, *final(self)),
    {
        match self.position(name) {
            Some(i) => {
                let ghost before = *self;
                let _gone = self.names.remove(i);
                assert forall|m: Seq<char>| self.claimed().contains(m) == before.claimed().remove(name@).contains(m) by {
                    if before.claimed().contains(m) && m != name@ {
                        let k = choose|k: int| 0 <= k < before.names@.len() && before.names@[k]@ == m;
                        if k < i {
                            assert(self.names@[k]@ == m);
                        } else {
                            assert(k != i);
                            assert(self.names@[k - 1]@ == m);
                        }
                    }
                    if self.claimed().contains(m) {
                        let k = choose|k: int| 0 <= k < self.names@.len() && self.names@[k]@ == m;
                        if k < i {
                            assert(before.names@[k]@ == m);
                        } else {
                            assert(before.names@[k + 1]@ == m);
                        }
                    }
                }
                assert(self.claimed() =~= before.claimed().remove(name@));
            },
            None => {
                assert(self.claimed() =~= self.claimed().remove(name@));
            },
        }
    }
}

/// Claims of one name made one after another, with no release between them:
/// once a claim is granted the name stays claimed, so no later claim is
/// granted; the first one is granted exactly when the name was free.
pub proof fn lemma_claim_exclusive(states: Seq<Registry>, name: Seq<char>, answers: Seq<bool>)
    requires
        states.len() == answers.len() + 1,
        forall|i: int|
            0 <= i < answers.len() ==> claim_post(#[trigger] states[i], name, answers[i], states[i + 1]),
    ensures
        answers.len() > 0 ==> answers[0] == !states[0].claimed().contains(name),
        forall|i: int| 0 < i < answers.len() ==> !answers[i],
        forall|i: int| 0 < i < states.len() ==> states[i].claimed().contains(name),
{
    assert forall|i: int| 0 < i < states.len() implies states[i].claimed().contains(name) by {
        assert(claim_post(states[i - 1], name, answers[i - 1], states[i]));
    }
    assert forall|i: int| 0 < i < answers.len() implies !answers[i] by {
        assert(claim_post(states[i], name, answers[i], states[i + 1]));
        assert(states[i].claimed().contains(name));
    }
}

/// A name that was just released can be claimed again at once.
pub proof fn lemma_claim_after_release(r0: Registry, r1: Registry, r2: Registry, name: Seq<char>, ok: bool)
    requires
        release_post(r0, name, r1),
        claim_post(r1, name, ok, r2),
    ensures
        ok,
        r2.claimed() == r0.claimed().insert(name),
{
    assert(r0.claimed().remove(name).insert(name) =~= r0.claimed().insert(name));
}

} // verus!
