//! Choosing the serial interface of the IMU: the candidates are tried in
//! order, and the first one on which the IMU opens is kept.

use vstd::prelude::*;

verus! {

/// What the caller is to do next.
#[derive(Clone, Copy, Debug, PartialEq, Eq, Structural)]
pub enum SearchStep {
    /// Try to open the IMU on the candidate with this position.
    Try(usize),
    /// The IMU opened on the candidate with this position.
    Found(usize),
    /// The IMU opened on no candidate.
    Exhausted,
}

/// Progress through the candidate interfaces.
pub struct InterfaceSearch {
    count: usize,
    tried: usize,
    found: bool,
    outcomes: Ghost<Seq<bool>>,
}

impl InterfaceSearch {
    /// Number of candidates.
    pub closed spec fn count(&self) -> nat {
        self.count as nat
    }

    /// Outcome of each attempt so far, in order: whether the IMU opened.
    pub closed spec fn outcomes(&self) -> Seq<bool> {
        self.outcomes@
    }

    /// The attempts so far are the first candidates in order, every attempt
    /// but the last failed, and the search goes on only while none
    /// succeeded.
    pub closed spec fn wf(&self) -> bool {
        &&& self.tried == self.outcomes@.len()
        &&& self.tried <= self.count
        &&& self.found == (self.tried > 0 && self.outcomes@[self.tried - 1])
        &&& forall|i: int| 0 <= i < self.tried - 1 ==> !#[trigger] self.outcomes@[i]
    }

    /// The step that the outcomes so far call for.
    pub open spec fn spec_next(count: nat, outcomes: Seq<bool>) -> SearchStep {
        if outcomes.len() > 0 && outcomes.last() {
            SearchStep::Found((outcomes.len() - 1) as usize)
        } else if outcomes.len() < count {
            SearchStep::Try(outcomes.len() as usize)
        } else {
            SearchStep::Exhausted
        }
    }

    /// A search over `count` candidates; `None` when there are none.
    pub fn start(count: usize) -> (s: Option<InterfaceSearch>)
        ensures
            count == 0 <==> s is None,
            s matches Some(s) ==> s.wf() && s.count() == count && s.outcomes() == Seq::<bool>::empty(),
    {
        if count == 0 {
            None
        } else {
            Some(InterfaceSearch { count, tried: 0, found: false, outcomes: Ghost(Seq::empty()) })
        }
    }

    /// What to do next: try the next candidate, or stop with the one that
    /// opened, or stop with none.
    pub fn next_step(&self) -> (step: SearchStep)
        requires
            self.wf(),
        ensures
            step == Self::spec_next(self.count(), self.outcomes()),
    {
        if self.found {
            SearchStep::Found(self.tried - 1)
        } else if self.tried < self.count {
            SearchStep::Try(self.tried)
        } else {
            SearchStep::Exhausted
        }
    }

    /// Records whether the IMU opened on the candidate that `next_step`
    /// named.
    pub fn record(&mut self, opened: bool)
        requires
            old(self).wf(),
            Self::spec_next(old(self).count(), old(self).outcomes()) is Try,
        ensures
            final(self).wf(),
            final(self).count() == old(self).count(),
            final(self).outcomes() == old(self).outcomes().push(opened),
    {
        self.outcomes = Ghost(self.outcomes@.push(opened));
        self.tried = self.tried + 1;
        self.found = opened;
    }
}

/// The search keeps the first candidate that opens: when it stops at a
/// candidate, the IMU opened there and on no earlier candidate; when it
/// stops with none, every candidate was tried and none opened.
pub proof fn law_first_working_interface_is_kept(s: InterfaceSearch)
    requires
        s.wf(),
    ensures
        InterfaceSearch::spec_next(s.count(), s.outcomes()) matches SearchStep::Found(k) ==> {
            &&& s.outcomes()[k as int]
            &&& k < s.count()
            &&& forall|i: int| 0 <= i < k ==> !#[trigger] s.outcomes()[i]
        },
        InterfaceSearch::spec_next(s.count(), s.outcomes()) is Exhausted ==> {
            &&& s.outcomes().len() == s.count()
            &&& forall|i: int| 0 <= i < s.count() ==> !#[trigger] s.outcomes()[i]
        },
        InterfaceSearch::spec_next(s.count(), s.outcomes()) matches SearchStep::Try(k) ==> {
            &&& k == s.outcomes().len()
            &&& k < s.count()
        },
{
}

} // verus!
