//! Transition evaluation: states, clauses, events, and what an event does to a
//! state.
//!
//! An event is a name and an ordered list of clauses. A clause names the
//! states it accepts and the one state it leads to. An event without a
//! clause, or with a clause that accepts no state, cannot be made. Applying
//! an event moves the state to the target of the first clause that accepts
//! it. When no clause accepts the state, nothing changes and the caller is
//! told why.

use crate::machine::DefinitionError;
use vstd::prelude::*;

verus! {

/// One state of a machine: its position in the machine's declared state list.
#[derive(Clone, Copy, Debug, PartialEq, Eq, Structural, Hash)]
pub struct State {
    pub index: usize,
}

/// Why an event left the state as it was.
#[derive(Clone, Copy, Debug, PartialEq, Eq)]
pub enum Error<T> {
    /// The state already is the only state this event leads to.
    NoOp { current: T },
    /// The event is not valid from this state.
    InvalidTransition { current: T, event: &'static str },
}

/// What an event does when it is tried on a state.
#[derive(Clone, Copy, Debug, PartialEq, Eq)]
pub enum TransitionOutcome {
    /// A clause accepted the state: the machine moves to `next`.
    Success { next: State },
    /// No clause accepted the state, which already is the event's only target.
    NoOp { current: State },
    /// No clause accepted the state, and the event cannot be taken as done.
    InvalidTransition { current: State, event: &'static str },
}

/// One rule of an event: from any of `sources` to `target`.
#[derive(Clone, Debug)]
pub struct Clause {
    pub sources: Vec<State>,
    pub target: State,
}

/// A named, ordered list of clauses. The first clause that accepts wins.
///
/// Every event has at least one clause, and each of its clauses accepts at
/// least one state: [`Event::new`] refuses anything else.
#[derive(Debug)]
pub struct Event {
    pub(crate) name: &'static str,
    pub(crate) clauses: Vec<Clause>,
}

/// A clause as a value: the accepted states in declared order, and the target.
pub struct ClauseView {
    pub sources: Seq<State>,
    pub target: State,
}

/// An event as a value.
pub struct EventView {
    pub name: &'static str,
    pub clauses: Seq<ClauseView>,
}

impl View for Clause {
    type V = ClauseView;

    open spec fn view(&self) -> ClauseView {
        ClauseView { sources: self.sources@, target: self.target }
    }
}

/// The views of `clauses`, in order.
pub open spec fn clause_views(clauses: Seq<Clause>) -> Seq<ClauseView> {
    clauses.map_values(|c: Clause| c@)
}

impl View for Event {
    type V = EventView;

    open(crate) spec fn view(&self) -> EventView {
        EventView { name: self.name, clauses: clause_views(self.clauses@) }
    }
}

impl ClauseView {
    /// The clause's pattern matches `s`.
    pub open spec fn accepts(self, s: State) -> bool {
        self.sources.contains(s)
    }
}

/// The target of the first clause, in declared order, that accepts `s`.
pub open spec fn first_target(clauses: Seq<ClauseView>, s: State) -> Option<State>
    decreases clauses.len(),
{
    if clauses.len() == 0 {
        None
    } else if clauses[0].accepts(s) {
        Some(clauses[0].target)
    } else {
        first_target(clauses.drop_first(), s)
    }
}

impl EventView {
    /// Some clause accepts no state.
    pub open spec fn has_empty_pattern(self) -> bool {
        exists|c: int| 0 <= c < self.clauses.len() && (#[trigger] self.clauses[c]).sources.len() == 0
    }

    /// What is wrong with the event by itself, if anything: no clause, or a
    /// clause without sources.
    pub open spec fn shape_fault(self) -> Option<DefinitionError> {
        if self.clauses.len() == 0 {
            Some(DefinitionError::EmptyEvent { event: self.name })
        } else if self.has_empty_pattern() {
            Some(DefinitionError::EmptyPattern { event: self.name })
        } else {
            None
        }
    }

    /// What every event satisfies: it has a clause, and each of its clauses
    /// accepts a state.
    pub open spec fn is_defined(self) -> bool {
        self.shape_fault() is None
    }

    /// Some clause of the event accepts `s`.
    pub open spec fn accepts(self, s: State) -> bool {
        exists|i: int| 0 <= i < self.clauses.len() && #[trigger] self.clauses[i].accepts(s)
    }

    /// What the event does on `s`: the first accepting clause decides; with
    /// none, the event is a no-op only when it has a single clause whose
    /// target is `s` itself, and invalid otherwise.
    pub open spec fn outcome(self, s: State) -> TransitionOutcome {
        match first_target(self.clauses, s) {
            Some(next) => TransitionOutcome::Success { next },
            None => if self.clauses.len() == 1 && self.clauses[0].target == s {
                TransitionOutcome::NoOp { current: s }
            } else {
                TransitionOutcome::InvalidTransition { current: s, event: self.name }
            },
        }
    }
}

impl TransitionOutcome {
    /// The state after the event, whatever the outcome.
    pub open spec fn state_after(self) -> State {
        match self {
            TransitionOutcome::Success { next } => next,
            TransitionOutcome::NoOp { current } => current,
            TransitionOutcome::InvalidTransition { current, .. } => current,
        }
    }

    /// What the caller of an event function is told.
    pub open spec fn report(self) -> Result<(), Error<State>> {
        match self {
            TransitionOutcome::Success { .. } => Ok(()),
            TransitionOutcome::NoOp { current } => Err(Error::NoOp { current }),
            TransitionOutcome::InvalidTransition { current, event } => Err(
                Error::InvalidTransition { current, event },
            ),
        }
    }

    /// The outcome as a result: the new state, or the reason there is none.
    pub fn into_result(self) -> (r: Result<State, Error<State>>)
        ensures
            r == (match self.report() {
                Ok(_) => Ok::<State, Error<State>>(self.state_after()),
                Err(e) => Err(e),
            }),
    {
        match self {
            TransitionOutcome::Success { next } => Ok(next),
            TransitionOutcome::NoOp { current } => Err(Error::NoOp { current }),
            TransitionOutcome::InvalidTransition { current, event } => Err(
                Error::InvalidTransition { current, event },
            ),
        }
    }
}

/// Applying `event` to a state `before` reports `result` and leaves `after`.
pub open spec fn applied(
    event: EventView,
    before: State,
    result: Result<(), Error<State>>,
    after: State,
) -> bool {
    &&& result == event.outcome(before).report()
    &&& after == event.outcome(before).state_after()
}

/// `first_target` finds a target exactly when some clause accepts, and then
/// it is the target of the accepting clause before which none accepts.
pub proof fn lemma_first_target(clauses: Seq<ClauseView>, s: State)
    ensures
        first_target(clauses, s) is None <==> forall|i: int|
            0 <= i < clauses.len() ==> !#[trigger] clauses[i].accepts(s),
        first_target(clauses, s) matches Some(t) ==> exists|i: int|
            0 <= i < clauses.len() && #[trigger] clauses[i].accepts(s) && clauses[i].target == t
                && forall|j: int| 0 <= j < i ==> !#[trigger] clauses[j].accepts(s),
    decreases clauses.len(),
{
    if clauses.len() > 0 && !clauses[0].accepts(s) {
        let rest = clauses.drop_first();
        lemma_first_target(rest, s);
        if first_target(rest, s) is None {
            assert forall|i: int| 0 <= i < clauses.len() implies !#[trigger] clauses[i].accepts(
                s,
            ) by {
                if i > 0 {
                    assert(rest[i - 1] == clauses[i]);
                }
            }
        } else {
            let t = first_target(rest, s)->0;
            let k = choose|k: int|
                0 <= k < rest.len() && #[trigger] rest[k].accepts(s) && rest[k].target == t
                    && forall|j: int| 0 <= j < k ==> !#[trigger] rest[j].accepts(s);
            assert forall|j: int| 0 <= j < k + 1 implies !#[trigger] clauses[j].accepts(s) by {
                if j > 0 {
                    assert(rest[j - 1] == clauses[j]);
                }
            }
        }
    }
}

impl Clause {
    /// A clause from `sources` to `target`.
    pub fn new(sources: Vec<State>, target: State) -> (c: Clause)
        ensures
            c@ == (ClauseView { sources: sources@, target }),
    {
        Clause { sources, target }
    }

    /// Whether the clause's pattern matches `state`.
    pub fn accepts(&self, state: State) -> (r: bool)
        ensures
            r == self@.accepts(state),
    {
        let mut i: usize = 0;
        while i < self.sources.len()
            invariant
                i <= self.sources@.len(),
                forall|j: int| 0 <= j < i ==> self.sources@[j] != state,
            decreases self.sources@.len() - i,
        {
            if self.sources[i] == state {
                return true;
            }
            i += 1;
        }
        false
    }
}

impl Event {
    #[verifier::type_invariant]
    spec fn inv(self) -> bool {
        self@.is_defined()
    }

    /// Defines the event called `name` with `clauses` in their declared
    /// order, or says why it is refused: an event needs a clause, and a
    /// clause needs a state that it accepts.
    pub fn new(name: &'static str, clauses: Vec<Clause>) -> (r: Result<Event, DefinitionError>)
        ensures
            match r {
                Ok(e) => e@ == (EventView { name, clauses: clause_views(clauses@) })
                    && e@.is_defined(),
                Err(fault) => (EventView { name, clauses: clause_views(clauses@) }).shape_fault()
                    == Some(fault),
            },
    {
        let ghost view = EventView { name, clauses: clause_views(clauses@) };
        if clauses.len() == 0 {
            return Err(DefinitionError::EmptyEvent { event: name });
        }
        let mut c: usize = 0;
        while c < clauses.len()
            invariant
                c <= clauses@.len(),
                view == (EventView { name, clauses: clause_views(clauses@) }),
                forall|k: int| 0 <= k < c ==> (#[trigger] view.clauses[k]).sources.len() != 0,
            decreases clauses@.len() - c,
        {
            assert(view.clauses[c as int] == clauses@[c as int]@);
            if clauses[c].sources.len() == 0 {
                return Err(DefinitionError::EmptyPattern { event: name });
            }
            c += 1;
        }
        Ok(Event { name, clauses })
    }

    /// Defines an event without a name, for a transition that stands alone.
    /// It is written `_` where a name must stand.
    pub fn anonymous(clauses: Vec<Clause>) -> (r: Result<Event, DefinitionError>)
        ensures
            match r {
                Ok(e) => e@ == (EventView { name: "_", clauses: clause_views(clauses@) })
                    && e@.is_defined(),
                Err(fault) => (EventView {
                    name: "_",
                    clauses: clause_views(clauses@),
                }).shape_fault() == Some(fault),
            },
    {
        Event::new("_", clauses)
    }

    /// The event's name.
    pub fn name(&self) -> (r: &'static str)
        ensures
            r == self@.name,
    {
        self.name
    }

    /// The event's clauses, in declared order.
    pub fn clauses(&self) -> (r: &Vec<Clause>)
        ensures
            clause_views(r@) == self@.clauses,
            self@.is_defined(),
    {
        proof {
            use_type_invariant(self);
        }
        &self.clauses
    }

    /// Evaluates the event on `current` without changing anything.
    pub fn outcome(&self, current: State) -> (r: TransitionOutcome)
        ensures
            r == self@.outcome(current),
    {
        let ghost all = self@.clauses;
        let mut i: usize = 0;
        assert(all.skip(0) =~= all);
        while i < self.clauses.len()
            invariant
                i <= self.clauses@.len(),
                all == self@.clauses,
                all.len() == self.clauses@.len(),
                first_target(all, current) == first_target(all.skip(i as int), current),
            decreases self.clauses@.len() - i,
        {
            if self.clauses[i].accepts(current) {
                return TransitionOutcome::Success { next: self.clauses[i].target };
            }
            assert(all.skip(i as int).drop_first() =~= all.skip(i + 1));
            i += 1;
        }
        if self.clauses.len() == 1 && self.clauses[0].target == current {
            TransitionOutcome::NoOp { current }
        } else {
            TransitionOutcome::InvalidTransition { current, event: self.name }
        }
    }

    /// Tries the event on `current`. On success the state is overwritten with
    /// the accepting clause's target. Otherwise the state is left as it was and
    /// the error says whether the event was redundant or invalid.
    pub fn apply(&self, current: &mut State) -> (r: Result<(), Error<State>>)
        ensures
            applied(self@, *old(current), r, *final(current)),
            r is Err ==> *final(current) == *old(current),
    {
        match self.outcome(*current) {
            TransitionOutcome::Success { next } => {
                *current = next;
                Ok(())
            },
            TransitionOutcome::NoOp { current: at } => Err(Error::NoOp { current: at }),
            TransitionOutcome::InvalidTransition { current: at, event } => Err(
                Error::InvalidTransition { current: at, event },
            ),
        }
    }
}

/// A named set of states, for guards that only read the state.
#[derive(Clone, Debug)]
pub struct Predicate {
    pub name: &'static str,
    pub states: Vec<State>,
}

impl Predicate {
    /// The predicate called `name` that holds of `states` and of no other.
    pub fn new(name: &'static str, states: Vec<State>) -> (p: Predicate)
        ensures
            p.name == name,
            p.states == states,
    {
        Predicate { name, states }
    }

    /// Whether the predicate holds of `state`.
    pub fn test(&self, state: &State) -> (r: bool)
        ensures
            r == self.states@.contains(*state),
    {
        let mut i: usize = 0;
        while i < self.states.len()
            invariant
                i <= self.states@.len(),
                forall|j: int| 0 <= j < i ==> self.states@[j] != *state,
            decreases self.states@.len() - i,
        {
            if self.states[i] == *state {
                return true;
            }
            i += 1;
        }
        false
    }
}

} // verus!
