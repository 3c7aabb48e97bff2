//! A machine: a named table of states and events, checked when it is defined.
//!
//! An event is checked by itself when it is made: it has a clause, and each
//! of its clauses accepts a state. [`Machine::new`] checks the table as a
//! whole and refuses one that names a state twice, names an event twice, or
//! mentions a state outside the declared list. Every machine that exists is
//! therefore well formed, and the queries on it are total.

use crate::state::{clause_views, Error, Event, EventView, State};
use crate::text::{decimal, push_decimal, push_quoted, quoted, text_same};
use vstd::prelude::*;

verus! {

/// Why a table was refused.
#[derive(Clone, Copy, Debug, PartialEq, Eq)]
pub enum DefinitionError {
    /// The state list holds `name` more than once.
    DuplicateState { name: &'static str },
    /// The event list holds `name` more than once.
    DuplicateEvent { name: &'static str },
    /// The event has no clause.
    EmptyEvent { event: &'static str },
    /// A clause of the event accepts no state.
    EmptyPattern { event: &'static str },
    /// A clause of the event mentions a state outside the declared list.
    UnknownState { event: &'static str },
}

/// A state machine definition.
#[derive(Debug)]
pub struct Machine {
    pub(crate) name: &'static str,
    pub(crate) states: Vec<&'static str>,
    pub(crate) events: Vec<Event>,
}

/// A machine as a value: its title, the names of its states in declared
/// order, and its events in declared order.
pub struct MachineView {
    pub name: &'static str,
    pub states: Seq<&'static str>,
    pub events: Seq<EventView>,
}

/// The name at `j` also stands at an earlier position.
pub open spec fn repeats(names: Seq<&'static str>, j: int) -> bool {
    exists|i: int| 0 <= i < j && (#[trigger] names[i])@ == names[j]@
}

/// No name stands at two positions.
pub open spec fn distinct(names: Seq<&'static str>) -> bool {
    forall|j: int| 0 <= j < names.len() ==> !repeats(names, j)
}

/// `j` is the first position whose name stood earlier.
pub open spec fn is_first_repeat(names: Seq<&'static str>, j: int) -> bool {
    &&& 0 <= j < names.len()
    &&& repeats(names, j)
    &&& forall|k: int| 0 <= k < j ==> !repeats(names, k)
}

/// `s` is one of `count` declared states.
pub open spec fn in_domain(s: State, count: nat) -> bool {
    s.index < count
}

/// The names of `events`, in order.
pub open spec fn event_names(events: Seq<EventView>) -> Seq<&'static str> {
    events.map_values(|e: EventView| e.name)
}

/// The views of `events`, in order.
pub open spec fn event_views(events: Seq<Event>) -> Seq<EventView> {
    events.map_values(|e: Event| e@)
}

impl EventView {
    /// Clause `c` mentions only states among the first `count`.
    pub open spec fn clause_in_domain(self, c: int, count: nat) -> bool {
        &&& in_domain(self.clauses[c].target, count)
        &&& forall|k: int|
            0 <= k < self.clauses[c].sources.len() ==> in_domain(
                #[trigger] self.clauses[c].sources[k],
                count,
            )
    }

    /// Some clause mentions a state outside the first `count`.
    pub open spec fn leaves_domain(self, count: nat) -> bool {
        exists|c: int| 0 <= c < self.clauses.len() && !#[trigger] self.clause_in_domain(c, count)
    }

    /// What is wrong with the event in a machine of `count` states, if
    /// anything: what is wrong with it by itself, else a state that was not
    /// declared.
    pub open spec fn fault(self, count: nat) -> Option<DefinitionError> {
        match self.shape_fault() {
            Some(fault) => Some(fault),
            None => if self.leaves_domain(count) {
                Some(DefinitionError::UnknownState { event: self.name })
            } else {
                None
            },
        }
    }
}

/// `e` is the first event with a fault.
pub open spec fn is_first_faulty(events: Seq<EventView>, count: nat, e: int) -> bool {
    &&& 0 <= e < events.len()
    &&& events[e].fault(count) is Some
    &&& forall|k: int| 0 <= k < e ==> (#[trigger] events[k]).fault(count) is None
}

/// Why the table is refused, or `None` where it is accepted. State names are
/// checked first, then event names, then the events in declared order.
pub open spec fn definition_fault(
    states: Seq<&'static str>,
    events: Seq<EventView>,
) -> Option<DefinitionError> {
    if !distinct(states) {
        Some(
            DefinitionError::DuplicateState {
                name: states[choose|j: int| is_first_repeat(states, j)],
            },
        )
    } else if !distinct(event_names(events)) {
        Some(
            DefinitionError::DuplicateEvent {
                name: event_names(events)[choose|j: int|
                    is_first_repeat(event_names(events), j)],
            },
        )
    } else if exists|e: int| is_first_faulty(events, states.len(), e) {
        events[choose|e: int| is_first_faulty(events, states.len(), e)].fault(states.len())
    } else {
        None
    }
}

impl MachineView {
    /// How `s` is written in messages: by its declared name, or by its
    /// position behind a `#` where it is not a declared state.
    pub open spec fn state_text(self, s: State) -> Seq<char> {
        if s.index < self.states.len() {
            self.states[s.index as int]@
        } else {
            "#"@ + decimal(s.index as nat)
        }
    }

    /// The message for `error`.
    pub open spec fn describe(self, error: Error<State>) -> Seq<char> {
        match error {
            Error::NoOp { current } => "state is already set to "@ + self.state_text(current),
            Error::InvalidTransition { current, event } => "invalid event "@ + quoted(event@)
                + " for state "@ + self.state_text(current),
        }
    }

    /// What every machine satisfies.
    pub open spec fn wf(self) -> bool {
        &&& distinct(self.states)
        &&& distinct(event_names(self.events))
        &&& forall|e: int|
            0 <= e < self.events.len() ==> (#[trigger] self.events[e]).fault(self.states.len())
                is None
    }
}

/// A table without a fault is well formed, and the reverse.
pub proof fn lemma_fault_free_is_wf(m: MachineView)
    ensures
        definition_fault(m.states, m.events) is None <==> m.wf(),
{
    let n = m.states.len();
    if distinct(m.states) && distinct(event_names(m.events)) {
        if exists|e: int| is_first_faulty(m.events, n, e) {
            let e = choose|e: int| is_first_faulty(m.events, n, e);
        } else if exists|e: int| 0 <= e < m.events.len() && (#[trigger] m.events[e]).fault(n) is Some {
            let e = choose|e: int| 0 <= e < m.events.len() && (#[trigger] m.events[e]).fault(n) is Some;
            lemma_first_faulty_exists(m.events, n, e);
        }
    }
}

/// Before a faulty event stands a first faulty event.
proof fn lemma_first_faulty_exists(events: Seq<EventView>, count: nat, e: int)
    requires
        0 <= e < events.len(),
        events[e].fault(count) is Some,
    ensures
        exists|f: int| is_first_faulty(events, count, f),
    decreases e,
{
    if exists|k: int| 0 <= k < e && (#[trigger] events[k]).fault(count) is Some {
        let k = choose|k: int| 0 <= k < e && (#[trigger] events[k]).fault(count) is Some;
        lemma_first_faulty_exists(events, count, k);
    } else {
        assert(is_first_faulty(events, count, e));
    }
}

/// The first position in `names` whose name stood earlier, if there is one.
fn first_repeat(names: &Vec<&'static str>) -> (r: Option<usize>)
    ensures
        match r {
            Some(j) => is_first_repeat(names@, j as int),
            None => distinct(names@),
        },
{
    let mut j: usize = 0;
    while j < names.len()
        invariant
            j <= names@.len(),
            forall|k: int| 0 <= k < j ==> !repeats(names@, k),
        decreases names@.len() - j,
    {
        let mut i: usize = 0;
        while i < j
            invariant
                i <= j < names@.len(),
                forall|k: int| 0 <= k < j ==> !repeats(names@, k),
                forall|a: int| 0 <= a < i ==> (#[trigger] names@[a])@ != names@[j as int]@,
            decreases j - i,
        {
            if text_same(names[i], names[j]) {
                return Some(j);
            }
            i += 1;
        }
        j += 1;
    }
    None
}

/// What is wrong with `event` in a machine of `count` states. An event has
/// clauses and patterns by its making, so only its states are looked at.
fn event_fault(event: &Event, count: usize) -> (r: Option<DefinitionError>)
    ensures
        r == event@.fault(count as nat),
{
    let ghost view = event@;
    let clauses = event.clauses();
    let mut c: usize = 0;
    while c < clauses.len()
        invariant
            c <= clauses@.len(),
            view == event@,
            clause_views(clauses@) == view.clauses,
            view.is_defined(),
            forall|k: int| 0 <= k < c ==> #[trigger] view.clause_in_domain(k, count as nat),
        decreases clauses@.len() - c,
    {
        assert(view.clauses[c as int] == clauses@[c as int]@);
        let clause = &clauses[c];
        if clause.target.index >= count {
            assert(!view.clause_in_domain(c as int, count as nat));
            return Some(DefinitionError::UnknownState { event: event.name() });
        }
        let mut k: usize = 0;
        while k < clause.sources.len()
            invariant
                k <= clause.sources@.len(),
                c < view.clauses.len(),
                view == event@,
                view.is_defined(),
                view.clauses[c as int] == clause@,
                in_domain(clause.target, count as nat),
                forall|a: int| 0 <= a < k ==> in_domain(#[trigger] clause.sources@[a], count as nat),
            decreases clause.sources@.len() - k,
        {
            if clause.sources[k].index >= count {
                assert(!view.clause_in_domain(c as int, count as nat));
                return Some(DefinitionError::UnknownState { event: event.name() });
            }
            k += 1;
        }
        c += 1;
    }
    None
}

impl View for Machine {
    type V = MachineView;

    open(crate) spec fn view(&self) -> MachineView {
        MachineView { name: self.name, states: self.states@, events: event_views(self.events@) }
    }
}

impl Machine {
    #[verifier::type_invariant]
    spec fn inv(self) -> bool {
        self@.wf()
    }

    /// Defines a machine called `name` over `states` with `events`, or says
    /// why the table is refused: a name that stands twice, or a clause that
    /// mentions a state outside `states`.
    pub fn new(name: &'static str, states: Vec<&'static str>, events: Vec<Event>) -> (r: Result<
        Machine,
        DefinitionError,
    >)
        ensures
            match r {
                Ok(m) => {
                    &&& definition_fault(states@, event_views(events@)) is None
                    &&& m@ == (MachineView { name, states: states@, events: event_views(events@) })
                    &&& m@.wf()
                },
                Err(e) => definition_fault(states@, event_views(events@)) == Some(e),
            },
    {
        let ghost views = event_views(events@);
        if let Some(j) = first_repeat(&states) {
            return Err(DefinitionError::DuplicateState { name: states[j] });
        }
        let mut names: Vec<&'static str> = Vec::new();
        let mut e: usize = 0;
        while e < events.len()
            invariant
                e <= events@.len(),
                views == event_views(events@),
                names@ =~= event_names(views).take(e as int),
            decreases events@.len() - e,
        {
            names.push(events[e].name);
            e += 1;
        }
        assert(names@ =~= event_names(views));
        if let Some(j) = first_repeat(&names) {
            return Err(DefinitionError::DuplicateEvent { name: names[j] });
        }
        let mut e: usize = 0;
        while e < events.len()
            invariant
                e <= events@.len(),
                views == event_views(events@),
                distinct(states@),
                distinct(event_names(views)),
                forall|k: int| 0 <= k < e ==> (#[trigger] views[k]).fault(states@.len()) is None,
            decreases events@.len() - e,
        {
            if let Some(fault) = event_fault(&events[e], states.len()) {
                assert(is_first_faulty(views, states@.len(), e as int));
                return Err(fault);
            }
            e += 1;
        }
        proof {
            lemma_fault_free_is_wf(MachineView { name, states: states@, events: views });
        }
        Ok(Machine { name, states, events })
    }

    /// The machine's title.
    pub fn name(&self) -> (r: &'static str)
        ensures
            r == self@.name,
    {
        self.name
    }

    /// The names of the declared states, in declared order.
    pub fn state_names(&self) -> (r: &Vec<&'static str>)
        ensures
            r@ == self@.states,
            self@.wf(),
    {
        proof {
            use_type_invariant(self);
        }
        &self.states
    }

    /// The declared events, in declared order.
    pub fn events(&self) -> (r: &Vec<Event>)
        ensures
            event_views(r@) == self@.events,
            self@.wf(),
    {
        proof {
            use_type_invariant(self);
        }
        &self.events
    }

    /// How many states are declared.
    pub fn state_count(&self) -> (r: usize)
        ensures
            r == self@.states.len(),
    {
        self.states.len()
    }

    /// The declared name of `state`, or `None` for a state that is not declared.
    pub fn state_name(&self, state: State) -> (r: Option<&'static str>)
        ensures
            r == (if state.index < self@.states.len() {
                Some(self@.states[state.index as int])
            } else {
                None
            }),
    {
        if state.index < self.states.len() {
            Some(self.states[state.index])
        } else {
            None
        }
    }

    /// The declared state called `name`, if there is one.
    pub fn state(&self, name: &str) -> (r: Option<State>)
        ensures
            match r {
                Some(s) => s.index < self@.states.len() && self@.states[s.index as int]@ == name@,
                None => forall|i: int|
                    0 <= i < self@.states.len() ==> (#[trigger] self@.states[i])@ != name@,
            },
    {
        let mut i: usize = 0;
        while i < self.states.len()
            invariant
                i <= self.states@.len(),
                forall|j: int| 0 <= j < i ==> (#[trigger] self.states@[j])@ != name@,
            decreases self.states@.len() - i,
        {
            if text_same(self.states[i], name) {
                return Some(State { index: i });
            }
            i += 1;
        }
        None
    }

    /// The declared event called `name`, if there is one.
    pub fn event(&self, name: &str) -> (r: Option<&Event>)
        ensures
            match r {
                Some(event) => self@.events.contains(event@) && event@.name@ == name@,
                None => forall|i: int|
                    0 <= i < self@.events.len() ==> (#[trigger] self@.events[i]).name@ != name@,
            },
    {
        let mut i: usize = 0;
        while i < self.events.len()
            invariant
                i <= self.events@.len(),
                forall|j: int| 0 <= j < i ==> (#[trigger] self@.events[j]).name@ != name@,
            decreases self.events@.len() - i,
        {
            assert(self@.events[i as int] == self.events@[i as int]@);
            if text_same(self.events[i].name, name) {
                return Some(&self.events[i]);
            }
            i += 1;
        }
        None
    }

    /// How `state` is written in messages: by its declared name, or by its
    /// position behind a `#` where it is not a declared state.
    pub fn state_text(&self, state: State) -> (r: String)
        ensures
            r@ == self@.state_text(state),
    {
        let mut out = String::new();
        if state.index < self.states.len() {
            out.append(self.states[state.index]);
        } else {
            out.append("#");
            push_decimal(&mut out, state.index as u64);
        }
        out
    }

    /// The message for `error`, with states written by their declared names.
    pub fn describe(&self, error: &Error<State>) -> (r: String)
        ensures
            r@ == self@.describe(*error),
    {
        let mut out = String::new();
        let current = match error {
            Error::NoOp { current } => {
                out.append("state is already set to ");
                *current
            },
            Error::InvalidTransition { current, event } => {
                out.append("invalid event ");
                push_quoted(&mut out, event);
                out.append(" for state ");
                *current
            },
        };
        let name = self.state_text(current);
        out.append(name.as_str());
        out
    }
}

} // verus!
