//! What holds of every event and of every machine, proved from the
//! contracts of the functions that evaluate and inspect them.

use crate::graph::lemma_node_list_unique;
use crate::machine::MachineView;
use crate::observe::{emitted, EmitterView};
use crate::state::{applied, lemma_first_target, Error, EventView, State, TransitionOutcome};
use crate::table::RowView;
use vstd::prelude::*;

verus! {

/// Determinism: applying one event to one state twice reports the same
/// result and leaves the same state.
pub proof fn law_determinism(
    event: EventView,
    before: State,
    first: Result<(), Error<State>>,
    after_first: State,
    second: Result<(), Error<State>>,
    after_second: State,
)
    requires
        applied(event, before, first, after_first),
        applied(event, before, second, after_second),
    ensures
        first == second,
        after_first == after_second,
{
}

/// Atomicity: an event that reports a no-op or an invalid transition leaves
/// the state as it was.
pub proof fn law_atomicity(
    event: EventView,
    before: State,
    result: Result<(), Error<State>>,
    after: State,
)
    requires
        applied(event, before, result, after),
        result is Err,
    ensures
        after == before,
        result matches Err(Error::NoOp { current }) ==> current == before,
        result matches Err(Error::InvalidTransition { current, .. }) ==> current == before,
{
}

/// Single target: on a state that its only clause does not accept, an event
/// of one clause is a no-op where the state is that clause's target, and an
/// invalid transition everywhere else.
pub proof fn law_single_target(event: EventView, s: State)
    requires
        event.clauses.len() == 1,
        !event.clauses[0].accepts(s),
    ensures
        s == event.clauses[0].target ==> event.outcome(s) == (TransitionOutcome::NoOp {
            current: s,
        }),
        s != event.clauses[0].target ==> event.outcome(s) == (
        TransitionOutcome::InvalidTransition { current: s, event: event.name }),
{
    lemma_first_target(event.clauses, s);
}

/// Several targets: on a state that none of its clauses accepts, an event of
/// two or more clauses is an invalid transition, also where the state is the
/// target of one of them.
pub proof fn law_multi_target(event: EventView, s: State)
    requires
        event.clauses.len() >= 2,
        !event.accepts(s),
    ensures
        event.outcome(s) == (TransitionOutcome::InvalidTransition {
            current: s,
            event: event.name,
        }),
{
    lemma_first_target(event.clauses, s);
}

/// An event succeeds exactly on the states that one of its clauses accepts.
pub proof fn law_success_iff_accepted(event: EventView, s: State)
    ensures
        event.outcome(s) is Success <==> event.accepts(s),
{
    lemma_first_target(event.clauses, s);
}

/// Table and function agree: what the transition table records for a state
/// and an event is what applying that event to that state reports and
/// leaves.
pub proof fn law_table_agreement(
    m: MachineView,
    rows: Seq<RowView>,
    r: int,
    e: int,
    result: Result<(), Error<State>>,
    after: State,
)
    requires
        m.is_table(rows),
        0 <= r < rows.len(),
        0 <= e < m.events.len(),
        applied(m.events[e], rows[r].state, result, after),
    ensures
        rows[r].cells.len() == m.events.len(),
        rows[r].cells[e].event == m.events[e].name,
        rows[r].cells[e].outcome.report() == result,
        rows[r].cells[e].outcome.state_after() == after,
{
}

/// The transition table of a machine is one value: two queries on the same
/// machine give the same rows.
pub proof fn law_table_idempotent(m: MachineView, first: Seq<RowView>, second: Seq<RowView>)
    requires
        m.is_table(first),
        m.is_table(second),
    ensures
        first == second,
{
    let a = choose|nodes: Seq<State>| m.is_node_list(nodes) && first == m.rows(nodes);
    let b = choose|nodes: Seq<State>| m.is_node_list(nodes) && second == m.rows(nodes);
    lemma_node_list_unique(m, a, b);
}

/// The graph of a machine is one text: two queries on the same machine give
/// the same characters.
pub proof fn law_graph_idempotent(m: MachineView, first: Seq<char>, second: Seq<char>)
    requires
        m.is_graph_text(first),
        m.is_graph_text(second),
    ensures
        first == second,
{
    let a = choose|nodes: Seq<State>| m.is_node_list(nodes) && first == m.dot(nodes);
    let b = choose|nodes: Seq<State>| m.is_node_list(nodes) && second == m.dot(nodes);
    lemma_node_list_unique(m, a, b);
}

/// A disabled emitter is left as it was, whatever the event does.
pub proof fn law_disabled_emitter_is_silent(
    emitter: EmitterView,
    event: EventView,
    before: State,
    location: Seq<char>,
)
    requires
        !emitter.enabled,
    ensures
        emitted(emitter, event, before, location) == emitter,
{
}

/// An event that leaves the state as it was is not recorded.
pub proof fn law_failure_is_not_recorded(
    emitter: EmitterView,
    event: EventView,
    before: State,
    location: Seq<char>,
)
    requires
        !(event.outcome(before) is Success),
    ensures
        emitted(emitter, event, before, location) == emitter,
{
}

/// An enabled emitter gains exactly one record from an event that succeeds:
/// the event's label, the state before, the state after, and the place.
pub proof fn law_success_is_recorded_once(
    emitter: EmitterView,
    event: EventView,
    before: State,
    location: Seq<char>,
)
    requires
        emitter.enabled,
        event.outcome(before) is Success,
    ensures
        emitted(emitter, event, before, location).enabled,
        emitted(emitter, event, before, location).records.len() == emitter.records.len() + 1,
        emitted(emitter, event, before, location).records.drop_last() == emitter.records,
        emitted(emitter, event, before, location).records.last().event == event.label(),
        emitted(emitter, event, before, location).records.last().previous_state == before,
        emitted(emitter, event, before, location).records.last().next_state == event.outcome(
            before,
        ).state_after(),
        emitted(emitter, event, before, location).records.last().location == location,
{
    assert(emitted(emitter, event, before, location).records.drop_last() =~= emitter.records);
}

} // verus!
