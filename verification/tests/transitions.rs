use state_machine::machine::DefinitionError;
use state_machine::observe::{Emitter, TransitionRecord};
use state_machine::state::{Clause, Error, Event, Predicate, State, TransitionOutcome};

const IDLE: State = State { index: 0 };
const OPEN: State = State { index: 1 };
const CLOSING: State = State { index: 2 };
const CLOSED: State = State { index: 3 };

fn event(name: &'static str, clauses: Vec<Clause>) -> Event {
    Event::new(name, clauses).unwrap()
}

fn anonymous(clauses: Vec<Clause>) -> Event {
    Event::anonymous(clauses).unwrap()
}

fn open_event() -> Event {
    event("open", vec![Clause::new(vec![IDLE], OPEN)])
}

fn close_event() -> Event {
    event(
        "close",
        vec![Clause::new(vec![OPEN], CLOSING), Clause::new(vec![CLOSING], CLOSED)],
    )
}

#[test]
fn open_from_idle_succeeds() {
    let open = open_event();
    let mut state = IDLE;
    assert_eq!(open.apply(&mut state), Ok(()));
    assert_eq!(state, OPEN);
}

#[test]
fn open_from_closing_is_invalid() {
    let open = open_event();
    let mut state = CLOSING;
    assert_eq!(
        open.apply(&mut state),
        Err(Error::InvalidTransition { current: CLOSING, event: "open" })
    );
    assert_eq!(state, CLOSING);
}

#[test]
fn open_on_its_own_target_is_a_no_op() {
    // `open` has one clause, `Idle => Open`, so on `Open` it is redundant,
    // not invalid
    let open = open_event();
    let mut state = OPEN;
    assert_eq!(open.apply(&mut state), Err(Error::NoOp { current: OPEN }));
    assert_eq!(state, OPEN);
    assert_eq!(open.outcome(OPEN), TransitionOutcome::NoOp { current: OPEN });
}

#[test]
fn open_is_invalid_from_every_other_state() {
    let open = open_event();
    for state in [CLOSING, CLOSED, State { index: 9 }] {
        let mut current = state;
        assert_eq!(
            open.apply(&mut current),
            Err(Error::InvalidTransition { current: state, event: "open" })
        );
        assert_eq!(current, state);
    }
}

#[test]
fn close_walks_through_closing() {
    let close = close_event();
    let mut state = OPEN;
    assert_eq!(close.apply(&mut state), Ok(()));
    assert_eq!(state, CLOSING);
    assert_eq!(close.apply(&mut state), Ok(()));
    assert_eq!(state, CLOSED);
}

#[test]
fn close_on_closed_is_invalid_with_two_clauses() {
    let close = close_event();
    let mut state = CLOSED;
    assert_eq!(
        close.apply(&mut state),
        Err(Error::InvalidTransition { current: CLOSED, event: "close" })
    );
    assert_eq!(state, CLOSED);
}

#[test]
fn single_clause_close_on_closed_is_a_no_op() {
    let idle = State { index: 0 };
    let closed = State { index: 1 };
    let close = event("close", vec![Clause::new(vec![idle], closed)]);
    let mut state = closed;
    assert_eq!(close.apply(&mut state), Err(Error::NoOp { current: closed }));
    assert_eq!(state, closed);
}

#[test]
fn two_clauses_with_one_target_are_still_invalid() {
    let finish = event(
        "finish",
        vec![Clause::new(vec![IDLE], CLOSED), Clause::new(vec![OPEN], CLOSED)],
    );
    assert_eq!(
        finish.outcome(CLOSED),
        TransitionOutcome::InvalidTransition { current: CLOSED, event: "finish" }
    );
}

#[test]
fn first_matching_clause_wins() {
    let event = event(
        "step",
        vec![Clause::new(vec![IDLE, OPEN], CLOSING), Clause::new(vec![OPEN], CLOSED)],
    );
    assert_eq!(event.outcome(OPEN), TransitionOutcome::Success { next: CLOSING });
    assert_eq!(event.outcome(IDLE), TransitionOutcome::Success { next: CLOSING });
}

#[test]
fn alternation_accepts_each_source() {
    let clause = Clause::new(vec![IDLE, CLOSING], CLOSED);
    assert!(clause.accepts(IDLE));
    assert!(clause.accepts(CLOSING));
    assert!(!clause.accepts(OPEN));
    assert!(!clause.accepts(CLOSED));
}

#[test]
fn an_accepted_target_state_succeeds() {
    let event = event("stay", vec![Clause::new(vec![IDLE, OPEN], OPEN)]);
    let mut state = OPEN;
    assert_eq!(event.apply(&mut state), Ok(()));
    assert_eq!(state, OPEN);
}

#[test]
fn an_event_without_clauses_is_refused() {
    match Event::new("never", vec![]) {
        Ok(_) => panic!("the event was accepted"),
        Err(fault) => assert_eq!(fault, DefinitionError::EmptyEvent { event: "never" }),
    }
    match Event::anonymous(vec![]) {
        Ok(_) => panic!("the event was accepted"),
        Err(fault) => assert_eq!(fault, DefinitionError::EmptyEvent { event: "_" }),
    }
}

#[test]
fn a_clause_without_sources_is_refused() {
    match Event::new("go", vec![Clause::new(vec![IDLE], OPEN), Clause::new(vec![], OPEN)]) {
        Ok(_) => panic!("the event was accepted"),
        Err(fault) => assert_eq!(fault, DefinitionError::EmptyPattern { event: "go" }),
    }
}

#[test]
fn an_event_keeps_what_it_was_given() {
    let close = close_event();
    assert_eq!(close.name(), "close");
    assert_eq!(close.clauses().len(), 2);
    assert_eq!(close.clauses()[0].sources, vec![OPEN]);
    assert_eq!(close.clauses()[1].target, CLOSED);
}

#[test]
fn repeated_application_gives_the_same_outcome() {
    for event in [open_event(), close_event()] {
        for state in [IDLE, OPEN, CLOSING, CLOSED] {
            let mut first = state;
            let mut second = state;
            let a = event.apply(&mut first);
            let b = event.apply(&mut second);
            assert_eq!(a, b);
            assert_eq!(first, second);
            assert_eq!(event.outcome(state), event.outcome(state));
        }
    }
}

#[test]
fn failure_leaves_the_state_alone() {
    for event in [open_event(), close_event()] {
        for state in [IDLE, OPEN, CLOSING, CLOSED] {
            let mut current = state;
            if event.apply(&mut current).is_err() {
                assert_eq!(current, state);
            }
        }
    }
}

#[test]
fn apply_agrees_with_outcome() {
    for event in [open_event(), close_event()] {
        for state in [IDLE, OPEN, CLOSING, CLOSED] {
            let mut current = state;
            let result = event.apply(&mut current);
            assert_eq!(event.outcome(state).into_result(), result.map(|_| current));
        }
    }
}

#[test]
fn outcome_into_result() {
    assert_eq!(TransitionOutcome::Success { next: OPEN }.into_result(), Ok(OPEN));
    assert_eq!(
        TransitionOutcome::NoOp { current: OPEN }.into_result(),
        Err(Error::NoOp { current: OPEN })
    );
    assert_eq!(
        TransitionOutcome::InvalidTransition { current: IDLE, event: "close" }.into_result(),
        Err(Error::InvalidTransition { current: IDLE, event: "close" })
    );
}

#[test]
fn predicate_tests_membership() {
    let is_closing = Predicate::new("is_closing", vec![CLOSING, CLOSED]);
    assert!(is_closing.test(&CLOSING));
    assert!(is_closing.test(&CLOSED));
    assert!(!is_closing.test(&IDLE));
    assert!(!is_closing.test(&OPEN));
    assert!(!Predicate::new("is_nothing", vec![]).test(&IDLE));
}

#[test]
fn label_of_named_and_unnamed_events() {
    assert_eq!(open_event().label(), Some("open"));
    assert_eq!(anonymous(vec![Clause::new(vec![IDLE], OPEN)]).label(), None);
    assert_eq!(event("", vec![Clause::new(vec![IDLE], OPEN)]).label(), None);
    assert_eq!(event("_", vec![Clause::new(vec![IDLE], OPEN)]).label(), None);
    assert_eq!(event("__", vec![Clause::new(vec![IDLE], OPEN)]).label(), Some("__"));
    assert_eq!(event("_x", vec![Clause::new(vec![IDLE], OPEN)]).label(), Some("_x"));
}

#[test]
fn anonymous_event_reports_an_underscore() {
    let event = anonymous(vec![Clause::new(vec![IDLE], OPEN), Clause::new(vec![OPEN], CLOSED)]);
    let mut state = CLOSING;
    assert_eq!(
        event.apply(&mut state),
        Err(Error::InvalidTransition { current: CLOSING, event: "_" })
    );
}

#[test]
fn success_is_recorded_once_when_enabled() {
    let open = open_event();
    let mut emitter = Emitter::enabled();
    let mut state = IDLE;
    assert_eq!(open.apply_observed(&mut state, "stream.rs:42:9", &mut emitter), Ok(()));
    assert_eq!(state, OPEN);
    assert_eq!(emitter.len(), 1);
    assert_eq!(
        emitter.records(),
        &vec![TransitionRecord {
            event: Some("open"),
            previous_state: IDLE,
            next_state: OPEN,
            location: "stream.rs:42:9".to_string(),
        }]
    );
}

#[test]
fn nothing_is_recorded_when_disabled() {
    let open = open_event();
    let mut emitter = Emitter::disabled();
    let mut state = IDLE;
    assert_eq!(open.apply_observed(&mut state, "here", &mut emitter), Ok(()));
    assert_eq!(state, OPEN);
    assert!(!emitter.is_enabled());
    assert_eq!(emitter.len(), 0);
}

#[test]
fn failures_are_never_recorded() {
    let open = open_event();
    let close = close_event();
    let mut emitter = Emitter::enabled();
    let mut state = OPEN;
    assert_eq!(
        open.apply_observed(&mut state, "a", &mut emitter),
        Err(Error::NoOp { current: OPEN })
    );
    let mut state = IDLE;
    assert_eq!(
        close.apply_observed(&mut state, "b", &mut emitter),
        Err(Error::InvalidTransition { current: IDLE, event: "close" })
    );
    assert_eq!(state, IDLE);
    assert!(emitter.is_enabled());
    assert_eq!(emitter.len(), 0);
}

#[test]
fn records_keep_their_order_and_are_taken_out() {
    let open = open_event();
    let close = close_event();
    let anonymous = anonymous(vec![Clause::new(vec![CLOSED], IDLE)]);
    let mut emitter = Emitter::enabled();
    let mut state = IDLE;
    open.apply_observed(&mut state, "one", &mut emitter).unwrap();
    close.apply_observed(&mut state, "two", &mut emitter).unwrap();
    close.apply_observed(&mut state, "three", &mut emitter).unwrap();
    anonymous.apply_observed(&mut state, "four", &mut emitter).unwrap();
    let records = emitter.take();
    assert_eq!(emitter.len(), 0);
    assert!(emitter.is_enabled());
    assert_eq!(records.len(), 4);
    assert_eq!(records[0].location, "one");
    assert_eq!(records[1].event, Some("close"));
    assert_eq!(records[1].previous_state, OPEN);
    assert_eq!(records[1].next_state, CLOSING);
    assert_eq!(records[2].previous_state, CLOSING);
    assert_eq!(records[2].next_state, CLOSED);
    assert_eq!(records[3].event, None);
    assert_eq!(records[3].next_state, IDLE);
}
