//! Records of successful transitions.
//!
//! An emitter is either disabled or enabled. A disabled emitter takes no
//! record and builds none. An enabled one keeps a record of each successful
//! transition, in order, until its owner takes them out. Events that leave
//! the state as it was are never recorded: the caller hears of them through
//! the result.

use crate::state::{applied, Error, Event, EventView, State, TransitionOutcome};
use vstd::prelude::*;

verus! {

/// One successful transition.
#[derive(Clone, Debug, PartialEq, Eq)]
pub struct TransitionRecord {
    /// The event's name, or `None` where the event has none.
    pub event: Option<&'static str>,
    pub previous_state: State,
    pub next_state: State,
    /// Where the event was applied, as the caller put it.
    pub location: String,
}

/// A record as a value.
pub struct RecordView {
    pub event: Option<&'static str>,
    pub previous_state: State,
    pub next_state: State,
    pub location: Seq<char>,
}

impl View for TransitionRecord {
    type V = RecordView;

    open spec fn view(&self) -> RecordView {
        RecordView {
            event: self.event,
            previous_state: self.previous_state,
            next_state: self.next_state,
            location: self.location@,
        }
    }
}

/// Where records of successful transitions go.
#[derive(Debug)]
pub struct Emitter {
    enabled: bool,
    records: Vec<TransitionRecord>,
}

/// An emitter as a value: whether it takes records, and those it holds.
pub struct EmitterView {
    pub enabled: bool,
    pub records: Seq<RecordView>,
}

impl View for Emitter {
    type V = EmitterView;

    closed spec fn view(&self) -> EmitterView {
        EmitterView {
            enabled: self.enabled,
            records: self.records@.map_values(|r: TransitionRecord| r@),
        }
    }
}

impl EventView {
    /// The name under which the event is recorded: none for an event whose
    /// name is empty or a lone underscore.
    pub open spec fn label(self) -> Option<&'static str> {
        if self.name@.len() == 0 || self.name@ == seq!['_'] {
            None
        } else {
            Some(self.name)
        }
    }
}

/// The emitter after `event` was applied to `before` at `location`: one more
/// record where the emitter is enabled and the event succeeded, and no change
/// otherwise.
pub open spec fn emitted(
    emitter: EmitterView,
    event: EventView,
    before: State,
    location: Seq<char>,
) -> EmitterView {
    match event.outcome(before) {
        TransitionOutcome::Success { next } => if emitter.enabled {
            EmitterView {
                enabled: true,
                records: emitter.records.push(
                    RecordView {
                        event: event.label(),
                        previous_state: before,
                        next_state: next,
                        location,
                    },
                ),
            }
        } else {
            emitter
        },
        _ => emitter,
    }
}

impl Emitter {
    /// An emitter that takes no record.
    pub fn disabled() -> (r: Emitter)
        ensures
            r@ == (EmitterView { enabled: false, records: Seq::empty() }),
    {
        let r = Emitter { enabled: false, records: Vec::new() };
        assert(r@.records =~= Seq::empty());
        r
    }

    /// An emitter that records, and holds nothing yet.
    pub fn enabled() -> (r: Emitter)
        ensures
            r@ == (EmitterView { enabled: true, records: Seq::empty() }),
    {
        let r = Emitter { enabled: true, records: Vec::new() };
        assert(r@.records =~= Seq::empty());
        r
    }

    /// Whether the emitter takes records.
    pub fn is_enabled(&self) -> (r: bool)
        ensures
            r == self@.enabled,
    {
        self.enabled
    }

    /// How many records the emitter holds.
    pub fn len(&self) -> (r: usize)
        ensures
            r == self@.records.len(),
    {
        self.records.len()
    }

    /// The records held, oldest first.
    pub fn records(&self) -> (r: &Vec<TransitionRecord>)
        ensures
            r@.map_values(|x: TransitionRecord| x@) == self@.records,
    {
        &self.records
    }

    /// Hands out the records held, oldest first, and keeps none.
    pub fn take(&mut self) -> (r: Vec<TransitionRecord>)
        ensures
            r@.map_values(|x: TransitionRecord| x@) == old(self)@.records,
            final(self)@ == (EmitterView { enabled: old(self)@.enabled, records: Seq::empty() }),
    {
        let mut out: Vec<TransitionRecord> = Vec::new();
        core::mem::swap(&mut self.records, &mut out);
        assert(self@.records =~= Seq::empty());
        out
    }
}

impl Event {
    /// The name under which the event is recorded.
    pub fn label(&self) -> (r: Option<&'static str>)
        ensures
            r == self@.label(),
    {
        let n = self.name.unicode_len();
        if n == 0 {
            None
        } else if n == 1 && self.name.get_char(0) == '_' {
            assert(self.name@ =~= seq!['_']);
            None
        } else {
            Some(self.name)
        }
    }

    /// Tries the event on `current`, as [`Event::apply`] does, and on success
    /// hands a record to `emitter`. The state is settled before the emitter
    /// is touched, and a disabled emitter is left alone: no record is built.
    pub fn apply_observed(&self, current: &mut State, location: &str, emitter: &mut Emitter) -> (r:
        Result<(), Error<State>>)
        ensures
            applied(self@, *old(current), r, *final(current)),
            r is Err ==> *final(current) == *old(current),
            final(emitter)@ == emitted(old(emitter)@, self@, *old(current), location@),
    {
        let before = *current;
        let result = self.apply(current);
        if result.is_ok() && emitter.enabled {
            let record = TransitionRecord {
                event: self.label(),
                previous_state: before,
                next_state: *current,
                location: location.to_owned(),
            };
            emitter.records.push(record);
            assert(emitter@.records =~= old(emitter)@.records.push(record@));
        }
        result
    }
}

} // verus!
