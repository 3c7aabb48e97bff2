//! The transition table of a machine: for every mentioned state, listed by
//! name, what each event does on it.

use crate::machine::{event_views, Machine, MachineView};
use crate::graph::lemma_endpoints;
use crate::state::{State, TransitionOutcome};
use crate::text::text_same;
use vstd::prelude::*;

verus! {

/// What one event does on the state of the row.
#[derive(Clone, Copy, Debug, PartialEq, Eq)]
pub struct Cell {
    pub event: &'static str,
    pub outcome: TransitionOutcome,
}

/// One state and what each event does on it, events in declared order.
#[derive(Clone, Debug, PartialEq, Eq)]
pub struct Row {
    pub state: State,
    pub name: &'static str,
    pub cells: Vec<Cell>,
}

/// A row as a value.
pub struct RowView {
    pub state: State,
    pub name: &'static str,
    pub cells: Seq<Cell>,
}

/// Every mentioned state against every event.
#[derive(Clone, Debug, PartialEq, Eq)]
pub struct TransitionTable {
    pub rows: Vec<Row>,
}

impl View for Row {
    type V = RowView;

    open spec fn view(&self) -> RowView {
        RowView { state: self.state, name: self.name, cells: self.cells@ }
    }
}

impl View for TransitionTable {
    type V = Seq<RowView>;

    open spec fn view(&self) -> Seq<RowView> {
        self.rows@.map_values(|r: Row| r@)
    }
}

impl MachineView {
    /// What each event does on `s`, events in declared order.
    pub open spec fn cells(self, s: State) -> Seq<Cell> {
        Seq::new(
            self.events.len(),
            |e: int| Cell { event: self.events[e].name, outcome: self.events[e].outcome(s) },
        )
    }

    /// The row of `s`.
    pub open spec fn row(self, s: State) -> RowView {
        RowView { state: s, name: self.name_of(s), cells: self.cells(s) }
    }

    /// The rows of `nodes`, in order.
    pub open spec fn rows(self, nodes: Seq<State>) -> Seq<RowView> {
        nodes.map_values(|s: State| self.row(s))
    }

    /// `rows` is the transition table of this machine: the rows of its node
    /// list.
    pub open spec fn is_table(self, rows: Seq<RowView>) -> bool {
        exists|nodes: Seq<State>| self.is_node_list(nodes) && rows == self.rows(nodes)
    }
}

/// `r` is the first row of `rows` for the state `s`.
pub open spec fn is_first_row(rows: Seq<RowView>, s: State, r: int) -> bool {
    &&& 0 <= r < rows.len()
    &&& rows[r].state == s
    &&& forall|k: int| 0 <= k < r ==> (#[trigger] rows[k]).state != s
}

/// `c` is the first cell of `cells` for the event called `event`.
pub open spec fn is_first_cell(cells: Seq<Cell>, event: Seq<char>, c: int) -> bool {
    &&& 0 <= c < cells.len()
    &&& cells[c].event@ == event
    &&& forall|k: int| 0 <= k < c ==> (#[trigger] cells[k]).event@ != event
}

impl TransitionTable {
    /// What the table holds for `state` and the event called `event`: the
    /// entry of the first such row and cell, or `None` where the state has no
    /// row or the row no such event.
    pub fn get(&self, state: State, event: &str) -> (r: Option<TransitionOutcome>)
        ensures
            match r {
                Some(outcome) => exists|i: int, c: int|
                    is_first_row(self@, state, i) && #[trigger] is_first_cell(
                        self@[i].cells,
                        event@,
                        c,
                    ) && outcome == self@[i].cells[c].outcome,
                None => forall|i: int| #[trigger]
                    is_first_row(self@, state, i) ==> forall|c: int|
                        0 <= c < self@[i].cells.len() ==> (#[trigger] self@[i].cells[c]).event@
                            != event@,
            },
    {
        let mut i: usize = 0;
        while i < self.rows.len()
            invariant
                i <= self.rows@.len(),
                forall|k: int| 0 <= k < i ==> (#[trigger] self@[k]).state != state,
            decreases self.rows@.len() - i,
        {
            if self.rows[i].state == state {
                let row = &self.rows[i];
                let mut c: usize = 0;
                while c < row.cells.len()
                    invariant
                        c <= row.cells@.len(),
                        i < self.rows@.len(),
                        self@[i as int] == row@,
                        is_first_row(self@, state, i as int),
                        forall|k: int| 0 <= k < c ==> (#[trigger] row.cells@[k]).event@ != event@,
                    decreases row.cells@.len() - c,
                {
                    if text_same(row.cells[c].event, event) {
                        assert(is_first_cell(self@[i as int].cells, event@, c as int));
                        return Some(row.cells[c].outcome);
                    }
                    c += 1;
                }
                return None;
            }
            i += 1;
        }
        None
    }
}

impl Machine {
    /// What each event does on `state`, events in declared order.
    pub fn row(&self, state: State) -> (r: Vec<Cell>)
        ensures
            r@ == self@.cells(state),
    {
        let events = self.events();
        let mut cells: Vec<Cell> = Vec::new();
        let mut e: usize = 0;
        while e < events.len()
            invariant
                e <= events@.len(),
                event_views(events@) == self@.events,
                cells@ =~= self@.cells(state).take(e as int),
            decreases events@.len() - e,
        {
            cells.push(Cell { event: events[e].name, outcome: events[e].outcome(state) });
            e += 1;
        }
        cells
    }

    /// The transition table: every mentioned state, listed by name, against
    /// every event. The same table definition gives the same result.
    pub fn transition_table(&self) -> (r: TransitionTable)
        ensures
            self@.is_table(r@),
    {
        let nodes = self.nodes();
        let names = self.state_names();
        proof {
            lemma_endpoints(self@);
        }
        let mut rows: Vec<Row> = Vec::new();
        let mut i: usize = 0;
        while i < nodes.len()
            invariant
                i <= nodes@.len(),
                names@ == self@.states,
                forall|j: int| 0 <= j < nodes@.len() ==> (#[trigger] nodes@[j]).index < names@.len(),
                rows@.len() == i,
                forall|j: int| 0 <= j < i ==> (#[trigger] rows@[j])@ == self@.row(nodes@[j]),
            decreases nodes@.len() - i,
        {
            let state = nodes[i];
            let row = Row { state, name: names[state.index], cells: self.row(state) };
            rows.push(row);
            i += 1;
        }
        let table = TransitionTable { rows };
        assert(table@ =~= self@.rows(nodes@));
        table
    }
}

} // verus!
