//! The transition graph of a machine: its edges, one for each source of each
//! clause, and its nodes, the states that any clause mentions, listed by name.

use crate::machine::{distinct, event_views, in_domain, repeats, Machine, MachineView};
use crate::state::{ClauseView, EventView, State};
use crate::text::{
    lemma_bytes_lt_irreflexive, lemma_bytes_lt_total, lemma_bytes_lt_transitive,
    lemma_same_bytes_same_chars, push_quoted, quoted, text_less, text_lt,
};
use vstd::prelude::*;
use vstd::string::StringSliceAdditionalSpecFns;

verus! {

/// One labelled edge: `event` leads from `source` to `target`.
#[derive(Clone, Copy, Debug, PartialEq, Eq)]
pub struct Edge {
    pub source: State,
    pub target: State,
    pub event: &'static str,
}

/// The graph of a machine as data.
#[derive(Clone, Debug)]
pub struct TransitionGraph {
    /// The machine's title.
    pub name: &'static str,
    /// The mentioned states, each once, by name.
    pub nodes: Vec<State>,
    /// One edge for each source of each clause, in declared order.
    pub edges: Vec<Edge>,
}

/// The edges of one clause, one for each source, in declared order.
pub open spec fn clause_edges(clause: ClauseView, event: &'static str) -> Seq<Edge> {
    Seq::new(
        clause.sources.len(),
        |k: int| Edge { source: clause.sources[k], target: clause.target, event },
    )
}

/// The edges of the first `count` clauses of `event`.
pub open spec fn event_edges(event: EventView, count: nat) -> Seq<Edge>
    decreases count,
{
    if count == 0 {
        Seq::empty()
    } else {
        event_edges(event, (count - 1) as nat) + clause_edges(
            event.clauses[count - 1],
            event.name,
        )
    }
}

/// The edges of the first `count` events.
pub open spec fn table_edges(events: Seq<EventView>, count: nat) -> Seq<Edge>
    decreases count,
{
    if count == 0 {
        Seq::empty()
    } else {
        table_edges(events, (count - 1) as nat) + event_edges(
            events[count - 1],
            events[count - 1].clauses.len(),
        )
    }
}

impl MachineView {
    /// Every edge of the machine: events in declared order, within an event
    /// its clauses in declared order, within a clause its sources in declared
    /// order.
    pub open spec fn edges(self) -> Seq<Edge> {
        table_edges(self.events, self.events.len())
    }

    /// Clause `c` of event `e` has `s` as its target or among its sources.
    pub open spec fn clause_mentions(self, e: int, c: int, s: State) -> bool {
        self.events[e].clauses[c].target == s || self.events[e].clauses[c].sources.contains(s)
    }

    /// Some clause of some event mentions `s`.
    pub open spec fn mentions(self, s: State) -> bool {
        exists|e: int, c: int|
            0 <= e < self.events.len() && 0 <= c < self.events[e].clauses.len()
                && #[trigger] self.clause_mentions(e, c, s)
    }

    /// The declared name of `s`.
    pub open spec fn name_of(self, s: State) -> &'static str {
        self.states[s.index as int]
    }

    /// `nodes` lists exactly the mentioned states, each once, by name.
    pub open spec fn is_node_list(self, nodes: Seq<State>) -> bool {
        &&& forall|i: int| 0 <= i < nodes.len() ==> self.mentions(#[trigger] nodes[i])
        &&& forall|s: State| self.mentions(s) ==> nodes.contains(s)
        &&& forall|i: int, j: int|
            0 <= i < j < nodes.len() ==> text_lt(
                self.name_of(#[trigger] nodes[i]),
                self.name_of(#[trigger] nodes[j]),
            )
    }

    /// The line that declares node `s`.
    pub open spec fn node_line(self, s: State) -> Seq<char> {
        "  "@ + self.name_of(s)@ + ";\n"@
    }

    /// The line that draws edge `x`, labelled with its event.
    pub open spec fn edge_line(self, x: Edge) -> Seq<char> {
        "  "@ + self.name_of(x.source)@ + " -> "@ + self.name_of(x.target)@ + " [label = "@
            + quoted(x.event@) + "];\n"@
    }

    /// The lines of the first `count` of `nodes`.
    pub open spec fn node_lines(self, nodes: Seq<State>, count: nat) -> Seq<char>
        decreases count,
    {
        if count == 0 {
            Seq::empty()
        } else {
            self.node_lines(nodes, (count - 1) as nat) + self.node_line(nodes[count - 1])
        }
    }

    /// The lines of the first `count` of `edges`.
    pub open spec fn edge_lines(self, edges: Seq<Edge>, count: nat) -> Seq<char>
        decreases count,
    {
        if count == 0 {
            Seq::empty()
        } else {
            self.edge_lines(edges, (count - 1) as nat) + self.edge_line(edges[count - 1])
        }
    }

    /// The graph as text, with `nodes` as its node list: a title, one line
    /// for each node, one line for each edge.
    pub open spec fn dot(self, nodes: Seq<State>) -> Seq<char> {
        "digraph {\n"@ + "  label = "@ + quoted(self.name@) + ";\n"@ + self.node_lines(
            nodes,
            nodes.len(),
        ) + self.edge_lines(self.edges(), self.edges().len()) + "}\n"@
    }

    /// `text` is the graph of this machine.
    pub open spec fn is_graph_text(self, text: Seq<char>) -> bool {
        exists|nodes: Seq<State>| self.is_node_list(nodes) && text == self.dot(nodes)
    }
}

/// `x` is the edge of source `k` of clause `c` of event `e`.
pub open spec fn is_edge_at(events: Seq<EventView>, e: int, c: int, k: int, x: Edge) -> bool {
    &&& 0 <= e < events.len()
    &&& 0 <= c < events[e].clauses.len()
    &&& 0 <= k < events[e].clauses[c].sources.len()
    &&& x == Edge {
        source: events[e].clauses[c].sources[k],
        target: events[e].clauses[c].target,
        event: events[e].name,
    }
}

/// `x` is an edge of one of the first `count` clauses of event `e`.
pub open spec fn from_event(events: Seq<EventView>, e: int, count: nat, x: Edge) -> bool {
    exists|c: int, k: int| c < count && #[trigger] is_edge_at(events, e, c, k, x)
}

/// `x` is an edge of one of the first `count` events.
pub open spec fn from_table(events: Seq<EventView>, count: nat, x: Edge) -> bool {
    exists|e: int, c: int, k: int| e < count && #[trigger] is_edge_at(events, e, c, k, x)
}

/// A concatenation holds what either part holds.
proof fn lemma_contains_concat(a: Seq<Edge>, b: Seq<Edge>, x: Edge)
    ensures
        (a + b).contains(x) <==> (a.contains(x) || b.contains(x)),
{
    let all = a + b;
    if all.contains(x) {
        let i = choose|i: int| 0 <= i < all.len() && all[i] == x;
        if i < a.len() {
            assert(a[i] == x);
        } else {
            assert(b[i - a.len()] == x);
        }
    }
    if a.contains(x) {
        let i = choose|i: int| 0 <= i < a.len() && a[i] == x;
        assert(all[i] == x);
    }
    if b.contains(x) {
        let i = choose|i: int| 0 <= i < b.len() && b[i] == x;
        assert(all[a.len() + i] == x);
    }
}

/// What the edges of the first `count` clauses of an event are.
proof fn lemma_event_edges(events: Seq<EventView>, e: int, count: nat)
    requires
        0 <= e < events.len(),
        count <= events[e].clauses.len(),
    ensures
        forall|x: Edge| #[trigger]
            event_edges(events[e], count).contains(x) <==> from_event(events, e, count, x),
    decreases count,
{
    let all = event_edges(events[e], count);
    if count > 0 {
        let before = event_edges(events[e], (count - 1) as nat);
        let last = clause_edges(events[e].clauses[count - 1], events[e].name);
        lemma_event_edges(events, e, (count - 1) as nat);
        assert forall|x: Edge| #[trigger] all.contains(x) <==> from_event(events, e, count, x) by {
            lemma_contains_concat(before, last, x);
            if before.contains(x) {
                assert(from_event(events, e, (count - 1) as nat, x));
                let (c, k) = choose|c: int, k: int|
                    c < count - 1 && #[trigger] is_edge_at(events, e, c, k, x);
                assert(is_edge_at(events, e, c, k, x));
            }
            if last.contains(x) {
                let k = choose|k: int| 0 <= k < last.len() && last[k] == x;
                assert(is_edge_at(events, e, count - 1, k, x));
            }
            if from_event(events, e, count, x) {
                let (c, k) = choose|c: int, k: int|
                    c < count && #[trigger] is_edge_at(events, e, c, k, x);
                if c < count - 1 {
                    assert(from_event(events, e, (count - 1) as nat, x));
                } else {
                    assert(last[k] == x);
                }
            }
        }
    } else {
        assert forall|x: Edge| #[trigger] all.contains(x) <==> from_event(events, e, count, x) by {
            if from_event(events, e, count, x) {
                let (c, k) = choose|c: int, k: int|
                    c < count && #[trigger] is_edge_at(events, e, c, k, x);
            }
        }
    }
}

/// What the edges of the first `count` events are.
proof fn lemma_table_edges(events: Seq<EventView>, count: nat)
    requires
        count <= events.len(),
    ensures
        forall|x: Edge| #[trigger]
            table_edges(events, count).contains(x) <==> from_table(events, count, x),
    decreases count,
{
    let all = table_edges(events, count);
    if count > 0 {
        let before = table_edges(events, (count - 1) as nat);
        let ev = events[count - 1];
        let last = event_edges(ev, ev.clauses.len());
        lemma_table_edges(events, (count - 1) as nat);
        lemma_event_edges(events, count - 1, ev.clauses.len());
        assert forall|x: Edge| #[trigger] all.contains(x) <==> from_table(events, count, x) by {
            lemma_contains_concat(before, last, x);
            if before.contains(x) {
                assert(from_table(events, (count - 1) as nat, x));
                let (e, c, k) = choose|e: int, c: int, k: int|
                    e < count - 1 && #[trigger] is_edge_at(events, e, c, k, x);
                assert(is_edge_at(events, e, c, k, x));
            }
            if last.contains(x) {
                assert(from_event(events, count - 1, ev.clauses.len(), x));
                let (c, k) = choose|c: int, k: int|
                    c < ev.clauses.len() && #[trigger] is_edge_at(events, count - 1, c, k, x);
                assert(is_edge_at(events, count - 1, c, k, x));
            }
            if from_table(events, count, x) {
                let (e, c, k) = choose|e: int, c: int, k: int|
                    e < count && #[trigger] is_edge_at(events, e, c, k, x);
                if e < count - 1 {
                    assert(from_table(events, (count - 1) as nat, x));
                } else {
                    assert(from_event(events, count - 1, ev.clauses.len(), x));
                }
            }
        }
    } else {
        assert forall|x: Edge| #[trigger] all.contains(x) <==> from_table(events, count, x) by {
            if from_table(events, count, x) {
                let (e, c, k) = choose|e: int, c: int, k: int|
                    e < count && #[trigger] is_edge_at(events, e, c, k, x);
            }
        }
    }
}

/// `s` is the source or the target of one of `edges`.
pub open spec fn is_endpoint(edges: Seq<Edge>, s: State) -> bool {
    exists|i: int| 0 <= i < edges.len() && ((#[trigger] edges[i]).source == s || edges[i].target == s)
}

/// In a well-formed machine the mentioned states are the endpoints of its
/// edges, and every endpoint is a declared state.
pub proof fn lemma_endpoints(m: MachineView)
    requires
        m.wf(),
    ensures
        forall|s: State| m.mentions(s) <==> is_endpoint(m.edges(), s),
        forall|s: State| m.mentions(s) ==> in_domain(s, m.states.len()),
        forall|i: int|
            0 <= i < m.edges().len() ==> in_domain((#[trigger] m.edges()[i]).source, m.states.len())
                && in_domain(m.edges()[i].target, m.states.len()),
{
    let edges = m.edges();
    let n = m.states.len();
    lemma_table_edges(m.events, m.events.len());
    assert forall|i: int| 0 <= i < edges.len() implies in_domain(
        (#[trigger] edges[i]).source,
        n,
    ) && in_domain(edges[i].target, n) && m.mentions(edges[i].source) && m.mentions(
        edges[i].target,
    ) by {
        assert(edges.contains(edges[i]));
        assert(from_table(m.events, m.events.len(), edges[i]));
        let (e, c, k) = choose|e: int, c: int, k: int|
            e < m.events.len() && #[trigger] is_edge_at(m.events, e, c, k, edges[i]);
        assert(m.events[e].fault(n) is None);
        assert(m.events[e].clause_in_domain(c, n));
        assert(m.events[e].clauses[c].sources[k] == edges[i].source);
        assert(m.clause_mentions(e, c, edges[i].source));
        assert(m.clause_mentions(e, c, edges[i].target));
    }
    assert forall|s: State| m.mentions(s) implies is_endpoint(edges, s) by {
        let (e, c) = choose|e: int, c: int|
            0 <= e < m.events.len() && 0 <= c < m.events[e].clauses.len()
                && #[trigger] m.clause_mentions(e, c, s);
        assert(m.events[e].fault(n) is None);
        let clause = m.events[e].clauses[c];
        assert(clause.sources.len() > 0);
        let k = if clause.target == s {
            0
        } else {
            choose|k: int| 0 <= k < clause.sources.len() && clause.sources[k] == s
        };
        let x = Edge { source: clause.sources[k], target: clause.target, event: m.events[e].name };
        assert(is_edge_at(m.events, e, c, k, x));
        assert(from_table(m.events, m.events.len(), x));
        assert(edges.contains(x));
        let i = choose|i: int| 0 <= i < edges.len() && edges[i] == x;
        assert(edges[i].source == s || edges[i].target == s);
    }
}

/// Two declared states with different positions have names that sort one
/// before the other.
proof fn lemma_names_ordered(names: Seq<&'static str>, a: State, b: State)
    requires
        distinct(names),
        a.index < names.len(),
        b.index < names.len(),
        a != b,
    ensures
        text_lt(names[a.index as int], names[b.index as int]) || text_lt(
            names[b.index as int],
            names[a.index as int],
        ),
{
    let x = names[a.index as int];
    let y = names[b.index as int];
    if a.index < b.index {
        assert(!repeats(names, b.index as int));
    } else {
        assert(!repeats(names, a.index as int));
    }
    assert(x@ != y@);
    lemma_same_bytes_same_chars(x, y);
    lemma_bytes_lt_total(x.spec_bytes(), y.spec_bytes());
}

/// `nodes` holds declared states only, in strictly rising order of name.
pub open spec fn sorted_by_name(names: Seq<&'static str>, nodes: Seq<State>) -> bool {
    &&& forall|i: int| 0 <= i < nodes.len() ==> (#[trigger] nodes[i]).index < names.len()
    &&& forall|i: int, j: int|
        0 <= i < j < nodes.len() ==> text_lt(
            names[(#[trigger] nodes[i]).index as int],
            names[(#[trigger] nodes[j]).index as int],
        )
}

/// A machine has one node list only.
pub proof fn lemma_node_list_unique(m: MachineView, a: Seq<State>, b: Seq<State>)
    requires
        m.is_node_list(a),
        m.is_node_list(b),
    ensures
        a == b,
{
    lemma_node_list_prefix(m, a, b, a.len());
    lemma_node_list_prefix(m, b, a, b.len());
    assert(a =~= b);
}

/// The first `count` nodes of one node list stand in the other, at the same places.
proof fn lemma_node_list_prefix(m: MachineView, a: Seq<State>, b: Seq<State>, count: nat)
    requires
        m.is_node_list(a),
        m.is_node_list(b),
        count <= a.len(),
    ensures
        count <= b.len(),
        forall|i: int| 0 <= i < count ==> a[i] == b[i],
    decreases count,
{
    if count > 0 {
        let k = count - 1;
        lemma_node_list_prefix(m, a, b, k as nat);
        let name = |s: State| m.name_of(s).spec_bytes();
        // where a[k] stands in b
        assert(m.mentions(a[k]));
        assert(b.contains(a[k]));
        let p = choose|p: int| 0 <= p < b.len() && b[p] == a[k];
        if p < k {
            assert(a[p] == b[p]);
            assert(text_lt(m.name_of(a[p]), m.name_of(a[k])));
            lemma_bytes_lt_irreflexive(name(a[k]));
        }
        assert(k < b.len());
        // where b[k] stands in a
        assert(m.mentions(b[k]));
        assert(a.contains(b[k]));
        let q = choose|q: int| 0 <= q < a.len() && a[q] == b[k];
        if q < k {
            assert(a[q] == b[q]);
            assert(text_lt(m.name_of(b[q]), m.name_of(b[k])));
            lemma_bytes_lt_irreflexive(name(b[k]));
        }
        if p > k {
            assert(text_lt(m.name_of(b[k]), m.name_of(b[p])));
            if q > k {
                assert(text_lt(m.name_of(a[k]), m.name_of(a[q])));
                lemma_bytes_lt_transitive(name(a[k]), name(b[k]), name(a[k]));
            }
            lemma_bytes_lt_irreflexive(name(a[k]));
        }
    }
}

/// Puts `s` into `nodes` at its place by name, unless it is there already.
fn insert_node(names: &Vec<&'static str>, nodes: &mut Vec<State>, s: State)
    requires
        distinct(names@),
        s.index < names@.len(),
        sorted_by_name(names@, old(nodes)@),
    ensures
        sorted_by_name(names@, final(nodes)@),
        forall|x: State| final(nodes)@.contains(x) <==> (old(nodes)@.contains(x) || x == s),
{
    let ghost before = nodes@;
    let mut p: usize = 0;
    while p < nodes.len() && text_less(names[nodes[p].index], names[s.index])
        invariant
            p <= nodes@.len(),
            nodes@ == before,
            s.index < names@.len(),
            sorted_by_name(names@, before),
            forall|i: int|
                0 <= i < p ==> text_lt(
                    names@[(#[trigger] before[i]).index as int],
                    names@[s.index as int],
                ),
        decreases nodes@.len() - p,
    {
        p += 1;
    }
    if p < nodes.len() && nodes[p] == s {
        return ;
    }
    let ghost own = names@[s.index as int].spec_bytes();
    proof {
        assert forall|j: int| p <= j < before.len() implies text_lt(
            names@[s.index as int],
            names@[(#[trigger] before[j]).index as int],
        ) by {
            lemma_names_ordered(names@, before[p as int], s);
            if j > p {
                lemma_bytes_lt_transitive(
                    own,
                    names@[before[p as int].index as int].spec_bytes(),
                    names@[before[j].index as int].spec_bytes(),
                );
            }
        }
        assert forall|i: int| 0 <= i < before.len() implies before[i] != s by {
            lemma_bytes_lt_irreflexive(own);
        }
    }
    nodes.insert(p, s);
    proof {
        let after = nodes@;
        assert(after == before.insert(p as int, s));
        assert forall|x: State| after.contains(x) <==> (before.contains(x) || x == s) by {
            if after.contains(x) {
                let i = choose|i: int| 0 <= i < after.len() && after[i] == x;
                if i < p {
                    assert(before[i] == x);
                } else if i > p {
                    assert(before[i - 1] == x);
                }
            }
            if before.contains(x) {
                let i = choose|i: int| 0 <= i < before.len() && before[i] == x;
                if i < p {
                    assert(after[i] == x);
                } else {
                    assert(after[i + 1] == x);
                }
            }
            if x == s {
                assert(after[p as int] == x);
            }
        }
        assert forall|i: int, j: int| 0 <= i < j < after.len() implies text_lt(
            names@[(#[trigger] after[i]).index as int],
            names@[(#[trigger] after[j]).index as int],
        ) by {
            let bi = if i < p { i } else { i - 1 };
            let bj = if j < p { j } else { j - 1 };
            if i != p && j != p {
                assert(after[i] == before[bi] && after[j] == before[bj]);
            } else if i == p {
                assert(after[j] == before[bj]);
            } else {
                assert(after[i] == before[bi]);
            }
        }
    }
}

impl Machine {
    /// Every edge of the machine, in declared order.
    pub fn edges(&self) -> (r: Vec<Edge>)
        ensures
            r@ == self@.edges(),
    {
        let events = self.events();
        let ghost views = self@.events;
        let mut out: Vec<Edge> = Vec::new();
        let mut e: usize = 0;
        while e < events.len()
            invariant
                e <= events@.len(),
                views == event_views(events@),
                out@ == table_edges(views, e as nat),
            decreases events@.len() - e,
        {
            let event = &events[e];
            let ghost done = out@;
            assert(views[e as int] == event@);
            let mut c: usize = 0;
            while c < event.clauses.len()
                invariant
                    c <= event.clauses@.len(),
                    views[e as int] == event@,
                    out@ == done + event_edges(event@, c as nat),
                decreases event.clauses@.len() - c,
            {
                let clause = &event.clauses[c];
                let ghost earlier = out@;
                assert(event@.clauses[c as int] == clause@);
                let mut k: usize = 0;
                while k < clause.sources.len()
                    invariant
                        k <= clause.sources@.len(),
                        out@ == earlier + clause_edges(clause@, event.name).take(k as int),
                    decreases clause.sources@.len() - k,
                {
                    out.push(Edge { source: clause.sources[k], target: clause.target, event: event.name });
                    assert(clause_edges(clause@, event.name).take(k + 1) =~= clause_edges(
                        clause@,
                        event.name,
                    ).take(k as int).push(clause_edges(clause@, event.name)[k as int]));
                    k += 1;
                }
                assert(clause_edges(clause@, event.name).take(k as int) =~= clause_edges(
                    clause@,
                    event.name,
                ));
                assert(out@ =~= done + event_edges(event@, (c + 1) as nat));
                c += 1;
            }
            e += 1;
        }
        out
    }

    /// The states that any clause mentions, each once, listed by name.
    pub fn nodes(&self) -> (r: Vec<State>)
        ensures
            self@.is_node_list(r@),
    {
        let edges = self.edges();
        let names = self.state_names();
        let mut nodes: Vec<State> = Vec::new();
        proof {
            lemma_endpoints(self@);
        }
        let mut i: usize = 0;
        while i < edges.len()
            invariant
                i <= edges@.len(),
                edges@ == self@.edges(),
                names@ == self@.states,
                self@.wf(),
                sorted_by_name(names@, nodes@),
                forall|x: State| nodes@.contains(x) <==> is_endpoint(edges@.take(i as int), x),
                forall|i: int|
                    0 <= i < edges@.len() ==> in_domain(
                        (#[trigger] edges@[i]).source,
                        names@.len(),
                    ) && in_domain(edges@[i].target, names@.len()),
            decreases edges@.len() - i,
        {
            let edge = edges[i];
            insert_node(names, &mut nodes, edge.source);
            insert_node(names, &mut nodes, edge.target);
            proof {
                let old_part = edges@.take(i as int);
                let new_part = edges@.take(i + 1);
                assert forall|x: State| nodes@.contains(x) <==> is_endpoint(new_part, x) by {
                    if is_endpoint(new_part, x) {
                        let j = choose|j: int|
                            0 <= j < new_part.len() && ((#[trigger] new_part[j]).source == x
                                || new_part[j].target == x);
                        if j < i {
                            assert(old_part[j] == new_part[j]);
                            assert(is_endpoint(old_part, x));
                        }
                    }
                    if is_endpoint(old_part, x) {
                        let j = choose|j: int|
                            0 <= j < old_part.len() && ((#[trigger] old_part[j]).source == x
                                || old_part[j].target == x);
                        assert(new_part[j] == old_part[j]);
                    }
                    if x == edge.source || x == edge.target {
                        assert(new_part[i as int] == edge);
                    }
                }
            }
            i += 1;
        }
        proof {
            assert(edges@.take(i as int) =~= edges@);
            lemma_endpoints(self@);
            assert forall|j: int| 0 <= j < nodes@.len() implies self@.mentions(
                #[trigger] nodes@[j],
            ) by {
                assert(nodes@.contains(nodes@[j]));
            }
            assert forall|s: State| self@.mentions(s) implies nodes@.contains(s) by {
                assert(is_endpoint(edges@, s));
            }
        }
        nodes
    }

    /// The graph of the machine as data.
    pub fn transition_graph(&self) -> (r: TransitionGraph)
        ensures
            r.name == self@.name,
            self@.is_node_list(r.nodes@),
            r.edges@ == self@.edges(),
    {
        TransitionGraph { name: self.name(), nodes: self.nodes(), edges: self.edges() }
    }

    /// The graph of the machine as text: a title line, one line for each
    /// node, one line for each edge. The same table gives the same text.
    pub fn graph(&self) -> (r: String)
        ensures
            self@.is_graph_text(r@),
    {
        let nodes = self.nodes();
        let edges = self.edges();
        let names = self.state_names();
        proof {
            lemma_endpoints(self@);
        }
        let mut out = String::new();
        out.append("digraph {\n");
        out.append("  label = ");
        push_quoted(&mut out, self.name());
        out.append(";\n");
        let ghost head = out@;
        assert(head =~= "digraph {\n"@ + "  label = "@ + quoted(self@.name@) + ";\n"@);
        let mut i: usize = 0;
        while i < nodes.len()
            invariant
                i <= nodes@.len(),
                names@ == self@.states,
                forall|j: int| 0 <= j < nodes@.len() ==> (#[trigger] nodes@[j]).index < names@.len(),
                out@ == head + self@.node_lines(nodes@, i as nat),
            decreases nodes@.len() - i,
        {
            out.append("  ");
            out.append(names[nodes[i].index]);
            out.append(";\n");
            i += 1;
        }
        let ghost middle = out@;
        let mut i: usize = 0;
        while i < edges.len()
            invariant
                i <= edges@.len(),
                names@ == self@.states,
                forall|j: int|
                    0 <= j < edges@.len() ==> (#[trigger] edges@[j]).source.index < names@.len()
                        && edges@[j].target.index < names@.len(),
                out@ == middle + self@.edge_lines(edges@, i as nat),
            decreases edges@.len() - i,
        {
            let edge = edges[i];
            out.append("  ");
            out.append(names[edge.source.index]);
            out.append(" -> ");
            out.append(names[edge.target.index]);
            out.append(" [label = ");
            push_quoted(&mut out, edge.event);
            out.append("];\n");
            i += 1;
        }
        out.append("}\n");
        out
    }
}

} // verus!
