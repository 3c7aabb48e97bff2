//! Putting a scenario together piece by piece.

use crate::scenario::{Client, Id, Participant, Router, Scenario, ScenarioView, Server};
use std::collections::BTreeMap;
use vstd::prelude::*;

verus! {

/// A scenario under construction.
pub struct Builder {
    scenario: Scenario,
}

impl View for Builder {
    type V = ScenarioView;

    closed spec fn view(&self) -> ScenarioView {
        self.scenario@
    }
}

impl Builder {
    /// A builder that holds nothing yet.
    pub fn new() -> (r: Builder)
        ensures
            r@ == ScenarioView::empty(),
    {
        let r = Builder {
            scenario: Scenario {
                id: Id { value: String::new() },
                clients: Vec::new(),
                servers: Vec::new(),
                routers: Vec::new(),
                traces: Vec::new(),
            },
        };
        assert(r@.clients =~= Seq::empty());
        assert(r@.servers =~= Seq::empty());
        assert(r@.routers =~= Seq::empty());
        assert(r@.traces =~= Seq::empty());
        r
    }

    /// Gives the scenario the id `id`.
    pub fn id(&mut self, id: &str)
        ensures
            final(self)@ == (ScenarioView { id: id@, ..old(self)@ }),
    {
        self.scenario.id = Id { value: id.to_owned() };
    }

    /// Adds a client called `name`, without settings, and returns its position among the clients.
    pub fn client(&mut self, name: &str) -> (idx: usize)
        ensures
            idx == old(self)@.clients.len(),
            final(self)@ == (ScenarioView {
                clients: old(self)@.clients.push(Participant::plain(name@)),
                ..old(self)@
            }),
    {
        let idx = self.scenario.clients.len();
        self.scenario.clients.push(Client { name: name.to_owned(), configuration: BTreeMap::new() });
        assert(self@.clients =~= old(self)@.clients.push(Participant::plain(name@)));
        idx
    }

    /// Adds a server called `name`, without settings, and returns its position among the servers.
    pub fn server(&mut self, name: &str) -> (idx: usize)
        ensures
            idx == old(self)@.servers.len(),
            final(self)@ == (ScenarioView {
                servers: old(self)@.servers.push(Participant::plain(name@)),
                ..old(self)@
            }),
    {
        let idx = self.scenario.servers.len();
        self.scenario.servers.push(Server { name: name.to_owned(), configuration: BTreeMap::new() });
        assert(self@.servers =~= old(self)@.servers.push(Participant::plain(name@)));
        idx
    }

    /// Adds a router called `name`, without settings, and returns its position among the routers.
    pub fn router(&mut self, name: &str) -> (idx: usize)
        ensures
            idx == old(self)@.routers.len(),
            final(self)@ == (ScenarioView {
                routers: old(self)@.routers.push(Participant::plain(name@)),
                ..old(self)@
            }),
    {
        let idx = self.scenario.routers.len();
        self.scenario.routers.push(Router { name: name.to_owned(), configuration: BTreeMap::new() });
        assert(self@.routers =~= old(self)@.routers.push(Participant::plain(name@)));
        idx
    }

    /// Adds the trace `name`.
    pub fn trace(&mut self, name: &str)
        ensures
            final(self)@ == (ScenarioView { traces: old(self)@.traces.push(name@), ..old(self)@ }),
    {
        self.scenario.traces.push(name.to_owned());
        assert(self@.traces =~= old(self)@.traces.push(name@));
    }

    /// The scenario as it was put together.
    pub fn finish(self) -> (r: Scenario)
        ensures
            r@ == self@,
    {
        self.scenario
    }
}

} // verus!
