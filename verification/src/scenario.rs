//! Benchmark scenarios and the host names of their participants.
//!
//! A scenario lists clients, servers and routers. Each of them runs as one
//! service, whose host name is made of its position in the list, its role,
//! and its own name, or the scenario's id where it has no name.

pub mod builder;

pub use crate::scenario::builder::Builder;
use crate::text::{decimal, push_decimal};
use std::collections::BTreeMap;
use vstd::prelude::*;

verus! {

/// The identifier of a scenario.
#[derive(Clone, Debug, Default, Hash)]
pub struct Id {
    pub value: String,
}

/// One service of a composition.
#[derive(Clone, Debug)]
pub struct Service {
    pub hostname: Option<String>,
}

/// The services that run a scenario.
#[derive(Clone, Debug)]
pub struct Compose {
    pub services: Vec<Service>,
}

/// A benchmark scenario.
#[derive(Clone, Debug, Default, Hash)]
pub struct Scenario {
    pub id: Id,
    pub clients: Vec<Client>,
    pub servers: Vec<Server>,
    pub routers: Vec<Router>,
    pub traces: Vec<String>,
}

/// A client of a scenario.
#[derive(Clone, Debug, Default, Hash)]
pub struct Client {
    pub name: String,
    pub configuration: BTreeMap<String, String>,
}

/// A server of a scenario.
#[derive(Clone, Debug, Default, Hash)]
pub struct Server {
    pub name: String,
    pub configuration: BTreeMap<String, String>,
}

/// A router of a scenario.
#[derive(Clone, Debug, Hash)]
pub struct Router {
    pub name: String,
    pub configuration: BTreeMap<String, String>,
}

/// A client, server or router as a value: its name and its settings.
pub struct Participant {
    pub name: Seq<char>,
    pub configuration: Map<String, String>,
}

impl Participant {
    /// The participant called `name` with no setting.
    pub open spec fn plain(name: Seq<char>) -> Participant {
        Participant { name, configuration: Map::empty() }
    }
}

/// A scenario as a value: its id, its clients, servers and routers in order,
/// and its traces.
pub struct ScenarioView {
    pub id: Seq<char>,
    pub clients: Seq<Participant>,
    pub servers: Seq<Participant>,
    pub routers: Seq<Participant>,
    pub traces: Seq<Seq<char>>,
}

impl ScenarioView {
    /// The scenario without an id and without participants.
    pub open spec fn empty() -> ScenarioView {
        ScenarioView {
            id: Seq::empty(),
            clients: Seq::empty(),
            servers: Seq::empty(),
            routers: Seq::empty(),
            traces: Seq::empty(),
        }
    }
}

impl View for Client {
    type V = Participant;

    open spec fn view(&self) -> Participant {
        Participant { name: self.name@, configuration: self.configuration@ }
    }
}

impl View for Server {
    type V = Participant;

    open spec fn view(&self) -> Participant {
        Participant { name: self.name@, configuration: self.configuration@ }
    }
}

impl View for Router {
    type V = Participant;

    open spec fn view(&self) -> Participant {
        Participant { name: self.name@, configuration: self.configuration@ }
    }
}

impl View for Scenario {
    type V = ScenarioView;

    open spec fn view(&self) -> ScenarioView {
        ScenarioView {
            id: self.id.value@,
            clients: self.clients@.map_values(|c: Client| c@),
            servers: self.servers@.map_values(|s: Server| s@),
            routers: self.routers@.map_values(|r: Router| r@),
            traces: self.traces@.map_values(|t: String| t@),
        }
    }
}

/// The host name of participant number `idx` in the role `role`, labelled
/// `label`: the number in decimal, the role and the label, with dots between.
pub open spec fn host_name(idx: nat, role: Seq<char>, label: Seq<char>) -> Seq<char> {
    decimal(idx) + "."@ + role + "."@ + label
}

/// The label of a participant called `name` in the scenario `id`: its name,
/// or the id where the name is empty.
pub open spec fn label_of(name: Seq<char>, id: Seq<char>) -> Seq<char> {
    if name.len() == 0 {
        id
    } else {
        name
    }
}

/// Builds the host name of participant number `idx`.
fn host(idx: usize, role: &str, name: &String, id: &Id) -> (r: String)
    ensures
        r@ == host_name(idx as nat, role@, label_of(name@, id.value@)),
{
    let mut out = String::new();
    push_decimal(&mut out, idx as u64);
    out.append(".");
    out.append(role);
    out.append(".");
    if name.as_str().is_empty() {
        out.append(id.value.as_str());
    } else {
        out.append(name.as_str());
    }
    out
}

impl Default for Service {
    fn default() -> (r: Service)
        ensures
            r.hostname is None,
    {
        Service { hostname: None }
    }
}

impl Default for Compose {
    fn default() -> (r: Compose)
        ensures
            r.services@.len() == 0,
    {
        Compose { services: Vec::new() }
    }
}

impl Scenario {
    /// The scenario that `f` describes to a fresh builder.
    pub fn build<F: FnOnce(&mut Builder)>(f: F) -> (r: Scenario)
        requires
            forall|b: &mut Builder| b@ == ScenarioView::empty() ==> f.requires((b,)),
        ensures
            exists|b: &mut Builder|
                b@ == ScenarioView::empty() && #[trigger] f.ensures((b,), ()) && r@ == final(b)@,
    {
        let mut builder = Builder::new();
        f(&mut builder);
        builder.finish()
    }

    /// The composition of the scenario: no service is placed in it yet.
    pub fn compose(&self) -> (r: Compose)
        ensures
            r.services@.len() == 0,
    {
        Compose::default()
    }
}

impl Client {
    /// The service that runs this client, the `idx`-th of the scenario `id`.
    pub fn compose(&self, id: &Id, idx: usize) -> (r: Service)
        ensures
            r.hostname matches Some(h) && h@ == host_name(
                idx as nat,
                "client"@,
                label_of(self.name@, id.value@),
            ),
    {
        Service { hostname: Some(host(idx, "client", &self.name, id)) }
    }
}

impl Server {
    /// The service that runs this server, the `idx`-th of the scenario `id`.
    pub fn compose(&self, id: &Id, idx: usize) -> (r: Service)
        ensures
            r.hostname matches Some(h) && h@ == host_name(
                idx as nat,
                "server"@,
                label_of(self.name@, id.value@),
            ),
    {
        Service { hostname: Some(host(idx, "server", &self.name, id)) }
    }
}

impl Router {
    /// The service that runs this router, the `idx`-th of the scenario `id`.
    pub fn compose(&self, id: &Id, idx: usize) -> (r: Service)
        ensures
            r.hostname matches Some(h) && h@ == host_name(
                idx as nat,
                "router"@,
                label_of(self.name@, id.value@),
            ),
    {
        Service { hostname: Some(host(idx, "router", &self.name, id)) }
    }
}

} // verus!
