//! The discovery pass: from the configured upstreams and what was observed
//! of them to the set of backends and the route table.

use crate::address::{addr_text, format_addr, key_addr, key_of, Backend, BackendKey, ParsedAddr};
use crate::config::{routes_view, BackendMapping, Config, ProxyService};
use crate::error::{DiscoveryError, Failure};
use crate::laws::{lemma_add_endpoint_wf, lemma_containers_consistent, lemma_pass_consistent};
use std::collections::BTreeSet;
use std::collections::HashMap;
use vstd::prelude::*;
use vstd::string::StringExecFns;

verus! {

broadcast use {vstd::std_specs::btree::group_btree_axioms, vstd::laws_cmp::group_laws_cmp};

/// A container that the engine listed for a label, with the address it was
/// given and what parsing the text of that address and the upstream's port gave.
#[derive(Clone, Debug, PartialEq, Eq)]
pub struct Container {
    pub id: String,
    /// The container's IP address; empty while it has none.
    pub ip: String,
    pub parsed: ParsedAddr,
}

/// What was observed of one upstream.
#[derive(Clone, Debug, PartialEq, Eq)]
pub enum Observation {
    /// Of a fixed host: what parsing the text of its address gave.
    Static { parsed: ParsedAddr },
    /// Of a label: the containers that carry it, in the engine's order.
    Containers { found: Vec<Container> },
}

/// What has to be found out of one upstream before the pass can take it.
#[derive(Clone, Debug, PartialEq, Eq)]
pub enum Query {
    /// Ask the container engine for the containers under this label filter.
    Containers { filter: String },
    /// Parse this address text.
    Static { text: String },
}

/// The label filter of an upstream: key, `=`, value.
pub open spec fn filter_text(ps: ProxyService) -> Seq<char> {
    ps.container_label_key@ + seq!['='] + ps.container_label_value@
}

/// The address text of a container with this IP address, or the failure of
/// the container with this id that has none.
pub open spec fn container_text(id: Seq<char>, ip: Seq<char>, port: u16) -> Result<
    Seq<char>,
    Failure,
> {
    if ip.len() == 0 {
        Err(Failure::ContainerNoIpAddress(id))
    } else {
        Ok(addr_text(ip, port))
    }
}

/// The state of a pass as mathematical values.
pub struct PassView {
    /// The backends found so far.
    pub backends: Set<BackendKey>,
    /// The route table so far: address text and path, in the order found.
    pub routes: Seq<(Seq<char>, Seq<char>)>,
    /// For each line of the route table, the backend at its address.
    pub resolved: Seq<BackendKey>,
}

impl PassView {
    /// The state in which a pass starts.
    pub open spec fn empty() -> PassView {
        PassView { backends: Set::empty(), routes: Seq::empty(), resolved: Seq::empty() }
    }

    /// The route table and the set of backends speak of the same addresses,
    /// and every backend has weight 1.
    pub open spec fn wf(self) -> bool {
        &&& self.resolved.len() == self.routes.len()
        &&& forall|i: int|
            0 <= i < self.resolved.len() ==> self.backends.contains(#[trigger] self.resolved[i])
        &&& forall|k: BackendKey| #[trigger]
            self.backends.contains(k) ==> k.5 == 1 && exists|i: int|
                0 <= i < self.resolved.len() && self.resolved[i] == k
    }

    /// The state after one more endpoint: its backend joins the set and its
    /// line the route table, or the pass fails on a text that names no backend.
    pub open spec fn add_endpoint(
        self,
        text: Seq<char>,
        parsed: ParsedAddr,
        path: Seq<char>,
    ) -> Result<PassView, Failure> {
        match key_of(parsed) {
            Some(k) => Ok(
                PassView {
                    backends: self.backends.insert(k),
                    routes: self.routes.push((text, path)),
                    resolved: self.resolved.push(k),
                },
            ),
            None => Err(Failure::SocketAddrParseError(text)),
        }
    }

    /// The state after one more container of an upstream with this port and path.
    pub open spec fn add_container(self, c: Container, port: u16, path: Seq<char>) -> Result<
        PassView,
        Failure,
    > {
        match container_text(c.id@, c.ip@, port) {
            Ok(text) => self.add_endpoint(text, c.parsed, path),
            Err(f) => Err(f),
        }
    }

    /// The state after the containers of one upstream, taken in order; the
    /// first failure is the result.
    pub open spec fn add_containers(self, found: Seq<Container>, port: u16, path: Seq<char>) -> Result<
        PassView,
        Failure,
    >
        decreases found.len(),
    {
        if found.len() == 0 {
            Ok(self)
        } else {
            match self.add_container(found[0], port, path) {
                Ok(next) => next.add_containers(found.drop_first(), port, path),
                Err(f) => Err(f),
            }
        }
    }

    /// The state after one upstream.
    pub open spec fn add_service(self, ps: ProxyService, ob: Observation) -> Result<
        PassView,
        Failure,
    > {
        match ob {
            Observation::Containers { found } => self.add_containers(found@, ps.port, ps.path@),
            Observation::Static { parsed } => self.add_endpoint(
                addr_text(ps.host@, ps.port),
                parsed,
                ps.path@,
            ),
        }
    }

    /// The state after the upstreams, taken in order; the first failure is
    /// the result.
    pub open spec fn add_services(
        self,
        services: Seq<ProxyService>,
        observed: Seq<Observation>,
    ) -> Result<PassView, Failure>
        decreases services.len(),
    {
        if services.len() == 0 || observed.len() == 0 {
            Ok(self)
        } else {
            match self.add_service(services[0], observed[0]) {
                Ok(next) => next.add_services(services.drop_first(), observed.drop_first()),
                Err(f) => Err(f),
            }
        }
    }
}

/// Whether a set of backends holds the backend of each of these containers.
pub open spec fn holds_each(backends: Set<BackendKey>, found: Seq<Container>) -> bool {
    forall|j: int|
        0 <= j < found.len() ==> key_of((#[trigger] found[j]).parsed) is Some && backends.contains(
            key_of(found[j].parsed).unwrap(),
        )
}

/// Whether a set of backends holds every backend that an observation names.
pub open spec fn serves(backends: Set<BackendKey>, ob: Observation) -> bool {
    match ob {
        Observation::Static { parsed } => key_of(parsed) is Some && backends.contains(
            key_of(parsed).unwrap(),
        ),
        Observation::Containers { found } => holds_each(backends, found@),
    }
}

/// No two backends of the set are at the same address.
pub open spec fn distinct_addresses(backends: Set<BackendKey>) -> bool {
    forall|a: BackendKey, b: BackendKey|
        backends.contains(a) && backends.contains(b) && key_addr(a) == key_addr(b) ==> a == b
}

/// The outcome of a whole pass over these upstreams.
pub open spec fn discovered(services: Seq<ProxyService>, observed: Seq<Observation>) -> Result<
    PassView,
    Failure,
> {
    PassView::empty().add_services(services, observed)
}

/// A pass in progress. It starts empty, takes endpoints one by one and is
/// finished into what the pass returns.
pub struct Pass {
    backends: BTreeSet<BackendKey>,
    routes: Vec<BackendMapping>,
    resolved: Vec<BackendKey>,
}

impl View for Pass {
    type V = PassView;

    closed spec fn view(&self) -> PassView {
        PassView {
            backends: self.backends@,
            routes: routes_view(self.routes@),
            resolved: self.resolved@,
        }
    }
}

impl Pass {
    /// A pass that has found nothing yet.
    pub fn new() -> (p: Pass)
        ensures
            p@ == PassView::empty(),
            p@.wf(),
    {
        let p = Pass { backends: BTreeSet::new(), routes: Vec::new(), resolved: Vec::new() };
        assert(routes_view(p.routes@) =~= Seq::empty());
        p
    }

    /// Takes one endpoint into the pass: `text` is the text of its address,
    /// `parsed` what parsing that text gave, `path` the path it serves.
    pub fn add_endpoint(&mut self, text: String, parsed: ParsedAddr, path: &String) -> (r: Result<
        (),
        DiscoveryError,
    >)
        requires
            old(self)@.wf(),
        ensures
            final(self)@.wf(),
            old(self)@.backends.subset_of(final(self)@.backends),
            match old(self)@.add_endpoint(text@, parsed, path@) {
                Ok(p) => r is Ok && final(self)@ == p,
                Err(f) => r matches Err(e) && e@ == f && final(self)@ == old(self)@,
            },
    {
        proof {
            lemma_add_endpoint_wf(self@, text@, parsed, path@);
        }
        match Backend::from_parsed(parsed) {
            Some(b) => {
                let ghost before = self.routes@;
                self.backends.insert(b.key());
                self.resolved.push(b.key());
                self.routes.push(BackendMapping { addr: text, path: path.clone() });
                assert(routes_view(self.routes@) =~= routes_view(before).push((text@, path@)));
                Ok(())
            },
            None => Err(DiscoveryError::SocketAddrParseError(text)),
        }
    }

    /// Ends the pass: what it found, with an empty readiness map.
    pub fn finish(self) -> (d: DiscoveryResult)
        ensures
            d@ == self@,
            d.readiness@ == Map::<u64, bool>::empty(),
    {
        DiscoveryResult {
            backends: self.backends,
            readiness: HashMap::new(),
            routes: self.routes,
            resolved: self.resolved,
        }
    }

    /// Takes the containers of one upstream into the pass, in order, and
    /// stops at the first that has no address or whose address names no backend.
    pub fn add_containers(&mut self, found: &Vec<Container>, port: u16, path: &String) -> (r:
        Result<(), DiscoveryError>)
        requires
            old(self)@.wf(),
        ensures
            final(self)@.wf(),
            old(self)@.backends.subset_of(final(self)@.backends),
            match old(self)@.add_containers(found@, port, path@) {
                Ok(p) => r is Ok && final(self)@ == p && holds_each(p.backends, found@),
                Err(f) => r matches Err(e) && e@ == f,
            },
    {
        let ghost start = self@;
        let mut j: usize = 0;
        proof {
            assert(found@.skip(0) =~= found@);
            lemma_containers_consistent(start, found@, port, path@);
        }
        while j < found.len()
            invariant
                j <= found.len(),
                start == old(self)@,
                self@.wf(),
                start.backends.subset_of(self@.backends),
                start.add_containers(found@, port, path@) == self@.add_containers(
                    found@.skip(j as int),
                    port,
                    path@,
                ),
            decreases found.len() - j,
        {
            let c = &found[j];
            proof {
                let rest = found@.skip(j as int);
                assert(rest[0] == found@[j as int]);
                assert(rest.drop_first() =~= found@.skip(j + 1));
            }
            let text = match SD::container_addr(&c.id, &c.ip, port) {
                Ok(text) => text,
                Err(e) => {
                    return Err(e);
                },
            };
            match self.add_endpoint(text, c.parsed, path) {
                Ok(()) => {},
                Err(e) => {
                    return Err(e);
                },
            }
            j += 1;
        }
        Ok(())
    }
}

/// What a pass returns: the backends in ascending order of address, the
/// readiness of backends (this component tracks none), and the route table
/// to be written, with the backend at the address of each of its lines.
pub struct DiscoveryResult {
    pub backends: BTreeSet<BackendKey>,
    pub readiness: HashMap<u64, bool>,
    pub routes: Vec<BackendMapping>,
    pub resolved: Vec<BackendKey>,
}

impl View for DiscoveryResult {
    type V = PassView;

    open spec fn view(&self) -> PassView {
        PassView {
            backends: self.backends@,
            routes: routes_view(self.routes@),
            resolved: self.resolved@,
        }
    }
}

/// The service discovery instance: the configuration it resolves.
pub struct SD {
    pub config: Config,
}

impl SD {
    /// Whether there is one observation for each configured upstream, of
    /// containers where the upstream asks for containers and of a fixed host
    /// where it names one.
    pub open spec fn fits(&self, observed: Seq<Observation>) -> bool {
        &&& observed.len() == self.config.proxy_services@.len()
        &&& forall|i: int|
            0 <= i < observed.len() ==> (#[trigger] self.config.proxy_services@[i]).use_container
                == (observed[i] is Containers)
    }

    /// Whether `observed` holds one observation for each configured
    /// upstream, each of the kind that the upstream asks for.
    pub fn fits_observed(&self, observed: &Vec<Observation>) -> (b: bool)
        ensures
            b == self.fits(observed@),
    {
        let services = &self.config.proxy_services;
        if observed.len() != services.len() {
            return false;
        }
        let mut i: usize = 0;
        while i < observed.len()
            invariant
                i <= observed.len(),
                services == &self.config.proxy_services,
                observed.len() == services.len(),
                forall|t: int|
                    0 <= t < i ==> (#[trigger] services@[t]).use_container
                        == (observed@[t] is Containers),
            decreases observed.len() - i,
        {
            let of_containers = match &observed[i] {
                Observation::Containers { .. } => true,
                Observation::Static { .. } => false,
            };
            if services[i].use_container != of_containers {
                assert(services@[i as int].use_container != (observed@[i as int] is Containers));
                return false;
            }
            i += 1;
        }
        true
    }

    /// What has to be found out of an upstream: its containers, where it
    /// asks for containers, else what the text of its address parses to.
    pub fn query(ps: &ProxyService) -> (q: Query)
        ensures
            match q {
                Query::Containers { filter } => ps.use_container && filter@ == filter_text(*ps),
                Query::Static { text } => !ps.use_container && text@ == addr_text(
                    ps.host@,
                    ps.port,
                ),
            },
    {
        if ps.use_container {
            Query::Containers { filter: SD::label_filter(ps) }
        } else {
            Query::Static { text: format_addr(ps.host.as_str(), ps.port) }
        }
    }

    /// The address text of a container of an upstream with this port; a
    /// container without an IP address is the failure.
    pub fn container_addr(id: &String, ip: &String, port: u16) -> (r: Result<String, DiscoveryError>)
        ensures
            match container_text(id@, ip@, port) {
                Ok(text) => r matches Ok(t) && t@ == text,
                Err(f) => r matches Err(e) && e@ == f,
            },
    {
        if ip.as_str().is_empty() {
            Err(DiscoveryError::ContainerNoIpAddress(id.clone()))
        } else {
            Ok(format_addr(ip.as_str(), port))
        }
    }

    /// The label filter that selects the containers of an upstream: key, `=`, value.
    pub fn label_filter(ps: &ProxyService) -> (r: String)
        ensures
            r@ == filter_text(*ps),
    {
        proof {
            reveal_strlit("=");
        }
        let r = ps.container_label_key.clone().concat("=").concat(
            ps.container_label_value.as_str(),
        );
        assert("="@ =~= seq!['=']);
        r
    }

    /// The backend at a host and a port, given what parsing the text of
    /// their address gave; a text that names no backend is the failure.
    pub fn to_socket_addr(&self, host: String, port: u16, parsed: ParsedAddr) -> (r: Result<
        Backend,
        DiscoveryError,
    >)
        ensures
            match key_of(parsed) {
                Some(k) => r matches Ok(b) && b.spec_key() == k,
                None => r matches Err(e) && e@ == Failure::SocketAddrParseError(
                    addr_text(host@, port),
                ),
            },
    {
        match Backend::from_parsed(parsed) {
            Some(b) => Ok(b),
            None => Err(DiscoveryError::SocketAddrParseError(format_addr(host.as_str(), port))),
        }
    }

    /// One discovery pass over the configured upstreams, in order, with what
    /// was observed of each. The first failure ends the pass, and then no
    /// backend and no route comes back.
    pub fn discover(&self, observed: &Vec<Observation>) -> (r: Result<
        DiscoveryResult,
        DiscoveryError,
    >)
        requires
            self.fits(observed@),
        ensures
            match discovered(self.config.proxy_services@, observed@) {
                Ok(p) => r matches Ok(d) && {
                    &&& d@ == p
                    &&& d.readiness@ == Map::<u64, bool>::empty()
                    &&& p.wf()
                    &&& distinct_addresses(p.backends)
                    &&& forall|i: int|
                        0 <= i < observed@.len() ==> serves(p.backends, #[trigger] observed@[i])
                },
                Err(f) => r matches Err(e) && e@ == f,
            },
    {
        let services = &self.config.proxy_services;
        let mut pass = Pass::new();
        let mut i: usize = 0;
        assert(services@.skip(0) =~= services@);
        assert(observed@.skip(0) =~= observed@);
        while i < services.len()
            invariant
                i <= services.len(),
                services == &self.config.proxy_services,
                self.fits(observed@),
                pass@.wf(),
                discovered(services@, observed@) == pass@.add_services(
                    services@.skip(i as int),
                    observed@.skip(i as int),
                ),
            decreases services.len() - i,
        {
            let ps = &services[i];
            proof {
                let rest = services@.skip(i as int);
                let seen = observed@.skip(i as int);
                assert(rest[0] == services@[i as int]);
                assert(seen[0] == observed@[i as int]);
                assert(rest.drop_first() =~= services@.skip(i + 1));
                assert(seen.drop_first() =~= observed@.skip(i + 1));
            }
            let step = match &observed[i] {
                Observation::Containers { found } => pass.add_containers(found, ps.port, &ps.path),
                Observation::Static { parsed } => {
                    let text = format_addr(ps.host.as_str(), ps.port);
                    pass.add_endpoint(text, *parsed, &ps.path)
                },
            };
            match step {
                Ok(()) => {},
                Err(e) => {
                    return Err(e);
                },
            }
            i += 1;
        }
        proof {
            lemma_pass_consistent(services@, observed@);
        }
        Ok(pass.finish())
    }
}

} // verus!
