//! The configuration that a discovery pass reads.

use vstd::prelude::*;

verus! {

/// A declared upstream: containers chosen by a label, or one fixed host.
#[derive(Clone, Debug, PartialEq, Eq)]
pub struct ProxyService {
    /// Whether the upstream is resolved from containers or from `host`.
    pub use_container: bool,
    pub container_label_key: String,
    pub container_label_value: String,
    pub host: String,
    /// The TCP port of every address that this upstream resolves to.
    pub port: u16,
    /// The prefix of the request paths that this upstream serves.
    pub path: String,
}

/// A snapshot of the configuration.
#[derive(Clone, Debug, PartialEq, Eq)]
pub struct Config {
    pub proxy_services: Vec<ProxyService>,
    /// Where the route table is written.
    pub routes_path: String,
}

/// One line of the route table: an address text and the path it serves.
#[derive(Clone, Debug, PartialEq, Eq)]
pub struct BackendMapping {
    pub addr: String,
    pub path: String,
}

impl View for BackendMapping {
    type V = (Seq<char>, Seq<char>);

    open spec fn view(&self) -> (Seq<char>, Seq<char>) {
        (self.addr@, self.path@)
    }
}

/// A route table as a sequence of pairs of texts.
pub open spec fn routes_view(routes: Seq<BackendMapping>) -> Seq<(Seq<char>, Seq<char>)> {
    Seq::new(routes.len(), |i: int| routes[i]@)
}

} // verus!
