//! What holds of every discovery pass.

use crate::address::{addr_text, key_of, BackendKey, ParsedAddr};
use crate::config::ProxyService;
use crate::discovery::{
    discovered, distinct_addresses, holds_each, serves, Container, Observation, PassView,
};
use crate::error::Failure;
use vstd::prelude::*;

verus! {

/// Taking the containers of an upstream may be cut at any place: the
/// outcome is that of the first part, followed, if it succeeded, by the rest.
pub proof fn lemma_containers_split(
    p: PassView,
    found: Seq<Container>,
    j: int,
    port: u16,
    path: Seq<char>,
)
    requires
        0 <= j <= found.len(),
    ensures
        p.add_containers(found, port, path) == match p.add_containers(found.take(j), port, path) {
            Ok(q) => q.add_containers(found.skip(j), port, path),
            Err(f) => Err(f),
        },
    decreases j,
{
    if j == 0 {
        assert(found.take(0) =~= Seq::<Container>::empty());
        assert(found.skip(0) =~= found);
    } else {
        let head = found.take(j);
        assert(head[0] == found[0]);
        assert(head.drop_first() =~= found.drop_first().take(j - 1));
        assert(found.skip(j) =~= found.drop_first().skip(j - 1));
        match p.add_container(found[0], port, path) {
            Ok(next) => lemma_containers_split(next, found.drop_first(), j - 1, port, path),
            Err(_) => {},
        }
    }
}

/// A pass may be cut after any upstream: the outcome is that of the first
/// part, followed, if it succeeded, by the rest.
pub proof fn lemma_services_split(
    p: PassView,
    services: Seq<ProxyService>,
    observed: Seq<Observation>,
    i: int,
)
    requires
        0 <= i <= services.len(),
        i <= observed.len(),
    ensures
        p.add_services(services, observed) == match p.add_services(
            services.take(i),
            observed.take(i),
        ) {
            Ok(q) => q.add_services(services.skip(i), observed.skip(i)),
            Err(f) => Err(f),
        },
    decreases i,
{
    if i == 0 {
        assert(services.take(0) =~= Seq::<ProxyService>::empty());
        assert(services.skip(0) =~= services);
        assert(observed.skip(0) =~= observed);
    } else {
        let head = services.take(i);
        let seen = observed.take(i);
        assert(head[0] == services[0]);
        assert(seen[0] == observed[0]);
        assert(head.drop_first() =~= services.drop_first().take(i - 1));
        assert(seen.drop_first() =~= observed.drop_first().take(i - 1));
        assert(services.skip(i) =~= services.drop_first().skip(i - 1));
        assert(observed.skip(i) =~= observed.drop_first().skip(i - 1));
        match p.add_service(services[0], observed[0]) {
            Ok(next) => lemma_services_split(
                next,
                services.drop_first(),
                observed.drop_first(),
                i - 1,
            ),
            Err(_) => {},
        }
    }
}

/// The outcome of a pass whose upstreams before the `i`-th succeeded is
/// the outcome of the `i`-th upstream, if that one fails.
proof fn lemma_failure_at(services: Seq<ProxyService>, observed: Seq<Observation>, i: int)
    requires
        0 <= i < services.len(),
        i < observed.len(),
        discovered(services.take(i), observed.take(i)) is Ok,
    ensures
        discovered(services.take(i), observed.take(i))->Ok_0.add_service(
            services[i],
            observed[i],
        ) matches Err(f) ==> discovered(services, observed) == Err::<PassView, Failure>(f),
{
    lemma_services_split(PassView::empty(), services, observed, i);
    assert(services.skip(i)[0] == services[i]);
    assert(observed.skip(i)[0] == observed[i]);
}

/// A container without an IP address fails the pass with its id, if
/// nothing before it failed.
pub proof fn lemma_container_without_ip_fails(
    services: Seq<ProxyService>,
    observed: Seq<Observation>,
    i: int,
    j: int,
)
    requires
        0 <= i < services.len(),
        i < observed.len(),
        observed[i] is Containers,
        0 <= j < observed[i]->found@.len(),
        observed[i]->found@[j].ip@.len() == 0,
        discovered(services.take(i), observed.take(i)) matches Ok(p) && p.add_containers(
            observed[i]->found@.take(j),
            services[i].port,
            services[i].path@,
        ) is Ok,
    ensures
        discovered(services, observed) == Err::<PassView, Failure>(
            Failure::ContainerNoIpAddress(observed[i]->found@[j].id@),
        ),
{
    let p = discovered(services.take(i), observed.take(i))->Ok_0;
    let found = observed[i]->found@;
    lemma_containers_split(p, found, j, services[i].port, services[i].path@);
    assert(found.skip(j)[0] == found[j]);
    lemma_failure_at(services, observed, i);
}

/// A container whose address names no backend fails the pass with the text
/// of that address, if nothing before it failed.
pub proof fn lemma_unparsed_container_fails(
    services: Seq<ProxyService>,
    observed: Seq<Observation>,
    i: int,
    j: int,
)
    requires
        0 <= i < services.len(),
        i < observed.len(),
        observed[i] is Containers,
        0 <= j < observed[i]->found@.len(),
        observed[i]->found@[j].ip@.len() > 0,
        key_of(observed[i]->found@[j].parsed) is None,
        discovered(services.take(i), observed.take(i)) matches Ok(p) && p.add_containers(
            observed[i]->found@.take(j),
            services[i].port,
            services[i].path@,
        ) is Ok,
    ensures
        discovered(services, observed) == Err::<PassView, Failure>(
            Failure::SocketAddrParseError(
                addr_text(observed[i]->found@[j].ip@, services[i].port),
            ),
        ),
{
    let p = discovered(services.take(i), observed.take(i))->Ok_0;
    let found = observed[i]->found@;
    lemma_containers_split(p, found, j, services[i].port, services[i].path@);
    assert(found.skip(j)[0] == found[j]);
    lemma_failure_at(services, observed, i);
}

/// A fixed host whose address names no backend fails the pass with the
/// text of that address, if nothing before it failed.
pub proof fn lemma_unparsed_host_fails(
    services: Seq<ProxyService>,
    observed: Seq<Observation>,
    i: int,
)
    requires
        0 <= i < services.len(),
        i < observed.len(),
        observed[i] matches Observation::Static { parsed } && key_of(parsed) is None,
        discovered(services.take(i), observed.take(i)) is Ok,
    ensures
        discovered(services, observed) == Err::<PassView, Failure>(
            Failure::SocketAddrParseError(addr_text(services[i].host@, services[i].port)),
        ),
{
    lemma_failure_at(services, observed, i);
}

/// Whether a container has an IP address that names a backend.
pub open spec fn sound_container(c: Container) -> bool {
    c.ip@.len() > 0 && key_of(c.parsed) is Some
}

/// Whether every endpoint of an observation names a backend.
pub open spec fn sound(ob: Observation) -> bool {
    match ob {
        Observation::Static { parsed } => key_of(parsed) is Some,
        Observation::Containers { found } => forall|j: int|
            0 <= j < found@.len() ==> sound_container(#[trigger] found@[j]),
    }
}

/// Taking the containers of an upstream succeeds exactly when each has an
/// IP address that names a backend.
pub proof fn lemma_containers_succeed(
    p: PassView,
    found: Seq<Container>,
    port: u16,
    path: Seq<char>,
)
    ensures
        p.add_containers(found, port, path) is Ok <==> forall|j: int|
            0 <= j < found.len() ==> sound_container(#[trigger] found[j]),
    decreases found.len(),
{
    if found.len() > 0 {
        let rest = found.drop_first();
        match p.add_container(found[0], port, path) {
            Ok(next) => {
                assert(sound_container(found[0]));
                lemma_containers_succeed(next, rest, port, path);
                if forall|j: int| 0 <= j < rest.len() ==> sound_container(#[trigger] rest[j]) {
                    assert forall|j: int| 0 <= j < found.len() implies sound_container(
                        #[trigger] found[j],
                    ) by {
                        if j > 0 {
                            assert(rest[j - 1] == found[j]);
                        }
                    }
                }
                if forall|j: int| 0 <= j < found.len() ==> sound_container(#[trigger] found[j]) {
                    assert forall|j: int| 0 <= j < rest.len() implies sound_container(
                        #[trigger] rest[j],
                    ) by {
                        assert(rest[j] == found[j + 1]);
                    }
                }
            },
            Err(_) => {
                assert(!sound_container(found[0]));
            },
        }
    }
}

/// From any state, the upstreams are all taken exactly when every endpoint
/// observed of them names a backend.
pub proof fn lemma_services_succeed(
    p: PassView,
    services: Seq<ProxyService>,
    observed: Seq<Observation>,
)
    requires
        services.len() == observed.len(),
    ensures
        p.add_services(services, observed) is Ok <==> forall|i: int|
            0 <= i < observed.len() ==> sound(#[trigger] observed[i]),
    decreases services.len(),
{
    if services.len() > 0 {
        let rest = observed.drop_first();
        if let Observation::Containers { found } = observed[0] {
            lemma_containers_succeed(p, found@, services[0].port, services[0].path@);
        }
        match p.add_service(services[0], observed[0]) {
            Ok(next) => {
                assert(sound(observed[0]));
                lemma_services_succeed(next, services.drop_first(), rest);
                if forall|i: int| 0 <= i < rest.len() ==> sound(#[trigger] rest[i]) {
                    assert forall|i: int| 0 <= i < observed.len() implies sound(
                        #[trigger] observed[i],
                    ) by {
                        if i > 0 {
                            assert(rest[i - 1] == observed[i]);
                        }
                    }
                }
                if forall|i: int| 0 <= i < observed.len() ==> sound(#[trigger] observed[i]) {
                    assert forall|i: int| 0 <= i < rest.len() implies sound(#[trigger] rest[i]) by {
                        assert(rest[i] == observed[i + 1]);
                    }
                }
            },
            Err(_) => {
                assert(!sound(observed[0]));
            },
        }
    }
}

/// A pass succeeds exactly when every endpoint observed names a backend:
/// each container has an IP address, and each address is an internet
/// socket address.
pub proof fn lemma_pass_succeeds(services: Seq<ProxyService>, observed: Seq<Observation>)
    requires
        services.len() == observed.len(),
    ensures
        discovered(services, observed) is Ok <==> forall|i: int|
            0 <= i < observed.len() ==> sound(#[trigger] observed[i]),
{
    lemma_services_succeed(PassView::empty(), services, observed);
}

/// Adding an endpoint keeps the route table and the set of backends in step.
pub proof fn lemma_add_endpoint_wf(p: PassView, text: Seq<char>, parsed: ParsedAddr, path: Seq<char>)
    requires
        p.wf(),
    ensures
        p.add_endpoint(text, parsed, path) matches Ok(q) ==> q.wf() && p.backends.subset_of(
            q.backends,
        ),
{
    if let Ok(q) = p.add_endpoint(text, parsed, path) {
        let k = key_of(parsed).unwrap();
        let n = p.resolved.len() as int;
        assert(q.resolved[n] == k);
        assert forall|i: int| 0 <= i < q.resolved.len() implies q.backends.contains(
            #[trigger] q.resolved[i],
        ) by {
            if i < n {
                assert(p.backends.contains(p.resolved[i]));
            }
        }
        assert forall|x: BackendKey| #[trigger] q.backends.contains(x) implies x.5 == 1
            && exists|i: int| 0 <= i < q.resolved.len() && q.resolved[i] == x by {
            if x == k {
                assert(q.resolved[n] == x);
            } else {
                assert(p.backends.contains(x));
                let i = choose|i: int| 0 <= i < p.resolved.len() && p.resolved[i] == x;
                assert(q.resolved[i] == x);
            }
        }
    }
}

/// A larger set of backends still holds what an observation names.
pub proof fn lemma_serves_grows(small: Set<BackendKey>, large: Set<BackendKey>, ob: Observation)
    requires
        serves(small, ob),
        small.subset_of(large),
    ensures
        serves(large, ob),
{
}

/// Where every backend has weight 1, no two are at the same address.
pub proof fn lemma_wf_distinct(p: PassView)
    requires
        p.wf(),
    ensures
        distinct_addresses(p.backends),
{
}

/// Taking the containers of an upstream keeps the route table and the set
/// of backends in step, loses no backend, and leaves the backend of each
/// container in the set.
pub proof fn lemma_containers_consistent(
    p: PassView,
    found: Seq<Container>,
    port: u16,
    path: Seq<char>,
)
    requires
        p.wf(),
    ensures
        p.add_containers(found, port, path) matches Ok(q) ==> q.wf() && p.backends.subset_of(
            q.backends,
        ) && holds_each(q.backends, found),
    decreases found.len(),
{
    if found.len() > 0 {
        let rest = found.drop_first();
        if let Ok(next) = p.add_container(found[0], port, path) {
            lemma_add_endpoint_wf(p, addr_text(found[0].ip@, port), found[0].parsed, path);
            lemma_containers_consistent(next, rest, port, path);
            if let Ok(q) = next.add_containers(rest, port, path) {
                assert(next.backends.contains(key_of(found[0].parsed).unwrap()));
                assert forall|j: int| 0 <= j < found.len() implies key_of(
                    (#[trigger] found[j]).parsed,
                ) is Some && q.backends.contains(key_of(found[j].parsed).unwrap()) by {
                    if j > 0 {
                        assert(rest[j - 1] == found[j]);
                    }
                }
            }
        }
    }
}

/// Taking upstreams keeps the route table and the set of backends in step,
/// loses no backend, and leaves in the set every backend observed of them.
pub proof fn lemma_services_consistent(
    p: PassView,
    services: Seq<ProxyService>,
    observed: Seq<Observation>,
)
    requires
        p.wf(),
    ensures
        p.add_services(services, observed) matches Ok(q) ==> q.wf() && p.backends.subset_of(
            q.backends,
        ) && forall|i: int|
            0 <= i < observed.len() && i < services.len() ==> serves(
                q.backends,
                #[trigger] observed[i],
            ),
    decreases services.len(),
{
    if services.len() > 0 && observed.len() > 0 {
        let rest = observed.drop_first();
        if let Ok(next) = p.add_service(services[0], observed[0]) {
            match observed[0] {
                Observation::Containers { found } => {
                    lemma_containers_consistent(p, found@, services[0].port, services[0].path@);
                },
                Observation::Static { parsed } => {
                    lemma_add_endpoint_wf(
                        p,
                        addr_text(services[0].host@, services[0].port),
                        parsed,
                        services[0].path@,
                    );
                    assert(next.backends.contains(key_of(parsed).unwrap()));
                },
            }
            assert(serves(next.backends, observed[0]));
            lemma_services_consistent(next, services.drop_first(), rest);
            if let Ok(q) = next.add_services(services.drop_first(), rest) {
                assert forall|i: int| 0 <= i < observed.len() && i < services.len() implies serves(
                    q.backends,
                    #[trigger] observed[i],
                ) by {
                    if i > 0 {
                        assert(rest[i - 1] == observed[i]);
                    } else {
                        lemma_serves_grows(next.backends, q.backends, observed[0]);
                    }
                }
            }
        }
    }
}

/// After a pass that succeeded, the lines of the route table and the
/// backends speak of the same addresses, no two backends share an address,
/// and the set holds the backend of every fixed host and of every container
/// observed.
pub proof fn lemma_pass_consistent(services: Seq<ProxyService>, observed: Seq<Observation>)
    ensures
        discovered(services, observed) matches Ok(p) ==> p.wf() && distinct_addresses(p.backends)
            && forall|i: int|
            0 <= i < observed.len() && i < services.len() ==> serves(
                p.backends,
                #[trigger] observed[i],
            ),
{
    lemma_services_consistent(PassView::empty(), services, observed);
    if let Ok(p) = discovered(services, observed) {
        lemma_wf_distinct(p);
    }
}

} // verus!
