use service_discovery::address::{Backend, BackendKey, ParsedAddr};
use service_discovery::config::{BackendMapping, Config, ProxyService};
use service_discovery::discovery::{Container, DiscoveryResult, Observation, SD};
use service_discovery::error::DiscoveryError;

fn v4(a: u8, b: u8, c: u8, d: u8, port: u16) -> ParsedAddr {
    let ip = ((a as u32) << 24) | ((b as u32) << 16) | ((c as u32) << 8) | (d as u32);
    ParsedAddr::V4 { ip, port }
}

fn key4(a: u8, b: u8, c: u8, d: u8, port: u16) -> BackendKey {
    let ip = ((a as u128) << 24) | ((b as u128) << 16) | ((c as u128) << 8) | (d as u128);
    (4, ip, port, 0, 0, 1)
}

fn static_service(host: &str, port: u16, path: &str) -> ProxyService {
    ProxyService {
        use_container: false,
        container_label_key: String::new(),
        container_label_value: String::new(),
        host: host.to_string(),
        port,
        path: path.to_string(),
    }
}

fn container_service(key: &str, value: &str, port: u16, path: &str) -> ProxyService {
    ProxyService {
        use_container: true,
        container_label_key: key.to_string(),
        container_label_value: value.to_string(),
        host: String::new(),
        port,
        path: path.to_string(),
    }
}

fn sd(services: Vec<ProxyService>) -> SD {
    SD { config: Config { proxy_services: services, routes_path: "/tmp/routes".to_string() } }
}

fn container(id: &str, ip: &str, parsed: ParsedAddr) -> Container {
    Container { id: id.to_string(), ip: ip.to_string(), parsed }
}

fn mapping(addr: &str, path: &str) -> BackendMapping {
    BackendMapping { addr: addr.to_string(), path: path.to_string() }
}

fn keys(d: &DiscoveryResult) -> Vec<BackendKey> {
    d.backends.iter().copied().collect()
}

#[test]
fn static_only() {
    let sd = sd(vec![static_service("10.0.0.5", 8080, "/api")]);
    let d = sd.discover(&vec![Observation::Static { parsed: v4(10, 0, 0, 5, 8080) }]).unwrap();
    assert_eq!(keys(&d), vec![key4(10, 0, 0, 5, 8080)]);
    let b = Backend::from_key(keys(&d)[0]);
    assert_eq!(b.weight, 1);
    assert_eq!(b.port, 8080);
    assert_eq!(b.family, 4);
    assert_eq!(b.ip, 0x0a00_0005);
    assert_eq!(d.routes, vec![mapping("10.0.0.5:8080", "/api")]);
    assert!(d.readiness.is_empty());
}

#[test]
fn one_container_match() {
    let sd = sd(vec![container_service("app", "web", 80, "/")]);
    let found = vec![container("c1", "172.17.0.2", v4(172, 17, 0, 2, 80))];
    let d = sd.discover(&vec![Observation::Containers { found }]).unwrap();
    assert_eq!(keys(&d), vec![key4(172, 17, 0, 2, 80)]);
    assert_eq!(d.routes, vec![mapping("172.17.0.2:80", "/")]);
    assert!(d.readiness.is_empty());
}

#[test]
fn container_missing_ip() {
    let sd = sd(vec![container_service("app", "web", 80, "/")]);
    let found = vec![container("c1", "", ParsedAddr::Invalid)];
    let r = sd.discover(&vec![Observation::Containers { found }]);
    assert_eq!(r.err(), Some(DiscoveryError::ContainerNoIpAddress("c1".to_string())));
}

#[test]
fn container_missing_ip_is_told_before_its_address_is_read() {
    let sd = sd(vec![container_service("app", "web", 80, "/")]);
    let found = vec![container("c9", "", v4(172, 17, 0, 2, 80))];
    let r = sd.discover(&vec![Observation::Containers { found }]);
    assert_eq!(r.err(), Some(DiscoveryError::ContainerNoIpAddress("c9".to_string())));
}

#[test]
fn multiple_containers() {
    let sd = sd(vec![container_service("app", "api", 80, "/api")]);
    let found = vec![
        container("a", "172.17.0.2", v4(172, 17, 0, 2, 80)),
        container("b", "172.17.0.3", v4(172, 17, 0, 3, 80)),
        container("c", "172.17.0.4", v4(172, 17, 0, 4, 80)),
    ];
    let d = sd.discover(&vec![Observation::Containers { found }]).unwrap();
    assert_eq!(
        keys(&d),
        vec![key4(172, 17, 0, 2, 80), key4(172, 17, 0, 3, 80), key4(172, 17, 0, 4, 80)]
    );
    assert_eq!(
        d.routes,
        vec![
            mapping("172.17.0.2:80", "/api"),
            mapping("172.17.0.3:80", "/api"),
            mapping("172.17.0.4:80", "/api"),
        ]
    );
}

#[test]
fn backends_come_in_ascending_order_whatever_the_order_found() {
    let sd = sd(vec![container_service("app", "api", 80, "/api")]);
    let found = vec![
        container("c", "172.17.0.4", v4(172, 17, 0, 4, 80)),
        container("a", "172.17.0.2", v4(172, 17, 0, 2, 80)),
        container("b", "172.17.0.3", v4(172, 17, 0, 3, 80)),
    ];
    let d = sd.discover(&vec![Observation::Containers { found }]).unwrap();
    assert_eq!(
        keys(&d),
        vec![key4(172, 17, 0, 2, 80), key4(172, 17, 0, 3, 80), key4(172, 17, 0, 4, 80)]
    );
    assert_eq!(
        d.routes,
        vec![
            mapping("172.17.0.4:80", "/api"),
            mapping("172.17.0.2:80", "/api"),
            mapping("172.17.0.3:80", "/api"),
        ]
    );
    assert_eq!(
        d.resolved,
        vec![key4(172, 17, 0, 4, 80), key4(172, 17, 0, 2, 80), key4(172, 17, 0, 3, 80)]
    );
}

#[test]
fn duplicate_resolution() {
    let sd = sd(vec![
        container_service("app", "web", 8080, "/a"),
        static_service("10.0.0.5", 8080, "/b"),
    ]);
    let found = vec![container("c1", "10.0.0.5", v4(10, 0, 0, 5, 8080))];
    let observed = vec![
        Observation::Containers { found },
        Observation::Static { parsed: v4(10, 0, 0, 5, 8080) },
    ];
    let d = sd.discover(&observed).unwrap();
    assert_eq!(keys(&d), vec![key4(10, 0, 0, 5, 8080)]);
    assert_eq!(d.routes, vec![mapping("10.0.0.5:8080", "/a"), mapping("10.0.0.5:8080", "/b")]);
}

#[test]
fn parse_failure() {
    let sd = sd(vec![static_service("not a host", 8080, "/x")]);
    let r = sd.discover(&vec![Observation::Static { parsed: ParsedAddr::Invalid }]);
    assert_eq!(r.err(), Some(DiscoveryError::SocketAddrParseError("not a host:8080".to_string())));
}

#[test]
fn unix_socket_path_names_no_backend() {
    let sd = sd(vec![static_service("not a host", 8080, "/x")]);
    let r = sd.discover(&vec![Observation::Static { parsed: ParsedAddr::Unix }]);
    assert_eq!(r.err(), Some(DiscoveryError::SocketAddrParseError("not a host:8080".to_string())));
}

#[test]
fn container_address_that_does_not_parse() {
    let sd = sd(vec![container_service("app", "web", 80, "/")]);
    let found = vec![container("c1", "bogus", ParsedAddr::Invalid)];
    let r = sd.discover(&vec![Observation::Containers { found }]);
    assert_eq!(r.err(), Some(DiscoveryError::SocketAddrParseError("bogus:80".to_string())));
}

#[test]
fn first_failure_in_order_wins() {
    let sd = sd(vec![
        static_service("10.0.0.5", 8080, "/a"),
        container_service("app", "web", 80, "/b"),
        static_service("nope", 1, "/c"),
    ]);
    let found = vec![
        container("ok", "172.17.0.2", v4(172, 17, 0, 2, 80)),
        container("bare", "", ParsedAddr::Invalid),
    ];
    let observed = vec![
        Observation::Static { parsed: v4(10, 0, 0, 5, 8080) },
        Observation::Containers { found },
        Observation::Static { parsed: ParsedAddr::Invalid },
    ];
    let r = sd.discover(&observed);
    assert_eq!(r.err(), Some(DiscoveryError::ContainerNoIpAddress("bare".to_string())));
}

#[test]
fn empty_config_gives_empty_result() {
    let sd = sd(vec![]);
    let d = sd.discover(&vec![]).unwrap();
    assert!(d.backends.is_empty());
    assert!(d.routes.is_empty());
    assert!(d.resolved.is_empty());
    assert!(d.readiness.is_empty());
}

#[test]
fn label_without_containers_gives_nothing() {
    let sd = sd(vec![container_service("app", "none", 80, "/")]);
    let d = sd.discover(&vec![Observation::Containers { found: vec![] }]).unwrap();
    assert!(d.backends.is_empty());
    assert!(d.routes.is_empty());
}

#[test]
fn ipv4_comes_before_ipv6() {
    let sd = sd(vec![static_service("::1", 80, "/six"), static_service("255.255.255.255", 80, "/four")]);
    let observed = vec![
        Observation::Static { parsed: ParsedAddr::V6 { ip: 1, port: 80, flowinfo: 0, scope_id: 0 } },
        Observation::Static { parsed: v4(255, 255, 255, 255, 80) },
    ];
    let d = sd.discover(&observed).unwrap();
    assert_eq!(keys(&d), vec![key4(255, 255, 255, 255, 80), (6, 1, 80, 0, 0, 1)]);
    assert_eq!(d.routes, vec![mapping("::1:80", "/six"), mapping("255.255.255.255:80", "/four")]);
}

#[test]
fn same_ip_other_port_is_another_backend() {
    let sd = sd(vec![static_service("10.0.0.5", 81, "/a"), static_service("10.0.0.5", 80, "/b")]);
    let observed = vec![
        Observation::Static { parsed: v4(10, 0, 0, 5, 81) },
        Observation::Static { parsed: v4(10, 0, 0, 5, 80) },
    ];
    let d = sd.discover(&observed).unwrap();
    assert_eq!(keys(&d), vec![key4(10, 0, 0, 5, 80), key4(10, 0, 0, 5, 81)]);
}

#[test]
fn route_table_and_backends_speak_of_the_same_addresses() {
    let sd = sd(vec![
        container_service("app", "web", 80, "/a"),
        static_service("10.0.0.5", 8080, "/b"),
        static_service("10.0.0.5", 8080, "/c"),
    ]);
    let found = vec![
        container("x", "172.17.0.2", v4(172, 17, 0, 2, 80)),
        container("y", "172.17.0.2", v4(172, 17, 0, 2, 80)),
    ];
    let observed = vec![
        Observation::Containers { found },
        Observation::Static { parsed: v4(10, 0, 0, 5, 8080) },
        Observation::Static { parsed: v4(10, 0, 0, 5, 8080) },
    ];
    let d = sd.discover(&observed).unwrap();
    assert_eq!(d.routes.len(), 4);
    assert_eq!(d.resolved.len(), d.routes.len());
    for k in d.resolved.iter() {
        assert!(d.backends.contains(k));
    }
    for k in d.backends.iter() {
        assert!(d.resolved.contains(k));
        assert_eq!(k.5, 1);
    }
    let all = keys(&d);
    for (i, a) in all.iter().enumerate() {
        for (j, b) in all.iter().enumerate() {
            if i != j {
                assert_ne!((a.0, a.1, a.2, a.3, a.4), (b.0, b.1, b.2, b.3, b.4));
            }
        }
    }
    assert_eq!(all.len(), 2);
}
