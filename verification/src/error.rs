//! The ways in which a discovery pass fails.

use vstd::prelude::*;

verus! {

/// Why a discovery pass failed. Every failure ends the pass.
#[derive(Clone, Debug, PartialEq, Eq)]
pub enum DiscoveryError {
    /// The container engine could not be reached.
    EngineUnavailable,
    /// The container with this id has no IP address.
    ContainerNoIpAddress(String),
    /// This text is not the socket address of a backend.
    SocketAddrParseError(String),
    /// The route table could not be written.
    RouteTableWriteError,
}

/// A failure with its texts as sequences of characters.
pub enum Failure {
    EngineUnavailable,
    ContainerNoIpAddress(Seq<char>),
    SocketAddrParseError(Seq<char>),
    RouteTableWriteError,
}

impl View for DiscoveryError {
    type V = Failure;

    open spec fn view(&self) -> Failure {
        match self {
            DiscoveryError::EngineUnavailable => Failure::EngineUnavailable,
            DiscoveryError::ContainerNoIpAddress(id) => Failure::ContainerNoIpAddress(id@),
            DiscoveryError::SocketAddrParseError(text) => Failure::SocketAddrParseError(text@),
            DiscoveryError::RouteTableWriteError => Failure::RouteTableWriteError,
        }
    }
}

impl DiscoveryError {
    /// The message of this failure.
    pub fn message(&self) -> (r: String)
        ensures
            r@ == match self@ {
                Failure::EngineUnavailable => "ENGINE_UNAVAILABLE"@,
                Failure::ContainerNoIpAddress(id) => "CONTAINER_NO_IP_ADDRESS: "@ + id,
                Failure::SocketAddrParseError(text) =>
                    "SERVICE_DISCOVERY_SOCKET_ADDR_PARSE_ERROR: "@ + text,
                Failure::RouteTableWriteError => "ROUTE_TABLE_WRITE_ERROR"@,
            },
    {
        match self {
            DiscoveryError::EngineUnavailable => String::from_str("ENGINE_UNAVAILABLE"),
            DiscoveryError::ContainerNoIpAddress(id) => String::from_str(
                "CONTAINER_NO_IP_ADDRESS: ",
            ).concat(id.as_str()),
            DiscoveryError::SocketAddrParseError(text) => String::from_str(
                "SERVICE_DISCOVERY_SOCKET_ADDR_PARSE_ERROR: ",
            ).concat(text.as_str()),
            DiscoveryError::RouteTableWriteError => String::from_str("ROUTE_TABLE_WRITE_ERROR"),
        }
    }
}

} // verus!
