//! The inspection points of the filtering engine at which filters are
//! installed, and what each of them can evaluate.

use vstd::prelude::*;

verus! {

/// A stage of the engine's pipeline, whatever the IP version.
#[derive(Clone, Copy, Debug, PartialEq, Eq, Structural)]
pub enum InspectionPoint {
    /// Authorization of an outbound connection.
    AuthConnect,
    /// Authorization of an inbound connection or packet.
    AuthRecvAccept,
    /// Authorization of listening on a port.
    AuthListen,
    ResourceAssignment,
    ResourceRelease,
    /// Closure of an endpoint.
    EndpointClosure,
    ConnectRedirect,
    BindRedirect,
    OutboundTransport,
    InboundTransport,
}

/// The IP version of a layer.
#[derive(Clone, Copy, Debug, PartialEq, Eq, Structural)]
pub enum IpFamily {
    V4,
    V6,
}

/// A layer of the engine: an inspection point for one IP version.
#[derive(Clone, Copy, Debug, PartialEq, Eq, Structural)]
pub struct Layer {
    pub point: InspectionPoint,
    pub family: IpFamily,
}

/// How far an inspection point can evaluate the identity of the
/// application.
#[derive(Clone, Copy, Debug, PartialEq, Eq, Structural)]
pub enum IdentitySupport {
    /// Identity conditions work, also beside a remote-address condition.
    WithRemoteAddress,
    /// Identity conditions work, but not beside a remote-address condition.
    WithoutRemoteAddress,
    /// Identity conditions are not used at this point.
    Unsupported,
}

/// The table of what has been observed of the engine: which inspection
/// points evaluate an identity condition, and which of them still do so
/// beside a remote-address condition.
pub open spec fn identity_support(point: InspectionPoint) -> IdentitySupport {
    match point {
        InspectionPoint::AuthConnect => IdentitySupport::WithRemoteAddress,
        InspectionPoint::AuthRecvAccept => IdentitySupport::WithRemoteAddress,
        InspectionPoint::EndpointClosure => IdentitySupport::WithRemoteAddress,
        InspectionPoint::ConnectRedirect => IdentitySupport::WithRemoteAddress,
        InspectionPoint::AuthListen => IdentitySupport::WithoutRemoteAddress,
        InspectionPoint::ResourceAssignment => IdentitySupport::Unsupported,
        InspectionPoint::ResourceRelease => IdentitySupport::Unsupported,
        InspectionPoint::BindRedirect => IdentitySupport::Unsupported,
        InspectionPoint::OutboundTransport => IdentitySupport::Unsupported,
        InspectionPoint::InboundTransport => IdentitySupport::Unsupported,
    }
}

/// Whether a filter at `point` carries the identity condition of a rule
/// that has an identity, given whether the rule has a remote-address spec.
pub open spec fn takes_identity(point: InspectionPoint, has_remote_address: bool) -> bool {
    match identity_support(point) {
        IdentitySupport::WithRemoteAddress => true,
        IdentitySupport::WithoutRemoteAddress => !has_remote_address,
        IdentitySupport::Unsupported => false,
    }
}

/// The name of a layer.
pub open spec fn layer_name(layer: Layer) -> Seq<char> {
    match (layer.point, layer.family) {
        (InspectionPoint::AuthConnect, IpFamily::V4) => "ALE_AUTH_CONNECT_V4"@,
        (InspectionPoint::AuthConnect, IpFamily::V6) => "ALE_AUTH_CONNECT_V6"@,
        (InspectionPoint::AuthRecvAccept, IpFamily::V4) => "ALE_AUTH_RECV_ACCEPT_V4"@,
        (InspectionPoint::AuthRecvAccept, IpFamily::V6) => "ALE_AUTH_RECV_ACCEPT_V6"@,
        (InspectionPoint::AuthListen, IpFamily::V4) => "ALE_AUTH_LISTEN_V4"@,
        (InspectionPoint::AuthListen, IpFamily::V6) => "ALE_AUTH_LISTEN_V6"@,
        (InspectionPoint::ResourceAssignment, IpFamily::V4) => "ALE_RESOURCE_ASSIGNMENT_V4"@,
        (InspectionPoint::ResourceAssignment, IpFamily::V6) => "ALE_RESOURCE_ASSIGNMENT_V6"@,
        (InspectionPoint::ResourceRelease, IpFamily::V4) => "ALE_RESOURCE_RELEASE_V4"@,
        (InspectionPoint::ResourceRelease, IpFamily::V6) => "ALE_RESOURCE_RELEASE_V6"@,
        (InspectionPoint::EndpointClosure, IpFamily::V4) => "ALE_ENDPOINT_CLOSURE_V4"@,
        (InspectionPoint::EndpointClosure, IpFamily::V6) => "ALE_ENDPOINT_CLOSURE_V6"@,
        (InspectionPoint::ConnectRedirect, IpFamily::V4) => "ALE_CONNECT_REDIRECT_V4"@,
        (InspectionPoint::ConnectRedirect, IpFamily::V6) => "ALE_CONNECT_REDIRECT_V6"@,
        (InspectionPoint::BindRedirect, IpFamily::V4) => "ALE_BIND_REDIRECT_V4"@,
        (InspectionPoint::BindRedirect, IpFamily::V6) => "ALE_BIND_REDIRECT_V6"@,
        (InspectionPoint::OutboundTransport, IpFamily::V4) => "OUTBOUND_TRANSPORT_V4"@,
        (InspectionPoint::OutboundTransport, IpFamily::V6) => "OUTBOUND_TRANSPORT_V6"@,
        (InspectionPoint::InboundTransport, IpFamily::V4) => "INBOUND_TRANSPORT_V4"@,
        (InspectionPoint::InboundTransport, IpFamily::V6) => "INBOUND_TRANSPORT_V6"@,
    }
}

impl InspectionPoint {
    /// Looks the point up in the table of identity support.
    pub fn identity_support(&self) -> (support: IdentitySupport)
        ensures
            support == identity_support(*self),
    {
        match self {
            InspectionPoint::AuthConnect => IdentitySupport::WithRemoteAddress,
            InspectionPoint::AuthRecvAccept => IdentitySupport::WithRemoteAddress,
            InspectionPoint::EndpointClosure => IdentitySupport::WithRemoteAddress,
            InspectionPoint::ConnectRedirect => IdentitySupport::WithRemoteAddress,
            InspectionPoint::AuthListen => IdentitySupport::WithoutRemoteAddress,
            InspectionPoint::ResourceAssignment => IdentitySupport::Unsupported,
            InspectionPoint::ResourceRelease => IdentitySupport::Unsupported,
            InspectionPoint::BindRedirect => IdentitySupport::Unsupported,
            InspectionPoint::OutboundTransport => IdentitySupport::Unsupported,
            InspectionPoint::InboundTransport => IdentitySupport::Unsupported,
        }
    }

    /// Whether a filter at this point carries the identity condition of a
    /// rule that has an identity.
    pub fn takes_identity(&self, has_remote_address: bool) -> (takes: bool)
        ensures
            takes == takes_identity(*self, has_remote_address),
    {
        match self.identity_support() {
            IdentitySupport::WithRemoteAddress => true,
            IdentitySupport::WithoutRemoteAddress => !has_remote_address,
            IdentitySupport::Unsupported => false,
        }
    }
}

impl Layer {
    /// The layer's name.
    pub fn name(&self) -> (name: &'static str)
        ensures
            name@ == layer_name(*self),
    {
        match (self.point, self.family) {
            (InspectionPoint::AuthConnect, IpFamily::V4) => "ALE_AUTH_CONNECT_V4",
            (InspectionPoint::AuthConnect, IpFamily::V6) => "ALE_AUTH_CONNECT_V6",
            (InspectionPoint::AuthRecvAccept, IpFamily::V4) => "ALE_AUTH_RECV_ACCEPT_V4",
            (InspectionPoint::AuthRecvAccept, IpFamily::V6) => "ALE_AUTH_RECV_ACCEPT_V6",
            (InspectionPoint::AuthListen, IpFamily::V4) => "ALE_AUTH_LISTEN_V4",
            (InspectionPoint::AuthListen, IpFamily::V6) => "ALE_AUTH_LISTEN_V6",
            (InspectionPoint::ResourceAssignment, IpFamily::V4) => "ALE_RESOURCE_ASSIGNMENT_V4",
            (InspectionPoint::ResourceAssignment, IpFamily::V6) => "ALE_RESOURCE_ASSIGNMENT_V6",
            (InspectionPoint::ResourceRelease, IpFamily::V4) => "ALE_RESOURCE_RELEASE_V4",
            (InspectionPoint::ResourceRelease, IpFamily::V6) => "ALE_RESOURCE_RELEASE_V6",
            (InspectionPoint::EndpointClosure, IpFamily::V4) => "ALE_ENDPOINT_CLOSURE_V4",
            (InspectionPoint::EndpointClosure, IpFamily::V6) => "ALE_ENDPOINT_CLOSURE_V6",
            (InspectionPoint::ConnectRedirect, IpFamily::V4) => "ALE_CONNECT_REDIRECT_V4",
            (InspectionPoint::ConnectRedirect, IpFamily::V6) => "ALE_CONNECT_REDIRECT_V6",
            (InspectionPoint::BindRedirect, IpFamily::V4) => "ALE_BIND_REDIRECT_V4",
            (InspectionPoint::BindRedirect, IpFamily::V6) => "ALE_BIND_REDIRECT_V6",
            (InspectionPoint::OutboundTransport, IpFamily::V4) => "OUTBOUND_TRANSPORT_V4",
            (InspectionPoint::OutboundTransport, IpFamily::V6) => "OUTBOUND_TRANSPORT_V6",
            (InspectionPoint::InboundTransport, IpFamily::V4) => "INBOUND_TRANSPORT_V4",
            (InspectionPoint::InboundTransport, IpFamily::V6) => "INBOUND_TRANSPORT_V6",
        }
    }
}

} // verus!
