//! Which layers a rule is installed at.

use vstd::prelude::*;
use crate::layer::{identity_support, IdentitySupport, InspectionPoint, IpFamily, Layer};
use crate::network::{address_spec_of, lemma_spec_family, AddressSpec};
use crate::rule::{Direction, FilterRule, RuleFields};
use crate::text::contains_char;

verus! {

/// Whether an address spec is written in the IPv6 form: it holds a colon.
pub open spec fn written_as_v6(text: Option<Seq<char>>) -> bool {
    match text {
        Some(t) => t.contains(':'),
        None => false,
    }
}

/// The IP versions a rule is installed for. A rule without any address
/// spec is installed for both; otherwise for IPv6 if one of its address
/// specs is written in the IPv6 form, and for IPv4 if none is.
pub open spec fn families_of(rule: RuleFields) -> Seq<IpFamily> {
    if rule.local is None && rule.remote is None {
        seq![IpFamily::V4, IpFamily::V6]
    } else if written_as_v6(rule.local) || written_as_v6(rule.remote) {
        seq![IpFamily::V6]
    } else {
        seq![IpFamily::V4]
    }
}

/// The inspection points at which traffic of one direction is authorized.
pub open spec fn authorization_points(direction: Direction) -> Seq<InspectionPoint> {
    match direction {
        Direction::Outbound => seq![InspectionPoint::AuthConnect],
        Direction::Inbound => seq![InspectionPoint::AuthRecvAccept],
        Direction::Both => seq![InspectionPoint::AuthConnect, InspectionPoint::AuthRecvAccept],
    }
}

/// Whether a rule carries both an identity and a remote-address spec.
pub open spec fn joins_identity_and_remote(rule: RuleFields) -> bool {
    rule.app_path is Some && rule.remote is Some
}

/// The inspection points a rule is installed at: those that authorize
/// traffic of its direction and, for a rule with both an identity and a
/// remote-address spec, the closure of endpoints after them.
pub open spec fn points_of(rule: RuleFields) -> Seq<InspectionPoint> {
    if joins_identity_and_remote(rule) {
        authorization_points(rule.direction).push(InspectionPoint::EndpointClosure)
    } else {
        authorization_points(rule.direction)
    }
}

/// The layers of the given points for one IP version, in the points' order.
pub open spec fn layers_on(points: Seq<InspectionPoint>, family: IpFamily) -> Seq<Layer> {
    Seq::new(points.len(), |i: int| Layer { point: points[i], family })
}

/// The layers a rule is installed at: its points for each of its IP
/// versions, IPv4 first.
pub open spec fn layers_of(rule: RuleFields) -> Seq<Layer> {
    let families = families_of(rule);
    if families.len() == 2 {
        layers_on(points_of(rule), families[0]) + layers_on(points_of(rule), families[1])
    } else {
        layers_on(points_of(rule), families[0])
    }
}

/// Whether an optional address spec is written in the IPv6 form.
fn spec_written_as_v6(text: &Option<String>) -> (v6: bool)
    ensures
        v6 == written_as_v6(crate::rule::text_of(*text)),
{
    match text {
        Some(t) => contains_char(t.as_str(), ':'),
        None => false,
    }
}

/// Appends the layers of the rule's points for one IP version.
fn push_layers(layers: &mut Vec<Layer>, rule: &FilterRule, family: IpFamily)
    ensures
        final(layers)@ == old(layers)@ + layers_on(points_of(rule@), family),
{
    let ghost before = layers@;
    match rule.direction {
        Direction::Outbound => {
            layers.push(Layer { point: InspectionPoint::AuthConnect, family });
        },
        Direction::Inbound => {
            layers.push(Layer { point: InspectionPoint::AuthRecvAccept, family });
        },
        Direction::Both => {
            layers.push(Layer { point: InspectionPoint::AuthConnect, family });
            layers.push(Layer { point: InspectionPoint::AuthRecvAccept, family });
        },
    }
    if rule.app_path.is_some() && rule.remote.is_some() {
        layers.push(Layer { point: InspectionPoint::EndpointClosure, family });
    }
    assert(layers@ =~= before + layers_on(points_of(rule@), family));
}

/// Selects the layers at which `rule` is installed.
pub fn select_layers(rule: &FilterRule) -> (layers: Vec<Layer>)
    ensures
        layers@ == layers_of(rule@),
{
    let mut layers: Vec<Layer> = Vec::new();
    if rule.local.is_none() && rule.remote.is_none() {
        push_layers(&mut layers, rule, IpFamily::V4);
        push_layers(&mut layers, rule, IpFamily::V6);
    } else if spec_written_as_v6(&rule.local) || spec_written_as_v6(&rule.remote) {
        push_layers(&mut layers, rule, IpFamily::V6);
    } else {
        push_layers(&mut layers, rule, IpFamily::V4);
    }
    assert(layers@ =~= layers_of(rule@));
    layers
}

/// A rule with both an identity and a remote-address spec is installed
/// only at points that evaluate the two together; in particular never at
/// a point where listening is authorized.
pub proof fn lemma_joined_rule_avoids_listen(rule: RuleFields)
    requires
        joins_identity_and_remote(rule),
    ensures
        forall|i: int|
            0 <= i < layers_of(rule).len() ==> identity_support(
                (#[trigger] layers_of(rule)[i]).point,
            ) == IdentitySupport::WithRemoteAddress,
        forall|i: int|
            0 <= i < layers_of(rule).len() ==> (#[trigger] layers_of(rule)[i]).point
                != InspectionPoint::AuthListen,
{
}

/// A rule without any address spec is installed for both IP versions at
/// every point that authorizes traffic of its direction, and nowhere else.
pub proof fn lemma_unaddressed_rule_covers_both_families(rule: RuleFields)
    requires
        rule.local is None,
        rule.remote is None,
    ensures
        forall|k: int|
            0 <= k < authorization_points(rule.direction).len() ==> layers_of(rule).contains(
                Layer {
                    point: #[trigger] authorization_points(rule.direction)[k],
                    family: IpFamily::V4,
                },
            ) && layers_of(rule).contains(
                Layer { point: authorization_points(rule.direction)[k], family: IpFamily::V6 },
            ),
        layers_of(rule).len() == 2 * authorization_points(rule.direction).len(),
{
    let points = authorization_points(rule.direction);
    let layers = layers_of(rule);
    assert forall|k: int| 0 <= k < points.len() implies layers.contains(
        Layer { point: #[trigger] points[k], family: IpFamily::V4 },
    ) && layers.contains(Layer { point: points[k], family: IpFamily::V6 }) by {
        assert(layers[k] == Layer { point: points[k], family: IpFamily::V4 });
        assert(layers[points.len() + k] == Layer { point: points[k], family: IpFamily::V6 });
    }
}

/// Whether an address spec denotes an address or a network of IPv6.
pub open spec fn denotes_v6(text: Option<Seq<char>>) -> bool {
    match text {
        Some(t) => match address_spec_of(t) {
            AddressSpec::Single(ip) => ip is V6,
            AddressSpec::Network(network) => network.ip is V6,
            AddressSpec::Unreadable => false,
        },
        None => false,
    }
}

/// In a rule that passes validation, an address spec is written in the
/// IPv6 form exactly when it denotes an address or a network of IPv6: the
/// rule is installed for the family that its addresses are of.
pub proof fn lemma_written_family_is_denoted(rule: RuleFields)
    requires
        rule.validation() is Ok,
    ensures
        written_as_v6(rule.local) == denotes_v6(rule.local),
        written_as_v6(rule.remote) == denotes_v6(rule.remote),
{
    if rule.local is Some {
        lemma_spec_family(rule.local->0);
    }
    if rule.remote is Some {
        lemma_spec_family(rule.remote->0);
    }
}

} // verus!
