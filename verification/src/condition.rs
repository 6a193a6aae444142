//! Compiling a rule into the conditions of a filter at one layer.

use vstd::prelude::*;
use crate::address::IpAddress;
use crate::block::{block_last, lemma_mask_v4, mask_v4};
use crate::layer::{takes_identity, InspectionPoint, Layer};
use crate::network::{address_spec_of, AddressSpec};
use crate::rule::{protocol_number, text_of, FilterRule, Protocol, RuleFields};

verus! {

/// The end of a connection that a condition looks at.
#[derive(Clone, Copy, Debug, PartialEq, Eq, Structural)]
pub enum Side {
    Local,
    Remote,
}

/// One condition of a filter: the field it looks at, whether it asks for
/// one value or for a range, and the value or the ends of the range.
#[derive(Clone, Debug, PartialEq, Eq)]
pub enum Condition {
    /// The application has this identity.
    Identity(String),
    /// The IPv4 address of `side` is `address`, read in network byte order.
    AddressV4 { side: Side, address: u32 },
    /// The IPv6 address of `side` is `address`, read in network byte order.
    AddressV6 { side: Side, address: u128 },
    /// The IPv4 address of `side` lies from `low` to `high`, both included.
    AddressRangeV4 { side: Side, low: u32, high: u32 },
    /// The port of `side` is `port`.
    Port { side: Side, port: u16 },
    /// The port of `side` lies from `low` to `high`, both included.
    PortRange { side: Side, low: u16, high: u16 },
    /// The protocol has this number.
    Protocol(u8),
}

/// A condition as plain values.
pub enum ConditionModel {
    Identity(Seq<char>),
    AddressV4 { side: Side, address: u32 },
    AddressV6 { side: Side, address: u128 },
    AddressRangeV4 { side: Side, low: u32, high: u32 },
    Port { side: Side, port: u16 },
    PortRange { side: Side, low: u16, high: u16 },
    Protocol(u8),
}

impl View for Condition {
    type V = ConditionModel;

    open spec fn view(&self) -> ConditionModel {
        match *self {
            Condition::Identity(id) => ConditionModel::Identity(id@),
            Condition::AddressV4 { side, address } => ConditionModel::AddressV4 { side, address },
            Condition::AddressV6 { side, address } => ConditionModel::AddressV6 { side, address },
            Condition::AddressRangeV4 { side, low, high } => ConditionModel::AddressRangeV4 {
                side,
                low,
                high,
            },
            Condition::Port { side, port } => ConditionModel::Port { side, port },
            Condition::PortRange { side, low, high } => ConditionModel::PortRange {
                side,
                low,
                high,
            },
            Condition::Protocol(number) => ConditionModel::Protocol(number),
        }
    }
}

/// Something a rule asks for that the filter at a layer does not carry.
#[derive(Clone, Copy, Debug, PartialEq, Eq, Structural)]
pub enum CompileWarning {
    /// The layer does not evaluate the identity beside the rule's other
    /// conditions, so the filter matches every application.
    IdentitySkipped,
    /// Ranges of IPv6 addresses are not compiled, so the filter matches
    /// every address on that side.
    Ipv6RangeSkipped(Side),
    /// The address spec is neither an address nor a network, so the filter
    /// matches every address on that side.
    AddressUnreadable(Side),
}

/// The plain values of a list of conditions.
pub open spec fn condition_models(conditions: Seq<Condition>) -> Seq<ConditionModel> {
    conditions.map_values(|c: Condition| c@)
}

/// The identity condition of a rule at an inspection point: present where
/// the rule has an identity and the point evaluates it beside the rule's
/// remote-address spec, if it has one.
pub open spec fn identity_part(rule: RuleFields, point: InspectionPoint) -> Seq<ConditionModel> {
    match rule.app_path {
        Some(id) => if takes_identity(point, rule.remote is Some) {
            seq![ConditionModel::Identity(id)]
        } else {
            Seq::empty()
        },
        None => Seq::empty(),
    }
}

/// The address condition that an address spec compiles to: an exact match
/// for a literal address, a range from the first to the last address for
/// an IPv4 network, nothing for an IPv6 network or an unreadable spec.
pub open spec fn address_part(text: Option<Seq<char>>, side: Side) -> Seq<ConditionModel> {
    match text {
        None => Seq::empty(),
        Some(t) => match address_spec_of(t) {
            AddressSpec::Single(IpAddress::V4(address)) => seq![
                ConditionModel::AddressV4 { side, address },
            ],
            AddressSpec::Single(IpAddress::V6(address)) => seq![
                ConditionModel::AddressV6 { side, address },
            ],
            AddressSpec::Network(network) => match network.ip {
                IpAddress::V4(low) => seq![
                    ConditionModel::AddressRangeV4 {
                        side,
                        low,
                        high: block_last(low as nat, 32, network.prefix_len as nat) as u32,
                    },
                ],
                IpAddress::V6(_) => Seq::empty(),
            },
            AddressSpec::Unreadable => Seq::empty(),
        },
    }
}

/// The port condition of one side: the exact port if one is set, else the
/// range if one is set. The exact port wins where both are set.
pub open spec fn port_part(port: Option<u16>, range: Option<(u16, u16)>, side: Side) -> Seq<
    ConditionModel,
> {
    match port {
        Some(port) => seq![ConditionModel::Port { side, port }],
        None => match range {
            Some((low, high)) => seq![ConditionModel::PortRange { side, low, high }],
            None => Seq::empty(),
        },
    }
}

/// The protocol condition: the protocol's number, or nothing for a rule
/// without a protocol or for every protocol.
pub open spec fn protocol_part(protocol: Option<Protocol>) -> Seq<ConditionModel> {
    match protocol {
        Some(p) => match protocol_number(p) {
            Some(number) => seq![ConditionModel::Protocol(number)],
            None => Seq::empty(),
        },
        None => Seq::empty(),
    }
}

/// The conditions of the filter that a rule compiles to at an inspection
/// point, in order: identity, local address, remote address, local port,
/// remote port, protocol.
pub open spec fn conditions_of(rule: RuleFields, point: InspectionPoint) -> Seq<ConditionModel> {
    identity_part(rule, point) + address_part(rule.local, Side::Local) + address_part(
        rule.remote,
        Side::Remote,
    ) + port_part(rule.local_port, rule.local_port_range, Side::Local) + port_part(
        rule.remote_port,
        rule.remote_port_range,
        Side::Remote,
    ) + protocol_part(rule.protocol)
}

/// The warning that goes with the identity of a rule at an inspection point.
pub open spec fn identity_warnings(rule: RuleFields, point: InspectionPoint) -> Seq<
    CompileWarning,
> {
    if rule.app_path is Some && !takes_identity(point, rule.remote is Some) {
        seq![CompileWarning::IdentitySkipped]
    } else {
        Seq::empty()
    }
}

/// The warning that goes with an address spec.
pub open spec fn address_warnings(text: Option<Seq<char>>, side: Side) -> Seq<CompileWarning> {
    match text {
        None => Seq::empty(),
        Some(t) => match address_spec_of(t) {
            AddressSpec::Single(_) => Seq::empty(),
            AddressSpec::Network(network) => match network.ip {
                IpAddress::V4(_) => Seq::empty(),
                IpAddress::V6(_) => seq![CompileWarning::Ipv6RangeSkipped(side)],
            },
            AddressSpec::Unreadable => seq![CompileWarning::AddressUnreadable(side)],
        },
    }
}

/// The warnings that go with the filter of a rule at an inspection point:
/// one for each thing the rule asks for and the filter does not carry.
pub open spec fn warnings_of(rule: RuleFields, point: InspectionPoint) -> Seq<CompileWarning> {
    identity_warnings(rule, point) + address_warnings(rule.local, Side::Local) + address_warnings(
        rule.remote,
        Side::Remote,
    )
}

/// The conditions of a filter and the warnings that go with them.
#[derive(Clone, Debug, PartialEq, Eq)]
pub struct CompiledConditions {
    pub conditions: Vec<Condition>,
    pub warnings: Vec<CompileWarning>,
}

/// Appends one condition.
fn push_condition(conditions: &mut Vec<Condition>, condition: Condition)
    ensures
        condition_models(final(conditions)@) == condition_models(old(conditions)@) + seq![
            condition@,
        ],
{
    let ghost before = conditions@;
    conditions.push(condition);
    assert(condition_models(conditions@) =~= condition_models(before) + seq![condition@]);
}

/// Compiles one address spec.
fn compile_address(
    text: &Option<String>,
    side: Side,
    conditions: &mut Vec<Condition>,
    warnings: &mut Vec<CompileWarning>,
)
    ensures
        condition_models(final(conditions)@) == condition_models(old(conditions)@) + address_part(
            text_of(*text),
            side,
        ),
        final(warnings)@ == old(warnings)@ + address_warnings(text_of(*text), side),
{
    let ghost before = conditions@;
    let ghost warned = warnings@;
    assert(condition_models(before) + Seq::<ConditionModel>::empty() =~= condition_models(before));
    assert(warned + Seq::<CompileWarning>::empty() =~= warned);
    match text {
        None => {},
        Some(t) => match AddressSpec::parse(t.as_str()) {
            AddressSpec::Single(IpAddress::V4(address)) => {
                push_condition(conditions, Condition::AddressV4 { side, address });
            },
            AddressSpec::Single(IpAddress::V6(address)) => {
                push_condition(conditions, Condition::AddressV6 { side, address });
            },
            AddressSpec::Network(network) => match network.ip {
                IpAddress::V4(low) => {
                    let mask = mask_v4(network.prefix_len);
                    proof {
                        lemma_mask_v4(low, network.prefix_len);
                        crate::network::lemma_cidr_is_well_formed(t@);
                        crate::block::lemma_base_of_base(low as nat, 32, network.prefix_len as nat);
                    }
                    let base = low & mask;
                    push_condition(
                        conditions,
                        Condition::AddressRangeV4 { side, low: base, high: base | !mask },
                    );
                },
                IpAddress::V6(_) => {
                    warnings.push(CompileWarning::Ipv6RangeSkipped(side));
                    assert(warnings@ =~= warned + seq![CompileWarning::Ipv6RangeSkipped(side)]);
                },
            },
            AddressSpec::Unreadable => {
                warnings.push(CompileWarning::AddressUnreadable(side));
                assert(warnings@ =~= warned + seq![CompileWarning::AddressUnreadable(side)]);
            },
        },
    }
}

/// Compiles the port of one side.
fn compile_port(
    port: Option<u16>,
    range: Option<(u16, u16)>,
    side: Side,
    conditions: &mut Vec<Condition>,
)
    ensures
        condition_models(final(conditions)@) == condition_models(old(conditions)@) + port_part(
            port,
            range,
            side,
        ),
{
    let ghost before = conditions@;
    assert(condition_models(before) + Seq::<ConditionModel>::empty() =~= condition_models(before));
    match port {
        Some(port) => {
            push_condition(conditions, Condition::Port { side, port });
        },
        None => match range {
            Some((low, high)) => {
                push_condition(conditions, Condition::PortRange { side, low, high });
            },
            None => {},
        },
    }
}

/// Compiles `rule` into the conditions of its filter at `layer`.
pub fn compile_conditions(rule: &FilterRule, layer: Layer) -> (compiled: CompiledConditions)
    ensures
        condition_models(compiled.conditions@) == conditions_of(rule@, layer.point),
        compiled.warnings@ == warnings_of(rule@, layer.point),
{
    let mut conditions: Vec<Condition> = Vec::new();
    let mut warnings: Vec<CompileWarning> = Vec::new();
    assert(condition_models(conditions@) =~= Seq::<ConditionModel>::empty());
    if let Some(id) = &rule.app_path {
        if layer.point.takes_identity(rule.remote.is_some()) {
            push_condition(&mut conditions, Condition::Identity(id.clone()));
        } else {
            warnings.push(CompileWarning::IdentitySkipped);
        }
    }
    assert(condition_models(conditions@) =~= identity_part(rule@, layer.point));
    assert(warnings@ =~= identity_warnings(rule@, layer.point));
    compile_address(&rule.local, Side::Local, &mut conditions, &mut warnings);
    compile_address(&rule.remote, Side::Remote, &mut conditions, &mut warnings);
    compile_port(rule.local_port, rule.local_port_range, Side::Local, &mut conditions);
    compile_port(rule.remote_port, rule.remote_port_range, Side::Remote, &mut conditions);
    let ghost before = conditions@;
    if let Some(protocol) = rule.protocol {
        if let Some(number) = protocol.number() {
            push_condition(&mut conditions, Condition::Protocol(number));
        }
    }
    assert(condition_models(conditions@) =~= condition_models(before) + protocol_part(
        rule@.protocol,
    ));
    CompiledConditions { conditions, warnings }
}

/// The range that an IPv4 network compiles to holds exactly the members
/// of the network.
pub proof fn lemma_range_holds_the_members(text: Seq<char>, side: Side, address: u32)
    requires
        address_spec_of(text) is Network,
        address_spec_of(text)->Network_0.ip is V4,
    ensures
        address_part(Some(text), side).len() == 1,
        address_part(Some(text), side)[0] is AddressRangeV4,
        address_spec_of(text)->Network_0.covers(IpAddress::V4(address)) <==> address_part(
            Some(text),
            side,
        )[0]->AddressRangeV4_low <= address <= address_part(
            Some(text),
            side,
        )[0]->AddressRangeV4_high,
{
    let network = address_spec_of(text)->Network_0;
    let low = network.ip->V4_0;
    crate::network::lemma_cidr_is_well_formed(text);
    crate::block::lemma_base_of_base(low as nat, 32, network.prefix_len as nat);
    crate::block::lemma_same_block_by_range(
        low as nat,
        address as nat,
        32,
        network.prefix_len as nat,
    );
    crate::block::lemma_mask_v4(low, network.prefix_len);
}

} // verus!
