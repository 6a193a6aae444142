//! The declarative policy unit: what traffic a rule matches and what is
//! done with it.

use vstd::prelude::*;
use vstd::string::StringExecFns;
use crate::address::IpAddress;
use crate::network::{address_spec_of, AddressSpec};
use crate::text::{same_ignoring_case, same_text, same_text_ignoring_case};

verus! {

/// The transport or network protocol a rule is limited to.
#[derive(Clone, Copy, Debug, PartialEq, Eq, Structural)]
pub enum Protocol {
    Tcp,
    Udp,
    Icmp,
    IcmpV6,
    Igmp,
    /// Authentication Header.
    Ah,
    /// Encapsulating Security Payload.
    Esp,
    /// Generic Routing Encapsulation.
    Gre,
    /// IP Security, carried as ESP.
    Ipsec,
    /// Every protocol.
    Any,
}

/// The direction of the traffic a rule applies to.
#[derive(Clone, Copy, Debug, PartialEq, Eq, Structural)]
pub enum Direction {
    Inbound,
    Outbound,
    Both,
}

/// What is done with the traffic that a rule matches.
#[derive(Clone, Copy, Debug, PartialEq, Eq, Structural)]
pub enum FilterAction {
    Allow,
    Block,
}

/// The number by which the filtering engine knows a protocol. `Any` has
/// none: a rule for every protocol carries no protocol condition.
pub open spec fn protocol_number(protocol: Protocol) -> Option<u8> {
    match protocol {
        Protocol::Tcp => Some(6u8),
        Protocol::Udp => Some(17u8),
        Protocol::Icmp => Some(1u8),
        Protocol::IcmpV6 => Some(58u8),
        Protocol::Igmp => Some(2u8),
        Protocol::Ah => Some(51u8),
        Protocol::Esp => Some(50u8),
        Protocol::Gre => Some(47u8),
        Protocol::Ipsec => Some(50u8),
        Protocol::Any => None,
    }
}

impl Protocol {
    /// The number by which the filtering engine knows the protocol, if it
    /// has one.
    pub fn number(&self) -> (number: Option<u8>)
        ensures
            number == protocol_number(*self),
    {
        match self {
            Protocol::Tcp => Some(6),
            Protocol::Udp => Some(17),
            Protocol::Icmp => Some(1),
            Protocol::IcmpV6 => Some(58),
            Protocol::Igmp => Some(2),
            Protocol::Ah => Some(51),
            Protocol::Esp => Some(50),
            Protocol::Gre => Some(47),
            Protocol::Ipsec => Some(50),
            Protocol::Any => None,
        }
    }
}

/// The text by which a protocol is written out.
pub open spec fn protocol_text(protocol: Protocol) -> Seq<char> {
    match protocol {
        Protocol::Tcp => "TCP"@,
        Protocol::Udp => "UDP"@,
        Protocol::Icmp => "ICMP"@,
        Protocol::IcmpV6 => "ICMPv6"@,
        Protocol::Igmp => "IGMP"@,
        Protocol::Ah => "AH"@,
        Protocol::Esp => "ESP"@,
        Protocol::Gre => "GRE"@,
        Protocol::Ipsec => "IPSEC"@,
        Protocol::Any => "ANY"@,
    }
}

/// The protocol that a text names, in letters of either case.
pub open spec fn protocol_of_text(text: Seq<char>) -> Option<Protocol> {
    if same_ignoring_case(text, "tcp"@) {
        Some(Protocol::Tcp)
    } else if same_ignoring_case(text, "udp"@) {
        Some(Protocol::Udp)
    } else if same_ignoring_case(text, "icmp"@) {
        Some(Protocol::Icmp)
    } else if same_ignoring_case(text, "icmpv6"@) {
        Some(Protocol::IcmpV6)
    } else if same_ignoring_case(text, "igmp"@) {
        Some(Protocol::Igmp)
    } else if same_ignoring_case(text, "ah"@) {
        Some(Protocol::Ah)
    } else if same_ignoring_case(text, "esp"@) {
        Some(Protocol::Esp)
    } else if same_ignoring_case(text, "gre"@) {
        Some(Protocol::Gre)
    } else if same_ignoring_case(text, "ipsec"@) {
        Some(Protocol::Ipsec)
    } else if same_ignoring_case(text, "any"@) {
        Some(Protocol::Any)
    } else {
        None
    }
}

/// The name of a protocol as an identifier.
pub open spec fn protocol_name(protocol: Protocol) -> Seq<char> {
    match protocol {
        Protocol::Tcp => "Tcp"@,
        Protocol::Udp => "Udp"@,
        Protocol::Icmp => "Icmp"@,
        Protocol::IcmpV6 => "IcmpV6"@,
        Protocol::Igmp => "Igmp"@,
        Protocol::Ah => "Ah"@,
        Protocol::Esp => "Esp"@,
        Protocol::Gre => "Gre"@,
        Protocol::Ipsec => "Ipsec"@,
        Protocol::Any => "Any"@,
    }
}

/// The name of a direction.
pub open spec fn direction_name(direction: Direction) -> Seq<char> {
    match direction {
        Direction::Inbound => "Inbound"@,
        Direction::Outbound => "Outbound"@,
        Direction::Both => "Both"@,
    }
}

/// The direction that a name stands for; an unknown name stands for both.
pub open spec fn direction_of_name(name: Seq<char>) -> Direction {
    if name == "Inbound"@ {
        Direction::Inbound
    } else if name == "Outbound"@ {
        Direction::Outbound
    } else {
        Direction::Both
    }
}

/// The name of an action.
pub open spec fn action_name(action: FilterAction) -> Seq<char> {
    match action {
        FilterAction::Allow => "Allow"@,
        FilterAction::Block => "Block"@,
    }
}

/// The action that a name stands for; an unknown name stands for blocking.
pub open spec fn action_of_name(name: Seq<char>) -> FilterAction {
    if name == "Allow"@ {
        FilterAction::Allow
    } else {
        FilterAction::Block
    }
}

impl Protocol {
    /// The text by which the protocol is written out.
    pub fn to_text(&self) -> (text: &'static str)
        ensures
            text@ == protocol_text(*self),
    {
        match self {
            Protocol::Tcp => "TCP",
            Protocol::Udp => "UDP",
            Protocol::Icmp => "ICMP",
            Protocol::IcmpV6 => "ICMPv6",
            Protocol::Igmp => "IGMP",
            Protocol::Ah => "AH",
            Protocol::Esp => "ESP",
            Protocol::Gre => "GRE",
            Protocol::Ipsec => "IPSEC",
            Protocol::Any => "ANY",
        }
    }

    /// The protocol that `text` names, in letters of either case.
    pub fn parse(text: &str) -> (protocol: Option<Protocol>)
        ensures
            protocol == protocol_of_text(text@),
    {
        if same_text_ignoring_case(text, "tcp") {
            Some(Protocol::Tcp)
        } else if same_text_ignoring_case(text, "udp") {
            Some(Protocol::Udp)
        } else if same_text_ignoring_case(text, "icmp") {
            Some(Protocol::Icmp)
        } else if same_text_ignoring_case(text, "icmpv6") {
            Some(Protocol::IcmpV6)
        } else if same_text_ignoring_case(text, "igmp") {
            Some(Protocol::Igmp)
        } else if same_text_ignoring_case(text, "ah") {
            Some(Protocol::Ah)
        } else if same_text_ignoring_case(text, "esp") {
            Some(Protocol::Esp)
        } else if same_text_ignoring_case(text, "gre") {
            Some(Protocol::Gre)
        } else if same_text_ignoring_case(text, "ipsec") {
            Some(Protocol::Ipsec)
        } else if same_text_ignoring_case(text, "any") {
            Some(Protocol::Any)
        } else {
            None
        }
    }

    /// The name of the protocol as an identifier.
    pub fn name(&self) -> (name: &'static str)
        ensures
            name@ == protocol_name(*self),
    {
        match self {
            Protocol::Tcp => "Tcp",
            Protocol::Udp => "Udp",
            Protocol::Icmp => "Icmp",
            Protocol::IcmpV6 => "IcmpV6",
            Protocol::Igmp => "Igmp",
            Protocol::Ah => "Ah",
            Protocol::Esp => "Esp",
            Protocol::Gre => "Gre",
            Protocol::Ipsec => "Ipsec",
            Protocol::Any => "Any",
        }
    }
}

impl Direction {
    /// The name of the direction.
    pub fn name(&self) -> (name: &'static str)
        ensures
            name@ == direction_name(*self),
    {
        match self {
            Direction::Inbound => "Inbound",
            Direction::Outbound => "Outbound",
            Direction::Both => "Both",
        }
    }

    /// The direction that `name` stands for; an unknown name stands for both.
    pub fn from_name(name: &str) -> (direction: Direction)
        ensures
            direction == direction_of_name(name@),
    {
        if same_text(name, "Inbound") {
            Direction::Inbound
        } else if same_text(name, "Outbound") {
            Direction::Outbound
        } else {
            Direction::Both
        }
    }
}

impl FilterAction {
    /// The name of the action.
    pub fn name(&self) -> (name: &'static str)
        ensures
            name@ == action_name(*self),
    {
        match self {
            FilterAction::Allow => "Allow",
            FilterAction::Block => "Block",
        }
    }

    /// The action that `name` stands for; an unknown name stands for
    /// blocking.
    pub fn from_name(name: &str) -> (action: FilterAction)
        ensures
            action == action_of_name(name@),
    {
        if same_text(name, "Allow") {
            FilterAction::Allow
        } else {
            FilterAction::Block
        }
    }
}

/// When a rule is in force.
#[derive(Clone, Debug, PartialEq, Eq)]
pub struct TimeControl {
    /// First second, counted from the Unix epoch, at which the rule is in force.
    pub start_time: Option<u64>,
    /// Last such second.
    pub end_time: Option<u64>,
    /// Days of the week on which the rule is in force, Sunday being 0.
    pub days_of_week: Option<Vec<u8>>,
    /// First and last hour of the day, both included.
    pub hours: Option<(u8, u8)>,
}

/// A time window as plain values.
pub struct TimeWindow {
    pub start_time: Option<u64>,
    pub end_time: Option<u64>,
    pub days_of_week: Option<Seq<u8>>,
    pub hours: Option<(u8, u8)>,
}

impl View for TimeControl {
    type V = TimeWindow;

    open spec fn view(&self) -> TimeWindow {
        TimeWindow {
            start_time: self.start_time,
            end_time: self.end_time,
            days_of_week: match self.days_of_week {
                Some(days) => Some(days@),
                None => None,
            },
            hours: self.hours,
        }
    }
}

/// The day of the week of the second `now`, Sunday being 0. The epoch fell
/// on a Thursday.
pub open spec fn weekday_of(now: u64) -> nat {
    ((now / 86400 + 4) % 7) as nat
}

/// The hour of the day of the second `now`.
pub open spec fn hour_of(now: u64) -> nat {
    ((now % 86400) / 3600) as nat
}

impl TimeWindow {
    /// Whether the window is open at the second `now`: not before the
    /// start, not after the end, on a listed day and within the hours, as
    /// far as each of them is set.
    pub open spec fn open_at(self, now: u64) -> bool {
        &&& (self.start_time matches Some(start) ==> now >= start)
        &&& (self.end_time matches Some(end) ==> now <= end)
        &&& (self.days_of_week matches Some(days) ==> exists|i: int|
            0 <= i < days.len() && #[trigger] days[i] == weekday_of(now))
        &&& (self.hours matches Some(hours) ==> hours.0 <= hour_of(now) <= hours.1)
    }
}

impl TimeControl {
    /// A window that is always open.
    pub fn new() -> (window: TimeControl)
        ensures
            window@ == (TimeWindow {
                start_time: None,
                end_time: None,
                days_of_week: None,
                hours: None,
            }),
    {
        TimeControl { start_time: None, end_time: None, days_of_week: None, hours: None }
    }

    /// The same window, opening at `timestamp`.
    pub fn start_time(self, timestamp: u64) -> (window: TimeControl)
        ensures
            window@ == (TimeWindow { start_time: Some(timestamp), ..self@ }),
    {
        let mut window = self;
        window.start_time = Some(timestamp);
        window
    }

    /// The same window, closing after `timestamp`.
    pub fn end_time(self, timestamp: u64) -> (window: TimeControl)
        ensures
            window@ == (TimeWindow { end_time: Some(timestamp), ..self@ }),
    {
        let mut window = self;
        window.end_time = Some(timestamp);
        window
    }

    /// The same window, open on `days` only.
    pub fn days_of_week(self, days: Vec<u8>) -> (window: TimeControl)
        ensures
            window@ == (TimeWindow { days_of_week: Some(days@), ..self@ }),
    {
        let mut window = self;
        window.days_of_week = Some(days);
        window
    }

    /// The same window, open from hour `start` to hour `end` only.
    pub fn hours(self, start: u8, end: u8) -> (window: TimeControl)
        ensures
            window@ == (TimeWindow { hours: Some((start, end)), ..self@ }),
    {
        let mut window = self;
        window.hours = Some((start, end));
        window
    }

    /// Whether the window is open at the second `now` of the Unix epoch.
    pub fn is_active(&self, now: u64) -> (active: bool)
        ensures
            active == self@.open_at(now),
    {
        if let Some(start) = self.start_time {
            if now < start {
                return false;
            }
        }
        if let Some(end) = self.end_time {
            if now > end {
                return false;
            }
        }
        if let Some(days) = &self.days_of_week {
            let weekday: u64 = (now / 86400 + 4) % 7;
            let mut found = false;
            let mut i: usize = 0;
            while i < days.len()
                invariant
                    i <= days.len(),
                    weekday == weekday_of(now),
                    found == exists|k: int| 0 <= k < i && #[trigger] days@[k] == weekday,
                decreases days.len() - i,
            {
                if days[i] as u64 == weekday {
                    found = true;
                }
                i = i + 1;
            }
            if !found {
                return false;
            }
        }
        if let Some((start_hour, end_hour)) = self.hours {
            let hour: u64 = (now % 86400) / 3600;
            if hour < start_hour as u64 || hour > end_hour as u64 {
                return false;
            }
        }
        assert(self@.days_of_week matches Some(days) ==> exists|i: int|
            0 <= i < days.len() && #[trigger] days[i] == weekday_of(now));
        true
    }
}

/// A rule: the traffic it matches, by application, addresses, ports,
/// protocol and direction, and what is done with that traffic.
#[derive(Clone, Debug, PartialEq, Eq)]
pub struct FilterRule {
    /// The rule's name. Names need not be unique.
    pub name: String,
    /// The application, as the identity the filtering engine knows it by.
    pub app_path: Option<String>,
    /// The local address, or the local network in CIDR notation.
    pub local: Option<String>,
    /// The remote address, or the remote network in CIDR notation.
    pub remote: Option<String>,
    pub local_port: Option<u16>,
    pub remote_port: Option<u16>,
    /// First and last local port, both included.
    pub local_port_range: Option<(u16, u16)>,
    /// First and last remote port, both included.
    pub remote_port_range: Option<(u16, u16)>,
    pub protocol: Option<Protocol>,
    pub direction: Direction,
    pub action: FilterAction,
    /// The caller's own ordering of rules; it is not the engine's weight.
    pub priority: u32,
    pub group: Option<String>,
    pub enabled: bool,
    pub time_control: Option<TimeControl>,
    pub description: Option<String>,
}

/// A rule as plain values.
pub struct RuleFields {
    pub name: Seq<char>,
    pub app_path: Option<Seq<char>>,
    pub local: Option<Seq<char>>,
    pub remote: Option<Seq<char>>,
    pub local_port: Option<u16>,
    pub remote_port: Option<u16>,
    pub local_port_range: Option<(u16, u16)>,
    pub remote_port_range: Option<(u16, u16)>,
    pub protocol: Option<Protocol>,
    pub direction: Direction,
    pub action: FilterAction,
    pub priority: u32,
    pub group: Option<Seq<char>>,
    pub enabled: bool,
    pub time_control: Option<TimeWindow>,
    pub description: Option<Seq<char>>,
}

/// The characters of an optional text.
pub open spec fn text_of(text: Option<String>) -> Option<Seq<char>> {
    match text {
        Some(t) => Some(t@),
        None => None,
    }
}

impl View for FilterRule {
    type V = RuleFields;

    open spec fn view(&self) -> RuleFields {
        RuleFields {
            name: self.name@,
            app_path: text_of(self.app_path),
            local: text_of(self.local),
            remote: text_of(self.remote),
            local_port: self.local_port,
            remote_port: self.remote_port,
            local_port_range: self.local_port_range,
            remote_port_range: self.remote_port_range,
            protocol: self.protocol,
            direction: self.direction,
            action: self.action,
            priority: self.priority,
            group: text_of(self.group),
            enabled: self.enabled,
            time_control: match self.time_control {
                Some(window) => Some(window@),
                None => None,
            },
            description: text_of(self.description),
        }
    }
}

/// The rule that `FilterRule::new` makes of a name: it matches all
/// traffic in both directions and blocks it.
pub open spec fn blank_rule(name: Seq<char>) -> RuleFields {
    RuleFields {
        name,
        app_path: None,
        local: None,
        remote: None,
        local_port: None,
        remote_port: None,
        local_port_range: None,
        remote_port_range: None,
        protocol: None,
        direction: Direction::Both,
        action: FilterAction::Block,
        priority: 0,
        group: None,
        enabled: true,
        time_control: None,
        description: None,
    }
}

impl FilterRule {
    /// A rule of the given name that matches all traffic in both
    /// directions and blocks it.
    pub fn new(name: &str) -> (rule: FilterRule)
        ensures
            rule@ == blank_rule(name@),
    {
        FilterRule {
            name: name.to_owned(),
            app_path: None,
            local: None,
            remote: None,
            local_port: None,
            remote_port: None,
            local_port_range: None,
            remote_port_range: None,
            protocol: None,
            direction: Direction::Both,
            action: FilterAction::Block,
            priority: 0,
            group: None,
            enabled: true,
            time_control: None,
            description: None,
        }
    }

    /// The same rule, limited to the application of identity `path`.
    pub fn app_path(self, path: &str) -> (rule: FilterRule)
        ensures
            rule@ == (RuleFields { app_path: Some(path@), ..self@ }),
    {
        let mut rule = self;
        rule.app_path = Some(path.to_owned());
        rule
    }

    /// The same rule, limited to the local address or network `ip`.
    pub fn local_ip(self, ip: &str) -> (rule: FilterRule)
        ensures
            rule@ == (RuleFields { local: Some(ip@), ..self@ }),
    {
        let mut rule = self;
        rule.local = Some(ip.to_owned());
        rule
    }

    /// The same rule, limited to the remote address or network `ip`.
    pub fn remote_ip(self, ip: &str) -> (rule: FilterRule)
        ensures
            rule@ == (RuleFields { remote: Some(ip@), ..self@ }),
    {
        let mut rule = self;
        rule.remote = Some(ip.to_owned());
        rule
    }

    /// The same rule, limited to the local port `port`.
    pub fn local_port(self, port: u16) -> (rule: FilterRule)
        ensures
            rule@ == (RuleFields { local_port: Some(port), ..self@ }),
    {
        let mut rule = self;
        rule.local_port = Some(port);
        rule
    }

    /// The same rule, limited to the remote port `port`.
    pub fn remote_port(self, port: u16) -> (rule: FilterRule)
        ensures
            rule@ == (RuleFields { remote_port: Some(port), ..self@ }),
    {
        let mut rule = self;
        rule.remote_port = Some(port);
        rule
    }

    /// The same rule, limited to the local ports from `start` to `end`.
    pub fn local_port_range(self, start: u16, end: u16) -> (rule: FilterRule)
        ensures
            rule@ == (RuleFields { local_port_range: Some((start, end)), ..self@ }),
    {
        let mut rule = self;
        rule.local_port_range = Some((start, end));
        rule
    }

    /// The same rule, limited to the remote ports from `start` to `end`.
    pub fn remote_port_range(self, start: u16, end: u16) -> (rule: FilterRule)
        ensures
            rule@ == (RuleFields { remote_port_range: Some((start, end)), ..self@ }),
    {
        let mut rule = self;
        rule.remote_port_range = Some((start, end));
        rule
    }

    /// The same rule, limited to `protocol`.
    pub fn protocol(self, protocol: Protocol) -> (rule: FilterRule)
        ensures
            rule@ == (RuleFields { protocol: Some(protocol), ..self@ }),
    {
        let mut rule = self;
        rule.protocol = Some(protocol);
        rule
    }

    /// The same rule, for traffic in `direction`.
    pub fn direction(self, direction: Direction) -> (rule: FilterRule)
        ensures
            rule@ == (RuleFields { direction, ..self@ }),
    {
        let mut rule = self;
        rule.direction = direction;
        rule
    }

    /// The same rule, with `action` done to what it matches.
    pub fn action(self, action: FilterAction) -> (rule: FilterRule)
        ensures
            rule@ == (RuleFields { action, ..self@ }),
    {
        let mut rule = self;
        rule.action = action;
        rule
    }

    /// The same rule, with the caller's ordering hint `priority`.
    pub fn priority(self, priority: u32) -> (rule: FilterRule)
        ensures
            rule@ == (RuleFields { priority, ..self@ }),
    {
        let mut rule = self;
        rule.priority = priority;
        rule
    }

    /// The same rule, as a member of `group`.
    pub fn group(self, group: &str) -> (rule: FilterRule)
        ensures
            rule@ == (RuleFields { group: Some(group@), ..self@ }),
    {
        let mut rule = self;
        rule.group = Some(group.to_owned());
        rule
    }

    /// The same rule, switched on or off.
    pub fn enabled(self, enabled: bool) -> (rule: FilterRule)
        ensures
            rule@ == (RuleFields { enabled, ..self@ }),
    {
        let mut rule = self;
        rule.enabled = enabled;
        rule
    }

    /// The same rule, in force only within `time_control`.
    pub fn time_control(self, time_control: TimeControl) -> (rule: FilterRule)
        ensures
            rule@ == (RuleFields { time_control: Some(time_control@), ..self@ }),
    {
        let mut rule = self;
        rule.time_control = Some(time_control);
        rule
    }

    /// The same rule, described by `description`.
    pub fn description(self, description: &str) -> (rule: FilterRule)
        ensures
            rule@ == (RuleFields { description: Some(description@), ..self@ }),
    {
        let mut rule = self;
        rule.description = Some(description.to_owned());
        rule
    }
}

/// Why a rule cannot be compiled.
#[derive(Clone, Copy, Debug, PartialEq, Eq, Structural)]
pub enum ValidationError {
    /// The remote address is a literal in the first octet of a private
    /// range but outside that range.
    InvalidRemoteAddress,
    /// The remote address spec is neither an address nor a network.
    UnreadableRemoteAddress,
    /// The local address is a literal in the first octet of a private
    /// range but outside that range.
    InvalidLocalAddress,
    /// The local address spec is neither an address nor a network.
    UnreadableLocalAddress,
}

/// Whether a literal address passes the sanity check on private ranges.
/// An IPv4 address whose first octet is 10, 172 or 192 must lie in
/// 10.0.0.0/8, 172.16.0.0/12 or 192.168.0.0/16; every other address passes.
pub open spec fn plausible_address(ip: IpAddress) -> bool {
    match ip {
        IpAddress::V4(v) => {
            let first = v as nat / 0x100_0000;
            let second = (v as nat / 0x1_0000) % 0x100;
            if first == 172 {
                16 <= second <= 31
            } else if first == 192 {
                second == 168
            } else {
                true
            }
        },
        IpAddress::V6(_) => true,
    }
}

/// What is wrong with an address spec.
pub enum AddressFault {
    Implausible,
    Unreadable,
}

/// What, if anything, is wrong with an optional address spec. An absent
/// spec is in order, and so is every network.
pub open spec fn address_fault(text: Option<Seq<char>>) -> Option<AddressFault> {
    match text {
        None => None,
        Some(t) => match address_spec_of(t) {
            AddressSpec::Single(ip) => if plausible_address(ip) {
                None
            } else {
                Some(AddressFault::Implausible)
            },
            AddressSpec::Network(_) => None,
            AddressSpec::Unreadable => Some(AddressFault::Unreadable),
        },
    }
}

impl RuleFields {
    /// Whether the rule can be compiled, and if not, the first reason: the
    /// remote address spec is looked at before the local one.
    pub open spec fn validation(self) -> Result<(), ValidationError> {
        match address_fault(self.remote) {
            Some(AddressFault::Implausible) => Err(ValidationError::InvalidRemoteAddress),
            Some(AddressFault::Unreadable) => Err(ValidationError::UnreadableRemoteAddress),
            None => match address_fault(self.local) {
                Some(AddressFault::Implausible) => Err(ValidationError::InvalidLocalAddress),
                Some(AddressFault::Unreadable) => Err(ValidationError::UnreadableLocalAddress),
                None => Ok(()),
            },
        }
    }
}

/// Checks a literal address against the private ranges.
pub fn validate_ip(ip: &IpAddress) -> (plausible: bool)
    ensures
        plausible == plausible_address(*ip),
{
    match ip {
        IpAddress::V4(v) => {
            let first: u32 = *v / 0x100_0000;
            let second: u32 = (*v / 0x1_0000) % 0x100;
            if first == 10 {
                true
            } else if first == 172 {
                16 <= second && second <= 31
            } else if first == 192 {
                second == 168
            } else {
                true
            }
        },
        IpAddress::V6(_) => true,
    }
}

/// Checks one optional address spec.
fn check_address(text: &Option<String>) -> (fault: Option<AddressFault>)
    ensures
        fault == address_fault(text_of(*text)),
{
    match text {
        None => None,
        Some(t) => match AddressSpec::parse(t.as_str()) {
            AddressSpec::Single(ip) => if validate_ip(&ip) {
                None
            } else {
                Some(AddressFault::Implausible)
            },
            AddressSpec::Network(_) => None,
            AddressSpec::Unreadable => Some(AddressFault::Unreadable),
        },
    }
}

impl FilterRule {
    /// Checks that each address spec that is set reads as an address or as
    /// a network, and that a literal address passes the sanity check on
    /// private ranges.
    pub fn validate(&self) -> (result: Result<(), ValidationError>)
        ensures
            result == self@.validation(),
    {
        match check_address(&self.remote) {
            Some(AddressFault::Implausible) => Err(ValidationError::InvalidRemoteAddress),
            Some(AddressFault::Unreadable) => Err(ValidationError::UnreadableRemoteAddress),
            None => match check_address(&self.local) {
                Some(AddressFault::Implausible) => Err(ValidationError::InvalidLocalAddress),
                Some(AddressFault::Unreadable) => Err(ValidationError::UnreadableLocalAddress),
                None => Ok(()),
            },
        }
    }
}

/// The address spec that an error speaks of; empty where the rule has none.
pub open spec fn faulty_address(error: ValidationError, rule: RuleFields) -> Seq<char> {
    let text = match error {
        ValidationError::InvalidRemoteAddress => rule.remote,
        ValidationError::UnreadableRemoteAddress => rule.remote,
        ValidationError::InvalidLocalAddress => rule.local,
        ValidationError::UnreadableLocalAddress => rule.local,
    };
    match text {
        Some(t) => t,
        None => Seq::empty(),
    }
}

/// The words in which an error is told, with the address spec it speaks of.
pub open spec fn validation_message(error: ValidationError, rule: RuleFields) -> Seq<char> {
    let words = match error {
        ValidationError::InvalidRemoteAddress => "无效的远程 IP 地址: "@,
        ValidationError::UnreadableRemoteAddress => "无法解析的 IP 地址格式: "@,
        ValidationError::InvalidLocalAddress => "无效的本地 IP 地址: "@,
        ValidationError::UnreadableLocalAddress => "无法解析的本地 IP 地址格式: "@,
    };
    words + faulty_address(error, rule)
}

impl ValidationError {
    /// Tells the error in words, with the address spec of `rule` that it
    /// speaks of.
    pub fn message(&self, rule: &FilterRule) -> (message: String)
        ensures
            message@ == validation_message(*self, rule@),
    {
        let (words, text) = match self {
            ValidationError::InvalidRemoteAddress => ("无效的远程 IP 地址: ", &rule.remote),
            ValidationError::UnreadableRemoteAddress => ("无法解析的 IP 地址格式: ", &rule.remote),
            ValidationError::InvalidLocalAddress => ("无效的本地 IP 地址: ", &rule.local),
            ValidationError::UnreadableLocalAddress => ("无法解析的本地 IP 地址格式: ", &rule.local),
        };
        let mut message = words.to_owned();
        match text {
            Some(t) => {
                message.append(t.as_str());
            },
            None => {
                assert(message@ + Seq::<char>::empty() =~= message@);
            },
        }
        message
    }
}

} // verus!
