//! The form in which rules are written out and read back: every field
//! present or absent, every enumeration by its name.

use vstd::prelude::*;
use crate::rule::{
    action_name, action_of_name, direction_name, direction_of_name, protocol_of_text,
    protocol_text, text_of, Direction, FilterAction, FilterRule, Protocol, RuleFields,
};
use crate::text::folded;

verus! {

/// A rule as it is written out.
#[derive(Clone, Debug, PartialEq, Eq)]
pub struct FilterRuleConfig {
    pub name: String,
    pub app_path: Option<String>,
    pub local_ip: Option<String>,
    pub remote_ip: Option<String>,
    pub local_port: Option<u16>,
    pub remote_port: Option<u16>,
    pub local_port_range: Option<(u16, u16)>,
    pub remote_port_range: Option<(u16, u16)>,
    pub protocol: Option<String>,
    pub direction: String,
    pub action: String,
    pub priority: u32,
    pub group: Option<String>,
    pub enabled: bool,
    pub description: Option<String>,
}

/// A written-out rule as plain values.
pub struct ConfigFields {
    pub name: Seq<char>,
    pub app_path: Option<Seq<char>>,
    pub local_ip: Option<Seq<char>>,
    pub remote_ip: Option<Seq<char>>,
    pub local_port: Option<u16>,
    pub remote_port: Option<u16>,
    pub local_port_range: Option<(u16, u16)>,
    pub remote_port_range: Option<(u16, u16)>,
    pub protocol: Option<Seq<char>>,
    pub direction: Seq<char>,
    pub action: Seq<char>,
    pub priority: u32,
    pub group: Option<Seq<char>>,
    pub enabled: bool,
    pub description: Option<Seq<char>>,
}

impl View for FilterRuleConfig {
    type V = ConfigFields;

    open spec fn view(&self) -> ConfigFields {
        ConfigFields {
            name: self.name@,
            app_path: text_of(self.app_path),
            local_ip: text_of(self.local_ip),
            remote_ip: text_of(self.remote_ip),
            local_port: self.local_port,
            remote_port: self.remote_port,
            local_port_range: self.local_port_range,
            remote_port_range: self.remote_port_range,
            protocol: text_of(self.protocol),
            direction: self.direction@,
            action: self.action@,
            priority: self.priority,
            group: text_of(self.group),
            enabled: self.enabled,
            description: text_of(self.description),
        }
    }
}

/// A group of rules as it is written out.
#[derive(Clone, Debug, PartialEq, Eq)]
pub struct GroupConfig {
    pub name: String,
    pub description: Option<String>,
    pub color: Option<String>,
}

/// What is written out about a set of rules as a whole.
#[derive(Clone, Debug, PartialEq, Eq)]
pub struct MetadataConfig {
    pub created_at: String,
    pub created_by: String,
    pub description: Option<String>,
    pub tags: Vec<String>,
}

/// A set of rules as it is written out.
#[derive(Clone, Debug, PartialEq, Eq)]
pub struct RuleConfig {
    pub version: String,
    pub rules: Vec<FilterRuleConfig>,
    pub groups: Vec<GroupConfig>,
    pub metadata: MetadataConfig,
}

/// The written-out form of a rule. The time window is not written out.
pub open spec fn config_of_rule(rule: RuleFields) -> ConfigFields {
    ConfigFields {
        name: rule.name,
        app_path: rule.app_path,
        local_ip: rule.local,
        remote_ip: rule.remote,
        local_port: rule.local_port,
        remote_port: rule.remote_port,
        local_port_range: rule.local_port_range,
        remote_port_range: rule.remote_port_range,
        protocol: match rule.protocol {
            Some(p) => Some(protocol_text(p)),
            None => None,
        },
        direction: direction_name(rule.direction),
        action: action_name(rule.action),
        priority: rule.priority,
        group: rule.group,
        enabled: rule.enabled,
        description: rule.description,
    }
}

/// The rule that a written-out form stands for. A protocol that is not
/// known by its text is dropped; an unknown direction stands for both
/// directions and an unknown action for blocking.
pub open spec fn rule_of_config(config: ConfigFields) -> RuleFields {
    RuleFields {
        name: config.name,
        app_path: config.app_path,
        local: config.local_ip,
        remote: config.remote_ip,
        local_port: config.local_port,
        remote_port: config.remote_port,
        local_port_range: config.local_port_range,
        remote_port_range: config.remote_port_range,
        protocol: match config.protocol {
            Some(t) => protocol_of_text(t),
            None => None,
        },
        direction: direction_of_name(config.direction),
        action: action_of_name(config.action),
        priority: config.priority,
        group: config.group,
        enabled: config.enabled,
        time_control: None,
        description: config.description,
    }
}

/// A copy of an optional text.
fn copy_text(text: &Option<String>) -> (copy: Option<String>)
    ensures
        text_of(copy) == text_of(*text),
{
    match text {
        Some(t) => Some(t.clone()),
        None => None,
    }
}

impl FilterRuleConfig {
    /// Writes a rule out.
    pub fn from_rule(rule: &FilterRule) -> (config: FilterRuleConfig)
        ensures
            config@ == config_of_rule(rule@),
    {
        FilterRuleConfig {
            name: rule.name.clone(),
            app_path: copy_text(&rule.app_path),
            local_ip: copy_text(&rule.local),
            remote_ip: copy_text(&rule.remote),
            local_port: rule.local_port,
            remote_port: rule.remote_port,
            local_port_range: rule.local_port_range,
            remote_port_range: rule.remote_port_range,
            protocol: match rule.protocol {
                Some(p) => Some(p.to_text().to_owned()),
                None => None,
            },
            direction: rule.direction.name().to_owned(),
            action: rule.action.name().to_owned(),
            priority: rule.priority,
            group: copy_text(&rule.group),
            enabled: rule.enabled,
            description: copy_text(&rule.description),
        }
    }

    /// Reads a rule back.
    pub fn to_rule(&self) -> (rule: FilterRule)
        ensures
            rule@ == rule_of_config(self@),
    {
        FilterRule {
            name: self.name.clone(),
            app_path: copy_text(&self.app_path),
            local: copy_text(&self.local_ip),
            remote: copy_text(&self.remote_ip),
            local_port: self.local_port,
            remote_port: self.remote_port,
            local_port_range: self.local_port_range,
            remote_port_range: self.remote_port_range,
            protocol: match &self.protocol {
                Some(t) => Protocol::parse(t.as_str()),
                None => None,
            },
            direction: Direction::from_name(self.direction.as_str()),
            action: FilterAction::from_name(self.action.as_str()),
            priority: self.priority,
            group: copy_text(&self.group),
            enabled: self.enabled,
            time_control: None,
            description: copy_text(&self.description),
        }
    }
}

/// A protocol is known again by the text it is written out with.
pub proof fn lemma_protocol_text_reads_back(protocol: Protocol)
    ensures
        protocol_of_text(protocol_text(protocol)) == Some(protocol),
{
    reveal_strlit("TCP");
    reveal_strlit("UDP");
    reveal_strlit("ICMP");
    reveal_strlit("ICMPv6");
    reveal_strlit("IGMP");
    reveal_strlit("AH");
    reveal_strlit("ESP");
    reveal_strlit("GRE");
    reveal_strlit("IPSEC");
    reveal_strlit("ANY");
    reveal_strlit("tcp");
    reveal_strlit("udp");
    reveal_strlit("icmp");
    reveal_strlit("icmpv6");
    reveal_strlit("igmp");
    reveal_strlit("ah");
    reveal_strlit("esp");
    reveal_strlit("gre");
    reveal_strlit("ipsec");
    reveal_strlit("any");
    let text = protocol_text(protocol);
    match protocol {
        Protocol::Tcp => {},
        Protocol::Udp => {
            assert(folded(text[0]) != folded("tcp"@[0]));
        },
        Protocol::Icmp => {},
        Protocol::IcmpV6 => {},
        Protocol::Igmp => {
            assert(folded(text[1]) != folded("icmp"@[1]));
        },
        Protocol::Ah => {},
        Protocol::Esp => {
            assert(folded(text[0]) != folded("tcp"@[0]));
            assert(folded(text[0]) != folded("udp"@[0]));
        },
        Protocol::Gre => {
            assert(folded(text[0]) != folded("tcp"@[0]));
            assert(folded(text[0]) != folded("udp"@[0]));
            assert(folded(text[0]) != folded("esp"@[0]));
        },
        Protocol::Ipsec => {},
        Protocol::Any => {
            assert(folded(text[0]) != folded("tcp"@[0]));
            assert(folded(text[0]) != folded("udp"@[0]));
            assert(folded(text[0]) != folded("esp"@[0]));
            assert(folded(text[0]) != folded("gre"@[0]));
        },
    }
}

/// A direction and an action are known again by their names.
pub proof fn lemma_names_read_back(direction: Direction, action: FilterAction)
    ensures
        direction_of_name(direction_name(direction)) == direction,
        action_of_name(action_name(action)) == action,
{
    reveal_strlit("Inbound");
    reveal_strlit("Outbound");
    reveal_strlit("Both");
    reveal_strlit("Allow");
    reveal_strlit("Block");
    assert("Outbound"@.len() != "Inbound"@.len());
    assert("Both"@.len() != "Inbound"@.len());
    assert("Both"@.len() != "Outbound"@.len());
    assert("Block"@[0] != "Allow"@[0]);
}

/// A rule that is written out and read back is the same rule but for its
/// time window, which is not written out.
pub proof fn lemma_round_trip_keeps_rule(rule: RuleFields)
    ensures
        rule_of_config(config_of_rule(rule)) == (RuleFields { time_control: None, ..rule }),
{
    lemma_names_read_back(rule.direction, rule.action);
    if rule.protocol is Some {
        lemma_protocol_text_reads_back(rule.protocol->0);
    }
}

/// A rule that is written out and read back has the signature it had.
pub proof fn lemma_round_trip_keeps_signature(rule: RuleFields)
    ensures
        rule_of_config(config_of_rule(rule)).signature() == rule.signature(),
{
    lemma_round_trip_keeps_rule(rule);
}

/// The written-out forms of a list of rules, in order.
pub open spec fn configs_of_rules(rules: Seq<FilterRule>) -> Seq<ConfigFields> {
    Seq::new(rules.len(), |i: int| config_of_rule(rules[i]@))
}

/// The plain values of a list of written-out rules.
pub open spec fn config_fields(configs: Seq<FilterRuleConfig>) -> Seq<ConfigFields> {
    Seq::new(configs.len(), |i: int| configs[i]@)
}

/// The rules that a list of written-out forms stands for, in order.
pub open spec fn rules_of_configs(configs: Seq<FilterRuleConfig>) -> Seq<RuleFields> {
    Seq::new(configs.len(), |i: int| rule_of_config(configs[i]@))
}

impl RuleConfig {
    /// Writes a set of rules out, as made at the time `created_at`.
    pub fn from_rules(rules: &[FilterRule], created_at: &str) -> (config: RuleConfig)
        ensures
            config.version@ == "1.0"@,
            config_fields(config.rules@) == configs_of_rules(rules@),
            config.groups@.len() == 0,
            config.metadata.created_at@ == created_at@,
            config.metadata.created_by@ == "AstralWFP"@,
            text_of(config.metadata.description) == Some("导出的WFP规则配置"@),
            config.metadata.tags@.len() == 2,
            config.metadata.tags@[0]@ == "wfp"@,
            config.metadata.tags@[1]@ == "firewall"@,
    {
        let mut written: Vec<FilterRuleConfig> = Vec::new();
        let mut i: usize = 0;
        while i < rules.len()
            invariant
                i <= rules.len(),
                written@.len() == i,
                forall|k: int| 0 <= k < i ==> (#[trigger] written@[k])@ == config_of_rule(rules@[k]@),
            decreases rules.len() - i,
        {
            written.push(FilterRuleConfig::from_rule(&rules[i]));
            i = i + 1;
        }
        assert(config_fields(written@) =~= configs_of_rules(rules@));
        let mut tags: Vec<String> = Vec::new();
        tags.push("wfp".to_owned());
        tags.push("firewall".to_owned());
        RuleConfig {
            version: "1.0".to_owned(),
            rules: written,
            groups: Vec::new(),
            metadata: MetadataConfig {
                created_at: created_at.to_owned(),
                created_by: "AstralWFP".to_owned(),
                description: Some("导出的WFP规则配置".to_owned()),
                tags,
            },
        }
    }

    /// Reads the rules of a written-out set back.
    pub fn to_rules(&self) -> (rules: Vec<FilterRule>)
        ensures
            crate::plan::rule_fields(rules@) == rules_of_configs(self.rules@),
    {
        let mut rules: Vec<FilterRule> = Vec::new();
        let mut i: usize = 0;
        while i < self.rules.len()
            invariant
                i <= self.rules.len(),
                rules@.len() == i,
                forall|k: int| 0 <= k < i ==> (#[trigger] rules@[k])@ == rule_of_config(self.rules@[k]@),
            decreases self.rules.len() - i,
        {
            rules.push(self.rules[i].to_rule());
            i = i + 1;
        }
        assert(crate::plan::rule_fields(rules@) =~= rules_of_configs(self.rules@));
        rules
    }
}

} // verus!
