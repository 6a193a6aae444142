//! The signature of a rule: one text made of everything the rule matches
//! by, to tell rules apart and to key what is remembered of them.

use vstd::prelude::*;
use vstd::string::StringExecFns;
use crate::rule::{
    action_name, direction_name, protocol_name, text_of, FilterRule, Protocol, RuleFields,
};
use crate::text::{decimal_text, render_decimal};

verus! {

/// The text that the standard library's debug formatting writes for a
/// string: the string between double quotes, with quotes, backslashes
/// and unprintable characters escaped.
pub uninterp spec fn debug_text(text: Seq<char>) -> Seq<char>;

/// Writes a string as the standard library's debug formatting does
/// (`format!` with `{:?}` on a `str`). The result depends on the
/// characters alone; which characters are escaped, and how, is not stated
/// here.
#[verifier::external_body]
fn debug_quoted(text: &str) -> (quoted: String)
    ensures
        quoted@ == debug_text(text@),
{
    format!("{:?}", text)
}

/// The part of a signature that stands for an optional text.
pub open spec fn optional_text_part(text: Option<Seq<char>>) -> Seq<char> {
    match text {
        Some(t) => "Some("@ + debug_text(t) + ")"@,
        None => "None"@,
    }
}

/// The part of a signature that stands for an optional port.
pub open spec fn optional_port_part(port: Option<u16>) -> Seq<char> {
    match port {
        Some(p) => "Some("@ + decimal_text(p as nat) + ")"@,
        None => "None"@,
    }
}

/// The part of a signature that stands for an optional range of ports.
pub open spec fn optional_range_part(range: Option<(u16, u16)>) -> Seq<char> {
    match range {
        Some((low, high)) => "Some(("@ + decimal_text(low as nat) + ", "@ + decimal_text(
            high as nat,
        ) + "))"@,
        None => "None"@,
    }
}

/// The part of a signature that stands for an optional protocol.
pub open spec fn optional_protocol_part(protocol: Option<Protocol>) -> Seq<char> {
    match protocol {
        Some(p) => "Some("@ + protocol_name(p) + ")"@,
        None => "None"@,
    }
}

impl RuleFields {
    /// The signature of the rule: its name, identity, addresses, ports,
    /// port ranges, protocol, direction and action, joined by underscores.
    /// Priority, group, the switch, the time window and the description
    /// have no part in it.
    pub open spec fn signature(self) -> Seq<char> {
        self.name + "_"@ + optional_text_part(self.app_path) + "_"@ + optional_text_part(self.local)
            + "_"@ + optional_text_part(self.remote) + "_"@ + optional_port_part(self.local_port)
            + "_"@ + optional_port_part(self.remote_port) + "_"@ + optional_range_part(
            self.local_port_range,
        ) + "_"@ + optional_range_part(self.remote_port_range) + "_"@ + optional_protocol_part(
            self.protocol,
        ) + "_"@ + direction_name(self.direction) + "_"@ + action_name(self.action)
    }
}

/// Writes `inner` between `open` and `)`.
fn wrapped(open: &str, inner: &str, close: &str) -> (text: String)
    ensures
        text@ == open@ + inner@ + close@,
{
    let mut text = open.to_owned();
    text.append(inner);
    text.append(close);
    text
}

/// Writes the part of a signature that stands for an optional text.
fn render_optional_text(text: &Option<String>) -> (part: String)
    ensures
        part@ == optional_text_part(text_of(*text)),
{
    match text {
        Some(t) => {
            let quoted = debug_quoted(t.as_str());
            wrapped("Some(", quoted.as_str(), ")")
        },
        None => "None".to_owned(),
    }
}

/// Writes the part of a signature that stands for an optional port.
fn render_optional_port(port: Option<u16>) -> (part: String)
    ensures
        part@ == optional_port_part(port),
{
    match port {
        Some(p) => {
            let digits = render_decimal(p as u64);
            wrapped("Some(", digits.as_str(), ")")
        },
        None => "None".to_owned(),
    }
}

/// Writes the part of a signature that stands for an optional range of
/// ports.
fn render_optional_range(range: Option<(u16, u16)>) -> (part: String)
    ensures
        part@ == optional_range_part(range),
{
    match range {
        Some((low, high)) => {
            let mut part = "Some((".to_owned();
            part.append(render_decimal(low as u64).as_str());
            part.append(", ");
            part.append(render_decimal(high as u64).as_str());
            part.append("))");
            part
        },
        None => "None".to_owned(),
    }
}

/// Writes the part of a signature that stands for an optional protocol.
fn render_optional_protocol(protocol: Option<Protocol>) -> (part: String)
    ensures
        part@ == optional_protocol_part(protocol),
{
    match protocol {
        Some(p) => wrapped("Some(", p.name(), ")"),
        None => "None".to_owned(),
    }
}

impl FilterRule {
    /// The signature of the rule.
    pub fn signature(&self) -> (signature: String)
        ensures
            signature@ == self@.signature(),
    {
        let mut signature = self.name.clone();
        signature.append("_");
        signature.append(render_optional_text(&self.app_path).as_str());
        signature.append("_");
        signature.append(render_optional_text(&self.local).as_str());
        signature.append("_");
        signature.append(render_optional_text(&self.remote).as_str());
        signature.append("_");
        signature.append(render_optional_port(self.local_port).as_str());
        signature.append("_");
        signature.append(render_optional_port(self.remote_port).as_str());
        signature.append("_");
        signature.append(render_optional_range(self.local_port_range).as_str());
        signature.append("_");
        signature.append(render_optional_range(self.remote_port_range).as_str());
        signature.append("_");
        signature.append(render_optional_protocol(self.protocol).as_str());
        signature.append("_");
        signature.append(self.direction.name());
        signature.append("_");
        signature.append(self.action.name());
        signature
    }
}

} // verus!
