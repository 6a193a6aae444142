use astral_wfp::{
    Direction, FilterAction, FilterRule, FilterRuleConfig, Protocol, RuleConfig, TimeControl,
    ValidationError,
};

#[test]
fn test_filter_rule_builder() {
    let rule = FilterRule::new("Test_Rule")
        .app_path("C:\\test\\app.exe")
        .local_port(80)
        .remote_port(443)
        .protocol(Protocol::Tcp)
        .direction(Direction::Inbound)
        .action(FilterAction::Block);

    assert_eq!(rule.name, "Test_Rule");
    assert_eq!(rule.app_path, Some("C:\\test\\app.exe".to_string()));
    assert_eq!(rule.local_port, Some(80));
    assert_eq!(rule.remote_port, Some(443));
    assert!(matches!(rule.protocol, Some(Protocol::Tcp)));
    assert!(matches!(rule.direction, Direction::Inbound));
    assert!(matches!(rule.action, FilterAction::Block));
}

#[test]
fn a_new_rule_blocks_everything_in_both_directions() {
    let rule = FilterRule::new("r");
    assert_eq!(rule.name, "r");
    assert_eq!(rule.app_path, None);
    assert_eq!(rule.local, None);
    assert_eq!(rule.remote, None);
    assert_eq!(rule.local_port, None);
    assert_eq!(rule.remote_port, None);
    assert_eq!(rule.local_port_range, None);
    assert_eq!(rule.remote_port_range, None);
    assert_eq!(rule.protocol, None);
    assert_eq!(rule.direction, Direction::Both);
    assert_eq!(rule.action, FilterAction::Block);
    assert_eq!(rule.priority, 0);
    assert_eq!(rule.group, None);
    assert!(rule.enabled);
    assert_eq!(rule.time_control, None);
    assert_eq!(rule.description, None);
}

#[test]
fn every_builder_sets_its_own_field() {
    let window = TimeControl::new().hours(8, 17);
    let rule = FilterRule::new("r")
        .local_ip("10.0.0.1")
        .remote_ip("10.0.0.0/8")
        .local_port_range(1, 2)
        .remote_port_range(3, 4)
        .priority(7)
        .group("g")
        .enabled(false)
        .time_control(window.clone())
        .description("d");
    assert_eq!(rule.local, Some("10.0.0.1".to_string()));
    assert_eq!(rule.remote, Some("10.0.0.0/8".to_string()));
    assert_eq!(rule.local_port_range, Some((1, 2)));
    assert_eq!(rule.remote_port_range, Some((3, 4)));
    assert_eq!(rule.priority, 7);
    assert_eq!(rule.group, Some("g".to_string()));
    assert!(!rule.enabled);
    assert_eq!(rule.time_control, Some(window));
    assert_eq!(rule.description, Some("d".to_string()));
    assert_eq!(rule.name, "r");
    assert_eq!(rule.direction, Direction::Both);
}

#[test]
fn validation_accepts_addresses_and_networks() {
    assert_eq!(FilterRule::new("r").validate(), Ok(()));
    assert_eq!(FilterRule::new("r").remote_ip("1.2.3.4").validate(), Ok(()));
    assert_eq!(FilterRule::new("r").remote_ip("10.200.3.4").validate(), Ok(()));
    assert_eq!(FilterRule::new("r").remote_ip("172.16.0.1").validate(), Ok(()));
    assert_eq!(FilterRule::new("r").remote_ip("172.31.255.255").validate(), Ok(()));
    assert_eq!(FilterRule::new("r").remote_ip("192.168.1.1").validate(), Ok(()));
    assert_eq!(FilterRule::new("r").remote_ip("2001:db8::1").validate(), Ok(()));
    assert_eq!(FilterRule::new("r").remote_ip("192.168.0.0/16").validate(), Ok(()));
    assert_eq!(FilterRule::new("r").remote_ip("192.1.0.0/16").validate(), Ok(()));
    assert_eq!(FilterRule::new("r").local_ip("2001:db8::/32").validate(), Ok(()));
    assert_eq!(FilterRule::new("r").local_ip("8.8.8.8").remote_ip("9.9.9.9").validate(), Ok(()));
}

#[test]
fn validation_names_the_first_fault() {
    assert_eq!(
        FilterRule::new("r").remote_ip("172.15.0.1").validate(),
        Err(ValidationError::InvalidRemoteAddress)
    );
    assert_eq!(
        FilterRule::new("r").remote_ip("172.32.0.1").validate(),
        Err(ValidationError::InvalidRemoteAddress)
    );
    assert_eq!(
        FilterRule::new("r").remote_ip("192.169.0.1").validate(),
        Err(ValidationError::InvalidRemoteAddress)
    );
    assert_eq!(
        FilterRule::new("r").local_ip("192.167.0.1").validate(),
        Err(ValidationError::InvalidLocalAddress)
    );
    assert_eq!(
        FilterRule::new("r").remote_ip("not an address").validate(),
        Err(ValidationError::UnreadableRemoteAddress)
    );
    assert_eq!(
        FilterRule::new("r").remote_ip("10.0.0.0/33").validate(),
        Err(ValidationError::UnreadableRemoteAddress)
    );
    assert_eq!(
        FilterRule::new("r").local_ip("1.2.3").validate(),
        Err(ValidationError::UnreadableLocalAddress)
    );
    assert_eq!(
        FilterRule::new("r").local_ip("bad").remote_ip("172.1.1.1").validate(),
        Err(ValidationError::InvalidRemoteAddress)
    );
}

#[test]
fn the_signature_joins_the_matching_fields() {
    let rule = FilterRule::new("Test_Rule")
        .app_path("C:\\test\\app.exe")
        .remote_ip("10.0.0.0/8")
        .local_port(80)
        .remote_port_range(8000, 8010)
        .protocol(Protocol::IcmpV6)
        .direction(Direction::Outbound)
        .action(FilterAction::Allow);
    assert_eq!(
        rule.signature(),
        "Test_Rule_Some(\"C:\\\\test\\\\app.exe\")_None_Some(\"10.0.0.0/8\")_Some(80)_None_None_Some((8000, 8010))_Some(IcmpV6)_Outbound_Allow"
    );
    assert_eq!(
        FilterRule::new("n").signature(),
        "n_None_None_None_None_None_None_None_None_Both_Block"
    );
    assert_eq!(
        FilterRule::new("n").local_port(0).remote_port(65535).signature(),
        "n_None_None_None_Some(0)_Some(65535)_None_None_None_Both_Block"
    );
}

#[test]
fn the_signature_leaves_out_what_does_not_match_traffic() {
    let plain = FilterRule::new("n").remote_ip("1.2.3.4");
    let dressed = FilterRule::new("n")
        .remote_ip("1.2.3.4")
        .priority(9)
        .enabled(false)
        .group("g")
        .description("d")
        .time_control(TimeControl::new().start_time(5));
    assert_eq!(plain.signature(), dressed.signature());
    assert_ne!(plain.signature(), FilterRule::new("n").remote_ip("1.2.3.5").signature());
    assert_ne!(
        plain.signature(),
        FilterRule::new("n").remote_ip("1.2.3.4").local_port_range(1, 2).signature()
    );
}

#[test]
fn protocols_have_numbers_texts_and_names() {
    assert_eq!(Protocol::Tcp.number(), Some(6));
    assert_eq!(Protocol::Udp.number(), Some(17));
    assert_eq!(Protocol::Icmp.number(), Some(1));
    assert_eq!(Protocol::IcmpV6.number(), Some(58));
    assert_eq!(Protocol::Igmp.number(), Some(2));
    assert_eq!(Protocol::Ah.number(), Some(51));
    assert_eq!(Protocol::Esp.number(), Some(50));
    assert_eq!(Protocol::Gre.number(), Some(47));
    assert_eq!(Protocol::Ipsec.number(), Some(50));
    assert_eq!(Protocol::Any.number(), None);
    assert_eq!(Protocol::IcmpV6.to_text(), "ICMPv6");
    assert_eq!(Protocol::Tcp.to_text(), "TCP");
    assert_eq!(Protocol::parse("tcp"), Some(Protocol::Tcp));
    assert_eq!(Protocol::parse("TCP"), Some(Protocol::Tcp));
    assert_eq!(Protocol::parse("IcMpV6"), Some(Protocol::IcmpV6));
    assert_eq!(Protocol::parse("ipsec"), Some(Protocol::Ipsec));
    assert_eq!(Protocol::parse("any"), Some(Protocol::Any));
    assert_eq!(Protocol::parse("tcp "), None);
    assert_eq!(Protocol::parse(""), None);
    assert_eq!(Protocol::parse("sctp"), None);
    for p in [
        Protocol::Tcp, Protocol::Udp, Protocol::Icmp, Protocol::IcmpV6, Protocol::Igmp,
        Protocol::Ah, Protocol::Esp, Protocol::Gre, Protocol::Ipsec, Protocol::Any,
    ] {
        assert_eq!(Protocol::parse(p.to_text()), Some(p));
    }
}

#[test]
fn directions_and_actions_are_read_from_their_names() {
    assert_eq!(Direction::from_name("Inbound"), Direction::Inbound);
    assert_eq!(Direction::from_name("Outbound"), Direction::Outbound);
    assert_eq!(Direction::from_name("Both"), Direction::Both);
    assert_eq!(Direction::from_name("inbound"), Direction::Both);
    assert_eq!(FilterAction::from_name("Allow"), FilterAction::Allow);
    assert_eq!(FilterAction::from_name("Block"), FilterAction::Block);
    assert_eq!(FilterAction::from_name("allow"), FilterAction::Block);
    assert_eq!(Direction::Outbound.name(), "Outbound");
    assert_eq!(FilterAction::Allow.name(), "Allow");
}

#[test]
fn a_rule_written_out_and_read_back_keeps_its_signature() {
    let rules = [
        FilterRule::new("a"),
        FilterRule::new("b")
            .app_path("\\device\\harddiskvolume1\\x.exe")
            .local_ip("::1")
            .remote_ip("10.0.0.0/8")
            .local_port(1)
            .remote_port(2)
            .local_port_range(3, 4)
            .remote_port_range(5, 6)
            .protocol(Protocol::Any)
            .direction(Direction::Inbound)
            .action(FilterAction::Allow)
            .priority(3)
            .group("g")
            .enabled(false)
            .description("d")
            .time_control(TimeControl::new().end_time(9)),
        FilterRule::new("c").protocol(Protocol::IcmpV6).direction(Direction::Outbound),
    ];
    for rule in rules.iter() {
        let config = FilterRuleConfig::from_rule(rule);
        let back = config.to_rule();
        assert_eq!(back.signature(), rule.signature());
        assert_eq!(back.priority, rule.priority);
        assert_eq!(back.group, rule.group);
        assert_eq!(back.enabled, rule.enabled);
        assert_eq!(back.description, rule.description);
        assert_eq!(back.time_control, None);
    }
    let config = FilterRuleConfig::from_rule(&rules[1]);
    assert_eq!(config.protocol, Some("ANY".to_string()));
    assert_eq!(config.direction, "Inbound");
    assert_eq!(config.action, "Allow");
    assert_eq!(config.local_ip, Some("::1".to_string()));
}

#[test]
fn a_written_out_rule_with_unknown_names_falls_back() {
    let mut config = FilterRuleConfig::from_rule(&FilterRule::new("a").protocol(Protocol::Tcp));
    config.protocol = Some("quic".to_string());
    config.direction = "Sideways".to_string();
    config.action = "Shrug".to_string();
    let rule = config.to_rule();
    assert_eq!(rule.protocol, None);
    assert_eq!(rule.direction, Direction::Both);
    assert_eq!(rule.action, FilterAction::Block);
}

#[test]
fn a_rule_set_is_written_out_with_its_metadata() {
    let rules = [FilterRule::new("a"), FilterRule::new("b").remote_port(53)];
    let config = RuleConfig::from_rules(&rules, "1700000000");
    assert_eq!(config.version, "1.0");
    assert_eq!(config.rules.len(), 2);
    assert_eq!(config.rules[1].remote_port, Some(53));
    assert!(config.groups.is_empty());
    assert_eq!(config.metadata.created_at, "1700000000");
    assert_eq!(config.metadata.created_by, "AstralWFP");
    assert_eq!(config.metadata.tags, vec!["wfp".to_string(), "firewall".to_string()]);
    let back = config.to_rules();
    assert_eq!(back.len(), 2);
    assert_eq!(back[0].signature(), rules[0].signature());
    assert_eq!(back[1].signature(), rules[1].signature());
}

#[test]
fn a_time_window_is_open_within_all_its_bounds() {
    // The second 1_700_000_000 is a Tuesday, 22:13:20 UTC.
    let now = 1_700_000_000u64;
    assert!(TimeControl::new().is_active(now));
    assert!(TimeControl::new().start_time(now).is_active(now));
    assert!(!TimeControl::new().start_time(now + 1).is_active(now));
    assert!(TimeControl::new().end_time(now).is_active(now));
    assert!(!TimeControl::new().end_time(now - 1).is_active(now));
    assert!(TimeControl::new().days_of_week(vec![1, 2]).is_active(now));
    assert!(!TimeControl::new().days_of_week(vec![0, 1, 3, 4, 5, 6]).is_active(now));
    assert!(!TimeControl::new().days_of_week(vec![]).is_active(now));
    assert!(TimeControl::new().hours(22, 22).is_active(now));
    assert!(TimeControl::new().hours(0, 23).is_active(now));
    assert!(!TimeControl::new().hours(0, 21).is_active(now));
    assert!(!TimeControl::new().hours(23, 23).is_active(now));
    assert!(TimeControl::new().is_active(0));
    assert!(TimeControl::new().days_of_week(vec![4]).hours(0, 0).is_active(0));
}

#[test]
fn validation_errors_are_told_with_the_address() {
    let rule = FilterRule::new("r").remote_ip("172.15.0.1").local_ip("nonsense");
    assert_eq!(
        ValidationError::InvalidRemoteAddress.message(&rule),
        "无效的远程 IP 地址: 172.15.0.1"
    );
    assert_eq!(
        ValidationError::UnreadableRemoteAddress.message(&rule),
        "无法解析的 IP 地址格式: 172.15.0.1"
    );
    assert_eq!(
        ValidationError::InvalidLocalAddress.message(&rule),
        "无效的本地 IP 地址: nonsense"
    );
    assert_eq!(
        ValidationError::UnreadableLocalAddress.message(&rule),
        "无法解析的本地 IP 地址格式: nonsense"
    );
    assert_eq!(
        ValidationError::UnreadableLocalAddress.message(&FilterRule::new("r")),
        "无法解析的本地 IP 地址格式: "
    );
}
