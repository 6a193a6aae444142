use astral_wfp::{
    Condition, Direction, EngineError, FilterAction, FilterCache, FilterRule, InspectionPoint,
    IpFamily, Layer, Protocol, RuleConfig, SessionState, Side, SkipReason, SkippedFilter,
    TrafficStats, ValidationError, WeightCounter, WfpController, WfpError,
};
use astral_wfp::{select_layers, to_wide_string};

/// Stands in for the engine: every filter is installed, with identifiers
/// counting up from `first`.
fn install_all(
    controller: &mut WfpController,
    rules: &[FilterRule],
    first: u64,
) -> Result<Vec<u64>, WfpError> {
    let plan = controller.add_advanced_filters(rules)?;
    let replies: Vec<Result<u64, u32>> =
        (0..plan.filters.len()).map(|i| Ok(first + i as u64)).collect();
    controller.confirm_filters(&plan, &replies).map(|report| report.filter_ids)
}

/// Stands in for the engine at the end of a session: every deletion and
/// the closing succeed.
fn close(controller: &mut WfpController) -> Result<Vec<u64>, WfpError> {
    let codes = vec![0u32; controller.filter_ids.len()];
    controller.cleanup(&codes, 0)
}

fn ready() -> WfpController {
    let mut controller = WfpController::new();
    controller.initialize(0).unwrap();
    controller
}

#[test]
fn test_controller_creation() {
    let mut controller = WfpController::new();
    controller.initialize(0).unwrap();
    close(&mut controller).unwrap();
}

#[test]
fn test_add_filter_rules() {
    let mut controller = WfpController::new();
    controller.initialize(0).unwrap();

    let rules = vec![
        FilterRule::new("Block_App").app_path("C:\\test\\app.exe").action(FilterAction::Block),
        FilterRule::new("Block_IP").remote_ip("1.2.3.4").action(FilterAction::Block),
        FilterRule::new("Block_Port")
            .local_port(80)
            .protocol(Protocol::Tcp)
            .action(FilterAction::Block),
    ];

    install_all(&mut controller, &rules, 1).unwrap();
    close(&mut controller).unwrap();
}

#[test]
fn test_cidr_rules() {
    let mut controller = WfpController::new();
    controller.initialize(0).unwrap();

    let rule = FilterRule::new("Block_Network")
        .remote_ip("192.168.0.0/16")
        .action(FilterAction::Block);

    install_all(&mut controller, &[rule], 1).unwrap();
    close(&mut controller).unwrap();
}

#[test]
fn test_bidirectional_rules() {
    let mut controller = WfpController::new();
    controller.initialize(0).unwrap();

    let rule = FilterRule::new("Bidirectional_Block")
        .remote_port(80)
        .protocol(Protocol::Tcp)
        .direction(Direction::Both)
        .action(FilterAction::Block);

    install_all(&mut controller, &[rule], 1).unwrap();
    close(&mut controller).unwrap();
}

#[test]
fn test_complex_rule_combination() {
    let mut controller = WfpController::new();
    controller.initialize(0).unwrap();

    let rules = vec![
        FilterRule::new("Block_HTTP")
            .local_port(80)
            .protocol(Protocol::Tcp)
            .direction(Direction::Both)
            .action(FilterAction::Block),
        FilterRule::new("Allow_Internal").remote_ip("10.0.0.0/8").action(FilterAction::Allow),
        FilterRule::new("App_Control")
            .app_path("C:\\test\\app.exe")
            .remote_port(443)
            .protocol(Protocol::Tcp)
            .action(FilterAction::Allow),
    ];

    install_all(&mut controller, &rules, 1).unwrap();
    close(&mut controller).unwrap();
}

#[test]
fn test_filter_rule_with_nt_path() {
    let mut controller = WfpController::new();
    controller.initialize(0).unwrap();

    let app_path = "C:\\Windows\\System32\\notepad.exe";
    let mut cache = FilterCache::new();
    let resolved = Some("\\device\\harddiskvolume3\\windows\\system32\\notepad.exe".to_string());
    let nt_path = match cache.get_nt_path(app_path, resolved) {
        Some(path) => path,
        None => return,
    };

    let rule = FilterRule::new("NT路径测试")
        .app_path(&nt_path)
        .remote_ip("8.8.8.8")
        .action(FilterAction::Block);

    install_all(&mut controller, &[rule], 1).unwrap();
    close(&mut controller).unwrap();
}

#[test]
fn a_controller_follows_its_states() {
    let mut controller = WfpController::new();
    assert_eq!(controller.state, SessionState::Uninitialized);
    assert!(controller.filter_ids.is_empty());
    assert_eq!(controller.weights.current(), 1000);

    assert_eq!(
        controller.add_advanced_filters(&[FilterRule::new("r")]),
        Err(WfpError::InvalidState(SessionState::Uninitialized))
    );
    assert_eq!(
        controller.cleanup(&[], 0),
        Err(WfpError::InvalidState(SessionState::Uninitialized))
    );
    assert_eq!(
        controller.remove_filter(1, 0),
        Err(WfpError::InvalidState(SessionState::Uninitialized))
    );
    assert_eq!(
        controller.delete_filters(&[1], &[0]),
        Err(WfpError::InvalidState(SessionState::Uninitialized))
    );

    assert_eq!(
        controller.initialize(5),
        Err(WfpError::SessionFailure(EngineError::PermissionDenied))
    );
    assert_eq!(controller.state, SessionState::Uninitialized);
    assert_eq!(controller.initialize(0), Ok(()));
    assert_eq!(controller.state, SessionState::Initialized);
    assert_eq!(controller.initialize(0), Err(WfpError::InvalidState(SessionState::Initialized)));

    assert_eq!(controller.cleanup(&[], 0), Ok(vec![]));
    assert_eq!(controller.state, SessionState::Closed);
    assert_eq!(controller.initialize(0), Err(WfpError::InvalidState(SessionState::Closed)));
    assert_eq!(
        controller.add_advanced_filters(&[FilterRule::new("r")]),
        Err(WfpError::InvalidState(SessionState::Closed))
    );
}

#[test]
fn a_batch_with_one_invalid_rule_installs_the_others() {
    let mut controller = ready();
    let rules = vec![
        FilterRule::new("first").remote_port(80).direction(Direction::Outbound),
        FilterRule::new("broken").remote_ip("10.0.0.0/40"),
        FilterRule::new("third").remote_ip("8.8.8.8").direction(Direction::Inbound),
    ];
    let plan = controller.add_advanced_filters(&rules).unwrap();
    assert_eq!(
        plan.skipped,
        vec![SkippedFilter {
            rule_index: 1,
            reason: SkipReason::Invalid(ValidationError::UnreadableRemoteAddress),
        }]
    );
    let indices: Vec<usize> = plan.filters.iter().map(|f| f.rule_index).collect();
    assert_eq!(indices, vec![0, 0, 2]);
    let layers: Vec<Layer> = plan.filters.iter().map(|f| f.descriptor.layer).collect();
    assert_eq!(
        layers,
        vec![
            Layer { point: InspectionPoint::AuthConnect, family: IpFamily::V4 },
            Layer { point: InspectionPoint::AuthConnect, family: IpFamily::V6 },
            Layer { point: InspectionPoint::AuthRecvAccept, family: IpFamily::V4 },
        ]
    );
    let weights: Vec<u64> = plan.filters.iter().map(|f| f.descriptor.weight).collect();
    assert_eq!(weights, vec![1001, 1002, 1012]);
    assert_eq!(controller.weights.current(), 1012);

    let replies = vec![Ok(11), Ok(12), Ok(13)];
    let report = controller.confirm_filters(&plan, &replies).unwrap();
    assert_eq!(report.filter_ids, vec![11, 12, 13]);
    assert_eq!(report.rule_indices, vec![0, 0, 2]);
    assert!(report.rejections.is_empty());
    assert_eq!(controller.filter_ids, vec![11, 12, 13]);
}

#[test]
fn a_refusal_at_one_layer_does_not_stop_the_batch() {
    let mut controller = ready();
    let rules = vec![
        FilterRule::new("a").app_path("app").remote_ip("1.2.3.4").direction(Direction::Outbound),
        FilterRule::new("b").local_port(22),
    ];
    let plan = controller.add_advanced_filters(&rules).unwrap();
    assert_eq!(plan.filters.len(), 6);
    assert!(plan.skipped.is_empty());
    let replies = vec![Ok(1), Err(2150760450), Err(5), Ok(2), Err(183), Err(1168)];
    let report = controller.confirm_filters(&plan, &replies).unwrap();
    assert_eq!(report.filter_ids, vec![1, 2]);
    assert_eq!(report.rule_indices, vec![0, 1]);
    assert_eq!(controller.filter_ids, vec![1, 2]);
    assert_eq!(report.rejections.len(), 4);
    let first = report.rejections[0];
    assert_eq!(first.rule_index, 0);
    assert_eq!(
        first.layer,
        Layer { point: InspectionPoint::EndpointClosure, family: IpFamily::V4 }
    );
    assert_eq!(first.error, EngineError::InvalidConditionCombination);
    assert_eq!(first.condition_count, 2);
    assert!(first.has_identity);
    assert!(first.has_remote_address);
    let second = report.rejections[1];
    assert_eq!(second.rule_index, 1);
    assert_eq!(second.error, EngineError::PermissionDenied);
    assert_eq!(second.condition_count, 1);
    assert!(!second.has_identity);
    assert!(!second.has_remote_address);
    assert_eq!(report.rejections[2].error, EngineError::AlreadyExists);
    assert_eq!(report.rejections[3].error, EngineError::NotFound);
}

#[test]
fn a_batch_without_any_installed_filter_fails() {
    let mut controller = ready();
    let rules = vec![FilterRule::new("a").remote_ip("1.2.3.4").direction(Direction::Outbound)];
    let plan = controller.add_advanced_filters(&rules).unwrap();
    let result = controller.confirm_filters(&plan, &vec![Err(87)]);
    match result {
        Err(WfpError::NothingInstalled(rejections)) => {
            assert_eq!(rejections.len(), 1);
            assert_eq!(rejections[0].error, EngineError::InvalidConditionCombination);
            assert_eq!(rejections[0].rule_index, 0);
        }
        other => panic!("{:?}", other),
    }
    assert!(controller.filter_ids.is_empty());

    let plan = controller.add_advanced_filters(&[FilterRule::new("bad").local_ip("x")]).unwrap();
    assert!(plan.filters.is_empty());
    assert_eq!(
        controller.confirm_filters(&plan, &vec![]),
        Err(WfpError::NothingInstalled(vec![]))
    );
    let plan = controller.add_advanced_filters(&[]).unwrap();
    assert_eq!(
        controller.confirm_filters(&plan, &vec![]),
        Err(WfpError::NothingInstalled(vec![]))
    );
}

#[test]
fn filters_without_an_answer_count_as_not_handed_in() {
    let mut controller = ready();
    let plan = controller.add_advanced_filters(&[FilterRule::new("a")]).unwrap();
    assert_eq!(plan.filters.len(), 4);
    let report = controller.confirm_filters(&plan, &vec![Ok(7), Err(99)]).unwrap();
    assert_eq!(report.filter_ids, vec![7]);
    assert_eq!(report.rejections.len(), 1);
    assert_eq!(report.rejections[0].error, EngineError::Unknown);
    let report = controller
        .confirm_filters(&plan, &vec![Ok(1), Ok(2), Ok(3), Ok(4), Ok(5), Ok(6)])
        .unwrap();
    assert_eq!(report.filter_ids, vec![1, 2, 3, 4]);
    assert_eq!(controller.filter_ids, vec![7, 1, 2, 3, 4]);
}

#[test]
fn planned_filters_carry_the_compiled_conditions() {
    let mut controller = ready();
    let rule = FilterRule::new("Allow_Internal")
        .remote_ip("10.0.0.0/8")
        .action(FilterAction::Allow)
        .direction(Direction::Outbound);
    let plan = controller.add_advanced_filters(&[rule.clone()]).unwrap();
    assert_eq!(plan.filters.len(), 1);
    let descriptor = &plan.filters[0].descriptor;
    assert_eq!(
        descriptor.conditions,
        vec![Condition::AddressRangeV4 { side: Side::Remote, low: 0x0a000000, high: 0x0affffff }]
    );
    assert_eq!(descriptor.action, FilterAction::Allow);
    assert_eq!(descriptor.weight, 1010);
    assert_eq!(descriptor.name, "Allow_Internal");

    let layers = controller.get_layers_for_rule(&rule);
    assert_eq!(layers.len(), 1);
    assert_eq!(controller.get_layer_name(&layers[0]), "ALE_AUTH_CONNECT_V4");
    let single = controller.add_advanced_network_filter(&rule, layers[0]).unwrap();
    assert_eq!(single.descriptor.weight, 1020);
    assert_eq!(single.descriptor.conditions, descriptor.conditions);
}

#[test]
fn weights_that_have_run_out_leave_a_layer_out() {
    let mut controller = ready();
    controller.weights = WeightCounter::starting_at(u64::MAX - 12);
    let rules = vec![
        FilterRule::new("a").remote_ip("1.2.3.4"),
        FilterRule::new("b").local_port(1).direction(Direction::Inbound),
    ];
    let plan = controller.add_advanced_filters(&rules).unwrap();
    let weights: Vec<u64> = plan.filters.iter().map(|f| f.descriptor.weight).collect();
    assert_eq!(weights, vec![u64::MAX - 2, u64::MAX - 1, u64::MAX]);
    assert_eq!(
        plan.skipped,
        vec![SkippedFilter {
            rule_index: 0,
            reason: SkipReason::WeightsExhausted(Layer {
                point: InspectionPoint::AuthRecvAccept,
                family: IpFamily::V4,
            }),
        }]
    );
    let rule = FilterRule::new("c");
    let layer = Layer { point: InspectionPoint::AuthConnect, family: IpFamily::V4 };
    assert_eq!(controller.add_advanced_network_filter(&rule, layer), None);
}

#[test]
fn deleted_filters_are_struck_from_the_books() {
    let mut controller = ready();
    controller.filter_ids = vec![1, 2, 3, 2, 4];
    assert_eq!(controller.remove_filter(2, 0), Ok(()));
    assert_eq!(controller.filter_ids, vec![1, 3, 2, 4]);
    assert_eq!(
        controller.remove_filter(3, 5),
        Err(WfpError::EngineRejection(EngineError::PermissionDenied))
    );
    assert_eq!(controller.filter_ids, vec![1, 3, 2, 4]);
    assert_eq!(controller.remove_filter(99, 0), Ok(()));
    assert_eq!(controller.filter_ids, vec![1, 3, 2, 4]);
    assert!(controller.is_tracked(3));
    assert!(!controller.is_tracked(99));

    assert_eq!(controller.delete_filters(&[4, 3, 77, 1], &[0, 1168, 0]), Ok(2));
    assert_eq!(controller.filter_ids, vec![1, 3, 2]);
    assert_eq!(controller.delete_filters(&[1, 3], &[5, 5]), Err(WfpError::NothingDeleted));
    assert_eq!(controller.delete_filters(&[], &[]), Err(WfpError::NothingDeleted));
    assert_eq!(controller.filter_ids, vec![1, 3, 2]);
    assert_eq!(controller.delete_filters(&[2, 2], &[0, 0]), Ok(2));
    assert_eq!(controller.filter_ids, vec![1, 3]);
    assert_eq!(controller.get_filter_ids(&FilterRule::new("any")), vec![1, 3]);
    assert!(controller.get_rules().is_empty());
}

#[test]
fn closing_releases_every_filter() {
    let mut controller = ready();
    controller.filter_ids = vec![1, 2, 3, 4];
    assert_eq!(
        controller.cleanup(&[0, 5, 0], 1),
        Err(WfpError::SessionFailure(EngineError::Unknown))
    );
    assert_eq!(controller.state, SessionState::Initialized);
    assert_eq!(controller.filter_ids, vec![2, 4]);
    assert_eq!(controller.cleanup(&[5, 0], 0), Ok(vec![2]));
    assert_eq!(controller.state, SessionState::Closed);
    assert!(controller.filter_ids.is_empty());
}

#[test]
fn rule_sets_are_exported_and_imported() {
    let mut controller = ready();
    let config = controller.export_rules("42");
    assert_eq!(config.version, "1.0");
    assert!(config.rules.is_empty());
    assert_eq!(config.metadata.created_at, "42");
    assert_eq!(config.metadata.description, Some("导出的WFP规则配置".to_string()));

    let rules = [
        FilterRule::new("a").remote_port(80).direction(Direction::Outbound),
        FilterRule::new("b").remote_ip("172.99.0.1"),
    ];
    let config = RuleConfig::from_rules(&rules, "42");
    let plan = controller.import_rules(&config).unwrap();
    assert_eq!(plan.filters.len(), 2);
    assert_eq!(plan.filters[0].descriptor.name, "a");
    assert_eq!(
        plan.skipped,
        vec![SkippedFilter {
            rule_index: 1,
            reason: SkipReason::Invalid(ValidationError::InvalidRemoteAddress),
        }]
    );
    let mut closed = WfpController::new();
    assert_eq!(
        closed.import_rules(&config),
        Err(WfpError::InvalidState(SessionState::Uninitialized))
    );
}

#[test]
fn engine_codes_are_sorted_into_kinds() {
    assert_eq!(EngineError::from_code(5), EngineError::PermissionDenied);
    assert_eq!(EngineError::from_code(87), EngineError::InvalidConditionCombination);
    assert_eq!(EngineError::from_code(50), EngineError::InvalidConditionCombination);
    assert_eq!(EngineError::from_code(2150760450), EngineError::InvalidConditionCombination);
    assert_eq!(EngineError::from_code(183), EngineError::AlreadyExists);
    assert_eq!(EngineError::from_code(1168), EngineError::NotFound);
    assert_eq!(EngineError::from_code(1), EngineError::Unknown);
    assert_eq!(EngineError::check(0), Ok(()));
    assert_eq!(EngineError::check(5), Err(EngineError::PermissionDenied));
}

#[test]
fn the_cache_asks_for_a_path_once() {
    let mut cache = FilterCache::new();
    assert_eq!(cache.cached_nt_path("C:\\a.exe"), None);
    assert_eq!(cache.get_nt_path("C:\\a.exe", None), None);
    assert_eq!(cache.cached_nt_path("C:\\a.exe"), None);
    assert_eq!(
        cache.get_nt_path("C:\\a.exe", Some("\\device\\v1\\a.exe".to_string())),
        Some("\\device\\v1\\a.exe".to_string())
    );
    assert_eq!(
        cache.get_nt_path("C:\\a.exe", Some("\\device\\other".to_string())),
        Some("\\device\\v1\\a.exe".to_string())
    );
    assert_eq!(
        cache.get_nt_path("C:\\a.exe", None),
        Some("\\device\\v1\\a.exe".to_string())
    );
    assert_eq!(cache.cached_nt_path("C:\\b.exe"), None);
    assert_eq!(
        cache.get_nt_path("C:\\b.exe", Some("\\device\\v1\\b.exe".to_string())),
        Some("\\device\\v1\\b.exe".to_string())
    );
    assert_eq!(cache.cached_nt_path("C:\\a.exe"), Some("\\device\\v1\\a.exe".to_string()));
    assert_eq!(cache.app_path_cache.len(), 2);
}

#[test]
fn traffic_is_counted_by_outcome() {
    let mut stats = TrafficStats::new();
    assert_eq!(stats.last_activity, None);
    stats.increment_allowed(3, 1500, 100);
    stats.increment_allowed(1, 40, 101);
    stats.increment_blocked(2, 80, 102);
    assert_eq!(stats.packets_allowed, 4);
    assert_eq!(stats.bytes_allowed, 1540);
    assert_eq!(stats.connections_allowed, 2);
    assert_eq!(stats.packets_blocked, 2);
    assert_eq!(stats.bytes_blocked, 80);
    assert_eq!(stats.connections_blocked, 1);
    assert_eq!(stats.last_activity, Some(102));
    stats.reset();
    assert_eq!(stats, TrafficStats::new());
}

#[test]
fn wide_strings_are_utf16_with_a_closing_zero() {
    assert_eq!(to_wide_string(""), vec![0]);
    assert_eq!(to_wide_string("Ab"), vec![0x41, 0x62, 0]);
    assert_eq!(to_wide_string("é网"), vec![0xe9, 0x7f51, 0]);
    assert_eq!(to_wide_string("😀"), vec![0xd83d, 0xde00, 0]);
    assert_eq!(to_wide_string("\u{ffff}\u{10000}\u{10ffff}"), vec![0xffff, 0xd800, 0xdc00, 0xdbff, 0xdfff, 0]);
    let expected: Vec<u16> = "AstralWFP Manager".encode_utf16().chain(std::iter::once(0)).collect();
    assert_eq!(to_wide_string("AstralWFP Manager"), expected);
}

#[test]
fn a_rule_fails_as_a_whole_when_none_of_its_filters_is_installed() {
    let mut controller = ready();
    let rules = vec![
        FilterRule::new("a").remote_port(1).direction(Direction::Outbound),
        FilterRule::new("bad").remote_ip("?"),
        FilterRule::new("c").remote_port(3).direction(Direction::Inbound),
        FilterRule::new("d").remote_port(4).direction(Direction::Inbound),
    ];
    let plan = controller.add_advanced_filters(&rules).unwrap();
    assert_eq!(plan.filters.len(), 6);
    let replies = vec![Ok(1), Err(5), Err(5), Err(87)];
    assert!(!plan.rule_failed(&replies, 0));
    assert!(!plan.rule_failed(&replies, 1));
    assert!(plan.rule_failed(&replies, 2));
    assert!(!plan.rule_failed(&replies, 3));
    assert!(!plan.rule_failed(&replies, 9));
    assert!(!plan.rule_failed(&vec![], 0));
    let all_refused = vec![Err(5); 6];
    assert!(plan.rule_failed(&all_refused, 0));
    assert!(plan.rule_failed(&all_refused, 3));
}

#[test]
fn removing_what_is_already_removed_is_no_error() {
    let mut controller = ready();
    controller.filter_ids = vec![1, 2, 3];
    assert_eq!(controller.delete_filters(&[1, 2], &[0, 0]), Ok(2));
    assert_eq!(controller.filter_ids, vec![3]);

    // The engine no longer knows the filters and refuses each deletion.
    assert_eq!(controller.delete_filters(&[1, 2], &[1168, 1168]), Ok(0));
    assert_eq!(controller.filter_ids, vec![3]);
    assert_eq!(controller.delete_filters(&[2], &[5]), Ok(0));
    assert_eq!(controller.remove_filter(1, 1168), Ok(()));
    assert_eq!(controller.remove_filter(2, 5), Ok(()));
    assert_eq!(controller.filter_ids, vec![3]);

    // A refusal for a filter that is still on the books is an error.
    assert_eq!(controller.delete_filters(&[1, 3], &[1168, 5]), Err(WfpError::NothingDeleted));
    assert_eq!(
        controller.remove_filter(3, 5),
        Err(WfpError::EngineRejection(EngineError::PermissionDenied))
    );
    assert_eq!(controller.filter_ids, vec![3]);

    // Nothing asked for, or nothing answered for, is an error as before.
    assert_eq!(controller.delete_filters(&[], &[]), Err(WfpError::NothingDeleted));
    assert_eq!(controller.delete_filters(&[9], &[]), Err(WfpError::NothingDeleted));
}

#[test]
fn the_cache_remembers_the_layers_of_a_rule_by_its_signature() {
    let mut cache = FilterCache::new();
    let rule = FilterRule::new("r").app_path("app").remote_ip("1.2.3.4");
    assert_eq!(cache.cached_layers(&rule.signature()), None);
    let layers = cache.get_layers(&rule);
    assert_eq!(layers, select_layers(&rule));
    assert_eq!(layers.len(), 3);
    assert_eq!(cache.cached_layers(&rule.signature()), Some(layers.clone()));
    assert_eq!(cache.layer_cache.len(), 1);

    // A rule of the same signature is answered from the cache.
    let twin = FilterRule::new("r").app_path("app").remote_ip("1.2.3.4").priority(9);
    assert_eq!(cache.get_layers(&twin), layers);
    assert_eq!(cache.layer_cache.len(), 1);

    let other = FilterRule::new("o").direction(Direction::Inbound);
    assert_eq!(cache.cached_layers(&other.signature()), None);
    assert_eq!(
        cache.get_layers(&other),
        vec![
            Layer { point: InspectionPoint::AuthRecvAccept, family: IpFamily::V4 },
            Layer { point: InspectionPoint::AuthRecvAccept, family: IpFamily::V6 },
        ]
    );
    assert_eq!(cache.layer_cache.len(), 2);
    assert_eq!(cache.get_layers(&rule), layers);
    assert!(cache.app_path_cache.is_empty());
}

#[test]
fn a_batch_of_three_with_a_bad_network_installs_the_other_two() {
    let mut controller = ready();
    let rules = vec![
        FilterRule::new("a").remote_ip("8.8.8.8").direction(Direction::Outbound),
        FilterRule::new("b").remote_ip("10.0.0.0/40"),
        FilterRule::new("c").app_path("app").remote_ip("1.2.3.4"),
    ];
    let expected =
        controller.get_layers_for_rule(&rules[0]).len() + controller.get_layers_for_rule(&rules[2]).len();
    let plan = controller.add_advanced_filters(&rules).unwrap();
    assert_eq!(plan.filters.len(), expected);
    assert!(plan.filters.iter().all(|f| f.rule_index != 1));
    assert_eq!(
        plan.skipped,
        vec![SkippedFilter {
            rule_index: 1,
            reason: SkipReason::Invalid(ValidationError::UnreadableRemoteAddress),
        }]
    );
    let replies: Vec<Result<u64, u32>> = (0..plan.filters.len()).map(|i| Ok(100 + i as u64)).collect();
    let report = controller.confirm_filters(&plan, &replies).unwrap();
    assert_eq!(report.filter_ids.len(), expected);
    assert_eq!(report.filter_ids, vec![100, 101, 102, 103]);
    assert_eq!(report.rule_indices, vec![0, 2, 2, 2]);
    assert!(report.rejections.is_empty());
    for index in 0..rules.len() {
        assert!(!plan.rule_failed(&replies, index));
    }
}
