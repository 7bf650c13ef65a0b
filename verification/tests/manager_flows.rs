use routelane::config::{Language, PersistedRule};
use routelane::engine::{
    activated_status_line, activation_replies, active_count_status_line, add_rule_replies,
    deactivation_replies, failure_message, inactive_status_line, load_rule_replies,
    remove_rule_replies, reset_replies, route_test_addresses, route_test_replies,
    route_test_report, route_test_target, save_config, saved_rule_target, startup_cleanup_replies,
    EngineFailure,
    RouteTestTarget,
};
use routelane::manager::{cidr_family, families_of, RoutingStateManager};
use routelane::models::{
    EngineToUi, HelperOp, IpFamily, RouteProbe, RouteTestReport, RoutingRule, RuleTarget,
};

fn strs(v: &[&str]) -> Vec<String> {
    v.iter().map(|s| s.to_string()).collect()
}

fn add_route(op: &HelperOp) -> Option<(String, String, u32, IpFamily)> {
    match op {
        HelperOp::AddRoute { gateway, interface, table, family } => {
            Some((gateway.clone(), interface.clone(), *table, *family))
        }
        _ => None,
    }
}

fn add_rule(op: &HelperOp) -> Option<(String, u32, u32, IpFamily)> {
    match op {
        HelperOp::AddRule { destination, table, priority, family } => {
            Some((destination.clone(), *table, *priority, *family))
        }
        _ => None,
    }
}

#[test]
fn families_of_addresses() {
    assert_eq!(cidr_family("1.2.3.4/32"), Ok(IpFamily::V4));
    assert_eq!(cidr_family("1.2.3.4"), Ok(IpFamily::V4));
    assert_eq!(cidr_family("::1/128"), Ok(IpFamily::V6));
    assert_eq!(cidr_family("nope"), Err("Geçersiz IP/CIDR: nope".to_owned()));
    assert_eq!(cidr_family("1.2.3.4/abc"), Ok(IpFamily::V4));
    let f = families_of(&strs(&["1.2.3.4/32", "::1/128"])).unwrap();
    assert!(f.v4 && f.v6);
    assert_eq!(
        families_of(&strs(&["1.2.3.4/32", "x"])).err(),
        Some("Geçersiz IP/CIDR: x".to_owned())
    );
}

#[test]
fn a_new_manager_is_empty_and_off() {
    let m = RoutingStateManager::new();
    assert!(!m.is_active());
    assert!(m.rules().is_empty());
    assert_eq!(m.alt_interface(), None);
    assert!(m.domain_rule_ids().is_empty());
    assert!(m.can_add_rule());
}

#[test]
fn interface_preference_is_kept_and_cleared() {
    let mut m = RoutingStateManager::new();
    m.set_alt_interface_preference("tun0");
    assert_eq!(m.alt_interface(), Some("tun0"));
    m.clear_alt_interface_preference();
    assert_eq!(m.alt_interface(), None);
}

#[test]
fn rules_added_while_off_plan_nothing() {
    let mut m = RoutingStateManager::new();
    let ops = m
        .add_rule_ops(&strs(&["1.2.3.4/32"]), "tun0", Some("10.0.0.1".to_owned()), None)
        .unwrap();
    assert!(ops.is_empty());
    let r = m.add_rule(RuleTarget::Ip("1.2.3.4/32".to_owned()), strs(&["1.2.3.4/32"]), "tun0");
    assert_eq!(r.id, 0);
    assert_eq!(r.priority, 10_000);
    assert_eq!(r.interface, "tun0");
    let r2 = m.add_rule(
        RuleTarget::Domain("example.com".to_owned()),
        strs(&["93.184.216.34/32", "2606:2800::1/128"]),
        "tun0",
    );
    assert_eq!(r2.id, 1);
    assert_eq!(r2.priority, 10_001);
    assert_eq!(m.rules().len(), 2);
    assert_eq!(m.domain_rule_ids(), vec![1]);
    let fams = m.required_families();
    assert!(fams.v4 && fams.v6);
}

#[test]
fn activation_needs_an_interface() {
    let m = RoutingStateManager::new();
    assert_eq!(
        m.activate_all(Some("10.0.0.1".to_owned()), None).err(),
        Some("Önce bir yönlendirme ağı seçin".to_owned())
    );
}

#[test]
fn activation_plans_routes_then_rules() {
    let mut m = RoutingStateManager::new();
    m.set_alt_interface_preference("tun0");
    m.add_rule(RuleTarget::Ip("1.2.3.4/32".to_owned()), strs(&["1.2.3.4/32"]), "tun0");
    m.add_rule(
        RuleTarget::Domain("example.com".to_owned()),
        strs(&["5.6.7.8/32", "2001:db8::1/128"]),
        "tun0",
    );
    let ops = m.activate_all(Some("10.0.0.1".to_owned()), None).unwrap().unwrap();
    assert_eq!(ops.len(), 3);
    assert_eq!(
        add_route(&ops[0]),
        Some(("10.0.0.1".to_owned(), "tun0".to_owned(), 100, IpFamily::V4))
    );
    assert_eq!(add_rule(&ops[1]), Some(("1.2.3.4/32".to_owned(), 100, 10_000, IpFamily::V4)));
    assert_eq!(add_rule(&ops[2]), Some(("5.6.7.8/32".to_owned(), 100, 10_001, IpFamily::V4)));

    let ops = m
        .activate_all(Some("10.0.0.1".to_owned()), Some("fe80::1".to_owned()))
        .unwrap()
        .unwrap();
    assert_eq!(ops.len(), 5);
    assert_eq!(
        add_route(&ops[1]),
        Some(("fe80::1".to_owned(), "tun0".to_owned(), 100, IpFamily::V6))
    );
    assert_eq!(
        add_rule(&ops[4]),
        Some(("2001:db8::1/128".to_owned(), 100, 10_001, IpFamily::V6))
    );

    m.finish_activation(Ok(())).unwrap();
    assert!(m.is_active());
    assert!(m.activate_all(None, None).unwrap().is_none());
}

#[test]
fn activation_errors_on_missing_gateways() {
    let mut m = RoutingStateManager::new();
    m.set_alt_interface_preference("tun0");
    m.add_rule(RuleTarget::Ip("1.2.3.4/32".to_owned()), strs(&["1.2.3.4/32"]), "tun0");
    assert_eq!(
        m.activate_all(None, Some("fe80::1".to_owned())).err(),
        Some("'tun0' için IPv4 gateway bulunamadı".to_owned())
    );
    let mut m = RoutingStateManager::new();
    m.set_alt_interface_preference("tun0");
    m.add_rule(RuleTarget::Ip("::1".to_owned()), strs(&["::1"]), "tun0");
    assert_eq!(
        m.activate_all(Some("10.0.0.1".to_owned()), None).err(),
        Some("'tun0' için uygun gateway bulunamadı".to_owned())
    );
}

#[test]
fn activation_with_no_rules_plans_nothing_but_turns_on() {
    let mut m = RoutingStateManager::new();
    m.set_alt_interface_preference("tun0");
    let ops = m.activate_all(None, None).unwrap().unwrap();
    assert!(ops.is_empty());
}

#[test]
fn a_rule_added_while_on_goes_to_the_kernel() {
    let mut m = RoutingStateManager::new();
    m.set_alt_interface_preference("tun0");
    let _ = m.activate_all(None, None).unwrap();
    m.finish_activation(Ok(())).unwrap();
    let ops = m
        .add_rule_ops(&strs(&["1.2.3.4/32"]), "wg0", Some("10.9.0.1".to_owned()), None)
        .unwrap();
    assert_eq!(ops.len(), 2);
    assert_eq!(
        add_route(&ops[0]),
        Some(("10.9.0.1".to_owned(), "wg0".to_owned(), 100, IpFamily::V4))
    );
    assert_eq!(add_rule(&ops[1]), Some(("1.2.3.4/32".to_owned(), 100, 10_000, IpFamily::V4)));
    assert_eq!(
        m.add_rule_ops(&strs(&["bad"]), "wg0", None, None).err(),
        Some("Geçersiz IP/CIDR: bad".to_owned())
    );
}

#[test]
fn removing_rules() {
    let mut m = RoutingStateManager::new();
    m.add_rule(RuleTarget::Ip("1.2.3.4/32".to_owned()), strs(&["1.2.3.4/32"]), "tun0");
    assert_eq!(m.remove_rule(5).err(), Some("Kural 5 bulunamadı".to_owned()));
    let ops = m.remove_rule(0).unwrap();
    assert!(ops.is_empty());
    assert!(m.rules().is_empty());

    let mut m = RoutingStateManager::new();
    m.set_alt_interface_preference("tun0");
    m.add_rule(RuleTarget::Ip("1.2.3.4/32".to_owned()), strs(&["1.2.3.4/32"]), "tun0");
    let _ = m.activate_all(Some("10.0.0.1".to_owned()), None).unwrap();
    m.finish_activation(Ok(())).unwrap();
    let ops = m.remove_rule(0).unwrap();
    assert_eq!(ops.len(), 2);
    match (&ops[0], &ops[1]) {
        (
            HelperOp::FlushRulesInRange { min_priority: a, max_priority: b, family: f1 },
            HelperOp::FlushRulesInRange { min_priority: c, max_priority: d, family: f2 },
        ) => {
            assert_eq!((*a, *b, *f1), (10_000, 10_000, IpFamily::V4));
            assert_eq!((*c, *d, *f2), (10_000, 10_000, IpFamily::V6));
        }
        other => panic!("unexpected {:?}", other),
    }
}

#[test]
fn deactivation_and_reset() {
    let mut m = RoutingStateManager::new();
    assert!(m.deactivate_all().is_none());
    m.set_alt_interface_preference("tun0");
    m.add_rule(RuleTarget::Ip("1.2.3.4/32".to_owned()), strs(&["1.2.3.4/32"]), "tun0");
    let _ = m.activate_all(Some("10.0.0.1".to_owned()), None).unwrap();
    m.finish_activation(Ok(())).unwrap();
    let ops = m.deactivate_all().unwrap();
    assert_eq!(ops.len(), 4);
    m.finish_deactivation(Ok(())).unwrap();
    assert!(!m.is_active());
    assert_eq!(m.rules().len(), 1);

    let reset = RoutingStateManager::reset_all_kernel();
    assert_eq!(reset.len(), 4);
    assert!(matches!(
        reset[0],
        HelperOp::FlushRulesInRange { min_priority: 10_000, max_priority: 10_999, family: IpFamily::V4 }
    ));
    assert!(matches!(
        reset[1],
        HelperOp::FlushRulesInRange { min_priority: 10_000, max_priority: 10_999, family: IpFamily::V6 }
    ));
    assert!(matches!(reset[2], HelperOp::FlushTable { table: 100, family: IpFamily::V4 }));
    assert!(matches!(reset[3], HelperOp::FlushTable { table: 100, family: IpFamily::V6 }));

    m.reset_all(Ok(())).unwrap();
    assert!(m.rules().is_empty());
    assert_eq!(m.alt_interface(), Some("tun0"));
    let r = m.add_rule(RuleTarget::Ip("1.2.3.4/32".to_owned()), strs(&["1.2.3.4/32"]), "tun0");
    assert_eq!((r.id, r.priority), (0, 10_000));
}

#[test]
fn startup_cleanup_only_when_rules_were_left() {
    let m = RoutingStateManager::new();
    let none = m.startup_cleanup(
        Some(br#"[{"priority":0},{"priority":32766}]"#.to_vec()),
        Some(b"[]".to_vec()),
    );
    assert!(none.is_none());
    let some = m.startup_cleanup(None, Some(br#"[{"priority":10003,"dst":"::1"}]"#.to_vec()));
    assert_eq!(some.map(|ops| ops.len()), Some(4));
    assert!(m.startup_cleanup(None, None).is_none());
}

#[test]
fn refreshing_domain_rules() {
    let mut m = RoutingStateManager::new();
    m.add_rule(RuleTarget::Ip("1.2.3.4/32".to_owned()), strs(&["1.2.3.4/32"]), "tun0");
    m.add_rule(
        RuleTarget::Domain("example.com".to_owned()),
        strs(&["5.6.7.8/32"]),
        "tun0",
    );
    assert_eq!(m.refresh_target(0), Ok(None));
    assert_eq!(m.refresh_target(1), Ok(Some("example.com".to_owned())));
    assert_eq!(m.refresh_target(9), Err("Kural 9 bulunamadı".to_owned()));

    let (added, ops) = m
        .refresh_rule_ips(1, &strs(&["5.6.7.8/32", "9.9.9.9/32"]), None, None)
        .unwrap();
    assert_eq!(added, strs(&["9.9.9.9/32"]));
    assert!(ops.is_empty());
    m.record_refreshed_ips(1, &added);
    assert_eq!(m.rules()[1].resolved_ips, strs(&["5.6.7.8/32", "9.9.9.9/32"]));

    let (added, _) = m.refresh_rule_ips(0, &strs(&["7.7.7.7/32"]), None, None).unwrap();
    assert!(added.is_empty());
    assert_eq!(
        m.refresh_rule_ips(4, &strs(&[]), None, None).err(),
        Some("Kural 4 bulunamadı".to_owned())
    );
}

#[test]
fn refreshing_while_on_plans_the_new_addresses() {
    let mut m = RoutingStateManager::new();
    m.set_alt_interface_preference("tun0");
    m.add_rule(
        RuleTarget::Domain("example.com".to_owned()),
        strs(&["5.6.7.8/32"]),
        "tun0",
    );
    let _ = m.activate_all(Some("10.0.0.1".to_owned()), None).unwrap();
    m.finish_activation(Ok(())).unwrap();
    let (added, ops) = m
        .refresh_rule_ips(0, &strs(&["5.6.7.8/32", "9.9.9.9/32"]), Some("10.0.0.1".to_owned()), None)
        .unwrap();
    assert_eq!(added, strs(&["9.9.9.9/32"]));
    assert_eq!(ops.len(), 2);
    assert_eq!(add_rule(&ops[1]), Some(("9.9.9.9/32".to_owned(), 100, 10_000, IpFamily::V4)));
}

#[test]
fn saving_and_restoring_rules() {
    let mut m = RoutingStateManager::new();
    m.set_alt_interface_preference("tun0");
    m.add_rule(RuleTarget::Ip("1.2.3.4/32".to_owned()), strs(&["1.2.3.4/32"]), "tun0");
    m.add_rule(RuleTarget::Domain("example.com".to_owned()), strs(&[]), "wg0");
    let s = save_config(&m, Language::En);
    assert_eq!(s.language, Language::En);
    assert_eq!(s.alt_interface.as_deref(), Some("tun0"));
    assert_eq!(s.rules.len(), 2);
    assert_eq!(s.rules[0].target_str, "1.2.3.4/32");
    assert!(!s.rules[0].is_domain);
    assert_eq!(s.rules[1].target_str, "example.com");
    assert!(s.rules[1].is_domain);
    assert_eq!(s.rules[1].interface, "wg0");

    for p in &s.rules {
        let t = saved_rule_target(p);
        assert_eq!(t.display(), p.target_str);
        assert_eq!(t.is_domain(), p.is_domain);
    }
    let odd = PersistedRule { target_str: "...".to_owned(), is_domain: false, interface: "x".to_owned() };
    assert_eq!(saved_rule_target(&odd), RuleTarget::Ip("...".to_owned()));
    let odd = PersistedRule { target_str: "...".to_owned(), is_domain: true, interface: "x".to_owned() };
    assert_eq!(saved_rule_target(&odd), RuleTarget::Domain("...".to_owned()));
    let bracket = PersistedRule { target_str: "[::1]".to_owned(), is_domain: true, interface: "x".to_owned() };
    assert_eq!(saved_rule_target(&bracket), RuleTarget::Domain("::1".to_owned()));
}

#[test]
fn status_lines() {
    assert_eq!(activated_status_line(3), "Aktif — 3 kural yönlendiriliyor");
    assert_eq!(active_count_status_line(1), "Aktif — 1 kural");
    assert_eq!(active_count_status_line(0), "Aktif — 0 kural");
    assert_eq!(inactive_status_line(), "Devre dışı");
}

#[test]
fn route_test_targets() {
    assert!(matches!(
        route_test_target("https://Example.com/x"),
        Ok(RouteTestTarget::Domain(d)) if d == "example.com"
    ));
    assert!(matches!(
        route_test_target(" 10.0.0.0/8 "),
        Ok(RouteTestTarget::Address(a)) if a == "10.0.0.0"
    ));
    assert!(matches!(
        route_test_target("2001:db8::1"),
        Ok(RouteTestTarget::Address(a)) if a == "2001:db8::1"
    ));
    assert!(matches!(
        route_test_target("   "),
        Err(e) if e == "Geçerli bir adres girin"
    ));
}

#[test]
fn route_tests_probe_at_most_eight_addresses() {
    let addrs: Vec<(String, IpFamily)> =
        (0..10).map(|i| (format!("10.0.0.{}", i), IpFamily::V4)).collect();
    let first = route_test_addresses(addrs.clone());
    assert_eq!(first.len(), 8);
    assert_eq!(first[7].0, "10.0.0.7");
    assert_eq!(route_test_addresses(addrs[..3].to_vec()).len(), 3);
}

#[test]
fn route_test_reports_expect_the_chosen_interface() {
    let mut m = RoutingStateManager::new();
    let probes = vec![RouteProbe {
        destination: "1.1.1.1".to_owned(),
        family: IpFamily::V4,
        interface: Some("tun0".to_owned()),
    }];
    let r = route_test_report(&m, probes.clone());
    assert_eq!(r.expected_interface, None);
    m.set_alt_interface_preference("tun0");
    let r = route_test_report(&m, probes);
    assert_eq!(r.expected_interface.as_deref(), Some("tun0"));
    assert_eq!(r.probes.len(), 1);
}

#[test]
fn engine_failure_messages() {
    assert_eq!(
        failure_message(&EngineFailure::AddRule("x.com".to_owned()), "boom"),
        "'x.com' eklenemedi: boom"
    );
    assert_eq!(
        failure_message(&EngineFailure::LoadRule("1.2.3.4".to_owned()), "boom"),
        "'1.2.3.4' yüklenemedi: boom"
    );
    assert_eq!(failure_message(&EngineFailure::StartupCleanup, "e"), "Başlangıç temizliği: e");
    assert_eq!(failure_message(&EngineFailure::RemoveRule, "e"), "Silinemedi: e");
    assert_eq!(failure_message(&EngineFailure::Deactivate, "e"), "Devre dışı bırakma hatası: e");
    assert_eq!(failure_message(&EngineFailure::Reset, "e"), "Sıfırlama hatası: e");
    assert_eq!(failure_message(&EngineFailure::RouteTest, "e"), "Test başarısız: e");
}

fn sample_rule() -> RoutingRule {
    RoutingRule {
        id: 4,
        target: RuleTarget::Ip("1.2.3.4".to_owned()),
        resolved_ips: vec!["1.2.3.4".to_owned()],
        interface: "tun0".to_owned(),
        priority: 10_004,
    }
}

#[test]
fn replies_to_switching() {
    let r = activation_replies(Ok(()), 3);
    assert_eq!(r.len(), 1);
    assert!(matches!(&r[0], EngineToUi::StatusUpdate(s) if s == "Aktif — 3 kural yönlendiriliyor"));
    let r = activation_replies(Err("Önce bir yönlendirme ağı seçin".to_owned()), 3);
    assert!(matches!(&r[0], EngineToUi::ActivationFailed(m) if m == "Önce bir yönlendirme ağı seçin"));
    let r = deactivation_replies(Ok(()));
    assert_eq!(r.len(), 2);
    assert!(matches!(r[0], EngineToUi::Deactivated));
    assert!(matches!(&r[1], EngineToUi::StatusUpdate(s) if s == "Devre dışı"));
    let r = deactivation_replies(Err("x".to_owned()));
    assert!(matches!(&r[0], EngineToUi::Error(m) if m == "Devre dışı bırakma hatası: x"));
}

#[test]
fn replies_to_rule_changes() {
    let (r, save) = add_rule_replies("1.2.3.4", Ok(sample_rule()), true, 5);
    assert!(save);
    assert_eq!(r.len(), 2);
    assert!(matches!(&r[0], EngineToUi::RuleAdded(x) if x.id == 4));
    assert!(matches!(&r[1], EngineToUi::StatusUpdate(s) if s == "Aktif — 5 kural"));
    let (r, save) = add_rule_replies("1.2.3.4", Ok(sample_rule()), false, 5);
    assert!(save);
    assert_eq!(r.len(), 1);
    let (r, save) = add_rule_replies("x.com", Err("boom".to_owned()), true, 5);
    assert!(!save);
    assert!(matches!(&r[0], EngineToUi::Error(m) if m == "'x.com' eklenemedi: boom"));
    let r = load_rule_replies("x.com", Err("boom".to_owned()));
    assert!(matches!(&r[0], EngineToUi::Error(m) if m == "'x.com' yüklenemedi: boom"));
    let r = load_rule_replies("x.com", Ok(sample_rule()));
    assert!(matches!(&r[0], EngineToUi::RuleAdded(x) if x.priority == 10_004));
    let (r, save) = remove_rule_replies(4, Ok(()));
    assert!(save && matches!(r[0], EngineToUi::RuleRemoved(4)));
    let (r, save) = remove_rule_replies(4, Err("Kural 4 bulunamadı".to_owned()));
    assert!(!save && matches!(&r[0], EngineToUi::Error(m) if m == "Silinemedi: Kural 4 bulunamadı"));
    let (r, save) = reset_replies(Ok(()));
    assert!(save && matches!(r[0], EngineToUi::ResetComplete));
    let (r, save) = reset_replies(Err("e".to_owned()));
    assert!(!save && matches!(&r[0], EngineToUi::Error(m) if m == "Sıfırlama hatası: e"));
    let r = route_test_replies(Err("Geçerli bir adres girin".to_owned()));
    assert!(matches!(&r[0], EngineToUi::Error(m) if m == "Test başarısız: Geçerli bir adres girin"));
    let report = RouteTestReport { expected_interface: None, probes: vec![] };
    let r = route_test_replies(Ok(report));
    assert!(matches!(&r[0], EngineToUi::RouteTestComplete(x) if x.probes.is_empty()));
}

#[test]
fn the_priority_range_runs_out() {
    let mut m = RoutingStateManager::new();
    for i in 0..1000u32 {
        let ip = format!("10.{}.{}.1", i / 256, i % 256);
        let r = m.finish_add_rule(RuleTarget::Ip(ip.clone()), vec![ip], "tun0", Ok(())).unwrap();
        assert_eq!(r.priority, 10_000 + i);
    }
    assert!(!m.can_add_rule());
    assert_eq!(
        m.add_rule_ops(&strs(&["1.1.1.1"]), "tun0", None, None).err(),
        Some("Öncelik aralığı [10000,10999] dolu".to_owned())
    );
    assert_eq!(
        m.finish_add_rule(RuleTarget::Ip("1.1.1.1".to_owned()), strs(&["1.1.1.1"]), "tun0", Ok(())).err(),
        Some("Öncelik aralığı [10000,10999] dolu".to_owned())
    );
    assert_eq!(m.rules().len(), 1000);
    m.reset_all(Ok(())).unwrap();
    assert!(m.can_add_rule());
}

#[test]
fn failed_steps_change_nothing() {
    let mut m = RoutingStateManager::new();
    m.set_alt_interface_preference("tun0");
    let e = m.finish_add_rule(RuleTarget::Domain("x.com".to_owned()), vec![], "tun0", Err("dns".to_owned()));
    assert_eq!(e.err(), Some("dns".to_owned()));
    assert!(m.rules().is_empty());
    let r = m.finish_add_rule(RuleTarget::Ip("1.2.3.4".to_owned()), strs(&["1.2.3.4"]), "tun0", Ok(())).unwrap();
    assert_eq!((r.id, r.priority), (0, 10_000));
    assert_eq!(m.finish_activation(Err("pkexec".to_owned())), Err("pkexec".to_owned()));
    assert!(!m.is_active());
    m.finish_activation(Ok(())).unwrap();
    assert_eq!(m.finish_deactivation(Err("x".to_owned())), Err("x".to_owned()));
    assert!(m.is_active());
    assert_eq!(m.reset_all(Err("y".to_owned())), Err("y".to_owned()));
    assert_eq!(m.rules().len(), 1);
    assert_eq!(
        startup_cleanup_replies(Err("z".to_owned())).len(),
        1
    );
    assert!(startup_cleanup_replies(Ok(())).is_empty());
}
