use routelane::config::{Language, PersistedRule};
use routelane::engine::{
    activated_status_line, active_count_status_line, inactive_status_line, saved_rule_target,
};
use routelane::helper::{execute_op, validate_cidr};
use routelane::manager::{cidr_family, RoutingStateManager};
use routelane::models::{HelperOp, IpFamily, RuleTarget};
use routelane::resolver::to_host_cidr;

fn strs(v: &[&str]) -> Vec<String> {
    v.iter().map(|s| s.to_string()).collect()
}

#[test]
fn removing_an_added_rule_restores_the_list() {
    let mut m = RoutingStateManager::new();
    m.add_rule(RuleTarget::Ip("1.2.3.4/32".to_owned()), strs(&["1.2.3.4/32"]), "tun0");
    let before: Vec<(u64, u32)> = m.rules().iter().map(|r| (r.id, r.priority)).collect();
    let r = m.add_rule(RuleTarget::Domain("x.com".to_owned()), strs(&["5.6.7.8/32"]), "tun0");
    assert!(m.remove_rule(r.id).is_ok());
    let after: Vec<(u64, u32)> = m.rules().iter().map(|r| (r.id, r.priority)).collect();
    assert_eq!(before, after);
}

#[test]
fn ids_and_priorities_never_repeat() {
    let mut m = RoutingStateManager::new();
    for i in 0..5 {
        m.add_rule(RuleTarget::Ip(format!("10.0.0.{}", i)), vec![format!("10.0.0.{}", i)], "tun0");
    }
    let _ = m.remove_rule(2);
    m.add_rule(RuleTarget::Ip("10.0.1.1".to_owned()), strs(&["10.0.1.1"]), "tun0");
    let rules = m.rules();
    for a in 0..rules.len() {
        for b in (a + 1)..rules.len() {
            assert!(rules[a].id < rules[b].id);
            assert!(rules[a].priority < rules[b].priority);
        }
        assert!((10_000..=10_999).contains(&rules[a].priority));
    }
}

#[test]
fn every_planned_operation_passes_the_helper() {
    let mut m = RoutingStateManager::new();
    m.set_alt_interface_preference("wlan0");
    m.add_rule(RuleTarget::Ip("1.2.3.0/24".to_owned()), strs(&["1.2.3.0/24"]), "wlan0");
    m.add_rule(
        RuleTarget::Domain("x.com".to_owned()),
        strs(&["5.6.7.8/32", "2001:db8::1/128"]),
        "wlan0",
    );
    let mut ops = m
        .activate_all(Some("192.168.1.1".to_owned()), Some("fe80::1".to_owned()))
        .unwrap()
        .unwrap();
    ops.extend(RoutingStateManager::reset_all_kernel());
    m.finish_activation(Ok(())).unwrap();
    ops.extend(m.remove_rule(0).unwrap());
    for op in &ops {
        assert!(execute_op(op).is_ok(), "{:?}", op);
    }
    assert!(ops.iter().any(|op| matches!(op, HelperOp::AddRule { .. })));
}

#[test]
fn status_lines_read_in_english() {
    for n in [0usize, 1, 7, 42] {
        assert_eq!(
            Language::En.localized_status(&activated_status_line(n)),
            format!("Active - {} rule(s)", n)
        );
        assert_eq!(
            Language::En.localized_status(&active_count_status_line(n)),
            format!("Active - {} rule(s)", n)
        );
    }
    assert_eq!(Language::En.localized_status(&inactive_status_line()), "Routing disabled");
}

#[test]
fn a_saved_ip_rule_reads_back_the_same() {
    for input in [" 10.0.0.0/8 ", "::1", "1.2.3.4/+24"] {
        let t = RuleTarget::from_user_input(input).unwrap();
        assert_eq!(RuleTarget::from_user_input(t.display()), Some(t.clone()));
    }
}

#[test]
fn adding_a_rule_while_off_plans_nothing() {
    let m = RoutingStateManager::new();
    let ops = m
        .add_rule_ops(&strs(&["1.2.3.4/32", "::1/128"]), "tun0", None, None)
        .unwrap();
    assert!(ops.is_empty());
}

#[test]
fn a_saved_domain_rule_reads_back_the_same() {
    for input in ["https://ChatGPT.com/c/1", "gemini.google.com:443", "a-b.example.org."] {
        let t = RuleTarget::from_user_input(input).unwrap();
        assert!(t.is_domain());
        let saved = PersistedRule {
            target_str: t.display().to_owned(),
            is_domain: true,
            interface: "tun0".to_owned(),
        };
        assert_eq!(saved_rule_target(&saved), t);
    }
}

#[test]
fn host_ranges_keep_their_family() {
    for (addr, family) in [("93.184.216.34", IpFamily::V4), ("2606:2800:220:1::1", IpFamily::V6), ("::ffff:1.2.3.4", IpFamily::V6)] {
        assert_eq!(cidr_family(&to_host_cidr(addr, family)), Ok(family));
    }
}


#[test]
fn typed_ip_rules_pass_the_helper() {
    for input in ["10.0.0.0/8", " 2001:db8::/32", "::ffff:1.2.3.4", "1.2.3.4/032"] {
        let t = RuleTarget::from_user_input(input).unwrap();
        let family = cidr_family(t.display()).unwrap();
        assert_eq!(validate_cidr(t.display(), family), Ok(()));
    }
    // A prefix written with `+` is read as a number but refused by the helper.
    let t = RuleTarget::from_user_input("1.2.3.4/+24").unwrap();
    assert_eq!(
        validate_cidr(t.display(), IpFamily::V4),
        Err("destination geçersiz karakter içeriyor: \"1.2.3.4/+24\"".to_owned())
    );
}
