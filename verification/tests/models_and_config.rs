use routelane::config::{Language, PersistedRule, PersistedState};
use routelane::models::{IpFamily, RoutingRule, RuleTarget};

fn ip(s: &str) -> Option<RuleTarget> {
    Some(RuleTarget::Ip(s.to_owned()))
}

fn domain(s: &str) -> Option<RuleTarget> {
    Some(RuleTarget::Domain(s.to_owned()))
}

#[test]
fn trims_plain_addresses() {
    assert_eq!(RuleTarget::from_user_input("  1.2.3.4 \t"), ip("1.2.3.4"));
    assert_eq!(RuleTarget::from_user_input("10.0.0.0/8"), ip("10.0.0.0/8"));
    assert_eq!(RuleTarget::from_user_input("::ffff:1.2.3.4"), ip("::ffff:1.2.3.4"));
    assert_eq!(RuleTarget::from_user_input("::"), ip("::"));
    assert_eq!(
        RuleTarget::from_user_input("1:2:3:4:5:6:7:8"),
        ip("1:2:3:4:5:6:7:8")
    );
}

#[test]
fn empty_input_is_no_target() {
    assert_eq!(RuleTarget::from_user_input(""), None);
    assert_eq!(RuleTarget::from_user_input("   "), None);
    assert_eq!(RuleTarget::from_user_input("..."), None);
    assert_eq!(RuleTarget::from_user_input("https://"), None);
}

#[test]
fn prefix_out_of_range_falls_back_to_a_host() {
    assert_eq!(RuleTarget::from_user_input("1.2.3.4/33"), domain("1.2.3.4"));
    assert_eq!(RuleTarget::from_user_input("2001:db8::/129"), domain("2001:db8::"));
    assert_eq!(RuleTarget::from_user_input("1.2.3.4/+24"), ip("1.2.3.4/+24"));
    assert_eq!(RuleTarget::from_user_input("::1/128"), ip("::1/128"));
}

#[test]
fn rejects_leading_zero_octets_as_addresses() {
    assert_eq!(RuleTarget::from_user_input("01.2.3.4"), domain("01.2.3.4"));
    assert_eq!(RuleTarget::from_user_input("256.1.1.1"), domain("256.1.1.1"));
    assert_eq!(RuleTarget::from_user_input("1.2.3"), domain("1.2.3"));
}

#[test]
fn reads_the_host_of_urls() {
    assert_eq!(
        RuleTarget::from_user_input("User@Example.COM:8080/path?q=1"),
        domain("example.com")
    );
    assert_eq!(RuleTarget::from_user_input("HTTPS://Foo.Bar#x"), domain("foo.bar"));
    assert_eq!(RuleTarget::from_user_input("a?b#c"), domain("a"));
    assert_eq!(RuleTarget::from_user_input("Example.com."), domain("example.com"));
    assert_eq!(RuleTarget::from_user_input("[2001:db8::1]:443"), domain("2001:db8::1"));
    assert_eq!(RuleTarget::from_user_input("http://[::1]/x"), domain("::1"));
    assert_eq!(RuleTarget::from_user_input("fe80::1%eth0"), domain("fe80::1%eth0"));
    assert_eq!(
        RuleTarget::from_user_input("1:2:3:4:5:6:7:8:9"),
        domain("1:2:3:4:5:6:7:8:9")
    );
}

#[test]
fn display_and_kind_of_targets() {
    let d = RuleTarget::Domain("example.com".to_owned());
    let i = RuleTarget::Ip("1.1.1.1".to_owned());
    assert_eq!(d.display(), "example.com");
    assert_eq!(i.display(), "1.1.1.1");
    assert!(d.is_domain());
    assert!(!i.is_domain());
}

#[test]
fn subtitle_lists_resolved_addresses_of_domains() {
    let rule = RoutingRule {
        id: 0,
        target: RuleTarget::Domain("example.com".to_owned()),
        resolved_ips: vec!["1.1.1.1/32".to_owned(), "2.2.2.2/32".to_owned()],
        interface: "tun0".to_owned(),
        priority: 10_000,
    };
    assert_eq!(rule.subtitle(), "1.1.1.1/32, 2.2.2.2/32");
    let rule = RoutingRule {
        id: 1,
        target: RuleTarget::Ip("10.0.0.0/8".to_owned()),
        resolved_ips: vec!["10.0.0.0/8".to_owned()],
        interface: "tun0".to_owned(),
        priority: 10_001,
    };
    assert_eq!(rule.subtitle(), "10.0.0.0/8");
}

#[test]
fn language_positions() {
    assert_eq!(Language::from_index(1), Language::En);
    assert_eq!(Language::from_index(0), Language::Tr);
    assert_eq!(Language::from_index(7), Language::Tr);
    assert_eq!(Language::Tr.index(), 0);
    assert_eq!(Language::En.index(), 1);
    assert_eq!(Language::default(), Language::Tr);
}

#[test]
fn language_index_round_trips() {
    for l in [Language::Tr, Language::En] {
        assert_eq!(Language::from_index(l.index()), l);
    }
}

#[test]
fn default_state_is_turkish_and_empty() {
    let s = PersistedState::default();
    assert_eq!(s.language, Language::Tr);
    assert!(s.alt_interface.is_none());
    assert!(s.rules.is_empty());
}

#[test]
fn saving_a_language_keeps_the_rest() {
    let mut s = PersistedState {
        language: Language::Tr,
        alt_interface: Some("tun0".to_owned()),
        rules: vec![PersistedRule {
            target_str: "example.com".to_owned(),
            is_domain: true,
            interface: "tun0".to_owned(),
        }],
    };
    s.save_language(Language::En);
    assert_eq!(s.language, Language::En);
    assert_eq!(s.alt_interface.as_deref(), Some("tun0"));
    assert_eq!(s.rules.len(), 1);
    assert_eq!(s.rules[0].target_str, "example.com");
}

#[test]
fn families_compare() {
    assert_ne!(IpFamily::V4, IpFamily::V6);
}
