use routelane::config::Language;
use routelane::models::{IpFamily, NetworkInterface, RouteProbe, RouteTestReport, RoutingRule, RuleTarget, UiToEngine};
use routelane::tray::{tray_menu, tray_tool_tip, TrayCommand, TrayEntry, APP_ICON_NAME, APP_ID};
use routelane::window::{
    activation_failed_toast, add_rule_request, default_connection_subtitle,
    exception_network_subtitle, route_test_request, route_test_summary, rule_row_subtitle,
};

fn strs(v: &[&str]) -> Vec<String> {
    v.iter().map(|s| s.to_string()).collect()
}

fn probe(dest: &str, family: IpFamily, iface: Option<&str>) -> RouteProbe {
    RouteProbe {
        destination: dest.to_owned(),
        family,
        interface: iface.map(str::to_owned),
    }
}

#[test]
fn statuses_in_english() {
    let en = Language::En;
    assert_eq!(en.localized_status("Aktif — 3 kural yönlendiriliyor"), "Active - 3 rule(s)");
    assert_eq!(en.localized_status("Aktif — 12 kural"), "Active - 12 rule(s)");
    assert_eq!(en.localized_status("Devre dışı"), "Routing disabled");
    assert_eq!(en.localized_status("Aktif — "), "Aktif — ");
    assert_eq!(en.localized_status("something else"), "something else");
    assert_eq!(
        Language::Tr.localized_status("Aktif — 3 kural yönlendiriliyor"),
        "Aktif — 3 kural yönlendiriliyor"
    );
}

#[test]
fn gateway_and_sample_texts() {
    assert_eq!(
        Language::Tr.default_gateway_subtitle("wlan0", "192.168.1.1"),
        "wlan0 - varsayılan ağ geçidi 192.168.1.1"
    );
    assert_eq!(
        Language::En.default_gateway_subtitle("wlan0", "192.168.1.1"),
        "wlan0 - default gateway 192.168.1.1"
    );
    assert_eq!(Language::En.route_sample_more(3), " +3 more address");
    assert_eq!(Language::Tr.route_sample_more(3), " +3 adres");
}

#[test]
fn texts_per_language() {
    let tr = Language::Tr.texts();
    let en = Language::En.texts();
    assert_eq!(tr.inactive, "Yönlendirme devre dışı");
    assert_eq!(en.inactive, "Routing disabled");
    assert_eq!(en.reset_dialog_confirm, "Reset");
    assert_eq!(tr.reset_dialog_cancel, "İptal");
    assert_eq!(en.probe_samples, "Addresses");
    assert_eq!(tr.tray_quit, "Çıkış");
}

#[test]
fn default_connection_line() {
    let ifaces = vec![
        NetworkInterface { name: "tun0".to_owned(), gateway: None, is_default: false },
        NetworkInterface { name: "wlan0".to_owned(), gateway: None, is_default: true },
        NetworkInterface { name: "eth0".to_owned(), gateway: Some("10.0.0.1".to_owned()), is_default: true },
    ];
    assert_eq!(
        default_connection_subtitle(Language::En, &ifaces, false),
        "wlan0 - default gateway ?"
    );
    assert_eq!(default_connection_subtitle(Language::En, &vec![], true), "detecting...");
    assert_eq!(
        default_connection_subtitle(Language::En, &vec![], false),
        "default connection not found"
    );
    assert_eq!(
        default_connection_subtitle(Language::Tr, &ifaces[..1].to_vec(), true),
        "varsayılan bağlantı bulunamadı"
    );
}

#[test]
fn exception_network_line() {
    let t = Language::En.texts();
    assert_eq!(exception_network_subtitle(t, true, true), "no selectable network interface found");
    assert_eq!(exception_network_subtitle(t, false, false), "Select the exception network");
    assert_eq!(
        exception_network_subtitle(t, false, true),
        "Added addresses are routed through this network"
    );
}

#[test]
fn rule_rows_show_resolving_domains() {
    let t = Language::En.texts();
    let rule = RoutingRule {
        id: 3,
        target: RuleTarget::Domain("example.com".to_owned()),
        resolved_ips: vec![],
        interface: "tun0".to_owned(),
        priority: 10_003,
    };
    assert_eq!(rule_row_subtitle(&rule, t), "resolving...");
    let rule = RoutingRule { resolved_ips: strs(&["1.1.1.1/32"]), ..rule };
    assert_eq!(rule_row_subtitle(&rule, t), "1.1.1.1/32");
}

#[test]
fn route_test_all_through_the_expected_interface() {
    let report = RouteTestReport {
        expected_interface: Some("tun0".to_owned()),
        probes: vec![
            probe("1.1.1.1", IpFamily::V4, Some("tun0")),
            probe("::1", IpFamily::V6, Some("tun0")),
        ],
    };
    let s = route_test_summary(&report, Language::En);
    assert_eq!(s.icon_name, "emblem-ok-symbolic");
    assert_eq!(s.seen, "tun0");
    assert_eq!(s.expected, "tun0");
    assert_eq!(s.samples, "IPv4 1.1.1.1 → tun0  ·  IPv6 ::1 → tun0");
}

#[test]
fn route_test_through_other_interfaces() {
    let report = RouteTestReport {
        expected_interface: Some("tun0".to_owned()),
        probes: vec![
            probe("1.1.1.1", IpFamily::V4, Some("wlan0")),
            probe("1.1.1.2", IpFamily::V4, Some("tun0")),
            probe("1.1.1.3", IpFamily::V4, None),
            probe("1.1.1.4", IpFamily::V4, Some("eth0")),
            probe("1.1.1.5", IpFamily::V4, Some("wlan0")),
            probe("1.1.1.6", IpFamily::V4, Some("tun0")),
        ],
    };
    let s = route_test_summary(&report, Language::En);
    assert_eq!(s.icon_name, "dialog-warning-symbolic");
    assert_eq!(s.seen, "eth0, tun0, wlan0");
    assert_eq!(
        s.samples,
        "IPv4 1.1.1.1 → wlan0  ·  IPv4 1.1.1.2 → tun0  ·  IPv4 1.1.1.3 → ?  ·  IPv4 1.1.1.4 → eth0 +2 more address"
    );
}

#[test]
fn route_test_without_answers() {
    let report = RouteTestReport { expected_interface: None, probes: vec![] };
    let s = route_test_summary(&report, Language::Tr);
    assert_eq!(s.icon_name, "dialog-error-symbolic");
    assert_eq!(s.seen, "?");
    assert_eq!(s.expected, "seçilmedi");
    assert_eq!(s.samples, "?");
    let report = RouteTestReport {
        expected_interface: None,
        probes: vec![probe("1.1.1.1", IpFamily::V4, Some("tun0"))],
    };
    assert_eq!(route_test_summary(&report, Language::En).icon_name, "dialog-warning-symbolic");
}

#[test]
fn add_requests_from_the_window() {
    let names = strs(&["wlan0", "tun0"]);
    match add_rule_request("  Example.com ", Some(1), &names) {
        Some(UiToEngine::AddRule { target, interface }) => {
            assert_eq!(target, RuleTarget::Domain("example.com".to_owned()));
            assert_eq!(interface, "tun0");
        }
        other => panic!("unexpected {:?}", other),
    }
    assert!(add_rule_request("example.com", Some(5), &names).is_none());
    assert!(add_rule_request("example.com", None, &names).is_none());
    assert!(add_rule_request("   ", Some(0), &names).is_none());
    assert!(add_rule_request("...", Some(0), &names).is_none());
    match route_test_request("  x.com ") {
        Some(UiToEngine::TestRoute { input }) => assert_eq!(input, "x.com"),
        other => panic!("unexpected {:?}", other),
    }
    assert!(route_test_request(" \n").is_none());
    assert_eq!(
        activation_failed_toast(Language::En.texts(), "boom"),
        "Could not enable: boom"
    );
}

#[test]
fn tray_menu_entries() {
    assert_eq!(APP_ID, "io.github.routelane");
    assert_eq!(APP_ICON_NAME, "network-workgroup-symbolic");
    let m = tray_menu(Language::En);
    assert_eq!(m.len(), 6);
    assert!(matches!(m[0], TrayEntry::Label { label: "RouteLane", icon_name: Some("network-workgroup-symbolic") }));
    assert!(matches!(
        m[1],
        TrayEntry::Label { label: "Routes selected addresses through the exception network", icon_name: None }
    ));
    assert!(matches!(m[2], TrayEntry::Separator));
    assert!(matches!(
        m[3],
        TrayEntry::Action { label: "Show", icon_name: "window-new-symbolic", command: TrayCommand::ShowWindow }
    ));
    assert!(matches!(m[4], TrayEntry::Separator));
    assert!(matches!(
        m[5],
        TrayEntry::Action { label: "Quit", icon_name: "application-exit-symbolic", command: TrayCommand::Quit }
    ));
    assert_eq!(tray_tool_tip(Language::Tr), ("RouteLane", "Yönlendirme aracı"));
}
