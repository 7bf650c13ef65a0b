use routelane::engine::should_refresh_domain_rules;
use routelane::executor::{parse_route_get_output, resolve_helper_path_from};
use routelane::models::RuleTarget;
use routelane::window::refreshed_interface_selection;

#[test]
fn parses_url_as_domain_host() {
    assert_eq!(
        RuleTarget::from_user_input("https://gemini.google.com/app"),
        Some(RuleTarget::Domain("gemini.google.com".to_owned()))
    );
}

#[test]
fn parses_domain_port_as_domain_host() {
    assert_eq!(
        RuleTarget::from_user_input("gemini.google.com:443"),
        Some(RuleTarget::Domain("gemini.google.com".to_owned()))
    );
}

#[test]
fn parses_ipv6_and_cidr_as_ip_rules() {
    assert_eq!(
        RuleTarget::from_user_input("2001:db8::1"),
        Some(RuleTarget::Ip("2001:db8::1".to_owned()))
    );
    assert_eq!(
        RuleTarget::from_user_input("2001:db8::/32"),
        Some(RuleTarget::Ip("2001:db8::/32".to_owned()))
    );
}

#[test]
fn parses_route_get_output() {
    let dev = parse_route_get_output("142.250.184.206 via 192.168.1.1 dev wlan0 src 192.168.1.25");
    assert_eq!(dev.as_deref(), Some("wlan0"));
}

#[test]
fn prefers_policy_helper_path_over_sibling_helper() {
    let current_exe = "/usr/bin/routelane".to_owned();
    let result = resolve_helper_path_from(None, Some(current_exe), |path: &str| {
        matches!(
            path,
            "/usr/bin/routelane-helper" | "/usr/lib/routelane/routelane-helper"
        )
    });

    assert_eq!(result, "/usr/lib/routelane/routelane-helper");
}

#[test]
fn prefers_policy_helper_path_over_env_helper() {
    let env_path = "/tmp/routelane-helper".to_owned();
    let result = resolve_helper_path_from(Some(env_path), None, |path: &str| {
        matches!(
            path,
            "/tmp/routelane-helper" | "/usr/lib/routelane/routelane-helper"
        )
    });

    assert_eq!(result, "/usr/lib/routelane/routelane-helper");
}

#[test]
fn keeps_policy_helper_path_literal_when_it_exists() {
    let result = resolve_helper_path_from(None, None, |path: &str| {
        path == "/usr/lib/routelane/routelane-helper"
    });

    assert_eq!(result, "/usr/lib/routelane/routelane-helper");
}

#[test]
fn skips_automatic_domain_refresh_while_routing_is_active() {
    assert!(!should_refresh_domain_rules(true));
}

#[test]
fn allows_automatic_domain_refresh_while_routing_is_inactive() {
    assert!(should_refresh_domain_rules(false));
}

#[test]
fn clears_selection_when_previous_interface_disappears() {
    let names = ["wlan0".to_owned(), "tun0".to_owned()];

    assert_eq!(refreshed_interface_selection(Some("old-vpn"), &names), None);
}

#[test]
fn preserves_selection_when_previous_interface_still_exists() {
    let names = ["wlan0".to_owned(), "tun0".to_owned()];

    assert_eq!(refreshed_interface_selection(Some("tun0"), &names), Some(1));
}
