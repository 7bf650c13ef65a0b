use routelane::dns_router::{
    dnsmasq_conf_path, dnsmasq_config_content, fwmark_rule_args, ipset_create_args,
    ipset_create_outcome, iptables_mark_args, iptables_outcome, missing_gateway,
    owned_conf_files, table_route_args, teardown_steps, DnsRouter,
};
use routelane::executor::{
    detect_default_interface, detect_gateway, detect_gateway_v6, flush_targets,
    has_leftover_rules, interface_names, network_interface, parse_route_get_output, probe_route,
    resolve_helper_path_from, route_get_args, Executor,
};
use routelane::models::{HelperResponse, IpFamily};
use routelane::resolver::{host_cidrs, lookup_failure, lookup_name, resolved_addresses, to_host_cidr};

fn strs(v: &[&str]) -> Vec<String> {
    v.iter().map(|s| s.to_string()).collect()
}

fn bytes(s: &str) -> Option<Vec<u8>> {
    Some(s.as_bytes().to_vec())
}

#[test]
fn leftover_rules_in_the_owned_range() {
    assert!(has_leftover_rules(bytes(r#"[{"priority":10005,"dst":"1.2.3.4"}]"#), None));
    assert!(has_leftover_rules(None, bytes(r#"[{"priority":10999}]"#)));
    assert!(!has_leftover_rules(bytes(r#"[{"priority":0},{"priority":32766},{"priority":11000}]"#), None));
    assert!(!has_leftover_rules(bytes("not json"), bytes(r#"{"priority":10000}"#)));
    assert!(!has_leftover_rules(None, None));
    assert!(!has_leftover_rules(bytes(r#"[{"priority":"10000"}]"#), None));
}

#[test]
fn flush_targets_in_order() {
    let out = br#"[{"priority":10000},{"priority":32766},{"priority":10999},{},{"priority":10500}]"#;
    assert_eq!(flush_targets(out, 10_000, 10_999), vec![10_000, 10_999, 10_500]);
    assert_eq!(flush_targets(out, 10_500, 10_500), vec![10_500]);
    assert_eq!(flush_targets(b"garbage", 0, 20_000), Vec::<u32>::new());
}

#[test]
fn default_interface_of_least_metric() {
    let out = r#"[{"dst":"default","gateway":"192.168.1.1","dev":"wlan0","metric":600},
                 {"dst":"default","gateway":"10.0.0.1","dev":"eth0","metric":100},
                 {"dst":"10.0.0.0/8","dev":"tun0","metric":1}]"#;
    assert_eq!(detect_default_interface(bytes(out)).as_deref(), Some("eth0"));
    let tie = r#"[{"dst":"default","dev":"a"},{"dst":"default","dev":"b"}]"#;
    assert_eq!(detect_default_interface(bytes(tie)).as_deref(), Some("a"));
    let metric_wins = r#"[{"dst":"default","dev":"a"},{"dst":"default","dev":"b","metric":5}]"#;
    assert_eq!(detect_default_interface(bytes(metric_wins)).as_deref(), Some("b"));
    assert_eq!(detect_default_interface(bytes("[]")), None);
    assert_eq!(detect_default_interface(bytes("{")), None);
    assert_eq!(detect_default_interface(None), None);
    let no_dev = r#"[{"dst":"default","metric":1},{"dst":"default","dev":"b","metric":2}]"#;
    assert_eq!(detect_default_interface(bytes(no_dev)), None);
}

#[test]
fn gateways_of_default_routes() {
    let out = r#"[{"dst":"192.168.1.0/24","dev":"wlan0"},
                 {"dst":"default","dev":"wlan0"},
                 {"dst":"default","gateway":"192.168.1.1","dev":"wlan0"}]"#;
    assert_eq!(detect_gateway(bytes(out)).as_deref(), Some("192.168.1.1"));
    let v6 = r#"[{"dst":"::/0","gateway":"fe80::1","dev":"wlan0"}]"#;
    assert_eq!(detect_gateway_v6(bytes(v6)).as_deref(), Some("fe80::1"));
    assert_eq!(detect_gateway(bytes(v6)), None);
    assert_eq!(detect_gateway(None), None);
    assert_eq!(detect_gateway_v6(bytes("nope")), None);
}

#[test]
fn interface_list_skips_loopback() {
    let out = r#"[{"ifname":"lo"},{"ifname":"wlan0"},{"ifindex":3},{"ifname":"tun0"}]"#;
    assert_eq!(interface_names(bytes(out)), strs(&["wlan0", "tun0"]));
    assert!(interface_names(None).is_empty());
    assert!(interface_names(bytes("x")).is_empty());
    let i = network_interface("wlan0".to_owned(), &Some("wlan0".to_owned()), Some("192.168.1.1".to_owned()));
    assert!(i.is_default);
    assert_eq!(i.gateway.as_deref(), Some("192.168.1.1"));
    let i = network_interface("tun0".to_owned(), &Some("wlan0".to_owned()), None);
    assert!(!i.is_default);
    assert_eq!(i.name, "tun0");
}

#[test]
fn route_get_words() {
    assert_eq!(parse_route_get_output(""), None);
    assert_eq!(parse_route_get_output("1.1.1.1 via 10.0.0.1 dev"), None);
    assert_eq!(parse_route_get_output("x dev  eth0\n    cache"), Some("eth0".to_owned()));
    assert_eq!(parse_route_get_output("dev a dev b"), Some("a".to_owned()));
}

#[test]
fn probing_routes() {
    assert_eq!(route_get_args("::1", IpFamily::V6), strs(&["-6", "route", "get", "::1"]));
    assert_eq!(route_get_args("1.1.1.1", IpFamily::V4), strs(&["-4", "route", "get", "1.1.1.1"]));
    let p = probe_route(
        "1.1.1.1".to_owned(),
        IpFamily::V4,
        Some((true, "1.1.1.1 via 10.0.0.1 dev tun0 src 10.0.0.2 uid 1000 \n    cache \n".to_owned(), String::new())),
    )
    .unwrap();
    assert_eq!(p.destination, "1.1.1.1");
    assert_eq!(p.family, IpFamily::V4);
    assert_eq!(p.interface.as_deref(), Some("tun0"));
    assert_eq!(
        probe_route(
            "1.1.1.1".to_owned(),
            IpFamily::V4,
            Some((false, String::new(), "RTNETLINK answers: Network is unreachable\n".to_owned()))
        )
        .err(),
        Some("1.1.1.1 için rota bulunamadı: RTNETLINK answers: Network is unreachable".to_owned())
    );
    assert_eq!(
        probe_route("::1".to_owned(), IpFamily::V6, None).err(),
        Some("::1 için rota sorgusu başlatılamadı".to_owned())
    );
}

#[test]
fn batch_outcomes() {
    assert_eq!(
        Executor::batch_outcome(false, "  boom \n", None),
        Err("routelane-helper başarısız: boom".to_owned())
    );
    assert_eq!(
        Executor::batch_outcome(true, "", None),
        Err("helper yanıtı ayrıştırılamadı".to_owned())
    );
    let partial = HelperResponse { success: false, errors: strs(&["a", "b"]) };
    assert_eq!(
        Executor::batch_outcome(true, "", Some(partial)),
        Err("Komutlar kısmen başarısız: a; b".to_owned())
    );
    let ok = HelperResponse { success: true, errors: vec![] };
    assert_eq!(Executor::batch_outcome(true, "ignored", Some(ok)), Ok(()));
    let e = Executor::new("/usr/lib/routelane/routelane-helper".to_owned());
    assert_eq!(e.helper_path(), "/usr/lib/routelane/routelane-helper");
}

#[test]
fn helper_path_falls_back_in_order() {
    let none = |_: &str| false;
    assert_eq!(
        resolve_helper_path_from(Some("/opt/h".to_owned()), Some("/usr/bin/routelane".to_owned()), none),
        "/opt/h"
    );
    assert_eq!(
        resolve_helper_path_from(None, Some("/usr/bin/routelane".to_owned()), none),
        "/usr/bin/routelane-helper"
    );
    assert_eq!(resolve_helper_path_from(None, None, none), "/usr/lib/routelane/routelane-helper");
    assert_eq!(
        resolve_helper_path_from(None, Some("/opt/app/bin/routelane".to_owned()), |p: &str| {
            p == "/opt/app/bin/routelane-helper"
        }),
        "/opt/app/bin/routelane-helper"
    );
    assert_eq!(
        resolve_helper_path_from(None, None, |p: &str| p == "/usr/bin/routelane-helper"),
        "/usr/bin/routelane-helper"
    );
}

#[test]
fn host_ranges_of_resolved_addresses() {
    assert_eq!(to_host_cidr("1.2.3.4", IpFamily::V4), "1.2.3.4/32");
    assert_eq!(to_host_cidr("2001:db8::1", IpFamily::V6), "2001:db8::1/128");
    assert_eq!(lookup_name("example.com"), "example.com:80");
    assert_eq!(lookup_failure("example.com"), "'example.com' DNS çözümlemesi başarısız");
    assert_eq!(
        resolved_addresses("example.com", vec![]).err(),
        Some("'example.com' için hiçbir IP adresi bulunamadı".to_owned())
    );
    let addrs = vec![("1.2.3.4".to_owned(), IpFamily::V4), ("::1".to_owned(), IpFamily::V6)];
    let got = resolved_addresses("example.com", addrs.clone()).unwrap();
    assert_eq!(got, addrs);
    assert_eq!(host_cidrs(&got), strs(&["1.2.3.4/32", "::1/128"]));
}

#[test]
fn dnsmasq_files() {
    assert_eq!(dnsmasq_conf_path("example.com"), "/etc/dnsmasq.d/routelane-example.com.conf");
    assert_eq!(dnsmasq_conf_path("a b/c.com"), "/etc/dnsmasq.d/routelane-a_b_c.com.conf");
    assert_eq!(dnsmasq_conf_path("é-x"), "/etc/dnsmasq.d/routelane-_-x.conf");
    assert_eq!(
        dnsmasq_config_content("x.com"),
        "# routelane: x.com → ipset\nipset=/x.com/routelane4,routelane6\n"
    );
    assert_eq!(
        owned_conf_files(&strs(&["routelane-a.conf", "routelane-b.txt", "x.conf", "routelane-.conf"])),
        strs(&["routelane-a.conf", "routelane-.conf"])
    );
}

#[test]
fn dns_router_commands() {
    assert_eq!(
        ipset_create_args("routelane4", "inet"),
        strs(&["create", "routelane4", "hash:ip", "timeout", "300", "family", "inet"])
    );
    assert_eq!(
        table_route_args("10.0.0.1", "tun0"),
        strs(&["route", "add", "default", "via", "10.0.0.1", "dev", "tun0", "table", "100"])
    );
    assert_eq!(
        iptables_mark_args("-A", "OUTPUT"),
        strs(&[
            "-t", "mangle", "-A", "OUTPUT", "-m", "set", "--match-set", "routelane4", "dst", "-j",
            "MARK", "--set-mark", "0x726c"
        ])
    );
    assert_eq!(
        fwmark_rule_args(),
        strs(&["rule", "add", "fwmark", "0x726c", "lookup", "100", "priority", "10000"])
    );
    assert_eq!(missing_gateway("tun0"), "'tun0' için gateway bulunamadı");
    let steps = teardown_steps();
    assert_eq!(steps.len(), 8);
    assert_eq!(steps[0], ("ip".to_owned(), strs(&["rule", "del", "fwmark", "0x726c"])));
    assert_eq!(steps[2].1[2], "-D");
    assert_eq!(steps[2].1[3], "PREROUTING");
    assert_eq!(steps[3], ("ip".to_owned(), strs(&["route", "flush", "table", "100"])));
    assert_eq!(steps[7], ("ipset".to_owned(), strs(&["destroy", "routelane6"])));
}

#[test]
fn dns_router_outcomes_and_leftovers() {
    assert_eq!(
        ipset_create_outcome("routelane4", Some((false, "set with the same name already exists".to_owned()))),
        Ok(())
    );
    assert_eq!(
        ipset_create_outcome("routelane4", Some((false, " boom\n".to_owned()))),
        Err("ipset create routelane4 başarısız: boom".to_owned())
    );
    assert_eq!(
        ipset_create_outcome("routelane4", None),
        Err("ipset create başlatılamadı".to_owned())
    );
    assert_eq!(iptables_outcome("-A", "OUTPUT", Some((true, String::new()))), Ok(()));
    assert_eq!(
        iptables_outcome("-A", "OUTPUT", Some((false, " bad \n".to_owned()))),
        Err("iptables -A OUTPUT başarısız: bad".to_owned())
    );
    assert_eq!(iptables_outcome("-D", "OUTPUT", None), Err("iptables başlatılamadı".to_owned()));

    assert!(DnsRouter::has_leftovers(
        Some("0:\tfrom all lookup local\n10000:\tfrom all fwmark 0x726c lookup 100\n".to_owned()),
        None
    ));
    assert!(DnsRouter::has_leftovers(None, Some(strs(&["other.conf", "routelane-a.conf"]))));
    assert!(!DnsRouter::has_leftovers(Some("fwmark 0x726".to_owned()), Some(strs(&["x.conf"]))));
    assert!(!DnsRouter::has_leftovers(None, None));
}

#[test]
fn dns_router_state() {
    let mut r = DnsRouter::new();
    assert!(r.needs_kernel_setup());
    r.setup_kernel();
    assert!(!r.needs_kernel_setup());
    r.add_domain("a.com");
    r.add_domain("a.com");
    r.remove_domain("a.com");
    assert!(!r.needs_kernel_setup());
    r.reset_all();
    assert!(r.needs_kernel_setup());
}
