use routelane::helper::{
    command_failure, command_start_failure, flush_continues, flush_next, write_failure, error_response, execute_op, family_arg, helper_response, ip_failure,
    ipset_create_result, rule_del_args, start_failure, validate_cidr, validate_domain,
    validate_ip_or_iface, validate_ipset_name, validate_priority, validate_table, HelperAction,
};
use routelane::models::{HelperOp, IpFamily};

fn strs(v: &[&str]) -> Vec<String> {
    v.iter().map(|s| s.to_string()).collect()
}

#[test]
fn table_bounds() {
    assert_eq!(validate_table(100), Ok(()));
    assert_eq!(validate_table(199), Ok(()));
    assert_eq!(
        validate_table(99),
        Err("Tablo 99 izin verilen aralık [100,199] dışında".to_owned())
    );
    assert_eq!(
        validate_table(200),
        Err("Tablo 200 izin verilen aralık [100,199] dışında".to_owned())
    );
}

#[test]
fn priority_bounds() {
    assert_eq!(validate_priority(10_000), Ok(()));
    assert_eq!(validate_priority(10_999), Ok(()));
    assert_eq!(
        validate_priority(9_999),
        Err("Öncelik 9999 izin verilen [10000,10999] dışında".to_owned())
    );
    assert_eq!(
        validate_priority(11_000),
        Err("Öncelik 11000 izin verilen [10000,10999] dışında".to_owned())
    );
}

#[test]
fn ip_or_iface_characters() {
    assert_eq!(validate_ip_or_iface("wlan0", "interface"), Ok(()));
    assert_eq!(validate_ip_or_iface("fe80::1/64", "gateway"), Ok(()));
    assert_eq!(
        validate_ip_or_iface("", "gateway"),
        Err("gateway boş veya çok uzun".to_owned())
    );
    assert_eq!(
        validate_ip_or_iface(&"a".repeat(65), "gateway"),
        Err("gateway boş veya çok uzun".to_owned())
    );
    assert_eq!(validate_ip_or_iface(&"a".repeat(64), "gateway"), Ok(()));
    assert_eq!(
        validate_ip_or_iface("eth0;rm", "interface"),
        Err("interface geçersiz karakter içeriyor: \"eth0;rm\"".to_owned())
    );
}

#[test]
fn ip_or_iface_length_counts_bytes() {
    // 32 two-byte characters are 64 bytes; one more is too long.
    let s = "ı".repeat(33);
    assert_eq!(
        validate_ip_or_iface(&s, "interface"),
        Err("interface boş veya çok uzun".to_owned())
    );
}

#[test]
fn cidr_checks() {
    assert_eq!(validate_cidr("10.0.0.0/8", IpFamily::V4), Ok(()));
    assert_eq!(validate_cidr("2001:db8::/32", IpFamily::V6), Ok(()));
    assert_eq!(validate_cidr("1.2.3.4", IpFamily::V4), Ok(()));
    assert_eq!(
        validate_cidr("10.0.0.0/8", IpFamily::V6),
        Err("IP ailesi uyuşmuyor: 10.0.0.0/8".to_owned())
    );
    assert_eq!(
        validate_cidr("10.0.0.0/33", IpFamily::V4),
        Err("CIDR prefix 33 çok büyük".to_owned())
    );
    assert_eq!(
        validate_cidr("10.0.0.0/x", IpFamily::V4),
        Err("Geçersiz CIDR prefix: x".to_owned())
    );
    assert_eq!(
        validate_cidr("10.0.0.0/256", IpFamily::V4),
        Err("Geçersiz CIDR prefix: 256".to_owned())
    );
    assert_eq!(
        validate_cidr("300.0.0.1/8", IpFamily::V4),
        Err("Geçersiz IP adresi: 300.0.0.1".to_owned())
    );
    assert_eq!(
        validate_cidr("", IpFamily::V4),
        Err("destination boş veya çok uzun".to_owned())
    );
    assert_eq!(validate_cidr("::1/128", IpFamily::V6), Ok(()));
    assert_eq!(
        validate_cidr("::1/129", IpFamily::V6),
        Err("CIDR prefix 129 çok büyük".to_owned())
    );
}

#[test]
fn ipset_names() {
    assert_eq!(validate_ipset_name("routelane4"), Ok(()));
    assert_eq!(validate_ipset_name("routelane_x-1"), Ok(()));
    assert_eq!(
        validate_ipset_name(""),
        Err("ipset adı geçersiz uzunluk: \"\"".to_owned())
    );
    let long = format!("routelane{}", "a".repeat(23));
    assert_eq!(
        validate_ipset_name(&long),
        Err(format!("ipset adı geçersiz uzunluk: {:?}", long))
    );
    assert_eq!(
        validate_ipset_name("foo"),
        Err("ipset adı 'routelane' ile başlamalı: \"foo\"".to_owned())
    );
    assert_eq!(
        validate_ipset_name("routelane4!"),
        Err("ipset adı geçersiz karakter içeriyor: \"routelane4!\"".to_owned())
    );
}

#[test]
fn domains() {
    assert_eq!(validate_domain("example.com"), Ok(()));
    assert_eq!(
        validate_domain(""),
        Err("domain geçersiz uzunluk".to_owned())
    );
    assert_eq!(
        validate_domain(&"a".repeat(254)),
        Err("domain geçersiz uzunluk".to_owned())
    );
    assert_eq!(
        validate_domain("a b"),
        Err("domain geçersiz karakter: \"a b\"".to_owned())
    );
}

fn run_ip(r: Result<HelperAction, String>) -> (IpFamily, Vec<String>, bool) {
    match r {
        Ok(HelperAction::RunIp { family, args, ignore_failure }) => (family, args, ignore_failure),
        other => panic!("unexpected {:?}", other),
    }
}

#[test]
fn add_route_plans_a_replace() {
    let (f, args, ignore) = run_ip(execute_op(&HelperOp::AddRoute {
        gateway: "192.168.1.1".to_owned(),
        interface: "wlan0".to_owned(),
        table: 100,
        family: IpFamily::V4,
    }));
    assert_eq!(f, IpFamily::V4);
    assert_eq!(
        args,
        strs(&["route", "replace", "default", "via", "192.168.1.1", "dev", "wlan0", "table", "100"])
    );
    assert!(!ignore);
}

#[test]
fn add_route_outside_the_tables_is_refused() {
    let r = execute_op(&HelperOp::AddRoute {
        gateway: "192.168.1.1".to_owned(),
        interface: "wlan0".to_owned(),
        table: 254,
        family: IpFamily::V4,
    });
    assert_eq!(
        r.err(),
        Some("Tablo 254 izin verilen aralık [100,199] dışında".to_owned())
    );
    let r = execute_op(&HelperOp::AddRoute {
        gateway: "1.1.1.1 ; reboot".to_owned(),
        interface: "wlan0".to_owned(),
        table: 100,
        family: IpFamily::V4,
    });
    assert_eq!(
        r.err(),
        Some("gateway geçersiz karakter içeriyor: \"1.1.1.1 ; reboot\"".to_owned())
    );
}

#[test]
fn add_rule_plans_a_lookup() {
    let (f, args, _) = run_ip(execute_op(&HelperOp::AddRule {
        destination: "2001:db8::/32".to_owned(),
        table: 100,
        priority: 10_005,
        family: IpFamily::V6,
    }));
    assert_eq!(f, IpFamily::V6);
    assert_eq!(
        args,
        strs(&["rule", "add", "to", "2001:db8::/32", "lookup", "100", "priority", "10005"])
    );
    let r = execute_op(&HelperOp::AddRule {
        destination: "1.2.3.4/32".to_owned(),
        table: 100,
        priority: 10_005,
        family: IpFamily::V6,
    });
    assert_eq!(r.err(), Some("IP ailesi uyuşmuyor: 1.2.3.4/32".to_owned()));
}

#[test]
fn flush_ranges() {
    match execute_op(&HelperOp::FlushRulesInRange {
        min_priority: 10_000,
        max_priority: 10_999,
        family: IpFamily::V4,
    }) {
        Ok(HelperAction::FlushRules { family, min, max }) => {
            assert_eq!((family, min, max), (IpFamily::V4, 10_000, 10_999));
        }
        other => panic!("unexpected {:?}", other),
    }
    let r = execute_op(&HelperOp::FlushRulesInRange {
        min_priority: 9_999,
        max_priority: 10_999,
        family: IpFamily::V4,
    });
    assert_eq!(
        r.err(),
        Some("Öncelik aralığı [9999,10999] izin verilen [10000,10999] dışında".to_owned())
    );
    let (_, args, ignore) = run_ip(execute_op(&HelperOp::FlushTable { table: 100, family: IpFamily::V6 }));
    assert_eq!(args, strs(&["route", "flush", "table", "100"]));
    assert!(ignore);
}

#[test]
fn ipset_operations() {
    match execute_op(&HelperOp::IpsetCreate {
        name: "routelane4".to_owned(),
        family: "inet".to_owned(),
        timeout_secs: 300,
    }) {
        Ok(HelperAction::IpsetCreate { name, args }) => {
            assert_eq!(name, "routelane4");
            assert_eq!(
                args,
                strs(&["create", "routelane4", "hash:ip", "timeout", "300", "family", "inet"])
            );
        }
        other => panic!("unexpected {:?}", other),
    }
    let r = execute_op(&HelperOp::IpsetCreate {
        name: "routelane4".to_owned(),
        family: "ip".to_owned(),
        timeout_secs: 300,
    });
    assert_eq!(r.err(), Some("Geçersiz ipset family: ip".to_owned()));
    let r = execute_op(&HelperOp::IpsetCreate {
        name: "routelane4".to_owned(),
        family: "inet6".to_owned(),
        timeout_secs: 86_401,
    });
    assert_eq!(r.err(), Some("timeout_secs çok büyük (max 86400)".to_owned()));
    match execute_op(&HelperOp::IpsetAdd { name: "routelane4".to_owned(), ip: "1.2.3.4".to_owned() }) {
        Ok(HelperAction::RunCmd { bin, args }) => {
            assert_eq!(bin, "/sbin/ipset");
            assert_eq!(args, strs(&["add", "routelane4", "1.2.3.4", "-exist"]));
        }
        other => panic!("unexpected {:?}", other),
    }
    let r = execute_op(&HelperOp::IpsetAdd { name: "routelane6".to_owned(), ip: "zzz".to_owned() });
    assert_eq!(r.err(), Some("Geçersiz IP adresi: zzz".to_owned()));
    match execute_op(&HelperOp::IpsetDestroy { name: "routelane6".to_owned() }) {
        Ok(HelperAction::IpsetDestroy { name }) => assert_eq!(name, "routelane6"),
        other => panic!("unexpected {:?}", other),
    }
}

#[test]
fn iptables_marks() {
    let op = |chain: &str, action: &str| HelperOp::IptablesMark {
        chain: chain.to_owned(),
        action: action.to_owned(),
        ipset_name: "routelane4".to_owned(),
        mark: 0x726c,
    };
    assert_eq!(execute_op(&op("FORWARD", "-A")).err(), Some("Geçersiz chain: FORWARD".to_owned()));
    assert_eq!(execute_op(&op("OUTPUT", "-X")).err(), Some("Geçersiz action: -X".to_owned()));
    match execute_op(&op("PREROUTING", "-D")) {
        Ok(HelperAction::RunCmd { bin, args }) => {
            assert_eq!(bin, "/sbin/iptables");
            assert_eq!(
                args,
                strs(&[
                    "-t", "mangle", "-D", "PREROUTING", "-m", "set", "--match-set", "routelane4",
                    "dst", "-j", "MARK", "--set-mark", "0x726c"
                ])
            );
        }
        other => panic!("unexpected {:?}", other),
    }
}

#[test]
fn fwmark_rules() {
    let (f, args, ignore) = run_ip(execute_op(&HelperOp::AddFwmarkRule {
        mark: 0x726c,
        table: 100,
        priority: 10_000,
    }));
    assert_eq!(f, IpFamily::V4);
    assert_eq!(
        args,
        strs(&["rule", "add", "fwmark", "0x726c", "lookup", "100", "priority", "10000"])
    );
    assert!(!ignore);
    let (_, args, ignore) = run_ip(execute_op(&HelperOp::DelFwmarkRule { mark: 255 }));
    assert_eq!(args, strs(&["rule", "del", "fwmark", "0xff"]));
    assert!(ignore);
    let (_, args, _) = run_ip(execute_op(&HelperOp::DelFwmarkRule { mark: 0 }));
    assert_eq!(args, strs(&["rule", "del", "fwmark", "0x0"]));
}

#[test]
fn dnsmasq_entries() {
    match execute_op(&HelperOp::WriteDnsmasqEntry { domain: "example.com".to_owned() }) {
        Ok(HelperAction::WriteFile { path, content }) => {
            assert_eq!(path, "/etc/dnsmasq.d/routelane-example.com.conf");
            assert_eq!(
                content,
                "# routelane managed — do not edit\nipset=/example.com/routelane4,routelane6\n"
            );
        }
        other => panic!("unexpected {:?}", other),
    }
    match execute_op(&HelperOp::RemoveDnsmasqEntry { domain: "example.com".to_owned() }) {
        Ok(HelperAction::RemoveFile { path }) => {
            assert_eq!(path, "/etc/dnsmasq.d/routelane-example.com.conf")
        }
        other => panic!("unexpected {:?}", other),
    }
    let r = execute_op(&HelperOp::RemoveDnsmasqEntry { domain: "../etc/passwd x".to_owned() });
    assert_eq!(r.err(), Some("domain geçersiz karakter: \"../etc/passwd x\"".to_owned()));
    assert!(matches!(execute_op(&HelperOp::ReloadDnsmasq), Ok(HelperAction::ReloadDnsmasq)));
}

#[test]
fn failure_messages_of_commands() {
    assert_eq!(
        command_failure("/sbin/ipset", &strs(&["add", "routelane4", "1.2.3.4"]), " boom \n"),
        "/sbin/ipset add routelane4 1.2.3.4 başarısız: boom"
    );
    assert_eq!(
        ip_failure(&strs(&["rule", "add"]), "exit status: 2", "RTNETLINK answers: File exists\n"),
        "ip rule add başarısız (exit status: 2): RTNETLINK answers: File exists"
    );
    assert_eq!(
        start_failure("ip komutu başlatılamadı", "No such file"),
        "ip komutu başlatılamadı: No such file"
    );
    assert_eq!(family_arg(IpFamily::V4), "-4");
    assert_eq!(family_arg(IpFamily::V6), "-6");
}

#[test]
fn ipset_that_exists_is_no_error() {
    assert_eq!(ipset_create_result("routelane4", true, ""), Ok(()));
    assert_eq!(
        ipset_create_result(
            "routelane4",
            false,
            "ipset v7.1: Set cannot be created: set with the same name already exists\n"
        ),
        Ok(())
    );
    assert_eq!(
        ipset_create_result("routelane4", false, " Kernel error\n"),
        Err("ipset create routelane4: Kernel error".to_owned())
    );
}

#[test]
fn rule_deletion_and_responses() {
    assert_eq!(rule_del_args(10_005), strs(&["rule", "del", "priority", "10005"]));
    let ok = helper_response(vec![]);
    assert!(ok.success);
    assert!(ok.errors.is_empty());
    let bad = helper_response(strs(&["a", "b"]));
    assert!(!bad.success);
    assert_eq!(bad.errors, strs(&["a", "b"]));
    let e = error_response("JSON ayrıştırma hatası: x");
    assert!(!e.success);
    assert_eq!(e.errors, strs(&["JSON ayrıştırma hatası: x"]));
}

#[test]
fn start_and_write_failures() {
    assert_eq!(
        command_start_failure("/sbin/ipset", "No such file or directory (os error 2)"),
        "/sbin/ipset başlatılamadı: No such file or directory (os error 2)"
    );
    assert_eq!(
        write_failure("/etc/dnsmasq.d/routelane-a.conf", "denied"),
        "dnsmasq config yazılamadı /etc/dnsmasq.d/routelane-a.conf: denied"
    );
}

#[test]
fn flushing_goes_round_by_round() {
    let listing = br#"[{"priority":0},{"priority":10001},{"priority":10001},{"priority":32766}]"#;
    assert_eq!(flush_next(listing, 10_000, 10_999), Some(vec![10_001, 10_001]));
    assert_eq!(flush_next(br#"[{"priority":0}]"#, 10_000, 10_999), None);
    assert_eq!(flush_next(b"", 10_000, 10_999), None);
    assert!(flush_continues(&vec![false, true]));
    assert!(!flush_continues(&vec![false, false]));
    assert!(!flush_continues(&vec![]));
}

#[test]
fn fwmark_rules_keep_to_the_priority_range() {
    let r = execute_op(&HelperOp::AddFwmarkRule { mark: 0x726c, table: 100, priority: 5 });
    assert_eq!(r.err(), Some("Öncelik 5 izin verilen [10000,10999] dışında".to_owned()));
}
