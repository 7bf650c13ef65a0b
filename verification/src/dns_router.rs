//! DNS-based routing (experimental): dnsmasq adds the addresses of each
//! domain to a kernel ipset, iptables marks packets to those addresses, and
//! one `ip rule` sends marked packets to the application's table. The state
//! of the router and the exact commands and files are planned here; the
//! caller runs them.
use vstd::prelude::*;

use crate::helper::unit_view;
use crate::text::{
    append_str, chars_of, contains_str, ends_with_str, has_infix, is_ascii_alnum, push_char,
    starts_with_str, string_of, texts_of, trim, trim_str,
};

verus! {

pub open spec fn ipset_v4() -> Seq<char> {
    "routelane4"@
}

pub open spec fn ipset_v6() -> Seq<char> {
    "routelane6"@
}

/// The firewall mark of routed packets, `rl`.
pub const FWMARK: u32 = 0x726c;
/// The routing table of marked packets.
pub const ROUTELANE_TABLE: u32 = 100;

/// The domains that the router manages, and whether its kernel set-up (the
/// ipsets, the iptables marks and the fwmark rule) is in place.
pub struct DnsRouter {
    domains: Vec<String>,
    kernel_rules_active: bool,
}

pub struct DnsRouterView {
    pub domains: Seq<Seq<char>>,
    pub kernel_rules_active: bool,
}

impl View for DnsRouter {
    type V = DnsRouterView;

    closed spec fn view(&self) -> DnsRouterView {
        DnsRouterView { domains: texts_of(self.domains@), kernel_rules_active: self.kernel_rules_active }
    }
}

/// A character of a domain that may stand in a file name; others become `_`.
pub open spec fn safe_file_char(c: char) -> char {
    if is_ascii_alnum(c) || c == '.' || c == '-' {
        c
    } else {
        '_'
    }
}

/// The dnsmasq file of a domain.
pub open spec fn conf_path_of(domain: Seq<char>) -> Seq<char> {
    "/etc/dnsmasq.d/routelane-"@ + Seq::new(domain.len(), |i: int| safe_file_char(domain[i]))
        + ".conf"@
}

/// The dnsmasq directive that puts a domain's addresses into the ipsets.
pub open spec fn conf_content_of(domain: Seq<char>) -> Seq<char> {
    "# routelane: "@ + domain + " → ipset\nipset=/"@ + domain + "/"@ + ipset_v4() + ","@
        + ipset_v6() + "\n"@
}

/// The dnsmasq file of a domain, with every character that is not a
/// letter, digit, dot or hyphen replaced by `_`.
pub fn dnsmasq_conf_path(domain: &str) -> (r: String)
    ensures
        r@ == conf_path_of(domain@),
{
    let v = chars_of(domain);
    let mut r = string_of("/etc/dnsmasq.d/routelane-");
    let ghost start = r@;
    let mut i: usize = 0;
    while i < v.len()
        invariant
            i <= v.len(),
            v@ == domain@,
            start == "/etc/dnsmasq.d/routelane-"@,
            r@ == start + Seq::new(i as nat, |k: int| safe_file_char(v@[k])),
        decreases v.len() - i,
    {
        let c = v[i];
        let ok = ('0' <= c && c <= '9') || ('a' <= c && c <= 'z') || ('A' <= c && c <= 'Z') || c
            == '.' || c == '-';
        push_char(&mut r, if ok { c } else { '_' });
        assert(Seq::new((i + 1) as nat, |k: int| safe_file_char(v@[k])) =~= Seq::new(
            i as nat,
            |k: int| safe_file_char(v@[k]),
        ).push(safe_file_char(c)));
        i = i + 1;
    }
    append_str(&mut r, ".conf");
    assert(Seq::new(v.len() as nat, |k: int| safe_file_char(v@[k])) =~= Seq::new(
        domain@.len(),
        |k: int| safe_file_char(domain@[k]),
    ));
    r
}

/// The text of a domain's dnsmasq file.
pub fn dnsmasq_config_content(domain: &str) -> (r: String)
    ensures
        r@ == conf_content_of(domain@),
{
    let mut r = string_of("# routelane: ");
    append_str(&mut r, domain);
    append_str(&mut r, " → ipset\nipset=/");
    append_str(&mut r, domain);
    append_str(&mut r, "/");
    append_str(&mut r, "routelane4");
    append_str(&mut r, ",");
    append_str(&mut r, "routelane6");
    append_str(&mut r, "\n");
    r
}

fn strings(parts: &[&str]) -> (r: Vec<String>)
    ensures
        texts_of(r@) == parts@.map_values(|p: &str| p@),
{
    let mut r: Vec<String> = Vec::new();
    let mut i: usize = 0;
    while i < parts.len()
        invariant
            i <= parts.len(),
            r.len() == i,
            texts_of(r@) == parts@.map_values(|p: &str| p@).take(i as int),
        decreases parts.len() - i,
    {
        let ghost before = r@;
        r.push(string_of(parts[i]));
        assert forall|k: int| 0 <= k < i implies texts_of(r@)[k] == parts@.map_values(
            |p: &str| p@,
        ).take(i + 1)[k] by {
            assert(r@[k] == before[k]);
            assert(texts_of(before)[k] == parts@.map_values(|p: &str| p@).take(i as int)[k]);
        }
        assert(texts_of(r@) =~= parts@.map_values(|p: &str| p@).take(i + 1));
        i = i + 1;
    }
    assert(parts@.map_values(|p: &str| p@).take(parts.len() as int) =~= parts@.map_values(
        |p: &str| p@,
    ));
    r
}

/// `ipset` arguments that create a set whose entries expire after five
/// minutes, against the rotation of CDN addresses.
pub fn ipset_create_args(name: &str, family: &str) -> (r: Vec<String>)
    ensures
        texts_of(r@) == seq!["create"@, name@, "hash:ip"@, "timeout"@, "300"@, "family"@, family@],
{
    let parts = [ "create", name, "hash:ip", "timeout", "300", "family", family];
    let r = strings(&parts);
    assert(parts@.map_values(|p: &str| p@) =~= seq![
        "create"@,
        name@,
        "hash:ip"@,
        "timeout"@,
        "300"@,
        "family"@,
        family@,
    ]);
    r
}

/// `ip` arguments that give the table a default route through the gateway.
pub fn table_route_args(gateway: &str, alt_iface: &str) -> (r: Vec<String>)
    ensures
        texts_of(r@) == seq![
            "route"@,
            "add"@,
            "default"@,
            "via"@,
            gateway@,
            "dev"@,
            alt_iface@,
            "table"@,
            "100"@,
        ],
{
    let parts = [ "route", "add", "default", "via", gateway, "dev", alt_iface, "table", "100"];
    let r = strings(&parts);
    assert(parts@.map_values(|p: &str| p@) =~= seq![
        "route"@,
        "add"@,
        "default"@,
        "via"@,
        gateway@,
        "dev"@,
        alt_iface@,
        "table"@,
        "100"@,
    ]);
    r
}

/// The `iptables` arguments that mark packets to the IPv4 set on a chain.
pub open spec fn mark_args_of(action: Seq<char>, chain: Seq<char>) -> Seq<Seq<char>> {
    seq![
        "-t"@,
        "mangle"@,
        action,
        chain,
        "-m"@,
        "set"@,
        "--match-set"@,
        ipset_v4(),
        "dst"@,
        "-j"@,
        "MARK"@,
        "--set-mark"@,
        "0x726c"@,
    ]
}

/// `iptables` arguments that add (`-A`) or delete (`-D`) the mark of
/// packets to the IPv4 set on a chain.
pub fn iptables_mark_args(action: &str, chain: &str) -> (r: Vec<String>)
    ensures
        texts_of(r@) == mark_args_of(action@, chain@),
        texts_of(r@) == seq![
            "-t"@,
            "mangle"@,
            action@,
            chain@,
            "-m"@,
            "set"@,
            "--match-set"@,
            ipset_v4(),
            "dst"@,
            "-j"@,
            "MARK"@,
            "--set-mark"@,
            "0x726c"@,
        ],
{
    let parts = [
        "-t",
        "mangle",
        action,
        chain,
        "-m",
        "set",
        "--match-set",
        "routelane4",
        "dst",
        "-j",
        "MARK",
        "--set-mark",
        "0x726c",
    ];
    let r = strings(&parts);
    assert(parts@.map_values(|p: &str| p@) =~= seq![
        "-t"@,
        "mangle"@,
        action@,
        chain@,
        "-m"@,
        "set"@,
        "--match-set"@,
        ipset_v4(),
        "dst"@,
        "-j"@,
        "MARK"@,
        "--set-mark"@,
        "0x726c"@,
    ]);
    r
}

/// `ip` arguments of the rule that sends marked packets to the table.
pub fn fwmark_rule_args() -> (r: Vec<String>)
    ensures
        texts_of(r@) == seq![
            "rule"@,
            "add"@,
            "fwmark"@,
            "0x726c"@,
            "lookup"@,
            "100"@,
            "priority"@,
            "10000"@,
        ],
{
    let parts = ["rule", "add", "fwmark", "0x726c", "lookup", "100", "priority", "10000"];
    let r = strings(&parts);
    assert(parts@.map_values(|p: &str| p@) =~= seq![
        "rule"@,
        "add"@,
        "fwmark"@,
        "0x726c"@,
        "lookup"@,
        "100"@,
        "priority"@,
        "10000"@,
    ]);
    r
}

pub open spec fn missing_gateway_message(alt_iface: Seq<char>) -> Seq<char> {
    "'"@ + alt_iface + "' için gateway bulunamadı"@
}

/// The error when the interface has no gateway.
pub fn missing_gateway(alt_iface: &str) -> (r: String)
    ensures
        r@ == missing_gateway_message(alt_iface@),
{
    let mut r = string_of("'");
    append_str(&mut r, alt_iface);
    append_str(&mut r, "' için gateway bulunamadı");
    r
}

/// The domains after adding one: the list, with the domain at the end if
/// it was not there yet.
pub open spec fn with_domain(ds: Seq<Seq<char>>, d: Seq<char>) -> Seq<Seq<char>> {
    if ds.contains(d) {
        ds
    } else {
        ds.push(d)
    }
}

impl DnsRouter {
    /// No domains, no kernel set-up.
    pub fn new() -> (r: Self)
        ensures
            r@.domains.len() == 0,
            !r@.kernel_rules_active,
    {
        let r = DnsRouter { domains: Vec::new(), kernel_rules_active: false };
        assert(r@.domains =~= Seq::<Seq<char>>::empty());
        r
    }

    /// Whether adding a domain first needs the kernel set-up.
    pub fn needs_kernel_setup(&self) -> (r: bool)
        ensures
            r == !self@.kernel_rules_active,
    {
        !self.kernel_rules_active
    }

    /// The kernel set-up ran: the ipsets, the marks and the rule are in place.
    pub fn setup_kernel(&mut self)
        ensures
            final(self)@.kernel_rules_active,
            final(self)@.domains == old(self)@.domains,
    {
        self.kernel_rules_active = true;
    }

    /// The domain's file was written and dnsmasq reloaded: the domain is
    /// managed, once.
    pub fn add_domain(&mut self, domain: &str)
        ensures
            final(self)@.kernel_rules_active == old(self)@.kernel_rules_active,
            final(self)@.domains == with_domain(old(self)@.domains, domain@),
    {
        let ghost before = self@.domains;
        let mut i: usize = 0;
        while i < self.domains.len()
            invariant
                i <= self.domains.len(),
                before == texts_of(self.domains@),
                forall|k: int| 0 <= k < i ==> before[k] != domain@,
            decreases self.domains.len() - i,
        {
            if crate::text::str_eq(self.domains[i].as_str(), domain) {
                assert(before[i as int] == domain@);
                return;
            }
            i = i + 1;
        }
        self.domains.push(string_of(domain));
        assert(self@.domains =~= before.push(domain@));
    }

    /// The domain's file was removed: the domain is no longer managed.
    pub fn remove_domain(&mut self, domain: &str)
        ensures
            final(self)@.kernel_rules_active == old(self)@.kernel_rules_active,
            final(self)@.domains == old(self)@.domains.filter(|d: Seq<char>| d != domain@),
    {
        let ghost before = self@.domains;
        let mut kept: Vec<String> = Vec::new();
        let mut i: usize = 0;
        assert(before.take(0).filter(|d: Seq<char>| d != domain@) =~= Seq::<Seq<char>>::empty());
        assert(texts_of(kept@) =~= Seq::<Seq<char>>::empty());
        while i < self.domains.len()
            invariant
                i <= self.domains.len(),
                before == texts_of(self.domains@),
                texts_of(kept@) == before.take(i as int).filter(|d: Seq<char>| d != domain@),
            decreases self.domains.len() - i,
        {
            reveal_with_fuel(Seq::filter, 1);
            assert(before.take(i + 1).drop_last() =~= before.take(i as int));
            if !crate::text::str_eq(self.domains[i].as_str(), domain) {
                let ghost b = kept@;
                kept.push(self.domains[i].clone());
                assert(texts_of(kept@) =~= texts_of(b).push(before[i as int]));
            }
            i = i + 1;
        }
        assert(before.take(self.domains.len() as int) =~= before);
        self.domains = kept;
    }

    /// Everything was cleaned up: no domains, no kernel set-up.
    pub fn reset_all(&mut self)
        ensures
            final(self)@.domains.len() == 0,
            !final(self)@.kernel_rules_active,
    {
        self.domains = Vec::new();
        self.kernel_rules_active = false;
        assert(self@.domains =~= Seq::<Seq<char>>::empty());
    }
}

// ── Leftovers and clean-up ──────────────────────────────────────────────────

/// The `ip rule list` line of the fwmark rule.
pub open spec fn fwmark_rule_text() -> Seq<char> {
    "fwmark 0x726c"@
}

pub open spec fn is_owned_conf_name(name: Seq<char>) -> bool {
    "routelane-"@.is_prefix_of(name)
}

/// Whether an earlier run left the fwmark rule in `ip rule list` output, or
/// a `routelane-` file among the names of the dnsmasq directory (`None`:
/// the command did not run, or the directory could not be read).
pub open spec fn leftovers_in(rule_list: Option<Seq<char>>, conf_names: Option<Seq<Seq<char>>>) -> bool {
    let has_rule = match rule_list {
        Some(l) => has_infix(l, fwmark_rule_text()),
        None => false,
    };
    let has_conf = match conf_names {
        Some(ns) => exists|i: int| 0 <= i < ns.len() && is_owned_conf_name(#[trigger] ns[i]),
        None => false,
    };
    has_rule || has_conf
}

/// The dnsmasq files of the application: `routelane-*.conf`.
pub open spec fn is_owned_conf_file(name: Seq<char>) -> bool {
    "routelane-"@.is_prefix_of(name) && ".conf"@.is_suffix_of(name)
}

pub open spec fn opt_texts(o: Option<Vec<String>>) -> Option<Seq<Seq<char>>> {
    match o {
        Some(v) => Some(texts_of(v@)),
        None => None,
    }
}

impl DnsRouter {
    /// Whether the system holds traces of DNS routing; no privileges are
    /// needed to ask.
    pub fn has_leftovers(rule_list: Option<String>, conf_names: Option<Vec<String>>) -> (r: bool)
        ensures
            r == leftovers_in(crate::executor::opt_view(rule_list), opt_texts(conf_names)),
    {
        let has_rule = match &rule_list {
            Some(l) => contains_str(l.as_str(), "fwmark 0x726c"),
            None => false,
        };
        if has_rule {
            return true;
        }
        match &conf_names {
            None => false,
            Some(names) => {
                let mut i: usize = 0;
                while i < names.len()
                    invariant
                        i <= names.len(),
                        opt_texts(conf_names) == Some(texts_of(names@)),
                        forall|j: int| 0 <= j < i ==> !is_owned_conf_name(#[trigger] texts_of(names@)[j]),
                    decreases names.len() - i,
                {
                    assert(texts_of(names@)[i as int] == names@[i as int]@);
                    if starts_with_str(names[i].as_str(), "routelane-") {
                        assert(opt_texts(conf_names) == Some(texts_of(names@)));
                        assert(texts_of(names@).len() == names.len());
                        assert(is_owned_conf_name(texts_of(names@)[i as int]));
                        assert(leftovers_in(crate::executor::opt_view(rule_list), opt_texts(conf_names))) by {
                            let tn = texts_of(names@);
                            assert(0 <= i < tn.len() && is_owned_conf_name(tn[i as int]));
                            assert(exists|j: int| 0 <= j < tn.len() && is_owned_conf_name(#[trigger] tn[j]));
                            let cn = opt_texts(conf_names);
                            assert(cn == Some(tn));
                            assert(cn->Some_0 == tn);
                            assert(exists|j: int| 0 <= j < cn->Some_0.len() && is_owned_conf_name(#[trigger] cn->Some_0[j]));

                        }
                        return true;
                    }
                    i = i + 1;
                }
                assert(opt_texts(conf_names) == Some(texts_of(names@)));
                assert(texts_of(names@).len() == names.len());
                false
            },
        }
    }
}

/// The names among `names` of the application's dnsmasq files, in order.
pub open spec fn owned_conf_files_of(names: Seq<Seq<char>>) -> Seq<Seq<char>> {
    names.filter(|n: Seq<char>| is_owned_conf_file(n))
}

/// The application's dnsmasq files among the names of the directory, which
/// a full reset removes.
pub fn owned_conf_files(names: &Vec<String>) -> (r: Vec<String>)
    ensures
        texts_of(r@) == owned_conf_files_of(texts_of(names@)),
{
    let ghost all = texts_of(names@);
    let mut r: Vec<String> = Vec::new();
    let mut i: usize = 0;
    assert(all.take(0).filter(|n: Seq<char>| is_owned_conf_file(n)) =~= Seq::<Seq<char>>::empty());
    assert(texts_of(r@) =~= Seq::<Seq<char>>::empty());
    while i < names.len()
        invariant
            i <= names.len(),
            all == texts_of(names@),
            texts_of(r@) == all.take(i as int).filter(|n: Seq<char>| is_owned_conf_file(n)),
        decreases names.len() - i,
    {
        reveal_with_fuel(Seq::filter, 1);
        assert(all.take(i + 1).drop_last() =~= all.take(i as int));
        assert(all[i as int] == names@[i as int]@);
        let n = names[i].as_str();
        if starts_with_str(n, "routelane-") && ends_with_str(n, ".conf") {
            let ghost b = r@;
            r.push(names[i].clone());
            assert(texts_of(r@) =~= texts_of(b).push(all[i as int]));
        }
        i = i + 1;
    }
    assert(all.take(names.len() as int) =~= all);
    r
}

/// How the creation of an ipset went (`None`: `ipset` did not start; else
/// its exit status and error output): a set that already exists is no
/// error.
pub open spec fn ipset_create_outcome_of(name: Seq<char>, output: Option<(bool, Seq<char>)>) -> Result<
    (),
    Seq<char>,
> {
    match output {
        None => Err("ipset create başlatılamadı"@),
        Some((success, stderr)) => if success || has_infix(stderr, "already exists"@) {
            Ok(())
        } else {
            Err("ipset create "@ + name + " başarısız: "@ + trim(stderr, false))
        },
    }
}

pub open spec fn run_view(o: Option<(bool, String)>) -> Option<(bool, Seq<char>)> {
    match o {
        Some((b, s)) => Some((b, s@)),
        None => None,
    }
}

pub fn ipset_create_outcome(name: &str, output: Option<(bool, String)>) -> (r: Result<(), String>)
    ensures
        unit_view(r) == ipset_create_outcome_of(name@, run_view(output)),
{
    match output {
        None => Err(string_of("ipset create başlatılamadı")),
        Some((success, stderr)) => {
            if success || contains_str(stderr.as_str(), "already exists") {
                Ok(())
            } else {
                let mut m = string_of("ipset create ");
                append_str(&mut m, name);
                append_str(&mut m, " başarısız: ");
                let t = trim_str(stderr.as_str());
                append_str(&mut m, t.as_str());
                Err(m)
            }
        },
    }
}

/// How an iptables mark change went.
pub open spec fn iptables_outcome_of(
    action: Seq<char>,
    chain: Seq<char>,
    output: Option<(bool, Seq<char>)>,
) -> Result<(), Seq<char>> {
    match output {
        None => Err("iptables başlatılamadı"@),
        Some((success, stderr)) => if success {
            Ok(())
        } else {
            Err("iptables "@ + action + " "@ + chain + " başarısız: "@ + trim(stderr, false))
        },
    }
}

pub fn iptables_outcome(action: &str, chain: &str, output: Option<(bool, String)>) -> (r: Result<
    (),
    String,
>)
    ensures
        unit_view(r) == iptables_outcome_of(action@, chain@, run_view(output)),
{
    match output {
        None => Err(string_of("iptables başlatılamadı")),
        Some((success, stderr)) => {
            if success {
                Ok(())
            } else {
                let mut m = string_of("iptables ");
                append_str(&mut m, action);
                append_str(&mut m, " ");
                append_str(&mut m, chain);
                append_str(&mut m, " başarısız: ");
                let t = trim_str(stderr.as_str());
                append_str(&mut m, t.as_str());
                Err(m)
            }
        },
    }
}

/// The commands that take the kernel set-up down, in order: the fwmark
/// rule, both marks, the table's routes, and both ipsets; a failure of one
/// does not stop the others.
pub open spec fn teardown_steps_of() -> Seq<(Seq<char>, Seq<Seq<char>>)> {
    seq![
        ("ip"@, seq!["rule"@, "del"@, "fwmark"@, "0x726c"@]),
        ("iptables"@, mark_args_of("-D"@, "OUTPUT"@)),
        ("iptables"@, mark_args_of("-D"@, "PREROUTING"@)),
        ("ip"@, seq!["route"@, "flush"@, "table"@, "100"@]),
        ("ipset"@, seq!["flush"@, ipset_v4()]),
        ("ipset"@, seq!["flush"@, ipset_v6()]),
        ("ipset"@, seq!["destroy"@, ipset_v4()]),
        ("ipset"@, seq!["destroy"@, ipset_v6()]),
    ]
}

pub open spec fn steps_view(v: Seq<(String, Vec<String>)>) -> Seq<(Seq<char>, Seq<Seq<char>>)> {
    v.map_values(|p: (String, Vec<String>)| (p.0@, texts_of(p.1@)))
}

pub fn teardown_steps() -> (r: Vec<(String, Vec<String>)>)
    ensures
        steps_view(r@) == teardown_steps_of(),
{
    let p1 = ["rule", "del", "fwmark", "0x726c"];
    let a1 = strings(&p1);
    assert(p1@.map_values(|p: &str| p@) =~= seq!["rule"@, "del"@, "fwmark"@, "0x726c"@]);
    let p4 = ["route", "flush", "table", "100"];
    let a4 = strings(&p4);
    assert(p4@.map_values(|p: &str| p@) =~= seq!["route"@, "flush"@, "table"@, "100"@]);
    let p5 = ["flush", "routelane4"];
    let a5 = strings(&p5);
    assert(p5@.map_values(|p: &str| p@) =~= seq!["flush"@, ipset_v4()]);
    let p6 = ["flush", "routelane6"];
    let a6 = strings(&p6);
    assert(p6@.map_values(|p: &str| p@) =~= seq!["flush"@, ipset_v6()]);
    let p7 = ["destroy", "routelane4"];
    let a7 = strings(&p7);
    assert(p7@.map_values(|p: &str| p@) =~= seq!["destroy"@, ipset_v4()]);
    let p8 = ["destroy", "routelane6"];
    let a8 = strings(&p8);
    assert(p8@.map_values(|p: &str| p@) =~= seq!["destroy"@, ipset_v6()]);
    let mut r: Vec<(String, Vec<String>)> = Vec::new();
    r.push((string_of("ip"), a1));
    r.push((string_of("iptables"), iptables_mark_args("-D", "OUTPUT")));
    r.push((string_of("iptables"), iptables_mark_args("-D", "PREROUTING")));
    r.push((string_of("ip"), a4));
    r.push((string_of("ipset"), a5));
    r.push((string_of("ipset"), a6));
    r.push((string_of("ipset"), a7));
    r.push((string_of("ipset"), a8));
    assert(steps_view(r@) =~= teardown_steps_of());
    r
}

} // verus!
