//! The privileged helper's checks: every operation is validated against a
//! white list before any command runs, and what passes becomes exactly one
//! planned action with fixed programs and arguments.
use vstd::prelude::*;
use vstd::utf8::encode_utf8;

use crate::executor::{entries_or_empty, flush_targets, priorities_in};
use crate::ipaddr::{ip_family_at, ip_text_family, parse_u8_at, parse_u8_text};
use crate::models::{prefix_limit, HelperOp, HelperResponse, IpFamily, OpView};
use crate::text::{
    append_str, chars_of, contains_str, dec_text, find_char, first_index, has_char, has_infix,
    hex_text, is_ascii_alnum, join, join_strings, lemma_encode_empty, lemma_first_index_unique,
    push_decimal, push_hex, starts_with_str, str_eq, string_of, string_of_range, texts_of, trim,
    trim_str, utf8_len_exceeds,
};

verus! {

/// The routing tables that the helper may touch.
pub const TABLE_MIN: u32 = 100;
pub const TABLE_MAX: u32 = 199;
/// The `ip rule` priorities that the helper may touch.
pub const PRIO_MIN: u32 = 10_000;
pub const PRIO_MAX: u32 = 10_999;

// ── Text that only the standard library computes ────────────────────────────

/// How `{:?}` writes a string: quoted, with escapes.
pub uninterp spec fn debug_quoted(s: Seq<char>) -> Seq<char>;

/// Calls `format!("{:?}", s)`, the `Debug` form of a string slice. Trusted:
/// the contract claims only that the result depends on the text alone; what
/// the quoting and escaping look like is left unsaid.
#[verifier::external_body]
fn debug_text(s: &str) -> (r: String)
    ensures
        r@ == debug_quoted(s@),
{
    format!("{:?}", s)
}

// ── The checks ──────────────────────────────────────────────────────────────

pub open spec fn unit_view(r: Result<(), String>) -> Result<(), Seq<char>> {
    match r {
        Ok(_) => Ok(()),
        Err(e) => Err(e@),
    }
}

pub open spec fn table_check(t: u32) -> Result<(), Seq<char>> {
    if t < TABLE_MIN || t > TABLE_MAX {
        Err("Tablo "@ + dec_text(t as nat) + " izin verilen aralık [100,199] dışında"@)
    } else {
        Ok(())
    }
}

pub open spec fn priority_check(p: u32) -> Result<(), Seq<char>> {
    if p < PRIO_MIN || p > PRIO_MAX {
        Err("Öncelik "@ + dec_text(p as nat) + " izin verilen [10000,10999] dışında"@)
    } else {
        Ok(())
    }
}

/// Characters that may stand in an address or an interface name.
pub open spec fn iface_char_ok(c: char) -> bool {
    is_ascii_alnum(c) || c == '.' || c == ':' || c == '/' || c == '-' || c == '_' || c == '@'
}

/// An address or an interface name: 1 to 64 bytes of safe characters.
pub open spec fn ip_or_iface_check(value: Seq<char>, field: Seq<char>) -> Result<(), Seq<char>> {
    let n = encode_utf8(value).len();
    if n == 0 || n > 64 {
        Err(field + " boş veya çok uzun"@)
    } else if exists|i: int| 0 <= i < value.len() && !iface_char_ok(#[trigger] value[i]) {
        Err(field + " geçersiz karakter içeriyor: "@ + debug_quoted(value))
    } else {
        Ok(())
    }
}

/// An address or range of the given family, `address` or `address/prefix`.
pub open spec fn cidr_check(value: Seq<char>, family: IpFamily) -> Result<(), Seq<char>> {
    match ip_or_iface_check(value, "destination"@) {
        Err(e) => Err(e),
        Ok(_) => {
            let ip = if has_char(value, '/') {
                value.take(first_index(value, '/'))
            } else {
                value
            };
            match ip_text_family(ip) {
                None => Err("Geçersiz IP adresi: "@ + ip),
                Some(f) => if f != family {
                    Err("IP ailesi uyuşmuyor: "@ + value)
                } else if !has_char(value, '/') {
                    Ok(())
                } else {
                    let p = value.skip(first_index(value, '/') + 1);
                    match parse_u8_text(p) {
                        None => Err("Geçersiz CIDR prefix: "@ + p),
                        Some(n) => if n > prefix_limit(family) {
                            Err("CIDR prefix "@ + dec_text(n as nat) + " çok büyük"@)
                        } else {
                            Ok(())
                        },
                    }
                },
            }
        },
    }
}

pub open spec fn ipset_char_ok(c: char) -> bool {
    is_ascii_alnum(c) || c == '_' || c == '-'
}

/// An ipset name: 1 to 31 bytes that begin with `routelane`.
pub open spec fn ipset_name_check(name: Seq<char>) -> Result<(), Seq<char>> {
    let n = encode_utf8(name).len();
    if n == 0 || n > 31 {
        Err("ipset adı geçersiz uzunluk: "@ + debug_quoted(name))
    } else if !"routelane"@.is_prefix_of(name) {
        Err("ipset adı 'routelane' ile başlamalı: "@ + debug_quoted(name))
    } else if exists|i: int| 0 <= i < name.len() && !ipset_char_ok(#[trigger] name[i]) {
        Err("ipset adı geçersiz karakter içeriyor: "@ + debug_quoted(name))
    } else {
        Ok(())
    }
}

pub open spec fn domain_char_ok(c: char) -> bool {
    is_ascii_alnum(c) || c == '.' || c == '-'
}

/// A domain: 1 to 253 bytes of letters, digits, dots and hyphens.
pub open spec fn domain_check(domain: Seq<char>) -> Result<(), Seq<char>> {
    let n = encode_utf8(domain).len();
    if n == 0 || n > 253 {
        Err("domain geçersiz uzunluk"@)
    } else if exists|i: int| 0 <= i < domain.len() && !domain_char_ok(#[trigger] domain[i]) {
        Err("domain geçersiz karakter: "@ + debug_quoted(domain))
    } else {
        Ok(())
    }
}

pub fn validate_table(table: u32) -> (r: Result<(), String>)
    ensures
        unit_view(r) == table_check(table),
{
    if table < TABLE_MIN || table > TABLE_MAX {
        let mut m = string_of("Tablo ");
        push_decimal(&mut m, table as u64);
        append_str(&mut m, " izin verilen aralık [100,199] dışında");
        return Err(m);
    }
    Ok(())
}

pub fn validate_priority(prio: u32) -> (r: Result<(), String>)
    ensures
        unit_view(r) == priority_check(prio),
{
    if prio < PRIO_MIN || prio > PRIO_MAX {
        let mut m = string_of("Öncelik ");
        push_decimal(&mut m, prio as u64);
        append_str(&mut m, " izin verilen [10000,10999] dışında");
        return Err(m);
    }
    Ok(())
}

/// The character classes: 0 for addresses and interfaces, 1 for ipset
/// names, 2 for domains.
pub open spec fn char_class_ok(kind: u8, c: char) -> bool {
    if kind == 0 {
        iface_char_ok(c)
    } else if kind == 1 {
        ipset_char_ok(c)
    } else {
        domain_char_ok(c)
    }
}

/// Whether every character of `s` is in the class that `kind` names.
fn all_chars_ok(s: &str, kind: u8) -> (r: bool)
    requires
        kind <= 2,
    ensures
        r == (forall|i: int| 0 <= i < s@.len() ==> char_class_ok(kind, #[trigger] s@[i])),
{
    let v = chars_of(s);
    let mut i: usize = 0;
    while i < v.len()
        invariant
            v@ == s@,
            kind <= 2,
            i <= v.len(),
            forall|j: int| 0 <= j < i ==> char_class_ok(kind, #[trigger] v@[j]),
        decreases v.len() - i,
    {
        let c = v[i];
        let alnum = ('0' <= c && c <= '9') || ('a' <= c && c <= 'z') || ('A' <= c && c <= 'Z');
        let ok = if kind == 0 {
            alnum || c == '.' || c == ':' || c == '/' || c == '-' || c == '_' || c == '@'
        } else if kind == 1 {
            alnum || c == '_' || c == '-'
        } else {
            alnum || c == '.' || c == '-'
        };
        assert(ok == char_class_ok(kind, c));
        if !ok {
            assert(v@[i as int] == c);
            return false;
        }
        i = i + 1;
    }
    true
}

/// Checks that an address or interface name holds only safe characters.
pub fn validate_ip_or_iface(value: &str, field: &str) -> (r: Result<(), String>)
    ensures
        unit_view(r) == ip_or_iface_check(value@, field@),
{
    proof {
        lemma_encode_empty(value@);
    }
    if value.len() == 0 || utf8_len_exceeds(value, 64) {
        let mut m = string_of(field);
        append_str(&mut m, " boş veya çok uzun");
        return Err(m);
    }
    if !all_chars_ok(value, 0) {
        let ghost bad = choose|i: int| 0 <= i < value@.len() && !char_class_ok(0, value@[i]);
        assert(!iface_char_ok(value@[bad]));
        let mut m = string_of(field);
        append_str(&mut m, " geçersiz karakter içeriyor: ");
        let d = debug_text(value);
        append_str(&mut m, d.as_str());
        return Err(m);
    }
    assert forall|i: int| 0 <= i < value@.len() implies iface_char_ok(#[trigger] value@[i]) by {
        assert(char_class_ok(0, value@[i]));
    }
    Ok(())
}

/// Checks CIDR notation of the given family: `192.168.1.0/24` or
/// `2001:db8::/32`, or a single address.
pub fn validate_cidr(value: &str, family: IpFamily) -> (r: Result<(), String>)
    ensures
        unit_view(r) == cidr_check(value@, family),
{
    match validate_ip_or_iface(value, "destination") {
        Err(e) => return Err(e),
        Ok(_) => {},
    }
    let v = chars_of(value);
    let n = v.len();
    assert(v@.subrange(0, n as int) =~= value@);
    let slash = find_char(&v, 0, n, '/');
    let ip_end = match slash {
        Some(k) => {
            proof {
                lemma_first_index_unique(value@, '/', k as int);
                assert(value@.take(k as int) =~= v@.subrange(0, k as int));
            }
            k
        },
        None => n,
    };
    match ip_family_at(&v, 0, ip_end) {
        None => {
            let mut m = string_of("Geçersiz IP adresi: ");
            let ip = string_of_range(&v, 0, ip_end, false);
            append_str(&mut m, ip.as_str());
            Err(m)
        },
        Some(f) => {
            if f != family {
                let mut m = string_of("IP ailesi uyuşmuyor: ");
                append_str(&mut m, value);
                return Err(m);
            }
            match slash {
                None => Ok(()),
                Some(k) => {
                    assert(value@.skip(k + 1) =~= v@.subrange(k + 1, n as int));
                    match parse_u8_at(&v, k + 1, n) {
                        None => {
                            let mut m = string_of("Geçersiz CIDR prefix: ");
                            let p = string_of_range(&v, k + 1, n, false);
                            append_str(&mut m, p.as_str());
                            Err(m)
                        },
                        Some(p) => {
                            let max: u8 = match family {
                                IpFamily::V4 => 32,
                                IpFamily::V6 => 128,
                            };
                            if p > max {
                                let mut m = string_of("CIDR prefix ");
                                push_decimal(&mut m, p as u64);
                                append_str(&mut m, " çok büyük");
                                Err(m)
                            } else {
                                Ok(())
                            }
                        },
                    }
                },
            }
        },
    }
}

/// Checks an ipset name.
pub fn validate_ipset_name(name: &str) -> (r: Result<(), String>)
    ensures
        unit_view(r) == ipset_name_check(name@),
{
    proof {
        lemma_encode_empty(name@);
    }
    if name.len() == 0 || utf8_len_exceeds(name, 31) {
        let mut m = string_of("ipset adı geçersiz uzunluk: ");
        let d = debug_text(name);
        append_str(&mut m, d.as_str());
        return Err(m);
    }
    if !starts_with_str(name, "routelane") {
        let mut m = string_of("ipset adı 'routelane' ile başlamalı: ");
        let d = debug_text(name);
        append_str(&mut m, d.as_str());
        return Err(m);
    }
    if !all_chars_ok(name, 1) {
        let ghost bad = choose|i: int| 0 <= i < name@.len() && !char_class_ok(1, name@[i]);
        assert(!ipset_char_ok(name@[bad]));
        let mut m = string_of("ipset adı geçersiz karakter içeriyor: ");
        let d = debug_text(name);
        append_str(&mut m, d.as_str());
        return Err(m);
    }
    assert forall|i: int| 0 <= i < name@.len() implies ipset_char_ok(#[trigger] name@[i]) by {
        assert(char_class_ok(1, name@[i]));
    }
    Ok(())
}

/// Checks a domain for a dnsmasq file name and directive.
pub fn validate_domain(domain: &str) -> (r: Result<(), String>)
    ensures
        unit_view(r) == domain_check(domain@),
{
    proof {
        lemma_encode_empty(domain@);
    }
    if domain.len() == 0 || utf8_len_exceeds(domain, 253) {
        return Err(string_of("domain geçersiz uzunluk"));
    }
    if !all_chars_ok(domain, 2) {
        let ghost bad = choose|i: int| 0 <= i < domain@.len() && !char_class_ok(2, domain@[i]);
        assert(!domain_char_ok(domain@[bad]));
        let mut m = string_of("domain geçersiz karakter: ");
        let d = debug_text(domain);
        append_str(&mut m, d.as_str());
        return Err(m);
    }
    assert forall|i: int| 0 <= i < domain@.len() implies domain_char_ok(#[trigger] domain@[i]) by {
        assert(char_class_ok(2, domain@[i]));
    }
    Ok(())
}


// ── Planned actions ─────────────────────────────────────────────────────────

/// What the helper runs for one operation that passed its checks.
#[derive(Debug)]
pub enum HelperAction {
    /// `/sbin/ip -4|-6 <args>`; a failure is an error unless ignored.
    RunIp { family: IpFamily, args: Vec<String>, ignore_failure: bool },
    /// `<bin> <args>`; a failure is an error.
    RunCmd { bin: String, args: Vec<String> },
    /// Deletes every rule whose priority lies in `[min, max]`.
    FlushRules { family: IpFamily, min: u32, max: u32 },
    /// `/sbin/ipset <args>` that creates a set; a set of that name that
    /// already exists is no error.
    IpsetCreate { name: String, args: Vec<String> },
    /// `ipset flush <name>` and `ipset destroy <name>`; failures are ignored.
    IpsetDestroy { name: String },
    /// Writes a file.
    WriteFile { path: String, content: String },
    /// Removes a file; a failure is ignored.
    RemoveFile { path: String },
    /// `pkill -HUP dnsmasq`, and starting dnsmasq where that fails.
    ReloadDnsmasq,
}

pub enum ActionView {
    RunIp { family: IpFamily, args: Seq<Seq<char>>, ignore_failure: bool },
    RunCmd { bin: Seq<char>, args: Seq<Seq<char>> },
    FlushRules { family: IpFamily, min: u32, max: u32 },
    IpsetCreate { name: Seq<char>, args: Seq<Seq<char>> },
    IpsetDestroy { name: Seq<char> },
    WriteFile { path: Seq<char>, content: Seq<char> },
    RemoveFile { path: Seq<char> },
    ReloadDnsmasq,
}

impl View for HelperAction {
    type V = ActionView;

    open spec fn view(&self) -> ActionView {
        match self {
            HelperAction::RunIp { family, args, ignore_failure } => ActionView::RunIp {
                family: *family,
                args: texts_of(args@),
                ignore_failure: *ignore_failure,
            },
            HelperAction::RunCmd { bin, args } => ActionView::RunCmd {
                bin: bin@,
                args: texts_of(args@),
            },
            HelperAction::FlushRules { family, min, max } => ActionView::FlushRules {
                family: *family,
                min: *min,
                max: *max,
            },
            HelperAction::IpsetCreate { name, args } => ActionView::IpsetCreate {
                name: name@,
                args: texts_of(args@),
            },
            HelperAction::IpsetDestroy { name } => ActionView::IpsetDestroy { name: name@ },
            HelperAction::WriteFile { path, content } => ActionView::WriteFile {
                path: path@,
                content: content@,
            },
            HelperAction::RemoveFile { path } => ActionView::RemoveFile { path: path@ },
            HelperAction::ReloadDnsmasq => ActionView::ReloadDnsmasq,
        }
    }
}

pub open spec fn plan_view(r: Result<HelperAction, String>) -> Result<ActionView, Seq<char>> {
    match r {
        Ok(a) => Ok(a@),
        Err(e) => Err(e@),
    }
}

/// The first failed check, or else the action.
pub open spec fn then(check: Result<(), Seq<char>>, next: Result<ActionView, Seq<char>>) -> Result<
    ActionView,
    Seq<char>,
> {
    match check {
        Err(e) => Err(e),
        Ok(_) => next,
    }
}

pub open spec fn mark_text(mark: u32) -> Seq<char> {
    "0x"@ + hex_text(mark as nat)
}

pub open spec fn dnsmasq_entry_path(domain: Seq<char>) -> Seq<char> {
    "/etc/dnsmasq.d/routelane-"@ + domain + ".conf"@
}

pub open spec fn dnsmasq_entry_content(domain: Seq<char>) -> Seq<char> {
    "# routelane managed — do not edit\nipset=/"@ + domain + "/routelane4,routelane6\n"@
}

/// An address of either family.
pub open spec fn any_cidr_check(ip: Seq<char>) -> Result<(), Seq<char>> {
    match cidr_check(ip, IpFamily::V4) {
        Ok(_) => Ok(()),
        Err(_) => cidr_check(ip, IpFamily::V6),
    }
}

/// What the helper does with one operation: the checks that it must pass,
/// in order, and the one action that it then becomes.
pub open spec fn plan(op: OpView) -> Result<ActionView, Seq<char>> {
    match op {
        OpView::AddRoute { gateway, interface, table, family } => then(
            table_check(table),
            then(
                ip_or_iface_check(gateway, "gateway"@),
                then(
                    ip_or_iface_check(interface, "interface"@),
                    Ok(
                        ActionView::RunIp {
                            family,
                            args: seq![
                                "route"@,
                                "replace"@,
                                "default"@,
                                "via"@,
                                gateway,
                                "dev"@,
                                interface,
                                "table"@,
                                dec_text(table as nat),
                            ],
                            ignore_failure: false,
                        },
                    ),
                ),
            ),
        ),
        OpView::AddRule { destination, table, priority, family } => then(
            table_check(table),
            then(
                priority_check(priority),
                then(
                    cidr_check(destination, family),
                    Ok(
                        ActionView::RunIp {
                            family,
                            args: seq![
                                "rule"@,
                                "add"@,
                                "to"@,
                                destination,
                                "lookup"@,
                                dec_text(table as nat),
                                "priority"@,
                                dec_text(priority as nat),
                            ],
                            ignore_failure: false,
                        },
                    ),
                ),
            ),
        ),
        OpView::FlushRulesInRange { min_priority, max_priority, family } => if min_priority
            < PRIO_MIN || max_priority > PRIO_MAX {
            Err(
                "Öncelik aralığı ["@ + dec_text(min_priority as nat) + ","@ + dec_text(
                    max_priority as nat,
                ) + "] izin verilen [10000,10999] dışında"@,
            )
        } else {
            Ok(ActionView::FlushRules { family, min: min_priority, max: max_priority })
        },
        OpView::FlushTable { table, family } => then(
            table_check(table),
            Ok(
                ActionView::RunIp {
                    family,
                    args: seq!["route"@, "flush"@, "table"@, dec_text(table as nat)],
                    ignore_failure: true,
                },
            ),
        ),
        OpView::IpsetCreate { name, family, timeout_secs } => then(
            ipset_name_check(name),
            if !(family == "inet"@ || family == "inet6"@) {
                Err("Geçersiz ipset family: "@ + family)
            } else if timeout_secs > 86400 {
                Err("timeout_secs çok büyük (max 86400)"@)
            } else {
                Ok(
                    ActionView::IpsetCreate {
                        name,
                        args: seq![
                            "create"@,
                            name,
                            "hash:ip"@,
                            "timeout"@,
                            dec_text(timeout_secs as nat),
                            "family"@,
                            family,
                        ],
                    },
                )
            },
        ),
        OpView::IpsetAdd { name, ip } => then(
            ipset_name_check(name),
            then(
                any_cidr_check(ip),
                Ok(
                    ActionView::RunCmd {
                        bin: "/sbin/ipset"@,
                        args: seq!["add"@, name, ip, "-exist"@],
                    },
                ),
            ),
        ),
        OpView::IpsetDestroy { name } => then(
            ipset_name_check(name),
            Ok(ActionView::IpsetDestroy { name }),
        ),
        OpView::IptablesMark { chain, action, ipset_name, mark } => if !(chain == "OUTPUT"@
            || chain == "PREROUTING"@) {
            Err("Geçersiz chain: "@ + chain)
        } else if !(action == "-A"@ || action == "-D"@) {
            Err("Geçersiz action: "@ + action)
        } else {
            then(
                ipset_name_check(ipset_name),
                Ok(
                    ActionView::RunCmd {
                        bin: "/sbin/iptables"@,
                        args: seq![
                            "-t"@,
                            "mangle"@,
                            action,
                            chain,
                            "-m"@,
                            "set"@,
                            "--match-set"@,
                            ipset_name,
                            "dst"@,
                            "-j"@,
                            "MARK"@,
                            "--set-mark"@,
                            mark_text(mark),
                        ],
                    },
                ),
            )
        },
        OpView::AddFwmarkRule { mark, table, priority } => then(
            table_check(table),
            then(
                priority_check(priority),
                Ok(
                    ActionView::RunIp {
                        family: IpFamily::V4,
                        args: seq![
                            "rule"@,
                            "add"@,
                            "fwmark"@,
                            mark_text(mark),
                            "lookup"@,
                            dec_text(table as nat),
                            "priority"@,
                            dec_text(priority as nat),
                        ],
                        ignore_failure: false,
                    },
                ),
            ),
        ),
        OpView::DelFwmarkRule { mark } => Ok(
            ActionView::RunIp {
                family: IpFamily::V4,
                args: seq!["rule"@, "del"@, "fwmark"@, mark_text(mark)],
                ignore_failure: true,
            },
        ),
        OpView::WriteDnsmasqEntry { domain } => then(
            domain_check(domain),
            Ok(
                ActionView::WriteFile {
                    path: dnsmasq_entry_path(domain),
                    content: dnsmasq_entry_content(domain),
                },
            ),
        ),
        OpView::RemoveDnsmasqEntry { domain } => then(
            domain_check(domain),
            Ok(ActionView::RemoveFile { path: dnsmasq_entry_path(domain) }),
        ),
        OpView::ReloadDnsmasq => Ok(ActionView::ReloadDnsmasq),
    }
}

/// `s` as an owned string.
fn owned(s: &str) -> (r: String)
    ensures
        r@ == s@,
{
    string_of(s)
}

/// A number in decimal as a string.
fn dec_string(n: u32) -> (r: String)
    ensures
        r@ == dec_text(n as nat),
{
    let mut s = String::new();
    push_decimal(&mut s, n as u64);
    assert(Seq::<char>::empty() + dec_text(n as nat) =~= dec_text(n as nat));
    s
}

/// A firewall mark as `0x` and lower-case hexadecimal.
fn mark_string(mark: u32) -> (r: String)
    ensures
        r@ == mark_text(mark),
{
    let mut s = string_of("0x");
    push_hex(&mut s, mark as u64);
    s
}

fn plan_add_route(gateway: &String, interface: &String, table: u32, family: IpFamily) -> (r:
    Result<HelperAction, String>)
    ensures
        plan_view(r) == plan(
            OpView::AddRoute { gateway: gateway@, interface: interface@, table, family },
        ),
{
    match validate_table(table) {
        Err(e) => return Err(e),
        Ok(_) => {},
    }
    match validate_ip_or_iface(gateway.as_str(), "gateway") {
        Err(e) => return Err(e),
        Ok(_) => {},
    }
    match validate_ip_or_iface(interface.as_str(), "interface") {
        Err(e) => return Err(e),
        Ok(_) => {},
    }
    let mut args: Vec<String> = Vec::new();
    args.push(owned("route"));
    args.push(owned("replace"));
    args.push(owned("default"));
    args.push(owned("via"));
    args.push(gateway.clone());
    args.push(owned("dev"));
    args.push(interface.clone());
    args.push(owned("table"));
    args.push(dec_string(table));
    let r = HelperAction::RunIp { family, args, ignore_failure: false };
    assert(texts_of(args@) =~= seq![
        "route"@,
        "replace"@,
        "default"@,
        "via"@,
        gateway@,
        "dev"@,
        interface@,
        "table"@,
        dec_text(table as nat),
    ]);
    Ok(r)
}

fn plan_add_rule(destination: &String, table: u32, priority: u32, family: IpFamily) -> (r:
    Result<HelperAction, String>)
    ensures
        plan_view(r) == plan(
            OpView::AddRule { destination: destination@, table, priority, family },
        ),
{
    match validate_table(table) {
        Err(e) => return Err(e),
        Ok(_) => {},
    }
    match validate_priority(priority) {
        Err(e) => return Err(e),
        Ok(_) => {},
    }
    match validate_cidr(destination.as_str(), family) {
        Err(e) => return Err(e),
        Ok(_) => {},
    }
    let mut args: Vec<String> = Vec::new();
    args.push(owned("rule"));
    args.push(owned("add"));
    args.push(owned("to"));
    args.push(destination.clone());
    args.push(owned("lookup"));
    args.push(dec_string(table));
    args.push(owned("priority"));
    args.push(dec_string(priority));
    assert(texts_of(args@) =~= seq![
        "rule"@,
        "add"@,
        "to"@,
        destination@,
        "lookup"@,
        dec_text(table as nat),
        "priority"@,
        dec_text(priority as nat),
    ]);
    Ok(HelperAction::RunIp { family, args, ignore_failure: false })
}

fn plan_flush_range(min_priority: u32, max_priority: u32, family: IpFamily) -> (r: Result<
    HelperAction,
    String,
>)
    ensures
        plan_view(r) == plan(OpView::FlushRulesInRange { min_priority, max_priority, family }),
{
    if min_priority < PRIO_MIN || max_priority > PRIO_MAX {
        let mut m = string_of("Öncelik aralığı [");
        push_decimal(&mut m, min_priority as u64);
        append_str(&mut m, ",");
        push_decimal(&mut m, max_priority as u64);
        append_str(&mut m, "] izin verilen [10000,10999] dışında");
        return Err(m);
    }
    Ok(HelperAction::FlushRules { family, min: min_priority, max: max_priority })
}

fn plan_flush_table(table: u32, family: IpFamily) -> (r: Result<HelperAction, String>)
    ensures
        plan_view(r) == plan(OpView::FlushTable { table, family }),
{
    match validate_table(table) {
        Err(e) => return Err(e),
        Ok(_) => {},
    }
    let mut args: Vec<String> = Vec::new();
    args.push(owned("route"));
    args.push(owned("flush"));
    args.push(owned("table"));
    args.push(dec_string(table));
    assert(texts_of(args@) =~= seq!["route"@, "flush"@, "table"@, dec_text(table as nat)]);
    Ok(HelperAction::RunIp { family, args, ignore_failure: true })
}

fn plan_ipset_create(name: &String, family: &String, timeout_secs: u32) -> (r: Result<
    HelperAction,
    String,
>)
    ensures
        plan_view(r) == plan(
            OpView::IpsetCreate { name: name@, family: family@, timeout_secs },
        ),
{
    match validate_ipset_name(name.as_str()) {
        Err(e) => return Err(e),
        Ok(_) => {},
    }
    if !(str_eq(family.as_str(), "inet") || str_eq(family.as_str(), "inet6")) {
        let mut m = string_of("Geçersiz ipset family: ");
        append_str(&mut m, family.as_str());
        return Err(m);
    }
    if timeout_secs > 86400 {
        return Err(string_of("timeout_secs çok büyük (max 86400)"));
    }
    let mut args: Vec<String> = Vec::new();
    args.push(owned("create"));
    args.push(name.clone());
    args.push(owned("hash:ip"));
    args.push(owned("timeout"));
    args.push(dec_string(timeout_secs));
    args.push(owned("family"));
    args.push(family.clone());
    assert(texts_of(args@) =~= seq![
        "create"@,
        name@,
        "hash:ip"@,
        "timeout"@,
        dec_text(timeout_secs as nat),
        "family"@,
        family@,
    ]);
    Ok(HelperAction::IpsetCreate { name: name.clone(), args })
}

fn plan_ipset_add(name: &String, ip: &String) -> (r: Result<HelperAction, String>)
    ensures
        plan_view(r) == plan(OpView::IpsetAdd { name: name@, ip: ip@ }),
{
    match validate_ipset_name(name.as_str()) {
        Err(e) => return Err(e),
        Ok(_) => {},
    }
    match validate_cidr(ip.as_str(), IpFamily::V4) {
        Ok(_) => {},
        Err(_) => match validate_cidr(ip.as_str(), IpFamily::V6) {
            Err(e) => return Err(e),
            Ok(_) => {},
        },
    }
    let mut args: Vec<String> = Vec::new();
    args.push(owned("add"));
    args.push(name.clone());
    args.push(ip.clone());
    args.push(owned("-exist"));
    assert(texts_of(args@) =~= seq!["add"@, name@, ip@, "-exist"@]);
    Ok(HelperAction::RunCmd { bin: owned("/sbin/ipset"), args })
}

fn plan_iptables_mark(chain: &String, action: &String, ipset_name: &String, mark: u32) -> (r:
    Result<HelperAction, String>)
    ensures
        plan_view(r) == plan(
            OpView::IptablesMark {
                chain: chain@,
                action: action@,
                ipset_name: ipset_name@,
                mark,
            },
        ),
{
    if !(str_eq(chain.as_str(), "OUTPUT") || str_eq(chain.as_str(), "PREROUTING")) {
        let mut m = string_of("Geçersiz chain: ");
        append_str(&mut m, chain.as_str());
        return Err(m);
    }
    if !(str_eq(action.as_str(), "-A") || str_eq(action.as_str(), "-D")) {
        let mut m = string_of("Geçersiz action: ");
        append_str(&mut m, action.as_str());
        return Err(m);
    }
    match validate_ipset_name(ipset_name.as_str()) {
        Err(e) => return Err(e),
        Ok(_) => {},
    }
    let mut args: Vec<String> = Vec::new();
    args.push(owned("-t"));
    args.push(owned("mangle"));
    args.push(action.clone());
    args.push(chain.clone());
    args.push(owned("-m"));
    args.push(owned("set"));
    args.push(owned("--match-set"));
    args.push(ipset_name.clone());
    args.push(owned("dst"));
    args.push(owned("-j"));
    args.push(owned("MARK"));
    args.push(owned("--set-mark"));
    args.push(mark_string(mark));
    assert(texts_of(args@) =~= seq![
        "-t"@,
        "mangle"@,
        action@,
        chain@,
        "-m"@,
        "set"@,
        "--match-set"@,
        ipset_name@,
        "dst"@,
        "-j"@,
        "MARK"@,
        "--set-mark"@,
        mark_text(mark),
    ]);
    Ok(HelperAction::RunCmd { bin: owned("/sbin/iptables"), args })
}

fn plan_fwmark_rule(mark: u32, table: u32, priority: u32) -> (r: Result<HelperAction, String>)
    ensures
        plan_view(r) == plan(OpView::AddFwmarkRule { mark, table, priority }),
{
    match validate_table(table) {
        Err(e) => return Err(e),
        Ok(_) => {},
    }
    match validate_priority(priority) {
        Err(e) => return Err(e),
        Ok(_) => {},
    }
    let mut args: Vec<String> = Vec::new();
    args.push(owned("rule"));
    args.push(owned("add"));
    args.push(owned("fwmark"));
    args.push(mark_string(mark));
    args.push(owned("lookup"));
    args.push(dec_string(table));
    args.push(owned("priority"));
    args.push(dec_string(priority));
    assert(texts_of(args@) =~= seq![
        "rule"@,
        "add"@,
        "fwmark"@,
        mark_text(mark),
        "lookup"@,
        dec_text(table as nat),
        "priority"@,
        dec_text(priority as nat),
    ]);
    Ok(HelperAction::RunIp { family: IpFamily::V4, args, ignore_failure: false })
}

fn plan_del_fwmark(mark: u32) -> (r: Result<HelperAction, String>)
    ensures
        plan_view(r) == plan(OpView::DelFwmarkRule { mark }),
{
    let mut args: Vec<String> = Vec::new();
    args.push(owned("rule"));
    args.push(owned("del"));
    args.push(owned("fwmark"));
    args.push(mark_string(mark));
    assert(texts_of(args@) =~= seq!["rule"@, "del"@, "fwmark"@, mark_text(mark)]);
    Ok(HelperAction::RunIp { family: IpFamily::V4, args, ignore_failure: true })
}

/// The dnsmasq file of a domain.
fn dnsmasq_entry_path_string(domain: &String) -> (r: String)
    ensures
        r@ == dnsmasq_entry_path(domain@),
{
    let mut p = string_of("/etc/dnsmasq.d/routelane-");
    append_str(&mut p, domain.as_str());
    append_str(&mut p, ".conf");
    p
}

fn plan_write_dnsmasq(domain: &String) -> (r: Result<HelperAction, String>)
    ensures
        plan_view(r) == plan(OpView::WriteDnsmasqEntry { domain: domain@ }),
{
    match validate_domain(domain.as_str()) {
        Err(e) => return Err(e),
        Ok(_) => {},
    }
    let mut content = string_of("# routelane managed — do not edit\nipset=/");
    append_str(&mut content, domain.as_str());
    append_str(&mut content, "/routelane4,routelane6\n");
    Ok(HelperAction::WriteFile { path: dnsmasq_entry_path_string(domain), content })
}

fn plan_remove_dnsmasq(domain: &String) -> (r: Result<HelperAction, String>)
    ensures
        plan_view(r) == plan(OpView::RemoveDnsmasqEntry { domain: domain@ }),
{
    match validate_domain(domain.as_str()) {
        Err(e) => return Err(e),
        Ok(_) => {},
    }
    Ok(HelperAction::RemoveFile { path: dnsmasq_entry_path_string(domain) })
}

/// Validates one operation and plans the one action that carries it out;
/// an operation that fails a check is refused with that check's message and
/// runs nothing.
pub fn execute_op(op: &HelperOp) -> (r: Result<HelperAction, String>)
    ensures
        plan_view(r) == plan(op@),
{
    match op {
        HelperOp::AddRoute { gateway, interface, table, family } => plan_add_route(
            gateway,
            interface,
            *table,
            *family,
        ),
        HelperOp::AddRule { destination, table, priority, family } => plan_add_rule(
            destination,
            *table,
            *priority,
            *family,
        ),
        HelperOp::FlushRulesInRange { min_priority, max_priority, family } => plan_flush_range(
            *min_priority,
            *max_priority,
            *family,
        ),
        HelperOp::FlushTable { table, family } => plan_flush_table(*table, *family),
        HelperOp::IpsetCreate { name, family, timeout_secs } => plan_ipset_create(
            name,
            family,
            *timeout_secs,
        ),
        HelperOp::IpsetAdd { name, ip } => plan_ipset_add(name, ip),
        HelperOp::IpsetDestroy { name } => {
            match validate_ipset_name(name.as_str()) {
                Err(e) => return Err(e),
                Ok(_) => {},
            }
            Ok(HelperAction::IpsetDestroy { name: name.clone() })
        },
        HelperOp::IptablesMark { chain, action, ipset_name, mark } => plan_iptables_mark(
            chain,
            action,
            ipset_name,
            *mark,
        ),
        HelperOp::AddFwmarkRule { mark, table, priority } => plan_fwmark_rule(
            *mark,
            *table,
            *priority,
        ),
        HelperOp::DelFwmarkRule { mark } => plan_del_fwmark(*mark),
        HelperOp::WriteDnsmasqEntry { domain } => plan_write_dnsmasq(domain),
        HelperOp::RemoveDnsmasqEntry { domain } => plan_remove_dnsmasq(domain),
        HelperOp::ReloadDnsmasq => Ok(HelperAction::ReloadDnsmasq),
    }
}

// ── Running the actions ─────────────────────────────────────────────────────

/// The `ip` option of a family.
pub open spec fn family_flag(f: IpFamily) -> Seq<char> {
    match f {
        IpFamily::V4 => "-4"@,
        IpFamily::V6 => "-6"@,
    }
}

pub fn family_arg(f: IpFamily) -> (r: &'static str)
    ensures
        r@ == family_flag(f),
{
    match f {
        IpFamily::V4 => "-4",
        IpFamily::V6 => "-6",
    }
}

/// The error of a command that failed: the command line and its trimmed
/// error output.
pub open spec fn command_failure_text(bin: Seq<char>, args: Seq<Seq<char>>, stderr: Seq<char>) -> Seq<
    char,
> {
    bin + " "@ + join(args, " "@) + " başarısız: "@ + trim(stderr, false)
}

pub fn command_failure(bin: &str, args: &Vec<String>, stderr: &str) -> (r: String)
    ensures
        r@ == command_failure_text(bin@, texts_of(args@), stderr@),
{
    let mut m = string_of(bin);
    append_str(&mut m, " ");
    let j = join_strings(args, " ");
    append_str(&mut m, j.as_str());
    append_str(&mut m, " başarısız: ");
    let t = trim_str(stderr);
    append_str(&mut m, t.as_str());
    m
}

/// The error of an `ip` command that failed: its arguments, its exit
/// status as the system words it, and its trimmed error output.
pub open spec fn ip_failure_text(args: Seq<Seq<char>>, status: Seq<char>, stderr: Seq<char>) -> Seq<
    char,
> {
    "ip "@ + join(args, " "@) + " başarısız ("@ + status + "): "@ + trim(stderr, false)
}

pub fn ip_failure(args: &Vec<String>, status: &str, stderr: &str) -> (r: String)
    ensures
        r@ == ip_failure_text(texts_of(args@), status@, stderr@),
{
    let mut m = string_of("ip ");
    let j = join_strings(args, " ");
    append_str(&mut m, j.as_str());
    append_str(&mut m, " başarısız (");
    append_str(&mut m, status);
    append_str(&mut m, "): ");
    let t = trim_str(stderr);
    append_str(&mut m, t.as_str());
    m
}

/// The error of a program that could not be started.
pub open spec fn start_failure_text(what: Seq<char>, detail: Seq<char>) -> Seq<char> {
    what + ": "@ + detail
}

pub fn start_failure(what: &str, detail: &str) -> (r: String)
    ensures
        r@ == start_failure_text(what@, detail@),
{
    let mut m = string_of(what);
    append_str(&mut m, ": ");
    append_str(&mut m, detail);
    m
}

/// The error of a program that could not be started, by its path.
pub fn command_start_failure(bin: &str, detail: &str) -> (r: String)
    ensures
        r@ == bin@ + " başlatılamadı: "@ + detail@,
{
    let mut m = string_of(bin);
    append_str(&mut m, " başlatılamadı: ");
    append_str(&mut m, detail);
    m
}

/// The error when a dnsmasq file could not be written.
pub fn write_failure(path: &str, detail: &str) -> (r: String)
    ensures
        r@ == "dnsmasq config yazılamadı "@ + path@ + ": "@ + detail@,
{
    let mut m = string_of("dnsmasq config yazılamadı ");
    append_str(&mut m, path);
    append_str(&mut m, ": ");
    append_str(&mut m, detail);
    m
}

/// How the helper's creation of an ipset went: a set that already exists
/// is no error.
pub open spec fn ipset_created(name: Seq<char>, success: bool, stderr: Seq<char>) -> Result<(), Seq<char>> {
    if success || has_infix(stderr, "already exists"@) {
        Ok(())
    } else {
        Err("ipset create "@ + name + ": "@ + trim(stderr, false))
    }
}

pub fn ipset_create_result(name: &str, success: bool, stderr: &str) -> (r: Result<(), String>)
    ensures
        unit_view(r) == ipset_created(name@, success, stderr@),
{
    if success || contains_str(stderr, "already exists") {
        Ok(())
    } else {
        let mut m = string_of("ipset create ");
        append_str(&mut m, name);
        append_str(&mut m, ": ");
        let t = trim_str(stderr);
        append_str(&mut m, t.as_str());
        Err(m)
    }
}

/// The next round of flushing a priority range, from what
/// `ip --json rule list` printed: the priorities of the listed rules in the
/// range, in order, to delete one rule each; `None` when there is none and
/// the flush is done.
pub fn flush_next(listing: &[u8], min: u32, max: u32) -> (r: Option<Vec<u32>>)
    ensures
        match r {
            None => priorities_in(entries_or_empty(listing@), min, max).len() == 0,
            Some(v) => v.len() > 0 && v@ == priorities_in(entries_or_empty(listing@), min, max),
        },
{
    let targets = flush_targets(listing, min, max);
    if targets.len() == 0 {
        None
    } else {
        Some(targets)
    }
}

/// Whether the flush lists the rules again after a round of deletions:
/// only when one of them succeeded, so that a rule that cannot be deleted
/// does not keep the helper looping.
pub fn flush_continues(deleted: &Vec<bool>) -> (r: bool)
    ensures
        r == exists|i: int| 0 <= i < deleted.len() && deleted[i],
{
    let mut i: usize = 0;
    while i < deleted.len()
        invariant
            i <= deleted.len(),
            forall|j: int| 0 <= j < i ==> !deleted[j],
        decreases deleted.len() - i,
    {
        if deleted[i] {
            return true;
        }
        i = i + 1;
    }
    false
}

/// The `ip` arguments that delete one rule of a priority.
pub fn rule_del_args(priority: u32) -> (r: Vec<String>)
    ensures
        texts_of(r@) == seq!["rule"@, "del"@, "priority"@, dec_text(priority as nat)],
{
    let mut r: Vec<String> = Vec::new();
    r.push(string_of("rule"));
    r.push(string_of("del"));
    r.push(string_of("priority"));
    r.push(dec_string(priority));
    assert(texts_of(r@) =~= seq!["rule"@, "del"@, "priority"@, dec_text(priority as nat)]);
    r
}

/// The answer to a request: success exactly when no operation failed, with
/// the errors in the order of the operations.
pub fn helper_response(errors: Vec<String>) -> (r: HelperResponse)
    ensures
        r.success == (errors.len() == 0),
        r.errors@ == errors@,
{
    let success = errors.len() == 0;
    HelperResponse { success, errors }
}

/// The answer when the request could not be read at all.
pub fn error_response(message: &str) -> (r: HelperResponse)
    ensures
        !r.success,
        texts_of(r.errors@) == seq![message@],
{
    let mut errors: Vec<String> = Vec::new();
    errors.push(string_of(message));
    assert(texts_of(errors@) =~= seq![message@]);
    HelperResponse { success: false, errors }
}

} // verus!
